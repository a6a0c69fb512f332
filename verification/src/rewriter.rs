//! The rewriting walk: inference over the whole module, with every markup
//! expression compiled where the walk meets it.

use crate::ast::expr::{
    ArrowExpr, AssignTarget, BlockStmtOrExpr, Callee, Decl, DefaultDecl, Expr, ExprOrSpread,
    Function, JSXAttrOrSpread, JSXAttrValue, JSXElement, JSXElementChild, JSXExpr, ModuleItem,
    Node, Opaque, Pat, Program, Prop, PropName, PropOrSpread, Stmt, Tpl, VarDecl, VarDeclarator,
};
use crate::ast::view::{
    expr_or_spreads_view, exprs_view, jsx_attrs_view, jsx_children_view, module_items_view,
    nodes_view, opt_expr_or_spreads_view, opt_pats_view, pats_view, prop_or_spreads_view,
    stmts_view, strings_view, var_declarators_view, ArrowExprView, AssignTargetView,
    BlockStmtOrExprView, CalleeView, DeclView, DefaultDeclView, ExprOrSpreadView, ExprView,
    FunctionView, JSXAttrOrSpreadView, JSXAttrValueView, JSXElementChildView, JSXElementView,
    JSXExprView, ModuleItemView, NodeView, ObjectLitView, OpaqueView, PatView, PropNameView,
    PropOrSpreadView, PropView, StmtView, TplView, VarDeclView, VarDeclaratorView,
};
use crate::error::CompileError;
use crate::names::is_random_name;
use crate::rewriting::{
    agrees, ctx_of, rw_arg, rw_args, rw_arrow, rw_arrow_body, rw_callee, rw_decl,
    rw_declarator, rw_declarators, rw_default_decl, rw_elem, rw_elems, rw_expr, rw_exprs,
    rw_function, rw_jsx_attr, rw_jsx_attr_value, rw_jsx_attrs, rw_jsx_child, rw_jsx_children,
    rw_jsx_element, rw_jsx_expr, rw_module_item, rw_module_items, rw_node, rw_nodes, rw_opt_pat,
    rw_opt_pats, rw_pat, rw_pats, rw_prop, rw_prop_name, rw_props, rw_site, rw_stmt, rw_stmts,
    rw_target, RwState, SiteNames,
};
use crate::unfold::bindings::{lemma_rw_node, lemma_rw_opt_pat, lemma_rw_pat, lemma_rw_stmt};
use crate::unfold::decls::{
    lemma_rw_decl, lemma_rw_declarator, lemma_rw_default_decl, lemma_rw_function,
    lemma_rw_module_item,
};
use crate::unfold::exprs::{
    lemma_rw_arrow, lemma_rw_arrow_body, lemma_rw_callee, lemma_rw_expr, lemma_rw_target,
};
use crate::unfold::markup::{
    lemma_rw_jsx_attr, lemma_rw_jsx_attr_value, lemma_rw_jsx_child, lemma_rw_jsx_element,
    lemma_rw_jsx_expr,
};
use crate::unfold::operands::{lemma_rw_arg, lemma_rw_elem, lemma_rw_prop, lemma_rw_prop_name};
use crate::unfold::seq_bindings::{
    lemma_rw_nodes, lemma_rw_opt_pats, lemma_rw_pats, lemma_rw_stmts,
};
use crate::unfold::seq_items::{
    lemma_rw_declarators, lemma_rw_jsx_attrs, lemma_rw_jsx_children, lemma_rw_module_items,
};
use crate::unfold::seq_operands::{lemma_rw_args, lemma_rw_elems, lemma_rw_exprs, lemma_rw_props};
use crate::streaming::{lower_top_level, spec_lower_top_level, top_level_outcome, StreamNamesView};
use crate::style_name::{StyleNameCache, StyleNameCacheView};
use crate::transpiler::TranspileVisitor;
use crate::typecheck::{any_return, opt_expr_view, opt_stmts_view, TypecheckerView};
use vstd::prelude::*;

verus! {

/// Names that stand at the start of a sequence stand at the start of every
/// longer one that agrees with it.
pub proof fn lemma_agrees_trans(o: Seq<SiteNames>, b: Seq<SiteNames>, a: Seq<SiteNames>)
    requires
        agrees(o, b),
        agrees(b, a),
    ensures
        agrees(o, a),
{
    assert forall|i: int| 0 <= i < a.len() implies #[trigger] o[i] == a[i] by {
        assert(b[i] == a[i]);
    }
}

/// Every sequence of names begins with itself.
pub proof fn lemma_agrees_refl(a: Seq<SiteNames>)
    ensures
        agrees(a, a),
{
}

/// The view of an optional argument.
pub open spec fn opt_arg_view(x: Option<ExprOrSpread>) -> Option<ExprOrSpreadView> {
    match x {
        Some(a) => Some(a@),
        None => None,
    }
}

/// The view of an optional pattern.
pub open spec fn opt_pat_view(x: Option<Pat>) -> Option<PatView> {
    match x {
        Some(p) => Some(p@),
        None => None,
    }
}

/// Whether the random names of a site have the shape of generated names.
pub open spec fn site_names_fresh(w: SiteNames) -> bool {
    &&& w.names.fresh()
    &&& forall|i: int| 0 <= i < w.script_ids.len()
        ==> is_random_name(#[trigger] w.script_ids[i], 12)
}

/// Whether all the names drawn so far have the shape of generated names.
pub open spec fn all_fresh(drawn: Seq<SiteNames>) -> bool {
    forall|i: int| 0 <= i < drawn.len() ==> site_names_fresh(#[trigger] drawn[i])
}

impl TranspileVisitor {
    /// The state of the rewriting walk, with `cache` as the cache of style
    /// names.
    pub open spec fn state(&self, cache: StyleNameCacheView) -> RwState {
        RwState { tc: self.typechecker@, cache, sites: self.drawn@.len() }
    }

    /// Walks a sequence of expressions in order.
    pub fn visit_exprs(
        &mut self,
        s: Vec<Expr>,
        cache: &mut StyleNameCache,
    ) -> (r: Result<Vec<Expr>, CompileError>)
        ensures
            agrees(final(self).drawn@, old(self).drawn@),
            all_fresh(old(self).drawn@) ==> all_fresh(final(self).drawn@),
            forall|o: Seq<SiteNames>| #[trigger]
                agrees(o, final(self).drawn@) ==> match rw_exprs(
                    exprs_view(s@),
                    0,
                    (Seq::empty(), old(self).state(old(cache)@)),
                    o,
                ) {
                    Ok((x, st)) => r matches Ok(got)
                        && exprs_view(got@) == x
                        && final(self).state(final(cache)@) == st,
                    Err(err) => r matches Err(got) && got == err,
                },
        decreases s, 0nat,
    {
        let ghost orig = s@;
        let ghost sv = exprs_view(s@);
        let ghost st0 = old(self).state(old(cache)@);
        let mut out: Vec<Expr> = Vec::new();
        assert(exprs_view(out@) =~= Seq::empty());
        proof {
            lemma_agrees_refl(self.drawn@);
        }
        for x in it: s
            invariant
                it.seq() == orig,
                orig == s@,
                sv == exprs_view(orig),
                decreases_to!(s => orig),
                st0 == old(self).state(old(cache)@),
                agrees(self.drawn@, old(self).drawn@),
                all_fresh(old(self).drawn@) ==> all_fresh(self.drawn@),
                forall|o: Seq<SiteNames>| #[trigger]
                    agrees(o, self.drawn@) ==> rw_exprs(
                        sv,
                        it.index() as nat,
                        (exprs_view(out@), self.state(cache@)),
                        o,
                    ) == rw_exprs(sv, 0, (Seq::empty(), st0), o),
        {
            assert(x == orig[it.index() as int]);
            let ghost k = it.index() as nat;
            let ghost before = self.drawn@;
            let ghost accb = (exprs_view(out@), self.state(cache@));
            match self.visit_expr(x, cache) {
                Ok(y) => {
                    out.push(y);
                    proof {
                        assert(exprs_view(out@) =~= accb.0.push(y@));
                        assert forall|o: Seq<SiteNames>| #[trigger]
                            agrees(o, self.drawn@) implies
                                rw_exprs(sv, k + 1, (exprs_view(out@), self.state(cache@)), o)
                                    == rw_exprs(sv, 0, (Seq::empty(), st0), o) by {
                            lemma_agrees_trans(o, self.drawn@, before);
                            lemma_rw_exprs(sv, k, accb, o);
                            assert(rw_exprs(sv, k, accb, o)
                                == rw_exprs(sv, 0, (Seq::empty(), st0), o));
                        }
                        lemma_agrees_trans(self.drawn@, before, old(self).drawn@);
                    }
                },
                Err(e) => {
                    proof {
                        assert forall|o: Seq<SiteNames>| #[trigger]
                            agrees(o, self.drawn@) implies
                                (rw_exprs(sv, 0, (Seq::empty(), st0), o) matches Err(err)
                                    && err == e) by {
                            lemma_agrees_trans(o, self.drawn@, before);
                            lemma_rw_exprs(sv, k, accb, o);
                            assert(rw_exprs(sv, k, accb, o)
                                == rw_exprs(sv, 0, (Seq::empty(), st0), o));
                        }
                        lemma_agrees_trans(self.drawn@, before, old(self).drawn@);
                    }
                    return Err(e);
                },
            }
        }
        proof {
            assert forall|o: Seq<SiteNames>| #[trigger]
                agrees(o, self.drawn@) implies
                    rw_exprs(sv, 0, (Seq::empty(), st0), o)
                        == Ok::<_, CompileError>((exprs_view(out@), self.state(cache@))) by {
                lemma_rw_exprs(sv, sv.len(), (exprs_view(out@), self.state(cache@)), o);
            }
        }
        Ok(out)
    }

    /// Walks the arguments of a call in order.
    pub fn visit_args(
        &mut self,
        s: Vec<ExprOrSpread>,
        cache: &mut StyleNameCache,
    ) -> (r: Result<Vec<ExprOrSpread>, CompileError>)
        ensures
            agrees(final(self).drawn@, old(self).drawn@),
            all_fresh(old(self).drawn@) ==> all_fresh(final(self).drawn@),
            forall|o: Seq<SiteNames>| #[trigger]
                agrees(o, final(self).drawn@) ==> match rw_args(
                    expr_or_spreads_view(s@),
                    0,
                    (Seq::empty(), old(self).state(old(cache)@)),
                    o,
                ) {
                    Ok((x, st)) => r matches Ok(got)
                        && expr_or_spreads_view(got@) == x
                        && final(self).state(final(cache)@) == st,
                    Err(err) => r matches Err(got) && got == err,
                },
        decreases s, 0nat,
    {
        let ghost orig = s@;
        let ghost sv = expr_or_spreads_view(s@);
        let ghost st0 = old(self).state(old(cache)@);
        let mut out: Vec<ExprOrSpread> = Vec::new();
        assert(expr_or_spreads_view(out@) =~= Seq::empty());
        proof {
            lemma_agrees_refl(self.drawn@);
        }
        for x in it: s
            invariant
                it.seq() == orig,
                orig == s@,
                sv == expr_or_spreads_view(orig),
                decreases_to!(s => orig),
                st0 == old(self).state(old(cache)@),
                agrees(self.drawn@, old(self).drawn@),
                all_fresh(old(self).drawn@) ==> all_fresh(self.drawn@),
                forall|o: Seq<SiteNames>| #[trigger]
                    agrees(o, self.drawn@) ==> rw_args(
                        sv,
                        it.index() as nat,
                        (expr_or_spreads_view(out@), self.state(cache@)),
                        o,
                    ) == rw_args(sv, 0, (Seq::empty(), st0), o),
        {
            assert(x == orig[it.index() as int]);
            let ghost k = it.index() as nat;
            let ghost before = self.drawn@;
            let ghost accb = (expr_or_spreads_view(out@), self.state(cache@));
            match self.visit_arg(x, cache) {
                Ok(y) => {
                    out.push(y);
                    proof {
                        assert(expr_or_spreads_view(out@) =~= accb.0.push(y@));
                        assert forall|o: Seq<SiteNames>| #[trigger]
                            agrees(o, self.drawn@) implies
                                rw_args(
                                    sv,
                                    k + 1,
                                    (expr_or_spreads_view(out@), self.state(cache@)),
                                    o,
                                ) == rw_args(sv, 0, (Seq::empty(), st0), o) by {
                            lemma_agrees_trans(o, self.drawn@, before);
                            lemma_rw_args(sv, k, accb, o);
                            assert(rw_args(sv, k, accb, o)
                                == rw_args(sv, 0, (Seq::empty(), st0), o));
                        }
                        lemma_agrees_trans(self.drawn@, before, old(self).drawn@);
                    }
                },
                Err(e) => {
                    proof {
                        assert forall|o: Seq<SiteNames>| #[trigger]
                            agrees(o, self.drawn@) implies
                                (rw_args(sv, 0, (Seq::empty(), st0), o) matches Err(err)
                                    && err == e) by {
                            lemma_agrees_trans(o, self.drawn@, before);
                            lemma_rw_args(sv, k, accb, o);
                            assert(rw_args(sv, k, accb, o)
                                == rw_args(sv, 0, (Seq::empty(), st0), o));
                        }
                        lemma_agrees_trans(self.drawn@, before, old(self).drawn@);
                    }
                    return Err(e);
                },
            }
        }
        proof {
            assert forall|o: Seq<SiteNames>| #[trigger]
                agrees(o, self.drawn@) implies
                    rw_args(sv, 0, (Seq::empty(), st0), o) == Ok::<_, CompileError>((
                        expr_or_spreads_view(out@),
                        self.state(cache@),
                    )) by {
                lemma_rw_args(sv, sv.len(), (expr_or_spreads_view(out@), self.state(cache@)), o);
            }
        }
        Ok(out)
    }

    /// Walks the entries of an object literal in order.
    pub fn visit_props(
        &mut self,
        s: Vec<PropOrSpread>,
        cache: &mut StyleNameCache,
    ) -> (r: Result<Vec<PropOrSpread>, CompileError>)
        ensures
            agrees(final(self).drawn@, old(self).drawn@),
            all_fresh(old(self).drawn@) ==> all_fresh(final(self).drawn@),
            forall|o: Seq<SiteNames>| #[trigger]
                agrees(o, final(self).drawn@) ==> match rw_props(
                    prop_or_spreads_view(s@),
                    0,
                    (Seq::empty(), old(self).state(old(cache)@)),
                    o,
                ) {
                    Ok((x, st)) => r matches Ok(got)
                        && prop_or_spreads_view(got@) == x
                        && final(self).state(final(cache)@) == st,
                    Err(err) => r matches Err(got) && got == err,
                },
        decreases s, 0nat,
    {
        let ghost orig = s@;
        let ghost sv = prop_or_spreads_view(s@);
        let ghost st0 = old(self).state(old(cache)@);
        let mut out: Vec<PropOrSpread> = Vec::new();
        assert(prop_or_spreads_view(out@) =~= Seq::empty());
        proof {
            lemma_agrees_refl(self.drawn@);
        }
        for x in it: s
            invariant
                it.seq() == orig,
                orig == s@,
                sv == prop_or_spreads_view(orig),
                decreases_to!(s => orig),
                st0 == old(self).state(old(cache)@),
                agrees(self.drawn@, old(self).drawn@),
                all_fresh(old(self).drawn@) ==> all_fresh(self.drawn@),
                forall|o: Seq<SiteNames>| #[trigger]
                    agrees(o, self.drawn@) ==> rw_props(
                        sv,
                        it.index() as nat,
                        (prop_or_spreads_view(out@), self.state(cache@)),
                        o,
                    ) == rw_props(sv, 0, (Seq::empty(), st0), o),
        {
            assert(x == orig[it.index() as int]);
            let ghost k = it.index() as nat;
            let ghost before = self.drawn@;
            let ghost accb = (prop_or_spreads_view(out@), self.state(cache@));
            match self.visit_prop(x, cache) {
                Ok(y) => {
                    out.push(y);
                    proof {
                        assert(prop_or_spreads_view(out@) =~= accb.0.push(y@));
                        assert forall|o: Seq<SiteNames>| #[trigger]
                            agrees(o, self.drawn@) implies
                                rw_props(
                                    sv,
                                    k + 1,
                                    (prop_or_spreads_view(out@), self.state(cache@)),
                                    o,
                                ) == rw_props(sv, 0, (Seq::empty(), st0), o) by {
                            lemma_agrees_trans(o, self.drawn@, before);
                            lemma_rw_props(sv, k, accb, o);
                            assert(rw_props(sv, k, accb, o)
                                == rw_props(sv, 0, (Seq::empty(), st0), o));
                        }
                        lemma_agrees_trans(self.drawn@, before, old(self).drawn@);
                    }
                },
                Err(e) => {
                    proof {
                        assert forall|o: Seq<SiteNames>| #[trigger]
                            agrees(o, self.drawn@) implies
                                (rw_props(sv, 0, (Seq::empty(), st0), o) matches Err(err)
                                    && err == e) by {
                            lemma_agrees_trans(o, self.drawn@, before);
                            lemma_rw_props(sv, k, accb, o);
                            assert(rw_props(sv, k, accb, o)
                                == rw_props(sv, 0, (Seq::empty(), st0), o));
                        }
                        lemma_agrees_trans(self.drawn@, before, old(self).drawn@);
                    }
                    return Err(e);
                },
            }
        }
        proof {
            assert forall|o: Seq<SiteNames>| #[trigger]
                agrees(o, self.drawn@) implies
                    rw_props(sv, 0, (Seq::empty(), st0), o) == Ok::<_, CompileError>((
                        prop_or_spreads_view(out@),
                        self.state(cache@),
                    )) by {
                lemma_rw_props(sv, sv.len(), (prop_or_spreads_view(out@), self.state(cache@)), o);
            }
        }
        Ok(out)
    }

    /// Walks a sequence of patterns in order.
    pub fn visit_pats(
        &mut self,
        s: Vec<Pat>,
        cache: &mut StyleNameCache,
    ) -> (r: Result<Vec<Pat>, CompileError>)
        ensures
            agrees(final(self).drawn@, old(self).drawn@),
            all_fresh(old(self).drawn@) ==> all_fresh(final(self).drawn@),
            forall|o: Seq<SiteNames>| #[trigger]
                agrees(o, final(self).drawn@) ==> match rw_pats(
                    pats_view(s@),
                    0,
                    (Seq::empty(), old(self).state(old(cache)@)),
                    o,
                ) {
                    Ok((x, st)) => r matches Ok(got)
                        && pats_view(got@) == x
                        && final(self).state(final(cache)@) == st,
                    Err(err) => r matches Err(got) && got == err,
                },
        decreases s, 0nat,
    {
        let ghost orig = s@;
        let ghost sv = pats_view(s@);
        let ghost st0 = old(self).state(old(cache)@);
        let mut out: Vec<Pat> = Vec::new();
        assert(pats_view(out@) =~= Seq::empty());
        proof {
            lemma_agrees_refl(self.drawn@);
        }
        for x in it: s
            invariant
                it.seq() == orig,
                orig == s@,
                sv == pats_view(orig),
                decreases_to!(s => orig),
                st0 == old(self).state(old(cache)@),
                agrees(self.drawn@, old(self).drawn@),
                all_fresh(old(self).drawn@) ==> all_fresh(self.drawn@),
                forall|o: Seq<SiteNames>| #[trigger]
                    agrees(o, self.drawn@) ==> rw_pats(
                        sv,
                        it.index() as nat,
                        (pats_view(out@), self.state(cache@)),
                        o,
                    ) == rw_pats(sv, 0, (Seq::empty(), st0), o),
        {
            assert(x == orig[it.index() as int]);
            let ghost k = it.index() as nat;
            let ghost before = self.drawn@;
            let ghost accb = (pats_view(out@), self.state(cache@));
            match self.visit_pat(x, cache) {
                Ok(y) => {
                    out.push(y);
                    proof {
                        assert(pats_view(out@) =~= accb.0.push(y@));
                        assert forall|o: Seq<SiteNames>| #[trigger]
                            agrees(o, self.drawn@) implies
                                rw_pats(sv, k + 1, (pats_view(out@), self.state(cache@)), o)
                                    == rw_pats(sv, 0, (Seq::empty(), st0), o) by {
                            lemma_agrees_trans(o, self.drawn@, before);
                            lemma_rw_pats(sv, k, accb, o);
                            assert(rw_pats(sv, k, accb, o)
                                == rw_pats(sv, 0, (Seq::empty(), st0), o));
                        }
                        lemma_agrees_trans(self.drawn@, before, old(self).drawn@);
                    }
                },
                Err(e) => {
                    proof {
                        assert forall|o: Seq<SiteNames>| #[trigger]
                            agrees(o, self.drawn@) implies
                                (rw_pats(sv, 0, (Seq::empty(), st0), o) matches Err(err)
                                    && err == e) by {
                            lemma_agrees_trans(o, self.drawn@, before);
                            lemma_rw_pats(sv, k, accb, o);
                            assert(rw_pats(sv, k, accb, o)
                                == rw_pats(sv, 0, (Seq::empty(), st0), o));
                        }
                        lemma_agrees_trans(self.drawn@, before, old(self).drawn@);
                    }
                    return Err(e);
                },
            }
        }
        proof {
            assert forall|o: Seq<SiteNames>| #[trigger]
                agrees(o, self.drawn@) implies
                    rw_pats(sv, 0, (Seq::empty(), st0), o)
                        == Ok::<_, CompileError>((pats_view(out@), self.state(cache@))) by {
                lemma_rw_pats(sv, sv.len(), (pats_view(out@), self.state(cache@)), o);
            }
        }
        Ok(out)
    }

    /// Walks the children of an opaque node in order.
    pub fn visit_nodes(
        &mut self,
        s: Vec<Node>,
        cache: &mut StyleNameCache,
    ) -> (r: Result<Vec<Node>, CompileError>)
        ensures
            agrees(final(self).drawn@, old(self).drawn@),
            all_fresh(old(self).drawn@) ==> all_fresh(final(self).drawn@),
            forall|o: Seq<SiteNames>| #[trigger]
                agrees(o, final(self).drawn@) ==> match rw_nodes(
                    nodes_view(s@),
                    0,
                    (Seq::empty(), old(self).state(old(cache)@)),
                    o,
                ) {
                    Ok((x, st)) => r matches Ok(got)
                        && nodes_view(got@) == x
                        && final(self).state(final(cache)@) == st,
                    Err(err) => r matches Err(got) && got == err,
                },
        decreases s, 0nat,
    {
        let ghost orig = s@;
        let ghost sv = nodes_view(s@);
        let ghost st0 = old(self).state(old(cache)@);
        let mut out: Vec<Node> = Vec::new();
        assert(nodes_view(out@) =~= Seq::empty());
        proof {
            lemma_agrees_refl(self.drawn@);
        }
        for x in it: s
            invariant
                it.seq() == orig,
                orig == s@,
                sv == nodes_view(orig),
                decreases_to!(s => orig),
                st0 == old(self).state(old(cache)@),
                agrees(self.drawn@, old(self).drawn@),
                all_fresh(old(self).drawn@) ==> all_fresh(self.drawn@),
                forall|o: Seq<SiteNames>| #[trigger]
                    agrees(o, self.drawn@) ==> rw_nodes(
                        sv,
                        it.index() as nat,
                        (nodes_view(out@), self.state(cache@)),
                        o,
                    ) == rw_nodes(sv, 0, (Seq::empty(), st0), o),
        {
            assert(x == orig[it.index() as int]);
            let ghost k = it.index() as nat;
            let ghost before = self.drawn@;
            let ghost accb = (nodes_view(out@), self.state(cache@));
            match self.visit_node(x, cache) {
                Ok(y) => {
                    out.push(y);
                    proof {
                        assert(nodes_view(out@) =~= accb.0.push(y@));
                        assert forall|o: Seq<SiteNames>| #[trigger]
                            agrees(o, self.drawn@) implies
                                rw_nodes(sv, k + 1, (nodes_view(out@), self.state(cache@)), o)
                                    == rw_nodes(sv, 0, (Seq::empty(), st0), o) by {
                            lemma_agrees_trans(o, self.drawn@, before);
                            lemma_rw_nodes(sv, k, accb, o);
                            assert(rw_nodes(sv, k, accb, o)
                                == rw_nodes(sv, 0, (Seq::empty(), st0), o));
                        }
                        lemma_agrees_trans(self.drawn@, before, old(self).drawn@);
                    }
                },
                Err(e) => {
                    proof {
                        assert forall|o: Seq<SiteNames>| #[trigger]
                            agrees(o, self.drawn@) implies
                                (rw_nodes(sv, 0, (Seq::empty(), st0), o) matches Err(err)
                                    && err == e) by {
                            lemma_agrees_trans(o, self.drawn@, before);
                            lemma_rw_nodes(sv, k, accb, o);
                            assert(rw_nodes(sv, k, accb, o)
                                == rw_nodes(sv, 0, (Seq::empty(), st0), o));
                        }
                        lemma_agrees_trans(self.drawn@, before, old(self).drawn@);
                    }
                    return Err(e);
                },
            }
        }
        proof {
            assert forall|o: Seq<SiteNames>| #[trigger]
                agrees(o, self.drawn@) implies
                    rw_nodes(sv, 0, (Seq::empty(), st0), o)
                        == Ok::<_, CompileError>((nodes_view(out@), self.state(cache@))) by {
                lemma_rw_nodes(sv, sv.len(), (nodes_view(out@), self.state(cache@)), o);
            }
        }
        Ok(out)
    }

    /// Walks a sequence of statements in order.
    pub fn visit_stmts(
        &mut self,
        s: Vec<Stmt>,
        cache: &mut StyleNameCache,
    ) -> (r: Result<Vec<Stmt>, CompileError>)
        ensures
            agrees(final(self).drawn@, old(self).drawn@),
            all_fresh(old(self).drawn@) ==> all_fresh(final(self).drawn@),
            forall|o: Seq<SiteNames>| #[trigger]
                agrees(o, final(self).drawn@) ==> match rw_stmts(
                    stmts_view(s@),
                    0,
                    (Seq::empty(), old(self).state(old(cache)@)),
                    o,
                ) {
                    Ok((x, st)) => r matches Ok(got)
                        && stmts_view(got@) == x
                        && final(self).state(final(cache)@) == st,
                    Err(err) => r matches Err(got) && got == err,
                },
        decreases s, 0nat,
    {
        let ghost orig = s@;
        let ghost sv = stmts_view(s@);
        let ghost st0 = old(self).state(old(cache)@);
        let mut out: Vec<Stmt> = Vec::new();
        assert(stmts_view(out@) =~= Seq::empty());
        proof {
            lemma_agrees_refl(self.drawn@);
        }
        for x in it: s
            invariant
                it.seq() == orig,
                orig == s@,
                sv == stmts_view(orig),
                decreases_to!(s => orig),
                st0 == old(self).state(old(cache)@),
                agrees(self.drawn@, old(self).drawn@),
                all_fresh(old(self).drawn@) ==> all_fresh(self.drawn@),
                forall|o: Seq<SiteNames>| #[trigger]
                    agrees(o, self.drawn@) ==> rw_stmts(
                        sv,
                        it.index() as nat,
                        (stmts_view(out@), self.state(cache@)),
                        o,
                    ) == rw_stmts(sv, 0, (Seq::empty(), st0), o),
        {
            assert(x == orig[it.index() as int]);
            let ghost k = it.index() as nat;
            let ghost before = self.drawn@;
            let ghost accb = (stmts_view(out@), self.state(cache@));
            match self.visit_stmt(x, cache) {
                Ok(y) => {
                    out.push(y);
                    proof {
                        assert(stmts_view(out@) =~= accb.0.push(y@));
                        assert forall|o: Seq<SiteNames>| #[trigger]
                            agrees(o, self.drawn@) implies
                                rw_stmts(sv, k + 1, (stmts_view(out@), self.state(cache@)), o)
                                    == rw_stmts(sv, 0, (Seq::empty(), st0), o) by {
                            lemma_agrees_trans(o, self.drawn@, before);
                            lemma_rw_stmts(sv, k, accb, o);
                            assert(rw_stmts(sv, k, accb, o)
                                == rw_stmts(sv, 0, (Seq::empty(), st0), o));
                        }
                        lemma_agrees_trans(self.drawn@, before, old(self).drawn@);
                    }
                },
                Err(e) => {
                    proof {
                        assert forall|o: Seq<SiteNames>| #[trigger]
                            agrees(o, self.drawn@) implies
                                (rw_stmts(sv, 0, (Seq::empty(), st0), o) matches Err(err)
                                    && err == e) by {
                            lemma_agrees_trans(o, self.drawn@, before);
                            lemma_rw_stmts(sv, k, accb, o);
                            assert(rw_stmts(sv, k, accb, o)
                                == rw_stmts(sv, 0, (Seq::empty(), st0), o));
                        }
                        lemma_agrees_trans(self.drawn@, before, old(self).drawn@);
                    }
                    return Err(e);
                },
            }
        }
        proof {
            assert forall|o: Seq<SiteNames>| #[trigger]
                agrees(o, self.drawn@) implies
                    rw_stmts(sv, 0, (Seq::empty(), st0), o)
                        == Ok::<_, CompileError>((stmts_view(out@), self.state(cache@))) by {
                lemma_rw_stmts(sv, sv.len(), (stmts_view(out@), self.state(cache@)), o);
            }
        }
        Ok(out)
    }

    /// Walks the declarators of a declaration in order.
    pub fn visit_declarators(
        &mut self,
        s: Vec<VarDeclarator>,
        cache: &mut StyleNameCache,
    ) -> (r: Result<Vec<VarDeclarator>, CompileError>)
        ensures
            agrees(final(self).drawn@, old(self).drawn@),
            all_fresh(old(self).drawn@) ==> all_fresh(final(self).drawn@),
            forall|o: Seq<SiteNames>| #[trigger]
                agrees(o, final(self).drawn@) ==> match rw_declarators(
                    var_declarators_view(s@),
                    0,
                    (Seq::empty(), old(self).state(old(cache)@)),
                    o,
                ) {
                    Ok((x, st)) => r matches Ok(got)
                        && var_declarators_view(got@) == x
                        && final(self).state(final(cache)@) == st,
                    Err(err) => r matches Err(got) && got == err,
                },
        decreases s, 0nat,
    {
        let ghost orig = s@;
        let ghost sv = var_declarators_view(s@);
        let ghost st0 = old(self).state(old(cache)@);
        let mut out: Vec<VarDeclarator> = Vec::new();
        assert(var_declarators_view(out@) =~= Seq::empty());
        proof {
            lemma_agrees_refl(self.drawn@);
        }
        for x in it: s
            invariant
                it.seq() == orig,
                orig == s@,
                sv == var_declarators_view(orig),
                decreases_to!(s => orig),
                st0 == old(self).state(old(cache)@),
                agrees(self.drawn@, old(self).drawn@),
                all_fresh(old(self).drawn@) ==> all_fresh(self.drawn@),
                forall|o: Seq<SiteNames>| #[trigger]
                    agrees(o, self.drawn@) ==> rw_declarators(
                        sv,
                        it.index() as nat,
                        (var_declarators_view(out@), self.state(cache@)),
                        o,
                    ) == rw_declarators(sv, 0, (Seq::empty(), st0), o),
        {
            assert(x == orig[it.index() as int]);
            let ghost k = it.index() as nat;
            let ghost before = self.drawn@;
            let ghost accb = (var_declarators_view(out@), self.state(cache@));
            match self.visit_declarator(x, cache) {
                Ok(y) => {
                    out.push(y);
                    proof {
                        assert(var_declarators_view(out@) =~= accb.0.push(y@));
                        assert forall|o: Seq<SiteNames>| #[trigger]
                            agrees(o, self.drawn@) implies
                                rw_declarators(
                                    sv,
                                    k + 1,
                                    (var_declarators_view(out@), self.state(cache@)),
                                    o,
                                ) == rw_declarators(sv, 0, (Seq::empty(), st0), o) by {
                            lemma_agrees_trans(o, self.drawn@, before);
                            lemma_rw_declarators(sv, k, accb, o);
                            assert(rw_declarators(sv, k, accb, o)
                                == rw_declarators(sv, 0, (Seq::empty(), st0), o));
                        }
                        lemma_agrees_trans(self.drawn@, before, old(self).drawn@);
                    }
                },
                Err(e) => {
                    proof {
                        assert forall|o: Seq<SiteNames>| #[trigger]
                            agrees(o, self.drawn@) implies
                                (rw_declarators(sv, 0, (Seq::empty(), st0), o) matches Err(err)
                                    && err == e) by {
                            lemma_agrees_trans(o, self.drawn@, before);
                            lemma_rw_declarators(sv, k, accb, o);
                            assert(rw_declarators(sv, k, accb, o)
                                == rw_declarators(sv, 0, (Seq::empty(), st0), o));
                        }
                        lemma_agrees_trans(self.drawn@, before, old(self).drawn@);
                    }
                    return Err(e);
                },
            }
        }
        proof {
            assert forall|o: Seq<SiteNames>| #[trigger]
                agrees(o, self.drawn@) implies
                    rw_declarators(sv, 0, (Seq::empty(), st0), o) == Ok::<_, CompileError>((
                        var_declarators_view(out@),
                        self.state(cache@),
                    )) by {
                lemma_rw_declarators(
                    sv,
                    sv.len(),
                    (var_declarators_view(out@), self.state(cache@)),
                    o,
                );
            }
        }
        Ok(out)
    }

    /// Walks the attributes of a markup element in order.
    pub fn visit_jsx_attrs(
        &mut self,
        s: Vec<JSXAttrOrSpread>,
        cache: &mut StyleNameCache,
    ) -> (r: Result<Vec<JSXAttrOrSpread>, CompileError>)
        ensures
            agrees(final(self).drawn@, old(self).drawn@),
            all_fresh(old(self).drawn@) ==> all_fresh(final(self).drawn@),
            forall|o: Seq<SiteNames>| #[trigger]
                agrees(o, final(self).drawn@) ==> match rw_jsx_attrs(
                    jsx_attrs_view(s@),
                    0,
                    (Seq::empty(), old(self).state(old(cache)@)),
                    o,
                ) {
                    Ok((x, st)) => r matches Ok(got)
                        && jsx_attrs_view(got@) == x
                        && final(self).state(final(cache)@) == st,
                    Err(err) => r matches Err(got) && got == err,
                },
        decreases s, 0nat,
    {
        let ghost orig = s@;
        let ghost sv = jsx_attrs_view(s@);
        let ghost st0 = old(self).state(old(cache)@);
        let mut out: Vec<JSXAttrOrSpread> = Vec::new();
        assert(jsx_attrs_view(out@) =~= Seq::empty());
        proof {
            lemma_agrees_refl(self.drawn@);
        }
        for x in it: s
            invariant
                it.seq() == orig,
                orig == s@,
                sv == jsx_attrs_view(orig),
                decreases_to!(s => orig),
                st0 == old(self).state(old(cache)@),
                agrees(self.drawn@, old(self).drawn@),
                all_fresh(old(self).drawn@) ==> all_fresh(self.drawn@),
                forall|o: Seq<SiteNames>| #[trigger]
                    agrees(o, self.drawn@) ==> rw_jsx_attrs(
                        sv,
                        it.index() as nat,
                        (jsx_attrs_view(out@), self.state(cache@)),
                        o,
                    ) == rw_jsx_attrs(sv, 0, (Seq::empty(), st0), o),
        {
            assert(x == orig[it.index() as int]);
            let ghost k = it.index() as nat;
            let ghost before = self.drawn@;
            let ghost accb = (jsx_attrs_view(out@), self.state(cache@));
            match self.visit_jsx_attr(x, cache) {
                Ok(y) => {
                    out.push(y);
                    proof {
                        assert(jsx_attrs_view(out@) =~= accb.0.push(y@));
                        assert forall|o: Seq<SiteNames>| #[trigger]
                            agrees(o, self.drawn@) implies
                                rw_jsx_attrs(
                                    sv,
                                    k + 1,
                                    (jsx_attrs_view(out@), self.state(cache@)),
                                    o,
                                ) == rw_jsx_attrs(sv, 0, (Seq::empty(), st0), o) by {
                            lemma_agrees_trans(o, self.drawn@, before);
                            lemma_rw_jsx_attrs(sv, k, accb, o);
                            assert(rw_jsx_attrs(sv, k, accb, o)
                                == rw_jsx_attrs(sv, 0, (Seq::empty(), st0), o));
                        }
                        lemma_agrees_trans(self.drawn@, before, old(self).drawn@);
                    }
                },
                Err(e) => {
                    proof {
                        assert forall|o: Seq<SiteNames>| #[trigger]
                            agrees(o, self.drawn@) implies
                                (rw_jsx_attrs(sv, 0, (Seq::empty(), st0), o) matches Err(err)
                                    && err == e) by {
                            lemma_agrees_trans(o, self.drawn@, before);
                            lemma_rw_jsx_attrs(sv, k, accb, o);
                            assert(rw_jsx_attrs(sv, k, accb, o)
                                == rw_jsx_attrs(sv, 0, (Seq::empty(), st0), o));
                        }
                        lemma_agrees_trans(self.drawn@, before, old(self).drawn@);
                    }
                    return Err(e);
                },
            }
        }
        proof {
            assert forall|o: Seq<SiteNames>| #[trigger]
                agrees(o, self.drawn@) implies
                    rw_jsx_attrs(sv, 0, (Seq::empty(), st0), o)
                        == Ok::<_, CompileError>((jsx_attrs_view(out@), self.state(cache@))) by {
                lemma_rw_jsx_attrs(sv, sv.len(), (jsx_attrs_view(out@), self.state(cache@)), o);
            }
        }
        Ok(out)
    }

    /// Walks the children of a markup element in order.
    pub fn visit_jsx_children(
        &mut self,
        s: Vec<JSXElementChild>,
        cache: &mut StyleNameCache,
    ) -> (r: Result<Vec<JSXElementChild>, CompileError>)
        ensures
            agrees(final(self).drawn@, old(self).drawn@),
            all_fresh(old(self).drawn@) ==> all_fresh(final(self).drawn@),
            forall|o: Seq<SiteNames>| #[trigger]
                agrees(o, final(self).drawn@) ==> match rw_jsx_children(
                    jsx_children_view(s@),
                    0,
                    (Seq::empty(), old(self).state(old(cache)@)),
                    o,
                ) {
                    Ok((x, st)) => r matches Ok(got)
                        && jsx_children_view(got@) == x
                        && final(self).state(final(cache)@) == st,
                    Err(err) => r matches Err(got) && got == err,
                },
        decreases s, 0nat,
    {
        let ghost orig = s@;
        let ghost sv = jsx_children_view(s@);
        let ghost st0 = old(self).state(old(cache)@);
        let mut out: Vec<JSXElementChild> = Vec::new();
        assert(jsx_children_view(out@) =~= Seq::empty());
        proof {
            lemma_agrees_refl(self.drawn@);
        }
        for x in it: s
            invariant
                it.seq() == orig,
                orig == s@,
                sv == jsx_children_view(orig),
                decreases_to!(s => orig),
                st0 == old(self).state(old(cache)@),
                agrees(self.drawn@, old(self).drawn@),
                all_fresh(old(self).drawn@) ==> all_fresh(self.drawn@),
                forall|o: Seq<SiteNames>| #[trigger]
                    agrees(o, self.drawn@) ==> rw_jsx_children(
                        sv,
                        it.index() as nat,
                        (jsx_children_view(out@), self.state(cache@)),
                        o,
                    ) == rw_jsx_children(sv, 0, (Seq::empty(), st0), o),
        {
            assert(x == orig[it.index() as int]);
            let ghost k = it.index() as nat;
            let ghost before = self.drawn@;
            let ghost accb = (jsx_children_view(out@), self.state(cache@));
            match self.visit_jsx_child(x, cache) {
                Ok(y) => {
                    out.push(y);
                    proof {
                        assert(jsx_children_view(out@) =~= accb.0.push(y@));
                        assert forall|o: Seq<SiteNames>| #[trigger]
                            agrees(o, self.drawn@) implies
                                rw_jsx_children(
                                    sv,
                                    k + 1,
                                    (jsx_children_view(out@), self.state(cache@)),
                                    o,
                                ) == rw_jsx_children(sv, 0, (Seq::empty(), st0), o) by {
                            lemma_agrees_trans(o, self.drawn@, before);
                            lemma_rw_jsx_children(sv, k, accb, o);
                            assert(rw_jsx_children(sv, k, accb, o)
                                == rw_jsx_children(sv, 0, (Seq::empty(), st0), o));
                        }
                        lemma_agrees_trans(self.drawn@, before, old(self).drawn@);
                    }
                },
                Err(e) => {
                    proof {
                        assert forall|o: Seq<SiteNames>| #[trigger]
                            agrees(o, self.drawn@) implies
                                (rw_jsx_children(sv, 0, (Seq::empty(), st0), o) matches Err(err)
                                    && err == e) by {
                            lemma_agrees_trans(o, self.drawn@, before);
                            lemma_rw_jsx_children(sv, k, accb, o);
                            assert(rw_jsx_children(sv, k, accb, o)
                                == rw_jsx_children(sv, 0, (Seq::empty(), st0), o));
                        }
                        lemma_agrees_trans(self.drawn@, before, old(self).drawn@);
                    }
                    return Err(e);
                },
            }
        }
        proof {
            assert forall|o: Seq<SiteNames>| #[trigger]
                agrees(o, self.drawn@) implies
                    rw_jsx_children(sv, 0, (Seq::empty(), st0), o)
                        == Ok::<_, CompileError>((jsx_children_view(out@), self.state(cache@))) by {
                lemma_rw_jsx_children(
                    sv,
                    sv.len(),
                    (jsx_children_view(out@), self.state(cache@)),
                    o,
                );
            }
        }
        Ok(out)
    }

    /// Walks the top-level items of a module in order.
    pub fn visit_module_items(
        &mut self,
        s: Vec<ModuleItem>,
        cache: &mut StyleNameCache,
    ) -> (r: Result<Vec<ModuleItem>, CompileError>)
        ensures
            agrees(final(self).drawn@, old(self).drawn@),
            all_fresh(old(self).drawn@) ==> all_fresh(final(self).drawn@),
            forall|o: Seq<SiteNames>| #[trigger]
                agrees(o, final(self).drawn@) ==> match rw_module_items(
                    module_items_view(s@),
                    0,
                    (Seq::empty(), old(self).state(old(cache)@)),
                    o,
                ) {
                    Ok((x, st)) => r matches Ok(got)
                        && module_items_view(got@) == x
                        && final(self).state(final(cache)@) == st,
                    Err(err) => r matches Err(got) && got == err,
                },
        decreases s, 0nat,
    {
        let ghost orig = s@;
        let ghost sv = module_items_view(s@);
        let ghost st0 = old(self).state(old(cache)@);
        let mut out: Vec<ModuleItem> = Vec::new();
        assert(module_items_view(out@) =~= Seq::empty());
        proof {
            lemma_agrees_refl(self.drawn@);
        }
        for x in it: s
            invariant
                it.seq() == orig,
                orig == s@,
                sv == module_items_view(orig),
                decreases_to!(s => orig),
                st0 == old(self).state(old(cache)@),
                agrees(self.drawn@, old(self).drawn@),
                all_fresh(old(self).drawn@) ==> all_fresh(self.drawn@),
                forall|o: Seq<SiteNames>| #[trigger]
                    agrees(o, self.drawn@) ==> rw_module_items(
                        sv,
                        it.index() as nat,
                        (module_items_view(out@), self.state(cache@)),
                        o,
                    ) == rw_module_items(sv, 0, (Seq::empty(), st0), o),
        {
            assert(x == orig[it.index() as int]);
            let ghost k = it.index() as nat;
            let ghost before = self.drawn@;
            let ghost accb = (module_items_view(out@), self.state(cache@));
            match self.visit_module_item(x, cache) {
                Ok(y) => {
                    out.push(y);
                    proof {
                        assert(module_items_view(out@) =~= accb.0.push(y@));
                        assert forall|o: Seq<SiteNames>| #[trigger]
                            agrees(o, self.drawn@) implies
                                rw_module_items(
                                    sv,
                                    k + 1,
                                    (module_items_view(out@), self.state(cache@)),
                                    o,
                                ) == rw_module_items(sv, 0, (Seq::empty(), st0), o) by {
                            lemma_agrees_trans(o, self.drawn@, before);
                            lemma_rw_module_items(sv, k, accb, o);
                            assert(rw_module_items(sv, k, accb, o)
                                == rw_module_items(sv, 0, (Seq::empty(), st0), o));
                        }
                        lemma_agrees_trans(self.drawn@, before, old(self).drawn@);
                    }
                },
                Err(e) => {
                    proof {
                        assert forall|o: Seq<SiteNames>| #[trigger]
                            agrees(o, self.drawn@) implies
                                (rw_module_items(sv, 0, (Seq::empty(), st0), o) matches Err(err)
                                    && err == e) by {
                            lemma_agrees_trans(o, self.drawn@, before);
                            lemma_rw_module_items(sv, k, accb, o);
                            assert(rw_module_items(sv, k, accb, o)
                                == rw_module_items(sv, 0, (Seq::empty(), st0), o));
                        }
                        lemma_agrees_trans(self.drawn@, before, old(self).drawn@);
                    }
                    return Err(e);
                },
            }
        }
        proof {
            assert forall|o: Seq<SiteNames>| #[trigger]
                agrees(o, self.drawn@) implies
                    rw_module_items(sv, 0, (Seq::empty(), st0), o)
                        == Ok::<_, CompileError>((module_items_view(out@), self.state(cache@))) by {
                lemma_rw_module_items(
                    sv,
                    sv.len(),
                    (module_items_view(out@), self.state(cache@)),
                    o,
                );
            }
        }
        Ok(out)
    }

    /// Walks the elements of an array literal in order.
    pub fn visit_elems(
        &mut self,
        s: Vec<Option<ExprOrSpread>>,
        cache: &mut StyleNameCache,
    ) -> (r: Result<Vec<Option<ExprOrSpread>>, CompileError>)
        ensures
            agrees(final(self).drawn@, old(self).drawn@),
            all_fresh(old(self).drawn@) ==> all_fresh(final(self).drawn@),
            forall|o: Seq<SiteNames>| #[trigger]
                agrees(o, final(self).drawn@) ==> match rw_elems(
                    opt_expr_or_spreads_view(s@),
                    0,
                    (Seq::empty(), old(self).state(old(cache)@)),
                    o,
                ) {
                    Ok((x, st)) => r matches Ok(got)
                        && opt_expr_or_spreads_view(got@) == x
                        && final(self).state(final(cache)@) == st,
                    Err(err) => r matches Err(got) && got == err,
                },
        decreases s, 0nat,
    {
        let ghost orig = s@;
        let ghost sv = opt_expr_or_spreads_view(s@);
        let ghost st0 = old(self).state(old(cache)@);
        let mut out: Vec<Option<ExprOrSpread>> = Vec::new();
        assert(opt_expr_or_spreads_view(out@) =~= Seq::empty());
        proof {
            lemma_agrees_refl(self.drawn@);
        }
        for x in it: s
            invariant
                it.seq() == orig,
                orig == s@,
                sv == opt_expr_or_spreads_view(orig),
                decreases_to!(s => orig),
                st0 == old(self).state(old(cache)@),
                agrees(self.drawn@, old(self).drawn@),
                all_fresh(old(self).drawn@) ==> all_fresh(self.drawn@),
                forall|o: Seq<SiteNames>| #[trigger]
                    agrees(o, self.drawn@) ==> rw_elems(
                        sv,
                        it.index() as nat,
                        (opt_expr_or_spreads_view(out@), self.state(cache@)),
                        o,
                    ) == rw_elems(sv, 0, (Seq::empty(), st0), o),
        {
            assert(x == orig[it.index() as int]);
            let ghost k = it.index() as nat;
            let ghost before = self.drawn@;
            let ghost accb = (opt_expr_or_spreads_view(out@), self.state(cache@));
            match self.visit_elem(x, cache) {
                Ok(y) => {
                    out.push(y);
                    proof {
                        assert(opt_expr_or_spreads_view(out@) =~= accb.0.push(opt_arg_view(y)));
                        assert forall|o: Seq<SiteNames>| #[trigger]
                            agrees(o, self.drawn@) implies
                                rw_elems(
                                    sv,
                                    k + 1,
                                    (opt_expr_or_spreads_view(out@), self.state(cache@)),
                                    o,
                                ) == rw_elems(sv, 0, (Seq::empty(), st0), o) by {
                            lemma_agrees_trans(o, self.drawn@, before);
                            lemma_rw_elems(sv, k, accb, o);
                            assert(rw_elems(sv, k, accb, o)
                                == rw_elems(sv, 0, (Seq::empty(), st0), o));
                        }
                        lemma_agrees_trans(self.drawn@, before, old(self).drawn@);
                    }
                },
                Err(e) => {
                    proof {
                        assert forall|o: Seq<SiteNames>| #[trigger]
                            agrees(o, self.drawn@) implies
                                (rw_elems(sv, 0, (Seq::empty(), st0), o) matches Err(err)
                                    && err == e) by {
                            lemma_agrees_trans(o, self.drawn@, before);
                            lemma_rw_elems(sv, k, accb, o);
                            assert(rw_elems(sv, k, accb, o)
                                == rw_elems(sv, 0, (Seq::empty(), st0), o));
                        }
                        lemma_agrees_trans(self.drawn@, before, old(self).drawn@);
                    }
                    return Err(e);
                },
            }
        }
        proof {
            assert forall|o: Seq<SiteNames>| #[trigger]
                agrees(o, self.drawn@) implies
                    rw_elems(sv, 0, (Seq::empty(), st0), o) == Ok::<_, CompileError>((
                        opt_expr_or_spreads_view(out@),
                        self.state(cache@),
                    )) by {
                lemma_rw_elems(
                    sv,
                    sv.len(),
                    (opt_expr_or_spreads_view(out@), self.state(cache@)),
                    o,
                );
            }
        }
        Ok(out)
    }

    /// Walks the elements of an array pattern in order.
    pub fn visit_opt_pats(
        &mut self,
        s: Vec<Option<Pat>>,
        cache: &mut StyleNameCache,
    ) -> (r: Result<Vec<Option<Pat>>, CompileError>)
        ensures
            agrees(final(self).drawn@, old(self).drawn@),
            all_fresh(old(self).drawn@) ==> all_fresh(final(self).drawn@),
            forall|o: Seq<SiteNames>| #[trigger]
                agrees(o, final(self).drawn@) ==> match rw_opt_pats(
                    opt_pats_view(s@),
                    0,
                    (Seq::empty(), old(self).state(old(cache)@)),
                    o,
                ) {
                    Ok((x, st)) => r matches Ok(got)
                        && opt_pats_view(got@) == x
                        && final(self).state(final(cache)@) == st,
                    Err(err) => r matches Err(got) && got == err,
                },
        decreases s, 0nat,
    {
        let ghost orig = s@;
        let ghost sv = opt_pats_view(s@);
        let ghost st0 = old(self).state(old(cache)@);
        let mut out: Vec<Option<Pat>> = Vec::new();
        assert(opt_pats_view(out@) =~= Seq::empty());
        proof {
            lemma_agrees_refl(self.drawn@);
        }
        for x in it: s
            invariant
                it.seq() == orig,
                orig == s@,
                sv == opt_pats_view(orig),
                decreases_to!(s => orig),
                st0 == old(self).state(old(cache)@),
                agrees(self.drawn@, old(self).drawn@),
                all_fresh(old(self).drawn@) ==> all_fresh(self.drawn@),
                forall|o: Seq<SiteNames>| #[trigger]
                    agrees(o, self.drawn@) ==> rw_opt_pats(
                        sv,
                        it.index() as nat,
                        (opt_pats_view(out@), self.state(cache@)),
                        o,
                    ) == rw_opt_pats(sv, 0, (Seq::empty(), st0), o),
        {
            assert(x == orig[it.index() as int]);
            let ghost k = it.index() as nat;
            let ghost before = self.drawn@;
            let ghost accb = (opt_pats_view(out@), self.state(cache@));
            match self.visit_opt_pat(x, cache) {
                Ok(y) => {
                    out.push(y);
                    proof {
                        assert(opt_pats_view(out@) =~= accb.0.push(opt_pat_view(y)));
                        assert forall|o: Seq<SiteNames>| #[trigger]
                            agrees(o, self.drawn@) implies
                                rw_opt_pats(sv, k + 1, (opt_pats_view(out@), self.state(cache@)), o)
                                    == rw_opt_pats(sv, 0, (Seq::empty(), st0), o) by {
                            lemma_agrees_trans(o, self.drawn@, before);
                            lemma_rw_opt_pats(sv, k, accb, o);
                            assert(rw_opt_pats(sv, k, accb, o)
                                == rw_opt_pats(sv, 0, (Seq::empty(), st0), o));
                        }
                        lemma_agrees_trans(self.drawn@, before, old(self).drawn@);
                    }
                },
                Err(e) => {
                    proof {
                        assert forall|o: Seq<SiteNames>| #[trigger]
                            agrees(o, self.drawn@) implies
                                (rw_opt_pats(sv, 0, (Seq::empty(), st0), o) matches Err(err)
                                    && err == e) by {
                            lemma_agrees_trans(o, self.drawn@, before);
                            lemma_rw_opt_pats(sv, k, accb, o);
                            assert(rw_opt_pats(sv, k, accb, o)
                                == rw_opt_pats(sv, 0, (Seq::empty(), st0), o));
                        }
                        lemma_agrees_trans(self.drawn@, before, old(self).drawn@);
                    }
                    return Err(e);
                },
            }
        }
        proof {
            assert forall|o: Seq<SiteNames>| #[trigger]
                agrees(o, self.drawn@) implies
                    rw_opt_pats(sv, 0, (Seq::empty(), st0), o)
                        == Ok::<_, CompileError>((opt_pats_view(out@), self.state(cache@))) by {
                lemma_rw_opt_pats(sv, sv.len(), (opt_pats_view(out@), self.state(cache@)), o);
            }
        }
        Ok(out)
    }

    /// Walks an expression of the kind `Lit`.
    fn visit_expr_lit(
        &mut self,
        x: Expr,
        cache: &mut StyleNameCache,
    ) -> (r: Result<Expr, CompileError>)
        requires
            x is Lit,
        ensures
            agrees(final(self).drawn@, old(self).drawn@),
            all_fresh(old(self).drawn@) ==> all_fresh(final(self).drawn@),
            forall|o: Seq<SiteNames>| #[trigger]
                agrees(o, final(self).drawn@) ==> match rw_expr(
                    x@,
                    old(self).state(old(cache)@),
                    o,
                ) {
                    Ok((x, st)) => r matches Ok(got)
                        && got@ == x
                        && final(self).state(final(cache)@) == st,
                    Err(err) => r matches Err(got) && got == err,
                },
        decreases x, 0nat,
    {
        let ghost st0 = old(self).state(old(cache)@);
        let ghost d0 = self.drawn@;
        let ghost xv = x@;
        proof {
            lemma_agrees_refl(d0);
        }
        match x {
            Expr::Lit(l) => {
                assert(xv == ExprView::Lit(l@));
                let result = Expr::Lit(l);
                proof {
                    assert(result@ == xv);
                    assert forall|o: Seq<SiteNames>|
                        #[trigger] rw_expr(xv, st0, o) == Ok::<_, CompileError>((result@, st0)) by {
                        lemma_rw_expr(xv, st0, o);
                    }
                }
                Ok(result)
            },
            _ => vstd::pervasive::unreached(),
        }
    }

    /// Walks an expression of the kind `Ident`.
    fn visit_expr_ident(
        &mut self,
        x: Expr,
        cache: &mut StyleNameCache,
    ) -> (r: Result<Expr, CompileError>)
        requires
            x is Ident,
        ensures
            agrees(final(self).drawn@, old(self).drawn@),
            all_fresh(old(self).drawn@) ==> all_fresh(final(self).drawn@),
            forall|o: Seq<SiteNames>| #[trigger]
                agrees(o, final(self).drawn@) ==> match rw_expr(
                    x@,
                    old(self).state(old(cache)@),
                    o,
                ) {
                    Ok((x, st)) => r matches Ok(got)
                        && got@ == x
                        && final(self).state(final(cache)@) == st,
                    Err(err) => r matches Err(got) && got == err,
                },
        decreases x, 0nat,
    {
        let ghost st0 = old(self).state(old(cache)@);
        let ghost d0 = self.drawn@;
        let ghost xv = x@;
        proof {
            lemma_agrees_refl(d0);
        }
        match x {
            Expr::Ident(i) => {
                assert(xv == ExprView::Ident(i@));
                let result = Expr::Ident(i);
                proof {
                    assert(result@ == xv);
                    assert forall|o: Seq<SiteNames>|
                        #[trigger] rw_expr(xv, st0, o) == Ok::<_, CompileError>((result@, st0)) by {
                        lemma_rw_expr(xv, st0, o);
                    }
                }
                Ok(result)
            },
            _ => vstd::pervasive::unreached(),
        }
    }

    /// Walks an expression of the kind `Tpl`.
    fn visit_expr_tpl(
        &mut self,
        x: Expr,
        cache: &mut StyleNameCache,
    ) -> (r: Result<Expr, CompileError>)
        requires
            x is Tpl,
        ensures
            agrees(final(self).drawn@, old(self).drawn@),
            all_fresh(old(self).drawn@) ==> all_fresh(final(self).drawn@),
            forall|o: Seq<SiteNames>| #[trigger]
                agrees(o, final(self).drawn@) ==> match rw_expr(
                    x@,
                    old(self).state(old(cache)@),
                    o,
                ) {
                    Ok((x, st)) => r matches Ok(got)
                        && got@ == x
                        && final(self).state(final(cache)@) == st,
                    Err(err) => r matches Err(got) && got == err,
                },
        decreases x, 0nat,
    {
        let ghost st0 = old(self).state(old(cache)@);
        let ghost d0 = self.drawn@;
        let ghost xv = x@;
        proof {
            lemma_agrees_refl(d0);
        }
        match x {
            Expr::Tpl(t) => {
                assert(xv == ExprView::Tpl(t@));
                assert(t@.exprs == exprs_view(t.exprs@));
                assert(t@.quasis == strings_view(t.quasis@));
                let quasis = t.quasis;
                let exprs = match self.visit_exprs(t.exprs, cache) {
                    Ok(v) => v,
                    Err(e) => {
                        proof {
                            assert forall|o: Seq<SiteNames>| #[trigger]
                                agrees(o, self.drawn@) implies
                                    (rw_expr(xv, st0, o) matches Err(err) && err == e) by {
                                lemma_rw_expr(xv, st0, o);
                            }
                        }
                        return Err(e);
                    },
                };
                let ghost d1 = self.drawn@;
                let inner = Tpl { quasis, exprs };
                assert(inner@
                    == TplView { quasis: strings_view(quasis@), exprs: exprs_view(exprs@) });
                let result = Expr::Tpl(inner);
                proof {
                    assert(result@ == ExprView::Tpl(
                        TplView { quasis: strings_view(quasis@), exprs: exprs_view(exprs@) }
                    ));
                    assert forall|o: Seq<SiteNames>| #[trigger]
                        agrees(o, self.drawn@) implies
                            rw_expr(xv, st0, o)
                                == Ok::<_, CompileError>((result@, self.state(cache@))) by {
                        lemma_rw_expr(xv, st0, o);
                    }
                }
                Ok(result)
            },
            _ => vstd::pervasive::unreached(),
        }
    }

    /// Walks an expression of the kind `Array`.
    fn visit_expr_array(
        &mut self,
        x: Expr,
        cache: &mut StyleNameCache,
    ) -> (r: Result<Expr, CompileError>)
        requires
            x is Array,
        ensures
            agrees(final(self).drawn@, old(self).drawn@),
            all_fresh(old(self).drawn@) ==> all_fresh(final(self).drawn@),
            forall|o: Seq<SiteNames>| #[trigger]
                agrees(o, final(self).drawn@) ==> match rw_expr(
                    x@,
                    old(self).state(old(cache)@),
                    o,
                ) {
                    Ok((x, st)) => r matches Ok(got)
                        && got@ == x
                        && final(self).state(final(cache)@) == st,
                    Err(err) => r matches Err(got) && got == err,
                },
        decreases x, 0nat,
    {
        let ghost st0 = old(self).state(old(cache)@);
        let ghost d0 = self.drawn@;
        let ghost xv = x@;
        proof {
            lemma_agrees_refl(d0);
        }
        match x {
            Expr::Array(elems) => {
                assert(xv == ExprView::Array(opt_expr_or_spreads_view(elems@)));
                let elems = match self.visit_elems(elems, cache) {
                    Ok(v) => v,
                    Err(e) => {
                        proof {
                            assert forall|o: Seq<SiteNames>| #[trigger]
                                agrees(o, self.drawn@) implies
                                    (rw_expr(xv, st0, o) matches Err(err) && err == e) by {
                                lemma_rw_expr(xv, st0, o);
                            }
                        }
                        return Err(e);
                    },
                };
                let ghost d1 = self.drawn@;
                let result = Expr::Array(elems);
                proof {
                    assert(result@ == ExprView::Array(opt_expr_or_spreads_view(elems@)));
                    assert forall|o: Seq<SiteNames>| #[trigger]
                        agrees(o, self.drawn@) implies
                            rw_expr(xv, st0, o)
                                == Ok::<_, CompileError>((result@, self.state(cache@))) by {
                        lemma_rw_expr(xv, st0, o);
                    }
                }
                Ok(result)
            },
            _ => vstd::pervasive::unreached(),
        }
    }

    /// Walks an expression of the kind `Object`.
    fn visit_expr_object(
        &mut self,
        x: Expr,
        cache: &mut StyleNameCache,
    ) -> (r: Result<Expr, CompileError>)
        requires
            x is Object,
        ensures
            agrees(final(self).drawn@, old(self).drawn@),
            all_fresh(old(self).drawn@) ==> all_fresh(final(self).drawn@),
            forall|o: Seq<SiteNames>| #[trigger]
                agrees(o, final(self).drawn@) ==> match rw_expr(
                    x@,
                    old(self).state(old(cache)@),
                    o,
                ) {
                    Ok((x, st)) => r matches Ok(got)
                        && got@ == x
                        && final(self).state(final(cache)@) == st,
                    Err(err) => r matches Err(got) && got == err,
                },
        decreases x, 0nat,
    {
        let ghost st0 = old(self).state(old(cache)@);
        let ghost d0 = self.drawn@;
        let ghost xv = x@;
        proof {
            lemma_agrees_refl(d0);
        }
        match x {
            Expr::Object(obj) => {
                assert(xv == ExprView::Object(obj@));
                assert(obj@.props == prop_or_spreads_view(obj.props@));
                let props = match self.visit_props(obj.props, cache) {
                    Ok(v) => v,
                    Err(e) => {
                        proof {
                            assert forall|o: Seq<SiteNames>| #[trigger]
                                agrees(o, self.drawn@) implies
                                    (rw_expr(xv, st0, o) matches Err(err) && err == e) by {
                                lemma_rw_expr(xv, st0, o);
                            }
                        }
                        return Err(e);
                    },
                };
                let ghost d1 = self.drawn@;
                let result = crate::ast::make::object(props);
                proof {
                    assert(result@
                        == ExprView::Object(ObjectLitView { props: prop_or_spreads_view(props@) }));
                    assert forall|o: Seq<SiteNames>| #[trigger]
                        agrees(o, self.drawn@) implies
                            rw_expr(xv, st0, o)
                                == Ok::<_, CompileError>((result@, self.state(cache@))) by {
                        lemma_rw_expr(xv, st0, o);
                    }
                }
                Ok(result)
            },
            _ => vstd::pervasive::unreached(),
        }
    }

    /// Walks an expression of the kind `Call`.
    fn visit_expr_call(
        &mut self,
        x: Expr,
        cache: &mut StyleNameCache,
    ) -> (r: Result<Expr, CompileError>)
        requires
            x is Call,
        ensures
            agrees(final(self).drawn@, old(self).drawn@),
            all_fresh(old(self).drawn@) ==> all_fresh(final(self).drawn@),
            forall|o: Seq<SiteNames>| #[trigger]
                agrees(o, final(self).drawn@) ==> match rw_expr(
                    x@,
                    old(self).state(old(cache)@),
                    o,
                ) {
                    Ok((x, st)) => r matches Ok(got)
                        && got@ == x
                        && final(self).state(final(cache)@) == st,
                    Err(err) => r matches Err(got) && got == err,
                },
        decreases x, 0nat,
    {
        let ghost st0 = old(self).state(old(cache)@);
        let ghost d0 = self.drawn@;
        let ghost xv = x@;
        proof {
            lemma_agrees_refl(d0);
        }
        match x {
            Expr::Call { callee, args } => {
                assert(xv == ExprView::Call { callee: callee@, args: expr_or_spreads_view(args@) });
                let callee = match self.visit_callee(callee, cache) {
                    Ok(v) => v,
                    Err(e) => {
                        proof {
                            assert forall|o: Seq<SiteNames>| #[trigger]
                                agrees(o, self.drawn@) implies
                                    (rw_expr(xv, st0, o) matches Err(err) && err == e) by {
                                lemma_rw_expr(xv, st0, o);
                            }
                        }
                        return Err(e);
                    },
                };
                let ghost d1 = self.drawn@;
                let args = match self.visit_args(args, cache) {
                    Ok(v) => v,
                    Err(e) => {
                        proof {
                            lemma_agrees_trans(self.drawn@, d1, d0);
                            assert forall|o: Seq<SiteNames>| #[trigger]
                                agrees(o, self.drawn@) implies
                                    (rw_expr(xv, st0, o) matches Err(err) && err == e) by {
                                lemma_rw_expr(xv, st0, o);
                                lemma_agrees_trans(o, self.drawn@, d1);
                            }
                        }
                        return Err(e);
                    },
                };
                let ghost d2 = self.drawn@;
                proof {
                    lemma_agrees_trans(self.drawn@, d1, d0);
                }
                let result = Expr::Call { callee, args };
                proof {
                    assert(result@
                        == ExprView::Call { callee: callee@, args: expr_or_spreads_view(args@) });
                    assert forall|o: Seq<SiteNames>| #[trigger]
                        agrees(o, self.drawn@) implies
                            rw_expr(xv, st0, o)
                                == Ok::<_, CompileError>((result@, self.state(cache@))) by {
                        lemma_rw_expr(xv, st0, o);
                        lemma_agrees_trans(o, self.drawn@, d1);
                    }
                }
                Ok(result)
            },
            _ => vstd::pervasive::unreached(),
        }
    }

    /// Walks an expression of the kind `Member`.
    fn visit_expr_member(
        &mut self,
        x: Expr,
        cache: &mut StyleNameCache,
    ) -> (r: Result<Expr, CompileError>)
        requires
            x is Member,
        ensures
            agrees(final(self).drawn@, old(self).drawn@),
            all_fresh(old(self).drawn@) ==> all_fresh(final(self).drawn@),
            forall|o: Seq<SiteNames>| #[trigger]
                agrees(o, final(self).drawn@) ==> match rw_expr(
                    x@,
                    old(self).state(old(cache)@),
                    o,
                ) {
                    Ok((x, st)) => r matches Ok(got)
                        && got@ == x
                        && final(self).state(final(cache)@) == st,
                    Err(err) => r matches Err(got) && got == err,
                },
        decreases x, 0nat,
    {
        let ghost st0 = old(self).state(old(cache)@);
        let ghost d0 = self.drawn@;
        let ghost xv = x@;
        proof {
            lemma_agrees_refl(d0);
        }
        match x {
            Expr::Member { obj, prop } => {
                assert(xv == ExprView::Member { obj: Box::new(obj@), prop: prop@ });
                let obj = match self.visit_expr(*obj, cache) {
                    Ok(v) => v,
                    Err(e) => {
                        proof {
                            assert forall|o: Seq<SiteNames>| #[trigger]
                                agrees(o, self.drawn@) implies
                                    (rw_expr(xv, st0, o) matches Err(err) && err == e) by {
                                lemma_rw_expr(xv, st0, o);
                            }
                        }
                        return Err(e);
                    },
                };
                let ghost d1 = self.drawn@;
                let result = Expr::Member { obj: Box::new(obj), prop };
                proof {
                    assert(result@ == ExprView::Member { obj: Box::new(obj@), prop: prop@ });
                    assert forall|o: Seq<SiteNames>| #[trigger]
                        agrees(o, self.drawn@) implies
                            rw_expr(xv, st0, o)
                                == Ok::<_, CompileError>((result@, self.state(cache@))) by {
                        lemma_rw_expr(xv, st0, o);
                    }
                }
                Ok(result)
            },
            _ => vstd::pervasive::unreached(),
        }
    }

    /// Walks an expression of the kind `Await`.
    fn visit_expr_await(
        &mut self,
        x: Expr,
        cache: &mut StyleNameCache,
    ) -> (r: Result<Expr, CompileError>)
        requires
            x is Await,
        ensures
            agrees(final(self).drawn@, old(self).drawn@),
            all_fresh(old(self).drawn@) ==> all_fresh(final(self).drawn@),
            forall|o: Seq<SiteNames>| #[trigger]
                agrees(o, final(self).drawn@) ==> match rw_expr(
                    x@,
                    old(self).state(old(cache)@),
                    o,
                ) {
                    Ok((x, st)) => r matches Ok(got)
                        && got@ == x
                        && final(self).state(final(cache)@) == st,
                    Err(err) => r matches Err(got) && got == err,
                },
        decreases x, 0nat,
    {
        let ghost st0 = old(self).state(old(cache)@);
        let ghost d0 = self.drawn@;
        let ghost xv = x@;
        proof {
            lemma_agrees_refl(d0);
        }
        match x {
            Expr::Await(arg) => {
                assert(xv == ExprView::Await(Box::new(arg@)));
                let arg = match self.visit_expr(*arg, cache) {
                    Ok(v) => v,
                    Err(e) => {
                        proof {
                            assert forall|o: Seq<SiteNames>| #[trigger]
                                agrees(o, self.drawn@) implies
                                    (rw_expr(xv, st0, o) matches Err(err) && err == e) by {
                                lemma_rw_expr(xv, st0, o);
                            }
                        }
                        return Err(e);
                    },
                };
                let ghost d1 = self.drawn@;
                let result = Expr::Await(Box::new(arg));
                proof {
                    assert(result@ == ExprView::Await(Box::new(arg@)));
                    assert forall|o: Seq<SiteNames>| #[trigger]
                        agrees(o, self.drawn@) implies
                            rw_expr(xv, st0, o)
                                == Ok::<_, CompileError>((result@, self.state(cache@))) by {
                        lemma_rw_expr(xv, st0, o);
                    }
                }
                Ok(result)
            },
            _ => vstd::pervasive::unreached(),
        }
    }

    /// Walks an expression of the kind `Arrow`.
    fn visit_expr_arrow(
        &mut self,
        x: Expr,
        cache: &mut StyleNameCache,
    ) -> (r: Result<Expr, CompileError>)
        requires
            x is Arrow,
        ensures
            agrees(final(self).drawn@, old(self).drawn@),
            all_fresh(old(self).drawn@) ==> all_fresh(final(self).drawn@),
            forall|o: Seq<SiteNames>| #[trigger]
                agrees(o, final(self).drawn@) ==> match rw_expr(
                    x@,
                    old(self).state(old(cache)@),
                    o,
                ) {
                    Ok((x, st)) => r matches Ok(got)
                        && got@ == x
                        && final(self).state(final(cache)@) == st,
                    Err(err) => r matches Err(got) && got == err,
                },
        decreases x, 0nat,
    {
        let ghost st0 = old(self).state(old(cache)@);
        let ghost d0 = self.drawn@;
        let ghost xv = x@;
        proof {
            lemma_agrees_refl(d0);
        }
        match x {
            Expr::Arrow(a) => {
                assert(xv == ExprView::Arrow(a@));
                let a = match self.visit_arrow(a, cache) {
                    Ok(v) => v,
                    Err(e) => {
                        proof {
                            assert forall|o: Seq<SiteNames>| #[trigger]
                                agrees(o, self.drawn@) implies
                                    (rw_expr(xv, st0, o) matches Err(err) && err == e) by {
                                lemma_rw_expr(xv, st0, o);
                            }
                        }
                        return Err(e);
                    },
                };
                let ghost d1 = self.drawn@;
                let result = Expr::Arrow(a);
                proof {
                    assert(result@ == ExprView::Arrow(a@));
                    assert forall|o: Seq<SiteNames>| #[trigger]
                        agrees(o, self.drawn@) implies
                            rw_expr(xv, st0, o)
                                == Ok::<_, CompileError>((result@, self.state(cache@))) by {
                        lemma_rw_expr(xv, st0, o);
                    }
                }
                Ok(result)
            },
            _ => vstd::pervasive::unreached(),
        }
    }

    /// Walks an expression of the kind `Paren`.
    fn visit_expr_paren(
        &mut self,
        x: Expr,
        cache: &mut StyleNameCache,
    ) -> (r: Result<Expr, CompileError>)
        requires
            x is Paren,
        ensures
            agrees(final(self).drawn@, old(self).drawn@),
            all_fresh(old(self).drawn@) ==> all_fresh(final(self).drawn@),
            forall|o: Seq<SiteNames>| #[trigger]
                agrees(o, final(self).drawn@) ==> match rw_expr(
                    x@,
                    old(self).state(old(cache)@),
                    o,
                ) {
                    Ok((x, st)) => r matches Ok(got)
                        && got@ == x
                        && final(self).state(final(cache)@) == st,
                    Err(err) => r matches Err(got) && got == err,
                },
        decreases x, 0nat,
    {
        let ghost st0 = old(self).state(old(cache)@);
        let ghost d0 = self.drawn@;
        let ghost xv = x@;
        proof {
            lemma_agrees_refl(d0);
        }
        match x {
            Expr::Paren(inner) => {
                assert(xv == ExprView::Paren(Box::new(inner@)));
                let inner = match self.visit_expr(*inner, cache) {
                    Ok(v) => v,
                    Err(e) => {
                        proof {
                            assert forall|o: Seq<SiteNames>| #[trigger]
                                agrees(o, self.drawn@) implies
                                    (rw_expr(xv, st0, o) matches Err(err) && err == e) by {
                                lemma_rw_expr(xv, st0, o);
                            }
                        }
                        return Err(e);
                    },
                };
                let ghost d1 = self.drawn@;
                let result = Expr::Paren(Box::new(inner));
                proof {
                    assert(result@ == ExprView::Paren(Box::new(inner@)));
                    assert forall|o: Seq<SiteNames>| #[trigger]
                        agrees(o, self.drawn@) implies
                            rw_expr(xv, st0, o)
                                == Ok::<_, CompileError>((result@, self.state(cache@))) by {
                        lemma_rw_expr(xv, st0, o);
                    }
                }
                Ok(result)
            },
            _ => vstd::pervasive::unreached(),
        }
    }

    /// Walks an expression of the kind `Cond`.
    fn visit_expr_cond(
        &mut self,
        x: Expr,
        cache: &mut StyleNameCache,
    ) -> (r: Result<Expr, CompileError>)
        requires
            x is Cond,
        ensures
            agrees(final(self).drawn@, old(self).drawn@),
            all_fresh(old(self).drawn@) ==> all_fresh(final(self).drawn@),
            forall|o: Seq<SiteNames>| #[trigger]
                agrees(o, final(self).drawn@) ==> match rw_expr(
                    x@,
                    old(self).state(old(cache)@),
                    o,
                ) {
                    Ok((x, st)) => r matches Ok(got)
                        && got@ == x
                        && final(self).state(final(cache)@) == st,
                    Err(err) => r matches Err(got) && got == err,
                },
        decreases x, 0nat,
    {
        let ghost st0 = old(self).state(old(cache)@);
        let ghost d0 = self.drawn@;
        let ghost xv = x@;
        proof {
            lemma_agrees_refl(d0);
        }
        match x {
            Expr::Cond { test, cons, alt } => {
                assert(xv == ExprView::Cond {
                    test: Box::new(test@),
                    cons: Box::new(cons@),
                    alt: Box::new(alt@),
                });
                let test = match self.visit_expr(*test, cache) {
                    Ok(v) => v,
                    Err(e) => {
                        proof {
                            assert forall|o: Seq<SiteNames>| #[trigger]
                                agrees(o, self.drawn@) implies
                                    (rw_expr(xv, st0, o) matches Err(err) && err == e) by {
                                lemma_rw_expr(xv, st0, o);
                            }
                        }
                        return Err(e);
                    },
                };
                let ghost d1 = self.drawn@;
                let cons = match self.visit_expr(*cons, cache) {
                    Ok(v) => v,
                    Err(e) => {
                        proof {
                            lemma_agrees_trans(self.drawn@, d1, d0);
                            assert forall|o: Seq<SiteNames>| #[trigger]
                                agrees(o, self.drawn@) implies
                                    (rw_expr(xv, st0, o) matches Err(err) && err == e) by {
                                lemma_rw_expr(xv, st0, o);
                                lemma_agrees_trans(o, self.drawn@, d1);
                            }
                        }
                        return Err(e);
                    },
                };
                let ghost d2 = self.drawn@;
                proof {
                    lemma_agrees_trans(self.drawn@, d1, d0);
                }
                let alt = match self.visit_expr(*alt, cache) {
                    Ok(v) => v,
                    Err(e) => {
                        proof {
                            lemma_agrees_trans(self.drawn@, d2, d0);
                            lemma_agrees_trans(self.drawn@, d2, d1);
                            assert forall|o: Seq<SiteNames>| #[trigger]
                                agrees(o, self.drawn@) implies
                                    (rw_expr(xv, st0, o) matches Err(err) && err == e) by {
                                lemma_rw_expr(xv, st0, o);
                                lemma_agrees_trans(o, self.drawn@, d1);
                                lemma_agrees_trans(o, self.drawn@, d2);
                            }
                        }
                        return Err(e);
                    },
                };
                let ghost d3 = self.drawn@;
                proof {
                    lemma_agrees_trans(self.drawn@, d2, d0);
                    lemma_agrees_trans(self.drawn@, d2, d1);
                }
                let result = Expr::Cond {
                    test: Box::new(test),
                    cons: Box::new(cons),
                    alt: Box::new(alt),
                };
                proof {
                    assert(result@ == ExprView::Cond {
                        test: Box::new(test@),
                        cons: Box::new(cons@),
                        alt: Box::new(alt@),
                    });
                    assert forall|o: Seq<SiteNames>| #[trigger]
                        agrees(o, self.drawn@) implies
                            rw_expr(xv, st0, o)
                                == Ok::<_, CompileError>((result@, self.state(cache@))) by {
                        lemma_rw_expr(xv, st0, o);
                        lemma_agrees_trans(o, self.drawn@, d1);
                        lemma_agrees_trans(o, self.drawn@, d2);
                    }
                }
                Ok(result)
            },
            _ => vstd::pervasive::unreached(),
        }
    }

    /// Walks an expression of the kind `Assign`.
    fn visit_expr_assign(
        &mut self,
        x: Expr,
        cache: &mut StyleNameCache,
    ) -> (r: Result<Expr, CompileError>)
        requires
            x is Assign,
        ensures
            agrees(final(self).drawn@, old(self).drawn@),
            all_fresh(old(self).drawn@) ==> all_fresh(final(self).drawn@),
            forall|o: Seq<SiteNames>| #[trigger]
                agrees(o, final(self).drawn@) ==> match rw_expr(
                    x@,
                    old(self).state(old(cache)@),
                    o,
                ) {
                    Ok((x, st)) => r matches Ok(got)
                        && got@ == x
                        && final(self).state(final(cache)@) == st,
                    Err(err) => r matches Err(got) && got == err,
                },
        decreases x, 0nat,
    {
        let ghost st0 = old(self).state(old(cache)@);
        let ghost d0 = self.drawn@;
        let ghost xv = x@;
        proof {
            lemma_agrees_refl(d0);
        }
        match x {
            Expr::Assign { left, right } => {
                assert(xv == ExprView::Assign { left: left@, right: Box::new(right@) });
                match &left {
                    AssignTarget::Ident(name) => {
                        assert(left@ == AssignTargetView::Ident(name@));
                        self.typechecker.record_binding(Some(name), &right);
                    },
                    AssignTarget::Other(op) => {
                        assert(left@ is Other);
                        self.typechecker.record_binding(None, &right);
                    },
                }
                let left = match self.visit_target(left, cache) {
                    Ok(v) => v,
                    Err(e) => {
                        proof {
                            assert forall|o: Seq<SiteNames>| #[trigger]
                                agrees(o, self.drawn@) implies
                                    (rw_expr(xv, st0, o) matches Err(err) && err == e) by {
                                lemma_rw_expr(xv, st0, o);
                            }
                        }
                        return Err(e);
                    },
                };
                let ghost d1 = self.drawn@;
                let right = match self.visit_expr(*right, cache) {
                    Ok(v) => v,
                    Err(e) => {
                        proof {
                            lemma_agrees_trans(self.drawn@, d1, d0);
                            assert forall|o: Seq<SiteNames>| #[trigger]
                                agrees(o, self.drawn@) implies
                                    (rw_expr(xv, st0, o) matches Err(err) && err == e) by {
                                lemma_rw_expr(xv, st0, o);
                                lemma_agrees_trans(o, self.drawn@, d1);
                            }
                        }
                        return Err(e);
                    },
                };
                let ghost d2 = self.drawn@;
                proof {
                    lemma_agrees_trans(self.drawn@, d1, d0);
                }
                let result = Expr::Assign { left, right: Box::new(right) };
                proof {
                    assert(result@ == ExprView::Assign { left: left@, right: Box::new(right@) });
                    assert forall|o: Seq<SiteNames>| #[trigger]
                        agrees(o, self.drawn@) implies
                            rw_expr(xv, st0, o)
                                == Ok::<_, CompileError>((result@, self.state(cache@))) by {
                        lemma_rw_expr(xv, st0, o);
                        lemma_agrees_trans(o, self.drawn@, d1);
                    }
                }
                Ok(result)
            },
            _ => vstd::pervasive::unreached(),
        }
    }

    /// Walks an expression of the kind `JSXElement`.
    fn visit_expr_jsx_element(
        &mut self,
        x: Expr,
        cache: &mut StyleNameCache,
    ) -> (r: Result<Expr, CompileError>)
        requires
            x is JSXElement,
        ensures
            agrees(final(self).drawn@, old(self).drawn@),
            all_fresh(old(self).drawn@) ==> all_fresh(final(self).drawn@),
            forall|o: Seq<SiteNames>| #[trigger]
                agrees(o, final(self).drawn@) ==> match rw_expr(
                    x@,
                    old(self).state(old(cache)@),
                    o,
                ) {
                    Ok((x, st)) => r matches Ok(got)
                        && got@ == x
                        && final(self).state(final(cache)@) == st,
                    Err(err) => r matches Err(got) && got == err,
                },
        decreases x, 0nat,
    {
        let ghost st0 = old(self).state(old(cache)@);
        let ghost d0 = self.drawn@;
        let ghost xv = x@;
        proof {
            lemma_agrees_refl(d0);
        }
        match x {
            Expr::JSXElement(el) => {
                assert(xv == ExprView::JSXElement(Box::new(el@)));
                let el = match self.visit_jsx_element(*el, cache) {
                    Ok(v) => v,
                    Err(e) => {
                        proof {
                            assert forall|o: Seq<SiteNames>| #[trigger]
                                agrees(o, self.drawn@) implies
                                    (rw_expr(xv, st0, o) matches Err(err) && err == e) by {
                                lemma_rw_expr(xv, st0, o);
                            }
                        }
                        return Err(e);
                    },
                };
                let ghost d1 = self.drawn@;
                match self.visit_site(el, cache) {
                    Ok(result) => {
                        proof {
                            lemma_agrees_trans(self.drawn@, d1, d0);
                            assert forall|o: Seq<SiteNames>| #[trigger]
                                agrees(o, self.drawn@) implies
                                    rw_expr(xv, st0, o)
                                        == Ok::<_, CompileError>((result@, self.state(cache@))) by {
                                lemma_rw_expr(xv, st0, o);
                                lemma_agrees_trans(o, self.drawn@, d1);
                            }
                        }
                        Ok(result)
                    },
                    Err(e) => {
                        proof {
                            lemma_agrees_trans(self.drawn@, d1, d0);
                            assert forall|o: Seq<SiteNames>| #[trigger]
                                agrees(o, self.drawn@) implies
                                    (rw_expr(xv, st0, o) matches Err(err) && err == e) by {
                                lemma_rw_expr(xv, st0, o);
                                lemma_agrees_trans(o, self.drawn@, d1);
                            }
                        }
                        Err(e)
                    },
                }
            },
            _ => vstd::pervasive::unreached(),
        }
    }

    /// Walks an expression of the kind `JSXFragment`.
    fn visit_expr_jsx_fragment(
        &mut self,
        x: Expr,
        cache: &mut StyleNameCache,
    ) -> (r: Result<Expr, CompileError>)
        requires
            x is JSXFragment,
        ensures
            agrees(final(self).drawn@, old(self).drawn@),
            all_fresh(old(self).drawn@) ==> all_fresh(final(self).drawn@),
            forall|o: Seq<SiteNames>| #[trigger]
                agrees(o, final(self).drawn@) ==> match rw_expr(
                    x@,
                    old(self).state(old(cache)@),
                    o,
                ) {
                    Ok((x, st)) => r matches Ok(got)
                        && got@ == x
                        && final(self).state(final(cache)@) == st,
                    Err(err) => r matches Err(got) && got == err,
                },
        decreases x, 0nat,
    {
        let ghost st0 = old(self).state(old(cache)@);
        let ghost d0 = self.drawn@;
        let ghost xv = x@;
        proof {
            lemma_agrees_refl(d0);
        }
        match x {
            Expr::JSXFragment(children) => {
                assert(xv == ExprView::JSXFragment(jsx_children_view(children@)));
                let children = match self.visit_jsx_children(children, cache) {
                    Ok(v) => v,
                    Err(e) => {
                        proof {
                            assert forall|o: Seq<SiteNames>| #[trigger]
                                agrees(o, self.drawn@) implies
                                    (rw_expr(xv, st0, o) matches Err(err) && err == e) by {
                                lemma_rw_expr(xv, st0, o);
                            }
                        }
                        return Err(e);
                    },
                };
                let ghost d1 = self.drawn@;
                let result = Expr::JSXFragment(children);
                proof {
                    assert(result@ == ExprView::JSXFragment(jsx_children_view(children@)));
                    assert forall|o: Seq<SiteNames>| #[trigger]
                        agrees(o, self.drawn@) implies
                            rw_expr(xv, st0, o)
                                == Ok::<_, CompileError>((result@, self.state(cache@))) by {
                        lemma_rw_expr(xv, st0, o);
                    }
                }
                Ok(result)
            },
            _ => vstd::pervasive::unreached(),
        }
    }

    /// Walks an expression of the kind `Other`.
    fn visit_expr_other(
        &mut self,
        x: Expr,
        cache: &mut StyleNameCache,
    ) -> (r: Result<Expr, CompileError>)
        requires
            x is Other,
        ensures
            agrees(final(self).drawn@, old(self).drawn@),
            all_fresh(old(self).drawn@) ==> all_fresh(final(self).drawn@),
            forall|o: Seq<SiteNames>| #[trigger]
                agrees(o, final(self).drawn@) ==> match rw_expr(
                    x@,
                    old(self).state(old(cache)@),
                    o,
                ) {
                    Ok((x, st)) => r matches Ok(got)
                        && got@ == x
                        && final(self).state(final(cache)@) == st,
                    Err(err) => r matches Err(got) && got == err,
                },
        decreases x, 0nat,
    {
        let ghost st0 = old(self).state(old(cache)@);
        let ghost d0 = self.drawn@;
        let ghost xv = x@;
        proof {
            lemma_agrees_refl(d0);
        }
        match x {
            Expr::Other(op) => {
                assert(xv == ExprView::Other(op@));
                assert(op@.children == nodes_view(op.children@));
                let handle = op.handle;
                let children = match self.visit_nodes(op.children, cache) {
                    Ok(v) => v,
                    Err(e) => {
                        proof {
                            assert forall|o: Seq<SiteNames>| #[trigger]
                                agrees(o, self.drawn@) implies
                                    (rw_expr(xv, st0, o) matches Err(err) && err == e) by {
                                lemma_rw_expr(xv, st0, o);
                            }
                        }
                        return Err(e);
                    },
                };
                let ghost d1 = self.drawn@;
                let inner = Opaque { handle, children };
                assert(inner@ == OpaqueView { handle, children: nodes_view(children@) });
                let result = Expr::Other(inner);
                proof {
                    assert(result@
                        == ExprView::Other(OpaqueView { handle, children: nodes_view(children@) }));
                    assert forall|o: Seq<SiteNames>| #[trigger]
                        agrees(o, self.drawn@) implies
                            rw_expr(xv, st0, o)
                                == Ok::<_, CompileError>((result@, self.state(cache@))) by {
                        lemma_rw_expr(xv, st0, o);
                    }
                }
                Ok(result)
            },
            _ => vstd::pervasive::unreached(),
        }
    }

    /// Walks an expression; a markup element is walked and then compiled.
    pub fn visit_expr(
        &mut self,
        x: Expr,
        cache: &mut StyleNameCache,
    ) -> (r: Result<Expr, CompileError>)
        ensures
            agrees(final(self).drawn@, old(self).drawn@),
            all_fresh(old(self).drawn@) ==> all_fresh(final(self).drawn@),
            forall|o: Seq<SiteNames>| #[trigger]
                agrees(o, final(self).drawn@) ==> match rw_expr(
                    x@,
                    old(self).state(old(cache)@),
                    o,
                ) {
                    Ok((x, st)) => r matches Ok(got)
                        && got@ == x
                        && final(self).state(final(cache)@) == st,
                    Err(err) => r matches Err(got) && got == err,
                },
        decreases x, 1nat,
    {
        let ghost st0 = old(self).state(old(cache)@);
        let ghost d0 = self.drawn@;
        let ghost xv = x@;
        proof {
            lemma_agrees_refl(d0);
        }
        match &x {
            Expr::Lit(l) => {
                assert(xv is Lit);
                self.visit_expr_lit(x, cache)
            },
            Expr::Ident(i) => {
                assert(xv is Ident);
                self.visit_expr_ident(x, cache)
            },
            Expr::Tpl(t) => {
                assert(xv is Tpl);
                self.visit_expr_tpl(x, cache)
            },
            Expr::Array(elems) => {
                assert(xv is Array);
                self.visit_expr_array(x, cache)
            },
            Expr::Object(obj) => {
                assert(xv is Object);
                self.visit_expr_object(x, cache)
            },
            Expr::Call { callee, args } => {
                assert(xv is Call);
                self.visit_expr_call(x, cache)
            },
            Expr::Member { obj, prop } => {
                assert(xv is Member);
                self.visit_expr_member(x, cache)
            },
            Expr::Await(arg) => {
                assert(xv is Await);
                self.visit_expr_await(x, cache)
            },
            Expr::Arrow(a) => {
                assert(xv is Arrow);
                self.visit_expr_arrow(x, cache)
            },
            Expr::Paren(inner) => {
                assert(xv is Paren);
                self.visit_expr_paren(x, cache)
            },
            Expr::Cond { test, cons, alt } => {
                assert(xv is Cond);
                self.visit_expr_cond(x, cache)
            },
            Expr::Assign { left, right } => {
                assert(xv is Assign);
                self.visit_expr_assign(x, cache)
            },
            Expr::JSXElement(el) => {
                assert(xv is JSXElement);
                self.visit_expr_jsx_element(x, cache)
            },
            Expr::JSXFragment(children) => {
                assert(xv is JSXFragment);
                self.visit_expr_jsx_fragment(x, cache)
            },
            Expr::Other(op) => {
                assert(xv is Other);
                self.visit_expr_other(x, cache)
            },
        }
    }

    /// Walks what a call calls.
    pub fn visit_callee(
        &mut self,
        x: Callee,
        cache: &mut StyleNameCache,
    ) -> (r: Result<Callee, CompileError>)
        ensures
            agrees(final(self).drawn@, old(self).drawn@),
            all_fresh(old(self).drawn@) ==> all_fresh(final(self).drawn@),
            forall|o: Seq<SiteNames>| #[trigger]
                agrees(o, final(self).drawn@) ==> match rw_callee(
                    x@,
                    old(self).state(old(cache)@),
                    o,
                ) {
                    Ok((x, st)) => r matches Ok(got)
                        && got@ == x
                        && final(self).state(final(cache)@) == st,
                    Err(err) => r matches Err(got) && got == err,
                },
        decreases x, 0nat,
    {
        let ghost st0 = old(self).state(old(cache)@);
        let ghost d0 = self.drawn@;
        let ghost xv = x@;
        proof {
            lemma_agrees_refl(d0);
        }
        match x {
            Callee::Expr(e) => {
                assert(xv == CalleeView::Expr(Box::new(e@)));
                let e = match self.visit_expr(*e, cache) {
                    Ok(v) => v,
                    Err(e) => {
                        proof {
                            assert forall|o: Seq<SiteNames>| #[trigger]
                                agrees(o, self.drawn@) implies
                                    (rw_callee(xv, st0, o) matches Err(err) && err == e) by {
                                lemma_rw_callee(xv, st0, o);
                            }
                        }
                        return Err(e);
                    },
                };
                let ghost d1 = self.drawn@;
                let result = Callee::Expr(Box::new(e));
                proof {
                    assert(result@ == CalleeView::Expr(Box::new(e@)));
                    assert forall|o: Seq<SiteNames>| #[trigger]
                        agrees(o, self.drawn@) implies
                            rw_callee(xv, st0, o)
                                == Ok::<_, CompileError>((result@, self.state(cache@))) by {
                        lemma_rw_callee(xv, st0, o);
                    }
                }
                Ok(result)
            },
            Callee::Other => {
                assert(xv == CalleeView::Other);
                let result = Callee::Other;
                proof {
                    assert(result@ == xv);
                    assert forall|o: Seq<SiteNames>|
                        #[trigger] rw_callee(xv, st0, o)
                            == Ok::<_, CompileError>((result@, st0)) by {
                        lemma_rw_callee(xv, st0, o);
                    }
                }
                Ok(result)
            },
        }
    }

    /// Walks the target of an assignment.
    pub fn visit_target(
        &mut self,
        x: AssignTarget,
        cache: &mut StyleNameCache,
    ) -> (r: Result<AssignTarget, CompileError>)
        ensures
            agrees(final(self).drawn@, old(self).drawn@),
            all_fresh(old(self).drawn@) ==> all_fresh(final(self).drawn@),
            forall|o: Seq<SiteNames>| #[trigger]
                agrees(o, final(self).drawn@) ==> match rw_target(
                    x@,
                    old(self).state(old(cache)@),
                    o,
                ) {
                    Ok((x, st)) => r matches Ok(got)
                        && got@ == x
                        && final(self).state(final(cache)@) == st,
                    Err(err) => r matches Err(got) && got == err,
                },
        decreases x, 0nat,
    {
        let ghost st0 = old(self).state(old(cache)@);
        let ghost d0 = self.drawn@;
        let ghost xv = x@;
        proof {
            lemma_agrees_refl(d0);
        }
        match x {
            AssignTarget::Ident(n) => {
                assert(xv == AssignTargetView::Ident(n@));
                let result = AssignTarget::Ident(n);
                proof {
                    assert(result@ == xv);
                    assert forall|o: Seq<SiteNames>|
                        #[trigger] rw_target(xv, st0, o)
                            == Ok::<_, CompileError>((result@, st0)) by {
                        lemma_rw_target(xv, st0, o);
                    }
                }
                Ok(result)
            },
            AssignTarget::Other(op) => {
                assert(xv == AssignTargetView::Other(op@));
                assert(op@.children == nodes_view(op.children@));
                let handle = op.handle;
                let children = match self.visit_nodes(op.children, cache) {
                    Ok(v) => v,
                    Err(e) => {
                        proof {
                            assert forall|o: Seq<SiteNames>| #[trigger]
                                agrees(o, self.drawn@) implies
                                    (rw_target(xv, st0, o) matches Err(err) && err == e) by {
                                lemma_rw_target(xv, st0, o);
                            }
                        }
                        return Err(e);
                    },
                };
                let ghost d1 = self.drawn@;
                let result = AssignTarget::Other(Opaque { handle, children });
                proof {
                    assert(result@ == AssignTargetView::Other(
                        OpaqueView { handle, children: nodes_view(children@) }
                    ));
                    assert forall|o: Seq<SiteNames>| #[trigger]
                        agrees(o, self.drawn@) implies
                            rw_target(xv, st0, o)
                                == Ok::<_, CompileError>((result@, self.state(cache@))) by {
                        lemma_rw_target(xv, st0, o);
                    }
                }
                Ok(result)
            },
        }
    }

    /// Walks an arrow function in a scope of its own.
    pub fn visit_arrow(
        &mut self,
        x: ArrowExpr,
        cache: &mut StyleNameCache,
    ) -> (r: Result<ArrowExpr, CompileError>)
        ensures
            agrees(final(self).drawn@, old(self).drawn@),
            all_fresh(old(self).drawn@) ==> all_fresh(final(self).drawn@),
            forall|o: Seq<SiteNames>| #[trigger]
                agrees(o, final(self).drawn@) ==> match rw_arrow(
                    x@,
                    old(self).state(old(cache)@),
                    o,
                ) {
                    Ok((x, st)) => r matches Ok(got)
                        && got@ == x
                        && final(self).state(final(cache)@) == st,
                    Err(err) => r matches Err(got) && got == err,
                },
        decreases x, 0nat,
    {
        let ghost st0 = old(self).state(old(cache)@);
        let ghost d0 = self.drawn@;
        let ghost xv = x@;
        proof {
            lemma_agrees_refl(d0);
        }
        assert(xv.params == pats_view(x.params@));
        assert(xv.body == x.body@);
        let is_async = x.is_async;
        let known = self.typechecker.enter_arrow_expr(&x.body);
        let params = match self.visit_pats(x.params, cache) {
            Ok(v) => v,
            Err(e) => {
                proof {
                    assert forall|o: Seq<SiteNames>| #[trigger]
                        agrees(o, self.drawn@) implies
                            (rw_arrow(xv, st0, o) matches Err(err) && err == e) by {
                        lemma_rw_arrow(xv, st0, o);
                    }
                }
                return Err(e);
            },
        };
        let ghost d1 = self.drawn@;
        let body = match self.visit_arrow_body(x.body, cache) {
            Ok(v) => v,
            Err(e) => {
                proof {
                    lemma_agrees_trans(self.drawn@, d1, d0);
                    assert forall|o: Seq<SiteNames>| #[trigger]
                        agrees(o, self.drawn@) implies
                            (rw_arrow(xv, st0, o) matches Err(err) && err == e) by {
                        lemma_rw_arrow(xv, st0, o);
                        lemma_agrees_trans(o, self.drawn@, d1);
                    }
                }
                return Err(e);
            },
        };
        let ghost d2 = self.drawn@;
        proof {
            lemma_agrees_trans(self.drawn@, d1, d0);
        }
        self.typechecker.exit_arrow_expr(known, is_async);
        let result = ArrowExpr { params, body, is_async };
        proof {
            assert(result@ == ArrowExprView { params: pats_view(params@), body: body@, is_async });
            assert forall|o: Seq<SiteNames>| #[trigger]
                agrees(o, self.drawn@) implies
                    rw_arrow(xv, st0, o)
                        == Ok::<_, CompileError>((result@, self.state(cache@))) by {
                lemma_rw_arrow(xv, st0, o);
                lemma_agrees_trans(o, self.drawn@, d1);
            }
        }
        Ok(result)
    }

    /// Walks the body of an arrow function.
    pub fn visit_arrow_body(
        &mut self,
        x: BlockStmtOrExpr,
        cache: &mut StyleNameCache,
    ) -> (r: Result<BlockStmtOrExpr, CompileError>)
        ensures
            agrees(final(self).drawn@, old(self).drawn@),
            all_fresh(old(self).drawn@) ==> all_fresh(final(self).drawn@),
            forall|o: Seq<SiteNames>| #[trigger]
                agrees(o, final(self).drawn@) ==> match rw_arrow_body(
                    x@,
                    old(self).state(old(cache)@),
                    o,
                ) {
                    Ok((x, st)) => r matches Ok(got)
                        && got@ == x
                        && final(self).state(final(cache)@) == st,
                    Err(err) => r matches Err(got) && got == err,
                },
        decreases x, 0nat,
    {
        let ghost st0 = old(self).state(old(cache)@);
        let ghost d0 = self.drawn@;
        let ghost xv = x@;
        proof {
            lemma_agrees_refl(d0);
        }
        match x {
            BlockStmtOrExpr::Expr(e) => {
                assert(xv == BlockStmtOrExprView::Expr(Box::new(e@)));
                let e = match self.visit_expr(*e, cache) {
                    Ok(v) => v,
                    Err(e) => {
                        proof {
                            assert forall|o: Seq<SiteNames>| #[trigger]
                                agrees(o, self.drawn@) implies
                                    (rw_arrow_body(xv, st0, o) matches Err(err) && err == e) by {
                                lemma_rw_arrow_body(xv, st0, o);
                            }
                        }
                        return Err(e);
                    },
                };
                let ghost d1 = self.drawn@;
                let result = BlockStmtOrExpr::Expr(Box::new(e));
                proof {
                    assert(result@ == BlockStmtOrExprView::Expr(Box::new(e@)));
                    assert forall|o: Seq<SiteNames>| #[trigger]
                        agrees(o, self.drawn@) implies
                            rw_arrow_body(xv, st0, o)
                                == Ok::<_, CompileError>((result@, self.state(cache@))) by {
                        lemma_rw_arrow_body(xv, st0, o);
                    }
                }
                Ok(result)
            },
            BlockStmtOrExpr::BlockStmt(stmts) => {
                assert(xv == BlockStmtOrExprView::BlockStmt(stmts_view(stmts@)));
                let stmts = match self.visit_stmts(stmts, cache) {
                    Ok(v) => v,
                    Err(e) => {
                        proof {
                            assert forall|o: Seq<SiteNames>| #[trigger]
                                agrees(o, self.drawn@) implies
                                    (rw_arrow_body(xv, st0, o) matches Err(err) && err == e) by {
                                lemma_rw_arrow_body(xv, st0, o);
                            }
                        }
                        return Err(e);
                    },
                };
                let ghost d1 = self.drawn@;
                let result = BlockStmtOrExpr::BlockStmt(stmts);
                proof {
                    assert(result@ == BlockStmtOrExprView::BlockStmt(stmts_view(stmts@)));
                    assert forall|o: Seq<SiteNames>| #[trigger]
                        agrees(o, self.drawn@) implies
                            rw_arrow_body(xv, st0, o)
                                == Ok::<_, CompileError>((result@, self.state(cache@))) by {
                        lemma_rw_arrow_body(xv, st0, o);
                    }
                }
                Ok(result)
            },
        }
    }

    /// Walks an argument.
    pub fn visit_arg(
        &mut self,
        x: ExprOrSpread,
        cache: &mut StyleNameCache,
    ) -> (r: Result<ExprOrSpread, CompileError>)
        ensures
            agrees(final(self).drawn@, old(self).drawn@),
            all_fresh(old(self).drawn@) ==> all_fresh(final(self).drawn@),
            forall|o: Seq<SiteNames>| #[trigger]
                agrees(o, final(self).drawn@) ==> match rw_arg(
                    x@,
                    old(self).state(old(cache)@),
                    o,
                ) {
                    Ok((x, st)) => r matches Ok(got)
                        && got@ == x
                        && final(self).state(final(cache)@) == st,
                    Err(err) => r matches Err(got) && got == err,
                },
        decreases x, 0nat,
    {
        let ghost st0 = old(self).state(old(cache)@);
        let ghost d0 = self.drawn@;
        let ghost xv = x@;
        proof {
            lemma_agrees_refl(d0);
        }
        assert(xv.expr == x.expr@);
        let spread = x.spread;
        let expr = match self.visit_expr(x.expr, cache) {
            Ok(v) => v,
            Err(e) => {
                proof {
                    assert forall|o: Seq<SiteNames>| #[trigger]
                        agrees(o, self.drawn@) implies
                            (rw_arg(xv, st0, o) matches Err(err) && err == e) by {
                        lemma_rw_arg(xv, st0, o);
                    }
                }
                return Err(e);
            },
        };
        let ghost d1 = self.drawn@;
        let result = ExprOrSpread { spread, expr };
        proof {
            assert(result@ == ExprOrSpreadView { spread, expr: expr@ });
            assert forall|o: Seq<SiteNames>| #[trigger]
                agrees(o, self.drawn@) implies
                    rw_arg(xv, st0, o) == Ok::<_, CompileError>((result@, self.state(cache@))) by {
                lemma_rw_arg(xv, st0, o);
            }
        }
        Ok(result)
    }

    /// Walks an entry of an object literal.
    pub fn visit_prop(
        &mut self,
        x: PropOrSpread,
        cache: &mut StyleNameCache,
    ) -> (r: Result<PropOrSpread, CompileError>)
        ensures
            agrees(final(self).drawn@, old(self).drawn@),
            all_fresh(old(self).drawn@) ==> all_fresh(final(self).drawn@),
            forall|o: Seq<SiteNames>| #[trigger]
                agrees(o, final(self).drawn@) ==> match rw_prop(
                    x@,
                    old(self).state(old(cache)@),
                    o,
                ) {
                    Ok((x, st)) => r matches Ok(got)
                        && got@ == x
                        && final(self).state(final(cache)@) == st,
                    Err(err) => r matches Err(got) && got == err,
                },
        decreases x, 0nat,
    {
        let ghost st0 = old(self).state(old(cache)@);
        let ghost d0 = self.drawn@;
        let ghost xv = x@;
        proof {
            lemma_agrees_refl(d0);
        }
        match x {
            PropOrSpread::Spread(e) => {
                assert(xv == PropOrSpreadView::Spread(e@));
                let e = match self.visit_expr(e, cache) {
                    Ok(v) => v,
                    Err(e) => {
                        proof {
                            assert forall|o: Seq<SiteNames>| #[trigger]
                                agrees(o, self.drawn@) implies
                                    (rw_prop(xv, st0, o) matches Err(err) && err == e) by {
                                lemma_rw_prop(xv, st0, o);
                            }
                        }
                        return Err(e);
                    },
                };
                let ghost d1 = self.drawn@;
                let result = PropOrSpread::Spread(e);
                proof {
                    assert(result@ == PropOrSpreadView::Spread(e@));
                    assert forall|o: Seq<SiteNames>| #[trigger]
                        agrees(o, self.drawn@) implies
                            rw_prop(xv, st0, o)
                                == Ok::<_, CompileError>((result@, self.state(cache@))) by {
                        lemma_rw_prop(xv, st0, o);
                    }
                }
                Ok(result)
            },
            PropOrSpread::Prop(prop) => {
                assert(xv == PropOrSpreadView::Prop(prop@));
                match prop {
                    Prop::Shorthand(n) => {
                        assert(prop@ == PropView::Shorthand(n@));
                        let result = PropOrSpread::Prop(Prop::Shorthand(n));
                        proof {
                            assert(result@ == xv);
                            assert forall|o: Seq<SiteNames>|
                                #[trigger] rw_prop(xv, st0, o)
                                    == Ok::<_, CompileError>((result@, st0)) by {
                                lemma_rw_prop(xv, st0, o);
                            }
                        }
                        Ok(result)
                    },
                    Prop::KeyValue { key, value } => {
                        assert(prop@ == PropView::KeyValue { key: key@, value: Box::new(value@) });
                        let key = match self.visit_prop_name(key, cache) {
                            Ok(v) => v,
                            Err(e) => {
                                proof {
                                    assert forall|o: Seq<SiteNames>| #[trigger]
                                        agrees(o, self.drawn@) implies
                                            (rw_prop(xv, st0, o) matches Err(err) && err == e) by {
                                        lemma_rw_prop(xv, st0, o);
                                    }
                                }
                                return Err(e);
                            },
                        };
                        let ghost d1 = self.drawn@;
                        let value = match self.visit_expr(*value, cache) {
                            Ok(v) => v,
                            Err(e) => {
                                proof {
                                    lemma_agrees_trans(self.drawn@, d1, d0);
                                    assert forall|o: Seq<SiteNames>| #[trigger]
                                        agrees(o, self.drawn@) implies
                                            (rw_prop(xv, st0, o) matches Err(err) && err == e) by {
                                        lemma_rw_prop(xv, st0, o);
                                        lemma_agrees_trans(o, self.drawn@, d1);
                                    }
                                }
                                return Err(e);
                            },
                        };
                        let ghost d2 = self.drawn@;
                        proof {
                            lemma_agrees_trans(self.drawn@, d1, d0);
                        }
                        let result = PropOrSpread::Prop(
                            Prop::KeyValue { key, value: Box::new(value) }
                        );
                        proof {
                            assert(result@ == PropOrSpreadView::Prop(
                                PropView::KeyValue { key: key@, value: Box::new(value@) }
                            ));
                            assert forall|o: Seq<SiteNames>| #[trigger]
                                agrees(o, self.drawn@) implies
                                    rw_prop(xv, st0, o)
                                        == Ok::<_, CompileError>((result@, self.state(cache@))) by {
                                lemma_rw_prop(xv, st0, o);
                                lemma_agrees_trans(o, self.drawn@, d1);
                            }
                        }
                        Ok(result)
                    },
                    Prop::Other(op) => {
                        assert(prop@ == PropView::Other(op@));
                        assert(op@.children == nodes_view(op.children@));
                        let handle = op.handle;
                        let children = match self.visit_nodes(op.children, cache) {
                            Ok(v) => v,
                            Err(e) => {
                                proof {
                                    assert forall|o: Seq<SiteNames>| #[trigger]
                                        agrees(o, self.drawn@) implies
                                            (rw_prop(xv, st0, o) matches Err(err) && err == e) by {
                                        lemma_rw_prop(xv, st0, o);
                                    }
                                }
                                return Err(e);
                            },
                        };
                        let ghost d1 = self.drawn@;
                        let result = PropOrSpread::Prop(Prop::Other(Opaque { handle, children }));
                        proof {
                            assert(result@ == PropOrSpreadView::Prop(
                                PropView::Other(
                                    OpaqueView { handle, children: nodes_view(children@) }
                                )
                            ));
                            assert forall|o: Seq<SiteNames>| #[trigger]
                                agrees(o, self.drawn@) implies
                                    rw_prop(xv, st0, o)
                                        == Ok::<_, CompileError>((result@, self.state(cache@))) by {
                                lemma_rw_prop(xv, st0, o);
                            }
                        }
                        Ok(result)
                    },
                }
            },
        }
    }

    /// Walks the name of an object property.
    pub fn visit_prop_name(
        &mut self,
        x: PropName,
        cache: &mut StyleNameCache,
    ) -> (r: Result<PropName, CompileError>)
        ensures
            agrees(final(self).drawn@, old(self).drawn@),
            all_fresh(old(self).drawn@) ==> all_fresh(final(self).drawn@),
            forall|o: Seq<SiteNames>| #[trigger]
                agrees(o, final(self).drawn@) ==> match rw_prop_name(
                    x@,
                    old(self).state(old(cache)@),
                    o,
                ) {
                    Ok((x, st)) => r matches Ok(got)
                        && got@ == x
                        && final(self).state(final(cache)@) == st,
                    Err(err) => r matches Err(got) && got == err,
                },
        decreases x, 0nat,
    {
        let ghost st0 = old(self).state(old(cache)@);
        let ghost d0 = self.drawn@;
        let ghost xv = x@;
        proof {
            lemma_agrees_refl(d0);
        }
        match x {
            PropName::Computed(e) => {
                assert(xv == PropNameView::Computed(Box::new(e@)));
                let e = match self.visit_expr(*e, cache) {
                    Ok(v) => v,
                    Err(e) => {
                        proof {
                            assert forall|o: Seq<SiteNames>| #[trigger]
                                agrees(o, self.drawn@) implies
                                    (rw_prop_name(xv, st0, o) matches Err(err) && err == e) by {
                                lemma_rw_prop_name(xv, st0, o);
                            }
                        }
                        return Err(e);
                    },
                };
                let ghost d1 = self.drawn@;
                let result = PropName::Computed(Box::new(e));
                proof {
                    assert(result@ == PropNameView::Computed(Box::new(e@)));
                    assert forall|o: Seq<SiteNames>| #[trigger]
                        agrees(o, self.drawn@) implies
                            rw_prop_name(xv, st0, o)
                                == Ok::<_, CompileError>((result@, self.state(cache@))) by {
                        lemma_rw_prop_name(xv, st0, o);
                    }
                }
                Ok(result)
            },
            PropName::Ident(i) => {
                assert(xv == PropNameView::Ident(i@));
                let result = PropName::Ident(i);
                proof {
                    assert(result@ == xv);
                    assert forall|o: Seq<SiteNames>|
                        #[trigger] rw_prop_name(xv, st0, o)
                            == Ok::<_, CompileError>((result@, st0)) by {
                        lemma_rw_prop_name(xv, st0, o);
                    }
                }
                Ok(result)
            },
            PropName::Str(s) => {
                assert(xv == PropNameView::Str(s@));
                let result = PropName::Str(s);
                proof {
                    assert(result@ == xv);
                    assert forall|o: Seq<SiteNames>|
                        #[trigger] rw_prop_name(xv, st0, o)
                            == Ok::<_, CompileError>((result@, st0)) by {
                        lemma_rw_prop_name(xv, st0, o);
                    }
                }
                Ok(result)
            },
            PropName::Num(n) => {
                assert(xv == PropNameView::Num(n@));
                let result = PropName::Num(n);
                proof {
                    assert(result@ == xv);
                    assert forall|o: Seq<SiteNames>|
                        #[trigger] rw_prop_name(xv, st0, o)
                            == Ok::<_, CompileError>((result@, st0)) by {
                        lemma_rw_prop_name(xv, st0, o);
                    }
                }
                Ok(result)
            },
            PropName::BigInt(n) => {
                assert(xv == PropNameView::BigInt(n@));
                let result = PropName::BigInt(n);
                proof {
                    assert(result@ == xv);
                    assert forall|o: Seq<SiteNames>|
                        #[trigger] rw_prop_name(xv, st0, o)
                            == Ok::<_, CompileError>((result@, st0)) by {
                        lemma_rw_prop_name(xv, st0, o);
                    }
                }
                Ok(result)
            },
        }
    }

    /// Walks a pattern.
    pub fn visit_pat(
        &mut self,
        x: Pat,
        cache: &mut StyleNameCache,
    ) -> (r: Result<Pat, CompileError>)
        ensures
            agrees(final(self).drawn@, old(self).drawn@),
            all_fresh(old(self).drawn@) ==> all_fresh(final(self).drawn@),
            forall|o: Seq<SiteNames>| #[trigger]
                agrees(o, final(self).drawn@) ==> match rw_pat(
                    x@,
                    old(self).state(old(cache)@),
                    o,
                ) {
                    Ok((x, st)) => r matches Ok(got)
                        && got@ == x
                        && final(self).state(final(cache)@) == st,
                    Err(err) => r matches Err(got) && got == err,
                },
        decreases x, 0nat,
    {
        let ghost st0 = old(self).state(old(cache)@);
        let ghost d0 = self.drawn@;
        let ghost xv = x@;
        proof {
            lemma_agrees_refl(d0);
        }
        match x {
            Pat::Ident(n) => {
                assert(xv == PatView::Ident(n@));
                let result = Pat::Ident(n);
                proof {
                    assert(result@ == xv);
                    assert forall|o: Seq<SiteNames>|
                        #[trigger] rw_pat(xv, st0, o) == Ok::<_, CompileError>((result@, st0)) by {
                        lemma_rw_pat(xv, st0, o);
                    }
                }
                Ok(result)
            },
            Pat::Array(elems) => {
                assert(xv == PatView::Array(opt_pats_view(elems@)));
                let elems = match self.visit_opt_pats(elems, cache) {
                    Ok(v) => v,
                    Err(e) => {
                        proof {
                            assert forall|o: Seq<SiteNames>| #[trigger]
                                agrees(o, self.drawn@) implies
                                    (rw_pat(xv, st0, o) matches Err(err) && err == e) by {
                                lemma_rw_pat(xv, st0, o);
                            }
                        }
                        return Err(e);
                    },
                };
                let ghost d1 = self.drawn@;
                let result = Pat::Array(elems);
                proof {
                    assert(result@ == PatView::Array(opt_pats_view(elems@)));
                    assert forall|o: Seq<SiteNames>| #[trigger]
                        agrees(o, self.drawn@) implies
                            rw_pat(xv, st0, o)
                                == Ok::<_, CompileError>((result@, self.state(cache@))) by {
                        lemma_rw_pat(xv, st0, o);
                    }
                }
                Ok(result)
            },
            Pat::Other(op) => {
                assert(xv == PatView::Other(op@));
                assert(op@.children == nodes_view(op.children@));
                let handle = op.handle;
                let children = match self.visit_nodes(op.children, cache) {
                    Ok(v) => v,
                    Err(e) => {
                        proof {
                            assert forall|o: Seq<SiteNames>| #[trigger]
                                agrees(o, self.drawn@) implies
                                    (rw_pat(xv, st0, o) matches Err(err) && err == e) by {
                                lemma_rw_pat(xv, st0, o);
                            }
                        }
                        return Err(e);
                    },
                };
                let ghost d1 = self.drawn@;
                let result = Pat::Other(Opaque { handle, children });
                proof {
                    assert(result@
                        == PatView::Other(OpaqueView { handle, children: nodes_view(children@) }));
                    assert forall|o: Seq<SiteNames>| #[trigger]
                        agrees(o, self.drawn@) implies
                            rw_pat(xv, st0, o)
                                == Ok::<_, CompileError>((result@, self.state(cache@))) by {
                        lemma_rw_pat(xv, st0, o);
                    }
                }
                Ok(result)
            },
        }
    }

    /// Walks a child of an opaque node.
    pub fn visit_node(
        &mut self,
        x: Node,
        cache: &mut StyleNameCache,
    ) -> (r: Result<Node, CompileError>)
        ensures
            agrees(final(self).drawn@, old(self).drawn@),
            all_fresh(old(self).drawn@) ==> all_fresh(final(self).drawn@),
            forall|o: Seq<SiteNames>| #[trigger]
                agrees(o, final(self).drawn@) ==> match rw_node(
                    x@,
                    old(self).state(old(cache)@),
                    o,
                ) {
                    Ok((x, st)) => r matches Ok(got)
                        && got@ == x
                        && final(self).state(final(cache)@) == st,
                    Err(err) => r matches Err(got) && got == err,
                },
        decreases x, 0nat,
    {
        let ghost st0 = old(self).state(old(cache)@);
        let ghost d0 = self.drawn@;
        let ghost xv = x@;
        proof {
            lemma_agrees_refl(d0);
        }
        match x {
            Node::Expr(e) => {
                assert(xv == NodeView::Expr(e@));
                let e = match self.visit_expr(e, cache) {
                    Ok(v) => v,
                    Err(e) => {
                        proof {
                            assert forall|o: Seq<SiteNames>| #[trigger]
                                agrees(o, self.drawn@) implies
                                    (rw_node(xv, st0, o) matches Err(err) && err == e) by {
                                lemma_rw_node(xv, st0, o);
                            }
                        }
                        return Err(e);
                    },
                };
                let ghost d1 = self.drawn@;
                let result = Node::Expr(e);
                proof {
                    assert(result@ == NodeView::Expr(e@));
                    assert forall|o: Seq<SiteNames>| #[trigger]
                        agrees(o, self.drawn@) implies
                            rw_node(xv, st0, o)
                                == Ok::<_, CompileError>((result@, self.state(cache@))) by {
                        lemma_rw_node(xv, st0, o);
                    }
                }
                Ok(result)
            },
            Node::Stmt(s) => {
                assert(xv == NodeView::Stmt(s@));
                let s = match self.visit_stmt(s, cache) {
                    Ok(v) => v,
                    Err(e) => {
                        proof {
                            assert forall|o: Seq<SiteNames>| #[trigger]
                                agrees(o, self.drawn@) implies
                                    (rw_node(xv, st0, o) matches Err(err) && err == e) by {
                                lemma_rw_node(xv, st0, o);
                            }
                        }
                        return Err(e);
                    },
                };
                let ghost d1 = self.drawn@;
                let result = Node::Stmt(s);
                proof {
                    assert(result@ == NodeView::Stmt(s@));
                    assert forall|o: Seq<SiteNames>| #[trigger]
                        agrees(o, self.drawn@) implies
                            rw_node(xv, st0, o)
                                == Ok::<_, CompileError>((result@, self.state(cache@))) by {
                        lemma_rw_node(xv, st0, o);
                    }
                }
                Ok(result)
            },
            Node::Pat(p) => {
                assert(xv == NodeView::Pat(p@));
                let p = match self.visit_pat(p, cache) {
                    Ok(v) => v,
                    Err(e) => {
                        proof {
                            assert forall|o: Seq<SiteNames>| #[trigger]
                                agrees(o, self.drawn@) implies
                                    (rw_node(xv, st0, o) matches Err(err) && err == e) by {
                                lemma_rw_node(xv, st0, o);
                            }
                        }
                        return Err(e);
                    },
                };
                let ghost d1 = self.drawn@;
                let result = Node::Pat(p);
                proof {
                    assert(result@ == NodeView::Pat(p@));
                    assert forall|o: Seq<SiteNames>| #[trigger]
                        agrees(o, self.drawn@) implies
                            rw_node(xv, st0, o)
                                == Ok::<_, CompileError>((result@, self.state(cache@))) by {
                        lemma_rw_node(xv, st0, o);
                    }
                }
                Ok(result)
            },
        }
    }

    /// Walks a statement.
    pub fn visit_stmt(
        &mut self,
        x: Stmt,
        cache: &mut StyleNameCache,
    ) -> (r: Result<Stmt, CompileError>)
        ensures
            agrees(final(self).drawn@, old(self).drawn@),
            all_fresh(old(self).drawn@) ==> all_fresh(final(self).drawn@),
            forall|o: Seq<SiteNames>| #[trigger]
                agrees(o, final(self).drawn@) ==> match rw_stmt(
                    x@,
                    old(self).state(old(cache)@),
                    o,
                ) {
                    Ok((x, st)) => r matches Ok(got)
                        && got@ == x
                        && final(self).state(final(cache)@) == st,
                    Err(err) => r matches Err(got) && got == err,
                },
        decreases x, 0nat,
    {
        let ghost st0 = old(self).state(old(cache)@);
        let ghost d0 = self.drawn@;
        let ghost xv = x@;
        proof {
            lemma_agrees_refl(d0);
        }
        match x {
            Stmt::Return(arg) => {
                assert(xv == StmtView::Return(opt_expr_view(arg)));
                match arg {
                    None => {
                        let result = Stmt::Return(None);
                        proof {
                            assert(result@ == xv);
                            assert forall|o: Seq<SiteNames>|
                                #[trigger] rw_stmt(xv, st0, o)
                                    == Ok::<_, CompileError>((result@, st0)) by {
                                lemma_rw_stmt(xv, st0, o);
                            }
                        }
                        Ok(result)
                    },
                    Some(e) => {
                        let held = Some(e);
                        self.typechecker.record_return(&held);
                        let e = match held {
                            Some(e) => e,
                            None => {
                                return Ok(Stmt::Return(None));
                            },
                        };
                        let e = match self.visit_expr(e, cache) {
                            Ok(v) => v,
                            Err(e) => {
                                proof {
                                    assert forall|o: Seq<SiteNames>| #[trigger]
                                        agrees(o, self.drawn@) implies
                                            (rw_stmt(xv, st0, o) matches Err(err) && err == e) by {
                                        lemma_rw_stmt(xv, st0, o);
                                    }
                                }
                                return Err(e);
                            },
                        };
                        let ghost d1 = self.drawn@;
                        let result = Stmt::Return(Some(e));
                        proof {
                            assert(result@ == StmtView::Return(Some(e@)));
                            assert forall|o: Seq<SiteNames>| #[trigger]
                                agrees(o, self.drawn@) implies
                                    rw_stmt(xv, st0, o)
                                        == Ok::<_, CompileError>((result@, self.state(cache@))) by {
                                lemma_rw_stmt(xv, st0, o);
                            }
                        }
                        Ok(result)
                    },
                }
            },
            Stmt::Decl(d) => {
                assert(xv == StmtView::Decl(d@));
                let d = match self.visit_decl(d, cache) {
                    Ok(v) => v,
                    Err(e) => {
                        proof {
                            assert forall|o: Seq<SiteNames>| #[trigger]
                                agrees(o, self.drawn@) implies
                                    (rw_stmt(xv, st0, o) matches Err(err) && err == e) by {
                                lemma_rw_stmt(xv, st0, o);
                            }
                        }
                        return Err(e);
                    },
                };
                let ghost d1 = self.drawn@;
                let result = Stmt::Decl(d);
                proof {
                    assert(result@ == StmtView::Decl(d@));
                    assert forall|o: Seq<SiteNames>| #[trigger]
                        agrees(o, self.drawn@) implies
                            rw_stmt(xv, st0, o)
                                == Ok::<_, CompileError>((result@, self.state(cache@))) by {
                        lemma_rw_stmt(xv, st0, o);
                    }
                }
                Ok(result)
            },
            Stmt::Expr(e) => {
                assert(xv == StmtView::Expr(e@));
                let e = match self.visit_expr(e, cache) {
                    Ok(v) => v,
                    Err(e) => {
                        proof {
                            assert forall|o: Seq<SiteNames>| #[trigger]
                                agrees(o, self.drawn@) implies
                                    (rw_stmt(xv, st0, o) matches Err(err) && err == e) by {
                                lemma_rw_stmt(xv, st0, o);
                            }
                        }
                        return Err(e);
                    },
                };
                let ghost d1 = self.drawn@;
                let result = Stmt::Expr(e);
                proof {
                    assert(result@ == StmtView::Expr(e@));
                    assert forall|o: Seq<SiteNames>| #[trigger]
                        agrees(o, self.drawn@) implies
                            rw_stmt(xv, st0, o)
                                == Ok::<_, CompileError>((result@, self.state(cache@))) by {
                        lemma_rw_stmt(xv, st0, o);
                    }
                }
                Ok(result)
            },
            Stmt::Other(op) => {
                assert(xv == StmtView::Other(op@));
                assert(op@.children == nodes_view(op.children@));
                let handle = op.handle;
                let children = match self.visit_nodes(op.children, cache) {
                    Ok(v) => v,
                    Err(e) => {
                        proof {
                            assert forall|o: Seq<SiteNames>| #[trigger]
                                agrees(o, self.drawn@) implies
                                    (rw_stmt(xv, st0, o) matches Err(err) && err == e) by {
                                lemma_rw_stmt(xv, st0, o);
                            }
                        }
                        return Err(e);
                    },
                };
                let ghost d1 = self.drawn@;
                let result = Stmt::Other(Opaque { handle, children });
                proof {
                    assert(result@
                        == StmtView::Other(OpaqueView { handle, children: nodes_view(children@) }));
                    assert forall|o: Seq<SiteNames>| #[trigger]
                        agrees(o, self.drawn@) implies
                            rw_stmt(xv, st0, o)
                                == Ok::<_, CompileError>((result@, self.state(cache@))) by {
                        lemma_rw_stmt(xv, st0, o);
                    }
                }
                Ok(result)
            },
        }
    }

    /// Walks parameters and body of a function.
    pub fn visit_function(
        &mut self,
        x: Function,
        cache: &mut StyleNameCache,
    ) -> (r: Result<Function, CompileError>)
        ensures
            agrees(final(self).drawn@, old(self).drawn@),
            all_fresh(old(self).drawn@) ==> all_fresh(final(self).drawn@),
            forall|o: Seq<SiteNames>| #[trigger]
                agrees(o, final(self).drawn@) ==> match rw_function(
                    x@,
                    old(self).state(old(cache)@),
                    o,
                ) {
                    Ok((x, st)) => r matches Ok(got)
                        && got@ == x
                        && final(self).state(final(cache)@) == st,
                    Err(err) => r matches Err(got) && got == err,
                },
        decreases x, 0nat,
    {
        let ghost st0 = old(self).state(old(cache)@);
        let ghost d0 = self.drawn@;
        let ghost xv = x@;
        proof {
            lemma_agrees_refl(d0);
        }
        assert(xv.params == pats_view(x.params@));
        assert(xv.body == opt_stmts_view(x.body));
        let is_async = x.is_async;
        let params = match self.visit_pats(x.params, cache) {
            Ok(v) => v,
            Err(e) => {
                proof {
                    assert forall|o: Seq<SiteNames>| #[trigger]
                        agrees(o, self.drawn@) implies
                            (rw_function(xv, st0, o) matches Err(err) && err == e) by {
                        lemma_rw_function(xv, st0, o);
                    }
                }
                return Err(e);
            },
        };
        let ghost d1 = self.drawn@;
        match x.body {
            None => {
                let result = Function { params, body: None, is_async };
                proof {
                    assert(result@
                        == FunctionView { params: pats_view(params@), body: None, is_async });
                    assert forall|o: Seq<SiteNames>| #[trigger]
                        agrees(o, self.drawn@) implies
                            rw_function(xv, st0, o)
                                == Ok::<_, CompileError>((result@, self.state(cache@))) by {
                        lemma_rw_function(xv, st0, o);
                    }
                }
                Ok(result)
            },
            Some(stmts) => {
                let stmts = match self.visit_stmts(stmts, cache) {
                    Ok(v) => v,
                    Err(e) => {
                        proof {
                            lemma_agrees_trans(self.drawn@, d1, d0);
                            assert forall|o: Seq<SiteNames>| #[trigger]
                                agrees(o, self.drawn@) implies
                                    (rw_function(xv, st0, o) matches Err(err) && err == e) by {
                                lemma_rw_function(xv, st0, o);
                                lemma_agrees_trans(o, self.drawn@, d1);
                            }
                        }
                        return Err(e);
                    },
                };
                let result = Function { params, body: Some(stmts), is_async };
                proof {
                    assert(result@ == FunctionView {
                        params: pats_view(params@),
                        body: Some(stmts_view(stmts@)),
                        is_async,
                    });
                    lemma_agrees_trans(self.drawn@, d1, d0);
                    assert forall|o: Seq<SiteNames>| #[trigger]
                        agrees(o, self.drawn@) implies
                            rw_function(xv, st0, o)
                                == Ok::<_, CompileError>((result@, self.state(cache@))) by {
                        lemma_rw_function(xv, st0, o);
                        lemma_agrees_trans(o, self.drawn@, d1);
                    }
                }
                Ok(result)
            },
        }
    }

    /// Walks a declaration. A function declaration opens a scope of its own.
    pub fn visit_decl(
        &mut self,
        x: Decl,
        cache: &mut StyleNameCache,
    ) -> (r: Result<Decl, CompileError>)
        ensures
            agrees(final(self).drawn@, old(self).drawn@),
            all_fresh(old(self).drawn@) ==> all_fresh(final(self).drawn@),
            forall|o: Seq<SiteNames>| #[trigger]
                agrees(o, final(self).drawn@) ==> match rw_decl(
                    x@,
                    old(self).state(old(cache)@),
                    o,
                ) {
                    Ok((x, st)) => r matches Ok(got)
                        && got@ == x
                        && final(self).state(final(cache)@) == st,
                    Err(err) => r matches Err(got) && got == err,
                },
        decreases x, 0nat,
    {
        let ghost st0 = old(self).state(old(cache)@);
        let ghost d0 = self.drawn@;
        let ghost xv = x@;
        proof {
            lemma_agrees_refl(d0);
        }
        match x {
            Decl::Class { ident, class } => {
                assert(xv == DeclView::Class { ident: ident@, class: class@ });
                assert(class@.children == nodes_view(class.children@));
                let handle = class.handle;
                let children = match self.visit_nodes(class.children, cache) {
                    Ok(v) => v,
                    Err(e) => {
                        proof {
                            assert forall|o: Seq<SiteNames>| #[trigger]
                                agrees(o, self.drawn@) implies
                                    (rw_decl(xv, st0, o) matches Err(err) && err == e) by {
                                lemma_rw_decl(xv, st0, o);
                            }
                        }
                        return Err(e);
                    },
                };
                let ghost d1 = self.drawn@;
                let result = Decl::Class { ident, class: Opaque { handle, children } };
                proof {
                    assert(result@ == DeclView::Class {
                        ident: ident@,
                        class: OpaqueView { handle, children: nodes_view(children@) },
                    });
                    assert forall|o: Seq<SiteNames>| #[trigger]
                        agrees(o, self.drawn@) implies
                            rw_decl(xv, st0, o)
                                == Ok::<_, CompileError>((result@, self.state(cache@))) by {
                        lemma_rw_decl(xv, st0, o);
                    }
                }
                Ok(result)
            },
            Decl::Fn { ident, function } => {
                assert(xv == DeclView::Fn { ident: ident@, function: function@ });
                assert(function@.body == opt_stmts_view(function.body));
                let ghost body = function@.body;
                let is_async = function.is_async;
                let forced = match &function.body {
                    Some(stmts) => !any_return(stmts),
                    None => false,
                };
                self.typechecker.push_scope();
                let function = match self.visit_function(function, cache) {
                    Ok(v) => v,
                    Err(e) => {
                        proof {
                            assert forall|o: Seq<SiteNames>| #[trigger]
                                agrees(o, self.drawn@) implies
                                    (rw_decl(xv, st0, o) matches Err(err) && err == e) by {
                                lemma_rw_decl(xv, st0, o);
                            }
                        }
                        return Err(e);
                    },
                };
                let ghost d1 = self.drawn@;
                self.typechecker.exit_fn_decl_known(ident.as_str(), forced, is_async, Ghost(body));
                let result = Decl::Fn { ident, function };
                proof {
                    assert(result@ == DeclView::Fn { ident: ident@, function: function@ });
                    assert forall|o: Seq<SiteNames>| #[trigger]
                        agrees(o, self.drawn@) implies
                            rw_decl(xv, st0, o)
                                == Ok::<_, CompileError>((result@, self.state(cache@))) by {
                        lemma_rw_decl(xv, st0, o);
                    }
                }
                Ok(result)
            },
            Decl::Var(v) => {
                assert(xv == DeclView::Var(v@));
                assert(v@.decls == var_declarators_view(v.decls@));
                let kind = v.kind;
                let decls = match self.visit_declarators(v.decls, cache) {
                    Ok(v) => v,
                    Err(e) => {
                        proof {
                            assert forall|o: Seq<SiteNames>| #[trigger]
                                agrees(o, self.drawn@) implies
                                    (rw_decl(xv, st0, o) matches Err(err) && err == e) by {
                                lemma_rw_decl(xv, st0, o);
                            }
                        }
                        return Err(e);
                    },
                };
                let ghost d1 = self.drawn@;
                let result = Decl::Var(VarDecl { kind, decls });
                proof {
                    assert(
                        result@ == DeclView::Var(
                            VarDeclView { kind, decls: var_declarators_view(decls@) }
                        )
                    );
                    assert forall|o: Seq<SiteNames>| #[trigger]
                        agrees(o, self.drawn@) implies
                            rw_decl(xv, st0, o)
                                == Ok::<_, CompileError>((result@, self.state(cache@))) by {
                        lemma_rw_decl(xv, st0, o);
                    }
                }
                Ok(result)
            },
            Decl::Other(op) => {
                assert(xv == DeclView::Other(op@));
                assert(op@.children == nodes_view(op.children@));
                let handle = op.handle;
                let children = match self.visit_nodes(op.children, cache) {
                    Ok(v) => v,
                    Err(e) => {
                        proof {
                            assert forall|o: Seq<SiteNames>| #[trigger]
                                agrees(o, self.drawn@) implies
                                    (rw_decl(xv, st0, o) matches Err(err) && err == e) by {
                                lemma_rw_decl(xv, st0, o);
                            }
                        }
                        return Err(e);
                    },
                };
                let ghost d1 = self.drawn@;
                let result = Decl::Other(Opaque { handle, children });
                proof {
                    assert(result@
                        == DeclView::Other(OpaqueView { handle, children: nodes_view(children@) }));
                    assert forall|o: Seq<SiteNames>| #[trigger]
                        agrees(o, self.drawn@) implies
                            rw_decl(xv, st0, o)
                                == Ok::<_, CompileError>((result@, self.state(cache@))) by {
                        lemma_rw_decl(xv, st0, o);
                    }
                }
                Ok(result)
            },
        }
    }

    /// Walks a declarator: the binding is recorded first.
    pub fn visit_declarator(
        &mut self,
        x: VarDeclarator,
        cache: &mut StyleNameCache,
    ) -> (r: Result<VarDeclarator, CompileError>)
        ensures
            agrees(final(self).drawn@, old(self).drawn@),
            all_fresh(old(self).drawn@) ==> all_fresh(final(self).drawn@),
            forall|o: Seq<SiteNames>| #[trigger]
                agrees(o, final(self).drawn@) ==> match rw_declarator(
                    x@,
                    old(self).state(old(cache)@),
                    o,
                ) {
                    Ok((x, st)) => r matches Ok(got)
                        && got@ == x
                        && final(self).state(final(cache)@) == st,
                    Err(err) => r matches Err(got) && got == err,
                },
        decreases x, 0nat,
    {
        let ghost st0 = old(self).state(old(cache)@);
        let ghost d0 = self.drawn@;
        let ghost xv = x@;
        proof {
            lemma_agrees_refl(d0);
        }
        assert(xv.name == x.name@);
        assert(xv.init == opt_expr_view(x.init));
        match x.init {
            None => {
                let name = match self.visit_pat(x.name, cache) {
                    Ok(v) => v,
                    Err(e) => {
                        proof {
                            assert forall|o: Seq<SiteNames>| #[trigger]
                                agrees(o, self.drawn@) implies
                                    (rw_declarator(xv, st0, o) matches Err(err) && err == e) by {
                                lemma_rw_declarator(xv, st0, o);
                            }
                        }
                        return Err(e);
                    },
                };
                let ghost d1 = self.drawn@;
                let result = VarDeclarator { name, init: None };
                proof {
                    assert(result@ == VarDeclaratorView { name: name@, init: None });
                    assert forall|o: Seq<SiteNames>| #[trigger]
                        agrees(o, self.drawn@) implies
                            rw_declarator(xv, st0, o)
                                == Ok::<_, CompileError>((result@, self.state(cache@))) by {
                        lemma_rw_declarator(xv, st0, o);
                    }
                }
                Ok(result)
            },
            Some(init) => {
                match &x.name {
                    Pat::Ident(n) => {
                        assert(x.name@ == PatView::Ident(n@));
                        self.typechecker.record_binding(Some(n), &init);
                    },
                    Pat::Array(a) => {
                        assert(x.name@ is Array);
                        self.typechecker.record_binding(None, &init);
                    },
                    Pat::Other(op) => {
                        assert(x.name@ is Other);
                        self.typechecker.record_binding(None, &init);
                    },
                }
                let name = match self.visit_pat(x.name, cache) {
                    Ok(v) => v,
                    Err(e) => {
                        proof {
                            assert forall|o: Seq<SiteNames>| #[trigger]
                                agrees(o, self.drawn@) implies
                                    (rw_declarator(xv, st0, o) matches Err(err) && err == e) by {
                                lemma_rw_declarator(xv, st0, o);
                            }
                        }
                        return Err(e);
                    },
                };
                let ghost d1 = self.drawn@;
                let init = match self.visit_expr(init, cache) {
                    Ok(v) => v,
                    Err(e) => {
                        proof {
                            lemma_agrees_trans(self.drawn@, d1, d0);
                            assert forall|o: Seq<SiteNames>| #[trigger]
                                agrees(o, self.drawn@) implies
                                    (rw_declarator(xv, st0, o) matches Err(err) && err == e) by {
                                lemma_rw_declarator(xv, st0, o);
                                lemma_agrees_trans(o, self.drawn@, d1);
                            }
                        }
                        return Err(e);
                    },
                };
                let ghost d2 = self.drawn@;
                proof {
                    lemma_agrees_trans(self.drawn@, d1, d0);
                }
                let result = VarDeclarator { name, init: Some(init) };
                proof {
                    assert(result@ == VarDeclaratorView { name: name@, init: Some(init@) });
                    assert forall|o: Seq<SiteNames>| #[trigger]
                        agrees(o, self.drawn@) implies
                            rw_declarator(xv, st0, o)
                                == Ok::<_, CompileError>((result@, self.state(cache@))) by {
                        lemma_rw_declarator(xv, st0, o);
                        lemma_agrees_trans(o, self.drawn@, d1);
                    }
                }
                Ok(result)
            },
        }
    }

    /// Walks a markup element: attributes, then children.
    pub fn visit_jsx_element(
        &mut self,
        x: JSXElement,
        cache: &mut StyleNameCache,
    ) -> (r: Result<JSXElement, CompileError>)
        ensures
            agrees(final(self).drawn@, old(self).drawn@),
            all_fresh(old(self).drawn@) ==> all_fresh(final(self).drawn@),
            forall|o: Seq<SiteNames>| #[trigger]
                agrees(o, final(self).drawn@) ==> match rw_jsx_element(
                    x@,
                    old(self).state(old(cache)@),
                    o,
                ) {
                    Ok((x, st)) => r matches Ok(got)
                        && got@ == x
                        && final(self).state(final(cache)@) == st,
                    Err(err) => r matches Err(got) && got == err,
                },
        decreases x, 0nat,
    {
        let ghost st0 = old(self).state(old(cache)@);
        let ghost d0 = self.drawn@;
        let ghost xv = x@;
        proof {
            lemma_agrees_refl(d0);
        }
        assert(xv.attrs == jsx_attrs_view(x.attrs@));
        assert(xv.children == jsx_children_view(x.children@));
        assert(xv.name == x.name@);
        let name = x.name;
        let attrs = match self.visit_jsx_attrs(x.attrs, cache) {
            Ok(v) => v,
            Err(e) => {
                proof {
                    assert forall|o: Seq<SiteNames>| #[trigger]
                        agrees(o, self.drawn@) implies
                            (rw_jsx_element(xv, st0, o) matches Err(err) && err == e) by {
                        lemma_rw_jsx_element(xv, st0, o);
                    }
                }
                return Err(e);
            },
        };
        let ghost d1 = self.drawn@;
        let children = match self.visit_jsx_children(x.children, cache) {
            Ok(v) => v,
            Err(e) => {
                proof {
                    lemma_agrees_trans(self.drawn@, d1, d0);
                    assert forall|o: Seq<SiteNames>| #[trigger]
                        agrees(o, self.drawn@) implies
                            (rw_jsx_element(xv, st0, o) matches Err(err) && err == e) by {
                        lemma_rw_jsx_element(xv, st0, o);
                        lemma_agrees_trans(o, self.drawn@, d1);
                    }
                }
                return Err(e);
            },
        };
        let ghost d2 = self.drawn@;
        proof {
            lemma_agrees_trans(self.drawn@, d1, d0);
        }
        let result = JSXElement { name, attrs, children };
        proof {
            assert(result@ == JSXElementView {
                name: name@,
                attrs: jsx_attrs_view(attrs@),
                children: jsx_children_view(children@),
            });
            assert forall|o: Seq<SiteNames>| #[trigger]
                agrees(o, self.drawn@) implies
                    rw_jsx_element(xv, st0, o)
                        == Ok::<_, CompileError>((result@, self.state(cache@))) by {
                lemma_rw_jsx_element(xv, st0, o);
                lemma_agrees_trans(o, self.drawn@, d1);
            }
        }
        Ok(result)
    }

    /// Walks an attribute of a markup element.
    pub fn visit_jsx_attr(
        &mut self,
        x: JSXAttrOrSpread,
        cache: &mut StyleNameCache,
    ) -> (r: Result<JSXAttrOrSpread, CompileError>)
        ensures
            agrees(final(self).drawn@, old(self).drawn@),
            all_fresh(old(self).drawn@) ==> all_fresh(final(self).drawn@),
            forall|o: Seq<SiteNames>| #[trigger]
                agrees(o, final(self).drawn@) ==> match rw_jsx_attr(
                    x@,
                    old(self).state(old(cache)@),
                    o,
                ) {
                    Ok((x, st)) => r matches Ok(got)
                        && got@ == x
                        && final(self).state(final(cache)@) == st,
                    Err(err) => r matches Err(got) && got == err,
                },
        decreases x, 0nat,
    {
        let ghost st0 = old(self).state(old(cache)@);
        let ghost d0 = self.drawn@;
        let ghost xv = x@;
        proof {
            lemma_agrees_refl(d0);
        }
        match x {
            JSXAttrOrSpread::SpreadElement { expr, printed } => {
                assert(xv == JSXAttrOrSpreadView::SpreadElement {
                    expr: Box::new(expr@),
                    printed: printed@,
                });
                let expr = match self.visit_expr(*expr, cache) {
                    Ok(v) => v,
                    Err(e) => {
                        proof {
                            assert forall|o: Seq<SiteNames>| #[trigger]
                                agrees(o, self.drawn@) implies
                                    (rw_jsx_attr(xv, st0, o) matches Err(err) && err == e) by {
                                lemma_rw_jsx_attr(xv, st0, o);
                            }
                        }
                        return Err(e);
                    },
                };
                let ghost d1 = self.drawn@;
                let result = JSXAttrOrSpread::SpreadElement { expr: Box::new(expr), printed };
                proof {
                    assert(result@ == JSXAttrOrSpreadView::SpreadElement {
                        expr: Box::new(expr@),
                        printed: printed@,
                    });
                    assert forall|o: Seq<SiteNames>| #[trigger]
                        agrees(o, self.drawn@) implies
                            rw_jsx_attr(xv, st0, o)
                                == Ok::<_, CompileError>((result@, self.state(cache@))) by {
                        lemma_rw_jsx_attr(xv, st0, o);
                    }
                }
                Ok(result)
            },
            JSXAttrOrSpread::JSXAttr { name, value } => {
                assert(xv == JSXAttrOrSpreadView::JSXAttr {
                    name: name@,
                    value: crate::ast::view::opt_attr_value_view(value),
                });
                match value {
                    None => {
                        let result = JSXAttrOrSpread::JSXAttr { name, value: None };
                        proof {
                            assert(result@ == xv);
                            assert forall|o: Seq<SiteNames>|
                                #[trigger] rw_jsx_attr(xv, st0, o)
                                    == Ok::<_, CompileError>((result@, st0)) by {
                                lemma_rw_jsx_attr(xv, st0, o);
                            }
                        }
                        Ok(result)
                    },
                    Some(v) => {
                        let v = match self.visit_jsx_attr_value(v, cache) {
                            Ok(v) => v,
                            Err(e) => {
                                proof {
                                    assert forall|o: Seq<SiteNames>| #[trigger]
                                        agrees(o, self.drawn@) implies
                                            (rw_jsx_attr(xv, st0, o) matches Err(err)
                                                && err == e) by {
                                        lemma_rw_jsx_attr(xv, st0, o);
                                    }
                                }
                                return Err(e);
                            },
                        };
                        let ghost d1 = self.drawn@;
                        let result = JSXAttrOrSpread::JSXAttr { name, value: Some(v) };
                        proof {
                            assert(result@
                                == JSXAttrOrSpreadView::JSXAttr { name: name@, value: Some(v@) });
                            assert forall|o: Seq<SiteNames>| #[trigger]
                                agrees(o, self.drawn@) implies
                                    rw_jsx_attr(xv, st0, o)
                                        == Ok::<_, CompileError>((result@, self.state(cache@))) by {
                                lemma_rw_jsx_attr(xv, st0, o);
                            }
                        }
                        Ok(result)
                    },
                }
            },
        }
    }

    /// Walks the value of an attribute.
    pub fn visit_jsx_attr_value(
        &mut self,
        x: JSXAttrValue,
        cache: &mut StyleNameCache,
    ) -> (r: Result<JSXAttrValue, CompileError>)
        ensures
            agrees(final(self).drawn@, old(self).drawn@),
            all_fresh(old(self).drawn@) ==> all_fresh(final(self).drawn@),
            forall|o: Seq<SiteNames>| #[trigger]
                agrees(o, final(self).drawn@) ==> match rw_jsx_attr_value(
                    x@,
                    old(self).state(old(cache)@),
                    o,
                ) {
                    Ok((x, st)) => r matches Ok(got)
                        && got@ == x
                        && final(self).state(final(cache)@) == st,
                    Err(err) => r matches Err(got) && got == err,
                },
        decreases x, 0nat,
    {
        let ghost st0 = old(self).state(old(cache)@);
        let ghost d0 = self.drawn@;
        let ghost xv = x@;
        proof {
            lemma_agrees_refl(d0);
        }
        match x {
            JSXAttrValue::Lit(l) => {
                assert(xv == JSXAttrValueView::Lit(l@));
                let result = JSXAttrValue::Lit(l);
                proof {
                    assert(result@ == xv);
                    assert forall|o: Seq<SiteNames>|
                        #[trigger] rw_jsx_attr_value(xv, st0, o)
                            == Ok::<_, CompileError>((result@, st0)) by {
                        lemma_rw_jsx_attr_value(xv, st0, o);
                    }
                }
                Ok(result)
            },
            JSXAttrValue::JSXExprContainer(c) => {
                assert(xv == JSXAttrValueView::JSXExprContainer(c@));
                let c = match self.visit_jsx_expr(c, cache) {
                    Ok(v) => v,
                    Err(e) => {
                        proof {
                            assert forall|o: Seq<SiteNames>| #[trigger]
                                agrees(o, self.drawn@) implies
                                    (rw_jsx_attr_value(xv, st0, o) matches Err(err)
                                        && err == e) by {
                                lemma_rw_jsx_attr_value(xv, st0, o);
                            }
                        }
                        return Err(e);
                    },
                };
                let ghost d1 = self.drawn@;
                let result = JSXAttrValue::JSXExprContainer(c);
                proof {
                    assert(result@ == JSXAttrValueView::JSXExprContainer(c@));
                    assert forall|o: Seq<SiteNames>| #[trigger]
                        agrees(o, self.drawn@) implies
                            rw_jsx_attr_value(xv, st0, o)
                                == Ok::<_, CompileError>((result@, self.state(cache@))) by {
                        lemma_rw_jsx_attr_value(xv, st0, o);
                    }
                }
                Ok(result)
            },
            JSXAttrValue::JSXElement(el) => {
                assert(xv == JSXAttrValueView::JSXElement(Box::new(el@)));
                let el = match self.visit_jsx_element(*el, cache) {
                    Ok(v) => v,
                    Err(e) => {
                        proof {
                            assert forall|o: Seq<SiteNames>| #[trigger]
                                agrees(o, self.drawn@) implies
                                    (rw_jsx_attr_value(xv, st0, o) matches Err(err)
                                        && err == e) by {
                                lemma_rw_jsx_attr_value(xv, st0, o);
                            }
                        }
                        return Err(e);
                    },
                };
                let ghost d1 = self.drawn@;
                let result = JSXAttrValue::JSXElement(Box::new(el));
                proof {
                    assert(result@ == JSXAttrValueView::JSXElement(Box::new(el@)));
                    assert forall|o: Seq<SiteNames>| #[trigger]
                        agrees(o, self.drawn@) implies
                            rw_jsx_attr_value(xv, st0, o)
                                == Ok::<_, CompileError>((result@, self.state(cache@))) by {
                        lemma_rw_jsx_attr_value(xv, st0, o);
                    }
                }
                Ok(result)
            },
            JSXAttrValue::JSXFragment(children) => {
                assert(xv == JSXAttrValueView::JSXFragment(jsx_children_view(children@)));
                let children = match self.visit_jsx_children(children, cache) {
                    Ok(v) => v,
                    Err(e) => {
                        proof {
                            assert forall|o: Seq<SiteNames>| #[trigger]
                                agrees(o, self.drawn@) implies
                                    (rw_jsx_attr_value(xv, st0, o) matches Err(err)
                                        && err == e) by {
                                lemma_rw_jsx_attr_value(xv, st0, o);
                            }
                        }
                        return Err(e);
                    },
                };
                let ghost d1 = self.drawn@;
                let result = JSXAttrValue::JSXFragment(children);
                proof {
                    assert(result@ == JSXAttrValueView::JSXFragment(jsx_children_view(children@)));
                    assert forall|o: Seq<SiteNames>| #[trigger]
                        agrees(o, self.drawn@) implies
                            rw_jsx_attr_value(xv, st0, o)
                                == Ok::<_, CompileError>((result@, self.state(cache@))) by {
                        lemma_rw_jsx_attr_value(xv, st0, o);
                    }
                }
                Ok(result)
            },
        }
    }

    /// Walks what stands between the braces of an expression container.
    pub fn visit_jsx_expr(
        &mut self,
        x: JSXExpr,
        cache: &mut StyleNameCache,
    ) -> (r: Result<JSXExpr, CompileError>)
        ensures
            agrees(final(self).drawn@, old(self).drawn@),
            all_fresh(old(self).drawn@) ==> all_fresh(final(self).drawn@),
            forall|o: Seq<SiteNames>| #[trigger]
                agrees(o, final(self).drawn@) ==> match rw_jsx_expr(
                    x@,
                    old(self).state(old(cache)@),
                    o,
                ) {
                    Ok((x, st)) => r matches Ok(got)
                        && got@ == x
                        && final(self).state(final(cache)@) == st,
                    Err(err) => r matches Err(got) && got == err,
                },
        decreases x, 0nat,
    {
        let ghost st0 = old(self).state(old(cache)@);
        let ghost d0 = self.drawn@;
        let ghost xv = x@;
        proof {
            lemma_agrees_refl(d0);
        }
        match x {
            JSXExpr::JSXEmptyExpr => {
                assert(xv == JSXExprView::JSXEmptyExpr);
                let result = JSXExpr::JSXEmptyExpr;
                proof {
                    assert(result@ == xv);
                    assert forall|o: Seq<SiteNames>|
                        #[trigger] rw_jsx_expr(xv, st0, o)
                            == Ok::<_, CompileError>((result@, st0)) by {
                        lemma_rw_jsx_expr(xv, st0, o);
                    }
                }
                Ok(result)
            },
            JSXExpr::Expr(e) => {
                assert(xv == JSXExprView::Expr(Box::new(e@)));
                let e = match self.visit_expr(*e, cache) {
                    Ok(v) => v,
                    Err(e) => {
                        proof {
                            assert forall|o: Seq<SiteNames>| #[trigger]
                                agrees(o, self.drawn@) implies
                                    (rw_jsx_expr(xv, st0, o) matches Err(err) && err == e) by {
                                lemma_rw_jsx_expr(xv, st0, o);
                            }
                        }
                        return Err(e);
                    },
                };
                let ghost d1 = self.drawn@;
                let result = JSXExpr::Expr(Box::new(e));
                proof {
                    assert(result@ == JSXExprView::Expr(Box::new(e@)));
                    assert forall|o: Seq<SiteNames>| #[trigger]
                        agrees(o, self.drawn@) implies
                            rw_jsx_expr(xv, st0, o)
                                == Ok::<_, CompileError>((result@, self.state(cache@))) by {
                        lemma_rw_jsx_expr(xv, st0, o);
                    }
                }
                Ok(result)
            },
        }
    }

    /// Walks a child of a markup element.
    pub fn visit_jsx_child(
        &mut self,
        x: JSXElementChild,
        cache: &mut StyleNameCache,
    ) -> (r: Result<JSXElementChild, CompileError>)
        ensures
            agrees(final(self).drawn@, old(self).drawn@),
            all_fresh(old(self).drawn@) ==> all_fresh(final(self).drawn@),
            forall|o: Seq<SiteNames>| #[trigger]
                agrees(o, final(self).drawn@) ==> match rw_jsx_child(
                    x@,
                    old(self).state(old(cache)@),
                    o,
                ) {
                    Ok((x, st)) => r matches Ok(got)
                        && got@ == x
                        && final(self).state(final(cache)@) == st,
                    Err(err) => r matches Err(got) && got == err,
                },
        decreases x, 0nat,
    {
        let ghost st0 = old(self).state(old(cache)@);
        let ghost d0 = self.drawn@;
        let ghost xv = x@;
        proof {
            lemma_agrees_refl(d0);
        }
        match x {
            JSXElementChild::JSXText(t) => {
                assert(xv == JSXElementChildView::JSXText(t@));
                let result = JSXElementChild::JSXText(t);
                proof {
                    assert(result@ == xv);
                    assert forall|o: Seq<SiteNames>|
                        #[trigger] rw_jsx_child(xv, st0, o)
                            == Ok::<_, CompileError>((result@, st0)) by {
                        lemma_rw_jsx_child(xv, st0, o);
                    }
                }
                Ok(result)
            },
            JSXElementChild::JSXExprContainer(c) => {
                assert(xv == JSXElementChildView::JSXExprContainer(c@));
                let c = match self.visit_jsx_expr(c, cache) {
                    Ok(v) => v,
                    Err(e) => {
                        proof {
                            assert forall|o: Seq<SiteNames>| #[trigger]
                                agrees(o, self.drawn@) implies
                                    (rw_jsx_child(xv, st0, o) matches Err(err) && err == e) by {
                                lemma_rw_jsx_child(xv, st0, o);
                            }
                        }
                        return Err(e);
                    },
                };
                let ghost d1 = self.drawn@;
                let result = JSXElementChild::JSXExprContainer(c);
                proof {
                    assert(result@ == JSXElementChildView::JSXExprContainer(c@));
                    assert forall|o: Seq<SiteNames>| #[trigger]
                        agrees(o, self.drawn@) implies
                            rw_jsx_child(xv, st0, o)
                                == Ok::<_, CompileError>((result@, self.state(cache@))) by {
                        lemma_rw_jsx_child(xv, st0, o);
                    }
                }
                Ok(result)
            },
            JSXElementChild::JSXSpreadChild(e) => {
                assert(xv == JSXElementChildView::JSXSpreadChild(Box::new(e@)));
                let e = match self.visit_expr(*e, cache) {
                    Ok(v) => v,
                    Err(e) => {
                        proof {
                            assert forall|o: Seq<SiteNames>| #[trigger]
                                agrees(o, self.drawn@) implies
                                    (rw_jsx_child(xv, st0, o) matches Err(err) && err == e) by {
                                lemma_rw_jsx_child(xv, st0, o);
                            }
                        }
                        return Err(e);
                    },
                };
                let ghost d1 = self.drawn@;
                let result = JSXElementChild::JSXSpreadChild(Box::new(e));
                proof {
                    assert(result@ == JSXElementChildView::JSXSpreadChild(Box::new(e@)));
                    assert forall|o: Seq<SiteNames>| #[trigger]
                        agrees(o, self.drawn@) implies
                            rw_jsx_child(xv, st0, o)
                                == Ok::<_, CompileError>((result@, self.state(cache@))) by {
                        lemma_rw_jsx_child(xv, st0, o);
                    }
                }
                Ok(result)
            },
            JSXElementChild::JSXElement(el) => {
                assert(xv == JSXElementChildView::JSXElement(Box::new(el@)));
                let el = match self.visit_jsx_element(*el, cache) {
                    Ok(v) => v,
                    Err(e) => {
                        proof {
                            assert forall|o: Seq<SiteNames>| #[trigger]
                                agrees(o, self.drawn@) implies
                                    (rw_jsx_child(xv, st0, o) matches Err(err) && err == e) by {
                                lemma_rw_jsx_child(xv, st0, o);
                            }
                        }
                        return Err(e);
                    },
                };
                let ghost d1 = self.drawn@;
                let result = JSXElementChild::JSXElement(Box::new(el));
                proof {
                    assert(result@ == JSXElementChildView::JSXElement(Box::new(el@)));
                    assert forall|o: Seq<SiteNames>| #[trigger]
                        agrees(o, self.drawn@) implies
                            rw_jsx_child(xv, st0, o)
                                == Ok::<_, CompileError>((result@, self.state(cache@))) by {
                        lemma_rw_jsx_child(xv, st0, o);
                    }
                }
                Ok(result)
            },
            JSXElementChild::JSXFragment(children) => {
                assert(xv == JSXElementChildView::JSXFragment(jsx_children_view(children@)));
                let children = match self.visit_jsx_children(children, cache) {
                    Ok(v) => v,
                    Err(e) => {
                        proof {
                            assert forall|o: Seq<SiteNames>| #[trigger]
                                agrees(o, self.drawn@) implies
                                    (rw_jsx_child(xv, st0, o) matches Err(err) && err == e) by {
                                lemma_rw_jsx_child(xv, st0, o);
                            }
                        }
                        return Err(e);
                    },
                };
                let ghost d1 = self.drawn@;
                let result = JSXElementChild::JSXFragment(children);
                proof {
                    assert(result@
                        == JSXElementChildView::JSXFragment(jsx_children_view(children@)));
                    assert forall|o: Seq<SiteNames>| #[trigger]
                        agrees(o, self.drawn@) implies
                            rw_jsx_child(xv, st0, o)
                                == Ok::<_, CompileError>((result@, self.state(cache@))) by {
                        lemma_rw_jsx_child(xv, st0, o);
                    }
                }
                Ok(result)
            },
        }
    }

    /// Walks a default-exported declaration.
    pub fn visit_default_decl(
        &mut self,
        x: DefaultDecl,
        cache: &mut StyleNameCache,
    ) -> (r: Result<DefaultDecl, CompileError>)
        ensures
            agrees(final(self).drawn@, old(self).drawn@),
            all_fresh(old(self).drawn@) ==> all_fresh(final(self).drawn@),
            forall|o: Seq<SiteNames>| #[trigger]
                agrees(o, final(self).drawn@) ==> match rw_default_decl(
                    x@,
                    old(self).state(old(cache)@),
                    o,
                ) {
                    Ok((x, st)) => r matches Ok(got)
                        && got@ == x
                        && final(self).state(final(cache)@) == st,
                    Err(err) => r matches Err(got) && got == err,
                },
        decreases x, 0nat,
    {
        let ghost st0 = old(self).state(old(cache)@);
        let ghost d0 = self.drawn@;
        let ghost xv = x@;
        proof {
            lemma_agrees_refl(d0);
        }
        match x {
            DefaultDecl::Class { ident, class } => {
                assert(xv == DefaultDeclView::Class {
                    ident: crate::ast::view::opt_string_view(ident),
                    class: class@,
                });
                assert(class@.children == nodes_view(class.children@));
                let handle = class.handle;
                let children = match self.visit_nodes(class.children, cache) {
                    Ok(v) => v,
                    Err(e) => {
                        proof {
                            assert forall|o: Seq<SiteNames>| #[trigger]
                                agrees(o, self.drawn@) implies
                                    (rw_default_decl(xv, st0, o) matches Err(err) && err == e) by {
                                lemma_rw_default_decl(xv, st0, o);
                            }
                        }
                        return Err(e);
                    },
                };
                let ghost d1 = self.drawn@;
                let result = DefaultDecl::Class { ident, class: Opaque { handle, children } };
                proof {
                    assert(result@ == DefaultDeclView::Class {
                        ident: crate::ast::view::opt_string_view(ident),
                        class: OpaqueView { handle, children: nodes_view(children@) },
                    });
                    assert forall|o: Seq<SiteNames>| #[trigger]
                        agrees(o, self.drawn@) implies
                            rw_default_decl(xv, st0, o)
                                == Ok::<_, CompileError>((result@, self.state(cache@))) by {
                        lemma_rw_default_decl(xv, st0, o);
                    }
                }
                Ok(result)
            },
            DefaultDecl::Fn { ident, function } => {
                assert(xv == DefaultDeclView::Fn {
                    ident: crate::ast::view::opt_string_view(ident),
                    function: function@,
                });
                let function = match self.visit_function(function, cache) {
                    Ok(v) => v,
                    Err(e) => {
                        proof {
                            assert forall|o: Seq<SiteNames>| #[trigger]
                                agrees(o, self.drawn@) implies
                                    (rw_default_decl(xv, st0, o) matches Err(err) && err == e) by {
                                lemma_rw_default_decl(xv, st0, o);
                            }
                        }
                        return Err(e);
                    },
                };
                let ghost d1 = self.drawn@;
                let result = DefaultDecl::Fn { ident, function };
                proof {
                    assert(result@ == DefaultDeclView::Fn {
                        ident: crate::ast::view::opt_string_view(ident),
                        function: function@,
                    });
                    assert forall|o: Seq<SiteNames>| #[trigger]
                        agrees(o, self.drawn@) implies
                            rw_default_decl(xv, st0, o)
                                == Ok::<_, CompileError>((result@, self.state(cache@))) by {
                        lemma_rw_default_decl(xv, st0, o);
                    }
                }
                Ok(result)
            },
            DefaultDecl::TsInterfaceDecl => {
                assert(xv == DefaultDeclView::TsInterfaceDecl);
                let result = DefaultDecl::TsInterfaceDecl;
                proof {
                    assert(result@ == xv);
                    assert forall|o: Seq<SiteNames>|
                        #[trigger] rw_default_decl(xv, st0, o)
                            == Ok::<_, CompileError>((result@, st0)) by {
                        lemma_rw_default_decl(xv, st0, o);
                    }
                }
                Ok(result)
            },
        }
    }

    /// Walks a top-level item.
    pub fn visit_module_item(
        &mut self,
        x: ModuleItem,
        cache: &mut StyleNameCache,
    ) -> (r: Result<ModuleItem, CompileError>)
        ensures
            agrees(final(self).drawn@, old(self).drawn@),
            all_fresh(old(self).drawn@) ==> all_fresh(final(self).drawn@),
            forall|o: Seq<SiteNames>| #[trigger]
                agrees(o, final(self).drawn@) ==> match rw_module_item(
                    x@,
                    old(self).state(old(cache)@),
                    o,
                ) {
                    Ok((x, st)) => r matches Ok(got)
                        && got@ == x
                        && final(self).state(final(cache)@) == st,
                    Err(err) => r matches Err(got) && got == err,
                },
        decreases x, 0nat,
    {
        let ghost st0 = old(self).state(old(cache)@);
        let ghost d0 = self.drawn@;
        let ghost xv = x@;
        proof {
            lemma_agrees_refl(d0);
        }
        match x {
            ModuleItem::ExportAll => {
                assert(xv == ModuleItemView::ExportAll);
                let result = ModuleItem::ExportAll;
                proof {
                    assert(result@ == xv);
                    assert forall|o: Seq<SiteNames>|
                        #[trigger] rw_module_item(xv, st0, o)
                            == Ok::<_, CompileError>((result@, st0)) by {
                        lemma_rw_module_item(xv, st0, o);
                    }
                }
                Ok(result)
            },
            ModuleItem::ExportDecl(d) => {
                assert(xv == ModuleItemView::ExportDecl(d@));
                let d = match self.visit_decl(d, cache) {
                    Ok(v) => v,
                    Err(e) => {
                        proof {
                            assert forall|o: Seq<SiteNames>| #[trigger]
                                agrees(o, self.drawn@) implies
                                    (rw_module_item(xv, st0, o) matches Err(err) && err == e) by {
                                lemma_rw_module_item(xv, st0, o);
                            }
                        }
                        return Err(e);
                    },
                };
                let ghost d1 = self.drawn@;
                let result = ModuleItem::ExportDecl(d);
                proof {
                    assert(result@ == ModuleItemView::ExportDecl(d@));
                    assert forall|o: Seq<SiteNames>| #[trigger]
                        agrees(o, self.drawn@) implies
                            rw_module_item(xv, st0, o)
                                == Ok::<_, CompileError>((result@, self.state(cache@))) by {
                        lemma_rw_module_item(xv, st0, o);
                    }
                }
                Ok(result)
            },
            ModuleItem::ExportDefaultDecl(d) => {
                assert(xv == ModuleItemView::ExportDefaultDecl(d@));
                let d = match self.visit_default_decl(d, cache) {
                    Ok(v) => v,
                    Err(e) => {
                        proof {
                            assert forall|o: Seq<SiteNames>| #[trigger]
                                agrees(o, self.drawn@) implies
                                    (rw_module_item(xv, st0, o) matches Err(err) && err == e) by {
                                lemma_rw_module_item(xv, st0, o);
                            }
                        }
                        return Err(e);
                    },
                };
                let ghost d1 = self.drawn@;
                let result = ModuleItem::ExportDefaultDecl(d);
                proof {
                    assert(result@ == ModuleItemView::ExportDefaultDecl(d@));
                    assert forall|o: Seq<SiteNames>| #[trigger]
                        agrees(o, self.drawn@) implies
                            rw_module_item(xv, st0, o)
                                == Ok::<_, CompileError>((result@, self.state(cache@))) by {
                        lemma_rw_module_item(xv, st0, o);
                    }
                }
                Ok(result)
            },
            ModuleItem::ExportDefaultExpr(e) => {
                assert(xv == ModuleItemView::ExportDefaultExpr(e@));
                let e = match self.visit_expr(e, cache) {
                    Ok(v) => v,
                    Err(e) => {
                        proof {
                            assert forall|o: Seq<SiteNames>| #[trigger]
                                agrees(o, self.drawn@) implies
                                    (rw_module_item(xv, st0, o) matches Err(err) && err == e) by {
                                lemma_rw_module_item(xv, st0, o);
                            }
                        }
                        return Err(e);
                    },
                };
                let ghost d1 = self.drawn@;
                let result = ModuleItem::ExportDefaultExpr(e);
                proof {
                    assert(result@ == ModuleItemView::ExportDefaultExpr(e@));
                    assert forall|o: Seq<SiteNames>| #[trigger]
                        agrees(o, self.drawn@) implies
                            rw_module_item(xv, st0, o)
                                == Ok::<_, CompileError>((result@, self.state(cache@))) by {
                        lemma_rw_module_item(xv, st0, o);
                    }
                }
                Ok(result)
            },
            ModuleItem::Stmt(s) => {
                assert(xv == ModuleItemView::Stmt(s@));
                let s = match self.visit_stmt(s, cache) {
                    Ok(v) => v,
                    Err(e) => {
                        proof {
                            assert forall|o: Seq<SiteNames>| #[trigger]
                                agrees(o, self.drawn@) implies
                                    (rw_module_item(xv, st0, o) matches Err(err) && err == e) by {
                                lemma_rw_module_item(xv, st0, o);
                            }
                        }
                        return Err(e);
                    },
                };
                let ghost d1 = self.drawn@;
                let result = ModuleItem::Stmt(s);
                proof {
                    assert(result@ == ModuleItemView::Stmt(s@));
                    assert forall|o: Seq<SiteNames>| #[trigger]
                        agrees(o, self.drawn@) implies
                            rw_module_item(xv, st0, o)
                                == Ok::<_, CompileError>((result@, self.state(cache@))) by {
                        lemma_rw_module_item(xv, st0, o);
                    }
                }
                Ok(result)
            },
            ModuleItem::Other(op) => {
                assert(xv == ModuleItemView::Other(op@));
                assert(op@.children == nodes_view(op.children@));
                let handle = op.handle;
                let children = match self.visit_nodes(op.children, cache) {
                    Ok(v) => v,
                    Err(e) => {
                        proof {
                            assert forall|o: Seq<SiteNames>| #[trigger]
                                agrees(o, self.drawn@) implies
                                    (rw_module_item(xv, st0, o) matches Err(err) && err == e) by {
                                lemma_rw_module_item(xv, st0, o);
                            }
                        }
                        return Err(e);
                    },
                };
                let ghost d1 = self.drawn@;
                let result = ModuleItem::Other(Opaque { handle, children });
                proof {
                    assert(result@ == ModuleItemView::Other(
                        OpaqueView { handle, children: nodes_view(children@) }
                    ));
                    assert forall|o: Seq<SiteNames>| #[trigger]
                        agrees(o, self.drawn@) implies
                            rw_module_item(xv, st0, o)
                                == Ok::<_, CompileError>((result@, self.state(cache@))) by {
                        lemma_rw_module_item(xv, st0, o);
                    }
                }
                Ok(result)
            },
        }
    }

    /// Walks an element of an array literal.
    pub fn visit_elem(
        &mut self,
        x: Option<ExprOrSpread>,
        cache: &mut StyleNameCache,
    ) -> (r: Result<Option<ExprOrSpread>, CompileError>)
        ensures
            agrees(final(self).drawn@, old(self).drawn@),
            all_fresh(old(self).drawn@) ==> all_fresh(final(self).drawn@),
            forall|o: Seq<SiteNames>| #[trigger]
                agrees(o, final(self).drawn@) ==> match rw_elem(
                    opt_arg_view(x),
                    old(self).state(old(cache)@),
                    o,
                ) {
                    Ok((x, st)) => r matches Ok(got)
                        && opt_arg_view(got) == x
                        && final(self).state(final(cache)@) == st,
                    Err(err) => r matches Err(got) && got == err,
                },
        decreases x, 0nat,
    {
        let ghost st0 = old(self).state(old(cache)@);
        let ghost d0 = self.drawn@;
        let ghost xv = opt_arg_view(x);
        proof {
            lemma_agrees_refl(d0);
        }
        match x {
            None => {
                proof {
                    assert forall|o: Seq<SiteNames>|
                        #[trigger] rw_elem(xv, st0, o) == Ok::<_, CompileError>((xv, st0)) by {
                        lemma_rw_elem(xv, st0, o);
                    }
                }
                Ok(None)
            },
            Some(a) => {
                let ghost av = a@;
                match self.visit_arg(a, cache) {
                    Ok(v) => {
                        proof {
                            assert forall|o: Seq<SiteNames>| #[trigger]
                                agrees(o, self.drawn@) implies
                                    rw_elem(xv, st0, o) == Ok::<_, CompileError>((
                                        Some(v@),
                                        self.state(cache@),
                                    )) by {
                                lemma_rw_elem(xv, st0, o);
                            }
                        }
                        Ok(Some(v))
                    },
                    Err(e) => {
                        proof {
                            assert forall|o: Seq<SiteNames>| #[trigger]
                                agrees(o, self.drawn@) implies
                                    (rw_elem(xv, st0, o) matches Err(err) && err == e) by {
                                lemma_rw_elem(xv, st0, o);
                            }
                        }
                        Err(e)
                    },
                }
            },
        }
    }

    /// Walks an element of an array pattern.
    pub fn visit_opt_pat(
        &mut self,
        x: Option<Pat>,
        cache: &mut StyleNameCache,
    ) -> (r: Result<Option<Pat>, CompileError>)
        ensures
            agrees(final(self).drawn@, old(self).drawn@),
            all_fresh(old(self).drawn@) ==> all_fresh(final(self).drawn@),
            forall|o: Seq<SiteNames>| #[trigger]
                agrees(o, final(self).drawn@) ==> match rw_opt_pat(
                    opt_pat_view(x),
                    old(self).state(old(cache)@),
                    o,
                ) {
                    Ok((x, st)) => r matches Ok(got)
                        && opt_pat_view(got) == x
                        && final(self).state(final(cache)@) == st,
                    Err(err) => r matches Err(got) && got == err,
                },
        decreases x, 0nat,
    {
        let ghost st0 = old(self).state(old(cache)@);
        let ghost d0 = self.drawn@;
        let ghost xv = opt_pat_view(x);
        proof {
            lemma_agrees_refl(d0);
        }
        match x {
            None => {
                proof {
                    assert forall|o: Seq<SiteNames>|
                        #[trigger] rw_opt_pat(xv, st0, o) == Ok::<_, CompileError>((xv, st0)) by {
                        lemma_rw_opt_pat(xv, st0, o);
                    }
                }
                Ok(None)
            },
            Some(a) => {
                let ghost av = a@;
                match self.visit_pat(a, cache) {
                    Ok(v) => {
                        proof {
                            assert forall|o: Seq<SiteNames>| #[trigger]
                                agrees(o, self.drawn@) implies
                                    rw_opt_pat(xv, st0, o) == Ok::<_, CompileError>((
                                        Some(v@),
                                        self.state(cache@),
                                    )) by {
                                lemma_rw_opt_pat(xv, st0, o);
                            }
                        }
                        Ok(Some(v))
                    },
                    Err(e) => {
                        proof {
                            assert forall|o: Seq<SiteNames>| #[trigger]
                                agrees(o, self.drawn@) implies
                                    (rw_opt_pat(xv, st0, o) matches Err(err) && err == e) by {
                                lemma_rw_opt_pat(xv, st0, o);
                            }
                        }
                        Err(e)
                    },
                }
            },
        }
    }

    /// Compiles a markup expression where the walk stands and notes the
    /// random names that were drawn for it.
    pub fn visit_site(
        &mut self,
        el: JSXElement,
        cache: &mut StyleNameCache,
    ) -> (r: Result<Expr, CompileError>)
        ensures
            agrees(final(self).drawn@, old(self).drawn@),
            final(self).drawn@.len() == old(self).drawn@.len() + 1,
            site_names_fresh(final(self).drawn@.last()),
            all_fresh(old(self).drawn@) ==> all_fresh(final(self).drawn@),
            final(self).typechecker == old(self).typechecker,
            forall|o: Seq<SiteNames>| #[trigger]
                agrees(o, final(self).drawn@) ==> match rw_site(
                    el@,
                    old(self).state(old(cache)@),
                    o,
                ) {
                    Ok((x, st)) => r matches Ok(got)
                        && got@ == x
                        && final(self).state(final(cache)@) == st,
                    Err(err) => r matches Err(got) && got == err,
                },
    {
        proof {
            reveal(rw_site);
        }
        let ghost elv = el@;
        let ghost c0 = cache@;
        let ghost d0 = self.drawn@;
        let r = lower_top_level(&*self, Box::new(el), cache);
        let ghost w = choose|w: SiteNames|
            site_names_fresh(w) && top_level_outcome(
                spec_lower_top_level(elv, self.ctx(), w.ids, w.names, w.script_ids, c0),
                r,
                cache@,
            );
        proof {
            let (ids, names, script_ids) = choose|
                ids: Seq<Seq<char>>,
                names: StreamNamesView,
                script_ids: Seq<Seq<char>>,
            |
                {
                    &&& names.fresh()
                    &&& forall|i: int|
                        0 <= i < script_ids.len() ==> is_random_name(#[trigger] script_ids[i], 12)
                    &&& #[trigger] top_level_outcome(
                        spec_lower_top_level(elv, self.ctx(), ids, names, script_ids, c0),
                        r,
                        cache@,
                    )
                };
            let witness = SiteNames { ids, names, script_ids };
            assert(site_names_fresh(witness) && top_level_outcome(
                spec_lower_top_level(
                    elv,
                    self.ctx(),
                    witness.ids,
                    witness.names,
                    witness.script_ids,
                    c0,
                ),
                r,
                cache@,
            ));
        }
        self.drawn = Ghost(self.drawn@.push(w));
        proof {
            assert(self.ctx() == ctx_of(self.typechecker@));
            assert forall|o: Seq<SiteNames>| #[trigger]
                agrees(o, self.drawn@) implies o[d0.len() as int] == w by {
                assert(self.drawn@[d0.len() as int] == w);
            }
            if all_fresh(d0) {
                assert forall|i: int|
                    0 <= i < self.drawn@.len() implies
                        site_names_fresh(#[trigger] self.drawn@[i]) by {
                    if i < d0.len() {
                        assert(self.drawn@[i] == d0[i]);
                    }
                }
            }
        }
        r
    }

    /// Walks a module and compiles every markup expression in it.
    ///
    /// Names are drawn at random for every markup expression. The result
    /// is stated for every sequence of names that begins with the names
    /// drawn during the walk, which `drawn` holds afterwards.
    pub fn visit_program(
        &mut self,
        program: Program,
        cache: &mut StyleNameCache,
    ) -> (r: Result<Program, CompileError>)
        ensures
            agrees(final(self).drawn@, old(self).drawn@),
            all_fresh(old(self).drawn@) ==> all_fresh(final(self).drawn@),
            forall|o: Seq<SiteNames>| #[trigger]
                agrees(o, final(self).drawn@) ==> match rw_module_items(
                    program@.body,
                    0,
                    (Seq::empty(), old(self).state(old(cache)@)),
                    o,
                ) {
                    Ok((x, st)) => r matches Ok(got)
                        && got@.body == x
                        && final(self).state(final(cache)@) == st,
                    Err(err) => r matches Err(got) && got == err,
                },
    {
        assert(program@.body == module_items_view(program.body@));
        match self.visit_module_items(program.body, cache) {
            Ok(body) => {
                let result = Program { body };
                assert(result@.body == module_items_view(body@));
                Ok(result)
            },
            Err(e) => Err(e),
        }
    }
}

/// Whether the compilation of a module ended as `expected` says.
pub open spec fn transpile_outcome(
    expected: Result<(Seq<ModuleItemView>, RwState), CompileError>,
    r: Result<Program, CompileError>,
    cache: StyleNameCacheView,
) -> bool {
    match expected {
        Ok((x, st)) => r matches Ok(got) && got@.body == x && cache == st.cache,
        Err(err) => r matches Err(got) && got == err,
    }
}

/// Compiles a module: infers the types of its bindings on the way and
/// replaces every markup expression by its streaming assembly. The first
/// construct that is refused ends the compilation.
///
/// The name of the collector and the names of every markup expression are
/// drawn at random. The contract states that the result is the one that
/// the walk gives for some such names, all of the shape of generated
/// names.
pub fn transpile(program: Program, cache: &mut StyleNameCache) -> (r: Result<Program, CompileError>)
    ensures
        exists|later: Seq<char>, o: Seq<SiteNames>|
            {
                &&& is_random_name(later, 16)
                &&& all_fresh(o)
                &&& #[trigger] transpile_outcome(
                    rw_module_items(
                        program@.body,
                        0,
                        (
                            Seq::empty(),
                            RwState {
                                tc: TypecheckerView::initial(later),
                                cache: old(cache)@,
                                sites: 0,
                            },
                        ),
                        o,
                    ),
                    r,
                    final(cache)@,
                )
            },
{
    let mut visitor = TranspileVisitor::new();
    let ghost later = visitor.typechecker@.later_create_ident;
    let ghost c0 = cache@;
    let ghost body = program@.body;
    assert(all_fresh(visitor.drawn@));
    let r = visitor.visit_program(program, cache);
    proof {
        let o = visitor.drawn@;
        lemma_agrees_refl(o);
        assert(transpile_outcome(
            rw_module_items(
                body,
                0,
                (
                    Seq::empty(),
                    RwState { tc: TypecheckerView::initial(later), cache: c0, sites: 0 },
                ),
                o,
            ),
            r,
            cache@,
        ));
    }
    r
}

} // verus!
