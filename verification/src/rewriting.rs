//! What the rewriting walk computes: the tree with every markup expression
//! replaced by its streaming assembly, and the state of inference, name
//! cache and site count afterwards.

use crate::ast::view::{
    ArrowExprView, AssignTargetView, BlockStmtOrExprView, CalleeView, DeclView, DefaultDeclView,
    ExprOrSpreadView, ExprView, FunctionView, JSXAttrOrSpreadView, JSXAttrValueView,
    JSXElementChildView, JSXElementView, JSXExprView, ModuleItemView, NodeView, ObjectLitView,
    OpaqueView, PatView, PropNameView, PropOrSpreadView, PropView, StmtView, TplView,
    VarDeclView, VarDeclaratorView,
};
use crate::error::CompileError;
use crate::inference::{
    arrow_return_type, enter_arrow, enter_fn_decl, exit_arrow, exit_fn_decl, on_binding,
    on_return, pat_name, target_name,
};
use crate::lowering::LowerCtx;
use crate::streaming::{spec_lower_top_level, StreamNamesView};
use crate::style_name::StyleNameCacheView;
use crate::typecheck::TypecheckerView;
use vstd::prelude::*;

verus! {

/// The random names drawn for one markup expression: the ids of its
/// deferred entries, the names its streaming code binds, and the ids of
/// its script elements.
pub struct SiteNames {
    pub ids: Seq<Seq<char>>,
    pub names: StreamNamesView,
    pub script_ids: Seq<Seq<char>>,
}

/// The state of the rewriting walk: the inference state, the cache of
/// style names, and the number of markup expressions compiled so far.
pub struct RwState {
    pub tc: TypecheckerView,
    pub cache: StyleNameCacheView,
    pub sites: nat,
}

impl RwState {
    /// The state with another inference state.
    pub open spec fn with_tc(self, tc: TypecheckerView) -> RwState {
        RwState { tc, ..self }
    }
}

/// What lowering reads from the inference state.
pub open spec fn ctx_of(tc: TypecheckerView) -> LowerCtx {
    LowerCtx { scopes: tc.scopes, later_create_ident: tc.later_create_ident }
}

/// A markup expression compiled where the walk stands: the element is
/// lowered under the scopes of that moment, with the names that `o` holds
/// for this site.
#[verifier::opaque]
pub open spec fn rw_site(
    el: JSXElementView,
    st: RwState,
    o: Seq<SiteNames>,
) -> Result<(ExprView, RwState), CompileError> {
    let names = o[st.sites as int];
    match spec_lower_top_level(
        el,
        ctx_of(st.tc),
        names.ids,
        names.names,
        names.script_ids,
        st.cache,
    ) {
        Err(e) => Err(e),
        Ok((expr, cache)) => Ok((expr, RwState { tc: st.tc, cache, sites: st.sites + 1 })),
    }
}

/// The walk of the expressions from number `k` on, after those in `acc`.
#[verifier::opaque]
pub open spec fn rw_exprs(
    s: Seq<ExprView>,
    k: nat,
    acc: (Seq<ExprView>, RwState),
    o: Seq<SiteNames>,
) -> Result<(Seq<ExprView>, RwState), CompileError>
    decreases s, s.len() - k,
{
    if k >= s.len() {
        Ok(acc)
    } else {
        match rw_expr(s[k as int], acc.1, o) {
            Err(e) => Err(e),
            Ok((x, st)) => rw_exprs(s, k + 1, (acc.0.push(x), st), o),
        }
    }
}

/// The walk of the elements of an array literal from number `k` on, after those in `acc`.
#[verifier::opaque]
pub open spec fn rw_elems(
    s: Seq<Option<ExprOrSpreadView>>,
    k: nat,
    acc: (Seq<Option<ExprOrSpreadView>>, RwState),
    o: Seq<SiteNames>,
) -> Result<(Seq<Option<ExprOrSpreadView>>, RwState), CompileError>
    decreases s, s.len() - k,
{
    if k >= s.len() {
        Ok(acc)
    } else {
        match rw_elem(s[k as int], acc.1, o) {
            Err(e) => Err(e),
            Ok((x, st)) => rw_elems(s, k + 1, (acc.0.push(x), st), o),
        }
    }
}

/// The walk of the arguments from number `k` on, after those in `acc`.
#[verifier::opaque]
pub open spec fn rw_args(
    s: Seq<ExprOrSpreadView>,
    k: nat,
    acc: (Seq<ExprOrSpreadView>, RwState),
    o: Seq<SiteNames>,
) -> Result<(Seq<ExprOrSpreadView>, RwState), CompileError>
    decreases s, s.len() - k,
{
    if k >= s.len() {
        Ok(acc)
    } else {
        match rw_arg(s[k as int], acc.1, o) {
            Err(e) => Err(e),
            Ok((x, st)) => rw_args(s, k + 1, (acc.0.push(x), st), o),
        }
    }
}

/// The walk of the entries of an object literal from number `k` on, after those in `acc`.
#[verifier::opaque]
pub open spec fn rw_props(
    s: Seq<PropOrSpreadView>,
    k: nat,
    acc: (Seq<PropOrSpreadView>, RwState),
    o: Seq<SiteNames>,
) -> Result<(Seq<PropOrSpreadView>, RwState), CompileError>
    decreases s, s.len() - k,
{
    if k >= s.len() {
        Ok(acc)
    } else {
        match rw_prop(s[k as int], acc.1, o) {
            Err(e) => Err(e),
            Ok((x, st)) => rw_props(s, k + 1, (acc.0.push(x), st), o),
        }
    }
}

/// The walk of the patterns from number `k` on, after those in `acc`.
#[verifier::opaque]
pub open spec fn rw_pats(
    s: Seq<PatView>,
    k: nat,
    acc: (Seq<PatView>, RwState),
    o: Seq<SiteNames>,
) -> Result<(Seq<PatView>, RwState), CompileError>
    decreases s, s.len() - k,
{
    if k >= s.len() {
        Ok(acc)
    } else {
        match rw_pat(s[k as int], acc.1, o) {
            Err(e) => Err(e),
            Ok((x, st)) => rw_pats(s, k + 1, (acc.0.push(x), st), o),
        }
    }
}

/// The walk of the elements of an array pattern from number `k` on, after those in `acc`.
#[verifier::opaque]
pub open spec fn rw_opt_pats(
    s: Seq<Option<PatView>>,
    k: nat,
    acc: (Seq<Option<PatView>>, RwState),
    o: Seq<SiteNames>,
) -> Result<(Seq<Option<PatView>>, RwState), CompileError>
    decreases s, s.len() - k,
{
    if k >= s.len() {
        Ok(acc)
    } else {
        match rw_opt_pat(s[k as int], acc.1, o) {
            Err(e) => Err(e),
            Ok((x, st)) => rw_opt_pats(s, k + 1, (acc.0.push(x), st), o),
        }
    }
}

/// The walk of the children of an opaque node from number `k` on, after those in `acc`.
#[verifier::opaque]
pub open spec fn rw_nodes(
    s: Seq<NodeView>,
    k: nat,
    acc: (Seq<NodeView>, RwState),
    o: Seq<SiteNames>,
) -> Result<(Seq<NodeView>, RwState), CompileError>
    decreases s, s.len() - k,
{
    if k >= s.len() {
        Ok(acc)
    } else {
        match rw_node(s[k as int], acc.1, o) {
            Err(e) => Err(e),
            Ok((x, st)) => rw_nodes(s, k + 1, (acc.0.push(x), st), o),
        }
    }
}

/// The walk of the statements from number `k` on, after those in `acc`.
#[verifier::opaque]
pub open spec fn rw_stmts(
    s: Seq<StmtView>,
    k: nat,
    acc: (Seq<StmtView>, RwState),
    o: Seq<SiteNames>,
) -> Result<(Seq<StmtView>, RwState), CompileError>
    decreases s, s.len() - k,
{
    if k >= s.len() {
        Ok(acc)
    } else {
        match rw_stmt(s[k as int], acc.1, o) {
            Err(e) => Err(e),
            Ok((x, st)) => rw_stmts(s, k + 1, (acc.0.push(x), st), o),
        }
    }
}

/// The walk of the declarators from number `k` on, after those in `acc`.
#[verifier::opaque]
pub open spec fn rw_declarators(
    s: Seq<VarDeclaratorView>,
    k: nat,
    acc: (Seq<VarDeclaratorView>, RwState),
    o: Seq<SiteNames>,
) -> Result<(Seq<VarDeclaratorView>, RwState), CompileError>
    decreases s, s.len() - k,
{
    if k >= s.len() {
        Ok(acc)
    } else {
        match rw_declarator(s[k as int], acc.1, o) {
            Err(e) => Err(e),
            Ok((x, st)) => rw_declarators(s, k + 1, (acc.0.push(x), st), o),
        }
    }
}

/// The walk of the attributes from number `k` on, after those in `acc`.
#[verifier::opaque]
pub open spec fn rw_jsx_attrs(
    s: Seq<JSXAttrOrSpreadView>,
    k: nat,
    acc: (Seq<JSXAttrOrSpreadView>, RwState),
    o: Seq<SiteNames>,
) -> Result<(Seq<JSXAttrOrSpreadView>, RwState), CompileError>
    decreases s, s.len() - k,
{
    if k >= s.len() {
        Ok(acc)
    } else {
        match rw_jsx_attr(s[k as int], acc.1, o) {
            Err(e) => Err(e),
            Ok((x, st)) => rw_jsx_attrs(s, k + 1, (acc.0.push(x), st), o),
        }
    }
}

/// The walk of the children from number `k` on, after those in `acc`.
#[verifier::opaque]
pub open spec fn rw_jsx_children(
    s: Seq<JSXElementChildView>,
    k: nat,
    acc: (Seq<JSXElementChildView>, RwState),
    o: Seq<SiteNames>,
) -> Result<(Seq<JSXElementChildView>, RwState), CompileError>
    decreases s, s.len() - k,
{
    if k >= s.len() {
        Ok(acc)
    } else {
        match rw_jsx_child(s[k as int], acc.1, o) {
            Err(e) => Err(e),
            Ok((x, st)) => rw_jsx_children(s, k + 1, (acc.0.push(x), st), o),
        }
    }
}

/// The walk of the top-level items from number `k` on, after those in `acc`.
#[verifier::opaque]
pub open spec fn rw_module_items(
    s: Seq<ModuleItemView>,
    k: nat,
    acc: (Seq<ModuleItemView>, RwState),
    o: Seq<SiteNames>,
) -> Result<(Seq<ModuleItemView>, RwState), CompileError>
    decreases s, s.len() - k,
{
    if k >= s.len() {
        Ok(acc)
    } else {
        match rw_module_item(s[k as int], acc.1, o) {
            Err(e) => Err(e),
            Ok((x, st)) => rw_module_items(s, k + 1, (acc.0.push(x), st), o),
        }
    }
}

/// The walk of an expression. A markup element in expression position is
/// walked first and then compiled.
#[verifier::opaque]
pub open spec fn rw_expr(
    e: ExprView,
    st: RwState,
    o: Seq<SiteNames>,
) -> Result<(ExprView, RwState), CompileError>
    decreases e, 0nat,
{
    match e {
        ExprView::Lit(_) => Ok((e, st)),
        ExprView::Ident(_) => Ok((e, st)),
        ExprView::Tpl(t) => match rw_exprs(t.exprs, 0, (Seq::empty(), st), o) {
            Err(e) => Err(e),
            Ok((exprs, st1)) => Ok((ExprView::Tpl(TplView { quasis: t.quasis, exprs }), st1)),
        },
        ExprView::Array(elems) => match rw_elems(elems, 0, (Seq::empty(), st), o) {
            Err(e) => Err(e),
            Ok((elems, st1)) => Ok((ExprView::Array(elems), st1)),
        },
        ExprView::Object(obj) => match rw_props(obj.props, 0, (Seq::empty(), st), o) {
            Err(e) => Err(e),
            Ok((props, st1)) => Ok((ExprView::Object(ObjectLitView { props }), st1)),
        },
        ExprView::Call { callee, args } => match rw_callee(callee, st, o) {
            Err(e) => Err(e),
            Ok((callee, st1)) => match rw_args(args, 0, (Seq::empty(), st1), o) {
                Err(e) => Err(e),
                Ok((args, st2)) => Ok((ExprView::Call { callee, args }, st2)),
            },
        },
        ExprView::Member { obj, prop } => match rw_expr(*obj, st, o) {
            Err(e) => Err(e),
            Ok((obj, st1)) => Ok((ExprView::Member { obj: Box::new(obj), prop }, st1)),
        },
        ExprView::Await(arg) => match rw_expr(*arg, st, o) {
            Err(e) => Err(e),
            Ok((arg, st1)) => Ok((ExprView::Await(Box::new(arg)), st1)),
        },
        ExprView::Arrow(a) => match rw_arrow(a, st, o) {
            Err(e) => Err(e),
            Ok((a, st1)) => Ok((ExprView::Arrow(a), st1)),
        },
        ExprView::Paren(inner) => match rw_expr(*inner, st, o) {
            Err(e) => Err(e),
            Ok((inner, st1)) => Ok((ExprView::Paren(Box::new(inner)), st1)),
        },
        ExprView::Cond { test, cons, alt } => match rw_expr(*test, st, o) {
            Err(e) => Err(e),
            Ok((test, st1)) => match rw_expr(*cons, st1, o) {
                Err(e) => Err(e),
                Ok((cons, st2)) => match rw_expr(*alt, st2, o) {
                    Err(e) => Err(e),
                    Ok((alt, st3)) => Ok((
                        ExprView::Cond {
                            test: Box::new(test),
                            cons: Box::new(cons),
                            alt: Box::new(alt),
                        },
                        st3,
                    )),
                },
            },
        },
        ExprView::Assign { left, right } => match rw_target(
            left,
            st.with_tc(on_binding(st.tc, target_name(left), *right)),
            o,
        ) {
            Err(e) => Err(e),
            Ok((left, st1)) => match rw_expr(*right, st1, o) {
                Err(e) => Err(e),
                Ok((right, st2)) => Ok((ExprView::Assign { left, right: Box::new(right) }, st2)),
            },
        },
        ExprView::JSXElement(el) => match rw_jsx_element(*el, st, o) {
            Err(e) => Err(e),
            Ok((el, st1)) => rw_site(el, st1, o),
        },
        ExprView::JSXFragment(children) => match rw_jsx_children(
            children,
            0,
            (Seq::empty(), st),
            o,
        ) {
            Err(e) => Err(e),
            Ok((children, st1)) => Ok((ExprView::JSXFragment(children), st1)),
        },
        ExprView::Other(op) => match rw_nodes(op.children, 0, (Seq::empty(), st), o) {
            Err(e) => Err(e),
            Ok((children, st1)) => Ok((
                ExprView::Other(OpaqueView { handle: op.handle, children }),
                st1,
            )),
        },
    }
}

/// The walk of what a call calls.
#[verifier::opaque]
pub open spec fn rw_callee(
    c: CalleeView,
    st: RwState,
    o: Seq<SiteNames>,
) -> Result<(CalleeView, RwState), CompileError>
    decreases c, 0nat,
{
    match c {
        CalleeView::Expr(e) => match rw_expr(*e, st, o) {
            Err(e) => Err(e),
            Ok((e, st1)) => Ok((CalleeView::Expr(Box::new(e)), st1)),
        },
        CalleeView::Other => Ok((c, st)),
    }
}

/// The walk of the target of an assignment.
#[verifier::opaque]
pub open spec fn rw_target(
    t: AssignTargetView,
    st: RwState,
    o: Seq<SiteNames>,
) -> Result<(AssignTargetView, RwState), CompileError>
    decreases t, 0nat,
{
    match t {
        AssignTargetView::Ident(_) => Ok((t, st)),
        AssignTargetView::Other(op) => match rw_nodes(op.children, 0, (Seq::empty(), st), o) {
            Err(e) => Err(e),
            Ok((children, st1)) => Ok((
                AssignTargetView::Other(OpaqueView { handle: op.handle, children }),
                st1,
            )),
        },
    }
}

/// The walk of an arrow function: its scope is entered, parameters and
/// body are walked, and the scope is left.
#[verifier::opaque]
pub open spec fn rw_arrow(
    a: ArrowExprView,
    st: RwState,
    o: Seq<SiteNames>,
) -> Result<(ArrowExprView, RwState), CompileError>
    decreases a, 0nat,
{
    let entered = enter_arrow(st.tc);
    let known = arrow_return_type(entered, a.body);
    match rw_pats(a.params, 0, (Seq::empty(), st.with_tc(entered)), o) {
        Err(e) => Err(e),
        Ok((params, st1)) => match rw_arrow_body(a.body, st1, o) {
            Err(e) => Err(e),
            Ok((body, st2)) => Ok((
                ArrowExprView { params, body, is_async: a.is_async },
                st2.with_tc(exit_arrow(st2.tc, known, a.is_async)),
            )),
        },
    }
}

/// The walk of the body of an arrow function.
#[verifier::opaque]
pub open spec fn rw_arrow_body(
    b: BlockStmtOrExprView,
    st: RwState,
    o: Seq<SiteNames>,
) -> Result<(BlockStmtOrExprView, RwState), CompileError>
    decreases b, 0nat,
{
    match b {
        BlockStmtOrExprView::Expr(e) => match rw_expr(*e, st, o) {
            Err(e) => Err(e),
            Ok((e, st1)) => Ok((BlockStmtOrExprView::Expr(Box::new(e)), st1)),
        },
        BlockStmtOrExprView::BlockStmt(stmts) => match rw_stmts(stmts, 0, (Seq::empty(), st), o) {
            Err(e) => Err(e),
            Ok((stmts, st1)) => Ok((BlockStmtOrExprView::BlockStmt(stmts), st1)),
        },
    }
}

/// The walk of an element of an array literal.
#[verifier::opaque]
pub open spec fn rw_elem(
    x: Option<ExprOrSpreadView>,
    st: RwState,
    o: Seq<SiteNames>,
) -> Result<(Option<ExprOrSpreadView>, RwState), CompileError>
    decreases x, 0nat,
{
    match x {
        None => Ok((x, st)),
        Some(arg) => match rw_arg(arg, st, o) {
            Err(e) => Err(e),
            Ok((arg, st1)) => Ok((Some(arg), st1)),
        },
    }
}

/// The walk of an argument.
#[verifier::opaque]
pub open spec fn rw_arg(
    x: ExprOrSpreadView,
    st: RwState,
    o: Seq<SiteNames>,
) -> Result<(ExprOrSpreadView, RwState), CompileError>
    decreases x, 0nat,
{
    match rw_expr(x.expr, st, o) {
        Err(e) => Err(e),
        Ok((expr, st1)) => Ok((ExprOrSpreadView { spread: x.spread, expr }, st1)),
    }
}

/// The walk of an entry of an object literal.
#[verifier::opaque]
pub open spec fn rw_prop(
    p: PropOrSpreadView,
    st: RwState,
    o: Seq<SiteNames>,
) -> Result<(PropOrSpreadView, RwState), CompileError>
    decreases p, 0nat,
{
    match p {
        PropOrSpreadView::Spread(e) => match rw_expr(e, st, o) {
            Err(e) => Err(e),
            Ok((e, st1)) => Ok((PropOrSpreadView::Spread(e), st1)),
        },
        PropOrSpreadView::Prop(PropView::Shorthand(_)) => Ok((p, st)),
        PropOrSpreadView::Prop(PropView::KeyValue { key, value }) => match rw_prop_name(
            key,
            st,
            o,
        ) {
            Err(e) => Err(e),
            Ok((key, st1)) => match rw_expr(*value, st1, o) {
                Err(e) => Err(e),
                Ok((value, st2)) => Ok((
                    PropOrSpreadView::Prop(PropView::KeyValue { key, value: Box::new(value) }),
                    st2,
                )),
            },
        },
        PropOrSpreadView::Prop(PropView::Other(op)) => match rw_nodes(
            op.children,
            0,
            (Seq::empty(), st),
            o,
        ) {
            Err(e) => Err(e),
            Ok((children, st1)) => Ok((
                PropOrSpreadView::Prop(PropView::Other(OpaqueView { handle: op.handle, children })),
                st1,
            )),
        },
    }
}

/// The walk of the name of an object property.
#[verifier::opaque]
pub open spec fn rw_prop_name(
    n: PropNameView,
    st: RwState,
    o: Seq<SiteNames>,
) -> Result<(PropNameView, RwState), CompileError>
    decreases n, 0nat,
{
    match n {
        PropNameView::Computed(e) => match rw_expr(*e, st, o) {
            Err(e) => Err(e),
            Ok((e, st1)) => Ok((PropNameView::Computed(Box::new(e)), st1)),
        },
        _ => Ok((n, st)),
    }
}

/// The walk of a pattern.
#[verifier::opaque]
pub open spec fn rw_pat(
    p: PatView,
    st: RwState,
    o: Seq<SiteNames>,
) -> Result<(PatView, RwState), CompileError>
    decreases p, 0nat,
{
    match p {
        PatView::Ident(_) => Ok((p, st)),
        PatView::Array(elems) => match rw_opt_pats(elems, 0, (Seq::empty(), st), o) {
            Err(e) => Err(e),
            Ok((elems, st1)) => Ok((PatView::Array(elems), st1)),
        },
        PatView::Other(op) => match rw_nodes(op.children, 0, (Seq::empty(), st), o) {
            Err(e) => Err(e),
            Ok((children, st1)) => Ok((
                PatView::Other(OpaqueView { handle: op.handle, children }),
                st1,
            )),
        },
    }
}

/// The walk of an element of an array pattern.
#[verifier::opaque]
pub open spec fn rw_opt_pat(
    p: Option<PatView>,
    st: RwState,
    o: Seq<SiteNames>,
) -> Result<(Option<PatView>, RwState), CompileError>
    decreases p, 0nat,
{
    match p {
        None => Ok((p, st)),
        Some(x) => match rw_pat(x, st, o) {
            Err(e) => Err(e),
            Ok((x, st1)) => Ok((Some(x), st1)),
        },
    }
}

/// The walk of a child of an opaque node.
#[verifier::opaque]
pub open spec fn rw_node(
    n: NodeView,
    st: RwState,
    o: Seq<SiteNames>,
) -> Result<(NodeView, RwState), CompileError>
    decreases n, 0nat,
{
    match n {
        NodeView::Expr(e) => match rw_expr(e, st, o) {
            Err(e) => Err(e),
            Ok((e, st1)) => Ok((NodeView::Expr(e), st1)),
        },
        NodeView::Stmt(s) => match rw_stmt(s, st, o) {
            Err(e) => Err(e),
            Ok((s, st1)) => Ok((NodeView::Stmt(s), st1)),
        },
        NodeView::Pat(p) => match rw_pat(p, st, o) {
            Err(e) => Err(e),
            Ok((p, st1)) => Ok((NodeView::Pat(p), st1)),
        },
    }
}

/// The walk of a statement.
#[verifier::opaque]
pub open spec fn rw_stmt(
    s: StmtView,
    st: RwState,
    o: Seq<SiteNames>,
) -> Result<(StmtView, RwState), CompileError>
    decreases s, 0nat,
{
    match s {
        StmtView::Return(arg) => match arg {
            None => Ok((s, st)),
            Some(e) => match rw_expr(e, st.with_tc(on_return(st.tc, arg)), o) {
                Err(e) => Err(e),
                Ok((e, st1)) => Ok((StmtView::Return(Some(e)), st1)),
            },
        },
        StmtView::Decl(d) => match rw_decl(d, st, o) {
            Err(e) => Err(e),
            Ok((d, st1)) => Ok((StmtView::Decl(d), st1)),
        },
        StmtView::Expr(e) => match rw_expr(e, st, o) {
            Err(e) => Err(e),
            Ok((e, st1)) => Ok((StmtView::Expr(e), st1)),
        },
        StmtView::Other(op) => match rw_nodes(op.children, 0, (Seq::empty(), st), o) {
            Err(e) => Err(e),
            Ok((children, st1)) => Ok((
                StmtView::Other(OpaqueView { handle: op.handle, children }),
                st1,
            )),
        },
    }
}

/// The walk of parameters and body of a function.
#[verifier::opaque]
pub open spec fn rw_function(
    f: FunctionView,
    st: RwState,
    o: Seq<SiteNames>,
) -> Result<(FunctionView, RwState), CompileError>
    decreases f, 0nat,
{
    match rw_pats(f.params, 0, (Seq::empty(), st), o) {
        Err(e) => Err(e),
        Ok((params, st1)) => match f.body {
            None => Ok((FunctionView { params, body: None, is_async: f.is_async }, st1)),
            Some(stmts) => match rw_stmts(stmts, 0, (Seq::empty(), st1), o) {
                Err(e) => Err(e),
                Ok((stmts, st2)) => Ok((
                    FunctionView { params, body: Some(stmts), is_async: f.is_async },
                    st2,
                )),
            },
        },
    }
}

/// The walk of a declaration. A function declaration opens a scope of its
/// own and records its type under its name.
#[verifier::opaque]
pub open spec fn rw_decl(
    d: DeclView,
    st: RwState,
    o: Seq<SiteNames>,
) -> Result<(DeclView, RwState), CompileError>
    decreases d, 0nat,
{
    match d {
        DeclView::Class { ident, class } => match rw_nodes(
            class.children,
            0,
            (Seq::empty(), st),
            o,
        ) {
            Err(e) => Err(e),
            Ok((children, st1)) => Ok((
                DeclView::Class { ident, class: OpaqueView { handle: class.handle, children } },
                st1,
            )),
        },
        DeclView::Fn { ident, function } => match rw_function(
            function,
            st.with_tc(enter_fn_decl(st.tc)),
            o,
        ) {
            Err(e) => Err(e),
            Ok((rewritten, st1)) => Ok((
                DeclView::Fn { ident, function: rewritten },
                st1.with_tc(exit_fn_decl(st1.tc, ident, function.body, function.is_async)),
            )),
        },
        DeclView::Var(v) => match rw_declarators(v.decls, 0, (Seq::empty(), st), o) {
            Err(e) => Err(e),
            Ok((decls, st1)) => Ok((DeclView::Var(VarDeclView { kind: v.kind, decls }), st1)),
        },
        DeclView::Other(op) => match rw_nodes(op.children, 0, (Seq::empty(), st), o) {
            Err(e) => Err(e),
            Ok((children, st1)) => Ok((
                DeclView::Other(OpaqueView { handle: op.handle, children }),
                st1,
            )),
        },
    }
}

/// The walk of a declarator: the type of the initializer is computed and
/// bound first, then pattern and initializer are walked.
#[verifier::opaque]
pub open spec fn rw_declarator(
    d: VarDeclaratorView,
    st: RwState,
    o: Seq<SiteNames>,
) -> Result<(VarDeclaratorView, RwState), CompileError>
    decreases d, 0nat,
{
    match d.init {
        None => match rw_pat(d.name, st, o) {
            Err(e) => Err(e),
            Ok((name, st1)) => Ok((VarDeclaratorView { name, init: None }, st1)),
        },
        Some(init) => match rw_pat(
            d.name,
            st.with_tc(on_binding(st.tc, pat_name(d.name), init)),
            o,
        ) {
            Err(e) => Err(e),
            Ok((name, st1)) => match rw_expr(init, st1, o) {
                Err(e) => Err(e),
                Ok((init, st2)) => Ok((VarDeclaratorView { name, init: Some(init) }, st2)),
            },
        },
    }
}

/// The walk of a markup element: attributes, then children.
#[verifier::opaque]
pub open spec fn rw_jsx_element(
    el: JSXElementView,
    st: RwState,
    o: Seq<SiteNames>,
) -> Result<(JSXElementView, RwState), CompileError>
    decreases el, 0nat,
{
    match rw_jsx_attrs(el.attrs, 0, (Seq::empty(), st), o) {
        Err(e) => Err(e),
        Ok((attrs, st1)) => match rw_jsx_children(el.children, 0, (Seq::empty(), st1), o) {
            Err(e) => Err(e),
            Ok((children, st2)) => Ok((JSXElementView { name: el.name, attrs, children }, st2)),
        },
    }
}

/// The walk of an attribute of a markup element.
#[verifier::opaque]
pub open spec fn rw_jsx_attr(
    a: JSXAttrOrSpreadView,
    st: RwState,
    o: Seq<SiteNames>,
) -> Result<(JSXAttrOrSpreadView, RwState), CompileError>
    decreases a, 0nat,
{
    match a {
        JSXAttrOrSpreadView::SpreadElement { expr, printed } => match rw_expr(*expr, st, o) {
            Err(e) => Err(e),
            Ok((expr, st1)) => Ok((
                JSXAttrOrSpreadView::SpreadElement { expr: Box::new(expr), printed },
                st1,
            )),
        },
        JSXAttrOrSpreadView::JSXAttr { name, value } => match value {
            None => Ok((a, st)),
            Some(v) => match rw_jsx_attr_value(v, st, o) {
                Err(e) => Err(e),
                Ok((v, st1)) => Ok((JSXAttrOrSpreadView::JSXAttr { name, value: Some(v) }, st1)),
            },
        },
    }
}

/// The walk of the value of an attribute.
#[verifier::opaque]
pub open spec fn rw_jsx_attr_value(
    v: JSXAttrValueView,
    st: RwState,
    o: Seq<SiteNames>,
) -> Result<(JSXAttrValueView, RwState), CompileError>
    decreases v, 0nat,
{
    match v {
        JSXAttrValueView::Lit(_) => Ok((v, st)),
        JSXAttrValueView::JSXExprContainer(c) => match rw_jsx_expr(c, st, o) {
            Err(e) => Err(e),
            Ok((c, st1)) => Ok((JSXAttrValueView::JSXExprContainer(c), st1)),
        },
        JSXAttrValueView::JSXElement(el) => match rw_jsx_element(*el, st, o) {
            Err(e) => Err(e),
            Ok((el, st1)) => Ok((JSXAttrValueView::JSXElement(Box::new(el)), st1)),
        },
        JSXAttrValueView::JSXFragment(children) => match rw_jsx_children(
            children,
            0,
            (Seq::empty(), st),
            o,
        ) {
            Err(e) => Err(e),
            Ok((children, st1)) => Ok((JSXAttrValueView::JSXFragment(children), st1)),
        },
    }
}

/// The walk of what stands between the braces of an expression container.
#[verifier::opaque]
pub open spec fn rw_jsx_expr(
    c: JSXExprView,
    st: RwState,
    o: Seq<SiteNames>,
) -> Result<(JSXExprView, RwState), CompileError>
    decreases c, 0nat,
{
    match c {
        JSXExprView::JSXEmptyExpr => Ok((c, st)),
        JSXExprView::Expr(e) => match rw_expr(*e, st, o) {
            Err(e) => Err(e),
            Ok((e, st1)) => Ok((JSXExprView::Expr(Box::new(e)), st1)),
        },
    }
}

/// The walk of a child of a markup element.
#[verifier::opaque]
pub open spec fn rw_jsx_child(
    c: JSXElementChildView,
    st: RwState,
    o: Seq<SiteNames>,
) -> Result<(JSXElementChildView, RwState), CompileError>
    decreases c, 0nat,
{
    match c {
        JSXElementChildView::JSXText(_) => Ok((c, st)),
        JSXElementChildView::JSXExprContainer(x) => match rw_jsx_expr(x, st, o) {
            Err(e) => Err(e),
            Ok((x, st1)) => Ok((JSXElementChildView::JSXExprContainer(x), st1)),
        },
        JSXElementChildView::JSXSpreadChild(e) => match rw_expr(*e, st, o) {
            Err(e) => Err(e),
            Ok((e, st1)) => Ok((JSXElementChildView::JSXSpreadChild(Box::new(e)), st1)),
        },
        JSXElementChildView::JSXElement(el) => match rw_jsx_element(*el, st, o) {
            Err(e) => Err(e),
            Ok((el, st1)) => Ok((JSXElementChildView::JSXElement(Box::new(el)), st1)),
        },
        JSXElementChildView::JSXFragment(children) => match rw_jsx_children(
            children,
            0,
            (Seq::empty(), st),
            o,
        ) {
            Err(e) => Err(e),
            Ok((children, st1)) => Ok((JSXElementChildView::JSXFragment(children), st1)),
        },
    }
}

/// The walk of a default-exported declaration. Neither a class nor a
/// function expression opens a scope.
#[verifier::opaque]
pub open spec fn rw_default_decl(
    d: DefaultDeclView,
    st: RwState,
    o: Seq<SiteNames>,
) -> Result<(DefaultDeclView, RwState), CompileError>
    decreases d, 0nat,
{
    match d {
        DefaultDeclView::Class { ident, class } => match rw_nodes(
            class.children,
            0,
            (Seq::empty(), st),
            o,
        ) {
            Err(e) => Err(e),
            Ok((children, st1)) => Ok((
                DefaultDeclView::Class {
                    ident,
                    class: OpaqueView { handle: class.handle, children },
                },
                st1,
            )),
        },
        DefaultDeclView::Fn { ident, function } => match rw_function(function, st, o) {
            Err(e) => Err(e),
            Ok((function, st1)) => Ok((DefaultDeclView::Fn { ident, function }, st1)),
        },
        DefaultDeclView::TsInterfaceDecl => Ok((d, st)),
    }
}

/// The walk of a top-level item.
#[verifier::opaque]
pub open spec fn rw_module_item(
    item: ModuleItemView,
    st: RwState,
    o: Seq<SiteNames>,
) -> Result<(ModuleItemView, RwState), CompileError>
    decreases item, 0nat,
{
    match item {
        ModuleItemView::ExportAll => Ok((item, st)),
        ModuleItemView::ExportDecl(d) => match rw_decl(d, st, o) {
            Err(e) => Err(e),
            Ok((d, st1)) => Ok((ModuleItemView::ExportDecl(d), st1)),
        },
        ModuleItemView::ExportDefaultDecl(d) => match rw_default_decl(d, st, o) {
            Err(e) => Err(e),
            Ok((d, st1)) => Ok((ModuleItemView::ExportDefaultDecl(d), st1)),
        },
        ModuleItemView::ExportDefaultExpr(e) => match rw_expr(e, st, o) {
            Err(e) => Err(e),
            Ok((e, st1)) => Ok((ModuleItemView::ExportDefaultExpr(e), st1)),
        },
        ModuleItemView::Stmt(s) => match rw_stmt(s, st, o) {
            Err(e) => Err(e),
            Ok((s, st1)) => Ok((ModuleItemView::Stmt(s), st1)),
        },
        ModuleItemView::Other(op) => match rw_nodes(op.children, 0, (Seq::empty(), st), o) {
            Err(e) => Err(e),
            Ok((children, st1)) => Ok((
                ModuleItemView::Other(OpaqueView { handle: op.handle, children }),
                st1,
            )),
        },
    }
}

/// The names drawn so far stand at the start of `o`.
pub open spec fn agrees(o: Seq<SiteNames>, drawn: Seq<SiteNames>) -> bool {
    &&& drawn.len() <= o.len()
    &&& forall|i: int| 0 <= i < drawn.len() ==> #[trigger] o[i] == drawn[i]
}

} // verus!
