//! The walk written out one step at a time:
//! functions, declarations and top-level items.

use crate::ast::view::{
    DeclView, DefaultDeclView, FunctionView, ModuleItemView, OpaqueView, VarDeclView,
    VarDeclaratorView,
};
use crate::inference::{enter_fn_decl, exit_fn_decl, on_binding, pat_name};
use crate::rewriting::{
    RwState, SiteNames, rw_decl, rw_declarator, rw_declarators, rw_default_decl, rw_expr,
    rw_function, rw_module_item, rw_nodes, rw_pat, rw_pats, rw_stmt, rw_stmts,
};
use vstd::prelude::*;

verus! {

/// `rw_function`, written out.
pub proof fn lemma_rw_function(f: FunctionView, st: RwState, o: Seq<SiteNames>)
    ensures
        rw_function(f, st, o) == ({
            match rw_pats(f.params, 0, (Seq::empty(), st), o) {
                Err(e) => Err(e),
                Ok((params, st1)) => match f.body {
                    None => Ok((FunctionView { params, body: None, is_async: f.is_async }, st1)),
                    Some(stmts) => match rw_stmts(stmts, 0, (Seq::empty(), st1), o) {
                        Err(e) => Err(e),
                        Ok((stmts, st2)) => Ok((
                            FunctionView { params, body: Some(stmts), is_async: f.is_async },
                            st2,
                        )),
                    },
                },
            }
        }),
{
    reveal_with_fuel(rw_function, 2);
}

/// `rw_decl`, written out.
pub proof fn lemma_rw_decl(d: DeclView, st: RwState, o: Seq<SiteNames>)
    ensures
        rw_decl(d, st, o) == ({
            match d {
                DeclView::Class { ident, class } => match rw_nodes(
                    class.children,
                    0,
                    (Seq::empty(), st),
                    o,
                ) {
                    Err(e) => Err(e),
                    Ok((children, st1)) => Ok((
                        DeclView::Class {
                            ident,
                            class: OpaqueView { handle: class.handle, children },
                        },
                        st1,
                    )),
                },
                DeclView::Fn { ident, function } => match rw_function(
                    function,
                    st.with_tc(enter_fn_decl(st.tc)),
                    o,
                ) {
                    Err(e) => Err(e),
                    Ok((rewritten, st1)) => Ok((
                        DeclView::Fn { ident, function: rewritten },
                        st1.with_tc(exit_fn_decl(st1.tc, ident, function.body, function.is_async)),
                    )),
                },
                DeclView::Var(v) => match rw_declarators(v.decls, 0, (Seq::empty(), st), o) {
                    Err(e) => Err(e),
                    Ok((decls, st1)) => Ok((
                        DeclView::Var(VarDeclView { kind: v.kind, decls }),
                        st1,
                    )),
                },
                DeclView::Other(op) => match rw_nodes(op.children, 0, (Seq::empty(), st), o) {
                    Err(e) => Err(e),
                    Ok((children, st1)) => Ok((
                        DeclView::Other(OpaqueView { handle: op.handle, children }),
                        st1,
                    )),
                },
            }
        }),
{
    reveal_with_fuel(rw_decl, 2);
    reveal_with_fuel(rw_function, 2);
}

/// `rw_declarator`, written out.
pub proof fn lemma_rw_declarator(d: VarDeclaratorView, st: RwState, o: Seq<SiteNames>)
    ensures
        rw_declarator(d, st, o) == ({
            match d.init {
                None => match rw_pat(d.name, st, o) {
                    Err(e) => Err(e),
                    Ok((name, st1)) => Ok((VarDeclaratorView { name, init: None }, st1)),
                },
                Some(init) => match rw_pat(
                    d.name,
                    st.with_tc(on_binding(st.tc, pat_name(d.name), init)),
                    o,
                ) {
                    Err(e) => Err(e),
                    Ok((name, st1)) => match rw_expr(init, st1, o) {
                        Err(e) => Err(e),
                        Ok((init, st2)) => Ok((VarDeclaratorView { name, init: Some(init) }, st2)),
                    },
                },
            }
        }),
{
    reveal_with_fuel(rw_declarator, 2);
}

/// `rw_default_decl`, written out.
pub proof fn lemma_rw_default_decl(d: DefaultDeclView, st: RwState, o: Seq<SiteNames>)
    ensures
        rw_default_decl(d, st, o) == ({
            match d {
                DefaultDeclView::Class { ident, class } => match rw_nodes(
                    class.children,
                    0,
                    (Seq::empty(), st),
                    o,
                ) {
                    Err(e) => Err(e),
                    Ok((children, st1)) => Ok((
                        DefaultDeclView::Class {
                            ident,
                            class: OpaqueView { handle: class.handle, children },
                        },
                        st1,
                    )),
                },
                DefaultDeclView::Fn { ident, function } => match rw_function(function, st, o) {
                    Err(e) => Err(e),
                    Ok((function, st1)) => Ok((DefaultDeclView::Fn { ident, function }, st1)),
                },
                DefaultDeclView::TsInterfaceDecl => Ok((d, st)),
            }
        }),
{
    reveal(rw_default_decl);
    reveal_with_fuel(rw_function, 2);
}

/// `rw_module_item`, written out.
pub proof fn lemma_rw_module_item(item: ModuleItemView, st: RwState, o: Seq<SiteNames>)
    ensures
        rw_module_item(item, st, o) == ({
            match item {
                ModuleItemView::ExportAll => Ok((item, st)),
                ModuleItemView::ExportDecl(d) => match rw_decl(d, st, o) {
                    Err(e) => Err(e),
                    Ok((d, st1)) => Ok((ModuleItemView::ExportDecl(d), st1)),
                },
                ModuleItemView::ExportDefaultDecl(d) => match rw_default_decl(d, st, o) {
                    Err(e) => Err(e),
                    Ok((d, st1)) => Ok((ModuleItemView::ExportDefaultDecl(d), st1)),
                },
                ModuleItemView::ExportDefaultExpr(e) => match rw_expr(e, st, o) {
                    Err(e) => Err(e),
                    Ok((e, st1)) => Ok((ModuleItemView::ExportDefaultExpr(e), st1)),
                },
                ModuleItemView::Stmt(s) => match rw_stmt(s, st, o) {
                    Err(e) => Err(e),
                    Ok((s, st1)) => Ok((ModuleItemView::Stmt(s), st1)),
                },
                ModuleItemView::Other(op) => match rw_nodes(op.children, 0, (Seq::empty(), st), o) {
                    Err(e) => Err(e),
                    Ok((children, st1)) => Ok((
                        ModuleItemView::Other(OpaqueView { handle: op.handle, children }),
                        st1,
                    )),
                },
            }
        }),
{
    reveal(rw_module_item);
    reveal_with_fuel(rw_decl, 2);
    reveal(rw_default_decl);
}

} // verus!
