//! The walk written out one step at a time:
//! expressions and arrow functions.

use crate::ast::view::{
    ArrowExprView, AssignTargetView, BlockStmtOrExprView, CalleeView, ExprView, ObjectLitView,
    OpaqueView, TplView,
};
use crate::inference::{arrow_return_type, enter_arrow, exit_arrow, on_binding, target_name};
use crate::rewriting::{
    RwState, SiteNames, rw_args, rw_arrow, rw_arrow_body, rw_callee, rw_elems, rw_expr, rw_exprs,
    rw_jsx_children, rw_jsx_element, rw_nodes, rw_pats, rw_props, rw_site, rw_stmts, rw_target,
};
use vstd::prelude::*;

verus! {

/// `rw_expr`, written out.
pub proof fn lemma_rw_expr(e: ExprView, st: RwState, o: Seq<SiteNames>)
    ensures
        rw_expr(e, st, o) == ({
            match e {
                ExprView::Lit(_) => Ok((e, st)),
                ExprView::Ident(_) => Ok((e, st)),
                ExprView::Tpl(t) => match rw_exprs(t.exprs, 0, (Seq::empty(), st), o) {
                    Err(e) => Err(e),
                    Ok((exprs, st1)) => Ok((
                        ExprView::Tpl(TplView { quasis: t.quasis, exprs }),
                        st1,
                    )),
                },
                ExprView::Array(elems) => match rw_elems(elems, 0, (Seq::empty(), st), o) {
                    Err(e) => Err(e),
                    Ok((elems, st1)) => Ok((ExprView::Array(elems), st1)),
                },
                ExprView::Object(obj) => match rw_props(obj.props, 0, (Seq::empty(), st), o) {
                    Err(e) => Err(e),
                    Ok((props, st1)) => Ok((ExprView::Object(ObjectLitView { props }), st1)),
                },
                ExprView::Call { callee, args } => match rw_callee(callee, st, o) {
                    Err(e) => Err(e),
                    Ok((callee, st1)) => match rw_args(args, 0, (Seq::empty(), st1), o) {
                        Err(e) => Err(e),
                        Ok((args, st2)) => Ok((ExprView::Call { callee, args }, st2)),
                    },
                },
                ExprView::Member { obj, prop } => match rw_expr(*obj, st, o) {
                    Err(e) => Err(e),
                    Ok((obj, st1)) => Ok((ExprView::Member { obj: Box::new(obj), prop }, st1)),
                },
                ExprView::Await(arg) => match rw_expr(*arg, st, o) {
                    Err(e) => Err(e),
                    Ok((arg, st1)) => Ok((ExprView::Await(Box::new(arg)), st1)),
                },
                ExprView::Arrow(a) => match rw_arrow(a, st, o) {
                    Err(e) => Err(e),
                    Ok((a, st1)) => Ok((ExprView::Arrow(a), st1)),
                },
                ExprView::Paren(inner) => match rw_expr(*inner, st, o) {
                    Err(e) => Err(e),
                    Ok((inner, st1)) => Ok((ExprView::Paren(Box::new(inner)), st1)),
                },
                ExprView::Cond { test, cons, alt } => match rw_expr(*test, st, o) {
                    Err(e) => Err(e),
                    Ok((test, st1)) => match rw_expr(*cons, st1, o) {
                        Err(e) => Err(e),
                        Ok((cons, st2)) => match rw_expr(*alt, st2, o) {
                            Err(e) => Err(e),
                            Ok((alt, st3)) => Ok((
                                ExprView::Cond {
                                    test: Box::new(test),
                                    cons: Box::new(cons),
                                    alt: Box::new(alt),
                                },
                                st3,
                            )),
                        },
                    },
                },
                ExprView::Assign { left, right } => match rw_target(
                    left,
                    st.with_tc(on_binding(st.tc, target_name(left), *right)),
                    o,
                ) {
                    Err(e) => Err(e),
                    Ok((left, st1)) => match rw_expr(*right, st1, o) {
                        Err(e) => Err(e),
                        Ok((right, st2)) => Ok((
                            ExprView::Assign { left, right: Box::new(right) },
                            st2,
                        )),
                    },
                },
                ExprView::JSXElement(el) => match rw_jsx_element(*el, st, o) {
                    Err(e) => Err(e),
                    Ok((el, st1)) => rw_site(el, st1, o),
                },
                ExprView::JSXFragment(children) => match rw_jsx_children(
                    children,
                    0,
                    (Seq::empty(), st),
                    o,
                ) {
                    Err(e) => Err(e),
                    Ok((children, st1)) => Ok((ExprView::JSXFragment(children), st1)),
                },
                ExprView::Other(op) => match rw_nodes(op.children, 0, (Seq::empty(), st), o) {
                    Err(e) => Err(e),
                    Ok((children, st1)) => Ok((
                        ExprView::Other(OpaqueView { handle: op.handle, children }),
                        st1,
                    )),
                },
            }
        }),
{
    reveal_with_fuel(rw_expr, 2);
    reveal_with_fuel(rw_callee, 2);
    reveal_with_fuel(rw_target, 2);
    reveal_with_fuel(rw_arrow, 2);
}

/// `rw_callee`, written out.
pub proof fn lemma_rw_callee(c: CalleeView, st: RwState, o: Seq<SiteNames>)
    ensures
        rw_callee(c, st, o) == ({
            match c {
                CalleeView::Expr(e) => match rw_expr(*e, st, o) {
                    Err(e) => Err(e),
                    Ok((e, st1)) => Ok((CalleeView::Expr(Box::new(e)), st1)),
                },
                CalleeView::Other => Ok((c, st)),
            }
        }),
{
    reveal_with_fuel(rw_callee, 2);
    reveal_with_fuel(rw_expr, 2);
}

/// `rw_target`, written out.
pub proof fn lemma_rw_target(t: AssignTargetView, st: RwState, o: Seq<SiteNames>)
    ensures
        rw_target(t, st, o) == ({
            match t {
                AssignTargetView::Ident(_) => Ok((t, st)),
                AssignTargetView::Other(op) => match rw_nodes(
                    op.children,
                    0,
                    (Seq::empty(), st),
                    o,
                ) {
                    Err(e) => Err(e),
                    Ok((children, st1)) => Ok((
                        AssignTargetView::Other(OpaqueView { handle: op.handle, children }),
                        st1,
                    )),
                },
            }
        }),
{
    reveal_with_fuel(rw_target, 2);
}

/// `rw_arrow`, written out.
pub proof fn lemma_rw_arrow(a: ArrowExprView, st: RwState, o: Seq<SiteNames>)
    ensures
        rw_arrow(a, st, o) == ({
            let entered = enter_arrow(st.tc);
            let known = arrow_return_type(entered, a.body);
            match rw_pats(a.params, 0, (Seq::empty(), st.with_tc(entered)), o) {
                Err(e) => Err(e),
                Ok((params, st1)) => match rw_arrow_body(a.body, st1, o) {
                    Err(e) => Err(e),
                    Ok((body, st2)) => Ok((
                        ArrowExprView { params, body, is_async: a.is_async },
                        st2.with_tc(exit_arrow(st2.tc, known, a.is_async)),
                    )),
                },
            }
        }),
{
    reveal_with_fuel(rw_arrow, 2);
    reveal_with_fuel(rw_arrow_body, 2);
}

/// `rw_arrow_body`, written out.
pub proof fn lemma_rw_arrow_body(b: BlockStmtOrExprView, st: RwState, o: Seq<SiteNames>)
    ensures
        rw_arrow_body(b, st, o) == ({
            match b {
                BlockStmtOrExprView::Expr(e) => match rw_expr(*e, st, o) {
                    Err(e) => Err(e),
                    Ok((e, st1)) => Ok((BlockStmtOrExprView::Expr(Box::new(e)), st1)),
                },
                BlockStmtOrExprView::BlockStmt(stmts) => match rw_stmts(
                    stmts,
                    0,
                    (Seq::empty(), st),
                    o,
                ) {
                    Err(e) => Err(e),
                    Ok((stmts, st1)) => Ok((BlockStmtOrExprView::BlockStmt(stmts), st1)),
                },
            }
        }),
{
    reveal_with_fuel(rw_arrow_body, 2);
    reveal_with_fuel(rw_expr, 2);
}

} // verus!
