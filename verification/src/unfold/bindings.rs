//! The walk written out one step at a time:
//! patterns, opaque children and statements.

use crate::ast::view::{NodeView, OpaqueView, PatView, StmtView};
use crate::inference::on_return;
use crate::rewriting::{
    RwState, SiteNames, rw_decl, rw_expr, rw_node, rw_nodes, rw_opt_pat, rw_opt_pats, rw_pat,
    rw_stmt,
};
use vstd::prelude::*;

verus! {

/// `rw_pat`, written out.
pub proof fn lemma_rw_pat(p: PatView, st: RwState, o: Seq<SiteNames>)
    ensures
        rw_pat(p, st, o) == ({
            match p {
                PatView::Ident(_) => Ok((p, st)),
                PatView::Array(elems) => match rw_opt_pats(elems, 0, (Seq::empty(), st), o) {
                    Err(e) => Err(e),
                    Ok((elems, st1)) => Ok((PatView::Array(elems), st1)),
                },
                PatView::Other(op) => match rw_nodes(op.children, 0, (Seq::empty(), st), o) {
                    Err(e) => Err(e),
                    Ok((children, st1)) => Ok((
                        PatView::Other(OpaqueView { handle: op.handle, children }),
                        st1,
                    )),
                },
            }
        }),
{
    reveal_with_fuel(rw_pat, 2);
}

/// `rw_opt_pat`, written out.
pub proof fn lemma_rw_opt_pat(p: Option<PatView>, st: RwState, o: Seq<SiteNames>)
    ensures
        rw_opt_pat(p, st, o) == ({
            match p {
                None => Ok((p, st)),
                Some(x) => match rw_pat(x, st, o) {
                    Err(e) => Err(e),
                    Ok((x, st1)) => Ok((Some(x), st1)),
                },
            }
        }),
{
    reveal_with_fuel(rw_opt_pat, 2);
    reveal_with_fuel(rw_pat, 2);
}

/// `rw_node`, written out.
pub proof fn lemma_rw_node(n: NodeView, st: RwState, o: Seq<SiteNames>)
    ensures
        rw_node(n, st, o) == ({
            match n {
                NodeView::Expr(e) => match rw_expr(e, st, o) {
                    Err(e) => Err(e),
                    Ok((e, st1)) => Ok((NodeView::Expr(e), st1)),
                },
                NodeView::Stmt(s) => match rw_stmt(s, st, o) {
                    Err(e) => Err(e),
                    Ok((s, st1)) => Ok((NodeView::Stmt(s), st1)),
                },
                NodeView::Pat(p) => match rw_pat(p, st, o) {
                    Err(e) => Err(e),
                    Ok((p, st1)) => Ok((NodeView::Pat(p), st1)),
                },
            }
        }),
{
    reveal_with_fuel(rw_node, 2);
    reveal_with_fuel(rw_pat, 2);
    reveal_with_fuel(rw_stmt, 2);
}

/// `rw_stmt`, written out.
pub proof fn lemma_rw_stmt(s: StmtView, st: RwState, o: Seq<SiteNames>)
    ensures
        rw_stmt(s, st, o) == ({
            match s {
                StmtView::Return(arg) => match arg {
                    None => Ok((s, st)),
                    Some(e) => match rw_expr(e, st.with_tc(on_return(st.tc, arg)), o) {
                        Err(e) => Err(e),
                        Ok((e, st1)) => Ok((StmtView::Return(Some(e)), st1)),
                    },
                },
                StmtView::Decl(d) => match rw_decl(d, st, o) {
                    Err(e) => Err(e),
                    Ok((d, st1)) => Ok((StmtView::Decl(d), st1)),
                },
                StmtView::Expr(e) => match rw_expr(e, st, o) {
                    Err(e) => Err(e),
                    Ok((e, st1)) => Ok((StmtView::Expr(e), st1)),
                },
                StmtView::Other(op) => match rw_nodes(op.children, 0, (Seq::empty(), st), o) {
                    Err(e) => Err(e),
                    Ok((children, st1)) => Ok((
                        StmtView::Other(OpaqueView { handle: op.handle, children }),
                        st1,
                    )),
                },
            }
        }),
{
    reveal_with_fuel(rw_stmt, 2);
}

} // verus!
