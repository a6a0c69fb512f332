//! The walk written out one step at a time:
//! sequences of patterns, opaque children and statements.

use crate::ast::view::{NodeView, PatView, StmtView};
use crate::rewriting::{
    RwState, SiteNames, rw_node, rw_nodes, rw_opt_pat, rw_opt_pats, rw_pat, rw_pats, rw_stmt,
    rw_stmts,
};
use vstd::prelude::*;

verus! {

/// `rw_pats`, written out.
pub proof fn lemma_rw_pats(s: Seq<PatView>, k: nat, acc: (Seq<PatView>, RwState), o: Seq<SiteNames>)
    ensures
        rw_pats(s, k, acc, o) == ({
            if k >= s.len() {
                Ok(acc)
            } else {
                match rw_pat(s[k as int], acc.1, o) {
                    Err(e) => Err(e),
                    Ok((x, st)) => rw_pats(s, k + 1, (acc.0.push(x), st), o),
                }
            }
        }),
{
    reveal_with_fuel(rw_pats, 2);
}

/// `rw_opt_pats`, written out.
pub proof fn lemma_rw_opt_pats(
    s: Seq<Option<PatView>>,
    k: nat,
    acc: (Seq<Option<PatView>>, RwState),
    o: Seq<SiteNames>,
)
    ensures
        rw_opt_pats(s, k, acc, o) == ({
            if k >= s.len() {
                Ok(acc)
            } else {
                match rw_opt_pat(s[k as int], acc.1, o) {
                    Err(e) => Err(e),
                    Ok((x, st)) => rw_opt_pats(s, k + 1, (acc.0.push(x), st), o),
                }
            }
        }),
{
    reveal_with_fuel(rw_opt_pats, 2);
}

/// `rw_nodes`, written out.
pub proof fn lemma_rw_nodes(
    s: Seq<NodeView>,
    k: nat,
    acc: (Seq<NodeView>, RwState),
    o: Seq<SiteNames>,
)
    ensures
        rw_nodes(s, k, acc, o) == ({
            if k >= s.len() {
                Ok(acc)
            } else {
                match rw_node(s[k as int], acc.1, o) {
                    Err(e) => Err(e),
                    Ok((x, st)) => rw_nodes(s, k + 1, (acc.0.push(x), st), o),
                }
            }
        }),
{
    reveal_with_fuel(rw_nodes, 2);
}

/// `rw_stmts`, written out.
pub proof fn lemma_rw_stmts(
    s: Seq<StmtView>,
    k: nat,
    acc: (Seq<StmtView>, RwState),
    o: Seq<SiteNames>,
)
    ensures
        rw_stmts(s, k, acc, o) == ({
            if k >= s.len() {
                Ok(acc)
            } else {
                match rw_stmt(s[k as int], acc.1, o) {
                    Err(e) => Err(e),
                    Ok((x, st)) => rw_stmts(s, k + 1, (acc.0.push(x), st), o),
                }
            }
        }),
{
    reveal_with_fuel(rw_stmts, 2);
}

} // verus!
