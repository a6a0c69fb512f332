//! The walk written out one step at a time:
//! sequences of expressions, elements, arguments and object entries.

use crate::ast::view::{ExprOrSpreadView, ExprView, PropOrSpreadView};
use crate::rewriting::{
    RwState, SiteNames, rw_arg, rw_args, rw_elem, rw_elems, rw_expr, rw_exprs, rw_prop, rw_props,
};
use vstd::prelude::*;

verus! {

/// `rw_exprs`, written out.
pub proof fn lemma_rw_exprs(
    s: Seq<ExprView>,
    k: nat,
    acc: (Seq<ExprView>, RwState),
    o: Seq<SiteNames>,
)
    ensures
        rw_exprs(s, k, acc, o) == ({
            if k >= s.len() {
                Ok(acc)
            } else {
                match rw_expr(s[k as int], acc.1, o) {
                    Err(e) => Err(e),
                    Ok((x, st)) => rw_exprs(s, k + 1, (acc.0.push(x), st), o),
                }
            }
        }),
{
    reveal_with_fuel(rw_exprs, 2);
}

/// `rw_elems`, written out.
pub proof fn lemma_rw_elems(
    s: Seq<Option<ExprOrSpreadView>>,
    k: nat,
    acc: (Seq<Option<ExprOrSpreadView>>, RwState),
    o: Seq<SiteNames>,
)
    ensures
        rw_elems(s, k, acc, o) == ({
            if k >= s.len() {
                Ok(acc)
            } else {
                match rw_elem(s[k as int], acc.1, o) {
                    Err(e) => Err(e),
                    Ok((x, st)) => rw_elems(s, k + 1, (acc.0.push(x), st), o),
                }
            }
        }),
{
    reveal_with_fuel(rw_elems, 2);
}

/// `rw_args`, written out.
pub proof fn lemma_rw_args(
    s: Seq<ExprOrSpreadView>,
    k: nat,
    acc: (Seq<ExprOrSpreadView>, RwState),
    o: Seq<SiteNames>,
)
    ensures
        rw_args(s, k, acc, o) == ({
            if k >= s.len() {
                Ok(acc)
            } else {
                match rw_arg(s[k as int], acc.1, o) {
                    Err(e) => Err(e),
                    Ok((x, st)) => rw_args(s, k + 1, (acc.0.push(x), st), o),
                }
            }
        }),
{
    reveal_with_fuel(rw_args, 2);
}

/// `rw_props`, written out.
pub proof fn lemma_rw_props(
    s: Seq<PropOrSpreadView>,
    k: nat,
    acc: (Seq<PropOrSpreadView>, RwState),
    o: Seq<SiteNames>,
)
    ensures
        rw_props(s, k, acc, o) == ({
            if k >= s.len() {
                Ok(acc)
            } else {
                match rw_prop(s[k as int], acc.1, o) {
                    Err(e) => Err(e),
                    Ok((x, st)) => rw_props(s, k + 1, (acc.0.push(x), st), o),
                }
            }
        }),
{
    reveal_with_fuel(rw_props, 2);
}

} // verus!
