//! The walk written out one step at a time:
//! array elements, arguments and object entries.

use crate::ast::view::{ExprOrSpreadView, OpaqueView, PropNameView, PropOrSpreadView, PropView};
use crate::rewriting::{
    RwState, SiteNames, rw_arg, rw_elem, rw_expr, rw_nodes, rw_prop, rw_prop_name,
};
use vstd::prelude::*;

verus! {

/// `rw_elem`, written out.
pub proof fn lemma_rw_elem(x: Option<ExprOrSpreadView>, st: RwState, o: Seq<SiteNames>)
    ensures
        rw_elem(x, st, o) == ({
            match x {
                None => Ok((x, st)),
                Some(arg) => match rw_arg(arg, st, o) {
                    Err(e) => Err(e),
                    Ok((arg, st1)) => Ok((Some(arg), st1)),
                },
            }
        }),
{
    reveal_with_fuel(rw_elem, 2);
    reveal_with_fuel(rw_arg, 2);
}

/// `rw_arg`, written out.
pub proof fn lemma_rw_arg(x: ExprOrSpreadView, st: RwState, o: Seq<SiteNames>)
    ensures
        rw_arg(x, st, o) == ({
            match rw_expr(x.expr, st, o) {
                Err(e) => Err(e),
                Ok((expr, st1)) => Ok((ExprOrSpreadView { spread: x.spread, expr }, st1)),
            }
        }),
{
    reveal_with_fuel(rw_arg, 2);
}

/// `rw_prop`, written out.
pub proof fn lemma_rw_prop(p: PropOrSpreadView, st: RwState, o: Seq<SiteNames>)
    ensures
        rw_prop(p, st, o) == ({
            match p {
                PropOrSpreadView::Spread(e) => match rw_expr(e, st, o) {
                    Err(e) => Err(e),
                    Ok((e, st1)) => Ok((PropOrSpreadView::Spread(e), st1)),
                },
                PropOrSpreadView::Prop(PropView::Shorthand(_)) => Ok((p, st)),
                PropOrSpreadView::Prop(PropView::KeyValue { key, value }) => match rw_prop_name(
                    key,
                    st,
                    o,
                ) {
                    Err(e) => Err(e),
                    Ok((key, st1)) => match rw_expr(*value, st1, o) {
                        Err(e) => Err(e),
                        Ok((value, st2)) => Ok((
                            PropOrSpreadView::Prop(
                                PropView::KeyValue { key, value: Box::new(value) }
                            ),
                            st2,
                        )),
                    },
                },
                PropOrSpreadView::Prop(PropView::Other(op)) => match rw_nodes(
                    op.children,
                    0,
                    (Seq::empty(), st),
                    o,
                ) {
                    Err(e) => Err(e),
                    Ok((children, st1)) => Ok((
                        PropOrSpreadView::Prop(
                            PropView::Other(OpaqueView { handle: op.handle, children })
                        ),
                        st1,
                    )),
                },
            }
        }),
{
    reveal_with_fuel(rw_prop, 2);
    reveal_with_fuel(rw_prop_name, 2);
}

/// `rw_prop_name`, written out.
pub proof fn lemma_rw_prop_name(n: PropNameView, st: RwState, o: Seq<SiteNames>)
    ensures
        rw_prop_name(n, st, o) == ({
            match n {
                PropNameView::Computed(e) => match rw_expr(*e, st, o) {
                    Err(e) => Err(e),
                    Ok((e, st1)) => Ok((PropNameView::Computed(Box::new(e)), st1)),
                },
                _ => Ok((n, st)),
            }
        }),
{
    reveal_with_fuel(rw_prop_name, 2);
}

} // verus!
