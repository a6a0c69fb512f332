//! The walk written out one step at a time:
//! sequences of declarators, attributes, children and top-level items.

use crate::ast::view::{
    JSXAttrOrSpreadView, JSXElementChildView, ModuleItemView, VarDeclaratorView,
};
use crate::rewriting::{
    RwState, SiteNames, rw_declarator, rw_declarators, rw_jsx_attr, rw_jsx_attrs, rw_jsx_child,
    rw_jsx_children, rw_module_item, rw_module_items,
};
use vstd::prelude::*;

verus! {

/// `rw_declarators`, written out.
pub proof fn lemma_rw_declarators(
    s: Seq<VarDeclaratorView>,
    k: nat,
    acc: (Seq<VarDeclaratorView>, RwState),
    o: Seq<SiteNames>,
)
    ensures
        rw_declarators(s, k, acc, o) == ({
            if k >= s.len() {
                Ok(acc)
            } else {
                match rw_declarator(s[k as int], acc.1, o) {
                    Err(e) => Err(e),
                    Ok((x, st)) => rw_declarators(s, k + 1, (acc.0.push(x), st), o),
                }
            }
        }),
{
    reveal_with_fuel(rw_declarators, 2);
}

/// `rw_jsx_attrs`, written out.
pub proof fn lemma_rw_jsx_attrs(
    s: Seq<JSXAttrOrSpreadView>,
    k: nat,
    acc: (Seq<JSXAttrOrSpreadView>, RwState),
    o: Seq<SiteNames>,
)
    ensures
        rw_jsx_attrs(s, k, acc, o) == ({
            if k >= s.len() {
                Ok(acc)
            } else {
                match rw_jsx_attr(s[k as int], acc.1, o) {
                    Err(e) => Err(e),
                    Ok((x, st)) => rw_jsx_attrs(s, k + 1, (acc.0.push(x), st), o),
                }
            }
        }),
{
    reveal_with_fuel(rw_jsx_attrs, 2);
}

/// `rw_jsx_children`, written out.
pub proof fn lemma_rw_jsx_children(
    s: Seq<JSXElementChildView>,
    k: nat,
    acc: (Seq<JSXElementChildView>, RwState),
    o: Seq<SiteNames>,
)
    ensures
        rw_jsx_children(s, k, acc, o) == ({
            if k >= s.len() {
                Ok(acc)
            } else {
                match rw_jsx_child(s[k as int], acc.1, o) {
                    Err(e) => Err(e),
                    Ok((x, st)) => rw_jsx_children(s, k + 1, (acc.0.push(x), st), o),
                }
            }
        }),
{
    reveal_with_fuel(rw_jsx_children, 2);
}

/// `rw_module_items`, written out.
pub proof fn lemma_rw_module_items(
    s: Seq<ModuleItemView>,
    k: nat,
    acc: (Seq<ModuleItemView>, RwState),
    o: Seq<SiteNames>,
)
    ensures
        rw_module_items(s, k, acc, o) == ({
            if k >= s.len() {
                Ok(acc)
            } else {
                match rw_module_item(s[k as int], acc.1, o) {
                    Err(e) => Err(e),
                    Ok((x, st)) => rw_module_items(s, k + 1, (acc.0.push(x), st), o),
                }
            }
        }),
{
    reveal_with_fuel(rw_module_items, 2);
}

} // verus!
