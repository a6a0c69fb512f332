//! The walk written out one step at a time:
//! markup elements, attributes and children.

use crate::ast::view::{
    JSXAttrOrSpreadView, JSXAttrValueView, JSXElementChildView, JSXElementView, JSXExprView,
};
use crate::rewriting::{
    RwState, SiteNames, rw_expr, rw_jsx_attr, rw_jsx_attr_value, rw_jsx_attrs, rw_jsx_child,
    rw_jsx_children, rw_jsx_element, rw_jsx_expr,
};
use vstd::prelude::*;

verus! {

/// `rw_jsx_element`, written out.
pub proof fn lemma_rw_jsx_element(el: JSXElementView, st: RwState, o: Seq<SiteNames>)
    ensures
        rw_jsx_element(el, st, o) == ({
            match rw_jsx_attrs(el.attrs, 0, (Seq::empty(), st), o) {
                Err(e) => Err(e),
                Ok((attrs, st1)) => match rw_jsx_children(el.children, 0, (Seq::empty(), st1), o) {
                    Err(e) => Err(e),
                    Ok((children, st2)) => Ok((
                        JSXElementView { name: el.name, attrs, children },
                        st2,
                    )),
                },
            }
        }),
{
    reveal_with_fuel(rw_jsx_element, 2);
}

/// `rw_jsx_attr`, written out.
pub proof fn lemma_rw_jsx_attr(a: JSXAttrOrSpreadView, st: RwState, o: Seq<SiteNames>)
    ensures
        rw_jsx_attr(a, st, o) == ({
            match a {
                JSXAttrOrSpreadView::SpreadElement { expr, printed } => match rw_expr(
                    *expr,
                    st,
                    o,
                ) {
                    Err(e) => Err(e),
                    Ok((expr, st1)) => Ok((
                        JSXAttrOrSpreadView::SpreadElement { expr: Box::new(expr), printed },
                        st1,
                    )),
                },
                JSXAttrOrSpreadView::JSXAttr { name, value } => match value {
                    None => Ok((a, st)),
                    Some(v) => match rw_jsx_attr_value(v, st, o) {
                        Err(e) => Err(e),
                        Ok((v, st1)) => Ok((
                            JSXAttrOrSpreadView::JSXAttr { name, value: Some(v) },
                            st1,
                        )),
                    },
                },
            }
        }),
{
    reveal_with_fuel(rw_jsx_attr, 2);
    reveal_with_fuel(rw_jsx_attr_value, 2);
}

/// `rw_jsx_attr_value`, written out.
pub proof fn lemma_rw_jsx_attr_value(v: JSXAttrValueView, st: RwState, o: Seq<SiteNames>)
    ensures
        rw_jsx_attr_value(v, st, o) == ({
            match v {
                JSXAttrValueView::Lit(_) => Ok((v, st)),
                JSXAttrValueView::JSXExprContainer(c) => match rw_jsx_expr(c, st, o) {
                    Err(e) => Err(e),
                    Ok((c, st1)) => Ok((JSXAttrValueView::JSXExprContainer(c), st1)),
                },
                JSXAttrValueView::JSXElement(el) => match rw_jsx_element(*el, st, o) {
                    Err(e) => Err(e),
                    Ok((el, st1)) => Ok((JSXAttrValueView::JSXElement(Box::new(el)), st1)),
                },
                JSXAttrValueView::JSXFragment(children) => match rw_jsx_children(
                    children,
                    0,
                    (Seq::empty(), st),
                    o,
                ) {
                    Err(e) => Err(e),
                    Ok((children, st1)) => Ok((JSXAttrValueView::JSXFragment(children), st1)),
                },
            }
        }),
{
    reveal_with_fuel(rw_jsx_attr_value, 2);
    reveal_with_fuel(rw_jsx_element, 2);
    reveal_with_fuel(rw_jsx_expr, 2);
}

/// `rw_jsx_expr`, written out.
pub proof fn lemma_rw_jsx_expr(c: JSXExprView, st: RwState, o: Seq<SiteNames>)
    ensures
        rw_jsx_expr(c, st, o) == ({
            match c {
                JSXExprView::JSXEmptyExpr => Ok((c, st)),
                JSXExprView::Expr(e) => match rw_expr(*e, st, o) {
                    Err(e) => Err(e),
                    Ok((e, st1)) => Ok((JSXExprView::Expr(Box::new(e)), st1)),
                },
            }
        }),
{
    reveal_with_fuel(rw_jsx_expr, 2);
}

/// `rw_jsx_child`, written out.
pub proof fn lemma_rw_jsx_child(c: JSXElementChildView, st: RwState, o: Seq<SiteNames>)
    ensures
        rw_jsx_child(c, st, o) == ({
            match c {
                JSXElementChildView::JSXText(_) => Ok((c, st)),
                JSXElementChildView::JSXExprContainer(x) => match rw_jsx_expr(x, st, o) {
                    Err(e) => Err(e),
                    Ok((x, st1)) => Ok((JSXElementChildView::JSXExprContainer(x), st1)),
                },
                JSXElementChildView::JSXSpreadChild(e) => match rw_expr(*e, st, o) {
                    Err(e) => Err(e),
                    Ok((e, st1)) => Ok((JSXElementChildView::JSXSpreadChild(Box::new(e)), st1)),
                },
                JSXElementChildView::JSXElement(el) => match rw_jsx_element(*el, st, o) {
                    Err(e) => Err(e),
                    Ok((el, st1)) => Ok((JSXElementChildView::JSXElement(Box::new(el)), st1)),
                },
                JSXElementChildView::JSXFragment(children) => match rw_jsx_children(
                    children,
                    0,
                    (Seq::empty(), st),
                    o,
                ) {
                    Err(e) => Err(e),
                    Ok((children, st1)) => Ok((JSXElementChildView::JSXFragment(children), st1)),
                },
            }
        }),
{
    reveal_with_fuel(rw_jsx_child, 2);
    reveal_with_fuel(rw_jsx_element, 2);
    reveal_with_fuel(rw_jsx_expr, 2);
}

} // verus!
