//! Markup without anything dynamic in it lowers to one literal string.

use crate::ast::view::{
    ExprView, JSXAttrOrSpreadView, JSXAttrValueView, JSXElementChildView, JSXElementView,
    JSXExprView, TplView,
};
use crate::error::CompileError;
use crate::lowering::{
    prop_name_map, shell, spec_child, spec_children, spec_classify, spec_intrinsic_attr,
    spec_intrinsic_attrs, spec_lower_element, spec_transform, ComponentTypeView, LowerCtx,
    LowerState, ProcessedView,
};
use crate::stringify::{
    spec_stringify_jsx_attr_name, spec_stringify_jsx_element_name, stringify_lit,
};
use crate::text::spec_escape_string;
use crate::tpl_wrapper::TplWrapperView;
use vstd::prelude::*;

verus! {

/// Whether an attribute is written out at compile time: it is not `style`
/// and has no value, a literal value or empty braces.
pub open spec fn is_static_attr(a: JSXAttrOrSpreadView) -> bool {
    match a {
        JSXAttrOrSpreadView::SpreadElement { expr, printed } => false,
        JSXAttrOrSpreadView::JSXAttr { name, value } => spec_stringify_jsx_attr_name(name)
            != "style"@ && match value {
            None => true,
            Some(JSXAttrValueView::Lit(_)) => true,
            Some(JSXAttrValueView::JSXExprContainer(JSXExprView::JSXEmptyExpr)) => true,
            _ => false,
        },
    }
}

/// The text of a static attribute: a space, the name and the quoted value.
pub open spec fn attr_text(a: JSXAttrOrSpreadView) -> Seq<char> {
    match a {
        JSXAttrOrSpreadView::SpreadElement { expr, printed } => Seq::empty(),
        JSXAttrOrSpreadView::JSXAttr { name, value } => {
            let head = " "@ + (prop_name_map(spec_stringify_jsx_attr_name(name)) + "=\""@);
            match value {
                Some(JSXAttrValueView::Lit(l)) => head + spec_escape_string(stringify_lit(l))
                    + "\""@,
                Some(JSXAttrValueView::JSXExprContainer(_)) => head + "true"@ + "\""@,
                _ => head + "true\""@,
            }
        },
    }
}

/// Whether the attributes from number `k` on are all static.
pub open spec fn static_attrs_from(attrs: Seq<JSXAttrOrSpreadView>, k: nat) -> bool {
    forall|i: int| k <= i < attrs.len() ==> is_static_attr(#[trigger] attrs[i])
}

/// The text of the attributes from number `k` on, in source order.
pub open spec fn attrs_text_from(attrs: Seq<JSXAttrOrSpreadView>, k: nat) -> Seq<char>
    decreases attrs.len() - k,
{
    if k >= attrs.len() {
        Seq::empty()
    } else {
        attr_text(attrs[k as int]) + attrs_text_from(attrs, k + 1)
    }
}

/// Whether a child is static: text, a literal, empty braces, or a static
/// element or fragment.
pub open spec fn is_static_child(c: JSXElementChildView) -> bool
    decreases c, 0nat,
{
    match c {
        JSXElementChildView::JSXText(_) => true,
        JSXElementChildView::JSXExprContainer(JSXExprView::JSXEmptyExpr) => true,
        JSXElementChildView::JSXExprContainer(JSXExprView::Expr(e)) => *e is Lit,
        JSXElementChildView::JSXSpreadChild(_) => false,
        JSXElementChildView::JSXElement(el) => is_static_element(*el),
        JSXElementChildView::JSXFragment(children) => static_children_from(children, 0),
    }
}

/// Whether the children from number `k` on are all static.
pub open spec fn static_children_from(children: Seq<JSXElementChildView>, k: nat) -> bool
    decreases children, children.len() - k,
{
    if k >= children.len() {
        true
    } else {
        is_static_child(children[k as int]) && static_children_from(children, k + 1)
    }
}

/// Whether an element is static markup: a native tag whose attributes and
/// children are all static.
pub open spec fn is_static_element(el: JSXElementView) -> bool
    decreases el, 0nat,
{
    &&& spec_classify(el.name) is None
    &&& static_attrs_from(el.attrs, 0)
    &&& static_children_from(el.children, 0)
}

/// The text of a static child.
pub open spec fn child_text(c: JSXElementChildView) -> Seq<char>
    decreases c, 0nat,
{
    match c {
        JSXElementChildView::JSXText(s) => s,
        JSXElementChildView::JSXExprContainer(JSXExprView::Expr(e)) => match *e {
            ExprView::Lit(l) => stringify_lit(l),
            _ => Seq::empty(),
        },
        JSXElementChildView::JSXElement(el) => element_html(*el),
        JSXElementChildView::JSXFragment(children) => children_text_from(children, 0),
        _ => Seq::empty(),
    }
}

/// The text of the children from number `k` on, in source order.
pub open spec fn children_text_from(children: Seq<JSXElementChildView>, k: nat) -> Seq<char>
    decreases children, children.len() - k,
{
    if k >= children.len() {
        Seq::empty()
    } else {
        child_text(children[k as int]) + children_text_from(children, k + 1)
    }
}

/// The markup of a static element: `<tag attrs>children</tag>`.
pub open spec fn element_html(el: JSXElementView) -> Seq<char>
    decreases el, 0nat,
{
    let name = spec_stringify_jsx_element_name(el.name);
    "<"@ + name + attrs_text_from(el.attrs, 0) + ">"@ + children_text_from(el.children, 0) + (
    "</"@ + name + ">"@)
}

/// A builder that holds literal text alone: no expression, and at most one
/// run.
pub open spec fn literal_only(t: TplWrapperView) -> bool {
    &&& t.exprs.len() == 0
    &&& (t.quasis.len() == 0 && !t.is_expr_next) || (t.quasis.len() == 1 && t.is_expr_next)
}

/// The text that a literal-only builder holds.
pub open spec fn text_of(t: TplWrapperView) -> Seq<char> {
    if t.quasis.len() == 0 {
        Seq::empty()
    } else {
        t.quasis[0]
    }
}

/// The literal-only builder that holds `text`.
pub open spec fn literal(text: Seq<char>) -> TplWrapperView {
    TplWrapperView { exprs: Seq::empty(), quasis: seq![text], is_expr_next: true }
}

/// Appending text to a literal-only builder extends its text.
pub proof fn lemma_literal_append(t: TplWrapperView, q: Seq<char>)
    requires
        literal_only(t),
    ensures
        t.append_quasi(q) == literal(text_of(t) + q),
{
    if t.quasis.len() == 0 {
        assert(t.append_quasi(q).quasis =~= seq![q]);
        assert(text_of(t) + q =~= q);
    } else {
        assert(t.append_quasi(q).quasis =~= seq![t.quasis[0] + q]);
    }
    assert(t.append_quasi(q).exprs =~= Seq::<ExprView>::empty());
}

/// Appending the pieces of a literal-only builder extends the text by its
/// text.
pub proof fn lemma_literal_pieces(t: TplWrapperView, other: TplWrapperView)
    requires
        literal_only(t),
        literal_only(other),
        other.quasis.len() == 1,
    ensures
        t.append_pieces(other.quasis, other.exprs, 0) == literal(text_of(t) + text_of(other)),
{
    let first = t.append_quasi(other.quasis[0]);
    assert(t.append_pieces(other.quasis, other.exprs, 0) == first.append_pieces(
        other.quasis,
        other.exprs,
        1,
    ));
    assert(first.append_pieces(other.quasis, other.exprs, 1) == first);
    lemma_literal_append(t, other.quasis[0]);
}

/// The template that holds `text` alone.
pub open spec fn literal_tpl(text: Seq<char>) -> TplView {
    TplView { quasis: seq![text], exprs: Seq::empty() }
}

/// Appending a template that holds text alone extends the text.
pub proof fn lemma_literal_splice(t: TplWrapperView, text: Seq<char>)
    requires
        literal_only(t),
    ensures
        t.append_expr(ExprView::Tpl(literal_tpl(text))) == literal(text_of(t) + text),
{
    let tpl = literal_tpl(text);
    let first = t.append_quasi(text);
    assert(t.append_expr(ExprView::Tpl(tpl)) == t.append_pieces(tpl.quasis, tpl.exprs, 0));
    assert(t.append_pieces(tpl.quasis, tpl.exprs, 0) == first.append_pieces(
        tpl.quasis,
        tpl.exprs,
        1,
    ));
    assert(first.append_pieces(tpl.quasis, tpl.exprs, 1) == first);
    lemma_literal_append(t, text);
}

/// Static attributes are written as text: the builder stays literal-only
/// and its text grows by the text of the attributes, in source order.
pub proof fn lemma_static_attrs(
    attrs: Seq<JSXAttrOrSpreadView>,
    k: nat,
    ctx: LowerCtx,
    ids: Seq<Seq<char>>,
    t: TplWrapperView,
    st: LowerState,
)
    requires
        static_attrs_from(attrs, k),
        literal_only(t),
    ensures
        spec_intrinsic_attrs(attrs, k, ctx, ids, (t, st)) matches Ok((t1, st1)) && st1 == st
            && literal_only(t1) && text_of(t1) == text_of(t) + attrs_text_from(attrs, k) && (k
            < attrs.len() ==> t1.quasis.len() == 1),
    decreases attrs.len() - k,
{
    if k >= attrs.len() {
        assert(text_of(t) + attrs_text_from(attrs, k) =~= text_of(t));
    } else {
        let a = attrs[k as int];
        assert(is_static_attr(a));
        let spaced = t.append_quasi(" "@);
        lemma_literal_append(t, " "@);
        match a {
            JSXAttrOrSpreadView::SpreadElement { expr, printed } => {},
            JSXAttrOrSpreadView::JSXAttr { name, value } => {
                let n = spec_stringify_jsx_attr_name(name);
                let named = spaced.append_quasi(prop_name_map(n) + "=\""@);
                lemma_literal_append(spaced, prop_name_map(n) + "=\""@);
                let done = match value {
                    None => {
                        lemma_literal_append(named, "true\""@);
                        named.append_quasi("true\""@)
                    },
                    Some(JSXAttrValueView::Lit(l)) => {
                        let valued = named.append_quasi(spec_escape_string(stringify_lit(l)));
                        lemma_literal_append(named, spec_escape_string(stringify_lit(l)));
                        lemma_literal_append(valued, "\""@);
                        valued.append_quasi("\""@)
                    },
                    _ => {
                        let valued = named.append_quasi("true"@);
                        lemma_literal_append(named, "true"@);
                        lemma_literal_append(valued, "\""@);
                        valued.append_quasi("\""@)
                    },
                };
                assert(spec_intrinsic_attr(a, ctx, ids, (spaced, st)) == Ok::<
                    (TplWrapperView, LowerState),
                    CompileError,
                >((done, st)));
                assert(text_of(done) =~= text_of(t) + attr_text(a));
                lemma_static_attrs(attrs, k + 1, ctx, ids, done, st);
                assert(text_of(t) + attr_text(a) + attrs_text_from(attrs, k + 1) =~= text_of(t)
                    + attrs_text_from(attrs, k));
            },
        }
    }
}

/// Static children are written as text: the builder stays literal-only
/// and its text grows by the text of the children, in source order.
pub proof fn lemma_static_children(
    children: Seq<JSXElementChildView>,
    k: nat,
    ctx: LowerCtx,
    ids: Seq<Seq<char>>,
    t: TplWrapperView,
    st: LowerState,
)
    requires
        static_children_from(children, k),
        literal_only(t),
    ensures
        spec_children(children, k, ctx, ids, (t, st)) matches Ok((t1, st1)) && st1 == st
            && literal_only(t1) && text_of(t1) == text_of(t) + children_text_from(children, k),
    decreases children, children.len() - k,
{
    if k >= children.len() {
        assert(text_of(t) + children_text_from(children, k) =~= text_of(t));
    } else {
        let c = children[k as int];
        lemma_static_child(c, ctx, ids, t, st);
        let t1 = spec_child(c, ctx, ids, (t, st))->Ok_0.0;
        lemma_static_children(children, k + 1, ctx, ids, t1, st);
        assert(text_of(t) + child_text(c) + children_text_from(children, k + 1) =~= text_of(t)
            + children_text_from(children, k));
    }
}

/// A static child is written as text.
pub proof fn lemma_static_child(
    c: JSXElementChildView,
    ctx: LowerCtx,
    ids: Seq<Seq<char>>,
    t: TplWrapperView,
    st: LowerState,
)
    requires
        is_static_child(c),
        literal_only(t),
    ensures
        spec_child(c, ctx, ids, (t, st)) matches Ok((t1, st1)) && st1 == st && literal_only(t1)
            && text_of(t1) == text_of(t) + child_text(c),
    decreases c, 0nat,
{
    match c {
        JSXElementChildView::JSXText(s) => {
            lemma_literal_append(t, s);
        },
        JSXElementChildView::JSXExprContainer(JSXExprView::JSXEmptyExpr) => {
            assert(text_of(t) + child_text(c) =~= text_of(t));
        },
        JSXElementChildView::JSXExprContainer(JSXExprView::Expr(e)) => {
            match *e {
                ExprView::Lit(l) => {
                    lemma_literal_append(t, stringify_lit(l));
                },
                _ => {},
            }
        },
        JSXElementChildView::JSXSpreadChild(_) => {},
        JSXElementChildView::JSXElement(el) => {
            lemma_static_element(*el, ctx, ids, st);
            lemma_literal_splice(t, element_html(*el));
        },
        JSXElementChildView::JSXFragment(children) => {
            lemma_static_children(children, 0, ctx, ids, t, st);
        },
    }
}

/// Static markup lowers to one literal string: a template without
/// expression slots whose single run is `<tag attrs>children</tag>`, with
/// the attributes in source order. Nothing is added to the deferred list.
pub proof fn lemma_static_element(
    el: JSXElementView,
    ctx: LowerCtx,
    ids: Seq<Seq<char>>,
    st: LowerState,
)
    requires
        is_static_element(el),
    ensures
        spec_transform(el, ctx, ids, st) == Ok::<
            ((ExprView, ComponentTypeView), LowerState),
            CompileError,
        >(((ExprView::Tpl(literal_tpl(element_html(el))), ComponentTypeView::HTML), st)),
        spec_lower_element(el, ctx, ids, st) == Ok::<(ProcessedView, LowerState), CompileError>(
            (ProcessedView::Sync(ExprView::Tpl(literal_tpl(element_html(el)))), st),
        ),
    decreases el, 0nat,
{
    let name = spec_stringify_jsx_element_name(el.name);
    let empty = TplWrapperView::empty();
    lemma_static_attrs(el.attrs, 0, ctx, ids, empty, st);
    let props = spec_intrinsic_attrs(el.attrs, 0, ctx, ids, (empty, st))->Ok_0.0;
    lemma_static_children(el.children, 0, ctx, ids, empty, st);
    let children = spec_children(el.children, 0, ctx, ids, (empty, st))->Ok_0.0;
    assert(text_of(props) =~= attrs_text_from(el.attrs, 0));
    assert(text_of(children) =~= children_text_from(el.children, 0));

    let s1 = empty.append_quasi("<"@ + name);
    lemma_literal_append(empty, "<"@ + name);
    let s2 = s1.append_pieces(props.quasis, props.exprs, 0);
    if props.quasis.len() == 1 {
        lemma_literal_pieces(s1, props);
    } else {
        assert(s2 == s1);
        assert(text_of(s1) + text_of(props) =~= text_of(s1));
    }
    assert(literal_only(s2) && text_of(s2) =~= text_of(s1) + text_of(props));
    let s3 = s2.append_quasi(">"@);
    lemma_literal_append(s2, ">"@);
    let s4 = s3.append_pieces(children.quasis, children.exprs, 0);
    if children.quasis.len() == 1 {
        lemma_literal_pieces(s3, children);
    } else {
        assert(s4 == s3);
        assert(text_of(s3) + text_of(children) =~= text_of(s3));
    }
    assert(literal_only(s4) && text_of(s4) =~= text_of(s3) + text_of(children));
    let s5 = s4.append_quasi("</"@ + name + ">"@);
    lemma_literal_append(s4, "</"@ + name + ">"@);
    assert(text_of(s5) =~= element_html(el));
    assert(s5.build() == literal_tpl(element_html(el)));
    assert(shell(name, props, children) == literal_tpl(element_html(el)));
}

} // verus!
