//! Lowering of markup trees: native elements to templates, components to
//! calls, and deferred components to placeholders with an entry in the
//! list of deferred creations.

use crate::ast::expr::{
    Expr, ExprOrSpread, JSXAttrName, JSXAttrOrSpread, JSXAttrValue, JSXElement, JSXElementChild,
    JSXElementName, JSXExpr, JSXMemberExpr, JSXObject, Lit, PropOrSpread,
};
use crate::ast::make::{
    arg, await_expr, call, ident, key_value, lit, lit_bool, lit_str, member, object, spread_prop,
    tpl,
};
use crate::ast::view::{
    expr_or_spreads_view, jsx_attrs_view, jsx_children_view, prop_or_spreads_view, ExprView,
    JSXElementNameView, LitView, PropOrSpreadView,
};
use crate::error::CompileError;
use crate::export_type::ExportType;
use crate::framework::{call_framework_fn, call_framework_stringify, spec_arg};
use crate::lowering::{
    children_expr, component_call, custom_expr, custom_name_text, extends, grows, is_deferred,
    is_deferred_type, join_call, jsx_object_expr, key_value_prop, lemma_extends_earlier,
    lemma_grows_trans, placeholder, prop_name_map, reserved_slot, shell, spec_attr_value,
    spec_child, spec_children, spec_classify, spec_custom_attr_value, spec_custom_prop,
    spec_custom_props, spec_intrinsic_attr, spec_intrinsic_attrs, spec_lower_element, spec_process,
    spec_reserve, spec_style_attr, spec_transform, ComponentTypeView, CustomComponentView,
    LowerCtx, LowerState, ProcessedView,
};
use crate::names::{generate_random_variable_name, is_random_name};
use crate::stringify::{stringify_jsx_attr_name, stringify_jsx_element_name, Stringify};
use crate::style::style_object_to_string;
use crate::style_name::StyleNameCache;
use crate::text::{chars_of, concat, concat3, escape_string, is_uppercase, str_eq};
use crate::tpl_wrapper::{TplWrapper, TplWrapperView};
use crate::typecheck::{spec_get_variable_type, TypecheckerCommon};
use vstd::prelude::*;

verus! {

/// The component that a custom tag names.
#[derive(Debug)]
pub enum CustomComponent {
    Ident(String),
    Member(JSXMemberExpr),
}

/// Whether an element invokes a component or is a native tag.
#[derive(Debug)]
pub enum ComponentType {
    Custom(CustomComponent),
    HTML,
}

/// The id of a placeholder.
pub type ID = String;

/// The list of deferred creations: placeholder ids with the expressions to
/// await, in the order in which their elements open.
pub type ToCreateAsync = Vec<(ID, Expr)>;

/// A lowered element with its classification.
pub type TransformedJSX = (Expr, ComponentType);

/// How a lowered element enters its parent.
#[derive(Debug)]
pub enum Processed {
    Async(String),
    Sync(Expr),
}

/// The lowering pass: the inference state it consults, and the random
/// names drawn so far, one record for every markup expression compiled.
pub struct TranspileVisitor {
    pub typechecker: TypecheckerCommon,
    pub drawn: Ghost<Seq<crate::rewriting::SiteNames>>,
}

/// The mathematical value of a list of deferred creations.
pub open spec fn deferred_view(list: Seq<(String, Expr)>) -> Seq<(Seq<char>, ExprView)> {
    Seq::new(list.len(), |i: int| (list[i].0@, list[i].1@))
}

impl CustomComponent {
    /// The mathematical value.
    pub open spec fn view(&self) -> CustomComponentView {
        match self {
            CustomComponent::Ident(i) => CustomComponentView::Ident(i@),
            CustomComponent::Member(m) => CustomComponentView::Member(m@),
        }
    }

    /// The expression that evaluates to the component: the identifier, or
    /// the member access for a dotted tag.
    pub fn expr(&self) -> (r: Expr)
        ensures
            r@ == custom_expr(self@),
    {
        match self {
            CustomComponent::Ident(i) => ident(i.clone()),
            CustomComponent::Member(e) => jsx_member_expr_to_member_expr(e),
        }
    }
}

impl Stringify for CustomComponent {
    open spec fn spec_stringify(self) -> Seq<char> {
        custom_name_text(self@)
    }

    fn stringify(self) -> (r: String) {
        match self {
            CustomComponent::Ident(i) => i,
            CustomComponent::Member(m) => crate::stringify::stringify_jsx_member_expr(m),
        }
    }
}

impl ComponentType {
    /// The mathematical value.
    pub open spec fn view(&self) -> ComponentTypeView {
        match self {
            ComponentType::Custom(c) => ComponentTypeView::Custom(c@),
            ComponentType::HTML => ComponentTypeView::HTML,
        }
    }
}

impl Processed {
    /// The mathematical value.
    pub open spec fn view(&self) -> ProcessedView {
        match self {
            Processed::Async(div) => ProcessedView::Async(div@),
            Processed::Sync(e) => ProcessedView::Sync(e@),
        }
    }
}

impl TranspileVisitor {
    /// What lowering reads from the pass.
    pub open spec fn ctx(&self) -> LowerCtx {
        LowerCtx {
            scopes: self.typechecker@.scopes,
            later_create_ident: self.typechecker@.later_create_ident,
        }
    }

    /// A pass in its initial state, with a fresh name for the collector of
    /// deferred work.
    pub fn new() -> (r: TranspileVisitor)
        ensures
            is_random_name(r.typechecker@.later_create_ident, 16),
            r.typechecker@ == crate::typecheck::TypecheckerView::initial(
                r.typechecker@.later_create_ident,
            ),
            r.drawn@.len() == 0,
    {
        TranspileVisitor { typechecker: TypecheckerCommon::new(), drawn: Ghost(Seq::empty()) }
    }
}

fn jsx_object_to_expr(o: &JSXObject) -> (r: Expr)
    ensures
        r@ == jsx_object_expr(o@),
    decreases o,
{
    match o {
        JSXObject::Ident(i) => ident(i.clone()),
        JSXObject::JSXMemberExpr(m) => member(jsx_object_to_expr(&m.obj), m.prop.clone()),
    }
}

/// The member access `obj.prop` that a dotted tag stands for.
pub fn jsx_member_expr_to_member_expr(e: &JSXMemberExpr) -> (r: Expr)
    ensures
        r@ == custom_expr(CustomComponentView::Member(e@)),
{
    member(jsx_object_to_expr(&e.obj), e.prop.clone())
}

fn clone_jsx_object(o: &JSXObject) -> (r: JSXObject)
    ensures
        r@ == o@,
    decreases o,
{
    match o {
        JSXObject::Ident(i) => JSXObject::Ident(i.clone()),
        JSXObject::JSXMemberExpr(m) => {
            let inner = JSXMemberExpr { obj: clone_jsx_object(&m.obj), prop: m.prop.clone() };
            assert(inner@ == m@);
            JSXObject::JSXMemberExpr(Box::new(inner))
        },
    }
}

fn clone_jsx_member_expr(m: &JSXMemberExpr) -> (r: JSXMemberExpr)
    ensures
        r@ == m@,
{
    JSXMemberExpr { obj: clone_jsx_object(&m.obj), prop: m.prop.clone() }
}

/// The component a tag names, if it names one.
pub fn classify(name: &JSXElementName) -> (r: Option<CustomComponent>)
    ensures
        match spec_classify(name@) {
            Some(c) => r matches Some(got) && got@ == c,
            None => r is None,
        },
{
    match name {
        JSXElementName::Ident(i) => {
            let chars = chars_of(i.as_str());
            if chars.len() > 0 && is_uppercase(chars[0]) {
                Some(CustomComponent::Ident(i.clone()))
            } else {
                None
            }
        },
        JSXElementName::JSXMemberExpr(m) => Some(CustomComponent::Member(clone_jsx_member_expr(m))),
        JSXElementName::JSXNamespacedName(_) => None,
    }
}

/// The output name of an attribute: `className` becomes `class`.
pub fn map_prop_name(name: String) -> (r: String)
    ensures
        r@ == prop_name_map(name@),
{
    if str_eq(name.as_str(), "className") {
        String::from_str("class")
    } else {
        name
    }
}

/// Whether the component with the name `text` is created after the first
/// flush.
fn is_deferred_name(v: &TranspileVisitor, text: &str) -> (r: bool)
    ensures
        r == is_deferred_type(spec_get_variable_type(v.ctx().scopes, text@)),
{
    match v.typechecker.get_variable_type(text) {
        None => true,
        Some(ExportType::JSX) => false,
        Some(_) => true,
    }
}

/// Whether the element with the tag `name` is a deferred component.
pub open spec fn needs_slot(name: JSXElementNameView, ctx: LowerCtx) -> bool {
    match spec_classify(name) {
        Some(c) => is_deferred(ctx, c),
        None => false,
    }
}

/// Whether the element with the tag `name` is a deferred component.
pub fn is_deferred_element(v: &TranspileVisitor, name: &JSXElementName) -> (r: bool)
    ensures
        r == needs_slot(name@, v.ctx()),
{
    match classify(name) {
        Some(c) => {
            let text = c.stringify();
            is_deferred_name(v, text.as_str())
        },
        None => false,
    }
}

/// Reserves the next entry of the deferred list under the id `id`.
pub fn reserve_with_id(to_create: &mut ToCreateAsync, id: String) -> (at: usize)
    ensures
        at == old(to_create)@.len(),
        final(to_create)@.len() == at + 1,
        final(to_create)@[at as int].0 == id,
        deferred_view(final(to_create)@) == deferred_view(old(to_create)@).push(
            (id@, reserved_slot()),
        ),
{
    let at = to_create.len();
    let reserved = lit(Lit::Null);
    to_create.push((id, reserved));
    assert(deferred_view(to_create@) =~= deferred_view(old(to_create)@).push(
        (id@, reserved_slot()),
    ));
    at
}

/// Reserves an entry of the deferred list for the element with the tag
/// `name` if it is a deferred component, under a fresh id, and returns the
/// index of the entry.
pub fn reserve_deferred(
    v: &TranspileVisitor,
    name: &JSXElementName,
    to_create: &mut ToCreateAsync,
) -> (slot: Option<usize>)
    ensures
        slot is Some == needs_slot(name@, v.ctx()),
        slot matches Some(at) ==> {
            &&& at == old(to_create)@.len()
            &&& final(to_create)@.len() == at + 1
            &&& is_random_name(final(to_create)@[at as int].0@, 12)
            &&& deferred_view(final(to_create)@) == deferred_view(old(to_create)@).push(
                (final(to_create)@[at as int].0@, reserved_slot()),
            )
        },
        slot is None ==> final(to_create)@ == old(to_create)@,
{
    if is_deferred_element(v, name) {
        let id = generate_random_variable_name(12);
        Some(reserve_with_id(to_create, id))
    } else {
        None
    }
}

/// The index of a reserved entry as a natural number.
pub open spec fn slot_view(slot: Option<usize>) -> Option<nat> {
    match slot {
        Some(at) => Some(at as nat),
        None => None,
    }
}

/// The placeholder markup for the id `id`.
fn placeholder_markup(id: &str) -> (r: String)
    ensures
        r@ == placeholder(id@),
{
    concat3("<div id=\"", id, "\"></div>")
}

/// Whether `slot` names an entry of a deferred list with `len` entries.
pub open spec fn slot_usable(slot: Option<usize>, len: nat) -> bool {
    slot matches Some(at) && at < len
}

/// Whether processing has to append an entry of its own: the component is
/// deferred and `slot` names no entry that was reserved for it.
pub open spec fn appends_entry(
    custom: ComponentTypeView,
    ctx: LowerCtx,
    slot: Option<usize>,
    len: nat,
) -> bool {
    custom matches ComponentTypeView::Custom(c) && is_deferred(ctx, c) && !slot_usable(slot, len)
}

/// Decides how a lowered element enters its parent. A native element is
/// handed on as it is; a component that is not deferred is wrapped in the
/// runtime stringify call; a deferred component fills the entry reserved
/// for it at `slot` and is replaced by a placeholder. Where no entry was
/// reserved for a deferred component, one is appended under a fresh id
/// and filled.
pub fn process_transformed_jsx(
    transformed: TransformedJSX,
    v: &TranspileVisitor,
    to_create: &mut ToCreateAsync,
    slot: Option<usize>,
) -> (r: Processed)
    ensures
        grows(deferred_view(old(to_create)@), deferred_view(final(to_create)@)),
        !appends_entry(transformed.1@, v.ctx(), slot, old(to_create)@.len() as nat) ==> {
            &&& final(to_create)@.len() == old(to_create)@.len()
            &&& (r@, deferred_view(final(to_create)@)) == spec_process(
                (transformed.0@, transformed.1@),
                v.ctx(),
                slot_view(slot),
                deferred_view(old(to_create)@),
            )
        },
        appends_entry(transformed.1@, v.ctx(), slot, old(to_create)@.len() as nat) ==> {
            &&& final(to_create)@.len() == old(to_create)@.len() + 1
            &&& is_random_name(final(to_create)@.last().0@, 12)
            &&& (r@, deferred_view(final(to_create)@)) == spec_process(
                (transformed.0@, transformed.1@),
                v.ctx(),
                Some(old(to_create)@.len() as nat),
                deferred_view(old(to_create)@).push(
                    (final(to_create)@.last().0@, reserved_slot()),
                ),
            )
        },
{
    let (expr, custom) = transformed;
    match custom {
        ComponentType::Custom(name) => {
            let text = name.stringify();
            if !is_deferred_name(v, text.as_str()) {
                Processed::Sync(
                    call_framework_stringify(
                        Box::new(expr),
                        v.typechecker.later_create_ident.clone(),
                    ),
                )
            } else {
                let at = match slot {
                    Some(at) => if at < to_create.len() {
                        at
                    } else {
                        reserve_with_id(to_create, generate_random_variable_name(12))
                    },
                    None => reserve_with_id(to_create, generate_random_variable_name(12)),
                };
                let ghost reserved = deferred_view(to_create@);
                let id = to_create[at].0.clone();
                let div = placeholder_markup(id.as_str());
                let awaited = await_expr(expr);
                to_create.set(at, (id, awaited));
                assert(deferred_view(to_create@) =~= reserved.update(
                    at as int,
                    (reserved[at as int].0, awaited@),
                ));
                Processed::Async(div)
            }
        },
        ComponentType::HTML => Processed::Sync(expr),
    }
}

/// The deferred list and the name cache as the state that lowering
/// threads through.
pub open spec fn state_of(
    to_create: Seq<(String, Expr)>,
    cache: crate::style_name::StyleNameCacheView,
) -> LowerState {
    LowerState { deferred: deferred_view(to_create), cache }
}

/// Whether a step that appends to a builder ended as `expected` says.
pub open spec fn tpl_outcome(
    expected: Result<(TplWrapperView, LowerState), CompileError>,
    r: Result<(), CompileError>,
    tpl: TplWrapperView,
    st: LowerState,
) -> bool {
    match expected {
        Ok((t, s)) => r is Ok && tpl == t && st == s,
        Err(e) => r == Err::<(), CompileError>(e),
    }
}

/// The mathematical value of the value of an attribute, if it has one.
pub open spec fn attr_value_view(
    value: Option<JSXAttrValue>,
) -> Option<crate::ast::view::JSXAttrValueView> {
    match value {
        Some(x) => Some(x@),
        None => None,
    }
}

/// The classification that lowering reports for a tag.
pub open spec fn kind_of(name: JSXElementNameView) -> ComponentTypeView {
    match spec_classify(name) {
        Some(c) => ComponentTypeView::Custom(c),
        None => ComponentTypeView::HTML,
    }
}

/// Lowers a nested element and decides how it enters its parent. Where the
/// element is a deferred component, its entry in the deferred list is
/// reserved before its attributes and children are lowered.
///
/// The ids of reserved entries are drawn at random, so the result is
/// stated for every stream of ids that begins with the ids of the list
/// after the call.
pub fn lower_element(
    v: &TranspileVisitor,
    el: Box<JSXElement>,
    to_create: &mut ToCreateAsync,
    cache: &mut StyleNameCache,
) -> (r: Result<Processed, CompileError>)
    ensures
        grows(deferred_view(old(to_create)@), deferred_view(final(to_create)@)),
        forall|ids: Seq<Seq<char>>| #[trigger]
            extends(ids, deferred_view(final(to_create)@)) ==> match spec_lower_element(
                el@,
                v.ctx(),
                ids,
                state_of(old(to_create)@, old(cache)@),
            ) {
                Ok((p, st)) => r matches Ok(got)
                    && got@ == p
                    && state_of(final(to_create)@, final(cache)@) == st,
                Err(e) => r matches Err(got) && got == e,
            },
    decreases el, 1nat,
{
    let ghost d0 = deferred_view(to_create@);
    let ghost st0 = state_of(to_create@, cache@);
    let ghost elv = el@;
    let slot = reserve_deferred(v, &el.name, to_create);
    let ghost d1 = deferred_view(to_create@);
    let ghost st1 = state_of(to_create@, cache@);
    let ghost slotv: Option<nat> = slot_view(slot);
    assert(grows(d0, d1));
    assert(forall|ids: Seq<Seq<char>>| #[trigger]
        extends(ids, d1) ==> spec_reserve(elv.name, v.ctx(), ids, st0) == (slotv, st1)) by {
        assert forall|ids: Seq<Seq<char>>| #[trigger]
            extends(ids, d1) implies spec_reserve(elv.name, v.ctx(), ids, st0) == (slotv, st1) by {
            if slot is Some {
                assert(ids[d0.len() as int] == d1[d0.len() as int].0);
                assert(d1 =~= d0.push((ids[d0.len() as int], reserved_slot())));
            } else {
                assert(d1 =~= d0);
            }
        }
    }
    match transform(v, el, to_create, cache) {
        Err(e) => {
            proof {
                let d2 = deferred_view(to_create@);
                lemma_grows_trans(d0, d1, d2);
                assert forall|ids: Seq<Seq<char>>| #[trigger]
                    extends(ids, d2) implies
                        (spec_lower_element(elv, v.ctx(), ids, st0) matches Err(x) && x == e) by {
                    lemma_extends_earlier(ids, d1, d2);
                }
            }
            Err(e)
        },
        Ok(t) => {
            let ghost d2 = deferred_view(to_create@);
            let ghost st2 = state_of(to_create@, cache@);
            let ghost tv = (t.0@, t.1@);
            let p = process_transformed_jsx(t, v, to_create, slot);
            proof {
                let d3 = deferred_view(to_create@);
                let st3 = state_of(to_create@, cache@);
                lemma_grows_trans(d0, d1, d2);
                lemma_grows_trans(d0, d2, d3);
                assert forall|ids: Seq<Seq<char>>| #[trigger]
                    extends(ids, d3) implies
                        (spec_lower_element(elv, v.ctx(), ids, st0)
                            == Ok::<(ProcessedView, LowerState), CompileError>((p@, st3))) by {
                    lemma_extends_earlier(ids, d2, d3);
                    lemma_extends_earlier(ids, d1, d2);
                    assert(spec_transform(elv, v.ctx(), ids, st1) == Ok::<
                        ((ExprView, ComponentTypeView), LowerState),
                        CompileError,
                    >((tv, st2)));
                    assert(spec_process(tv, v.ctx(), slotv, d2) == (p@, d3));
                }
            }
            Ok(p)
        },
    }
}

/// Lowers one markup element. A component becomes the call
/// `Component({attributes.., children})`; a native element becomes the
/// template `<name ATTRS>CHILDREN</name>`. Deferred components nested in
/// the element are replaced by placeholders and recorded in `to_create`.
///
/// The result is stated for every stream of ids that begins with the ids
/// of the list after the call.
pub fn transform(
    v: &TranspileVisitor,
    jsx_element: Box<JSXElement>,
    to_create: &mut ToCreateAsync,
    cache: &mut StyleNameCache,
) -> (r: Result<TransformedJSX, CompileError>)
    ensures
        grows(deferred_view(old(to_create)@), deferred_view(final(to_create)@)),
        r matches Ok(t) ==> t.1@ == kind_of(jsx_element@.name),
        r matches Ok(t)
            ==> (t.0@ matches ExprView::Tpl(tv) ==> tv.quasis.len() == tv.exprs.len() + 1),
        forall|ids: Seq<Seq<char>>| #[trigger]
            extends(ids, deferred_view(final(to_create)@)) ==> match spec_transform(
                jsx_element@,
                v.ctx(),
                ids,
                state_of(old(to_create)@, old(cache)@),
            ) {
                Ok((t, st)) => r matches Ok(got)
                    && got.0@ == t.0
                    && got.1@ == t.1
                    && state_of(final(to_create)@, final(cache)@) == st,
                Err(e) => r matches Err(got) && got == e,
            },
    decreases jsx_element, 0nat,
{
    let ghost elv = jsx_element@;
    let ghost d0 = deferred_view(to_create@);
    let ghost st0 = state_of(to_create@, cache@);
    let el = *jsx_element;
    match classify(&el.name) {
        Some(custom) => {
            let ghost c = custom@;
            let mut props = match custom_props(v, el.attrs, to_create, cache) {
                Ok(props) => props,
                Err(e) => {
                    return Err(e);
                },
            };
            let ghost d1 = deferred_view(to_create@);
            let ghost st1 = state_of(to_create@, cache@);
            let ghost props1 = prop_or_spreads_view(props@);
            let mut children = TplWrapper::new();
            match append_children(&mut children, v, el.children, to_create, cache) {
                Ok(()) => {},
                Err(e) => {
                    proof {
                        let d2 = deferred_view(to_create@);
                        lemma_grows_trans(d0, d1, d2);
                        assert forall|ids: Seq<Seq<char>>| #[trigger]
                            extends(ids, d2) implies
                                (spec_transform(elv, v.ctx(), ids, st0) matches Err(x)
                                    && x == e) by {
                            lemma_extends_earlier(ids, d1, d2);
                        }
                    }
                    return Err(e);
                },
            }
            let ghost d2 = deferred_view(to_create@);
            let ghost st2 = state_of(to_create@, cache@);
            let ghost childrenv = children@;
            let expr = if children.exprs.len() == 0 {
                let html = match children.quasis.pop() {
                    Some(q) => q,
                    None => String::new(),
                };
                lit_str(html)
            } else {
                tpl(children.build())
            };
            assert(expr@ == children_expr(childrenv));
            props.push(key_value(String::from_str("children"), expr));
            assert(prop_or_spreads_view(props@) =~= props1.push(
                key_value_prop("children"@, children_expr(childrenv)),
            ));
            let mut args: Vec<ExprOrSpread> = Vec::new();
            args.push(arg(object(props)));
            assert(expr_or_spreads_view(args@) =~= seq![args@[0]@]);
            let called = call(custom.expr(), args);
            assert(called@ == component_call(
                c,
                props1.push(key_value_prop("children"@, children_expr(childrenv))),
            ));
            proof {
                lemma_grows_trans(d0, d1, d2);
                assert forall|ids: Seq<Seq<char>>| #[trigger]
                    extends(ids, d2) implies
                        (spec_transform(elv, v.ctx(), ids, st0) == Ok::<
                            ((ExprView, ComponentTypeView), LowerState),
                            CompileError,
                        >(((called@, ComponentTypeView::Custom(c)), st2))) by {
                    lemma_extends_earlier(ids, d1, d2);
                }
            }
            Ok((called, ComponentType::Custom(custom)))
        },
        None => {
            let mut props = TplWrapper::new();
            match intrinsic_attrs(&mut props, v, el.attrs, to_create, cache) {
                Ok(()) => {},
                Err(e) => {
                    return Err(e);
                },
            }
            let ghost d1 = deferred_view(to_create@);
            let ghost st1 = state_of(to_create@, cache@);
            let ghost propsv = props@;
            let mut children = TplWrapper::new();
            match append_children(&mut children, v, el.children, to_create, cache) {
                Ok(()) => {},
                Err(e) => {
                    proof {
                        let d2 = deferred_view(to_create@);
                        lemma_grows_trans(d0, d1, d2);
                        assert forall|ids: Seq<Seq<char>>| #[trigger]
                            extends(ids, d2) implies
                                (spec_transform(elv, v.ctx(), ids, st0) matches Err(x)
                                    && x == e) by {
                            lemma_extends_earlier(ids, d1, d2);
                        }
                    }
                    return Err(e);
                },
            }
            let ghost d2 = deferred_view(to_create@);
            let ghost st2 = state_of(to_create@, cache@);
            let ghost childrenv = children@;
            let name = stringify_jsx_element_name(el.name);
            let mut whole = TplWrapper::new();
            whole.append_quasi(concat("<", name.as_str()).as_str());
            whole.append_tpl(props);
            whole.append_quasi(">");
            whole.append_tpl(children);
            whole.append_quasi(concat3("</", name.as_str(), ">").as_str());
            let built = whole.build();
            assert(built@ == shell(name@, propsv, childrenv));
            let out = tpl(built);
            proof {
                lemma_grows_trans(d0, d1, d2);
                assert forall|ids: Seq<Seq<char>>| #[trigger]
                    extends(ids, d2) implies
                        (spec_transform(elv, v.ctx(), ids, st0) == Ok::<
                            ((ExprView, ComponentTypeView), LowerState),
                            CompileError,
                        >(((out@, ComponentTypeView::HTML), st2))) by {
                    lemma_extends_earlier(ids, d1, d2);
                }
            }
            Ok((out, ComponentType::HTML))
        },
    }
}

/// Lowers the attributes of a component into the properties of its call.
fn custom_props(
    v: &TranspileVisitor,
    attrs: Vec<JSXAttrOrSpread>,
    to_create: &mut ToCreateAsync,
    cache: &mut StyleNameCache,
) -> (r: Result<Vec<PropOrSpread>, CompileError>)
    ensures
        grows(deferred_view(old(to_create)@), deferred_view(final(to_create)@)),
        forall|ids: Seq<Seq<char>>| #[trigger]
            extends(ids, deferred_view(final(to_create)@)) ==> match spec_custom_props(
                jsx_attrs_view(attrs@),
                0,
                v.ctx(),
                ids,
                (Seq::empty(), state_of(old(to_create)@, old(cache)@)),
            ) {
                Ok((props, st)) => r matches Ok(got)
                    && prop_or_spreads_view(got@) == props
                    && state_of(final(to_create)@, final(cache)@) == st,
                Err(e) => r matches Err(got) && got == e,
            },
    decreases attrs, 0nat,
{
    let ghost d0 = deferred_view(to_create@);
    let ghost st0 = state_of(to_create@, cache@);
    let ghost orig = attrs@;
    let ghost av = jsx_attrs_view(attrs@);
    let ghost start = (Seq::<PropOrSpreadView>::empty(), st0);
    let mut props: Vec<PropOrSpread> = Vec::new();
    assert(prop_or_spreads_view(props@) =~= Seq::<PropOrSpreadView>::empty());
    for attr in it: attrs
        invariant
            it.seq() == orig,
            orig == attrs@,
            av == jsx_attrs_view(orig),
            decreases_to!(attrs => orig),
            start == (Seq::<PropOrSpreadView>::empty(), st0),
            st0 == state_of(old(to_create)@, old(cache)@),
            d0 == deferred_view(old(to_create)@),
            grows(d0, deferred_view(to_create@)),
            forall|ids: Seq<Seq<char>>| #[trigger]
                extends(ids, deferred_view(to_create@)) ==> spec_custom_props(
                    av,
                    it.index() as nat,
                    v.ctx(),
                    ids,
                    (prop_or_spreads_view(props@), state_of(to_create@, cache@)),
                ) == spec_custom_props(av, 0, v.ctx(), ids, start),
    {
        assert(attr == orig[it.index() as int]);
        let ghost k = it.index() as nat;
        let ghost before = deferred_view(to_create@);
        let ghost stb = state_of(to_create@, cache@);
        let ghost pb = prop_or_spreads_view(props@);
        match custom_prop(v, attr, to_create, cache) {
            Ok(prop) => {
                props.push(prop);
                proof {
                    let now = deferred_view(to_create@);
                    lemma_grows_trans(d0, before, now);
                    assert(prop_or_spreads_view(props@) =~= pb.push(prop@));
                    assert forall|ids: Seq<Seq<char>>| #[trigger]
                        extends(ids, now) implies
                            spec_custom_props(
                                av,
                                k + 1,
                                v.ctx(),
                                ids,
                                (prop_or_spreads_view(props@), state_of(to_create@, cache@)),
                            ) == spec_custom_props(av, 0, v.ctx(), ids, start) by {
                        lemma_extends_earlier(ids, before, now);
                        assert(spec_custom_props(av, k, v.ctx(), ids, (pb, stb))
                            == spec_custom_props(av, 0, v.ctx(), ids, start));
                    }
                }
            },
            Err(e) => {
                proof {
                    let now = deferred_view(to_create@);
                    lemma_grows_trans(d0, before, now);
                    assert forall|ids: Seq<Seq<char>>| #[trigger]
                        extends(ids, now) implies
                            (spec_custom_props(av, 0, v.ctx(), ids, start) matches Err(x)
                                && x == e) by {
                        lemma_extends_earlier(ids, before, now);
                        assert(spec_custom_props(av, k, v.ctx(), ids, (pb, stb))
                            == spec_custom_props(av, 0, v.ctx(), ids, start));
                    }
                }
                return Err(e);
            },
        }
    }
    Ok(props)
}

/// Lowers one attribute of a component into a property of its call.
fn custom_prop(
    v: &TranspileVisitor,
    attr: JSXAttrOrSpread,
    to_create: &mut ToCreateAsync,
    cache: &mut StyleNameCache,
) -> (r: Result<PropOrSpread, CompileError>)
    ensures
        grows(deferred_view(old(to_create)@), deferred_view(final(to_create)@)),
        forall|ids: Seq<Seq<char>>| #[trigger]
            extends(ids, deferred_view(final(to_create)@)) ==> match spec_custom_prop(
                attr@,
                v.ctx(),
                ids,
                state_of(old(to_create)@, old(cache)@),
            ) {
                Ok((prop, st)) => r matches Ok(got)
                    && got@ == prop
                    && state_of(final(to_create)@, final(cache)@) == st,
                Err(e) => r matches Err(got) && got == e,
            },
    decreases attr, 0nat,
{
    match attr {
        JSXAttrOrSpread::SpreadElement { expr, printed } => Ok(spread_prop(*expr)),
        JSXAttrOrSpread::JSXAttr { name, value } => {
            let prop_name = match name {
                JSXAttrName::Ident(n) => n,
                JSXAttrName::JSXNamespacedName(_) => {
                    return Err(CompileError::AttrName);
                },
            };
            let key = map_prop_name(prop_name);
            match custom_attr_value(v, value, to_create, cache) {
                Ok(value) => Ok(key_value(key, value)),
                Err(e) => Err(e),
            }
        },
    }
}

/// Lowers the value of an attribute of a component into an expression.
fn custom_attr_value(
    v: &TranspileVisitor,
    value: Option<JSXAttrValue>,
    to_create: &mut ToCreateAsync,
    cache: &mut StyleNameCache,
) -> (r: Result<Expr, CompileError>)
    ensures
        grows(deferred_view(old(to_create)@), deferred_view(final(to_create)@)),
        forall|ids: Seq<Seq<char>>| #[trigger]
            extends(ids, deferred_view(final(to_create)@)) ==> match spec_custom_attr_value(
                attr_value_view(value),
                v.ctx(),
                ids,
                state_of(old(to_create)@, old(cache)@),
            ) {
                Ok((e, st)) => r matches Ok(got)
                    && got@ == e
                    && state_of(final(to_create)@, final(cache)@) == st,
                Err(e) => r matches Err(got) && got == e,
            },
    decreases value, 0nat,
{
    match value {
        None => Ok(lit_bool(true)),
        Some(value) => match value {
            JSXAttrValue::Lit(l) => Ok(lit(l)),
            JSXAttrValue::JSXExprContainer(container) => match container {
                JSXExpr::JSXEmptyExpr => Ok(lit_bool(true)),
                JSXExpr::Expr(expr) => Ok(*expr),
            },
            JSXAttrValue::JSXElement(el) => match lower_element(v, el, to_create, cache) {
                Ok(Processed::Async(div)) => Ok(lit_str(div)),
                Ok(Processed::Sync(transformed)) => Ok(transformed),
                Err(e) => Err(e),
            },
            JSXAttrValue::JSXFragment(frag) => {
                let mut children = TplWrapper::new();
                match append_children(&mut children, v, frag, to_create, cache) {
                    Ok(()) => Ok(tpl(children.build())),
                    Err(e) => Err(e),
                }
            },
        },
    }
}

/// Writes the attributes of a native element into `props`, each after a
/// space.
fn intrinsic_attrs(
    props: &mut TplWrapper,
    v: &TranspileVisitor,
    attrs: Vec<JSXAttrOrSpread>,
    to_create: &mut ToCreateAsync,
    cache: &mut StyleNameCache,
) -> (r: Result<(), CompileError>)
    ensures
        grows(deferred_view(old(to_create)@), deferred_view(final(to_create)@)),
        old(props)@.wf() ==> final(props)@.wf(),
        forall|ids: Seq<Seq<char>>| #[trigger]
            extends(ids, deferred_view(final(to_create)@)) ==> tpl_outcome(
                spec_intrinsic_attrs(
                    jsx_attrs_view(attrs@),
                    0,
                    v.ctx(),
                    ids,
                    (old(props)@, state_of(old(to_create)@, old(cache)@)),
                ),
                r,
                final(props)@,
                state_of(final(to_create)@, final(cache)@),
            ),
    decreases attrs, 0nat,
{
    let ghost d0 = deferred_view(to_create@);
    let ghost orig = attrs@;
    let ghost av = jsx_attrs_view(attrs@);
    let ghost start = (props@, state_of(to_create@, cache@));
    for attr in it: attrs
        invariant
            it.seq() == orig,
            orig == attrs@,
            av == jsx_attrs_view(orig),
            decreases_to!(attrs => orig),
            start == (old(props)@, state_of(old(to_create)@, old(cache)@)),
            d0 == deferred_view(old(to_create)@),
            grows(d0, deferred_view(to_create@)),
            old(props)@.wf() ==> props@.wf(),
            forall|ids: Seq<Seq<char>>| #[trigger]
                extends(ids, deferred_view(to_create@)) ==> spec_intrinsic_attrs(
                    av,
                    it.index() as nat,
                    v.ctx(),
                    ids,
                    (props@, state_of(to_create@, cache@)),
                ) == spec_intrinsic_attrs(av, 0, v.ctx(), ids, start),
    {
        assert(attr == orig[it.index() as int]);
        let ghost k = it.index() as nat;
        let ghost before = deferred_view(to_create@);
        let ghost accb = (props@, state_of(to_create@, cache@));
        props.append_quasi(" ");
        match intrinsic_attr(props, v, attr, to_create, cache) {
            Ok(()) => {
                proof {
                    let now = deferred_view(to_create@);
                    lemma_grows_trans(d0, before, now);
                    assert forall|ids: Seq<Seq<char>>| #[trigger]
                        extends(ids, now) implies
                            spec_intrinsic_attrs(
                                av,
                                k + 1,
                                v.ctx(),
                                ids,
                                (props@, state_of(to_create@, cache@)),
                            ) == spec_intrinsic_attrs(av, 0, v.ctx(), ids, start) by {
                        lemma_extends_earlier(ids, before, now);
                        assert(spec_intrinsic_attrs(av, k, v.ctx(), ids, accb)
                            == spec_intrinsic_attrs(av, 0, v.ctx(), ids, start));
                    }
                }
            },
            Err(e) => {
                proof {
                    let now = deferred_view(to_create@);
                    lemma_grows_trans(d0, before, now);
                    assert forall|ids: Seq<Seq<char>>| #[trigger]
                        extends(ids, now) implies
                            (spec_intrinsic_attrs(av, 0, v.ctx(), ids, start) matches Err(x)
                                && x == e) by {
                        lemma_extends_earlier(ids, before, now);
                        assert(spec_intrinsic_attrs(av, k, v.ctx(), ids, accb)
                            == spec_intrinsic_attrs(av, 0, v.ctx(), ids, start));
                    }
                }
                return Err(e);
            },
        }
    }
    Ok(())
}

/// Writes one attribute of a native element into `props`.
fn intrinsic_attr(
    props: &mut TplWrapper,
    v: &TranspileVisitor,
    attr: JSXAttrOrSpread,
    to_create: &mut ToCreateAsync,
    cache: &mut StyleNameCache,
) -> (r: Result<(), CompileError>)
    ensures
        grows(deferred_view(old(to_create)@), deferred_view(final(to_create)@)),
        old(props)@.wf() ==> final(props)@.wf(),
        forall|ids: Seq<Seq<char>>| #[trigger]
            extends(ids, deferred_view(final(to_create)@)) ==> tpl_outcome(
                spec_intrinsic_attr(
                    attr@,
                    v.ctx(),
                    ids,
                    (old(props)@, state_of(old(to_create)@, old(cache)@)),
                ),
                r,
                final(props)@,
                state_of(final(to_create)@, final(cache)@),
            ),
    decreases attr, 0nat,
{
    match attr {
        JSXAttrOrSpread::SpreadElement { expr, printed } => {
            props.append_quasi("${Object.entries(");
            props.append_quasi(printed.as_str());
            props.append_quasi(
                ").map(([key, value]) => `${key}=\"${value ? (typeof value === 'string' ? value : (value instanceof RegExp ? value.toString() : JSON.stringify(value))).replace(/\"/mg, '\\\\\"') : 'true'}\"`).join(' ')}",
            );
            Ok(())
        },
        JSXAttrOrSpread::JSXAttr { name, value } => {
            let prop_name = stringify_jsx_attr_name(name);
            if str_eq(prop_name.as_str(), "style") {
                return style_attr(props, value, cache);
            }
            let prop_name = map_prop_name(prop_name);
            props.append_quasi(concat(prop_name.as_str(), "=\"").as_str());
            match value {
                None => {
                    props.append_quasi("true\"");
                    Ok(())
                },
                Some(value) => match attr_value(props, v, value, to_create, cache) {
                    Ok(()) => {
                        props.append_quasi("\"");
                        Ok(())
                    },
                    Err(e) => Err(e),
                },
            }
        },
    }
}

/// Writes the `style` attribute of a native element into `props`.
fn style_attr(
    props: &mut TplWrapper,
    value: Option<JSXAttrValue>,
    cache: &mut StyleNameCache,
) -> (r: Result<(), CompileError>)
    ensures
        old(props)@.wf() ==> final(props)@.wf(),
        forall|deferred: Seq<(Seq<char>, ExprView)>|
            tpl_outcome(
                #[trigger] spec_style_attr(
                    attr_value_view(value),
                    (old(props)@, LowerState { deferred, cache: old(cache)@ }),
                ),
                r,
                final(props)@,
                LowerState { deferred, cache: final(cache)@ },
            ),
{
    match value {
        None => Ok(()),
        Some(value) => match value {
            JSXAttrValue::JSXExprContainer(container) => match container {
                JSXExpr::JSXEmptyExpr => Ok(()),
                JSXExpr::Expr(expr) => match *expr {
                    Expr::Object(obj) => match style_object_to_string(obj, cache) {
                        Ok(serialized) => {
                            props.append_quasi("style=\"");
                            props.append_expr(tpl(serialized));
                            props.append_quasi("\"");
                            Ok(())
                        },
                        Err(e) => Err(e),
                    },
                    Expr::Ident(n) => {
                        props.append_quasi("style=\"");
                        let mut args: Vec<ExprOrSpread> = Vec::new();
                        args.push(arg(ident(n)));
                        assert(expr_or_spreads_view(args@) =~= seq![
                            spec_arg(ExprView::Ident(n@)),
                        ]);
                        props.append_expr(
                            call_framework_fn("___FRAMEWORK_JS_STYLE_OBJECT___", args),
                        );
                        props.append_quasi("\"");
                        Ok(())
                    },
                    _ => Err(CompileError::StyleAttrValue),
                },
            },
            _ => Err(CompileError::StyleAttrValue),
        },
    }
}

/// Writes the value of an attribute of a native element into `props`.
fn attr_value(
    props: &mut TplWrapper,
    v: &TranspileVisitor,
    value: JSXAttrValue,
    to_create: &mut ToCreateAsync,
    cache: &mut StyleNameCache,
) -> (r: Result<(), CompileError>)
    ensures
        grows(deferred_view(old(to_create)@), deferred_view(final(to_create)@)),
        old(props)@.wf() ==> final(props)@.wf(),
        forall|ids: Seq<Seq<char>>| #[trigger]
            extends(ids, deferred_view(final(to_create)@)) ==> tpl_outcome(
                spec_attr_value(
                    value@,
                    v.ctx(),
                    ids,
                    (old(props)@, state_of(old(to_create)@, old(cache)@)),
                ),
                r,
                final(props)@,
                state_of(final(to_create)@, final(cache)@),
            ),
    decreases value, 0nat,
{
    match value {
        JSXAttrValue::Lit(l) => {
            let text = escape_string(l.stringify());
            props.append_quasi(text.as_str());
            Ok(())
        },
        JSXAttrValue::JSXExprContainer(container) => match container {
            JSXExpr::JSXEmptyExpr => {
                props.append_quasi("true");
                Ok(())
            },
            JSXExpr::Expr(expr) => {
                props.append_expr(*expr);
                Ok(())
            },
        },
        JSXAttrValue::JSXElement(el) => match lower_element(v, el, to_create, cache) {
            Ok(Processed::Async(div)) => {
                props.append_quasi(div.as_str());
                Ok(())
            },
            Ok(Processed::Sync(transformed)) => {
                props.append_expr(transformed);
                Ok(())
            },
            Err(e) => Err(e),
        },
        JSXAttrValue::JSXFragment(frag) => append_children(props, v, frag, to_create, cache),
    }
}

/// Appends the children of an element or fragment to `tpl` in order.
pub fn append_children(
    tpl: &mut TplWrapper,
    v: &TranspileVisitor,
    children: Vec<JSXElementChild>,
    to_create: &mut ToCreateAsync,
    cache: &mut StyleNameCache,
) -> (r: Result<(), CompileError>)
    ensures
        grows(deferred_view(old(to_create)@), deferred_view(final(to_create)@)),
        old(tpl)@.wf() ==> final(tpl)@.wf(),
        forall|ids: Seq<Seq<char>>| #[trigger]
            extends(ids, deferred_view(final(to_create)@)) ==> tpl_outcome(
                spec_children(
                    jsx_children_view(children@),
                    0,
                    v.ctx(),
                    ids,
                    (old(tpl)@, state_of(old(to_create)@, old(cache)@)),
                ),
                r,
                final(tpl)@,
                state_of(final(to_create)@, final(cache)@),
            ),
    decreases children, 0nat,
{
    let ghost d0 = deferred_view(to_create@);
    let ghost orig = children@;
    let ghost cv = jsx_children_view(children@);
    let ghost start = (tpl@, state_of(to_create@, cache@));
    for child in it: children
        invariant
            it.seq() == orig,
            orig == children@,
            cv == jsx_children_view(orig),
            decreases_to!(children => orig),
            start == (old(tpl)@, state_of(old(to_create)@, old(cache)@)),
            d0 == deferred_view(old(to_create)@),
            grows(d0, deferred_view(to_create@)),
            old(tpl)@.wf() ==> tpl@.wf(),
            forall|ids: Seq<Seq<char>>| #[trigger]
                extends(ids, deferred_view(to_create@)) ==> spec_children(
                    cv,
                    it.index() as nat,
                    v.ctx(),
                    ids,
                    (tpl@, state_of(to_create@, cache@)),
                ) == spec_children(cv, 0, v.ctx(), ids, start),
    {
        assert(child == orig[it.index() as int]);
        let ghost k = it.index() as nat;
        let ghost before = deferred_view(to_create@);
        let ghost accb = (tpl@, state_of(to_create@, cache@));
        match tpl.append_element_child(v, child, to_create, cache) {
            Ok(()) => {
                proof {
                    let now = deferred_view(to_create@);
                    lemma_grows_trans(d0, before, now);
                    assert forall|ids: Seq<Seq<char>>| #[trigger]
                        extends(ids, now) implies
                            spec_children(
                                cv,
                                k + 1,
                                v.ctx(),
                                ids,
                                (tpl@, state_of(to_create@, cache@)),
                            ) == spec_children(cv, 0, v.ctx(), ids, start) by {
                        lemma_extends_earlier(ids, before, now);
                        assert(spec_children(cv, k, v.ctx(), ids, accb) == spec_children(
                            cv,
                            0,
                            v.ctx(),
                            ids,
                            start,
                        ));
                    }
                }
            },
            Err(e) => {
                proof {
                    let now = deferred_view(to_create@);
                    lemma_grows_trans(d0, before, now);
                    assert forall|ids: Seq<Seq<char>>| #[trigger]
                        extends(ids, now) implies
                            (spec_children(cv, 0, v.ctx(), ids, start) matches Err(x)
                                && x == e) by {
                        lemma_extends_earlier(ids, before, now);
                        assert(spec_children(cv, k, v.ctx(), ids, accb) == spec_children(
                            cv,
                            0,
                            v.ctx(),
                            ids,
                            start,
                        ));
                    }
                }
                return Err(e);
            },
        }
    }
    Ok(())
}

impl TplWrapper {
    /// Appends one child of a markup element: text verbatim, a literal as
    /// text, an array joined without commas, any other expression through
    /// the runtime stringify call, a nested element lowered and processed,
    /// a fragment child by child. An object literal is refused.
    pub fn append_element_child(
        &mut self,
        v: &TranspileVisitor,
        element: JSXElementChild,
        to_create: &mut ToCreateAsync,
        cache: &mut StyleNameCache,
    ) -> (r: Result<(), CompileError>)
        ensures
            grows(deferred_view(old(to_create)@), deferred_view(final(to_create)@)),
            old(self)@.wf() ==> final(self)@.wf(),
            forall|ids: Seq<Seq<char>>| #[trigger]
                extends(ids, deferred_view(final(to_create)@)) ==> tpl_outcome(
                    spec_child(
                        element@,
                        v.ctx(),
                        ids,
                        (old(self)@, state_of(old(to_create)@, old(cache)@)),
                    ),
                    r,
                    final(self)@,
                    state_of(final(to_create)@, final(cache)@),
                ),
        decreases element, 0nat,
    {
        match element {
            JSXElementChild::JSXElement(el) => match lower_element(v, el, to_create, cache) {
                Ok(Processed::Async(div)) => {
                    self.append_quasi(div.as_str());
                    Ok(())
                },
                Ok(Processed::Sync(transformed)) => {
                    self.append_expr(transformed);
                    Ok(())
                },
                Err(e) => Err(e),
            },
            JSXElementChild::JSXExprContainer(container) => {
                let expr = match container {
                    JSXExpr::JSXEmptyExpr => {
                        return Ok(());
                    },
                    JSXExpr::Expr(expr) => *expr,
                };
                let ghost ev = expr@;
                assert(element@ == crate::ast::view::JSXElementChildView::JSXExprContainer(
                    crate::ast::view::JSXExprView::Expr(Box::new(ev)),
                ));
                match expr {
                    Expr::Array(elems) => {
                        assert(ev == ExprView::Array(
                            crate::ast::view::opt_expr_or_spreads_view(elems@),
                        ));
                        let mut args: Vec<ExprOrSpread> = Vec::new();
                        args.push(arg(lit_str(String::new())));
                        assert(expr_or_spreads_view(args@) =~= seq![
                            spec_arg(ExprView::Lit(LitView::Str(Seq::empty()))),
                        ]);
                        let joined = call(
                            member(crate::ast::make::array(elems), String::from_str("join")),
                            args,
                        );
                        assert(joined@ == join_call(ev));
                        self.append_expr(joined);
                        Ok(())
                    },
                    Expr::Lit(l) => {
                        assert(ev == ExprView::Lit(l@));
                        self.append_lit(l);
                        Ok(())
                    },
                    Expr::Object(o) => {
                        assert(ev == ExprView::Object(o@));
                        Err(CompileError::ObjectAsChild)
                    },
                    other => {
                        assert(ev == other@);
                        assert(!(ev is Array) && !(ev is Lit) && !(ev is Object));
                        let wrapped = call_framework_stringify(
                            Box::new(other),
                            v.typechecker.later_create_ident.clone(),
                        );
                        self.append_expr(wrapped);
                        Ok(())
                    },
                }
            },
            JSXElementChild::JSXFragment(children) => append_children(
                self,
                v,
                children,
                to_create,
                cache,
            ),
            JSXElementChild::JSXSpreadChild(expr) => {
                self.append_expr(*expr);
                Ok(())
            },
            JSXElementChild::JSXText(text) => {
                self.append_quasi(text.as_str());
                Ok(())
            },
        }
    }
}

} // verus!
