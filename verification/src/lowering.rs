//! What lowering a markup tree means: the template or call it becomes, and
//! the list of deferred creations it leaves behind.

use crate::ast::view::{
    CalleeView, ExprView, JSXAttrNameView, JSXAttrOrSpreadView, JSXAttrValueView,
    JSXElementChildView, JSXElementNameView, JSXElementView, JSXExprView, JSXMemberExprView,
    JSXObjectView, LitView, ObjectLitView, PropNameView, PropOrSpreadView, PropView, TplView,
};
use crate::error::CompileError;
use crate::export_type::ExportType;
use crate::framework::{spec_arg, spec_call_framework_stringify};
use crate::stringify::{
    spec_stringify_jsx_attr_name, spec_stringify_jsx_element_name, spec_stringify_jsx_member_expr,
    stringify_lit,
};
use crate::style::{spec_style_object_to_string, style_object_call};
use crate::style_name::StyleNameCacheView;
use crate::text::{char_is_uppercase, spec_escape_string};
use crate::tpl_wrapper::TplWrapperView;
use crate::typecheck::spec_get_variable_type;
use vstd::prelude::*;

verus! {

/// What lowering reads from its surroundings: the scope stack of the
/// inference pass and the name of the collector of deferred work.
pub struct LowerCtx {
    pub scopes: Seq<Map<Seq<char>, ExportType>>,
    pub later_create_ident: Seq<char>,
}

/// The deferred creations recorded so far, each a placeholder id with the
/// expression to await, and the cache of style names.
pub struct LowerState {
    pub deferred: Seq<(Seq<char>, ExprView)>,
    pub cache: StyleNameCacheView,
}

/// The component that a custom tag names.
pub enum CustomComponentView {
    Ident(Seq<char>),
    Member(JSXMemberExprView),
}

/// Whether an element invokes a component or is a native tag.
pub enum ComponentTypeView {
    Custom(CustomComponentView),
    HTML,
}

/// How a lowered element enters its parent: as literal placeholder markup
/// when it is deferred, as an expression otherwise.
pub enum ProcessedView {
    Async(Seq<char>),
    Sync(ExprView),
}

/// The component a tag names, if it names one: an identifier that starts
/// with an uppercase letter, or a dotted path. A namespaced tag never does.
pub open spec fn spec_classify(name: JSXElementNameView) -> Option<CustomComponentView> {
    match name {
        JSXElementNameView::Ident(i) => if i.len() > 0 && char_is_uppercase(i[0]) {
            Some(CustomComponentView::Ident(i))
        } else {
            None
        },
        JSXElementNameView::JSXMemberExpr(m) => Some(CustomComponentView::Member(m)),
        JSXElementNameView::JSXNamespacedName(_) => None,
    }
}

/// The name under which the type of a component is looked up.
pub open spec fn custom_name_text(c: CustomComponentView) -> Seq<char> {
    match c {
        CustomComponentView::Ident(i) => i,
        CustomComponentView::Member(m) => spec_stringify_jsx_member_expr(m),
    }
}

/// The member-access expression for the object part of a dotted tag.
pub open spec fn jsx_object_expr(o: JSXObjectView) -> ExprView
    decreases o,
{
    match o {
        JSXObjectView::Ident(i) => ExprView::Ident(i),
        JSXObjectView::JSXMemberExpr(m) => ExprView::Member {
            obj: Box::new(jsx_object_expr(m.obj)),
            prop: m.prop,
        },
    }
}

/// The expression that evaluates to the component.
pub open spec fn custom_expr(c: CustomComponentView) -> ExprView {
    match c {
        CustomComponentView::Ident(i) => ExprView::Ident(i),
        CustomComponentView::Member(m) => ExprView::Member {
            obj: Box::new(jsx_object_expr(m.obj)),
            prop: m.prop,
        },
    }
}

/// Whether a component of the inferred type `t` is created after the first
/// flush. Only a component known to produce markup synchronously is not; a
/// component of unknown type is.
pub open spec fn is_deferred_type(t: Option<ExportType>) -> bool {
    match t {
        None => true,
        Some(ExportType::JSX) => false,
        Some(_) => true,
    }
}

/// Whether the component `c` is created after the first flush.
pub open spec fn is_deferred(ctx: LowerCtx, c: CustomComponentView) -> bool {
    is_deferred_type(spec_get_variable_type(ctx.scopes, custom_name_text(c)))
}

/// The host element that stands in for a deferred component.
pub open spec fn placeholder(id: Seq<char>) -> Seq<char> {
    "<div id=\""@ + id + "\"></div>"@
}

/// What a reserved entry of the deferred list holds until its expression is
/// known.
pub open spec fn reserved_slot() -> ExprView {
    ExprView::Lit(LitView::Null)
}

/// The name an attribute has in the output: `className` becomes `class`.
pub open spec fn prop_name_map(name: Seq<char>) -> Seq<char> {
    if name == "className"@ {
        "class"@
    } else {
        name
    }
}

/// The text before the printed expression of a spread attribute.
pub open spec fn spread_head() -> Seq<char> {
    "${Object.entries("@
}

/// The text after the printed expression of a spread attribute: at run
/// time it renders every entry as `name="value"`, joined by spaces.
pub open spec fn spread_tail() -> Seq<char> {
    ").map(([key, value]) => `${key}=\"${value ? (typeof value === 'string' ? value : (value instanceof RegExp ? value.toString() : JSON.stringify(value))).replace(/\"/mg, '\\\\\"') : 'true'}\"`).join(' ')}"@
}

/// `array.join("")`
pub open spec fn join_call(array: ExprView) -> ExprView {
    ExprView::Call {
        callee: CalleeView::Expr(
            Box::new(ExprView::Member { obj: Box::new(array), prop: "join"@ }),
        ),
        args: seq![spec_arg(ExprView::Lit(LitView::Str(Seq::empty())))],
    }
}

/// The state after an entry was reserved for the element with the tag
/// `name`, if it is a deferred component: the entry takes the next id of
/// `ids`. The result is the index of the entry.
pub open spec fn spec_reserve(
    name: JSXElementNameView,
    ctx: LowerCtx,
    ids: Seq<Seq<char>>,
    st: LowerState,
) -> (Option<nat>, LowerState) {
    match spec_classify(name) {
        Some(c) => if is_deferred(ctx, c) {
            (
                Some(st.deferred.len()),
                LowerState {
                    deferred: st.deferred.push((ids[st.deferred.len() as int], reserved_slot())),
                    cache: st.cache,
                },
            )
        } else {
            (None, st)
        },
        None => (None, st),
    }
}

/// How a lowered element enters its parent. A native element is spliced in
/// as it is. A component that is not deferred is wrapped in the runtime
/// stringify call. A deferred component fills the entry reserved at
/// `slot` with its awaited call and leaves a placeholder with the entry's
/// id. Lowering reserves that entry when the element opens, so a deferred
/// component always comes with one.
pub open spec fn spec_process(
    transformed: (ExprView, ComponentTypeView),
    ctx: LowerCtx,
    slot: Option<nat>,
    deferred: Seq<(Seq<char>, ExprView)>,
) -> (ProcessedView, Seq<(Seq<char>, ExprView)>) {
    match transformed.1 {
        ComponentTypeView::HTML => (ProcessedView::Sync(transformed.0), deferred),
        ComponentTypeView::Custom(c) => if is_deferred(ctx, c) && slot is Some {
            let at = slot->0 as int;
            let id = deferred[at].0;
            (
                ProcessedView::Async(placeholder(id)),
                deferred.update(at, (id, ExprView::Await(Box::new(transformed.0)))),
            )
        } else {
            (
                ProcessedView::Sync(
                    spec_call_framework_stringify(transformed.0, ctx.later_create_ident),
                ),
                deferred,
            )
        },
    }
}

/// The builder after a processed element was spliced in.
pub open spec fn splice(t: TplWrapperView, p: ProcessedView) -> TplWrapperView {
    match p {
        ProcessedView::Async(div) => t.append_quasi(div),
        ProcessedView::Sync(e) => t.append_expr(e),
    }
}

/// The `children` property of a component call: the text itself where the
/// children lowered to text alone, a template otherwise.
pub open spec fn children_expr(children: TplWrapperView) -> ExprView {
    if children.exprs.len() == 0 {
        ExprView::Lit(
            LitView::Str(
                if children.quasis.len() > 0 {
                    children.quasis.last()
                } else {
                    Seq::empty()
                },
            ),
        )
    } else {
        ExprView::Tpl(children.build())
    }
}

/// The entry `key: value` of an object literal.
pub open spec fn key_value_prop(key: Seq<char>, value: ExprView) -> PropOrSpreadView {
    PropOrSpreadView::Prop(
        PropView::KeyValue { key: PropNameView::Ident(key), value: Box::new(value) },
    )
}

/// The call of a component with its properties.
pub open spec fn component_call(c: CustomComponentView, props: Seq<PropOrSpreadView>) -> ExprView {
    ExprView::Call {
        callee: CalleeView::Expr(Box::new(custom_expr(c))),
        args: seq![spec_arg(ExprView::Object(ObjectLitView { props }))],
    }
}

/// The template `<name ATTRS>CHILDREN</name>` of a native element.
pub open spec fn shell(name: Seq<char>, props: TplWrapperView, children: TplWrapperView)
    -> TplView {
    TplWrapperView::empty().append_quasi("<"@ + name).append_pieces(
        props.quasis,
        props.exprs,
        0,
    ).append_quasi(">"@).append_pieces(children.quasis, children.exprs, 0).append_quasi(
        "</"@ + name + ">"@,
    ).build()
}

/// A nested element lowered and processed: an entry is reserved first if
/// the element is a deferred component, so that entries stand in the order
/// in which their elements open.
pub open spec fn spec_lower_element(
    el: JSXElementView,
    ctx: LowerCtx,
    ids: Seq<Seq<char>>,
    st: LowerState,
) -> Result<(ProcessedView, LowerState), CompileError>
    decreases el, 1nat,
{
    let (slot, reserved) = spec_reserve(el.name, ctx, ids, st);
    match spec_transform(el, ctx, ids, reserved) {
        Err(e) => Err(e),
        Ok((transformed, lowered)) => {
            let (processed, deferred) = spec_process(transformed, ctx, slot, lowered.deferred);
            Ok((processed, LowerState { deferred, cache: lowered.cache }))
        },
    }
}

/// One element lowered: a component becomes a call with one object of
/// properties, the attributes in source order and then `children`; a
/// native element becomes the template `<name ATTRS>CHILDREN</name>`.
pub open spec fn spec_transform(
    el: JSXElementView,
    ctx: LowerCtx,
    ids: Seq<Seq<char>>,
    st: LowerState,
) -> Result<((ExprView, ComponentTypeView), LowerState), CompileError>
    decreases el, 0nat,
{
    match spec_classify(el.name) {
        Some(c) => match spec_custom_props(el.attrs, 0, ctx, ids, (Seq::empty(), st)) {
            Err(e) => Err(e),
            Ok((props, st1)) => match spec_children(
                el.children,
                0,
                ctx,
                ids,
                (TplWrapperView::empty(), st1),
            ) {
                Err(e) => Err(e),
                Ok((children, st2)) => Ok(
                    (
                        (
                            component_call(
                                c,
                                props.push(key_value_prop("children"@, children_expr(children))),
                            ),
                            ComponentTypeView::Custom(c),
                        ),
                        st2,
                    ),
                ),
            },
        },
        None => match spec_intrinsic_attrs(
            el.attrs,
            0,
            ctx,
            ids,
            (TplWrapperView::empty(), st),
        ) {
            Err(e) => Err(e),
            Ok((props, st1)) => match spec_children(
                el.children,
                0,
                ctx,
                ids,
                (TplWrapperView::empty(), st1),
            ) {
                Err(e) => Err(e),
                Ok((children, st2)) => Ok(
                    (
                        (
                            ExprView::Tpl(
                                shell(spec_stringify_jsx_element_name(el.name), props, children),
                            ),
                            ComponentTypeView::HTML,
                        ),
                        st2,
                    ),
                ),
            },
        },
    }
}

/// The properties of a component call for the attributes from number `k`
/// on, after those in `acc`.
pub open spec fn spec_custom_props(
    attrs: Seq<JSXAttrOrSpreadView>,
    k: nat,
    ctx: LowerCtx,
    ids: Seq<Seq<char>>,
    acc: (Seq<PropOrSpreadView>, LowerState),
) -> Result<(Seq<PropOrSpreadView>, LowerState), CompileError>
    decreases attrs, attrs.len() - k,
{
    if k >= attrs.len() {
        Ok(acc)
    } else {
        match spec_custom_prop(attrs[k as int], ctx, ids, acc.1) {
            Err(e) => Err(e),
            Ok((prop, st)) => spec_custom_props(attrs, k + 1, ctx, ids, (acc.0.push(prop), st)),
        }
    }
}

/// The property that one attribute of a component becomes: a spread stays
/// a spread, an attribute becomes `name: value`. The name must be a plain
/// identifier.
pub open spec fn spec_custom_prop(
    attr: JSXAttrOrSpreadView,
    ctx: LowerCtx,
    ids: Seq<Seq<char>>,
    st: LowerState,
) -> Result<(PropOrSpreadView, LowerState), CompileError>
    decreases attr, 0nat,
{
    match attr {
        JSXAttrOrSpreadView::SpreadElement { expr, printed } => Ok(
            (PropOrSpreadView::Spread(*expr), st),
        ),
        JSXAttrOrSpreadView::JSXAttr { name, value } => match name {
            JSXAttrNameView::JSXNamespacedName(_) => Err(CompileError::AttrName),
            JSXAttrNameView::Ident(n) => match spec_custom_attr_value(value, ctx, ids, st) {
                Err(e) => Err(e),
                Ok((v, st1)) => Ok((key_value_prop(prop_name_map(n), v), st1)),
            },
        },
    }
}

/// The expression that the value of a component's attribute becomes: `true`
/// where there is none, the literal or expression itself, the processed
/// element, or the template of a fragment's children.
pub open spec fn spec_custom_attr_value(
    value: Option<JSXAttrValueView>,
    ctx: LowerCtx,
    ids: Seq<Seq<char>>,
    st: LowerState,
) -> Result<(ExprView, LowerState), CompileError>
    decreases value, 0nat,
{
    match value {
        None => Ok((ExprView::Lit(LitView::Bool(true)), st)),
        Some(JSXAttrValueView::Lit(l)) => Ok((ExprView::Lit(l), st)),
        Some(JSXAttrValueView::JSXExprContainer(JSXExprView::JSXEmptyExpr)) => Ok(
            (ExprView::Lit(LitView::Bool(true)), st),
        ),
        Some(JSXAttrValueView::JSXExprContainer(JSXExprView::Expr(e))) => Ok((*e, st)),
        Some(JSXAttrValueView::JSXElement(el)) => match spec_lower_element(*el, ctx, ids, st) {
            Err(e) => Err(e),
            Ok((ProcessedView::Async(div), st1)) => Ok((ExprView::Lit(LitView::Str(div)), st1)),
            Ok((ProcessedView::Sync(e), st1)) => Ok((e, st1)),
        },
        Some(JSXAttrValueView::JSXFragment(children)) => match spec_children(
            children,
            0,
            ctx,
            ids,
            (TplWrapperView::empty(), st),
        ) {
            Err(e) => Err(e),
            Ok((t, st1)) => Ok((ExprView::Tpl(t.build()), st1)),
        },
    }
}

/// The attribute text of a native element for the attributes from number
/// `k` on, each after a space.
pub open spec fn spec_intrinsic_attrs(
    attrs: Seq<JSXAttrOrSpreadView>,
    k: nat,
    ctx: LowerCtx,
    ids: Seq<Seq<char>>,
    acc: (TplWrapperView, LowerState),
) -> Result<(TplWrapperView, LowerState), CompileError>
    decreases attrs, attrs.len() - k,
{
    if k >= attrs.len() {
        Ok(acc)
    } else {
        match spec_intrinsic_attr(attrs[k as int], ctx, ids, (acc.0.append_quasi(" "@), acc.1)) {
            Err(e) => Err(e),
            Ok(next) => spec_intrinsic_attrs(attrs, k + 1, ctx, ids, next),
        }
    }
}

/// One attribute of a native element written out: `name="value"`, the
/// runtime rendering of a spread, or the serialized `style`.
pub open spec fn spec_intrinsic_attr(
    attr: JSXAttrOrSpreadView,
    ctx: LowerCtx,
    ids: Seq<Seq<char>>,
    acc: (TplWrapperView, LowerState),
) -> Result<(TplWrapperView, LowerState), CompileError>
    decreases attr, 0nat,
{
    match attr {
        JSXAttrOrSpreadView::SpreadElement { expr, printed } => Ok(
            (
                acc.0.append_quasi(spread_head()).append_quasi(printed).append_quasi(spread_tail()),
                acc.1,
            ),
        ),
        JSXAttrOrSpreadView::JSXAttr { name, value } => {
            let n = spec_stringify_jsx_attr_name(name);
            if n == "style"@ {
                spec_style_attr(value, acc)
            } else {
                let named = acc.0.append_quasi(prop_name_map(n) + "=\""@);
                match value {
                    None => Ok((named.append_quasi("true\""@), acc.1)),
                    Some(v) => match spec_attr_value(v, ctx, ids, (named, acc.1)) {
                        Err(e) => Err(e),
                        Ok((t, st)) => Ok((t.append_quasi("\""@), st)),
                    },
                }
            }
        },
    }
}

/// The `style` attribute of a native element: nothing without a value, the
/// serialized object for an object literal, a runtime call for an
/// identifier. Any other value is refused.
pub open spec fn spec_style_attr(
    value: Option<JSXAttrValueView>,
    acc: (TplWrapperView, LowerState),
) -> Result<(TplWrapperView, LowerState), CompileError> {
    match value {
        None => Ok(acc),
        Some(JSXAttrValueView::JSXExprContainer(JSXExprView::JSXEmptyExpr)) => Ok(acc),
        Some(JSXAttrValueView::JSXExprContainer(JSXExprView::Expr(e))) => match *e {
            ExprView::Object(obj) => match spec_style_object_to_string(obj, acc.1.cache) {
                Err(e) => Err(e),
                Ok((tpl, cache)) => Ok(
                    (
                        acc.0.append_quasi("style=\""@).append_expr(ExprView::Tpl(tpl))
                            .append_quasi("\""@),
                        LowerState { deferred: acc.1.deferred, cache },
                    ),
                ),
            },
            ExprView::Ident(n) => Ok(
                (
                    acc.0.append_quasi("style=\""@).append_expr(
                        style_object_call(ExprView::Ident(n)),
                    ).append_quasi("\""@),
                    acc.1,
                ),
            ),
            _ => Err(CompileError::StyleAttrValue),
        },
        Some(_) => Err(CompileError::StyleAttrValue),
    }
}

/// The value of an attribute of a native element written out: a literal as
/// escaped text, an expression in a slot, an element processed, a fragment
/// child by child.
pub open spec fn spec_attr_value(
    value: JSXAttrValueView,
    ctx: LowerCtx,
    ids: Seq<Seq<char>>,
    acc: (TplWrapperView, LowerState),
) -> Result<(TplWrapperView, LowerState), CompileError>
    decreases value, 0nat,
{
    match value {
        JSXAttrValueView::Lit(l) => Ok(
            (acc.0.append_quasi(spec_escape_string(stringify_lit(l))), acc.1),
        ),
        JSXAttrValueView::JSXExprContainer(JSXExprView::JSXEmptyExpr) => Ok(
            (acc.0.append_quasi("true"@), acc.1),
        ),
        JSXAttrValueView::JSXExprContainer(JSXExprView::Expr(e)) => Ok(
            (acc.0.append_expr(*e), acc.1),
        ),
        JSXAttrValueView::JSXElement(el) => match spec_lower_element(*el, ctx, ids, acc.1) {
            Err(e) => Err(e),
            Ok((p, st)) => Ok((splice(acc.0, p), st)),
        },
        JSXAttrValueView::JSXFragment(children) => spec_children(children, 0, ctx, ids, acc),
    }
}

/// The builder after the children from number `k` on were appended.
pub open spec fn spec_children(
    children: Seq<JSXElementChildView>,
    k: nat,
    ctx: LowerCtx,
    ids: Seq<Seq<char>>,
    acc: (TplWrapperView, LowerState),
) -> Result<(TplWrapperView, LowerState), CompileError>
    decreases children, children.len() - k,
{
    if k >= children.len() {
        Ok(acc)
    } else {
        match spec_child(children[k as int], ctx, ids, acc) {
            Err(e) => Err(e),
            Ok(next) => spec_children(children, k + 1, ctx, ids, next),
        }
    }
}

/// The builder after one child was appended: text verbatim, a literal as
/// text, an array joined without commas, any other expression through the
/// runtime stringify call, a spread as it is, an element processed, a
/// fragment child by child. An object literal is refused.
pub open spec fn spec_child(
    child: JSXElementChildView,
    ctx: LowerCtx,
    ids: Seq<Seq<char>>,
    acc: (TplWrapperView, LowerState),
) -> Result<(TplWrapperView, LowerState), CompileError>
    decreases child, 0nat,
{
    match child {
        JSXElementChildView::JSXText(s) => Ok((acc.0.append_quasi(s), acc.1)),
        JSXElementChildView::JSXExprContainer(JSXExprView::JSXEmptyExpr) => Ok(acc),
        JSXElementChildView::JSXExprContainer(JSXExprView::Expr(e)) => match *e {
            ExprView::Array(_) => Ok((acc.0.append_expr(join_call(*e)), acc.1)),
            ExprView::Lit(l) => Ok((acc.0.append_quasi(stringify_lit(l)), acc.1)),
            ExprView::Object(_) => Err(CompileError::ObjectAsChild),
            _ => Ok(
                (
                    acc.0.append_expr(spec_call_framework_stringify(*e, ctx.later_create_ident)),
                    acc.1,
                ),
            ),
        },
        JSXElementChildView::JSXSpreadChild(e) => Ok((acc.0.append_expr(*e), acc.1)),
        JSXElementChildView::JSXElement(el) => match spec_lower_element(*el, ctx, ids, acc.1) {
            Err(e) => Err(e),
            Ok((p, st)) => Ok((splice(acc.0, p), st)),
        },
        JSXElementChildView::JSXFragment(children) => spec_children(children, 0, ctx, ids, acc),
    }
}

/// The ids of the first entries of `new` are those of `old`: entries are
/// added at the end, and an entry keeps its id.
pub open spec fn grows(old: Seq<(Seq<char>, ExprView)>, new: Seq<(Seq<char>, ExprView)>) -> bool {
    &&& old.len() <= new.len()
    &&& forall|i: int| 0 <= i < old.len() ==> (#[trigger] new[i]).0 == old[i].0
}

/// The stream `ids` begins with the ids of `deferred`.
pub open spec fn extends(ids: Seq<Seq<char>>, deferred: Seq<(Seq<char>, ExprView)>) -> bool {
    &&& deferred.len() <= ids.len()
    &&& forall|i: int| 0 <= i < deferred.len() ==> #[trigger] ids[i] == deferred[i].0
}

/// A stream that begins with the ids of a list begins with those of every
/// earlier stage of the list.
pub proof fn lemma_extends_earlier(
    ids: Seq<Seq<char>>,
    old: Seq<(Seq<char>, ExprView)>,
    new: Seq<(Seq<char>, ExprView)>,
)
    requires
        extends(ids, new),
        grows(old, new),
    ensures
        extends(ids, old),
{
    assert forall|i: int| 0 <= i < old.len() implies #[trigger] ids[i] == old[i].0 by {
        assert(new[i].0 == old[i].0);
    }
}

/// Growth of the deferred list is transitive.
pub proof fn lemma_grows_trans(
    a: Seq<(Seq<char>, ExprView)>,
    b: Seq<(Seq<char>, ExprView)>,
    c: Seq<(Seq<char>, ExprView)>,
)
    requires
        grows(a, b),
        grows(b, c),
    ensures
        grows(a, c),
{
    assert forall|i: int| 0 <= i < a.len() implies (#[trigger] c[i]).0 == a[i].0 by {
        assert(b[i].0 == a[i].0);
    }
}

/// A component whose inferred type is synchronous markup gets no entry in
/// the deferred list: nothing is reserved for it, and processing leaves
/// the list as it is and wraps the call in the runtime stringify call.
pub proof fn lemma_sync_markup_never_deferred(
    name: JSXElementNameView,
    c: CustomComponentView,
    call: ExprView,
    ctx: LowerCtx,
    ids: Seq<Seq<char>>,
    st: LowerState,
    deferred: Seq<(Seq<char>, ExprView)>,
)
    requires
        spec_classify(name) == Some(c),
        spec_get_variable_type(ctx.scopes, custom_name_text(c)) == Some(ExportType::JSX),
    ensures
        spec_reserve(name, ctx, ids, st) == (None::<nat>, st),
        spec_process((call, ComponentTypeView::Custom(c)), ctx, None, deferred) == (
            ProcessedView::Sync(spec_call_framework_stringify(call, ctx.later_create_ident)),
            deferred,
        ),
{
}

/// A component whose inferred type is anything but synchronous markup, or
/// whose name is unresolved, always gets an entry in the deferred list:
/// the entry is reserved under the next id, and processing fills it with
/// the awaited call and leaves a placeholder with that id.
pub proof fn lemma_deferred_always_listed(
    name: JSXElementNameView,
    c: CustomComponentView,
    call: ExprView,
    ctx: LowerCtx,
    ids: Seq<Seq<char>>,
    st: LowerState,
    deferred: Seq<(Seq<char>, ExprView)>,
    at: nat,
)
    requires
        spec_classify(name) == Some(c),
        spec_get_variable_type(ctx.scopes, custom_name_text(c)) != Some(ExportType::JSX),
        at < deferred.len(),
    ensures
        spec_reserve(name, ctx, ids, st) == (
            Some(st.deferred.len()),
            LowerState {
                deferred: st.deferred.push((ids[st.deferred.len() as int], reserved_slot())),
                cache: st.cache,
            },
        ),
        spec_process((call, ComponentTypeView::Custom(c)), ctx, Some(at), deferred) == (
            ProcessedView::Async(placeholder(deferred[at as int].0)),
            deferred.update(
                at as int,
                (deferred[at as int].0, ExprView::Await(Box::new(call))),
            ),
        ),
        spec_process((call, ComponentTypeView::Custom(c)), ctx, Some(at), deferred).1[at as int]
            == (deferred[at as int].0, ExprView::Await(Box::new(call))),
{
}

/// A native element is never deferred: nothing is reserved for it and it
/// enters its parent as it is.
pub proof fn lemma_native_never_deferred(
    name: JSXElementNameView,
    lowered: ExprView,
    ctx: LowerCtx,
    ids: Seq<Seq<char>>,
    st: LowerState,
    deferred: Seq<(Seq<char>, ExprView)>,
)
    requires
        spec_classify(name) is None,
    ensures
        spec_reserve(name, ctx, ids, st) == (None::<nat>, st),
        spec_process((lowered, ComponentTypeView::HTML), ctx, None, deferred) == (
            ProcessedView::Sync(lowered),
            deferred,
        ),
{
}

} // verus!
