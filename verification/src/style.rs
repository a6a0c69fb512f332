//! The style serializer: a style object literal becomes a template of
//! `name: value` pairs joined by `;`.

use crate::ast::expr::{Expr, ExprOrSpread, Lit, Numeric, ObjectLit, Prop, PropName, PropOrSpread,
    Tpl};
use crate::ast::make::{arg, ident, lit_str};
use crate::ast::view::{
    expr_or_spreads_view, prop_or_spreads_view, ExprView, LitView, NumericView, ObjectLitView,
    PropNameView, PropOrSpreadView, PropView, TplView,
};
use crate::error::CompileError;
use crate::framework::{call_framework_fn, spec_arg, spec_call_framework_fn};
use crate::style_name::{
    cache_after, is_unitless_number, process_style_name, spec_process_style_name,
    unitless_numbers, StyleNameCache, StyleNameCacheView,
};
use crate::text::{chars_of, concat, spec_starts_with, starts_with_two_hyphens};
use crate::tpl_wrapper::{lemma_append_expr_wf, TplWrapper, TplWrapperView};
use vstd::prelude::*;

verus! {

/// A key or a value of a style property: text known at compile time, or an
/// expression left to the runtime.
pub enum StrOrExprView {
    Str(Seq<char>),
    Expr(ExprView),
}

/// The builder and the name cache while a style object is serialized.
pub struct StyleState {
    pub tpl: TplWrapperView,
    pub cache: StyleNameCacheView,
}

/// The key of a style property: the text of an identifier or string key,
/// the identifier of a computed key. Other keys are refused.
pub open spec fn style_key(key: PropNameView) -> Result<StrOrExprView, CompileError> {
    match key {
        PropNameView::Ident(i) => Ok(StrOrExprView::Str(i)),
        PropNameView::Str(s) => Ok(StrOrExprView::Str(s)),
        PropNameView::Computed(e) => match *e {
            ExprView::Lit(LitView::Str(s)) => Ok(StrOrExprView::Str(s)),
            ExprView::Ident(name) => Ok(StrOrExprView::Expr(ExprView::Ident(name))),
            _ => Err(CompileError::StyleKey),
        },
        _ => Err(CompileError::StyleKey),
    }
}

/// The key as the runtime receives it: a string literal or the expression.
pub open spec fn key_expr(key: StrOrExprView) -> ExprView {
    match key {
        StrOrExprView::Str(s) => ExprView::Lit(LitView::Str(s)),
        StrOrExprView::Expr(e) => e,
    }
}

/// The runtime call that resolves the value of the property `key`.
pub open spec fn style_value_call(value: ExprView, key: StrOrExprView) -> ExprView {
    spec_call_framework_fn(
        "___FRAMEWORK_JS_STYLE_VALUE___"@,
        seq![spec_arg(value), spec_arg(key_expr(key))],
    )
}

/// The runtime call that resolves a computed property name.
pub open spec fn style_name_call(key: ExprView) -> ExprView {
    spec_call_framework_fn("___FRAMEWORK_JS_STYLE_NAME___"@, seq![spec_arg(key)])
}

/// The runtime call that serializes a whole style object.
pub open spec fn style_object_call(object: ExprView) -> ExprView {
    spec_call_framework_fn("___FRAMEWORK_JS_STYLE_OBJECT___"@, seq![spec_arg(object)])
}

/// How a number is written as the value of the property `key`: bare for a
/// custom property, for zero and for a unitless property, with `px`
/// otherwise.
pub open spec fn numeric_style_value(key: Seq<char>, n: NumericView) -> Seq<char> {
    if spec_starts_with(key, seq!['-', '-']) {
        n.text
    } else if n.is_zero {
        "0"@
    } else if unitless_numbers().contains(key) {
        n.text
    } else {
        n.text + "px"@
    }
}

/// The value of a style property under the key `key`: text for a string,
/// a number or a boolean under a textual key, a runtime call for an
/// identifier, a template or any literal under a computed key. Other
/// values are refused.
pub open spec fn style_value(
    key: StrOrExprView,
    value: ExprView,
) -> Result<StrOrExprView, CompileError> {
    match value {
        ExprView::Ident(_) => Ok(StrOrExprView::Expr(style_value_call(value, key))),
        ExprView::Tpl(_) => Ok(StrOrExprView::Expr(style_value_call(value, key))),
        ExprView::Lit(lit) => match key {
            StrOrExprView::Str(k) => match lit {
                LitView::Str(s) => Ok(StrOrExprView::Str(s)),
                LitView::Num(n) => Ok(StrOrExprView::Str(numeric_style_value(k, n))),
                LitView::BigInt(n) => Ok(StrOrExprView::Str(numeric_style_value(k, n))),
                LitView::Bool(b) => Ok(
                    StrOrExprView::Str(
                        if b {
                            "true"@
                        } else {
                            "false"@
                        },
                    ),
                ),
                _ => Err(CompileError::StyleValue),
            },
            StrOrExprView::Expr(_) => Ok(StrOrExprView::Expr(style_value_call(value, key))),
        },
        _ => Err(CompileError::StyleValue),
    }
}

/// The state after the written form of the name `name` was appended.
pub open spec fn emit_style_name(st: StyleState, name: Seq<char>) -> StyleState {
    StyleState {
        tpl: st.tpl.append_quasi(spec_process_style_name(name)),
        cache: cache_after(st.cache, name),
    }
}

/// The state after a key was appended: a textual key in its written form,
/// a computed key as a runtime call.
pub open spec fn emit_style_key(st: StyleState, key: StrOrExprView) -> StyleState {
    match key {
        StrOrExprView::Str(s) => emit_style_name(st, s),
        StrOrExprView::Expr(e) => StyleState {
            tpl: st.tpl.append_expr(style_name_call(e)),
            cache: st.cache,
        },
    }
}

/// The builder after a value was appended.
pub open spec fn emit_style_value(t: TplWrapperView, value: StrOrExprView) -> TplWrapperView {
    match value {
        StrOrExprView::Str(s) => t.append_quasi(s),
        StrOrExprView::Expr(e) => t.append_expr(e),
    }
}

/// The state after one entry of the style object was serialized: `name:
/// value` for a property, a runtime call for a spread.
pub open spec fn style_entry(
    st: StyleState,
    prop: PropOrSpreadView,
) -> Result<StyleState, CompileError> {
    match prop {
        PropOrSpreadView::Spread(e) => Ok(
            StyleState { tpl: st.tpl.append_expr(style_object_call(e)), cache: st.cache },
        ),
        PropOrSpreadView::Prop(PropView::Shorthand(name)) => {
            let named = emit_style_name(st, name);
            Ok(
                StyleState {
                    tpl: named.tpl.append_quasi(": "@).append_expr(
                        style_value_call(ExprView::Ident(name), StrOrExprView::Str(name)),
                    ),
                    cache: named.cache,
                },
            )
        },
        PropOrSpreadView::Prop(PropView::KeyValue { key, value }) => match style_key(key) {
            Err(e) => Err(e),
            Ok(k) => match style_value(k, *value) {
                Err(e) => Err(e),
                Ok(v) => {
                    let named = emit_style_key(st, k);
                    Ok(
                        StyleState {
                            tpl: emit_style_value(named.tpl.append_quasi(": "@), v),
                            cache: named.cache,
                        },
                    )
                },
            },
        },
        PropOrSpreadView::Prop(PropView::Other(_)) => Err(CompileError::StyleProp),
    }
}

/// The state after the entries from number `k` on were serialized, each but
/// the first of the object after a `;`. The first entry that is refused
/// ends the serialization.
pub open spec fn style_entries_from(
    props: Seq<PropOrSpreadView>,
    k: nat,
    st: StyleState,
) -> Result<StyleState, CompileError>
    decreases props.len() - k,
{
    if k >= props.len() {
        Ok(st)
    } else {
        let joined = if k > 0 {
            StyleState { tpl: st.tpl.append_quasi(";"@), cache: st.cache }
        } else {
            st
        };
        match style_entry(joined, props[k as int]) {
            Err(e) => Err(e),
            Ok(next) => style_entries_from(props, k + 1, next),
        }
    }
}

/// The template a style object serializes to, together with the name cache
/// afterwards, or the fault that its first unacceptable entry raises.
pub open spec fn spec_style_object_to_string(
    obj: ObjectLitView,
    cache: StyleNameCacheView,
) -> Result<(TplView, StyleNameCacheView), CompileError> {
    match style_entries_from(
        obj.props,
        0,
        StyleState { tpl: TplWrapperView::empty(), cache },
    ) {
        Ok(st) => Ok((st.tpl.build(), st.cache)),
        Err(e) => Err(e),
    }
}

/// Serializing an entry keeps literal runs and expressions in alternation.
pub proof fn lemma_style_entry_wf(st: StyleState, prop: PropOrSpreadView)
    requires
        st.tpl.wf(),
    ensures
        style_entry(st, prop) matches Ok(next) ==> next.tpl.wf(),
{
    match prop {
        PropOrSpreadView::Spread(e) => {
            lemma_append_expr_wf(st.tpl, style_object_call(e));
        },
        PropOrSpreadView::Prop(PropView::Shorthand(name)) => {
            let named = emit_style_name(st, name);
            lemma_append_expr_wf(
                named.tpl.append_quasi(": "@),
                style_value_call(ExprView::Ident(name), StrOrExprView::Str(name)),
            );
        },
        PropOrSpreadView::Prop(PropView::KeyValue { key, value }) => {
            if let Ok(k) = style_key(key) {
                if let Ok(v) = style_value(k, *value) {
                    if let StrOrExprView::Expr(e) = k {
                        lemma_append_expr_wf(st.tpl, style_name_call(e));
                    }
                    let named = emit_style_key(st, k);
                    if let StrOrExprView::Expr(e) = v {
                        lemma_append_expr_wf(named.tpl.append_quasi(": "@), e);
                    }
                }
            }
        },
        _ => {},
    }
}

/// A key of a style property, as the serializer holds it.
enum StyleKey {
    Str(String),
    Ident(String),
}

/// A value of a style property, as the serializer holds it.
enum StyleValue {
    Str(String),
    Expr(Expr),
}

impl StyleKey {
    spec fn view(&self) -> StrOrExprView {
        match self {
            StyleKey::Str(s) => StrOrExprView::Str(s@),
            StyleKey::Ident(n) => StrOrExprView::Expr(ExprView::Ident(n@)),
        }
    }

    fn as_expr(&self) -> (r: Expr)
        ensures
            r@ == key_expr(self@),
    {
        match self {
            StyleKey::Str(s) => lit_str(s.clone()),
            StyleKey::Ident(n) => ident(n.clone()),
        }
    }
}

impl StyleValue {
    spec fn view(&self) -> StrOrExprView {
        match self {
            StyleValue::Str(s) => StrOrExprView::Str(s@),
            StyleValue::Expr(e) => StrOrExprView::Expr(e@),
        }
    }
}

fn read_style_key(key: PropName) -> (r: Result<StyleKey, CompileError>)
    ensures
        match style_key(key@) {
            Ok(k) => r matches Ok(got) && got@ == k,
            Err(e) => r matches Err(got) && got == e,
        },
{
    match key {
        PropName::Ident(i) => Ok(StyleKey::Str(i)),
        PropName::Str(s) => Ok(StyleKey::Str(s)),
        PropName::Computed(expr) => match *expr {
            Expr::Lit(Lit::Str(s)) => Ok(StyleKey::Str(s)),
            Expr::Ident(name) => Ok(StyleKey::Ident(name)),
            _ => Err(CompileError::StyleKey),
        },
        _ => Err(CompileError::StyleKey),
    }
}

fn call_style_value(value: Expr, key: &StyleKey) -> (r: Expr)
    ensures
        r@ == style_value_call(value@, key@),
{
    let mut args: Vec<ExprOrSpread> = Vec::new();
    args.push(arg(value));
    args.push(arg(key.as_expr()));
    proof {
        assert(expr_or_spreads_view(args@) =~= seq![spec_arg(value@), spec_arg(key_expr(key@))]);
    }
    call_framework_fn("___FRAMEWORK_JS_STYLE_VALUE___", args)
}

fn call_with_one_arg(fn_name: &str, value: Expr) -> (r: Expr)
    ensures
        r@ == spec_call_framework_fn(fn_name@, seq![spec_arg(value@)]),
{
    let mut args: Vec<ExprOrSpread> = Vec::new();
    args.push(arg(value));
    proof {
        assert(expr_or_spreads_view(args@) =~= seq![spec_arg(value@)]);
    }
    call_framework_fn(fn_name, args)
}

fn write_numeric(key: &str, n: Numeric) -> (r: String)
    ensures
        r@ == numeric_style_value(key@, n@),
{
    let chars = chars_of(key);
    if starts_with_two_hyphens(&chars) {
        n.text
    } else if n.is_zero {
        String::from_str("0")
    } else if is_unitless_number(key) {
        n.text
    } else {
        concat(n.text.as_str(), "px")
    }
}

fn read_style_value(key: &StyleKey, value: Expr) -> (r: Result<StyleValue, CompileError>)
    ensures
        match style_value(key@, value@) {
            Ok(v) => r matches Ok(got) && got@ == v,
            Err(e) => r matches Err(got) && got == e,
        },
{
    match value {
        Expr::Ident(name) => Ok(StyleValue::Expr(call_style_value(ident(name), key))),
        Expr::Tpl(tpl) => Ok(StyleValue::Expr(call_style_value(crate::ast::make::tpl(tpl), key))),
        Expr::Lit(lit) => match key {
            StyleKey::Str(k) => match lit {
                Lit::Str(s) => Ok(StyleValue::Str(s)),
                Lit::Num(n) => Ok(StyleValue::Str(write_numeric(k.as_str(), n))),
                Lit::BigInt(n) => Ok(StyleValue::Str(write_numeric(k.as_str(), n))),
                Lit::Bool(b) => Ok(
                    StyleValue::Str(
                        if b {
                            String::from_str("true")
                        } else {
                            String::from_str("false")
                        },
                    ),
                ),
                _ => Err(CompileError::StyleValue),
            },
            StyleKey::Ident(_) => Ok(
                StyleValue::Expr(call_style_value(crate::ast::make::lit(lit), key)),
            ),
        },
        _ => Err(CompileError::StyleValue),
    }
}

fn write_style_entry(
    tlp: &mut TplWrapper,
    cache: &mut StyleNameCache,
    prop: PropOrSpread,
) -> (r: Result<(), CompileError>)
    requires
        old(tlp)@.wf(),
    ensures
        match style_entry(StyleState { tpl: old(tlp)@, cache: old(cache)@ }, prop@) {
            Ok(st) => r is Ok && final(tlp)@ == st.tpl && final(cache)@ == st.cache
                && st.tpl.wf(),
            Err(e) => r == Err::<(), CompileError>(e),
        },
{
    proof {
        lemma_style_entry_wf(StyleState { tpl: old(tlp)@, cache: old(cache)@ }, prop@);
    }
    match prop {
        PropOrSpread::Spread(expr) => {
            tlp.append_expr(call_with_one_arg("___FRAMEWORK_JS_STYLE_OBJECT___", expr));
            Ok(())
        },
        PropOrSpread::Prop(prop) => match prop {
            Prop::Shorthand(name) => {
                let written = process_style_name(cache, name.clone());
                tlp.append_quasi(written.as_str());
                tlp.append_quasi(": ");
                let key = StyleKey::Str(name.clone());
                tlp.append_expr(call_style_value(ident(name), &key));
                Ok(())
            },
            Prop::KeyValue { key, value } => {
                let key = match read_style_key(key) {
                    Ok(k) => k,
                    Err(e) => {
                        return Err(e);
                    },
                };
                let value = match read_style_value(&key, *value) {
                    Ok(v) => v,
                    Err(e) => {
                        return Err(e);
                    },
                };
                match key {
                    StyleKey::Str(s) => {
                        let written = process_style_name(cache, s);
                        tlp.append_quasi(written.as_str());
                    },
                    StyleKey::Ident(n) => {
                        tlp.append_expr(
                            call_with_one_arg("___FRAMEWORK_JS_STYLE_NAME___", ident(n)),
                        );
                    },
                }
                tlp.append_quasi(": ");
                match value {
                    StyleValue::Str(s) => {
                        tlp.append_quasi(s.as_str());
                    },
                    StyleValue::Expr(e) => {
                        tlp.append_expr(e);
                    },
                }
                Ok(())
            },
            Prop::Other(_) => Err(CompileError::StyleProp),
        },
    }
}

/// Serializes a style object literal into a template of `name: value`
/// pairs joined by `;`. Names are written through `cache`. The first entry
/// the serializer has no rule for ends it with a fault.
pub fn style_object_to_string(
    obj: ObjectLit,
    cache: &mut StyleNameCache,
) -> (r: Result<Tpl, CompileError>)
    ensures
        match spec_style_object_to_string(obj@, old(cache)@) {
            Ok((tpl, names)) => r matches Ok(got)
                && got@ == tpl
                && final(cache)@ == names
                && got@.quasis.len() == got@.exprs.len() + 1,
            Err(e) => r matches Err(got) && got == e,
        },
{
    let mut tlp = TplWrapper::new();
    let ghost props = prop_or_spreads_view(obj.props@);
    let ghost orig = obj.props@;
    let ghost start = StyleState { tpl: TplWrapperView::empty(), cache: old(cache)@ };
    let mut is_first = true;
    for prop in it: obj.props
        invariant
            it.seq() == orig,
            props == prop_or_spreads_view(orig),
            props == obj@.props,
            start == (StyleState { tpl: TplWrapperView::empty(), cache: old(cache)@ }),
            tlp@.wf(),
            is_first == (it.index() == 0),
            style_entries_from(props, it.index() as nat, StyleState { tpl: tlp@, cache: cache@ })
                == style_entries_from(props, 0, start),
    {
        assert(prop == orig[it.index() as int]);
        if !is_first {
            tlp.append_quasi(";");
        }
        is_first = false;
        match write_style_entry(&mut tlp, cache, prop) {
            Ok(()) => {},
            Err(e) => {
                return Err(e);
            },
        }
    }
    Ok(tlp.build())
}

} // verus!
