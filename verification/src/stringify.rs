//! Text forms of identifiers, literals and markup names.

use crate::ast::expr::{
    JSXAttrName, JSXElementName, JSXMemberExpr, JSXNamespacedName, JSXObject, Lit,
};
use crate::ast::view::{
    JSXAttrNameView, JSXElementNameView, JSXMemberExprView, JSXNamespacedNameView, JSXObjectView,
    LitView,
};
use crate::text::concat3;
use vstd::prelude::*;

verus! {

/// The text a literal stands for when it is written into markup: a string
/// or markup text is itself, a number its printed form, a regular
/// expression `/exp/flags`.
pub open spec fn stringify_lit(l: LitView) -> Seq<char> {
    match l {
        LitView::Str(s) => s,
        LitView::Bool(b) => if b {
            "true"@
        } else {
            "false"@
        },
        LitView::Null => "null"@,
        LitView::Num(n) => n.text,
        LitView::BigInt(n) => n.text,
        LitView::Regex(re) => "/"@ + re.exp + "/"@ + re.flags,
        LitView::JSXText(s) => s,
    }
}

/// `ns:name`
pub open spec fn stringify_namespaced(n: JSXNamespacedNameView) -> Seq<char> {
    n.ns + ":"@ + n.name
}

/// The dotted path of the object part of a markup tag.
pub open spec fn spec_stringify_jsx_object(o: JSXObjectView) -> Seq<char>
    decreases o,
{
    match o {
        JSXObjectView::Ident(i) => i,
        JSXObjectView::JSXMemberExpr(m) => spec_stringify_jsx_object(m.obj) + "."@ + m.prop,
    }
}

/// The dotted path `obj.prop` of a markup tag.
pub open spec fn spec_stringify_jsx_member_expr(m: JSXMemberExprView) -> Seq<char> {
    spec_stringify_jsx_object(m.obj) + "."@ + m.prop
}

/// The tag of a markup element as text.
pub open spec fn spec_stringify_jsx_element_name(n: JSXElementNameView) -> Seq<char> {
    match n {
        JSXElementNameView::Ident(i) => i,
        JSXElementNameView::JSXNamespacedName(ns) => stringify_namespaced(ns),
        JSXElementNameView::JSXMemberExpr(m) => spec_stringify_jsx_member_expr(m),
    }
}

/// The name of a markup attribute as text.
pub open spec fn spec_stringify_jsx_attr_name(n: JSXAttrNameView) -> Seq<char> {
    match n {
        JSXAttrNameView::Ident(i) => i,
        JSXAttrNameView::JSXNamespacedName(ns) => stringify_namespaced(ns),
    }
}

/// Values that have a text form.
pub trait Stringify: Sized {
    /// The text form.
    spec fn spec_stringify(self) -> Seq<char>;

    /// Writes the value out as text.
    fn stringify(self) -> (r: String)
        ensures
            r@ == self.spec_stringify(),
    ;
}

impl Stringify for String {
    open spec fn spec_stringify(self) -> Seq<char> {
        self@
    }

    fn stringify(self) -> (r: String) {
        self
    }
}

impl Stringify for Lit {
    open spec fn spec_stringify(self) -> Seq<char> {
        stringify_lit(self@)
    }

    fn stringify(self) -> (r: String) {
        match self {
            Lit::Str(value) => value,
            Lit::Bool(value) => if value {
                String::from_str("true")
            } else {
                String::from_str("false")
            },
            Lit::Null => String::from_str("null"),
            Lit::Num(value) => value.text,
            Lit::BigInt(value) => value.text,
            Lit::Regex(re) => {
                let mut out = String::from_str("/");
                out.append(re.exp.as_str());
                out.append("/");
                out.append(re.flags.as_str());
                out
            },
            Lit::JSXText(value) => value,
        }
    }
}

fn stringify_namespaced_name(n: JSXNamespacedName) -> (r: String)
    ensures
        r@ == stringify_namespaced(n@),
{
    concat3(n.ns.as_str(), ":", n.name.as_str())
}

/// The dotted path of the object part of a markup tag.
pub fn stringify_jsx_object(jsx_object: JSXObject) -> (r: String)
    ensures
        r@ == spec_stringify_jsx_object(jsx_object@),
    decreases jsx_object,
{
    match jsx_object {
        JSXObject::Ident(ident) => ident,
        JSXObject::JSXMemberExpr(member) => {
            let member = *member;
            let obj = stringify_jsx_object(member.obj);
            concat3(obj.as_str(), ".", member.prop.as_str())
        },
    }
}

/// The dotted path `obj.prop` of a markup tag.
pub fn stringify_jsx_member_expr(jsx_member_expr: JSXMemberExpr) -> (r: String)
    ensures
        r@ == spec_stringify_jsx_member_expr(jsx_member_expr@),
{
    let obj = stringify_jsx_object(jsx_member_expr.obj);
    concat3(obj.as_str(), ".", jsx_member_expr.prop.as_str())
}

/// The tag of a markup element as text.
pub fn stringify_jsx_element_name(name: JSXElementName) -> (r: String)
    ensures
        r@ == spec_stringify_jsx_element_name(name@),
{
    match name {
        JSXElementName::Ident(ident) => ident,
        JSXElementName::JSXNamespacedName(namespace) => stringify_namespaced_name(namespace),
        JSXElementName::JSXMemberExpr(member) => stringify_jsx_member_expr(member),
    }
}

/// The name of a markup attribute as text.
pub fn stringify_jsx_attr_name(name: JSXAttrName) -> (r: String)
    ensures
        r@ == spec_stringify_jsx_attr_name(name@),
{
    match name {
        JSXAttrName::Ident(ident) => ident,
        JSXAttrName::JSXNamespacedName(namespace) => stringify_namespaced_name(namespace),
    }
}

} // verus!
