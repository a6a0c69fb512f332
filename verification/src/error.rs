//! The faults that stop the compilation of a file.

use vstd::prelude::*;

verus! {

/// A construct in the input that the compiler does not accept. Compilation
/// of the file stops at the first one.
#[derive(Debug, Clone, Copy, PartialEq, Eq, Structural)]
pub enum CompileError {
    /// `export * from "..."`.
    ExportAll,
    /// `export default` followed by an expression.
    ExportDefaultExpr,
    /// An object literal used as a markup child.
    ObjectAsChild,
    /// An attribute of a component whose name is not a plain identifier.
    AttrName,
    /// A `style` attribute whose value is neither an object literal nor an
    /// identifier.
    StyleAttrValue,
    /// A style property that is a getter, a setter, a method or an
    /// assignment property.
    StyleProp,
    /// A style property whose key is a number or a computed expression
    /// other than a string literal or an identifier.
    StyleKey,
    /// A style property whose value the serializer has no rule for.
    StyleValue,
}

impl CompileError {
    /// The sentence that names the construct.
    pub open spec fn spec_message(self) -> Seq<char> {
        match self {
            CompileError::ExportAll => "re-exporting everything from a module is not supported"@,
            CompileError::ExportDefaultExpr =>
                "a default export of an expression is not supported"@,
            CompileError::ObjectAsChild => "objects are not valid as a markup child"@,
            CompileError::AttrName =>
                "attributes of a component must be named by a plain identifier"@,
            CompileError::StyleAttrValue =>
                "the value of a style attribute must be an object literal or an identifier"@,
            CompileError::StyleProp => "accessors and methods are not valid in a style object"@,
            CompileError::StyleKey => "this key is not valid in a style object"@,
            CompileError::StyleValue => "this value is not valid in a style object"@,
        }
    }

    /// A sentence that names the construct.
    pub fn message(self) -> (r: String)
        ensures
            r@ == self.spec_message(),
    {
        let text = match self {
            CompileError::ExportAll => "re-exporting everything from a module is not supported",
            CompileError::ExportDefaultExpr => "a default export of an expression is not supported",
            CompileError::ObjectAsChild => "objects are not valid as a markup child",
            CompileError::AttrName =>
                "attributes of a component must be named by a plain identifier",
            CompileError::StyleAttrValue =>
                "the value of a style attribute must be an object literal or an identifier",
            CompileError::StyleProp =>
                "accessors and methods are not valid in a style object",
            CompileError::StyleKey => "this key is not valid in a style object",
            CompileError::StyleValue => "this value is not valid in a style object",
        };
        String::from_str(text)
    }
}

} // verus!
