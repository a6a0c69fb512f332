//! Executable syntax-tree types.

use vstd::prelude::*;

verus! {

/// A numeric literal, held as the text the printer writes for it together
/// with whether its value is zero.
#[derive(Debug, Clone)]
pub struct Numeric {
    pub text: String,
    pub is_zero: bool,
}

/// A regular-expression literal `/exp/flags`.
#[derive(Debug, Clone)]
pub struct Regex {
    pub exp: String,
    pub flags: String,
}

/// A literal.
#[derive(Debug, Clone)]
pub enum Lit {
    Str(String),
    Bool(bool),
    Null,
    Num(Numeric),
    BigInt(Numeric),
    Regex(Regex),
    JSXText(String),
}

/// Syntax that the passes do not interpret. The host keeps the node itself
/// under `handle`; `children` are the interpreted nodes directly below it,
/// in source order.
#[derive(Debug)]
pub struct Opaque {
    pub handle: u64,
    pub children: Vec<Node>,
}

/// A child of an opaque node.
#[derive(Debug)]
pub enum Node {
    Expr(Expr),
    Stmt(Stmt),
    Pat(Pat),
}

/// A template literal: `quasis.len() == exprs.len() + 1` literal runs with
/// the expressions between them.
#[derive(Debug)]
pub struct Tpl {
    pub quasis: Vec<String>,
    pub exprs: Vec<Expr>,
}

/// An argument or array element, possibly spread.
#[derive(Debug)]
pub struct ExprOrSpread {
    pub spread: bool,
    pub expr: Expr,
}

/// The name of an object property.
#[derive(Debug)]
pub enum PropName {
    Ident(String),
    Str(String),
    Num(Numeric),
    BigInt(Numeric),
    Computed(Box<Expr>),
}

/// An object property.
#[derive(Debug)]
pub enum Prop {
    /// `{ name }`
    Shorthand(String),
    /// `{ key: value }`
    KeyValue { key: PropName, value: Box<Expr> },
    /// Getters, setters, methods and assignment properties.
    Other(Opaque),
}

/// An entry of an object literal.
#[derive(Debug)]
pub enum PropOrSpread {
    Prop(Prop),
    Spread(Expr),
}

/// An object literal.
#[derive(Debug)]
pub struct ObjectLit {
    pub props: Vec<PropOrSpread>,
}

/// A binding pattern.
#[derive(Debug)]
pub enum Pat {
    Ident(String),
    Array(Vec<Option<Pat>>),
    Other(Opaque),
}

/// The body of an arrow function.
#[derive(Debug)]
pub enum BlockStmtOrExpr {
    BlockStmt(Vec<Stmt>),
    Expr(Box<Expr>),
}

/// An arrow function.
#[derive(Debug)]
pub struct ArrowExpr {
    pub params: Vec<Pat>,
    pub body: BlockStmtOrExpr,
    pub is_async: bool,
}

/// The left-hand side of an assignment.
#[derive(Debug)]
pub enum AssignTarget {
    Ident(String),
    Other(Opaque),
}

/// What is called in a call expression.
#[derive(Debug)]
pub enum Callee {
    Expr(Box<Expr>),
    /// `super` and `import`.
    Other,
}

/// An expression.
#[derive(Debug)]
pub enum Expr {
    Lit(Lit),
    Tpl(Tpl),
    Ident(String),
    Array(Vec<Option<ExprOrSpread>>),
    Object(ObjectLit),
    Call { callee: Callee, args: Vec<ExprOrSpread> },
    /// `obj.prop`
    Member { obj: Box<Expr>, prop: String },
    Await(Box<Expr>),
    Arrow(ArrowExpr),
    Paren(Box<Expr>),
    Cond { test: Box<Expr>, cons: Box<Expr>, alt: Box<Expr> },
    Assign { left: AssignTarget, right: Box<Expr> },
    JSXElement(Box<JSXElement>),
    JSXFragment(Vec<JSXElementChild>),
    Other(Opaque),
}

/// `let`, `const` or `var`.
#[derive(Debug, Clone, Copy, PartialEq, Eq, Structural)]
pub enum VarDeclKind {
    Var,
    Let,
    Const,
}

/// One binding of a variable declaration.
#[derive(Debug)]
pub struct VarDeclarator {
    pub name: Pat,
    pub init: Option<Expr>,
}

/// A variable declaration.
#[derive(Debug)]
pub struct VarDecl {
    pub kind: VarDeclKind,
    pub decls: Vec<VarDeclarator>,
}

/// Parameters and body of a function.
#[derive(Debug)]
pub struct Function {
    pub params: Vec<Pat>,
    pub body: Option<Vec<Stmt>>,
    pub is_async: bool,
}

/// A declaration.
#[derive(Debug)]
pub enum Decl {
    Class { ident: String, class: Opaque },
    Fn { ident: String, function: Function },
    Var(VarDecl),
    /// Type-level declarations and `using`.
    Other(Opaque),
}

/// A statement.
#[derive(Debug)]
pub enum Stmt {
    Return(Option<Expr>),
    Decl(Decl),
    Expr(Expr),
    Other(Opaque),
}

/// What `export default` declares.
#[derive(Debug)]
pub enum DefaultDecl {
    Class { ident: Option<String>, class: Opaque },
    Fn { ident: Option<String>, function: Function },
    TsInterfaceDecl,
}

/// A top-level item of a module.
#[derive(Debug)]
pub enum ModuleItem {
    /// `export * from "..."`
    ExportAll,
    ExportDecl(Decl),
    ExportDefaultDecl(DefaultDecl),
    ExportDefaultExpr(Expr),
    Stmt(Stmt),
    /// Imports, named exports and the like.
    Other(Opaque),
}

/// A parsed module.
#[derive(Debug)]
pub struct Program {
    pub body: Vec<ModuleItem>,
}

/// The object part of a dotted markup tag.
#[derive(Debug)]
pub enum JSXObject {
    Ident(String),
    JSXMemberExpr(Box<JSXMemberExpr>),
}

/// A dotted markup tag `obj.prop`.
#[derive(Debug)]
pub struct JSXMemberExpr {
    pub obj: JSXObject,
    pub prop: String,
}

/// A namespaced name `ns:name`.
#[derive(Debug, Clone)]
pub struct JSXNamespacedName {
    pub ns: String,
    pub name: String,
}

/// The tag of a markup element.
#[derive(Debug)]
pub enum JSXElementName {
    Ident(String),
    JSXMemberExpr(JSXMemberExpr),
    JSXNamespacedName(JSXNamespacedName),
}

/// The name of a markup attribute.
#[derive(Debug, Clone)]
pub enum JSXAttrName {
    Ident(String),
    JSXNamespacedName(JSXNamespacedName),
}

/// What stands between the braces of an expression container.
#[derive(Debug)]
pub enum JSXExpr {
    JSXEmptyExpr,
    Expr(Box<Expr>),
}

/// The value of a markup attribute.
#[derive(Debug)]
pub enum JSXAttrValue {
    Lit(Lit),
    JSXExprContainer(JSXExpr),
    JSXElement(Box<JSXElement>),
    JSXFragment(Vec<JSXElementChild>),
}

/// An attribute of a markup element.
#[derive(Debug)]
pub enum JSXAttrOrSpread {
    JSXAttr { name: JSXAttrName, value: Option<JSXAttrValue> },
    /// `{...expr}`; `printed` is the source text of `expr`.
    SpreadElement { expr: Box<Expr>, printed: String },
}

/// A child of a markup element.
#[derive(Debug)]
pub enum JSXElementChild {
    JSXText(String),
    JSXExprContainer(JSXExpr),
    JSXSpreadChild(Box<Expr>),
    JSXElement(Box<JSXElement>),
    JSXFragment(Vec<JSXElementChild>),
}

/// A markup element.
#[derive(Debug)]
pub struct JSXElement {
    pub name: JSXElementName,
    pub attrs: Vec<JSXAttrOrSpread>,
    pub children: Vec<JSXElementChild>,
}

} // verus!
