//! Mathematical views of the syntax tree: strings become sequences of
//! characters and vectors become sequences.

use super::expr::{
    ArrowExpr, AssignTarget, BlockStmtOrExpr, Callee, Decl, DefaultDecl, Expr, ExprOrSpread,
    Function, JSXAttrName, JSXAttrOrSpread, JSXAttrValue, JSXElement, JSXElementChild,
    JSXElementName, JSXExpr, JSXMemberExpr, JSXNamespacedName, JSXObject, Lit, ModuleItem, Node,
    Numeric, ObjectLit, Opaque, Pat, Program, Prop, PropName, PropOrSpread, Regex, Stmt, Tpl,
        VarDecl,
    VarDeclKind, VarDeclarator,
};
use vstd::prelude::*;

verus! {

/// A numeric literal.
pub struct NumericView {
    pub text: Seq<char>,
    pub is_zero: bool,
}

/// A regular-expression literal.
pub struct RegexView {
    pub exp: Seq<char>,
    pub flags: Seq<char>,
}

/// A literal.
pub enum LitView {
    Str(Seq<char>),
    Bool(bool),
    Null,
    Num(NumericView),
    BigInt(NumericView),
    Regex(RegexView),
    JSXText(Seq<char>),
}

/// Uninterpreted syntax with the interpreted nodes below it.
pub struct OpaqueView {
    pub handle: u64,
    pub children: Seq<NodeView>,
}

/// A child of an opaque node.
pub enum NodeView {
    Expr(ExprView),
    Stmt(StmtView),
    Pat(PatView),
}

/// A template literal.
pub struct TplView {
    pub quasis: Seq<Seq<char>>,
    pub exprs: Seq<ExprView>,
}

/// An argument or array element.
pub struct ExprOrSpreadView {
    pub spread: bool,
    pub expr: ExprView,
}

/// The name of an object property.
pub enum PropNameView {
    Ident(Seq<char>),
    Str(Seq<char>),
    Num(NumericView),
    BigInt(NumericView),
    Computed(Box<ExprView>),
}

/// An object property.
pub enum PropView {
    Shorthand(Seq<char>),
    KeyValue { key: PropNameView, value: Box<ExprView> },
    Other(OpaqueView),
}

/// An entry of an object literal.
pub enum PropOrSpreadView {
    Prop(PropView),
    Spread(ExprView),
}

/// An object literal.
pub struct ObjectLitView {
    pub props: Seq<PropOrSpreadView>,
}

/// A binding pattern.
pub enum PatView {
    Ident(Seq<char>),
    Array(Seq<Option<PatView>>),
    Other(OpaqueView),
}

/// The body of an arrow function.
pub enum BlockStmtOrExprView {
    BlockStmt(Seq<StmtView>),
    Expr(Box<ExprView>),
}

/// An arrow function.
pub struct ArrowExprView {
    pub params: Seq<PatView>,
    pub body: BlockStmtOrExprView,
    pub is_async: bool,
}

/// The left-hand side of an assignment.
pub enum AssignTargetView {
    Ident(Seq<char>),
    Other(OpaqueView),
}

/// What is called in a call expression.
pub enum CalleeView {
    Expr(Box<ExprView>),
    Other,
}

/// An expression.
pub enum ExprView {
    Lit(LitView),
    Tpl(TplView),
    Ident(Seq<char>),
    Array(Seq<Option<ExprOrSpreadView>>),
    Object(ObjectLitView),
    Call { callee: CalleeView, args: Seq<ExprOrSpreadView> },
    Member { obj: Box<ExprView>, prop: Seq<char> },
    Await(Box<ExprView>),
    Arrow(ArrowExprView),
    Paren(Box<ExprView>),
    Cond { test: Box<ExprView>, cons: Box<ExprView>, alt: Box<ExprView> },
    Assign { left: AssignTargetView, right: Box<ExprView> },
    JSXElement(Box<JSXElementView>),
    JSXFragment(Seq<JSXElementChildView>),
    Other(OpaqueView),
}

/// One binding of a variable declaration.
pub struct VarDeclaratorView {
    pub name: PatView,
    pub init: Option<ExprView>,
}

/// A variable declaration.
pub struct VarDeclView {
    pub kind: VarDeclKind,
    pub decls: Seq<VarDeclaratorView>,
}

/// Parameters and body of a function.
pub struct FunctionView {
    pub params: Seq<PatView>,
    pub body: Option<Seq<StmtView>>,
    pub is_async: bool,
}

/// A declaration.
pub enum DeclView {
    Class { ident: Seq<char>, class: OpaqueView },
    Fn { ident: Seq<char>, function: FunctionView },
    Var(VarDeclView),
    Other(OpaqueView),
}

/// A statement.
pub enum StmtView {
    Return(Option<ExprView>),
    Decl(DeclView),
    Expr(ExprView),
    Other(OpaqueView),
}

/// What `export default` declares.
pub enum DefaultDeclView {
    Class { ident: Option<Seq<char>>, class: OpaqueView },
    Fn { ident: Option<Seq<char>>, function: FunctionView },
    TsInterfaceDecl,
}

/// A top-level item of a module.
pub enum ModuleItemView {
    ExportAll,
    ExportDecl(DeclView),
    ExportDefaultDecl(DefaultDeclView),
    ExportDefaultExpr(ExprView),
    Stmt(StmtView),
    Other(OpaqueView),
}

/// A parsed module.
pub struct ProgramView {
    pub body: Seq<ModuleItemView>,
}

/// The object part of a dotted markup tag.
pub enum JSXObjectView {
    Ident(Seq<char>),
    JSXMemberExpr(Box<JSXMemberExprView>),
}

/// A dotted markup tag.
pub struct JSXMemberExprView {
    pub obj: JSXObjectView,
    pub prop: Seq<char>,
}

/// A namespaced name.
pub struct JSXNamespacedNameView {
    pub ns: Seq<char>,
    pub name: Seq<char>,
}

/// The tag of a markup element.
pub enum JSXElementNameView {
    Ident(Seq<char>),
    JSXMemberExpr(JSXMemberExprView),
    JSXNamespacedName(JSXNamespacedNameView),
}

/// The name of a markup attribute.
pub enum JSXAttrNameView {
    Ident(Seq<char>),
    JSXNamespacedName(JSXNamespacedNameView),
}

/// The content of an expression container.
pub enum JSXExprView {
    JSXEmptyExpr,
    Expr(Box<ExprView>),
}

/// The value of a markup attribute.
pub enum JSXAttrValueView {
    Lit(LitView),
    JSXExprContainer(JSXExprView),
    JSXElement(Box<JSXElementView>),
    JSXFragment(Seq<JSXElementChildView>),
}

/// An attribute of a markup element.
pub enum JSXAttrOrSpreadView {
    JSXAttr { name: JSXAttrNameView, value: Option<JSXAttrValueView> },
    SpreadElement { expr: Box<ExprView>, printed: Seq<char> },
}

/// A child of a markup element.
pub enum JSXElementChildView {
    JSXText(Seq<char>),
    JSXExprContainer(JSXExprView),
    JSXSpreadChild(Box<ExprView>),
    JSXElement(Box<JSXElementView>),
    JSXFragment(Seq<JSXElementChildView>),
}

/// A markup element.
pub struct JSXElementView {
    pub name: JSXElementNameView,
    pub attrs: Seq<JSXAttrOrSpreadView>,
    pub children: Seq<JSXElementChildView>,
}

/// The views of a sequence of nodes, element by element.
pub open spec fn nodes_view(s: Seq<Node>) -> Seq<NodeView>
    decreases s,
{
    Seq::new(
        s.len(),
        |i: int|
            if 0 <= i < s.len() {
                s[i].view()
            } else {
                arbitrary()
            },
    )
}

/// The texts of a sequence of strings.
pub open spec fn strings_view(s: Seq<String>) -> Seq<Seq<char>> {
    Seq::new(s.len(), |i: int| s[i]@)
}

/// The views of a sequence of nodes, element by element.
pub open spec fn exprs_view(s: Seq<Expr>) -> Seq<ExprView>
    decreases s,
{
    Seq::new(
        s.len(),
        |i: int|
            if 0 <= i < s.len() {
                s[i].view()
            } else {
                arbitrary()
            },
    )
}

/// The views of a sequence of optional nodes, element by element.
pub open spec fn opt_pats_view(s: Seq<Option<Pat>>) -> Seq<Option<PatView>>
    decreases s,
{
    Seq::new(
        s.len(),
        |i: int|
            if 0 <= i < s.len() {
                match s[i] {
                    Some(x) => Some(x.view()),
                    None => None,
                }
            } else {
                arbitrary()
            },
    )
}

/// The views of a sequence of nodes, element by element.
pub open spec fn stmts_view(s: Seq<Stmt>) -> Seq<StmtView>
    decreases s,
{
    Seq::new(
        s.len(),
        |i: int|
            if 0 <= i < s.len() {
                s[i].view()
            } else {
                arbitrary()
            },
    )
}

/// The views of a sequence of nodes, element by element.
pub open spec fn pats_view(s: Seq<Pat>) -> Seq<PatView>
    decreases s,
{
    Seq::new(
        s.len(),
        |i: int|
            if 0 <= i < s.len() {
                s[i].view()
            } else {
                arbitrary()
            },
    )
}

/// The views of a sequence of optional nodes, element by element.
pub open spec fn opt_expr_or_spreads_view(s: Seq<Option<ExprOrSpread>>)
    -> Seq<Option<ExprOrSpreadView>>
    decreases s,
{
    Seq::new(
        s.len(),
        |i: int|
            if 0 <= i < s.len() {
                match s[i] {
                    Some(x) => Some(x.view()),
                    None => None,
                }
            } else {
                arbitrary()
            },
    )
}

/// The views of a sequence of nodes, element by element.
pub open spec fn prop_or_spreads_view(s: Seq<PropOrSpread>) -> Seq<PropOrSpreadView>
    decreases s,
{
    Seq::new(
        s.len(),
        |i: int|
            if 0 <= i < s.len() {
                s[i].view()
            } else {
                arbitrary()
            },
    )
}

/// The views of a sequence of nodes, element by element.
pub open spec fn expr_or_spreads_view(s: Seq<ExprOrSpread>) -> Seq<ExprOrSpreadView>
    decreases s,
{
    Seq::new(
        s.len(),
        |i: int|
            if 0 <= i < s.len() {
                s[i].view()
            } else {
                arbitrary()
            },
    )
}

/// The views of a sequence of nodes, element by element.
pub open spec fn jsx_children_view(s: Seq<JSXElementChild>) -> Seq<JSXElementChildView>
    decreases s,
{
    Seq::new(
        s.len(),
        |i: int|
            if 0 <= i < s.len() {
                s[i].view()
            } else {
                arbitrary()
            },
    )
}

/// The views of a sequence of nodes, element by element.
pub open spec fn var_declarators_view(s: Seq<VarDeclarator>) -> Seq<VarDeclaratorView>
    decreases s,
{
    Seq::new(
        s.len(),
        |i: int|
            if 0 <= i < s.len() {
                s[i].view()
            } else {
                arbitrary()
            },
    )
}

/// The views of a sequence of nodes, element by element.
pub open spec fn module_items_view(s: Seq<ModuleItem>) -> Seq<ModuleItemView>
    decreases s,
{
    Seq::new(
        s.len(),
        |i: int|
            if 0 <= i < s.len() {
                s[i].view()
            } else {
                arbitrary()
            },
    )
}

/// The views of a sequence of nodes, element by element.
pub open spec fn jsx_attrs_view(s: Seq<JSXAttrOrSpread>) -> Seq<JSXAttrOrSpreadView>
    decreases s,
{
    Seq::new(
        s.len(),
        |i: int|
            if 0 <= i < s.len() {
                s[i].view()
            } else {
                arbitrary()
            },
    )
}

/// The view of the value of an attribute, if it has one.
pub open spec fn opt_attr_value_view(value: Option<JSXAttrValue>) -> Option<JSXAttrValueView> {
    match value {
        Some(x) => Some(x.view()),
        None => None,
    }
}

/// The text of an optional string.
pub open spec fn opt_string_view(s: Option<String>) -> Option<Seq<char>> {
    match s {
        Some(x) => Some(x@),
        None => None,
    }
}

impl Numeric {
    /// The mathematical value of this node.
    pub open spec fn view(&self) -> NumericView
        decreases self,
    {
        NumericView {
            text: self.text@,
            is_zero: self.is_zero,
        }
    }
}

impl Regex {
    /// The mathematical value of this node.
    pub open spec fn view(&self) -> RegexView
        decreases self,
    {
        RegexView {
            exp: self.exp@,
            flags: self.flags@,
        }
    }
}

impl Lit {
    /// The mathematical value of this node.
    pub open spec fn view(&self) -> LitView
        decreases self,
    {
        match self {
            Lit::Str(a) => LitView::Str(a@),
            Lit::Bool(a) => LitView::Bool(*a),
            Lit::Null => LitView::Null,
            Lit::Num(a) => LitView::Num(a.view()),
            Lit::BigInt(a) => LitView::BigInt(a.view()),
            Lit::Regex(a) => LitView::Regex(a.view()),
            Lit::JSXText(a) => LitView::JSXText(a@),
        }
    }
}

impl Opaque {
    /// The mathematical value of this node.
    pub open spec fn view(&self) -> OpaqueView
        decreases self,
    {
        OpaqueView {
            handle: self.handle,
            children: nodes_view(self.children@),
        }
    }
}

impl Node {
    /// The mathematical value of this node.
    pub open spec fn view(&self) -> NodeView
        decreases self,
    {
        match self {
            Node::Expr(a) => NodeView::Expr(a.view()),
            Node::Stmt(a) => NodeView::Stmt(a.view()),
            Node::Pat(a) => NodeView::Pat(a.view()),
        }
    }
}

impl Tpl {
    /// The mathematical value of this node.
    pub open spec fn view(&self) -> TplView
        decreases self,
    {
        TplView {
            quasis: strings_view(self.quasis@),
            exprs: exprs_view(self.exprs@),
        }
    }
}

impl ExprOrSpread {
    /// The mathematical value of this node.
    pub open spec fn view(&self) -> ExprOrSpreadView
        decreases self,
    {
        ExprOrSpreadView {
            spread: self.spread,
            expr: self.expr.view(),
        }
    }
}

impl PropName {
    /// The mathematical value of this node.
    pub open spec fn view(&self) -> PropNameView
        decreases self,
    {
        match self {
            PropName::Ident(a) => PropNameView::Ident(a@),
            PropName::Str(a) => PropNameView::Str(a@),
            PropName::Num(a) => PropNameView::Num(a.view()),
            PropName::BigInt(a) => PropNameView::BigInt(a.view()),
            PropName::Computed(a) => PropNameView::Computed(Box::new(a.view())),
        }
    }
}

impl Prop {
    /// The mathematical value of this node.
    pub open spec fn view(&self) -> PropView
        decreases self,
    {
        match self {
            Prop::Shorthand(a) => PropView::Shorthand(a@),
            Prop::KeyValue { key, value } => PropView::KeyValue { key: key.view(),
                value: Box::new(value.view()) },
            Prop::Other(a) => PropView::Other(a.view()),
        }
    }
}

impl PropOrSpread {
    /// The mathematical value of this node.
    pub open spec fn view(&self) -> PropOrSpreadView
        decreases self,
    {
        match self {
            PropOrSpread::Prop(a) => PropOrSpreadView::Prop(a.view()),
            PropOrSpread::Spread(a) => PropOrSpreadView::Spread(a.view()),
        }
    }
}

impl ObjectLit {
    /// The mathematical value of this node.
    pub open spec fn view(&self) -> ObjectLitView
        decreases self,
    {
        ObjectLitView { props: prop_or_spreads_view(self.props@) }
    }
}

impl Pat {
    /// The mathematical value of this node.
    pub open spec fn view(&self) -> PatView
        decreases self,
    {
        match self {
            Pat::Ident(a) => PatView::Ident(a@),
            Pat::Array(a) => PatView::Array(opt_pats_view(a@)),
            Pat::Other(a) => PatView::Other(a.view()),
        }
    }
}

impl BlockStmtOrExpr {
    /// The mathematical value of this node.
    pub open spec fn view(&self) -> BlockStmtOrExprView
        decreases self,
    {
        match self {
            BlockStmtOrExpr::BlockStmt(a) => BlockStmtOrExprView::BlockStmt(stmts_view(a@)),
            BlockStmtOrExpr::Expr(a) => BlockStmtOrExprView::Expr(Box::new(a.view())),
        }
    }
}

impl ArrowExpr {
    /// The mathematical value of this node.
    pub open spec fn view(&self) -> ArrowExprView
        decreases self,
    {
        ArrowExprView {
            params: pats_view(self.params@),
            body: self.body.view(),
            is_async: self.is_async,
        }
    }
}

impl AssignTarget {
    /// The mathematical value of this node.
    pub open spec fn view(&self) -> AssignTargetView
        decreases self,
    {
        match self {
            AssignTarget::Ident(a) => AssignTargetView::Ident(a@),
            AssignTarget::Other(a) => AssignTargetView::Other(a.view()),
        }
    }
}

impl Callee {
    /// The mathematical value of this node.
    pub open spec fn view(&self) -> CalleeView
        decreases self,
    {
        match self {
            Callee::Expr(a) => CalleeView::Expr(Box::new(a.view())),
            Callee::Other => CalleeView::Other,
        }
    }
}

impl Expr {
    /// The mathematical value of this node.
    pub open spec fn view(&self) -> ExprView
        decreases self,
    {
        match self {
            Expr::Lit(a) => ExprView::Lit(a.view()),
            Expr::Tpl(a) => ExprView::Tpl(a.view()),
            Expr::Ident(a) => ExprView::Ident(a@),
            Expr::Array(a) => ExprView::Array(opt_expr_or_spreads_view(a@)),
            Expr::Object(a) => ExprView::Object(a.view()),
            Expr::Call { callee, args } => ExprView::Call { callee: callee.view(),
                args: expr_or_spreads_view(args@) },
            Expr::Member { obj, prop } => ExprView::Member { obj: Box::new(obj.view()),
                prop: prop@ },
            Expr::Await(a) => ExprView::Await(Box::new(a.view())),
            Expr::Arrow(a) => ExprView::Arrow(a.view()),
            Expr::Paren(a) => ExprView::Paren(Box::new(a.view())),
            Expr::Cond { test, cons, alt } => ExprView::Cond { test: Box::new(test.view()),
                cons: Box::new(cons.view()), alt: Box::new(alt.view()) },
            Expr::Assign { left, right } => ExprView::Assign { left: left.view(),
                right: Box::new(right.view()) },
            Expr::JSXElement(a) => ExprView::JSXElement(Box::new(a.view())),
            Expr::JSXFragment(a) => ExprView::JSXFragment(jsx_children_view(a@)),
            Expr::Other(a) => ExprView::Other(a.view()),
        }
    }
}

impl VarDeclarator {
    /// The mathematical value of this node.
    pub open spec fn view(&self) -> VarDeclaratorView
        decreases self,
    {
        VarDeclaratorView {
            name: self.name.view(),
            init: match self.init {
                Some(x) => Some(x.view()),
                None => None,
            },
        }
    }
}

impl VarDecl {
    /// The mathematical value of this node.
    pub open spec fn view(&self) -> VarDeclView
        decreases self,
    {
        VarDeclView {
            kind: self.kind,
            decls: var_declarators_view(self.decls@),
        }
    }
}

impl Function {
    /// The mathematical value of this node.
    pub open spec fn view(&self) -> FunctionView
        decreases self,
    {
        FunctionView {
            params: pats_view(self.params@),
            body: match self.body {
                Some(x) => Some(stmts_view(x@)),
                None => None,
            },
            is_async: self.is_async,
        }
    }
}

impl Decl {
    /// The mathematical value of this node.
    pub open spec fn view(&self) -> DeclView
        decreases self,
    {
        match self {
            Decl::Class { ident, class } => DeclView::Class { ident: ident@, class: class.view() },
            Decl::Fn { ident, function } => DeclView::Fn { ident: ident@,
                function: function.view() },
            Decl::Var(a) => DeclView::Var(a.view()),
            Decl::Other(a) => DeclView::Other(a.view()),
        }
    }
}

impl Stmt {
    /// The mathematical value of this node.
    pub open spec fn view(&self) -> StmtView
        decreases self,
    {
        match self {
            Stmt::Return(a) => StmtView::Return(match a {
                Some(x) => Some(x.view()),
                None => None,
            }),
            Stmt::Decl(a) => StmtView::Decl(a.view()),
            Stmt::Expr(a) => StmtView::Expr(a.view()),
            Stmt::Other(a) => StmtView::Other(a.view()),
        }
    }
}

impl DefaultDecl {
    /// The mathematical value of this node.
    pub open spec fn view(&self) -> DefaultDeclView
        decreases self,
    {
        match self {
            DefaultDecl::Class { ident, class } => DefaultDeclView::Class { ident: match ident {
                Some(x) => Some(x@),
                None => None,
            }, class: class.view() },
            DefaultDecl::Fn { ident, function } => DefaultDeclView::Fn { ident: match ident {
                Some(x) => Some(x@),
                None => None,
            }, function: function.view() },
            DefaultDecl::TsInterfaceDecl => DefaultDeclView::TsInterfaceDecl,
        }
    }
}

impl ModuleItem {
    /// The mathematical value of this node.
    pub open spec fn view(&self) -> ModuleItemView
        decreases self,
    {
        match self {
            ModuleItem::ExportAll => ModuleItemView::ExportAll,
            ModuleItem::ExportDecl(a) => ModuleItemView::ExportDecl(a.view()),
            ModuleItem::ExportDefaultDecl(a) => ModuleItemView::ExportDefaultDecl(a.view()),
            ModuleItem::ExportDefaultExpr(a) => ModuleItemView::ExportDefaultExpr(a.view()),
            ModuleItem::Stmt(a) => ModuleItemView::Stmt(a.view()),
            ModuleItem::Other(a) => ModuleItemView::Other(a.view()),
        }
    }
}

impl Program {
    /// The mathematical value of this node.
    pub open spec fn view(&self) -> ProgramView
        decreases self,
    {
        ProgramView {
            body: module_items_view(self.body@),
        }
    }
}

impl JSXObject {
    /// The mathematical value of this node.
    pub open spec fn view(&self) -> JSXObjectView
        decreases self,
    {
        match self {
            JSXObject::Ident(a) => JSXObjectView::Ident(a@),
            JSXObject::JSXMemberExpr(a) => JSXObjectView::JSXMemberExpr(Box::new(a.view())),
        }
    }
}

impl JSXMemberExpr {
    /// The mathematical value of this node.
    pub open spec fn view(&self) -> JSXMemberExprView
        decreases self,
    {
        JSXMemberExprView {
            obj: self.obj.view(),
            prop: self.prop@,
        }
    }
}

impl JSXNamespacedName {
    /// The mathematical value of this node.
    pub open spec fn view(&self) -> JSXNamespacedNameView
        decreases self,
    {
        JSXNamespacedNameView {
            ns: self.ns@,
            name: self.name@,
        }
    }
}

impl JSXElementName {
    /// The mathematical value of this node.
    pub open spec fn view(&self) -> JSXElementNameView
        decreases self,
    {
        match self {
            JSXElementName::Ident(a) => JSXElementNameView::Ident(a@),
            JSXElementName::JSXMemberExpr(a) => JSXElementNameView::JSXMemberExpr(a.view()),
            JSXElementName::JSXNamespacedName(a) => JSXElementNameView::JSXNamespacedName(a.view()),
        }
    }
}

impl JSXAttrName {
    /// The mathematical value of this node.
    pub open spec fn view(&self) -> JSXAttrNameView
        decreases self,
    {
        match self {
            JSXAttrName::Ident(a) => JSXAttrNameView::Ident(a@),
            JSXAttrName::JSXNamespacedName(a) => JSXAttrNameView::JSXNamespacedName(a.view()),
        }
    }
}

impl JSXExpr {
    /// The mathematical value of this node.
    pub open spec fn view(&self) -> JSXExprView
        decreases self,
    {
        match self {
            JSXExpr::JSXEmptyExpr => JSXExprView::JSXEmptyExpr,
            JSXExpr::Expr(a) => JSXExprView::Expr(Box::new(a.view())),
        }
    }
}

impl JSXAttrValue {
    /// The mathematical value of this node.
    pub open spec fn view(&self) -> JSXAttrValueView
        decreases self,
    {
        match self {
            JSXAttrValue::Lit(a) => JSXAttrValueView::Lit(a.view()),
            JSXAttrValue::JSXExprContainer(a) => JSXAttrValueView::JSXExprContainer(a.view()),
            JSXAttrValue::JSXElement(a) => JSXAttrValueView::JSXElement(Box::new(a.view())),
            JSXAttrValue::JSXFragment(a) => JSXAttrValueView::JSXFragment(jsx_children_view(a@)),
        }
    }
}

impl JSXAttrOrSpread {
    /// The mathematical value of this node.
    pub open spec fn view(&self) -> JSXAttrOrSpreadView
        decreases self,
    {
        match self {
            JSXAttrOrSpread::JSXAttr { name,
                value } => JSXAttrOrSpreadView::JSXAttr { name: name.view(), value: match value {
                Some(x) => Some(x.view()),
                None => None,
            } },
            JSXAttrOrSpread::SpreadElement { expr,
                printed } => JSXAttrOrSpreadView::SpreadElement { expr: Box::new(expr.view()),
                    printed: printed@ },
        }
    }
}

impl JSXElementChild {
    /// The mathematical value of this node.
    pub open spec fn view(&self) -> JSXElementChildView
        decreases self,
    {
        match self {
            JSXElementChild::JSXText(a) => JSXElementChildView::JSXText(a@),
            JSXElementChild::JSXExprContainer(a) => JSXElementChildView::JSXExprContainer(a.view()),
            JSXElementChild::JSXSpreadChild(a) => JSXElementChildView::JSXSpreadChild(
                Box::new(a.view()),
            ),
            JSXElementChild::JSXElement(a) => JSXElementChildView::JSXElement(Box::new(a.view())),
            JSXElementChild::JSXFragment(a) => JSXElementChildView::JSXFragment(
                jsx_children_view(a@),
            ),
        }
    }
}

impl JSXElement {
    /// The mathematical value of this node.
    pub open spec fn view(&self) -> JSXElementView
        decreases self,
    {
        JSXElementView {
            name: self.name.view(),
            attrs: jsx_attrs_view(self.attrs@),
            children: jsx_children_view(self.children@),
        }
    }
}

} // verus!
