//! Constructors for the nodes that generated code is made of.

use super::expr::{
    ArrowExpr, BlockStmtOrExpr, Callee, Decl, Expr, ExprOrSpread, Lit, ObjectLit, Pat, Prop,
    PropName, PropOrSpread, Regex, Stmt, Tpl, VarDecl, VarDeclKind, VarDeclarator,
};
use super::view::{
    expr_or_spreads_view, opt_expr_or_spreads_view, opt_pats_view, pats_view, prop_or_spreads_view,
    stmts_view, var_declarators_view, ArrowExprView, BlockStmtOrExprView, CalleeView, DeclView,
    ExprOrSpreadView, ExprView, LitView, ObjectLitView, PatView, PropNameView, PropOrSpreadView,
    PropView, RegexView, StmtView, VarDeclView, VarDeclaratorView,
};
use vstd::prelude::*;

verus! {

/// The identifier `name`.
pub fn ident(name: String) -> (r: Expr)
    ensures
        r@ == ExprView::Ident(name@),
{
    Expr::Ident(name)
}

/// The string literal with the text `value`.
pub fn lit_str(value: String) -> (r: Expr)
    ensures
        r@ == ExprView::Lit(LitView::Str(value@)),
{
    Expr::Lit(Lit::Str(value))
}

/// The literal `true` or `false`.
pub fn lit_bool(value: bool) -> (r: Expr)
    ensures
        r@ == ExprView::Lit(LitView::Bool(value)),
{
    Expr::Lit(Lit::Bool(value))
}

/// The regular-expression literal `/exp/flags`.
pub fn lit_regex(exp: String, flags: String) -> (r: Expr)
    ensures
        r@ == ExprView::Lit(LitView::Regex(RegexView { exp: exp@, flags: flags@ })),
{
    Expr::Lit(Lit::Regex(Regex { exp, flags }))
}

/// The literal `lit` as an expression.
pub fn lit(value: Lit) -> (r: Expr)
    ensures
        r@ == ExprView::Lit(value@),
{
    Expr::Lit(value)
}

/// The template `tpl` as an expression.
pub fn tpl(value: Tpl) -> (r: Expr)
    ensures
        r@ == ExprView::Tpl(value@),
{
    Expr::Tpl(value)
}

/// `obj.prop`
pub fn member(obj: Expr, prop: String) -> (r: Expr)
    ensures
        r@ == (ExprView::Member { obj: Box::new(obj@), prop: prop@ }),
{
    Expr::Member { obj: Box::new(obj), prop }
}

/// `callee(args)`
pub fn call(callee: Expr, args: Vec<ExprOrSpread>) -> (r: Expr)
    ensures
        r@ == (ExprView::Call {
            callee: CalleeView::Expr(Box::new(callee@)),
            args: expr_or_spreads_view(args@),
        }),
{
    let callee = Callee::Expr(Box::new(callee));
    assert(callee@ == CalleeView::Expr(Box::new(callee->0@)));
    Expr::Call { callee, args }
}

/// `await arg`
pub fn await_expr(arg: Expr) -> (r: Expr)
    ensures
        r@ == ExprView::Await(Box::new(arg@)),
{
    Expr::Await(Box::new(arg))
}

/// `(expr)`
pub fn paren(expr: Expr) -> (r: Expr)
    ensures
        r@ == ExprView::Paren(Box::new(expr@)),
{
    Expr::Paren(Box::new(expr))
}

/// The array literal with the given elements.
pub fn array(elems: Vec<Option<ExprOrSpread>>) -> (r: Expr)
    ensures
        r@ == ExprView::Array(opt_expr_or_spreads_view(elems@)),
{
    Expr::Array(elems)
}

/// The object literal with the given entries.
pub fn object(props: Vec<PropOrSpread>) -> (r: Expr)
    ensures
        r@ == ExprView::Object(ObjectLitView { props: prop_or_spreads_view(props@) }),
{
    let obj = ObjectLit { props };
    assert(obj@ == ObjectLitView { props: prop_or_spreads_view(props@) });
    Expr::Object(obj)
}

/// The object entry `key: value`, with an identifier as key.
pub fn key_value(key: String, value: Expr) -> (r: PropOrSpread)
    ensures
        r@ == PropOrSpreadView::Prop(
            PropView::KeyValue { key: PropNameView::Ident(key@), value: Box::new(value@) },
        ),
{
    let key = PropName::Ident(key);
    assert(key@ == PropNameView::Ident(key->Ident_0@));
    let prop = Prop::KeyValue { key, value: Box::new(value) };
    assert(prop@ == PropView::KeyValue { key: key@, value: Box::new(value@) });
    PropOrSpread::Prop(prop)
}

/// The object entry `...expr`.
pub fn spread_prop(expr: Expr) -> (r: PropOrSpread)
    ensures
        r@ == PropOrSpreadView::Spread(expr@),
{
    PropOrSpread::Spread(expr)
}

/// An argument or element that is not spread.
pub fn arg(expr: Expr) -> (r: ExprOrSpread)
    ensures
        r@ == (ExprOrSpreadView { spread: false, expr: expr@ }),
{
    ExprOrSpread { spread: false, expr }
}

/// An arrow function with a block as body.
pub fn arrow_block(params: Vec<Pat>, stmts: Vec<Stmt>, is_async: bool) -> (r: Expr)
    ensures
        r@ == ExprView::Arrow(
            ArrowExprView {
                params: pats_view(params@),
                body: BlockStmtOrExprView::BlockStmt(stmts_view(stmts@)),
                is_async,
            },
        ),
{
    let body = BlockStmtOrExpr::BlockStmt(stmts);
    assert(body@ == BlockStmtOrExprView::BlockStmt(stmts_view(stmts@)));
    let arrow = ArrowExpr { params, body, is_async };
    assert(arrow@ == ArrowExprView { params: pats_view(params@), body: body@, is_async });
    Expr::Arrow(arrow)
}

/// An arrow function with an expression as body.
pub fn arrow_expr(params: Vec<Pat>, body: Expr, is_async: bool) -> (r: Expr)
    ensures
        r@ == ExprView::Arrow(
            ArrowExprView {
                params: pats_view(params@),
                body: BlockStmtOrExprView::Expr(Box::new(body@)),
                is_async,
            },
        ),
{
    let body = BlockStmtOrExpr::Expr(Box::new(body));
    assert(body@ == BlockStmtOrExprView::Expr(Box::new(body->Expr_0@)));
    let arrow = ArrowExpr { params, body, is_async };
    assert(arrow@ == ArrowExprView { params: pats_view(params@), body: body@, is_async });
    Expr::Arrow(arrow)
}

/// The pattern that binds `name`.
pub fn pat_ident(name: String) -> (r: Pat)
    ensures
        r@ == PatView::Ident(name@),
{
    Pat::Ident(name)
}

/// The array pattern with the given elements.
pub fn pat_array(elems: Vec<Option<Pat>>) -> (r: Pat)
    ensures
        r@ == PatView::Array(opt_pats_view(elems@)),
{
    Pat::Array(elems)
}

/// `const name = init;`
pub fn const_decl(name: Pat, init: Expr) -> (r: Stmt)
    ensures
        r@ == StmtView::Decl(
            DeclView::Var(
                VarDeclView {
                    kind: VarDeclKind::Const,
                    decls: seq![VarDeclaratorView { name: name@, init: Some(init@) }],
                },
            ),
        ),
{
    let declarator = VarDeclarator { name, init: Some(init) };
    assert(declarator@ == VarDeclaratorView { name: name@, init: Some(init@) });
    let mut decls: Vec<VarDeclarator> = Vec::new();
    decls.push(declarator);
    assert(var_declarators_view(decls@) =~= seq![declarator@]);
    let var = VarDecl { kind: VarDeclKind::Const, decls };
    assert(var@ == VarDeclView { kind: VarDeclKind::Const, decls: var_declarators_view(decls@) });
    let decl = Decl::Var(var);
    assert(decl@ == DeclView::Var(var@));
    Stmt::Decl(decl)
}

/// `expr;`
pub fn expr_stmt(expr: Expr) -> (r: Stmt)
    ensures
        r@ == StmtView::Expr(expr@),
{
    Stmt::Expr(expr)
}

/// `return arg;`
pub fn return_stmt(arg: Expr) -> (r: Stmt)
    ensures
        r@ == StmtView::Return(Some(arg@)),
{
    Stmt::Return(Some(arg))
}

} // verus!
