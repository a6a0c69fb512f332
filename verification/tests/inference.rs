use jsx_transpiler::ast::expr::{
    ArrowExpr, AssignTarget, BlockStmtOrExpr, Callee, Decl, DefaultDecl, Expr,
    Function, JSXElement, JSXElementName, Lit, ModuleItem, Node, Opaque, Pat, Program, Stmt,
    VarDecl, VarDeclKind, VarDeclarator,
};
use jsx_transpiler::error::CompileError;
use jsx_transpiler::export_type::ExportType;
use jsx_transpiler::type_info::TypeInfo;
use jsx_transpiler::typecheck::{any_return, TypecheckerCommon};
use jsx_transpiler::visitor::{infer_exports, TypecheckerVisitor};

fn markup() -> Expr {
    Expr::JSXElement(Box::new(JSXElement {
        name: JSXElementName::Ident("div".to_string()),
        attrs: vec![],
        children: vec![],
    }))
}

fn ident(name: &str) -> Expr {
    Expr::Ident(name.to_string())
}

fn number() -> Expr {
    Expr::Lit(Lit::Null)
}

fn call(callee: Expr) -> Expr {
    Expr::Call { callee: Callee::Expr(Box::new(callee)), args: vec![] }
}

fn arrow(body: Expr, is_async: bool) -> Expr {
    Expr::Arrow(ArrowExpr {
        params: vec![],
        body: BlockStmtOrExpr::Expr(Box::new(body)),
        is_async,
    })
}

fn block_arrow(stmts: Vec<Stmt>, is_async: bool) -> Expr {
    Expr::Arrow(ArrowExpr { params: vec![], body: BlockStmtOrExpr::BlockStmt(stmts), is_async })
}

fn var(name: &str, init: Expr) -> Decl {
    Decl::Var(VarDecl {
        kind: VarDeclKind::Const,
        decls: vec![VarDeclarator { name: Pat::Ident(name.to_string()), init: Some(init) }],
    })
}

fn function(name: &str, body: Vec<Stmt>, is_async: bool) -> Decl {
    Decl::Fn {
        ident: name.to_string(),
        function: Function { params: vec![], body: Some(body), is_async },
    }
}

fn ret(e: Expr) -> Stmt {
    Stmt::Return(Some(e))
}

fn exports_of(items: Vec<ModuleItem>) -> Vec<(String, ExportType)> {
    let exports = infer_exports(&Program { body: items }).unwrap();
    (0..exports.len()).map(|i| { let (k, v) = exports.entry(i); (k.clone(), *v) }).collect()
}

fn one(name: &str, t: ExportType) -> Vec<(String, ExportType)> {
    vec![(name.to_string(), t)]
}

#[test]
fn expressions_are_typed_by_their_shape() {
    let mut tc = TypecheckerCommon::new();
    tc.bind("a".to_string(), ExportType::JSX);
    tc.bind("b".to_string(), ExportType::AsyncOther);
    assert_eq!(tc.get_expr_type(&markup()), ExportType::JSX);
    assert_eq!(tc.get_expr_type(&Expr::JSXFragment(vec![])), ExportType::JSX);
    assert_eq!(tc.get_expr_type(&Expr::Await(Box::new(markup()))), ExportType::AsyncJSX);
    assert_eq!(tc.get_expr_type(&Expr::Await(Box::new(number()))), ExportType::AsyncOther);
    assert_eq!(tc.get_expr_type(&ident("a")), ExportType::JSX);
    assert_eq!(tc.get_expr_type(&ident("unknown")), ExportType::Other);
    assert_eq!(tc.get_expr_type(&call(ident("a"))), ExportType::JSX);
    assert_eq!(
        tc.get_expr_type(&Expr::Call { callee: Callee::Other, args: vec![] }),
        ExportType::Other
    );
    assert_eq!(tc.get_expr_type(&Expr::Paren(Box::new(ident("b")))), ExportType::AsyncOther);
    let cond = Expr::Cond {
        test: Box::new(markup()),
        cons: Box::new(ident("b")),
        alt: Box::new(ident("a")),
    };
    assert_eq!(tc.get_expr_type(&cond), ExportType::JSX);
    let assign = Expr::Assign {
        left: AssignTarget::Ident("x".to_string()),
        right: Box::new(ident("a")),
    };
    assert_eq!(tc.get_expr_type(&assign), ExportType::JSX);
    assert_eq!(
        tc.get_expr_type(&Expr::Member { obj: Box::new(ident("a")), prop: "p".to_string() }),
        ExportType::Other
    );
    // an arrow function has the type of the arrow function that was left last
    assert_eq!(tc.get_expr_type(&arrow(markup(), false)), ExportType::Other);
    tc.visit_expr(&arrow(markup(), true));
    assert_eq!(tc.get_expr_type(&arrow(number(), false)), ExportType::AsyncJSX);
}

#[test]
fn scopes_are_searched_from_the_innermost() {
    let mut tc = TypecheckerCommon::with_ident("_later".to_string());
    assert_eq!(tc.later_create_ident, "_later");
    assert_eq!(tc.get_variable_type("x"), None);
    assert_eq!(tc.is_ident_jsx("x"), ExportType::Other);
    tc.bind("x".to_string(), ExportType::JSX);
    tc.push_scope();
    assert_eq!(tc.get_variable_type("x"), Some(ExportType::JSX));
    tc.bind("x".to_string(), ExportType::AsyncOther);
    assert_eq!(tc.get_variable_type("x"), Some(ExportType::AsyncOther));
    tc.pop_scope();
    assert_eq!(tc.get_variable_type("x"), Some(ExportType::JSX));
    tc.pop_scope();
    assert_eq!(tc.get_variable_type("x"), None);
    // without a scope nothing can be bound, and nothing panics
    tc.pop_scope();
    tc.bind("x".to_string(), ExportType::JSX);
    assert_eq!(tc.get_variable_type("x"), None);
}

#[test]
fn exported_variables_take_the_type_of_their_initializer() {
    assert_eq!(
        exports_of(vec![ModuleItem::ExportDecl(var("view", markup()))]),
        one("view", ExportType::JSX)
    );
    assert_eq!(
        exports_of(vec![ModuleItem::ExportDecl(var("n", number()))]),
        one("n", ExportType::Other)
    );
    assert_eq!(
        exports_of(vec![
            ModuleItem::Stmt(Stmt::Decl(var("a", Expr::Await(Box::new(markup()))))),
            ModuleItem::ExportDecl(var("b", ident("a"))),
        ]),
        one("b", ExportType::AsyncJSX)
    );
    // patterns that are not plain identifiers are not tracked
    let destructured = Decl::Var(VarDecl {
        kind: VarDeclKind::Const,
        decls: vec![
            VarDeclarator { name: Pat::Array(vec![Some(Pat::Ident("x".to_string()))]), init: Some(markup()) },
            VarDeclarator { name: Pat::Ident("y".to_string()), init: None },
        ],
    });
    assert_eq!(exports_of(vec![ModuleItem::ExportDecl(destructured)]), one("y", ExportType::Other));
}

#[test]
fn exported_functions_take_the_type_of_what_they_return() {
    assert_eq!(
        exports_of(vec![ModuleItem::ExportDecl(function("App", vec![ret(markup())], false))]),
        one("App", ExportType::JSX)
    );
    assert_eq!(
        exports_of(vec![ModuleItem::ExportDecl(function("load", vec![ret(markup())], true))]),
        one("load", ExportType::AsyncJSX)
    );
    assert_eq!(
        exports_of(vec![ModuleItem::ExportDecl(function("count", vec![ret(number())], true))]),
        one("count", ExportType::AsyncOther)
    );
}

#[test]
fn a_function_without_return_is_other() {
    // function setup() { const x = <div/>; }  after a function that returned markup
    let items = vec![
        ModuleItem::Stmt(Stmt::Decl(function("first", vec![ret(markup())], false))),
        ModuleItem::ExportDecl(function(
            "setup",
            vec![Stmt::Decl(var("x", markup()))],
            false,
        )),
    ];
    assert_eq!(exports_of(items), one("setup", ExportType::Other));
    // a return nested in another statement does not count
    let nested = || Stmt::Other(Opaque { handle: 1, children: vec![Node::Stmt(ret(markup()))] });
    assert!(!any_return(&vec![nested()]));
    assert!(any_return(&vec![nested(), ret(markup())]));
    assert_eq!(
        exports_of(vec![ModuleItem::ExportDecl(function("f", vec![nested()], false))]),
        one("f", ExportType::Other)
    );
}

#[test]
fn functions_are_known_to_the_code_after_them() {
    // async function load() { return <div/> }  export const page = load();
    let items = vec![
        ModuleItem::Stmt(Stmt::Decl(function("load", vec![ret(markup())], true))),
        ModuleItem::ExportDecl(var("page", call(ident("load")))),
        ModuleItem::ExportDecl(var("early", call(ident("later")))),
        ModuleItem::Stmt(Stmt::Decl(function("later", vec![ret(markup())], false))),
    ];
    assert_eq!(
        exports_of(items),
        vec![("page".to_string(), ExportType::AsyncJSX), ("early".to_string(), ExportType::Other)]
    );
}

#[test]
fn bindings_of_a_function_stay_inside() {
    // function f() { const inner = <div/>; return 1 }  export const x = inner;
    let items = vec![
        ModuleItem::Stmt(Stmt::Decl(function(
            "f",
            vec![Stmt::Decl(var("inner", markup())), ret(number())],
            false,
        ))),
        ModuleItem::ExportDecl(var("x", ident("inner"))),
        ModuleItem::ExportDecl(var("y", ident("f"))),
    ];
    assert_eq!(
        exports_of(items),
        vec![("x".to_string(), ExportType::Other), ("y".to_string(), ExportType::Other)]
    );
}

#[test]
fn arrow_functions_are_typed_by_the_arrow_left_last() {
    // export const a = () => <div/>;  export const b = async () => 1;  export const c = () => 1;
    let items = vec![
        ModuleItem::ExportDecl(var("a", arrow(markup(), false))),
        ModuleItem::ExportDecl(var("b", arrow(number(), true))),
        ModuleItem::ExportDecl(var("c", arrow(number(), false))),
    ];
    assert_eq!(
        exports_of(items),
        vec![
            ("a".to_string(), ExportType::Other),
            ("b".to_string(), ExportType::JSX),
            ("c".to_string(), ExportType::AsyncOther),
        ]
    );
}

#[test]
fn block_arrows_take_the_type_of_their_return() {
    let mut tc = TypecheckerCommon::new();
    tc.visit_expr(&block_arrow(vec![ret(markup())], true));
    assert_eq!(tc.last_arrow_function_return_type, ExportType::AsyncJSX);
    assert_eq!(tc.return_type, ExportType::AsyncJSX);
    tc.visit_expr(&block_arrow(vec![Stmt::Expr(markup())], false));
    assert_eq!(tc.last_arrow_function_return_type, ExportType::Other);
    assert_eq!(tc.function_variable_types.len(), 1);
}

#[test]
fn assignments_bind_plain_identifiers() {
    let mut tc = TypecheckerCommon::new();
    tc.visit_expr(&Expr::Assign {
        left: AssignTarget::Ident("x".to_string()),
        right: Box::new(markup()),
    });
    assert_eq!(tc.get_variable_type("x"), Some(ExportType::JSX));
    tc.visit_expr(&Expr::Assign {
        left: AssignTarget::Other(Opaque { handle: 3, children: vec![Node::Expr(ident("o"))] }),
        right: Box::new(markup()),
    });
    assert_eq!(tc.get_variable_type("o"), None);
}

#[test]
fn default_exports() {
    let named = DefaultDecl::Fn {
        ident: Some("App".to_string()),
        function: Function { params: vec![], body: Some(vec![ret(markup())]), is_async: false },
    };
    // a function expression is not recorded in the scopes
    assert_eq!(exports_of(vec![ModuleItem::ExportDefaultDecl(named)]), one("App", ExportType::Other));
    let anonymous = DefaultDecl::Fn {
        ident: None,
        function: Function { params: vec![], body: Some(vec![ret(markup())]), is_async: false },
    };
    assert_eq!(
        exports_of(vec![ModuleItem::ExportDefaultDecl(anonymous)]),
        one("default", ExportType::JSX)
    );
    let class = DefaultDecl::Class { ident: Some("K".to_string()), class: Opaque { handle: 0, children: vec![] } };
    assert_eq!(exports_of(vec![ModuleItem::ExportDefaultDecl(class)]), one("K", ExportType::Other));
    let anonymous_class = DefaultDecl::Class { ident: None, class: Opaque { handle: 0, children: vec![] } };
    assert!(exports_of(vec![ModuleItem::ExportDefaultDecl(anonymous_class)]).is_empty());
    assert!(exports_of(vec![ModuleItem::ExportDefaultDecl(DefaultDecl::TsInterfaceDecl)]).is_empty());
}

#[test]
fn classes_and_type_declarations() {
    let class = Decl::Class { ident: "K".to_string(), class: Opaque { handle: 0, children: vec![] } };
    assert_eq!(exports_of(vec![ModuleItem::ExportDecl(class)]), one("K", ExportType::Other));
    let type_alias = Decl::Other(Opaque { handle: 9, children: vec![] });
    assert!(exports_of(vec![ModuleItem::ExportDecl(type_alias)]).is_empty());
    assert!(exports_of(vec![ModuleItem::Other(Opaque { handle: 2, children: vec![] })]).is_empty());
    assert!(exports_of(vec![]).is_empty());
}

#[test]
fn an_export_made_twice_keeps_its_place() {
    let items = vec![
        ModuleItem::ExportDecl(var("a", number())),
        ModuleItem::ExportDecl(var("b", number())),
        ModuleItem::ExportDecl(var("a", markup())),
    ];
    assert_eq!(
        exports_of(items),
        vec![("a".to_string(), ExportType::JSX), ("b".to_string(), ExportType::Other)]
    );
}

#[test]
fn unsupported_exports_are_refused() {
    let all = Program { body: vec![ModuleItem::ExportDecl(var("a", markup())), ModuleItem::ExportAll] };
    assert_eq!(infer_exports(&all).err(), Some(CompileError::ExportAll));
    let expr = Program { body: vec![ModuleItem::ExportDefaultExpr(markup())] };
    assert_eq!(infer_exports(&expr).err(), Some(CompileError::ExportDefaultExpr));
    assert_eq!(TypeInfo::get_exports(&expr).err(), Some(CompileError::ExportDefaultExpr));
    // the first one wins
    let both = Program { body: vec![ModuleItem::ExportDefaultExpr(markup()), ModuleItem::ExportAll] };
    assert_eq!(infer_exports(&both).err(), Some(CompileError::ExportDefaultExpr));
}

#[test]
fn the_walk_reaches_into_opaque_syntax_and_markup() {
    // if (c) { f = async () => <div/> }  export const g = f;
    let assign = Expr::Assign {
        left: AssignTarget::Ident("f".to_string()),
        right: Box::new(Expr::Await(Box::new(markup()))),
    };
    let guarded = Stmt::Other(Opaque {
        handle: 4,
        children: vec![Node::Expr(ident("c")), Node::Stmt(Stmt::Expr(assign))],
    });
    let items = vec![ModuleItem::Stmt(guarded), ModuleItem::ExportDecl(var("g", ident("f")))];
    assert_eq!(exports_of(items), one("g", ExportType::AsyncJSX));
}

#[test]
fn records_are_made_from_programs() {
    let program = Program { body: vec![ModuleItem::ExportDecl(var("view", markup()))] };
    let info = TypeInfo::of_program([7u8; 32], &program).unwrap();
    assert_eq!(info.hash, [7u8; 32]);
    assert_eq!(info.exports.get("view"), Some(&ExportType::JSX));
    assert_eq!(info.exports.get("other"), None);
    let bad = Program { body: vec![ModuleItem::ExportAll] };
    assert_eq!(TypeInfo::of_program([7u8; 32], &bad).err(), Some(CompileError::ExportAll));
}

#[test]
fn the_pass_can_be_driven_item_by_item() {
    let mut pass = TypecheckerVisitor::new();
    pass.visit_module_item(&ModuleItem::Stmt(Stmt::Decl(var("a", markup())))).unwrap();
    assert_eq!(pass.get_variable_type("a"), Some(ExportType::JSX));
    pass.visit_mut_export_decl(&var("b", ident("a")));
    assert_eq!(pass.exports.get("b"), Some(&ExportType::JSX));
    assert_eq!(pass.visit_mut_export_all(), Err(CompileError::ExportAll));
    assert_eq!(pass.visit_mut_export_default_expr(), Err(CompileError::ExportDefaultExpr));
}

#[test]
fn handlers_can_be_called_one_by_one() {
    let mut tc = TypecheckerCommon::new();
    tc.visit_mut_assign_expr(&AssignTarget::Ident("a".to_string()), &markup());
    assert_eq!(tc.get_variable_type("a"), Some(ExportType::JSX));

    tc.visit_mut_return_stmt(&Some(Expr::Await(Box::new(ident("a")))));
    assert_eq!(tc.return_type, ExportType::AsyncJSX);
    tc.visit_mut_return_stmt(&None);
    assert_eq!(tc.return_type, ExportType::AsyncJSX);

    let f = Function { params: vec![], body: Some(vec![ret(ident("a"))]), is_async: true };
    tc.visit_mut_fn_decl("load", &f);
    assert_eq!(tc.get_variable_type("load"), Some(ExportType::AsyncJSX));
    let declared = Function { params: vec![], body: None, is_async: false };
    tc.visit_mut_fn_decl("declared", &declared);
    assert_eq!(tc.get_variable_type("declared"), Some(ExportType::AsyncJSX));

    let d = VarDeclarator { name: Pat::Ident("b".to_string()), init: Some(call(ident("load"))) };
    tc.visit_mut_var_declarator(&d);
    assert_eq!(tc.get_variable_type("b"), Some(ExportType::AsyncJSX));

    let a = ArrowExpr {
        params: vec![Pat::Ident("p".to_string())],
        body: BlockStmtOrExpr::Expr(Box::new(ident("b"))),
        is_async: false,
    };
    tc.visit_mut_arrow_expr(&a);
    assert_eq!(tc.last_arrow_function_return_type, ExportType::AsyncJSX);
    assert_eq!(tc.get_variable_type("p"), None);
}
