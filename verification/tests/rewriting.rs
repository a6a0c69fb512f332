use jsx_transpiler::ast::expr::{
    ArrowExpr, BlockStmtOrExpr, Callee, Decl, Expr, ExprOrSpread, Function, JSXElement,
    JSXElementChild, JSXElementName, JSXExpr, Lit, ModuleItem, Node, Opaque, Pat, Program, Prop,
    PropName, PropOrSpread, Stmt, VarDecl, VarDeclKind, VarDeclarator,
};
use jsx_transpiler::error::CompileError;
use jsx_transpiler::export_type::ExportType;
use jsx_transpiler::rewriter::transpile;
use jsx_transpiler::style_name::StyleNameCache;
use jsx_transpiler::transpiler::TranspileVisitor;

// Prints the generated code compactly, enough to compare it as text.
fn js(e: &Expr) -> String {
    match e {
        Expr::Ident(name) => name.clone(),
        Expr::Lit(Lit::Str(s)) => format!("{:?}", s),
        Expr::Lit(Lit::Bool(b)) => format!("{}", b),
        Expr::Lit(Lit::Null) => "null".to_string(),
        Expr::Lit(Lit::Num(n)) => n.text.clone(),
        Expr::Lit(Lit::BigInt(n)) => format!("{}n", n.text),
        Expr::Lit(Lit::Regex(r)) => format!("/{}/{}", r.exp, r.flags),
        Expr::Lit(Lit::JSXText(s)) => format!("{:?}", s),
        Expr::Tpl(tpl) => {
            let mut out = String::from("`");
            for (i, quasi) in tpl.quasis.iter().enumerate() {
                out.push_str(quasi);
                if i < tpl.exprs.len() {
                    out.push_str(&format!("${{{}}}", js(&tpl.exprs[i])));
                }
            }
            out.push('`');
            out
        }
        Expr::Member { obj, prop } => format!("{}.{}", js(obj), prop),
        Expr::Call { callee: Callee::Expr(callee), args } => {
            let args: Vec<String> = args.iter().map(js_arg).collect();
            format!("{}({})", js(callee), args.join(","))
        }
        Expr::Await(arg) => format!("await {}", js(arg)),
        Expr::Paren(inner) => format!("({})", js(inner)),
        Expr::Array(elems) => {
            let elems: Vec<String> =
                elems.iter().map(|e| e.as_ref().map(js_arg).unwrap_or_default()).collect();
            format!("[{}]", elems.join(","))
        }
        Expr::Object(obj) => {
            let props: Vec<String> = obj
                .props
                .iter()
                .map(|p| match p {
                    PropOrSpread::Spread(e) => format!("...{}", js(e)),
                    PropOrSpread::Prop(Prop::Shorthand(n)) => n.clone(),
                    PropOrSpread::Prop(Prop::KeyValue { key: PropName::Ident(k), value }) => {
                        format!("{}:{}", k, js(value))
                    }
                    other => panic!("no printer for {:?}", other),
                })
                .collect();
            format!("{{{}}}", props.join(","))
        }
        Expr::Arrow(arrow) => {
            let params: Vec<String> = arrow.params.iter().map(js_pat).collect();
            let head = if arrow.is_async { "async " } else { "" };
            let body = match &arrow.body {
                BlockStmtOrExpr::Expr(e) => js(e),
                BlockStmtOrExpr::BlockStmt(stmts) => {
                    let stmts: Vec<String> = stmts.iter().map(js_stmt).collect();
                    format!("{{{}}}", stmts.join(""))
                }
            };
            format!("{}({})=>{}", head, params.join(","), body)
        }
        Expr::Cond { test, cons, alt } => format!("{}?{}:{}", js(test), js(cons), js(alt)),
        Expr::Other(op) => format!("#{}", op.handle),
        other => panic!("no printer for {:?}", other),
    }
}

fn js_arg(arg: &ExprOrSpread) -> String {
    if arg.spread {
        format!("...{}", js(&arg.expr))
    } else {
        js(&arg.expr)
    }
}

fn js_pat(p: &Pat) -> String {
    match p {
        Pat::Ident(n) => n.clone(),
        Pat::Array(elems) => {
            let elems: Vec<String> =
                elems.iter().map(|e| e.as_ref().map(js_pat).unwrap_or_default()).collect();
            format!("[{}]", elems.join(","))
        }
        Pat::Other(op) => format!("#{}", op.handle),
    }
}

fn js_stmt(s: &Stmt) -> String {
    match s {
        Stmt::Return(None) => "return;".to_string(),
        Stmt::Return(Some(e)) => format!("return {};", js(e)),
        Stmt::Expr(e) => format!("{};", js(e)),
        Stmt::Decl(Decl::Var(v)) => {
            let kind = match v.kind {
                VarDeclKind::Const => "const",
                VarDeclKind::Let => "let",
                VarDeclKind::Var => "var",
            };
            let decls: Vec<String> = v
                .decls
                .iter()
                .map(|d| match &d.init {
                    Some(init) => format!("{}={}", js_pat(&d.name), js(init)),
                    None => js_pat(&d.name),
                })
                .collect();
            format!("{} {};", kind, decls.join(","))
        }
        other => panic!("no printer for {:?}", other),
    }
}

fn element(name: &str, children: Vec<JSXElementChild>) -> JSXElement {
    JSXElement { name: JSXElementName::Ident(name.to_string()), attrs: vec![], children }
}

fn markup(name: &str) -> Expr {
    Expr::JSXElement(Box::new(element(name, vec![])))
}

fn ident(name: &str) -> Expr {
    Expr::Ident(name.to_string())
}

fn var(name: &str, init: Expr) -> Stmt {
    Stmt::Decl(Decl::Var(VarDecl {
        kind: VarDeclKind::Const,
        decls: vec![VarDeclarator { name: Pat::Ident(name.to_string()), init: Some(init) }],
    }))
}

// The markup that is available at once, out of the assembly of a markup expression.
fn first_of(e: &Expr) -> String {
    let Expr::Call { callee: Callee::Expr(callee), .. } = e else { panic!("{:?}", e) };
    let Expr::Paren(inner) = &**callee else { panic!("{:?}", callee) };
    let Expr::Arrow(outer) = &**inner else { panic!("{:?}", inner) };
    let BlockStmtOrExpr::BlockStmt(stmts) = &outer.body else { panic!() };
    let Stmt::Return(Some(Expr::Array(pair))) = &stmts[1] else { panic!() };
    js(&pair[0].as_ref().unwrap().expr)
}

fn deferred_count(e: &Expr) -> usize {
    let Expr::Call { callee: Callee::Expr(callee), .. } = e else { panic!("{:?}", e) };
    let Expr::Paren(inner) = &**callee else { panic!("{:?}", callee) };
    let Expr::Arrow(outer) = &**inner else { panic!("{:?}", inner) };
    let BlockStmtOrExpr::BlockStmt(stmts) = &outer.body else { panic!() };
    let Stmt::Return(Some(Expr::Array(pair))) = &stmts[1] else { panic!() };
    let Expr::Arrow(cont) = &pair[1].as_ref().unwrap().expr else { panic!() };
    let BlockStmtOrExpr::BlockStmt(body) = &cont.body else { panic!() };
    body.len() - 2
}

fn init_of(item: &ModuleItem) -> &Expr {
    match item {
        ModuleItem::Stmt(Stmt::Decl(Decl::Var(v))) | ModuleItem::ExportDecl(Decl::Var(v)) => {
            v.decls[0].init.as_ref().unwrap()
        }
        other => panic!("{:?}", other),
    }
}

#[test]
fn markup_expressions_are_replaced() {
    let mut cache = StyleNameCache::new();
    let program = Program {
        body: vec![
            ModuleItem::Stmt(var("n", Expr::Lit(Lit::Null))),
            ModuleItem::Stmt(var("view", markup("main"))),
        ],
    };
    let out = transpile(program, &mut cache).unwrap();
    assert_eq!(out.body.len(), 2);
    assert_eq!(js(init_of(&out.body[0])), "null");
    assert_eq!(first_of(init_of(&out.body[1])), "`<main></main>`");
}

#[test]
fn components_are_deferred_by_what_was_inferred_before_them() {
    // const Sync = <b/>;  const a = <Sync/>;  const b = <Later/>;  const Later = <i/>;
    let mut cache = StyleNameCache::new();
    let program = Program {
        body: vec![
            ModuleItem::Stmt(var("Sync", markup("b"))),
            ModuleItem::Stmt(var("a", markup("Sync"))),
            ModuleItem::Stmt(var("b", markup("Later"))),
            ModuleItem::Stmt(var("Later", markup("i"))),
        ],
    };
    let out = transpile(program, &mut cache).unwrap();
    let a = init_of(&out.body[1]);
    assert!(first_of(a).starts_with("global.___FRAMEWORK_JS_STRINGIFY___(Sync({children:\"\"}),"));
    assert_eq!(deferred_count(a), 0);
    let b = init_of(&out.body[2]);
    assert!(first_of(b).starts_with("\"<div id="), "{}", first_of(b));
    assert_eq!(deferred_count(b), 1);
}

#[test]
fn markup_inside_functions_sees_their_scope() {
    // function f() { const Inner = <b/>; return <Inner/>; }  const g = <Inner/>;
    let mut cache = StyleNameCache::new();
    let f = Stmt::Decl(Decl::Fn {
        ident: "f".to_string(),
        function: Function {
            params: vec![],
            body: Some(vec![var("Inner", markup("b")), Stmt::Return(Some(markup("Inner")))]),
            is_async: false,
        },
    });
    let program = Program { body: vec![ModuleItem::Stmt(f), ModuleItem::Stmt(var("g", markup("Inner")))] };
    let out = transpile(program, &mut cache).unwrap();
    let ModuleItem::Stmt(Stmt::Decl(Decl::Fn { function, .. })) = &out.body[0] else { panic!() };
    let Stmt::Return(Some(inside)) = &function.body.as_ref().unwrap()[1] else { panic!() };
    assert_eq!(deferred_count(inside), 0);
    assert_eq!(deferred_count(init_of(&out.body[1])), 1);
}

#[test]
fn markup_in_braces_is_compiled_on_its_own() {
    // <ul>{cond ? <li/> : <Item/>}</ul>
    let mut cache = StyleNameCache::new();
    let cond = Expr::Cond {
        test: Box::new(ident("cond")),
        cons: Box::new(markup("li")),
        alt: Box::new(markup("Item")),
    };
    let list = Expr::JSXElement(Box::new(element(
        "ul",
        vec![JSXElementChild::JSXExprContainer(JSXExpr::Expr(Box::new(cond)))],
    )));
    let out = transpile(Program { body: vec![ModuleItem::Stmt(Stmt::Expr(list))] }, &mut cache).unwrap();
    let ModuleItem::Stmt(Stmt::Expr(outer)) = &out.body[0] else { panic!() };
    assert_eq!(deferred_count(outer), 0);
    let text = first_of(outer);
    assert!(text.starts_with("`<ul>${global.___FRAMEWORK_JS_STRINGIFY___(cond?(async ()=>{"), "{}", text);
    assert!(text.contains("`<li></li>`"));
    assert!(text.contains("await Item({children:\"\"})"));
}

#[test]
fn markup_is_found_in_opaque_syntax_and_everywhere_else() {
    let mut cache = StyleNameCache::new();
    let in_call = Expr::Call {
        callee: Callee::Expr(Box::new(ident("render"))),
        args: vec![ExprOrSpread { spread: false, expr: markup("a") }],
    };
    let in_object = Expr::Object(jsx_transpiler::ast::expr::ObjectLit {
        props: vec![PropOrSpread::Prop(Prop::KeyValue {
            key: PropName::Ident("icon".to_string()),
            value: Box::new(markup("b")),
        })],
    });
    let in_arrow = Expr::Arrow(ArrowExpr {
        params: vec![],
        body: BlockStmtOrExpr::Expr(Box::new(markup("c"))),
        is_async: false,
    });
    let in_opaque = Stmt::Other(Opaque { handle: 5, children: vec![Node::Expr(markup("d"))] });
    let program = Program {
        body: vec![
            ModuleItem::Stmt(Stmt::Expr(in_call)),
            ModuleItem::Stmt(Stmt::Expr(in_object)),
            ModuleItem::ExportDefaultExpr(in_arrow),
            ModuleItem::Stmt(in_opaque),
            ModuleItem::ExportAll,
        ],
    };
    let out = transpile(program, &mut cache).unwrap();
    let ModuleItem::Stmt(Stmt::Expr(Expr::Call { args, .. })) = &out.body[0] else { panic!() };
    assert_eq!(first_of(&args[0].expr), "`<a></a>`");
    let ModuleItem::Stmt(Stmt::Expr(Expr::Object(obj))) = &out.body[1] else { panic!() };
    let PropOrSpread::Prop(Prop::KeyValue { value, .. }) = &obj.props[0] else { panic!() };
    assert_eq!(first_of(value), "`<b></b>`");
    let ModuleItem::ExportDefaultExpr(Expr::Arrow(arrow)) = &out.body[2] else { panic!() };
    let BlockStmtOrExpr::Expr(body) = &arrow.body else { panic!() };
    assert_eq!(first_of(body), "`<c></c>`");
    let ModuleItem::Stmt(Stmt::Other(op)) = &out.body[3] else { panic!() };
    assert_eq!(op.handle, 5);
    let Node::Expr(e) = &op.children[0] else { panic!() };
    assert_eq!(first_of(e), "`<d></d>`");
    assert!(matches!(out.body[4], ModuleItem::ExportAll));
}

#[test]
fn fragments_in_expression_position_stay() {
    let mut cache = StyleNameCache::new();
    let fragment = Expr::JSXFragment(vec![JSXElementChild::JSXExprContainer(JSXExpr::Expr(
        Box::new(markup("p")),
    ))]);
    let out = transpile(Program { body: vec![ModuleItem::Stmt(Stmt::Expr(fragment))] }, &mut cache).unwrap();
    let ModuleItem::Stmt(Stmt::Expr(Expr::JSXFragment(children))) = &out.body[0] else { panic!() };
    let JSXElementChild::JSXExprContainer(JSXExpr::Expr(inner)) = &children[0] else { panic!() };
    assert_eq!(first_of(inner), "`<p></p>`");
}

#[test]
fn a_fault_ends_the_walk() {
    let mut cache = StyleNameCache::new();
    let bad = Expr::JSXElement(Box::new(element(
        "div",
        vec![JSXElementChild::JSXExprContainer(JSXExpr::Expr(Box::new(Expr::Object(
            jsx_transpiler::ast::expr::ObjectLit { props: vec![] },
        ))))],
    )));
    let program = Program {
        body: vec![ModuleItem::Stmt(var("ok", markup("a"))), ModuleItem::Stmt(var("bad", bad))],
    };
    assert_eq!(transpile(program, &mut cache).err(), Some(CompileError::ObjectAsChild));
}

#[test]
fn the_visitor_can_walk_single_expressions() {
    let mut v = TranspileVisitor::new();
    v.typechecker.bind("Known".to_string(), ExportType::JSX);
    let mut cache = StyleNameCache::new();
    let out = v.visit_expr(markup("Known"), &mut cache).unwrap();
    assert_eq!(deferred_count(&out), 0);
    let out = v.visit_expr(Expr::Paren(Box::new(markup("Unknown"))), &mut cache).unwrap();
    let Expr::Paren(inner) = &out else { panic!() };
    assert_eq!(deferred_count(inner), 1);
}
