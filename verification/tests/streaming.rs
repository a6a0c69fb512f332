use jsx_transpiler::ast::expr::{
    BlockStmtOrExpr, Callee, Decl, Expr, ExprOrSpread, JSXElement, JSXElementChild,
    JSXElementName, Lit, Pat, Prop, PropName, PropOrSpread, Stmt, VarDeclKind,
};
use jsx_transpiler::export_type::ExportType;
use jsx_transpiler::streaming::{assemble, build_deferred_stmt, lower_top_level, StreamNames};
use jsx_transpiler::style_name::StyleNameCache;
use jsx_transpiler::transpiler::TranspileVisitor;

// Prints the generated code compactly, enough to compare it as text.
fn js(e: &Expr) -> String {
    match e {
        Expr::Ident(name) => name.clone(),
        Expr::Lit(Lit::Str(s)) => format!("{:?}", s),
        Expr::Lit(Lit::Bool(b)) => format!("{}", b),
        Expr::Lit(Lit::Null) => "null".to_string(),
        Expr::Lit(Lit::Num(n)) => n.text.clone(),
        Expr::Lit(Lit::BigInt(n)) => format!("{}n", n.text),
        Expr::Lit(Lit::Regex(r)) => format!("/{}/{}", r.exp, r.flags),
        Expr::Lit(Lit::JSXText(s)) => format!("{:?}", s),
        Expr::Tpl(tpl) => {
            let mut out = String::from("`");
            for (i, quasi) in tpl.quasis.iter().enumerate() {
                out.push_str(quasi);
                if i < tpl.exprs.len() {
                    out.push_str(&format!("${{{}}}", js(&tpl.exprs[i])));
                }
            }
            out.push('`');
            out
        }
        Expr::Member { obj, prop } => format!("{}.{}", js(obj), prop),
        Expr::Call { callee: Callee::Expr(callee), args } => {
            let args: Vec<String> = args.iter().map(js_arg).collect();
            format!("{}({})", js(callee), args.join(","))
        }
        Expr::Await(arg) => format!("await {}", js(arg)),
        Expr::Paren(inner) => format!("({})", js(inner)),
        Expr::Array(elems) => {
            let elems: Vec<String> =
                elems.iter().map(|e| e.as_ref().map(js_arg).unwrap_or_default()).collect();
            format!("[{}]", elems.join(","))
        }
        Expr::Object(obj) => {
            let props: Vec<String> = obj
                .props
                .iter()
                .map(|p| match p {
                    PropOrSpread::Spread(e) => format!("...{}", js(e)),
                    PropOrSpread::Prop(Prop::Shorthand(n)) => n.clone(),
                    PropOrSpread::Prop(Prop::KeyValue { key: PropName::Ident(k), value }) => {
                        format!("{}:{}", k, js(value))
                    }
                    other => panic!("no printer for {:?}", other),
                })
                .collect();
            format!("{{{}}}", props.join(","))
        }
        Expr::Arrow(arrow) => {
            let params: Vec<String> = arrow.params.iter().map(js_pat).collect();
            let head = if arrow.is_async { "async " } else { "" };
            let body = match &arrow.body {
                BlockStmtOrExpr::Expr(e) => js(e),
                BlockStmtOrExpr::BlockStmt(stmts) => {
                    let stmts: Vec<String> = stmts.iter().map(js_stmt).collect();
                    format!("{{{}}}", stmts.join(""))
                }
            };
            format!("{}({})=>{}", head, params.join(","), body)
        }
        Expr::Cond { test, cons, alt } => format!("{}?{}:{}", js(test), js(cons), js(alt)),
        Expr::Other(op) => format!("#{}", op.handle),
        other => panic!("no printer for {:?}", other),
    }
}

fn js_arg(arg: &ExprOrSpread) -> String {
    if arg.spread {
        format!("...{}", js(&arg.expr))
    } else {
        js(&arg.expr)
    }
}

fn js_pat(p: &Pat) -> String {
    match p {
        Pat::Ident(n) => n.clone(),
        Pat::Array(elems) => {
            let elems: Vec<String> =
                elems.iter().map(|e| e.as_ref().map(js_pat).unwrap_or_default()).collect();
            format!("[{}]", elems.join(","))
        }
        Pat::Other(op) => format!("#{}", op.handle),
    }
}

fn js_stmt(s: &Stmt) -> String {
    match s {
        Stmt::Return(None) => "return;".to_string(),
        Stmt::Return(Some(e)) => format!("return {};", js(e)),
        Stmt::Expr(e) => format!("{};", js(e)),
        Stmt::Decl(Decl::Var(v)) => {
            let kind = match v.kind {
                VarDeclKind::Const => "const",
                VarDeclKind::Let => "let",
                VarDeclKind::Var => "var",
            };
            let decls: Vec<String> = v
                .decls
                .iter()
                .map(|d| match &d.init {
                    Some(init) => format!("{}={}", js_pat(&d.name), js(init)),
                    None => js_pat(&d.name),
                })
                .collect();
            format!("{} {};", kind, decls.join(","))
        }
        other => panic!("no printer for {:?}", other),
    }
}

fn names() -> StreamNames {
    StreamNames {
        controller: "_ctl".to_string(),
        html: "_html".to_string(),
        later_fn: "_fn".to_string(),
        array: "_arr".to_string(),
        map_var: "_f".to_string(),
    }
}

fn ident(name: &str) -> Expr {
    Expr::Ident(name.to_string())
}

fn element(name: &str, children: Vec<JSXElementChild>) -> JSXElement {
    JSXElement { name: JSXElementName::Ident(name.to_string()), attrs: vec![], children }
}

fn is_generated_name(name: &str, len: usize) -> bool {
    let chars: Vec<char> = name.chars().collect();
    chars.len() == len + 1 && chars[0] == '_' && chars[1..].iter().all(|c| c.is_ascii_alphanumeric())
}

#[test]
fn assembly_without_deferred_work() {
    let out = assemble(Expr::Lit(Lit::Str("<p></p>".to_string())), vec![], "_later", &names(), &vec![]);
    assert_eq!(
        js(&out),
        "(async ()=>{const _later=[];return [\"<p></p>\",(_ctl)=>{const _arr=_later.map((_f)=>_f(_ctl));return Promise.allSettled(_arr);}];})()"
    );
}

#[test]
fn one_statement_for_each_deferred_creation() {
    let stmt = build_deferred_stmt(&names(), "_id1".to_string(), ident("work"), "_s1");
    assert_eq!(
        js_stmt(&stmt),
        "_arr.push((async ()=>{const [_html,_fn]=work;_ctl.enqueue(`<script id=\"_s1\">document.getElementById(\"_id1\").outerHTML = \\`${_html.replace(/`/mg,\"\\\\`\")}\\`;document.getElementById(\"_s1\").remove();</script>`);return _fn(_ctl);})());"
    );
}

#[test]
fn assembly_starts_every_deferred_creation_and_settles_all() {
    let created = vec![("_a".to_string(), ident("x")), ("_b".to_string(), ident("y"))];
    let scripts = vec!["_s1".to_string(), "_s2".to_string()];
    let out = assemble(ident("first"), created, "_later", &names(), &scripts);
    let text = js(&out);
    let one = |id: &str, work: &str, script: &str| {
        format!(
            "_arr.push((async ()=>{{const [_html,_fn]={work};_ctl.enqueue(`<script id=\"{script}\">document.getElementById(\"{id}\").outerHTML = \\`${{_html.replace(/`/mg,\"\\\\`\")}}\\`;document.getElementById(\"{script}\").remove();</script>`);return _fn(_ctl);}})());"
        )
    };
    assert_eq!(
        text,
        format!(
            "(async ()=>{{const _later=[];return [first,(_ctl)=>{{const _arr=_later.map((_f)=>_f(_ctl));{}{}return Promise.allSettled(_arr);}}];}})()",
            one("_a", "x", "_s1"),
            one("_b", "y", "_s2")
        )
    );
}

// Takes the assembly apart into the markup available at once and the
// statements of the continuation.
fn parts(out: &Expr) -> (String, Expr, Vec<Stmt>, String) {
    let Expr::Call { callee: Callee::Expr(callee), args } = out else { panic!("{:?}", out) };
    assert!(args.is_empty());
    let Expr::Paren(inner) = &**callee else { panic!("{:?}", callee) };
    let Expr::Arrow(outer) = &**inner else { panic!("{:?}", inner) };
    assert!(outer.is_async);
    assert!(outer.params.is_empty());
    let BlockStmtOrExpr::BlockStmt(stmts) = &outer.body else { panic!() };
    assert_eq!(stmts.len(), 2);
    let Stmt::Decl(Decl::Var(collector)) = &stmts[0] else { panic!() };
    let Pat::Ident(later) = &collector.decls[0].name else { panic!() };
    let Stmt::Return(Some(Expr::Array(pair))) = &stmts[1] else { panic!() };
    assert_eq!(pair.len(), 2);
    let first = pair[0].as_ref().unwrap();
    let Expr::Arrow(cont) = &pair[1].as_ref().unwrap().expr else { panic!() };
    assert!(!cont.is_async);
    let Pat::Ident(controller) = &cont.params[0] else { panic!() };
    let BlockStmtOrExpr::BlockStmt(body) = &cont.body else { panic!() };
    let body: Vec<Stmt> = body.iter().map(|s| match s {
        Stmt::Return(Some(e)) => Stmt::Expr(Expr::Ident(js(e))),
        Stmt::Expr(e) => Stmt::Expr(Expr::Ident(js(e))),
        Stmt::Decl(_) => Stmt::Expr(Expr::Ident(js_stmt(s))),
        other => panic!("{:?}", other),
    }).collect();
    (later.clone(), Expr::Ident(js(&first.expr)), body, controller.clone())
}

#[test]
fn top_level_markup_without_components() {
    let v = TranspileVisitor::new();
    let mut cache = StyleNameCache::new();
    let el = element("div", vec![JSXElementChild::JSXText("hi".to_string())]);
    let out = lower_top_level(&v, Box::new(el), &mut cache).unwrap();
    let (later, first, body, controller) = parts(&out);
    assert_eq!(later, v.typechecker.later_create_ident);
    assert!(is_generated_name(&later, 16));
    assert!(is_generated_name(&controller, 12));
    assert_eq!(js(&first), "`<div>hi</div>`");
    // the collector is started and everything is settled; nothing is deferred
    assert_eq!(body.len(), 2);
}

#[test]
fn top_level_markup_with_a_deferred_root() {
    let v = TranspileVisitor::new();
    let mut cache = StyleNameCache::new();
    let el = element("Page", vec![JSXElementChild::JSXElement(Box::new(element("Side", vec![])))]);
    let out = lower_top_level(&v, Box::new(el), &mut cache).unwrap();
    let (_, first, body, controller) = parts(&out);
    // the root itself is a placeholder, written as a string
    let first = js(&first);
    assert!(first.starts_with("\"<div id=\\\"_"), "{}", first);
    assert!(first.ends_with("\\\"></div>\""), "{}", first);
    // one statement for the collector, one for each of the two components, one to settle
    assert_eq!(body.len(), 4);
    let text: Vec<String> = body.iter().map(js_stmt).collect();
    assert!(text[1].contains("await Page({children:"), "{}", text[1]);
    assert!(text[2].contains("await Side({children:\\\"\\\"})") || text[2].contains("await Side({children:\"\"})"), "{}", text[2]);
    assert!(text[3].contains(&format!("Promise.allSettled(")), "{}", text[3]);
    assert!(text[1].contains(&format!("{}.enqueue(", controller)));
}

#[test]
fn top_level_markup_with_a_synchronous_root() {
    let mut v = TranspileVisitor::new();
    v.typechecker.bind("Page".to_string(), ExportType::JSX);
    let mut cache = StyleNameCache::new();
    let out = lower_top_level(&v, Box::new(element("Page", vec![])), &mut cache).unwrap();
    let (later, first, body, _) = parts(&out);
    assert_eq!(
        js(&first),
        format!("global.___FRAMEWORK_JS_STRINGIFY___(Page({{children:\"\"}}),{})", later)
    );
    assert_eq!(body.len(), 2);
}

#[test]
fn stream_names_are_generated() {
    let n = StreamNames::generate();
    for name in [&n.controller, &n.html, &n.later_fn, &n.array, &n.map_var] {
        assert!(is_generated_name(name, 12), "{:?}", name);
    }
}

#[test]
fn style_names_are_shared_across_markup() {
    let v = TranspileVisitor::new();
    let mut cache = StyleNameCache::new();
    let styled = |cache: &mut StyleNameCache| {
        let style = Expr::Object(jsx_transpiler::ast::expr::ObjectLit {
            props: vec![PropOrSpread::Prop(Prop::KeyValue {
                key: PropName::Ident("fontSize".to_string()),
                value: Box::new(Expr::Lit(Lit::Str("1em".to_string()))),
            })],
        });
        let el = JSXElement {
            name: JSXElementName::Ident("p".to_string()),
            attrs: vec![jsx_transpiler::ast::expr::JSXAttrOrSpread::JSXAttr {
                name: jsx_transpiler::ast::expr::JSXAttrName::Ident("style".to_string()),
                value: Some(jsx_transpiler::ast::expr::JSXAttrValue::JSXExprContainer(
                    jsx_transpiler::ast::expr::JSXExpr::Expr(Box::new(style)),
                )),
            }],
            children: vec![],
        };
        let out = lower_top_level(&v, Box::new(el), cache).unwrap();
        js(&parts(&out).1)
    };
    let first = styled(&mut cache);
    assert_eq!(cache.computed(), 1);
    let second = styled(&mut cache);
    assert_eq!(cache.computed(), 1);
    assert_eq!(first, second);
    assert_eq!(first, "`<p style=\"font-size: 1em\"></p>`");
}
