use jsx_transpiler::ast::expr::{
    BlockStmtOrExpr, Callee, Decl, Expr, ExprOrSpread, JSXAttrName, JSXAttrOrSpread, JSXAttrValue,
    JSXElement, JSXElementChild, JSXElementName, JSXExpr, JSXMemberExpr, JSXNamespacedName,
    JSXObject, Lit, Numeric, ObjectLit, Opaque, Pat, Prop, PropName, PropOrSpread, Stmt,
    VarDeclKind,
};
use jsx_transpiler::error::CompileError;
use jsx_transpiler::export_type::ExportType;
use jsx_transpiler::stringify::{
    stringify_jsx_attr_name, stringify_jsx_element_name, stringify_jsx_member_expr,
    stringify_jsx_object, Stringify,
};
use jsx_transpiler::style_name::StyleNameCache;
use jsx_transpiler::tpl_wrapper::TplWrapper;
use jsx_transpiler::transpiler::{
    classify, is_deferred_element, lower_element, process_transformed_jsx, reserve_deferred,
    transform, ComponentType, CustomComponent, Processed, ToCreateAsync, TranspileVisitor,
};

// Prints the generated code compactly, enough to compare it as text.
fn js(e: &Expr) -> String {
    match e {
        Expr::Ident(name) => name.clone(),
        Expr::Lit(Lit::Str(s)) => format!("{:?}", s),
        Expr::Lit(Lit::Bool(b)) => format!("{}", b),
        Expr::Lit(Lit::Null) => "null".to_string(),
        Expr::Lit(Lit::Num(n)) => n.text.clone(),
        Expr::Lit(Lit::BigInt(n)) => format!("{}n", n.text),
        Expr::Lit(Lit::Regex(r)) => format!("/{}/{}", r.exp, r.flags),
        Expr::Lit(Lit::JSXText(s)) => format!("{:?}", s),
        Expr::Tpl(tpl) => {
            let mut out = String::from("`");
            for (i, quasi) in tpl.quasis.iter().enumerate() {
                out.push_str(quasi);
                if i < tpl.exprs.len() {
                    out.push_str(&format!("${{{}}}", js(&tpl.exprs[i])));
                }
            }
            out.push('`');
            out
        }
        Expr::Member { obj, prop } => format!("{}.{}", js(obj), prop),
        Expr::Call { callee: Callee::Expr(callee), args } => {
            let args: Vec<String> = args.iter().map(js_arg).collect();
            format!("{}({})", js(callee), args.join(","))
        }
        Expr::Await(arg) => format!("await {}", js(arg)),
        Expr::Paren(inner) => format!("({})", js(inner)),
        Expr::Array(elems) => {
            let elems: Vec<String> =
                elems.iter().map(|e| e.as_ref().map(js_arg).unwrap_or_default()).collect();
            format!("[{}]", elems.join(","))
        }
        Expr::Object(obj) => {
            let props: Vec<String> = obj
                .props
                .iter()
                .map(|p| match p {
                    PropOrSpread::Spread(e) => format!("...{}", js(e)),
                    PropOrSpread::Prop(Prop::Shorthand(n)) => n.clone(),
                    PropOrSpread::Prop(Prop::KeyValue { key: PropName::Ident(k), value }) => {
                        format!("{}:{}", k, js(value))
                    }
                    other => panic!("no printer for {:?}", other),
                })
                .collect();
            format!("{{{}}}", props.join(","))
        }
        Expr::Arrow(arrow) => {
            let params: Vec<String> = arrow.params.iter().map(js_pat).collect();
            let head = if arrow.is_async { "async " } else { "" };
            let body = match &arrow.body {
                BlockStmtOrExpr::Expr(e) => js(e),
                BlockStmtOrExpr::BlockStmt(stmts) => {
                    let stmts: Vec<String> = stmts.iter().map(js_stmt).collect();
                    format!("{{{}}}", stmts.join(""))
                }
            };
            format!("{}({})=>{}", head, params.join(","), body)
        }
        Expr::Cond { test, cons, alt } => format!("{}?{}:{}", js(test), js(cons), js(alt)),
        Expr::Other(op) => format!("#{}", op.handle),
        other => panic!("no printer for {:?}", other),
    }
}

fn js_arg(arg: &ExprOrSpread) -> String {
    if arg.spread {
        format!("...{}", js(&arg.expr))
    } else {
        js(&arg.expr)
    }
}

fn js_pat(p: &Pat) -> String {
    match p {
        Pat::Ident(n) => n.clone(),
        Pat::Array(elems) => {
            let elems: Vec<String> =
                elems.iter().map(|e| e.as_ref().map(js_pat).unwrap_or_default()).collect();
            format!("[{}]", elems.join(","))
        }
        Pat::Other(op) => format!("#{}", op.handle),
    }
}

fn js_stmt(s: &Stmt) -> String {
    match s {
        Stmt::Return(None) => "return;".to_string(),
        Stmt::Return(Some(e)) => format!("return {};", js(e)),
        Stmt::Expr(e) => format!("{};", js(e)),
        Stmt::Decl(Decl::Var(v)) => {
            let kind = match v.kind {
                VarDeclKind::Const => "const",
                VarDeclKind::Let => "let",
                VarDeclKind::Var => "var",
            };
            let decls: Vec<String> = v
                .decls
                .iter()
                .map(|d| match &d.init {
                    Some(init) => format!("{}={}", js_pat(&d.name), js(init)),
                    None => js_pat(&d.name),
                })
                .collect();
            format!("{} {};", kind, decls.join(","))
        }
        other => panic!("no printer for {:?}", other),
    }
}

fn tag(name: &str) -> JSXElementName {
    JSXElementName::Ident(name.to_string())
}

fn element(name: &str, attrs: Vec<JSXAttrOrSpread>, children: Vec<JSXElementChild>) -> JSXElement {
    JSXElement { name: tag(name), attrs, children }
}

fn child(el: JSXElement) -> JSXElementChild {
    JSXElementChild::JSXElement(Box::new(el))
}

fn text(s: &str) -> JSXElementChild {
    JSXElementChild::JSXText(s.to_string())
}

fn braces(e: Expr) -> JSXElementChild {
    JSXElementChild::JSXExprContainer(JSXExpr::Expr(Box::new(e)))
}

fn attr(name: &str, value: Option<JSXAttrValue>) -> JSXAttrOrSpread {
    JSXAttrOrSpread::JSXAttr { name: JSXAttrName::Ident(name.to_string()), value }
}

fn str_attr(name: &str, value: &str) -> JSXAttrOrSpread {
    attr(name, Some(JSXAttrValue::Lit(Lit::Str(value.to_string()))))
}

fn expr_attr(name: &str, value: Expr) -> JSXAttrOrSpread {
    attr(name, Some(JSXAttrValue::JSXExprContainer(JSXExpr::Expr(Box::new(value)))))
}

fn ident(name: &str) -> Expr {
    Expr::Ident(name.to_string())
}

fn is_generated_name(name: &str, len: usize) -> bool {
    let chars: Vec<char> = name.chars().collect();
    chars.len() == len + 1 && chars[0] == '_' && chars[1..].iter().all(|c| c.is_ascii_alphanumeric())
}

struct Lowered {
    processed: Processed,
    created: ToCreateAsync,
}

fn lower_with(v: &TranspileVisitor, el: JSXElement) -> Result<Lowered, CompileError> {
    let mut created = ToCreateAsync::new();
    let mut cache = StyleNameCache::new();
    let processed = lower_element(v, Box::new(el), &mut created, &mut cache)?;
    Ok(Lowered { processed, created })
}

fn lower(el: JSXElement) -> Lowered {
    lower_with(&TranspileVisitor::new(), el).unwrap()
}

fn sync(l: &Lowered) -> String {
    match &l.processed {
        Processed::Sync(e) => js(e),
        Processed::Async(div) => panic!("deferred: {}", div),
    }
}

fn with_type(name: &str, t: ExportType) -> TranspileVisitor {
    let mut v = TranspileVisitor::new();
    v.typechecker.bind(name.to_string(), t);
    v
}

#[test]
fn static_markup_is_one_literal() {
    // <div id="a" hidden><span>hi</span>!</div>
    let el = element(
        "div",
        vec![str_attr("id", "a"), attr("hidden", None)],
        vec![child(element("span", vec![], vec![text("hi")])), text("!")],
    );
    let l = lower(el);
    assert_eq!(sync(&l), "`<div id=\"a\" hidden=\"true\"><span>hi</span>!</div>`");
    assert!(l.created.is_empty());
    match l.processed {
        Processed::Sync(Expr::Tpl(tpl)) => {
            assert_eq!(tpl.quasis.len(), 1);
            assert!(tpl.exprs.is_empty());
        }
        other => panic!("{:?}", other),
    }
}

#[test]
fn attributes_keep_their_order_and_class_name_is_renamed() {
    // <p title="t" className="c" data-x={x} empty={} />
    let el = element(
        "p",
        vec![
            str_attr("title", "t"),
            str_attr("className", "c"),
            expr_attr("data-x", ident("x")),
            attr("empty", Some(JSXAttrValue::JSXExprContainer(JSXExpr::JSXEmptyExpr))),
        ],
        vec![],
    );
    assert_eq!(sync(&lower(el)), "`<p title=\"t\" class=\"c\" data-x=\"${x}\" empty=\"true\"></p>`");
}

#[test]
fn literal_attribute_values_are_quote_escaped() {
    let el = element("a", vec![str_attr("title", "say \"hi\"")], vec![]);
    assert_eq!(sync(&lower(el)), "`<a title=\"say \\\"hi\\\"\"></a>`");
    let el = element(
        "a",
        vec![attr(
            "n",
            Some(JSXAttrValue::Lit(Lit::Num(Numeric { text: "3".to_string(), is_zero: false }))),
        )],
        vec![],
    );
    assert_eq!(sync(&lower(el)), "`<a n=\"3\"></a>`");
}

#[test]
fn namespaced_names_are_native() {
    let el = JSXElement {
        name: JSXElementName::JSXNamespacedName(JSXNamespacedName {
            ns: "Svg".to_string(),
            name: "rect".to_string(),
        }),
        attrs: vec![JSXAttrOrSpread::JSXAttr {
            name: JSXAttrName::JSXNamespacedName(JSXNamespacedName {
                ns: "xlink".to_string(),
                name: "href".to_string(),
            }),
            value: Some(JSXAttrValue::Lit(Lit::Str("#a".to_string()))),
        }],
        children: vec![],
    };
    assert_eq!(sync(&lower(el)), "`<Svg:rect xlink:href=\"#a\"></Svg:rect>`");
}

#[test]
fn spread_attributes_are_rendered_at_run_time() {
    let el = element(
        "div",
        vec![JSXAttrOrSpread::SpreadElement {
            expr: Box::new(ident("props")),
            printed: "props".to_string(),
        }],
        vec![],
    );
    let l = lower(el);
    match &l.processed {
        Processed::Sync(Expr::Tpl(tpl)) => {
            assert!(tpl.exprs.is_empty());
            assert_eq!(
                tpl.quasis[0],
                "<div ${Object.entries(props).map(([key, value]) => `${key}=\"${value ? (typeof value === 'string' ? value : (value instanceof RegExp ? value.toString() : JSON.stringify(value))).replace(/\"/mg, '\\\\\"') : 'true'}\"`).join(' ')}></div>"
            );
        }
        other => panic!("{:?}", other),
    }
}

#[test]
fn style_attributes_are_serialized() {
    // <div style={{fontSize: 16, color}} />
    let style = Expr::Object(ObjectLit {
        props: vec![
            PropOrSpread::Prop(Prop::KeyValue {
                key: PropName::Ident("fontSize".to_string()),
                value: Box::new(Expr::Lit(Lit::Num(Numeric {
                    text: "16".to_string(),
                    is_zero: false,
                }))),
            }),
            PropOrSpread::Prop(Prop::Shorthand("color".to_string())),
        ],
    });
    let el = element("div", vec![expr_attr("style", style)], vec![]);
    assert_eq!(
        sync(&lower(el)),
        "`<div style=\"font-size: 16px;color: ${global.___FRAMEWORK_JS_STYLE_VALUE___(color,\"color\")}\"></div>`"
    );
    // <div style={styles} />
    let el = element("div", vec![expr_attr("style", ident("styles"))], vec![]);
    assert_eq!(
        sync(&lower(el)),
        "`<div style=\"${global.___FRAMEWORK_JS_STYLE_OBJECT___(styles)}\"></div>`"
    );
    // <div style /> and <div style={} /> write nothing but the space
    let el = element("div", vec![attr("style", None), str_attr("id", "x")], vec![]);
    assert_eq!(sync(&lower(el)), "`<div  id=\"x\"></div>`");
}

#[test]
fn children_are_lowered_by_kind() {
    let later = TranspileVisitor::new();
    let collector = later.typechecker.later_create_ident.clone();
    let el = element(
        "ul",
        vec![],
        vec![
            text("a"),
            braces(Expr::Lit(Lit::Str("b".to_string()))),
            braces(Expr::Array(vec![])),
            braces(ident("c")),
            JSXElementChild::JSXExprContainer(JSXExpr::JSXEmptyExpr),
            JSXElementChild::JSXSpreadChild(Box::new(ident("d"))),
            JSXElementChild::JSXFragment(vec![text("e"), child(element("li", vec![], vec![]))]),
        ],
    );
    let l = lower_with(&later, el).unwrap();
    assert_eq!(
        sync(&l),
        format!(
            "`<ul>ab${{[].join(\"\")}}${{global.___FRAMEWORK_JS_STRINGIFY___(c,{})}}${{d}}e<li></li></ul>`",
            collector
        )
    );
}

#[test]
fn text_is_not_escaped() {
    let el = element("p", vec![], vec![text("a < b & \"c\"")]);
    assert_eq!(sync(&lower(el)), "`<p>a < b & \"c\"</p>`");
}

#[test]
fn unresolved_component_is_deferred() {
    // <Foo bar="1"><span>hi</span></Foo>
    let el = element(
        "Foo",
        vec![str_attr("bar", "1")],
        vec![child(element("span", vec![], vec![text("hi")]))],
    );
    let l = lower(el);
    assert_eq!(l.created.len(), 1);
    let (id, expr) = &l.created[0];
    assert!(is_generated_name(id, 12), "{:?}", id);
    assert_eq!(js(expr), "await Foo({bar:\"1\",children:\"<span>hi</span>\"})");
    match &l.processed {
        Processed::Async(div) => assert_eq!(div, &format!("<div id=\"{}\"></div>", id)),
        other => panic!("{:?}", other),
    }
}

#[test]
fn component_of_other_type_is_deferred() {
    for t in [ExportType::Other, ExportType::AsyncJSX, ExportType::AsyncOther] {
        let v = with_type("Foo", t);
        let l = lower_with(&v, element("Foo", vec![], vec![])).unwrap();
        assert_eq!(l.created.len(), 1, "{:?}", t);
        assert_eq!(js(&l.created[0].1), "await Foo({children:\"\"})");
        assert!(matches!(l.processed, Processed::Async(_)));
    }
}

#[test]
fn synchronous_markup_component_is_never_deferred() {
    let v = with_type("Foo", ExportType::JSX);
    let collector = v.typechecker.later_create_ident.clone();
    let l = lower_with(&v, element("Foo", vec![str_attr("a", "b")], vec![text("x")])).unwrap();
    assert!(l.created.is_empty());
    assert_eq!(
        sync(&l),
        format!("global.___FRAMEWORK_JS_STRINGIFY___(Foo({{a:\"b\",children:\"x\"}}),{})", collector)
    );
}

#[test]
fn inner_scopes_shadow_outer_ones() {
    let mut v = with_type("Foo", ExportType::JSX);
    assert!(!is_deferred_element(&v, &tag("Foo")));
    v.typechecker.push_scope();
    assert!(!is_deferred_element(&v, &tag("Foo")));
    v.typechecker.bind("Foo".to_string(), ExportType::AsyncJSX);
    assert!(is_deferred_element(&v, &tag("Foo")));
    v.typechecker.pop_scope();
    assert!(!is_deferred_element(&v, &tag("Foo")));
    assert!(!is_deferred_element(&v, &tag("foo")));
    assert!(is_deferred_element(&v, &tag("Bar")));
}

#[test]
fn component_properties_follow_the_attributes() {
    // <Card title="t" className="c" open {...rest} on={f}>a{b}</Card>
    let v = with_type("Card", ExportType::JSX);
    let collector = v.typechecker.later_create_ident.clone();
    let el = element(
        "Card",
        vec![
            str_attr("title", "t"),
            str_attr("className", "c"),
            attr("open", None),
            JSXAttrOrSpread::SpreadElement {
                expr: Box::new(ident("rest")),
                printed: "rest".to_string(),
            },
            expr_attr("on", ident("f")),
        ],
        vec![text("a"), braces(ident("b"))],
    );
    let l = lower_with(&v, el).unwrap();
    assert_eq!(
        sync(&l),
        format!(
            "global.___FRAMEWORK_JS_STRINGIFY___(Card({{title:\"t\",class:\"c\",open:true,...rest,on:f,children:`a${{global.___FRAMEWORK_JS_STRINGIFY___(b,{c})}}`}}),{c})",
            c = collector
        )
    );
}

#[test]
fn dotted_tags_call_the_member() {
    let name = JSXMemberExpr {
        obj: JSXObject::JSXMemberExpr(Box::new(JSXMemberExpr {
            obj: JSXObject::Ident("ui".to_string()),
            prop: "forms".to_string(),
        })),
        prop: "Input".to_string(),
    };
    let el = JSXElement { name: JSXElementName::JSXMemberExpr(name), attrs: vec![], children: vec![] };
    let l = lower(el);
    assert_eq!(l.created.len(), 1);
    assert_eq!(js(&l.created[0].1), "await ui.forms.Input({children:\"\"})");

    // the type is looked up under the dotted name
    let name = JSXMemberExpr { obj: JSXObject::Ident("ui".to_string()), prop: "Box".to_string() };
    let v = with_type("ui.Box", ExportType::JSX);
    let el = JSXElement { name: JSXElementName::JSXMemberExpr(name), attrs: vec![], children: vec![] };
    let l = lower_with(&v, el).unwrap();
    assert!(l.created.is_empty());
}

#[test]
fn deferred_entries_stand_in_the_order_in_which_elements_open() {
    // <A x=<B/>><C><D/></C><E/></A>
    let el = element(
        "A",
        vec![attr("x", Some(JSXAttrValue::JSXElement(Box::new(element("B", vec![], vec![])))))],
        vec![
            child(element("C", vec![], vec![child(element("D", vec![], vec![]))])),
            child(element("E", vec![], vec![])),
        ],
    );
    let l = lower(el);
    let ids: Vec<String> = l.created.iter().map(|(id, _)| id.clone()).collect();
    let calls: Vec<String> = l.created.iter().map(|(_, e)| js(e)).collect();
    assert_eq!(calls.len(), 5);
    let div = |i: usize| format!("<div id=\\\"{}\\\"></div>", ids[i]);
    assert_eq!(
        calls[0],
        format!("await A({{x:\"{}\",children:\"{}{}\"}})", div(1), div(2), div(4))
    );
    assert_eq!(calls[1], "await B({children:\"\"})");
    assert_eq!(calls[2], format!("await C({{children:\"{}\"}})", div(3)));
    assert_eq!(calls[3], "await D({children:\"\"})");
    assert_eq!(calls[4], "await E({children:\"\"})");
    for id in &ids {
        assert!(is_generated_name(id, 12));
    }
}

#[test]
fn deferred_components_inside_native_markup_leave_placeholders() {
    // <main><Foo/><p>x</p></main>
    let el = element(
        "main",
        vec![],
        vec![child(element("Foo", vec![], vec![])), child(element("p", vec![], vec![text("x")]))],
    );
    let l = lower(el);
    assert_eq!(l.created.len(), 1);
    assert_eq!(
        sync(&l),
        format!("`<main><div id=\"{}\"></div><p>x</p></main>`", l.created[0].0)
    );
}

#[test]
fn fragment_and_element_attribute_values() {
    // <div a=<b/> c=<>x{y}</> />
    let later = TranspileVisitor::new();
    let collector = later.typechecker.later_create_ident.clone();
    let el = element(
        "div",
        vec![
            attr("a", Some(JSXAttrValue::JSXElement(Box::new(element("b", vec![], vec![]))))),
            attr("c", Some(JSXAttrValue::JSXFragment(vec![text("x"), braces(ident("y"))]))),
        ],
        vec![],
    );
    assert_eq!(
        sync(&lower_with(&later, el).unwrap()),
        format!(
            "`<div a=\"<b></b>\" c=\"x${{global.___FRAMEWORK_JS_STRINGIFY___(y,{})}}\"></div>`",
            collector
        )
    );
    // on a component the fragment becomes a template of its own
    let v = with_type("K", ExportType::JSX);
    let el = element(
        "K",
        vec![attr("c", Some(JSXAttrValue::JSXFragment(vec![text("x")])))],
        vec![],
    );
    let l = lower_with(&v, el).unwrap();
    assert!(sync(&l).starts_with("global.___FRAMEWORK_JS_STRINGIFY___(K({c:`x`,children:\"\"}),"));
}

#[test]
fn lowering_faults() {
    let object_child = element("div", vec![], vec![braces(Expr::Object(ObjectLit { props: vec![] }))]);
    assert_eq!(lower_with(&TranspileVisitor::new(), object_child).err(), Some(CompileError::ObjectAsChild));

    let namespaced = element(
        "Foo",
        vec![JSXAttrOrSpread::JSXAttr {
            name: JSXAttrName::JSXNamespacedName(JSXNamespacedName {
                ns: "a".to_string(),
                name: "b".to_string(),
            }),
            value: None,
        }],
        vec![],
    );
    assert_eq!(lower_with(&TranspileVisitor::new(), namespaced).err(), Some(CompileError::AttrName));

    let style_call = element("div", vec![expr_attr("style", Expr::Lit(Lit::Null))], vec![]);
    assert_eq!(lower_with(&TranspileVisitor::new(), style_call).err(), Some(CompileError::StyleAttrValue));
    let style_text = element("div", vec![str_attr("style", "color: red")], vec![]);
    assert_eq!(lower_with(&TranspileVisitor::new(), style_text).err(), Some(CompileError::StyleAttrValue));

    let bad_style = Expr::Object(ObjectLit {
        props: vec![PropOrSpread::Prop(Prop::Other(Opaque { handle: 1, children: vec![] }))],
    });
    let el = element("div", vec![expr_attr("style", bad_style)], vec![]);
    assert_eq!(lower_with(&TranspileVisitor::new(), el).err(), Some(CompileError::StyleProp));

    // a fault deep in the tree surfaces
    let deep = element(
        "a",
        vec![],
        vec![child(element("b", vec![], vec![braces(Expr::Object(ObjectLit { props: vec![] }))]))],
    );
    assert_eq!(lower_with(&TranspileVisitor::new(), deep).err(), Some(CompileError::ObjectAsChild));
}

#[test]
fn every_fault_has_a_message() {
    for e in [
        CompileError::ExportAll,
        CompileError::ExportDefaultExpr,
        CompileError::ObjectAsChild,
        CompileError::AttrName,
        CompileError::StyleAttrValue,
        CompileError::StyleProp,
        CompileError::StyleKey,
        CompileError::StyleValue,
    ] {
        assert!(!e.message().is_empty());
    }
    assert_eq!(CompileError::ObjectAsChild.message(), "objects are not valid as a markup child");
}

#[test]
fn tags_are_classified_by_their_first_letter() {
    assert!(matches!(classify(&tag("Foo")), Some(CustomComponent::Ident(_))));
    assert!(classify(&tag("foo")).is_none());
    assert!(classify(&tag("")).is_none());
    assert!(classify(&tag("_Foo")).is_none());
    assert!(classify(&tag("Élan")).is_some());
    assert!(classify(&tag("élan")).is_none());
    let member = JSXElementName::JSXMemberExpr(JSXMemberExpr {
        obj: JSXObject::Ident("a".to_string()),
        prop: "b".to_string(),
    });
    assert!(matches!(classify(&member), Some(CustomComponent::Member(_))));
    let namespaced = JSXElementName::JSXNamespacedName(JSXNamespacedName {
        ns: "A".to_string(),
        name: "B".to_string(),
    });
    assert!(classify(&namespaced).is_none());
}

#[test]
fn transform_classifies_its_result() {
    let v = TranspileVisitor::new();
    let mut created = ToCreateAsync::new();
    let mut cache = StyleNameCache::new();
    let (expr, kind) =
        transform(&v, Box::new(element("div", vec![], vec![])), &mut created, &mut cache).unwrap();
    assert!(matches!(kind, ComponentType::HTML));
    assert_eq!(js(&expr), "`<div></div>`");
    let (expr, kind) =
        transform(&v, Box::new(element("Foo", vec![], vec![])), &mut created, &mut cache).unwrap();
    assert_eq!(js(&expr), "Foo({children:\"\"})");
    match kind {
        ComponentType::Custom(c) => {
            assert_eq!(js(&c.expr()), "Foo");
            assert_eq!(c.stringify(), "Foo");
        }
        other => panic!("{:?}", other),
    }
    assert!(created.is_empty());
}

#[test]
fn reserved_entries_are_filled_by_processing() {
    let v = TranspileVisitor::new();
    let mut created = ToCreateAsync::new();
    assert_eq!(reserve_deferred(&v, &tag("div"), &mut created), None);
    assert!(created.is_empty());
    let slot = reserve_deferred(&v, &tag("Foo"), &mut created);
    assert_eq!(slot, Some(0));
    let id = created[0].0.clone();
    assert!(is_generated_name(&id, 12));
    assert_eq!(js(&created[0].1), "null");
    let transformed = (ident("call"), ComponentType::Custom(CustomComponent::Ident("Foo".to_string())));
    match process_transformed_jsx(transformed, &v, &mut created, slot) {
        Processed::Async(div) => assert_eq!(div, format!("<div id=\"{}\"></div>", id)),
        other => panic!("{:?}", other),
    }
    assert_eq!(created.len(), 1);
    assert_eq!(created[0].0, id);
    assert_eq!(js(&created[0].1), "await call");
    // a native element passes through
    match process_transformed_jsx((ident("t"), ComponentType::HTML), &v, &mut created, None) {
        Processed::Sync(e) => assert_eq!(js(&e), "t"),
        other => panic!("{:?}", other),
    }
}

#[test]
fn processing_without_a_reserved_entry_appends_one() {
    let v = TranspileVisitor::new();
    let mut created = ToCreateAsync::new();
    let transformed = (ident("call"), ComponentType::Custom(CustomComponent::Ident("Foo".to_string())));
    match process_transformed_jsx(transformed, &v, &mut created, None) {
        Processed::Async(div) => assert_eq!(div, format!("<div id=\"{}\"></div>", created[0].0)),
        other => panic!("{:?}", other),
    }
    assert_eq!(created.len(), 1);
    assert!(is_generated_name(&created[0].0, 12));
    assert_eq!(js(&created[0].1), "await call");
    // an index beyond the list names no entry
    let transformed = (ident("other"), ComponentType::Custom(CustomComponent::Ident("Bar".to_string())));
    match process_transformed_jsx(transformed, &v, &mut created, Some(7)) {
        Processed::Async(div) => assert_eq!(div, format!("<div id=\"{}\"></div>", created[1].0)),
        other => panic!("{:?}", other),
    }
    assert_eq!(created.len(), 2);
    assert_eq!(js(&created[0].1), "await call");
    assert_eq!(js(&created[1].1), "await other");
}

#[test]
fn children_append_to_a_builder() {
    let v = TranspileVisitor::new();
    let mut created = ToCreateAsync::new();
    let mut cache = StyleNameCache::new();
    let mut t = TplWrapper::new();
    t.append_quasi("[");
    t.append_element_child(&v, text("x"), &mut created, &mut cache).unwrap();
    t.append_element_child(&v, child(element("i", vec![], vec![])), &mut created, &mut cache)
        .unwrap();
    t.append_quasi("]");
    assert_eq!(t.build().quasis, vec!["[x<i></i>]".to_string()]);
}

#[test]
fn markup_names_have_a_text_form() {
    let member = JSXMemberExpr {
        obj: JSXObject::JSXMemberExpr(Box::new(JSXMemberExpr {
            obj: JSXObject::Ident("a".to_string()),
            prop: "b".to_string(),
        })),
        prop: "c".to_string(),
    };
    assert_eq!(stringify_jsx_object(JSXObject::Ident("a".to_string())), "a");
    assert_eq!(stringify_jsx_member_expr(member), "a.b.c");
    assert_eq!(stringify_jsx_element_name(tag("div")), "div");
    let ns = JSXNamespacedName { ns: "svg".to_string(), name: "g".to_string() };
    assert_eq!(stringify_jsx_element_name(JSXElementName::JSXNamespacedName(ns.clone())), "svg:g");
    assert_eq!(stringify_jsx_attr_name(JSXAttrName::JSXNamespacedName(ns)), "svg:g");
    assert_eq!(stringify_jsx_attr_name(JSXAttrName::Ident("id".to_string())), "id");
}
