use jsx_transpiler::ast::expr::{
    Callee, Expr, ExprOrSpread, Lit, Numeric, ObjectLit, Opaque, Prop, PropName, PropOrSpread, Tpl,
};
use jsx_transpiler::error::CompileError;
use jsx_transpiler::style_name::StyleNameCache;

// Prints the few kinds of expression that the serializer produces, the way
// a minifying printer writes them.
fn print_expr(e: &Expr) -> String {
    match e {
        Expr::Ident(name) => name.clone(),
        Expr::Lit(Lit::Str(s)) => format!("\"{}\"", s),
        Expr::Member { obj, prop } => format!("{}.{}", print_expr(obj), prop),
        Expr::Call { callee: Callee::Expr(callee), args } => {
            let args: Vec<String> = args.iter().map(print_arg).collect();
            format!("{}({})", print_expr(callee), args.join(","))
        }
        Expr::Tpl(tpl) => print_tpl(tpl),
        other => panic!("no printer for {:?}", other),
    }
}

fn print_arg(arg: &ExprOrSpread) -> String {
    if arg.spread {
        format!("...{}", print_expr(&arg.expr))
    } else {
        print_expr(&arg.expr)
    }
}

fn print_tpl(tpl: &Tpl) -> String {
    let mut out = String::from("`");
    for (i, quasi) in tpl.quasis.iter().enumerate() {
        out.push_str(quasi);
        if i < tpl.exprs.len() {
            out.push_str("${");
            out.push_str(&print_expr(&tpl.exprs[i]));
            out.push('}');
        }
    }
    out.push('`');
    out
}

fn convert(props: Vec<PropOrSpread>) -> String {
    let mut cache = StyleNameCache::new();
    let tpl = jsx_transpiler::style::style_object_to_string(ObjectLit { props }, &mut cache)
        .unwrap();
    assert_eq!(tpl.quasis.len(), tpl.exprs.len() + 1);
    format!("{};", print_tpl(&tpl))
}

fn key_value(key: &str, value: Expr) -> PropOrSpread {
    PropOrSpread::Prop(Prop::KeyValue {
        key: PropName::Ident(key.to_string()),
        value: Box::new(value),
    })
}

fn str_lit(s: &str) -> Expr {
    Expr::Lit(Lit::Str(s.to_string()))
}

fn num_lit(text: &str, is_zero: bool) -> Expr {
    Expr::Lit(Lit::Num(Numeric { text: text.to_string(), is_zero }))
}

#[test]
fn style_object_to_string() {
    // ({backgroundColor: '#121212'})
    assert_eq!(
        convert(vec![key_value("backgroundColor", str_lit("#121212"))]),
        "`background-color: #121212`;"
    );

    // ({backgroundColor: '#121212', color: 'white'})
    assert_eq!(
        convert(vec![
            key_value("backgroundColor", str_lit("#121212")),
            key_value("color", str_lit("white")),
        ]),
        "`background-color: #121212;color: white`;"
    );

    // ({fontSize: 16})
    assert_eq!(convert(vec![key_value("fontSize", num_lit("16", false))]), "`font-size: 16px`;");

    // ({margin: 0})
    assert_eq!(convert(vec![key_value("margin", num_lit("0", true))]), "`margin: 0`;");

    // ({'--test': 'hello'})
    assert_eq!(
        convert(vec![PropOrSpread::Prop(Prop::KeyValue {
            key: PropName::Str("--test".to_string()),
            value: Box::new(str_lit("hello")),
        })]),
        "`--test: hello`;"
    );

    // ({backgroundColor: '#121212', ...styles})
    assert_eq!(
        convert(vec![
            key_value("backgroundColor", str_lit("#121212")),
            PropOrSpread::Spread(Expr::Ident("styles".to_string())),
        ]),
        "`background-color: #121212;${global.___FRAMEWORK_JS_STYLE_OBJECT___(styles)}`;"
    );

    // ({backgroundColor})
    assert_eq!(
        convert(vec![PropOrSpread::Prop(Prop::Shorthand("backgroundColor".to_string()))]),
        "`background-color: ${global.___FRAMEWORK_JS_STYLE_VALUE___(backgroundColor,\"backgroundColor\")}`;"
    );

    // ({flex: 1})
    assert_eq!(convert(vec![key_value("flex", num_lit("1", false))]), "`flex: 1`;");
}

#[test]
fn style_numbers_follow_the_key() {
    // a custom property keeps the bare number, even a zero that is written `0.0`
    assert_eq!(
        convert(vec![PropOrSpread::Prop(Prop::KeyValue {
            key: PropName::Str("--gap".to_string()),
            value: Box::new(num_lit("12", false)),
        })]),
        "`--gap: 12`;"
    );
    assert_eq!(convert(vec![key_value("lineHeight", num_lit("1.5", false))]), "`line-height: 1.5`;");
    assert_eq!(convert(vec![key_value("width", num_lit("1.5", false))]), "`width: 1.5px`;");
    assert_eq!(convert(vec![key_value("width", num_lit("-0", true))]), "`width: 0`;");
    assert_eq!(
        convert(vec![key_value(
            "zIndex",
            Expr::Lit(Lit::BigInt(Numeric { text: "10".to_string(), is_zero: false }))
        )]),
        "`z-index: 10`;"
    );
    assert_eq!(
        convert(vec![key_value(
            "top",
            Expr::Lit(Lit::BigInt(Numeric { text: "10".to_string(), is_zero: false }))
        )]),
        "`top: 10px`;"
    );
    assert_eq!(convert(vec![key_value("hidden", Expr::Lit(Lit::Bool(true)))]), "`hidden: true`;");
}

#[test]
fn style_dynamic_parts_are_left_to_the_runtime() {
    // ({color: theme})
    assert_eq!(
        convert(vec![key_value("color", Expr::Ident("theme".to_string()))]),
        "`color: ${global.___FRAMEWORK_JS_STYLE_VALUE___(theme,\"color\")}`;"
    );
    // ({[name]: 4}): a computed key goes through the runtime, and so does its value
    let computed = PropOrSpread::Prop(Prop::KeyValue {
        key: PropName::Computed(Box::new(Expr::Ident("name".to_string()))),
        value: Box::new(str_lit("red")),
    });
    assert_eq!(
        convert(vec![computed]),
        "`${global.___FRAMEWORK_JS_STYLE_NAME___(name)}: ${global.___FRAMEWORK_JS_STYLE_VALUE___(\"red\",name)}`;"
    );
    // ({['fontSize']: 3}): a computed string key is a plain key
    let computed = PropOrSpread::Prop(Prop::KeyValue {
        key: PropName::Computed(Box::new(str_lit("fontSize"))),
        value: Box::new(num_lit("3", false)),
    });
    assert_eq!(convert(vec![computed]), "`font-size: 3px`;");
    // a template as value is handed to the runtime whole
    let tpl = Expr::Tpl(Tpl { quasis: vec!["a".to_string()], exprs: vec![] });
    assert_eq!(
        convert(vec![key_value("color", tpl)]),
        "`color: ${global.___FRAMEWORK_JS_STYLE_VALUE___(`a`,\"color\")}`;"
    );
    assert_eq!(convert(vec![]), "``;");
}

#[test]
fn style_names_are_escaped() {
    assert_eq!(
        convert(vec![PropOrSpread::Prop(Prop::KeyValue {
            key: PropName::Str("a<b".to_string()),
            value: Box::new(str_lit("x")),
        })]),
        "`a&lt;b: x`;"
    );
}

fn refused(prop: PropOrSpread) -> CompileError {
    let mut cache = StyleNameCache::new();
    let before = PropOrSpread::Prop(Prop::KeyValue {
        key: PropName::Ident("color".to_string()),
        value: Box::new(str_lit("red")),
    });
    jsx_transpiler::style::style_object_to_string(
        ObjectLit { props: vec![before, prop] },
        &mut cache,
    )
    .unwrap_err()
}

#[test]
fn style_faults() {
    let numeric_key = PropOrSpread::Prop(Prop::KeyValue {
        key: PropName::Num(Numeric { text: "1".to_string(), is_zero: false }),
        value: Box::new(str_lit("x")),
    });
    assert_eq!(refused(numeric_key), CompileError::StyleKey);

    let computed_call = PropOrSpread::Prop(Prop::KeyValue {
        key: PropName::Computed(Box::new(Expr::Lit(Lit::Null))),
        value: Box::new(str_lit("x")),
    });
    assert_eq!(refused(computed_call), CompileError::StyleKey);

    assert_eq!(refused(key_value("color", Expr::Lit(Lit::Null))), CompileError::StyleValue);
    assert_eq!(
        refused(key_value("color", Expr::Lit(Lit::JSXText("x".to_string())))),
        CompileError::StyleValue
    );
    assert_eq!(
        refused(key_value("color", Expr::Array(vec![]))),
        CompileError::StyleValue
    );

    let method = PropOrSpread::Prop(Prop::Other(Opaque { handle: 7, children: vec![] }));
    assert_eq!(refused(method), CompileError::StyleProp);

    // the key is looked at before the value
    let both = PropOrSpread::Prop(Prop::KeyValue {
        key: PropName::BigInt(Numeric { text: "1".to_string(), is_zero: false }),
        value: Box::new(Expr::Lit(Lit::Null)),
    });
    assert_eq!(refused(both), CompileError::StyleKey);
}
