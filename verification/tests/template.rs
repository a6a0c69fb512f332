use jsx_transpiler::ast::expr::{Expr, Lit, Numeric, Regex, Tpl};
use jsx_transpiler::stringify::Stringify;
use jsx_transpiler::tpl_wrapper::TplWrapper;

fn ident(name: &str) -> Expr {
    Expr::Ident(name.to_string())
}

fn names(tpl: &Tpl) -> Vec<String> {
    tpl.exprs
        .iter()
        .map(|e| match e {
            Expr::Ident(n) => n.clone(),
            other => panic!("not an identifier: {:?}", other),
        })
        .collect()
}

#[test]
fn empty_builder_builds_one_empty_run() {
    let tpl = TplWrapper::new().build();
    assert_eq!(tpl.quasis, vec!["".to_string()]);
    assert!(tpl.exprs.is_empty());
}

#[test]
fn consecutive_literals_merge() {
    let mut t = TplWrapper::new();
    t.append_quasi("<div");
    t.append_quasi(" id=\"a\"");
    t.append_quasi(">");
    assert!(t.is_expr_next);
    let tpl = t.build();
    assert_eq!(tpl.quasis, vec!["<div id=\"a\">".to_string()]);
    assert!(tpl.exprs.is_empty());
}

#[test]
fn consecutive_expressions_get_an_empty_run_between() {
    let mut t = TplWrapper::new();
    t.append_expr(ident("a"));
    t.append_expr(ident("b"));
    assert!(!t.is_expr_next);
    let tpl = t.build();
    assert_eq!(tpl.quasis, vec!["".to_string(), "".to_string(), "".to_string()]);
    assert_eq!(names(&tpl), vec!["a", "b"]);
}

#[test]
fn runs_and_expressions_alternate() {
    let mut t = TplWrapper::new();
    t.append_quasi("x=");
    t.append_expr(ident("x"));
    t.append_quasi(", y=");
    t.append_expr(ident("y"));
    t.append_quasi(".");
    let tpl = t.build();
    assert_eq!(tpl.quasis, vec!["x=".to_string(), ", y=".to_string(), ".".to_string()]);
    assert_eq!(names(&tpl), vec!["x", "y"]);
    assert_eq!(tpl.quasis.len(), tpl.exprs.len() + 1);
}

#[test]
fn literal_expressions_become_text() {
    let mut t = TplWrapper::new();
    t.append_quasi("n=");
    t.append_expr(Expr::Lit(Lit::Num(Numeric { text: "4".to_string(), is_zero: false })));
    t.append_expr(Expr::Lit(Lit::Bool(false)));
    t.append_expr(Expr::Lit(Lit::Null));
    t.append_lit(Lit::Str("!".to_string()));
    let tpl = t.build();
    assert_eq!(tpl.quasis, vec!["n=4falsenull!".to_string()]);
    assert!(tpl.exprs.is_empty());
}

#[test]
fn nested_templates_are_flattened() {
    let inner = Tpl {
        quasis: vec!["<b>".to_string(), "</b>".to_string()],
        exprs: vec![ident("name")],
    };
    let mut t = TplWrapper::new();
    t.append_quasi("<p>");
    t.append_expr(Expr::Tpl(inner));
    t.append_quasi("</p>");
    let tpl = t.build();
    assert_eq!(tpl.quasis, vec!["<p><b>".to_string(), "</b></p>".to_string()]);
    assert_eq!(names(&tpl), vec!["name"]);
}

#[test]
fn templates_nested_twice_are_flattened() {
    let innermost = Tpl { quasis: vec!["[".to_string(), "]".to_string()], exprs: vec![ident("z")] };
    let inner = Tpl {
        quasis: vec!["(".to_string(), ")".to_string()],
        exprs: vec![Expr::Tpl(innermost)],
    };
    let mut t = TplWrapper::new();
    t.append_tpl(inner);
    let tpl = t.build();
    assert_eq!(tpl.quasis, vec!["([".to_string(), "])".to_string()]);
    assert_eq!(names(&tpl), vec!["z"]);
}

#[test]
fn builders_can_be_appended_to_builders() {
    let mut a = TplWrapper::new();
    a.append_quasi("a");
    a.append_expr(ident("x"));
    let mut b = TplWrapper::new();
    b.append_quasi("<");
    b.append_tpl(a);
    b.append_quasi(">");
    let tpl = b.build();
    assert_eq!(tpl.quasis, vec!["<a".to_string(), ">".to_string()]);
    assert_eq!(names(&tpl), vec!["x"]);
}

#[test]
fn appending_stops_at_the_first_missing_piece() {
    // two runs but no expression between them: only the first run is taken
    let odd = Tpl { quasis: vec!["a".to_string(), "b".to_string()], exprs: vec![] };
    let mut t = TplWrapper::new();
    t.append_tpl(odd);
    assert_eq!(t.build().quasis, vec!["a".to_string()]);

    // no run at all: nothing is taken, not even the expression
    let none = Tpl { quasis: vec![], exprs: vec![ident("x")] };
    let mut t = TplWrapper::new();
    t.append_tpl(none);
    let tpl = t.build();
    assert_eq!(tpl.quasis, vec!["".to_string()]);
    assert!(tpl.exprs.is_empty());
}

#[test]
fn literals_have_a_text_form() {
    assert_eq!(Lit::Str("a\"b".to_string()).stringify(), "a\"b");
    assert_eq!(Lit::Bool(true).stringify(), "true");
    assert_eq!(Lit::Bool(false).stringify(), "false");
    assert_eq!(Lit::Null.stringify(), "null");
    assert_eq!(Lit::Num(Numeric { text: "1.5".to_string(), is_zero: false }).stringify(), "1.5");
    assert_eq!(Lit::BigInt(Numeric { text: "12".to_string(), is_zero: false }).stringify(), "12");
    assert_eq!(
        Lit::Regex(Regex { exp: "a+".to_string(), flags: "gi".to_string() }).stringify(),
        "/a+/gi"
    );
    assert_eq!(Lit::JSXText(" hi ".to_string()).stringify(), " hi ");
}

#[test]
fn quotes_are_escaped_for_attributes() {
    assert_eq!(jsx_transpiler::text::escape_string("say \"hi\"".to_string()), "say \\\"hi\\\"");
    assert_eq!(jsx_transpiler::text::escape_string("plain".to_string()), "plain");
    assert_eq!(jsx_transpiler::text::escape_string(String::new()), "");
}

#[test]
fn identifiers_are_their_own_text() {
    assert_eq!("name".to_string().stringify(), "name");
}
