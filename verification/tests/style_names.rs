use jsx_transpiler::style_name::{is_unitless_number, StyleNameCache};

#[test]
fn escape_html() {
    assert_eq!(
        jsx_transpiler::style_name::escape_html("{\"key\": \"Value\"}".into()),
        "{&quot;key&quot;: &quot;Value&quot;}"
    );

    assert_eq!(
        jsx_transpiler::style_name::escape_html("Marko & Stuff".into()),
        "Marko &amp; Stuff"
    );

    assert_eq!(
        jsx_transpiler::style_name::escape_html("Marko's Code".into()),
        "Marko&#x27;s Code"
    );

    assert_eq!(
        jsx_transpiler::style_name::escape_html("<html></html>".into()),
        "&lt;html&gt;&lt;/html&gt;"
    );
}

#[test]
fn hyphenate_style_name() {
    assert_eq!(
        jsx_transpiler::style_name::hyphenate_style_name("backgroundColor"),
        "background-color"
    );

    assert_eq!(
        jsx_transpiler::style_name::hyphenate_style_name("MozTransition"),
        "-moz-transition"
    );

    assert_eq!(
        jsx_transpiler::style_name::hyphenate_style_name("msTransition"),
        "-ms-transition"
    );
}

#[test]
fn process_style_name() {
    let mut cache = StyleNameCache::new();

    assert_eq!(
        jsx_transpiler::style_name::process_style_name(&mut cache, "backgroundColor".into()),
        "background-color"
    );

    assert_eq!(
        jsx_transpiler::style_name::process_style_name(&mut cache, "MozTransition".into()),
        "-moz-transition"
    );

    assert_eq!(
        jsx_transpiler::style_name::process_style_name(&mut cache, "msTransition".into()),
        "-ms-transition"
    );

    assert_eq!(
        jsx_transpiler::style_name::process_style_name(&mut cache, "--custom-css-var".into()),
        "--custom-css-var"
    );

    assert_eq!(
        jsx_transpiler::style_name::process_style_name(&mut cache, "--cust'om-css-var".into()),
        "--cust&#x27;om-css-var"
    );
}

#[test]
fn hyphenate_short_ms_name() {
    // `ms` alone has no letter after the prefix, so nothing is put in front.
    assert_eq!(jsx_transpiler::style_name::hyphenate_style_name("ms"), "ms");
    assert_eq!(jsx_transpiler::style_name::hyphenate_style_name("msx"), "msx");
    assert_eq!(jsx_transpiler::style_name::hyphenate_style_name(""), "");
}

#[test]
fn name_cache_computes_each_name_once() {
    let mut cache = StyleNameCache::new();
    assert_eq!(cache.computed(), 0);
    let first = jsx_transpiler::style_name::process_style_name(&mut cache, "fontSize".into());
    assert_eq!(cache.computed(), 1);
    let second = jsx_transpiler::style_name::process_style_name(&mut cache, "fontSize".into());
    assert_eq!(cache.computed(), 1);
    assert_eq!(first, second);
    assert_eq!(first, "font-size");
    jsx_transpiler::style_name::process_style_name(&mut cache, "color".into());
    assert_eq!(cache.computed(), 2);
}

#[test]
fn unitless_allowlist() {
    assert!(is_unitless_number("flex"));
    assert!(is_unitless_number("zIndex"));
    assert!(is_unitless_number("WebkitLineClamp"));
    assert!(!is_unitless_number("fontSize"));
    assert!(!is_unitless_number("Flex"));
    assert!(!is_unitless_number(""));
}
