use jsx_transpiler::names::generate_random_variable_name;

fn has_shape(name: &str, len: usize) -> bool {
    let chars: Vec<char> = name.chars().collect();
    chars.len() == len + 1 && chars[0] == '_' && chars[1..].iter().all(|c| c.is_ascii_alphanumeric())
}

#[test]
fn generated_names_have_the_requested_length() {
    for len in [0usize, 1, 12, 16, 40] {
        let name = generate_random_variable_name(len);
        assert!(has_shape(&name, len), "{:?}", name);
    }
    assert_eq!(generate_random_variable_name(0), "_");
}

#[test]
fn generated_names_differ() {
    let a = generate_random_variable_name(12);
    let b = generate_random_variable_name(12);
    let c = generate_random_variable_name(12);
    assert!(a != b || b != c);
}
