use jsx_transpiler::path::{is_rooted, make_abs_path, normalize_path, Component};

fn name(s: &str) -> Component {
    Component::Normal(s.to_string())
}

#[test]
fn current_directory_components_vanish() {
    let path = vec![Component::CurDir, name("a"), name("b")];
    assert_eq!(normalize_path(&path), vec![name("a"), name("b")]);
}

#[test]
fn parent_directory_cancels_the_name_before_it() {
    let path = vec![Component::RootDir, name("a"), name("b"), Component::ParentDir, name("c")];
    assert_eq!(normalize_path(&path), vec![Component::RootDir, name("a"), name("c")]);
}

#[test]
fn parent_directory_with_nothing_to_cancel_is_dropped() {
    assert_eq!(
        normalize_path(&vec![Component::ParentDir, Component::ParentDir, name("a")]),
        vec![name("a")]
    );
    assert_eq!(
        normalize_path(&vec![Component::RootDir, Component::ParentDir, name("a")]),
        vec![Component::RootDir, name("a")]
    );
    assert_eq!(
        normalize_path(&vec![name("a"), Component::ParentDir, Component::ParentDir]),
        Vec::<Component>::new()
    );
}

#[test]
fn prefix_and_root_are_kept() {
    let prefix = Component::Prefix("C:".to_string());
    let path = vec![prefix.clone(), Component::RootDir, name("x"), Component::ParentDir];
    assert_eq!(normalize_path(&path), vec![prefix.clone(), Component::RootDir]);
    let path = vec![prefix.clone(), Component::ParentDir, name("y")];
    assert_eq!(normalize_path(&path), vec![prefix, name("y")]);
}

#[test]
fn empty_path_stays_empty() {
    assert_eq!(normalize_path(&vec![]), Vec::<Component>::new());
}

#[test]
fn rooted_paths_are_recognized() {
    assert!(is_rooted(&vec![Component::RootDir, name("a")]));
    assert!(is_rooted(&vec![Component::Prefix("C:".to_string()), Component::RootDir]));
    assert!(!is_rooted(&vec![Component::Prefix("C:".to_string()), name("a")]));
    assert!(!is_rooted(&vec![name("a")]));
    assert!(!is_rooted(&vec![]));
}

#[test]
fn relative_paths_are_joined_to_the_current_directory() {
    let cwd = vec![Component::RootDir, name("home"), name("me")];
    assert_eq!(
        make_abs_path(vec![Component::ParentDir, name("you"), Component::CurDir, name("f.tsx")], &cwd),
        vec![Component::RootDir, name("home"), name("you"), name("f.tsx")]
    );
    assert_eq!(
        make_abs_path(vec![Component::RootDir, name("etc"), Component::ParentDir, name("f")], &cwd),
        vec![Component::RootDir, name("f")]
    );
}
