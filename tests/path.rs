use gena::path::{join_path, path_shape, rest_after, same_path, starts_with};

#[test]
fn starts_with_compares_components() {
    assert!(starts_with("common/x.txt", "common"));
    assert!(starts_with("common//x.txt", "common/"));
    assert!(!starts_with("commonx/x.txt", "common"));
    assert!(!starts_with("/common/x.txt", "common"));
    assert!(starts_with("/common/x.txt", "/"));
    assert!(!starts_with("./a", "a"));
    assert!(starts_with("./a", "."));
    assert!(starts_with("a/./b", "a/b"));
    assert!(!starts_with("a", "a/b"));
}

#[test]
fn same_path_ignores_extra_slashes() {
    assert!(same_path("a/", "a"));
    assert!(same_path("a//b", "a/b"));
    assert!(!same_path("", "."));
    assert!(!same_path("/a", "a"));
}

#[test]
fn rest_after_strips_the_base() {
    assert_eq!(rest_after("game/sub/a.txt", "game"), "sub/a.txt");
    assert_eq!(rest_after("/a/b", "/"), "a/b");
    assert_eq!(rest_after("./a/b", "."), "a/b");
    assert_eq!(rest_after("game", "game"), "");
}

#[test]
fn shape_of_paths() {
    let s = path_shape("/x//y/./z/");
    assert!(s.absolute);
    assert!(!s.leading_dot);
    assert_eq!(s.names, vec!["x".to_string(), "y".to_string(), "z".to_string()]);
    let d = path_shape("./q");
    assert!(!d.absolute);
    assert!(d.leading_dot);
    assert_eq!(d.names, vec!["q".to_string()]);
}

#[test]
fn join_places_relative_paths_under_root() {
    assert_eq!(join_path("root", "a/b"), "root/a/b");
    assert_eq!(join_path("root/", "a"), "root/a");
    assert_eq!(join_path("root", "/etc/a"), "/etc/a");
    assert_eq!(join_path("root", ""), "root/");
}
