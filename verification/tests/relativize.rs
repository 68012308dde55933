use fvr::files::path::{components, file_name, join, Component};
use fvr::files::{is_hidden, relativize};

#[test]
fn relativize_descends_into_shared_root() {
    assert_eq!(relativize(b"/a/b", b"/a/b/c/d"), Some(b"c/d".to_vec()));
}

#[test]
fn relativize_steps_up_to_sibling() {
    assert_eq!(relativize(b"/a/b", b"/a/x"), Some(b"../x".to_vec()));
}

#[test]
fn relativize_absolute_root_relative_path_is_none() {
    assert_eq!(relativize(b"/a/b", b"a/b"), None);
}

#[test]
fn relativize_relative_root_absolute_path_is_unchanged() {
    assert_eq!(relativize(b"a/b", b"/a/b"), Some(b"/a/b".to_vec()));
}

#[test]
fn hidden_names_begin_with_a_dot() {
    assert!(is_hidden(b"/root/.hidden"));
    assert!(is_hidden(b".hidden"));
    assert!(!is_hidden(b"/root/b.txt"));
    assert!(!is_hidden(b"/root/.."));
    assert!(!is_hidden(b"."));
    assert!(is_hidden(b"/root/.config/"));
}

#[test]
fn relativize_same_path_is_empty() {
    assert_eq!(relativize(b"/a/b", b"/a/b"), Some(Vec::new()));
    assert_eq!(relativize(b"a", b"a"), Some(Vec::new()));
}

#[test]
fn relativize_steps_up_once_for_each_component_left_of_the_root() {
    assert_eq!(relativize(b"/a/b/c", b"/a"), Some(b"../..".to_vec()));
    assert_eq!(relativize(b"/a/b/c", b"/x/y"), Some(b"../../../x/y".to_vec()));
    assert_eq!(relativize(b"a/b", b"c"), Some(b"../../c".to_vec()));
}

#[test]
fn relativize_ignores_repeated_and_trailing_separators() {
    assert_eq!(relativize(b"/a//b/", b"/a/b///c/"), Some(b"c".to_vec()));
    assert_eq!(relativize(b"/a/./b", b"/a/b/./c"), Some(b"c".to_vec()));
}

#[test]
fn relativize_gives_up_on_an_unshared_parent_step_in_the_root() {
    assert_eq!(relativize(b"../a", b"b"), None);
    assert_eq!(relativize(b"a/../b", b"a/c"), None);
    // A parent step that both paths share is only part of what they share.
    assert_eq!(relativize(b"../a", b"../b"), Some(b"../b".to_vec()));
    // With the path used up first, each component left of the root is stepped out of.
    assert_eq!(relativize(b"a/..", b"a"), Some(b"..".to_vec()));
}

#[test]
fn relativize_takes_a_leading_dot_of_the_root_as_no_directory() {
    assert_eq!(relativize(b"./a", b"b/c"), Some(b"b/../c".to_vec()));
    assert_eq!(relativize(b".", b"b"), Some(b"b".to_vec()));
}

#[test]
fn components_follow_the_separators() {
    let shown: Vec<String> = components(b"/a//b/./../c/")
        .iter()
        .map(|component| match component {
            Component::RootDir => "/".to_string(),
            Component::CurDir => ".".to_string(),
            Component::ParentDir => "..".to_string(),
            Component::Normal(name) => String::from_utf8_lossy(name).into_owned(),
        })
        .collect();
    assert_eq!(shown, vec!["/", "a", "b", "..", "c"]);
    assert_eq!(components(b"").len(), 0);
    assert!(matches!(components(b"./a")[0], Component::CurDir));
    assert!(matches!(components(b".a")[0], Component::Normal(_)));
    assert!(matches!(components(b"..")[0], Component::ParentDir));
    assert_eq!(join(&components(b"/a//b/./c/")), b"/a/b/c".to_vec());
    assert_eq!(join(&components(b"a/b")), b"a/b".to_vec());
    assert_eq!(join(&components(b"/")), b"/".to_vec());
    assert_eq!(join(&components(b"./x")), b"./x".to_vec());
}

#[test]
fn file_name_is_the_last_component_where_it_is_a_name() {
    assert_eq!(file_name(b"/a/b.txt"), Some(&b"b.txt"[..]));
    assert_eq!(file_name(b"/a/b/"), Some(&b"b"[..]));
    assert_eq!(file_name(b"/a/b/."), Some(&b"b"[..]));
    assert_eq!(file_name(b"/a/.."), None);
    assert_eq!(file_name(b"/"), None);
    assert_eq!(file_name(b""), None);
}
