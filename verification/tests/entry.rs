use fvr::files::entry::Entry;
use fvr::files::metadata::Metadata;

fn data(mode: u32) -> Metadata {
    Metadata { mode, size: 0, uid: 0, gid: 0, created: None, accessed: None, modified: None }
}

#[test]
fn root_is_the_only_entry_of_its_level() {
    let root = Entry::root(b"/r", None);
    assert_eq!(root.index, 0);
    assert_eq!(root.total, 1);
    assert!(root.is_first());
    assert!(root.is_last());
    assert_eq!(root.remaining(), 0);
    assert_eq!(root.known_children(), None);
}

#[test]
fn position_queries_follow_index_and_total() {
    let entry = Entry::new(b"/r/a", None, 1, 4);
    assert!(!entry.is_first());
    assert!(!entry.is_last());
    assert_eq!(entry.remaining(), 2);
    let last = Entry::new(b"/r/a", None, 3, 4);
    assert!(last.is_last());
    assert_eq!(last.remaining(), 0);
}

#[test]
fn type_queries_prefer_the_metadata() {
    let dir = data(0o040_755);
    let entry = Entry::new(b"/r/a", Some(&dir), 0, 1);
    assert!(entry.is_dir(|_| panic!("the metadata decides")));
    assert!(!entry.is_file(|_| panic!("the metadata decides")));
    assert!(!entry.is_symlink(|_| panic!("the metadata decides")));
}

#[test]
fn type_queries_fall_back_where_there_is_no_metadata() {
    let entry = Entry::new(b"/r/a", None, 0, 1);
    assert!(entry.is_dir(|path| path == b"/r/a"));
    assert!(!entry.is_dir(|_| false));
    assert!(entry.is_file(|_| true));
    assert!(!entry.is_symlink(|_| false));
    assert!(!entry.is_executable());
}

#[test]
fn executable_needs_metadata_with_an_execute_bit() {
    let script = data(0o100_755);
    let text = data(0o100_644);
    assert!(Entry::new(b"a", Some(&script), 0, 1).is_executable());
    assert!(!Entry::new(b"a", Some(&text), 0, 1).is_executable());
}

#[test]
fn hidden_goes_by_the_file_name() {
    assert!(Entry::root(b"/r/.git", None).is_hidden());
    assert!(!Entry::root(b"/.r/git", None).is_hidden());
}

#[test]
fn has_children_is_computed_once() {
    let dir = data(0o040_755);
    let mut entry = Entry::new(b"/r/a", Some(&dir), 0, 1);
    let mut asked = 0;
    let mut probe = |_: &[u8]| {
        asked += 1;
        true
    };
    assert!(entry.has_children(&mut probe));
    assert!(entry.has_children(&mut probe));
    assert_eq!(entry.known_children(), Some(true));
    assert_eq!(asked, 1);
}

#[test]
fn has_children_is_false_for_what_the_metadata_calls_no_directory() {
    let file = data(0o100_644);
    let mut probe = |_: &[u8]| -> bool { panic!("only what may be a directory is probed") };
    let mut entry = Entry::new(b"/r/a", Some(&file), 0, 1);
    assert!(!entry.has_children(&mut probe));
    assert_eq!(entry.known_children(), Some(false));
}

#[test]
fn has_children_asks_the_probe_where_there_is_no_metadata() {
    let mut asked = Vec::new();
    let mut probe = |path: &[u8]| {
        asked.push(path.to_vec());
        path == b"/r/dir"
    };
    let mut directory = Entry::new(b"/r/dir", None, 0, 2);
    assert!(directory.is_dir(|_| true));
    assert!(directory.has_children(&mut probe));
    assert!(directory.has_children(&mut probe));
    assert_eq!(directory.known_children(), Some(true));
    let mut other = Entry::new(b"/r/file", None, 1, 2);
    assert!(!other.has_children(&mut probe));
    assert_eq!(other.known_children(), Some(false));
    assert_eq!(asked, vec![b"/r/dir".to_vec(), b"/r/file".to_vec()]);
}

#[test]
fn has_children_is_false_where_the_directory_is_empty_or_unreadable() {
    let dir = data(0o040_755);
    let mut entry = Entry::new(b"/r/a", Some(&dir), 0, 1);
    assert!(!entry.has_children(&mut |_: &[u8]| false));
    assert_eq!(entry.known_children(), Some(false));
}

#[test]
fn is_last_is_answered_for_any_index_and_total() {
    let entry = |index: usize, total: usize| Entry { path: b"/r/a", data: None, index, total, has_children_cache: None };
    assert!(entry(0, 1).is_last());
    assert!(entry(usize::MAX - 1, usize::MAX).is_last());
    assert!(!entry(0, 0).is_last());
    assert!(!entry(usize::MAX, 0).is_last());
    assert!(!entry(5, 3).is_last());
    assert!(!entry(3, 3).is_last());
}
