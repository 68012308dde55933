use std::collections::BTreeMap;

use fvr::arguments::model::{Selection, SortOrder};
use fvr::files::entry::Entry;
use fvr::files::filter::all;
use fvr::files::metadata::Metadata;
use fvr::files::{visit_entries, visit_entries_recursive};

const DIR: u32 = 0o040_755;
const FILE: u32 = 0o100_644;

fn data(mode: u32) -> Metadata {
    Metadata { mode, size: 0, uid: 0, gid: 0, created: None, accessed: None, modified: None }
}

/// A directory tree held in memory: each directory with the names and modes of its members.
fn tree() -> BTreeMap<Vec<u8>, Vec<(Vec<u8>, u32)>> {
    let mut tree = BTreeMap::new();
    tree.insert(b"/r".to_vec(), vec![(b"/r/b".to_vec(), DIR), (b"/r/a".to_vec(), DIR), (b"/r/c.txt".to_vec(), FILE)]);
    tree.insert(b"/r/a".to_vec(), vec![(b"/r/a/y".to_vec(), DIR), (b"/r/a/x".to_vec(), FILE)]);
    tree.insert(b"/r/a/y".to_vec(), vec![(b"/r/a/y/deep".to_vec(), DIR)]);
    tree.insert(b"/r/a/y/deep".to_vec(), vec![(b"/r/a/y/deep/er".to_vec(), FILE)]);
    tree.insert(b"/r/b".to_vec(), vec![]);
    tree
}

fn read(tree: &BTreeMap<Vec<u8>, Vec<(Vec<u8>, u32)>>, path: &[u8]) -> Result<Vec<(Vec<u8>, Metadata)>, String> {
    match tree.get(path) {
        Some(members) => Ok(members.iter().map(|(path, mode)| (path.clone(), data(*mode))).collect()),
        None => Err(format!("cannot read {}", String::from_utf8_lossy(path))),
    }
}

fn probe(tree: &BTreeMap<Vec<u8>, Vec<(Vec<u8>, u32)>>, path: &[u8]) -> bool {
    tree.get(path).is_some_and(|members| !members.is_empty())
}

fn walk(max_depth: Option<usize>) -> Vec<(Vec<Vec<u8>>, Vec<u8>, usize, usize, Option<bool>)> {
    let tree = tree();
    let root = Entry::root(b"/r", None);
    let mut seen = Vec::new();
    let result: Result<(), String> = visit_entries_recursive(
        &root,
        max_depth,
        &all(),
        &SortOrder::default(),
        &mut |(): (), path: &[u8]| read(&tree, path).map(|children| ((), children)),
        &mut |(): (), path: &[u8]| ((), probe(&tree, path)),
        &mut |(): (), parents: &[Entry<'_>], entry: Entry<'_>| {
            seen.push((
                parents.iter().map(|parent| parent.path.to_vec()).collect(),
                entry.path.to_vec(),
                entry.index,
                entry.total,
                entry.known_children(),
            ));
            Ok(())
        },
        (),
    );
    assert_eq!(result, Ok(()));
    seen
}

#[test]
fn flat_visit_hands_out_the_children_in_order_below_the_entry() {
    let tree = tree();
    let root = Entry::root(b"/r", None);
    let mut seen = Vec::new();
    let result: Result<(), String> = visit_entries(
        &root,
        &all(),
        &SortOrder::default(),
        &mut |(): (), path: &[u8]| read(&tree, path).map(|children| ((), children)),
        &mut |(): (), parents: &[Entry<'_>], entry: Entry<'_>| {
            assert_eq!(parents.len(), 1);
            assert_eq!(parents[0].path, b"/r");
            seen.push((entry.path.to_vec(), entry.index, entry.total));
            Ok(())
        },
        (),
    );
    assert_eq!(result, Ok(()));
    assert_eq!(
        seen,
        vec![(b"/r/a".to_vec(), 0, 3), (b"/r/b".to_vec(), 1, 3), (b"/r/c.txt".to_vec(), 2, 3)]
    );
}

#[test]
fn flat_visit_fails_with_the_read() {
    let tree = tree();
    let root = Entry::root(b"/missing", None);
    let mut visited = 0;
    let result: Result<(), String> = visit_entries(
        &root,
        &all(),
        &SortOrder::default(),
        &mut |(): (), path: &[u8]| read(&tree, path).map(|children| ((), children)),
        &mut |(): (), _: &[Entry<'_>], _: Entry<'_>| {
            visited += 1;
            Ok(())
        },
        (),
    );
    assert_eq!(result, Err("cannot read /missing".to_string()));
    assert_eq!(visited, 0);
}

#[test]
fn flat_visit_stops_at_the_first_failure_of_the_visitor() {
    let tree = tree();
    let root = Entry::root(b"/r", None);
    let mut visited = Vec::new();
    let result: Result<(), String> = visit_entries(
        &root,
        &all(),
        &SortOrder::default(),
        &mut |(): (), path: &[u8]| read(&tree, path).map(|children| ((), children)),
        &mut |(): (), _: &[Entry<'_>], entry: Entry<'_>| {
            visited.push(entry.path.to_vec());
            if entry.index == 1 { Err("stop".to_string()) } else { Ok(()) }
        },
        (),
    );
    assert_eq!(result, Err("stop".to_string()));
    assert_eq!(visited, vec![b"/r/a".to_vec(), b"/r/b".to_vec()]);
}

#[test]
fn recursive_visit_is_depth_first_and_pre_order() {
    let seen = walk(None);
    let order: Vec<Vec<u8>> = seen.iter().map(|visit| visit.1.clone()).collect();
    assert_eq!(
        order,
        vec![
            b"/r/a".to_vec(),
            b"/r/a/y".to_vec(),
            b"/r/a/y/deep".to_vec(),
            b"/r/a/y/deep/er".to_vec(),
            b"/r/a/x".to_vec(),
            b"/r/b".to_vec(),
            b"/r/c.txt".to_vec(),
        ]
    );
}

#[test]
fn recursive_visit_threads_the_parent_chain_root_first() {
    let seen = walk(None);
    for (parents, path, _, _, _) in &seen {
        assert_eq!(parents[0], b"/r".to_vec());
        let mut expected = path.clone();
        for parent in parents.iter().rev() {
            let cut = expected.iter().rposition(|byte| *byte == b'/').unwrap();
            expected.truncate(cut);
            assert_eq!(parent, &expected);
        }
    }
    let deepest = seen.iter().find(|visit| visit.1 == b"/r/a/y/deep/er").unwrap();
    assert_eq!(deepest.0, vec![b"/r".to_vec(), b"/r/a".to_vec(), b"/r/a/y".to_vec(), b"/r/a/y/deep".to_vec()]);
}

#[test]
fn recursive_visit_tells_each_entry_whether_it_has_children() {
    let seen = walk(None);
    for (_, path, _, _, known) in &seen {
        let expected = [&b"/r/a"[..], b"/r/a/y", b"/r/a/y/deep"].contains(&path.as_slice());
        assert_eq!(*known, Some(expected));
    }
}

#[test]
fn recursive_visit_numbers_the_siblings_of_each_level() {
    let seen = walk(None);
    let x = seen.iter().find(|visit| visit.1 == b"/r/a/x").unwrap();
    assert_eq!((x.2, x.3), (1, 2));
    let y = seen.iter().find(|visit| visit.1 == b"/r/a/y").unwrap();
    assert_eq!((y.2, y.3), (0, 2));
    let c = seen.iter().find(|visit| visit.1 == b"/r/c.txt").unwrap();
    assert_eq!((c.2, c.3), (2, 3));
}

#[test]
fn max_depth_of_one_visits_children_and_grandchildren_only() {
    let seen = walk(Some(1));
    let order: Vec<Vec<u8>> = seen.iter().map(|visit| visit.1.clone()).collect();
    assert_eq!(
        order,
        vec![b"/r/a".to_vec(), b"/r/a/y".to_vec(), b"/r/a/x".to_vec(), b"/r/b".to_vec(), b"/r/c.txt".to_vec()]
    );
    for (parents, _, _, _, _) in &seen {
        assert!(parents.len() <= 2);
    }
}

#[test]
fn max_depth_of_zero_visits_the_direct_children_only() {
    let seen = walk(Some(0));
    let order: Vec<Vec<u8>> = seen.iter().map(|visit| visit.1.clone()).collect();
    assert_eq!(order, vec![b"/r/a".to_vec(), b"/r/b".to_vec(), b"/r/c.txt".to_vec()]);
}

#[test]
fn recursive_visit_skips_what_the_filter_drops_with_all_below_it() {
    let tree = tree();
    let root = Entry::root(b"/r", None);
    let mut excluded = fvr::arguments::model::Paths::new();
    excluded.add(b"/r/a");
    let selection = Selection { show_hidden: true, included: None, excluded: Some(&excluded) };
    let mut seen = Vec::new();
    let result: Result<(), String> = visit_entries_recursive(
        &root,
        None,
        &selection,
        &SortOrder::default(),
        &mut |(): (), path: &[u8]| read(&tree, path).map(|children| ((), children)),
        &mut |(): (), path: &[u8]| ((), probe(&tree, path)),
        &mut |(): (), _: &[Entry<'_>], entry: Entry<'_>| {
            seen.push(entry.path.to_vec());
            Ok(())
        },
        (),
    );
    assert_eq!(result, Ok(()));
    assert_eq!(seen, vec![b"/r/b".to_vec(), b"/r/c.txt".to_vec()]);
}

#[test]
fn recursive_visit_aborts_on_a_failed_read_below() {
    let mut tree = tree();
    tree.remove(&b"/r/a/y/deep".to_vec());
    let root = Entry::root(b"/r", None);
    let mut seen = Vec::new();
    let result: Result<(), String> = visit_entries_recursive(
        &root,
        None,
        &all(),
        &SortOrder::default(),
        &mut |(): (), path: &[u8]| read(&tree, path).map(|children| ((), children)),
        // The probe still finds members, so the walk goes on to read the directory.
        &mut |(): (), path: &[u8]| ((), path == b"/r/a/y/deep" || probe(&tree, path)),
        &mut |(): (), _: &[Entry<'_>], entry: Entry<'_>| {
            seen.push(entry.path.to_vec());
            Ok(())
        },
        (),
    );
    assert_eq!(result, Err("cannot read /r/a/y/deep".to_string()));
    // Nothing behind the failure is visited: neither the sibling below nor those above.
    assert_eq!(seen, vec![b"/r/a".to_vec(), b"/r/a/y".to_vec(), b"/r/a/y/deep".to_vec()]);
}

#[test]
fn recursive_visit_aborts_on_the_first_failure_of_the_visitor() {
    let tree = tree();
    let root = Entry::root(b"/r", None);
    let mut seen = Vec::new();
    let result: Result<(), String> = visit_entries_recursive(
        &root,
        None,
        &all(),
        &SortOrder::default(),
        &mut |(): (), path: &[u8]| read(&tree, path).map(|children| ((), children)),
        &mut |(): (), path: &[u8]| ((), probe(&tree, path)),
        &mut |(): (), _: &[Entry<'_>], entry: Entry<'_>| {
            seen.push(entry.path.to_vec());
            if entry.path == b"/r/a/y" { Err("enough".to_string()) } else { Ok(()) }
        },
        (),
    );
    assert_eq!(result, Err("enough".to_string()));
    assert_eq!(seen, vec![b"/r/a".to_vec(), b"/r/a/y".to_vec()]);
}

#[test]
fn an_unreadable_directory_counts_as_one_without_children() {
    let mut tree = tree();
    tree.remove(&b"/r/a".to_vec());
    let root = Entry::root(b"/r", None);
    let mut seen = Vec::new();
    let result: Result<(), String> = visit_entries_recursive(
        &root,
        None,
        &all(),
        &SortOrder::default(),
        &mut |(): (), path: &[u8]| read(&tree, path).map(|children| ((), children)),
        &mut |(): (), path: &[u8]| ((), probe(&tree, path)),
        &mut |(): (), _: &[Entry<'_>], entry: Entry<'_>| {
            seen.push((entry.path.to_vec(), entry.known_children()));
            Ok(())
        },
        (),
    );
    assert_eq!(result, Ok(()));
    assert_eq!(
        seen,
        vec![
            (b"/r/a".to_vec(), Some(false)),
            (b"/r/b".to_vec(), Some(false)),
            (b"/r/c.txt".to_vec(), Some(false)),
        ]
    );
}

#[test]
fn the_state_goes_through_every_step_in_walk_order() {
    let tree = tree();
    let root = Entry::root(b"/r", None);
    let show = |path: &[u8]| String::from_utf8_lossy(path).into_owned();
    let result: Result<Vec<String>, String> = visit_entries_recursive(
        &root,
        Some(1),
        &all(),
        &SortOrder::default(),
        &mut |mut log: Vec<String>, path: &[u8]| {
            log.push(format!("read {}", show(path)));
            read(&tree, path).map(|children| (log, children))
        },
        &mut |mut log: Vec<String>, path: &[u8]| {
            log.push(format!("probe {}", show(path)));
            (log, probe(&tree, path))
        },
        &mut |mut log: Vec<String>, _: &[Entry<'_>], entry: Entry<'_>| {
            log.push(format!("visit {}", show(entry.path)));
            Ok(log)
        },
        Vec::new(),
    );
    assert_eq!(
        result.unwrap(),
        vec![
            "read /r",
            "probe /r/a",
            "visit /r/a",
            "read /r/a",
            "probe /r/a/y",
            "visit /r/a/y",
            "visit /r/a/x",
            "probe /r/b",
            "visit /r/b",
            "visit /r/c.txt",
        ]
    );
}

#[test]
fn the_flat_visit_ends_in_the_state_that_the_last_entry_left() {
    let tree = tree();
    let root = Entry::root(b"/r", None);
    let result: Result<usize, String> = visit_entries(
        &root,
        &all(),
        &SortOrder::default(),
        &mut |count: usize, path: &[u8]| read(&tree, path).map(|children| (count * 10, children)),
        &mut |count: usize, _: &[Entry<'_>], entry: Entry<'_>| Ok(count * 10 + entry.index + 1),
        7,
    );
    assert_eq!(result, Ok(70_123));
}
