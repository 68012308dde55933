use fvr::arguments::model::{Selection, SortOrder};
use fvr::files::entry::Entry;
use fvr::files::filter::{all, by, none, Combine};
use fvr::files::metadata::Metadata;
use fvr::files::snapshot::{arrange, snapshot};
use fvr::files::sort::{equal, extract, Sort};

fn data(mode: u32, size: u64) -> Metadata {
    Metadata { mode, size, uid: 0, gid: 0, created: None, accessed: None, modified: None }
}

fn child(path: &[u8], mode: u32, size: u64) -> (Vec<u8>, Metadata) {
    (path.to_vec(), data(mode, size))
}

fn paths(batch: &[Entry<'_>]) -> Vec<Vec<u8>> {
    batch.iter().map(|entry| entry.path.to_vec()).collect()
}

fn sample() -> Vec<(Vec<u8>, Metadata)> {
    vec![
        child(b"/r/delta", 0o100_644, 40),
        child(b"/r/alpha", 0o100_644, 10),
        child(b"/r/.echo", 0o100_644, 50),
        child(b"/r/charlie", 0o040_755, 30),
        child(b"/r/bravo", 0o100_644, 20),
    ]
}

#[test]
fn snapshot_holds_exactly_the_children_that_pass_in_sort_order() {
    let children = sample();
    let small = by(|_: &[u8], data: &Metadata| data.size < 45);
    let batch = snapshot(&children, &small, &SortOrder::Name);
    assert_eq!(
        paths(&batch),
        vec![b"/r/alpha".to_vec(), b"/r/bravo".to_vec(), b"/r/charlie".to_vec(), b"/r/delta".to_vec()]
    );
    for entry in &batch {
        assert_eq!(entry.data.map(|data| data.size < 45), Some(true));
        assert_eq!(entry.known_children(), None);
    }
    assert!(snapshot(&children, &none(), &SortOrder::Name).is_empty());
    assert_eq!(snapshot(&children, &all(), &SortOrder::Name).len(), 5);
    assert!(snapshot(&Vec::new(), &all(), &SortOrder::Name).is_empty());
}

#[test]
fn arrange_lists_the_places_of_the_children_in_order() {
    let children = sample();
    let by_size = extract(|_: &[u8], data: &Metadata| data.size);
    assert_eq!(arrange(&children, &all(), &by_size), vec![1, 4, 3, 0, 2]);
    assert_eq!(arrange(&children, &all(), &by_size.reverse()), vec![2, 0, 3, 4, 1]);
    // Children that tie come out in some order, each once.
    let mut tied = arrange(&children, &all(), &equal());
    tied.sort_unstable();
    assert_eq!(tied, vec![0, 1, 2, 3, 4]);
    let mut kept = arrange(&children, &by(|_: &[u8], data: &Metadata| data.size != 30), &equal());
    kept.sort_unstable();
    assert_eq!(kept, vec![0, 1, 2, 4]);
}

#[test]
fn narrowing_the_filter_only_removes_entries() {
    let children = sample();
    let wide = by(|_: &[u8], data: &Metadata| data.size >= 20);
    let narrow = by(|_: &[u8], data: &Metadata| data.size >= 20).and(by(|path: &[u8], _: &Metadata| path.len() > 8));
    let kept = paths(&snapshot(&children, &wide, &SortOrder::Name));
    let fewer = paths(&snapshot(&children, &narrow, &SortOrder::Name));
    assert_eq!(kept.len(), 4);
    assert_eq!(fewer, vec![b"/r/charlie".to_vec()]);
    for path in &fewer {
        assert!(kept.contains(path));
    }
}

#[test]
fn the_reversed_sorter_yields_the_exact_reverse() {
    let children = sample();
    for order in [SortOrder::Name, SortOrder::Size] {
        let mut forward = paths(&snapshot(&children, &all(), &order.duplicate()));
        let backward = paths(&snapshot(&children, &all(), &order.reverse()));
        forward.reverse();
        assert_eq!(forward, backward);
    }
}

#[test]
fn a_batch_is_numbered_in_order_from_zero() {
    let children = sample();
    let batch = snapshot(&children, &all(), &SortOrder::Size);
    let total = batch.len();
    assert_eq!(total, 5);
    for (position, entry) in batch.iter().enumerate() {
        assert_eq!(entry.index, position);
        assert_eq!(entry.total, total);
        assert_eq!(entry.is_first(), position == 0);
        assert_eq!(entry.is_last(), position == total - 1);
        assert_eq!(entry.remaining(), total - 1 - position);
    }
    let single = snapshot(&children, &by(|_: &[u8], data: &Metadata| data.size == 30), &SortOrder::Size);
    assert_eq!(single.len(), 1);
    assert!(single[0].is_first() && single[0].is_last());
    assert_eq!(single[0].remaining(), 0);
}

#[test]
fn default_order_visits_directories_then_files_by_name() {
    // Names compare by raw bytes, so the dot of `.hidden` puts it before `b.txt`.
    let children = vec![
        child(b"/r/b.txt", 0o100_644, 0),
        child(b"/r/A", 0o040_755, 0),
        child(b"/r/.hidden", 0o100_644, 0),
    ];
    let shown = Selection { show_hidden: true, included: None, excluded: None };
    let batch = snapshot(&children, &shown, &SortOrder::default());
    assert_eq!(paths(&batch), vec![b"/r/A".to_vec(), b"/r/.hidden".to_vec(), b"/r/b.txt".to_vec()]);
    let hiding = Selection { show_hidden: false, included: None, excluded: None };
    let batch = snapshot(&children, &hiding, &SortOrder::default());
    assert_eq!(paths(&batch), vec![b"/r/A".to_vec(), b"/r/b.txt".to_vec()]);
}

#[test]
fn large_batches_come_out_sorted() {
    let mut children = Vec::new();
    let mut seed: u64 = 12345;
    for n in 0..1000u64 {
        seed = seed.wrapping_mul(6364136223846793005).wrapping_add(1442695040888963407);
        children.push((format!("/r/{n}").into_bytes(), data(0o100_644, seed >> 40)));
    }
    let batch = snapshot(&children, &all(), &SortOrder::Size.then(SortOrder::Name));
    assert_eq!(batch.len(), 1000);
    for pair in batch.windows(2) {
        let (first, second) = (pair[0].data.unwrap(), pair[1].data.unwrap());
        assert!(first.size < second.size || (first.size == second.size && pair[0].path < pair[1].path));
    }
    let sorter = SortOrder::Size;
    for pair in batch.windows(2) {
        let order = sorter.sort((pair[0].path, pair[0].data.unwrap()), (pair[1].path, pair[1].data.unwrap()));
        assert_ne!(order, fvr::files::sort::Order::Greater);
    }
}
