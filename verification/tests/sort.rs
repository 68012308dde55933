use fvr::arguments::model::SortOrder;
use fvr::files::metadata::{Metadata, Timestamp};
use fvr::files::sort::{
    by, depth_by, depth_extract, equal, extract, try_extract, Chain, Order, Reverse, Sort, Then,
};

fn data(mode: u32, size: u64) -> Metadata {
    Metadata { mode, size, uid: 0, gid: 0, created: None, accessed: None, modified: None }
}

fn at(seconds: i64) -> Option<Timestamp> {
    Some(Timestamp { seconds, nanoseconds: 0 })
}

#[test]
fn order_reverses_and_chains() {
    assert_eq!(Order::Less.reverse(), Order::Greater);
    assert_eq!(Order::Greater.reverse(), Order::Less);
    assert_eq!(Order::Equal.reverse(), Order::Equal);
    assert_eq!(Order::Equal.chain(Order::Less), Order::Less);
    assert_eq!(Order::Equal.chain(Order::Equal), Order::Equal);
    assert_eq!(Order::Less.chain(Order::Greater), Order::Less);
    assert_eq!(Order::Greater.chain(Order::Less), Order::Greater);
}

#[test]
fn order_stands_for_the_ordering_of_the_standard_library() {
    assert_eq!(Order::of(1.cmp(&2)), Order::Less);
    assert_eq!(Order::of(2.cmp(&2)), Order::Equal);
    assert_eq!(Order::of(3.cmp(&2)), Order::Greater);
    assert_eq!(Order::Less.ordering(), std::cmp::Ordering::Less);
    assert_eq!(Order::Equal.ordering(), std::cmp::Ordering::Equal);
    assert_eq!(Order::Greater.ordering(), std::cmp::Ordering::Greater);
    let by_name = by(|l: (&[u8], &Metadata), r: (&[u8], &Metadata)| Order::of(l.0.cmp(r.0)));
    let d = data(0, 0);
    assert_eq!(by_name.sort((b"a", &d), (b"b", &d)), Order::Less);
}

#[test]
fn equal_considers_everything_equal() {
    let a = data(0, 1);
    let b = data(0, 2);
    assert_eq!(equal().sort((b"a", &a), (b"b", &b)), Order::Equal);
    assert_eq!(equal().depth_sort((b"a", &a), (b"b", &b), 3), Order::Equal);
}

#[test]
fn extract_compares_keys_ascending() {
    let by_size = extract(|_: &[u8], data: &Metadata| data.size);
    let small = data(0, 1);
    let large = data(0, 2);
    assert_eq!(by_size.sort((b"a", &small), (b"b", &large)), Order::Less);
    assert_eq!(by_size.sort((b"a", &large), (b"b", &small)), Order::Greater);
    assert_eq!(by_size.sort((b"a", &small), (b"b", &small)), Order::Equal);
    assert_eq!(by_size.depth_sort((b"a", &small), (b"b", &large), 4), Order::Less);
}

#[test]
fn try_extract_treats_a_failure_on_either_side_as_equal() {
    let by_size = try_extract(|_: &[u8], data: &Metadata| if data.size == 0 { None } else { Some(data.size) });
    let none = data(0, 0);
    let one = data(0, 1);
    let two = data(0, 2);
    assert_eq!(by_size.sort((b"a", &one), (b"b", &two)), Order::Less);
    assert_eq!(by_size.sort((b"a", &two), (b"b", &one)), Order::Greater);
    assert_eq!(by_size.sort((b"a", &none), (b"b", &one)), Order::Equal);
    assert_eq!(by_size.sort((b"a", &one), (b"b", &none)), Order::Equal);
    assert_eq!(by_size.sort((b"a", &none), (b"b", &none)), Order::Equal);
}

#[test]
fn depth_extract_and_depth_by_see_the_depth() {
    let a = data(0, 1);
    let b = data(0, 2);
    let flip = depth_extract(|_: &[u8], data: &Metadata, depth: usize| if depth == 0 { data.size } else { 10 - data.size });
    assert_eq!(flip.sort((b"a", &a), (b"b", &b)), Order::Less);
    assert_eq!(flip.depth_sort((b"a", &a), (b"b", &b), 1), Order::Greater);
    let deep = depth_by(|_: (&[u8], &Metadata), _: (&[u8], &Metadata), depth: usize| {
        if depth > 0 { Order::Greater } else { Order::Less }
    });
    assert_eq!(deep.sort((b"a", &a), (b"b", &b)), Order::Less);
    assert_eq!(deep.depth_sort((b"a", &a), (b"b", &b), 2), Order::Greater);
}

#[test]
fn reverse_of_reverse_answers_as_the_sorter() {
    let by_size = by(|l: (&[u8], &Metadata), r: (&[u8], &Metadata)| {
        if l.1.size < r.1.size { Order::Less } else if l.1.size > r.1.size { Order::Greater } else { Order::Equal }
    });
    let items = [data(0, 1), data(0, 2), data(0, 2), data(0, 0)];
    let twice = Reverse(Reverse(by_size.clone()));
    let once = by_size.clone().reverse();
    for l in &items {
        for r in &items {
            let plain = by_size.sort((b"l", l), (b"r", r));
            assert_eq!(twice.sort((b"l", l), (b"r", r)), plain);
            assert_eq!(twice.depth_sort((b"l", l), (b"r", r), 5), plain);
            assert_eq!(once.sort((b"l", l), (b"r", r)), plain.reverse());
        }
    }
}

#[test]
fn chaining_is_associative() {
    let a = || extract(|_: &[u8], data: &Metadata| data.mode);
    let b = || extract(|_: &[u8], data: &Metadata| data.size);
    let c = || extract(|path: &[u8], _: &Metadata| path.len());
    let items: [(&[u8], Metadata); 5] = [
        (b"x", data(1, 1)),
        (b"xx", data(1, 1)),
        (b"x", data(1, 2)),
        (b"xxx", data(2, 0)),
        (b"x", data(1, 1)),
    ];
    let left = Then(Then(a(), b()), c());
    let right = Then(a(), Then(b(), c()));
    let built = a().then(b()).then(c());
    for (lp, ld) in &items {
        for (rp, rd) in &items {
            let expected = left.sort((*lp, ld), (*rp, rd));
            assert_eq!(right.sort((*lp, ld), (*rp, rd)), expected);
            assert_eq!(built.sort((*lp, ld), (*rp, rd)), expected);
            assert_eq!(right.depth_sort((*lp, ld), (*rp, rd), 2), left.depth_sort((*lp, ld), (*rp, rd), 2));
        }
    }
}

#[test]
fn equal_is_the_identity_of_chaining() {
    let by_size = || extract(|_: &[u8], data: &Metadata| data.size);
    let a = data(0, 1);
    let b = data(0, 2);
    assert_eq!(Then(equal(), by_size()).sort((b"a", &a), (b"b", &b)), Order::Less);
    assert_eq!(Then(by_size(), equal()).sort((b"a", &b), (b"b", &a)), Order::Greater);
}

#[test]
fn names_compare_by_raw_bytes_case_sensitively() {
    let d = data(0o100_644, 0);
    let name = SortOrder::Name;
    assert_eq!(name.sort((b"/r/A", &d), (b"/r/b", &d)), Order::Less);
    assert_eq!(name.sort((b"/r/a", &d), (b"/r/B", &d)), Order::Greater);
    assert_eq!(name.sort((b"/r/.hidden", &d), (b"/r/b.txt", &d)), Order::Less);
    assert_eq!(name.sort((b"/r/ab", &d), (b"/r/abc", &d)), Order::Less);
    assert_eq!(name.sort((b"/r/abc", &d), (b"/r/ab", &d)), Order::Greater);
    assert_eq!(name.sort((b"/r/ab", &d), (b"/r/ab", &d)), Order::Equal);
    assert_eq!(name.sort((&[0xffu8][..], &d), (&[0x7fu8][..], &d)), Order::Greater);
}

#[test]
fn sizes_compare_ascending() {
    let size = SortOrder::Size;
    assert_eq!(size.sort((b"a", &data(0, 5)), (b"b", &data(0, 6))), Order::Less);
    assert_eq!(size.sort((b"a", &data(0, 6)), (b"b", &data(0, 5))), Order::Greater);
    assert_eq!(size.sort((b"a", &data(0, 6)), (b"b", &data(0, 6))), Order::Equal);
}

#[test]
fn times_put_the_more_recent_first_and_tie_where_unknown() {
    let old = Metadata { modified: at(100), accessed: at(5), created: at(1), ..data(0, 0) };
    let new = Metadata { modified: at(200), accessed: at(4), created: at(1), ..data(0, 0) };
    let unknown = data(0, 0);
    assert_eq!(SortOrder::Modified.sort((b"a", &new), (b"b", &old)), Order::Less);
    assert_eq!(SortOrder::Modified.sort((b"a", &old), (b"b", &new)), Order::Greater);
    assert_eq!(SortOrder::Accessed.sort((b"a", &old), (b"b", &new)), Order::Less);
    assert_eq!(SortOrder::Created.sort((b"a", &old), (b"b", &new)), Order::Equal);
    assert_eq!(SortOrder::Modified.sort((b"a", &unknown), (b"b", &new)), Order::Equal);
    assert_eq!(SortOrder::Modified.sort((b"a", &old), (b"b", &unknown)), Order::Equal);
    assert_eq!(SortOrder::Modified.sort((b"a", &unknown), (b"b", &unknown)), Order::Equal);
}

#[test]
fn flags_put_matching_entries_first() {
    let dir = data(0o040_755, 0);
    let file = data(0o100_644, 0);
    let link = data(0o120_777, 0);
    assert_eq!(SortOrder::Directories.sort((b"a", &dir), (b"b", &file)), Order::Less);
    assert_eq!(SortOrder::Directories.sort((b"a", &file), (b"b", &dir)), Order::Greater);
    assert_eq!(SortOrder::Directories.sort((b"a", &file), (b"b", &link)), Order::Equal);
    assert_eq!(SortOrder::Files.sort((b"a", &file), (b"b", &dir)), Order::Less);
    assert_eq!(SortOrder::Symlinks.sort((b"a", &link), (b"b", &file)), Order::Less);
    assert_eq!(SortOrder::Hidden.sort((b"/r/.a", &file), (b"/r/a", &file)), Order::Less);
    assert_eq!(SortOrder::Hidden.sort((b"/r/a", &file), (b"/r/.a", &file)), Order::Greater);
    assert_eq!(SortOrder::Hidden.sort((b"/r/.a", &file), (b"/r/.b", &file)), Order::Equal);
}

#[test]
fn sort_order_reverse_unwraps_a_reversal() {
    assert_eq!(SortOrder::Name.reverse(), SortOrder::Reverse(Box::new(SortOrder::Name)));
    assert_eq!(SortOrder::Name.reverse().reverse(), SortOrder::Name);
    let d = data(0, 0);
    assert_eq!(SortOrder::Name.reverse().sort((b"a", &d), (b"b", &d)), Order::Greater);
    for (l, r) in [(&b"a"[..], &b"b"[..]), (b"b", b"a"), (b"a", b"a")] {
        assert_eq!(
            SortOrder::Name.reverse().reverse().sort((l, &d), (r, &d)),
            SortOrder::Name.sort((l, &d), (r, &d))
        );
    }
}

#[test]
fn sort_order_top_is_the_order_chained_last() {
    let order = SortOrder::Directories.then(SortOrder::Files).then(SortOrder::Name);
    assert_eq!(order.top(), &SortOrder::Name);
    assert_eq!(SortOrder::Size.top(), &SortOrder::Size);
    let nested = SortOrder::Size.then(SortOrder::Name.then(SortOrder::Hidden));
    assert_eq!(nested.top(), &SortOrder::Hidden);
    assert!(order.matches(&SortOrder::default()));
    assert!(!order.matches(&nested));
    assert_eq!(order.duplicate(), order);
}

#[test]
fn default_order_is_directories_then_files_then_name() {
    let order = SortOrder::default();
    let dir = data(0o040_755, 0);
    let file = data(0o100_644, 0);
    let link = data(0o120_777, 0);
    assert_eq!(order.sort((b"/r/z", &dir), (b"/r/a", &file)), Order::Less);
    assert_eq!(order.sort((b"/r/z", &file), (b"/r/a", &link)), Order::Less);
    assert_eq!(order.sort((b"/r/b", &file), (b"/r/a", &file)), Order::Greater);
    assert_eq!(order.depth_sort((b"/r/b", &file), (b"/r/a", &file), 3), Order::Greater);
    assert_eq!(order.compare(&(b"/r/z".to_vec(), dir), &(b"/r/a".to_vec(), file)), Order::Less);
}
