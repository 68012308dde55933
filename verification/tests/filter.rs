use fvr::arguments::model::{Paths, Selection};
use fvr::files::filter::{all, by, depth_by, none, Combine, Filter};
use fvr::files::metadata::Metadata;

fn data(mode: u32) -> Metadata {
    Metadata { mode, size: 0, uid: 0, gid: 0, created: None, accessed: None, modified: None }
}

#[test]
fn all_and_none_answer_alike_at_every_depth() {
    let d = data(0o100_644);
    assert!(all().filter(b"/a", &d));
    assert!(all().depth_filter(b"/a", &d, 7));
    assert!(!none().filter(b"/a", &d));
    assert!(!none().depth_filter(b"/a", &d, 7));
}

#[test]
fn by_ignores_the_depth() {
    let long = by(|path: &[u8], _: &Metadata| path.len() > 3);
    let d = data(0);
    assert!(long.filter(b"/abc", &d));
    assert!(!long.filter(b"/ab", &d));
    assert!(long.depth_filter(b"/abc", &d, 9));
    assert!(!long.depth_filter(b"/ab", &d, 9));
}

#[test]
fn depth_by_is_asked_at_depth_zero_when_blind() {
    let shallow = depth_by(|_: &[u8], _: &Metadata, depth: usize| depth == 0);
    let d = data(0);
    assert!(shallow.filter(b"/a", &d));
    assert!(shallow.depth_filter(b"/a", &d, 0));
    assert!(!shallow.depth_filter(b"/a", &d, 1));
}

#[test]
fn combinators_combine_pointwise() {
    let d = data(0o040_000);
    for (left, right) in [(false, false), (false, true), (true, false), (true, true)] {
        let l = by(move |_: &[u8], _: &Metadata| left);
        let r = by(move |_: &[u8], _: &Metadata| right);
        assert_eq!(l.clone().and(r.clone()).filter(b"x", &d), left && right);
        assert_eq!(l.clone().or(r.clone()).filter(b"x", &d), left || right);
        assert_eq!(l.clone().xor(r.clone()).filter(b"x", &d), left != right);
        assert_eq!(l.clone().not().filter(b"x", &d), !left);
    }
}

#[test]
fn composites_keep_the_depth_of_their_operands() {
    let d = data(0);
    let deep = depth_by(|_: &[u8], _: &Metadata, depth: usize| depth >= 2);
    let even = depth_by(|_: &[u8], _: &Metadata, depth: usize| depth % 2 == 0);
    let both = deep.and(even);
    assert!(!both.depth_filter(b"x", &d, 0));
    assert!(both.depth_filter(b"x", &d, 2));
    assert!(!both.depth_filter(b"x", &d, 3));
    assert!(both.depth_filter(b"x", &d, 4));
    // Blind to depth the composite answers as at depth zero.
    assert!(!both.filter(b"x", &d));
    let neither = depth_by(|_: &[u8], _: &Metadata, depth: usize| depth >= 2).not();
    assert!(neither.depth_filter(b"x", &d, 1));
    assert!(!neither.depth_filter(b"x", &d, 2));
    let odd_or_deep = depth_by(|_: &[u8], _: &Metadata, depth: usize| depth % 2 == 1)
        .or(depth_by(|_: &[u8], _: &Metadata, depth: usize| depth > 4));
    assert!(odd_or_deep.depth_filter(b"x", &d, 1));
    assert!(!odd_or_deep.depth_filter(b"x", &d, 2));
    assert!(odd_or_deep.depth_filter(b"x", &d, 6));
    let one_of = depth_by(|_: &[u8], _: &Metadata, depth: usize| depth > 1)
        .xor(depth_by(|_: &[u8], _: &Metadata, depth: usize| depth > 3));
    assert!(!one_of.depth_filter(b"x", &d, 1));
    assert!(one_of.depth_filter(b"x", &d, 2));
    assert!(!one_of.depth_filter(b"x", &d, 4));
}

#[test]
fn selection_hides_dot_names_unless_shown() {
    let d = data(0o100_644);
    let hiding = Selection { show_hidden: false, included: None, excluded: None };
    let showing = Selection { show_hidden: true, included: None, excluded: None };
    assert!(!hiding.filter(b"/root/.hidden", &d));
    assert!(hiding.filter(b"/root/b.txt", &d));
    assert!(showing.filter(b"/root/.hidden", &d));
    assert!(showing.filter(b"/root/b.txt", &d));
}

#[test]
fn selection_keeps_only_included_paths_and_drops_excluded_ones() {
    let d = data(0o100_644);
    let mut included = Paths::new();
    included.add(b"/root/keep");
    included.add(b"/root/both");
    let mut excluded = Paths::new();
    excluded.add(b"/root/both");
    let selection = Selection { show_hidden: true, included: Some(&included), excluded: Some(&excluded) };
    assert!(selection.filter(b"/root/keep", &d));
    assert!(!selection.filter(b"/root/other", &d));
    // A path that is both included and excluded stays out.
    assert!(!selection.filter(b"/root/both", &d));
    assert!(!selection.depth_filter(b"/root/both", &d, 3));
}

#[test]
fn filter_precedence_hidden_exclusion_wins_over_inclusion() {
    // The documented precedence: all three conditions must hold. An included path that is
    // hidden stays out while hidden entries are not shown.
    let d = data(0o040_755);
    let mut included = Paths::new();
    included.add(b"/root/keep");
    included.add(b"/root/.keep");
    let hiding = Selection { show_hidden: false, included: Some(&included), excluded: None };
    assert!(hiding.filter(b"/root/keep", &d));
    assert!(!hiding.filter(b"/root/.keep", &d));
    let showing = Selection { show_hidden: true, included: Some(&included), excluded: None };
    assert!(showing.filter(b"/root/.keep", &d));
}
