//! Builds the ordered, indexed batch of one directory's children.

use vstd::prelude::*;
use vstd::seq_lib::lemma_multiset_commutative;

use crate::files::entry::Entry;
use crate::files::filter::Filter;
use crate::files::metadata::Metadata;
use crate::files::sort::{Order, Reverse, Sort, Then};

verus! {

/// What the filters and sorters see of the child at `i`: its path and its metadata.
pub open spec fn item(children: Seq<(Vec<u8>, Metadata)>, i: int) -> (Seq<u8>, Metadata) {
    (children[i].0@, children[i].1)
}

/// Whether `i` is the place of a child that the filter retains.
pub open spec fn retained<F: Filter>(filter: F, children: Seq<(Vec<u8>, Metadata)>, i: int) -> bool {
    0 <= i < children.len() && filter.accepts(children[i].0@, children[i].1)
}

/// How the sorter has the child at `i` stand to the child at `j`, blind to depth.
pub open spec fn outcome<S: Sort>(
    sorter: S,
    children: Seq<(Vec<u8>, Metadata)>,
    i: int,
    j: int,
) -> Order {
    sorter.order(item(children, i), item(children, j))
}

/// Whether the sorter orders these children: asked the other way round it answers the
/// opposite, and where one child may come before a second and the second before a third, the
/// first may come before the third.
pub open spec fn coherent<S: Sort>(sorter: S, children: Seq<(Vec<u8>, Metadata)>) -> bool {
    &&& forall|i: int, j: int|
        0 <= i < children.len() && 0 <= j < children.len() ==> #[trigger] outcome(
            sorter,
            children,
            i,
            j,
        ) == outcome(sorter, children, j, i).reversed()
    &&& forall|i: int, j: int, k: int|
        #![trigger outcome(sorter, children, i, j), outcome(sorter, children, j, k)]
        0 <= i < children.len() && 0 <= j < children.len() && 0 <= k < children.len() && outcome(
            sorter,
            children,
            i,
            j,
        ) != Order::Greater && outcome(sorter, children, j, k) != Order::Greater ==> outcome(
            sorter,
            children,
            i,
            k,
        ) != Order::Greater
}

/// Whether the sorter orders the children at the places named: of any two of them, asked the
/// other way round it answers the opposite, and where one may come before a second and the
/// second before a third, the first may come before the third.
pub open spec fn ordered_among<S: Sort>(
    sorter: S,
    children: Seq<(Vec<u8>, Metadata)>,
    among: Set<int>,
) -> bool {
    &&& forall|i: int, j: int|
        among.contains(i) && among.contains(j) ==> #[trigger] outcome(sorter, children, i, j)
            == outcome(sorter, children, j, i).reversed()
    &&& forall|i: int, j: int, k: int|
        #![trigger outcome(sorter, children, i, j), outcome(sorter, children, j, k)]
        among.contains(i) && among.contains(j) && among.contains(k) && outcome(
            sorter,
            children,
            i,
            j,
        ) != Order::Greater && outcome(sorter, children, j, k) != Order::Greater ==> outcome(
            sorter,
            children,
            i,
            k,
        ) != Order::Greater
}

/// The places of the children that the filter retains.
pub open spec fn retained_places<F: Filter>(
    filter: F,
    children: Seq<(Vec<u8>, Metadata)>,
) -> Set<int> {
    Set::new(|i: int| retained(filter, children, i))
}

/// Whether the sorter orders the children that the filter retains. Of the children that the
/// filter drops nothing is asked.
pub open spec fn ordered<F: Filter, S: Sort>(
    filter: F,
    sorter: S,
    children: Seq<(Vec<u8>, Metadata)>,
) -> bool {
    ordered_among(sorter, children, retained_places(filter, children))
}

/// Whether every place listed is one of the places named.
pub open spec fn chosen(order: Seq<usize>, among: Set<int>) -> bool {
    forall|k: int| 0 <= k < order.len() ==> among.contains(#[trigger] order[k] as int)
}

/// Whether the places listed are those of the retained children, each listed once.
pub open spec fn arranged<F: Filter>(
    order: Seq<usize>,
    filter: F,
    children: Seq<(Vec<u8>, Metadata)>,
) -> bool {
    &&& forall|k: int| 0 <= k < order.len() ==> retained(filter, children, #[trigger] order[k] as int)
    &&& order.no_duplicates()
    &&& forall|i: int| #[trigger]
        retained(filter, children, i) ==> exists|k: int|
            0 <= k < order.len() && #[trigger] order[k] == i
}

/// Whether no child listed earlier has to come after one listed later.
pub open spec fn sorted<S: Sort>(
    order: Seq<usize>,
    sorter: S,
    children: Seq<(Vec<u8>, Metadata)>,
) -> bool {
    forall|a: int, b: int|
        0 <= a < b < order.len() ==> #[trigger] outcome(
            sorter,
            children,
            order[a] as int,
            order[b] as int,
        ) != Order::Greater
}

/// Whether every place listed is the place of a child.
pub open spec fn within(order: Seq<usize>, children: Seq<(Vec<u8>, Metadata)>) -> bool {
    forall|k: int| 0 <= k < order.len() ==> #[trigger] order[k] < children.len()
}

/// Merges two sorted lists of places into one.
fn merge<S: Sort>(
    left: &Vec<usize>,
    right: &Vec<usize>,
    children: &Vec<(Vec<u8>, Metadata)>,
    sorter: &S,
    Ghost(among): Ghost<Set<int>>,
) -> (out: Vec<usize>)
    requires
        sorter.wf(),
        within(left@, children@),
        within(right@, children@),
        chosen(left@, among),
        chosen(right@, among),
        left@.len() + right@.len() <= usize::MAX,
    ensures
        within(out@, children@),
        chosen(out@, among),
        out@.to_multiset() == left@.to_multiset().add(right@.to_multiset()),
        ordered_among(*sorter, children@, among) && sorted(left@, *sorter, children@) && sorted(
            right@,
            *sorter,
            children@,
        ) ==> sorted(out@, *sorter, children@),
{
    let ghost tidy = ordered_among(*sorter, children@, among) && sorted(left@, *sorter, children@) && sorted(
        right@,
        *sorter,
        children@,
    );
    let mut out: Vec<usize> = Vec::new();
    let mut i: usize = 0;
    let mut j: usize = 0;
    proof {
        assert(left@.take(0) =~= Seq::<usize>::empty());
        assert(right@.take(0) =~= Seq::<usize>::empty());
        lemma_multiset_commutative(left@.take(0), right@.take(0));
    }
    while i < left.len() || j < right.len()
        invariant
            sorter.wf(),
            within(left@, children@),
            within(right@, children@),
            chosen(left@, among),
            chosen(right@, among),
            chosen(out@, among),
            left@.len() + right@.len() <= usize::MAX,
            i <= left@.len(),
            j <= right@.len(),
            out@.len() == i + j,
            within(out@, children@),
            out@.to_multiset() == left@.take(i as int).to_multiset().add(
                right@.take(j as int).to_multiset(),
            ),
            tidy == (ordered_among(*sorter, children@, among) && sorted(left@, *sorter, children@) && sorted(
                right@,
                *sorter,
                children@,
            )),
            tidy ==> sorted(out@, *sorter, children@),
            tidy ==> forall|k: int, a: int|
                0 <= k < out@.len() && i <= a < left@.len() ==> #[trigger] outcome(
                    *sorter,
                    children@,
                    out@[k] as int,
                    left@[a] as int,
                ) != Order::Greater,
            tidy ==> forall|k: int, b: int|
                0 <= k < out@.len() && j <= b < right@.len() ==> #[trigger] outcome(
                    *sorter,
                    children@,
                    out@[k] as int,
                    right@[b] as int,
                ) != Order::Greater,
        decreases left@.len() + right@.len() - i - j,
    {
        let ghost before = out@;
        let from_left = if i >= left.len() {
            false
        } else if j >= right.len() {
            true
        } else {
            let l = &children[left[i]];
            let r = &children[right[j]];
            match sorter.sort((l.0.as_slice(), &l.1), (r.0.as_slice(), &r.1)) {
                Order::Greater => false,
                _ => true,
            }
        };
        if from_left {
            let next = left[i];
            out.push(next);
            proof {
                assert(left@.take(i + 1) =~= left@.take(i as int).push(next));
                vstd::seq_lib::to_multiset_build(left@.take(i as int), next);
                vstd::seq_lib::to_multiset_build(before, next);
                assert(out@.to_multiset() =~= left@.take(i + 1).to_multiset().add(
                    right@.take(j as int).to_multiset(),
                ));
                if tidy {
                    assert forall|a: int, b: int| 0 <= a < b < out@.len() implies #[trigger] outcome(
                        *sorter,
                        children@,
                        out@[a] as int,
                        out@[b] as int,
                    ) != Order::Greater by {
                        if b == before.len() {
                            assert(out@[a] == before[a]);
                        } else {
                            assert(out@[a] == before[a] && out@[b] == before[b]);
                        }
                    }
                    assert forall|k: int, a: int|
                        0 <= k < out@.len() && i + 1 <= a < left@.len() implies #[trigger] outcome(
                        *sorter,
                        children@,
                        out@[k] as int,
                        left@[a] as int,
                    ) != Order::Greater by {
                        if k == before.len() {
                            assert(outcome(*sorter, children@, left@[i as int] as int, left@[a] as int)
                                != Order::Greater);
                        } else {
                            assert(out@[k] == before[k]);
                        }
                    }
                    assert forall|k: int, b: int|
                        0 <= k < out@.len() && j <= b < right@.len() implies #[trigger] outcome(
                        *sorter,
                        children@,
                        out@[k] as int,
                        right@[b] as int,
                    ) != Order::Greater by {
                        if k == before.len() {
                            let x = left@[i as int] as int;
                            let y = right@[j as int] as int;
                            let z = right@[b] as int;
                            assert(outcome(*sorter, children@, x, y) != Order::Greater);
                            if b > j {
                                assert(outcome(*sorter, children@, y, z) != Order::Greater);
                            }
                        } else {
                            assert(out@[k] == before[k]);
                        }
                    }
                }
            }
            i = i + 1;
        } else {
            let next = right[j];
            out.push(next);
            proof {
                assert(right@.take(j + 1) =~= right@.take(j as int).push(next));
                vstd::seq_lib::to_multiset_build(right@.take(j as int), next);
                vstd::seq_lib::to_multiset_build(before, next);
                assert(out@.to_multiset() =~= left@.take(i as int).to_multiset().add(
                    right@.take(j + 1).to_multiset(),
                ));
                if tidy {
                    assert forall|a: int, b: int| 0 <= a < b < out@.len() implies #[trigger] outcome(
                        *sorter,
                        children@,
                        out@[a] as int,
                        out@[b] as int,
                    ) != Order::Greater by {
                        if b == before.len() {
                            assert(out@[a] == before[a]);
                        } else {
                            assert(out@[a] == before[a] && out@[b] == before[b]);
                        }
                    }
                    assert forall|k: int, b: int|
                        0 <= k < out@.len() && j + 1 <= b < right@.len() implies #[trigger] outcome(
                        *sorter,
                        children@,
                        out@[k] as int,
                        right@[b] as int,
                    ) != Order::Greater by {
                        if k == before.len() {
                            assert(outcome(
                                *sorter,
                                children@,
                                right@[j as int] as int,
                                right@[b] as int,
                            ) != Order::Greater);
                        } else {
                            assert(out@[k] == before[k]);
                        }
                    }
                    assert forall|k: int, a: int|
                        0 <= k < out@.len() && i <= a < left@.len() implies #[trigger] outcome(
                        *sorter,
                        children@,
                        out@[k] as int,
                        left@[a] as int,
                    ) != Order::Greater by {
                        if k == before.len() {
                            let x = left@[i as int] as int;
                            let y = right@[j as int] as int;
                            let z = left@[a] as int;
                            assert(outcome(*sorter, children@, x, y) == Order::Greater);
                            assert(outcome(*sorter, children@, y, x) == outcome(
                                *sorter,
                                children@,
                                x,
                                y,
                            ).reversed());
                            if a > i {
                                assert(outcome(*sorter, children@, x, z) != Order::Greater);
                            }
                        } else {
                            assert(out@[k] == before[k]);
                        }
                    }
                }
            }
            j = j + 1;
        }
    }
    proof {
        assert(left@.take(i as int) =~= left@);
        assert(right@.take(j as int) =~= right@);
    }
    out
}

/// Sorts the places `keys[low..high]` by the children that stand there.
fn sort_range<S: Sort>(
    keys: &Vec<usize>,
    low: usize,
    high: usize,
    children: &Vec<(Vec<u8>, Metadata)>,
    sorter: &S,
    Ghost(among): Ghost<Set<int>>,
) -> (out: Vec<usize>)
    requires
        sorter.wf(),
        low <= high <= keys@.len(),
        within(keys@, children@),
        chosen(keys@, among),
    ensures
        within(out@, children@),
        chosen(out@, among),
        out@.len() == high - low,
        out@.to_multiset() == keys@.subrange(low as int, high as int).to_multiset(),
        ordered_among(*sorter, children@, among) ==> sorted(out@, *sorter, children@),
    decreases high - low,
{
    let ghost range = keys@.subrange(low as int, high as int);
    if high - low <= 1 {
        let mut out: Vec<usize> = Vec::new();
        if high - low == 1 {
            out.push(keys[low]);
        }
        assert(out@ =~= range);
        return out;
    }
    let middle = low + (high - low) / 2;
    let left = sort_range(keys, low, middle, children, sorter, Ghost(among));
    let right = sort_range(keys, middle, high, children, sorter, Ghost(among));
    let out = merge(&left, &right, children, sorter, Ghost(among));
    proof {
        let first = keys@.subrange(low as int, middle as int);
        let second = keys@.subrange(middle as int, high as int);
        assert(first + second =~= range);
        lemma_multiset_commutative(first, second);
        vstd::seq_lib::to_multiset_len(out@);
        vstd::seq_lib::to_multiset_len(range);
    }
    out
}

/// Picks the children that the filter retains and puts them in the sorter's order.
///
/// The result lists places in `children`: each retained child once, no other. Where the sorter
/// orders the retained children, no child listed earlier has to come after one listed later.
pub fn arrange<F: Filter, S: Sort>(
    children: &Vec<(Vec<u8>, Metadata)>,
    filter: &F,
    sorter: &S,
) -> (order: Vec<usize>)
    requires
        filter.wf(),
        sorter.wf(),
    ensures
        arranged(order@, *filter, children@),
        ordered(*filter, *sorter, children@) ==> sorted(order@, *sorter, children@),
{
    let mut kept: Vec<usize> = Vec::new();
    let mut i: usize = 0;
    while i < children.len()
        invariant
            filter.wf(),
            i <= children@.len(),
            forall|k: int| 0 <= k < kept@.len() ==> kept@[k] < i && retained(
                *filter,
                children@,
                #[trigger] kept@[k] as int,
            ),
            forall|a: int, b: int| 0 <= a < b < kept@.len() ==> kept@[a] < kept@[b],
            forall|c: int| 0 <= c < i && #[trigger] retained(*filter, children@, c) ==> kept@.contains(c as usize),
        decreases children@.len() - i,
    {
        let child = &children[i];
        if filter.filter(child.0.as_slice(), &child.1) {
            let ghost before = kept@;
            kept.push(i);
            proof {
                assert forall|c: int| 0 <= c < i + 1 && #[trigger] retained(
                    *filter,
                    children@,
                    c,
                ) implies kept@.contains(c as usize) by {
                    if c < i {
                        let at = choose|at: int| 0 <= at < before.len() && before[at] == c as usize;
                        assert(kept@[at] == c as usize);
                    } else {
                        assert(kept@[before.len() as int] == c as usize);
                    }
                }
            }
        }
        i = i + 1;
    }
    let order = sort_range(
        &kept,
        0,
        kept.len(),
        children,
        sorter,
        Ghost(retained_places(*filter, children@)),
    );
    proof {
        assert(kept@.subrange(0, kept@.len() as int) =~= kept@);
        assert(kept@.no_duplicates());
        kept@.lemma_multiset_has_no_duplicates();
        order@.lemma_multiset_has_no_duplicates_conv();
        assert forall|k: int| 0 <= k < order@.len() implies retained(
            *filter,
            children@,
            #[trigger] order@[k] as int,
        ) by {
            vstd::seq_lib::to_multiset_contains(order@, order@[k]);
            vstd::seq_lib::to_multiset_contains(kept@, order@[k]);
            assert(order@.contains(order@[k]));
            let at = choose|at: int| 0 <= at < kept@.len() && kept@[at] == order@[k];
            assert(retained(*filter, children@, kept@[at] as int));
        }
        assert forall|c: int| #[trigger] retained(*filter, children@, c) implies exists|k: int|
            0 <= k < order@.len() && #[trigger] order@[k] == c by {
            vstd::seq_lib::to_multiset_contains(order@, c as usize);
            vstd::seq_lib::to_multiset_contains(kept@, c as usize);
            assert(kept@.contains(c as usize));
            assert(order@.contains(c as usize));
            let k = choose|k: int| 0 <= k < order@.len() && order@[k] == c as usize;
            assert(order@[k] == c);
        }
    }
    order
}

/// Whether the batch is what `order` makes of `children`: one entry for each place listed, in
/// that order, with the child's path and metadata, its index in the batch and the batch's size,
/// and nothing yet known of its own children.
pub open spec fn batched(
    batch: Seq<Entry<'_>>,
    order: Seq<usize>,
    children: Seq<(Vec<u8>, Metadata)>,
) -> bool {
    &&& batch.len() == order.len()
    &&& forall|k: int|
        0 <= k < batch.len() ==> {
            &&& (#[trigger] batch[k]).path@ == children[order[k] as int].0@
            &&& batch[k].data == Some(&children[order[k] as int].1)
            &&& batch[k].index == k
            &&& batch[k].total == batch.len()
            &&& batch[k].children() is None
        }
}

/// Whether the batch is a snapshot of `children`: the children that the filter retains, each
/// once, in an order that the sorter agrees with wherever it orders the retained children.
pub open spec fn snapshot_of<F: Filter, S: Sort>(
    batch: Seq<Entry<'_>>,
    children: Seq<(Vec<u8>, Metadata)>,
    filter: F,
    sorter: S,
) -> bool {
    exists|order: Seq<usize>|
        {
            &&& #[trigger] batched(batch, order, children)
            &&& arranged(order, filter, children)
            &&& ordered(filter, sorter, children) ==> sorted(order, sorter, children)
        }
}

/// Builds the snapshot of one directory: the children that the filter retains, in the sorter's
/// order, each with its index and the size of the batch.
pub fn snapshot<'c, F: Filter, S: Sort>(
    children: &'c Vec<(Vec<u8>, Metadata)>,
    filter: &F,
    sorter: &S,
) -> (batch: Vec<Entry<'c>>)
    requires
        filter.wf(),
        sorter.wf(),
    ensures
        snapshot_of(batch@, children@, *filter, *sorter),
{
    let order = arrange(children, filter, sorter);
    let total = order.len();
    let mut batch: Vec<Entry<'c>> = Vec::new();
    let mut k: usize = 0;
    while k < total
        invariant
            total == order@.len(),
            k <= total,
            arranged(order@, *filter, children@),
            batch@.len() == k,
            forall|n: int|
                0 <= n < k ==> {
                    &&& (#[trigger] batch@[n]).path@ == children@[order@[n] as int].0@
                    &&& batch@[n].data == Some(&children@[order@[n] as int].1)
                    &&& batch@[n].index == n
                    &&& batch@[n].total == total
                    &&& batch@[n].children() is None
                },
        decreases total - k,
    {
        assert(retained(*filter, children@, order@[k as int] as int));
        let child = &children[order[k]];
        batch.push(Entry::new(child.0.as_slice(), Some(&child.1), k, total));
        k = k + 1;
    }
    assert(batched(batch@, order@, children@));
    batch
}

/// In a snapshot the entries are numbered in order from zero: each index is used once, the
/// last entry is the one at the highest index, and after each entry as many remain as the
/// batch holds beyond its index. Each entry has its metadata, and nothing is known yet of its
/// children.
pub proof fn lemma_snapshot_indices<F: Filter, S: Sort>(
    batch: Seq<Entry<'_>>,
    children: Seq<(Vec<u8>, Metadata)>,
    filter: F,
    sorter: S,
    k: int,
)
    requires
        snapshot_of(batch, children, filter, sorter),
        0 <= k < batch.len(),
    ensures
        batch[k].wf(),
        batch[k].data is Some,
        batch[k].children() is None,
        batch[k].index == k,
        batch[k].total == batch.len(),
        (batch[k].index + 1 == batch[k].total) <==> k == batch.len() - 1,
        batch[k].total - (batch[k].index + 1) == batch.len() - 1 - k,
        forall|n: int| 0 <= n < batch.len() && n != k ==> batch[n].index != batch[k].index,
{
    let order = choose|order: Seq<usize>| #[trigger]
        batched(batch, order, children) && arranged(order, filter, children);
    assert forall|n: int| 0 <= n < batch.len() && n != k implies batch[n].index
        != batch[k].index by {
        assert(batch[n].index == n);
    }
}

/// Whether the entry shows the child at `i`: its path and its metadata.
pub open spec fn shows(entry: Entry<'_>, children: Seq<(Vec<u8>, Metadata)>, i: int) -> bool {
    entry.path@ == children[i].0@ && entry.data == Some(&children[i].1)
}

/// Every entry of a snapshot shows a child that the filter retains.
pub proof fn lemma_snapshot_sound<F: Filter, S: Sort>(
    batch: Seq<Entry<'_>>,
    children: Seq<(Vec<u8>, Metadata)>,
    filter: F,
    sorter: S,
    k: int,
)
    requires
        snapshot_of(batch, children, filter, sorter),
        0 <= k < batch.len(),
    ensures
        exists|i: int| #[trigger] retained(filter, children, i) && shows(batch[k], children, i),
{
    let order = choose|order: Seq<usize>| #[trigger]
        batched(batch, order, children) && arranged(order, filter, children);
    assert(retained(filter, children, order[k] as int));
    assert(shows(batch[k], children, order[k] as int));
}

/// Every child that the filter retains is shown by an entry of the snapshot.
pub proof fn lemma_snapshot_complete<F: Filter, S: Sort>(
    batch: Seq<Entry<'_>>,
    children: Seq<(Vec<u8>, Metadata)>,
    filter: F,
    sorter: S,
    i: int,
)
    requires
        snapshot_of(batch, children, filter, sorter),
        retained(filter, children, i),
    ensures
        exists|k: int| 0 <= k < batch.len() && #[trigger] shows(batch[k], children, i),
{
    let order = choose|order: Seq<usize>| #[trigger]
        batched(batch, order, children) && arranged(order, filter, children);
    let k = choose|k: int| 0 <= k < order.len() && #[trigger] order[k] == i;
    assert(shows(batch[k], children, i));
}

/// Narrowing the filter only removes entries: where one filter retains no child that a second
/// does not retain too, every entry of a snapshot under the first shows a child that an entry of
/// any snapshot under the second shows as well.
pub proof fn lemma_snapshot_monotonic<F: Filter, G: Filter, S: Sort, T: Sort>(
    narrow: Seq<Entry<'_>>,
    wide: Seq<Entry<'_>>,
    children: Seq<(Vec<u8>, Metadata)>,
    narrower: F,
    wider: G,
    first: S,
    second: T,
    k: int,
)
    requires
        snapshot_of(narrow, children, narrower, first),
        snapshot_of(wide, children, wider, second),
        forall|path: Seq<u8>, data: Metadata| #[trigger]
            narrower.accepts(path, data) ==> wider.accepts(path, data),
        0 <= k < narrow.len(),
    ensures
        narrow.len() <= wide.len(),
        exists|i: int, n: int|
            0 <= n < wide.len() && #[trigger] shows(narrow[k], children, i) && #[trigger] shows(
                wide[n],
                children,
                i,
            ),
{
    let small = choose|order: Seq<usize>| #[trigger]
        batched(narrow, order, children) && arranged(order, narrower, children);
    let large = choose|order: Seq<usize>| #[trigger]
        batched(wide, order, children) && arranged(order, wider, children);
    let i = small[k] as int;
    assert(retained(narrower, children, i));
    assert(retained(wider, children, i));
    let n = choose|n: int| 0 <= n < large.len() && #[trigger] large[n] == i;
    assert(shows(narrow[k], children, i));
    assert(shows(wide[n], children, i));
    // Each place of the narrow order is a place of the wide one, and no place is listed twice.
    assert forall|a: int| 0 <= a < small.len() implies large.contains(#[trigger] small[a]) by {
        assert(retained(narrower, children, small[a] as int));
        assert(retained(wider, children, small[a] as int));
        let b = choose|b: int| 0 <= b < large.len() && #[trigger] large[b] == small[a] as int;
        assert(large[b] == small[a]);
    }
    lemma_no_duplicates_within(small, large);
}

/// A list without duplicates is no longer than a list that holds each of its items.
pub proof fn lemma_no_duplicates_within(small: Seq<usize>, large: Seq<usize>)
    requires
        small.no_duplicates(),
        forall|a: int| 0 <= a < small.len() ==> large.contains(#[trigger] small[a]),
    ensures
        small.len() <= large.len(),
    decreases small.len(),
{
    if small.len() > 0 {
        let last = small.last();
        assert(large.contains(small[small.len() - 1]));
        let at = choose|at: int| 0 <= at < large.len() && large[at] == last;
        let rest = large.remove(at);
        let front = small.drop_last();
        assert forall|a: int| 0 <= a < front.len() implies rest.contains(#[trigger] front[a]) by {
            assert(front[a] == small[a]);
            assert(large.contains(small[a]));
            let b = choose|b: int| 0 <= b < large.len() && large[b] == small[a];
            assert(b != at);
            if b < at {
                assert(rest[b] == large[b]);
            } else {
                assert(rest[b - 1] == large[b]);
            }
        }
        lemma_no_duplicates_within(front, rest);
    }
}

/// What the filters and sorters see of an entry that has metadata.
pub open spec fn seen(entry: Entry<'_>) -> (Seq<u8>, Metadata) {
    (entry.path@, *entry.data->0)
}

/// A snapshot is in the sorter's order: where the sorter orders the children that the filter
/// retains, no entry has to come after an entry behind it.
pub proof fn lemma_snapshot_sorted<F: Filter, S: Sort>(
    batch: Seq<Entry<'_>>,
    children: Seq<(Vec<u8>, Metadata)>,
    filter: F,
    sorter: S,
    a: int,
    b: int,
)
    requires
        snapshot_of(batch, children, filter, sorter),
        ordered(filter, sorter, children),
        0 <= a < b < batch.len(),
    ensures
        sorter.order(seen(batch[a]), seen(batch[b])) != Order::Greater,
{
    let order = choose|order: Seq<usize>| #[trigger]
        batched(batch, order, children) && arranged(order, filter, children) && sorted(
            order,
            sorter,
            children,
        );
    assert(retained(filter, children, order[a] as int));
    assert(retained(filter, children, order[b] as int));
    assert(outcome(sorter, children, order[a] as int, order[b] as int) != Order::Greater);
    assert(seen(batch[a]) == item(children, order[a] as int));
    assert(seen(batch[b]) == item(children, order[b] as int));
}

/// A sorter that orders the children still orders them when it is reversed.
pub proof fn lemma_reverse_coherent<S: Sort>(sorter: S, children: Seq<(Vec<u8>, Metadata)>)
    requires
        coherent(sorter, children),
    ensures
        coherent(Reverse(sorter), children),
{
    let turned = Reverse(sorter);
    assert forall|i: int, j: int|
        0 <= i < children.len() && 0 <= j < children.len() implies #[trigger] outcome(
        turned,
        children,
        i,
        j,
    ) == outcome(turned, children, j, i).reversed() by {
        assert(outcome(sorter, children, i, j) == outcome(sorter, children, j, i).reversed());
    }
    assert forall|i: int, j: int, k: int|
        #![trigger outcome(turned, children, i, j), outcome(turned, children, j, k)]
        0 <= i < children.len() && 0 <= j < children.len() && 0 <= k < children.len() && outcome(
            turned,
            children,
            i,
            j,
        ) != Order::Greater && outcome(turned, children, j, k) != Order::Greater implies outcome(
        turned,
        children,
        i,
        k,
    ) != Order::Greater by {
        assert(outcome(sorter, children, i, j) == outcome(sorter, children, j, i).reversed());
        assert(outcome(sorter, children, j, k) == outcome(sorter, children, k, j).reversed());
        assert(outcome(sorter, children, k, j) != Order::Greater);
        assert(outcome(sorter, children, j, i) != Order::Greater);
        assert(outcome(sorter, children, k, i) != Order::Greater);
        assert(outcome(sorter, children, i, k) == outcome(sorter, children, k, i).reversed());
    }
}

/// A sorter that orders all the children orders those that a filter retains.
pub proof fn lemma_coherent_ordered<F: Filter, S: Sort>(
    filter: F,
    sorter: S,
    children: Seq<(Vec<u8>, Metadata)>,
)
    requires
        coherent(sorter, children),
    ensures
        ordered(filter, sorter, children),
{
    let among = retained_places(filter, children);
    assert forall|i: int, j: int|
        among.contains(i) && among.contains(j) implies #[trigger] outcome(sorter, children, i, j)
        == outcome(sorter, children, j, i).reversed() by {
        assert(retained(filter, children, i) && retained(filter, children, j));
    }
    assert forall|i: int, j: int, k: int|
        #![trigger outcome(sorter, children, i, j), outcome(sorter, children, j, k)]
        among.contains(i) && among.contains(j) && among.contains(k) && outcome(
            sorter,
            children,
            i,
            j,
        ) != Order::Greater && outcome(sorter, children, j, k) != Order::Greater implies outcome(
        sorter,
        children,
        i,
        k,
    ) != Order::Greater by {
        assert(retained(filter, children, i) && retained(filter, children, j) && retained(
            filter,
            children,
            k,
        ));
    }
}

/// A sorter that orders the children at the places named still orders them when it is reversed.
pub proof fn lemma_reverse_ordered<S: Sort>(
    sorter: S,
    children: Seq<(Vec<u8>, Metadata)>,
    among: Set<int>,
)
    requires
        ordered_among(sorter, children, among),
    ensures
        ordered_among(Reverse(sorter), children, among),
{
    let turned = Reverse(sorter);
    assert forall|i: int, j: int|
        among.contains(i) && among.contains(j) implies #[trigger] outcome(turned, children, i, j)
        == outcome(turned, children, j, i).reversed() by {
        assert(outcome(sorter, children, i, j) == outcome(sorter, children, j, i).reversed());
    }
    assert forall|i: int, j: int, k: int|
        #![trigger outcome(turned, children, i, j), outcome(turned, children, j, k)]
        among.contains(i) && among.contains(j) && among.contains(k) && outcome(
            turned,
            children,
            i,
            j,
        ) != Order::Greater && outcome(turned, children, j, k) != Order::Greater implies outcome(
        turned,
        children,
        i,
        k,
    ) != Order::Greater by {
        assert(outcome(sorter, children, i, j) == outcome(sorter, children, j, i).reversed());
        assert(outcome(sorter, children, j, k) == outcome(sorter, children, k, j).reversed());
        assert(outcome(sorter, children, k, j) != Order::Greater);
        assert(outcome(sorter, children, j, i) != Order::Greater);
        assert(outcome(sorter, children, k, i) != Order::Greater);
        assert(outcome(sorter, children, i, k) == outcome(sorter, children, k, i).reversed());
    }
}

/// Whether no two different children among those that the filter retains tie.
pub open spec fn tieless<F: Filter, S: Sort>(
    filter: F,
    sorter: S,
    children: Seq<(Vec<u8>, Metadata)>,
) -> bool {
    forall|i: int, j: int|
        retained(filter, children, i) && retained(filter, children, j) && i != j
            ==> #[trigger] outcome(sorter, children, i, j) != Order::Equal
}

/// Two lists of the same places, each place once, that both go strictly upwards in the sorter's
/// order are one list.
proof fn lemma_one_order<S: Sort>(
    x: Seq<usize>,
    y: Seq<usize>,
    sorter: S,
    children: Seq<(Vec<u8>, Metadata)>,
    among: Set<int>,
)
    requires
        ordered_among(sorter, children, among),
        within(x, children),
        within(y, children),
        chosen(x, among),
        chosen(y, among),
        x.no_duplicates(),
        y.no_duplicates(),
        forall|a: int| 0 <= a < x.len() ==> y.contains(#[trigger] x[a]),
        forall|a: int| 0 <= a < y.len() ==> x.contains(#[trigger] y[a]),
        forall|a: int, b: int|
            0 <= a < b < x.len() ==> #[trigger] outcome(sorter, children, x[a] as int, x[b] as int)
                == Order::Less,
        forall|a: int, b: int|
            0 <= a < b < y.len() ==> #[trigger] outcome(sorter, children, y[a] as int, y[b] as int)
                == Order::Less,
    ensures
        x == y,
    decreases x.len(),
{
    if x.len() == 0 {
        if y.len() > 0 {
            assert(x.contains(y[0]));
        }
        assert(x =~= y);
    } else {
        assert(y.contains(x[0]));
        let p = choose|p: int| 0 <= p < y.len() && y[p] == x[0];
        if p > 0 {
            assert(x.contains(y[0]));
            let q = choose|q: int| 0 <= q < x.len() && x[q] == y[0];
            assert(q != 0);
            assert(outcome(sorter, children, x[0] as int, x[q] as int) == Order::Less);
            assert(outcome(sorter, children, y[0] as int, y[p] as int) == Order::Less);
            assert(outcome(sorter, children, x[0] as int, y[0] as int) == outcome(
                sorter,
                children,
                y[0] as int,
                x[0] as int,
            ).reversed());
            assert(false);
        }
        let xs = x.skip(1);
        let ys = y.skip(1);
        assert forall|a: int| 0 <= a < xs.len() implies ys.contains(#[trigger] xs[a]) by {
            assert(xs[a] == x[a + 1]);
            assert(y.contains(x[a + 1]));
            let b = choose|b: int| 0 <= b < y.len() && y[b] == x[a + 1];
            assert(b != 0);
            assert(ys[b - 1] == y[b]);
        }
        assert forall|a: int| 0 <= a < ys.len() implies xs.contains(#[trigger] ys[a]) by {
            assert(ys[a] == y[a + 1]);
            assert(x.contains(y[a + 1]));
            let b = choose|b: int| 0 <= b < x.len() && x[b] == y[a + 1];
            assert(b != 0);
            assert(xs[b - 1] == x[b]);
        }
        assert forall|a: int, b: int| 0 <= a < b < xs.len() implies #[trigger] outcome(
            sorter,
            children,
            xs[a] as int,
            xs[b] as int,
        ) == Order::Less by {
            assert(outcome(sorter, children, x[a + 1] as int, x[b + 1] as int) == Order::Less);
        }
        assert forall|a: int, b: int| 0 <= a < b < ys.len() implies #[trigger] outcome(
            sorter,
            children,
            ys[a] as int,
            ys[b] as int,
        ) == Order::Less by {
            assert(outcome(sorter, children, y[a + 1] as int, y[b + 1] as int) == Order::Less);
        }
        assert(chosen(xs, among)) by {
            assert forall|a: int| 0 <= a < xs.len() implies among.contains(
                #[trigger] xs[a] as int,
            ) by {
                assert(xs[a] == x[a + 1]);
            }
        }
        assert(chosen(ys, among)) by {
            assert forall|a: int| 0 <= a < ys.len() implies among.contains(
                #[trigger] ys[a] as int,
            ) by {
                assert(ys[a] == y[a + 1]);
            }
        }
        lemma_one_order(xs, ys, sorter, children, among);
        assert(x =~= seq![x[0]] + xs);
        assert(y =~= seq![y[0]] + ys);
    }
}

/// Sorting with the reversed sorter yields the exact reverse: where the sorter orders the
/// retained children and no two of them tie, a snapshot under the reversed sorter shows, entry
/// by entry, what a snapshot under the sorter shows from its end backwards.
pub proof fn lemma_snapshot_reversed<F: Filter, S: Sort>(
    forward: Seq<Entry<'_>>,
    backward: Seq<Entry<'_>>,
    children: Seq<(Vec<u8>, Metadata)>,
    filter: F,
    sorter: S,
    k: int,
)
    requires
        snapshot_of(forward, children, filter, sorter),
        snapshot_of(backward, children, filter, Reverse(sorter)),
        ordered(filter, sorter, children),
        tieless(filter, sorter, children),
        0 <= k < forward.len(),
    ensures
        backward.len() == forward.len(),
        backward[forward.len() - 1 - k].path@ == forward[k].path@,
        backward[forward.len() - 1 - k].data == forward[k].data,
{
    let among = retained_places(filter, children);
    lemma_reverse_ordered(sorter, children, among);
    let up = choose|order: Seq<usize>| #[trigger]
        batched(forward, order, children) && arranged(order, filter, children) && sorted(
            order,
            sorter,
            children,
        );
    let down = choose|order: Seq<usize>| #[trigger]
        batched(backward, order, children) && arranged(order, filter, children) && sorted(
            order,
            Reverse(sorter),
            children,
        );
    let back = down.reverse();
    assert forall|a: int| 0 <= a < up.len() implies back.contains(#[trigger] up[a]) by {
        assert(retained(filter, children, up[a] as int));
        let b = choose|b: int| 0 <= b < down.len() && #[trigger] down[b] == up[a] as int;
        assert(back[down.len() - 1 - b] == down[b]);
    }
    assert forall|a: int| 0 <= a < back.len() implies up.contains(#[trigger] back[a]) by {
        assert(back[a] == down[down.len() - 1 - a]);
        assert(retained(filter, children, down[down.len() - 1 - a] as int));
        let b = choose|b: int| 0 <= b < up.len() && #[trigger] up[b] == back[a] as int;
        assert(up[b] == back[a]);
    }
    assert(within(up, children)) by {
        assert forall|a: int| 0 <= a < up.len() implies #[trigger] up[a] < children.len() by {
            assert(retained(filter, children, up[a] as int));
        }
    }
    assert(within(back, children)) by {
        assert forall|a: int| 0 <= a < back.len() implies #[trigger] back[a] < children.len() by {
            assert(retained(filter, children, down[down.len() - 1 - a] as int));
        }
    }
    assert(back.no_duplicates()) by {
        assert forall|a: int, b: int|
            0 <= a < back.len() && 0 <= b < back.len() && a != b implies back[a] != back[b] by {
            assert(down[down.len() - 1 - a] != down[down.len() - 1 - b]);
        }
    }
    assert forall|a: int, b: int| 0 <= a < b < up.len() implies #[trigger] outcome(
        sorter,
        children,
        up[a] as int,
        up[b] as int,
    ) == Order::Less by {
        assert(retained(filter, children, up[a] as int));
        assert(retained(filter, children, up[b] as int));
        assert(up[a] != up[b]);
    }
    assert forall|a: int, b: int| 0 <= a < b < back.len() implies #[trigger] outcome(
        sorter,
        children,
        back[a] as int,
        back[b] as int,
    ) == Order::Less by {
        let high = down.len() - 1 - a;
        let low = down.len() - 1 - b;
        assert(retained(filter, children, down[high] as int));
        assert(retained(filter, children, down[low] as int));
        assert(down[low] != down[high]);
        assert(outcome(Reverse(sorter), children, down[low] as int, down[high] as int)
            != Order::Greater);
        assert(outcome(sorter, children, down[high] as int, down[low] as int) == outcome(
            sorter,
            children,
            down[low] as int,
            down[high] as int,
        ).reversed());
    }
    assert(chosen(up, among)) by {
        assert forall|a: int| 0 <= a < up.len() implies among.contains(#[trigger] up[a] as int) by {
            assert(retained(filter, children, up[a] as int));
        }
    }
    assert(chosen(back, among)) by {
        assert forall|a: int| 0 <= a < back.len() implies among.contains(
            #[trigger] back[a] as int,
        ) by {
            assert(retained(filter, children, down[down.len() - 1 - a] as int));
        }
    }
    lemma_one_order(up, back, sorter, children, among);
    assert(back[k] == down[down.len() - 1 - k]);
}

/// Two sorters that order the children still order them when they are chained.
pub proof fn lemma_then_coherent<A: Sort, B: Sort>(
    first: A,
    second: B,
    children: Seq<(Vec<u8>, Metadata)>,
)
    requires
        coherent(first, children),
        coherent(second, children),
    ensures
        coherent(Then(first, second), children),
{
    let chain = Then(first, second);
    assert forall|i: int, j: int|
        0 <= i < children.len() && 0 <= j < children.len() implies #[trigger] outcome(
        chain,
        children,
        i,
        j,
    ) == outcome(chain, children, j, i).reversed() by {
        assert(outcome(first, children, i, j) == outcome(first, children, j, i).reversed());
        assert(outcome(second, children, i, j) == outcome(second, children, j, i).reversed());
    }
    assert forall|i: int, j: int, k: int|
        #![trigger outcome(chain, children, i, j), outcome(chain, children, j, k)]
        0 <= i < children.len() && 0 <= j < children.len() && 0 <= k < children.len() && outcome(
            chain,
            children,
            i,
            j,
        ) != Order::Greater && outcome(chain, children, j, k) != Order::Greater implies outcome(
        chain,
        children,
        i,
        k,
    ) != Order::Greater by {
        let ij = outcome(first, children, i, j);
        let jk = outcome(first, children, j, k);
        let ik = outcome(first, children, i, k);
        assert(ij != Order::Greater);
        assert(jk != Order::Greater);
        assert(ik != Order::Greater);
        if ik == Order::Equal {
            assert(outcome(first, children, k, i) == ik.reversed());
            assert(outcome(first, children, i, k) == outcome(first, children, k, i).reversed());
            if ij == Order::Less {
                assert(outcome(first, children, j, i) == outcome(first, children, i, j).reversed());
                assert(outcome(first, children, i, j) == outcome(first, children, j, i).reversed());
                assert(outcome(first, children, j, k) != Order::Greater);
                assert(outcome(first, children, k, i) != Order::Greater);
                assert(outcome(first, children, j, i) != Order::Greater);
            }
            if jk == Order::Less {
                assert(outcome(first, children, j, k) == outcome(first, children, k, j).reversed());
                assert(outcome(first, children, k, i) != Order::Greater);
                assert(outcome(first, children, i, j) != Order::Greater);
                assert(outcome(first, children, k, j) != Order::Greater);
            }
            assert(outcome(second, children, i, j) != Order::Greater);
            assert(outcome(second, children, j, k) != Order::Greater);
            assert(outcome(second, children, i, k) != Order::Greater);
        }
    }
}

/// Whether the children are ordered depends on the answers alone: a sorter that answers as one
/// that orders the children orders them too.
pub proof fn lemma_coherent_alike<S: Sort, T: Sort>(
    known: S,
    other: T,
    children: Seq<(Vec<u8>, Metadata)>,
)
    requires
        coherent(known, children),
        forall|i: int, j: int|
            0 <= i < children.len() && 0 <= j < children.len() ==> #[trigger] outcome(
                other,
                children,
                i,
                j,
            ) == outcome(known, children, i, j),
    ensures
        coherent(other, children),
{
    assert forall|i: int, j: int|
        0 <= i < children.len() && 0 <= j < children.len() implies #[trigger] outcome(
        other,
        children,
        i,
        j,
    ) == outcome(other, children, j, i).reversed() by {
        assert(outcome(known, children, i, j) == outcome(known, children, j, i).reversed());
    }
    assert forall|i: int, j: int, k: int|
        #![trigger outcome(other, children, i, j), outcome(other, children, j, k)]
        0 <= i < children.len() && 0 <= j < children.len() && 0 <= k < children.len() && outcome(
            other,
            children,
            i,
            j,
        ) != Order::Greater && outcome(other, children, j, k) != Order::Greater implies outcome(
        other,
        children,
        i,
        k,
    ) != Order::Greater by {
        assert(outcome(known, children, i, j) != Order::Greater);
        assert(outcome(known, children, j, k) != Order::Greater);
        assert(outcome(known, children, i, k) != Order::Greater);
    }
}

} // verus!
