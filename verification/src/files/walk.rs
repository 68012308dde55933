//! What a walk promises of the calls it makes and of the way it ends.

use vstd::prelude::*;

use crate::files::entry::Entry;
use crate::files::filter::Filter;
use crate::files::metadata::Metadata;
use crate::files::snapshot::snapshot_of;
use crate::files::sort::Sort;

verus! {

/// The entry once it is remembered whether it has children.
pub open spec fn noted<'e>(entry: Entry<'e>, found: bool) -> Entry<'e> {
    Entry { has_children_cache: Some(found), ..entry }
}

/// The deepest level that a walk enters: the limit where one is given, else as deep as a chain
/// can be counted.
pub open spec fn depth_limit(max_depth: Option<usize>) -> usize {
    match max_depth {
        Some(limit) => limit,
        None => usize::MAX,
    }
}

/// Whether reading the directory at `path` in the state `before` may give `children` and leave
/// the state `after`, and `batch` is a snapshot of the children.
pub open spec fn listing<F, S, R, T, E>(
    read: R,
    before: T,
    path: &[u8],
    after: T,
    children: Vec<(Vec<u8>, Metadata)>,
    batch: Seq<Entry<'_>>,
    filter: F,
    sorter: S,
) -> bool where
    F: Filter,
    S: Sort,
    R: FnMut(T, &[u8]) -> Result<(T, Vec<(Vec<u8>, Metadata)>), E>,
 {
    call_ensures(read, (before, path), Ok((after, children))) && snapshot_of(
        batch,
        children@,
        filter,
        sorter,
    )
}

/// Whether the visitor, handed `child` below the ancestors `chain` in the state `before`, may
/// answer `answer`: the state that it leaves, or its failure.
pub open spec fn presented<V, T, E>(
    visit: V,
    before: T,
    chain: Seq<Entry<'_>>,
    child: Entry<'_>,
    answer: Result<T, E>,
) -> bool where V: FnMut(T, &[Entry<'_>], Entry<'_>) -> Result<T, E> {
    exists|ancestors: &[Entry<'_>]|
        ancestors@ == chain && #[trigger] call_ensures(visit, (before, ancestors, child), answer)
}

/// Whether the visitor may have taken the first `count` entries of the batch one after the
/// other, in their order: the entry at `j` in the state at `j`, leaving the state at `j + 1`.
pub open spec fn taken<V, T, E>(
    visit: V,
    chain: Seq<Entry<'_>>,
    batch: Seq<Entry<'_>>,
    states: Seq<T>,
    count: int,
) -> bool where V: FnMut(T, &[Entry<'_>], Entry<'_>) -> Result<T, E> {
    &&& 0 <= count <= batch.len()
    &&& states.len() == count + 1
    &&& forall|j: int|
        0 <= j < count ==> presented(
            visit,
            #[trigger] states[j],
            chain,
            batch[j],
            Ok::<T, E>(states[j + 1]),
        )
}

/// Whether a flat visit of the batch that begins in the first of the states may come to
/// `outcome`.
///
/// The visitor takes the entries one after the other, in their order, each in the state that
/// the one before has left. With every entry taken, the outcome is the state that the last has
/// left. The first failure is the outcome, and no entry behind it is taken.
pub open spec fn visited<V, T, E>(
    visit: V,
    chain: Seq<Entry<'_>>,
    batch: Seq<Entry<'_>>,
    states: Seq<T>,
    outcome: Result<T, E>,
) -> bool where V: FnMut(T, &[Entry<'_>], Entry<'_>) -> Result<T, E> {
    match outcome {
        Ok(last) => taken(visit, chain, batch, states, batch.len() as int) && states.last()
            == last,
        Err(error) => {
            &&& states.len() >= 1
            &&& taken(visit, chain, batch, states, states.len() - 1)
            &&& states.len() - 1 < batch.len()
            &&& presented(
                visit,
                states.last(),
                chain,
                batch[states.len() - 1],
                Err::<T, E>(error),
            )
        },
    }
}

/// Whether a flat visit below `entry` that begins in the state `before` may come to `outcome`.
///
/// The directory is read first: the failure of the read is the outcome. Else a snapshot is
/// taken of what was read, and the visitor takes its entries as [`visited`] says, beginning in
/// the state that the read has left.
pub open spec fn swept<F, S, R, V, T, E>(
    filter: F,
    sorter: S,
    read: R,
    visit: V,
    entry: Entry<'_>,
    before: T,
    outcome: Result<T, E>,
) -> bool where
    F: Filter,
    S: Sort,
    R: FnMut(T, &[u8]) -> Result<(T, Vec<(Vec<u8>, Metadata)>), E>,
    V: FnMut(T, &[Entry<'_>], Entry<'_>) -> Result<T, E>,
 {
    ||| outcome matches Err(error) && call_ensures(
        read,
        (before, entry.path),
        Err::<(T, Vec<(Vec<u8>, Metadata)>), E>(error),
    )
    ||| exists|children: Vec<(Vec<u8>, Metadata)>, batch: Seq<Entry<'_>>, states: Seq<T>|
        {
            &&& states.len() >= 1
            &&& #[trigger] listing(
                read,
                before,
                entry.path,
                states[0],
                children,
                batch,
                filter,
                sorter,
            )
            &&& #[trigger] visited(visit, seq![entry], batch, states, outcome)
        }
}

/// What a flat visit below `entry` may be called with: `entry` as the only ancestor, and a child
/// that has its place among its siblings and its metadata.
pub open spec fn visitable_flat(entry: Entry<'_>, chain: Seq<Entry<'_>>, child: Entry<'_>) -> bool {
    chain == seq![entry] && child.wf() && child.data is Some
}

/// What a walk below `root` that enters `limit` levels may be called with.
///
/// The chain starts at `root` and is no longer than the limit allows. Every ancestor below the
/// root was itself visited and seen to have children. The child has its place among its
/// siblings, its metadata, and the answer to whether it has children.
pub open spec fn visitable(
    root: Entry<'_>,
    limit: usize,
    chain: Seq<Entry<'_>>,
    child: Entry<'_>,
) -> bool {
    &&& chain.len() >= 1
    &&& chain[0] == root
    &&& chain.len() - 1 <= limit
    &&& forall|n: int|
        1 <= n < chain.len() ==> (#[trigger] chain[n]).wf() && chain[n].data is Some
            && chain[n].children() == Some(true)
    &&& child.wf()
    &&& child.data is Some
    &&& child.children() is Some
}

/// Whether a walk that stands before `entry` in the state `before` may find `found` of its
/// children and go on in the state `after`: for an entry that may be a directory the probe is
/// asked, for any other nothing is asked and nothing found.
pub open spec fn probed<P, T>(probe: P, before: T, entry: Entry<'_>, found: bool, after: T) -> bool where
    P: FnMut(T, &[u8]) -> (T, bool),
 {
    if entry.may_hold() {
        call_ensures(probe, (before, entry.path), (after, found))
    } else {
        !found && after == before
    }
}

/// Whether a walk below the last entry of `chain` that begins in the state `before` may come to
/// `outcome`: the state in which it ends, or the failure that ended it.
///
/// The directory is read first: the failure of the read is the outcome. Else a snapshot is
/// taken of what was read, and its entries are gone through from the first, as [`level`] says.
pub open spec fn walked<F, S, R, P, V, T, E>(
    filter: F,
    sorter: S,
    read: R,
    probe: P,
    visit: V,
    chain: Seq<Entry<'_>>,
    limit: usize,
    before: T,
    outcome: Result<T, E>,
) -> bool where
    F: Filter,
    S: Sort,
    R: FnMut(T, &[u8]) -> Result<(T, Vec<(Vec<u8>, Metadata)>), E>,
    P: FnMut(T, &[u8]) -> (T, bool),
    V: FnMut(T, &[Entry<'_>], Entry<'_>) -> Result<T, E>,

    decreases limit + 1 - chain.len(), 2nat, 0nat,
{
    &&& chain.len() >= 1
    &&& {
        ||| outcome matches Err(error) && call_ensures(
            read,
            (before, chain.last().path),
            Err::<(T, Vec<(Vec<u8>, Metadata)>), E>(error),
        )
        ||| exists|after: T, children: Vec<(Vec<u8>, Metadata)>, batch: Seq<Entry<'_>>|
            {
                &&& #[trigger] listing(
                    read,
                    before,
                    chain.last().path,
                    after,
                    children,
                    batch,
                    filter,
                    sorter,
                )
                &&& level(filter, sorter, read, probe, visit, chain, limit, batch, 0, after, outcome)
            }
    }
}

/// Whether a walk that has gone through the entries of the batch before the one at `from`, and
/// stands in the state `before`, may come to `outcome`.
///
/// With no entry left the walk ends in the state in which it stands. Else the next entry is
/// gone through, and only then the ones behind it: it is found out whether the entry has
/// children; the visitor takes the entry with that answer remembered, and its failure is the
/// outcome; where the entry has children and the limit is not reached, the entry is walked
/// below, with the entry added to the chain, and a failure there is the outcome. Each step
/// begins in the state that the step before has left, so no step is made after a failure.
pub open spec fn level<F, S, R, P, V, T, E>(
    filter: F,
    sorter: S,
    read: R,
    probe: P,
    visit: V,
    chain: Seq<Entry<'_>>,
    limit: usize,
    batch: Seq<Entry<'_>>,
    from: int,
    before: T,
    outcome: Result<T, E>,
) -> bool where
    F: Filter,
    S: Sort,
    R: FnMut(T, &[u8]) -> Result<(T, Vec<(Vec<u8>, Metadata)>), E>,
    P: FnMut(T, &[u8]) -> (T, bool),
    V: FnMut(T, &[Entry<'_>], Entry<'_>) -> Result<T, E>,

    decreases limit + 1 - chain.len(), 1nat, 2 * (batch.len() - from) + 1,
{
    if from < 0 || from >= batch.len() {
        outcome == Ok::<T, E>(before)
    } else {
        exists|found: bool, asked: T|
            {
                &&& #[trigger] probed(probe, before, batch[from], found, asked)
                &&& {
                    ||| outcome matches Err(error) && presented(
                        visit,
                        asked,
                        chain,
                        noted(batch[from], found),
                        Err::<T, E>(error),
                    )
                    ||| exists|shown: T|
                        {
                            &&& #[trigger] presented(
                                visit,
                                asked,
                                chain,
                                noted(batch[from], found),
                                Ok::<T, E>(shown),
                            )
                            &&& entered(
                                filter,
                                sorter,
                                read,
                                probe,
                                visit,
                                chain,
                                limit,
                                batch,
                                from,
                                found,
                                shown,
                                outcome,
                            )
                        }
                }
            }
    }
}

/// Names the state that a walk below an entry has left. It holds of every state.
pub open spec fn left<T>(state: T) -> bool {
    true
}

/// Whether a walk that has just visited the entry of the batch at `from`, with `found` known
/// of its children, and stands in the state `before`, may come to `outcome`.
///
/// Where the entry has children and the limit is not reached, the entry is walked below first,
/// with the entry added to the chain: a failure there is the outcome, and else the walk goes
/// on behind the entry in the state in which the walk below has ended. Where the entry is not
/// entered, the walk goes on behind it in the state in which it stands.
pub open spec fn entered<F, S, R, P, V, T, E>(
    filter: F,
    sorter: S,
    read: R,
    probe: P,
    visit: V,
    chain: Seq<Entry<'_>>,
    limit: usize,
    batch: Seq<Entry<'_>>,
    from: int,
    found: bool,
    before: T,
    outcome: Result<T, E>,
) -> bool where
    F: Filter,
    S: Sort,
    R: FnMut(T, &[u8]) -> Result<(T, Vec<(Vec<u8>, Metadata)>), E>,
    P: FnMut(T, &[u8]) -> (T, bool),
    V: FnMut(T, &[Entry<'_>], Entry<'_>) -> Result<T, E>,

    decreases limit + 1 - chain.len(), 1nat, 2 * (batch.len() - from),
{
    if from < 0 || from >= batch.len() {
        false
    } else if found && chain.len() - 1 < limit {
        ||| outcome is Err && walked(
            filter,
            sorter,
            read,
            probe,
            visit,
            chain.push(noted(batch[from], found)),
            limit,
            before,
            outcome,
        )
        ||| exists|below: T|
            {
                &&& #[trigger] left(below)
                &&& walked(
                    filter,
                    sorter,
                    read,
                    probe,
                    visit,
                    chain.push(noted(batch[from], found)),
                    limit,
                    before,
                    Ok::<T, E>(below),
                )
                &&& level(
                    filter,
                    sorter,
                    read,
                    probe,
                    visit,
                    chain,
                    limit,
                    batch,
                    from + 1,
                    below,
                    outcome,
                )
            }
    } else {
        level(filter, sorter, read, probe, visit, chain, limit, batch, from + 1, before, outcome)
    }
}

/// A walk never goes deeper than its limit: below an entry that stands at the deepest level
/// nothing is read, asked or visited, whether or not the entry has children. The walk goes on
/// behind the entry in the state in which it stands.
pub proof fn lemma_walk_stops_at_limit<F, S, R, P, V, T, E>(
    filter: F,
    sorter: S,
    read: R,
    probe: P,
    visit: V,
    chain: Seq<Entry<'_>>,
    limit: usize,
    batch: Seq<Entry<'_>>,
    from: int,
    found: bool,
    before: T,
    outcome: Result<T, E>,
) where
    F: Filter,
    S: Sort,
    R: FnMut(T, &[u8]) -> Result<(T, Vec<(Vec<u8>, Metadata)>), E>,
    P: FnMut(T, &[u8]) -> (T, bool),
    V: FnMut(T, &[Entry<'_>], Entry<'_>) -> Result<T, E>,

    requires
        entered(filter, sorter, read, probe, visit, chain, limit, batch, from, found, before, outcome),
        chain.len() - 1 >= limit,
    ensures
        level(filter, sorter, read, probe, visit, chain, limit, batch, from + 1, before, outcome),
{
}

/// A walk does not go below an entry without children: the walk goes on behind the entry in
/// the state in which it stands.
pub proof fn lemma_walk_passes_childless<F, S, R, P, V, T, E>(
    filter: F,
    sorter: S,
    read: R,
    probe: P,
    visit: V,
    chain: Seq<Entry<'_>>,
    limit: usize,
    batch: Seq<Entry<'_>>,
    from: int,
    found: bool,
    before: T,
    outcome: Result<T, E>,
) where
    F: Filter,
    S: Sort,
    R: FnMut(T, &[u8]) -> Result<(T, Vec<(Vec<u8>, Metadata)>), E>,
    P: FnMut(T, &[u8]) -> (T, bool),
    V: FnMut(T, &[Entry<'_>], Entry<'_>) -> Result<T, E>,

    requires
        entered(filter, sorter, read, probe, visit, chain, limit, batch, from, found, before, outcome),
        !found,
    ensures
        level(filter, sorter, read, probe, visit, chain, limit, batch, from + 1, before, outcome),
{
}

/// Above its limit a walk goes below every entry that has children, before it goes on behind
/// the entry: the entry is walked below in the state in which the walk stands, with the entry
/// added to the chain, and the walk ends there or goes on in the state that this has left.
pub proof fn lemma_walk_enters_above_limit<F, S, R, P, V, T, E>(
    filter: F,
    sorter: S,
    read: R,
    probe: P,
    visit: V,
    chain: Seq<Entry<'_>>,
    limit: usize,
    batch: Seq<Entry<'_>>,
    from: int,
    found: bool,
    before: T,
    outcome: Result<T, E>,
) where
    F: Filter,
    S: Sort,
    R: FnMut(T, &[u8]) -> Result<(T, Vec<(Vec<u8>, Metadata)>), E>,
    P: FnMut(T, &[u8]) -> (T, bool),
    V: FnMut(T, &[Entry<'_>], Entry<'_>) -> Result<T, E>,

    requires
        entered(filter, sorter, read, probe, visit, chain, limit, batch, from, found, before, outcome),
        found,
        chain.len() - 1 < limit,
    ensures
        exists|below: Result<T, E>| #[trigger]
            walked(
                filter,
                sorter,
                read,
                probe,
                visit,
                chain.push(noted(batch[from], found)),
                limit,
                before,
                below,
            ) && match below {
                Ok(state) => level(
                    filter,
                    sorter,
                    read,
                    probe,
                    visit,
                    chain,
                    limit,
                    batch,
                    from + 1,
                    state,
                    outcome,
                ),
                Err(_) => below == outcome,
            },
{
    let deeper = chain.push(noted(batch[from], found));
    if outcome is Err && walked(filter, sorter, read, probe, visit, deeper, limit, before, outcome) {
    } else {
        let state = choose|state: T| #[trigger]
            left(state) && walked(
                filter,
                sorter,
                read,
                probe,
                visit,
                deeper,
                limit,
                before,
                Ok::<T, E>(state),
            ) && level(
                filter,
                sorter,
                read,
                probe,
                visit,
                chain,
                limit,
                batch,
                from + 1,
                state,
                outcome,
            );
        assert(walked(
            filter,
            sorter,
            read,
            probe,
            visit,
            deeper,
            limit,
            before,
            Ok::<T, E>(state),
        ));
    }
}

} // verus!
