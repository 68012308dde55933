//! Defines utilities for mapping out file tree structures.

use vstd::prelude::*;
use vstd::slice::slice_to_vec;

use crate::files::entry::Entry;
use crate::files::filter::Filter;
use crate::files::metadata::Metadata;
use crate::files::path::{
    components, hidden, is_absolute, join, relative, relativize_components, Component,
};
use crate::files::snapshot::{lemma_snapshot_indices, snapshot};
use crate::files::sort::Sort;
use crate::files::walk::{
    depth_limit, entered, level, listing, noted, presented, probed, swept, taken, visitable,
    visitable_flat, visited, walked,
};

pub mod entry;
pub mod filter;
pub mod metadata;
pub mod path;
pub mod snapshot;
pub mod sort;
pub mod walk;

verus! {

/// Visits all children of the given entry using the given closure.
///
/// `read` lists the directory behind an entry's path: every direct child with its metadata. The
/// children that the filter retains are put in the sorter's order and handed to `visit` one by
/// one, each with its index and their number, below `entry` as the only ancestor.
///
/// A state is handed from step to step: `read` takes the state that the visit begins in, each
/// call of `visit` takes the state that the step before has left, and the visit ends in the
/// state that the last call has left. The state stands for whatever the closures work on; it
/// fixes the order of the steps.
///
/// # Errors
///
/// The read's failure comes back as it is, and no child is visited. The first failure of the
/// closure comes back as it is, and no later child is visited.
pub fn visit_entries<F, S, R, V, T, E>(
    entry: &Entry<'_>,
    filter: &F,
    sorter: &S,
    read: &mut R,
    visit: &mut V,
    state: T,
) -> (r: Result<T, E>) where
    F: Filter,
    S: Sort,
    R: FnMut(T, &[u8]) -> Result<(T, Vec<(Vec<u8>, Metadata)>), E>,
    V: FnMut(T, &[Entry<'_>], Entry<'_>) -> Result<T, E>,

    requires
        filter.wf(),
        sorter.wf(),
        call_requires(*old(read), (state, entry.path)),
        forall|before: T, ancestors: &[Entry<'_>], child: Entry<'_>|
            #![trigger call_requires(*old(visit), (before, ancestors, child))]
            visitable_flat(*entry, ancestors@, child) ==> call_requires(
                *old(visit),
                (before, ancestors, child),
            ),
    ensures
        *final(read) == *old(read),
        *final(visit) == *old(visit),
        swept(*filter, *sorter, *old(read), *old(visit), *entry, state, r),
{
    let (listed, children) = match read(state, entry.path) {
        Ok(listed) => listed,
        Err(error) => {
            return Err(error);
        },
    };
    let batch = snapshot(&children, filter, sorter);
    let mut chain: Vec<Entry<'_>> = Vec::new();
    chain.push(*entry);
    assert(chain@ =~= seq![*entry]);
    let mut current = listed;
    let ghost mut states: Seq<T> = seq![current];
    let mut k: usize = 0;
    while k < batch.len()
        invariant
            k <= batch@.len(),
            chain@ == seq![*entry],
            *read == *old(read),
            *visit == *old(visit),
            listing(
                *old(read),
                state,
                entry.path,
                states[0],
                children,
                batch@,
                *filter,
                *sorter,
            ),
            forall|before: T, ancestors: &[Entry<'_>], child: Entry<'_>|
                #![trigger call_requires(*visit, (before, ancestors, child))]
                visitable_flat(*entry, ancestors@, child) ==> call_requires(
                    *visit,
                    (before, ancestors, child),
                ),
            taken(*visit, seq![*entry], batch@, states, k as int),
            states.last() == current,
        decreases batch@.len() - k,
    {
        let child = batch[k];
        proof {
            lemma_snapshot_indices(batch@, children@, *filter, *sorter, k as int);
        }
        let ancestors = chain.as_slice();
        assert(visitable_flat(*entry, ancestors@, child));
        let ghost before = current;
        let answer = visit(current, ancestors, child);
        assert(presented(*visit, before, seq![*entry], batch@[k as int], answer)) by {
            assert(call_ensures(*visit, (before, ancestors, child), answer));
        }
        match answer {
            Ok(next) => {
                proof {
                    let longer = states.push(next);
                    assert forall|j: int| 0 <= j < k + 1 implies presented(
                        *visit,
                        #[trigger] longer[j],
                        seq![*entry],
                        batch@[j],
                        Ok::<T, E>(longer[j + 1]),
                    ) by {
                        if j < k {
                            assert(longer[j] == states[j]);
                            assert(longer[j + 1] == states[j + 1]);
                        }
                    }
                    states = longer;
                }
                current = next;
            },
            Err(error) => {
                assert(states.len() >= 1);
                assert(visited(
                    *old(visit),
                    seq![*entry],
                    batch@,
                    states,
                    Err::<T, E>(error),
                ));
                return Err(error);
            },
        }
        k = k + 1;
    }
    assert(visited(*old(visit), seq![*entry], batch@, states, Ok::<T, E>(current)));
    assert(states.len() >= 1);
    Ok(current)
}

/// Walks below the last entry of `entries`, which are its ancestors and the entry itself.
fn walk_below<F, S, R, P, V, T, E>(
    entries: &Vec<Entry<'_>>,
    limit: usize,
    filter: &F,
    sorter: &S,
    read: &mut R,
    probe: &mut P,
    visit: &mut V,
    state: T,
    Ghost(root): Ghost<Entry<'_>>,
) -> (r: Result<T, E>) where
    F: Filter,
    S: Sort,
    R: FnMut(T, &[u8]) -> Result<(T, Vec<(Vec<u8>, Metadata)>), E>,
    P: FnMut(T, &[u8]) -> (T, bool),
    V: FnMut(T, &[Entry<'_>], Entry<'_>) -> Result<T, E>,

    requires
        filter.wf(),
        sorter.wf(),
        entries@.len() >= 1,
        entries@.len() - 1 <= limit,
        entries@[0] == root,
        forall|n: int|
            1 <= n < entries@.len() ==> (#[trigger] entries@[n]).wf() && entries@[n].data is Some
                && entries@[n].children() == Some(true),
        forall|before: T, path: &[u8]| #[trigger] call_requires(*old(read), (before, path)),
        forall|before: T, path: &[u8]| #[trigger] call_requires(*old(probe), (before, path)),
        forall|before: T, ancestors: &[Entry<'_>], child: Entry<'_>|
            #![trigger call_requires(*old(visit), (before, ancestors, child))]
            visitable(root, limit, ancestors@, child) ==> call_requires(
                *old(visit),
                (before, ancestors, child),
            ),
    ensures
        *final(read) == *old(read),
        *final(probe) == *old(probe),
        *final(visit) == *old(visit),
        walked(
            *filter,
            *sorter,
            *old(read),
            *old(probe),
            *old(visit),
            entries@,
            limit,
            state,
            r,
        ),
    decreases limit + 1 - entries@.len(),
{
    let entry = entries[entries.len() - 1];
    assert(entry == entries@.last());
    let (read_state, children) = match read(state, entry.path) {
        Ok(listed) => listed,
        Err(error) => {
            return Err(error);
        },
    };
    let batch = snapshot(&children, filter, sorter);
    let ghost listed = read_state;
    assert(listing(
        *old(read),
        state,
        entries@.last().path,
        listed,
        children,
        batch@,
        *filter,
        *sorter,
    ));
    let mut current = read_state;
    let mut k: usize = 0;
    while k < batch.len()
        invariant
            filter.wf(),
            sorter.wf(),
            k <= batch@.len(),
            *read == *old(read),
            *probe == *old(probe),
            *visit == *old(visit),
            entries@.len() >= 1,
            entries@.len() - 1 <= limit,
            entries@[0] == root,
            forall|n: int|
                1 <= n < entries@.len() ==> (#[trigger] entries@[n]).wf()
                    && entries@[n].data is Some && entries@[n].children() == Some(true),
            listing(
                *old(read),
                state,
                entries@.last().path,
                listed,
                children,
                batch@,
                *filter,
                *sorter,
            ),
            forall|before: T, path: &[u8]| #[trigger] call_requires(*read, (before, path)),
            forall|before: T, path: &[u8]| #[trigger] call_requires(*probe, (before, path)),
            forall|before: T, ancestors: &[Entry<'_>], child: Entry<'_>|
                #![trigger call_requires(*visit, (before, ancestors, child))]
                visitable(root, limit, ancestors@, child) ==> call_requires(
                    *visit,
                    (before, ancestors, child),
                ),
            forall|outcome: Result<T, E>| #[trigger]
                level(
                    *filter,
                    *sorter,
                    *read,
                    *probe,
                    *visit,
                    entries@,
                    limit,
                    batch@,
                    k as int,
                    current,
                    outcome,
                ) ==> level(
                    *filter,
                    *sorter,
                    *read,
                    *probe,
                    *visit,
                    entries@,
                    limit,
                    batch@,
                    0,
                    listed,
                    outcome,
                ),
        decreases batch@.len() - k,
    {
        let found_child = batch[k];
        proof {
            lemma_snapshot_indices(batch@, children@, *filter, *sorter, k as int);
        }
        let ghost stood = current;
        let directory = match found_child.data {
            Some(data) => data.is_dir(),
            None => true,
        };
        let (asked, found) = if directory {
            probe(current, found_child.path)
        } else {
            (current, false)
        };
        let ghost asked_state = asked;
        assert(probed(*probe, stood, batch@[k as int], found, asked_state));
        let child = Entry { has_children_cache: Some(found), ..found_child };
        assert(child == noted(batch@[k as int], found));
        let ancestors = entries.as_slice();
        assert(visitable(root, limit, ancestors@, child));
        let answer = visit(asked, ancestors, child);
        assert(presented(*visit, asked_state, entries@, child, answer)) by {
            assert(call_ensures(*visit, (asked_state, ancestors, child), answer));
        }
        let shown = match answer {
            Ok(shown) => shown,
            Err(error) => {
                proof {
                    let outcome = Err::<T, E>(error);
                    assert(presented(*visit, asked_state, entries@, child, outcome));
                    assert(level(
                        *filter,
                        *sorter,
                        *read,
                        *probe,
                        *visit,
                        entries@,
                        limit,
                        batch@,
                        k as int,
                        stood,
                        outcome,
                    ));
                    assert(level(
                        *filter,
                        *sorter,
                        *read,
                        *probe,
                        *visit,
                        entries@,
                        limit,
                        batch@,
                        0,
                        listed,
                        outcome,
                    ));
                }
                return Err(error);
            },
        };
        let ghost shown_state = shown;
        assert(presented(*visit, asked_state, entries@, child, Ok::<T, E>(shown_state)));
        if found && entries.len() - 1 < limit {
            let mut extended: Vec<Entry<'_>> = Vec::new();
            let mut n: usize = 0;
            while n < entries.len()
                invariant
                    n <= entries@.len(),
                    extended@ == entries@.take(n as int),
                decreases entries@.len() - n,
            {
                extended.push(entries[n]);
                assert(extended@ =~= entries@.take(n + 1));
                n = n + 1;
            }
            extended.push(child);
            assert(extended@ =~= entries@.push(child));
            let below = walk_below(
                &extended,
                limit,
                filter,
                sorter,
                read,
                probe,
                visit,
                shown,
                Ghost(root),
            );
            match below {
                Ok(ended) => {
                    proof {
                        assert forall|outcome: Result<T, E>| #[trigger]
                            level(
                                *filter,
                                *sorter,
                                *read,
                                *probe,
                                *visit,
                                entries@,
                                limit,
                                batch@,
                                k + 1,
                                ended,
                                outcome,
                            ) implies level(
                            *filter,
                            *sorter,
                            *read,
                            *probe,
                            *visit,
                            entries@,
                            limit,
                            batch@,
                            0,
                            listed,
                            outcome,
                        ) by {
                            assert(walked(
                                *filter,
                                *sorter,
                                *read,
                                *probe,
                                *visit,
                                entries@.push(child),
                                limit,
                                shown_state,
                                Ok::<T, E>(ended),
                            ));
                            assert(crate::files::walk::left(ended));
                            assert(entered(
                                *filter,
                                *sorter,
                                *read,
                                *probe,
                                *visit,
                                entries@,
                                limit,
                                batch@,
                                k as int,
                                found,
                                shown_state,
                                outcome,
                            ));
                            assert(level(
                                *filter,
                                *sorter,
                                *read,
                                *probe,
                                *visit,
                                entries@,
                                limit,
                                batch@,
                                k as int,
                                stood,
                                outcome,
                            ));
                        }
                    }
                    current = ended;
                },
                Err(error) => {
                    proof {
                        let outcome = Err::<T, E>(error);
                        assert(walked(
                            *filter,
                            *sorter,
                            *read,
                            *probe,
                            *visit,
                            entries@.push(child),
                            limit,
                            shown_state,
                            outcome,
                        ));
                        assert(entered(
                            *filter,
                            *sorter,
                            *read,
                            *probe,
                            *visit,
                            entries@,
                            limit,
                            batch@,
                            k as int,
                            found,
                            shown_state,
                            outcome,
                        ));
                        assert(level(
                            *filter,
                            *sorter,
                            *read,
                            *probe,
                            *visit,
                            entries@,
                            limit,
                            batch@,
                            k as int,
                            stood,
                            outcome,
                        ));
                        assert(level(
                            *filter,
                            *sorter,
                            *read,
                            *probe,
                            *visit,
                            entries@,
                            limit,
                            batch@,
                            0,
                            listed,
                            outcome,
                        ));
                    }
                    return Err(error);
                },
            }
        } else {
            proof {
                assert forall|outcome: Result<T, E>| #[trigger]
                    level(
                        *filter,
                        *sorter,
                        *read,
                        *probe,
                        *visit,
                        entries@,
                        limit,
                        batch@,
                        k + 1,
                        shown_state,
                        outcome,
                    ) implies level(
                    *filter,
                    *sorter,
                    *read,
                    *probe,
                    *visit,
                    entries@,
                    limit,
                    batch@,
                    0,
                    listed,
                    outcome,
                ) by {
                    assert(entered(
                        *filter,
                        *sorter,
                        *read,
                        *probe,
                        *visit,
                        entries@,
                        limit,
                        batch@,
                        k as int,
                        found,
                        shown_state,
                        outcome,
                    ));
                    assert(level(
                        *filter,
                        *sorter,
                        *read,
                        *probe,
                        *visit,
                        entries@,
                        limit,
                        batch@,
                        k as int,
                        stood,
                        outcome,
                    ));
                }
            }
            current = shown;
        }
        k = k + 1;
    }
    proof {
        let outcome = Ok::<T, E>(current);
        assert(level(
            *filter,
            *sorter,
            *read,
            *probe,
            *visit,
            entries@,
            limit,
            batch@,
            k as int,
            current,
            outcome,
        ));
        assert(level(
            *filter,
            *sorter,
            *read,
            *probe,
            *visit,
            entries@,
            limit,
            batch@,
            0,
            listed,
            outcome,
        ));
    }
    Ok(current)
}

/// Visits all children of the given entry using the given closure recursively.
///
/// The walk is depth-first and pre-order. Each directory is read through `read` and its
/// children are visited as [`visit_entries`] visits them, except that `probe` is first asked
/// whether a child that is a directory has any member, and the child remembers the answer.
/// Right after a child with members has been visited its own children are walked in the same
/// way, below a chain that the child has been added to, unless the child stands `max_depth`
/// levels below the direct children of `entry` already. Without a `max_depth` the walk goes as
/// deep as a chain can be counted.
///
/// A state is handed from step to step: every read, every probe and every call of `visit`
/// takes the state that the step before has left, and the walk ends in the state that its last
/// step has left. The state stands for whatever the closures work on; it fixes the order of
/// the steps, [`walked`] says which.
///
/// The closure is only ever handed what [`visitable`] describes: it need not accept a chain
/// that is longer than the limit allows.
///
/// # Errors
///
/// The first failure of a read or of the closure comes back as it is, and nothing more is read
/// or visited.
pub fn visit_entries_recursive<F, S, R, P, V, T, E>(
    entry: &Entry<'_>,
    max_depth: Option<usize>,
    filter: &F,
    sorter: &S,
    read: &mut R,
    probe: &mut P,
    visit: &mut V,
    state: T,
) -> (r: Result<T, E>) where
    F: Filter,
    S: Sort,
    R: FnMut(T, &[u8]) -> Result<(T, Vec<(Vec<u8>, Metadata)>), E>,
    P: FnMut(T, &[u8]) -> (T, bool),
    V: FnMut(T, &[Entry<'_>], Entry<'_>) -> Result<T, E>,

    requires
        filter.wf(),
        sorter.wf(),
        forall|before: T, path: &[u8]| #[trigger] call_requires(*old(read), (before, path)),
        forall|before: T, path: &[u8]| #[trigger] call_requires(*old(probe), (before, path)),
        forall|before: T, ancestors: &[Entry<'_>], child: Entry<'_>|
            #![trigger call_requires(*old(visit), (before, ancestors, child))]
            visitable(*entry, depth_limit(max_depth), ancestors@, child) ==> call_requires(
                *old(visit),
                (before, ancestors, child),
            ),
    ensures
        *final(read) == *old(read),
        *final(probe) == *old(probe),
        *final(visit) == *old(visit),
        walked(
            *filter,
            *sorter,
            *old(read),
            *old(probe),
            *old(visit),
            seq![*entry],
            depth_limit(max_depth),
            state,
            r,
        ),
{
    let limit = match max_depth {
        Some(limit) => limit,
        None => usize::MAX,
    };
    let mut entries: Vec<Entry<'_>> = Vec::new();
    entries.push(*entry);
    assert(entries@ =~= seq![*entry]);
    walk_below(&entries, limit, filter, sorter, read, probe, visit, state, Ghost(*entry))
}

/// Returns `true` if the given path is considered 'hidden': if its last component is a name
/// that begins with a dot.
pub fn is_hidden(path: &[u8]) -> (r: bool)
    ensures
        r == hidden(path@),
{
    let all = components(path);
    if all.len() == 0 {
        return false;
    }
    match all[all.len() - 1] {
        Component::Normal(name) => name.len() > 0 && name[0] == crate::files::path::DOT,
        _ => false,
    }
}

/// Returns a new path that represents the relative path from `root` to `path`.
///
/// There is none from an absolute `root` to a relative `path`, and none where `root` holds a
/// `..` that `path` does not share. From a relative `root` an absolute `path` comes back
/// unchanged.
pub fn relativize(root: &[u8], path: &[u8]) -> (r: Option<Vec<u8>>)
    ensures
        match r {
            Some(way) => relative(root@, path@) == Some(way@),
            None => relative(root@, path@) is None,
        },
{
    let root_absolute = is_absolute(root);
    let path_absolute = is_absolute(path);
    if root_absolute && !path_absolute {
        return None;
    }
    if !root_absolute && path_absolute {
        return Some(slice_to_vec(path));
    }
    let from = components(root);
    let to = components(path);
    match relativize_components(&from, &to) {
        Some(way) => Some(join(&way)),
        None => None,
    }
}

} // verus!
