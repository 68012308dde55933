//! Paths as byte strings, split into components at `/`.

use vstd::prelude::*;
use vstd::slice::slice_subrange;

verus! {

/// The byte that separates the components of a path.
pub const SEPARATOR: u8 = 0x2f;

/// The byte that `.` and `..` are made of, and that hidden names begin with.
pub const DOT: u8 = 0x2e;

/// One component of a path, as a value of its own.
pub ghost enum Part {
    /// The leading `/` of an absolute path.
    RootDir,
    /// A leading `.` of a relative path.
    CurDir,
    /// A `..`.
    ParentDir,
    /// Any other name.
    Normal(Seq<u8>),
}

/// One component of a path, borrowed from the path's bytes.
#[derive(Clone, Copy, Debug)]
pub enum Component<'a> {
    /// The leading `/` of an absolute path.
    RootDir,
    /// A leading `.` of a relative path.
    CurDir,
    /// A `..`.
    ParentDir,
    /// Any other name.
    Normal(&'a [u8]),
}

impl<'a> DeepView for Component<'a> {
    type V = Part;

    open spec fn deep_view(&self) -> Part {
        match self {
            Component::RootDir => Part::RootDir,
            Component::CurDir => Part::CurDir,
            Component::ParentDir => Part::ParentDir,
            Component::Normal(name) => Part::Normal(name@),
        }
    }
}

impl<'a> Component<'a> {
    /// Returns `true` if both components are of one kind and, where they are names, spell the
    /// same name.
    pub fn same(&self, other: &Component<'_>) -> (r: bool)
        ensures
            r == (self.deep_view() == other.deep_view()),
    {
        match (self, other) {
            (Component::RootDir, Component::RootDir) => true,
            (Component::CurDir, Component::CurDir) => true,
            (Component::ParentDir, Component::ParentDir) => true,
            (Component::Normal(left), Component::Normal(right)) => same_bytes(left, right),
            _ => false,
        }
    }
}

/// Returns `true` if the two byte strings are equal.
pub fn same_bytes(left: &[u8], right: &[u8]) -> (r: bool)
    ensures
        r == (left@ == right@),
{
    if left.len() != right.len() {
        return false;
    }
    let mut i: usize = 0;
    while i < left.len()
        invariant
            left@.len() == right@.len(),
            i <= left@.len(),
            forall|k: int| 0 <= k < i ==> left@[k] == right@[k],
        decreases left@.len() - i,
    {
        if left[i] != right[i] {
            return false;
        }
        i = i + 1;
    }
    assert(left@ =~= right@);
    true
}

/// Whether the path is absolute: whether it begins with the separator.
pub open spec fn absolute(path: Seq<u8>) -> bool {
    path.len() > 0 && path[0] == SEPARATOR
}

/// The parts so far once a segment has ended: an empty segment and `.` leave none, `..` leaves a
/// step up, any other segment a name.
pub open spec fn close(done: Seq<Part>, segment: Seq<u8>) -> Seq<Part> {
    if segment.len() == 0 || segment == seq![DOT] {
        done
    } else if segment == seq![DOT, DOT] {
        done.push(Part::ParentDir)
    } else {
        done.push(Part::Normal(segment))
    }
}

/// Reads the path byte by byte: the parts of the segments that have ended, and the bytes of the
/// segment that has not.
pub open spec fn lex(path: Seq<u8>) -> (Seq<Part>, Seq<u8>)
    decreases path.len(),
{
    if path.len() == 0 {
        (Seq::empty(), Seq::empty())
    } else {
        let (done, segment) = lex(path.drop_last());
        if path.last() == SEPARATOR {
            (close(done, segment), Seq::empty())
        } else {
            (done, segment.push(path.last()))
        }
    }
}

/// What stands before the segments: the root of an absolute path, or the `.` that a relative
/// path begins with.
pub open spec fn leading(path: Seq<u8>) -> Seq<Part> {
    if absolute(path) {
        seq![Part::RootDir]
    } else if path.len() > 0 && path[0] == DOT && (path.len() == 1 || path[1] == SEPARATOR) {
        seq![Part::CurDir]
    } else {
        Seq::empty()
    }
}

/// The components of a path.
///
/// Separators split the path into segments. Empty segments count for nothing, so repeated and
/// trailing separators change nothing. A `.` counts only at the very beginning of a relative
/// path.
pub open spec fn parts(path: Seq<u8>) -> Seq<Part> {
    let (done, segment) = lex(path);
    leading(path) + close(done, segment)
}

/// Whether the path's last component is a name that begins with a dot.
pub open spec fn hidden(path: Seq<u8>) -> bool {
    let all = parts(path);
    all.len() > 0 && match all.last() {
        Part::Normal(name) => name.len() > 0 && name[0] == DOT,
        _ => false,
    }
}

/// The bytes that spell one component.
pub open spec fn text(part: Part) -> Seq<u8> {
    match part {
        Part::RootDir => seq![SEPARATOR],
        Part::CurDir => seq![DOT],
        Part::ParentDir => seq![DOT, DOT],
        Part::Normal(name) => name,
    }
}

/// The path after one more component: a root replaces what was there, anything else follows
/// it, behind a separator unless the path is empty or ends in one.
pub open spec fn pushed(path: Seq<u8>, part: Part) -> Seq<u8> {
    match part {
        Part::RootDir => seq![SEPARATOR],
        _ => if path.len() > 0 && path.last() != SEPARATOR {
            path.push(SEPARATOR) + text(part)
        } else {
            path + text(part)
        },
    }
}

/// The path that the components spell, one pushed after the other.
pub open spec fn joined(parts: Seq<Part>) -> Seq<u8>
    decreases parts.len(),
{
    if parts.len() == 0 {
        Seq::empty()
    } else {
        pushed(joined(parts.drop_last()), parts.last())
    }
}

/// How many leading components the two paths share.
pub open spec fn shared(root: Seq<Part>, path: Seq<Part>) -> nat
    decreases root.len(),
{
    if root.len() > 0 && path.len() > 0 && root[0] == path[0] {
        1 + shared(root.skip(1), path.skip(1))
    } else {
        0
    }
}

/// `count` steps up.
pub open spec fn climb(count: nat) -> Seq<Part> {
    Seq::new(count, |i: int| Part::ParentDir)
}

/// The way from `root` to `path` once nothing is shared any more.
///
/// With `root` used up, the rest of `path` leads there; with `path` used up, one step up for
/// each component left of `root`. A `.` of `root` is no directory of its own: the component of
/// `path` beside it is taken as it is. A `..` of `root` names a directory that the paths do not
/// tell, so there is no answer. Any other component of `root` is left by stepping up, once for
/// it and once for each that follows, before the rest of `path` is entered.
pub open spec fn detour(root: Seq<Part>, path: Seq<Part>) -> Option<Seq<Part>>
    decreases root.len(),
{
    if root.len() == 0 {
        Some(path)
    } else if path.len() == 0 {
        Some(climb(root.len()))
    } else if root[0] is CurDir {
        match detour(root.skip(1), path.skip(1)) {
            Some(rest) => Some(seq![path[0]] + rest),
            None => None,
        }
    } else if root[0] is ParentDir {
        None
    } else {
        Some(climb(root.len()) + path)
    }
}

/// The components that lead from `root` to `path`: what is left once the shared leading
/// components are set aside.
pub open spec fn relative_parts(root: Seq<Part>, path: Seq<Part>) -> Option<Seq<Part>> {
    let common = shared(root, path) as int;
    detour(root.skip(common), path.skip(common))
}

/// The path that expresses `path` relative to `root`.
///
/// From an absolute `root` no relative `path` can be reached. From a relative `root` an
/// absolute `path` is reached as it stands.
pub open spec fn relative(root: Seq<u8>, path: Seq<u8>) -> Option<Seq<u8>> {
    if absolute(root) && !absolute(path) {
        None
    } else if !absolute(root) && absolute(path) {
        Some(path)
    } else {
        match relative_parts(parts(root), parts(path)) {
            Some(way) => Some(joined(way)),
            None => None,
        }
    }
}

/// Returns `true` if the path begins with the separator.
pub fn is_absolute(path: &[u8]) -> (r: bool)
    ensures
        r == absolute(path@),
{
    path.len() > 0 && path[0] == SEPARATOR
}

/// Ends the segment `path[start..end]`: appends its component, if it has one.
fn close_segment<'a>(out: &mut Vec<Component<'a>>, path: &'a [u8], start: usize, end: usize)
    requires
        start <= end <= path@.len(),
    ensures
        final(out).deep_view() == close(old(out).deep_view(), path@.subrange(start as int, end as int)),
{
    let ghost segment = path@.subrange(start as int, end as int);
    let ghost before = out.deep_view();
    let length = end - start;
    if length == 0 {
    } else if length == 1 && path[start] == DOT {
        assert(segment =~= seq![DOT]);
    } else if length == 2 && path[start] == DOT && path[start + 1] == DOT {
        assert(segment =~= seq![DOT, DOT]);
        out.push(Component::ParentDir);
        assert(out.deep_view() =~= before.push(Part::ParentDir));
    } else {
        assert(segment != seq![DOT]) by {
            if segment == seq![DOT] {
                assert(segment.len() == 1);
                assert(segment[0] == DOT);
            }
        }
        assert(segment != seq![DOT, DOT]) by {
            if segment == seq![DOT, DOT] {
                assert(segment.len() == 2);
                assert(segment[0] == DOT);
                assert(segment[1] == DOT);
            }
        }
        let name = slice_subrange(path, start, end);
        out.push(Component::Normal(name));
        assert(out.deep_view() =~= before.push(Part::Normal(segment)));
    }
}

/// Splits a path into its components.
pub fn components<'a>(path: &'a [u8]) -> (out: Vec<Component<'a>>)
    ensures
        out.deep_view() == parts(path@),
{
    let mut out: Vec<Component<'a>> = Vec::new();
    if is_absolute(path) {
        out.push(Component::RootDir);
    } else if path.len() > 0 && path[0] == DOT && (path.len() == 1 || path[1] == SEPARATOR) {
        out.push(Component::CurDir);
    }
    assert(out.deep_view() =~= leading(path@));
    let mut start: usize = 0;
    let mut i: usize = 0;
    assert(path@.take(0) =~= Seq::<u8>::empty());
    assert(path@.subrange(0, 0) =~= Seq::<u8>::empty());
    while i < path.len()
        invariant
            start <= i <= path@.len(),
            out.deep_view() == leading(path@) + lex(path@.take(i as int)).0,
            lex(path@.take(i as int)).1 == path@.subrange(start as int, i as int),
        decreases path@.len() - i,
    {
        let ghost before = out.deep_view();
        proof {
            let next = path@.take(i + 1);
            assert(next.drop_last() =~= path@.take(i as int));
            assert(next.last() == path@[i as int]);
        }
        if path[i] == SEPARATOR {
            close_segment(&mut out, path, start, i);
            start = i + 1;
            proof {
                let (done, segment) = lex(path@.take(i as int));
                assert(path@.subrange(start as int, i + 1) =~= Seq::<u8>::empty());
                assert(out.deep_view() == close(before, segment));
                lemma_close_after(leading(path@), done, segment);
            }
        } else {
            proof {
                assert(path@.subrange(start as int, i + 1) =~= path@.subrange(
                    start as int,
                    i as int,
                ).push(path@[i as int]));
            }
        }
        i = i + 1;
    }
    proof {
        assert(path@.take(i as int) =~= path@);
        let (done, segment) = lex(path@);
        lemma_close_after(leading(path@), done, segment);
    }
    close_segment(&mut out, path, start, i);
    out
}

/// Ending a segment adds to the end, whatever stands in front.
proof fn lemma_close_after(front: Seq<Part>, done: Seq<Part>, segment: Seq<u8>)
    ensures
        close(front + done, segment) == front + close(done, segment),
{
    assert((front + done).push(Part::ParentDir) =~= front + done.push(Part::ParentDir));
    assert((front + done).push(Part::Normal(segment)) =~= front + done.push(
        Part::Normal(segment),
    ));
}

/// Beside a `.` of the root the way takes the component of the path, and goes on behind both.
proof fn lemma_detour_cur_dir(root: Seq<Part>, path: Seq<Part>)
    requires
        root.len() > 0,
        path.len() > 0,
        root[0] is CurDir,
    ensures
        detour(root, path) == match detour(root.skip(1), path.skip(1)) {
            Some(rest) => Some(seq![path[0]] + rest),
            None => None,
        },
{
}

/// Finds the components that lead from `root` to `path`, or `None` where `root` holds a `..`
/// that `path` does not share.
pub fn relativize_components<'a>(root: &Vec<Component<'_>>, path: &Vec<Component<'a>>) -> (r:
    Option<Vec<Component<'a>>>)
    ensures
        match r {
            Some(way) => relative_parts(root.deep_view(), path.deep_view()) == Some(
                way.deep_view(),
            ),
            None => relative_parts(root.deep_view(), path.deep_view()) is None,
        },
{
    let ghost from = root.deep_view();
    let ghost to = path.deep_view();
    let mut common: usize = 0;
    assert(from.skip(0) =~= from);
    assert(to.skip(0) =~= to);
    while common < root.len() && common < path.len() && root[common].same(&path[common])
        invariant
            from == root.deep_view(),
            to == path.deep_view(),
            common <= from.len(),
            common <= to.len(),
            shared(from, to) == common + shared(from.skip(common as int), to.skip(common as int)),
        decreases from.len() - common,
    {
        proof {
            let f = from.skip(common as int);
            let t = to.skip(common as int);
            assert(f[0] == from[common as int]);
            assert(t[0] == to[common as int]);
            assert(f.skip(1) =~= from.skip(common + 1));
            assert(t.skip(1) =~= to.skip(common + 1));
        }
        common = common + 1;
    }
    proof {
        let f = from.skip(common as int);
        let t = to.skip(common as int);
        if f.len() > 0 && t.len() > 0 {
            assert(f[0] == from[common as int]);
            assert(t[0] == to[common as int]);
        }
        assert(shared(from, to) == common);
    }
    let ghost goal = detour(from.skip(common as int), to.skip(common as int));
    let mut out: Vec<Component<'a>> = Vec::new();
    let mut i: usize = common;
    assert(Seq::<Part>::empty() + to.skip(i as int) =~= to.skip(i as int));
    loop
        invariant
            from == root.deep_view(),
            to == path.deep_view(),
            i <= from.len(),
            i <= to.len(),
            goal == relative_parts(from, to),
            goal == match detour(from.skip(i as int), to.skip(i as int)) {
                Some(rest) => Some(out.deep_view() + rest),
                None => None,
            },
        decreases from.len() - i,
    {
        let ghost f = from.skip(i as int);
        let ghost t = to.skip(i as int);
        let ghost done = out.deep_view();
        if i >= root.len() {
            // What is left of the path leads there.
            let mut j: usize = i;
            while j < path.len()
                invariant
                    to == path.deep_view(),
                    i <= j <= to.len(),
                    out.deep_view() == done + to.subrange(i as int, j as int),
                decreases to.len() - j,
            {
                out.push(path[j]);
                proof {
                    assert(out.deep_view() =~= (done + to.subrange(i as int, j as int)).push(
                        to[j as int],
                    ));
                    assert(to.subrange(i as int, j + 1) =~= to.subrange(i as int, j as int).push(
                        to[j as int],
                    ));
                }
                j = j + 1;
            }
            proof {
                assert(f.len() == 0);
                assert(to.subrange(i as int, j as int) =~= t);
            }
            return Some(out);
        }
        if i >= path.len() {
            // Nothing is left of the path: one step up for each component left of the root.
            let mut j: usize = i;
            while j < root.len()
                invariant
                    from == root.deep_view(),
                    i <= j <= from.len(),
                    out.deep_view() == done + climb((j - i) as nat),
                decreases from.len() - j,
            {
                out.push(Component::ParentDir);
                proof {
                    assert(out.deep_view() =~= (done + climb((j - i) as nat)).push(
                        Part::ParentDir,
                    ));
                    assert(climb((j + 1 - i) as nat) =~= climb((j - i) as nat).push(
                        Part::ParentDir,
                    ));
                }
                j = j + 1;
            }
            proof {
                assert(t.len() == 0);
                assert(f.len() == from.len() - i);
            }
            return Some(out);
        }
        proof {
            assert(f[0] == from[i as int]);
            assert(t[0] == to[i as int]);
            assert(f.skip(1) =~= from.skip(i + 1));
            assert(t.skip(1) =~= to.skip(i + 1));
        }
        match root[i] {
            Component::CurDir => {
                out.push(path[i]);
                proof {
                    lemma_detour_cur_dir(f, t);
                    assert(out.deep_view() =~= done.push(to[i as int]));
                    match detour(f.skip(1), t.skip(1)) {
                        Some(rest) => {
                            assert(done + (seq![t[0]] + rest) =~= done.push(to[i as int]) + rest);
                        },
                        None => {},
                    }
                }
                i = i + 1;
            },
            Component::ParentDir => {
                return None;
            },
            _ => {
                let mut j: usize = i;
                while j < root.len()
                    invariant
                        from == root.deep_view(),
                        i <= j <= from.len(),
                        out.deep_view() == done + climb((j - i) as nat),
                    decreases from.len() - j,
                {
                    out.push(Component::ParentDir);
                    proof {
                        assert(out.deep_view() =~= (done + climb((j - i) as nat)).push(
                            Part::ParentDir,
                        ));
                        assert(climb((j + 1 - i) as nat) =~= climb((j - i) as nat).push(
                            Part::ParentDir,
                        ));
                    }
                    j = j + 1;
                }
                let ghost up = out.deep_view();
                let mut j2: usize = i;
                while j2 < path.len()
                    invariant
                        to == path.deep_view(),
                        i <= j2 <= to.len(),
                        out.deep_view() == up + to.subrange(i as int, j2 as int),
                    decreases to.len() - j2,
                {
                    out.push(path[j2]);
                    proof {
                        assert(out.deep_view() =~= (up + to.subrange(i as int, j2 as int)).push(
                            to[j2 as int],
                        ));
                        assert(to.subrange(i as int, j2 + 1) =~= to.subrange(
                            i as int,
                            j2 as int,
                        ).push(to[j2 as int]));
                    }
                    j2 = j2 + 1;
                }
                proof {
                    assert(to.subrange(i as int, j2 as int) =~= t);
                    assert(f.len() == from.len() - i);
                    assert(out.deep_view() =~= done + (climb(f.len()) + t));
                }
                return Some(out);
            },
        }
    }
}

/// Spells out a path from its components.
pub fn join(parts: &Vec<Component<'_>>) -> (out: Vec<u8>)
    ensures
        out@ == joined(parts.deep_view()),
{
    let ghost all = parts.deep_view();
    let mut out: Vec<u8> = Vec::new();
    let mut i: usize = 0;
    assert(all.take(0) =~= Seq::<Part>::empty());
    while i < parts.len()
        invariant
            all == parts.deep_view(),
            i <= all.len(),
            out@ == joined(all.take(i as int)),
        decreases all.len() - i,
    {
        let ghost before = out@;
        proof {
            assert(all.take(i + 1).drop_last() =~= all.take(i as int));
            assert(all.take(i + 1).last() == all[i as int]);
        }
        match parts[i] {
            Component::RootDir => {
                out.clear();
                out.push(SEPARATOR);
                assert(out@ =~= seq![SEPARATOR]);
            },
            Component::CurDir => {
                if out.len() > 0 && out[out.len() - 1] != SEPARATOR {
                    out.push(SEPARATOR);
                }
                out.push(DOT);
                assert(out@ =~= pushed(before, Part::CurDir));
            },
            Component::ParentDir => {
                if out.len() > 0 && out[out.len() - 1] != SEPARATOR {
                    out.push(SEPARATOR);
                }
                out.push(DOT);
                out.push(DOT);
                assert(out@ =~= pushed(before, Part::ParentDir));
            },
            Component::Normal(name) => {
                if out.len() > 0 && out[out.len() - 1] != SEPARATOR {
                    out.push(SEPARATOR);
                }
                out.extend_from_slice(name);
                assert(out@ =~= pushed(before, Part::Normal(name@)));
            },
        }
        i = i + 1;
    }
    assert(all.take(i as int) =~= all);
    out
}

/// The name that the path ends in: its last component where that is a name.
pub open spec fn final_name(path: Seq<u8>) -> Option<Seq<u8>> {
    let all = parts(path);
    if all.len() > 0 {
        match all.last() {
            Part::Normal(name) => Some(name),
            _ => None,
        }
    } else {
        None
    }
}

/// Returns the name that the path ends in, if it ends in one.
pub fn file_name<'a>(path: &'a [u8]) -> (r: Option<&'a [u8]>)
    ensures
        match r {
            Some(name) => final_name(path@) == Some(name@),
            None => final_name(path@) is None,
        },
{
    let all = components(path);
    if all.len() == 0 {
        return None;
    }
    match all[all.len() - 1] {
        Component::Normal(name) => Some(name),
        _ => None,
    }
}

} // verus!
