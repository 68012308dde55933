//! Provides composable filtering types.

use vstd::prelude::*;

use crate::files::metadata::Metadata;

verus! {

/// A value that can be used to filter out entries from a visit call.
///
/// Every filter answers two questions, one blind to the depth of the entry and one aware of it.
/// The combinators answer each by combining the answers that their operands give to the same
/// question, so a depth never gets lost on the way through a composite.
pub trait Filter: Sized {
    /// Whether this filter can be called: what it wraps accepts every entry and answers
    /// each in one way only.
    spec fn wf(&self) -> bool;

    /// Whether the entry is retained, not accounting for depth.
    spec fn accepts(&self, path: Seq<u8>, data: Metadata) -> bool;

    /// Whether the entry is retained at the given depth.
    spec fn depth_accepts(&self, path: Seq<u8>, data: Metadata, depth: usize) -> bool;

    /// Returns `true` if the entry should be retained.
    fn filter(&self, path: &[u8], data: &Metadata) -> (r: bool)
        requires
            self.wf(),
        ensures
            r == self.accepts(path@, *data),
    ;

    /// Returns `true` if the entry should be retained, accounting for depth.
    fn depth_filter(&self, path: &[u8], data: &Metadata, depth: usize) -> (r: bool)
        requires
            self.wf(),
        ensures
            r == self.depth_accepts(path@, *data, depth),
    ;

    /// Returns a new [`Filter`] that returns the inverse of this [`Filter`].
    fn not(self) -> (r: Not<Self>)
        ensures
            r.0 == self,
    {
        Not(self)
    }
}

/// The combinators that take a second operand, offered on every [`Filter`].
pub trait Combine: Filter {
    /// Returns a new [`Filter`] that returns the logical 'and' of this [`Filter`] and the
    /// provided [`Filter`].
    fn and<U: Filter>(self, other: U) -> (r: And<Self, U>)
        ensures
            r.0 == self,
            r.1 == other,
    ;

    /// Returns a new [`Filter`] that returns the logical 'or' of this [`Filter`] and the provided
    /// [`Filter`].
    fn or<U: Filter>(self, other: U) -> (r: Or<Self, U>)
        ensures
            r.0 == self,
            r.1 == other,
    ;

    /// Returns a new [`Filter`] that returns the logical 'exclusive-or' of this [`Filter`] and
    /// the provided [`Filter`].
    fn xor<U: Filter>(self, other: U) -> (r: Xor<Self, U>)
        ensures
            r.0 == self,
            r.1 == other,
    ;
}

impl<T: Filter> Combine for T {
    fn and<U: Filter>(self, other: U) -> (r: And<Self, U>) {
        And(self, other)
    }

    fn or<U: Filter>(self, other: U) -> (r: Or<Self, U>) {
        Or(self, other)
    }

    fn xor<U: Filter>(self, other: U) -> (r: Xor<Self, U>) {
        Xor(self, other)
    }
}

/// Allows every entry, or none.
#[derive(Clone, Copy, Debug, PartialEq, Eq)]
pub struct Constant(pub bool);

/// Allows entries that match a custom predicate.
#[derive(Clone, Debug)]
pub struct By<F>(pub F);

/// Allows entries that match a custom predicate, accounting for depth.
#[derive(Clone, Debug)]
pub struct DepthBy<F>(pub F);

/// Allow the inverse of the inner [`Filter`].
#[derive(Clone, Debug)]
pub struct Not<T>(pub T);

/// Returns the logical 'and' of the inner [`Filter`]s.
#[derive(Clone, Debug)]
pub struct And<T, U>(pub T, pub U);

/// Returns the logical 'or' of the inner [`Filter`]s.
#[derive(Clone, Debug)]
pub struct Or<T, U>(pub T, pub U);

/// Returns the logical 'exclusive-or' of the inner [`Filter`]s.
#[derive(Clone, Debug)]
pub struct Xor<T, U>(pub T, pub U);

/// Returns a [`Filter`] that allows all entries.
pub fn all() -> (r: Constant)
    ensures
        r.0,
{
    Constant(true)
}

/// Returns a [`Filter`] that disallows all entries.
pub fn none() -> (r: Constant)
    ensures
        !r.0,
{
    Constant(false)
}

/// Returns a [`Filter`] that allows entries that match a custom predicate.
pub fn by<F>(f: F) -> (r: By<F>) where F: Fn(&[u8], &Metadata) -> bool
    ensures
        r.0 == f,
{
    By(f)
}

/// Returns a [`Filter`] that allows entries that match a custom predicate, account for depth.
pub fn depth_by<F>(f: F) -> (r: DepthBy<F>) where F: Fn(&[u8], &Metadata, usize) -> bool
    ensures
        r.0 == f,
{
    DepthBy(f)
}

impl Filter for Constant {
    open spec fn wf(&self) -> bool {
        true
    }

    open spec fn accepts(&self, path: Seq<u8>, data: Metadata) -> bool {
        self.0
    }

    open spec fn depth_accepts(&self, path: Seq<u8>, data: Metadata, depth: usize) -> bool {
        self.0
    }

    fn filter(&self, path: &[u8], data: &Metadata) -> (r: bool) {
        self.0
    }

    fn depth_filter(&self, path: &[u8], data: &Metadata, depth: usize) -> (r: bool) {
        self.0
    }
}

impl<F> Filter for By<F> where F: Fn(&[u8], &Metadata) -> bool {
    /// The predicate takes every entry, and entries that read the same get the same answer.
    open spec fn wf(&self) -> bool {
        &&& forall|p: &[u8], d: &Metadata| #[trigger] call_requires(self.0, (p, d))
        &&& forall|p: &[u8], d: &Metadata, q: &[u8], e: &Metadata, a: bool, b: bool|
            #![trigger call_ensures(self.0, (p, d), a), call_ensures(self.0, (q, e), b)]
            call_ensures(self.0, (p, d), a) && call_ensures(self.0, (q, e), b) && p@ == q@ && *d
                == *e ==> a == b
    }

    open spec fn accepts(&self, path: Seq<u8>, data: Metadata) -> bool {
        exists|p: &[u8], d: &Metadata|
            #![trigger call_ensures(self.0, (p, d), true)]
            p@ == path && *d == data && call_ensures(self.0, (p, d), true)
    }

    open spec fn depth_accepts(&self, path: Seq<u8>, data: Metadata, depth: usize) -> bool {
        self.accepts(path, data)
    }

    fn filter(&self, path: &[u8], data: &Metadata) -> (r: bool) {
        (self.0)(path, data)
    }

    fn depth_filter(&self, path: &[u8], data: &Metadata, depth: usize) -> (r: bool) {
        self.filter(path, data)
    }
}

impl<F> Filter for DepthBy<F> where F: Fn(&[u8], &Metadata, usize) -> bool {
    /// The predicate takes every entry at every depth, and entries that read the same get the
    /// same answer at the same depth.
    open spec fn wf(&self) -> bool {
        &&& forall|p: &[u8], d: &Metadata, n: usize| #[trigger] call_requires(self.0, (p, d, n))
        &&& forall|p: &[u8], d: &Metadata, q: &[u8], e: &Metadata, n: usize, a: bool, b: bool|
            #![trigger call_ensures(self.0, (p, d, n), a), call_ensures(self.0, (q, e, n), b)]
            call_ensures(self.0, (p, d, n), a) && call_ensures(self.0, (q, e, n), b) && p@ == q@
                && *d == *e ==> a == b
    }

    open spec fn accepts(&self, path: Seq<u8>, data: Metadata) -> bool {
        self.depth_accepts(path, data, 0)
    }

    open spec fn depth_accepts(&self, path: Seq<u8>, data: Metadata, depth: usize) -> bool {
        exists|p: &[u8], d: &Metadata|
            #![trigger call_ensures(self.0, (p, d, depth), true)]
            p@ == path && *d == data && call_ensures(self.0, (p, d, depth), true)
    }

    fn filter(&self, path: &[u8], data: &Metadata) -> (r: bool) {
        self.depth_filter(path, data, 0)
    }

    fn depth_filter(&self, path: &[u8], data: &Metadata, depth: usize) -> (r: bool) {
        (self.0)(path, data, depth)
    }
}

impl<T: Filter> Filter for Not<T> {
    open spec fn wf(&self) -> bool {
        self.0.wf()
    }

    open spec fn accepts(&self, path: Seq<u8>, data: Metadata) -> bool {
        !self.0.accepts(path, data)
    }

    open spec fn depth_accepts(&self, path: Seq<u8>, data: Metadata, depth: usize) -> bool {
        !self.0.depth_accepts(path, data, depth)
    }

    fn filter(&self, path: &[u8], data: &Metadata) -> (r: bool) {
        !self.0.filter(path, data)
    }

    fn depth_filter(&self, path: &[u8], data: &Metadata, depth: usize) -> (r: bool) {
        !self.0.depth_filter(path, data, depth)
    }
}

impl<T: Filter, U: Filter> Filter for And<T, U> {
    open spec fn wf(&self) -> bool {
        self.0.wf() && self.1.wf()
    }

    open spec fn accepts(&self, path: Seq<u8>, data: Metadata) -> bool {
        self.0.accepts(path, data) && self.1.accepts(path, data)
    }

    open spec fn depth_accepts(&self, path: Seq<u8>, data: Metadata, depth: usize) -> bool {
        self.0.depth_accepts(path, data, depth) && self.1.depth_accepts(path, data, depth)
    }

    fn filter(&self, path: &[u8], data: &Metadata) -> (r: bool) {
        self.0.filter(path, data) && self.1.filter(path, data)
    }

    fn depth_filter(&self, path: &[u8], data: &Metadata, depth: usize) -> (r: bool) {
        self.0.depth_filter(path, data, depth) && self.1.depth_filter(path, data, depth)
    }
}

impl<T: Filter, U: Filter> Filter for Or<T, U> {
    open spec fn wf(&self) -> bool {
        self.0.wf() && self.1.wf()
    }

    open spec fn accepts(&self, path: Seq<u8>, data: Metadata) -> bool {
        self.0.accepts(path, data) || self.1.accepts(path, data)
    }

    open spec fn depth_accepts(&self, path: Seq<u8>, data: Metadata, depth: usize) -> bool {
        self.0.depth_accepts(path, data, depth) || self.1.depth_accepts(path, data, depth)
    }

    fn filter(&self, path: &[u8], data: &Metadata) -> (r: bool) {
        self.0.filter(path, data) || self.1.filter(path, data)
    }

    fn depth_filter(&self, path: &[u8], data: &Metadata, depth: usize) -> (r: bool) {
        self.0.depth_filter(path, data, depth) || self.1.depth_filter(path, data, depth)
    }
}

impl<T: Filter, U: Filter> Filter for Xor<T, U> {
    open spec fn wf(&self) -> bool {
        self.0.wf() && self.1.wf()
    }

    open spec fn accepts(&self, path: Seq<u8>, data: Metadata) -> bool {
        self.0.accepts(path, data) != self.1.accepts(path, data)
    }

    open spec fn depth_accepts(&self, path: Seq<u8>, data: Metadata, depth: usize) -> bool {
        self.0.depth_accepts(path, data, depth) != self.1.depth_accepts(path, data, depth)
    }

    fn filter(&self, path: &[u8], data: &Metadata) -> (r: bool) {
        let first = self.0.filter(path, data);
        let second = self.1.filter(path, data);
        first != second
    }

    fn depth_filter(&self, path: &[u8], data: &Metadata, depth: usize) -> (r: bool) {
        let first = self.0.depth_filter(path, data, depth);
        let second = self.1.depth_filter(path, data, depth);
        first != second
    }
}

} // verus!
