//! Provides composable sorting types.

use std::cmp::Ordering;
use vstd::prelude::*;
use vstd::std_specs::cmp::OrdSpec;

use crate::files::metadata::Metadata;

verus! {

/// How one entry stands to another in a sorted listing.
#[derive(Clone, Copy, Debug, PartialEq, Eq, Structural)]
pub enum Order {
    /// The first entry comes before the second.
    Less,
    /// Neither entry has to come before the other.
    Equal,
    /// The first entry comes after the second.
    Greater,
}

impl Order {
    /// The opposite outcome: `Less` and `Greater` trade places, `Equal` stays.
    pub open spec fn reversed(self) -> Order {
        match self {
            Order::Less => Order::Greater,
            Order::Equal => Order::Equal,
            Order::Greater => Order::Less,
        }
    }

    /// This outcome unless it is `Equal`, in which case `next` decides.
    pub open spec fn chained(self, next: Order) -> Order {
        match self {
            Order::Equal => next,
            _ => self,
        }
    }

    /// The outcome that the ordering of the standard library stands for.
    pub open spec fn standing_for(ordering: Ordering) -> Order {
        match ordering {
            Ordering::Less => Order::Less,
            Ordering::Equal => Order::Equal,
            Ordering::Greater => Order::Greater,
        }
    }

    /// Returns the outcome that the ordering of the standard library stands for.
    pub fn of(ordering: Ordering) -> (r: Order)
        ensures
            r == Order::standing_for(ordering),
    {
        match ordering {
            Ordering::Less => Order::Less,
            Ordering::Equal => Order::Equal,
            Ordering::Greater => Order::Greater,
        }
    }

    /// Returns the ordering of the standard library that stands for this outcome.
    pub fn ordering(self) -> (r: Ordering)
        ensures
            Order::standing_for(r) == self,
    {
        match self {
            Order::Less => Ordering::Less,
            Order::Equal => Ordering::Equal,
            Order::Greater => Ordering::Greater,
        }
    }

    /// Reverses the outcome.
    pub fn reverse(self) -> (r: Order)
        ensures
            r == self.reversed(),
    {
        match self {
            Order::Less => Order::Greater,
            Order::Equal => Order::Equal,
            Order::Greater => Order::Less,
        }
    }

    /// Returns this outcome unless it is `Equal`, in which case `next` decides.
    pub fn chain(self, next: Order) -> (r: Order)
        ensures
            r == self.chained(next),
    {
        match self {
            Order::Equal => next,
            _ => self,
        }
    }
}

/// A value that can be used to sort entries within a visit call.
///
/// Every sorter answers two questions, one blind to the depth of the entries and one aware of
/// it. The combinators answer each from the answers that their operands give to the same
/// question.
pub trait Sort: Sized {
    /// Whether this sorter can be called: what it wraps accepts every pair of entries and
    /// answers each in one way only.
    spec fn wf(&self) -> bool;

    /// How `lhs` stands to `rhs`, not accounting for depth.
    spec fn order(&self, lhs: (Seq<u8>, Metadata), rhs: (Seq<u8>, Metadata)) -> Order;

    /// How `lhs` stands to `rhs` at the given depth.
    spec fn depth_order(
        &self,
        lhs: (Seq<u8>, Metadata),
        rhs: (Seq<u8>, Metadata),
        depth: usize,
    ) -> Order;

    /// Returns the ordering that should be used to sort the given entries.
    fn sort(&self, lhs: (&[u8], &Metadata), rhs: (&[u8], &Metadata)) -> (r: Order)
        requires
            self.wf(),
        ensures
            r == self.order((lhs.0@, *lhs.1), (rhs.0@, *rhs.1)),
    ;

    /// Returns the ordering that should be used to sort the given entries, accounting for depth.
    fn depth_sort(&self, lhs: (&[u8], &Metadata), rhs: (&[u8], &Metadata), depth: usize) -> (r:
        Order)
        requires
            self.wf(),
        ensures
            r == self.depth_order((lhs.0@, *lhs.1), (rhs.0@, *rhs.1), depth),
    ;

    /// Reverses the order of this sorter.
    fn reverse(self) -> (r: Reverse<Self>)
        ensures
            r.0 == self,
    {
        Reverse(self)
    }
}

/// The combinator that takes a second operand, offered on every [`Sort`].
pub trait Chain: Sort {
    /// Chains this sorter with the given sorter in sequence, applying the second if the first
    /// returns [`Order::Equal`].
    fn then<U: Sort>(self, other: U) -> (r: Then<Self, U>)
        ensures
            r.0 == self,
            r.1 == other,
    ;
}

impl<T: Sort> Chain for T {
    fn then<U: Sort>(self, other: U) -> (r: Then<Self, U>) {
        Then(self, other)
    }
}

/// Considers all entries equal.
#[derive(Clone, Copy, Debug)]
pub struct Equal;

/// Sorts entries based on the given sort function.
#[derive(Clone, Debug)]
pub struct By<F>(pub F);

/// Sorts entries based on the given sort function, accounting for depth.
#[derive(Clone, Debug)]
pub struct DepthBy<F>(pub F);

/// Sorts entries in ascending order of a number drawn from each.
#[derive(Clone, Debug)]
pub struct Extract<F>(pub F);

/// Sorts entries in ascending order of a number drawn from each, where one can be drawn from
/// both.
#[derive(Clone, Debug)]
pub struct TryExtract<F>(pub F);

/// Sorts entries in ascending order of a number drawn from each, accounting for depth.
#[derive(Clone, Debug)]
pub struct DepthExtract<F>(pub F);

/// Reverses the order of the inner sorter.
#[derive(Clone, Debug)]
pub struct Reverse<T>(pub T);

/// Chains two sorters together in sequence, applying the second if the first returns
/// [`Order::Equal`].
#[derive(Clone, Debug)]
pub struct Then<T, U>(pub T, pub U);

/// Returns a sorter in which all entries are considered equal.
pub fn equal() -> Equal {
    Equal
}

/// Returns a sorter that sorts entries based on the given sort function.
pub fn by<F>(f: F) -> (r: By<F>) where F: Fn((&[u8], &Metadata), (&[u8], &Metadata)) -> Order
    ensures
        r.0 == f,
{
    By(f)
}

/// Returns a sorter that sorts entries based on the given sort function, accounting for depth.
pub fn depth_by<F>(f: F) -> (r: DepthBy<F>) where
    F: Fn((&[u8], &Metadata), (&[u8], &Metadata), usize) -> Order,

    ensures
        r.0 == f,
{
    DepthBy(f)
}

/// Returns a sorter that sorts entries in ascending order of the extracted number.
pub fn extract<F, T>(f: F) -> (r: Extract<F>) where F: Fn(&[u8], &Metadata) -> T, T: Ord
    ensures
        r.0 == f,
{
    Extract(f)
}

/// Returns a sorter that sorts entries in ascending order of the extracted number, and considers
/// two entries equal where the extraction fails for either.
pub fn try_extract<F, T>(f: F) -> (r: TryExtract<F>) where
    F: Fn(&[u8], &Metadata) -> Option<T>,
    T: Ord,

    ensures
        r.0 == f,
{
    TryExtract(f)
}

/// Returns a sorter that sorts entries in ascending order of the extracted number, accounting
/// for depth.
pub fn depth_extract<F, T>(f: F) -> (r: DepthExtract<F>) where
    F: Fn(&[u8], &Metadata, usize) -> T,
    T: Ord,

    ensures
        r.0 == f,
{
    DepthExtract(f)
}

/// How `lhs` stands to `rhs` by the order of their type.
pub open spec fn ascending<T: Ord>(lhs: T, rhs: T) -> Order {
    Order::standing_for(lhs.cmp_spec(&rhs))
}

/// Compares two keys by the order of their type.
pub fn compare_ascending<T: Ord>(lhs: &T, rhs: &T) -> (r: Order)
    requires
        T::obeys_cmp_spec(),
    ensures
        r == ascending(*lhs, *rhs),
{
    Order::of(lhs.cmp(rhs))
}

impl Sort for Equal {
    open spec fn wf(&self) -> bool {
        true
    }

    open spec fn order(&self, lhs: (Seq<u8>, Metadata), rhs: (Seq<u8>, Metadata)) -> Order {
        Order::Equal
    }

    open spec fn depth_order(
        &self,
        lhs: (Seq<u8>, Metadata),
        rhs: (Seq<u8>, Metadata),
        depth: usize,
    ) -> Order {
        Order::Equal
    }

    fn sort(&self, lhs: (&[u8], &Metadata), rhs: (&[u8], &Metadata)) -> (r: Order) {
        Order::Equal
    }

    fn depth_sort(&self, lhs: (&[u8], &Metadata), rhs: (&[u8], &Metadata), depth: usize) -> (r:
        Order) {
        Order::Equal
    }
}

impl<F> By<F> where F: Fn((&[u8], &Metadata), (&[u8], &Metadata)) -> Order {
    /// Whether the function may answer `o` for a pair that reads as `lhs` and `rhs`.
    pub open spec fn answers(
        &self,
        lhs: (Seq<u8>, Metadata),
        rhs: (Seq<u8>, Metadata),
        o: Order,
    ) -> bool {
        exists|l: (&[u8], &Metadata), r: (&[u8], &Metadata)|
            #![trigger call_ensures(self.0, (l, r), o)]
            l.0@ == lhs.0 && *l.1 == lhs.1 && r.0@ == rhs.0 && *r.1 == rhs.1 && call_ensures(
                self.0,
                (l, r),
                o,
            )
    }
}

impl<F> Sort for By<F> where F: Fn((&[u8], &Metadata), (&[u8], &Metadata)) -> Order {
    /// The function takes every pair of entries, and pairs that read the same get the same
    /// answer.
    open spec fn wf(&self) -> bool {
        &&& forall|l: (&[u8], &Metadata), r: (&[u8], &Metadata)| #[trigger]
            call_requires(self.0, (l, r))
        &&& forall|
            l: (&[u8], &Metadata),
            r: (&[u8], &Metadata),
            m: (&[u8], &Metadata),
            s: (&[u8], &Metadata),
            a: Order,
            b: Order,
        |
            #![trigger call_ensures(self.0, (l, r), a), call_ensures(self.0, (m, s), b)]
            call_ensures(self.0, (l, r), a) && call_ensures(self.0, (m, s), b) && l.0@ == m.0@
                && *l.1 == *m.1 && r.0@ == s.0@ && *r.1 == *s.1 ==> a == b
    }

    open spec fn order(&self, lhs: (Seq<u8>, Metadata), rhs: (Seq<u8>, Metadata)) -> Order {
        if self.answers(lhs, rhs, Order::Less) {
            Order::Less
        } else if self.answers(lhs, rhs, Order::Greater) {
            Order::Greater
        } else {
            Order::Equal
        }
    }

    open spec fn depth_order(
        &self,
        lhs: (Seq<u8>, Metadata),
        rhs: (Seq<u8>, Metadata),
        depth: usize,
    ) -> Order {
        self.order(lhs, rhs)
    }

    fn sort(&self, lhs: (&[u8], &Metadata), rhs: (&[u8], &Metadata)) -> (r: Order) {
        (self.0)(lhs, rhs)
    }

    fn depth_sort(&self, lhs: (&[u8], &Metadata), rhs: (&[u8], &Metadata), depth: usize) -> (r:
        Order) {
        self.sort(lhs, rhs)
    }
}

impl<F> DepthBy<F> where F: Fn((&[u8], &Metadata), (&[u8], &Metadata), usize) -> Order {
    /// Whether the function may answer `o` at `depth` for a pair that reads as `lhs` and `rhs`.
    pub open spec fn answers(
        &self,
        lhs: (Seq<u8>, Metadata),
        rhs: (Seq<u8>, Metadata),
        depth: usize,
        o: Order,
    ) -> bool {
        exists|l: (&[u8], &Metadata), r: (&[u8], &Metadata)|
            #![trigger call_ensures(self.0, (l, r, depth), o)]
            l.0@ == lhs.0 && *l.1 == lhs.1 && r.0@ == rhs.0 && *r.1 == rhs.1 && call_ensures(
                self.0,
                (l, r, depth),
                o,
            )
    }
}

impl<F> Sort for DepthBy<F> where F: Fn((&[u8], &Metadata), (&[u8], &Metadata), usize) -> Order {
    /// The function takes every pair of entries at every depth, and pairs that read the same get
    /// the same answer at the same depth.
    open spec fn wf(&self) -> bool {
        &&& forall|l: (&[u8], &Metadata), r: (&[u8], &Metadata), n: usize| #[trigger]
            call_requires(self.0, (l, r, n))
        &&& forall|
            l: (&[u8], &Metadata),
            r: (&[u8], &Metadata),
            m: (&[u8], &Metadata),
            s: (&[u8], &Metadata),
            n: usize,
            a: Order,
            b: Order,
        |
            #![trigger call_ensures(self.0, (l, r, n), a), call_ensures(self.0, (m, s, n), b)]
            call_ensures(self.0, (l, r, n), a) && call_ensures(self.0, (m, s, n), b) && l.0@
                == m.0@ && *l.1 == *m.1 && r.0@ == s.0@ && *r.1 == *s.1 ==> a == b
    }

    open spec fn order(&self, lhs: (Seq<u8>, Metadata), rhs: (Seq<u8>, Metadata)) -> Order {
        self.depth_order(lhs, rhs, 0)
    }

    open spec fn depth_order(
        &self,
        lhs: (Seq<u8>, Metadata),
        rhs: (Seq<u8>, Metadata),
        depth: usize,
    ) -> Order {
        if self.answers(lhs, rhs, depth, Order::Less) {
            Order::Less
        } else if self.answers(lhs, rhs, depth, Order::Greater) {
            Order::Greater
        } else {
            Order::Equal
        }
    }

    fn sort(&self, lhs: (&[u8], &Metadata), rhs: (&[u8], &Metadata)) -> (r: Order) {
        self.depth_sort(lhs, rhs, 0)
    }

    fn depth_sort(&self, lhs: (&[u8], &Metadata), rhs: (&[u8], &Metadata), depth: usize) -> (r:
        Order) {
        (self.0)(lhs, rhs, depth)
    }
}

impl<F, T> Extract<F> where F: Fn(&[u8], &Metadata) -> T, T: Ord {
    /// Whether the function may draw `key` from an entry that reads as `entry`.
    pub open spec fn draws(&self, entry: (Seq<u8>, Metadata), key: T) -> bool {
        exists|p: &[u8], d: &Metadata|
            #![trigger call_ensures(self.0, (p, d), key)]
            p@ == entry.0 && *d == entry.1 && call_ensures(self.0, (p, d), key)
    }

    /// The key of an entry that reads as `entry`.
    pub open spec fn key(&self, entry: (Seq<u8>, Metadata)) -> T {
        choose|key: T| self.draws(entry, key)
    }
}

impl<F, T> Sort for Extract<F> where F: Fn(&[u8], &Metadata) -> T, T: Ord {
    /// The keys are ordered as their type says, the function takes every entry, and entries that
    /// read the same get the same key.
    open spec fn wf(&self) -> bool {
        &&& T::obeys_cmp_spec()
        &&& forall|p: &[u8], d: &Metadata| #[trigger] call_requires(self.0, (p, d))
        &&& forall|p: &[u8], d: &Metadata, q: &[u8], e: &Metadata, a: T, b: T|
            #![trigger call_ensures(self.0, (p, d), a), call_ensures(self.0, (q, e), b)]
            call_ensures(self.0, (p, d), a) && call_ensures(self.0, (q, e), b) && p@ == q@ && *d
                == *e ==> a == b
    }

    open spec fn order(&self, lhs: (Seq<u8>, Metadata), rhs: (Seq<u8>, Metadata)) -> Order {
        ascending(self.key(lhs), self.key(rhs))
    }

    open spec fn depth_order(
        &self,
        lhs: (Seq<u8>, Metadata),
        rhs: (Seq<u8>, Metadata),
        depth: usize,
    ) -> Order {
        self.order(lhs, rhs)
    }

    fn sort(&self, lhs: (&[u8], &Metadata), rhs: (&[u8], &Metadata)) -> (r: Order) {
        let left = (self.0)(lhs.0, lhs.1);
        let right = (self.0)(rhs.0, rhs.1);
        proof {
            assert(self.draws((lhs.0@, *lhs.1), left));
            assert(self.draws((rhs.0@, *rhs.1), right));
        }
        compare_ascending(&left, &right)
    }

    fn depth_sort(&self, lhs: (&[u8], &Metadata), rhs: (&[u8], &Metadata), depth: usize) -> (r:
        Order) {
        self.sort(lhs, rhs)
    }
}

impl<F, T> TryExtract<F> where F: Fn(&[u8], &Metadata) -> Option<T>, T: Ord {
    /// Whether the function may answer `key` for an entry that reads as `entry`.
    pub open spec fn draws(&self, entry: (Seq<u8>, Metadata), key: Option<T>) -> bool {
        exists|p: &[u8], d: &Metadata|
            #![trigger call_ensures(self.0, (p, d), key)]
            p@ == entry.0 && *d == entry.1 && call_ensures(self.0, (p, d), key)
    }

    /// The key of an entry that reads as `entry`, or `None` where none can be drawn.
    pub open spec fn key(&self, entry: (Seq<u8>, Metadata)) -> Option<T> {
        choose|key: Option<T>| self.draws(entry, key)
    }
}

impl<F, T> Sort for TryExtract<F> where F: Fn(&[u8], &Metadata) -> Option<T>, T: Ord {
    /// The keys are ordered as their type says, the function takes every entry, and entries that
    /// read the same get the same answer.
    open spec fn wf(&self) -> bool {
        &&& T::obeys_cmp_spec()
        &&& forall|p: &[u8], d: &Metadata| #[trigger] call_requires(self.0, (p, d))
        &&& forall|p: &[u8], d: &Metadata, q: &[u8], e: &Metadata, a: Option<T>, b: Option<T>|
            #![trigger call_ensures(self.0, (p, d), a), call_ensures(self.0, (q, e), b)]
            call_ensures(self.0, (p, d), a) && call_ensures(self.0, (q, e), b) && p@ == q@ && *d
                == *e ==> a == b
    }

    /// Ascending by key where both entries have one; `Equal` as soon as either has none.
    open spec fn order(&self, lhs: (Seq<u8>, Metadata), rhs: (Seq<u8>, Metadata)) -> Order {
        match (self.key(lhs), self.key(rhs)) {
            (Some(left), Some(right)) => ascending(left, right),
            _ => Order::Equal,
        }
    }

    open spec fn depth_order(
        &self,
        lhs: (Seq<u8>, Metadata),
        rhs: (Seq<u8>, Metadata),
        depth: usize,
    ) -> Order {
        self.order(lhs, rhs)
    }

    fn sort(&self, lhs: (&[u8], &Metadata), rhs: (&[u8], &Metadata)) -> (r: Order) {
        let left = (self.0)(lhs.0, lhs.1);
        let right = (self.0)(rhs.0, rhs.1);
        proof {
            assert(self.draws((lhs.0@, *lhs.1), left));
            assert(self.draws((rhs.0@, *rhs.1), right));
        }
        match (left, right) {
            (Some(left), Some(right)) => compare_ascending(&left, &right),
            _ => Order::Equal,
        }
    }

    fn depth_sort(&self, lhs: (&[u8], &Metadata), rhs: (&[u8], &Metadata), depth: usize) -> (r:
        Order) {
        self.sort(lhs, rhs)
    }
}

impl<F, T> DepthExtract<F> where F: Fn(&[u8], &Metadata, usize) -> T, T: Ord {
    /// Whether the function may draw `key` at `depth` from an entry that reads as `entry`.
    pub open spec fn draws(&self, entry: (Seq<u8>, Metadata), depth: usize, key: T) -> bool {
        exists|p: &[u8], d: &Metadata|
            #![trigger call_ensures(self.0, (p, d, depth), key)]
            p@ == entry.0 && *d == entry.1 && call_ensures(self.0, (p, d, depth), key)
    }

    /// The key at `depth` of an entry that reads as `entry`.
    pub open spec fn key(&self, entry: (Seq<u8>, Metadata), depth: usize) -> T {
        choose|key: T| self.draws(entry, depth, key)
    }
}

impl<F, T> Sort for DepthExtract<F> where F: Fn(&[u8], &Metadata, usize) -> T, T: Ord {
    /// The keys are ordered as their type says, the function takes every entry at every depth,
    /// and entries that read the same get the same key at the same depth.
    open spec fn wf(&self) -> bool {
        &&& T::obeys_cmp_spec()
        &&& forall|p: &[u8], d: &Metadata, n: usize| #[trigger] call_requires(self.0, (p, d, n))
        &&& forall|p: &[u8], d: &Metadata, q: &[u8], e: &Metadata, n: usize, a: T, b: T|
            #![trigger call_ensures(self.0, (p, d, n), a), call_ensures(self.0, (q, e, n), b)]
            call_ensures(self.0, (p, d, n), a) && call_ensures(self.0, (q, e, n), b) && p@ == q@
                && *d == *e ==> a == b
    }

    open spec fn order(&self, lhs: (Seq<u8>, Metadata), rhs: (Seq<u8>, Metadata)) -> Order {
        self.depth_order(lhs, rhs, 0)
    }

    open spec fn depth_order(
        &self,
        lhs: (Seq<u8>, Metadata),
        rhs: (Seq<u8>, Metadata),
        depth: usize,
    ) -> Order {
        ascending(self.key(lhs, depth), self.key(rhs, depth))
    }

    fn sort(&self, lhs: (&[u8], &Metadata), rhs: (&[u8], &Metadata)) -> (r: Order) {
        self.depth_sort(lhs, rhs, 0)
    }

    fn depth_sort(&self, lhs: (&[u8], &Metadata), rhs: (&[u8], &Metadata), depth: usize) -> (r:
        Order) {
        let left = (self.0)(lhs.0, lhs.1, depth);
        let right = (self.0)(rhs.0, rhs.1, depth);
        proof {
            assert(self.draws((lhs.0@, *lhs.1), depth, left));
            assert(self.draws((rhs.0@, *rhs.1), depth, right));
        }
        compare_ascending(&left, &right)
    }
}

impl<T: Sort> Sort for Reverse<T> {
    open spec fn wf(&self) -> bool {
        self.0.wf()
    }

    open spec fn order(&self, lhs: (Seq<u8>, Metadata), rhs: (Seq<u8>, Metadata)) -> Order {
        self.0.order(lhs, rhs).reversed()
    }

    open spec fn depth_order(
        &self,
        lhs: (Seq<u8>, Metadata),
        rhs: (Seq<u8>, Metadata),
        depth: usize,
    ) -> Order {
        self.0.depth_order(lhs, rhs, depth).reversed()
    }

    fn sort(&self, lhs: (&[u8], &Metadata), rhs: (&[u8], &Metadata)) -> (r: Order) {
        self.0.sort(lhs, rhs).reverse()
    }

    fn depth_sort(&self, lhs: (&[u8], &Metadata), rhs: (&[u8], &Metadata), depth: usize) -> (r:
        Order) {
        self.0.depth_sort(lhs, rhs, depth).reverse()
    }
}

impl<T: Sort, U: Sort> Sort for Then<T, U> {
    open spec fn wf(&self) -> bool {
        self.0.wf() && self.1.wf()
    }

    open spec fn order(&self, lhs: (Seq<u8>, Metadata), rhs: (Seq<u8>, Metadata)) -> Order {
        self.0.order(lhs, rhs).chained(self.1.order(lhs, rhs))
    }

    open spec fn depth_order(
        &self,
        lhs: (Seq<u8>, Metadata),
        rhs: (Seq<u8>, Metadata),
        depth: usize,
    ) -> Order {
        self.0.depth_order(lhs, rhs, depth).chained(self.1.depth_order(lhs, rhs, depth))
    }

    fn sort(&self, lhs: (&[u8], &Metadata), rhs: (&[u8], &Metadata)) -> (r: Order) {
        match self.0.sort(lhs, rhs) {
            Order::Equal => self.1.sort(lhs, rhs),
            first => first,
        }
    }

    fn depth_sort(&self, lhs: (&[u8], &Metadata), rhs: (&[u8], &Metadata), depth: usize) -> (r:
        Order) {
        match self.0.depth_sort(lhs, rhs, depth) {
            Order::Equal => self.1.depth_sort(lhs, rhs, depth),
            first => first,
        }
    }
}


/// Reversing a sorter twice gives back the sorter's own answers: at every pair of entries, blind
/// to depth and at every depth.
pub proof fn lemma_reverse_reverse<S: Sort>(
    sorter: S,
    lhs: (Seq<u8>, Metadata),
    rhs: (Seq<u8>, Metadata),
    depth: usize,
)
    ensures
        Reverse(Reverse(sorter)).order(lhs, rhs) == sorter.order(lhs, rhs),
        Reverse(Reverse(sorter)).depth_order(lhs, rhs, depth) == sorter.depth_order(
            lhs,
            rhs,
            depth,
        ),
{
}

/// Chaining is associative: however three sorters are grouped, the chain answers alike at every
/// pair of entries, blind to depth and at every depth.
pub proof fn lemma_then_associative<A: Sort, B: Sort, C: Sort>(
    a: A,
    b: B,
    c: C,
    lhs: (Seq<u8>, Metadata),
    rhs: (Seq<u8>, Metadata),
    depth: usize,
)
    ensures
        Then(Then(a, b), c).order(lhs, rhs) == Then(a, Then(b, c)).order(lhs, rhs),
        Then(Then(a, b), c).depth_order(lhs, rhs, depth) == Then(a, Then(b, c)).depth_order(
            lhs,
            rhs,
            depth,
        ),
{
}

/// The sorter that considers all entries equal is the identity of chaining, on either side.
pub proof fn lemma_equal_identity<S: Sort>(
    sorter: S,
    lhs: (Seq<u8>, Metadata),
    rhs: (Seq<u8>, Metadata),
    depth: usize,
)
    ensures
        Then(Equal, sorter).order(lhs, rhs) == sorter.order(lhs, rhs),
        Then(sorter, Equal).order(lhs, rhs) == sorter.order(lhs, rhs),
        Then(Equal, sorter).depth_order(lhs, rhs, depth) == sorter.depth_order(lhs, rhs, depth),
        Then(sorter, Equal).depth_order(lhs, rhs, depth) == sorter.depth_order(lhs, rhs, depth),
{
}

} // verus!
