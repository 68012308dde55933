//! Questions asked of text, item by item.

use vstd::prelude::*;

verus! {

/// Whether `at` is the first place where the item stands in the text.
pub open spec fn first_at<T>(text: Seq<T>, wanted: T, at: int) -> bool {
    &&& 0 <= at < text.len()
    &&& text[at] == wanted
    &&& forall|before: int| 0 <= before < at ==> text[before] != wanted
}

/// The first place where the item stands in the text, if it stands anywhere.
pub open spec fn first<T>(text: Seq<T>, wanted: T) -> Option<int> {
    if exists|at: int| first_at(text, wanted, at) {
        Some(choose|at: int| first_at(text, wanted, at))
    } else {
        None
    }
}

/// There is one first place at most.
pub proof fn lemma_first_at<T>(text: Seq<T>, wanted: T, at: int)
    requires
        first_at(text, wanted, at),
    ensures
        first(text, wanted) == Some(at),
{
    let chosen = choose|at: int| first_at(text, wanted, at);
    assert(first_at(text, wanted, chosen));
    if chosen < at {
        assert(text[chosen] != wanted);
    } else if at < chosen {
        assert(text[at] != wanted);
    }
}

/// Returns `true` if the two texts hold the same characters.
pub fn same(left: &str, right: &str) -> (r: bool)
    ensures
        r == (left@ == right@),
{
    let length = left.unicode_len();
    if length != right.unicode_len() {
        return false;
    }
    let mut i: usize = 0;
    while i < length
        invariant
            length == left@.len(),
            length == right@.len(),
            i <= length,
            forall|k: int| 0 <= k < i ==> left@[k] == right@[k],
        decreases length - i,
    {
        if left.get_char(i) != right.get_char(i) {
            return false;
        }
        i = i + 1;
    }
    assert(left@ =~= right@);
    true
}

/// Returns `true` if the text begins with the prefix.
pub fn begins_with(text: &str, prefix: &str) -> (r: bool)
    ensures
        r == prefix@.is_prefix_of(text@),
{
    let length = prefix.unicode_len();
    if length > text.unicode_len() {
        return false;
    }
    let mut i: usize = 0;
    while i < length
        invariant
            length == prefix@.len(),
            length <= text@.len(),
            i <= length,
            forall|k: int| 0 <= k < i ==> prefix@[k] == text@[k],
        decreases length - i,
    {
        if prefix.get_char(i) != text.get_char(i) {
            assert(prefix@[i as int] != text@.subrange(0, prefix@.len() as int)[i as int]);
            return false;
        }
        i = i + 1;
    }
    assert(prefix@ =~= text@.subrange(0, prefix@.len() as int));
    true
}

/// Returns the first place where the character stands in the text.
pub fn find(text: &str, wanted: char) -> (r: Option<usize>)
    ensures
        match r {
            Some(at) => first(text@, wanted) == Some(at as int),
            None => first(text@, wanted) is None,
        },
{
    let length = text.unicode_len();
    let mut i: usize = 0;
    while i < length
        invariant
            length == text@.len(),
            i <= length,
            forall|k: int| 0 <= k < i ==> text@[k] != wanted,
        decreases length - i,
    {
        if text.get_char(i) == wanted {
            proof {
                lemma_first_at(text@, wanted, i as int);
            }
            return Some(i);
        }
        i = i + 1;
    }
    None
}

/// Returns the first place where the byte stands among the bytes.
pub fn find_byte(text: &[u8], wanted: u8) -> (r: Option<usize>)
    ensures
        match r {
            Some(at) => first(text@, wanted) == Some(at as int),
            None => first(text@, wanted) is None,
        },
{
    let mut i: usize = 0;
    while i < text.len()
        invariant
            i <= text@.len(),
            forall|k: int| 0 <= k < i ==> text@[k] != wanted,
        decreases text@.len() - i,
    {
        if text[i] == wanted {
            proof {
                lemma_first_at(text@, wanted, i as int);
            }
            return Some(i);
        }
        i = i + 1;
    }
    None
}

} // verus!
