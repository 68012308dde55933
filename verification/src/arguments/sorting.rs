//! Reads the orders that `--sort` takes.

use vstd::prelude::*;

use crate::arguments::model::SortOrder;
use crate::arguments::text::{begins_with, same};

verus! {

/// The prefix that reverses an order.
pub open spec fn reversal() -> Seq<char> {
    "reverse-"@
}

/// The texts between the commas of a text: one more than there are commas.
pub open spec fn pieces(text: Seq<char>) -> Seq<Seq<char>>
    decreases text.len(),
{
    if text.len() == 0 {
        seq![Seq::empty()]
    } else {
        let before = pieces(text.drop_last());
        if text.last() == ',' {
            before.push(Seq::empty())
        } else {
            before.drop_last().push(before.last().push(text.last()))
        }
    }
}

/// The text without the reversals that it begins with, however many.
pub open spec fn stripped(piece: Seq<char>) -> Seq<char>
    decreases piece.len(),
{
    if reversal().len() == 8 && reversal().is_prefix_of(piece) {
        stripped(piece.skip(8))
    } else {
        piece
    }
}

/// The order that the text names.
pub open spec fn order_named(text: Seq<char>) -> Option<SortOrder> {
    if text == "name"@ {
        Some(SortOrder::Name)
    } else if text == "accessed"@ {
        Some(SortOrder::Accessed)
    } else if text == "created"@ {
        Some(SortOrder::Created)
    } else if text == "modified"@ {
        Some(SortOrder::Modified)
    } else if text == "size"@ {
        Some(SortOrder::Size)
    } else if text == "files"@ {
        Some(SortOrder::Files)
    } else if text == "symlinks"@ {
        Some(SortOrder::Symlinks)
    } else if text == "directories"@ {
        Some(SortOrder::Directories)
    } else if text == "hidden"@ {
        Some(SortOrder::Hidden)
    } else {
        None
    }
}

/// The order that one piece asks for: the order named behind its reversals, reversed once if
/// there is any reversal.
pub open spec fn criterion(piece: Seq<char>) -> Option<SortOrder> {
    match order_named(stripped(piece)) {
        Some(order) => Some(
            if reversal().is_prefix_of(piece) {
                order.turned()
            } else {
                order
            },
        ),
        None => None,
    }
}

/// The order once one more is asked for. It is chained to the right of what was asked for so
/// far. Asked for twice in a row, it stands alone and what was asked for before is dropped.
pub open spec fn appended(sorting: Option<SortOrder>, next: SortOrder) -> SortOrder {
    match sorting {
        Some(current) => if current.last() == next {
            next
        } else {
            SortOrder::Then(Box::new((current, next)))
        },
        None => next,
    }
}

/// What the pieces ask for, read from left to right: the order where every piece names one; at
/// the first piece that names none, the order up to there and the name that is not known.
pub open spec fn assembled(all: Seq<Seq<char>>) -> Result<
    Option<SortOrder>,
    (Option<SortOrder>, Seq<char>),
>
    decreases all.len(),
{
    if all.len() == 0 {
        Ok(None)
    } else {
        match assembled(all.drop_last()) {
            Ok(sorting) => match criterion(all.last()) {
                Some(next) => Ok(Some(appended(sorting, next))),
                None => Err((sorting, stripped(all.last()))),
            },
            Err(stop) => Err(stop),
        }
    }
}

/// Returns the text without the reversals that it begins with.
pub fn strip(piece: &str) -> (r: &str)
    ensures
        r@ == stripped(piece@),
{
    proof {
        reveal_strlit("reverse-");
    }
    let mut rest = piece;
    while begins_with(rest, "reverse-")
        invariant
            "reverse-"@.len() == 8,
            stripped(rest@) == stripped(piece@),
        decreases rest@.len(),
    {
        let length = rest.unicode_len();
        let next = rest.substring_char(8, length);
        assert(next@ =~= rest@.skip(8));
        rest = next;
    }
    rest
}

/// Returns the order that the text names.
pub fn order_of(text: &str) -> (r: Option<SortOrder>)
    ensures
        r == order_named(text@),
{
    if same(text, "name") {
        Some(SortOrder::Name)
    } else if same(text, "accessed") {
        Some(SortOrder::Accessed)
    } else if same(text, "created") {
        Some(SortOrder::Created)
    } else if same(text, "modified") {
        Some(SortOrder::Modified)
    } else if same(text, "size") {
        Some(SortOrder::Size)
    } else if same(text, "files") {
        Some(SortOrder::Files)
    } else if same(text, "symlinks") {
        Some(SortOrder::Symlinks)
    } else if same(text, "directories") {
        Some(SortOrder::Directories)
    } else if same(text, "hidden") {
        Some(SortOrder::Hidden)
    } else {
        None
    }
}

/// Returns the order once one more is asked for.
pub fn append(sorting: Option<SortOrder>, next: SortOrder) -> (r: SortOrder)
    ensures
        r == appended(sorting, next),
{
    match sorting {
        Some(current) => {
            if current.top().matches(&next) {
                next
            } else {
                SortOrder::Then(Box::new((current, next)))
            }
        },
        None => next,
    }
}

/// What the texts read as, one by one.
pub open spec fn views(texts: Seq<&str>) -> Seq<Seq<char>> {
    Seq::new(texts.len(), |i: int| texts[i]@)
}

/// Splits a text at its commas.
pub fn split<'a>(text: &'a str) -> (all: Vec<&'a str>)
    ensures
        views(all@) == pieces(text@),
{
    let length = text.unicode_len();
    let mut all: Vec<&'a str> = Vec::new();
    let mut start: usize = 0;
    let mut i: usize = 0;
    proof {
        assert(text@.take(0) =~= Seq::<char>::empty());
        assert(text@.subrange(0, 0) =~= Seq::<char>::empty());
        assert(views(all@).push(Seq::<char>::empty()) =~= seq![Seq::<char>::empty()]);
    }
    while i < length
        invariant
            length == text@.len(),
            start <= i <= length,
            pieces(text@.take(i as int)) == views(all@).push(
                text@.subrange(start as int, i as int),
            ),
        decreases length - i,
    {
        let ghost before = views(all@);
        let ghost open = text@.subrange(start as int, i as int);
        proof {
            let next = text@.take(i + 1);
            assert(next.drop_last() =~= text@.take(i as int));
            assert(next.last() == text@[i as int]);
            assert(before.push(open).drop_last() =~= before);
        }
        if text.get_char(i) == ',' {
            let piece = text.substring_char(start, i);
            all.push(piece);
            start = i + 1;
            proof {
                assert(views(all@) =~= before.push(open));
                assert(text@.subrange(start as int, i + 1) =~= Seq::<char>::empty());
            }
        } else {
            proof {
                assert(text@.subrange(start as int, i + 1) =~= open.push(text@[i as int]));
            }
        }
        i = i + 1;
    }
    let ghost before = views(all@);
    let piece = text.substring_char(start, length);
    all.push(piece);
    proof {
        assert(text@.take(i as int) =~= text@);
        assert(views(all@) =~= before.push(piece@));
    }
    all
}

/// Reads the orders that a text asks for, one between each two commas.
///
/// Gives the order where every piece names one. At the first piece that names none, gives
/// the order up to there and the name that is not known.
pub fn assemble<'a>(text: &'a str) -> (r: Result<Option<SortOrder>, (Option<SortOrder>, &'a str)>)
    ensures
        match r {
            Ok(sorting) => assembled(pieces(text@)) == Ok::<
                Option<SortOrder>,
                (Option<SortOrder>, Seq<char>),
            >(sorting),
            Err((sorting, name)) => assembled(pieces(text@)) == Err::<
                Option<SortOrder>,
                (Option<SortOrder>, Seq<char>),
            >((sorting, name@)),
        },
{
    proof {
        reveal_strlit("reverse-");
    }
    let all = split(text);
    let ghost read = views(all@);
    let mut sorting: Option<SortOrder> = None;
    let mut k: usize = 0;
    assert(read.take(0) =~= Seq::<Seq<char>>::empty());
    while k < all.len()
        invariant
            read == views(all@),
            read == pieces(text@),
            k <= all@.len(),
            assembled(read.take(k as int)) == Ok::<
                Option<SortOrder>,
                (Option<SortOrder>, Seq<char>),
            >(sorting),
        decreases all@.len() - k,
    {
        let piece = all[k];
        let name = strip(piece);
        proof {
            let more = read.take(k + 1);
            assert(more.drop_last() =~= read.take(k as int));
            assert(more.last() == piece@);
        }
        match order_of(name) {
            Some(order) => {
                let next = if begins_with(piece, "reverse-") {
                    order.reverse()
                } else {
                    order
                };
                sorting = Some(append(sorting, next));
            },
            None => {
                proof {
                    lemma_stops(read.take(k + 1), read, sorting, name@);
                }
                return Err((sorting, name));
            },
        }
        k = k + 1;
    }
    assert(read.take(k as int) =~= read);
    Ok(sorting)
}

/// The failure of the first pieces is the failure of all.
pub proof fn lemma_stops(
    some: Seq<Seq<char>>,
    all: Seq<Seq<char>>,
    sorting: Option<SortOrder>,
    name: Seq<char>,
)
    requires
        some.len() <= all.len(),
        some == all.take(some.len() as int),
        assembled(some) == Err::<Option<SortOrder>, (Option<SortOrder>, Seq<char>)>(
            (sorting, name),
        ),
    ensures
        assembled(all) == Err::<Option<SortOrder>, (Option<SortOrder>, Seq<char>)>(
            (sorting, name),
        ),
    decreases all.len() - some.len(),
{
    if some.len() == all.len() {
        assert(all.take(some.len() as int) =~= all);
    } else {
        let more = all.take(some.len() as int + 1);
        assert(more.drop_last() =~= some);
        lemma_stops(more, all, sorting, name);
    }
}

} // verus!
