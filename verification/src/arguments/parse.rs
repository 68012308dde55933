//! Implements command-line argument parsing.

use std::fmt::Debug;

use vstd::prelude::*;
use vstd::slice::slice_subrange;

use crate::arguments::text::{find, find_byte, first};

verus! {

/// A value that can be parsed as an argument by a [`Parser<A>`].
///
/// The four questions are asked of what the value reads as, its view. An implementation says in
/// the `spec` functions what the answers are and gives them in the others.
pub trait ArgumentLike: Copy + Debug + Eq + View {
    /// The type used to represent a short argument (i.e., `-h`).
    type Short: Copy + Debug + Eq;

    /// How much text there is: what is left of a cluster once a short argument is taken off
    /// has less.
    spec fn extent(text: Self::V) -> nat;

    /// Whether the text is the closing argument, `--`.
    spec fn closing(text: Self::V) -> bool;

    /// The name of the long argument that the text spells, and the value assigned to it.
    spec fn long(text: Self::V) -> Option<(Self::V, Option<Self::V>)>;

    /// The cluster of short arguments that the text spells.
    spec fn cluster(text: Self::V) -> Option<Self::V>;

    /// The first short argument of a cluster, and what is left of the cluster.
    spec fn short(text: Self::V) -> Option<(Self::Short, Option<Self::V>)>;

    /// Returns `true` if this value represents a "closing argument".
    ///
    /// For example, if the value `--` is passed, all further arguments are interpreted as
    /// positional.
    fn is_closing_argument(self) -> (r: bool)
        ensures
            r == Self::closing(self@),
    ;

    /// Returns this value as a long-form argument if applicable (i.e., `--help` or
    /// `--color=always`).
    fn as_long_argument(self) -> (r: Option<(Self, Option<Self>)>)
        ensures
            match r {
                Some((name, Some(value))) => Self::long(self@) == Some((name@, Some(value@))),
                Some((name, None)) => Self::long(self@) == Some((name@, None::<Self::V>)),
                None => Self::long(self@) is None,
            },
    ;

    /// Returns this value as a short-form cluster if applicable (i.e., `-h` or `-abcd`).
    fn as_short_cluster(self) -> (r: Option<Self>)
        ensures
            match r {
                Some(cluster) => Self::cluster(self@) == Some(cluster@),
                None => Self::cluster(self@) is None,
            },
    ;

    /// Returns a short-form argument from this value, assuming that it is a cluster.
    ///
    /// This should only be called on the value returned by
    /// [`ArgumentLike::as_short_cluster`].
    fn as_short_argument(self) -> (r: Option<(Self::Short, Option<Self>)>)
        ensures
            match r {
                Some((short, Some(rest))) => Self::short(self@) == Some((short, Some(rest@)))
                    && Self::extent(rest@) < Self::extent(self@),
                Some((short, None)) => Self::short(self@) == Some((short, None::<Self::V>)),
                None => Self::short(self@) is None,
            },
    ;
}

/// A non-positional argument returned by a [`Parser<A>`].
#[derive(Clone, Copy, Debug, PartialEq, Eq)]
pub enum Parameter<A: ArgumentLike> {
    /// A short-form argument, such as `-h` or `-V`.
    Short(A::Short),
    /// A long-form argument, such as `--help` or `--color`.
    Long(A),
}

/// An argument returned by a [`Parser<A>`].
#[derive(Clone, Copy, Debug, PartialEq, Eq)]
pub enum Argument<A: ArgumentLike> {
    /// A short-form argument, such as `-h` or `-V`.
    Short(A::Short),
    /// A long-form argument, such as `--help` or `--color`.
    Long(A),
    /// A positional argument, such as `./path/to/file` or `any-other-string`.
    Positional(A),
}

/// An error that may be returned while parsing command-line arguments.
#[derive(Clone, Copy, Debug, PartialEq, Eq)]
pub enum Error<A: ArgumentLike> {
    /// Returned by the parser if a cluster does not contain any arguments.
    EmptyCluster,
    /// Returned by the parser if a value is attempted to be retrieved with no prior argument.
    MissingAssignedArgument,
    /// Returned by the parser if a non-positional argument was ignored.
    SkippedNonPositional,
    /// Returned by the parser if an argument's value was ignored.
    SkippedValue(Argument<A>),
}

/// Where a [`Parser<A>`] stands between two calls.
#[derive(Clone, Copy, Debug, PartialEq, Eq)]
pub enum ParserState<A: ArgumentLike> {
    /// Nothing is pending. Once the arguments are closed, all that follows is positional.
    Start { arguments_closed: bool },
    /// An argument was returned that may take the next value.
    Ready(Argument<A>),
    /// An argument was returned together with a value assigned to it.
    HasValue(Argument<A>, A),
    /// A short argument was returned and more of its cluster is left.
    HasCluster(Argument<A>, A),
    /// A positional argument was read and not yet returned.
    HasPositional(A),
    /// The arguments are used up.
    Finished { arguments_closed: bool },
}

/// An argument, as what it reads as.
pub ghost enum Token<A: ArgumentLike> {
    /// A short-form argument.
    Short(A::Short),
    /// A long-form argument.
    Long(A::V),
    /// A positional argument.
    Positional(A::V),
}

/// An error, as what it reads as.
pub ghost enum Fault<A: ArgumentLike> {
    /// A cluster does not contain any arguments.
    EmptyCluster,
    /// A value was asked for with no prior argument.
    MissingAssignedArgument,
    /// A non-positional argument was ignored.
    SkippedNonPositional,
    /// An argument's value was ignored.
    SkippedValue(Token<A>),
}

/// A parser's state, as what it reads as.
pub ghost enum Stage<A: ArgumentLike> {
    /// Nothing is pending.
    Start { arguments_closed: bool },
    /// An argument was returned that may take the next value.
    Ready(Token<A>),
    /// An argument was returned together with a value assigned to it.
    HasValue(Token<A>, A::V),
    /// A short argument was returned and more of its cluster is left.
    HasCluster(Token<A>, A::V),
    /// A positional argument was read and not yet returned.
    HasPositional(A::V),
    /// The arguments are used up.
    Finished { arguments_closed: bool },
}

impl<A: ArgumentLike> View for Parameter<A> {
    type V = Token<A>;

    open spec fn view(&self) -> Token<A> {
        match self {
            Parameter::Short(short) => Token::Short(*short),
            Parameter::Long(name) => Token::Long(name@),
        }
    }
}

impl<A: ArgumentLike> View for Argument<A> {
    type V = Token<A>;

    open spec fn view(&self) -> Token<A> {
        match self {
            Argument::Short(short) => Token::Short(*short),
            Argument::Long(name) => Token::Long(name@),
            Argument::Positional(value) => Token::Positional(value@),
        }
    }
}

impl<A: ArgumentLike> View for Error<A> {
    type V = Fault<A>;

    open spec fn view(&self) -> Fault<A> {
        match self {
            Error::EmptyCluster => Fault::EmptyCluster,
            Error::MissingAssignedArgument => Fault::MissingAssignedArgument,
            Error::SkippedNonPositional => Fault::SkippedNonPositional,
            Error::SkippedValue(argument) => Fault::SkippedValue(argument@),
        }
    }
}

impl<A: ArgumentLike> View for ParserState<A> {
    type V = Stage<A>;

    open spec fn view(&self) -> Stage<A> {
        match self {
            ParserState::Start { arguments_closed } => Stage::Start {
                arguments_closed: *arguments_closed,
            },
            ParserState::Ready(argument) => Stage::Ready(argument@),
            ParserState::HasValue(argument, value) => Stage::HasValue(argument@, value@),
            ParserState::HasCluster(argument, cluster) => Stage::HasCluster(argument@, cluster@),
            ParserState::HasPositional(value) => Stage::HasPositional(value@),
            ParserState::Finished { arguments_closed } => Stage::Finished {
                arguments_closed: *arguments_closed,
            },
        }
    }
}

impl<A: ArgumentLike> From<Parameter<A>> for Argument<A> {
    fn from(value: Parameter<A>) -> (r: Self) {
        match value {
            Parameter::Short(short) => Self::Short(short),
            Parameter::Long(name) => Self::Long(name),
        }
    }
}

impl<A: ArgumentLike> vstd::std_specs::convert::FromSpecImpl<Parameter<A>> for Argument<A> {
    open spec fn obeys_from_spec() -> bool {
        true
    }

    open spec fn from_spec(value: Parameter<A>) -> Self {
        match value {
            Parameter::Short(short) => Argument::Short(short),
            Parameter::Long(name) => Argument::Long(name),
        }
    }
}

impl<A: ArgumentLike> Parameter<A> {
    /// Returns this parameter as an [`Argument`].
    pub fn into_argument(self) -> (r: Argument<A>)
        ensures
            r@ == self@,
    {
        match self {
            Parameter::Short(short) => Argument::Short(short),
            Parameter::Long(name) => Argument::Long(name),
        }
    }
}

/// What is left to do in a state before the next argument has to be read.
pub open spec fn pending<A: ArgumentLike>(stage: Stage<A>) -> nat {
    match stage {
        Stage::Start { .. } => 0,
        Stage::Finished { .. } => 0,
        Stage::Ready(_) => 1,
        Stage::HasValue(_, _) => 1,
        Stage::HasPositional(_) => 1,
        Stage::HasCluster(_, cluster) => 2 + A::extent(cluster),
    }
}

/// Whether a parser that was at `old_stage` with `old_rest` left to read has come closer to the
/// end at `new_stage` with `new_rest` left.
pub open spec fn advanced<A: ArgumentLike>(
    old_stage: Stage<A>,
    old_rest: Seq<A::V>,
    new_stage: Stage<A>,
    new_rest: Seq<A::V>,
) -> bool {
    new_rest.len() < old_rest.len() || (new_rest.len() == old_rest.len() && pending(new_stage)
        < pending(old_stage))
}

/// Takes the first short argument off a cluster: the state after it and what is returned.
pub open spec fn cluster_step<A: ArgumentLike>(cluster: A::V) -> (
    Stage<A>,
    Result<Option<Token<A>>, Fault<A>>,
) {
    match A::short(cluster) {
        Some((short, Some(rest))) => (
            Stage::HasCluster(Token::Short(short), rest),
            Ok(Some(Token::Short(short))),
        ),
        Some((short, None)) => (Stage::Ready(Token::Short(short)), Ok(Some(Token::Short(short)))),
        None => (Stage::Start { arguments_closed: false }, Err(Fault::EmptyCluster)),
    }
}

/// Reads one argument where a parameter may stand: the state after it and what is returned.
pub open spec fn read_step<A: ArgumentLike>(text: A::V) -> (
    Stage<A>,
    Result<Option<Token<A>>, Fault<A>>,
) {
    if A::closing(text) {
        (Stage::Start { arguments_closed: true }, Ok(None))
    } else {
        match A::long(text) {
            Some((name, Some(value))) => (
                Stage::HasValue(Token::Long(name), value),
                Ok(Some(Token::Long(name))),
            ),
            Some((name, None)) => (Stage::Ready(Token::Long(name)), Ok(Some(Token::Long(name)))),
            None => match A::cluster(text) {
                Some(cluster) => cluster_step::<A>(cluster),
                None => (Stage::HasPositional(text), Ok(None)),
            },
        }
    }
}

/// What [`Parser::next_parameter`] does: the state and the arguments left after the call, and
/// what the call returns.
pub open spec fn parameter_step<A: ArgumentLike>(stage: Stage<A>, rest: Seq<A::V>) -> (
    Stage<A>,
    Seq<A::V>,
    Result<Option<Token<A>>, Fault<A>>,
) {
    match stage {
        Stage::Start { .. } | Stage::Ready(_) => if rest.len() == 0 {
            (Stage::Finished { arguments_closed: false }, rest, Ok(None))
        } else {
            (read_step::<A>(rest[0]).0, rest.skip(1), read_step::<A>(rest[0]).1)
        },
        Stage::HasCluster(_, cluster) => (
            cluster_step::<A>(cluster).0,
            rest,
            cluster_step::<A>(cluster).1,
        ),
        Stage::HasValue(argument, _) => (
            Stage::Start { arguments_closed: false },
            rest,
            Err(Fault::SkippedValue(argument)),
        ),
        Stage::HasPositional(_) | Stage::Finished { .. } => (stage, rest, Ok(None)),
    }
}

/// What [`Parser::next_positional`] does: the state and the arguments left after the call, and
/// what the call returns.
pub open spec fn positional_step<A: ArgumentLike>(stage: Stage<A>, rest: Seq<A::V>) -> (
    Stage<A>,
    Seq<A::V>,
    Result<Option<A::V>, Fault<A>>,
) {
    match stage {
        Stage::Start { arguments_closed } => if rest.len() == 0 {
            (Stage::Finished { arguments_closed }, rest, Ok(None))
        } else {
            (stage, rest.skip(1), Ok(Some(rest[0])))
        },
        Stage::HasPositional(value) => (
            Stage::Start { arguments_closed: false },
            rest,
            Ok(Some(value)),
        ),
        Stage::Finished { .. } => (stage, rest, Ok(None)),
        _ => (stage, rest, Err(Fault::SkippedNonPositional)),
    }
}

/// What [`Parser::next_value`] does: the state and the arguments left after the call, and what
/// the call returns.
pub open spec fn value_step<A: ArgumentLike>(stage: Stage<A>, rest: Seq<A::V>) -> (
    Stage<A>,
    Seq<A::V>,
    Result<Option<A::V>, Fault<A>>,
) {
    match stage {
        Stage::HasValue(_, value) | Stage::HasCluster(_, value) => (
            Stage::Start { arguments_closed: false },
            rest,
            Ok(Some(value)),
        ),
        Stage::Ready(_) => if rest.len() == 0 {
            (Stage::Finished { arguments_closed: false }, rest, Ok(None))
        } else {
            (Stage::Start { arguments_closed: false }, rest.skip(1), Ok(Some(rest[0])))
        },
        _ => (stage, rest, Err(Fault::MissingAssignedArgument)),
    }
}

/// Whether the arguments are closed in this state: whether all that follows is positional.
pub open spec fn closed<A: ArgumentLike>(stage: Stage<A>) -> bool {
    match stage {
        Stage::Start { arguments_closed } => arguments_closed,
        Stage::Finished { arguments_closed } => arguments_closed,
        _ => false,
    }
}

/// What [`Parser::next_argument`] does: the state and the arguments left after the call, and
/// what the call returns.
///
/// Unless the arguments are closed, a parameter is looked for first. If one is found it is
/// returned. If none is found, for whatever reason, the call goes on from where the search
/// ended and returns the next positional argument.
pub open spec fn argument_step<A: ArgumentLike>(stage: Stage<A>, rest: Seq<A::V>) -> (
    Stage<A>,
    Seq<A::V>,
    Result<Option<Token<A>>, Fault<A>>,
) {
    let searched = if closed(stage) {
        (stage, rest, Ok(None))
    } else {
        parameter_step(stage, rest)
    };
    match searched.2 {
        Ok(Some(token)) => searched,
        _ => {
            let taken = positional_step(searched.0, searched.1);
            (
                taken.0,
                taken.1,
                match taken.2 {
                    Ok(Some(value)) => Ok(Some(Token::Positional(value))),
                    Ok(None) => Ok(None),
                    Err(fault) => Err(fault),
                },
            )
        },
    }
}

/// What a call returned, as what it reads as.
pub open spec fn outcome<T: View, A: ArgumentLike>(r: Result<Option<T>, Error<A>>) -> Result<
    Option<T::V>,
    Fault<A>,
> {
    match r {
        Ok(Some(value)) => Ok(Some(value@)),
        Ok(None) => Ok(None),
        Err(error) => Err(error@),
    }
}

/// What the arguments read as, one by one.
pub open spec fn views<A: ArgumentLike>(arguments: Seq<A>) -> Seq<A::V> {
    Seq::new(arguments.len(), |i: int| arguments[i]@)
}

/// A command-line option parser.
#[derive(Clone, Debug)]
pub struct Parser<A: ArgumentLike> {
    /// The arguments that have not been read yet, the next one last.
    unread: Vec<A>,
    /// Retains the parser's state across `next_*` calls.
    state: ParserState<A>,
}

impl<A: ArgumentLike> Parser<A> {
    /// The arguments that have not been read yet, as what they read as, the next one first.
    pub closed spec fn rest(&self) -> Seq<A::V> {
        views(self.unread@.reverse())
    }

    /// The state that the parser is in, as what it reads as.
    pub closed spec fn stage(&self) -> Stage<A> {
        self.state@
    }

    /// Creates a new [`Parser<A>`].
    pub fn new(arguments: Vec<A>) -> (r: Self)
        ensures
            r.rest() == views(arguments@),
            r.stage() == (Stage::<A>::Start { arguments_closed: false }),
    {
        let mut arguments = arguments;
        let ghost given = arguments@;
        let mut unread: Vec<A> = Vec::new();
        while arguments.len() > 0
            invariant
                arguments@.len() <= given.len(),
                arguments@ == given.take(arguments@.len() as int),
                unread@ == given.skip(arguments@.len() as int).reverse(),
            decreases arguments@.len(),
        {
            let ghost before = arguments@;
            let last = arguments.pop().unwrap();
            assert(arguments@ =~= given.take(arguments@.len() as int));
            assert(unread@.push(last) =~= given.skip(arguments@.len() as int).reverse());
            unread.push(last);
        }
        assert(given.skip(0) =~= given);
        assert(given.reverse().reverse() =~= given);
        Self { unread, state: ParserState::Start { arguments_closed: false } }
    }

    /// Reads the next argument, if there is one left.
    fn read(&mut self) -> (r: Option<A>)
        ensures
            final(self).stage() == old(self).stage(),
            match r {
                Some(argument) => old(self).rest().len() > 0 && argument@ == old(self).rest()[0]
                    && final(self).rest() == old(self).rest().skip(1),
                None => old(self).rest().len() == 0 && final(self).rest() == old(self).rest(),
            },
    {
        let next = self.unread.pop();
        proof {
            if next is Some {
                assert(final(self).rest() =~= old(self).rest().skip(1));
            }
        }
        next
    }

    /// Takes the first short argument off a cluster.
    fn next_short(&mut self, cluster: A) -> (r: Result<Option<Parameter<A>>, Error<A>>)
        ensures
            final(self).rest() == old(self).rest(),
            final(self).stage() == cluster_step::<A>(cluster@).0,
            outcome(r) == cluster_step::<A>(cluster@).1,
            r matches Ok(Some(_)) ==> pending(final(self).stage()) < 2 + A::extent(cluster@),
    {
        match cluster.as_short_argument() {
            Some((short, rest)) => {
                let argument = Parameter::Short(short);
                self.state = match rest {
                    Some(rest) => ParserState::HasCluster(argument.into_argument(), rest),
                    None => ParserState::Ready(argument.into_argument()),
                };
                Ok(Some(argument))
            },
            None => {
                self.state = ParserState::Start { arguments_closed: false };
                Err(Error::EmptyCluster)
            },
        }
    }

    /// Returns the next argument of this [`Parser<A>`].
    ///
    /// # Errors
    ///
    /// This function will return an error if a non-positional argument was skipped.
    pub fn next_argument(&mut self) -> (r: Result<Option<Argument<A>>, Error<A>>)
        ensures
            final(self).stage() == argument_step(old(self).stage(), old(self).rest()).0,
            final(self).rest() == argument_step(old(self).stage(), old(self).rest()).1,
            outcome(r) == argument_step(old(self).stage(), old(self).rest()).2,
            r matches Ok(Some(_)) ==> advanced(
                old(self).stage(),
                old(self).rest(),
                final(self).stage(),
                final(self).rest(),
            ),
    {
        let closed = match self.state {
            ParserState::Start { arguments_closed } => arguments_closed,
            ParserState::Finished { arguments_closed } => arguments_closed,
            _ => false,
        };
        if !closed {
            match self.next_parameter() {
                Ok(Some(argument)) => {
                    return Ok(Some(argument.into_argument()));
                },
                _ => {},
            }
        }
        match self.next_positional() {
            Ok(Some(value)) => Ok(Some(Argument::Positional(value))),
            Ok(None) => Ok(None),
            Err(error) => Err(error),
        }
    }

    /// Returns the next positional argument of this [`Parser<A>`].
    ///
    /// # Errors
    ///
    /// This function will return an error if a non-positional argument was skipped.
    pub fn next_positional(&mut self) -> (r: Result<Option<A>, Error<A>>)
        ensures
            final(self).stage() == positional_step(old(self).stage(), old(self).rest()).0,
            final(self).rest() == positional_step(old(self).stage(), old(self).rest()).1,
            outcome(r) == positional_step(old(self).stage(), old(self).rest()).2,
    {
        match self.state {
            ParserState::Start { arguments_closed } => {
                match self.read() {
                    Some(argument) => Ok(Some(argument)),
                    None => {
                        self.state = ParserState::Finished { arguments_closed };
                        Ok(None)
                    },
                }
            },
            ParserState::HasPositional(argument) => {
                self.state = ParserState::Start { arguments_closed: false };
                Ok(Some(argument))
            },
            ParserState::Finished { .. } => Ok(None),
            _ => Err(Error::SkippedNonPositional),
        }
    }

    /// Returns the next non-positional argument of this [`Parser<A>`].
    ///
    /// If you want to receive positional arguments in-between non-positional arguments, use
    /// [`Parser::next_argument`].
    ///
    /// # Errors
    ///
    /// This function will return an error if an argument's assigned value is ignored.
    pub fn next_parameter(&mut self) -> (r: Result<Option<Parameter<A>>, Error<A>>)
        ensures
            final(self).stage() == parameter_step(old(self).stage(), old(self).rest()).0,
            final(self).rest() == parameter_step(old(self).stage(), old(self).rest()).1,
            outcome(r) == parameter_step(old(self).stage(), old(self).rest()).2,
            r matches Ok(Some(_)) ==> advanced(
                old(self).stage(),
                old(self).rest(),
                final(self).stage(),
                final(self).rest(),
            ),
    {
        match self.state {
            ParserState::Start { .. } | ParserState::Ready(_) => {
                let argument = match self.read() {
                    Some(argument) => argument,
                    None => {
                        self.state = ParserState::Finished { arguments_closed: false };
                        return Ok(None);
                    },
                };
                if argument.is_closing_argument() {
                    self.state = ParserState::Start { arguments_closed: true };
                    return Ok(None);
                }
                match argument.as_long_argument() {
                    Some((name, value)) => {
                        let found = Parameter::Long(name);
                        self.state = match value {
                            Some(value) => ParserState::HasValue(found.into_argument(), value),
                            None => ParserState::Ready(found.into_argument()),
                        };
                        return Ok(Some(found));
                    },
                    None => {},
                }
                match argument.as_short_cluster() {
                    Some(cluster) => self.next_short(cluster),
                    None => {
                        self.state = ParserState::HasPositional(argument);
                        Ok(None)
                    },
                }
            },
            ParserState::HasCluster(_, cluster) => self.next_short(cluster),
            ParserState::HasValue(argument, _) => {
                self.state = ParserState::Start { arguments_closed: false };
                Err(Error::SkippedValue(argument))
            },
            ParserState::HasPositional(_) | ParserState::Finished { .. } => Ok(None),
        }
    }

    /// Returns the next value of this [`Parser<A>`].
    ///
    /// # Errors
    ///
    /// This function will return an error if this is called without first retrieving an
    /// associated argument.
    pub fn next_value(&mut self) -> (r: Result<Option<A>, Error<A>>)
        ensures
            final(self).stage() == value_step(old(self).stage(), old(self).rest()).0,
            final(self).rest() == value_step(old(self).stage(), old(self).rest()).1,
            outcome(r) == value_step(old(self).stage(), old(self).rest()).2,
            !advanced(
                final(self).stage(),
                final(self).rest(),
                old(self).stage(),
                old(self).rest(),
            ),
    {
        match self.state {
            ParserState::HasValue(_, value) | ParserState::HasCluster(_, value) => {
                self.state = ParserState::Start { arguments_closed: false };
                Ok(Some(value))
            },
            ParserState::Ready(_) => {
                let value = self.read();
                self.state = if value.is_some() {
                    ParserState::Start { arguments_closed: false }
                } else {
                    ParserState::Finished { arguments_closed: false }
                };
                Ok(value)
            },
            _ => Err(Error::MissingAssignedArgument),
        }
    }
}

impl<'a> ArgumentLike for &'a str {
    type Short = char;

    open spec fn extent(text: Seq<char>) -> nat {
        text.len()
    }

    open spec fn closing(text: Seq<char>) -> bool {
        text == seq!['-', '-']
    }

    /// Two dashes and at least one more character. The name ends before the first `=`, and the
    /// value begins behind it.
    open spec fn long(text: Seq<char>) -> Option<(Seq<char>, Option<Seq<char>>)> {
        if text.len() > 2 && text[0] == '-' && text[1] == '-' {
            let rest = text.skip(2);
            match first(rest, '=') {
                Some(at) => Some((rest.take(at), Some(rest.skip(at + 1)))),
                None => Some((rest, None)),
            }
        } else {
            None
        }
    }

    /// One dash and at least one more character that is no dash.
    open spec fn cluster(text: Seq<char>) -> Option<Seq<char>> {
        if text.len() > 1 && text[0] == '-' && text[1] != '-' {
            Some(text.skip(1))
        } else {
            None
        }
    }

    /// The first character, and the characters behind it if there are any.
    open spec fn short(text: Seq<char>) -> Option<(char, Option<Seq<char>>)> {
        if text.len() == 0 {
            None
        } else if text.len() == 1 {
            Some((text[0], None))
        } else {
            Some((text[0], Some(text.skip(1))))
        }
    }

    fn is_closing_argument(self) -> (r: bool) {
        let length = self.unicode_len();
        let r = length == 2 && self.get_char(0) == '-' && self.get_char(1) == '-';
        proof {
            if r {
                assert(self@ =~= seq!['-', '-']);
            } else if self@ == seq!['-', '-'] {
                assert(self@.len() == 2 && self@[0] == '-' && self@[1] == '-');
            }
        }
        r
    }

    fn as_long_argument(self) -> (r: Option<(Self, Option<Self>)>) {
        let length = self.unicode_len();
        if length > 2 && self.get_char(0) == '-' && self.get_char(1) == '-' {
            let rest = self.substring_char(2, length);
            assert(rest@ =~= self@.skip(2));
            match find(rest, '=') {
                Some(at) => {
                    let name = rest.substring_char(0, at);
                    let value = rest.substring_char(at + 1, length - 2);
                    assert(name@ =~= rest@.take(at as int));
                    assert(value@ =~= rest@.skip(at + 1));
                    Some((name, Some(value)))
                },
                None => Some((rest, None)),
            }
        } else {
            None
        }
    }

    fn as_short_cluster(self) -> (r: Option<Self>) {
        let length = self.unicode_len();
        if length > 1 && self.get_char(0) == '-' && self.get_char(1) != '-' {
            let cluster = self.substring_char(1, length);
            assert(cluster@ =~= self@.skip(1));
            Some(cluster)
        } else {
            None
        }
    }

    fn as_short_argument(self) -> (r: Option<(Self::Short, Option<Self>)>) {
        let length = self.unicode_len();
        if length == 0 {
            None
        } else if length == 1 {
            Some((self.get_char(0), None))
        } else {
            let rest = self.substring_char(1, length);
            assert(rest@ =~= self@.skip(1));
            Some((self.get_char(0), Some(rest)))
        }
    }
}

/// The bytes as a slice.
pub open spec fn held<'s>(bytes: Seq<u8>) -> &'s [u8] {
    choose|slice: &'s [u8]| slice@ == bytes
}

/// A slice is the one that holds its bytes.
pub proof fn lemma_held<'s>(slice: &'s [u8])
    ensures
        held::<'s>(slice@) == slice,
{
    let other = held::<'s>(slice@);
    assert(other@ == slice@);
    assert(other =~= slice);
}

/// The lengths of the two parts of the first chunk that `<[u8]>::utf8_chunks` gives of the
/// bytes: of the text that is valid UTF-8, and of the invalid bytes behind it. Nothing where it
/// gives no chunk.
pub uninterp spec fn first_chunk(text: Seq<u8>) -> Option<(nat, nat)>;

/// Calls `<[u8]>::utf8_chunks` and takes the first chunk. The contract names the lengths of its
/// two parts and claims nothing else of them.
#[verifier::external_body]
fn chunk_lengths(text: &[u8]) -> (r: Option<(usize, usize)>)
    ensures
        match r {
            Some((valid, invalid)) => first_chunk(text@) == Some((valid as nat, invalid as nat)),
            None => first_chunk(text@) is None,
        },
{
    text.utf8_chunks().next().map(|chunk| (chunk.valid().len(), chunk.invalid().len()))
}

/// Where a chunk of the given lengths ends in the text: behind both of its parts, where that
/// is a place in the text and not its start.
pub open spec fn chunk_end(text: Seq<u8>, chunk: Option<(nat, nat)>) -> Option<int> {
    match chunk {
        Some((valid, invalid)) => if 0 < valid + invalid <= text.len() {
            Some((valid + invalid) as int)
        } else {
            None
        },
        None => None,
    }
}

/// The first short argument of a cluster of bytes whose first chunk has the given lengths, and
/// the bytes behind it if there are any.
pub open spec fn chunk_short<'s>(text: Seq<u8>, chunk: Option<(nat, nat)>) -> Option<
    (&'s [u8], Option<Seq<u8>>),
> {
    match chunk_end(text, chunk) {
        Some(end) => Some(
            (
                held::<'s>(text.take(end)),
                if end < text.len() {
                    Some(text.skip(end))
                } else {
                    None
                },
            ),
        ),
        None => None,
    }
}

/// Takes the first chunk of the given lengths off a cluster of bytes.
pub fn split_chunk<'s>(text: &'s [u8], chunk: Option<(usize, usize)>) -> (r: Option<
    (&'s [u8], Option<&'s [u8]>),
>)
    ensures
        match (r, chunk) {
            (Some((short, Some(rest))), Some((valid, invalid))) => chunk_short::<'s>(
                text@,
                Some((valid as nat, invalid as nat)),
            ) == Some((short, Some(rest@))) && rest@.len() < text@.len(),
            (Some((short, None)), Some((valid, invalid))) => chunk_short::<'s>(
                text@,
                Some((valid as nat, invalid as nat)),
            ) == Some((short, None::<Seq<u8>>)),
            (None, Some((valid, invalid))) => chunk_end(
                text@,
                Some((valid as nat, invalid as nat)),
            ) is None,
            (None, None) => true,
            (Some(_), None) => false,
        },
{
    match chunk {
        Some((valid, invalid)) => {
            let length = text.len();
            if valid > length || invalid > length - valid || (valid == 0 && invalid == 0) {
                return None;
            }
            let end = valid + invalid;
            let short = slice_subrange(text, 0, end);
            proof {
                assert(short@ =~= text@.take(end as int));
                lemma_held(short);
            }
            if end < length {
                let rest = slice_subrange(text, end, length);
                assert(rest@ =~= text@.skip(end as int));
                Some((short, Some(rest)))
            } else {
                Some((short, None))
            }
        },
        None => None,
    }
}

impl<'s> ArgumentLike for &'s [u8] {
    type Short = &'s [u8];

    open spec fn extent(text: Seq<u8>) -> nat {
        text.len()
    }

    open spec fn closing(text: Seq<u8>) -> bool {
        text == seq![0x2du8, 0x2du8]
    }

    /// Two dashes and at least one more byte. The name ends before the first `=`, and the
    /// value begins behind it.
    open spec fn long(text: Seq<u8>) -> Option<(Seq<u8>, Option<Seq<u8>>)> {
        if text.len() > 2 && text[0] == 0x2du8 && text[1] == 0x2du8 {
            let rest = text.skip(2);
            match first(rest, 0x3du8) {
                Some(at) => Some((rest.take(at), Some(rest.skip(at + 1)))),
                None => Some((rest, None)),
            }
        } else {
            None
        }
    }

    /// One dash and at least one more byte that is no dash.
    open spec fn cluster(text: Seq<u8>) -> Option<Seq<u8>> {
        if text.len() > 1 && text[0] == 0x2du8 && text[1] != 0x2du8 {
            Some(text.skip(1))
        } else {
            None
        }
    }

    /// The first chunk of the bytes, and the bytes behind it if there are any.
    open spec fn short(text: Seq<u8>) -> Option<(&'s [u8], Option<Seq<u8>>)> {
        chunk_short::<'s>(text, first_chunk(text))
    }

    fn is_closing_argument(self) -> (r: bool) {
        let r = self.len() == 2 && self[0] == 0x2d && self[1] == 0x2d;
        proof {
            if r {
                assert(self@ =~= seq![0x2du8, 0x2du8]);
            } else if self@ == seq![0x2du8, 0x2du8] {
                assert(self@.len() == 2 && self@[0] == 0x2du8 && self@[1] == 0x2du8);
            }
        }
        r
    }

    fn as_long_argument(self) -> (r: Option<(Self, Option<Self>)>) {
        let length = self.len();
        if length > 2 && self[0] == 0x2d && self[1] == 0x2d {
            let rest = slice_subrange(self, 2, length);
            assert(rest@ =~= self@.skip(2));
            match find_byte(rest, 0x3d) {
                Some(at) => {
                    let name = slice_subrange(rest, 0, at);
                    let value = slice_subrange(rest, at + 1, length - 2);
                    assert(name@ =~= rest@.take(at as int));
                    assert(value@ =~= rest@.skip(at + 1));
                    Some((name, Some(value)))
                },
                None => Some((rest, None)),
            }
        } else {
            None
        }
    }

    fn as_short_cluster(self) -> (r: Option<Self>) {
        let length = self.len();
        if length > 1 && self[0] == 0x2d && self[1] != 0x2d {
            let cluster = slice_subrange(self, 1, length);
            assert(cluster@ =~= self@.skip(1));
            Some(cluster)
        } else {
            None
        }
    }

    fn as_short_argument(self) -> (r: Option<(Self::Short, Option<Self>)>) {
        split_chunk(self, chunk_lengths(self))
    }
}

} // verus!
