//! Provides the command's arguments and implements a method for parsing them.

use vstd::prelude::*;

use crate::arguments::help::{help, write_help};
use crate::arguments::model::{
    current, Arguments, ColorChoice, ListArguments, ModeVisibility, Paths, SizeVisibility,
    SortOrder, SubCommand, TimeVisibility, TreeArguments,
};
use crate::arguments::parse::{
    advanced, argument_step, pending, value_step, Argument, Error, Fault, Parser, Stage, Token,
};
use crate::arguments::schema::CommandSchema;
use crate::arguments::sorting::{assemble, assembled, pieces};
use crate::arguments::text::same;
use crate::exit_codes::{ERROR_CLI_USAGE, ERROR_GENERIC, SUCCESS};
use crate::section::time::TimeSectionType;

pub mod help;
pub mod model;
pub mod outline;
pub mod parse;
pub mod schema;
pub mod sorting;
pub mod text;

verus! {

/// A result of trying to parse the application's command-line arguments.
#[derive(Debug)]
pub enum ParseResult {
    /// The arguments were successfully parsed.
    Parsed(Arguments),
    /// Parsing failed and the program should exit with a code.
    Exit(u8),
}

/// What is wrong with the way the command was used.
#[derive(Clone, Copy, Debug, PartialEq, Eq, Structural)]
pub enum Problem {
    /// No sub-command was provided.
    NoSubCommand,
    /// The sub-command is not known.
    UnknownSubCommand,
    /// `--color` has no value.
    MissingColorChoice,
    /// The value of `--color` is none of its choices.
    InvalidColorChoice,
    /// `--sort` has no value.
    MissingSortOrder,
    /// One of the orders of `--sort` is not known.
    InvalidSortOrder,
    /// `--mode` has no value.
    MissingModeVisibility,
    /// The value of `--mode` is none of its choices.
    InvalidModeVisibility,
    /// `--size` has no value.
    MissingSizeVisibility,
    /// The value of `--size` is none of its choices.
    InvalidSizeVisibility,
    /// `--created`, `--accessed` or `--modified` has no value.
    MissingTimeVisibility,
    /// The value of `--created`, `--accessed` or `--modified` is none of its choices.
    InvalidTimeVisibility,
    /// `--exclude` has no value.
    MissingExcludedPath,
    /// `--include` has no value.
    MissingIncludedPath,
    /// `--depth` has no value, or an empty one.
    MissingDepth,
    /// The value of `--depth` is zero or no number.
    DepthNotPositive,
    /// The value of `--depth` is too large a number.
    DepthTooLarge,
}

/// What is to be told before the program exits.
#[derive(Debug)]
pub enum Notice<'a> {
    /// The help display.
    Help(Vec<u8>),
    /// The command's name and version.
    Version,
    /// The parser's error.
    Parser(Error<&'a str>),
    /// An argument that has no place where it stands.
    Unexpected(Argument<&'a str>),
    /// A problem with the way the command was used, and the text that it is about.
    Usage(Problem, Option<&'a str>),
    /// The message of a failure outside the program.
    Failure(String),
}

/// What is to be told before the program exits, as what it reads as.
pub ghost enum Report<'a> {
    /// The help display.
    Help(Seq<u8>),
    /// The command's name and version.
    Version,
    /// The parser's error.
    Parser(Fault<&'a str>),
    /// An argument that has no place where it stands.
    Unexpected(Token<&'a str>),
    /// A problem with the way the command was used, and the text that it is about.
    Usage(Problem, Option<Seq<char>>),
    /// The message of a failure outside the program.
    Failure(Seq<char>),
}

impl<'a> View for Notice<'a> {
    type V = Report<'a>;

    open spec fn view(&self) -> Report<'a> {
        match self {
            Notice::Help(text) => Report::Help(text@),
            Notice::Version => Report::Version,
            Notice::Parser(error) => Report::Parser(error@),
            Notice::Unexpected(argument) => Report::Unexpected(argument@),
            Notice::Usage(problem, None) => Report::Usage(*problem, None),
            Notice::Usage(problem, Some(about)) => Report::Usage(*problem, Some(about@)),
            Notice::Failure(message) => Report::Failure(message@),
        }
    }
}

/// The reason for the program to exit before it has done its work: the exit code, and what is
/// to be told.
#[derive(Debug)]
pub struct Exit<'a> {
    /// The code to exit with.
    pub code: u8,
    /// What is to be told.
    pub notice: Notice<'a>,
}

impl<'a> View for Exit<'a> {
    type V = (u8, Report<'a>);

    open spec fn view(&self) -> (u8, Report<'a>) {
        (self.code, self.notice@)
    }
}

impl<'a> Exit<'a> {
    /// Returns the result of a parse that ended on this exit.
    pub fn result(&self) -> (r: ParseResult)
        ensures
            r == ParseResult::Exit(self.code),
    {
        ParseResult::Exit(self.code)
    }
}

/// What a step of the parse tells, as what it reads as: nothing where the parse goes on.
pub open spec fn told<'a>(r: Option<Exit<'a>>) -> Option<(u8, Report<'a>)> {
    match r {
        Some(exit) => Some(exit@),
        None => None,
    }
}

/// The exit on a problem with the way the command was used.
pub open spec fn usage<'a>(problem: Problem, about: Option<Seq<char>>) -> (u8, Report<'a>) {
    (ERROR_CLI_USAGE, Report::Usage(problem, about))
}

/// The value that an argument takes: the next value where there is one, else the exit that
/// tells why there is none.
pub open spec fn value_or<'a>(
    stage: Stage<&'a str>,
    rest: Seq<Seq<char>>,
    missing: Problem,
) -> Result<Seq<char>, (u8, Report<'a>)> {
    match value_step(stage, rest).2 {
        Ok(Some(text)) => Ok(text),
        Ok(None) => Err(usage(missing, None)),
        Err(fault) => Err((ERROR_CLI_USAGE, Report::Parser(fault))),
    }
}

/// Takes the value of an argument from the parser.
pub fn take_value<'a>(parser: &mut Parser<&'a str>, missing: Problem) -> (r: Result<
    &'a str,
    Exit<'a>,
>)
    ensures
        final(parser).stage() == value_step(old(parser).stage(), old(parser).rest()).0,
        final(parser).rest() == value_step(old(parser).stage(), old(parser).rest()).1,
        !advanced(
            final(parser).stage(),
            final(parser).rest(),
            old(parser).stage(),
            old(parser).rest(),
        ),
        match r {
            Ok(text) => value_or(old(parser).stage(), old(parser).rest(), missing) == Ok::<
                Seq<char>,
                (u8, Report<'a>),
            >(text@),
            Err(exit) => value_or(old(parser).stage(), old(parser).rest(), missing) == Err::<
                Seq<char>,
                (u8, Report<'a>),
            >(exit@),
        },
{
    match parser.next_value() {
        Ok(Some(text)) => Ok(text),
        Ok(None) => Err(Exit { code: ERROR_CLI_USAGE, notice: Notice::Usage(missing, None) }),
        Err(error) => Err(Exit { code: ERROR_CLI_USAGE, notice: Notice::Parser(error) }),
    }
}

/// The color choice that the text names.
pub open spec fn color_named(text: Seq<char>) -> Option<ColorChoice> {
    if text == "auto"@ {
        Some(ColorChoice::Auto)
    } else if text == "always"@ {
        Some(ColorChoice::Always)
    } else if text == "never"@ {
        Some(ColorChoice::Never)
    } else {
        None
    }
}

/// What [`parse_color`] makes of the arguments and tells, given the value that it took.
pub open spec fn color_step<'a>(
    arguments: Arguments,
    value: Result<Seq<char>, (u8, Report<'a>)>,
) -> (Arguments, Option<(u8, Report<'a>)>) {
    match value {
        Ok(text) => match color_named(text) {
            Some(color) => (Arguments { color, ..arguments }, None),
            None => (arguments, Some(usage(Problem::InvalidColorChoice, Some(text)))),
        },
        Err(exit) => (arguments, Some(exit)),
    }
}

/// Parses the color command-line argument.
pub fn parse_color<'a>(arguments: &mut Arguments, parser: &mut Parser<&'a str>) -> (r: Option<
    Exit<'a>,
>)
    ensures
        final(parser).stage() == value_step(old(parser).stage(), old(parser).rest()).0,
        final(parser).rest() == value_step(old(parser).stage(), old(parser).rest()).1,
        (*final(arguments), told(r)) == color_step(
            *old(arguments),
            value_or(old(parser).stage(), old(parser).rest(), Problem::MissingColorChoice),
        ),
{
    let choice = match take_value(parser, Problem::MissingColorChoice) {
        Ok(choice) => choice,
        Err(exit) => {
            return Some(exit);
        },
    };
    if same(choice, "auto") {
        arguments.color = ColorChoice::Auto;
    } else if same(choice, "always") {
        arguments.color = ColorChoice::Always;
    } else if same(choice, "never") {
        arguments.color = ColorChoice::Never;
    } else {
        return Some(
            Exit {
                code: ERROR_CLI_USAGE,
                notice: Notice::Usage(Problem::InvalidColorChoice, Some(choice)),
            },
        );
    }
    None
}

/// The arguments with hidden entries shown.
pub open spec fn with_all(arguments: Arguments) -> Arguments {
    match arguments.command {
        Some(SubCommand::List(list)) => Arguments {
            command: Some(SubCommand::List(ListArguments { show_hidden: true, ..list })),
            ..arguments
        },
        Some(SubCommand::Tree(tree)) => Arguments {
            command: Some(SubCommand::Tree(TreeArguments { show_hidden: true, ..tree })),
            ..arguments
        },
        None => arguments,
    }
}

/// Parses the all command-line argument.
pub fn parse_all<'a>(arguments: &mut Arguments) -> (r: Option<Exit<'a>>)
    requires
        old(arguments).command is Some,
    ensures
        r is None,
        *final(arguments) == with_all(*old(arguments)),
{
    match &mut arguments.command {
        Some(SubCommand::List(list)) => {
            list.show_hidden = true;
        },
        Some(SubCommand::Tree(tree)) => {
            tree.show_hidden = true;
        },
        None => {},
    }
    None
}

/// The arguments with symbolic links resolved.
pub open spec fn with_resolve_symlinks(arguments: Arguments) -> Arguments {
    match arguments.command {
        Some(SubCommand::List(list)) => Arguments {
            command: Some(SubCommand::List(ListArguments { resolve_symlinks: true, ..list })),
            ..arguments
        },
        Some(SubCommand::Tree(tree)) => Arguments {
            command: Some(SubCommand::Tree(TreeArguments { resolve_symlinks: true, ..tree })),
            ..arguments
        },
        None => arguments,
    }
}

/// Parses the resolve-symlinks command-line argument.
pub fn parse_resolve_symlinks<'a>(arguments: &mut Arguments) -> (r: Option<Exit<'a>>)
    requires
        old(arguments).command is Some,
    ensures
        r is None,
        *final(arguments) == with_resolve_symlinks(*old(arguments)),
{
    match &mut arguments.command {
        Some(SubCommand::List(list)) => {
            list.resolve_symlinks = true;
        },
        Some(SubCommand::Tree(tree)) => {
            tree.resolve_symlinks = true;
        },
        None => {},
    }
    None
}

/// The options of the list sub-command, which is the one chosen.
pub open spec fn listing(arguments: Arguments) -> ListArguments {
    arguments.command->0->List_0
}

/// The arguments with other options for the list sub-command.
pub open spec fn with_listing(arguments: Arguments, list: ListArguments) -> Arguments {
    Arguments { command: Some(SubCommand::List(list)), ..arguments }
}

/// Whether the list sub-command is the one chosen.
pub open spec fn lists(arguments: Arguments) -> bool {
    arguments.command matches Some(SubCommand::List(_))
}

/// Whether the tree sub-command is the one chosen.
pub open spec fn grows(arguments: Arguments) -> bool {
    arguments.command matches Some(SubCommand::Tree(_))
}

/// Parses the user command-line argument.
pub fn parse_user<'a>(arguments: &mut Arguments) -> (r: Option<Exit<'a>>)
    requires
        lists(*old(arguments)),
    ensures
        r is None,
        *final(arguments) == with_listing(
            *old(arguments),
            ListArguments { user: true, ..listing(*old(arguments)) },
        ),
{
    match &mut arguments.command {
        Some(SubCommand::List(list)) => {
            list.user = true;
        },
        _ => {},
    }
    None
}

/// Parses the group command-line argument.
pub fn parse_group<'a>(arguments: &mut Arguments) -> (r: Option<Exit<'a>>)
    requires
        lists(*old(arguments)),
    ensures
        r is None,
        *final(arguments) == with_listing(
            *old(arguments),
            ListArguments { group: true, ..listing(*old(arguments)) },
        ),
{
    match &mut arguments.command {
        Some(SubCommand::List(list)) => {
            list.group = true;
        },
        _ => {},
    }
    None
}

/// The mode visibility that the text names.
pub open spec fn mode_named(text: Seq<char>) -> Option<ModeVisibility> {
    if text == "hide"@ {
        Some(ModeVisibility::Hide)
    } else if text == "show"@ {
        Some(ModeVisibility::Show)
    } else if text == "extended"@ {
        Some(ModeVisibility::Extended)
    } else {
        None
    }
}

/// What [`parse_mode`] makes of the arguments and tells, given the value that it took.
pub open spec fn mode_step<'a>(
    arguments: Arguments,
    value: Result<Seq<char>, (u8, Report<'a>)>,
) -> (Arguments, Option<(u8, Report<'a>)>) {
    match value {
        Ok(text) => match mode_named(text) {
            Some(mode) => (
                with_listing(arguments, ListArguments { mode, ..listing(arguments) }),
                None,
            ),
            None => (arguments, Some(usage(Problem::InvalidModeVisibility, Some(text)))),
        },
        Err(exit) => (arguments, Some(exit)),
    }
}

/// Parses the mode command-line argument.
pub fn parse_mode<'a>(arguments: &mut Arguments, parser: &mut Parser<&'a str>) -> (r: Option<
    Exit<'a>,
>)
    requires
        lists(*old(arguments)),
    ensures
        final(parser).stage() == value_step(old(parser).stage(), old(parser).rest()).0,
        final(parser).rest() == value_step(old(parser).stage(), old(parser).rest()).1,
        (*final(arguments), told(r)) == mode_step(
            *old(arguments),
            value_or(old(parser).stage(), old(parser).rest(), Problem::MissingModeVisibility),
        ),
{
    let choice = match take_value(parser, Problem::MissingModeVisibility) {
        Ok(choice) => choice,
        Err(exit) => {
            return Some(exit);
        },
    };
    let mode = if same(choice, "hide") {
        ModeVisibility::Hide
    } else if same(choice, "show") {
        ModeVisibility::Show
    } else if same(choice, "extended") {
        ModeVisibility::Extended
    } else {
        return Some(
            Exit {
                code: ERROR_CLI_USAGE,
                notice: Notice::Usage(Problem::InvalidModeVisibility, Some(choice)),
            },
        );
    };
    match &mut arguments.command {
        Some(SubCommand::List(list)) => {
            list.mode = mode;
        },
        _ => {},
    }
    None
}

/// The size visibility that the text names.
pub open spec fn size_named(text: Seq<char>) -> Option<SizeVisibility> {
    if text == "hide"@ {
        Some(SizeVisibility::Hide)
    } else if text == "simple"@ {
        Some(SizeVisibility::Simple)
    } else if text == "base-2"@ {
        Some(SizeVisibility::Base2)
    } else if text == "base-10"@ {
        Some(SizeVisibility::Base10)
    } else {
        None
    }
}

/// What [`parse_size`] makes of the arguments and tells, given the value that it took.
pub open spec fn size_step<'a>(
    arguments: Arguments,
    value: Result<Seq<char>, (u8, Report<'a>)>,
) -> (Arguments, Option<(u8, Report<'a>)>) {
    match value {
        Ok(text) => match size_named(text) {
            Some(size) => (
                with_listing(arguments, ListArguments { size, ..listing(arguments) }),
                None,
            ),
            None => (arguments, Some(usage(Problem::InvalidSizeVisibility, Some(text)))),
        },
        Err(exit) => (arguments, Some(exit)),
    }
}

/// Parses the size command-line argument.
pub fn parse_size<'a>(arguments: &mut Arguments, parser: &mut Parser<&'a str>) -> (r: Option<
    Exit<'a>,
>)
    requires
        lists(*old(arguments)),
    ensures
        final(parser).stage() == value_step(old(parser).stage(), old(parser).rest()).0,
        final(parser).rest() == value_step(old(parser).stage(), old(parser).rest()).1,
        (*final(arguments), told(r)) == size_step(
            *old(arguments),
            value_or(old(parser).stage(), old(parser).rest(), Problem::MissingSizeVisibility),
        ),
{
    let choice = match take_value(parser, Problem::MissingSizeVisibility) {
        Ok(choice) => choice,
        Err(exit) => {
            return Some(exit);
        },
    };
    let size = if same(choice, "hide") {
        SizeVisibility::Hide
    } else if same(choice, "simple") {
        SizeVisibility::Simple
    } else if same(choice, "base-2") {
        SizeVisibility::Base2
    } else if same(choice, "base-10") {
        SizeVisibility::Base10
    } else {
        return Some(
            Exit {
                code: ERROR_CLI_USAGE,
                notice: Notice::Usage(Problem::InvalidSizeVisibility, Some(choice)),
            },
        );
    };
    match &mut arguments.command {
        Some(SubCommand::List(list)) => {
            list.size = size;
        },
        _ => {},
    }
    None
}

/// The time visibility that the text names.
pub open spec fn time_named(text: Seq<char>) -> Option<TimeVisibility> {
    if text == "hide"@ {
        Some(TimeVisibility::Hide)
    } else if text == "simple"@ {
        Some(TimeVisibility::Simple)
    } else if text == "iso8601"@ {
        Some(TimeVisibility::Iso8601)
    } else {
        None
    }
}

/// The options with the visibility of one kind of time set.
pub open spec fn with_time(
    list: ListArguments,
    kind: TimeSectionType,
    choice: TimeVisibility,
) -> ListArguments {
    match kind {
        TimeSectionType::Created => ListArguments { created: choice, ..list },
        TimeSectionType::Accessed => ListArguments { accessed: choice, ..list },
        TimeSectionType::Modified => ListArguments { modified: choice, ..list },
    }
}

/// What [`parse_time`] makes of the arguments and tells, given the value that it took.
pub open spec fn time_step<'a>(
    arguments: Arguments,
    kind: TimeSectionType,
    value: Result<Seq<char>, (u8, Report<'a>)>,
) -> (Arguments, Option<(u8, Report<'a>)>) {
    match value {
        Ok(text) => match time_named(text) {
            Some(choice) => (
                with_listing(arguments, with_time(listing(arguments), kind, choice)),
                None,
            ),
            None => (arguments, Some(usage(Problem::InvalidTimeVisibility, Some(text)))),
        },
        Err(exit) => (arguments, Some(exit)),
    }
}

/// Parses the created, accessed, and/or modified command-line argument.
pub fn parse_time<'a>(
    arguments: &mut Arguments,
    parser: &mut Parser<&'a str>,
    kind: TimeSectionType,
) -> (r: Option<Exit<'a>>)
    requires
        lists(*old(arguments)),
    ensures
        final(parser).stage() == value_step(old(parser).stage(), old(parser).rest()).0,
        final(parser).rest() == value_step(old(parser).stage(), old(parser).rest()).1,
        (*final(arguments), told(r)) == time_step(
            *old(arguments),
            kind,
            value_or(old(parser).stage(), old(parser).rest(), Problem::MissingTimeVisibility),
        ),
{
    let choice = match take_value(parser, Problem::MissingTimeVisibility) {
        Ok(choice) => choice,
        Err(exit) => {
            return Some(exit);
        },
    };
    let choice = if same(choice, "hide") {
        TimeVisibility::Hide
    } else if same(choice, "simple") {
        TimeVisibility::Simple
    } else if same(choice, "iso8601") {
        TimeVisibility::Iso8601
    } else {
        return Some(
            Exit {
                code: ERROR_CLI_USAGE,
                notice: Notice::Usage(Problem::InvalidTimeVisibility, Some(choice)),
            },
        );
    };
    match &mut arguments.command {
        Some(SubCommand::List(list)) => {
            match kind {
                TimeSectionType::Created => {
                    list.created = choice;
                },
                TimeSectionType::Accessed => {
                    list.accessed = choice;
                },
                TimeSectionType::Modified => {
                    list.modified = choice;
                },
            }
        },
        _ => {},
    }
    None
}

/// Parses the version command-line argument.
pub fn parse_version<'a>() -> (r: Exit<'a>)
    ensures
        r@ == (SUCCESS, Report::<'a>::Version),
{
    Exit { code: SUCCESS, notice: Notice::Version }
}

/// The arguments with another order for whichever sub-command is chosen.
pub open spec fn with_sorting(arguments: Arguments, sorting: Option<SortOrder>) -> Arguments {
    match arguments.command {
        Some(SubCommand::List(list)) => Arguments {
            command: Some(SubCommand::List(ListArguments { sorting, ..list })),
            ..arguments
        },
        Some(SubCommand::Tree(tree)) => Arguments {
            command: Some(SubCommand::Tree(TreeArguments { sorting, ..tree })),
            ..arguments
        },
        None => arguments,
    }
}

/// What [`parse_sort`] makes of the arguments and tells, given the value that it took.
///
/// The order that was chosen before is given up as soon as there is a value. The orders that
/// the value names take its place; where one of the names is not known, the orders named before
/// it do.
pub open spec fn sort_step<'a>(
    arguments: Arguments,
    value: Result<Seq<char>, (u8, Report<'a>)>,
) -> (Arguments, Option<(u8, Report<'a>)>) {
    match value {
        Ok(text) => match assembled(pieces(text)) {
            Ok(sorting) => (with_sorting(arguments, sorting), None),
            Err((sorting, name)) => (
                with_sorting(arguments, sorting),
                Some(usage(Problem::InvalidSortOrder, Some(name))),
            ),
        },
        Err(exit) => (arguments, Some(exit)),
    }
}

/// Sets the order of whichever sub-command is chosen.
fn set_sorting(arguments: &mut Arguments, sorting: Option<SortOrder>)
    ensures
        *final(arguments) == with_sorting(*old(arguments), sorting),
{
    match &mut arguments.command {
        Some(SubCommand::List(list)) => {
            list.sorting = sorting;
        },
        Some(SubCommand::Tree(tree)) => {
            tree.sorting = sorting;
        },
        None => {},
    }
}

/// Parses the sort command-line argument.
pub fn parse_sort<'a>(arguments: &mut Arguments, parser: &mut Parser<&'a str>) -> (r: Option<
    Exit<'a>,
>)
    requires
        old(arguments).command is Some,
    ensures
        final(parser).stage() == value_step(old(parser).stage(), old(parser).rest()).0,
        final(parser).rest() == value_step(old(parser).stage(), old(parser).rest()).1,
        (*final(arguments), told(r)) == sort_step(
            *old(arguments),
            value_or(old(parser).stage(), old(parser).rest(), Problem::MissingSortOrder),
        ),
{
    let orderings = match take_value(parser, Problem::MissingSortOrder) {
        Ok(orderings) => orderings,
        Err(exit) => {
            return Some(exit);
        },
    };
    match assemble(orderings) {
        Ok(sorting) => {
            set_sorting(arguments, sorting);
            None
        },
        Err((sorting, name)) => {
            set_sorting(arguments, sorting);
            Some(
                Exit {
                    code: ERROR_CLI_USAGE,
                    notice: Notice::Usage(Problem::InvalidSortOrder, Some(name)),
                },
            )
        },
    }
}

/// The number that the digits spell, read from left to right: at the first character that is
/// no digit the depth is no number, and as soon as the number no longer fits it is too large.
pub open spec fn number(digits: Seq<char>) -> Result<nat, Problem>
    decreases digits.len(),
{
    if digits.len() == 0 {
        Ok(0)
    } else {
        match number(digits.drop_last()) {
            Ok(before) => if !('0' <= digits.last() <= '9') {
                Err(Problem::DepthNotPositive)
            } else if before * 10 + (digits.last() as nat - '0' as nat) > usize::MAX {
                Err(Problem::DepthTooLarge)
            } else {
                Ok((before * 10 + (digits.last() as nat - '0' as nat)) as nat)
            },
            Err(problem) => Err(problem),
        }
    }
}

/// The depth that the text names: a positive decimal number, which a `+` may stand before.
pub open spec fn depth_named(text: Seq<char>) -> Result<usize, Problem> {
    if text.len() == 0 {
        Err(Problem::MissingDepth)
    } else {
        let digits = if text[0] == '+' {
            text.skip(1)
        } else {
            text
        };
        if digits.len() == 0 {
            Err(Problem::DepthNotPositive)
        } else {
            match number(digits) {
                Ok(depth) => if depth == 0 {
                    Err(Problem::DepthNotPositive)
                } else {
                    Ok(depth as usize)
                },
                Err(problem) => Err(problem),
            }
        }
    }
}

/// Once the digits fail, more digits change nothing.
proof fn lemma_number_fails(some: Seq<char>, all: Seq<char>, problem: Problem)
    requires
        some.len() <= all.len(),
        some == all.take(some.len() as int),
        number(some) == Err::<nat, Problem>(problem),
    ensures
        number(all) == Err::<nat, Problem>(problem),
    decreases all.len() - some.len(),
{
    if some.len() == all.len() {
        assert(all.take(some.len() as int) =~= all);
    } else {
        let more = all.take(some.len() as int + 1);
        assert(more.drop_last() =~= some);
        lemma_number_fails(more, all, problem);
    }
}

/// Reads the depth that the text names.
pub fn depth_of(text: &str) -> (r: Result<usize, Problem>)
    ensures
        r == depth_named(text@),
{
    let length = text.unicode_len();
    if length == 0 {
        return Err(Problem::MissingDepth);
    }
    let first: usize = if text.get_char(0) == '+' {
        1
    } else {
        0
    };
    if first == length {
        assert(text@.skip(1).len() == 0);
        return Err(Problem::DepthNotPositive);
    }
    let ghost digits = text@.skip(first as int);
    let mut depth: usize = 0;
    let mut i: usize = first;
    assert(digits.take(0) =~= Seq::<char>::empty());
    assert(text@.skip(0) =~= text@);
    while i < length
        invariant
            length == text@.len(),
            first <= i <= length,
            first < length,
            first == (if text@[0] == '+' {
                1int
            } else {
                0int
            }),
            digits == text@.skip(first as int),
            number(digits.take(i - first)) == Ok::<nat, Problem>(depth as nat),
        decreases length - i,
    {
        let c = text.get_char(i);
        proof {
            let more = digits.take(i - first + 1);
            assert(more.drop_last() =~= digits.take(i - first));
            assert(more.last() == text@[i as int]);
        }
        if !('0' <= c && c <= '9') {
            proof {
                assert(text@.skip(0) =~= text@);
                lemma_number_fails(digits.take(i - first + 1), digits, Problem::DepthNotPositive);
            }
            return Err(Problem::DepthNotPositive);
        }
        let digit = (c as u32 - '0' as u32) as usize;
        if depth > (usize::MAX - digit) / 10 {
            proof {
                assert(depth * 10 + digit > usize::MAX) by (nonlinear_arith)
                    requires
                        depth > (usize::MAX - digit) / 10,
                        digit <= 9,
                ;
                assert(text@.skip(0) =~= text@);
                lemma_number_fails(digits.take(i - first + 1), digits, Problem::DepthTooLarge);
            }
            return Err(Problem::DepthTooLarge);
        }
        assert(depth * 10 + digit <= usize::MAX) by (nonlinear_arith)
            requires
                depth <= (usize::MAX - digit) / 10,
                digit <= 9,
        ;
        depth = depth * 10 + digit;
        i = i + 1;
    }
    assert(digits.take(i - first) =~= digits);
    assert(text@.skip(0) =~= text@);
    if depth == 0 {
        Err(Problem::DepthNotPositive)
    } else {
        Ok(depth)
    }
}

/// The options of the tree sub-command, which is the one chosen.
pub open spec fn growing(arguments: Arguments) -> TreeArguments {
    arguments.command->0->Tree_0
}

/// What [`parse_depth`] makes of the arguments and tells, given the value that it took.
pub open spec fn depth_step<'a>(
    arguments: Arguments,
    value: Result<Seq<char>, (u8, Report<'a>)>,
) -> (Arguments, Option<(u8, Report<'a>)>) {
    match value {
        Ok(text) => match depth_named(text) {
            Ok(depth) => (
                Arguments {
                    command: Some(
                        SubCommand::Tree(
                            TreeArguments { max_depth: Some(depth), ..growing(arguments) },
                        ),
                    ),
                    ..arguments
                },
                None,
            ),
            Err(problem) => (arguments, Some(usage(problem, None))),
        },
        Err(exit) => (arguments, Some(exit)),
    }
}

/// Parses the depth command-line argument.
pub fn parse_depth<'a>(arguments: &mut Arguments, parser: &mut Parser<&'a str>) -> (r: Option<
    Exit<'a>,
>)
    requires
        grows(*old(arguments)),
    ensures
        final(parser).stage() == value_step(old(parser).stage(), old(parser).rest()).0,
        final(parser).rest() == value_step(old(parser).stage(), old(parser).rest()).1,
        (*final(arguments), told(r)) == depth_step(
            *old(arguments),
            value_or(old(parser).stage(), old(parser).rest(), Problem::MissingDepth),
        ),
{
    let choice = match take_value(parser, Problem::MissingDepth) {
        Ok(choice) => choice,
        Err(exit) => {
            return Some(exit);
        },
    };
    match depth_of(choice) {
        Ok(depth) => {
            match &mut arguments.command {
                Some(SubCommand::Tree(tree)) => {
                    tree.max_depth = Some(depth);
                },
                _ => {},
            }
            None
        },
        Err(problem) => Some(
            Exit { code: ERROR_CLI_USAGE, notice: Notice::Usage(problem, None) },
        ),
    }
}

/// The paths once one more is added: a path that is held already changes nothing.
pub open spec fn added(held: Seq<Seq<u8>>, path: Seq<u8>) -> Seq<Seq<u8>> {
    if held.contains(path) {
        held
    } else {
        held.push(path)
    }
}

/// What an optional set of paths holds: nothing where there is none.
pub open spec fn held(paths: Option<Paths>) -> Seq<Seq<u8>> {
    match paths {
        Some(paths) => paths@,
        None => Seq::empty(),
    }
}

/// Whether `after` is `before` with the sub-command chosen that the text names, and nothing
/// chosen within it yet.
pub open spec fn chosen(before: Arguments, after: Arguments, text: Seq<char>) -> bool {
    &&& after.color == before.color
    &&& if text == "list"@ {
        after.command matches Some(SubCommand::List(list)) && list.blank()
    } else {
        after.command matches Some(SubCommand::Tree(tree)) && tree.blank()
    }
}

/// Whether the text names a sub-command.
pub open spec fn names_command(text: Seq<char>) -> bool {
    text == "list"@ || text == "tree"@
}

/// Whether `after` is `before` with the path added to the paths of its sub-command.
pub open spec fn rooted(before: Arguments, after: Arguments, path: Seq<u8>) -> bool {
    &&& after.color == before.color
    &&& match (before.command, after.command) {
        (Some(SubCommand::List(was)), Some(SubCommand::List(now))) => {
            &&& now == ListArguments { paths: now.paths, ..was }
            &&& now.paths@ == added(was.paths@, path)
            &&& was.paths.distinct() ==> now.paths.distinct()
        },
        (Some(SubCommand::Tree(was)), Some(SubCommand::Tree(now))) => {
            &&& now == TreeArguments { paths: now.paths, ..was }
            &&& now.paths@ == added(was.paths@, path)
            &&& was.paths.distinct() ==> now.paths.distinct()
        },
        _ => false,
    }
}

/// Whether `after` is `before` with the path added to the excluded paths of its sub-command.
pub open spec fn barred(before: Arguments, after: Arguments, path: Seq<u8>) -> bool {
    &&& after.color == before.color
    &&& match (before.command, after.command) {
        (Some(SubCommand::List(was)), Some(SubCommand::List(now))) => {
            &&& now == ListArguments { excluded: now.excluded, ..was }
            &&& now.excluded is Some
            &&& held(now.excluded) == added(held(was.excluded), path)
        },
        (Some(SubCommand::Tree(was)), Some(SubCommand::Tree(now))) => {
            &&& now == TreeArguments { excluded: now.excluded, ..was }
            &&& now.excluded is Some
            &&& held(now.excluded) == added(held(was.excluded), path)
        },
        _ => false,
    }
}

/// Whether `after` is `before` with the path added to the included paths of its sub-command.
pub open spec fn admitted(before: Arguments, after: Arguments, path: Seq<u8>) -> bool {
    &&& after.color == before.color
    &&& match (before.command, after.command) {
        (Some(SubCommand::List(was)), Some(SubCommand::List(now))) => {
            &&& now == ListArguments { included: now.included, ..was }
            &&& now.included is Some
            &&& held(now.included) == added(held(was.included), path)
        },
        (Some(SubCommand::Tree(was)), Some(SubCommand::Tree(now))) => {
            &&& now == TreeArguments { included: now.included, ..was }
            &&& now.included is Some
            &&& held(now.included) == added(held(was.included), path)
        },
        _ => false,
    }
}

/// Where a resolved path goes.
pub ghost enum Place {
    /// To the paths to list.
    Listed,
    /// To the excluded paths.
    Excluded,
    /// To the included paths.
    Included,
}

/// Whether `after` is `before` with the path added at the place.
pub open spec fn placed(place: Place, before: Arguments, after: Arguments, path: Seq<u8>) -> bool {
    match place {
        Place::Listed => rooted(before, after, path),
        Place::Excluded => barred(before, after, path),
        Place::Included => admitted(before, after, path),
    }
}

/// Whether a step that had the path behind `text` resolved may have made `after` of `before`
/// and told `exit`: with the path resolved, the path is added at the place and nothing is told;
/// with the failure to resolve it, nothing changes and the failure is told.
pub open spec fn resolved<'a, R>(
    resolve: R,
    text: &str,
    before: Arguments,
    after: Arguments,
    exit: Option<(u8, Report<'a>)>,
    place: Place,
) -> bool where R: FnMut(&str) -> Result<Vec<u8>, String> {
    exists|answer: Result<Vec<u8>, String>|
        {
            &&& #[trigger] call_ensures(resolve, (text,), answer)
            &&& match answer {
                Ok(path) => placed(place, before, after, path@) && exit is None,
                Err(message) => after == before && exit == Some(
                    (ERROR_GENERIC, Report::<'a>::Failure(message@)),
                ),
            }
        }
}

/// Adds the path to the set, which is made first where there is none.
fn add_to(paths: &mut Option<Paths>, path: &[u8])
    ensures
        *final(paths) is Some,
        held(*final(paths)) == added(held(*old(paths)), path@),
{
    let mut set = match paths.take() {
        Some(set) => set,
        None => Paths::new(),
    };
    set.add(path);
    *paths = Some(set);
}

/// Parses a single positional command-line argument.
///
/// Before a sub-command is chosen the argument names one. After that it is a path to list,
/// which `resolve` turns into the path to hold.
pub fn parse_positional<'a, R>(arguments: &mut Arguments, value: &'a str, resolve: &mut R) -> (r:
    Option<Exit<'a>>) where R: FnMut(&str) -> Result<Vec<u8>, String>
    requires
        call_requires(*old(resolve), (value,)),
    ensures
        *final(resolve) == *old(resolve),
        if old(arguments).command is Some {
            resolved(
                *old(resolve),
                value,
                *old(arguments),
                *final(arguments),
                told(r),
                Place::Listed,
            )
        } else if names_command(value@) {
            r is None && chosen(*old(arguments), *final(arguments), value@)
        } else {
            *final(arguments) == *old(arguments) && told(r) == Some(
                usage(Problem::UnknownSubCommand, Some(value@)),
            )
        },
{
    match &mut arguments.command {
        Some(command) => {
            let answer = resolve(value);
            assert(call_ensures(*old(resolve), (value,), answer));
            match answer {
                Ok(path) => {
                    match command {
                        SubCommand::List(list) => {
                            list.paths.add(path.as_slice());
                        },
                        SubCommand::Tree(tree) => {
                            tree.paths.add(path.as_slice());
                        },
                    }
                    None
                },
                Err(message) => Some(
                    Exit { code: ERROR_GENERIC, notice: Notice::Failure(message) },
                ),
            }
        },
        None => {
            if same(value, "list") {
                arguments.command = Some(SubCommand::List(ListArguments::default()));
                None
            } else if same(value, "tree") {
                arguments.command = Some(SubCommand::Tree(TreeArguments::default()));
                None
            } else {
                Some(
                    Exit {
                        code: ERROR_CLI_USAGE,
                        notice: Notice::Usage(Problem::UnknownSubCommand, Some(value)),
                    },
                )
            }
        },
    }
}

/// Parses the exclude command-line argument.
pub fn parse_exclude<'a, R>(
    arguments: &mut Arguments,
    parser: &mut Parser<&'a str>,
    resolve: &mut R,
) -> (r: Option<Exit<'a>>) where R: FnMut(&str) -> Result<Vec<u8>, String>
    requires
        old(arguments).command is Some,
        forall|text: &str| #[trigger] call_requires(*old(resolve), (text,)),
    ensures
        *final(resolve) == *old(resolve),
        final(parser).stage() == value_step(old(parser).stage(), old(parser).rest()).0,
        final(parser).rest() == value_step(old(parser).stage(), old(parser).rest()).1,
        match value_or(old(parser).stage(), old(parser).rest(), Problem::MissingExcludedPath) {
            Ok(text) => exists|value: &str|
                value@ == text && #[trigger] resolved(
                    *old(resolve),
                    value,
                    *old(arguments),
                    *final(arguments),
                    told(r),
                    Place::Excluded,
                ),
            Err(exit) => *final(arguments) == *old(arguments) && told(r) == Some(exit),
        },
{
    let value = match take_value(parser, Problem::MissingExcludedPath) {
        Ok(value) => value,
        Err(exit) => {
            return Some(exit);
        },
    };
    let answer = resolve(value);
    assert(call_ensures(*old(resolve), (value,), answer));
    let r = match answer {
        Ok(path) => {
            match &mut arguments.command {
                Some(SubCommand::List(list)) => {
                    add_to(&mut list.excluded, path.as_slice());
                },
                Some(SubCommand::Tree(tree)) => {
                    add_to(&mut tree.excluded, path.as_slice());
                },
                None => {},
            }
            None
        },
        Err(message) => Some(Exit { code: ERROR_GENERIC, notice: Notice::Failure(message) }),
    };
    assert(resolved(
        *old(resolve),
        value,
        *old(arguments),
        *arguments,
        told(r),
        Place::Excluded,
    ));
    r
}

/// Parses the include command-line argument.
pub fn parse_include<'a, R>(
    arguments: &mut Arguments,
    parser: &mut Parser<&'a str>,
    resolve: &mut R,
) -> (r: Option<Exit<'a>>) where R: FnMut(&str) -> Result<Vec<u8>, String>
    requires
        old(arguments).command is Some,
        forall|text: &str| #[trigger] call_requires(*old(resolve), (text,)),
    ensures
        *final(resolve) == *old(resolve),
        final(parser).stage() == value_step(old(parser).stage(), old(parser).rest()).0,
        final(parser).rest() == value_step(old(parser).stage(), old(parser).rest()).1,
        match value_or(old(parser).stage(), old(parser).rest(), Problem::MissingIncludedPath) {
            Ok(text) => exists|value: &str|
                value@ == text && #[trigger] resolved(
                    *old(resolve),
                    value,
                    *old(arguments),
                    *final(arguments),
                    told(r),
                    Place::Included,
                ),
            Err(exit) => *final(arguments) == *old(arguments) && told(r) == Some(exit),
        },
{
    let value = match take_value(parser, Problem::MissingIncludedPath) {
        Ok(value) => value,
        Err(exit) => {
            return Some(exit);
        },
    };
    let answer = resolve(value);
    assert(call_ensures(*old(resolve), (value,), answer));
    let r = match answer {
        Ok(path) => {
            match &mut arguments.command {
                Some(SubCommand::List(list)) => {
                    add_to(&mut list.included, path.as_slice());
                },
                Some(SubCommand::Tree(tree)) => {
                    add_to(&mut tree.included, path.as_slice());
                },
                None => {},
            }
            None
        },
        Err(message) => Some(Exit { code: ERROR_GENERIC, notice: Notice::Failure(message) }),
    };
    assert(resolved(
        *old(resolve),
        value,
        *old(arguments),
        *arguments,
        told(r),
        Place::Included,
    ));
    r
}

/// Whether the report is the help display of the schema that is current with the sub-command
/// chosen, or with none.
pub open spec fn helps<'a>(report: Report<'a>, command: Option<SubCommand>) -> bool {
    exists|schema: CommandSchema<'static>|
        #![trigger help(&schema)]
        current(schema, command) && schema.valid() && report == Report::<'a>::Help(help(&schema))
}

/// Parses the help command-line argument.
///
/// Before a sub-command is chosen the argument may take a value, which is read as a
/// sub-command: the help is then that of the sub-command. A value that names none is passed
/// over.
pub fn parse_help<'a>(arguments: &mut Arguments, parser: &mut Parser<&'a str>) -> (r: Exit<'a>)
    ensures
        r.code == SUCCESS,
        helps(r.notice@, final(arguments).command),
        if old(arguments).command is Some {
            &&& *final(arguments) == *old(arguments)
            &&& final(parser).stage() == old(parser).stage()
            &&& final(parser).rest() == old(parser).rest()
        } else {
            &&& final(parser).stage() == value_step(old(parser).stage(), old(parser).rest()).0
            &&& final(parser).rest() == value_step(old(parser).stage(), old(parser).rest()).1
            &&& match value_step(old(parser).stage(), old(parser).rest()).2 {
                Ok(Some(text)) => if names_command(text) {
                    chosen(*old(arguments), *final(arguments), text)
                } else {
                    *final(arguments) == *old(arguments)
                },
                _ => *final(arguments) == *old(arguments),
            }
        },
        !advanced(
            final(parser).stage(),
            final(parser).rest(),
            old(parser).stage(),
            old(parser).rest(),
        ),
{
    if arguments.command.is_none() {
        match parser.next_value() {
            Ok(Some(value)) => {
                if same(value, "list") {
                    arguments.command = Some(SubCommand::List(ListArguments::default()));
                } else if same(value, "tree") {
                    arguments.command = Some(SubCommand::Tree(TreeArguments::default()));
                }
            },
            _ => {},
        }
    }
    let schema = arguments.current_schema();
    let mut text: Vec<u8> = Vec::new();
    write_help(&schema, &mut text);
    assert(text@ =~= help(&schema));
    Exit { code: SUCCESS, notice: Notice::Help(text) }
}

/// The arguments that the command knows.
#[derive(Clone, Copy, Debug, PartialEq, Eq, Structural)]
pub enum Flag {
    /// `-h`, `--help`.
    Help,
    /// `-V`, `--version`.
    Version,
    /// `--color`.
    Color,
    /// `-a`, `--all`.
    All,
    /// `-r`, `--resolve-symlinks`.
    ResolveSymlinks,
    /// `--sort`.
    Sort,
    /// `-m`, `--mode`.
    Mode,
    /// `-s`, `--size`.
    Size,
    /// `--created`.
    Created,
    /// `--accessed`.
    Accessed,
    /// `--modified`.
    Modified,
    /// `-u`, `--user`.
    User,
    /// `-g`, `--group`.
    Group,
    /// `-e`, `--exclude`.
    Exclude,
    /// `-i`, `--include`.
    Include,
    /// `-d`, `--depth`.
    Depth,
}

/// The argument that the short name stands for.
pub open spec fn short_flag(short: char) -> Option<Flag> {
    if short == 'h' {
        Some(Flag::Help)
    } else if short == 'V' {
        Some(Flag::Version)
    } else if short == 'a' {
        Some(Flag::All)
    } else if short == 'r' {
        Some(Flag::ResolveSymlinks)
    } else if short == 'm' {
        Some(Flag::Mode)
    } else if short == 's' {
        Some(Flag::Size)
    } else if short == 'u' {
        Some(Flag::User)
    } else if short == 'g' {
        Some(Flag::Group)
    } else if short == 'e' {
        Some(Flag::Exclude)
    } else if short == 'i' {
        Some(Flag::Include)
    } else if short == 'd' {
        Some(Flag::Depth)
    } else {
        None
    }
}

/// The argument that the long name stands for.
pub open spec fn long_flag(name: Seq<char>) -> Option<Flag> {
    if name == "help"@ {
        Some(Flag::Help)
    } else if name == "version"@ {
        Some(Flag::Version)
    } else if name == "color"@ {
        Some(Flag::Color)
    } else if name == "all"@ {
        Some(Flag::All)
    } else if name == "resolve-symlinks"@ {
        Some(Flag::ResolveSymlinks)
    } else if name == "sort"@ {
        Some(Flag::Sort)
    } else if name == "mode"@ {
        Some(Flag::Mode)
    } else if name == "size"@ {
        Some(Flag::Size)
    } else if name == "created"@ {
        Some(Flag::Created)
    } else if name == "accessed"@ {
        Some(Flag::Accessed)
    } else if name == "modified"@ {
        Some(Flag::Modified)
    } else if name == "user"@ {
        Some(Flag::User)
    } else if name == "group"@ {
        Some(Flag::Group)
    } else if name == "exclude"@ {
        Some(Flag::Exclude)
    } else if name == "include"@ {
        Some(Flag::Include)
    } else if name == "depth"@ {
        Some(Flag::Depth)
    } else {
        None
    }
}

/// The argument that the token stands for, if it is a parameter that the command knows.
pub open spec fn flag_named<'a>(token: Token<&'a str>) -> Option<Flag> {
    match token {
        Token::Short(short) => short_flag(short),
        Token::Long(name) => long_flag(name),
        Token::Positional(_) => None,
    }
}

/// Whether the argument has a place with the sub-command chosen, or with none.
///
/// Help and color have a place everywhere, the version only before a sub-command is chosen.
/// What both sub-commands take has a place once one is chosen. The rest belongs to the list
/// sub-command, but for the depth, which belongs to the tree sub-command.
pub open spec fn allowed(flag: Flag, command: Option<SubCommand>) -> bool {
    match flag {
        Flag::Help | Flag::Color => true,
        Flag::Version => command is None,
        Flag::All | Flag::ResolveSymlinks | Flag::Sort | Flag::Exclude | Flag::Include => command
            is Some,
        Flag::Mode | Flag::Size | Flag::Created | Flag::Accessed | Flag::Modified | Flag::User
        | Flag::Group => command matches Some(SubCommand::List(_)),
        Flag::Depth => command matches Some(SubCommand::Tree(_)),
    }
}

/// Returns the argument that the short name stands for.
pub fn short_flag_of(short: char) -> (r: Option<Flag>)
    ensures
        r == short_flag(short),
{
    if short == 'h' {
        Some(Flag::Help)
    } else if short == 'V' {
        Some(Flag::Version)
    } else if short == 'a' {
        Some(Flag::All)
    } else if short == 'r' {
        Some(Flag::ResolveSymlinks)
    } else if short == 'm' {
        Some(Flag::Mode)
    } else if short == 's' {
        Some(Flag::Size)
    } else if short == 'u' {
        Some(Flag::User)
    } else if short == 'g' {
        Some(Flag::Group)
    } else if short == 'e' {
        Some(Flag::Exclude)
    } else if short == 'i' {
        Some(Flag::Include)
    } else if short == 'd' {
        Some(Flag::Depth)
    } else {
        None
    }
}

/// Returns the argument that the long name stands for.
pub fn long_flag_of(name: &str) -> (r: Option<Flag>)
    ensures
        r == long_flag(name@),
{
    if same(name, "help") {
        Some(Flag::Help)
    } else if same(name, "version") {
        Some(Flag::Version)
    } else if same(name, "color") {
        Some(Flag::Color)
    } else if same(name, "all") {
        Some(Flag::All)
    } else if same(name, "resolve-symlinks") {
        Some(Flag::ResolveSymlinks)
    } else if same(name, "sort") {
        Some(Flag::Sort)
    } else if same(name, "mode") {
        Some(Flag::Mode)
    } else if same(name, "size") {
        Some(Flag::Size)
    } else if same(name, "created") {
        Some(Flag::Created)
    } else if same(name, "accessed") {
        Some(Flag::Accessed)
    } else if same(name, "modified") {
        Some(Flag::Modified)
    } else if same(name, "user") {
        Some(Flag::User)
    } else if same(name, "group") {
        Some(Flag::Group)
    } else if same(name, "exclude") {
        Some(Flag::Exclude)
    } else if same(name, "include") {
        Some(Flag::Include)
    } else if same(name, "depth") {
        Some(Flag::Depth)
    } else {
        None
    }
}

/// Returns `true` if the argument has a place with the sub-command chosen, or with none.
pub fn is_allowed(flag: Flag, command: &Option<SubCommand>) -> (r: bool)
    ensures
        r == allowed(flag, *command),
{
    match flag {
        Flag::Help | Flag::Color => true,
        Flag::Version => command.is_none(),
        Flag::All | Flag::ResolveSymlinks | Flag::Sort | Flag::Exclude | Flag::Include => {
            command.is_some()
        },
        Flag::Mode | Flag::Size | Flag::Created | Flag::Accessed | Flag::Modified | Flag::User
        | Flag::Group => match command {
            Some(SubCommand::List(_)) => true,
            _ => false,
        },
        Flag::Depth => match command {
            Some(SubCommand::Tree(_)) => true,
            _ => false,
        },
    }
}

/// Whether handling the argument `flag`, which has a place, may have made `after` of `before`,
/// left the parser at `stage` with `rest` to read, and told `exit`.
pub open spec fn flagged<'a, R>(
    flag: Flag,
    resolve: R,
    before: Arguments,
    was: (Stage<&'a str>, Seq<Seq<char>>),
    after: Arguments,
    is: (Stage<&'a str>, Seq<Seq<char>>),
    exit: Option<(u8, Report<'a>)>,
) -> bool where R: FnMut(&str) -> Result<Vec<u8>, String> {
    let took = (value_step(was.0, was.1).0, value_step(was.0, was.1).1);
    match flag {
        Flag::Help => {
            &&& exit matches Some(told)
            &&& told.0 == SUCCESS
            &&& helps(told.1, after.command)
            &&& if before.command is Some {
                after == before && is == was
            } else {
                &&& is == took
                &&& match value_step(was.0, was.1).2 {
                    Ok(Some(text)) => if names_command(text) {
                        chosen(before, after, text)
                    } else {
                        after == before
                    },
                    _ => after == before,
                }
            }
        },
        Flag::Version => after == before && is == was && exit == Some(
            (SUCCESS, Report::<'a>::Version),
        ),
        Flag::Color => is == took && (after, exit) == color_step(
            before,
            value_or(was.0, was.1, Problem::MissingColorChoice),
        ),
        Flag::All => is == was && exit is None && after == with_all(before),
        Flag::ResolveSymlinks => is == was && exit is None && after == with_resolve_symlinks(
            before,
        ),
        Flag::Sort => is == took && (after, exit) == sort_step(
            before,
            value_or(was.0, was.1, Problem::MissingSortOrder),
        ),
        Flag::Mode => is == took && (after, exit) == mode_step(
            before,
            value_or(was.0, was.1, Problem::MissingModeVisibility),
        ),
        Flag::Size => is == took && (after, exit) == size_step(
            before,
            value_or(was.0, was.1, Problem::MissingSizeVisibility),
        ),
        Flag::Created => is == took && (after, exit) == time_step(
            before,
            TimeSectionType::Created,
            value_or(was.0, was.1, Problem::MissingTimeVisibility),
        ),
        Flag::Accessed => is == took && (after, exit) == time_step(
            before,
            TimeSectionType::Accessed,
            value_or(was.0, was.1, Problem::MissingTimeVisibility),
        ),
        Flag::Modified => is == took && (after, exit) == time_step(
            before,
            TimeSectionType::Modified,
            value_or(was.0, was.1, Problem::MissingTimeVisibility),
        ),
        Flag::User => is == was && exit is None && after == with_listing(
            before,
            ListArguments { user: true, ..listing(before) },
        ),
        Flag::Group => is == was && exit is None && after == with_listing(
            before,
            ListArguments { group: true, ..listing(before) },
        ),
        Flag::Exclude => is == took && match value_or(
            was.0,
            was.1,
            Problem::MissingExcludedPath,
        ) {
            Ok(text) => exists|value: &str|
                value@ == text && #[trigger] resolved(
                    resolve,
                    value,
                    before,
                    after,
                    exit,
                    Place::Excluded,
                ),
            Err(told) => after == before && exit == Some(told),
        },
        Flag::Include => is == took && match value_or(
            was.0,
            was.1,
            Problem::MissingIncludedPath,
        ) {
            Ok(text) => exists|value: &str|
                value@ == text && #[trigger] resolved(
                    resolve,
                    value,
                    before,
                    after,
                    exit,
                    Place::Included,
                ),
            Err(told) => after == before && exit == Some(told),
        },
        Flag::Depth => is == took && (after, exit) == depth_step(
            before,
            value_or(was.0, was.1, Problem::MissingDepth),
        ),
    }
}

/// Whether handling the positional argument `value` may have made `after` of `before` and told
/// `exit`.
pub open spec fn positioned<'a, R>(
    value: &str,
    resolve: R,
    before: Arguments,
    after: Arguments,
    exit: Option<(u8, Report<'a>)>,
) -> bool where R: FnMut(&str) -> Result<Vec<u8>, String> {
    if before.command is Some {
        resolved(resolve, value, before, after, exit, Place::Listed)
    } else if names_command(value@) {
        exit is None && chosen(before, after, value@)
    } else {
        after == before && exit == Some(usage::<'a>(Problem::UnknownSubCommand, Some(value@)))
    }
}

/// Whether handling the argument may have made `after` of `before`, left the parser at `is`
/// where it was at `was`, and told `exit`.
///
/// A positional argument names the sub-command or a path. A parameter that the command knows
/// and that has a place where it stands is handled as [`flagged`] says. Any other parameter is
/// unexpected: nothing changes, and that is told.
pub open spec fn handled<'a, R>(
    argument: Argument<&'a str>,
    resolve: R,
    before: Arguments,
    was: (Stage<&'a str>, Seq<Seq<char>>),
    after: Arguments,
    is: (Stage<&'a str>, Seq<Seq<char>>),
    exit: Option<(u8, Report<'a>)>,
) -> bool where R: FnMut(&str) -> Result<Vec<u8>, String> {
    match argument {
        Argument::Positional(value) => is == was && positioned(
            value,
            resolve,
            before,
            after,
            exit,
        ),
        _ => if flag_named(argument@) matches Some(flag) && allowed(flag, before.command) {
            flagged(flag_named(argument@)->0, resolve, before, was, after, is, exit)
        } else {
            after == before && is == was && exit == Some(
                (ERROR_CLI_USAGE, Report::Unexpected(argument@)),
            )
        },
    }
}

/// Parses a single command-line argument.
///
/// A positional argument names the sub-command or a path. A parameter that the command knows
/// and that has a place where it stands is handled as its own function says. Any other
/// parameter is unexpected: nothing changes, and that is told.
pub fn parse_argument<'a, R>(
    arguments: &mut Arguments,
    parser: &mut Parser<&'a str>,
    argument: Argument<&'a str>,
    resolve: &mut R,
) -> (r: Option<Exit<'a>>) where R: FnMut(&str) -> Result<Vec<u8>, String>
    requires
        forall|text: &str| #[trigger] call_requires(*old(resolve), (text,)),
    ensures
        *final(resolve) == *old(resolve),
        !advanced(
            final(parser).stage(),
            final(parser).rest(),
            old(parser).stage(),
            old(parser).rest(),
        ),
        handled(
            argument,
            *old(resolve),
            *old(arguments),
            (old(parser).stage(), old(parser).rest()),
            *final(arguments),
            (final(parser).stage(), final(parser).rest()),
            told(r),
        ),
{
    let flag = match argument {
        Argument::Positional(value) => {
            return parse_positional(arguments, value, resolve);
        },
        Argument::Short(short) => short_flag_of(short),
        Argument::Long(name) => long_flag_of(name),
    };
    let flag = match flag {
        Some(flag) => flag,
        None => {
            return Some(Exit { code: ERROR_CLI_USAGE, notice: Notice::Unexpected(argument) });
        },
    };
    if !is_allowed(flag, &arguments.command) {
        return Some(Exit { code: ERROR_CLI_USAGE, notice: Notice::Unexpected(argument) });
    }
    match flag {
        Flag::Help => Some(parse_help(arguments, parser)),
        Flag::Version => Some(parse_version()),
        Flag::Color => parse_color(arguments, parser),
        Flag::All => parse_all(arguments),
        Flag::ResolveSymlinks => parse_resolve_symlinks(arguments),
        Flag::Sort => parse_sort(arguments, parser),
        Flag::Mode => parse_mode(arguments, parser),
        Flag::Size => parse_size(arguments, parser),
        Flag::Created => parse_time(arguments, parser, TimeSectionType::Created),
        Flag::Accessed => parse_time(arguments, parser, TimeSectionType::Accessed),
        Flag::Modified => parse_time(arguments, parser, TimeSectionType::Modified),
        Flag::User => parse_user(arguments),
        Flag::Group => parse_group(arguments),
        Flag::Exclude => parse_exclude(arguments, parser, resolve),
        Flag::Include => parse_include(arguments, parser, resolve),
        Flag::Depth => parse_depth(arguments, parser),
    }
}

/// Whether something is left to list: a sub-command is chosen and has at least one path.
pub open spec fn ready(arguments: Arguments) -> bool {
    match arguments.command {
        Some(SubCommand::List(list)) => list.paths@.len() > 0,
        Some(SubCommand::Tree(tree)) => tree.paths@.len() > 0,
        None => false,
    }
}

/// What a parse comes to, as what it reads as.
pub open spec fn come_to<'a>(r: Result<Arguments, Exit<'a>>) -> Result<Arguments, (u8, Report<'a>)> {
    match r {
        Ok(arguments) => Ok(arguments),
        Err(exit) => Err(exit@),
    }
}

/// Whether a parse that has handled every argument may come to `outcome`.
///
/// Without a sub-command there is nothing to do, and that is told. With a sub-command and a
/// path the arguments are the outcome. With a sub-command and no path, `resolve` is asked for
/// `.`: the path that it gives is the one to list, and its failure is told.
pub open spec fn concluded<'a, R>(
    resolve: R,
    arguments: Arguments,
    outcome: Result<Arguments, (u8, Report<'a>)>,
) -> bool where R: FnMut(&str) -> Result<Vec<u8>, String> {
    if arguments.command is None {
        outcome == Err::<Arguments, (u8, Report<'a>)>(usage(Problem::NoSubCommand, None))
    } else if ready(arguments) {
        outcome == Ok::<Arguments, (u8, Report<'a>)>(arguments)
    } else {
        exists|answer: Result<Vec<u8>, String>|
            {
                &&& #[trigger] call_ensures(resolve, (".",), answer)
                &&& match answer {
                    Ok(path) => outcome matches Ok(after) && rooted(arguments, after, path@),
                    Err(message) => outcome == Err::<Arguments, (u8, Report<'a>)>(
                        (ERROR_GENERIC, Report::Failure(message@)),
                    ),
                }
            }
    }
}

/// Whether a parse that has come to `arguments`, with the parser at `stage` and `rest` left
/// to read, may come to `outcome`.
///
/// The next argument is read as [`Parser::next_argument`] reads it. The parser's failure is
/// told. With no argument left the parse is concluded. Any other argument is handled: where
/// that tells to exit, that is the outcome; where it does not, the parse goes on from there.
pub open spec fn parsed<'a, R>(
    resolve: R,
    arguments: Arguments,
    stage: Stage<&'a str>,
    rest: Seq<Seq<char>>,
    outcome: Result<Arguments, (u8, Report<'a>)>,
) -> bool where R: FnMut(&str) -> Result<Vec<u8>, String>
    decreases rest.len(), pending(stage),
{
    let step = argument_step(stage, rest);
    match step.2 {
        Err(fault) => outcome == Err::<Arguments, (u8, Report<'a>)>(
            (ERROR_GENERIC, Report::Parser(fault)),
        ),
        Ok(None) => concluded(resolve, arguments, outcome),
        Ok(Some(token)) => exists|
            argument: Argument<&'a str>,
            after: Arguments,
            is: (Stage<&'a str>, Seq<Seq<char>>),
            exit: Option<(u8, Report<'a>)>,
        |
            {
                &&& argument@ == token
                &&& #[trigger] handled(
                    argument,
                    resolve,
                    arguments,
                    (step.0, step.1),
                    after,
                    is,
                    exit,
                )
                &&& match exit {
                    Some(exit) => outcome == Err::<Arguments, (u8, Report<'a>)>(exit),
                    None => advanced(stage, rest, is.0, is.1) && parsed(
                        resolve,
                        after,
                        is.0,
                        is.1,
                        outcome,
                    ),
                }
            },
    }
}

/// Parses the application's command-line arguments.
///
/// The arguments are handled one by one, as [`parse_argument`] handles them, until one of them
/// tells to exit or none is left. Without a sub-command there is nothing to do, and that is
/// told. Without a path the current directory is listed: `resolve` is asked for `.`.
pub fn parse_arguments<'a, R>(given: Vec<&'a str>, resolve: &mut R) -> (r: Result<
    Arguments,
    Exit<'a>,
>) where R: FnMut(&str) -> Result<Vec<u8>, String>
    requires
        forall|text: &str| #[trigger] call_requires(*old(resolve), (text,)),
    ensures
        *final(resolve) == *old(resolve),
        parsed(
            *old(resolve),
            Arguments { color: ColorChoice::Auto, command: None },
            Stage::Start { arguments_closed: false },
            crate::arguments::parse::views(given@),
            come_to(r),
        ),
        r matches Ok(arguments) ==> ready(arguments),
{
    let mut parser = Parser::new(given);
    let mut arguments = Arguments::default();
    let ghost first = arguments;
    let ghost stage = parser.stage();
    let ghost rest = parser.rest();
    loop
        invariant_except_break
            forall|outcome: Result<Arguments, (u8, Report<'a>)>| #[trigger]
                parsed(*resolve, arguments, parser.stage(), parser.rest(), outcome) ==> parsed(
                    *resolve,
                    first,
                    stage,
                    rest,
                    outcome,
                ),
        invariant
            *resolve == *old(resolve),
            forall|text: &str| #[trigger] call_requires(*resolve, (text,)),
            first == (Arguments { color: ColorChoice::Auto, command: None }),
            stage == (Stage::<&'a str>::Start { arguments_closed: false }),
            rest == crate::arguments::parse::views(given@),
        ensures
            forall|outcome: Result<Arguments, (u8, Report<'a>)>| #[trigger]
                concluded(*resolve, arguments, outcome) ==> parsed(
                    *resolve,
                    first,
                    stage,
                    rest,
                    outcome,
                ),
        decreases parser.rest().len(), pending(parser.stage()),
    {
        let ghost before = arguments;
        let ghost was = (parser.stage(), parser.rest());
        let next = parser.next_argument();
        let ghost step = (parser.stage(), parser.rest());
        match next {
            Ok(Some(argument)) => {
                let told = parse_argument(&mut arguments, &mut parser, argument, resolve);
                let ghost is = (parser.stage(), parser.rest());
                match told {
                    Some(exit) => {
                        proof {
                            let outcome = Err::<Arguments, (u8, Report<'a>)>(exit@);
                            assert(handled(
                                argument,
                                *resolve,
                                before,
                                step,
                                arguments,
                                is,
                                Some(exit@),
                            ));
                            assert(parsed(*resolve, before, was.0, was.1, outcome));
                        }
                        return Err(exit);
                    },
                    None => {
                        proof {
                            assert(advanced(was.0, was.1, is.0, is.1));
                            assert forall|outcome: Result<Arguments, (u8, Report<'a>)>| #[trigger]
                                parsed(*resolve, arguments, is.0, is.1, outcome) implies parsed(
                                *resolve,
                                first,
                                stage,
                                rest,
                                outcome,
                            ) by {
                                assert(handled(
                                    argument,
                                    *resolve,
                                    before,
                                    step,
                                    arguments,
                                    is,
                                    None::<(u8, Report<'a>)>,
                                ));
                                assert(parsed(*resolve, before, was.0, was.1, outcome));
                            }
                        }
                    },
                }
            },
            Ok(None) => {
                proof {
                    assert forall|outcome: Result<Arguments, (u8, Report<'a>)>| #[trigger]
                        concluded(*resolve, arguments, outcome) implies parsed(
                        *resolve,
                        first,
                        stage,
                        rest,
                        outcome,
                    ) by {
                        assert(parsed(*resolve, before, was.0, was.1, outcome));
                    }
                }
                break ;
            },
            Err(error) => {
                proof {
                    let outcome = Err::<Arguments, (u8, Report<'a>)>(
                        (ERROR_GENERIC, Report::Parser(error@)),
                    );
                    assert(parsed(*resolve, before, was.0, was.1, outcome));
                }
                return Err(Exit { code: ERROR_GENERIC, notice: Notice::Parser(error) });
            },
        }
    }
    let ghost done = arguments;
    let empty = match &arguments.command {
        Some(SubCommand::List(list)) => list.paths.is_empty(),
        Some(SubCommand::Tree(tree)) => tree.paths.is_empty(),
        None => {
            proof {
                assert(concluded(
                    *resolve,
                    done,
                    Err::<Arguments, (u8, Report<'a>)>(usage(Problem::NoSubCommand, None)),
                ));
            }
            return Err(
                Exit { code: ERROR_CLI_USAGE, notice: Notice::Usage(Problem::NoSubCommand, None) },
            );
        },
    };
    proof {
        if !empty {
            assert(concluded(*resolve, done, Ok::<Arguments, (u8, Report<'a>)>(done)));
        }
    }
    if empty {
        let ghost before = arguments;
        let answer = resolve(".");
        assert(call_ensures(*old(resolve), (".",), answer));
        match answer {
            Ok(path) => {
                match &mut arguments.command {
                    Some(SubCommand::List(list)) => {
                        list.paths.add(path.as_slice());
                    },
                    Some(SubCommand::Tree(tree)) => {
                        tree.paths.add(path.as_slice());
                    },
                    None => {},
                }
                proof {
                    assert(rooted(before, arguments, path@));
                    assert(concluded(
                        *resolve,
                        before,
                        Ok::<Arguments, (u8, Report<'a>)>(arguments),
                    ));
                }
            },
            Err(message) => {
                proof {
                    assert(concluded(
                        *resolve,
                        before,
                        Err::<Arguments, (u8, Report<'a>)>(
                            (ERROR_GENERIC, Report::Failure(message@)),
                        ),
                    ));
                }
                return Err(Exit { code: ERROR_GENERIC, notice: Notice::Failure(message) });
            },
        }
    }
    Ok(arguments)
}

} // verus!
