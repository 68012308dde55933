//! Renders a command schema as a help display.

use vstd::prelude::*;
use vstd::string::{StrSliceExecFns, StringSliceAdditionalSpecFns};
use vstd::utf8::{char_is_scalar, encode_scalar};

use crate::arguments::schema::{ArgumentSchema, CommandSchema, ValueSchema};

verus! {

/// The width that a name in a list is padded to.
pub const NAME_WIDTH: usize = 30;

/// The width that a long argument with its value is padded to.
pub const LONG_WIDTH: usize = 24;

/// The width of the indent before a default or a list of options.
pub const NOTE_INDENT: usize = 32;

/// `count` spaces.
pub open spec fn spaces(count: nat) -> Seq<u8> {
    Seq::new(count, |i: int| 0x20u8)
}

/// The spaces that `written` characters fall short of the width.
pub open spec fn padding(written: nat, width: nat) -> Seq<u8> {
    if written < width {
        spaces((width - written) as nat)
    } else {
        Seq::empty()
    }
}

/// The bytes of a text of `letters` characters, followed by as many spaces as the characters
/// fall short of the width.
pub open spec fn filled(bytes: Seq<u8>, letters: nat, width: nat) -> Seq<u8> {
    bytes + padding(letters, width)
}

/// The text where there is one, nothing where there is none.
pub open spec fn optional(text: Option<&str>) -> Seq<u8> {
    match text {
        Some(text) => text.spec_bytes(),
        None => Seq::empty(),
    }
}

/// The mark behind a value's name: `...` for a list that is required, `..?` for one that is
/// not, `?` for a single value that is not required, and nothing for one that is.
pub open spec fn mark(value: &ValueSchema<'_>) -> Seq<u8> {
    if value.list {
        if value.required {
            "...".spec_bytes()
        } else {
            "..?".spec_bytes()
        }
    } else if !value.required {
        "?".spec_bytes()
    } else {
        Seq::empty()
    }
}

/// The number of characters in the mark behind a value's name.
pub open spec fn mark_width(value: &ValueSchema<'_>) -> nat {
    if value.list {
        3
    } else if !value.required {
        1
    } else {
        0
    }
}

/// A value as the usage line and the list of arguments show it: ` [NAME` with its mark and `]`.
pub open spec fn bracketed(value: &ValueSchema<'_>) -> Seq<u8> {
    " [".spec_bytes() + value.name.spec_bytes() + mark(value) + "]".spec_bytes()
}

/// The texts with `, ` between them.
pub open spec fn listed(texts: Seq<&str>) -> Seq<u8>
    decreases texts.len(),
{
    if texts.len() == 0 {
        Seq::empty()
    } else if texts.len() == 1 {
        texts[0].spec_bytes()
    } else {
        listed(texts.drop_last()) + ", ".spec_bytes() + texts.last().spec_bytes()
    }
}

/// The line that tells a value's default, where it has one.
pub open spec fn default_note(default: Option<&str>) -> Seq<u8> {
    match default {
        Some(default) => spaces(NOTE_INDENT as nat) + " - default: ".spec_bytes()
            + default.spec_bytes() + "\n".spec_bytes(),
        None => Seq::empty(),
    }
}

/// The line that tells a value's options, where it has any.
pub open spec fn options_note(options: Option<Vec<&str>>) -> Seq<u8> {
    match options {
        Some(options) => spaces(NOTE_INDENT as nat) + " - options: ".spec_bytes() + listed(
            options@,
        ) + "\n".spec_bytes(),
        None => Seq::empty(),
    }
}

/// The lines below a value: its default and its options, each where there is one.
pub open spec fn notes(value: &ValueSchema<'_>) -> Seq<u8> {
    default_note(value.default) + options_note(value.options)
}

/// The line of a sub-command: its name, padded, and its description.
pub open spec fn command_line(command: &CommandSchema<'_>) -> Seq<u8> {
    "  ".spec_bytes() + filled(command.name.spec_bytes(), command.name@.len(), NAME_WIDTH as nat)
        + " ".spec_bytes()
        + command.about.spec_bytes() + "\n".spec_bytes()
}

/// The lines of a positional argument: its name, padded, its description, and its notes.
pub open spec fn positional_lines(value: &ValueSchema<'_>) -> Seq<u8> {
    "  ".spec_bytes() + filled(value.name.spec_bytes(), value.name@.len(), NAME_WIDTH as nat)
        + " ".spec_bytes() + optional(value.about) + "\n".spec_bytes() + notes(value)
}

/// The character as UTF-8.
pub open spec fn letter(c: char) -> Seq<u8> {
    encode_scalar(c as u32)
}

/// The short name of an argument as the list shows it, or an indent in its place.
pub open spec fn short_form(short: Option<char>) -> Seq<u8> {
    match short {
        Some(short) => "  -".spec_bytes() + letter(short) + ", ".spec_bytes(),
        None => "      ".spec_bytes(),
    }
}

/// A value as the list of arguments shows it behind the long name, where there is one.
pub open spec fn value_form(value: Option<ValueSchema<'_>>) -> Seq<u8> {
    match value {
        Some(value) => bracketed(&value),
        None => Seq::empty(),
    }
}

/// The notes of an argument's value, where it takes one.
pub open spec fn value_notes(value: Option<ValueSchema<'_>>) -> Seq<u8> {
    match value {
        Some(value) => notes(&value),
        None => Seq::empty(),
    }
}

/// The long name of an argument, followed by its value where it takes one.
pub open spec fn long_form(argument: &ArgumentSchema<'_>) -> Seq<u8> {
    argument.long.spec_bytes() + value_form(argument.value)
}

/// The number of characters in the long name of an argument and, where it takes one, in its
/// value as the list shows it.
pub open spec fn long_width(argument: &ArgumentSchema<'_>) -> nat {
    match argument.value {
        Some(value) => argument.long@.len() + 2 + value.name@.len() + mark_width(&value) + 1,
        None => argument.long@.len(),
    }
}

/// The lines of an argument: its short name or an indent of the same width, its long form,
/// padded, its description, and the notes of its value.
pub open spec fn argument_lines(argument: &ArgumentSchema<'_>) -> Seq<u8> {
    short_form(argument.short) + "--".spec_bytes() + filled(
        long_form(argument),
        long_width(argument),
        LONG_WIDTH as nat,
    ) + " ".spec_bytes() + argument.about.spec_bytes() + "\n".spec_bytes() + value_notes(
        argument.value,
    )
}

/// What each item renders as, one after the other.
pub open spec fn each<T>(items: Seq<T>, render: spec_fn(T) -> Seq<u8>) -> Seq<u8>
    decreases items.len(),
{
    if items.len() == 0 {
        Seq::empty()
    } else {
        each(items.drop_last(), render) + render(items.last())
    }
}

/// The version as the first line shows it, where there is one.
pub open spec fn version_form(version: Option<&str>) -> Seq<u8> {
    match version {
        Some(version) => " v".spec_bytes() + version.spec_bytes(),
        None => Seq::empty(),
    }
}

/// The text where the flag is set, nothing where it is not.
pub open spec fn shown(flag: bool, text: &str) -> Seq<u8> {
    if flag {
        text.spec_bytes()
    } else {
        Seq::empty()
    }
}

/// The positional arguments as the usage line shows them.
pub open spec fn usage_values(positionals: Option<Vec<ValueSchema<'_>>>) -> Seq<u8> {
    match positionals {
        Some(positionals) => each(positionals@, |value: ValueSchema<'_>| bracketed(&value)),
        None => Seq::empty(),
    }
}

/// The head of the help display: the name and version, the description, and the usage line.
pub open spec fn head(schema: &CommandSchema<'_>) -> Seq<u8> {
    schema.name.spec_bytes() + version_form(schema.version) + "\n  ".spec_bytes()
        + schema.about.spec_bytes() + "\n\nUsage: ".spec_bytes() + schema.name.spec_bytes()
        + shown(schema.commands is Some, " [SUBCOMMAND]") + shown(
        schema.arguments is Some,
        " [ARGUMENTS]",
    ) + usage_values(schema.positionals) + "\n".spec_bytes()
}

/// The sub-commands under their heading, where there are any.
pub open spec fn commands_section(commands: Option<Vec<CommandSchema<'_>>>) -> Seq<u8> {
    match commands {
        Some(commands) => "\nSub-commands:\n".spec_bytes() + each(
            commands@,
            |command: CommandSchema<'_>| command_line(&command),
        ),
        None => Seq::empty(),
    }
}

/// The positional arguments under their heading, where there are any.
pub open spec fn positionals_section(positionals: Option<Vec<ValueSchema<'_>>>) -> Seq<u8> {
    match positionals {
        Some(positionals) => "\nPositionals:\n".spec_bytes() + each(
            positionals@,
            |value: ValueSchema<'_>| positional_lines(&value),
        ),
        None => Seq::empty(),
    }
}

/// The arguments under their heading, where there are any.
pub open spec fn arguments_section(arguments: Option<Vec<ArgumentSchema<'_>>>) -> Seq<u8> {
    match arguments {
        Some(arguments) => "\nArguments:\n".spec_bytes() + each(
            arguments@,
            |argument: ArgumentSchema<'_>| argument_lines(&argument),
        ),
        None => Seq::empty(),
    }
}

/// The help display of a command: the head, then the sub-commands, the positional arguments and
/// the arguments, each under a heading of its own and only where the command has any.
pub open spec fn help(schema: &CommandSchema<'_>) -> Seq<u8> {
    head(schema) + commands_section(schema.commands) + positionals_section(schema.positionals)
        + arguments_section(schema.arguments)
}

/// What was written so far and one more piece come to what was written before and all pieces.
proof fn lemma_more(start: Seq<u8>, pieces: Seq<u8>, piece: Seq<u8>)
    ensures
        (start + pieces) + piece == start + (pieces + piece),
{
    assert((start + pieces) + piece =~= start + (pieces + piece));
}

/// Nothing written changes nothing.
proof fn lemma_none(start: Seq<u8>)
    ensures
        start + Seq::<u8>::empty() == start,
{
    assert(start + Seq::<u8>::empty() =~= start);
}

/// Appends the text.
fn put(out: &mut Vec<u8>, text: &str)
    ensures
        final(out)@ == old(out)@ + text.spec_bytes(),
{
    out.extend_from_slice(text.as_bytes());
}

/// Appends `count` spaces.
fn put_spaces(out: &mut Vec<u8>, count: usize)
    ensures
        final(out)@ == old(out)@ + spaces(count as nat),
{
    let mut i: usize = 0;
    assert(out@ =~= old(out)@ + spaces(0));
    while i < count
        invariant
            i <= count,
            out@ == old(out)@ + spaces(i as nat),
        decreases count - i,
    {
        out.push(0x20);
        assert(out@ =~= old(out)@ + spaces((i + 1) as nat));
        i = i + 1;
    }
}

/// Appends the spaces that `written` characters fall short of the width.
fn put_padding(out: &mut Vec<u8>, written: u128, width: usize)
    ensures
        final(out)@ == old(out)@ + padding(written as nat, width as nat),
{
    if written < width as u128 {
        put_spaces(out, width - written as usize);
    } else {
        proof {
            lemma_none(out@);
        }
    }
}

/// Appends the text, padded to the width.
fn put_filled(out: &mut Vec<u8>, text: &str, width: usize)
    ensures
        final(out)@ == old(out)@ + filled(text.spec_bytes(), text@.len(), width as nat),
{
    put(out, text);
    put_padding(out, text.unicode_len() as u128, width);
    proof {
        lemma_more(old(out)@, text.spec_bytes(), padding(text@.len(), width as nat));
    }
}

/// Appends the text where there is one.
fn put_optional(out: &mut Vec<u8>, text: Option<&str>)
    ensures
        final(out)@ == old(out)@ + optional(text),
{
    match text {
        Some(text) => {
            put(out, text);
        },
        None => {
            proof {
                lemma_none(out@);
            }
        },
    }
}

/// Appends the text where the flag is set.
fn put_shown(out: &mut Vec<u8>, flag: bool, text: &str)
    ensures
        final(out)@ == old(out)@ + shown(flag, text),
{
    if flag {
        put(out, text);
    } else {
        proof {
            lemma_none(out@);
        }
    }
}

/// Appends the mark of a value.
fn put_mark(out: &mut Vec<u8>, value: &ValueSchema<'_>)
    ensures
        final(out)@ == old(out)@ + mark(value),
{
    if value.list {
        if value.required {
            put(out, "...");
        } else {
            put(out, "..?");
        }
    } else if !value.required {
        put(out, "?");
    } else {
        proof {
            lemma_none(out@);
        }
    }
}

/// Appends a value as the usage line shows it.
fn put_bracketed(out: &mut Vec<u8>, value: &ValueSchema<'_>)
    ensures
        final(out)@ == old(out)@ + bracketed(value),
{
    let ghost start = out@;
    put(out, " [");
    let ghost mut pieces = " [".spec_bytes();
    put(out, value.name);
    proof {
        lemma_more(start, pieces, value.name.spec_bytes());
        pieces = pieces + value.name.spec_bytes();
    }
    put_mark(out, value);
    proof {
        lemma_more(start, pieces, mark(value));
        pieces = pieces + mark(value);
    }
    put(out, "]");
    proof {
        lemma_more(start, pieces, "]".spec_bytes());
    }
}

/// Appends the texts with `, ` between them.
fn put_listed(out: &mut Vec<u8>, texts: &Vec<&str>)
    ensures
        final(out)@ == old(out)@ + listed(texts@),
{
    let ghost start = out@;
    let mut i: usize = 0;
    proof {
        assert(texts@.take(0) =~= Seq::<&str>::empty());
        lemma_none(start);
    }
    while i < texts.len()
        invariant
            i <= texts@.len(),
            out@ == start + listed(texts@.take(i as int)),
        decreases texts@.len() - i,
    {
        let ghost before = texts@.take(i as int);
        let ghost after = texts@.take(i + 1);
        proof {
            assert(after.drop_last() =~= before);
            assert(after.last() == texts@[i as int]);
        }
        if i > 0 {
            put(out, ", ");
            put(out, texts[i]);
            proof {
                lemma_more(start, listed(before), ", ".spec_bytes());
                lemma_more(
                    start,
                    listed(before) + ", ".spec_bytes(),
                    texts@[i as int].spec_bytes(),
                );
            }
        } else {
            put(out, texts[i]);
            proof {
                assert(listed(before) =~= Seq::<u8>::empty());
                lemma_none(start);
            }
        }
        i = i + 1;
    }
    assert(texts@.take(i as int) =~= texts@);
}

/// Appends the line that tells a value's default.
fn put_default_note(out: &mut Vec<u8>, default: Option<&str>)
    ensures
        final(out)@ == old(out)@ + default_note(default),
{
    let ghost start = out@;
    match default {
        Some(default) => {
            put_spaces(out, NOTE_INDENT);
            let ghost mut pieces = spaces(NOTE_INDENT as nat);
            put(out, " - default: ");
            proof {
                lemma_more(start, pieces, " - default: ".spec_bytes());
                pieces = pieces + " - default: ".spec_bytes();
            }
            put(out, default);
            proof {
                lemma_more(start, pieces, default.spec_bytes());
                pieces = pieces + default.spec_bytes();
            }
            put(out, "\n");
            proof {
                lemma_more(start, pieces, "\n".spec_bytes());
            }
        },
        None => {
            proof {
                lemma_none(start);
            }
        },
    }
}

/// Appends the line that tells a value's options.
fn put_options_note(out: &mut Vec<u8>, options: &Option<Vec<&str>>)
    ensures
        final(out)@ == old(out)@ + options_note(*options),
{
    let ghost start = out@;
    match options {
        Some(options) => {
            put_spaces(out, NOTE_INDENT);
            let ghost mut pieces = spaces(NOTE_INDENT as nat);
            put(out, " - options: ");
            proof {
                lemma_more(start, pieces, " - options: ".spec_bytes());
                pieces = pieces + " - options: ".spec_bytes();
            }
            put_listed(out, options);
            proof {
                lemma_more(start, pieces, listed(options@));
                pieces = pieces + listed(options@);
            }
            put(out, "\n");
            proof {
                lemma_more(start, pieces, "\n".spec_bytes());
            }
        },
        None => {
            proof {
                lemma_none(start);
            }
        },
    }
}

/// Appends the notes of a value.
fn put_notes(out: &mut Vec<u8>, value: &ValueSchema<'_>)
    ensures
        final(out)@ == old(out)@ + notes(value),
{
    let ghost start = out@;
    put_default_note(out, value.default);
    put_options_note(out, &value.options);
    proof {
        lemma_more(start, default_note(value.default), options_note(value.options));
    }
}

/// Appends the line of a sub-command.
fn put_command_line(out: &mut Vec<u8>, command: &CommandSchema<'_>)
    ensures
        final(out)@ == old(out)@ + command_line(command),
{
    let ghost start = out@;
    put(out, "  ");
    let ghost mut pieces = "  ".spec_bytes();
    put_filled(out, command.name, NAME_WIDTH);
    proof {
        let name = filled(command.name.spec_bytes(), command.name@.len(), NAME_WIDTH as nat);
        lemma_more(start, pieces, name);
        pieces = pieces + name;
    }
    put(out, " ");
    proof {
        lemma_more(start, pieces, " ".spec_bytes());
        pieces = pieces + " ".spec_bytes();
    }
    put(out, command.about);
    proof {
        lemma_more(start, pieces, command.about.spec_bytes());
        pieces = pieces + command.about.spec_bytes();
    }
    put(out, "\n");
    proof {
        lemma_more(start, pieces, "\n".spec_bytes());
    }
}

/// Appends the lines of a positional argument.
fn put_positional_lines(out: &mut Vec<u8>, value: &ValueSchema<'_>)
    ensures
        final(out)@ == old(out)@ + positional_lines(value),
{
    let ghost start = out@;
    put(out, "  ");
    let ghost mut pieces = "  ".spec_bytes();
    put_filled(out, value.name, NAME_WIDTH);
    proof {
        let name = filled(value.name.spec_bytes(), value.name@.len(), NAME_WIDTH as nat);
        lemma_more(start, pieces, name);
        pieces = pieces + name;
    }
    put(out, " ");
    proof {
        lemma_more(start, pieces, " ".spec_bytes());
        pieces = pieces + " ".spec_bytes();
    }
    put_optional(out, value.about);
    proof {
        lemma_more(start, pieces, optional(value.about));
        pieces = pieces + optional(value.about);
    }
    put(out, "\n");
    proof {
        lemma_more(start, pieces, "\n".spec_bytes());
        pieces = pieces + "\n".spec_bytes();
    }
    put_notes(out, value);
    proof {
        lemma_more(start, pieces, notes(value));
    }
}

/// Appends the character as UTF-8.
fn put_letter(out: &mut Vec<u8>, c: char)
    ensures
        final(out)@ == old(out)@ + letter(c),
{
    let scalar: u32 = c as u32;
    proof {
        char_is_scalar(c);
    }
    if scalar <= 0x7F {
        out.push((scalar & 0x7F) as u8);
    } else if scalar <= 0x7FF {
        out.push(0xC0 | ((scalar >> 6) & 0x1F) as u8);
        out.push(0x80 | (scalar & 0x3F) as u8);
    } else if scalar <= 0xFFFF {
        out.push(0xE0 | ((scalar >> 12) & 0x0F) as u8);
        out.push(0x80 | ((scalar >> 6) & 0x3F) as u8);
        out.push(0x80 | (scalar & 0x3F) as u8);
    } else {
        out.push(0xF0 | ((scalar >> 18) & 0x7) as u8);
        out.push(0x80 | ((scalar >> 12) & 0x3F) as u8);
        out.push(0x80 | ((scalar >> 6) & 0x3F) as u8);
        out.push(0x80 | (scalar & 0x3F) as u8);
    }
    assert(out@ =~= old(out)@ + letter(c));
}

/// Appends the short name of an argument, or an indent.
fn put_short_form(out: &mut Vec<u8>, short: Option<char>)
    ensures
        final(out)@ == old(out)@ + short_form(short),
{
    let ghost start = out@;
    match short {
        Some(short) => {
            put(out, "  -");
            let ghost mut pieces = "  -".spec_bytes();
            put_letter(out, short);
            proof {
                lemma_more(start, pieces, letter(short));
                pieces = pieces + letter(short);
            }
            put(out, ", ");
            proof {
                lemma_more(start, pieces, ", ".spec_bytes());
            }
        },
        None => {
            put(out, "      ");
        },
    }
}

/// Appends the long name of an argument, followed by its value where it takes one.
fn put_long_form(out: &mut Vec<u8>, argument: &ArgumentSchema<'_>)
    ensures
        final(out)@ == old(out)@ + long_form(argument),
{
    let ghost start = out@;
    put(out, argument.long);
    match &argument.value {
        Some(value) => {
            put_bracketed(out, value);
        },
        None => {
            proof {
                lemma_none(out@);
            }
        },
    }
    proof {
        lemma_more(start, argument.long.spec_bytes(), value_form(argument.value));
    }
}

/// Appends the notes of an argument's value, where it takes one.
fn put_value_notes(out: &mut Vec<u8>, value: &Option<ValueSchema<'_>>)
    ensures
        final(out)@ == old(out)@ + value_notes(*value),
{
    match value {
        Some(value) => {
            put_notes(out, value);
        },
        None => {
            proof {
                lemma_none(out@);
            }
        },
    }
}

/// Counts the characters in the mark behind a value's name.
fn count_mark(value: &ValueSchema<'_>) -> (r: u128)
    ensures
        r == mark_width(value),
{
    if value.list {
        3
    } else if !value.required {
        1
    } else {
        0
    }
}

/// Counts the characters in the long form of an argument.
fn count_long(argument: &ArgumentSchema<'_>) -> (r: u128)
    ensures
        r == long_width(argument),
{
    let long: u128 = argument.long.unicode_len() as u128;
    match &argument.value {
        Some(value) => {
            let name: u128 = value.name.unicode_len() as u128;
            long + 2 + name + count_mark(value) + 1
        },
        None => long,
    }
}

/// Appends the lines of an argument.
fn put_argument_lines(out: &mut Vec<u8>, argument: &ArgumentSchema<'_>)
    ensures
        final(out)@ == old(out)@ + argument_lines(argument),
{
    let ghost start = out@;
    put_short_form(out, argument.short);
    let ghost mut pieces = short_form(argument.short);
    put(out, "--");
    proof {
        lemma_more(start, pieces, "--".spec_bytes());
        pieces = pieces + "--".spec_bytes();
    }
    put_long_form(out, argument);
    put_padding(out, count_long(argument), LONG_WIDTH);
    proof {
        let long = long_form(argument);
        let wide = long_width(argument);
        lemma_more(start + pieces, long, padding(wide, LONG_WIDTH as nat));
        lemma_more(start, pieces, filled(long, wide, LONG_WIDTH as nat));
        pieces = pieces + filled(long, wide, LONG_WIDTH as nat);
    }
    put(out, " ");
    proof {
        lemma_more(start, pieces, " ".spec_bytes());
        pieces = pieces + " ".spec_bytes();
    }
    put(out, argument.about);
    proof {
        lemma_more(start, pieces, argument.about.spec_bytes());
        pieces = pieces + argument.about.spec_bytes();
    }
    put(out, "\n");
    proof {
        lemma_more(start, pieces, "\n".spec_bytes());
        pieces = pieces + "\n".spec_bytes();
    }
    put_value_notes(out, &argument.value);
    proof {
        lemma_more(start, pieces, value_notes(argument.value));
    }
}

/// Appends the version as the first line shows it.
fn put_version_form(out: &mut Vec<u8>, version: Option<&str>)
    ensures
        final(out)@ == old(out)@ + version_form(version),
{
    let ghost start = out@;
    match version {
        Some(version) => {
            put(out, " v");
            put(out, version);
            proof {
                lemma_more(start, " v".spec_bytes(), version.spec_bytes());
            }
        },
        None => {
            proof {
                lemma_none(start);
            }
        },
    }
}

/// Appends the positional arguments as the usage line shows them.
fn put_usage_values(out: &mut Vec<u8>, positionals: &Option<Vec<ValueSchema<'_>>>)
    ensures
        final(out)@ == old(out)@ + usage_values(*positionals),
{
    let ghost start = out@;
    proof {
        lemma_none(start);
    }
    match positionals {
        Some(positionals) => {
            let ghost render = |value: ValueSchema<'_>| bracketed(&value);
            let mut i: usize = 0;
            assert(positionals@.take(0) =~= Seq::<ValueSchema<'_>>::empty());
            while i < positionals.len()
                invariant
                    i <= positionals@.len(),
                    render == |value: ValueSchema<'_>| bracketed(&value),
                    out@ == start + each(positionals@.take(i as int), render),
                decreases positionals@.len() - i,
            {
                proof {
                    assert(positionals@.take(i + 1).drop_last() =~= positionals@.take(i as int));
                    assert(positionals@.take(i + 1).last() == positionals@[i as int]);
                    lemma_more(
                        start,
                        each(positionals@.take(i as int), render),
                        bracketed(&positionals@[i as int]),
                    );
                }
                put_bracketed(out, &positionals[i]);
                i = i + 1;
            }
            assert(positionals@.take(i as int) =~= positionals@);
        },
        None => {},
    }
}

/// Appends the head of the help display.
fn put_head(out: &mut Vec<u8>, schema: &CommandSchema<'_>)
    ensures
        final(out)@ == old(out)@ + head(schema),
{
    let ghost start = out@;
    put(out, schema.name);
    let ghost mut pieces = schema.name.spec_bytes();
    put_version_form(out, schema.version);
    proof {
        lemma_more(start, pieces, version_form(schema.version));
        pieces = pieces + version_form(schema.version);
    }
    put(out, "\n  ");
    proof {
        lemma_more(start, pieces, "\n  ".spec_bytes());
        pieces = pieces + "\n  ".spec_bytes();
    }
    put(out, schema.about);
    proof {
        lemma_more(start, pieces, schema.about.spec_bytes());
        pieces = pieces + schema.about.spec_bytes();
    }
    put(out, "\n\nUsage: ");
    proof {
        lemma_more(start, pieces, "\n\nUsage: ".spec_bytes());
        pieces = pieces + "\n\nUsage: ".spec_bytes();
    }
    put(out, schema.name);
    proof {
        lemma_more(start, pieces, schema.name.spec_bytes());
        pieces = pieces + schema.name.spec_bytes();
    }
    put_shown(out, schema.commands.is_some(), " [SUBCOMMAND]");
    proof {
        lemma_more(start, pieces, shown(schema.commands is Some, " [SUBCOMMAND]"));
        pieces = pieces + shown(schema.commands is Some, " [SUBCOMMAND]");
    }
    put_shown(out, schema.arguments.is_some(), " [ARGUMENTS]");
    proof {
        lemma_more(start, pieces, shown(schema.arguments is Some, " [ARGUMENTS]"));
        pieces = pieces + shown(schema.arguments is Some, " [ARGUMENTS]");
    }
    put_usage_values(out, &schema.positionals);
    proof {
        lemma_more(start, pieces, usage_values(schema.positionals));
        pieces = pieces + usage_values(schema.positionals);
    }
    put(out, "\n");
    proof {
        lemma_more(start, pieces, "\n".spec_bytes());
    }
}

/// Appends the sub-commands under their heading.
fn put_commands_section(out: &mut Vec<u8>, commands: &Option<Vec<CommandSchema<'_>>>)
    ensures
        final(out)@ == old(out)@ + commands_section(*commands),
{
    let ghost start = out@;
    match commands {
        Some(commands) => {
            put(out, "\nSub-commands:\n");
            let ghost lead = out@;
            let ghost render = |command: CommandSchema<'_>| command_line(&command);
            let mut i: usize = 0;
            proof {
                assert(commands@.take(0) =~= Seq::<CommandSchema<'_>>::empty());
                lemma_none(lead);
            }
            while i < commands.len()
                invariant
                    i <= commands@.len(),
                    render == |command: CommandSchema<'_>| command_line(&command),
                    out@ == lead + each(commands@.take(i as int), render),
                decreases commands@.len() - i,
            {
                proof {
                    assert(commands@.take(i + 1).drop_last() =~= commands@.take(i as int));
                    assert(commands@.take(i + 1).last() == commands@[i as int]);
                    lemma_more(
                        lead,
                        each(commands@.take(i as int), render),
                        command_line(&commands@[i as int]),
                    );
                }
                put_command_line(out, &commands[i]);
                i = i + 1;
            }
            proof {
                assert(commands@.take(i as int) =~= commands@);
                lemma_more(start, "\nSub-commands:\n".spec_bytes(), each(commands@, render));
            }
        },
        None => {
            proof {
                lemma_none(start);
            }
        },
    }
}

/// Appends the positional arguments under their heading.
fn put_positionals_section(out: &mut Vec<u8>, positionals: &Option<Vec<ValueSchema<'_>>>)
    ensures
        final(out)@ == old(out)@ + positionals_section(*positionals),
{
    let ghost start = out@;
    match positionals {
        Some(positionals) => {
            put(out, "\nPositionals:\n");
            let ghost lead = out@;
            let ghost render = |value: ValueSchema<'_>| positional_lines(&value);
            let mut i: usize = 0;
            proof {
                assert(positionals@.take(0) =~= Seq::<ValueSchema<'_>>::empty());
                lemma_none(lead);
            }
            while i < positionals.len()
                invariant
                    i <= positionals@.len(),
                    render == |value: ValueSchema<'_>| positional_lines(&value),
                    out@ == lead + each(positionals@.take(i as int), render),
                decreases positionals@.len() - i,
            {
                proof {
                    assert(positionals@.take(i + 1).drop_last() =~= positionals@.take(i as int));
                    assert(positionals@.take(i + 1).last() == positionals@[i as int]);
                    lemma_more(
                        lead,
                        each(positionals@.take(i as int), render),
                        positional_lines(&positionals@[i as int]),
                    );
                }
                put_positional_lines(out, &positionals[i]);
                i = i + 1;
            }
            proof {
                assert(positionals@.take(i as int) =~= positionals@);
                lemma_more(start, "\nPositionals:\n".spec_bytes(), each(positionals@, render));
            }
        },
        None => {
            proof {
                lemma_none(start);
            }
        },
    }
}

/// Appends the arguments under their heading.
fn put_arguments_section(out: &mut Vec<u8>, arguments: &Option<Vec<ArgumentSchema<'_>>>)
    ensures
        final(out)@ == old(out)@ + arguments_section(*arguments),
{
    let ghost start = out@;
    match arguments {
        Some(arguments) => {
            put(out, "\nArguments:\n");
            let ghost lead = out@;
            let ghost render = |argument: ArgumentSchema<'_>| argument_lines(&argument);
            let mut i: usize = 0;
            proof {
                assert(arguments@.take(0) =~= Seq::<ArgumentSchema<'_>>::empty());
                lemma_none(lead);
            }
            while i < arguments.len()
                invariant
                    i <= arguments@.len(),
                    render == |argument: ArgumentSchema<'_>| argument_lines(&argument),
                    out@ == lead + each(arguments@.take(i as int), render),
                decreases arguments@.len() - i,
            {
                proof {
                    assert(arguments@.take(i + 1).drop_last() =~= arguments@.take(i as int));
                    assert(arguments@.take(i + 1).last() == arguments@[i as int]);
                    lemma_more(
                        lead,
                        each(arguments@.take(i as int), render),
                        argument_lines(&arguments@[i as int]),
                    );
                }
                put_argument_lines(out, &arguments[i]);
                i = i + 1;
            }
            proof {
                assert(arguments@.take(i as int) =~= arguments@);
                lemma_more(start, "\nArguments:\n".spec_bytes(), each(arguments@, render));
            }
        },
        None => {
            proof {
                lemma_none(start);
            }
        },
    }
}

/// Writes the given command schema into the provided buffer as a help display.
///
/// Any schema is written, valid or not. Texts are padded by their characters, not their bytes.
pub fn write_help(schema: &CommandSchema<'_>, out: &mut Vec<u8>)
    ensures
        final(out)@ == old(out)@ + help(schema),
{
    let ghost start = out@;
    put_head(out, schema);
    let ghost mut pieces = head(schema);
    put_commands_section(out, &schema.commands);
    proof {
        lemma_more(start, pieces, commands_section(schema.commands));
        pieces = pieces + commands_section(schema.commands);
    }
    put_positionals_section(out, &schema.positionals);
    proof {
        lemma_more(start, pieces, positionals_section(schema.positionals));
        pieces = pieces + positionals_section(schema.positionals);
    }
    put_arguments_section(out, &schema.arguments);
    proof {
        lemma_more(start, pieces, arguments_section(schema.arguments));
    }
}

} // verus!
