//! Outlines the command: its arguments, its sub-commands and theirs.

use vstd::prelude::*;

use crate::arguments::schema::{
    alike, folded, valid_arguments, valid_positionals, ArgumentSchema, CommandSchema,
    ValueSchema,
};

verus! {

/// Two texts that differ at one place, the case of letters set aside, are not alike.
proof fn lemma_unlike(left: Seq<char>, right: Seq<char>, at: int)
    requires
        0 <= at < left.len(),
        left.len() == right.len() ==> folded(left[at]) != folded(right[at]),
    ensures
        !alike(left, right),
{
}

/// What an optional text reads as.
pub open spec fn read(text: Option<&str>) -> Option<Seq<char>> {
    match text {
        Some(text) => Some(text@),
        None => None,
    }
}

/// What a list of texts reads as.
pub open spec fn read_all(texts: Option<Vec<&str>>) -> Option<Seq<Seq<char>>> {
    match texts {
        Some(texts) => Some(Seq::new(texts@.len(), |i: int| texts@[i]@)),
        None => None,
    }
}

/// Whether the value reads as told: its name, its description, whether it is a list, whether it
/// is required, its default, and its options.
pub open spec fn value_reads(
    value: ValueSchema<'_>,
    name: Seq<char>,
    about: Option<Seq<char>>,
    list: bool,
    required: bool,
    default: Option<Seq<char>>,
    options: Option<Seq<Seq<char>>>,
) -> bool {
    &&& value.name@ == name
    &&& read(value.about) == about
    &&& value.list == list
    &&& value.required == required
    &&& read(value.default) == default
    &&& read_all(value.options) == options
}

/// Whether the argument reads as told: its long name, its short name, and its description.
pub open spec fn argument_reads(
    argument: ArgumentSchema<'_>,
    long: Seq<char>,
    short: Option<char>,
    about: Seq<char>,
) -> bool {
    &&& argument.long@ == long
    &&& argument.short == short
    &&& argument.about@ == about
}

/// Whether the command reads as told: its name, its description, and its version.
pub open spec fn command_reads(
    command: CommandSchema<'_>,
    name: Seq<char>,
    about: Seq<char>,
    version: Option<Seq<char>>,
) -> bool {
    &&& command.name@ == name
    &&& command.about@ == about
    &&& read(command.version) == version
}

/// Whether the value is the one that [`paths_value`] gives.
pub open spec fn is_paths_value(value: ValueSchema<'_>) -> bool {
    value_reads(
        value,
        "PATHS"@,
        Some("The paths to display"@),
        true,
        false,
        None,
        None,
    )
}

/// The positional paths of both sub-commands.
pub fn paths_value() -> (r: ValueSchema<'static>)
    ensures
        r.valid(),
        is_paths_value(r),
{
    proof {
        reveal_strlit("PATHS");
        reveal_strlit("The paths to display");
    }
    ValueSchema {
        name: "PATHS",
        about: Some("The paths to display"),
        list: true,
        required: false,
        default: None,
        options: None,
    }
}

/// Whether the value is the one that [`path_value`] gives.
pub open spec fn is_path_value(value: ValueSchema<'_>) -> bool {
    value_reads(
        value,
        "PATH"@,
        Some("The path"@),
        false,
        true,
        None,
        None,
    )
}

/// The path that `--exclude` and `--include` take.
pub fn path_value() -> (r: ValueSchema<'static>)
    ensures
        r.valid(),
        is_path_value(r),
{
    proof {
        reveal_strlit("PATH");
        reveal_strlit("The path");
    }
    ValueSchema {
        name: "PATH",
        about: Some("The path"),
        list: false,
        required: true,
        default: None,
        options: None,
    }
}

/// Whether the value is the one that [`color_value`] gives.
pub open spec fn is_color_value(value: ValueSchema<'_>) -> bool {
    value_reads(
        value,
        "CHOICE"@,
        None,
        false,
        true,
        Some("auto"@),
        Some(seq!["auto"@, "always"@, "never"@]),
    )
}

/// The choice that `--color` takes.
pub fn color_value() -> (r: ValueSchema<'static>)
    ensures
        r.valid(),
        is_color_value(r),
{
    proof {
        reveal_strlit("CHOICE");
        reveal_strlit("auto");
        reveal_strlit("always");
        reveal_strlit("never");
    }
    let options = vec!["auto", "always", "never"];
    proof {
        lemma_unlike(options@[0]@, options@[1]@, 0);
        lemma_unlike(options@[0]@, options@[2]@, 0);
        lemma_unlike(options@[1]@, options@[2]@, 0);
        assert(read_all(Some(options)).unwrap() =~= seq!["auto"@, "always"@, "never"@]);
    }
    assert(alike(options@[0]@, "auto"@));
    ValueSchema {
        name: "CHOICE",
        about: None,
        list: false,
        required: true,
        default: Some("auto"),
        options: Some(options),
    }
}

/// Whether the value is the one that [`sort_order_value`] gives.
pub open spec fn is_sort_order_value(value: ValueSchema<'_>) -> bool {
    value_reads(
        value,
        "ORDER"@,
        None,
        true,
        true,
        Some("directories,files,name"@),
        Some(seq!["name"@, "accessed"@, "created"@, "modified"@, "size"@, "files"@, "symlinks"@, "directories"@, "hidden"@, "reverse-*"@]),
    )
}

/// The orders that `--sort` takes.
pub fn sort_order_value() -> (r: ValueSchema<'static>)
    ensures
        r.valid(),
        is_sort_order_value(r),
{
    proof {
        reveal_strlit("ORDER");
        reveal_strlit("name");
        reveal_strlit("accessed");
        reveal_strlit("created");
        reveal_strlit("modified");
        reveal_strlit("size");
        reveal_strlit("files");
        reveal_strlit("symlinks");
        reveal_strlit("directories");
        reveal_strlit("hidden");
        reveal_strlit("reverse-*");
        reveal_strlit("directories,files,name");
    }
    let options = vec!["name", "accessed", "created", "modified", "size", "files", "symlinks", "directories", "hidden", "reverse-*"];
    proof {
        lemma_unlike(options@[0]@, options@[1]@, 0);
        lemma_unlike(options@[0]@, options@[2]@, 0);
        lemma_unlike(options@[0]@, options@[3]@, 0);
        lemma_unlike(options@[0]@, options@[4]@, 0);
        lemma_unlike(options@[0]@, options@[5]@, 0);
        lemma_unlike(options@[0]@, options@[6]@, 0);
        lemma_unlike(options@[0]@, options@[7]@, 0);
        lemma_unlike(options@[0]@, options@[8]@, 0);
        lemma_unlike(options@[0]@, options@[9]@, 0);
        lemma_unlike(options@[1]@, options@[2]@, 0);
        lemma_unlike(options@[1]@, options@[3]@, 0);
        lemma_unlike(options@[1]@, options@[4]@, 0);
        lemma_unlike(options@[1]@, options@[5]@, 0);
        lemma_unlike(options@[1]@, options@[6]@, 0);
        lemma_unlike(options@[1]@, options@[7]@, 0);
        lemma_unlike(options@[1]@, options@[8]@, 0);
        lemma_unlike(options@[1]@, options@[9]@, 0);
        lemma_unlike(options@[2]@, options@[3]@, 0);
        lemma_unlike(options@[2]@, options@[4]@, 0);
        lemma_unlike(options@[2]@, options@[5]@, 0);
        lemma_unlike(options@[2]@, options@[6]@, 0);
        lemma_unlike(options@[2]@, options@[7]@, 0);
        lemma_unlike(options@[2]@, options@[8]@, 0);
        lemma_unlike(options@[2]@, options@[9]@, 0);
        lemma_unlike(options@[3]@, options@[4]@, 0);
        lemma_unlike(options@[3]@, options@[5]@, 0);
        lemma_unlike(options@[3]@, options@[6]@, 0);
        lemma_unlike(options@[3]@, options@[7]@, 0);
        lemma_unlike(options@[3]@, options@[8]@, 0);
        lemma_unlike(options@[3]@, options@[9]@, 0);
        lemma_unlike(options@[4]@, options@[5]@, 0);
        lemma_unlike(options@[4]@, options@[6]@, 0);
        lemma_unlike(options@[4]@, options@[7]@, 0);
        lemma_unlike(options@[4]@, options@[8]@, 0);
        lemma_unlike(options@[4]@, options@[9]@, 0);
        lemma_unlike(options@[5]@, options@[6]@, 0);
        lemma_unlike(options@[5]@, options@[7]@, 0);
        lemma_unlike(options@[5]@, options@[8]@, 0);
        lemma_unlike(options@[5]@, options@[9]@, 0);
        lemma_unlike(options@[6]@, options@[7]@, 0);
        lemma_unlike(options@[6]@, options@[8]@, 0);
        lemma_unlike(options@[6]@, options@[9]@, 0);
        lemma_unlike(options@[7]@, options@[8]@, 0);
        lemma_unlike(options@[7]@, options@[9]@, 0);
        lemma_unlike(options@[8]@, options@[9]@, 0);
        assert(read_all(Some(options)).unwrap() =~= seq!["name"@, "accessed"@, "created"@, "modified"@, "size"@, "files"@, "symlinks"@, "directories"@, "hidden"@, "reverse-*"@]);
    }
    ValueSchema {
        name: "ORDER",
        about: None,
        list: true,
        required: true,
        default: Some("directories,files,name"),
        options: Some(options),
    }
}

/// Whether the value is the one that [`mode_value`] gives.
pub open spec fn is_mode_value(value: ValueSchema<'_>) -> bool {
    value_reads(
        value,
        "CHOICE"@,
        None,
        false,
        true,
        Some("hide"@),
        Some(seq!["hide"@, "show"@, "extended"@]),
    )
}

/// The choice that `--mode` takes.
pub fn mode_value() -> (r: ValueSchema<'static>)
    ensures
        r.valid(),
        is_mode_value(r),
{
    proof {
        reveal_strlit("CHOICE");
        reveal_strlit("hide");
        reveal_strlit("show");
        reveal_strlit("extended");
    }
    let options = vec!["hide", "show", "extended"];
    proof {
        lemma_unlike(options@[0]@, options@[1]@, 0);
        lemma_unlike(options@[0]@, options@[2]@, 0);
        lemma_unlike(options@[1]@, options@[2]@, 0);
        assert(read_all(Some(options)).unwrap() =~= seq!["hide"@, "show"@, "extended"@]);
    }
    assert(alike(options@[0]@, "hide"@));
    ValueSchema {
        name: "CHOICE",
        about: None,
        list: false,
        required: true,
        default: Some("hide"),
        options: Some(options),
    }
}

/// Whether the value is the one that [`size_value`] gives.
pub open spec fn is_size_value(value: ValueSchema<'_>) -> bool {
    value_reads(
        value,
        "CHOICE"@,
        None,
        false,
        true,
        Some("hide"@),
        Some(seq!["hide"@, "simple"@, "base-2"@, "base-10"@]),
    )
}

/// The choice that `--size` takes.
pub fn size_value() -> (r: ValueSchema<'static>)
    ensures
        r.valid(),
        is_size_value(r),
{
    proof {
        reveal_strlit("CHOICE");
        reveal_strlit("hide");
        reveal_strlit("simple");
        reveal_strlit("base-2");
        reveal_strlit("base-10");
    }
    let options = vec!["hide", "simple", "base-2", "base-10"];
    proof {
        lemma_unlike(options@[0]@, options@[1]@, 0);
        lemma_unlike(options@[0]@, options@[2]@, 0);
        lemma_unlike(options@[0]@, options@[3]@, 0);
        lemma_unlike(options@[1]@, options@[2]@, 0);
        lemma_unlike(options@[1]@, options@[3]@, 0);
        lemma_unlike(options@[2]@, options@[3]@, 0);
        assert(read_all(Some(options)).unwrap() =~= seq!["hide"@, "simple"@, "base-2"@, "base-10"@]);
    }
    assert(alike(options@[0]@, "hide"@));
    ValueSchema {
        name: "CHOICE",
        about: None,
        list: false,
        required: true,
        default: Some("hide"),
        options: Some(options),
    }
}

/// Whether the value is the one that [`time_value`] gives.
pub open spec fn is_time_value(value: ValueSchema<'_>) -> bool {
    value_reads(
        value,
        "CHOICE"@,
        None,
        false,
        true,
        Some("hide"@),
        Some(seq!["hide"@, "simple"@, "iso8601"@]),
    )
}

/// The choice that `--created`, `--accessed` and `--modified` take.
pub fn time_value() -> (r: ValueSchema<'static>)
    ensures
        r.valid(),
        is_time_value(r),
{
    proof {
        reveal_strlit("CHOICE");
        reveal_strlit("hide");
        reveal_strlit("simple");
        reveal_strlit("iso8601");
    }
    let options = vec!["hide", "simple", "iso8601"];
    proof {
        lemma_unlike(options@[0]@, options@[1]@, 0);
        lemma_unlike(options@[0]@, options@[2]@, 0);
        lemma_unlike(options@[1]@, options@[2]@, 0);
        assert(read_all(Some(options)).unwrap() =~= seq!["hide"@, "simple"@, "iso8601"@]);
    }
    assert(alike(options@[0]@, "hide"@));
    ValueSchema {
        name: "CHOICE",
        about: None,
        list: false,
        required: true,
        default: Some("hide"),
        options: Some(options),
    }
}

/// Whether the value is the one that [`depth_value`] gives.
pub open spec fn is_depth_value(value: ValueSchema<'_>) -> bool {
    value_reads(
        value,
        "DEPTH"@,
        None,
        false,
        true,
        None,
        None,
    )
}

/// The depth that `--depth` takes.
pub fn depth_value() -> (r: ValueSchema<'static>)
    ensures
        r.valid(),
        is_depth_value(r),
{
    proof {
        reveal_strlit("DEPTH");
    }
    ValueSchema {
        name: "DEPTH",
        about: None,
        list: false,
        required: true,
        default: None,
        options: None,
    }
}

/// Whether the value is the one that [`subcommand_value`] gives.
pub open spec fn is_subcommand_value(value: ValueSchema<'_>) -> bool {
    value_reads(
        value,
        "SUBCOMMAND"@,
        None,
        false,
        false,
        None,
        Some(seq!["list"@, "tree"@]),
    )
}

/// The sub-command that `--help` takes before a sub-command is chosen.
pub fn subcommand_value() -> (r: ValueSchema<'static>)
    ensures
        r.valid(),
        is_subcommand_value(r),
{
    proof {
        reveal_strlit("SUBCOMMAND");
        reveal_strlit("list");
        reveal_strlit("tree");
    }
    let options = vec!["list", "tree"];
    proof {
        lemma_unlike(options@[0]@, options@[1]@, 0);
        assert(read_all(Some(options)).unwrap() =~= seq!["list"@, "tree"@]);
    }
    ValueSchema {
        name: "SUBCOMMAND",
        about: None,
        list: false,
        required: false,
        default: None,
        options: Some(options),
    }
}

/// Whether the argument is the one that [`help_argument`] gives.
pub open spec fn is_help_argument(argument: ArgumentSchema<'_>) -> bool {
    &&& argument_reads(argument, "help"@, Some('h'), "Shows the command's usage"@)
    &&& argument.value is None
}

/// `--help` within a sub-command.
pub fn help_argument() -> (r: ArgumentSchema<'static>)
    ensures
        r.valid(),
        is_help_argument(r),
{
    proof {
        reveal_strlit("help");
        reveal_strlit("Shows the command's usage");
    }
    ArgumentSchema {
        long: "help",
        short: Some('h'),
        about: "Shows the command's usage",
        value: None,
    }
}

/// Whether the argument is the one that [`color_argument`] gives.
pub open spec fn is_color_argument(argument: ArgumentSchema<'_>) -> bool {
    &&& argument_reads(argument, "color"@, None, "Determines whether to output using color"@)
    &&& argument.value matches Some(value) && is_color_value(value)
}

/// `--color`.
pub fn color_argument() -> (r: ArgumentSchema<'static>)
    ensures
        r.valid(),
        is_color_argument(r),
{
    proof {
        reveal_strlit("color");
        reveal_strlit("Determines whether to output using color");
    }
    ArgumentSchema {
        long: "color",
        short: None,
        about: "Determines whether to output using color",
        value: Some(color_value()),
    }
}

/// Whether the argument is the one that [`all_argument`] gives.
pub open spec fn is_all_argument(argument: ArgumentSchema<'_>) -> bool {
    &&& argument_reads(argument, "all"@, Some('a'), "Include hidden files and directories"@)
    &&& argument.value is None
}

/// `--all`.
pub fn all_argument() -> (r: ArgumentSchema<'static>)
    ensures
        r.valid(),
        is_all_argument(r),
{
    proof {
        reveal_strlit("all");
        reveal_strlit("Include hidden files and directories");
    }
    ArgumentSchema {
        long: "all",
        short: Some('a'),
        about: "Include hidden files and directories",
        value: None,
    }
}

/// Whether the argument is the one that [`exclude_argument`] gives.
pub open spec fn is_exclude_argument(argument: ArgumentSchema<'_>) -> bool {
    &&& argument_reads(argument, "exclude"@, Some('e'), "Exclude a directory from output"@)
    &&& argument.value matches Some(value) && is_path_value(value)
}

/// `--exclude`.
pub fn exclude_argument() -> (r: ArgumentSchema<'static>)
    ensures
        r.valid(),
        is_exclude_argument(r),
{
    proof {
        reveal_strlit("exclude");
        reveal_strlit("Exclude a directory from output");
    }
    ArgumentSchema {
        long: "exclude",
        short: Some('e'),
        about: "Exclude a directory from output",
        value: Some(path_value()),
    }
}

/// Whether the argument is the one that [`include_argument`] gives.
pub open spec fn is_include_argument(argument: ArgumentSchema<'_>) -> bool {
    &&& argument_reads(argument, "include"@, Some('i'), "Include a directory in the output"@)
    &&& argument.value matches Some(value) && is_path_value(value)
}

/// `--include`.
pub fn include_argument() -> (r: ArgumentSchema<'static>)
    ensures
        r.valid(),
        is_include_argument(r),
{
    proof {
        reveal_strlit("include");
        reveal_strlit("Include a directory in the output");
    }
    ArgumentSchema {
        long: "include",
        short: Some('i'),
        about: "Include a directory in the output",
        value: Some(path_value()),
    }
}

/// Whether the argument is the one that [`resolve_symlinks_argument`] gives.
pub open spec fn is_resolve_symlinks_argument(argument: ArgumentSchema<'_>) -> bool {
    &&& argument_reads(argument, "resolve-symlinks"@, Some('r'), "Fully resolve symbolic link paths"@)
    &&& argument.value is None
}

/// `--resolve-symlinks`.
pub fn resolve_symlinks_argument() -> (r: ArgumentSchema<'static>)
    ensures
        r.valid(),
        is_resolve_symlinks_argument(r),
{
    proof {
        reveal_strlit("resolve-symlinks");
        reveal_strlit("Fully resolve symbolic link paths");
    }
    ArgumentSchema {
        long: "resolve-symlinks",
        short: Some('r'),
        about: "Fully resolve symbolic link paths",
        value: None,
    }
}

/// Whether the argument is the one that [`sort_argument`] gives.
pub open spec fn is_sort_argument(argument: ArgumentSchema<'_>) -> bool {
    &&& argument_reads(argument, "sort"@, None, "Control how entries are sorted"@)
    &&& argument.value matches Some(value) && is_sort_order_value(value)
}

/// `--sort`.
pub fn sort_argument() -> (r: ArgumentSchema<'static>)
    ensures
        r.valid(),
        is_sort_argument(r),
{
    proof {
        reveal_strlit("sort");
        reveal_strlit("Control how entries are sorted");
    }
    ArgumentSchema {
        long: "sort",
        short: None,
        about: "Control how entries are sorted",
        value: Some(sort_order_value()),
    }
}

/// Whether the argument is the one that [`mode_argument`] gives.
pub open spec fn is_mode_argument(argument: ArgumentSchema<'_>) -> bool {
    &&& argument_reads(argument, "mode"@, Some('m'), "Control how entry modes are shown"@)
    &&& argument.value matches Some(value) && is_mode_value(value)
}

/// `--mode`.
pub fn mode_argument() -> (r: ArgumentSchema<'static>)
    ensures
        r.valid(),
        is_mode_argument(r),
{
    proof {
        reveal_strlit("mode");
        reveal_strlit("Control how entry modes are shown");
    }
    ArgumentSchema {
        long: "mode",
        short: Some('m'),
        about: "Control how entry modes are shown",
        value: Some(mode_value()),
    }
}

/// Whether the argument is the one that [`size_argument`] gives.
pub open spec fn is_size_argument(argument: ArgumentSchema<'_>) -> bool {
    &&& argument_reads(argument, "size"@, Some('s'), "Control how entry sizes are shown"@)
    &&& argument.value matches Some(value) && is_size_value(value)
}

/// `--size`.
pub fn size_argument() -> (r: ArgumentSchema<'static>)
    ensures
        r.valid(),
        is_size_argument(r),
{
    proof {
        reveal_strlit("size");
        reveal_strlit("Control how entry sizes are shown");
    }
    ArgumentSchema {
        long: "size",
        short: Some('s'),
        about: "Control how entry sizes are shown",
        value: Some(size_value()),
    }
}

/// Whether the argument is the one that [`created_argument`] gives.
pub open spec fn is_created_argument(argument: ArgumentSchema<'_>) -> bool {
    &&& argument_reads(argument, "created"@, None, "Control how creation dates are shown"@)
    &&& argument.value matches Some(value) && is_time_value(value)
}

/// `--created`.
pub fn created_argument() -> (r: ArgumentSchema<'static>)
    ensures
        r.valid(),
        is_created_argument(r),
{
    proof {
        reveal_strlit("created");
        reveal_strlit("Control how creation dates are shown");
    }
    ArgumentSchema {
        long: "created",
        short: None,
        about: "Control how creation dates are shown",
        value: Some(time_value()),
    }
}

/// Whether the argument is the one that [`accessed_argument`] gives.
pub open spec fn is_accessed_argument(argument: ArgumentSchema<'_>) -> bool {
    &&& argument_reads(argument, "accessed"@, None, "Control how access dates are shown"@)
    &&& argument.value matches Some(value) && is_time_value(value)
}

/// `--accessed`.
pub fn accessed_argument() -> (r: ArgumentSchema<'static>)
    ensures
        r.valid(),
        is_accessed_argument(r),
{
    proof {
        reveal_strlit("accessed");
        reveal_strlit("Control how access dates are shown");
    }
    ArgumentSchema {
        long: "accessed",
        short: None,
        about: "Control how access dates are shown",
        value: Some(time_value()),
    }
}

/// Whether the argument is the one that [`modified_argument`] gives.
pub open spec fn is_modified_argument(argument: ArgumentSchema<'_>) -> bool {
    &&& argument_reads(argument, "modified"@, None, "Control how modification dates are shown"@)
    &&& argument.value matches Some(value) && is_time_value(value)
}

/// `--modified`.
pub fn modified_argument() -> (r: ArgumentSchema<'static>)
    ensures
        r.valid(),
        is_modified_argument(r),
{
    proof {
        reveal_strlit("modified");
        reveal_strlit("Control how modification dates are shown");
    }
    ArgumentSchema {
        long: "modified",
        short: None,
        about: "Control how modification dates are shown",
        value: Some(time_value()),
    }
}

/// Whether the argument is the one that [`user_argument`] gives.
pub open spec fn is_user_argument(argument: ArgumentSchema<'_>) -> bool {
    &&& argument_reads(argument, "user"@, None, "Show all entry user names"@)
    &&& argument.value is None
}

/// `--user`.
pub fn user_argument() -> (r: ArgumentSchema<'static>)
    ensures
        r.valid(),
        is_user_argument(r),
{
    proof {
        reveal_strlit("user");
        reveal_strlit("Show all entry user names");
    }
    ArgumentSchema {
        long: "user",
        short: None,
        about: "Show all entry user names",
        value: None,
    }
}

/// Whether the argument is the one that [`group_argument`] gives.
pub open spec fn is_group_argument(argument: ArgumentSchema<'_>) -> bool {
    &&& argument_reads(argument, "group"@, None, "Show all entry group names"@)
    &&& argument.value is None
}

/// `--group`.
pub fn group_argument() -> (r: ArgumentSchema<'static>)
    ensures
        r.valid(),
        is_group_argument(r),
{
    proof {
        reveal_strlit("group");
        reveal_strlit("Show all entry group names");
    }
    ArgumentSchema {
        long: "group",
        short: None,
        about: "Show all entry group names",
        value: None,
    }
}

/// Whether the argument is the one that [`depth_argument`] gives.
pub open spec fn is_depth_argument(argument: ArgumentSchema<'_>) -> bool {
    &&& argument_reads(argument, "depth"@, Some('d'), "Control how deep to traverse"@)
    &&& argument.value matches Some(value) && is_depth_value(value)
}

/// `--depth`.
pub fn depth_argument() -> (r: ArgumentSchema<'static>)
    ensures
        r.valid(),
        is_depth_argument(r),
{
    proof {
        reveal_strlit("depth");
        reveal_strlit("Control how deep to traverse");
    }
    ArgumentSchema {
        long: "depth",
        short: Some('d'),
        about: "Control how deep to traverse",
        value: Some(depth_value()),
    }
}

/// Whether the argument is the one that [`help_with_subcommand_argument`] gives.
pub open spec fn is_help_with_subcommand_argument(argument: ArgumentSchema<'_>) -> bool {
    &&& argument_reads(argument, "help"@, Some('h'), "Shows the command (or a sub-command)'s usage"@)
    &&& argument.value matches Some(value) && is_subcommand_value(value)
}

/// `--help` before a sub-command is chosen.
pub fn help_with_subcommand_argument() -> (r: ArgumentSchema<'static>)
    ensures
        r.valid(),
        is_help_with_subcommand_argument(r),
{
    proof {
        reveal_strlit("help");
        reveal_strlit("Shows the command (or a sub-command)'s usage");
    }
    ArgumentSchema {
        long: "help",
        short: Some('h'),
        about: "Shows the command (or a sub-command)'s usage",
        value: Some(subcommand_value()),
    }
}

/// Whether the argument is the one that [`version_argument`] gives.
pub open spec fn is_version_argument(argument: ArgumentSchema<'_>) -> bool {
    &&& argument_reads(argument, "version"@, Some('V'), "Shows the command's version"@)
    &&& argument.value is None
}

/// `--version`.
pub fn version_argument() -> (r: ArgumentSchema<'static>)
    ensures
        r.valid(),
        is_version_argument(r),
{
    proof {
        reveal_strlit("version");
        reveal_strlit("Shows the command's version");
    }
    ArgumentSchema {
        long: "version",
        short: Some('V'),
        about: "Shows the command's version",
        value: None,
    }
}

/// Whether the command is the one that [`list_command`] gives.
pub open spec fn is_list_command(command: CommandSchema<'_>) -> bool {
    &&& command_reads(command, "list"@, "List the contents of one or more directories"@, None)
    &&& {
        &&& command.arguments matches Some(arguments)
        &&& arguments@.len() == 14
        &&& is_help_argument(arguments@[0])
        &&& is_color_argument(arguments@[1])
        &&& is_all_argument(arguments@[2])
        &&& is_exclude_argument(arguments@[3])
        &&& is_include_argument(arguments@[4])
        &&& is_resolve_symlinks_argument(arguments@[5])
        &&& is_sort_argument(arguments@[6])
        &&& is_mode_argument(arguments@[7])
        &&& is_size_argument(arguments@[8])
        &&& is_created_argument(arguments@[9])
        &&& is_accessed_argument(arguments@[10])
        &&& is_modified_argument(arguments@[11])
        &&& is_user_argument(arguments@[12])
        &&& is_group_argument(arguments@[13])
    }
    &&& {
        &&& command.positionals matches Some(positionals)
        &&& positionals@.len() == 1
        &&& is_paths_value(positionals@[0])
    }
    &&& command.commands is None
}

/// The `list` sub-command.
pub fn list_command() -> (r: CommandSchema<'static>)
    ensures
        r.valid(),
        is_list_command(r),
{
    proof {
        reveal_strlit("list");
        reveal_strlit("List the contents of one or more directories");
        reveal_strlit("help");
        reveal_strlit("color");
        reveal_strlit("all");
        reveal_strlit("exclude");
        reveal_strlit("include");
        reveal_strlit("resolve-symlinks");
        reveal_strlit("sort");
        reveal_strlit("mode");
        reveal_strlit("size");
        reveal_strlit("created");
        reveal_strlit("accessed");
        reveal_strlit("modified");
        reveal_strlit("user");
        reveal_strlit("group");
    }
    let positionals = vec![paths_value()];
    assert(valid_positionals(positionals@));
    let arguments = vec![
        help_argument(),
        color_argument(),
        all_argument(),
        exclude_argument(),
        include_argument(),
        resolve_symlinks_argument(),
        sort_argument(),
        mode_argument(),
        size_argument(),
        created_argument(),
        accessed_argument(),
        modified_argument(),
        user_argument(),
        group_argument(),
    ];
    proof {
        lemma_unlike(arguments@[0].long@, arguments@[1].long@, 0);
        lemma_unlike(arguments@[0].long@, arguments@[2].long@, 0);
        lemma_unlike(arguments@[0].long@, arguments@[3].long@, 0);
        lemma_unlike(arguments@[0].long@, arguments@[4].long@, 0);
        lemma_unlike(arguments@[0].long@, arguments@[5].long@, 0);
        lemma_unlike(arguments@[0].long@, arguments@[6].long@, 0);
        lemma_unlike(arguments@[0].long@, arguments@[7].long@, 0);
        lemma_unlike(arguments@[0].long@, arguments@[8].long@, 0);
        lemma_unlike(arguments@[0].long@, arguments@[9].long@, 0);
        lemma_unlike(arguments@[0].long@, arguments@[10].long@, 0);
        lemma_unlike(arguments@[0].long@, arguments@[11].long@, 0);
        lemma_unlike(arguments@[0].long@, arguments@[12].long@, 0);
        lemma_unlike(arguments@[0].long@, arguments@[13].long@, 0);
        lemma_unlike(arguments@[1].long@, arguments@[2].long@, 0);
        lemma_unlike(arguments@[1].long@, arguments@[3].long@, 0);
        lemma_unlike(arguments@[1].long@, arguments@[4].long@, 0);
        lemma_unlike(arguments@[1].long@, arguments@[5].long@, 0);
        lemma_unlike(arguments@[1].long@, arguments@[6].long@, 0);
        lemma_unlike(arguments@[1].long@, arguments@[7].long@, 0);
        lemma_unlike(arguments@[1].long@, arguments@[8].long@, 0);
        lemma_unlike(arguments@[1].long@, arguments@[9].long@, 0);
        lemma_unlike(arguments@[1].long@, arguments@[10].long@, 0);
        lemma_unlike(arguments@[1].long@, arguments@[11].long@, 0);
        lemma_unlike(arguments@[1].long@, arguments@[12].long@, 0);
        lemma_unlike(arguments@[1].long@, arguments@[13].long@, 0);
        lemma_unlike(arguments@[2].long@, arguments@[3].long@, 0);
        lemma_unlike(arguments@[2].long@, arguments@[4].long@, 0);
        lemma_unlike(arguments@[2].long@, arguments@[5].long@, 0);
        lemma_unlike(arguments@[2].long@, arguments@[6].long@, 0);
        lemma_unlike(arguments@[2].long@, arguments@[7].long@, 0);
        lemma_unlike(arguments@[2].long@, arguments@[8].long@, 0);
        lemma_unlike(arguments@[2].long@, arguments@[9].long@, 0);
        lemma_unlike(arguments@[2].long@, arguments@[10].long@, 0);
        lemma_unlike(arguments@[2].long@, arguments@[11].long@, 0);
        lemma_unlike(arguments@[2].long@, arguments@[12].long@, 0);
        lemma_unlike(arguments@[2].long@, arguments@[13].long@, 0);
        lemma_unlike(arguments@[3].long@, arguments@[4].long@, 0);
        lemma_unlike(arguments@[3].long@, arguments@[5].long@, 0);
        lemma_unlike(arguments@[3].long@, arguments@[6].long@, 0);
        lemma_unlike(arguments@[3].long@, arguments@[7].long@, 0);
        lemma_unlike(arguments@[3].long@, arguments@[8].long@, 0);
        lemma_unlike(arguments@[3].long@, arguments@[9].long@, 0);
        lemma_unlike(arguments@[3].long@, arguments@[10].long@, 0);
        lemma_unlike(arguments@[3].long@, arguments@[11].long@, 0);
        lemma_unlike(arguments@[3].long@, arguments@[12].long@, 0);
        lemma_unlike(arguments@[3].long@, arguments@[13].long@, 0);
        lemma_unlike(arguments@[4].long@, arguments@[5].long@, 0);
        lemma_unlike(arguments@[4].long@, arguments@[6].long@, 0);
        lemma_unlike(arguments@[4].long@, arguments@[7].long@, 0);
        lemma_unlike(arguments@[4].long@, arguments@[8].long@, 0);
        lemma_unlike(arguments@[4].long@, arguments@[9].long@, 0);
        lemma_unlike(arguments@[4].long@, arguments@[10].long@, 0);
        lemma_unlike(arguments@[4].long@, arguments@[11].long@, 0);
        lemma_unlike(arguments@[4].long@, arguments@[12].long@, 0);
        lemma_unlike(arguments@[4].long@, arguments@[13].long@, 0);
        lemma_unlike(arguments@[5].long@, arguments@[6].long@, 0);
        lemma_unlike(arguments@[5].long@, arguments@[7].long@, 0);
        lemma_unlike(arguments@[5].long@, arguments@[8].long@, 0);
        lemma_unlike(arguments@[5].long@, arguments@[9].long@, 0);
        lemma_unlike(arguments@[5].long@, arguments@[10].long@, 0);
        lemma_unlike(arguments@[5].long@, arguments@[11].long@, 0);
        lemma_unlike(arguments@[5].long@, arguments@[12].long@, 0);
        lemma_unlike(arguments@[5].long@, arguments@[13].long@, 0);
        lemma_unlike(arguments@[6].long@, arguments@[7].long@, 0);
        lemma_unlike(arguments@[6].long@, arguments@[8].long@, 1);
        lemma_unlike(arguments@[6].long@, arguments@[9].long@, 0);
        lemma_unlike(arguments@[6].long@, arguments@[10].long@, 0);
        lemma_unlike(arguments@[6].long@, arguments@[11].long@, 0);
        lemma_unlike(arguments@[6].long@, arguments@[12].long@, 0);
        lemma_unlike(arguments@[6].long@, arguments@[13].long@, 0);
        lemma_unlike(arguments@[7].long@, arguments@[8].long@, 0);
        lemma_unlike(arguments@[7].long@, arguments@[9].long@, 0);
        lemma_unlike(arguments@[7].long@, arguments@[10].long@, 0);
        lemma_unlike(arguments@[7].long@, arguments@[11].long@, 0);
        lemma_unlike(arguments@[7].long@, arguments@[12].long@, 0);
        lemma_unlike(arguments@[7].long@, arguments@[13].long@, 0);
        lemma_unlike(arguments@[8].long@, arguments@[9].long@, 0);
        lemma_unlike(arguments@[8].long@, arguments@[10].long@, 0);
        lemma_unlike(arguments@[8].long@, arguments@[11].long@, 0);
        lemma_unlike(arguments@[8].long@, arguments@[12].long@, 0);
        lemma_unlike(arguments@[8].long@, arguments@[13].long@, 0);
        lemma_unlike(arguments@[9].long@, arguments@[10].long@, 0);
        lemma_unlike(arguments@[9].long@, arguments@[11].long@, 0);
        lemma_unlike(arguments@[9].long@, arguments@[12].long@, 0);
        lemma_unlike(arguments@[9].long@, arguments@[13].long@, 0);
        lemma_unlike(arguments@[10].long@, arguments@[11].long@, 0);
        lemma_unlike(arguments@[10].long@, arguments@[12].long@, 0);
        lemma_unlike(arguments@[10].long@, arguments@[13].long@, 0);
        lemma_unlike(arguments@[11].long@, arguments@[12].long@, 0);
        lemma_unlike(arguments@[11].long@, arguments@[13].long@, 0);
        lemma_unlike(arguments@[12].long@, arguments@[13].long@, 0);
    }
    assert(valid_arguments(arguments@));
    CommandSchema {
        name: "list",
        about: "List the contents of one or more directories",
        version: None,
        arguments: Some(arguments),
        positionals: Some(positionals),
        commands: None,
    }
}

/// Whether the command is the one that [`tree_command`] gives.
pub open spec fn is_tree_command(command: CommandSchema<'_>) -> bool {
    &&& command_reads(command, "tree"@, "List the contents of one or more directories in a tree-based view"@, None)
    &&& {
        &&& command.arguments matches Some(arguments)
        &&& arguments@.len() == 8
        &&& is_help_argument(arguments@[0])
        &&& is_color_argument(arguments@[1])
        &&& is_all_argument(arguments@[2])
        &&& is_include_argument(arguments@[3])
        &&& is_exclude_argument(arguments@[4])
        &&& is_resolve_symlinks_argument(arguments@[5])
        &&& is_sort_argument(arguments@[6])
        &&& is_depth_argument(arguments@[7])
    }
    &&& {
        &&& command.positionals matches Some(positionals)
        &&& positionals@.len() == 1
        &&& is_paths_value(positionals@[0])
    }
    &&& command.commands is None
}

/// The `tree` sub-command.
pub fn tree_command() -> (r: CommandSchema<'static>)
    ensures
        r.valid(),
        is_tree_command(r),
{
    proof {
        reveal_strlit("tree");
        reveal_strlit("List the contents of one or more directories in a tree-based view");
        reveal_strlit("help");
        reveal_strlit("color");
        reveal_strlit("all");
        reveal_strlit("include");
        reveal_strlit("exclude");
        reveal_strlit("resolve-symlinks");
        reveal_strlit("sort");
        reveal_strlit("depth");
    }
    let positionals = vec![paths_value()];
    assert(valid_positionals(positionals@));
    let arguments = vec![
        help_argument(),
        color_argument(),
        all_argument(),
        include_argument(),
        exclude_argument(),
        resolve_symlinks_argument(),
        sort_argument(),
        depth_argument(),
    ];
    proof {
        lemma_unlike(arguments@[0].long@, arguments@[1].long@, 0);
        lemma_unlike(arguments@[0].long@, arguments@[2].long@, 0);
        lemma_unlike(arguments@[0].long@, arguments@[3].long@, 0);
        lemma_unlike(arguments@[0].long@, arguments@[4].long@, 0);
        lemma_unlike(arguments@[0].long@, arguments@[5].long@, 0);
        lemma_unlike(arguments@[0].long@, arguments@[6].long@, 0);
        lemma_unlike(arguments@[0].long@, arguments@[7].long@, 0);
        lemma_unlike(arguments@[1].long@, arguments@[2].long@, 0);
        lemma_unlike(arguments@[1].long@, arguments@[3].long@, 0);
        lemma_unlike(arguments@[1].long@, arguments@[4].long@, 0);
        lemma_unlike(arguments@[1].long@, arguments@[5].long@, 0);
        lemma_unlike(arguments@[1].long@, arguments@[6].long@, 0);
        lemma_unlike(arguments@[1].long@, arguments@[7].long@, 0);
        lemma_unlike(arguments@[2].long@, arguments@[3].long@, 0);
        lemma_unlike(arguments@[2].long@, arguments@[4].long@, 0);
        lemma_unlike(arguments@[2].long@, arguments@[5].long@, 0);
        lemma_unlike(arguments@[2].long@, arguments@[6].long@, 0);
        lemma_unlike(arguments@[2].long@, arguments@[7].long@, 0);
        lemma_unlike(arguments@[3].long@, arguments@[4].long@, 0);
        lemma_unlike(arguments@[3].long@, arguments@[5].long@, 0);
        lemma_unlike(arguments@[3].long@, arguments@[6].long@, 0);
        lemma_unlike(arguments@[3].long@, arguments@[7].long@, 0);
        lemma_unlike(arguments@[4].long@, arguments@[5].long@, 0);
        lemma_unlike(arguments@[4].long@, arguments@[6].long@, 0);
        lemma_unlike(arguments@[4].long@, arguments@[7].long@, 0);
        lemma_unlike(arguments@[5].long@, arguments@[6].long@, 0);
        lemma_unlike(arguments@[5].long@, arguments@[7].long@, 0);
        lemma_unlike(arguments@[6].long@, arguments@[7].long@, 0);
    }
    assert(valid_arguments(arguments@));
    CommandSchema {
        name: "tree",
        about: "List the contents of one or more directories in a tree-based view",
        version: None,
        arguments: Some(arguments),
        positionals: Some(positionals),
        commands: None,
    }
}

/// Whether the command is the one that [`schema`] gives.
pub open spec fn is_schema(command: CommandSchema<'_>) -> bool {
    &&& command_reads(command, "fvr"@, "Lists the contents of directories"@, Some("0.1.0"@))
    &&& {
        &&& command.arguments matches Some(arguments)
        &&& arguments@.len() == 3
        &&& is_help_with_subcommand_argument(arguments@[0])
        &&& is_version_argument(arguments@[1])
        &&& is_color_argument(arguments@[2])
    }
    &&& command.positionals is None
    &&& {
        &&& command.commands matches Some(commands)
        &&& commands@.len() == 2
        &&& is_list_command(commands@[0])
        &&& is_tree_command(commands@[1])
    }
}

/// Defines the command's schema.
pub fn schema() -> (r: CommandSchema<'static>)
    ensures
        r.valid(),
        is_schema(r),
{
    proof {
        reveal_strlit("fvr");
        reveal_strlit("Lists the contents of directories");
        reveal_strlit("0.1.0");
        reveal_strlit("help");
        reveal_strlit("version");
        reveal_strlit("color");
        reveal_strlit("list");
        reveal_strlit("tree");
    }
    let arguments = vec![
        help_with_subcommand_argument(),
        version_argument(),
        color_argument(),
    ];
    proof {
        lemma_unlike(arguments@[0].long@, arguments@[1].long@, 0);
        lemma_unlike(arguments@[0].long@, arguments@[2].long@, 0);
        lemma_unlike(arguments@[1].long@, arguments@[2].long@, 0);
    }
    assert(valid_arguments(arguments@));
    let commands = vec![list_command(), tree_command()];
    proof {
        lemma_unlike(commands@[0].name@, commands@[1].name@, 0);
    }
    CommandSchema {
        name: "fvr",
        about: "Lists the contents of directories",
        version: Some("0.1.0"),
        arguments: Some(arguments),
        positionals: None,
        commands: Some(commands),
    }
}

} // verus!
