use fvr::arguments::model::{
    Arguments, ColorChoice, ModeVisibility, SizeVisibility, SortOrder, SubCommand, TimeVisibility,
};
use fvr::arguments::parse::{Argument, Error, Parser};
use fvr::arguments::sorting::{assemble, split, strip};
use fvr::arguments::{
    depth_of, parse_arguments, parse_color, parse_depth, parse_positional, Exit, Notice,
    ParseResult, Problem,
};
use fvr::exit_codes::{ERROR_CLI_USAGE, ERROR_GENERIC, SUCCESS};

fn resolve(text: &str) -> Result<Vec<u8>, String> {
    if text.starts_with("missing") {
        Err(format!("{text}: not found"))
    } else if text == "." {
        Ok(b"/here".to_vec())
    } else {
        Ok(format!("/abs/{text}").into_bytes())
    }
}

fn parse(given: Vec<&str>) -> Result<Arguments, Exit<'_>> {
    parse_arguments(given, &mut resolve)
}

fn usage(given: Vec<&str>) -> (Problem, Option<String>) {
    match parse(given) {
        Err(Exit { code, notice: Notice::Usage(problem, about) }) => {
            assert_eq!(code, ERROR_CLI_USAGE);
            (problem, about.map(str::to_string))
        }
        other => panic!("expected a usage problem, got {other:?}"),
    }
}

fn list(given: Vec<&str>) -> fvr::arguments::model::ListArguments {
    match parse(given) {
        Ok(Arguments { command: Some(SubCommand::List(list)), .. }) => list,
        other => panic!("expected the list sub-command, got {other:?}"),
    }
}

fn tree(given: Vec<&str>) -> fvr::arguments::model::TreeArguments {
    match parse(given) {
        Ok(Arguments { command: Some(SubCommand::Tree(tree)), .. }) => tree,
        other => panic!("expected the tree sub-command, got {other:?}"),
    }
}

#[test]
fn no_arguments_is_no_sub_command() {
    assert_eq!(usage(vec![]), (Problem::NoSubCommand, None));
    assert_eq!(usage(vec!["--color", "never"]), (Problem::NoSubCommand, None));
}

#[test]
fn unknown_sub_command_is_told_by_name() {
    assert_eq!(usage(vec!["show"]), (Problem::UnknownSubCommand, Some("show".to_string())));
}

#[test]
fn list_without_paths_lists_the_current_directory() {
    let list = list(vec!["list"]);
    assert_eq!(list.paths.get(), &vec![b"/here".to_vec()]);
    assert!(!list.show_hidden);
    assert!(!list.resolve_symlinks);
    assert_eq!(list.sorting, None);
    assert_eq!(list.mode, ModeVisibility::Hide);
    assert_eq!(list.size, SizeVisibility::Hide);
    assert_eq!(list.created, TimeVisibility::Hide);
    assert!(!list.user && !list.group);
    assert!(list.excluded.is_none() && list.included.is_none());
}

#[test]
fn positional_paths_are_resolved_and_held_once() {
    let list = list(vec!["list", "a", "b", "a"]);
    assert_eq!(list.paths.get(), &vec![b"/abs/a".to_vec(), b"/abs/b".to_vec()]);
    assert_eq!(list.paths.len(), 2);
    assert!(list.paths.has(b"/abs/b"));
    assert!(!list.paths.has(b"/abs/c"));
}

#[test]
fn a_path_that_cannot_be_resolved_is_a_generic_failure() {
    match parse(vec!["list", "missing-dir"]) {
        Err(Exit { code, notice: Notice::Failure(message) }) => {
            assert_eq!(code, ERROR_GENERIC);
            assert_eq!(message, "missing-dir: not found");
        }
        other => panic!("expected a failure, got {other:?}"),
    }
}

#[test]
fn list_flags_are_set_by_short_and_long_names() {
    let list = list(vec!["list", "-ar", "--user", "-g", "--mode", "extended", "-s", "base-10"]);
    assert!(list.show_hidden);
    assert!(list.resolve_symlinks);
    assert!(list.user);
    assert!(list.group);
    assert_eq!(list.mode, ModeVisibility::Extended);
    assert_eq!(list.size, SizeVisibility::Base10);
    let list = self::list(vec!["list", "--all", "--resolve-symlinks", "-mshow", "--size=base-2", "-u", "--group"]);
    assert!(list.show_hidden && list.resolve_symlinks && list.user && list.group);
    assert_eq!(list.mode, ModeVisibility::Show);
    assert_eq!(list.size, SizeVisibility::Base2);
}

#[test]
fn time_arguments_set_their_own_visibility() {
    let list = list(vec!["list", "--created", "simple", "--accessed=iso8601", "--modified", "hide"]);
    assert_eq!(list.created, TimeVisibility::Simple);
    assert_eq!(list.accessed, TimeVisibility::Iso8601);
    assert_eq!(list.modified, TimeVisibility::Hide);
}

#[test]
fn color_is_taken_before_and_after_the_sub_command() {
    assert_eq!(parse(vec!["--color", "always", "list"]).unwrap().color, ColorChoice::Always);
    assert_eq!(parse(vec!["list", "--color=never"]).unwrap().color, ColorChoice::Never);
    assert_eq!(parse(vec!["tree", "--color", "auto"]).unwrap().color, ColorChoice::Auto);
    assert_eq!(parse(vec!["tree"]).unwrap().color, ColorChoice::Auto);
}

#[test]
fn invalid_choices_are_told_with_the_value() {
    assert_eq!(usage(vec!["list", "--color", "blue"]), (Problem::InvalidColorChoice, Some("blue".to_string())));
    assert_eq!(usage(vec!["list", "--mode", "full"]), (Problem::InvalidModeVisibility, Some("full".to_string())));
    assert_eq!(usage(vec!["list", "--size", "base-3"]), (Problem::InvalidSizeVisibility, Some("base-3".to_string())));
    assert_eq!(usage(vec!["list", "--created", "rfc"]), (Problem::InvalidTimeVisibility, Some("rfc".to_string())));
    assert_eq!(usage(vec!["list", "--sort", "name,age"]), (Problem::InvalidSortOrder, Some("age".to_string())));
}

#[test]
fn missing_values_are_told() {
    assert_eq!(usage(vec!["list", "--color"]), (Problem::MissingColorChoice, None));
    assert_eq!(usage(vec!["list", "--mode"]), (Problem::MissingModeVisibility, None));
    assert_eq!(usage(vec!["list", "--size"]), (Problem::MissingSizeVisibility, None));
    assert_eq!(usage(vec!["list", "--modified"]), (Problem::MissingTimeVisibility, None));
    assert_eq!(usage(vec!["list", "--sort"]), (Problem::MissingSortOrder, None));
    assert_eq!(usage(vec!["list", "--exclude"]), (Problem::MissingExcludedPath, None));
    assert_eq!(usage(vec!["list", "-i"]), (Problem::MissingIncludedPath, None));
    assert_eq!(usage(vec!["tree", "--depth"]), (Problem::MissingDepth, None));
    assert_eq!(usage(vec!["tree", "--depth="]), (Problem::MissingDepth, None));
}

#[test]
fn arguments_without_a_place_are_unexpected() {
    for given in [
        vec!["--all"],
        vec!["-a", "list"],
        vec!["list", "--version"],
        vec!["list", "-V"],
        vec!["list", "--depth", "2"],
        vec!["tree", "--mode", "show"],
        vec!["tree", "-u"],
        vec!["list", "--nonsense"],
        vec!["list", "-x"],
    ] {
        match parse(given.clone()) {
            Err(Exit { code, notice: Notice::Unexpected(_) }) => assert_eq!(code, ERROR_CLI_USAGE),
            other => panic!("expected {given:?} to be unexpected, got {other:?}"),
        }
    }
    assert!(matches!(
        parse(vec!["list", "--nonsense"]),
        Err(Exit { notice: Notice::Unexpected(Argument::Long("nonsense")), .. })
    ));
    assert!(matches!(
        parse(vec!["tree", "-m"]),
        Err(Exit { notice: Notice::Unexpected(Argument::Short('m')), .. })
    ));
}

#[test]
fn a_value_in_the_wrong_place_is_the_parsers_error() {
    // `-a` takes no value: what is left of its cluster is then asked for as a parameter.
    assert!(matches!(parse(vec!["list", "-ax"]), Err(Exit { notice: Notice::Unexpected(Argument::Short('x')), .. })));
    let mut parser = Parser::new(vec!["x"]);
    let mut arguments = Arguments::default();
    match parse_color(&mut arguments, &mut parser) {
        Some(Exit { code, notice: Notice::Parser(Error::MissingAssignedArgument) }) => {
            assert_eq!(code, ERROR_CLI_USAGE)
        }
        other => panic!("expected the parser's error, got {other:?}"),
    }
    assert_eq!(arguments.color, ColorChoice::Auto);
}

#[test]
fn version_exits_with_success() {
    for given in [vec!["--version"], vec!["-V"]] {
        match parse(given) {
            Err(exit @ Exit { code: SUCCESS, notice: Notice::Version }) => {
                assert!(matches!(exit.result(), ParseResult::Exit(SUCCESS)));
            }
            other => panic!("expected the version, got {other:?}"),
        }
    }
}

#[test]
fn help_exits_with_success_and_the_display_of_the_current_schema() {
    let shown = |given: Vec<&'static str>| match parse(given) {
        Err(Exit { code: SUCCESS, notice: Notice::Help(text) }) => String::from_utf8(text).unwrap(),
        other => panic!("expected the help, got {other:?}"),
    };
    assert!(shown(vec!["--help"]).starts_with("fvr v0.1.0\n"));
    assert!(shown(vec!["-h"]).contains("\nSub-commands:\n  list "));
    assert!(shown(vec!["--help", "tree"]).starts_with("tree\n"));
    assert!(shown(vec!["-h", "list"]).starts_with("list\n"));
    assert!(shown(vec!["list", "--help"]).starts_with("list\n"));
    assert!(shown(vec!["tree", "-h", "list"]).starts_with("tree\n"));
    // A value that names no sub-command is passed over.
    assert!(shown(vec!["--help", "nothing"]).starts_with("fvr v0.1.0\n"));
}

#[test]
fn sort_orders_are_chained_from_left_to_right() {
    let list = list(vec!["list", "--sort", "size,reverse-name"]);
    assert_eq!(
        list.sorting,
        Some(SortOrder::Size.then(SortOrder::Reverse(Box::new(SortOrder::Name))))
    );
    let tree = tree(vec!["tree", "--sort=directories,files,name"]);
    assert_eq!(tree.sorting, Some(SortOrder::default()));
    let list = self::list(vec!["list", "--sort", "hidden"]);
    assert_eq!(list.sorting, Some(SortOrder::Hidden));
}

#[test]
fn a_later_sort_argument_replaces_an_earlier_one() {
    let list = list(vec!["list", "--sort", "size", "--sort", "name"]);
    assert_eq!(list.sorting, Some(SortOrder::Name));
}

#[test]
fn assemble_reads_each_order_and_its_reversal() {
    let names = [
        ("name", SortOrder::Name),
        ("accessed", SortOrder::Accessed),
        ("created", SortOrder::Created),
        ("modified", SortOrder::Modified),
        ("size", SortOrder::Size),
        ("files", SortOrder::Files),
        ("symlinks", SortOrder::Symlinks),
        ("directories", SortOrder::Directories),
        ("hidden", SortOrder::Hidden),
    ];
    for (name, order) in names {
        assert_eq!(assemble(name), Ok(Some(order.duplicate())));
        let reversed = format!("reverse-{name}");
        assert_eq!(assemble(&reversed), Ok(Some(SortOrder::Reverse(Box::new(order.duplicate())))));
        // However many reversals stand in front, the order is reversed once.
        let twice = format!("reverse-reverse-{name}");
        assert_eq!(assemble(&twice), Ok(Some(SortOrder::Reverse(Box::new(order)))));
    }
}

#[test]
fn assemble_drops_what_came_before_an_order_that_is_asked_for_twice_in_a_row() {
    assert_eq!(assemble("name,name"), Ok(Some(SortOrder::Name)));
    assert_eq!(assemble("size,name,name"), Ok(Some(SortOrder::Name)));
    assert_eq!(
        assemble("name,size,name"),
        Ok(Some(SortOrder::Name.then(SortOrder::Size).then(SortOrder::Name)))
    );
}

#[test]
fn assemble_stops_at_the_first_unknown_order() {
    assert_eq!(assemble(""), Err((None, "")));
    assert_eq!(assemble("size,,name"), Err((Some(SortOrder::Size), "")));
    assert_eq!(assemble("size,Name"), Err((Some(SortOrder::Size), "Name")));
    assert_eq!(assemble("reverse-big,name"), Err((None, "big")));
    assert_eq!(assemble("name, size"), Err((Some(SortOrder::Name), " size")));
}

#[test]
fn split_and_strip_follow_commas_and_reversals() {
    assert_eq!(split("a,b"), vec!["a", "b"]);
    assert_eq!(split(""), vec![""]);
    assert_eq!(split(","), vec!["", ""]);
    assert_eq!(split("a,,b,"), vec!["a", "", "b", ""]);
    assert_eq!(strip("reverse-name"), "name");
    assert_eq!(strip("reverse-reverse-"), "");
    assert_eq!(strip("reversed-name"), "reversed-name");
    assert_eq!(strip("name"), "name");
}

#[test]
fn depth_is_a_positive_decimal_number() {
    assert_eq!(depth_of("1"), Ok(1));
    assert_eq!(depth_of("+12"), Ok(12));
    assert_eq!(depth_of("007"), Ok(7));
    assert_eq!(depth_of(&usize::MAX.to_string()), Ok(usize::MAX));
    assert_eq!(depth_of(""), Err(Problem::MissingDepth));
    assert_eq!(depth_of("0"), Err(Problem::DepthNotPositive));
    assert_eq!(depth_of("+"), Err(Problem::DepthNotPositive));
    assert_eq!(depth_of("-1"), Err(Problem::DepthNotPositive));
    assert_eq!(depth_of("1x"), Err(Problem::DepthNotPositive));
    assert_eq!(depth_of(" 1"), Err(Problem::DepthNotPositive));
    assert_eq!(depth_of("18446744073709551616"), Err(Problem::DepthTooLarge));
    assert_eq!(depth_of("99999999999999999999999"), Err(Problem::DepthTooLarge));
    // What goes wrong first is told.
    assert_eq!(depth_of("99999999999999999999999x"), Err(Problem::DepthTooLarge));
    assert_eq!(depth_of("x99999999999999999999999"), Err(Problem::DepthNotPositive));
}

#[test]
fn depth_agrees_with_the_standard_parser() {
    for text in ["1", "+5", "0", "", "+", "-", "-3", "12a", "340282366920938463463374607431768211456", "42"] {
        let expected = text.parse::<std::num::NonZero<usize>>().ok().map(|depth| depth.get());
        assert_eq!(depth_of(text).ok(), expected, "{text:?}");
    }
}

#[test]
fn tree_takes_a_depth() {
    assert_eq!(tree(vec!["tree", "--depth", "3"]).max_depth, Some(3));
    assert_eq!(tree(vec!["tree", "-d1"]).max_depth, Some(1));
    assert_eq!(tree(vec!["tree"]).max_depth, None);
    assert_eq!(usage(vec!["tree", "-d", "0"]), (Problem::DepthNotPositive, None));
    assert_eq!(usage(vec!["tree", "-d", "deep"]), (Problem::DepthNotPositive, None));
    assert_eq!(usage(vec!["tree", "-d", "99999999999999999999999"]), (Problem::DepthTooLarge, None));
    let mut parser = Parser::new(vec!["--depth=2"]);
    let mut arguments = Arguments { color: ColorChoice::Auto, command: Some(SubCommand::Tree(Default::default())) };
    parser.next_argument().unwrap();
    assert!(parse_depth(&mut arguments, &mut parser).is_none());
    assert_eq!(arguments.command.unwrap().as_tree().unwrap().max_depth, Some(2));
}

#[test]
fn excluded_and_included_paths_are_resolved_and_collected() {
    let tree = tree(vec!["tree", "-e", "x", "--exclude=y", "-i", "z", "--include", "z"]);
    assert_eq!(tree.excluded.as_ref().unwrap().get(), &vec![b"/abs/x".to_vec(), b"/abs/y".to_vec()]);
    assert_eq!(tree.included.as_ref().unwrap().get(), &vec![b"/abs/z".to_vec()]);
    let selection = tree.selection();
    assert!(selection.show_hidden == tree.show_hidden);
    match parse(vec!["list", "--exclude", "missing"]) {
        Err(Exit { code, notice: Notice::Failure(message) }) => {
            assert_eq!(code, ERROR_GENERIC);
            assert_eq!(message, "missing: not found");
        }
        other => panic!("expected a failure, got {other:?}"),
    }
}

#[test]
fn the_first_positional_names_the_sub_command() {
    let mut arguments = Arguments::default();
    assert!(parse_positional(&mut arguments, "tree", &mut resolve).is_none());
    assert!(arguments.command.as_ref().unwrap().is_tree());
    assert!(!arguments.command.as_ref().unwrap().is_list());
    assert!(arguments.command.as_ref().unwrap().as_list().is_none());
    assert!(parse_positional(&mut arguments, "list", &mut resolve).is_none());
    // Once a sub-command is chosen, every positional is a path.
    assert!(arguments.command.as_ref().unwrap().is_tree());
    assert_eq!(arguments.command.unwrap().as_tree().unwrap().paths.get(), &vec![b"/abs/list".to_vec()]);
}

#[test]
fn current_schema_follows_the_sub_command() {
    let mut arguments = Arguments::default();
    assert_eq!(arguments.current_schema().name, "fvr");
    arguments.command = Some(SubCommand::List(Default::default()));
    assert_eq!(arguments.current_schema().name, "list");
    arguments.command = Some(SubCommand::Tree(Default::default()));
    assert_eq!(arguments.current_schema().name, "tree");
}
