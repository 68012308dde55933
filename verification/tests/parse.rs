use fvr::arguments::parse::{split_chunk, Argument, ArgumentLike, Error, Parameter, Parser};

#[test]
fn str_closing_argument_is_two_dashes() {
    assert!("--".is_closing_argument());
    assert!(!"-".is_closing_argument());
    assert!(!"---".is_closing_argument());
    assert!(!"--x".is_closing_argument());
    assert!(!"".is_closing_argument());
}

#[test]
fn str_long_argument_splits_at_the_first_equals_sign() {
    assert_eq!("--help".as_long_argument(), Some(("help", None)));
    assert_eq!("--color=always".as_long_argument(), Some(("color", Some("always"))));
    assert_eq!("--a=b=c".as_long_argument(), Some(("a", Some("b=c"))));
    assert_eq!("--a=".as_long_argument(), Some(("a", Some(""))));
    assert_eq!("--=x".as_long_argument(), Some(("", Some("x"))));
    assert_eq!("--".as_long_argument(), None);
    assert_eq!("-h".as_long_argument(), None);
    assert_eq!("help".as_long_argument(), None);
    assert_eq!("--\u{e9}t\u{e9}=\u{fc}".as_long_argument(), Some(("\u{e9}t\u{e9}", Some("\u{fc}"))));
}

#[test]
fn str_short_cluster_is_one_dash_and_more() {
    assert_eq!("-h".as_short_cluster(), Some("h"));
    assert_eq!("-abc".as_short_cluster(), Some("abc"));
    assert_eq!("-".as_short_cluster(), None);
    assert_eq!("--".as_short_cluster(), None);
    assert_eq!("--abc".as_short_cluster(), None);
    assert_eq!("abc".as_short_cluster(), None);
}

#[test]
fn str_short_argument_takes_the_first_character() {
    assert_eq!("abc".as_short_argument(), Some(('a', Some("bc"))));
    assert_eq!("a".as_short_argument(), Some(('a', None)));
    assert_eq!("".as_short_argument(), None);
    assert_eq!("\u{e9}x".as_short_argument(), Some(('\u{e9}', Some("x"))));
}

#[test]
fn parser_reads_parameters_and_positionals_in_turn() {
    let mut parser = Parser::new(vec!["list", "-a", "--sort", "name", "path"]);
    assert_eq!(parser.next_argument(), Ok(Some(Argument::Positional("list"))));
    assert_eq!(parser.next_argument(), Ok(Some(Argument::Short('a'))));
    assert_eq!(parser.next_argument(), Ok(Some(Argument::Long("sort"))));
    assert_eq!(parser.next_value(), Ok(Some("name")));
    assert_eq!(parser.next_argument(), Ok(Some(Argument::Positional("path"))));
    assert_eq!(parser.next_argument(), Ok(None));
    assert_eq!(parser.next_argument(), Ok(None));
}

#[test]
fn parser_walks_through_a_cluster() {
    let mut parser = Parser::new(vec!["-abc"]);
    assert_eq!(parser.next_argument(), Ok(Some(Argument::Short('a'))));
    assert_eq!(parser.next_argument(), Ok(Some(Argument::Short('b'))));
    assert_eq!(parser.next_argument(), Ok(Some(Argument::Short('c'))));
    assert_eq!(parser.next_argument(), Ok(None));
}

#[test]
fn parser_hands_the_rest_of_a_cluster_out_as_a_value() {
    let mut parser = Parser::new(vec!["-d3", "x"]);
    assert_eq!(parser.next_argument(), Ok(Some(Argument::Short('d'))));
    assert_eq!(parser.next_value(), Ok(Some("3")));
    assert_eq!(parser.next_argument(), Ok(Some(Argument::Positional("x"))));
}

#[test]
fn parser_hands_out_an_assigned_value() {
    let mut parser = Parser::new(vec!["--color=never"]);
    assert_eq!(parser.next_parameter(), Ok(Some(Parameter::Long("color"))));
    assert_eq!(parser.next_value(), Ok(Some("never")));
    assert_eq!(parser.next_value(), Err(Error::MissingAssignedArgument));
}

#[test]
fn parser_takes_everything_behind_the_closing_argument_as_positional() {
    let mut parser = Parser::new(vec!["-a", "--", "-b", "--c"]);
    assert_eq!(parser.next_argument(), Ok(Some(Argument::Short('a'))));
    assert_eq!(parser.next_argument(), Ok(Some(Argument::Positional("-b"))));
    assert_eq!(parser.next_argument(), Ok(Some(Argument::Positional("--c"))));
    assert_eq!(parser.next_argument(), Ok(None));
}

#[test]
fn parser_value_is_none_once_the_arguments_are_used_up() {
    let mut parser = Parser::new(vec!["--sort"]);
    assert_eq!(parser.next_argument(), Ok(Some(Argument::Long("sort"))));
    assert_eq!(parser.next_value(), Ok(None));
    assert_eq!(parser.next_argument(), Ok(None));
}

#[test]
fn parser_reports_a_value_without_an_argument() {
    let mut parser = Parser::new(vec!["x"]);
    assert_eq!(parser.next_value(), Err(Error::MissingAssignedArgument));
    assert_eq!(parser.next_positional(), Ok(Some("x")));
    assert_eq!(parser.next_positional(), Ok(None));
    assert_eq!(parser.next_value(), Err(Error::MissingAssignedArgument));
}

#[test]
fn parser_reports_a_skipped_value() {
    let mut parser = Parser::new(vec!["--color=never", "--all"]);
    assert_eq!(parser.next_parameter(), Ok(Some(Parameter::Long("color"))));
    assert_eq!(parser.next_parameter(), Err(Error::SkippedValue(Argument::Long("color"))));
    assert_eq!(parser.next_parameter(), Ok(Some(Parameter::Long("all"))));
}

#[test]
fn parser_reports_a_skipped_parameter() {
    let mut parser = Parser::new(vec!["-a", "x"]);
    assert_eq!(parser.next_parameter(), Ok(Some(Parameter::Short('a'))));
    assert_eq!(parser.next_positional(), Err(Error::SkippedNonPositional));
}

#[test]
fn parser_holds_a_positional_back_until_it_is_asked_for() {
    let mut parser = Parser::new(vec!["x", "-a"]);
    assert_eq!(parser.next_parameter(), Ok(None));
    assert_eq!(parser.next_parameter(), Ok(None));
    assert_eq!(parser.next_positional(), Ok(Some("x")));
    assert_eq!(parser.next_parameter(), Ok(Some(Parameter::Short('a'))));
}

#[test]
fn next_argument_passes_over_a_skipped_value() {
    let mut parser = Parser::new(vec!["--color=never", "--all"]);
    assert_eq!(parser.next_argument(), Ok(Some(Argument::Long("color"))));
    // The value was not taken: the search for a parameter fails, and what follows is handed
    // out as a positional argument.
    assert_eq!(parser.next_argument(), Ok(Some(Argument::Positional("--all"))));
    assert_eq!(parser.next_argument(), Ok(None));
}

#[test]
fn parameter_becomes_the_argument_of_the_same_form() {
    assert_eq!(Parameter::<&str>::Short('x').into_argument(), Argument::Short('x'));
    assert_eq!(Parameter::Long("name").into_argument(), Argument::Long("name"));
    assert_eq!(Argument::from(Parameter::<&str>::Short('x')), Argument::Short('x'));
    assert_eq!(Argument::from(Parameter::Long("name")), Argument::Long("name"));
}

#[test]
fn bytes_closing_argument_is_two_dashes() {
    assert!(b"--".as_slice().is_closing_argument());
    assert!(!b"-".as_slice().is_closing_argument());
    assert!(!b"---".as_slice().is_closing_argument());
    assert!(!b"--x".as_slice().is_closing_argument());
    assert!(!b"".as_slice().is_closing_argument());
}

#[test]
fn bytes_long_argument_splits_at_the_first_equals_sign() {
    let bytes = |text: &'static [u8]| text;
    assert_eq!(bytes(b"--help").as_long_argument(), Some((bytes(b"help"), None)));
    assert_eq!(bytes(b"--color=always").as_long_argument(), Some((bytes(b"color"), Some(bytes(b"always")))));
    assert_eq!(bytes(b"--a=b=c").as_long_argument(), Some((bytes(b"a"), Some(bytes(b"b=c")))));
    assert_eq!(bytes(b"--a=").as_long_argument(), Some((bytes(b"a"), Some(bytes(b"")))));
    assert_eq!(bytes(b"--=x").as_long_argument(), Some((bytes(b""), Some(bytes(b"x")))));
    assert_eq!(bytes(b"--\xff=\xfe").as_long_argument(), Some((bytes(b"\xff"), Some(bytes(b"\xfe")))));
    assert_eq!(bytes(b"--").as_long_argument(), None);
    assert_eq!(bytes(b"-h").as_long_argument(), None);
    assert_eq!(bytes(b"help").as_long_argument(), None);
}

#[test]
fn bytes_short_cluster_is_one_dash_and_more() {
    let bytes = |text: &'static [u8]| text;
    assert_eq!(bytes(b"-h").as_short_cluster(), Some(bytes(b"h")));
    assert_eq!(bytes(b"-abc").as_short_cluster(), Some(bytes(b"abc")));
    assert_eq!(bytes(b"-\xff").as_short_cluster(), Some(bytes(b"\xff")));
    assert_eq!(bytes(b"-").as_short_cluster(), None);
    assert_eq!(bytes(b"--").as_short_cluster(), None);
    assert_eq!(bytes(b"--abc").as_short_cluster(), None);
    assert_eq!(bytes(b"abc").as_short_cluster(), None);
}

#[test]
fn bytes_short_argument_takes_the_first_chunk() {
    let bytes = |text: &'static [u8]| text;
    assert_eq!(bytes(b"abc").as_short_argument(), Some((bytes(b"abc"), None)));
    assert_eq!(bytes(b"a\xffb").as_short_argument(), Some((bytes(b"a\xff"), Some(bytes(b"b")))));
    assert_eq!(bytes(b"\xffab").as_short_argument(), Some((bytes(b"\xff"), Some(bytes(b"ab")))));
    assert_eq!(bytes(b"\xe2\x82").as_short_argument(), Some((bytes(b"\xe2\x82"), None)));
    assert_eq!(bytes(b"").as_short_argument(), None);
}

#[test]
fn a_chunk_is_split_off_where_it_ends_in_the_bytes() {
    let bytes = |text: &'static [u8]| text;
    assert_eq!(split_chunk(b"abcd", Some((1, 1))), Some((bytes(b"ab"), Some(bytes(b"cd")))));
    assert_eq!(split_chunk(b"abcd", Some((0, 3))), Some((bytes(b"abc"), Some(bytes(b"d")))));
    assert_eq!(split_chunk(b"abcd", Some((4, 0))), Some((bytes(b"abcd"), None)));
    assert_eq!(split_chunk(b"abcd", Some((0, 0))), None);
    assert_eq!(split_chunk(b"abcd", Some((3, 2))), None);
    assert_eq!(split_chunk(b"abcd", Some((5, 0))), None);
    assert_eq!(split_chunk(b"abcd", Some((usize::MAX, usize::MAX))), None);
    assert_eq!(split_chunk(b"abcd", None), None);
    assert_eq!(split_chunk(b"", Some((0, 0))), None);
}

#[test]
fn parser_reads_bytes_as_it_reads_text() {
    let bytes = |text: &'static [u8]| text;
    let mut parser = Parser::new(vec![bytes(b"list"), bytes(b"-a\xffb"), bytes(b"--sort=name"), bytes(b"--"), bytes(b"-x")]);
    assert_eq!(parser.next_argument(), Ok(Some(Argument::Positional(bytes(b"list")))));
    assert_eq!(parser.next_argument(), Ok(Some(Argument::Short(bytes(b"a\xff")))));
    assert_eq!(parser.next_argument(), Ok(Some(Argument::Short(bytes(b"b")))));
    assert_eq!(parser.next_parameter(), Ok(Some(Parameter::Long(bytes(b"sort")))));
    assert_eq!(parser.next_value(), Ok(Some(bytes(b"name"))));
    assert_eq!(parser.next_argument(), Ok(Some(Argument::Positional(bytes(b"-x")))));
    assert_eq!(parser.next_argument(), Ok(None));
}
