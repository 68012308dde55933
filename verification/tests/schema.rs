use fvr::arguments::help::write_help;
use fvr::arguments::outline::{list_command, schema, tree_command};
use fvr::arguments::schema::{
    are_valid_options, is_alike, is_alphanumeric, is_lowercase, is_plain, is_uppercase,
    ArgumentSchema, ArgumentSchemaBuilder, CommandSchema, CommandSchemaBuilder, ValueSchema,
    ValueSchemaBuilder,
};

#[test]
fn plain_text_is_printable_ascii_without_outer_spaces() {
    assert!(is_plain("help"));
    assert!(is_plain("Shows the command (or a sub-command)'s usage"));
    assert!(is_plain("~"));
    assert!(!is_plain(""));
    assert!(!is_plain(" help"));
    assert!(!is_plain("help "));
    assert!(!is_plain("he\tlp"));
    assert!(!is_plain("he\nlp"));
    assert!(!is_plain("he\u{7f}lp"));
    assert!(!is_plain("h\u{e9}lp"));
}

#[test]
fn case_checks_look_at_letters_only() {
    assert!(is_lowercase("resolve-symlinks"));
    assert!(is_lowercase("base-10"));
    assert!(!is_lowercase("Help"));
    assert!(is_uppercase("SUBCOMMAND"));
    assert!(is_uppercase("PATH_1"));
    assert!(!is_uppercase("PATHs"));
    assert!(is_alike("Help", "hELP"));
    assert!(is_alike("", ""));
    assert!(!is_alike("help", "helps"));
    assert!(!is_alike("help", "kelp"));
    assert!(!is_alike("a-b", "a_b"));
    assert!(is_alphanumeric('a') && is_alphanumeric('Z') && is_alphanumeric('7'));
    assert!(!is_alphanumeric('-') && !is_alphanumeric(' ') && !is_alphanumeric('\u{e9}'));
}

#[test]
fn value_schema_is_checked() {
    let valid = ValueSchemaBuilder::new("CHOICE")
        .about("A choice")
        .required()
        .default("auto")
        .options(vec!["auto", "always", "never"])
        .build();
    assert_eq!(valid.name, "CHOICE");
    assert_eq!(valid.about, Some("A choice"));
    assert!(valid.required && !valid.list);
    assert_eq!(valid.default, Some("auto"));
    assert_eq!(valid.options, Some(vec!["auto", "always", "never"]));
    assert!(valid.is_valid());
    assert!(!ValueSchemaBuilder::new("choice").inner.is_valid());
    assert!(!ValueSchemaBuilder::new("").inner.is_valid());
    assert!(!ValueSchemaBuilder::new("X").about(" padded").inner.is_valid());
    assert!(!ValueSchemaBuilder::new("X").options(vec![]).inner.is_valid());
    assert!(!ValueSchemaBuilder::new("X").options(vec!["a", "A"]).inner.is_valid());
    assert!(!ValueSchemaBuilder::new("X").options(vec!["a", "b", "a"]).inner.is_valid());
    assert!(!ValueSchemaBuilder::new("X").options(vec!["Upper"]).inner.is_valid());
    assert!(!ValueSchemaBuilder::new("X").options(vec!["a"]).default("b").inner.is_valid());
    // The default of a list need not be one of the options, and letters count whatever their
    // case.
    assert!(ValueSchemaBuilder::new("X").list().options(vec!["a"]).default("a,b").inner.is_valid());
    assert!(ValueSchemaBuilder::new("X").options(vec!["a"]).default("A").inner.is_valid());
    assert!(ValueSchemaBuilder::new("X").default("anything at all ").inner.is_valid());
    assert!(are_valid_options(&vec!["reverse-*", "name"]));
}

#[test]
fn argument_schema_is_checked() {
    let valid = ArgumentSchemaBuilder::new("depth", "Control how deep to traverse")
        .short('d')
        .value(ValueSchemaBuilder::new("DEPTH").required().build())
        .build();
    assert_eq!(valid.long, "depth");
    assert_eq!(valid.short, Some('d'));
    assert!(valid.value.is_some());
    assert!(!ArgumentSchemaBuilder::new("Depth", "About").inner.is_valid());
    assert!(!ArgumentSchemaBuilder::new("depth", "").inner.is_valid());
    assert!(!ArgumentSchemaBuilder::new("depth", "About").short('-').inner.is_valid());
    let broken = ValueSchema { name: "lower", about: None, list: false, required: false, default: None, options: None };
    assert!(!ArgumentSchemaBuilder::new("depth", "About").value(broken).inner.is_valid());
}

#[test]
fn arguments_differ_by_short_and_long_name() {
    let argument = |long: &'static str, short: Option<char>| ArgumentSchema { long, short, about: "About", value: None };
    assert!(argument("all", Some('a')).const_ne(&argument("color", Some('c'))));
    assert!(argument("all", None).const_ne(&argument("color", None)));
    assert!(!argument("all", Some('a')).const_ne(&argument("any", Some('a'))));
    assert!(!argument("all", Some('a')).const_ne(&argument("ALL", Some('b'))));
    assert!(!argument("all", None).const_ne(&argument("all", None)));
}

#[test]
fn command_schema_is_checked() {
    let argument = |long: &'static str, short: Option<char>| ArgumentSchema { long, short, about: "About", value: None };
    let value = |name: &'static str| ValueSchema { name, about: None, list: false, required: false, default: None, options: None };
    let command = |name: &'static str| CommandSchemaBuilder::new(name, "About");
    assert!(command("tool").version("1.0").inner.is_valid());
    assert!(!command("Tool").inner.is_valid());
    assert!(!command("tool").version("").inner.is_valid());
    assert!(!command("tool").arguments(vec![]).inner.is_valid());
    assert!(!command("tool").positionals(vec![]).inner.is_valid());
    assert!(!command("tool").commands(vec![]).inner.is_valid());
    assert!(command("tool").arguments(vec![argument("a", None), argument("b", None)]).inner.is_valid());
    assert!(!command("tool").arguments(vec![argument("a", None), argument("A", None)]).inner.is_valid());
    assert!(!command("tool").arguments(vec![argument("a", Some('x')), argument("b", Some('x'))]).inner.is_valid());
    assert!(command("tool").positionals(vec![value("A"), value("B")]).inner.is_valid());
    assert!(!command("tool").positionals(vec![value("A"), value("A")]).inner.is_valid());
    let sub = |name: &'static str| command(name).build();
    assert!(command("tool").commands(vec![sub("one"), sub("two")]).inner.is_valid());
    assert!(!command("tool").commands(vec![sub("one"), sub("one")]).inner.is_valid());
    let broken = CommandSchema { name: "Broken", about: "About", version: None, arguments: None, positionals: None, commands: None };
    assert!(!command("tool").commands(vec![sub("one"), broken]).inner.is_valid());
    assert!(sub("one").is_valid());
    let validated = sub("one").validate();
    assert_eq!(validated.name, "one");
    assert!(validated.commands.is_none() && validated.arguments.is_none());
}

#[test]
fn the_outline_of_the_command_is_valid() {
    assert!(schema().is_valid());
    assert!(list_command().is_valid());
    assert!(tree_command().is_valid());
    let schema = schema();
    let names: Vec<&str> = schema.commands.as_ref().unwrap().iter().map(|command| command.name).collect();
    assert_eq!(names, vec!["list", "tree"]);
    let longs: Vec<&str> = list_command().arguments.unwrap().iter().map(|argument| argument.long).collect();
    assert_eq!(
        longs,
        vec![
            "help", "color", "all", "exclude", "include", "resolve-symlinks", "sort", "mode", "size",
            "created", "accessed", "modified", "user", "group",
        ]
    );
    let longs: Vec<&str> = tree_command().arguments.unwrap().iter().map(|argument| argument.long).collect();
    assert_eq!(longs, vec!["help", "color", "all", "include", "exclude", "resolve-symlinks", "sort", "depth"]);
}

#[test]
fn help_lays_out_every_part_of_a_schema() {
    let schema = CommandSchema {
        name: "tool",
        about: "Does things",
        version: Some("1.2"),
        arguments: Some(vec![
            ArgumentSchema { long: "all", short: Some('a'), about: "Everything", value: None },
            ArgumentSchema {
                long: "color",
                short: None,
                about: "Use color",
                value: Some(ValueSchema {
                    name: "CHOICE",
                    about: None,
                    list: false,
                    required: true,
                    default: Some("auto"),
                    options: Some(vec!["auto", "never"]),
                }),
            },
        ]),
        positionals: Some(vec![
            ValueSchema { name: "PATHS", about: Some("The paths"), list: true, required: false, default: None, options: None },
            ValueSchema { name: "MODE", about: None, list: false, required: false, default: Some("x"), options: None },
            ValueSchema { name: "MANY", about: None, list: true, required: true, default: None, options: None },
        ]),
        commands: Some(vec![CommandSchema {
            name: "sub",
            about: "A sub-command",
            version: None,
            arguments: None,
            positionals: None,
            commands: None,
        }]),
    };
    assert!(schema.is_valid());
    let mut out = b"> ".to_vec();
    write_help(&schema, &mut out);
    let expected = [
        "> tool v1.2",
        "  Does things",
        "",
        "Usage: tool [SUBCOMMAND] [ARGUMENTS] [PATHS..?] [MODE?] [MANY...]",
        "",
        "Sub-commands:",
        "  sub                            A sub-command",
        "",
        "Positionals:",
        "  PATHS                          The paths",
        "  MODE                           ",
        "                                 - default: x",
        "  MANY                           ",
        "",
        "Arguments:",
        "  -a, --all                      Everything",
        "      --color [CHOICE]           Use color",
        "                                 - default: auto",
        "                                 - options: auto, never",
        "",
    ]
    .join("\n");
    assert_eq!(String::from_utf8(out).unwrap(), expected);
}

#[test]
fn help_of_a_bare_command_is_its_head() {
    let schema = CommandSchemaBuilder::new("bare", "Nothing to choose").build();
    let mut out = Vec::new();
    write_help(&schema, &mut out);
    assert_eq!(String::from_utf8(out).unwrap(), "bare\n  Nothing to choose\n\nUsage: bare\n");
}

#[test]
fn help_does_not_cut_what_is_wider_than_its_column() {
    let schema = CommandSchemaBuilder::new("tool", "About")
        .arguments(vec![ArgumentSchema {
            long: "a-very-long-argument-name-indeed",
            short: None,
            about: "Long",
            value: None,
        }])
        .build();
    let mut out = Vec::new();
    write_help(&schema, &mut out);
    assert!(String::from_utf8(out).unwrap().ends_with("\nArguments:\n      --a-very-long-argument-name-indeed Long\n"));
}

#[test]
fn help_pads_by_characters_and_writes_any_short_name() {
    let argument = |long: &'static str, short: char| ArgumentSchema { long, short: Some(short), about: "About", value: None };
    let schema = CommandSchema {
        name: "tool",
        about: "About",
        version: None,
        arguments: Some(vec![
            argument("naïve", 'é'),
            argument("euro", '€'),
            argument("smile", '😀'),
            ArgumentSchema {
                long: "größe",
                short: Some('g'),
                about: "Wide",
                value: Some(ValueSchema { name: "MAß", about: None, list: true, required: false, default: None, options: None }),
            },
        ]),
        positionals: Some(vec![ValueSchema { name: "CAFÉ", about: None, list: false, required: false, default: None, options: None }]),
        commands: None,
    };
    assert!(!schema.is_valid());
    let expected = format!(
        "tool\n  About\n\nUsage: tool [ARGUMENTS] [CAFÉ?]\n\nPositionals:\n  {: <30} \n\nArguments:\n  -é, --{: <24} About\n  -€, --{: <24} About\n  -😀, --{: <24} About\n  -g, --{: <24} Wide\n",
        "CAFÉ", "naïve", "euro", "smile", "größe [MAß..?]",
    );
    let mut out = Vec::new();
    write_help(&schema, &mut out);
    assert_eq!(String::from_utf8(out).unwrap(), expected);
}
