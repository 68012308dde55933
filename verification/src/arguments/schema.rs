//! Defines structures that allow command-line options to be outlined easily.

use vstd::prelude::*;

verus! {

/// Whether the text can stand in a schema: it is not empty, every character is a printable
/// ASCII character, and it neither begins nor ends with a space.
pub open spec fn plain(text: Seq<char>) -> bool {
    &&& text.len() > 0
    &&& forall|i: int| 0 <= i < text.len() ==> ' ' <= #[trigger] text[i] <= '~'
    &&& text[0] != ' '
    &&& text[text.len() - 1] != ' '
}

/// Whether the text holds no upper-case letter.
pub open spec fn lowercase(text: Seq<char>) -> bool {
    forall|i: int| 0 <= i < text.len() ==> !('A' <= #[trigger] text[i] <= 'Z')
}

/// Whether the text holds no lower-case letter.
pub open spec fn uppercase(text: Seq<char>) -> bool {
    forall|i: int| 0 <= i < text.len() ==> !('a' <= #[trigger] text[i] <= 'z')
}

/// The character with an upper-case letter turned into its lower-case letter.
pub open spec fn folded(c: char) -> int {
    if 'A' <= c <= 'Z' {
        c as int + 32
    } else {
        c as int
    }
}

/// Whether the two texts are equal once the case of their letters is set aside.
pub open spec fn alike(left: Seq<char>, right: Seq<char>) -> bool {
    left.len() == right.len() && forall|i: int|
        0 <= i < left.len() ==> folded(#[trigger] left[i]) == folded(right[i])
}

/// Whether the character is an ASCII letter or digit.
pub open spec fn alphanumeric(c: char) -> bool {
    ('0' <= c <= '9') || ('a' <= c <= 'z') || ('A' <= c <= 'Z')
}

/// Returns `true` if the text is not empty, is made of printable ASCII characters and neither
/// begins nor ends with a space.
pub fn is_plain(text: &str) -> (r: bool)
    ensures
        r == plain(text@),
{
    if !text.is_ascii() {
        proof {
            if plain(text@) {
                assert forall|i: int| 0 <= i < text@.len() implies '\0' <= #[trigger] text@[i]
                    <= '\u{7f}' by {
                    assert(' ' <= text@[i] <= '~');
                }
            }
        }
        return false;
    }
    let bytes = text.as_bytes();
    proof {
        vstd::string::is_ascii_spec_bytes(text);
    }
    let length = bytes.len();
    if length == 0 {
        return false;
    }
    assert(bytes@[0] == text@[0] as u8);
    assert(bytes@[length - 1] == text@[length - 1] as u8);
    if bytes[0] == 0x20 || bytes[length - 1] == 0x20 {
        return false;
    }
    let mut i: usize = 0;
    while i < length
        invariant
            length == text@.len(),
            bytes@ == Seq::new(text@.len(), |i: int| text@[i] as u8),
            vstd::string::is_ascii(text),
            i <= length,
            forall|k: int| 0 <= k < i ==> ' ' <= #[trigger] text@[k] <= '~',
        decreases length - i,
    {
        assert(bytes@[i as int] == text@[i as int] as u8);
        assert('\0' <= text@[i as int] <= '\u{7f}');
        if bytes[i] < 0x20 || bytes[i] > 0x7e {
            return false;
        }
        i = i + 1;
    }
    true
}

/// Returns `true` if the text holds no upper-case letter.
pub fn is_lowercase(text: &str) -> (r: bool)
    ensures
        r == lowercase(text@),
{
    let length = text.unicode_len();
    let mut i: usize = 0;
    while i < length
        invariant
            length == text@.len(),
            i <= length,
            forall|k: int| 0 <= k < i ==> !('A' <= #[trigger] text@[k] <= 'Z'),
        decreases length - i,
    {
        let c = text.get_char(i);
        if 'A' <= c && c <= 'Z' {
            return false;
        }
        i = i + 1;
    }
    true
}

/// Returns `true` if the text holds no lower-case letter.
pub fn is_uppercase(text: &str) -> (r: bool)
    ensures
        r == uppercase(text@),
{
    let length = text.unicode_len();
    let mut i: usize = 0;
    while i < length
        invariant
            length == text@.len(),
            i <= length,
            forall|k: int| 0 <= k < i ==> !('a' <= #[trigger] text@[k] <= 'z'),
        decreases length - i,
    {
        let c = text.get_char(i);
        if 'a' <= c && c <= 'z' {
            return false;
        }
        i = i + 1;
    }
    true
}

/// Returns the number of the character, with an upper-case letter turned into its lower-case
/// letter.
fn fold(c: char) -> (r: u32)
    ensures
        r == folded(c),
{
    if 'A' <= c && c <= 'Z' {
        c as u32 + 32
    } else {
        c as u32
    }
}

/// Returns `true` if the two texts are equal once the case of their letters is set aside.
pub fn is_alike(left: &str, right: &str) -> (r: bool)
    ensures
        r == alike(left@, right@),
{
    let length = left.unicode_len();
    if length != right.unicode_len() {
        return false;
    }
    let mut i: usize = 0;
    while i < length
        invariant
            length == left@.len(),
            length == right@.len(),
            i <= length,
            forall|k: int| 0 <= k < i ==> folded(#[trigger] left@[k]) == folded(right@[k]),
        decreases length - i,
    {
        if fold(left.get_char(i)) != fold(right.get_char(i)) {
            return false;
        }
        i = i + 1;
    }
    true
}

/// Returns `true` if the character is an ASCII letter or digit.
pub fn is_alphanumeric(c: char) -> (r: bool)
    ensures
        r == alphanumeric(c),
{
    ('0' <= c && c <= '9') || ('a' <= c && c <= 'z') || ('A' <= c && c <= 'Z')
}

/// A command value schema definition.
#[derive(Debug)]
pub struct ValueSchema<'s> {
    /// The value name.
    pub name: &'s str,
    /// The value description.
    pub about: Option<&'s str>,
    /// Whether more than one value is supported.
    pub list: bool,
    /// Whether this value is required.
    pub required: bool,
    /// The default value string if not provided.
    pub default: Option<&'s str>,
    /// The allowed value strings.
    pub options: Option<Vec<&'s str>>,
}

/// Whether no two of the texts are alike.
pub open spec fn unlike(texts: Seq<&str>) -> bool {
    forall|i: int, j: int| 0 <= i < j < texts.len() ==> !alike(#[trigger] texts[i]@, #[trigger] texts[j]@)
}

/// Whether the options can stand in a value schema: there is at least one, each is plain and
/// without upper-case letters, and no two are alike.
pub open spec fn valid_options(options: Seq<&str>) -> bool {
    &&& options.len() > 0
    &&& forall|i: int|
        0 <= i < options.len() ==> plain((#[trigger] options[i])@) && lowercase(options[i]@)
    &&& unlike(options)
}

/// Whether one of the options is alike the text.
pub open spec fn offered(options: Seq<&str>, text: Seq<char>) -> bool {
    exists|i: int| 0 <= i < options.len() && alike((#[trigger] options[i])@, text)
}

impl<'s> ValueSchema<'s> {
    /// Whether this command value is valid and may be used within a command-line application.
    ///
    /// The name is plain and without lower-case letters, and the description is plain. Where
    /// options are given they are valid, and the default of a value that is no list is one of
    /// them.
    pub open spec fn valid(&self) -> bool {
        &&& plain(self.name@)
        &&& uppercase(self.name@)
        &&& self.about matches Some(about) ==> plain(about@)
        &&& self.options matches Some(options) ==> {
            &&& valid_options(options@)
            &&& !self.list ==> (self.default matches Some(default) ==> offered(options@, default@))
        }
    }

    /// Returns `true` if this command value is valid.
    pub fn is_valid(&self) -> (r: bool)
        ensures
            r == self.valid(),
    {
        if !is_plain(self.name) || !is_uppercase(self.name) {
            return false;
        }
        match self.about {
            Some(about) => {
                if !is_plain(about) {
                    return false;
                }
            },
            None => {},
        }
        match &self.options {
            Some(options) => {
                if !are_valid_options(options) {
                    return false;
                }
                if !self.list {
                    match self.default {
                        Some(default) => is_offered(options, default),
                        None => true,
                    }
                } else {
                    true
                }
            },
            None => true,
        }
    }

    /// Hands on this command value, which is valid and may be used within a command-line
    /// application. Whether one is valid, `is_valid` tells.
    pub fn validate(self) -> (r: Self)
        requires
            self.valid(),
        ensures
            r == self,
    {
        self
    }
}

/// Returns `true` if one of the options is alike the text.
pub fn is_offered(options: &Vec<&str>, text: &str) -> (r: bool)
    ensures
        r == offered(options@, text@),
{
    let mut i: usize = 0;
    while i < options.len()
        invariant
            i <= options@.len(),
            forall|k: int| 0 <= k < i ==> !alike((#[trigger] options@[k])@, text@),
        decreases options@.len() - i,
    {
        if is_alike(options[i], text) {
            return true;
        }
        i = i + 1;
    }
    false
}

/// Returns `true` if the text at `at` is alike none of the texts behind it.
fn is_unlike_rest(texts: &Vec<&str>, at: usize) -> (r: bool)
    requires
        at < texts.len(),
    ensures
        r == forall|j: int| at < j < texts@.len() ==> !alike(texts@[at as int]@, (#[trigger] texts@[j])@),
{
    let mut j: usize = at + 1;
    while j < texts.len()
        invariant
            at < j <= texts@.len(),
            forall|k: int| at < k < j ==> !alike(texts@[at as int]@, (#[trigger] texts@[k])@),
        decreases texts@.len() - j,
    {
        if is_alike(texts[at], texts[j]) {
            return false;
        }
        j = j + 1;
    }
    true
}

/// Returns `true` if the options can stand in a value schema.
pub fn are_valid_options(options: &Vec<&str>) -> (r: bool)
    ensures
        r == valid_options(options@),
{
    if options.len() == 0 {
        return false;
    }
    let mut i: usize = 0;
    while i < options.len()
        invariant
            i <= options@.len(),
            forall|k: int|
                0 <= k < i ==> plain((#[trigger] options@[k])@) && lowercase(options@[k]@),
            forall|k: int, j: int|
                0 <= k < i && k < j < options@.len() ==> !alike(
                    (#[trigger] options@[k])@,
                    (#[trigger] options@[j])@,
                ),
        decreases options@.len() - i,
    {
        if !is_plain(options[i]) || !is_lowercase(options[i]) {
            return false;
        }
        if !is_unlike_rest(options, i) {
            return false;
        }
        i = i + 1;
    }
    true
}

/// A command argument schema definition.
#[derive(Debug)]
pub struct ArgumentSchema<'s> {
    /// The long argument name.
    pub long: &'s str,
    /// The short argument name.
    pub short: Option<char>,
    /// The argument description.
    pub about: &'s str,
    /// The argument value name.
    pub value: Option<ValueSchema<'s>>,
}

impl<'s> ArgumentSchema<'s> {
    /// Whether the two arguments can stand in one command: they do not share a short name, and
    /// their long names are not alike.
    pub open spec fn differs(&self, other: &Self) -> bool {
        &&& !(self.short is Some && self.short == other.short)
        &&& !alike(self.long@, other.long@)
    }

    /// Whether this command argument is valid and may be used within a command-line
    /// application.
    ///
    /// The long name is plain and without upper-case letters, the description is plain, the
    /// short name is a letter or a digit, and the value is valid.
    pub open spec fn valid(&self) -> bool {
        &&& plain(self.long@)
        &&& lowercase(self.long@)
        &&& plain(self.about@)
        &&& self.short matches Some(short) ==> alphanumeric(short)
        &&& self.value matches Some(value) ==> value.valid()
    }

    /// Returns `true` if this argument is **not** equal to the given argument.
    pub fn const_ne(&self, other: &Self) -> (r: bool)
        ensures
            r == self.differs(other),
    {
        match (self.short, other.short) {
            (Some(mine), Some(theirs)) => {
                if mine == theirs {
                    return false;
                }
            },
            _ => {},
        }
        !is_alike(self.long, other.long)
    }

    /// Returns `true` if this command argument is valid.
    pub fn is_valid(&self) -> (r: bool)
        ensures
            r == self.valid(),
    {
        if !is_plain(self.long) || !is_lowercase(self.long) || !is_plain(self.about) {
            return false;
        }
        match self.short {
            Some(short) => {
                if !is_alphanumeric(short) {
                    return false;
                }
            },
            None => {},
        }
        match &self.value {
            Some(value) => value.is_valid(),
            None => true,
        }
    }

    /// Hands on this command argument, which is valid and may be used within a command-line
    /// application. Whether one is valid, `is_valid` tells.
    pub fn validate(self) -> (r: Self)
        requires
            self.valid(),
        ensures
            r == self,
    {
        self
    }
}

/// A command schema definition.
#[derive(Debug)]
pub struct CommandSchema<'s> {
    /// The command name.
    pub name: &'s str,
    /// The command description.
    pub about: &'s str,
    /// The command version.
    pub version: Option<&'s str>,
    /// The command's arguments.
    pub arguments: Option<Vec<ArgumentSchema<'s>>>,
    /// The command's positional arguments.
    pub positionals: Option<Vec<ValueSchema<'s>>>,
    /// The command's sub-commands.
    pub commands: Option<Vec<CommandSchema<'s>>>,
}

/// Whether the arguments can stand in a command: there is at least one, each is valid, and any
/// two differ.
pub open spec fn valid_arguments(arguments: Seq<ArgumentSchema<'_>>) -> bool {
    &&& arguments.len() > 0
    &&& forall|i: int| 0 <= i < arguments.len() ==> (#[trigger] arguments[i]).valid()
    &&& forall|i: int, j: int|
        #![trigger arguments[i], arguments[j]]
        0 <= i < j < arguments.len() ==> arguments[i].differs(&arguments[j])
}

/// Whether the positional arguments can stand in a command: there is at least one, each is
/// valid, and no two names are alike.
pub open spec fn valid_positionals(positionals: Seq<ValueSchema<'_>>) -> bool {
    &&& positionals.len() > 0
    &&& forall|i: int| 0 <= i < positionals.len() ==> (#[trigger] positionals[i]).valid()
    &&& forall|i: int, j: int|
        0 <= i < j < positionals.len() ==> !alike(
            (#[trigger] positionals[i]).name@,
            (#[trigger] positionals[j]).name@,
        )
}

impl<'s> CommandSchema<'s> {
    /// Whether this command is valid and may be used within a command-line application.
    ///
    /// The name is plain and without upper-case letters, and the description and the version
    /// are plain. Where arguments, positional arguments or sub-commands are given, there is at
    /// least one of them, each is valid, and no two share a name.
    pub open spec fn valid(&self) -> bool
        decreases self,
    {
        &&& plain(self.name@)
        &&& lowercase(self.name@)
        &&& plain(self.about@)
        &&& self.version matches Some(version) ==> plain(version@)
        &&& self.arguments matches Some(arguments) ==> valid_arguments(arguments@)
        &&& self.positionals matches Some(positionals) ==> valid_positionals(positionals@)
        &&& self.commands matches Some(commands) ==> {
            &&& commands@.len() > 0
            &&& forall|i: int| 0 <= i < commands@.len() ==> (#[trigger] commands@[i]).valid()
            &&& forall|i: int, j: int|
                0 <= i < j < commands@.len() ==> !alike(
                    (#[trigger] commands@[i]).name@,
                    (#[trigger] commands@[j]).name@,
                )
        }
    }

    /// Returns `true` if this command is valid.
    pub fn is_valid(&self) -> (r: bool)
        ensures
            r == self.valid(),
        decreases self,
    {
        if !is_plain(self.name) || !is_lowercase(self.name) || !is_plain(self.about) {
            return false;
        }
        match self.version {
            Some(version) => {
                if !is_plain(version) {
                    return false;
                }
            },
            None => {},
        }
        match &self.arguments {
            Some(arguments) => {
                if !are_valid_arguments(arguments) {
                    return false;
                }
            },
            None => {},
        }
        match &self.positionals {
            Some(positionals) => {
                if !are_valid_positionals(positionals) {
                    return false;
                }
            },
            None => {},
        }
        match &self.commands {
            Some(commands) => {
                if commands.len() == 0 {
                    return false;
                }
                let mut i: usize = 0;
                while i < commands.len()
                    invariant
                        self.commands == Some(*commands),
                        i <= commands@.len(),
                        forall|k: int| 0 <= k < i ==> (#[trigger] commands@[k]).valid(),
                        forall|k: int, j: int|
                            0 <= k < i && k < j < commands@.len() ==> !alike(
                                (#[trigger] commands@[k]).name@,
                                (#[trigger] commands@[j]).name@,
                            ),
                    decreases commands@.len() - i,
                {
                    proof {
                        vstd::std_specs::vec::axiom_vec_index_decreases(*commands, i as int);
                        assert(decreases_to!(*commands => commands[i as int]));
                        assert(self.commands->0 == *commands);
                        assert(decreases_to!(self.commands => self.commands->0));
                        assert(decreases_to!(*self => self.commands));
                        assert(decreases_to!(*self => commands[i as int]));
                    }
                    if !commands[i].is_valid() {
                        return false;
                    }
                    let mut j: usize = i + 1;
                    while j < commands.len()
                        invariant
                            self.commands == Some(*commands),
                            i < j <= commands@.len(),
                            forall|k: int|
                                i < k < j ==> !alike(
                                    commands@[i as int].name@,
                                    (#[trigger] commands@[k]).name@,
                                ),
                        decreases commands@.len() - j,
                    {
                        if is_alike(commands[i].name, commands[j].name) {
                            return false;
                        }
                        j = j + 1;
                    }
                    i = i + 1;
                }
                true
            },
            None => true,
        }
    }

    /// Hands on this command, which is valid and may be used within a command-line
    /// application. Whether one is valid, `is_valid` tells.
    pub fn validate(self) -> (r: Self)
        requires
            self.valid(),
        ensures
            r == self,
    {
        self
    }
}

/// Returns `true` if the arguments can stand in a command.
pub fn are_valid_arguments(arguments: &Vec<ArgumentSchema<'_>>) -> (r: bool)
    ensures
        r == valid_arguments(arguments@),
{
    if arguments.len() == 0 {
        return false;
    }
    let mut i: usize = 0;
    while i < arguments.len()
        invariant
            i <= arguments@.len(),
            forall|k: int| 0 <= k < i ==> (#[trigger] arguments@[k]).valid(),
            forall|k: int, j: int|
                #![trigger arguments@[k], arguments@[j]]
                0 <= k < i && k < j < arguments@.len() ==> arguments@[k].differs(&arguments@[j]),
        decreases arguments@.len() - i,
    {
        if !arguments[i].is_valid() {
            return false;
        }
        let mut j: usize = i + 1;
        while j < arguments.len()
            invariant
                i < j <= arguments@.len(),
                forall|k: int|
                    #![trigger arguments@[k]]
                    i < k < j ==> arguments@[i as int].differs(&arguments@[k]),
            decreases arguments@.len() - j,
        {
            if !arguments[i].const_ne(&arguments[j]) {
                return false;
            }
            j = j + 1;
        }
        i = i + 1;
    }
    true
}

/// Returns `true` if the positional arguments can stand in a command.
pub fn are_valid_positionals(positionals: &Vec<ValueSchema<'_>>) -> (r: bool)
    ensures
        r == valid_positionals(positionals@),
{
    if positionals.len() == 0 {
        return false;
    }
    let mut i: usize = 0;
    while i < positionals.len()
        invariant
            i <= positionals@.len(),
            forall|k: int| 0 <= k < i ==> (#[trigger] positionals@[k]).valid(),
            forall|k: int, j: int|
                0 <= k < i && k < j < positionals@.len() ==> !alike(
                    (#[trigger] positionals@[k]).name@,
                    (#[trigger] positionals@[j]).name@,
                ),
        decreases positionals@.len() - i,
    {
        if !positionals[i].is_valid() {
            return false;
        }
        let mut j: usize = i + 1;
        while j < positionals.len()
            invariant
                i < j <= positionals@.len(),
                forall|k: int|
                    i < k < j ==> !alike(
                        positionals@[i as int].name@,
                        (#[trigger] positionals@[k]).name@,
                    ),
            decreases positionals@.len() - j,
        {
            if is_alike(positionals[i].name, positionals[j].name) {
                return false;
            }
            j = j + 1;
        }
        i = i + 1;
    }
    true
}

/// A value schema definition builder.
#[derive(Debug)]
pub struct ValueSchemaBuilder<'s> {
    /// The schema as far as it has been built.
    pub inner: ValueSchema<'s>,
}

impl<'s> ValueSchemaBuilder<'s> {
    /// Creates a new [`ValueSchemaBuilder`].
    pub fn new(name: &'s str) -> (r: Self)
        ensures
            r.inner == (ValueSchema {
                name,
                about: None,
                list: false,
                required: false,
                default: None,
                options: None,
            }),
    {
        Self {
            inner: ValueSchema {
                name,
                about: None,
                list: false,
                required: false,
                default: None,
                options: None,
            },
        }
    }

    /// Sets the value's description.
    pub fn about(self, about: &'s str) -> (r: Self)
        ensures
            r.inner == (ValueSchema { about: Some(about), ..self.inner }),
    {
        let mut built = self;
        built.inner.about = Some(about);
        built
    }

    /// Sets the value to be a list of values.
    pub fn list(self) -> (r: Self)
        ensures
            r.inner == (ValueSchema { list: true, ..self.inner }),
    {
        let mut built = self;
        built.inner.list = true;
        built
    }

    /// Sets the value to be required.
    pub fn required(self) -> (r: Self)
        ensures
            r.inner == (ValueSchema { required: true, ..self.inner }),
    {
        let mut built = self;
        built.inner.required = true;
        built
    }

    /// Sets the value's default value.
    pub fn default(self, default: &'s str) -> (r: Self)
        ensures
            r.inner == (ValueSchema { default: Some(default), ..self.inner }),
    {
        let mut built = self;
        built.inner.default = Some(default);
        built
    }

    /// Sets the value's options.
    pub fn options(self, options: Vec<&'s str>) -> (r: Self)
        ensures
            r.inner == (ValueSchema { options: Some(options), ..self.inner }),
    {
        let mut built = self;
        built.inner.options = Some(options);
        built
    }

    /// Builds the schema, which is valid.
    pub fn build(self) -> (r: ValueSchema<'s>)
        requires
            self.inner.valid(),
        ensures
            r == self.inner,
    {
        self.inner.validate()
    }
}

/// An argument schema definition builder.
#[derive(Debug)]
pub struct ArgumentSchemaBuilder<'s> {
    /// The schema as far as it has been built.
    pub inner: ArgumentSchema<'s>,
}

impl<'s> ArgumentSchemaBuilder<'s> {
    /// Creates a new [`ArgumentSchemaBuilder`].
    pub fn new(long: &'s str, about: &'s str) -> (r: Self)
        ensures
            r.inner == (ArgumentSchema { long, short: None, about, value: None }),
    {
        Self { inner: ArgumentSchema { long, short: None, about, value: None } }
    }

    /// Sets the argument's short name.
    pub fn short(self, short: char) -> (r: Self)
        ensures
            r.inner == (ArgumentSchema { short: Some(short), ..self.inner }),
    {
        let mut built = self;
        built.inner.short = Some(short);
        built
    }

    /// Sets the argument's value.
    pub fn value(self, value: ValueSchema<'s>) -> (r: Self)
        ensures
            r.inner == (ArgumentSchema { value: Some(value), ..self.inner }),
    {
        let mut built = self;
        built.inner.value = Some(value);
        built
    }

    /// Builds the schema, which is valid.
    pub fn build(self) -> (r: ArgumentSchema<'s>)
        requires
            self.inner.valid(),
        ensures
            r == self.inner,
    {
        self.inner.validate()
    }
}

/// A command schema definition builder.
#[derive(Debug)]
pub struct CommandSchemaBuilder<'s> {
    /// The schema as far as it has been built.
    pub inner: CommandSchema<'s>,
}

impl<'s> CommandSchemaBuilder<'s> {
    /// Creates a new [`CommandSchemaBuilder`].
    pub fn new(name: &'s str, about: &'s str) -> (r: Self)
        ensures
            r.inner == (CommandSchema {
                name,
                about,
                version: None,
                arguments: None,
                positionals: None,
                commands: None,
            }),
    {
        Self {
            inner: CommandSchema {
                name,
                about,
                version: None,
                arguments: None,
                positionals: None,
                commands: None,
            },
        }
    }

    /// Sets the command version.
    pub fn version(self, version: &'s str) -> (r: Self)
        ensures
            r.inner == (CommandSchema { version: Some(version), ..self.inner }),
    {
        let mut built = self;
        built.inner.version = Some(version);
        built
    }

    /// Sets the command's positional arguments.
    pub fn positionals(self, positionals: Vec<ValueSchema<'s>>) -> (r: Self)
        ensures
            r.inner == (CommandSchema { positionals: Some(positionals), ..self.inner }),
    {
        let mut built = self;
        built.inner.positionals = Some(positionals);
        built
    }

    /// Sets the command's arguments.
    pub fn arguments(self, arguments: Vec<ArgumentSchema<'s>>) -> (r: Self)
        ensures
            r.inner == (CommandSchema { arguments: Some(arguments), ..self.inner }),
    {
        let mut built = self;
        built.inner.arguments = Some(arguments);
        built
    }

    /// Sets the command's sub-commands.
    pub fn commands(self, commands: Vec<CommandSchema<'s>>) -> (r: Self)
        ensures
            r.inner == (CommandSchema { commands: Some(commands), ..self.inner }),
    {
        let mut built = self;
        built.inner.commands = Some(commands);
        built
    }

    /// Builds the schema, which is valid.
    pub fn build(self) -> (r: CommandSchema<'s>)
        requires
            self.inner.valid(),
        ensures
            r == self.inner,
    {
        self.inner.validate()
    }
}

} // verus!
