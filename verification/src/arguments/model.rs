//! Defines the command's argument data types.

use vstd::prelude::*;

use crate::arguments::outline::{
    is_list_command, is_schema, is_tree_command, list_command, schema, tree_command,
};
use crate::arguments::schema::CommandSchema;
use crate::files::filter::Filter;
use crate::files::metadata::{Metadata, Timestamp};
use crate::files::path::{hidden, same_bytes};
use crate::files::snapshot::{
    coherent, lemma_coherent_alike, lemma_reverse_coherent, lemma_then_coherent, outcome,
};
use crate::files::sort::{Order, Reverse, Sort, Then};
use crate::files::is_hidden;

verus! {

/// Determines whether to output using color.
#[derive(Clone, Copy, Debug, PartialEq, Eq, Structural)]
pub enum ColorChoice {
    /// Automatically determine whether to output with color.
    Auto,
    /// Always output with color.
    Always,
    /// Never output with color.
    Never,
}

impl ColorChoice {
    /// Returns `true` if the color choice is [`ColorChoice::Auto`].
    pub fn is_auto(&self) -> (r: bool)
        ensures
            r == (*self is Auto),
    {
        matches!(self, Self::Auto)
    }

    /// Returns `true` if the color choice is [`ColorChoice::Always`].
    pub fn is_always(&self) -> (r: bool)
        ensures
            r == (*self is Always),
    {
        matches!(self, Self::Always)
    }

    /// Returns `true` if the color choice is [`ColorChoice::Never`].
    pub fn is_never(&self) -> (r: bool)
        ensures
            r == (*self is Never),
    {
        matches!(self, Self::Never)
    }
}

impl Default for ColorChoice {
    fn default() -> (r: Self)
        ensures
            r is Auto,
    {
        Self::Auto
    }
}

/// Determines whether to display an entry's Unix file mode.
#[derive(Clone, Copy, Debug, PartialEq, Eq, Structural)]
pub enum ModeVisibility {
    /// Do not show entry modes.
    Hide,
    /// Show standard entry modes.
    Show,
    /// Show extended entry modes.
    Extended,
}

impl ModeVisibility {
    /// Returns `true` if the mode visibility is [`ModeVisibility::Hide`].
    pub fn is_hide(&self) -> (r: bool)
        ensures
            r == (*self is Hide),
    {
        matches!(self, Self::Hide)
    }

    /// Returns `true` if the mode visibility is [`ModeVisibility::Show`].
    pub fn is_show(&self) -> (r: bool)
        ensures
            r == (*self is Show),
    {
        matches!(self, Self::Show)
    }

    /// Returns `true` if the mode visibility is [`ModeVisibility::Extended`].
    pub fn is_extended(&self) -> (r: bool)
        ensures
            r == (*self is Extended),
    {
        matches!(self, Self::Extended)
    }
}

impl Default for ModeVisibility {
    fn default() -> (r: Self)
        ensures
            r is Hide,
    {
        Self::Hide
    }
}

/// Determines whether to display file sizes.
#[derive(Clone, Copy, Debug, PartialEq, Eq, Structural)]
pub enum SizeVisibility {
    /// Files sizes are not rendered.
    Hide,
    /// Output the number of bytes.
    Simple,
    /// Output the size in base 2.
    Base2,
    /// Output the size in base 10.
    Base10,
}

impl SizeVisibility {
    /// Returns `true` if the size visibility is [`SizeVisibility::Hide`].
    pub fn is_hide(&self) -> (r: bool)
        ensures
            r == (*self is Hide),
    {
        matches!(self, Self::Hide)
    }

    /// Returns `true` if the size visibility is [`SizeVisibility::Simple`].
    pub fn is_simple(&self) -> (r: bool)
        ensures
            r == (*self is Simple),
    {
        matches!(self, Self::Simple)
    }

    /// Returns `true` if the size visibility is [`SizeVisibility::Base2`].
    pub fn is_base2(&self) -> (r: bool)
        ensures
            r == (*self is Base2),
    {
        matches!(self, Self::Base2)
    }

    /// Returns `true` if the size visibility is [`SizeVisibility::Base10`].
    pub fn is_base10(&self) -> (r: bool)
        ensures
            r == (*self is Base10),
    {
        matches!(self, Self::Base10)
    }
}

impl Default for SizeVisibility {
    fn default() -> (r: Self)
        ensures
            r is Hide,
    {
        Self::Hide
    }
}

/// Determines whether to display dates.
#[derive(Clone, Copy, Debug, PartialEq, Eq, Structural)]
pub enum TimeVisibility {
    /// Dates are not rendered.
    Hide,
    /// Display in a simple format.
    Simple,
    /// Display in ISO-8601 format.
    Iso8601,
}

impl TimeVisibility {
    /// Returns `true` if the time visibility is [`TimeVisibility::Hide`].
    pub fn is_hide(&self) -> (r: bool)
        ensures
            r == (*self is Hide),
    {
        matches!(self, Self::Hide)
    }

    /// Returns `true` if the time visibility is [`TimeVisibility::Simple`].
    pub fn is_simple(&self) -> (r: bool)
        ensures
            r == (*self is Simple),
    {
        matches!(self, Self::Simple)
    }

    /// Returns `true` if the time visibility is [`TimeVisibility::Iso8601`].
    pub fn is_iso8601(&self) -> (r: bool)
        ensures
            r == (*self is Iso8601),
    {
        matches!(self, Self::Iso8601)
    }
}

impl Default for TimeVisibility {
    fn default() -> (r: Self)
        ensures
            r is Hide,
    {
        Self::Hide
    }
}

/// The paths to list: a set that remembers the order in which its paths were added.
#[derive(Debug)]
pub struct Paths {
    /// The paths, each once, in the order in which they were added.
    inner: Vec<Vec<u8>>,
}

impl View for Paths {
    type V = Seq<Seq<u8>>;

    closed spec fn view(&self) -> Seq<Seq<u8>> {
        Seq::new(self.inner@.len(), |i: int| self.inner@[i]@)
    }
}

impl Paths {
    /// No path is held twice. This holds of every set that was made by [`Paths::new`] and
    /// filled by [`Paths::add`].
    pub open spec fn distinct(&self) -> bool {
        self@.no_duplicates()
    }

    /// Creates a new [`Paths`].
    pub fn new() -> (r: Self)
        ensures
            r@ == Seq::<Seq<u8>>::empty(),
            r.distinct(),
    {
        let r = Self { inner: Vec::new() };
        assert(r@ =~= Seq::<Seq<u8>>::empty());
        r
    }

    /// Returns `true` if this value contains the given path.
    pub fn has(&self, path: &[u8]) -> (r: bool)
        ensures
            r == self@.contains(path@),
    {
        let mut i: usize = 0;
        while i < self.inner.len()
            invariant
                i <= self.inner@.len(),
                forall|k: int| 0 <= k < i ==> self@[k] != path@,
            decreases self.inner@.len() - i,
        {
            if same_bytes(self.inner[i].as_slice(), path) {
                assert(self@[i as int] == path@);
                return true;
            }
            i = i + 1;
        }
        false
    }

    /// Adds the given path to the list.
    pub fn add(&mut self, path: &[u8])
        ensures
            final(self)@ == if old(self)@.contains(path@) {
                old(self)@
            } else {
                old(self)@.push(path@)
            },
            old(self).distinct() ==> final(self).distinct(),
    {
        if !self.has(path) {
            let owned = vstd::slice::slice_to_vec(path);
            self.inner.push(owned);
            assert(self@ =~= old(self)@.push(path@));
        }
    }

    /// Returns the paths in the order in which they were added.
    pub fn get(&self) -> (r: &Vec<Vec<u8>>)
        ensures
            r@.len() == self@.len(),
            forall|i: int| 0 <= i < r@.len() ==> (#[trigger] r@[i])@ == self@[i],
    {
        &self.inner
    }

    /// Returns the number of paths.
    pub fn len(&self) -> (r: usize)
        ensures
            r == self@.len(),
    {
        self.inner.len()
    }

    /// Returns `true` if no paths have been added.
    pub fn is_empty(&self) -> (r: bool)
        ensures
            r == (self@.len() == 0),
    {
        self.inner.len() == 0
    }
}

impl Default for Paths {
    fn default() -> (r: Self)
        ensures
            r@ == Seq::<Seq<u8>>::empty(),
            r.distinct(),
    {
        Self::new()
    }
}

/// How `lhs` stands to `rhs` byte by byte: the first byte that differs decides, and a text that
/// ends first comes first.
pub open spec fn lexical(lhs: Seq<u8>, rhs: Seq<u8>) -> Order
    decreases lhs.len(),
{
    if lhs.len() == 0 {
        if rhs.len() == 0 {
            Order::Equal
        } else {
            Order::Less
        }
    } else if rhs.len() == 0 {
        Order::Greater
    } else if lhs[0] < rhs[0] {
        Order::Less
    } else if lhs[0] > rhs[0] {
        Order::Greater
    } else {
        lexical(lhs.skip(1), rhs.skip(1))
    }
}

/// How `lhs` stands to `rhs` where the smaller number comes first.
pub open spec fn smaller_first(lhs: u64, rhs: u64) -> Order {
    if lhs < rhs {
        Order::Less
    } else if lhs == rhs {
        Order::Equal
    } else {
        Order::Greater
    }
}

/// How `lhs` stands to `rhs` where the more recent time comes first. Where either time is not
/// known, neither comes first.
pub open spec fn recent_first(lhs: Option<Timestamp>, rhs: Option<Timestamp>) -> Order {
    match (lhs, rhs) {
        (Some(left), Some(right)) => if right.earlier(left) {
            Order::Less
        } else if left.earlier(right) {
            Order::Greater
        } else {
            Order::Equal
        },
        _ => Order::Equal,
    }
}

/// How `lhs` stands to `rhs` where the entries that carry the flag come first.
pub open spec fn flagged_first(lhs: bool, rhs: bool) -> Order {
    if lhs == rhs {
        Order::Equal
    } else if lhs {
        Order::Less
    } else {
        Order::Greater
    }
}

/// Compares two texts byte by byte.
pub fn compare_bytes(lhs: &[u8], rhs: &[u8]) -> (r: Order)
    ensures
        r == lexical(lhs@, rhs@),
{
    let mut i: usize = 0;
    assert(lhs@.skip(0) =~= lhs@ && rhs@.skip(0) =~= rhs@);
    while i < lhs.len() && i < rhs.len()
        invariant
            i <= lhs@.len(),
            i <= rhs@.len(),
            lexical(lhs@, rhs@) == lexical(lhs@.skip(i as int), rhs@.skip(i as int)),
        decreases lhs@.len() - i,
    {
        proof {
            assert(lhs@.skip(i as int)[0] == lhs@[i as int]);
            assert(rhs@.skip(i as int)[0] == rhs@[i as int]);
            assert(lhs@.skip(i as int).skip(1) =~= lhs@.skip(i + 1));
            assert(rhs@.skip(i as int).skip(1) =~= rhs@.skip(i + 1));
        }
        if lhs[i] < rhs[i] {
            return Order::Less;
        }
        if lhs[i] > rhs[i] {
            return Order::Greater;
        }
        i = i + 1;
    }
    if i < rhs.len() {
        Order::Less
    } else if i < lhs.len() {
        Order::Greater
    } else {
        Order::Equal
    }
}

/// Compares two sizes, the smaller first.
pub fn compare_sizes(lhs: u64, rhs: u64) -> (r: Order)
    ensures
        r == smaller_first(lhs, rhs),
{
    if lhs < rhs {
        Order::Less
    } else if lhs == rhs {
        Order::Equal
    } else {
        Order::Greater
    }
}

/// Compares two times, the more recent first.
pub fn compare_times(lhs: &Option<Timestamp>, rhs: &Option<Timestamp>) -> (r: Order)
    ensures
        r == recent_first(*lhs, *rhs),
{
    match (lhs, rhs) {
        (Some(left), Some(right)) => if right.is_before(left) {
            Order::Less
        } else if left.is_before(right) {
            Order::Greater
        } else {
            Order::Equal
        },
        _ => Order::Equal,
    }
}

/// Compares two flags, the set one first.
pub fn compare_flags(lhs: bool, rhs: bool) -> (r: Order)
    ensures
        r == flagged_first(lhs, rhs),
{
    if lhs == rhs {
        Order::Equal
    } else if lhs {
        Order::Less
    } else {
        Order::Greater
    }
}

/// Describes how entries should be sorted.
#[derive(Debug, PartialEq, Eq)]
pub enum SortOrder {
    /// Alphabetically.
    Name,
    /// Access date.
    Accessed,
    /// Creation date.
    Created,
    /// Modification date.
    Modified,
    /// File size.
    Size,
    /// Hidden files.
    Hidden,
    /// Directories.
    Directories,
    /// Files.
    Files,
    /// Symbolic links.
    Symlinks,
    /// Reversed order.
    Reverse(Box<Self>),
    /// Chained order, preferring the left-most order.
    Then(Box<(Self, Self)>),
}

impl SortOrder {
    /// The order that was chained on last: the right end of a chain, the order itself where it
    /// is no chain.
    pub open spec fn last(self) -> SortOrder
        decreases self,
    {
        match self {
            SortOrder::Then(pair) => pair.1.last(),
            _ => self,
        }
    }

    /// The order turned round: a reversed order gives up its reversal, any other gains one.
    pub open spec fn turned(self) -> SortOrder {
        match self {
            SortOrder::Reverse(inner) => *inner,
            _ => SortOrder::Reverse(Box::new(self)),
        }
    }

    /// Chains this order with another, preferring this ordering.
    pub fn then(self, other: Self) -> (r: Self)
        ensures
            r == SortOrder::Then(Box::new((self, other))),
    {
        Self::Then(Box::new((self, other)))
    }

    /// Reverses the ordering of this sort.
    pub fn reverse(self) -> (r: Self)
        ensures
            r == self.turned(),
    {
        match self {
            Self::Reverse(sort) => *sort,
            sort => Self::Reverse(Box::new(sort)),
        }
    }

    /// Returns a reference to the most recent [`SortOrder`].
    pub fn top(&self) -> (r: &Self)
        ensures
            *r == self.last(),
        decreases self,
    {
        match self {
            Self::Then(pair) => pair.1.top(),
            _ => self,
        }
    }

    /// Returns how the first child stands to the second in this order.
    pub fn compare(&self, lhs: &(Vec<u8>, Metadata), rhs: &(Vec<u8>, Metadata)) -> (r: Order)
        ensures
            r == self.order((lhs.0@, lhs.1), (rhs.0@, rhs.1)),
    {
        self.sort((lhs.0.as_slice(), &lhs.1), (rhs.0.as_slice(), &rhs.1))
    }

    /// Returns a copy of this order.
    pub fn duplicate(&self) -> (r: Self)
        ensures
            r == *self,
        decreases self,
    {
        match self {
            Self::Name => Self::Name,
            Self::Accessed => Self::Accessed,
            Self::Created => Self::Created,
            Self::Modified => Self::Modified,
            Self::Size => Self::Size,
            Self::Hidden => Self::Hidden,
            Self::Directories => Self::Directories,
            Self::Files => Self::Files,
            Self::Symlinks => Self::Symlinks,
            Self::Reverse(inner) => Self::Reverse(Box::new(inner.duplicate())),
            Self::Then(pair) => Self::Then(Box::new((pair.0.duplicate(), pair.1.duplicate()))),
        }
    }

    /// Returns `true` if the two orders are the same.
    pub fn matches(&self, other: &Self) -> (r: bool)
        ensures
            r == (*self == *other),
        decreases self,
    {
        match (self, other) {
            (Self::Name, Self::Name) => true,
            (Self::Accessed, Self::Accessed) => true,
            (Self::Created, Self::Created) => true,
            (Self::Modified, Self::Modified) => true,
            (Self::Size, Self::Size) => true,
            (Self::Hidden, Self::Hidden) => true,
            (Self::Directories, Self::Directories) => true,
            (Self::Files, Self::Files) => true,
            (Self::Symlinks, Self::Symlinks) => true,
            (Self::Reverse(left), Self::Reverse(right)) => left.matches(right),
            (Self::Then(left), Self::Then(right)) => left.0.matches(&right.0) && left.1.matches(
                &right.1,
            ),
            _ => false,
        }
    }
}

impl Default for SortOrder {
    /// Directories, then files, then names.
    fn default() -> (r: Self)
        ensures
            r == SortOrder::Then(
                Box::new(
                    (
                        SortOrder::Then(Box::new((SortOrder::Directories, SortOrder::Files))),
                        SortOrder::Name,
                    ),
                ),
            ),
    {
        let first = Self::Then(Box::new((Self::Directories, Self::Files)));
        Self::Then(Box::new((first, Self::Name)))
    }
}

impl Sort for SortOrder {
    open spec fn wf(&self) -> bool {
        true
    }

    /// Names are compared byte by byte and sizes by number, the smaller first. Of two times the
    /// more recent comes first, and neither where one is not known. Of two entries the one that
    /// is hidden, a directory, a file or a symbolic link comes first.
    open spec fn order(&self, lhs: (Seq<u8>, Metadata), rhs: (Seq<u8>, Metadata)) -> Order
        decreases self,
    {
        match self {
            SortOrder::Name => lexical(lhs.0, rhs.0),
            SortOrder::Accessed => recent_first(lhs.1.accessed, rhs.1.accessed),
            SortOrder::Created => recent_first(lhs.1.created, rhs.1.created),
            SortOrder::Modified => recent_first(lhs.1.modified, rhs.1.modified),
            SortOrder::Size => smaller_first(lhs.1.size, rhs.1.size),
            SortOrder::Hidden => flagged_first(hidden(lhs.0), hidden(rhs.0)),
            SortOrder::Directories => flagged_first(lhs.1.directory(), rhs.1.directory()),
            SortOrder::Files => flagged_first(lhs.1.file(), rhs.1.file()),
            SortOrder::Symlinks => flagged_first(lhs.1.symlink(), rhs.1.symlink()),
            SortOrder::Reverse(inner) => inner.order(lhs, rhs).reversed(),
            SortOrder::Then(pair) => pair.0.order(lhs, rhs).chained(pair.1.order(lhs, rhs)),
        }
    }

    open spec fn depth_order(
        &self,
        lhs: (Seq<u8>, Metadata),
        rhs: (Seq<u8>, Metadata),
        depth: usize,
    ) -> Order {
        self.order(lhs, rhs)
    }

    fn sort(&self, lhs: (&[u8], &Metadata), rhs: (&[u8], &Metadata)) -> (r: Order)
        decreases self,
    {
        match self {
            Self::Name => compare_bytes(lhs.0, rhs.0),
            Self::Accessed => compare_times(&lhs.1.accessed, &rhs.1.accessed),
            Self::Created => compare_times(&lhs.1.created, &rhs.1.created),
            Self::Modified => compare_times(&lhs.1.modified, &rhs.1.modified),
            Self::Size => compare_sizes(lhs.1.size, rhs.1.size),
            Self::Hidden => compare_flags(is_hidden(lhs.0), is_hidden(rhs.0)),
            Self::Directories => compare_flags(lhs.1.is_dir(), rhs.1.is_dir()),
            Self::Files => compare_flags(lhs.1.is_file(), rhs.1.is_file()),
            Self::Symlinks => compare_flags(lhs.1.is_symlink(), rhs.1.is_symlink()),
            Self::Reverse(inner) => inner.sort(lhs, rhs).reverse(),
            Self::Then(pair) => match pair.0.sort(lhs, rhs) {
                Order::Equal => pair.1.sort(lhs, rhs),
                decided => decided,
            },
        }
    }

    fn depth_sort(&self, lhs: (&[u8], &Metadata), rhs: (&[u8], &Metadata), depth: usize) -> (r:
        Order) {
        self.sort(lhs, rhs)
    }
}

/// The program's command-line arguments for the list sub-command.
#[derive(Debug)]
pub struct ListArguments {
    /// The paths to list.
    pub paths: Paths,
    /// Whether to show hidden files.
    pub show_hidden: bool,
    /// Whether to resolve symbolic links.
    pub resolve_symlinks: bool,
    /// The preferred sorting function.
    pub sorting: Option<SortOrder>,
    /// The preferred mode visibility.
    pub mode: ModeVisibility,
    /// The preferred size visibility.
    pub size: SizeVisibility,
    /// The preferred creation date visibility.
    pub created: TimeVisibility,
    /// The preferred access date visibility.
    pub accessed: TimeVisibility,
    /// The preferred modification date visibility.
    pub modified: TimeVisibility,
    /// Whether to show owner users.
    pub user: bool,
    /// Whether to show owner groups.
    pub group: bool,
    /// The paths to exclude.
    pub excluded: Option<Paths>,
    /// The paths to include.
    pub included: Option<Paths>,
}

impl ListArguments {
    /// Whether nothing has been chosen yet: there are no paths, and every option is as it is
    /// without its argument.
    pub open spec fn blank(&self) -> bool {
        &&& self.paths@.len() == 0
        &&& self.paths.distinct()
        &&& !self.show_hidden
        &&& !self.resolve_symlinks
        &&& self.sorting is None
        &&& self.mode is Hide
        &&& self.size is Hide
        &&& self.created is Hide
        &&& self.accessed is Hide
        &&& self.modified is Hide
        &&& !self.user
        &&& !self.group
        &&& self.excluded is None
        &&& self.included is None
    }
}

impl Default for ListArguments {
    fn default() -> (r: Self)
        ensures
            r.blank(),
    {
        Self {
            paths: Paths::new(),
            show_hidden: false,
            resolve_symlinks: false,
            sorting: None,
            mode: ModeVisibility::Hide,
            size: SizeVisibility::Hide,
            created: TimeVisibility::Hide,
            accessed: TimeVisibility::Hide,
            modified: TimeVisibility::Hide,
            user: false,
            group: false,
            excluded: None,
            included: None,
        }
    }
}

/// The program's command-line arguments for the tree sub-command.
#[derive(Debug)]
pub struct TreeArguments {
    /// The paths to list.
    pub paths: Paths,
    /// Whether to show hidden files.
    pub show_hidden: bool,
    /// Whether to resolve symbolic links.
    pub resolve_symlinks: bool,
    /// The preferred sorting function.
    pub sorting: Option<SortOrder>,
    /// How many levels to enter below the direct children of a path; no limit where `None`.
    pub max_depth: Option<usize>,
    /// The paths to exclude.
    pub excluded: Option<Paths>,
    /// The paths to include.
    pub included: Option<Paths>,
}

impl TreeArguments {
    /// Whether nothing has been chosen yet: there are no paths, and every option is as it is
    /// without its argument.
    pub open spec fn blank(&self) -> bool {
        &&& self.paths@.len() == 0
        &&& self.paths.distinct()
        &&& !self.show_hidden
        &&& !self.resolve_symlinks
        &&& self.sorting is None
        &&& self.max_depth is None
        &&& self.excluded is None
        &&& self.included is None
    }
}

impl Default for TreeArguments {
    fn default() -> (r: Self)
        ensures
            r.blank(),
    {
        Self {
            paths: Paths::new(),
            show_hidden: false,
            resolve_symlinks: false,
            sorting: None,
            max_depth: None,
            excluded: None,
            included: None,
        }
    }
}

/// The program's sub-command.
#[derive(Debug)]
pub enum SubCommand {
    /// The list sub-command.
    List(ListArguments),
    /// The tree sub-command.
    Tree(TreeArguments),
}

impl SubCommand {
    /// Returns `true` if the sub-command is [`SubCommand::List`].
    pub fn is_list(&self) -> (r: bool)
        ensures
            r == (*self is List),
    {
        matches!(self, Self::List(..))
    }

    /// Returns `true` if the sub-command is [`SubCommand::Tree`].
    pub fn is_tree(&self) -> (r: bool)
        ensures
            r == (*self is Tree),
    {
        matches!(self, Self::Tree(..))
    }

    /// Returns the inner value of this sub-command if it is a [`SubCommand::List`].
    pub fn as_list(&self) -> (r: Option<&ListArguments>)
        ensures
            match *self {
                SubCommand::List(inner) => r == Some(&inner),
                SubCommand::Tree(_) => r is None,
            },
    {
        if let Self::List(v) = self {
            Some(v)
        } else {
            None
        }
    }

    /// Returns the inner value of this sub-command if it is a [`SubCommand::Tree`].
    pub fn as_tree(&self) -> (r: Option<&TreeArguments>)
        ensures
            match *self {
                SubCommand::Tree(inner) => r == Some(&inner),
                SubCommand::List(_) => r is None,
            },
    {
        if let Self::Tree(v) = self {
            Some(v)
        } else {
            None
        }
    }
}

/// The program's command-line arguments.
#[derive(Debug)]
pub struct Arguments {
    /// Determines whether to output using color.
    pub color: ColorChoice,
    /// The program's selected sub-command.
    pub command: Option<SubCommand>,
}

impl Default for Arguments {
    fn default() -> (r: Self)
        ensures
            r.color is Auto,
            r.command is None,
    {
        Self { color: ColorChoice::Auto, command: None }
    }
}

/// Whether the schema is the current one with the sub-command chosen, or with none: that of
/// the sub-command, or that of the command.
pub open spec fn current(schema: CommandSchema<'_>, command: Option<SubCommand>) -> bool {
    match command {
        None => is_schema(schema),
        Some(SubCommand::List(_)) => is_list_command(schema),
        Some(SubCommand::Tree(_)) => is_tree_command(schema),
    }
}

impl Arguments {
    /// Returns the current schema of this [`Arguments`]: that of the sub-command where one is
    /// chosen, that of the command where none is.
    pub fn current_schema(&self) -> (r: CommandSchema<'static>)
        ensures
            r.valid(),
            current(r, self.command),
    {
        match self.command {
            None => schema(),
            Some(SubCommand::List(_)) => list_command(),
            Some(SubCommand::Tree(_)) => tree_command(),
        }
    }
}

/// The filter that the options of a sub-command select.
///
/// An entry is retained where it is not hidden, unless hidden entries are shown; and is one of
/// the included paths, where any are given; and is none of the excluded paths. All three must
/// hold: a hidden entry stays out even where it is included.
#[derive(Debug)]
pub struct Selection<'a> {
    /// Whether to show hidden files.
    pub show_hidden: bool,
    /// The paths to include.
    pub included: Option<&'a Paths>,
    /// The paths to exclude.
    pub excluded: Option<&'a Paths>,
}

impl<'a> Filter for Selection<'a> {
    open spec fn wf(&self) -> bool {
        true
    }

    open spec fn accepts(&self, path: Seq<u8>, data: Metadata) -> bool {
        &&& self.show_hidden || !hidden(path)
        &&& self.included matches Some(included) ==> included@.contains(path)
        &&& self.excluded matches Some(excluded) ==> !excluded@.contains(path)
    }

    open spec fn depth_accepts(&self, path: Seq<u8>, data: Metadata, depth: usize) -> bool {
        self.accepts(path, data)
    }

    fn filter(&self, path: &[u8], data: &Metadata) -> (r: bool) {
        if !self.show_hidden && is_hidden(path) {
            return false;
        }
        match self.included {
            Some(included) => {
                if !included.has(path) {
                    return false;
                }
            },
            None => {},
        }
        match self.excluded {
            Some(excluded) => !excluded.has(path),
            None => true,
        }
    }

    fn depth_filter(&self, path: &[u8], data: &Metadata, depth: usize) -> (r: bool) {
        self.filter(path, data)
    }
}

/// The paths as a filter holds them.
pub open spec fn borrowed(paths: &Option<Paths>) -> Option<&Paths> {
    match paths {
        Some(paths) => Some(paths),
        None => None,
    }
}

impl ListArguments {
    /// Returns the filter that these options select.
    pub fn selection(&self) -> (r: Selection<'_>)
        ensures
            r.show_hidden == self.show_hidden,
            r.included == borrowed(&self.included),
            r.excluded == borrowed(&self.excluded),
    {
        Selection {
            show_hidden: self.show_hidden,
            included: self.included.as_ref(),
            excluded: self.excluded.as_ref(),
        }
    }
}

impl TreeArguments {
    /// Returns the filter that these options select.
    pub fn selection(&self) -> (r: Selection<'_>)
        ensures
            r.show_hidden == self.show_hidden,
            r.included == borrowed(&self.included),
            r.excluded == borrowed(&self.excluded),
    {
        Selection {
            show_hidden: self.show_hidden,
            included: self.included.as_ref(),
            excluded: self.excluded.as_ref(),
        }
    }
}

/// Compared the other way round, two texts stand the other way round.
pub proof fn lemma_lexical_mirrored(lhs: Seq<u8>, rhs: Seq<u8>)
    ensures
        lexical(lhs, rhs) == lexical(rhs, lhs).reversed(),
    decreases lhs.len(),
{
    if lhs.len() > 0 && rhs.len() > 0 && lhs[0] == rhs[0] {
        lemma_lexical_mirrored(lhs.skip(1), rhs.skip(1));
    }
}

/// A text that may come before a second, which may come before a third, may come before the
/// third.
pub proof fn lemma_lexical_transitive(a: Seq<u8>, b: Seq<u8>, c: Seq<u8>)
    requires
        lexical(a, b) != Order::Greater,
        lexical(b, c) != Order::Greater,
    ensures
        lexical(a, c) != Order::Greater,
    decreases a.len(),
{
    if a.len() > 0 && b.len() > 0 && c.len() > 0 && a[0] == b[0] && b[0] == c[0] {
        lemma_lexical_transitive(a.skip(1), b.skip(1), c.skip(1));
    }
}

impl SortOrder {
    /// Whether the order asks for no time anywhere: neither for the time of access nor for
    /// that of creation or modification.
    pub open spec fn timeless(self) -> bool
        decreases self,
    {
        match self {
            SortOrder::Accessed | SortOrder::Created | SortOrder::Modified => false,
            SortOrder::Reverse(inner) => inner.timeless(),
            SortOrder::Then(pair) => pair.0.timeless() && pair.1.timeless(),
            _ => true,
        }
    }

    /// An order that asks for no time orders any children: asked the other way round it
    /// answers the opposite, and what may come before what may come before a third may come
    /// before the third. A snapshot under such an order is sorted.
    ///
    /// The times are left out because a time that is not known ties with every time, with
    /// an earlier and with a later one alike.
    pub proof fn lemma_timeless_coherent(self, children: Seq<(Vec<u8>, Metadata)>)
        requires
            self.timeless(),
        ensures
            coherent(self, children),
        decreases self,
    {
        match self {
            SortOrder::Reverse(inner) => {
                inner.lemma_timeless_coherent(children);
                lemma_reverse_coherent(*inner, children);
                lemma_coherent_alike(Reverse(*inner), self, children);
            },
            SortOrder::Then(pair) => {
                pair.0.lemma_timeless_coherent(children);
                pair.1.lemma_timeless_coherent(children);
                lemma_then_coherent(pair.0, pair.1, children);
                lemma_coherent_alike(Then(pair.0, pair.1), self, children);
            },
            SortOrder::Name => {
                assert forall|i: int, j: int|
                    0 <= i < children.len() && 0 <= j < children.len() implies #[trigger] outcome(
                    self,
                    children,
                    i,
                    j,
                ) == outcome(self, children, j, i).reversed() by {
                    lemma_lexical_mirrored(children[i].0@, children[j].0@);
                }
                assert forall|i: int, j: int, k: int|
                    #![trigger outcome(self, children, i, j), outcome(self, children, j, k)]
                    0 <= i < children.len() && 0 <= j < children.len() && 0 <= k < children.len()
                        && outcome(self, children, i, j) != Order::Greater && outcome(
                        self,
                        children,
                        j,
                        k,
                    ) != Order::Greater implies outcome(self, children, i, k)
                    != Order::Greater by {
                    lemma_lexical_transitive(children[i].0@, children[j].0@, children[k].0@);
                }
            },
            SortOrder::Size => {
                lemma_ranked_coherent(self, children, |i: int| children[i].1.size as int);
            },
            SortOrder::Hidden => {
                lemma_ranked_coherent(
                    self,
                    children,
                    |i: int|
                        if hidden(children[i].0@) {
                            0int
                        } else {
                            1int
                        },
                );
            },
            SortOrder::Directories => {
                lemma_ranked_coherent(
                    self,
                    children,
                    |i: int|
                        if children[i].1.directory() {
                            0int
                        } else {
                            1int
                        },
                );
            },
            SortOrder::Files => {
                lemma_ranked_coherent(
                    self,
                    children,
                    |i: int|
                        if children[i].1.file() {
                            0int
                        } else {
                            1int
                        },
                );
            },
            SortOrder::Symlinks => {
                lemma_ranked_coherent(
                    self,
                    children,
                    |i: int|
                        if children[i].1.symlink() {
                            0int
                        } else {
                            1int
                        },
                );
            },
            _ => {},
        }
    }
}

/// How two ranks stand to each other, the lower first.
pub open spec fn by_rank(lhs: int, rhs: int) -> Order {
    if lhs < rhs {
        Order::Less
    } else if lhs == rhs {
        Order::Equal
    } else {
        Order::Greater
    }
}

/// A sorter that compares the children by a rank that each of them has orders them.
pub proof fn lemma_ranked_coherent<S: Sort>(
    sorter: S,
    children: Seq<(Vec<u8>, Metadata)>,
    rank: spec_fn(int) -> int,
)
    requires
        forall|i: int, j: int|
            0 <= i < children.len() && 0 <= j < children.len() ==> #[trigger] outcome(
                sorter,
                children,
                i,
                j,
            ) == by_rank(rank(i), rank(j)),
    ensures
        coherent(sorter, children),
{
    assert forall|i: int, j: int|
        0 <= i < children.len() && 0 <= j < children.len() implies #[trigger] outcome(
        sorter,
        children,
        i,
        j,
    ) == outcome(sorter, children, j, i).reversed() by {
        assert(outcome(sorter, children, j, i) == by_rank(rank(j), rank(i)));
    }
    assert forall|i: int, j: int, k: int|
        #![trigger outcome(sorter, children, i, j), outcome(sorter, children, j, k)]
        0 <= i < children.len() && 0 <= j < children.len() && 0 <= k < children.len() && outcome(
            sorter,
            children,
            i,
            j,
        ) != Order::Greater && outcome(sorter, children, j, k) != Order::Greater implies outcome(
        sorter,
        children,
        i,
        k,
    ) != Order::Greater by {
        assert(outcome(sorter, children, i, k) == by_rank(rank(i), rank(k)));
    }
}

} // verus!
