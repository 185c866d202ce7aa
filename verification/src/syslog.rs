//! A logging facility with level filtering: which records pass, what a
//! record looks like, and how a byte stream is cut into records.
//!
//! The facility is an explicit context that process startup owns. Until the
//! context has been initialized, every operation on it does nothing. The
//! library decides and formats; reading the clock and writing the bytes are
//! the caller's work.

use vstd::prelude::*;
use crate::sys::RawDescriptor;
use crate::text::{
    byte_len, byte_strings, decimal, decimal_digits, find_last_line_feed, last_line_feed, lines,
    split_lines, str_eq,
};

verus! {

/// The priority (severity) of a record. A smaller number is more severe.
#[derive(Copy, Clone, Debug, PartialEq, Eq, Structural)]
pub enum Priority {
    Emergency,
    Alert,
    Critical,
    Error,
    Warning,
    Notice,
    Info,
    Debug,
}

impl Priority {
    /// The number of the priority, from 0 for an emergency to 7 for
    /// debugging.
    pub open spec fn spec_number(self) -> u8 {
        match self {
            Priority::Emergency => 0,
            Priority::Alert => 1,
            Priority::Critical => 2,
            Priority::Error => 3,
            Priority::Warning => 4,
            Priority::Notice => 5,
            Priority::Info => 6,
            Priority::Debug => 7,
        }
    }

    /// The number of the priority.
    #[verifier::when_used_as_spec(spec_number)]
    pub fn number(self) -> (n: u8)
        ensures
            n == self.spec_number(),
    {
        match self {
            Priority::Emergency => 0,
            Priority::Alert => 1,
            Priority::Critical => 2,
            Priority::Error => 3,
            Priority::Warning => 4,
            Priority::Notice => 5,
            Priority::Info => 6,
            Priority::Debug => 7,
        }
    }

    /// The name of the priority, in capitals.
    pub open spec fn spec_name(self) -> Seq<char> {
        match self {
            Priority::Emergency => "EMERGENCY"@,
            Priority::Alert => "ALERT"@,
            Priority::Critical => "CRITICAL"@,
            Priority::Error => "ERROR"@,
            Priority::Warning => "WARNING"@,
            Priority::Notice => "NOTICE"@,
            Priority::Info => "INFO"@,
            Priority::Debug => "DEBUG"@,
        }
    }

    /// The name of the priority, in capitals.
    pub fn name(self) -> (name: &'static str)
        ensures
            name@ == self.spec_name(),
    {
        match self {
            Priority::Emergency => "EMERGENCY",
            Priority::Alert => "ALERT",
            Priority::Critical => "CRITICAL",
            Priority::Error => "ERROR",
            Priority::Warning => "WARNING",
            Priority::Notice => "NOTICE",
            Priority::Info => "INFO",
            Priority::Debug => "DEBUG",
        }
    }

    /// The name of the priority as an owned string.
    pub fn to_string(&self) -> (name: String)
        ensures
            name@ == self.spec_name(),
    {
        self.name().to_owned()
    }

    /// The priority that `value` names, by its number or by its name in
    /// capitals.
    pub open spec fn spec_try_from(value: Seq<char>) -> Option<Priority> {
        if value == "0"@ || value == "EMERGENCY"@ {
            Some(Priority::Emergency)
        } else if value == "1"@ || value == "ALERT"@ {
            Some(Priority::Alert)
        } else if value == "2"@ || value == "CRITICAL"@ {
            Some(Priority::Critical)
        } else if value == "3"@ || value == "ERROR"@ {
            Some(Priority::Error)
        } else if value == "4"@ || value == "WARNING"@ {
            Some(Priority::Warning)
        } else if value == "5"@ || value == "NOTICE"@ {
            Some(Priority::Notice)
        } else if value == "6"@ || value == "INFO"@ {
            Some(Priority::Info)
        } else if value == "7"@ || value == "DEBUG"@ {
            Some(Priority::Debug)
        } else {
            None
        }
    }

    /// Parses a priority from its number, 0 to 7, or from its name in
    /// capitals. Anything else is refused with a message that says so.
    pub fn try_from(value: &str) -> (r: Result<Priority, &'static str>)
        ensures
            match r {
                Ok(pri) => Self::spec_try_from(value@) == Some(pri),
                Err(msg) => Self::spec_try_from(value@) is None && msg@
                    == "Priority can only be parsed from 0-7 and given variant names"@,
            },
    {
        if str_eq(value, "0") || str_eq(value, "EMERGENCY") {
            Ok(Priority::Emergency)
        } else if str_eq(value, "1") || str_eq(value, "ALERT") {
            Ok(Priority::Alert)
        } else if str_eq(value, "2") || str_eq(value, "CRITICAL") {
            Ok(Priority::Critical)
        } else if str_eq(value, "3") || str_eq(value, "ERROR") {
            Ok(Priority::Error)
        } else if str_eq(value, "4") || str_eq(value, "WARNING") {
            Ok(Priority::Warning)
        } else if str_eq(value, "5") || str_eq(value, "NOTICE") {
            Ok(Priority::Notice)
        } else if str_eq(value, "6") || str_eq(value, "INFO") {
            Ok(Priority::Info)
        } else if str_eq(value, "7") || str_eq(value, "DEBUG") {
            Ok(Priority::Debug)
        } else {
            Err("Priority can only be parsed from 0-7 and given variant names")
        }
    }
}

/// Which records pass: none, those at least as severe as a priority, or
/// all.
#[derive(Copy, Clone, Debug, PartialEq, Eq, Structural)]
pub enum PriorityFilter {
    Silent,
    Priority(Priority),
    ShowAll,
}

impl From<Priority> for PriorityFilter {
    fn from(pri: Priority) -> (filter: PriorityFilter) {
        PriorityFilter::Priority(pri)
    }
}

impl vstd::std_specs::convert::FromSpecImpl<Priority> for PriorityFilter {
    open spec fn obeys_from_spec() -> bool {
        true
    }

    open spec fn from_spec(pri: Priority) -> PriorityFilter {
        PriorityFilter::Priority(pri)
    }
}

/// What `str::to_uppercase` makes of a text.
pub uninterp spec fn uppercase(text: Seq<char>) -> Seq<char>;

/// `str::to_uppercase`: the text with each character replaced by its
/// uppercase equivalent, which the contract names without saying more.
#[verifier::external_body]
fn to_uppercase(value: &str) -> (upper: String)
    ensures
        upper@ == uppercase(value@),
{
    value.to_uppercase()
}

impl PriorityFilter {
    /// The filter that a text in capitals names: `S` or `SILENT`, `*` for
    /// all records, or a priority.
    pub open spec fn spec_from_uppercase(value: Seq<char>) -> Option<PriorityFilter> {
        if value == "S"@ || value == "SILENT"@ {
            Some(PriorityFilter::Silent)
        } else if value == "*"@ {
            Some(PriorityFilter::ShowAll)
        } else {
            match Priority::spec_try_from(value) {
                Some(pri) => Some(PriorityFilter::Priority(pri)),
                None => None,
            }
        }
    }

    /// Parses a filter from a text that is in capitals already: `S` or
    /// `SILENT`, `*`, or what [`Priority::try_from`] takes. Anything else is
    /// refused with a message that says so.
    pub fn from_uppercase(value: &str) -> (r: Result<PriorityFilter, &'static str>)
        ensures
            match r {
                Ok(filter) => Self::spec_from_uppercase(value@) == Some(filter),
                Err(msg) => Self::spec_from_uppercase(value@) is None && msg@
                    == "PriorityFilter can only be parsed from valid Priority
                value, S, *, or SILENT"@,
            },
    {
        if str_eq(value, "S") || str_eq(value, "SILENT") {
            Ok(PriorityFilter::Silent)
        } else if str_eq(value, "*") {
            Ok(PriorityFilter::ShowAll)
        } else {
            match Priority::try_from(value) {
                Ok(pri) => Ok(PriorityFilter::Priority(pri)),
                Err(_) => Err(
                    "PriorityFilter can only be parsed from valid Priority
                value, S, *, or SILENT",
                ),
            }
        }
    }

    /// Parses a filter from a text in any case: the text is put in capitals
    /// and then read as [`PriorityFilter::from_uppercase`] reads it.
    pub fn try_from(value: &str) -> (r: Result<PriorityFilter, &'static str>)
        ensures
            match r {
                Ok(filter) => Self::spec_from_uppercase(uppercase(value@)) == Some(filter),
                Err(msg) => Self::spec_from_uppercase(uppercase(value@)) is None && msg@
                    == "PriorityFilter can only be parsed from valid Priority
                value, S, *, or SILENT"@,
            },
    {
        let upper = to_uppercase(value);
        PriorityFilter::from_uppercase(upper.as_str())
    }

    /// Whether a record of priority `pri` passes the filter.
    pub open spec fn spec_enables(self, pri: Priority) -> bool {
        match self {
            PriorityFilter::ShowAll => true,
            PriorityFilter::Silent => false,
            PriorityFilter::Priority(log_level) => pri.spec_number() <= log_level.spec_number(),
        }
    }

    /// Whether a record of priority `pri` passes the filter: all pass
    /// `ShowAll`, none passes `Silent`, and a priority lets those pass that
    /// are at least as severe as itself.
    #[verifier::when_used_as_spec(spec_enables)]
    pub fn enables(self, pri: Priority) -> (pass: bool)
        ensures
            pass == self.spec_enables(pri),
    {
        match self {
            PriorityFilter::ShowAll => true,
            PriorityFilter::Silent => false,
            PriorityFilter::Priority(log_level) => pri.number() <= log_level.number(),
        }
    }
}

/// The facility of a record: the part of the system that it comes from.
#[derive(Copy, Clone, Debug, PartialEq, Eq, Structural)]
pub enum Facility {
    Kernel,
    User,
    Mail,
    Daemon,
    Auth,
    Syslog,
    Lpr,
    News,
    Uucp,
    Local0,
    Local1,
    Local2,
    Local3,
    Local4,
    Local5,
    Local6,
    Local7,
}

impl Facility {
    /// The position of the facility in the system log's numbering: 0 to 8
    /// for the first nine, 16 to 23 for the local ones.
    pub open spec fn index(self) -> nat {
        match self {
            Facility::Kernel => 0,
            Facility::User => 1,
            Facility::Mail => 2,
            Facility::Daemon => 3,
            Facility::Auth => 4,
            Facility::Syslog => 5,
            Facility::Lpr => 6,
            Facility::News => 7,
            Facility::Uucp => 8,
            Facility::Local0 => 16,
            Facility::Local1 => 17,
            Facility::Local2 => 18,
            Facility::Local3 => 19,
            Facility::Local4 => 20,
            Facility::Local5 => 21,
            Facility::Local6 => 22,
            Facility::Local7 => 23,
        }
    }

    /// The number of the facility as a record carries it: its index, moved
    /// three bits up so that a priority fits below it.
    pub fn number(self) -> (n: u8)
        ensures
            n == self.index() * 8,
    {
        match self {
            Facility::Kernel => 0,
            Facility::User => 8,
            Facility::Mail => 16,
            Facility::Daemon => 24,
            Facility::Auth => 32,
            Facility::Syslog => 40,
            Facility::Lpr => 48,
            Facility::News => 56,
            Facility::Uucp => 64,
            Facility::Local0 => 128,
            Facility::Local1 => 136,
            Facility::Local2 => 144,
            Facility::Local3 => 152,
            Facility::Local4 => 160,
            Facility::Local5 => 168,
            Facility::Local6 => 176,
            Facility::Local7 => 184,
        }
    }
}

/// Why the facility could not be initialized or used. Where the operating
/// system reported an error, its number is kept.
#[derive(Copy, Clone, Debug, PartialEq, Eq, Structural)]
pub enum Error {
    /// Connecting the socket failed.
    Connect(i32),
    /// Opening a file to find the lowest free descriptor failed.
    GetLowestFd(i32),
    /// The guess of the descriptor of the system log's connection was wrong.
    InvalidFd,
    /// Initialization was never attempted.
    NeverInitialized,
    /// Initialization failed before and cannot be tried again.
    Poisoned,
    /// Creating the socket failed.
    Socket(i32),
}

/// A log level for the source files under a path prefix, in place of the
/// general one.
#[derive(Debug, PartialEq, Eq)]
pub struct PathFilter {
    path_prefix: String,
    level: PriorityFilter,
}

/// What a [`PathFilter`] holds.
pub struct PathFilterView {
    pub path_prefix: Seq<char>,
    pub level: PriorityFilter,
}

impl View for PathFilter {
    type V = PathFilterView;

    closed spec fn view(&self) -> PathFilterView {
        PathFilterView { path_prefix: self.path_prefix@, level: self.level }
    }
}

impl PathFilterView {
    /// The length of the prefix in bytes.
    pub open spec fn prefix_len(self) -> nat {
        vstd::utf8::encode_utf8(self.path_prefix).len()
    }
}

/// `std::path::Path::starts_with`, on the paths that the two texts spell:
/// whether `prefix` is a prefix of `path`, whole components only. How a text
/// falls into components is the platform's matter, so the contract claims
/// nothing of the answer.
#[verifier::external_body]
fn path_starts_with(path: &str, prefix: &str) -> (starts: bool) {
    std::path::Path::new(path).starts_with(std::path::Path::new(prefix))
}

/// The level of the first of `filters` that `matches` marks, if it marks
/// one. A filter that `matches` has no entry for is not marked.
pub open spec fn marked_level(filters: Seq<PathFilterView>, matches: Seq<bool>) -> Option<
    PriorityFilter,
>
    decreases filters.len(),
{
    if filters.len() == 0 || matches.len() == 0 {
        None
    } else if matches[0] {
        Some(filters[0].level)
    } else {
        marked_level(filters.skip(1), matches.skip(1))
    }
}

/// Whether `filters` come with longer prefixes first.
pub open spec fn longest_first(filters: Seq<PathFilterView>) -> bool {
    forall|i: int, j: int|
        0 <= i < j < filters.len() ==> (#[trigger] filters[i]).prefix_len() >= (
        #[trigger] filters[j]).prefix_len()
}

/// How many of `filters` have a prefix longer than `len` bytes.
pub open spec fn longer_prefixes(filters: Seq<PathFilterView>, len: nat) -> int
    decreases filters.len(),
{
    if filters.len() == 0 {
        0
    } else if filters[0].prefix_len() > len {
        1 + longer_prefixes(filters.skip(1), len)
    } else {
        longer_prefixes(filters.skip(1), len)
    }
}

/// What the facility holds once it is initialized.
pub struct StateView {
    /// Whether records are echoed to the standard error stream.
    pub stderr: bool,
    /// The descriptor of the file that records are echoed to, if any.
    pub file: Option<RawDescriptor>,
    /// The process name that records carry, if any.
    pub proc_name: Option<Seq<char>>,
    /// The general log level.
    pub log_level: PriorityFilter,
    /// The log levels for path prefixes, longer prefixes first.
    pub path_log_levels: Seq<PathFilterView>,
}

impl StateView {
    /// The invariant of the state: the path filters come with longer
    /// prefixes first, so that the first one that matches a path is one with
    /// the longest prefix that matches.
    pub open spec fn wf(self) -> bool {
        longest_first(self.path_log_levels)
    }

    /// The state that initialization makes: records are echoed to the
    /// standard error stream and to no file, the level is `Info`, and no
    /// path has a level of its own.
    pub open spec fn initial(proc_name: Option<Seq<char>>) -> StateView {
        StateView {
            stderr: true,
            file: None,
            proc_name,
            log_level: PriorityFilter::Priority(Priority::Info),
            path_log_levels: Seq::empty(),
        }
    }

    /// The level that holds for a source file, given for each path filter,
    /// in order, whether the file's path starts with the filter's prefix:
    /// that of the first filter that is marked, or the general level where
    /// none is.
    pub open spec fn level_where(self, matches: Seq<bool>) -> PriorityFilter {
        match marked_level(self.path_log_levels, matches) {
            Some(level) => level,
            None => self.log_level,
        }
    }

    /// The state with one more path filter, put before the first filter
    /// whose prefix is not longer than its own.
    pub open spec fn with_path_level(
        self,
        path_prefix: Seq<char>,
        level: PriorityFilter,
    ) -> StateView {
        let filter = PathFilterView { path_prefix, level };
        StateView {
            path_log_levels: self.path_log_levels.insert(
                longer_prefixes(self.path_log_levels, filter.prefix_len()),
                filter,
            ),
            ..self
        }
    }
}

/// The text that an optional string holds.
pub open spec fn option_text(text: Option<String>) -> Option<Seq<char>> {
    match text {
        Some(text) => Some(text@),
        None => None,
    }
}

/// The state of the facility once it is initialized.
#[derive(Debug, PartialEq, Eq)]
pub struct State {
    stderr: bool,
    file: Option<RawDescriptor>,
    proc_name: Option<String>,
    log_level: PriorityFilter,
    path_log_levels: Vec<PathFilter>,
}

impl View for State {
    type V = StateView;

    closed spec fn view(&self) -> StateView {
        StateView {
            stderr: self.stderr,
            file: self.file,
            proc_name: option_text(self.proc_name),
            log_level: self.log_level,
            path_log_levels: self.path_log_levels@.map_values(|filter: PathFilter| filter@),
        }
    }
}

impl State {
    /// The state that initialization makes, see [`StateView::initial`].
    pub fn new(proc_name: Option<String>) -> (state: State)
        ensures
            state@ == StateView::initial(option_text(proc_name)),
            state@.wf(),
    {
        let state = State {
            stderr: true,
            file: None,
            proc_name,
            log_level: PriorityFilter::Priority(Priority::Info),
            path_log_levels: Vec::new(),
        };
        assert(state@.path_log_levels =~= Seq::empty());
        state
    }
}

/// What a [`SyslogContext`] holds.
pub enum ContextView {
    /// Initialization was never attempted.
    NeverInitialized,
    /// Initialization succeeded.
    Ready(StateView),
    /// Initialization failed.
    Poisoned,
}

/// The logging facility of a process: made once at startup, initialized
/// once, and handed to whatever logs.
#[derive(Debug, PartialEq, Eq)]
pub struct SyslogContext {
    state: Option<State>,
    poisoned: bool,
}

impl View for SyslogContext {
    type V = ContextView;

    closed spec fn view(&self) -> ContextView {
        match self.state {
            Some(state) => ContextView::Ready(state@),
            None => if self.poisoned {
                ContextView::Poisoned
            } else {
                ContextView::NeverInitialized
            },
        }
    }
}

impl SyslogContext {
    /// The invariant of the type: that of the state, where there is one.
    pub open spec fn wf(&self) -> bool {
        self@ is Ready ==> self@->Ready_0.wf()
    }

    /// A facility that has not been initialized.
    pub fn new() -> (ctx: SyslogContext)
        ensures
            ctx@ is NeverInitialized,
            ctx.wf(),
    {
        SyslogContext { state: None, poisoned: false }
    }

    /// Whether initialization was never attempted, so that the next call of
    /// [`init`] is the one that sets the facility up.
    pub fn never_initialized(&self) -> (fresh: bool)
        ensures
            fresh == (self@ is NeverInitialized),
    {
        self.state.is_none() && !self.poisoned
    }

    /// The state, or `NeverInitialized` where initialization was not
    /// attempted or failed.
    pub fn state(&self) -> (r: Result<&State, Error>)
        ensures
            match r {
                Ok(state) => self@ == ContextView::Ready(state@),
                Err(e) => !(self@ is Ready) && e == Error::NeverInitialized,
            },
    {
        match &self.state {
            Some(state) => Ok(state),
            None => Err(Error::NeverInitialized),
        }
    }
}

/// Initializes the facility, given the process name that records are to
/// carry and the outcome of setting up the platform's system log. Only the
/// first call does anything: it leaves the facility ready, or, where the
/// platform failed, poisoned, and returns the platform's error. Every later
/// call changes nothing and returns `Ok` on a ready facility and `Poisoned`
/// on a poisoned one.
pub fn init(ctx: &mut SyslogContext, proc_name: Option<String>, platform: Result<(), Error>) -> (r:
    Result<(), Error>)
    requires
        old(ctx).wf(),
    ensures
        final(ctx).wf(),
        match old(ctx)@ {
            ContextView::NeverInitialized => match platform {
                Ok(_) => final(ctx)@ == ContextView::Ready(
                    StateView::initial(option_text(proc_name)),
                ) && r == Ok::<(), Error>(()),
                Err(e) => final(ctx)@ is Poisoned && r == Err::<(), Error>(e),
            },
            ContextView::Ready(_) => final(ctx)@ == old(ctx)@ && r == Ok::<(), Error>(()),
            ContextView::Poisoned => final(ctx)@ == old(ctx)@ && r == Err::<(), Error>(
                Error::Poisoned,
            ),
        },
{
    if ctx.state.is_some() {
        return Ok(());
    }
    if ctx.poisoned {
        return Err(Error::Poisoned);
    }
    match platform {
        Ok(_) => {
            ctx.state = Some(State::new(proc_name));
            Ok(())
        },
        Err(e) => {
            ctx.poisoned = true;
            Err(e)
        },
    }
}

/// Sets the general log level. Does nothing if the facility is not ready.
pub fn set_log_level(ctx: &mut SyslogContext, log_level: PriorityFilter)
    requires
        old(ctx).wf(),
    ensures
        final(ctx).wf(),
        final(ctx)@ == (match old(ctx)@ {
            ContextView::Ready(state) => ContextView::Ready(StateView { log_level, ..state }),
            other => other,
        }),
{
    match &mut ctx.state {
        Some(state) => {
            state.log_level = log_level;
        },
        None => {},
    }
}

/// In a list with longer prefixes first, the filters with a prefix longer
/// than `len` are the first ones.
proof fn lemma_longer_prefixes(filters: Seq<PathFilterView>, len: nat, index: int)
    requires
        longest_first(filters),
        0 <= index <= filters.len(),
        forall|k: int| 0 <= k < index ==> (#[trigger] filters[k]).prefix_len() > len,
        index < filters.len() ==> filters[index].prefix_len() <= len,
    ensures
        longer_prefixes(filters, len) == index,
    decreases filters.len(),
{
    if filters.len() > 0 {
        let rest = filters.skip(1);
        assert forall|i: int, j: int| 0 <= i < j < rest.len() implies (
        #[trigger] rest[i]).prefix_len() >= (#[trigger] rest[j]).prefix_len() by {
            assert(rest[i] == filters[i + 1]);
            assert(rest[j] == filters[j + 1]);
        }
        if index > 0 {
            assert(filters[0].prefix_len() > len);
            assert forall|k: int| 0 <= k < index - 1 implies (#[trigger] rest[k]).prefix_len()
                > len by {
                assert(rest[k] == filters[k + 1]);
            }
            if index < filters.len() {
                assert(rest[index - 1] == filters[index]);
            }
            lemma_longer_prefixes(rest, len, index - 1);
        } else {
            assert(filters[0].prefix_len() <= len);
            if rest.len() > 0 {
                assert(rest[0] == filters[1]);
                assert(filters[0].prefix_len() >= filters[1].prefix_len());
            }
            lemma_longer_prefixes(rest, len, 0);
        }
    }
}

/// Gives the source files under `path_prefix` a log level of their own. The
/// filters are kept with longer prefixes first, and a new one goes before
/// those of the same length, so that a path gets the level of the longest
/// prefix it starts with, and among equals that of the one added last. Does
/// nothing if the facility is not ready.
pub fn add_path_log_level(ctx: &mut SyslogContext, path_prefix: &str, log_level: PriorityFilter)
    requires
        old(ctx).wf(),
    ensures
        final(ctx).wf(),
        final(ctx)@ == (match old(ctx)@ {
            ContextView::Ready(state) => ContextView::Ready(
                state.with_path_level(path_prefix@, log_level),
            ),
            other => other,
        }),
{
    match &mut ctx.state {
        Some(state) => {
            let ghost before = state@;
            let len = byte_len(path_prefix);
            let mut index: usize = 0;
            let mut searching = true;
            while searching && index < state.path_log_levels.len()
                invariant
                    state@ == before,
                    0 <= index <= state.path_log_levels.len(),
                    forall|k: int|
                        0 <= k < index ==> (#[trigger] before.path_log_levels[k]).prefix_len()
                            > len,
                    !searching ==> index < state.path_log_levels.len()
                        && before.path_log_levels[index as int].prefix_len() <= len,
                decreases
                        state.path_log_levels.len() - index + (if searching {
                            1int
                        } else {
                            0int
                        }),
            {
                let prefix_len = byte_len(state.path_log_levels[index].path_prefix.as_str());
                assert(before.path_log_levels[index as int]
                    == state.path_log_levels@[index as int]@);
                if prefix_len > len {
                    index += 1;
                } else {
                    searching = false;
                }
            }
            let filter = PathFilter { path_prefix: path_prefix.to_owned(), level: log_level };
            proof {
                lemma_longer_prefixes(before.path_log_levels, len as nat, index as int);
            }
            state.path_log_levels.insert(index, filter);
            proof {
                let after = state@.path_log_levels;
                let expected = before.path_log_levels.insert(index as int, filter@);
                assert(after =~= expected);
                assert(filter@.prefix_len() == len);
                assert forall|i: int, j: int| 0 <= i < j < after.len() implies (
                #[trigger] after[i]).prefix_len() >= (#[trigger] after[j]).prefix_len() by {
                    if i < index && j > index {
                        assert(after[i] == before.path_log_levels[i]);
                        assert(after[j] == before.path_log_levels[j - 1]);
                    } else if i < index && j < index {
                        assert(after[i] == before.path_log_levels[i]);
                        assert(after[j] == before.path_log_levels[j]);
                    } else if i < index && j == index {
                        assert(after[i] == before.path_log_levels[i]);
                    } else if i == index {
                        assert(after[j] == before.path_log_levels[j - 1]);
                        assert(before.path_log_levels[index as int].prefix_len() <= len);
                        if j - 1 > index {
                            assert(before.path_log_levels[index as int].prefix_len()
                                >= before.path_log_levels[j - 1].prefix_len());
                        }
                    } else {
                        assert(after[i] == before.path_log_levels[i - 1]);
                        assert(after[j] == before.path_log_levels[j - 1]);
                    }
                }
                assert(state@ == before.with_path_level(path_prefix@, log_level));
            }
        },
        None => {},
    }
}

/// Whether filter `index` is marked, and no filter with a longer prefix is.
pub open spec fn is_longest_marked(
    filters: Seq<PathFilterView>,
    matches: Seq<bool>,
    index: int,
) -> bool {
    &&& 0 <= index < filters.len()
    &&& index < matches.len()
    &&& matches[index]
    &&& forall|j: int|
        0 <= j < filters.len() && j < matches.len() && matches[j] ==> (
        #[trigger] filters[j]).prefix_len() <= filters[index].prefix_len()
}

/// While the filters come with longer prefixes first, the level that holds
/// for a path is that of a filter with the longest prefix among those that
/// the path starts with; and no filter's level holds only where the path
/// starts with no prefix.
pub proof fn lemma_level_of_longest_prefix(filters: Seq<PathFilterView>, matches: Seq<bool>)
    requires
        longest_first(filters),
    ensures
        match marked_level(filters, matches) {
            Some(level) => exists|i: int|
                is_longest_marked(filters, matches, i) && (#[trigger] filters[i]).level == level,
            None => forall|j: int|
                0 <= j < filters.len() && j < matches.len() ==> !(#[trigger] matches[j]),
        },
    decreases filters.len(),
{
    if filters.len() > 0 && matches.len() > 0 {
        let rest = filters.skip(1);
        let marks = matches.skip(1);
        assert forall|i: int, j: int| 0 <= i < j < rest.len() implies (
        #[trigger] rest[i]).prefix_len() >= (#[trigger] rest[j]).prefix_len() by {
            assert(rest[i] == filters[i + 1]);
            assert(rest[j] == filters[j + 1]);
        }
        if matches[0] {
            assert forall|j: int|
                0 <= j < filters.len() && j < matches.len() && matches[j] implies (
            #[trigger] filters[j]).prefix_len() <= filters[0].prefix_len() by {
                if j > 0 {
                    assert(filters[0].prefix_len() >= filters[j].prefix_len());
                }
            }
            assert(is_longest_marked(filters, matches, 0));
        } else {
            lemma_level_of_longest_prefix(rest, marks);
            match marked_level(rest, marks) {
                Some(level) => {
                    let i = choose|i: int|
                        is_longest_marked(rest, marks, i) && (#[trigger] rest[i]).level == level;
                    assert(rest[i] == filters[i + 1]);
                    assert(marks[i] == matches[i + 1]);
                    assert forall|j: int|
                        0 <= j < filters.len() && j < matches.len() && matches[j] implies (
                    #[trigger] filters[j]).prefix_len() <= filters[i + 1].prefix_len() by {
                        if j > 0 {
                            assert(rest[j - 1] == filters[j]);
                            assert(marks[j - 1] == matches[j]);
                        }
                    }
                    assert(is_longest_marked(filters, matches, i + 1));
                },
                None => {
                    assert forall|j: int|
                        0 <= j < filters.len() && j < matches.len() implies !(
                    #[trigger] matches[j]) by {
                        if j > 0 {
                            assert(marks[j - 1] == matches[j]);
                        }
                    }
                },
            }
        }
    }
}

impl State {
    /// The level that holds for a source file, given for each path filter,
    /// in order, whether the file's path starts with the filter's prefix,
    /// see [`StateView::level_where`].
    pub fn level_where(&self, matches: &[bool]) -> (level: PriorityFilter)
        ensures
            level == self@.level_where(matches@),
    {
        let mut index: usize = 0;
        assert(self@.path_log_levels.skip(0) =~= self@.path_log_levels);
        assert(matches@.skip(0) =~= matches@);
        while index < self.path_log_levels.len() && index < matches.len()
            invariant
                0 <= index <= self.path_log_levels.len(),
                index <= matches@.len(),
                marked_level(self@.path_log_levels, matches@) == marked_level(
                    self@.path_log_levels.skip(index as int),
                    matches@.skip(index as int),
                ),
            decreases self.path_log_levels.len() - index,
        {
            let ghost rest = self@.path_log_levels.skip(index as int);
            assert(self@.path_log_levels[index as int] == self.path_log_levels@[index as int]@);
            assert(rest[0] == self.path_log_levels@[index as int]@);
            assert(rest.skip(1) =~= self@.path_log_levels.skip(index + 1));
            assert(matches@.skip(index as int).skip(1) =~= matches@.skip(index + 1));
            if matches[index] {
                return self.path_log_levels[index].level;
            }
            index += 1;
        }
        self.log_level
    }
}

/// Whether `enabled` is what the answers `matches`, one for each path
/// filter, make of a record of priority `pri`.
pub open spec fn enabled_by(
    state: StateView,
    matches: Seq<bool>,
    pri: Priority,
    enabled: bool,
) -> bool {
    matches.len() == state.path_log_levels.len() && enabled == state.level_where(
        matches,
    ).spec_enables(pri)
}

/// Whether a record of priority `pri` from source file `file_path` is to be
/// logged: it is if it passes the level that holds for the file. Which path
/// filters the file's path starts with is asked of `std::path`, one filter
/// after the other, and what follows from the answers is what
/// [`State::level_where`] says. Without path filters the general level
/// decides. `None` if the facility is not ready.
pub fn log_enabled(ctx: &SyslogContext, pri: Priority, file_path: &str) -> (enabled: Option<bool>)
    ensures
        ctx@ is Ready ==> enabled is Some && exists|marks: Seq<bool>|
            enabled_by(ctx@->Ready_0, marks, pri, enabled->Some_0),
        !(ctx@ is Ready) ==> enabled is None,
        ctx@ is Ready && ctx@->Ready_0.path_log_levels.len() == 0 ==> enabled == Some(
            ctx@->Ready_0.log_level.spec_enables(pri),
        ),
{
    let state = match ctx.state() {
        Ok(state) => state,
        _ => {
            return None;
        },
    };
    let mut matches: Vec<bool> = Vec::new();
    let mut index: usize = 0;
    while index < state.path_log_levels.len()
        invariant
            ctx@ == ContextView::Ready(state@),
            0 <= index <= state.path_log_levels.len(),
            matches@.len() == index,
        decreases state.path_log_levels.len() - index,
    {
        matches.push(
            path_starts_with(file_path, state.path_log_levels[index].path_prefix.as_str()),
        );
        index += 1;
    }
    let log_level = state.level_where(matches.as_slice());
    let pass = log_level.enables(pri);
    let answer = Some(pass);
    assert(enabled_by(state@, matches@, pri, answer->Some_0));
    answer
}

/// Replaces the process name that records carry. Does nothing if the
/// facility is not ready.
pub fn set_proc_name(ctx: &mut SyslogContext, proc_name: String)
    requires
        old(ctx).wf(),
    ensures
        final(ctx).wf(),
        final(ctx)@ == (match old(ctx)@ {
            ContextView::Ready(state) => ContextView::Ready(
                StateView { proc_name: Some(proc_name@), ..state },
            ),
            other => other,
        }),
{
    match &mut ctx.state {
        Some(state) => {
            state.proc_name = Some(proc_name);
        },
        None => {},
    }
}

/// Outcome of switching the echo to the platform's system log on or off,
/// given the outcome of the platform's part: `NeverInitialized` if the
/// facility is not ready, whatever the platform says, and otherwise what the
/// platform says.
pub fn echo_syslog(ctx: &SyslogContext, enable: bool, platform: Result<(), Error>) -> (r: Result<
    (),
    Error,
>)
    ensures
        r == (if ctx@ is Ready {
            platform
        } else {
            Err(Error::NeverInitialized)
        }),
{
    match ctx.state() {
        Ok(_) => platform,
        Err(e) => Err(e),
    }
}

/// Replaces the file that records are echoed to by the one with descriptor
/// `file`; with `None` no file gets them. Does nothing if the facility is
/// not ready.
pub fn echo_file(ctx: &mut SyslogContext, file: Option<RawDescriptor>)
    requires
        old(ctx).wf(),
    ensures
        final(ctx).wf(),
        final(ctx)@ == (match old(ctx)@ {
            ContextView::Ready(state) => ContextView::Ready(StateView { file, ..state }),
            other => other,
        }),
{
    match &mut ctx.state {
        Some(state) => {
            state.file = file;
        },
        None => {},
    }
}

/// Switches the echo to the standard error stream on or off. Does nothing
/// if the facility is not ready.
pub fn echo_stderr(ctx: &mut SyslogContext, enable: bool)
    requires
        old(ctx).wf(),
    ensures
        final(ctx).wf(),
        final(ctx)@ == (match old(ctx)@ {
            ContextView::Ready(state) => ContextView::Ready(StateView { stderr: enable, ..state }),
            other => other,
        }),
{
    match &mut ctx.state {
        Some(state) => {
            state.stderr = enable;
        },
        None => {},
    }
}

/// The descriptors that the facility itself holds on to: that of the echo
/// file, if there is one and the facility is ready.
pub open spec fn owned_descriptors(ctx: ContextView) -> Seq<RawDescriptor> {
    match ctx {
        ContextView::Ready(state) => match state.file {
            Some(fd) => seq![fd],
            None => Seq::empty(),
        },
        _ => Seq::empty(),
    }
}

/// Appends to `fds` the descriptors that the facility holds on to. The
/// descriptor of the standard error stream is never among them, as the
/// facility does not own it.
pub fn push_descriptors(ctx: &SyslogContext, fds: &mut Vec<RawDescriptor>)
    ensures
        final(fds)@ == old(fds)@ + owned_descriptors(ctx@),
{
    match ctx.state() {
        Ok(state) => {
            match state.file {
                Some(fd) => {
                    fds.push(fd);
                    assert(fds@ =~= old(fds)@ + seq![fd]);
                },
                None => {
                    assert(fds@ =~= old(fds)@ + Seq::<RawDescriptor>::empty());
                },
            }
        },
        Err(_) => {
            assert(fds@ =~= old(fds)@ + Seq::<RawDescriptor>::empty());
        },
    }
}

/// The same as [`push_descriptors`], under its older name.
pub fn push_fds(ctx: &SyslogContext, fds: &mut Vec<RawDescriptor>)
    ensures
        final(fds)@ == old(fds)@ + owned_descriptors(ctx@),
{
    push_descriptors(ctx, fds)
}

/// The number of bytes that the text of one record may take, the line feed
/// at its end included.
pub const RECORD_CAPACITY: usize = 2048;

/// The text of a record: in square brackets the time, and where the record
/// has a source position also the priority, the file and the line, with
/// colons between them; then the message and a line feed. With a source
/// position a blank separates the bracket from the message.
pub open spec fn record_text(
    now: Seq<u8>,
    pri: Priority,
    file_line: Option<(Seq<u8>, u32)>,
    message: Seq<u8>,
) -> Seq<u8> {
    match file_line {
        Some((file_name, line)) => seq![91u8] + now + seq![58u8] + vstd::utf8::encode_utf8(
            pri.spec_name(),
        ) + seq![58u8] + file_name + seq![58u8] + decimal(line as nat) + seq![93u8, 32u8] + message
            + seq![10u8],
        None => seq![91u8] + now + seq![93u8] + message + seq![10u8],
    }
}

/// The bytes of the file name of a source position.
pub open spec fn position_bytes(file_line: Option<(&str, u32)>) -> Option<(Seq<u8>, u32)> {
    match file_line {
        Some((file_name, line)) => Some((vstd::utf8::encode_utf8(file_name@), line)),
        None => None,
    }
}

/// The text of a record, see [`record_text`], or `None` where it is longer
/// than [`RECORD_CAPACITY`].
pub fn format_record(
    now: &str,
    pri: Priority,
    file_line: Option<(&str, u32)>,
    message: &str,
) -> (text: Option<Vec<u8>>)
    ensures
        ({
            let expected = record_text(
                vstd::utf8::encode_utf8(now@),
                pri,
                position_bytes(file_line),
                vstd::utf8::encode_utf8(message@),
            );
            match text {
                Some(text) => text@ == expected && expected.len() <= RECORD_CAPACITY,
                None => expected.len() > RECORD_CAPACITY,
            }
        }),
{
    let now = now.as_bytes();
    let message = message.as_bytes();
    let mut text: Vec<u8> = Vec::new();
    if now.len() > RECORD_CAPACITY || message.len() > RECORD_CAPACITY {
        return None;
    }
    text.push(91);
    text.extend_from_slice(now);
    match file_line {
        Some((file_name, line)) => {
            let file_name = file_name.as_bytes();
            if file_name.len() > RECORD_CAPACITY {
                return None;
            }
            let digits = decimal_digits(line);
            proof {
                crate::text::lemma_decimal_len(line as nat);
            }
            text.push(58);
            text.extend_from_slice(pri.name().as_bytes());
            text.push(58);
            text.extend_from_slice(file_name);
            text.push(58);
            text.extend_from_slice(digits.as_slice());
            text.push(93);
            text.push(32);
        },
        None => {
            text.push(93);
        },
    }
    text.extend_from_slice(message);
    text.push(10);
    if text.len() > RECORD_CAPACITY {
        return None;
    }
    Some(text)
}

/// What becomes of one record: the text to write, and where to.
#[derive(Debug, PartialEq, Eq)]
pub struct LogRecord {
    /// The process name for the platform's system log.
    pub proc_name: Option<String>,
    /// The text to echo, or `None` where the record is too long for one.
    pub text: Option<Vec<u8>>,
    /// The descriptor of the file to echo to, if any.
    pub file: Option<RawDescriptor>,
    /// Whether to echo to the standard error stream.
    pub stderr: bool,
}

/// What a [`LogRecord`] holds.
pub struct LogRecordView {
    pub proc_name: Option<Seq<char>>,
    pub text: Option<Seq<u8>>,
    pub file: Option<RawDescriptor>,
    pub stderr: bool,
}

impl View for LogRecord {
    type V = LogRecordView;

    open spec fn view(&self) -> LogRecordView {
        LogRecordView {
            proc_name: option_text(self.proc_name),
            text: match self.text {
                Some(text) => Some(text@),
                None => None,
            },
            file: self.file,
            stderr: self.stderr,
        }
    }
}

impl StateView {
    /// What becomes of a record that is logged at time `now`: its text, if
    /// it is short enough for one, goes to the echo file and to the
    /// standard error stream as far as each is switched on.
    pub open spec fn record(
        self,
        now: Seq<char>,
        pri: Priority,
        file_line: Option<(&str, u32)>,
        message: Seq<char>,
    ) -> LogRecordView {
        let text = record_text(
            vstd::utf8::encode_utf8(now),
            pri,
            position_bytes(file_line),
            vstd::utf8::encode_utf8(message),
        );
        LogRecordView {
            proc_name: self.proc_name,
            text: if text.len() <= RECORD_CAPACITY {
                Some(text)
            } else {
                None
            },
            file: self.file,
            stderr: self.stderr,
        }
    }
}

/// The pattern in which the time of a record is to be written: the date,
/// the time of day, and the nanoseconds. Reading the clock and the time zone
/// of the machine is the caller's work; the library takes the time as text.
pub const TIMESTAMP_FORMAT: &'static str = "%F %T%.9f";

/// What becomes of a record that is logged at time `now`, which the caller
/// read off the clock and wrote in the pattern of [`TIMESTAMP_FORMAT`], see
/// [`StateView::record`]. `None` if the facility is not ready.
pub fn log(
    ctx: &SyslogContext,
    now: &str,
    pri: Priority,
    fac: Facility,
    file_line: Option<(&str, u32)>,
    message: &str,
) -> (record: Option<LogRecord>)
    ensures
        match ctx@ {
            ContextView::Ready(state) => record is Some && record->Some_0@ == state.record(
                now@,
                pri,
                file_line,
                message@,
            ),
            _ => record is None,
        },
{
    let state = match ctx.state() {
        Ok(state) => state,
        Err(_) => {
            return None;
        },
    };
    let proc_name = match &state.proc_name {
        Some(name) => Some(name.clone()),
        None => None,
    };
    Some(
        LogRecord {
            proc_name,
            text: format_record(now, pri, file_line, message),
            file: state.file,
            stderr: state.stderr,
        },
    )
}

/// What `String::from_utf8_lossy` makes of a run of bytes, as bytes.
pub uninterp spec fn lossy_utf8(bytes: Seq<u8>) -> Seq<u8>;

/// `String::from_utf8_lossy`: the bytes as text, each invalid sequence
/// replaced by the replacement character. The contract names the result, and
/// says that bytes which are valid UTF-8 come back as they are.
#[verifier::external_body]
fn utf8_lossy(buf: &[u8]) -> (text: Vec<u8>)
    ensures
        text@ == lossy_utf8(buf@),
        vstd::utf8::valid_utf8(buf@) ==> text@ == buf@,
{
    String::from_utf8_lossy(buf).into_owned().into_bytes()
}

/// A writer that cuts what is written to it into lines, each of which is to
/// be logged as one record of a fixed priority and facility.
#[derive(Debug, PartialEq, Eq)]
pub struct Syslogger {
    buf: Vec<u8>,
    priority: Priority,
    facility: Facility,
}

impl View for Syslogger {
    type V = Seq<u8>;

    /// The text that was written after the last line feed, which waits for
    /// its line to be completed.
    closed spec fn view(&self) -> Seq<u8> {
        self.buf@
    }
}

/// The lines that are complete once `text` has been written after
/// `pending`, and the text that waits after them. Nothing is complete
/// without a line feed; with one, the lines are those of the text before
/// the last line feed, and what follows it waits.
pub open spec fn written(pending: Seq<u8>, text: Seq<u8>) -> (Seq<Seq<u8>>, Seq<u8>) {
    let all = pending + text;
    match last_line_feed(all) {
        Some(at) => (lines(all.take(at)), all.skip(at + 1)),
        None => (Seq::empty(), all),
    }
}

impl Syslogger {
    /// The priority of the records.
    pub closed spec fn spec_priority(&self) -> Priority {
        self.priority
    }

    /// The facility of the records.
    pub closed spec fn spec_facility(&self) -> Facility {
        self.facility
    }

    /// A writer for records of priority `p` and facility `f`, with no text
    /// waiting.
    pub fn new(p: Priority, f: Facility) -> (logger: Syslogger)
        ensures
            logger@ == Seq::<u8>::empty(),
            logger.spec_priority() == p,
            logger.spec_facility() == f,
    {
        Syslogger { buf: Vec::new(), priority: p, facility: f }
    }

    /// The priority of the records.
    #[verifier::when_used_as_spec(spec_priority)]
    pub fn priority(&self) -> (p: Priority)
        ensures
            p == self.spec_priority(),
    {
        self.priority
    }

    /// The facility of the records.
    #[verifier::when_used_as_spec(spec_facility)]
    pub fn facility(&self) -> (f: Facility)
        ensures
            f == self.spec_facility(),
    {
        self.facility
    }

    /// Takes `text` and returns the lines that it completes, in order, each
    /// to be logged as one record, see [`written`].
    pub fn write_text(&mut self, text: &[u8]) -> (complete: Vec<Vec<u8>>)
        ensures
            (byte_strings(complete@), final(self)@) == written(old(self)@, text@),
            final(self).spec_priority() == old(self).spec_priority(),
            final(self).spec_facility() == old(self).spec_facility(),
    {
        self.buf.extend_from_slice(text);
        let ghost all = old(self)@ + text@;
        assert(self.buf@ == all);
        match find_last_line_feed(&self.buf) {
            Some(last_newline_idx) => {
                let mut head: Vec<u8> = Vec::new();
                let mut i: usize = 0;
                while i < last_newline_idx
                    invariant
                        0 <= i <= last_newline_idx < self.buf.len(),
                        head@ =~= self.buf@.take(i as int),
                    decreases last_newline_idx - i,
                {
                    head.push(self.buf[i]);
                    i += 1;
                }
                assert(head@ == all.take(last_newline_idx as int));
                let complete = split_lines(head.as_slice());
                let rest = self.buf.split_off(last_newline_idx + 1);
                assert(rest@ =~= all.skip(last_newline_idx + 1));
                self.buf = rest;
                complete
            },
            None => {
                let complete: Vec<Vec<u8>> = Vec::new();
                assert(byte_strings(complete@) =~= Seq::<Seq<u8>>::empty());
                complete
            },
        }
    }

    /// Takes `buf`, read as text the way `String::from_utf8_lossy` reads it,
    /// and returns the lines that it completes, in order, each to be logged
    /// as one record. All of `buf` is taken.
    pub fn write(&mut self, buf: &[u8]) -> (complete: Vec<Vec<u8>>)
        ensures
            (byte_strings(complete@), final(self)@) == written(old(self)@, lossy_utf8(buf@)),
            final(self).spec_priority() == old(self).spec_priority(),
            final(self).spec_facility() == old(self).spec_facility(),
    {
        let parsed = utf8_lossy(buf);
        self.write_text(parsed.as_slice())
    }

    /// Has nothing to do: complete lines are handed out as they are written.
    pub fn flush(&mut self)
        ensures
            *final(self) == *old(self),
    {
    }
}

} // verus!