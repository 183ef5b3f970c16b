//! What the adapters for the logging facades have in common: levels, categories and call sites.

use vstd::prelude::*;

use crate::client::{
    default_settings, BuilderView, Client, ClientBuilder, Settings, DEFAULT_BUFFER_SIZE,
};
use crate::priority::Priority;
use crate::record::{Record, RecordView};
use crate::text::{
    all_digits, decimal, lemma_decimal_reads_back, push_decimal, same_text, value,
};

verus! {

/// The level of a facade's entry, most severe first. Both facades have these five.
#[derive(Clone, Copy, Debug, PartialEq, Eq, Structural)]
pub enum Level {
    /// Something went wrong.
    Error,
    /// Something looks wrong.
    Warn,
    /// Worth knowing.
    Info,
    /// Worth knowing while debugging.
    Debug,
    /// Every step.
    Trace,
}

/// The most verbose level to let through, or nothing at all.
#[derive(Clone, Copy, Debug, PartialEq, Eq, Structural)]
pub enum LevelFilter {
    /// Lets nothing through.
    Off,
    /// Lets errors through.
    Error,
    /// Lets warnings through, and errors.
    Warn,
    /// Lets everything but debugging and tracing through.
    Info,
    /// Lets everything but tracing through.
    Debug,
    /// Lets everything through.
    Trace,
}

impl Level {
    /// How verbose the level is.
    pub open spec fn rank(self) -> int {
        match self {
            Level::Error => 1,
            Level::Warn => 2,
            Level::Info => 3,
            Level::Debug => 4,
            Level::Trace => 5,
        }
    }

    fn verbosity(self) -> (rank: u8)
        ensures
            rank == self.rank(),
    {
        match self {
            Level::Error => 1,
            Level::Warn => 2,
            Level::Info => 3,
            Level::Debug => 4,
            Level::Trace => 5,
        }
    }
}

impl LevelFilter {
    /// How much the filter lets through.
    pub open spec fn rank(self) -> int {
        match self {
            LevelFilter::Off => 0,
            LevelFilter::Error => 1,
            LevelFilter::Warn => 2,
            LevelFilter::Info => 3,
            LevelFilter::Debug => 4,
            LevelFilter::Trace => 5,
        }
    }

    fn verbosity(self) -> (rank: u8)
        ensures
            rank == self.rank(),
    {
        match self {
            LevelFilter::Off => 0,
            LevelFilter::Error => 1,
            LevelFilter::Warn => 2,
            LevelFilter::Info => 3,
            LevelFilter::Debug => 4,
            LevelFilter::Trace => 5,
        }
    }

    /// Whether the filter lets a level through.
    pub fn allows(self, level: Level) -> (allowed: bool)
        ensures
            allowed == (level.rank() <= self.rank()),
    {
        level.verbosity() <= self.verbosity()
    }
}

/// The priority for a level.
pub open spec fn level_priority(level: Level) -> Priority {
    match level {
        Level::Trace => Priority::Trace,
        Level::Debug => Priority::Debug,
        Level::Info => Priority::Information,
        Level::Warn => Priority::Warning,
        Level::Error => Priority::Error,
    }
}

/// Maps a facade's level onto a protocol priority.
///
/// A facade has five levels and the protocol has eight, so `NOTICE`, `CRITICAL` and `FATAL` are
/// unreachable through one. They stay available through [`Client`](crate::Client)'s own methods.
pub fn priority_for(level: Level) -> (priority: Priority)
    ensures
        priority == level_priority(level),
{
    match level {
        Level::Trace => Priority::Trace,
        Level::Debug => Priority::Debug,
        // Not `INFO`: the protocol spells it out.
        Level::Info => Priority::Information,
        Level::Warn => Priority::Warning,
        Level::Error => Priority::Error,
    }
}

/// How to choose a category -- that is, a GUI tab -- for each entry.
pub enum CategorySource<F> {
    /// The entry's target, which is the module path unless a call site overrode it. Routing by
    /// module means tabs mirror the shape of the program.
    Target,
    /// One fixed category for everything.
    Fixed(String),
    /// Whatever the closure decides.
    Custom(F),
}

/// The configuration of the client that an adapter creates: every default, but for the name if one
/// was given.
pub open spec fn adapter_client(app_name: Option<Seq<char>>) -> BuilderView {
    let settings = default_settings();
    BuilderView {
        settings: match app_name {
            Some(app_name) => Settings { app_name, ..settings },
            None => settings,
        },
        buffer_size: DEFAULT_BUFFER_SIZE,
    }
}

/// The characters of an optional owned string.
pub open spec fn optional_string(text: Option<String>) -> Option<Seq<char>> {
    match text {
        Some(text) => Some(text@),
        None => None,
    }
}

/// The client that an adapter was supplied with, or one that `start` makes for it.
pub(crate) fn supplied_or_started<C, S: FnOnce(ClientBuilder) -> C>(
    client: Option<C>,
    app_name: Option<String>,
    start: S,
) -> (result: C)
    requires
        client is None ==> forall|builder: ClientBuilder|
            builder@ == adapter_client(optional_string(app_name)) ==> call_requires(
                start,
                (builder,),
            ),
    ensures
        match client {
            Some(client) => result == client,
            None => exists|builder: ClientBuilder|
                {
                    &&& builder@ == adapter_client(optional_string(app_name))
                    &&& #[trigger] call_ensures(start, (builder,), result)
                },
        },
{
    match client {
        Some(client) => client,
        None => {
            let mut builder = Client::builder();
            if let Some(app_name) = app_name {
                builder = builder.app_name(app_name);
            }
            start(builder)
        },
    }
}

/// The text of a call site: the file, and the line if it is known.
pub open spec fn call_site_text(file: Seq<char>, line: Option<u32>) -> Seq<char> {
    match line {
        Some(line) => file + seq![':'] + decimal(line as nat),
        None => file,
    }
}

/// Renders a call site as `file:line`, or as the file alone if the line is not known.
pub fn call_site(file: &str, line: Option<u32>) -> (text: String)
    ensures
        text@ == call_site_text(file@, line),
{
    let mut text = file.to_owned();
    if let Some(line) = line {
        proof {
            reveal_strlit(":");
            assert(":"@ =~= seq![':']);
        }
        text.append(":");
        push_decimal(&mut text, line as u128);
    }
    text
}

/// The characters of an optional string.
pub open spec fn optional_text(text: Option<&str>) -> Option<Seq<char>> {
    match text {
        Some(text) => Some(text@),
        None => None,
    }
}

/// The original category of an entry: the module path, unless that is the category already.
pub open spec fn module_category(module: Option<Seq<char>>, category: Seq<char>) -> Seq<char> {
    match module {
        Some(module) => if module == category {
            seq![]
        } else {
            module
        },
        None => seq![],
    }
}

/// Gives an entry its module path as the original category, unless that is the category already:
/// the GUI then renders `category [module::path]` for free.
pub(crate) fn with_module(entry: Record, module: Option<&str>) -> (result: Record)
    requires
        entry@.original_category == Seq::<char>::empty(),
    ensures
        result@ == (RecordView {
            original_category: module_category(optional_text(module), entry@.category),
            ..entry@
        }),
{
    match module {
        Some(module) => if same_text(module, entry.category.as_str()) {
            entry
        } else {
            entry.original_category(module)
        },
        None => entry,
    }
}

/// Warnings and errors reach the GUI's synthetic `ERROR` tab, and nothing else does.
pub proof fn lemma_severe_levels_reach_the_error_tab(level: Level)
    ensures
        level_priority(level).error_class() == (level is Error),
        (level_priority(level).error_class() || level_priority(level) is Warning) == (level is Error
            || level is Warn),
{
}

/// Whether a level is among those that a filter names: nothing for `Off`, and otherwise the level
/// of the filter's own name and every more severe one.
pub open spec fn lets_through(filter: LevelFilter, level: Level) -> bool {
    match filter {
        LevelFilter::Off => false,
        LevelFilter::Error => level is Error,
        LevelFilter::Warn => level is Error || level is Warn,
        LevelFilter::Info => level is Error || level is Warn || level is Info,
        LevelFilter::Debug => !(level is Trace),
        LevelFilter::Trace => true,
    }
}

/// Filters let through what they name, and ranks say the same.
pub proof fn lemma_filters_let_through_what_they_name(
    filter: LevelFilter,
    level: Level,
    allowed: bool,
)
    requires
        call_ensures(LevelFilter::allows, (filter, level), allowed),
    ensures
        allowed == lets_through(filter, level),
        lets_through(filter, level) == (level.rank() <= filter.rank()),
{
}

/// Whether a priority is the one for a level: the one of the same name, spelled as the protocol
/// spells it.
pub open spec fn is_priority_of(level: Level, priority: Priority) -> bool {
    match level {
        Level::Error => priority is Error,
        Level::Warn => priority is Warning,
        Level::Info => priority is Information,
        Level::Debug => priority is Debug,
        Level::Trace => priority is Trace,
    }
}

/// Every level has its own priority, and no two levels share one.
pub proof fn lemma_levels_have_their_own_priority(
    level: Level,
    other: Level,
    priority: Priority,
)
    requires
        call_ensures(priority_for, (level,), priority),
    ensures
        is_priority_of(level, priority),
        priority == level_priority(level),
        level != other ==> level_priority(level) != level_priority(other),
{
}

/// A call site reads back: the file, and behind a colon the line, if it is known.
pub proof fn lemma_call_site_reads_back(file: &str, line: Option<u32>, text: String)
    requires
        call_ensures(call_site, (file, line), text),
    ensures
        line is None ==> text@ == file@,
        line matches Some(line) ==> {
            let n = file@.len() as int;
            &&& text@.len() > n + 1
            &&& text@.take(n) == file@
            &&& text@[n] == ':'
            &&& all_digits(text@.skip(n + 1))
            &&& value(text@.skip(n + 1)) == line
        },
        text@ == call_site_text(file@, line),
{
    if let Some(line) = line {
        lemma_decimal_reads_back(line as nat);
        assert(text@.take(file@.len() as int) =~= file@);
        assert(text@.skip(file@.len() as int + 1) =~= decimal(line as nat));
    }
}

/// The module path is the original category unless it is the category already.
pub proof fn lemma_module_is_kept_beside_another_category(
    module: Option<Seq<char>>,
    category: Seq<char>,
)
    ensures
        module is None ==> module_category(module, category) == Seq::<char>::empty(),
        module == Some(category) ==> module_category(module, category) == Seq::<char>::empty(),
        module matches Some(other) ==> other != category ==> module_category(module, category)
            == other,
{
}

/// The client that an adapter makes has the documented defaults, and the name it was given.
pub proof fn lemma_adapter_client_has_its_name(app_name: Option<Seq<char>>)
    ensures
        ({
            let client = adapter_client(app_name);
            &&& client.settings.app_name == (match app_name {
                Some(app_name) => app_name,
                None => "ECAPPLOG-RUST"@,
            })
            &&& client.settings.address == "127.0.0.1:13991"@
            &&& client.buffer_size == 1000
            &&& client.settings.flush_on_close
            &&& client.settings.flush_timeout == 5 * 1_000_000_000
            &&& client.settings.connect_timeout == 10 * 1_000_000_000
            &&& client.settings.reconnect_delay == 5 * 1_000_000_000
        }),
{
}

}
