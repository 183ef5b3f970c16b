//! What becomes of the `log` facade's records.
//!
//! A [`LogRecord`] holds what the facade hands over, with its message rendered. A [`LogLogger`]
//! says whether a record is forwarded, and as which entry.

use std::time::{Duration, SystemTime};

use vstd::prelude::*;

use crate::client::ClientBuilder;
use crate::clock::duration_nanos;
use crate::facade::{
    adapter_client, call_site, call_site_text, is_priority_of, lets_through, level_priority,
    module_category, optional_string, optional_text, priority_for, supplied_or_started,
    with_module, CategorySource, Level, LevelFilter,
};
use crate::record::{plain_entry, Record, RecordView};
use crate::text::{all_digits, decimal, lemma_decimal_reads_back, texts, value, IntoText};

verus! {

/// One record of the `log` facade.
pub struct LogRecord<'a> {
    /// Its level.
    pub level: Level,
    /// Its target, which is the module path unless the call site overrode it.
    pub target: &'a str,
    /// Its message, rendered.
    pub message: &'a str,
    /// The path of the module that made it.
    pub module: Option<&'a str>,
    /// The file of the call site.
    pub file: Option<&'a str>,
    /// The line of the call site.
    pub line: Option<u32>,
}

/// What a [`LogRecord`] says, with its strings as sequences of characters.
#[verifier::ext_equal]
pub struct LogRecordView {
    pub level: Level,
    pub target: Seq<char>,
    pub message: Seq<char>,
    pub module: Option<Seq<char>>,
    pub file: Option<Seq<char>>,
    pub line: Option<u32>,
}

impl<'a> View for LogRecord<'a> {
    type V = LogRecordView;

    open spec fn view(&self) -> LogRecordView {
        LogRecordView {
            level: self.level,
            target: self.target@,
            message: self.message@,
            module: optional_text(self.module),
            file: optional_text(self.file),
            line: self.line,
        }
    }
}

/// The entry for a record under a category. The call site goes into `source`, which the GUI shows
/// in its own column; the module path goes into `original_category` when it is not already the
/// category.
pub open spec fn log_entry(
    time: SystemTime,
    record: LogRecordView,
    category: Seq<char>,
) -> RecordView {
    RecordView {
        source: match record.file {
            Some(file) => call_site_text(file, record.line),
            None => seq![],
        },
        original_category: module_category(record.module, category),
        ..plain_entry(time, level_priority(record.level), category, record.message)
    }
}

/// Routes the `log` facade to ECAppLog, through a client handle of type `C`.
pub struct LogLogger<C, F> {
    client: C,
    level: LevelFilter,
    category: CategorySource<F>,
    flush_timeout: Duration,
}

/// Builds a [`LogLogger`].
pub struct LogLoggerBuilder<C, F> {
    client: Option<C>,
    app_name: Option<String>,
    level: LevelFilter,
    category: CategorySource<F>,
    flush_timeout: Duration,
}

/// What a [`LogLoggerBuilder`] was told, with the duration in nanoseconds.
pub struct LogLoggerBuilderView<C, F> {
    /// The client to write through, if one was supplied.
    pub client: Option<C>,
    /// The name for the client to create, if one was given.
    pub app_name: Option<Seq<char>>,
    /// The most verbose level to forward.
    pub level: LevelFilter,
    /// How to choose a category.
    pub category: CategorySource<F>,
    /// How long a flush may take.
    pub flush_timeout: nat,
}

/// How a [`LogLogger`] is configured, with the duration in nanoseconds.
pub struct LogLoggerView<C, F> {
    /// The client to write through.
    pub client: C,
    /// The most verbose level to forward.
    pub level: LevelFilter,
    /// How to choose a category.
    pub category: CategorySource<F>,
    /// How long a flush may take.
    pub flush_timeout: nat,
}

impl<C, F> View for LogLoggerBuilder<C, F> {
    type V = LogLoggerBuilderView<C, F>;

    closed spec fn view(&self) -> LogLoggerBuilderView<C, F> {
        LogLoggerBuilderView {
            client: self.client,
            app_name: optional_string(self.app_name),
            level: self.level,
            category: self.category,
            flush_timeout: duration_nanos(self.flush_timeout),
        }
    }
}

impl<C, F> View for LogLogger<C, F> {
    type V = LogLoggerView<C, F>;

    closed spec fn view(&self) -> LogLoggerView<C, F> {
        LogLoggerView {
            client: self.client,
            level: self.level,
            category: self.category,
            flush_timeout: duration_nanos(self.flush_timeout),
        }
    }
}

/// Every default: all levels, under their targets, through a client to be created.
pub open spec fn default_logger<C, F>() -> LogLoggerBuilderView<C, F> {
    LogLoggerBuilderView {
        client: None,
        app_name: None,
        level: LevelFilter::Trace,
        category: CategorySource::Target,
        flush_timeout: 5_000_000_000,
    }
}

impl<C, F> Default for LogLoggerBuilder<C, F> {
    fn default() -> (builder: Self)
        ensures
            builder@ == default_logger::<C, F>(),
    {
        LogLoggerBuilder {
            client: None,
            app_name: None,
            level: LevelFilter::Trace,
            category: CategorySource::Target,
            flush_timeout: Duration::from_secs(5),
        }
    }
}

impl<C, F> LogLoggerBuilder<C, F> {
    /// Uses an existing client, so the application can log through both this facade and the direct
    /// API over one connection.
    pub fn client(self, client: C) -> (builder: Self)
        ensures
            builder@ == (LogLoggerBuilderView { client: Some(client), ..self@ }),
    {
        let mut builder = self;
        builder.client = Some(client);
        builder
    }

    /// Sets the app name on the client this builder creates.
    ///
    /// Ignored when [`client`](LogLoggerBuilder::client) supplied one already.
    pub fn app_name<T: IntoText>(self, app_name: T) -> (builder: Self)
        ensures
            builder@ == (LogLoggerBuilderView { app_name: Some(app_name.text()), ..self@ }),
    {
        let mut builder = self;
        builder.app_name = Some(app_name.into_text());
        builder
    }

    /// The most verbose level to forward. Default [`LevelFilter::Trace`].
    pub fn max_level(self, level: LevelFilter) -> (builder: Self)
        ensures
            builder@ == (LogLoggerBuilderView { level, ..self@ }),
    {
        let mut builder = self;
        builder.level = level;
        builder
    }

    /// Sends everything to one category, instead of splitting tabs by module path.
    pub fn category<T: IntoText>(self, category: T) -> (builder: Self)
        ensures
            builder@ == (LogLoggerBuilderView { category: builder@.category, ..self@ }),
            builder@.category matches CategorySource::Fixed(fixed) && fixed@ == category.text(),
    {
        let mut builder = self;
        builder.category = CategorySource::Fixed(category.into_text());
        builder
    }

    /// Derives the category from each record.
    pub fn category_fn(self, f: F) -> (builder: Self)
        ensures
            builder@ == (LogLoggerBuilderView { category: CategorySource::Custom(f), ..self@ }),
    {
        let mut builder = self;
        builder.category = CategorySource::Custom(f);
        builder
    }

    /// How long a flush of the facade may spend draining. Default 5 seconds.
    pub fn flush_timeout(self, flush_timeout: Duration) -> (builder: Self)
        ensures
            builder@ == (LogLoggerBuilderView {
                flush_timeout: duration_nanos(flush_timeout),
                ..self@
            }),
    {
        let mut builder = self;
        builder.flush_timeout = flush_timeout;
        builder
    }

    /// Builds the logger without registering it. `start` makes a running client out of a
    /// configuration; it is only called when no client was supplied.
    pub fn build<S: FnOnce(ClientBuilder) -> C>(self, start: S) -> (logger: LogLogger<C, F>)
        requires
            self@.client is None ==> forall|client: ClientBuilder|
                client@ == adapter_client(self@.app_name) ==> call_requires(start, (client,)),
        ensures
            logger@ == (LogLoggerView {
                client: logger@.client,
                level: self@.level,
                category: self@.category,
                flush_timeout: self@.flush_timeout,
            }),
            match self@.client {
                Some(client) => logger@.client == client,
                None => exists|client: ClientBuilder|
                    #![trigger call_ensures(start, (client,), logger@.client)]
                    {
                        &&& client@ == adapter_client(self@.app_name)
                        &&& call_ensures(start, (client,), logger@.client)
                    },
            },
    {
        LogLogger {
            client: supplied_or_started(self.client, self.app_name, start),
            level: self.level,
            category: self.category,
            flush_timeout: self.flush_timeout,
        }
    }
}

/// Whether `category` is the category that a logger chooses for a record.
pub open spec fn chooses<F: Fn(&LogRecord) -> String>(
    source: CategorySource<F>,
    record: LogRecord,
    category: Seq<char>,
) -> bool {
    match source {
        CategorySource::Target => category == record.target@,
        CategorySource::Fixed(fixed) => category == fixed@,
        CategorySource::Custom(f) => exists|chosen: String|
            {
                &&& #[trigger] call_ensures(f, (&record,), chosen)
                &&& category == chosen@
            },
    }
}

/// Whether a logger's own function, if it has one, takes a record.
pub open spec fn takes<F: Fn(&LogRecord) -> String>(
    source: CategorySource<F>,
    record: LogRecord,
) -> bool {
    source matches CategorySource::Custom(f) ==> call_requires(f, (&record,))
}

impl<C, F: Fn(&LogRecord) -> String> LogLogger<C, F> {
    /// Starts configuring a logger.
    pub fn builder() -> (builder: LogLoggerBuilder<C, F>)
        ensures
            builder@ == default_logger::<C, F>(),
    {
        Default::default()
    }

    /// The client this logger writes through.
    pub fn client(&self) -> (client: &C)
        ensures
            *client == self@.client,
    {
        &self.client
    }

    /// The most verbose level this logger forwards.
    pub fn level(&self) -> (level: LevelFilter)
        ensures
            level == self@.level,
    {
        self.level
    }

    /// How long a flush of the facade may spend draining.
    pub fn flush_timeout(&self) -> (flush_timeout: Duration)
        ensures
            duration_nanos(flush_timeout) == self@.flush_timeout,
    {
        self.flush_timeout
    }

    fn category_for(&self, record: &LogRecord) -> (category: String)
        requires
            takes(self@.category, *record),
        ensures
            chooses(self@.category, *record, category@),
    {
        match &self.category {
            CategorySource::Target => record.target.to_owned(),
            CategorySource::Fixed(category) => category.clone(),
            CategorySource::Custom(f) => f(record),
        }
    }

    /// Whether records of this level are forwarded.
    pub fn enabled(&self, level: Level) -> (enabled: bool)
        ensures
            enabled == (level.rank() <= self@.level.rank()),
    {
        self.level.allows(level)
    }

    /// The entry to send for a record, if it is to be forwarded.
    ///
    /// It is stamped with the current time, which is left open.
    pub fn log(&self, record: &LogRecord) -> (entry: Option<Record>)
        requires
            record.level.rank() <= self@.level.rank() ==> takes(self@.category, *record),
        ensures
            entry is Some <==> record.level.rank() <= self@.level.rank(),
            entry matches Some(entry) ==> {
                &&& chooses(self@.category, *record, entry@.category)
                &&& entry@ == log_entry(entry.time, record@, entry@.category)
            },
    {
        if !self.enabled(record.level) {
            return None;
        }
        let category = self.category_for(record);
        let ghost chosen = category@;
        let mut entry = Record::new(priority_for(record.level), category, record.message);
        // `source` is shown in its own column and in the details pane, which makes it the natural
        // home for the call site.
        if let Some(file) = record.file {
            entry = entry.source(call_site(file, record.line));
        }
        let entry = with_module(entry, record.module);
        assert(entry@ =~= log_entry(entry.time, record@, chosen));
        Some(entry)
    }
}

/// What becomes of a record: it is forwarded exactly if the logger lets its level through, as an
/// entry of that level's own priority, with the record's message, the category that was asked for,
/// the module path beside it unless that is the category, and the call site as its source.
pub proof fn lemma_records_become_their_entries<C, F: Fn(&LogRecord) -> String>(
    logger: &LogLogger<C, F>,
    record: &LogRecord,
    entry: Option<Record>,
)
    requires
        call_ensures(LogLogger::<C, F>::log, (logger, record), entry),
    ensures
        entry is Some == lets_through(logger@.level, record.level),
        entry matches Some(entry) ==> {
            &&& is_priority_of(record.level, entry.priority)
            &&& entry.message@ == record.message@
            &&& match logger@.category {
                CategorySource::Target => entry.category@ == record.target@,
                CategorySource::Fixed(fixed) => entry.category@ == fixed@,
                CategorySource::Custom(f) => exists|chosen: String|
                    #[trigger] call_ensures(f, (record,), chosen) && entry.category@ == chosen@,
            }
            &&& match record.module {
                Some(module) => entry.original_category@ == (if module@ == entry.category@ {
                    seq![]
                } else {
                    module@
                }),
                None => entry.original_category@.len() == 0,
            }
            &&& match (record.file, record.line) {
                (Some(file), Some(line)) => {
                    let n = file@.len() as int;
                    &&& entry.source@.take(n) == file@
                    &&& entry.source@.len() > n + 1
                    &&& entry.source@[n] == ':'
                    &&& all_digits(entry.source@.skip(n + 1))
                    &&& value(entry.source@.skip(n + 1)) == line
                },
                (Some(file), None) => entry.source@ == file@,
                (None, _) => entry.source@.len() == 0,
            }
            &&& entry.extra_categories@.len() == 0
            &&& entry.color@.len() == 0
            &&& entry.bg_color@.len() == 0
        },
{
    if let Some(entry) = entry {
        assert(entry@ == log_entry(entry.time, record@, entry@.category));
        assert(entry@.priority == level_priority(record.level));
        assert(entry@.message == record.message@);
        assert(entry@.original_category == module_category(
            optional_text(record.module),
            entry@.category,
        ));
        assert(entry@.extra_categories.len() == 0);
        assert(texts(entry.extra_categories@).len() == entry.extra_categories@.len());
        if let Some(file) = record.file {
            if let Some(line) = record.line {
                lemma_decimal_reads_back(line as nat);
                assert(entry@.source == file@ + seq![':'] + decimal(line as nat));
                assert(entry.source@.take(file@.len() as int) =~= file@);
                assert(entry.source@.skip(file@.len() as int + 1) =~= decimal(line as nat));
            }
        }
    }
}

/// A logger is as its builder was told, and what was not told is as documented: every level, under
/// its target, with five seconds for a flush.
pub proof fn lemma_logger_is_as_told<C, F: Fn(&LogRecord) -> String>(
    builder: LogLoggerBuilder<C, F>,
    client: C,
    text: String,
    level: LevelFilter,
    f: F,
    time: Duration,
    result: LogLoggerBuilder<C, F>,
    fresh: LogLoggerBuilder<C, F>,
)
    requires
        call_ensures(LogLogger::<C, F>::builder, (), fresh),
    ensures
        fresh@.client is None,
        fresh@.app_name is None,
        fresh@.level is Trace,
        fresh@.category is Target,
        fresh@.flush_timeout == 5 * 1_000_000_000,
        call_ensures(LogLoggerBuilder::<C, F>::client, (builder, client), result) ==> result@ == (
        LogLoggerBuilderView { client: Some(client), ..builder@ }),
        call_ensures(LogLoggerBuilder::<C, F>::app_name::<String>, (builder, text), result)
            ==> result@ == (LogLoggerBuilderView { app_name: Some(text@), ..builder@ }),
        call_ensures(LogLoggerBuilder::<C, F>::max_level, (builder, level), result) ==> result@ == (
        LogLoggerBuilderView { level, ..builder@ }),
        call_ensures(LogLoggerBuilder::<C, F>::category::<String>, (builder, text), result) ==> {
            &&& result@ == (LogLoggerBuilderView { category: result@.category, ..builder@ })
            &&& result@.category matches CategorySource::Fixed(fixed)
            &&& fixed@ == text@
        },
        call_ensures(LogLoggerBuilder::<C, F>::category_fn, (builder, f), result) ==> result@ == (
        LogLoggerBuilderView { category: CategorySource::Custom(f), ..builder@ }),
        call_ensures(LogLoggerBuilder::<C, F>::flush_timeout, (builder, time), result) ==> result@
            == (LogLoggerBuilderView { flush_timeout: duration_nanos(time), ..builder@ }),
{
}

/// A logger has what its builder was told, and writes through the client that it was given, or else
/// through one that is started for it, with the documented defaults but for the name.
pub proof fn lemma_logger_writes_through_its_client<
    C,
    F,
    S: FnOnce(ClientBuilder) -> C,
>(builder: LogLoggerBuilder<C, F>, start: S, logger: LogLogger<C, F>)
    requires
        call_ensures(LogLoggerBuilder::<C, F>::build::<S>, (builder, start), logger),
    ensures
        logger@.level == builder@.level,
        logger@.category == builder@.category,
        logger@.flush_timeout == builder@.flush_timeout,
        match builder@.client {
            Some(client) => logger@.client == client,
            None => exists|client: ClientBuilder|
                {
                    &&& client@.settings.app_name == (match builder@.app_name {
                        Some(app_name) => app_name,
                        None => "ECAPPLOG-RUST"@,
                    })
                    &&& client@.settings.address == "127.0.0.1:13991"@
                    &&& client@.buffer_size == 1000
                    &&& client@.settings.flush_on_close
                    &&& #[trigger] call_ensures(start, (client,), logger@.client)
                },
        },
{
}

/// A logger says of itself what is so.
pub proof fn lemma_logger_says_what_is_so<C, F: Fn(&LogRecord) -> String>(
    logger: &LogLogger<C, F>,
    level: Level,
    enabled: bool,
    filter: LevelFilter,
    time: Duration,
    client: &C,
)
    requires
        call_ensures(LogLogger::<C, F>::enabled, (logger, level), enabled),
        call_ensures(LogLogger::<C, F>::level, (logger,), filter),
        call_ensures(LogLogger::<C, F>::flush_timeout, (logger,), time),
        call_ensures(LogLogger::<C, F>::client, (logger,), client),
    ensures
        enabled == lets_through(logger@.level, level),
        filter == logger@.level,
        duration_nanos(time) == logger@.flush_timeout,
        *client == logger@.client,
{
}

}
