//! The `log` facade's records as entries.

use std::time::Duration;

use ecapplog::adapter_log::{LogLogger, LogLoggerBuilder, LogRecord};
use ecapplog::facade::{priority_for, Level, LevelFilter};
use ecapplog::ClientBuilder;

type CategoryFn = fn(&LogRecord<'_>) -> String;
type Builder = LogLoggerBuilder<String, CategoryFn>;
type Logger = LogLogger<String, CategoryFn>;

/// Stands in for starting a client: tells what it would be called.
fn start(builder: ClientBuilder) -> String {
    builder.build().config().app_name().to_owned()
}

fn record() -> LogRecord<'static> {
    LogRecord {
        level: Level::Info,
        target: "some_crate::inner",
        message: "listening on 8080",
        module: Some("some_crate::inner"),
        file: Some("src/main.rs"),
        line: Some(41),
    }
}

#[test]
fn adapter_log_level_mapping_uses_the_protocol_spelling() {
    assert_eq!(priority_for(Level::Trace).as_str(), "TRACE");
    assert_eq!(priority_for(Level::Debug).as_str(), "DEBUG");
    assert_eq!(priority_for(Level::Info).as_str(), "INFORMATION");
    assert_eq!(priority_for(Level::Warn).as_str(), "WARNING");
    assert_eq!(priority_for(Level::Error).as_str(), "ERROR");
}

#[test]
fn adapter_log_error_levels_map_onto_priorities_the_server_treats_as_errors() {
    // Otherwise these would not reach the GUI's synthetic ERROR tab.
    assert!(priority_for(Level::Error).is_error());
    assert!(priority_for(Level::Warn).is_error_or_warning());
    assert!(!priority_for(Level::Info).is_error_or_warning());
}

#[test]
fn a_record_becomes_an_entry_under_its_target() {
    let logger: Logger = Builder::default().build(start);
    let entry = logger.log(&record()).expect("forwarded");
    assert_eq!(entry.priority.as_str(), "INFORMATION");
    assert_eq!(entry.category, "some_crate::inner");
    assert_eq!(entry.message, "listening on 8080");
    assert_eq!(entry.source, "src/main.rs:41");
    // The module path is the category already.
    assert_eq!(entry.original_category, "");
    assert!(entry.extra_categories.is_empty());
}

#[test]
fn the_module_path_is_kept_beside_another_category() {
    let logger: Logger = Builder::default().category("myapp").build(start);
    let entry = logger.log(&record()).expect("forwarded");
    assert_eq!(entry.category, "myapp");
    assert_eq!(entry.original_category, "some_crate::inner");
}

#[test]
fn a_call_site_may_be_partly_known() {
    let logger: Logger = Builder::default().build(start);
    let entry = logger.log(&LogRecord { line: None, ..record() }).expect("forwarded");
    assert_eq!(entry.source, "src/main.rs");
    let entry = logger
        .log(&LogRecord { file: None, module: None, ..record() })
        .expect("forwarded");
    assert_eq!(entry.source, "");
    assert_eq!(entry.original_category, "");
}

#[test]
fn a_category_function_decides_per_record() {
    let by_crate: CategoryFn =
        |record| record.target.split("::").next().unwrap_or(record.target).to_owned();
    let logger: Logger = Builder::default().category_fn(by_crate).build(start);
    let entry = logger.log(&record()).expect("forwarded");
    assert_eq!(entry.category, "some_crate");
    assert_eq!(entry.original_category, "some_crate::inner");
}

#[test]
fn more_verbose_records_are_not_forwarded() {
    let levels = [Level::Error, Level::Warn, Level::Info, Level::Debug, Level::Trace];
    let filters = [
        LevelFilter::Off,
        LevelFilter::Error,
        LevelFilter::Warn,
        LevelFilter::Info,
        LevelFilter::Debug,
        LevelFilter::Trace,
    ];
    for (allowed, filter) in filters.iter().enumerate() {
        let logger: Logger = Builder::default().max_level(*filter).build(start);
        assert_eq!(logger.level(), *filter);
        for (i, level) in levels.iter().enumerate() {
            assert_eq!(logger.enabled(*level), i < allowed);
            let forwarded = logger.log(&LogRecord { level: *level, ..record() }).is_some();
            assert_eq!(forwarded, i < allowed);
        }
    }
}

#[test]
fn a_supplied_client_is_used_as_it_is() {
    let logger: Logger = Logger::builder()
        .client("shared".to_owned())
        .app_name("ignored")
        .build(start);
    assert_eq!(logger.client(), "shared");
    let logger: Logger = Logger::builder().app_name("my-service").build(start);
    assert_eq!(logger.client(), "my-service");
    let logger: Logger = Logger::builder().build(start);
    assert_eq!(logger.client(), "ECAPPLOG-RUST");
}

#[test]
fn a_flush_takes_up_to_five_seconds_unless_told_otherwise() {
    let logger: Logger = Logger::builder().build(start);
    assert_eq!(logger.flush_timeout(), Duration::from_secs(5));
    let logger: Logger = Logger::builder()
        .flush_timeout(Duration::from_millis(20))
        .build(start);
    assert_eq!(logger.flush_timeout(), Duration::from_millis(20));
}
