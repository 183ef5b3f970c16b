//! What becomes of a record that came through the `log` facade, over the `tracing-log` bridge.
//!
//! The bridge hands over an event whose metadata names the target `log` and nothing else, with the
//! record's own target, module path, file and line carried as fields.

use std::fmt::Debug;
use std::sync::{Arc, Mutex};

use ecapplog::adapter_tracing::{JsonVisitor, Metadata, TracingLayer, TracingLayerBuilder};
use ecapplog::facade::Level;
use ecapplog::{ClientBuilder, Record};
use serde_json::Value;
use tracing_core::field::{Field, Visit};

type CategoryFn = fn(&Metadata<'_>) -> String;
type Layer = TracingLayer<(), CategoryFn>;

fn start(_: ClientBuilder) {}

fn layer() -> Layer {
    TracingLayerBuilder::default().build(start)
}

/// The event that the bridge makes of a record.
fn bridged(
    layer: &Layer,
    level: Level,
    target: &str,
    message: &str,
) -> Record {
    let metadata = Metadata {
        name: "log event",
        level,
        target: "log",
        module: None,
        file: None,
        line: None,
    };
    let mut visitor = JsonVisitor::new();
    visitor.record_debug("message", message.to_owned());
    visitor.record_str("log.target", target);
    visitor.record_str("log.module_path", "tracing_log_bridge");
    visitor.record_str("log.file", "tests/tracing_log_bridge.rs");
    visitor.record_u64("log.line", 122);
    layer.on_event(&metadata, visitor, Vec::new())
}

fn source(record: &Record) -> Value {
    serde_json::from_str(&record.source).expect("the source is JSON")
}

/// A record from the facade is filed under its own target, not under `log`.
#[test]
fn a_facade_record_is_filed_under_its_own_target() {
    let record = bridged(&layer(), Level::Debug, "some_crate::inner", "through the facade");
    assert_eq!(record.category, "some_crate::inner");
    assert_eq!(record.message, "through the facade");
    assert_eq!(record.priority.as_str(), "DEBUG");
    assert_eq!(record.original_category, "tracing_log_bridge");

    let at = source(&record)["at"].as_str().expect("a call site").to_owned();
    assert!(
        at.contains("tracing_log_bridge.rs:"),
        "{at} is not the call site the macro recorded"
    );
}

/// The four fields the bridge carries its metadata in do not also reach the details pane.
#[test]
fn the_bridges_own_fields_do_not_reach_the_details_pane() {
    let record = bridged(&layer(), Level::Info, "some_crate", "counted");
    let source = source(&record);
    assert!(
        source.get("fields").is_none(),
        "{source} carries fields nobody wrote"
    );
}

/// A category function sees the recovered target, which is the whole point of recovering it.
#[test]
fn a_category_function_sees_the_recovered_target() {
    let by_crate: CategoryFn = |metadata| {
        metadata
            .target
            .split_once("::")
            .map_or(metadata.target, |(crate_name, _)| crate_name)
            .to_owned()
    };
    let layer: Layer = TracingLayerBuilder::default()
        .category_fn(by_crate)
        .build(start);
    let record = bridged(&layer, Level::Warn, "some_crate::inner", "careful");
    assert_eq!(record.category, "some_crate");
}

/// An event `tracing` emitted is untouched by any of this.
#[test]
fn a_tracing_event_is_unaffected() {
    let metadata = Metadata {
        name: "event",
        level: Level::Info,
        target: "tracing_log_bridge",
        module: Some("tracing_log_bridge"),
        file: Some("tests/tracing_log_bridge.rs"),
        line: Some(160),
    };
    let mut visitor = JsonVisitor::new();
    visitor.record_i64("port", 8080);
    visitor.record_debug("message", "listening".to_owned());
    let record = layer().on_event(&metadata, visitor, Vec::new());

    assert_eq!(record.category, "tracing_log_bridge");
    assert_eq!(record.message, "listening");
    assert_eq!(source(&record)["fields"]["port"], 8080);
}

/// An event under the target `log` that carries no target of its own is a plain event.
#[test]
fn an_event_of_a_crate_called_log_keeps_its_fields() {
    let metadata = Metadata {
        name: "event",
        level: Level::Info,
        target: "log",
        module: Some("log"),
        file: None,
        line: None,
    };
    let mut visitor = JsonVisitor::new();
    visitor.record_u64("log.target", 1);
    visitor.record_str("log.file", "mine");
    let record = layer().on_event(&metadata, visitor, Vec::new());
    assert_eq!(record.category, "log");
    assert_eq!(record.original_category, "");
    assert_eq!(source(&record)["fields"]["log.target"], 1);
    assert_eq!(source(&record)["fields"]["log.file"], "mine");
}

/// An event that says where it was made is `tracing`'s own, whatever its fields are called.
#[test]
fn an_event_with_a_call_site_of_its_own_is_not_taken_for_a_bridged_one() {
    let plain = Metadata {
        name: "event",
        level: Level::Info,
        target: "log",
        module: None,
        file: None,
        line: None,
    };
    for metadata in [
        Metadata { module: Some("mine"), ..plain },
        Metadata { file: Some("src/mine.rs"), ..plain },
        Metadata { line: Some(3), ..plain },
    ] {
        let mut visitor = JsonVisitor::new();
        visitor.record_str("log.target", "a text");
        let record = layer().on_event(&metadata, visitor, Vec::new());
        assert_eq!(record.category, "log");
        assert_eq!(record.original_category, metadata.module.unwrap_or(""));
        assert_eq!(source(&record)["fields"]["log.target"], "a text");
    }
}

/// Hands the fields of a real event to the visitor.
struct Fields(JsonVisitor);

impl Visit for Fields {
    fn record_str(&mut self, field: &Field, value: &str) {
        self.0.record_str(field.name(), value);
    }

    fn record_u64(&mut self, field: &Field, value: u64) {
        self.0.record_u64(field.name(), value);
    }

    fn record_debug(&mut self, field: &Field, value: &dyn Debug) {
        self.0.record_debug(field.name(), format!("{value:?}"));
    }
}

/// A subscriber that runs every event through a layer and keeps the entries.
struct Subscriber {
    layer: Layer,
    records: Arc<Mutex<Vec<Record>>>,
}

impl tracing_core::Subscriber for Subscriber {
    fn enabled(&self, _: &tracing_core::Metadata<'_>) -> bool {
        true
    }

    fn new_span(&self, _: &tracing_core::span::Attributes<'_>) -> tracing_core::span::Id {
        tracing_core::span::Id::from_u64(1)
    }

    fn record(&self, _: &tracing_core::span::Id, _: &tracing_core::span::Record<'_>) {}

    fn record_follows_from(&self, _: &tracing_core::span::Id, _: &tracing_core::span::Id) {}

    fn event(&self, event: &tracing_core::Event<'_>) {
        let metadata = event.metadata();
        // The debug rendering shows the module path of an event that has one.
        assert!(!format!("{metadata:?}").contains("module_path:"));
        let mut fields = Fields(JsonVisitor::new());
        event.record(&mut fields);
        let record = self.layer.on_event(
            &Metadata {
                name: metadata.name(),
                level: match *metadata.level() {
                    tracing_core::Level::ERROR => Level::Error,
                    tracing_core::Level::WARN => Level::Warn,
                    tracing_core::Level::INFO => Level::Info,
                    tracing_core::Level::DEBUG => Level::Debug,
                    tracing_core::Level::TRACE => Level::Trace,
                },
                target: metadata.target(),
                module: None,
                file: metadata.file(),
                line: metadata.line(),
            },
            fields.0,
            Vec::new(),
        );
        self.records.lock().expect("the lock").push(record);
    }

    fn enter(&self, _: &tracing_core::span::Id) {}

    fn exit(&self, _: &tracing_core::span::Id) {}
}

/// The same through the real bridge: these are the fields that it carries its metadata in.
#[test]
fn the_real_bridge_is_recognised() {
    let records = Arc::new(Mutex::new(Vec::new()));
    let subscriber = Subscriber { layer: layer(), records: Arc::clone(&records) };
    tracing_core::dispatcher::with_default(&tracing_core::Dispatch::new(subscriber), || {
        let record = log::Record::builder()
            .level(log::Level::Error)
            .target("some_crate::inner")
            .file(Some("src/inner.rs"))
            .line(Some(7))
            .build();
        tracing_log::format_trace(&record).expect("dispatched");
    });
    let records = records.lock().expect("the lock");
    assert_eq!(records.len(), 1);
    assert_eq!(records[0].category, "some_crate::inner");
    assert_eq!(records[0].priority.as_str(), "ERROR");
    assert_eq!(records[0].source, r#"{"at":"src/inner.rs:7"}"#);
}
