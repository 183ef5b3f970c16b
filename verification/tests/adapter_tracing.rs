//! `tracing` events and spans as entries.

use ecapplog::adapter_tracing::{
    JsonVisitor, Metadata, Span, TracingLayer, TracingLayerBuilder,
};
use ecapplog::facade::{priority_for, Level, LevelFilter};
use ecapplog::ClientBuilder;
use serde_json::Value;

type CategoryFn = fn(&Metadata<'_>) -> String;
type Builder = TracingLayerBuilder<String, CategoryFn>;
type Layer = TracingLayer<String, CategoryFn>;

/// Stands in for starting a client: tells what it would be called.
fn start(builder: ClientBuilder) -> String {
    builder.build().config().app_name().to_owned()
}

fn metadata() -> Metadata<'static> {
    Metadata {
        name: "event src/http.rs:41",
        level: Level::Warn,
        target: "http",
        module: Some("server::http"),
        file: Some("src/http.rs"),
        line: Some(41),
    }
}

fn json(text: &str) -> Value {
    serde_json::from_str(text).expect("JSON")
}

#[test]
fn adapter_tracing_level_mapping_uses_the_protocol_spelling() {
    assert_eq!(priority_for(Level::Trace).as_str(), "TRACE");
    assert_eq!(priority_for(Level::Debug).as_str(), "DEBUG");
    assert_eq!(priority_for(Level::Info).as_str(), "INFORMATION");
    assert_eq!(priority_for(Level::Warn).as_str(), "WARNING");
    assert_eq!(priority_for(Level::Error).as_str(), "ERROR");
}

#[test]
fn adapter_tracing_error_levels_map_onto_priorities_the_server_treats_as_errors() {
    assert!(priority_for(Level::Error).is_error());
    assert!(priority_for(Level::Warn).is_error_or_warning());
    assert!(!priority_for(Level::Info).is_error_or_warning());
}

#[test]
fn the_visitor_separates_the_message_from_the_fields() {
    let mut visitor = JsonVisitor::new();
    visitor.record_str("message", "hello");
    visitor.record_u64("count", 7);
    assert_eq!(visitor.message(), Some("hello"));
    assert_eq!(visitor.fields().get("count"), Some(&Value::from(7u64)));
    assert!(!visitor.fields().contains_key("message"));
}

#[test]
fn every_kind_of_field_has_its_json() {
    let mut visitor = JsonVisitor::new();
    visitor.record_str("text", "a \"quoted\" text");
    visitor.record_debug("debug", "[1, 2]".to_owned());
    visitor.record_i64("negative", -5);
    visitor.record_i64("smallest", i64::MIN);
    visitor.record_u64("largest", u64::MAX);
    visitor.record_i128("wide", i128::MIN);
    visitor.record_i128("narrow", 12);
    visitor.record_u128("wider", u128::MAX);
    visitor.record_bool("flag", true);
    visitor.record_error("error", "broken".to_owned());
    visitor.record_f64("float", Some(Value::from(1.5)), "1.5".to_owned());
    visitor.record_f64("nan", None, "NaN".to_owned());
    visitor.insert("null", Value::Null);
    // A number is a field even under that name.
    visitor.record_u64("message", 3);
    assert_eq!(visitor.message(), None);
    let expected = json(
        r#"{
            "text": "a \"quoted\" text",
            "debug": "[1, 2]",
            "negative": -5,
            "smallest": -9223372036854775808,
            "largest": 18446744073709551615,
            "wide": "-170141183460469231731687303715884105728",
            "narrow": "12",
            "wider": "340282366920938463463374607431768211455",
            "flag": true,
            "error": "broken",
            "float": 1.5,
            "nan": "NaN",
            "null": null,
            "message": 3
        }"#,
    );
    assert_eq!(Value::Object(visitor.fields().clone()), expected);
    visitor.record_debug("message", "x = 1".to_owned());
    assert_eq!(visitor.message(), Some("x = 1"));
}

#[test]
fn an_event_carries_its_call_site_fields_and_spans() {
    let layer: Layer = Builder::default().build(start);
    let mut fields = JsonVisitor::new();
    fields.record_str("request_id", "abc123");
    let request = layer.on_new_span(fields).expect("kept");
    let empty = layer.on_new_span(JsonVisitor::new()).expect("kept");
    let spans = vec![
        Span { name: "handle_request".to_owned(), fields: Some(request) },
        Span { name: "empty".to_owned(), fields: Some(empty) },
        Span { name: "unknown".to_owned(), fields: None },
    ];
    let mut visitor = JsonVisitor::new();
    visitor.record_str("method", "GET");
    visitor.record_str("message", "served");
    let entry = layer.on_event(&metadata(), visitor, spans);
    assert_eq!(entry.priority.as_str(), "WARNING");
    assert_eq!(entry.category, "http");
    assert_eq!(entry.original_category, "server::http");
    assert_eq!(entry.message, "served");
    // Compact, with the keys in order.
    assert_eq!(
        entry.source,
        concat_source(&[
            r#"{"at":"src/http.rs:41","fields":{"method":"GET"},"#,
            r#""spans":[{"fields":{"request_id":"abc123"},"name":"handle_request"},"#,
            r#"{"name":"empty"},{"name":"unknown"}]}"#,
        ])
    );
}

fn concat_source(parts: &[&str]) -> String {
    parts.concat()
}

#[test]
fn an_event_with_nothing_to_add_has_no_source() {
    let layer: Layer = Builder::default()
        .include_call_site(false)
        .include_spans(false)
        .build(start);
    assert!(layer.on_new_span(JsonVisitor::new()).is_none());
    let spans = vec![Span { name: "left out".to_owned(), fields: None }];
    let entry = layer.on_event(&metadata(), JsonVisitor::new(), spans);
    assert_eq!(entry.source, "");
    assert_eq!(entry.message, "");
}

#[test]
fn a_user_field_does_not_collide_with_the_call_site() {
    let layer: Layer = Builder::default().build(start);
    let mut visitor = JsonVisitor::new();
    visitor.record_str("at", "noon");
    visitor.record_str("spans", "none");
    let entry = layer.on_event(&metadata(), visitor, Vec::new());
    let source = json(&entry.source);
    assert_eq!(source["at"], "src/http.rs:41");
    assert_eq!(source["fields"]["at"], "noon");
    assert_eq!(source["fields"]["spans"], "none");
    assert!(source.get("spans").is_none());
}

#[test]
fn the_source_object_can_be_had_by_itself() {
    let layer: Layer = Builder::default().build(start);
    let fields = serde_json::Map::new();
    let source = layer.source(&Metadata { line: None, ..metadata() }, fields, Vec::new());
    assert_eq!(Value::Object(source), json(r#"{"at": "src/http.rs"}"#));
}

#[test]
fn a_span_keeps_its_message_and_what_is_recorded_later() {
    let layer: Layer = Builder::default().build(start);
    let mut visitor = JsonVisitor::new();
    visitor.record_str("message", "opening");
    visitor.record_u64("id", 1);
    let kept = layer.on_new_span(visitor).expect("kept");

    let mut visitor = kept.clone().into_visitor();
    visitor.record_u64("id", 2);
    visitor.record_bool("done", true);
    // A later message is dropped.
    visitor.record_str("message", "closing");
    let kept = layer.on_record(visitor);

    let spans = vec![Span { name: "s".to_owned(), fields: Some(kept) }];
    let entry = layer.on_event(&metadata(), JsonVisitor::new(), spans);
    assert_eq!(
        json(&entry.source)["spans"],
        json(r#"[{"name": "s", "fields": {"message": "opening", "id": 2, "done": true}}]"#)
    );
}

#[test]
fn categories_can_be_fixed_or_computed() {
    let layer: Layer = Builder::default().category("one").build(start);
    let entry = layer.on_event(&metadata(), JsonVisitor::new(), Vec::new());
    assert_eq!(entry.category, "one");
    let shout: CategoryFn = |metadata| metadata.target.to_uppercase();
    let layer: Layer = Builder::default().category_fn(shout).build(start);
    let entry = layer.on_event(&metadata(), JsonVisitor::new(), Vec::new());
    assert_eq!(entry.category, "HTTP");
    let by_name: CategoryFn = |metadata| metadata.name.to_owned();
    let layer: Layer = Builder::default().category_fn(by_name).build(start);
    let entry = layer.on_event(&metadata(), JsonVisitor::new(), Vec::new());
    assert_eq!(entry.category, "event src/http.rs:41");
}

#[test]
fn the_level_filter_is_also_the_hint() {
    let layer: Layer = Layer::builder().max_level(LevelFilter::Info).build(start);
    assert_eq!(layer.max_level_hint(), Some(LevelFilter::Info));
    assert!(layer.enabled(Level::Error));
    assert!(layer.enabled(Level::Info));
    assert!(!layer.enabled(Level::Debug));
}

#[test]
fn a_layer_creates_a_client_unless_it_has_one() {
    let layer: Layer = Layer::builder()
        .client("shared".to_owned())
        .app_name("ignored")
        .build(start);
    assert_eq!(layer.client(), "shared");
    let layer: Layer = Layer::builder().app_name("my-service").build(start);
    assert_eq!(layer.client(), "my-service");
}
