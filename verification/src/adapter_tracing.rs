//! What becomes of `tracing` events and spans.
//!
//! The protocol has no notion of structured fields: an entry carries one flat message string. What
//! makes `tracing` map onto it well anyway is the `source` field, which the GUI pretty-prints when
//! it happens to contain JSON. So the event's message becomes the message, and its fields plus the
//! enclosing spans are serialised as JSON into `source`, where the details pane renders them
//! properly instead of being flattened into the message text.
//!
//! A record of the `log` facade that arrives through the `tracing-log` bridge is an event under the
//! target `log` and without a call site, whose own target, module path, file and line are carried as
//! fields. Those are
//! recovered: the entry is what it would be had the event been made in their place.

use std::time::SystemTime;

use vstd::prelude::*;

use crate::client::ClientBuilder;
use crate::facade::{
    adapter_client, call_site, call_site_text, is_priority_of, lets_through, level_priority,
    module_category, optional_string, optional_text, priority_for, supplied_or_started,
    with_module, CategorySource, Level, LevelFilter,
};
use crate::json::{
    array_value, bool_value, copy_object, has_no_members, insert_member, json_object, json_text,
    json_value, json_values, member, member_of, new_object, no_members, object_value,
    remove_member, render, signed_value, text_of, text_value, unsigned_of, unsigned_value,
    value_text, value_unsigned, Json,
};
use crate::record::{plain_entry, Record, RecordView};
use crate::text::{
    decimal, lemma_decimal_reads_back, push_decimal, same_text, texts, value, IntoText,
};

verus! {

/// What is known of an event before its fields.
pub struct Metadata<'a> {
    /// Its name.
    pub name: &'a str,
    /// Its level.
    pub level: Level,
    /// Its target, which is the module path unless the call site overrode it.
    pub target: &'a str,
    /// The path of the module that made it.
    pub module: Option<&'a str>,
    /// The file of the call site.
    pub file: Option<&'a str>,
    /// The line of the call site.
    pub line: Option<u32>,
}

/// What [`Metadata`] says, with its strings as sequences of characters.
#[verifier::ext_equal]
pub struct MetadataView {
    pub name: Seq<char>,
    pub level: Level,
    pub target: Seq<char>,
    pub module: Option<Seq<char>>,
    pub file: Option<Seq<char>>,
    pub line: Option<u32>,
}

impl<'a> View for Metadata<'a> {
    type V = MetadataView;

    open spec fn view(&self) -> MetadataView {
        MetadataView {
            name: self.name@,
            level: self.level,
            target: self.target@,
            module: optional_text(self.module),
            file: optional_text(self.file),
            line: self.line,
        }
    }
}

/// Collects fields into a JSON object, pulling out the `message` field separately.
pub struct JsonVisitor {
    fields: serde_json::Map<String, serde_json::Value>,
    message: Option<String>,
}

/// What a [`JsonVisitor`] has collected.
#[verifier::ext_equal]
pub struct VisitorView {
    /// The fields by name.
    pub fields: Map<Seq<char>, Json>,
    /// The message, once there was one.
    pub message: Option<Seq<char>>,
}

impl VisitorView {
    /// What is collected after one more field.
    pub open spec fn with_field(self, name: Seq<char>, value: Json) -> VisitorView {
        VisitorView { fields: self.fields.insert(name, value), ..self }
    }

    /// What is collected after one more text: a field like any other, unless it is the message.
    pub open spec fn with_text(self, name: Seq<char>, text: Seq<char>) -> VisitorView {
        if name == "message"@ {
            VisitorView { message: Some(text), ..self }
        } else {
            self.with_field(name, Json::Text(text))
        }
    }
}

impl View for JsonVisitor {
    type V = VisitorView;

    closed spec fn view(&self) -> VisitorView {
        VisitorView {
            fields: json_object(self.fields),
            message: optional_string(self.message),
        }
    }
}

/// The decimal rendering of an integer, with its sign.
pub open spec fn signed_decimal(n: int) -> Seq<char> {
    if n < 0 {
        seq!['-'] + decimal((-n) as nat)
    } else {
        decimal(n as nat)
    }
}

impl JsonVisitor {
    /// A visitor that has seen nothing.
    pub fn new() -> (visitor: Self)
        ensures
            visitor@ == (VisitorView { fields: no_members(), message: None }),
    {
        JsonVisitor { fields: new_object(), message: None }
    }

    /// The collected fields, without the message.
    pub fn fields(&self) -> (fields: &serde_json::Map<String, serde_json::Value>)
        ensures
            json_object(*fields) == self@.fields,
    {
        &self.fields
    }

    /// The message, if there was one.
    pub fn message(&self) -> (message: Option<&str>)
        ensures
            optional_text(message) == self@.message,
    {
        match &self.message {
            Some(message) => Some(message.as_str()),
            None => None,
        }
    }

    /// Adds a field whatever its name is.
    pub fn insert(&mut self, field: &str, value: serde_json::Value)
        ensures
            final(self)@ == old(self)@.with_field(field@, json_value(value)),
    {
        insert_member(&mut self.fields, field.to_owned(), value);
    }

    /// Adds a text, as the message if that is the field's name.
    pub fn record_str(&mut self, field: &str, value: &str)
        ensures
            final(self)@ == old(self)@.with_text(field@, value@),
    {
        if same_text(field, "message") {
            self.message = Some(value.to_owned());
        } else {
            self.insert(field, text_value(value.to_owned()));
        }
    }

    /// Adds a value by its debug rendering, as the message if that is the field's name.
    ///
    /// The message of `info!("x = {x}")` arrives here, rendered as the formatted text without
    /// quotes -- which is exactly what should become the message.
    pub fn record_debug(&mut self, field: &str, rendered: String)
        ensures
            final(self)@ == old(self)@.with_text(field@, rendered@),
    {
        if same_text(field, "message") {
            self.message = Some(rendered);
        } else {
            self.insert(field, text_value(rendered));
        }
    }

    /// Adds a signed integer.
    pub fn record_i64(&mut self, field: &str, value: i64)
        ensures
            final(self)@ == old(self)@.with_field(field@, Json::Number(value as int)),
    {
        self.insert(field, signed_value(value));
    }

    /// Adds an unsigned integer.
    pub fn record_u64(&mut self, field: &str, value: u64)
        ensures
            final(self)@ == old(self)@.with_field(field@, Json::Number(value as int)),
    {
        self.insert(field, unsigned_value(value));
    }

    /// Adds a wide signed integer.
    ///
    /// JSON numbers cannot hold the full 128-bit range, so these become strings rather than losing
    /// precision silently.
    pub fn record_i128(&mut self, field: &str, value: i128)
        ensures
            final(self)@ == old(self)@.with_field(
                field@,
                Json::Text(signed_decimal(value as int)),
            ),
    {
        let mut text = String::new();
        if value < 0 {
            proof {
                reveal_strlit("-");
                assert("-"@ =~= seq!['-']);
            }
            text.append("-");
            let magnitude: u128 = (-(value + 1)) as u128 + 1;
            push_decimal(&mut text, magnitude);
        } else {
            push_decimal(&mut text, value as u128);
        }
        assert(text@ =~= signed_decimal(value as int));
        self.insert(field, text_value(text));
    }

    /// Adds a wide unsigned integer, as a string for the same reason.
    pub fn record_u128(&mut self, field: &str, value: u128)
        ensures
            final(self)@ == old(self)@.with_field(field@, Json::Text(decimal(value as nat))),
    {
        let mut text = String::new();
        push_decimal(&mut text, value);
        assert(text@ =~= decimal(value as nat));
        self.insert(field, text_value(text));
    }

    /// Adds a truth value.
    pub fn record_bool(&mut self, field: &str, value: bool)
        ensures
            final(self)@ == old(self)@.with_field(field@, Json::Bool(value)),
    {
        self.insert(field, bool_value(value));
    }

    /// Adds a floating-point number: `number` is its JSON, and `shown` the text it shows.
    ///
    /// NaN and the infinities have no JSON representation, so these become strings.
    pub fn record_f64(&mut self, field: &str, number: Option<serde_json::Value>, shown: String)
        ensures
            final(self)@ == old(self)@.with_field(
                field@,
                match number {
                    Some(number) => json_value(number),
                    None => Json::Text(shown@),
                },
            ),
    {
        match number {
            Some(number) => self.insert(field, number),
            None => self.insert(field, text_value(shown)),
        }
    }

    /// Adds an error by the text it shows, as a field whatever its name is.
    pub fn record_error(&mut self, field: &str, shown: String)
        ensures
            final(self)@ == old(self)@.with_field(field@, Json::Text(shown@)),
    {
        self.insert(field, text_value(shown));
    }
}

/// Fields recorded on a span, kept until an event needs them.
pub struct SpanFields(serde_json::Map<String, serde_json::Value>);

impl View for SpanFields {
    type V = Map<Seq<char>, Json>;

    closed spec fn view(&self) -> Map<Seq<char>, Json> {
        json_object(self.0)
    }
}

impl Clone for SpanFields {
    fn clone(&self) -> (copy: Self)
        ensures
            copy@ == self@,
    {
        SpanFields(copy_object(&self.0))
    }
}

impl SpanFields {
    /// A visitor that adds to these fields.
    pub fn into_visitor(self) -> (visitor: JsonVisitor)
        ensures
            visitor@ == (VisitorView { fields: self@, message: None }),
    {
        JsonVisitor { fields: self.0, message: None }
    }
}

/// A span around an event.
pub struct Span {
    /// Its name.
    pub name: String,
    /// What was kept of its fields, if anything was.
    pub fields: Option<SpanFields>,
}

/// What a span that is open looks like in an entry: its name, and its fields if it has any.
pub open spec fn span_object(span: Span) -> Map<Seq<char>, Json> {
    let named = no_members().insert("name"@, Json::Text(span.name@));
    match span.fields {
        Some(fields) => if fields@ == no_members() {
            named
        } else {
            named.insert("fields"@, Json::Object(fields@))
        },
        None => named,
    }
}

/// What the spans around an event look like in an entry, in the order given.
pub open spec fn span_objects(spans: Seq<Span>) -> Seq<Json> {
    spans.map_values(|span: Span| Json::Object(span_object(span)))
}

/// The text of a field, if it has one.
pub open spec fn field_text(fields: Map<Seq<char>, Json>, name: Seq<char>) -> Option<Seq<char>> {
    match member_of(fields, name) {
        Some(value) => text_of(value),
        None => None,
    }
}

/// The line number in a field, if it has one.
pub open spec fn field_line(fields: Map<Seq<char>, Json>, name: Seq<char>) -> Option<u32> {
    match member_of(fields, name) {
        Some(value) => match unsigned_of(value) {
            Some(n) => if n <= u32::MAX {
                Some(n as u32)
            } else {
                None
            },
            None => None,
        },
        None => None,
    }
}

/// The target of every event that comes from the bridge.
pub const FACADE_TARGET: &'static str = "log";

/// The field with a bridged record's own target.
pub const FACADE_RECORD_TARGET: &'static str = "log.target";

/// The field with a bridged record's own module path.
pub const FACADE_RECORD_MODULE: &'static str = "log.module_path";

/// The field with the file of a bridged record's call site.
pub const FACADE_RECORD_FILE: &'static str = "log.file";

/// The field with the line of a bridged record's call site.
pub const FACADE_RECORD_LINE: &'static str = "log.line";

/// Whether an event is a record of the `log` facade that came over the bridge: its metadata names
/// the bridge's target and nothing else, and its own target is among its fields.
pub open spec fn bridged(metadata: MetadataView, fields: Map<Seq<char>, Json>) -> bool {
    &&& metadata.target == FACADE_TARGET@
    &&& metadata.module is None
    &&& metadata.file is None
    &&& metadata.line is None
    &&& field_text(fields, FACADE_RECORD_TARGET@) is Some
}

/// Where an event really came from.
pub open spec fn recovered(metadata: MetadataView, fields: Map<Seq<char>, Json>) -> MetadataView {
    if bridged(metadata, fields) {
        MetadataView {
            name: metadata.name,
            level: metadata.level,
            target: field_text(fields, FACADE_RECORD_TARGET@)->0,
            module: field_text(fields, FACADE_RECORD_MODULE@),
            file: field_text(fields, FACADE_RECORD_FILE@),
            line: field_line(fields, FACADE_RECORD_LINE@),
        }
    } else {
        metadata
    }
}

/// The fields that an event really has: without those that the bridge carries its metadata in.
pub open spec fn own_fields(metadata: MetadataView, fields: Map<Seq<char>, Json>) -> Map<
    Seq<char>,
    Json,
> {
    if bridged(metadata, fields) {
        fields.remove(FACADE_RECORD_TARGET@).remove(FACADE_RECORD_MODULE@).remove(
            FACADE_RECORD_FILE@,
        ).remove(FACADE_RECORD_LINE@)
    } else {
        fields
    }
}

/// What an event's `source` says: the call site, the fields and the enclosing spans, each only if
/// there is anything to say and it is wanted.
///
/// Everything structured is nested under its own key so that a user field can never collide with
/// the layer's own metadata.
pub open spec fn event_source(
    metadata: MetadataView,
    fields: Map<Seq<char>, Json>,
    spans: Seq<Json>,
    include_call_site: bool,
    include_spans: bool,
) -> Map<Seq<char>, Json> {
    let at = match metadata.file {
        Some(file) => if include_call_site {
            no_members().insert("at"@, Json::Text(call_site_text(file, metadata.line)))
        } else {
            no_members()
        },
        None => no_members(),
    };
    let with_fields = if fields == no_members() {
        at
    } else {
        at.insert("fields"@, Json::Object(fields))
    };
    if include_spans && spans.len() > 0 {
        with_fields.insert("spans"@, Json::Array(spans))
    } else {
        with_fields
    }
}

/// The entry for an event under a category, given what its `source` is to say.
pub open spec fn event_entry(
    time: SystemTime,
    metadata: MetadataView,
    message: Option<Seq<char>>,
    source: Map<Seq<char>, Json>,
    category: Seq<char>,
) -> RecordView {
    RecordView {
        source: if source == no_members() {
            seq![]
        } else {
            json_text(Json::Object(source))
        },
        original_category: module_category(metadata.module, category),
        ..plain_entry(
            time,
            level_priority(metadata.level),
            category,
            match message {
                Some(message) => message,
                None => seq![],
            },
        )
    }
}

/// Takes a field out, and returns its text if it has one.
fn take_text(
    fields: &mut serde_json::Map<String, serde_json::Value>,
    name: &str,
) -> (text: Option<String>)
    ensures
        json_object(*final(fields)) == json_object(*old(fields)).remove(name@),
        optional_string(text) == field_text(json_object(*old(fields)), name@),
{
    match remove_member(fields, name) {
        Some(value) => match value_text(&value) {
            Some(text) => Some(text.to_owned()),
            None => None,
        },
        None => None,
    }
}

/// Takes a field out, and returns the line number in it if it has one.
fn take_line(
    fields: &mut serde_json::Map<String, serde_json::Value>,
    name: &str,
) -> (line: Option<u32>)
    ensures
        json_object(*final(fields)) == json_object(*old(fields)).remove(name@),
        line == field_line(json_object(*old(fields)), name@),
{
    match remove_member(fields, name) {
        Some(value) => match value_unsigned(&value) {
            Some(n) => if n <= u32::MAX as u64 {
                Some(n as u32)
            } else {
                None
            },
            None => None,
        },
        None => None,
    }
}

/// The bridge's fields are four different ones.
proof fn lemma_bridge_fields_differ()
    ensures
        FACADE_RECORD_TARGET@ != FACADE_RECORD_MODULE@,
        FACADE_RECORD_TARGET@ != FACADE_RECORD_FILE@,
        FACADE_RECORD_TARGET@ != FACADE_RECORD_LINE@,
        FACADE_RECORD_MODULE@ != FACADE_RECORD_FILE@,
        FACADE_RECORD_MODULE@ != FACADE_RECORD_LINE@,
        FACADE_RECORD_FILE@ != FACADE_RECORD_LINE@,
{
    reveal_strlit("log.target");
    reveal_strlit("log.module_path");
    reveal_strlit("log.file");
    reveal_strlit("log.line");
    assert(FACADE_RECORD_TARGET@.len() == 10);
    assert(FACADE_RECORD_MODULE@.len() == 15);
    assert(FACADE_RECORD_FILE@.len() == 8);
    assert(FACADE_RECORD_LINE@.len() == 8);
    assert(FACADE_RECORD_FILE@[4] == 'f');
    assert(FACADE_RECORD_LINE@[4] == 'l');
}

/// Borrows an optional string.
fn borrowed(text: &Option<String>) -> (result: Option<&str>)
    ensures
        optional_text(result) == optional_string(*text),
{
    match text {
        Some(text) => Some(text.as_str()),
        None => None,
    }
}

/// Whether an event is a record of the `log` facade that came over the bridge.
fn is_bridged(
    metadata: &Metadata,
    fields: &serde_json::Map<String, serde_json::Value>,
) -> (result: bool)
    ensures
        result == bridged(metadata@, json_object(*fields)),
{
    if metadata.module.is_some() || metadata.file.is_some() || metadata.line.is_some() {
        return false;
    }
    if !same_text(metadata.target, FACADE_TARGET) {
        return false;
    }
    match member(fields, FACADE_RECORD_TARGET) {
        Some(value) => value_text(value).is_some(),
        None => false,
    }
}

/// The spans around an event as JSON.
fn span_array(spans: Vec<Span>) -> (values: Vec<serde_json::Value>)
    ensures
        json_values(values@) == span_objects(spans@),
{
    let ghost all = spans@;
    let mut values: Vec<serde_json::Value> = Vec::new();
    assert(json_values(values@) =~= span_objects(all.take(0)));
    for span in it: spans
        invariant
            it.seq() == all,
            json_values(values@) == span_objects(all.take(it.index() as int)),
    {
        let ghost before = json_values(values@);
        let ghost expected = Json::Object(span_object(span));
        let mut object = new_object();
        insert_member(&mut object, "name".to_owned(), text_value(span.name));
        if let Some(fields) = span.fields {
            if !has_no_members(&fields.0) {
                insert_member(&mut object, "fields".to_owned(), object_value(fields.0));
            }
        }
        let value = object_value(object);
        assert(json_value(value) == expected);
        values.push(value);
        proof {
            assert(json_values(values@) =~= before.push(expected));
            assert(span_objects(all.take(it.index() + 1)) =~= span_objects(
                all.take(it.index() as int),
            ).push(expected));
        }
    }
    assert(all.take(all.len() as int) =~= all);
    values
}

/// Routes `tracing` events to ECAppLog, through a client handle of type `C`.
pub struct TracingLayer<C, F> {
    client: C,
    level: LevelFilter,
    category: CategorySource<F>,
    include_spans: bool,
    include_call_site: bool,
}

/// Builds a [`TracingLayer`].
pub struct TracingLayerBuilder<C, F> {
    client: Option<C>,
    app_name: Option<String>,
    level: LevelFilter,
    category: CategorySource<F>,
    include_spans: bool,
    include_call_site: bool,
}

/// How a [`TracingLayer`] is configured.
pub struct TracingLayerView<C, F> {
    /// The client to write through.
    pub client: C,
    /// The most verbose level to forward.
    pub level: LevelFilter,
    /// How to choose a category.
    pub category: CategorySource<F>,
    /// Whether entries show the enclosing spans.
    pub include_spans: bool,
    /// Whether entries show the call site.
    pub include_call_site: bool,
}

/// What a [`TracingLayerBuilder`] was told.
pub struct TracingLayerBuilderView<C, F> {
    /// The client to write through, if one was supplied.
    pub client: Option<C>,
    /// The name for the client to create, if one was given.
    pub app_name: Option<Seq<char>>,
    /// The most verbose level to forward.
    pub level: LevelFilter,
    /// How to choose a category.
    pub category: CategorySource<F>,
    /// Whether entries show the enclosing spans.
    pub include_spans: bool,
    /// Whether entries show the call site.
    pub include_call_site: bool,
}

impl<C, F> View for TracingLayerBuilder<C, F> {
    type V = TracingLayerBuilderView<C, F>;

    closed spec fn view(&self) -> TracingLayerBuilderView<C, F> {
        TracingLayerBuilderView {
            client: self.client,
            app_name: optional_string(self.app_name),
            level: self.level,
            category: self.category,
            include_spans: self.include_spans,
            include_call_site: self.include_call_site,
        }
    }
}

impl<C, F> View for TracingLayer<C, F> {
    type V = TracingLayerView<C, F>;

    closed spec fn view(&self) -> TracingLayerView<C, F> {
        TracingLayerView {
            client: self.client,
            level: self.level,
            category: self.category,
            include_spans: self.include_spans,
            include_call_site: self.include_call_site,
        }
    }
}

/// Every default: all levels, under their targets, with spans and call sites, through a client to
/// be created.
pub open spec fn default_layer<C, F>() -> TracingLayerBuilderView<C, F> {
    TracingLayerBuilderView {
        client: None,
        app_name: None,
        level: LevelFilter::Trace,
        category: CategorySource::Target,
        include_spans: true,
        include_call_site: true,
    }
}

impl<C, F> Default for TracingLayerBuilder<C, F> {
    fn default() -> (builder: Self)
        ensures
            builder@ == default_layer::<C, F>(),
    {
        TracingLayerBuilder {
            client: None,
            app_name: None,
            level: LevelFilter::Trace,
            category: CategorySource::Target,
            include_spans: true,
            include_call_site: true,
        }
    }
}

impl<C, F> TracingLayerBuilder<C, F> {
    /// Uses an existing client, so an application can log through both this layer and the direct
    /// API over one connection.
    pub fn client(self, client: C) -> (builder: Self)
        ensures
            builder@ == (TracingLayerBuilderView { client: Some(client), ..self@ }),
    {
        let mut builder = self;
        builder.client = Some(client);
        builder
    }

    /// Sets the app name on the client this builder creates.
    ///
    /// Ignored when [`client`](TracingLayerBuilder::client) supplied one already.
    pub fn app_name<T: IntoText>(self, app_name: T) -> (builder: Self)
        ensures
            builder@ == (TracingLayerBuilderView { app_name: Some(app_name.text()), ..self@ }),
    {
        let mut builder = self;
        builder.app_name = Some(app_name.into_text());
        builder
    }

    /// The most verbose level to forward. Default [`LevelFilter::Trace`].
    ///
    /// For anything more nuanced, leave this alone and compose a real filter around the layer.
    pub fn max_level(self, level: LevelFilter) -> (builder: Self)
        ensures
            builder@ == (TracingLayerBuilderView { level, ..self@ }),
    {
        let mut builder = self;
        builder.level = level;
        builder
    }

    /// Sends everything to one category, instead of splitting tabs by target.
    pub fn category<T: IntoText>(self, category: T) -> (builder: Self)
        ensures
            builder@ == (TracingLayerBuilderView { category: builder@.category, ..self@ }),
            builder@.category matches CategorySource::Fixed(fixed) && fixed@ == category.text(),
    {
        let mut builder = self;
        builder.category = CategorySource::Fixed(category.into_text());
        builder
    }

    /// Derives the category from each event's metadata.
    pub fn category_fn(self, f: F) -> (builder: Self)
        ensures
            builder@ == (TracingLayerBuilderView { category: CategorySource::Custom(f), ..self@ }),
    {
        let mut builder = self;
        builder.category = CategorySource::Custom(f);
        builder
    }

    /// Whether to include the enclosing spans and their fields. Default `true`.
    pub fn include_spans(self, include_spans: bool) -> (builder: Self)
        ensures
            builder@ == (TracingLayerBuilderView { include_spans, ..self@ }),
    {
        let mut builder = self;
        builder.include_spans = include_spans;
        builder
    }

    /// Whether to include the call site (`file:line`). Default `true`.
    pub fn include_call_site(self, include_call_site: bool) -> (builder: Self)
        ensures
            builder@ == (TracingLayerBuilderView { include_call_site, ..self@ }),
    {
        let mut builder = self;
        builder.include_call_site = include_call_site;
        builder
    }

    /// Builds the layer. `start` makes a running client out of a configuration; it is only called
    /// when no client was supplied.
    pub fn build<S: FnOnce(ClientBuilder) -> C>(self, start: S) -> (layer: TracingLayer<C, F>)
        requires
            self@.client is None ==> forall|client: ClientBuilder|
                client@ == adapter_client(self@.app_name) ==> call_requires(start, (client,)),
        ensures
            layer@ == (TracingLayerView {
                client: layer@.client,
                level: self@.level,
                category: self@.category,
                include_spans: self@.include_spans,
                include_call_site: self@.include_call_site,
            }),
            match self@.client {
                Some(client) => layer@.client == client,
                None => exists|client: ClientBuilder|
                    #![trigger call_ensures(start, (client,), layer@.client)]
                    {
                        &&& client@ == adapter_client(self@.app_name)
                        &&& call_ensures(start, (client,), layer@.client)
                    },
            },
    {
        TracingLayer {
            client: supplied_or_started(self.client, self.app_name, start),
            level: self.level,
            category: self.category,
            include_spans: self.include_spans,
            include_call_site: self.include_call_site,
        }
    }
}

/// Whether `category` is the category that a layer chooses for an event.
pub open spec fn chooses<F: Fn(&Metadata) -> String>(
    source: CategorySource<F>,
    metadata: Metadata,
    category: Seq<char>,
) -> bool {
    match source {
        CategorySource::Target => category == metadata.target@,
        CategorySource::Fixed(fixed) => category == fixed@,
        CategorySource::Custom(f) => exists|chosen: String|
            {
                &&& #[trigger] call_ensures(f, (&metadata,), chosen)
                &&& category == chosen@
            },
    }
}

/// Whether a layer's own function, if it has one, takes an event from there.
pub open spec fn takes<F: Fn(&Metadata) -> String>(
    source: CategorySource<F>,
    metadata: Metadata,
) -> bool {
    source matches CategorySource::Custom(f) ==> call_requires(f, (&metadata,))
}

impl<C, F: Fn(&Metadata) -> String> TracingLayer<C, F> {
    /// Starts configuring a layer.
    pub fn builder() -> (builder: TracingLayerBuilder<C, F>)
        ensures
            builder@ == default_layer::<C, F>(),
    {
        Default::default()
    }

    /// The client this layer writes through.
    pub fn client(&self) -> (client: &C)
        ensures
            *client == self@.client,
    {
        &self.client
    }

    /// Whether events of this level are forwarded.
    pub fn enabled(&self, level: Level) -> (enabled: bool)
        ensures
            enabled == (level.rank() <= self@.level.rank()),
    {
        self.level.allows(level)
    }

    /// The most verbose level this layer forwards.
    pub fn max_level_hint(&self) -> (level: Option<LevelFilter>)
        ensures
            level == Some(self@.level),
    {
        Some(self.level)
    }

    /// What to keep of a new span's fields, if spans are wanted at all.
    ///
    /// A span opened as `span!(..., "text")` puts its text in a `message` field; it is kept rather
    /// than discarded, since it is part of that span's identity.
    pub fn on_new_span(&self, visitor: JsonVisitor) -> (kept: Option<SpanFields>)
        ensures
            kept is Some <==> self@.include_spans,
            kept matches Some(kept) ==> kept@ == (match visitor@.message {
                Some(message) => visitor@.fields.insert("message"@, Json::Text(message)),
                None => visitor@.fields,
            }),
    {
        if !self.include_spans {
            return None;
        }
        let mut visitor = visitor;
        if let Some(message) = visitor.message {
            insert_member(&mut visitor.fields, "message".to_owned(), text_value(message));
        }
        Some(SpanFields(visitor.fields))
    }

    /// What to keep of a span's fields after more were recorded on it, by the visitor that
    /// [`SpanFields::into_visitor`] gave. A message among them is not kept.
    pub fn on_record(&self, visitor: JsonVisitor) -> (kept: SpanFields)
        ensures
            kept@ == visitor@.fields,
    {
        SpanFields(visitor.fields)
    }

    fn category_for(&self, metadata: &Metadata) -> (category: String)
        requires
            takes(self@.category, *metadata),
        ensures
            chooses(self@.category, *metadata, category@),
    {
        match &self.category {
            CategorySource::Target => metadata.target.to_owned(),
            CategorySource::Fixed(category) => category.clone(),
            CategorySource::Custom(f) => f(metadata),
        }
    }

    /// What an event's `source` is to say. `spans` are the enclosing ones, outermost first, so the
    /// JSON reads the way the call stack did.
    pub fn source(
        &self,
        metadata: &Metadata,
        fields: serde_json::Map<String, serde_json::Value>,
        spans: Vec<Span>,
    ) -> (source: serde_json::Map<String, serde_json::Value>)
        ensures
            json_object(source) == event_source(
                metadata@,
                json_object(fields),
                span_objects(spans@),
                self@.include_call_site,
                self@.include_spans,
            ),
    {
        let mut source = new_object();
        if self.include_call_site {
            if let Some(file) = metadata.file {
                insert_member(
                    &mut source,
                    "at".to_owned(),
                    text_value(call_site(file, metadata.line)),
                );
            }
        }
        if !has_no_members(&fields) {
            insert_member(&mut source, "fields".to_owned(), object_value(fields));
        }
        if self.include_spans && spans.len() > 0 {
            insert_member(&mut source, "spans".to_owned(), array_value(span_array(spans)));
        }
        source
    }

    /// The entry for an event that really came from `metadata` and has these fields.
    fn entry(
        &self,
        metadata: &Metadata,
        fields: serde_json::Map<String, serde_json::Value>,
        message: Option<String>,
        spans: Vec<Span>,
    ) -> (entry: Record)
        requires
            takes(self@.category, *metadata),
        ensures
            chooses(self@.category, *metadata, entry@.category),
            entry@ == event_entry(
                entry.time,
                metadata@,
                optional_string(message),
                event_source(
                    metadata@,
                    json_object(fields),
                    span_objects(spans@),
                    self@.include_call_site,
                    self@.include_spans,
                ),
                entry@.category,
            ),
    {
        let category = self.category_for(metadata);
        let message = match message {
            Some(message) => message,
            None => String::new(),
        };
        let entry = Record::new(priority_for(metadata.level), category, message);
        let mut entry = with_module(entry, metadata.module);
        let source = self.source(metadata, fields, spans);
        if !has_no_members(&source) {
            // Compact: the GUI formats JSON itself in the details pane, and the list view
            // collapses whitespace anyway.
            if let Ok(json) = render(&object_value(source)) {
                entry = entry.source(json);
            }
        }
        entry
    }

    /// The entry to send for an event. `visitor` has seen its fields, and `spans` are the enclosing
    /// ones, outermost first.
    ///
    /// The entry is stamped with the current time, which is left open.
    pub fn on_event(
        &self,
        metadata: &Metadata,
        visitor: JsonVisitor,
        spans: Vec<Span>,
    ) -> (entry: Record)
        requires
            forall|origin: Metadata|
                origin@ == recovered(metadata@, visitor@.fields) ==> #[trigger] takes(
                    self@.category,
                    origin,
                ),
        ensures
            exists|origin: Metadata|
                {
                    &&& origin@ == recovered(metadata@, visitor@.fields)
                    &&& #[trigger] chooses(self@.category, origin, entry@.category)
                },
            entry@ == event_entry(
                entry.time,
                recovered(metadata@, visitor@.fields),
                visitor@.message,
                event_source(
                    recovered(metadata@, visitor@.fields),
                    own_fields(metadata@, visitor@.fields),
                    span_objects(spans@),
                    self@.include_call_site,
                    self@.include_spans,
                ),
                entry@.category,
            ),
    {
        let ghost before = visitor@.fields;
        let mut fields = visitor.fields;
        let message = visitor.message;
        if is_bridged(metadata, &fields) {
            proof {
                lemma_bridge_fields_differ();
            }
            let target = match take_text(&mut fields, FACADE_RECORD_TARGET) {
                Some(target) => target,
                None => String::new(),
            };
            let module = take_text(&mut fields, FACADE_RECORD_MODULE);
            let file = take_text(&mut fields, FACADE_RECORD_FILE);
            let line = take_line(&mut fields, FACADE_RECORD_LINE);
            let origin = Metadata {
                name: metadata.name,
                level: metadata.level,
                target: target.as_str(),
                module: borrowed(&module),
                file: borrowed(&file),
                line,
            };
            assert(origin@ =~= recovered(metadata@, before));
            self.entry(&origin, fields, message, spans)
        } else {
            self.entry(metadata, fields, message, spans)
        }
    }
}

/// An event that `tracing` made itself is untouched by the recovery of bridged records: one under
/// another target, one whose metadata says where it was made, and one without the text of a target
/// among its fields.
pub proof fn lemma_tracing_events_are_unaffected(
    metadata: MetadataView,
    fields: Map<Seq<char>, Json>,
)
    requires
        ({
            ||| metadata.target != FACADE_TARGET@
            ||| metadata.module is Some
            ||| metadata.file is Some
            ||| metadata.line is Some
            ||| field_text(fields, FACADE_RECORD_TARGET@) is None
        }),
    ensures
        recovered(metadata, fields) == metadata,
        own_fields(metadata, fields) == fields,
{
}

/// The fields that the bridge carries its metadata in do not reach the details pane as well, and
/// every other field does.
pub proof fn lemma_bridge_fields_are_not_shown(
    metadata: MetadataView,
    fields: Map<Seq<char>, Json>,
    name: Seq<char>,
)
    requires
        bridged(metadata, fields),
    ensures
        ({
            let carried = name == FACADE_RECORD_TARGET@ || name == FACADE_RECORD_MODULE@ || name
                == FACADE_RECORD_FILE@ || name == FACADE_RECORD_LINE@;
            &&& carried ==> !own_fields(metadata, fields).contains_key(name)
            &&& !carried ==> member_of(own_fields(metadata, fields), name) == member_of(
                fields,
                name,
            )
        }),
{
}

/// A user field can never collide with the layer's own metadata: whatever the fields are called,
/// the call site, the fields and the spans each stand under their own key, and nothing else does.
pub proof fn lemma_fields_do_not_collide(
    metadata: MetadataView,
    fields: Map<Seq<char>, Json>,
    spans: Seq<Json>,
    include_call_site: bool,
    include_spans: bool,
    key: Seq<char>,
)
    ensures
        ({
            let source = event_source(metadata, fields, spans, include_call_site, include_spans);
            &&& source.contains_key(key) ==> key == "at"@ || key == "fields"@ || key == "spans"@
            &&& member_of(source, "at"@) == (match metadata.file {
                Some(file) => if include_call_site {
                    Some(Json::Text(call_site_text(file, metadata.line)))
                } else {
                    None
                },
                None => None,
            })
            &&& member_of(source, "fields"@) == (if fields == no_members() {
                None
            } else {
                Some(Json::Object(fields))
            })
            &&& member_of(source, "spans"@) == (if include_spans && spans.len() > 0 {
                Some(Json::Array(spans))
            } else {
                None
            })
        }),
{
    reveal_strlit("at");
    reveal_strlit("fields");
    reveal_strlit("spans");
    assert("at"@.len() == 2);
    assert("fields"@.len() == 6);
    assert("spans"@.len() == 5);
}

/// Whether an event is a bridged record: it is made under the target `log`, nothing says where, and
/// the text of a target is among its fields.
pub open spec fn came_over_the_bridge(
    metadata: MetadataView,
    fields: Map<Seq<char>, Json>,
) -> bool {
    &&& metadata.target == "log"@
    &&& metadata.module is None
    &&& metadata.file is None
    &&& metadata.line is None
    &&& fields.contains_key("log.target"@)
    &&& fields["log.target"@] is Text
}

/// Where an event came from: a bridged record from where its fields say, by their own names, and
/// any other event from where its metadata says. Its level and its name are its own either way.
pub proof fn lemma_origin_is_recovered(metadata: MetadataView, fields: Map<Seq<char>, Json>)
    ensures
        ({
            let origin = recovered(metadata, fields);
            &&& origin.level == metadata.level
            &&& origin.name == metadata.name
            &&& !came_over_the_bridge(metadata, fields) ==> origin == metadata && own_fields(
                metadata,
                fields,
            ) == fields
            &&& came_over_the_bridge(metadata, fields) ==> {
                &&& fields["log.target"@] == Json::Text(origin.target)
                &&& match origin.module {
                    Some(module) => fields.contains_key("log.module_path"@)
                        && fields["log.module_path"@] == Json::Text(module),
                    None => fields.contains_key("log.module_path"@) ==> !(
                    fields["log.module_path"@] is Text),
                }
                &&& match origin.file {
                    Some(file) => fields.contains_key("log.file"@) && fields["log.file"@]
                        == Json::Text(file),
                    None => fields.contains_key("log.file"@) ==> !(fields["log.file"@] is Text),
                }
                &&& origin.line matches Some(line) ==> fields.contains_key("log.line"@)
                    && fields["log.line"@] == Json::Number(line as int)
                &&& fields.contains_key("log.line"@) ==> (fields["log.line"@] matches Json::Number(
                    n,
                ) && 0 <= n <= u32::MAX ==> origin.line is Some)
            }
        }),
{
}

/// A bridged record's own fields are those that do not say where it came from, unchanged.
pub proof fn lemma_own_fields_are_kept(
    metadata: MetadataView,
    fields: Map<Seq<char>, Json>,
    name: Seq<char>,
)
    requires
        came_over_the_bridge(metadata, fields),
    ensures
        ({
            let own = own_fields(metadata, fields);
            let says_where = {
                ||| name == "log.target"@
                ||| name == "log.module_path"@
                ||| name == "log.file"@
                ||| name == "log.line"@
            };
            &&& own.contains_key(name) == (fields.contains_key(name) && !says_where)
            &&& own.contains_key(name) ==> own[name] == fields[name]
        }),
{
}

/// The entry of an event: of its level's own priority, with its message, under the category that
/// was asked for, with the module path beside it unless that is the category, and with its source,
/// as JSON, if there is anything to say.
pub proof fn lemma_events_become_their_entries<C, F: Fn(&Metadata) -> String>(
    layer: &TracingLayer<C, F>,
    metadata: &Metadata,
    visitor: JsonVisitor,
    spans: Vec<Span>,
    entry: Record,
)
    requires
        call_ensures(TracingLayer::<C, F>::on_event, (layer, metadata, visitor, spans), entry),
    ensures
        is_priority_of(metadata.level, entry.priority),
        entry.message@ == (match visitor@.message {
            Some(message) => message,
            None => seq![],
        }),
        ({
            let origin = recovered(metadata@, visitor@.fields);
            let source = event_source(
                origin,
                own_fields(metadata@, visitor@.fields),
                span_objects(spans@),
                layer@.include_call_site,
                layer@.include_spans,
            );
            &&& match layer@.category {
                CategorySource::Target => entry.category@ == origin.target,
                CategorySource::Fixed(fixed) => entry.category@ == fixed@,
                CategorySource::Custom(f) => exists|from: Metadata, chosen: String|
                    {
                        &&& from@ == origin
                        &&& #[trigger] call_ensures(f, (&from,), chosen)
                        &&& entry.category@ == chosen@
                    },
            }
            &&& match origin.module {
                Some(module) => entry.original_category@ == (if module == entry.category@ {
                    seq![]
                } else {
                    module
                }),
                None => entry.original_category@.len() == 0,
            }
            &&& source.dom().len() == 0 && source.dom().finite() ==> entry.source@.len() == 0
            &&& (exists|key: Seq<char>| source.contains_key(key)) ==> entry.source@ == json_text(
                Json::Object(source),
            )
        }),
        entry.extra_categories@.len() == 0,
        entry.color@.len() == 0,
        entry.bg_color@.len() == 0,
{
    let origin = recovered(metadata@, visitor@.fields);
    let source = event_source(
        origin,
        own_fields(metadata@, visitor@.fields),
        span_objects(spans@),
        layer@.include_call_site,
        layer@.include_spans,
    );
    assert(entry@ == event_entry(entry.time, origin, visitor@.message, source, entry@.category));
    assert(entry@.priority == level_priority(metadata.level));
    assert(entry@.extra_categories.len() == 0);
    assert(texts(entry.extra_categories@).len() == entry.extra_categories@.len());
    let from = choose|from: Metadata|
        {
            &&& from@ == origin
            &&& #[trigger] chooses(layer@.category, from, entry@.category)
        };
    assert(from@.target == origin.target);
    if source.dom().len() == 0 && source.dom().finite() {
        assert(source.dom() =~= Set::empty());
        assert(source =~= no_members());
    }
}

/// What an event's source says: where it was made, its own fields, and the spans around it,
/// outermost first and each with its name and its fields, as far as there are any and they are
/// wanted; and nothing else.
pub proof fn lemma_source_says_what_there_is<C, F: Fn(&Metadata) -> String>(
    layer: &TracingLayer<C, F>,
    metadata: &Metadata,
    fields: serde_json::Map<String, serde_json::Value>,
    spans: Vec<Span>,
    source: serde_json::Map<String, serde_json::Value>,
    key: Seq<char>,
)
    requires
        call_ensures(TracingLayer::<C, F>::source, (layer, metadata, fields, spans), source),
    ensures
        ({
            let shown = json_object(source);
            &&& shown.contains_key(key) ==> key == "at"@ || key == "fields"@ || key == "spans"@
            &&& shown.contains_key("at"@) == (layer@.include_call_site && metadata.file is Some)
            &&& shown.contains_key("at"@) ==> shown["at"@] == Json::Text(
                call_site_text(metadata.file->0@, metadata.line),
            )
            &&& shown.contains_key("fields"@) == (json_object(fields) != no_members())
            &&& shown.contains_key("fields"@) ==> shown["fields"@] == Json::Object(
                json_object(fields),
            )
            &&& shown.contains_key("spans"@) == (layer@.include_spans && spans@.len() > 0)
            &&& shown.contains_key("spans"@) ==> (shown["spans"@] matches Json::Array(array) && {
                &&& array.len() == spans@.len()
                &&& forall|i: int|
                    0 <= i < spans@.len() ==> shows_span(#[trigger] array[i], spans@[i])
            })
        }),
{
    lemma_fields_do_not_collide(
        metadata@,
        json_object(fields),
        span_objects(spans@),
        layer@.include_call_site,
        layer@.include_spans,
        key,
    );
    let shown = json_object(source);
    assert(member_of(shown, "at"@) is Some == shown.contains_key("at"@));
    assert(member_of(shown, "fields"@) is Some == shown.contains_key("fields"@));
    assert(member_of(shown, "spans"@) is Some == shown.contains_key("spans"@));
    if shown.contains_key("spans"@) {
        let array = span_objects(spans@);
        assert forall|i: int| 0 <= i < spans@.len() implies shows_span(
            #[trigger] array[i],
            spans@[i],
        ) by {
            reveal_strlit("name");
            reveal_strlit("fields");
            assert("name"@.len() == 4);
            assert("fields"@.len() == 6);
            assert(array[i] == Json::Object(span_object(spans@[i])));
        }
    }
}

/// Whether a value shows a span: an object with the span's name, with its fields if it has any, and
/// with nothing else.
pub open spec fn shows_span(value: Json, span: Span) -> bool {
    &&& value matches Json::Object(object)
    &&& object.contains_key("name"@)
    &&& object["name"@] == Json::Text(span.name@)
    &&& object.contains_key("fields"@) == (span.fields matches Some(fields) && fields@
        != no_members())
    &&& object.contains_key("fields"@) ==> object["fields"@] == Json::Object(span.fields->0@)
    &&& forall|key: Seq<char>|
        #[trigger] object.contains_key(key) ==> key == "name"@ || key == "fields"@
}

/// Whether one field was added, in place of an earlier one of that name, and nothing else changed.
pub open spec fn field_was_added(
    before: VisitorView,
    after: VisitorView,
    name: Seq<char>,
    value: Json,
) -> bool {
    &&& after.message == before.message
    &&& after.fields.contains_key(name)
    &&& after.fields[name] == value
    &&& forall|other: Seq<char>|
        other != name ==> (#[trigger] after.fields.contains_key(other)
            == before.fields.contains_key(other) && (before.fields.contains_key(other)
            ==> after.fields[other] == before.fields[other]))
}

/// Texts are fields like any other, but for the message, which is kept apart.
pub proof fn lemma_texts_are_fields_or_the_message(
    visitor: &mut JsonVisitor,
    field: &str,
    value: &str,
    rendered: String,
)
    requires
        ({
            ||| call_ensures(JsonVisitor::record_str, (visitor, field, value), ())
            ||| value@ == rendered@ && call_ensures(
                JsonVisitor::record_debug,
                (visitor, field, rendered),
                (),
            )
        }),
    ensures
        field@ == "message"@ ==> {
            &&& final(visitor)@.message == Some(value@)
            &&& final(visitor)@.fields == old(visitor)@.fields
        },
        field@ != "message"@ ==> field_was_added(
            old(visitor)@,
            final(visitor)@,
            field@,
            Json::Text(value@),
        ),
{
}

/// Every other kind of value is a field, whatever its name: integers of up to 64 bits as numbers,
/// wider ones as the text of the number, truth values as such, and errors as the text they show.
pub proof fn lemma_values_are_fields(
    visitor: &mut JsonVisitor,
    field: &str,
    signed: i64,
    unsigned: u64,
    flag: bool,
    shown: String,
    value: serde_json::Value,
)
    ensures
        call_ensures(JsonVisitor::record_i64, (visitor, field, signed), ()) ==> field_was_added(
            old(visitor)@,
            final(visitor)@,
            field@,
            Json::Number(signed as int),
        ),
        call_ensures(JsonVisitor::record_u64, (visitor, field, unsigned), ()) ==> field_was_added(
            old(visitor)@,
            final(visitor)@,
            field@,
            Json::Number(unsigned as int),
        ),
        call_ensures(JsonVisitor::record_bool, (visitor, field, flag), ()) ==> field_was_added(
            old(visitor)@,
            final(visitor)@,
            field@,
            Json::Bool(flag),
        ),
        call_ensures(JsonVisitor::record_error, (visitor, field, shown), ()) ==> field_was_added(
            old(visitor)@,
            final(visitor)@,
            field@,
            Json::Text(shown@),
        ),
        call_ensures(JsonVisitor::insert, (visitor, field, value), ()) ==> field_was_added(
            old(visitor)@,
            final(visitor)@,
            field@,
            json_value(value),
        ),
        call_ensures(JsonVisitor::record_f64, (visitor, field, Some(value), shown), ())
            ==> field_was_added(old(visitor)@, final(visitor)@, field@, json_value(value)),
        call_ensures(JsonVisitor::record_f64, (visitor, field, None, shown), ())
            ==> field_was_added(old(visitor)@, final(visitor)@, field@, Json::Text(shown@)),
{
}

/// Wide integers are fields by their decimal text, which reads back as the number.
pub proof fn lemma_wide_integers_read_back(
    visitor: &mut JsonVisitor,
    field: &str,
    signed: i128,
    unsigned: u128,
)
    ensures
        call_ensures(JsonVisitor::record_i128, (visitor, field, signed), ()) ==> {
            &&& field_was_added(
                old(visitor)@,
                final(visitor)@,
                field@,
                Json::Text(signed_decimal(signed as int)),
            )
            &&& crate::text::signed_value(signed_decimal(signed as int)) == signed
        },
        call_ensures(JsonVisitor::record_u128, (visitor, field, unsigned), ()) ==> {
            &&& field_was_added(
                old(visitor)@,
                final(visitor)@,
                field@,
                Json::Text(decimal(unsigned as nat)),
            )
            &&& value(decimal(unsigned as nat)) == unsigned
        },
{
    lemma_decimal_reads_back(unsigned as nat);
    if signed < 0 {
        lemma_decimal_reads_back((-signed) as nat);
        assert(signed_decimal(signed as int).drop_first() =~= decimal((-signed) as nat));
    } else {
        lemma_decimal_reads_back(signed as nat);
    }
}

/// A span keeps its fields, and its message as one of them, if spans are wanted; what is recorded
/// on it later is added, but for a message.
pub proof fn lemma_spans_keep_their_fields<C, F: Fn(&Metadata) -> String>(
    layer: &TracingLayer<C, F>,
    visitor: JsonVisitor,
    kept: Option<SpanFields>,
    later: SpanFields,
    resumed: JsonVisitor,
    updated: SpanFields,
)
    requires
        call_ensures(TracingLayer::<C, F>::on_new_span, (layer, visitor), kept),
        call_ensures(SpanFields::into_visitor, (later,), resumed),
        call_ensures(TracingLayer::<C, F>::on_record, (layer, visitor), updated),
    ensures
        kept is Some == layer@.include_spans,
        kept matches Some(kept) ==> match visitor@.message {
            None => kept@ == visitor@.fields,
            Some(message) => {
                &&& kept@.contains_key("message"@)
                &&& kept@["message"@] == Json::Text(message)
                &&& forall|name: Seq<char>|
                    name != "message"@ ==> (#[trigger] kept@.contains_key(name)
                        == visitor@.fields.contains_key(name) && (kept@.contains_key(name)
                        ==> kept@[name] == visitor@.fields[name]))
            },
        },
        resumed@.fields == later@,
        resumed@.message is None,
        updated@ == visitor@.fields,
{
}

/// A layer is as its builder was told, and what was not told is as documented: every level, under
/// its target, with spans and call sites.
pub proof fn lemma_layer_is_as_told<C, F: Fn(&Metadata) -> String>(
    builder: TracingLayerBuilder<C, F>,
    client: C,
    text: String,
    level: LevelFilter,
    f: F,
    flag: bool,
    result: TracingLayerBuilder<C, F>,
    fresh: TracingLayerBuilder<C, F>,
)
    requires
        call_ensures(TracingLayer::<C, F>::builder, (), fresh),
    ensures
        fresh@.client is None,
        fresh@.app_name is None,
        fresh@.level is Trace,
        fresh@.category is Target,
        fresh@.include_spans,
        fresh@.include_call_site,
        call_ensures(TracingLayerBuilder::<C, F>::client, (builder, client), result) ==> result@
            == (TracingLayerBuilderView { client: Some(client), ..builder@ }),
        call_ensures(TracingLayerBuilder::<C, F>::app_name::<String>, (builder, text), result)
            ==> result@ == (TracingLayerBuilderView { app_name: Some(text@), ..builder@ }),
        call_ensures(TracingLayerBuilder::<C, F>::max_level, (builder, level), result) ==> result@
            == (TracingLayerBuilderView { level, ..builder@ }),
        call_ensures(TracingLayerBuilder::<C, F>::category::<String>, (builder, text), result) ==> {
            &&& result@ == (TracingLayerBuilderView { category: result@.category, ..builder@ })
            &&& result@.category matches CategorySource::Fixed(fixed)
            &&& fixed@ == text@
        },
        call_ensures(TracingLayerBuilder::<C, F>::category_fn, (builder, f), result) ==> result@
            == (TracingLayerBuilderView { category: CategorySource::Custom(f), ..builder@ }),
        call_ensures(TracingLayerBuilder::<C, F>::include_spans, (builder, flag), result)
            ==> result@ == (TracingLayerBuilderView { include_spans: flag, ..builder@ }),
        call_ensures(TracingLayerBuilder::<C, F>::include_call_site, (builder, flag), result)
            ==> result@ == (TracingLayerBuilderView { include_call_site: flag, ..builder@ }),
{
}

/// A layer forwards the levels that its filter names, and hints at that filter.
pub proof fn lemma_layer_filters_by_level<C, F: Fn(&Metadata) -> String>(
    layer: &TracingLayer<C, F>,
    level: Level,
    enabled: bool,
    hint: Option<LevelFilter>,
)
    requires
        call_ensures(TracingLayer::<C, F>::enabled, (layer, level), enabled),
        call_ensures(TracingLayer::<C, F>::max_level_hint, (layer,), hint),
    ensures
        enabled == lets_through(layer@.level, level),
        hint == Some(layer@.level),
{
}

/// A layer has what its builder was told, and writes through the client that it was given, or else
/// through one that is started for it, with the documented defaults but for the name.
pub proof fn lemma_layer_writes_through_its_client<
    C,
    F,
    S: FnOnce(ClientBuilder) -> C,
>(builder: TracingLayerBuilder<C, F>, start: S, layer: TracingLayer<C, F>)
    requires
        call_ensures(TracingLayerBuilder::<C, F>::build::<S>, (builder, start), layer),
    ensures
        layer@.level == builder@.level,
        layer@.category == builder@.category,
        layer@.include_spans == builder@.include_spans,
        layer@.include_call_site == builder@.include_call_site,
        match builder@.client {
            Some(client) => layer@.client == client,
            None => exists|client: ClientBuilder|
                {
                    &&& client@.settings.app_name == (match builder@.app_name {
                        Some(app_name) => app_name,
                        None => "ECAPPLOG-RUST"@,
                    })
                    &&& client@.settings.address == "127.0.0.1:13991"@
                    &&& client@.buffer_size == 1000
                    &&& client@.settings.flush_on_close
                    &&& #[trigger] call_ensures(start, (client,), layer@.client)
                },
        },
{
}

/// A new visitor has seen nothing, a visitor tells what it has seen, and a copy of a span's fields
/// has them all.
pub proof fn lemma_visitors_tell_what_they_saw(
    fresh: JsonVisitor,
    visitor: &JsonVisitor,
    fields: &serde_json::Map<String, serde_json::Value>,
    message: Option<&str>,
    kept: &SpanFields,
    copy: SpanFields,
    name: Seq<char>,
)
    requires
        call_ensures(JsonVisitor::new, (), fresh),
        call_ensures(JsonVisitor::fields, (visitor,), fields),
        call_ensures(JsonVisitor::message, (visitor,), message),
        call_ensures(<SpanFields as Clone>::clone, (kept,), copy),
    ensures
        !fresh@.fields.contains_key(name),
        fresh@.message is None,
        json_object(*fields) == visitor@.fields,
        message is Some == visitor@.message is Some,
        message matches Some(text) ==> visitor@.message == Some(text@),
        copy@ == kept@,
{
}

}
