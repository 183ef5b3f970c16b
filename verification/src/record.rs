//! A single log entry, and the builder that assembles one.

use std::time::SystemTime;

use vstd::prelude::*;

use crate::priority::Priority;
use crate::text::{texts, IntoText, IntoTexts};

verus! {

/// One log entry.
///
/// Built with a chained builder, so that a field which gains a sibling later never changes the
/// meaning of existing calls the way positional parameters would.
#[derive(Debug, PartialEq, Eq)]
pub struct Record {
    /// When the entry was made.
    pub time: SystemTime,
    /// How important it is.
    pub priority: Priority,
    /// The GUI tab it goes to.
    pub category: String,
    /// The text of the entry.
    pub message: String,
    /// Free-form context, empty if there is none.
    pub source: String,
    /// The finer category behind `category`, empty if there is none.
    pub original_category: String,
    /// More tabs that receive the entry.
    pub extra_categories: Vec<String>,
    /// The foreground colour, empty for the priority's own.
    pub color: String,
    /// The background colour, empty for none.
    pub bg_color: String,
}

/// What a [`Record`] says, with its strings as sequences of characters.
#[verifier::ext_equal]
pub struct RecordView {
    pub time: SystemTime,
    pub priority: Priority,
    pub category: Seq<char>,
    pub message: Seq<char>,
    pub source: Seq<char>,
    pub original_category: Seq<char>,
    pub extra_categories: Seq<Seq<char>>,
    pub color: Seq<char>,
    pub bg_color: Seq<char>,
}

/// An entry with the mandatory parts only.
pub open spec fn plain_entry(
    time: SystemTime,
    priority: Priority,
    category: Seq<char>,
    message: Seq<char>,
) -> RecordView {
    RecordView {
        time,
        priority,
        category,
        message,
        source: seq![],
        original_category: seq![],
        extra_categories: seq![],
        color: seq![],
        bg_color: seq![],
    }
}

impl View for Record {
    type V = RecordView;

    open spec fn view(&self) -> RecordView {
        RecordView {
            time: self.time,
            priority: self.priority,
            category: self.category@,
            message: self.message@,
            source: self.source@,
            original_category: self.original_category@,
            extra_categories: texts(self.extra_categories@),
            color: self.color@,
            bg_color: self.bg_color@,
        }
    }
}

impl Clone for Record {
    fn clone(&self) -> (copy: Self)
        ensures
            copy@ == self@,
    {
        let copy = Record {
            time: self.time,
            priority: self.priority.clone(),
            category: self.category.clone(),
            message: self.message.clone(),
            source: self.source.clone(),
            original_category: self.original_category.clone(),
            extra_categories: self.extra_categories.clone(),
            color: self.color.clone(),
            bg_color: self.bg_color.clone(),
        };
        assert(copy.extra_categories@ =~= self.extra_categories@);
        copy
    }
}

impl Record {
    /// A new entry stamped with the current time.
    ///
    /// `category` becomes the tab name in the GUI. Avoid the names the server reserves for itself:
    /// `ALL`, `ERROR`, `ECAPPLOG` and `<unknown>`. An empty category is rendered as `<unknown>`.
    ///
    /// Note also that the GUI sorts all-uppercase category names ahead of the rest, so the casing
    /// you choose here affects tab order.
    ///
    /// What the clock reads is left open: `at` sets the time to a known value.
    pub fn new<C: IntoText, M: IntoText>(priority: Priority, category: C, message: M) -> (record:
        Self)
        ensures
            record@ == plain_entry(record.time, priority, category.text(), message.text()),
    {
        let record = Record {
            time: SystemTime::now(),
            priority,
            category: category.into_text(),
            message: message.into_text(),
            source: String::new(),
            original_category: String::new(),
            extra_categories: Vec::new(),
            color: String::new(),
            bg_color: String::new(),
        };
        assert(record@ =~= plain_entry(record.time, priority, category.text(), message.text()));
        record
    }

    /// Overrides the timestamp.
    ///
    /// The wire format carries UTC with millisecond precision; anything finer is truncated.
    pub fn at(self, time: SystemTime) -> (record: Self)
        ensures
            record@ == (RecordView { time, ..self@ }),
    {
        let mut record = self;
        record.time = time;
        record
    }

    /// Free-form text shown in the GUI's `Source` column and Details pane.
    ///
    /// The pane pretty-prints this when it happens to be JSON, which makes it a good home for
    /// structured context that the protocol has nowhere else to put. The list view collapses
    /// whitespace, so multi-line values read correctly only in the Details pane.
    pub fn source<T: IntoText>(self, source: T) -> (record: Self)
        ensures
            record@ == (RecordView { source: source.text(), ..self@ }),
    {
        let mut record = self;
        record.source = source.into_text();
        record
    }

    /// The entry's "real" category, when [`category`](Record::new) is a coarser grouping.
    ///
    /// The GUI renders the pair as `category [original_category]`.
    pub fn original_category<T: IntoText>(self, original_category: T) -> (record: Self)
        ensures
            record@ == (RecordView { original_category: original_category.text(), ..self@ }),
    {
        let mut record = self;
        record.original_category = original_category.into_text();
        record
    }

    /// Adds one more category tab that should also receive this entry.
    pub fn extra_category<T: IntoText>(self, category: T) -> (record: Self)
        ensures
            record@ == (RecordView {
                extra_categories: self@.extra_categories.push(category.text()),
                ..self@
            }),
    {
        let mut record = self;
        record.extra_categories.push(category.into_text());
        assert(record@.extra_categories =~= self@.extra_categories.push(category.text()));
        record
    }

    /// Adds several extra category tabs, in order.
    pub fn extra_categories<L: IntoTexts>(self, categories: L) -> (record: Self)
        ensures
            record@ == (RecordView {
                extra_categories: self@.extra_categories + categories.list(),
                ..self@
            }),
    {
        let mut record = self;
        let mut more = categories.into_texts();
        let ghost before = record.extra_categories@;
        let ghost added = more@;
        record.extra_categories.append(&mut more);
        proof {
            assert(record.extra_categories@ =~= before + added);
            assert(texts(before + added) =~= texts(before) + texts(added));
        }
        record
    }

    /// Overrides the foreground colour, which otherwise follows the priority.
    ///
    /// Anything Qt's colour parser accepts works: `#rgb`, `#rrggbb`, SVG names like `steelblue`,
    /// or `transparent`. An unparseable value is ignored by the server, silently.
    pub fn color<T: IntoText>(self, color: T) -> (record: Self)
        ensures
            record@ == (RecordView { color: color.text(), ..self@ }),
    {
        let mut record = self;
        record.color = color.into_text();
        record
    }

    /// Sets a background colour. Accepts the same syntax as [`color`](Record::color).
    pub fn bg_color<T: IntoText>(self, bg_color: T) -> (record: Self)
        ensures
            record@ == (RecordView { bg_color: bg_color.text(), ..self@ }),
    {
        let mut record = self;
        record.bg_color = bg_color.into_text();
        record
    }
}

/// A new entry has what it was given and nothing else.
pub proof fn lemma_new_entry_has_what_it_was_given<C: IntoText, M: IntoText>(
    priority: Priority,
    category: C,
    message: M,
    record: Record,
)
    requires
        call_ensures(Record::new::<C, M>, (priority, category, message), record),
    ensures
        record.priority == priority,
        record.category@ == category.text(),
        record.message@ == message.text(),
        record.source@.len() == 0,
        record.original_category@.len() == 0,
        record.extra_categories@.len() == 0,
        record.color@.len() == 0,
        record.bg_color@.len() == 0,
{
    assert(record@.category == category.text());
    assert(record@.source.len() == 0);
    assert(record@.extra_categories.len() == 0);
    assert(texts(record.extra_categories@).len() == record.extra_categories@.len());
}

/// Each part of an entry is set by itself: the method for it sets it to what it was given, and
/// leaves every other part alone.
pub proof fn lemma_parts_are_set_by_themselves<T: IntoText, L: IntoTexts>(
    record: Record,
    time: SystemTime,
    text: T,
    list: L,
    result: Record,
)
    ensures
        call_ensures(Record::at, (record, time), result) ==> result@ == (RecordView {
            time,
            ..record@
        }),
        call_ensures(Record::source::<T>, (record, text), result) ==> result@ == (RecordView {
            source: text.text(),
            ..record@
        }),
        call_ensures(Record::original_category::<T>, (record, text), result) ==> result@ == (
        RecordView { original_category: text.text(), ..record@ }),
        call_ensures(Record::extra_category::<T>, (record, text), result) ==> result@ == (
        RecordView { extra_categories: record@.extra_categories.push(text.text()), ..record@ }),
        call_ensures(Record::extra_categories::<L>, (record, list), result) ==> result@ == (
        RecordView { extra_categories: record@.extra_categories + list.list(), ..record@ }),
        call_ensures(Record::color::<T>, (record, text), result) ==> result@ == (RecordView {
            color: text.text(),
            ..record@
        }),
        call_ensures(Record::bg_color::<T>, (record, text), result) ==> result@ == (RecordView {
            bg_color: text.text(),
            ..record@
        }),
{
}

/// A copy of an entry has every part of it.
pub proof fn lemma_copied_entries_are_the_same(record: &Record, copy: Record)
    requires
        call_ensures(<Record as Clone>::clone, (record,), copy),
    ensures
        copy.time == record.time,
        copy.priority == record.priority,
        copy.category@ == record.category@,
        copy.message@ == record.message@,
        copy.source@ == record.source@,
        copy.original_category@ == record.original_category@,
        texts(copy.extra_categories@) == texts(record.extra_categories@),
        copy.color@ == record.color@,
        copy.bg_color@ == record.bg_color@,
{
    assert(copy@ == record@);
    assert(copy@.time == record@.time);
}

}
