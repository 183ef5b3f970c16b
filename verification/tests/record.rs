//! The entry builder.

use std::borrow::Cow;
use std::collections::VecDeque;
use std::time::{Duration, UNIX_EPOCH};

use ecapplog::{Priority, Record};

#[test]
fn a_new_entry_has_the_mandatory_parts_only() {
    let record = Record::new(Priority::Debug, "app", "hello");
    assert_eq!(record.priority, Priority::Debug);
    assert_eq!(record.category, "app");
    assert_eq!(record.message, "hello");
    assert_eq!(record.source, "");
    assert_eq!(record.original_category, "");
    assert!(record.extra_categories.is_empty());
    assert_eq!(record.color, "");
    assert_eq!(record.bg_color, "");
    // Stamped with the current time, which is past 2020.
    assert!(record.time > UNIX_EPOCH + Duration::from_secs(1_577_836_800));
}

#[test]
fn every_part_can_be_set() {
    let time = UNIX_EPOCH + Duration::from_millis(5);
    let record = Record::new(Priority::Fatal, String::from("app"), Cow::Borrowed("m"))
        .at(time)
        .source(&String::from("s"))
        .original_category("o")
        .extra_category("x")
        .extra_categories(vec!["y", "z"])
        .color("#fff")
        .bg_color("steelblue");
    assert_eq!(record.time, time);
    assert_eq!(record.source, "s");
    assert_eq!(record.original_category, "o");
    assert_eq!(record.extra_categories, ["x", "y", "z"]);
    assert_eq!(record.color, "#fff");
    assert_eq!(record.bg_color, "steelblue");
    assert_eq!(record.clone(), record);
}

#[test]
fn texts_can_be_given_in_many_ways() {
    let record = Record::new(Priority::Debug, 'c', String::from("boxed").into_boxed_str())
        .extra_categories(["a", "b"])
        .extra_categories(vec![String::from("c")])
        .extra_categories(['d'])
        .extra_categories(Vec::<&str>::new())
        .extra_categories([String::from("e"), String::from("f")])
        .extra_categories(&vec![String::from("g")])
        .extra_categories([String::from("h")].as_slice())
        .extra_categories(Some("i"))
        .extra_categories(None::<String>)
        .extra_categories(VecDeque::from(["j", "k"]));
    assert_eq!(record.category, "c");
    assert_eq!(record.message, "boxed");
    assert_eq!(record.extra_categories.concat(), "abcdefghijk");
    let mut text = String::from("mutable");
    assert_eq!(record.source(text.as_mut_str()).source, "mutable");
}
