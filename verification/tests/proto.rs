//! Frames and payloads.

use std::time::{Duration, UNIX_EPOCH};

use ecapplog::proto::{
    banner_payload, encode_frame, encode_record, LogPayload, BANNER_PREFIX, CMD_BANNER, CMD_LOG,
    MAX_PAYLOAD_SIZE,
};
use ecapplog::{Error, Priority, Record};

fn fixed_record() -> Record {
    Record::new(Priority::Information, "app", "hello")
        .at(UNIX_EPOCH + Duration::new(1_581_761_840, 120_000_000))
}

fn json(record: &Record) -> String {
    LogPayload::from_record(record).to_json().unwrap()
}

#[test]
fn banner_frame_bytes() {
    let mut out = Vec::new();
    encode_frame(CMD_BANNER, &banner_payload("ECAPPLOG-RUST"), &mut out);

    // 0x63 = 99, then a big-endian length of 9 + 13 = 22 = 0x16.
    let mut expected = vec![0x63, 0x00, 0x00, 0x00, 0x16];
    expected.extend_from_slice(b"ECAPPLOG ECAPPLOG-RUST");
    assert_eq!(out, expected);
}

#[test]
fn banner_prefix_has_its_trailing_space() {
    // The server strips exactly 9 bytes and rejects anything not matching this prefix.
    assert_eq!(BANNER_PREFIX.len(), 9);
    assert_eq!(&BANNER_PREFIX, b"ECAPPLOG ");
    assert_eq!(banner_payload(""), b"ECAPPLOG ");
}

#[test]
fn length_is_big_endian() {
    let mut out = Vec::new();
    encode_frame(CMD_LOG, &vec![0u8; 0x0102], &mut out);
    assert_eq!(&out[..5], &[0x00, 0x00, 0x00, 0x01, 0x02]);
}

#[test]
fn encode_frame_replaces_previous_contents() {
    // A stale tail would corrupt the stream.
    let mut out = Vec::new();
    encode_frame(CMD_LOG, b"aaaaaaaa", &mut out);
    encode_frame(CMD_LOG, b"b", &mut out);
    assert_eq!(out, vec![0x00, 0x00, 0x00, 0x00, 0x01, b'b']);
}

#[test]
fn mandatory_fields_are_emitted_even_when_empty() {
    let record = Record::new(Priority::Information, "", "").at(UNIX_EPOCH);
    assert_eq!(
        json(&record),
        r#"{"time":"1970-01-01T00:00:00.000","priority":"INFORMATION","category":"","message":""}"#
    );
}

#[test]
fn optional_fields_are_omitted_when_empty() {
    let out = json(&fixed_record());
    assert_eq!(
        out,
        r#"{"time":"2020-02-15T10:17:20.120","priority":"INFORMATION","category":"app","message":"hello"}"#
    );
    for key in [
        "source",
        "original_category",
        "extra_categories",
        "color",
        "bgcolor",
    ] {
        assert!(
            !out.contains(key),
            "{key} should have been omitted from {out}"
        );
    }
}

#[test]
fn field_order_matches_the_go_client() {
    let record = fixed_record()
        .source("src")
        .original_category("app.inner")
        .extra_category("other")
        .color("#ff0000")
        .bg_color("#f9f9f9");
    let expected = String::from(
        r##"{"time":"2020-02-15T10:17:20.120","priority":"INFORMATION","category":"app","##,
    ) + r##""message":"hello","source":"src","original_category":"app.inner","##
        + r##""extra_categories":["other"],"color":"#ff0000","bgcolor":"#f9f9f9"}"##;
    assert_eq!(json(&record), expected);
}

#[test]
fn a_custom_priority_is_sent_verbatim() {
    let record = Record::new(Priority::Custom("SEVERE".into()), "app", "x").at(UNIX_EPOCH);
    assert!(json(&record).contains(r#""priority":"SEVERE""#));
}

#[test]
fn messages_are_json_escaped() {
    let record = Record::new(Priority::Debug, "app", "a \"quoted\"\nline\t").at(UNIX_EPOCH);
    assert!(json(&record).contains(r#""message":"a \"quoted\"\nline\t""#));
}

#[test]
fn every_kind_of_character_survives_a_json_reader() {
    let message = "\u{0}\u{1}\u{8}\t\n\u{b}\u{c}\r\u{1f} \"\\/\u{7f}\u{80}\u{e9}\u{2028}\u{1f600}";
    let record = Record::new(Priority::Debug, message, message)
        .at(UNIX_EPOCH)
        .extra_categories(vec!["a,b", "\"]"]);
    let text = json(&record);
    assert!(text.contains("\\u0000\\u0001\\b\\t\\n\\u000b\\f\\r\\u001f \\\"\\\\/\u{7f}\u{80}"));
    let value: serde_json::Value = serde_json::from_str(&text).unwrap();
    assert_eq!(value["category"], message);
    assert_eq!(value["message"], message);
    assert_eq!(value["extra_categories"][0], "a,b");
    assert_eq!(value["extra_categories"][1], "\"]");
}

#[test]
fn an_entry_becomes_a_log_frame() {
    let record = fixed_record();
    let frame = encode_record(&record).unwrap();
    let payload = json(&record);
    assert_eq!(frame[0], CMD_LOG);
    assert_eq!(&frame[1..5], &(payload.len() as u32).to_be_bytes());
    assert_eq!(&frame[5..], payload.as_bytes());
}

#[test]
fn exactly_the_limit_is_still_sent_and_one_byte_more_is_not() {
    let empty = json(&Record::new(Priority::Information, "", "").at(UNIX_EPOCH)).len();
    let fits = "a".repeat(MAX_PAYLOAD_SIZE - empty);
    let record = Record::new(Priority::Information, "", fits.as_str()).at(UNIX_EPOCH);
    assert_eq!(
        encode_record(&record).unwrap().len(),
        MAX_PAYLOAD_SIZE + 5
    );

    let record = Record::new(Priority::Information, "", fits + "a").at(UNIX_EPOCH);
    match encode_record(&record) {
        Err(Error::PayloadTooLarge { size, limit }) => {
            assert_eq!(size, MAX_PAYLOAD_SIZE + 1);
            assert_eq!(limit, MAX_PAYLOAD_SIZE);
        }
        other => panic!("{other:?}"),
    }
}

#[test]
fn frames_on_one_stream_come_apart_again() {
    let mut stream = Vec::new();
    let mut frame = Vec::new();
    let payloads: [&[u8]; 4] = [b"", b"a", &[0; 300], b"\x00\x01\x02"];
    for (command, payload) in payloads.iter().enumerate() {
        encode_frame(command as u8, payload, &mut frame);
        stream.extend_from_slice(&frame);
    }
    let mut rest: &[u8] = &stream;
    for (command, payload) in payloads.iter().enumerate() {
        assert_eq!(rest[0], command as u8);
        let length = u32::from_be_bytes([rest[1], rest[2], rest[3], rest[4]]) as usize;
        assert_eq!(&rest[5..5 + length], *payload);
        rest = &rest[5 + length..];
    }
    assert!(rest.is_empty());
}

#[test]
fn a_banner_names_the_application_behind_its_prefix() {
    let banner = banner_payload("größe");
    assert_eq!(&banner[..9], b"ECAPPLOG ");
    assert_eq!(std::str::from_utf8(&banner[9..]), Ok("größe"));
}

#[test]
fn entries_that_differ_are_written_differently() {
    let base = fixed_record();
    let others = [
        base.clone().at(UNIX_EPOCH + Duration::new(1_581_761_840, 121_000_000)),
        base.clone().source("hello"),
        base.clone().original_category("hello"),
        base.clone().extra_category("hello"),
        base.clone().extra_category("hel").extra_category("lo"),
        base.clone().extra_category(""),
        base.clone().color("hello"),
        base.clone().bg_color("hello"),
        Record { message: "hello\"".to_owned(), ..base.clone() },
        Record { category: "hello\\".to_owned(), ..base.clone() },
        Record { priority: Priority::Debug, ..base.clone() },
    ];
    for (i, a) in others.iter().enumerate() {
        assert_ne!(json(a), json(&base));
        for b in &others[i + 1..] {
            assert_ne!(json(a), json(b));
        }
    }
    // Finer than a millisecond is not carried.
    let finer = base.clone().at(UNIX_EPOCH + Duration::new(1_581_761_840, 120_999_999));
    assert_eq!(json(&finer), json(&base));
}
