//! What a reader gets back of what is written: frames, JSON strings and payloads are unambiguous.

use serde_json::Error as JsonError;
use vstd::prelude::*;
use vstd::utf8::*;

use crate::clock::epoch_nanos;
use crate::error::Error;
use crate::instants::{lemma_timestamp_reads_back, reads_as_instant};
use crate::json::{escaped, escaped_char, json_string};
use crate::proto::{
    banner_bytes, banner_payload, big_endian, encode_frame, encode_record, frame_bytes,
    json_strings, optional_array, optional_member, payload_bytes, payload_of, payload_text,
    LogPayload, PayloadView, BANNER_PREFIX,
};
use crate::record::{Record, RecordView};
use crate::timestamp::utc_text;

verus! {

/// The number that four bytes stand for, most significant byte first.
pub open spec fn read_big_endian(bytes: Seq<u8>) -> int {
    bytes[0] * 0x100_0000 + bytes[1] * 0x1_0000 + bytes[2] * 0x100 + bytes[3]
}

/// A frame reads back: the command is its first byte, the next four are the length of the payload,
/// and the payload is the rest.
pub proof fn lemma_frame_reads_back(command: u8, payload: Seq<u8>, rest: Seq<u8>)
    requires
        payload.len() <= u32::MAX,
    ensures
        ({
            let stream = frame_bytes(command, payload) + rest;
            let length = read_big_endian(stream.subrange(1, 5));
            &&& stream.len() >= 5
            &&& stream[0] == command
            &&& length == payload.len()
            &&& stream.subrange(5, 5 + length) == payload
            &&& stream.skip(5 + length) == rest
        }),
{
    let stream = frame_bytes(command, payload) + rest;
    let n = payload.len() as int;
    assert(stream.subrange(1, 5) =~= big_endian(n));
    assert(read_big_endian(big_endian(n)) == n);
    assert(stream.subrange(5, 5 + n) =~= payload);
    assert(stream.skip(5 + n) =~= rest);
}

/// A banner reads back: stripping its nine-byte prefix leaves the application's name.
pub proof fn lemma_banner_reads_back(app_name: Seq<char>)
    ensures
        banner_bytes(app_name).take(9) == BANNER_PREFIX@,
        banner_bytes(app_name).skip(9) == encode_utf8(app_name),
        decode_utf8(banner_bytes(app_name).skip(9)) == app_name,
{
    assert(banner_bytes(app_name).take(9) =~= BANNER_PREFIX@);
    assert(banner_bytes(app_name).skip(9) =~= encode_utf8(app_name));
    encode_utf8_decode_utf8(app_name);
}

/// No two characters are written alike, and no character is written as the beginning of another.
proof fn lemma_escapes_differ(a: char, b: char, c: Seq<char>, d: Seq<char>)
    requires
        escaped_char(a) + c == escaped_char(b) + d,
    ensures
        a == b,
        c == d,
{
    let left = escaped_char(a) + c;
    let right = escaped_char(b) + d;
    assert(left[0] == escaped_char(a)[0]);
    assert(right[0] == escaped_char(b)[0]);
    if escaped_char(a).len() > 1 && escaped_char(b).len() > 1 {
        assert(left[1] == escaped_char(a)[1]);
        assert(right[1] == escaped_char(b)[1]);
        if escaped_char(a).len() > 2 && escaped_char(b).len() > 2 {
            assert(left[4] == escaped_char(a)[4]);
            assert(right[4] == escaped_char(b)[4]);
            assert(left[5] == escaped_char(a)[5]);
            assert(right[5] == escaped_char(b)[5]);
        }
    }
    assert(a == b);
    assert(left.skip(escaped_char(a).len() as int) =~= c);
    assert(right.skip(escaped_char(b).len() as int) =~= d);
}

/// No character is written with a bare quote in front.
proof fn lemma_escape_is_no_quote(c: char)
    ensures
        escaped_char(c).len() > 0,
        escaped_char(c)[0] != '"',
{
}

/// The inside of a JSON string ends at its closing quote.
proof fn lemma_escaped_ends(a: Seq<char>, b: Seq<char>, c: Seq<char>, d: Seq<char>)
    requires
        escaped(a) + seq!['"'] + c == escaped(b) + seq!['"'] + d,
    ensures
        a == b,
        c == d,
    decreases a.len(),
{
    let left = escaped(a) + seq!['"'] + c;
    let right = escaped(b) + seq!['"'] + d;
    if a.len() == 0 && b.len() == 0 {
        assert(left.skip(1) =~= c);
        assert(right.skip(1) =~= d);
        assert(a =~= b);
    } else if a.len() == 0 {
        lemma_escape_is_no_quote(b[0]);
        assert(left[0] == '"');
        assert(right[0] == escaped_char(b[0])[0]);
    } else if b.len() == 0 {
        lemma_escape_is_no_quote(a[0]);
        assert(right[0] == '"');
        assert(left[0] == escaped_char(a[0])[0]);
    } else {
        let rest_a = escaped(a.drop_first()) + seq!['"'] + c;
        let rest_b = escaped(b.drop_first()) + seq!['"'] + d;
        assert(left =~= escaped_char(a[0]) + rest_a);
        assert(right =~= escaped_char(b[0]) + rest_b);
        lemma_escapes_differ(a[0], b[0], rest_a, rest_b);
        lemma_escaped_ends(a.drop_first(), b.drop_first(), c, d);
        assert(a =~= seq![a[0]] + a.drop_first());
        assert(b =~= seq![b[0]] + b.drop_first());
    }
}

/// A JSON string reads back: whatever follows it, its characters say which text it is and where it
/// ends.
pub proof fn lemma_json_string_reads_back(a: Seq<char>, b: Seq<char>, c: Seq<char>, d: Seq<char>)
    requires
        json_string(a) + c == json_string(b) + d,
    ensures
        a == b,
        c == d,
{
    let left = json_string(a) + c;
    let right = json_string(b) + d;
    assert(left.skip(1) =~= escaped(a) + seq!['"'] + c);
    assert(right.skip(1) =~= escaped(b) + seq!['"'] + d);
    lemma_escaped_ends(a, b, c, d);
}

/// The character that tells the members of a payload apart: the first one of the key that comes
/// next, or the closing brace.
spec fn lead(text: Seq<char>) -> char {
    if text[0] == '}' {
        '}'
    } else {
        text[2]
    }
}

/// Whether a text is the key of a member, with the comma in front and the colon behind.
spec fn is_key(key: Seq<char>) -> bool {
    key.len() >= 3 && key[0] == ','
}

proof fn lemma_optional_member_leads(key: Seq<char>, value: Seq<char>, rest: Seq<char>)
    requires
        is_key(key),
    ensures
        lead(optional_member(key, value) + rest) == (if value.len() == 0 {
            lead(rest)
        } else {
            key[2]
        }),
{
    let text = optional_member(key, value) + rest;
    if value.len() == 0 {
        assert(text =~= rest);
    } else {
        assert(text[0] == key[0]);
        assert(text[2] == key[2]);
    }
}

proof fn lemma_optional_array_leads(key: Seq<char>, values: Seq<Seq<char>>, rest: Seq<char>)
    requires
        is_key(key),
    ensures
        lead(optional_array(key, values) + rest) == (if values.len() == 0 {
            lead(rest)
        } else {
            key[2]
        }),
{
    let text = optional_array(key, values) + rest;
    if values.len() == 0 {
        assert(text =~= rest);
    } else {
        assert(text[0] == key[0]);
        assert(text[2] == key[2]);
    }
}

/// A member that is left out when empty reads back, if what follows has another key.
proof fn lemma_optional_member_reads_back(
    key: Seq<char>,
    a: Seq<char>,
    b: Seq<char>,
    c: Seq<char>,
    d: Seq<char>,
)
    requires
        is_key(key),
        lead(c) != key[2],
        lead(d) != key[2],
        optional_member(key, a) + c == optional_member(key, b) + d,
    ensures
        a == b,
        c == d,
{
    lemma_optional_member_leads(key, a, c);
    lemma_optional_member_leads(key, b, d);
    let left = optional_member(key, a) + c;
    let right = optional_member(key, b) + d;
    if a.len() == 0 {
        assert(left =~= c);
        assert(right =~= d);
        assert(a =~= b);
    } else {
        assert(left.skip(key.len() as int) =~= json_string(a) + c);
        assert(right.skip(key.len() as int) =~= json_string(b) + d);
        lemma_json_string_reads_back(a, b, c, d);
    }
}

/// What comes behind the first of several strings.
spec fn more_strings(values: Seq<Seq<char>>) -> Seq<char> {
    if values.len() <= 1 {
        seq![]
    } else {
        seq![','] + json_strings(values.drop_first())
    }
}

/// Strings separated by commas, read from the front.
proof fn lemma_strings_from_the_front(values: Seq<Seq<char>>)
    requires
        values.len() > 0,
    ensures
        json_strings(values) == json_string(values[0]) + more_strings(values),
    decreases values.len(),
{
    if values.len() == 1 {
        assert(json_strings(values) =~= json_string(values[0]) + more_strings(values));
    } else {
        let front = values.drop_last();
        let back = values.drop_first();
        lemma_strings_from_the_front(front);
        assert(front[0] == values[0]);
        assert(back.last() == values.last());
        if values.len() == 2 {
            assert(json_strings(back) == json_string(values.last()));
        } else {
            assert(front.drop_first() =~= back.drop_last());
        }
        assert(json_strings(values) =~= json_string(values[0]) + more_strings(values));
    }
}

/// An array of strings reads back.
proof fn lemma_strings_read_back(
    a: Seq<Seq<char>>,
    b: Seq<Seq<char>>,
    c: Seq<char>,
    d: Seq<char>,
)
    requires
        a.len() > 0,
        b.len() > 0,
        json_strings(a) + seq![']'] + c == json_strings(b) + seq![']'] + d,
    ensures
        a == b,
        c == d,
    decreases a.len(),
{
    lemma_strings_from_the_front(a);
    lemma_strings_from_the_front(b);
    let rest_a = more_strings(a) + seq![']'] + c;
    let rest_b = more_strings(b) + seq![']'] + d;
    assert(json_strings(a) + seq![']'] + c =~= json_string(a[0]) + rest_a);
    assert(json_strings(b) + seq![']'] + d =~= json_string(b[0]) + rest_b);
    lemma_json_string_reads_back(a[0], b[0], rest_a, rest_b);
    if a.len() == 1 && b.len() == 1 {
        assert(rest_a.skip(1) =~= c);
        assert(rest_b.skip(1) =~= d);
        assert(a =~= b);
    } else if a.len() == 1 {
        assert(rest_a[0] == ']');
        assert(rest_b[0] == ',');
    } else if b.len() == 1 {
        assert(rest_a[0] == ',');
        assert(rest_b[0] == ']');
    } else {
        assert(rest_a.skip(1) =~= json_strings(a.drop_first()) + seq![']'] + c);
        assert(rest_b.skip(1) =~= json_strings(b.drop_first()) + seq![']'] + d);
        lemma_strings_read_back(a.drop_first(), b.drop_first(), c, d);
        assert(a =~= seq![a[0]] + a.drop_first());
        assert(b =~= seq![b[0]] + b.drop_first());
    }
}

/// An array that is left out when empty reads back, if what follows has another key.
proof fn lemma_optional_array_reads_back(
    key: Seq<char>,
    a: Seq<Seq<char>>,
    b: Seq<Seq<char>>,
    c: Seq<char>,
    d: Seq<char>,
)
    requires
        is_key(key),
        lead(c) != key[2],
        lead(d) != key[2],
        optional_array(key, a) + c == optional_array(key, b) + d,
    ensures
        a == b,
        c == d,
{
    lemma_optional_array_leads(key, a, c);
    lemma_optional_array_leads(key, b, d);
    let left = optional_array(key, a) + c;
    let right = optional_array(key, b) + d;
    if a.len() == 0 {
        assert(left =~= c);
        assert(right =~= d);
        assert(a =~= b);
    } else {
        assert(left.skip(key.len() as int + 1) =~= json_strings(a) + seq![']'] + c);
        assert(right.skip(key.len() as int + 1) =~= json_strings(b) + seq![']'] + d);
        lemma_strings_read_back(a, b, c, d);
    }
}

/// A member that is always there reads back.
proof fn lemma_member_reads_back(
    key: Seq<char>,
    a: Seq<char>,
    b: Seq<char>,
    c: Seq<char>,
    d: Seq<char>,
)
    requires
        key + (json_string(a) + c) == key + (json_string(b) + d),
    ensures
        a == b,
        c == d,
{
    let left = key + (json_string(a) + c);
    let right = key + (json_string(b) + d);
    assert(left.skip(key.len() as int) =~= json_string(a) + c);
    assert(right.skip(key.len() as int) =~= json_string(b) + d);
    lemma_json_string_reads_back(a, b, c, d);
}

spec fn from_bg_color(payload: PayloadView) -> Seq<char> {
    optional_member(",\"bgcolor\":"@, payload.bg_color) + "}"@
}

spec fn from_color(payload: PayloadView) -> Seq<char> {
    optional_member(",\"color\":"@, payload.color) + from_bg_color(payload)
}

spec fn from_extra_categories(payload: PayloadView) -> Seq<char> {
    optional_array(",\"extra_categories\":"@, payload.extra_categories) + from_color(payload)
}

spec fn from_original_category(payload: PayloadView) -> Seq<char> {
    optional_member(",\"original_category\":"@, payload.original_category)
        + from_extra_categories(payload)
}

spec fn from_source(payload: PayloadView) -> Seq<char> {
    optional_member(",\"source\":"@, payload.source) + from_original_category(payload)
}

spec fn from_message(payload: PayloadView) -> Seq<char> {
    ",\"message\":"@ + (json_string(payload.message) + from_source(payload))
}

spec fn from_category(payload: PayloadView) -> Seq<char> {
    ",\"category\":"@ + (json_string(payload.category) + from_message(payload))
}

spec fn from_priority(payload: PayloadView) -> Seq<char> {
    ",\"priority\":"@ + (json_string(payload.priority) + from_category(payload))
}

spec fn from_time(payload: PayloadView) -> Seq<char> {
    "{\"time\":"@ + (json_string(payload.time) + from_priority(payload))
}

/// Joining parts from the left or from the right makes no difference.
proof fn lemma_parts_join(
    a: Seq<char>,
    b: Seq<char>,
    c: Seq<char>,
    d: Seq<char>,
    e: Seq<char>,
    f: Seq<char>,
)
    ensures
        a + b + c + d + e + f == a + (b + (c + (d + (e + f)))),
{
    assert(a + b + c + d + e + f =~= a + (b + (c + (d + (e + f)))));
}

proof fn lemma_joins_either_way(a: Seq<char>, b: Seq<char>, c: Seq<char>)
    ensures
        a + b + c == a + (b + c),
{
    assert(a + b + c =~= a + (b + c));
}

proof fn lemma_member_joins(before: Seq<char>, key: Seq<char>, value: Seq<char>, rest: Seq<char>)
    ensures
        before + key + json_string(value) + rest == before + (key + (json_string(value) + rest)),
{
    lemma_joins_either_way(before + key, json_string(value), rest);
    lemma_joins_either_way(before, key, json_string(value) + rest);
}

proof fn lemma_payload_from_the_front(payload: PayloadView)
    ensures
        payload_text(payload) == from_time(payload),
{
    let source = optional_member(",\"source\":"@, payload.source);
    let original_category = optional_member(
        ",\"original_category\":"@,
        payload.original_category,
    );
    let extra_categories = optional_array(
        ",\"extra_categories\":"@,
        payload.extra_categories,
    );
    let color = optional_member(",\"color\":"@, payload.color);
    let bg_color = optional_member(",\"bgcolor\":"@, payload.bg_color);
    let time = "{\"time\":"@ + json_string(payload.time);
    let priority = time + ",\"priority\":"@ + json_string(payload.priority);
    let category = priority + ",\"category\":"@ + json_string(payload.category);
    let message = category + ",\"message\":"@ + json_string(payload.message);
    lemma_parts_join(
        message + source,
        original_category,
        extra_categories,
        color,
        bg_color,
        "}"@,
    );
    assert(payload_text(payload) == message + source + from_original_category(payload));
    lemma_joins_either_way(message, source, from_original_category(payload));
    lemma_member_joins(category, ",\"message\":"@, payload.message, from_source(payload));
    lemma_member_joins(priority, ",\"category\":"@, payload.category, from_message(payload));
    lemma_member_joins(time, ",\"priority\":"@, payload.priority, from_category(payload));
    lemma_joins_either_way("{\"time\":"@, json_string(payload.time), from_priority(payload));
}

/// The keys of the members that may be left out start with different letters.
proof fn lemma_keys()
    ensures
        is_key(",\"source\":"@) && ",\"source\":"@[2] == 's',
        is_key(",\"original_category\":"@) && ",\"original_category\":"@[2] == 'o',
        is_key(",\"extra_categories\":"@) && ",\"extra_categories\":"@[2] == 'e',
        is_key(",\"color\":"@) && ",\"color\":"@[2] == 'c',
        is_key(",\"bgcolor\":"@) && ",\"bgcolor\":"@[2] == 'b',
        lead("}"@) == '}',
{
    reveal_strlit(",\"source\":");
    reveal_strlit(",\"original_category\":");
    reveal_strlit(",\"extra_categories\":");
    reveal_strlit(",\"color\":");
    reveal_strlit(",\"bgcolor\":");
    reveal_strlit("}");
}

proof fn lemma_leads(payload: PayloadView)
    ensures
        lead(from_bg_color(payload)) == '}' || lead(from_bg_color(payload)) == 'b',
        lead(from_color(payload)) != 'e',
        lead(from_color(payload)) != 'o',
        lead(from_color(payload)) != 's',
        lead(from_extra_categories(payload)) != 'o',
        lead(from_extra_categories(payload)) != 's',
        lead(from_original_category(payload)) != 's',
{
    lemma_keys();
    lemma_optional_member_leads(",\"bgcolor\":"@, payload.bg_color, "}"@);
    lemma_optional_member_leads(",\"color\":"@, payload.color, from_bg_color(payload));
    lemma_optional_array_leads(
        ",\"extra_categories\":"@,
        payload.extra_categories,
        from_color(payload),
    );
    lemma_optional_member_leads(
        ",\"original_category\":"@,
        payload.original_category,
        from_extra_categories(payload),
    );
}

/// A payload reads back: its text says what each member is, those left out because they are empty
/// included.
pub proof fn lemma_payload_reads_back(a: PayloadView, b: PayloadView)
    requires
        payload_text(a) == payload_text(b),
    ensures
        a == b,
{
    lemma_payload_from_the_front(a);
    lemma_payload_from_the_front(b);
    lemma_keys();
    lemma_leads(a);
    lemma_leads(b);
    lemma_member_reads_back("{\"time\":"@, a.time, b.time, from_priority(a), from_priority(b));
    lemma_member_reads_back(
        ",\"priority\":"@,
        a.priority,
        b.priority,
        from_category(a),
        from_category(b),
    );
    lemma_member_reads_back(
        ",\"category\":"@,
        a.category,
        b.category,
        from_message(a),
        from_message(b),
    );
    lemma_member_reads_back(
        ",\"message\":"@,
        a.message,
        b.message,
        from_source(a),
        from_source(b),
    );
    lemma_optional_member_reads_back(
        ",\"source\":"@,
        a.source,
        b.source,
        from_original_category(a),
        from_original_category(b),
    );
    lemma_optional_member_reads_back(
        ",\"original_category\":"@,
        a.original_category,
        b.original_category,
        from_extra_categories(a),
        from_extra_categories(b),
    );
    lemma_optional_array_reads_back(
        ",\"extra_categories\":"@,
        a.extra_categories,
        b.extra_categories,
        from_color(a),
        from_color(b),
    );
    lemma_optional_member_reads_back(
        ",\"color\":"@,
        a.color,
        b.color,
        from_bg_color(a),
        from_bg_color(b),
    );
    lemma_optional_member_reads_back(",\"bgcolor\":"@, a.bg_color, b.bg_color, "}"@, "}"@);
}

/// The number that a hexadecimal digit stands for.
pub open spec fn hex_value(c: char) -> int {
    if '0' <= c <= '9' {
        c as int - '0' as int
    } else {
        c as int - 'a' as int + 10
    }
}

/// What a backslash and a letter stand for in JSON.
pub open spec fn short_escape(c: char) -> char {
    if c == 'b' {
        '\u{8}'
    } else if c == 't' {
        '\t'
    } else if c == 'n' {
        '\n'
    } else if c == 'f' {
        '\u{c}'
    } else if c == 'r' {
        '\r'
    } else {
        c
    }
}

/// The text that the inside of a JSON string stands for, as JSON defines it.
pub open spec fn unescaped(inside: Seq<char>) -> Seq<char>
    decreases inside.len(),
{
    if inside.len() == 0 {
        seq![]
    } else if inside[0] != '\\' {
        seq![inside[0]] + unescaped(inside.skip(1))
    } else if inside.len() >= 6 && inside[1] == 'u' {
        let code = hex_value(inside[2]) * 0x1000 + hex_value(inside[3]) * 0x100 + hex_value(
            inside[4],
        ) * 0x10 + hex_value(inside[5]);
        seq![code as char] + unescaped(inside.skip(6))
    } else if inside.len() >= 2 {
        seq![short_escape(inside[1])] + unescaped(inside.skip(2))
    } else {
        seq![]
    }
}

/// Whether JSON allows a text inside a string: no control character, and neither a quote nor a
/// backslash that does not belong to an escape.
pub open spec fn allowed_inside(inside: Seq<char>) -> bool
    decreases inside.len(),
{
    if inside.len() == 0 {
        true
    } else if inside[0] != '\\' {
        &&& inside[0] != '"'
        &&& inside[0] as int >= 0x20
        &&& allowed_inside(inside.skip(1))
    } else if inside.len() >= 2 && inside[1] == 'u' {
        &&& inside.len() >= 6
        &&& allowed_inside(inside.skip(6))
    } else {
        &&& inside.len() >= 2
        &&& inside[1] == '"' || inside[1] == '\\' || inside[1] == 'b' || inside[1] == 't'
            || inside[1] == 'n' || inside[1] == 'f' || inside[1] == 'r'
        &&& allowed_inside(inside.skip(2))
    }
}

proof fn lemma_one_escape(c: char, rest: Seq<char>)
    ensures
        unescaped(escaped_char(c) + rest) == seq![c] + unescaped(rest),
        allowed_inside(rest) ==> allowed_inside(escaped_char(c) + rest),
{
    let written = escaped_char(c);
    let whole = written + rest;
    assert(whole.skip(written.len() as int) =~= rest);
    assert(whole[0] == written[0]);
    if written.len() > 1 {
        assert(whole[1] == written[1]);
        if written.len() > 2 {
            assert(whole[2] == written[2] && whole[3] == written[3]);
            assert(whole[4] == written[4] && whole[5] == written[5]);
            assert(hex_value(whole[2]) == 0 && hex_value(whole[3]) == 0);
            assert(hex_value(whole[4]) * 0x10 + hex_value(whole[5]) == c as int);
        }
    }
}

proof fn lemma_escaped_text_decodes(text: Seq<char>)
    ensures
        unescaped(escaped(text)) == text,
        allowed_inside(escaped(text)),
    decreases text.len(),
{
    if text.len() > 0 {
        lemma_escaped_text_decodes(text.drop_first());
        lemma_one_escape(text[0], escaped(text.drop_first()));
        assert(seq![text[0]] + text.drop_first() =~= text);
    } else {
        assert(unescaped(escaped(text)) =~= text);
    }
}

/// A text written as a JSON string is one: quotes around what JSON allows inside, which stands for
/// exactly that text.
pub proof fn lemma_json_string_decodes(text: Seq<char>)
    ensures
        ({
            let written = json_string(text);
            let n = written.len() as int;
            &&& n >= 2
            &&& written[0] == '"'
            &&& written[n - 1] == '"'
            &&& allowed_inside(written.subrange(1, n - 1))
            &&& unescaped(written.subrange(1, n - 1)) == text
        }),
{
    let written = json_string(text);
    assert(written.subrange(1, written.len() - 1) =~= escaped(text));
    lemma_escaped_text_decodes(text);
}

/// Members of a JSON object, keys without their quotes, separated by commas.
pub open spec fn members_text(members: Seq<(Seq<char>, Seq<char>)>) -> Seq<char>
    decreases members.len(),
{
    if members.len() == 0 {
        seq![]
    } else {
        let comma = if members.len() == 1 {
            seq![]
        } else {
            seq![',']
        };
        members_text(members.drop_last()) + comma + seq!['"'] + members.last().0 + seq!['"', ':']
            + members.last().1
    }
}

/// The value of the member with that key, if there is one.
pub open spec fn lookup(members: Seq<(Seq<char>, Seq<char>)>, key: Seq<char>) -> Option<Seq<char>>
    decreases members.len(),
{
    if members.len() == 0 {
        None
    } else if members.last().0 == key {
        Some(members.last().1)
    } else {
        lookup(members.drop_last(), key)
    }
}

/// The members `members`, and one more unless `text` is empty.
spec fn and_unless_empty(
    members: Seq<(Seq<char>, Seq<char>)>,
    key: Seq<char>,
    text: Seq<char>,
) -> Seq<(Seq<char>, Seq<char>)> {
    if text.len() == 0 {
        members
    } else {
        members.push((key, json_string(text)))
    }
}

spec fn and_list_unless_empty(
    members: Seq<(Seq<char>, Seq<char>)>,
    key: Seq<char>,
    list: Seq<Seq<char>>,
) -> Seq<(Seq<char>, Seq<char>)> {
    if list.len() == 0 {
        members
    } else {
        members.push((key, seq!['['] + json_strings(list) + seq![']']))
    }
}

proof fn lemma_one_more_member(
    members: Seq<(Seq<char>, Seq<char>)>,
    key: Seq<char>,
    written: Seq<char>,
    value: Seq<char>,
)
    requires
        members.len() > 0,
        written == seq![',', '"'] + key + seq!['"', ':'],
    ensures
        members_text(members.push((key, value))) == members_text(members) + (written + value),
{
    let more = members.push((key, value));
    assert(more.drop_last() =~= members);
    assert(members_text(more) =~= members_text(members) + (written + value));
}

proof fn lemma_one_more_optional(
    members: Seq<(Seq<char>, Seq<char>)>,
    key: Seq<char>,
    written: Seq<char>,
    text: Seq<char>,
)
    requires
        members.len() > 0,
        written == seq![',', '"'] + key + seq!['"', ':'],
    ensures
        members_text(and_unless_empty(members, key, text)) == members_text(members)
            + optional_member(written, text),
{
    if text.len() == 0 {
        assert(members_text(members) + optional_member(written, text) =~= members_text(members));
    } else {
        lemma_one_more_member(members, key, written, json_string(text));
    }
}

proof fn lemma_one_more_list(
    members: Seq<(Seq<char>, Seq<char>)>,
    key: Seq<char>,
    written: Seq<char>,
    list: Seq<Seq<char>>,
)
    requires
        members.len() > 0,
        written == seq![',', '"'] + key + seq!['"', ':'],
    ensures
        members_text(and_list_unless_empty(members, key, list)) == members_text(members)
            + optional_array(written, list),
{
    if list.len() == 0 {
        assert(members_text(members) + optional_array(written, list) =~= members_text(members));
    } else {
        let value = seq!['['] + json_strings(list) + seq![']'];
        lemma_one_more_member(members, key, written, value);
        assert(written + value =~= optional_array(written, list));
    }
}

/// The keys as they are written.
proof fn lemma_written_keys()
    ensures
        "{\"time\":"@ == seq!['{', '"'] + "time"@ + seq!['"', ':'],
        ",\"priority\":"@ == seq![',', '"'] + "priority"@ + seq!['"', ':'],
        ",\"category\":"@ == seq![',', '"'] + "category"@ + seq!['"', ':'],
        ",\"message\":"@ == seq![',', '"'] + "message"@ + seq!['"', ':'],
        ",\"source\":"@ == seq![',', '"'] + "source"@ + seq!['"', ':'],
        ",\"original_category\":"@ == seq![',', '"'] + "original_category"@ + seq!['"', ':'],
        ",\"extra_categories\":"@ == seq![',', '"'] + "extra_categories"@ + seq!['"', ':'],
        ",\"color\":"@ == seq![',', '"'] + "color"@ + seq!['"', ':'],
        ",\"bgcolor\":"@ == seq![',', '"'] + "bgcolor"@ + seq!['"', ':'],
{
    reveal_strlit("{\"time\":");
    reveal_strlit(",\"priority\":");
    reveal_strlit(",\"category\":");
    reveal_strlit(",\"message\":");
    reveal_strlit(",\"source\":");
    reveal_strlit(",\"original_category\":");
    reveal_strlit(",\"extra_categories\":");
    reveal_strlit(",\"color\":");
    reveal_strlit(",\"bgcolor\":");
    reveal_strlit("time");
    reveal_strlit("priority");
    reveal_strlit("category");
    reveal_strlit("message");
    reveal_strlit("source");
    reveal_strlit("original_category");
    reveal_strlit("extra_categories");
    reveal_strlit("color");
    reveal_strlit("bgcolor");
    assert("{\"time\":"@ =~= seq!['{', '"'] + "time"@ + seq!['"', ':']);
    assert(",\"priority\":"@ =~= seq![',', '"'] + "priority"@ + seq!['"', ':']);
    assert(",\"category\":"@ =~= seq![',', '"'] + "category"@ + seq!['"', ':']);
    assert(",\"message\":"@ =~= seq![',', '"'] + "message"@ + seq!['"', ':']);
    assert(",\"source\":"@ =~= seq![',', '"'] + "source"@ + seq!['"', ':']);
    assert(",\"original_category\":"@ =~= seq![',', '"'] + "original_category"@ + seq!['"', ':']);
    assert(",\"extra_categories\":"@ =~= seq![',', '"'] + "extra_categories"@ + seq!['"', ':']);
    assert(",\"color\":"@ =~= seq![',', '"'] + "color"@ + seq!['"', ':']);
    assert(",\"bgcolor\":"@ =~= seq![',', '"'] + "bgcolor"@ + seq!['"', ':']);
}

/// No two keys are the same.
proof fn lemma_keys_differ()
    ensures
        "time"@.len() == 4,
        "priority"@.len() == 8 && "priority"@[0] == 'p',
        "category"@.len() == 8 && "category"@[0] == 'c',
        "message"@.len() == 7 && "message"@[0] == 'm',
        "source"@.len() == 6,
        "original_category"@.len() == 17,
        "extra_categories"@.len() == 16,
        "color"@.len() == 5,
        "bgcolor"@.len() == 7 && "bgcolor"@[0] == 'b',
{
    reveal_strlit("time");
    reveal_strlit("priority");
    reveal_strlit("category");
    reveal_strlit("message");
    reveal_strlit("source");
    reveal_strlit("original_category");
    reveal_strlit("extra_categories");
    reveal_strlit("color");
    reveal_strlit("bgcolor");
}

proof fn lemma_lookup_push(
    members: Seq<(Seq<char>, Seq<char>)>,
    key: Seq<char>,
    value: Seq<char>,
    wanted: Seq<char>,
)
    ensures
        lookup(members.push((key, value)), wanted) == (if key == wanted {
            Some(value)
        } else {
            lookup(members, wanted)
        }),
{
    assert(members.push((key, value)).drop_last() =~= members);
}

/// A text member that is there exactly if the text is not empty.
pub open spec fn member_if_any(text: Seq<char>) -> Option<Seq<char>> {
    if text.len() == 0 {
        None
    } else {
        Some(json_string(text))
    }
}

/// Whether members are exactly those of an entry: when, how important, which category and what it
/// says are always there; each of the other parts is there exactly if the entry has it; each under
/// its own key and with its own value; and nothing else is there.
pub open spec fn are_members_of(members: Seq<(Seq<char>, Seq<char>)>, record: RecordView) -> bool {
    &&& lookup(members, "time"@) matches Some(time) && exists|text: Seq<char>|
        time == #[trigger] json_string(text) && reads_as_instant(text, epoch_nanos(record.time))
    &&& lookup(members, "priority"@) == Some(json_string(record.priority.name()))
    &&& lookup(members, "category"@) == Some(json_string(record.category))
    &&& lookup(members, "message"@) == Some(json_string(record.message))
    &&& lookup(members, "source"@) == member_if_any(record.source)
    &&& lookup(members, "original_category"@) == member_if_any(record.original_category)
    &&& lookup(members, "color"@) == member_if_any(record.color)
    &&& lookup(members, "bgcolor"@) == member_if_any(record.bg_color)
    &&& lookup(members, "extra_categories"@) == (if record.extra_categories.len() == 0 {
        None
    } else {
        Some(seq!['['] + json_strings(record.extra_categories) + seq![']'])
    })
    &&& members.len() == 4 + count_if_any(record.source) + count_if_any(record.original_category)
        + count_if_any(record.color) + count_if_any(record.bg_color) + (if
        record.extra_categories.len() == 0 {
        0int
    } else {
        1
    })
}

/// One for a text that is not empty.
pub open spec fn count_if_any(text: Seq<char>) -> int {
    if text.len() == 0 {
        0
    } else {
        1
    }
}

/// The payload of an entry is a JSON object with exactly the entry's own parts as its members.
#[verifier::rlimit(40)]
pub proof fn lemma_payload_has_the_parts_of_its_entry(record: RecordView) -> (members: Seq<
    (Seq<char>, Seq<char>),
>)
    ensures
        payload_text(payload_of(record)) == seq!['{'] + members_text(members) + seq!['}'],
        are_members_of(members, record),
{
    let time = utc_text(epoch_nanos(record.time));
    let first = ("time"@, json_string(time));
    let one: Seq<(Seq<char>, Seq<char>)> = seq![first];
    let two = one.push(("priority"@, json_string(record.priority.name())));
    let three = two.push(("category"@, json_string(record.category)));
    let four = three.push(("message"@, json_string(record.message)));
    let five = and_unless_empty(four, "source"@, record.source);
    let six = and_unless_empty(five, "original_category"@, record.original_category);
    let seven = and_list_unless_empty(six, "extra_categories"@, record.extra_categories);
    let eight = and_unless_empty(seven, "color"@, record.color);
    let nine = and_unless_empty(eight, "bgcolor"@, record.bg_color);
    lemma_written_keys();
    assert(one.drop_last() =~= Seq::<(Seq<char>, Seq<char>)>::empty());
    assert(members_text(one.drop_last()) =~= Seq::<char>::empty());
    assert(seq!['{'] + members_text(one) =~= "{\"time\":"@ + json_string(time));
    lemma_one_more_member(
        one,
        "priority"@,
        ",\"priority\":"@,
        json_string(record.priority.name()),
    );
    lemma_one_more_member(two, "category"@, ",\"category\":"@, json_string(record.category));
    lemma_one_more_member(three, "message"@, ",\"message\":"@, json_string(record.message));
    lemma_one_more_optional(four, "source"@, ",\"source\":"@, record.source);
    lemma_one_more_optional(
        five,
        "original_category"@,
        ",\"original_category\":"@,
        record.original_category,
    );
    lemma_one_more_list(
        six,
        "extra_categories"@,
        ",\"extra_categories\":"@,
        record.extra_categories,
    );
    lemma_one_more_optional(seven, "color"@, ",\"color\":"@, record.color);
    lemma_one_more_optional(eight, "bgcolor"@, ",\"bgcolor\":"@, record.bg_color);
    lemma_payload_grows(record, one, two, three, four, five, six, seven, eight, nine);
    lemma_members_are_found(record);
    lemma_timestamp_reads_back(epoch_nanos(record.time));
    nine
}

/// The payload's text, one member after the other.
proof fn lemma_payload_grows(
    record: RecordView,
    one: Seq<(Seq<char>, Seq<char>)>,
    two: Seq<(Seq<char>, Seq<char>)>,
    three: Seq<(Seq<char>, Seq<char>)>,
    four: Seq<(Seq<char>, Seq<char>)>,
    five: Seq<(Seq<char>, Seq<char>)>,
    six: Seq<(Seq<char>, Seq<char>)>,
    seven: Seq<(Seq<char>, Seq<char>)>,
    eight: Seq<(Seq<char>, Seq<char>)>,
    nine: Seq<(Seq<char>, Seq<char>)>,
)
    requires
        seq!['{'] + members_text(one) == "{\"time\":"@ + json_string(
            utc_text(epoch_nanos(record.time)),
        ),
        members_text(two) == members_text(one) + (",\"priority\":"@ + json_string(
            record.priority.name(),
        )),
        members_text(three) == members_text(two) + (",\"category\":"@ + json_string(
            record.category,
        )),
        members_text(four) == members_text(three) + (",\"message\":"@ + json_string(
            record.message,
        )),
        members_text(five) == members_text(four) + optional_member(",\"source\":"@, record.source),
        members_text(six) == members_text(five) + optional_member(
            ",\"original_category\":"@,
            record.original_category,
        ),
        members_text(seven) == members_text(six) + optional_array(
            ",\"extra_categories\":"@,
            record.extra_categories,
        ),
        members_text(eight) == members_text(seven) + optional_member(
            ",\"color\":"@,
            record.color,
        ),
        members_text(nine) == members_text(eight) + optional_member(
            ",\"bgcolor\":"@,
            record.bg_color,
        ),
    ensures
        payload_text(payload_of(record)) == seq!['{'] + members_text(nine) + seq!['}'],
{
    reveal_strlit("}");
    assert("}"@ =~= seq!['}']);
    let open = seq!['{'];
    let priority = ",\"priority\":"@ + json_string(record.priority.name());
    let category = ",\"category\":"@ + json_string(record.category);
    let message = ",\"message\":"@ + json_string(record.message);
    let time = "{\"time\":"@ + json_string(utc_text(epoch_nanos(record.time)));
    assert(open + members_text(two) =~= time + ",\"priority\":"@ + json_string(
        record.priority.name(),
    ));
    assert(open + members_text(three) =~= open + members_text(two) + ",\"category\":"@
        + json_string(record.category));
    assert(open + members_text(four) =~= open + members_text(three) + ",\"message\":"@
        + json_string(record.message));
    assert(open + members_text(five) =~= open + members_text(four) + optional_member(
        ",\"source\":"@,
        record.source,
    ));
    assert(open + members_text(six) =~= open + members_text(five) + optional_member(
        ",\"original_category\":"@,
        record.original_category,
    ));
    assert(open + members_text(seven) =~= open + members_text(six) + optional_array(
        ",\"extra_categories\":"@,
        record.extra_categories,
    ));
    assert(open + members_text(eight) =~= open + members_text(seven) + optional_member(
        ",\"color\":"@,
        record.color,
    ));
    assert(open + members_text(nine) =~= open + members_text(eight) + optional_member(
        ",\"bgcolor\":"@,
        record.bg_color,
    ));
}

spec fn entry_members(record: RecordView) -> Seq<(Seq<char>, Seq<char>)> {
    let time = utc_text(epoch_nanos(record.time));
    let one: Seq<(Seq<char>, Seq<char>)> = seq![("time"@, json_string(time))];
    let four = one.push(("priority"@, json_string(record.priority.name()))).push(
        ("category"@, json_string(record.category)),
    ).push(("message"@, json_string(record.message)));
    let six = and_unless_empty(
        and_unless_empty(four, "source"@, record.source),
        "original_category"@,
        record.original_category,
    );
    and_unless_empty(
        and_unless_empty(
            and_list_unless_empty(six, "extra_categories"@, record.extra_categories),
            "color"@,
            record.color,
        ),
        "bgcolor"@,
        record.bg_color,
    )
}

proof fn lemma_lookup_optional(
    members: Seq<(Seq<char>, Seq<char>)>,
    key: Seq<char>,
    text: Seq<char>,
    wanted: Seq<char>,
)
    ensures
        lookup(and_unless_empty(members, key, text), wanted) == (if key == wanted && text.len()
            > 0 {
            Some(json_string(text))
        } else {
            lookup(members, wanted)
        }),
{
    lemma_lookup_push(members, key, json_string(text), wanted);
}

proof fn lemma_lookup_list(
    members: Seq<(Seq<char>, Seq<char>)>,
    key: Seq<char>,
    list: Seq<Seq<char>>,
    wanted: Seq<char>,
)
    ensures
        lookup(and_list_unless_empty(members, key, list), wanted) == (if key == wanted
            && list.len() > 0 {
            Some(seq!['['] + json_strings(list) + seq![']'])
        } else {
            lookup(members, wanted)
        }),
{
    lemma_lookup_push(members, key, seq!['['] + json_strings(list) + seq![']'], wanted);
}

/// What a key stands for among an entry's members.
proof fn lemma_member_is_found(record: RecordView, wanted: Seq<char>)
    ensures
        lookup(entry_members(record), wanted) == (if wanted == "bgcolor"@ && record.bg_color.len()
            > 0 {
            Some(json_string(record.bg_color))
        } else if wanted == "color"@ && record.color.len() > 0 {
            Some(json_string(record.color))
        } else if wanted == "extra_categories"@ && record.extra_categories.len() > 0 {
            Some(seq!['['] + json_strings(record.extra_categories) + seq![']'])
        } else if wanted == "original_category"@ && record.original_category.len() > 0 {
            Some(json_string(record.original_category))
        } else if wanted == "source"@ && record.source.len() > 0 {
            Some(json_string(record.source))
        } else if wanted == "message"@ {
            Some(json_string(record.message))
        } else if wanted == "category"@ {
            Some(json_string(record.category))
        } else if wanted == "priority"@ {
            Some(json_string(record.priority.name()))
        } else if wanted == "time"@ {
            Some(json_string(utc_text(epoch_nanos(record.time))))
        } else {
            None
        }),
{
    let none = Seq::<(Seq<char>, Seq<char>)>::empty();
    let time = json_string(utc_text(epoch_nanos(record.time)));
    let one: Seq<(Seq<char>, Seq<char>)> = seq![("time"@, time)];
    assert(one =~= none.push(("time"@, time)));
    let two = one.push(("priority"@, json_string(record.priority.name())));
    let three = two.push(("category"@, json_string(record.category)));
    let four = three.push(("message"@, json_string(record.message)));
    let five = and_unless_empty(four, "source"@, record.source);
    let six = and_unless_empty(five, "original_category"@, record.original_category);
    let seven = and_list_unless_empty(six, "extra_categories"@, record.extra_categories);
    let eight = and_unless_empty(seven, "color"@, record.color);
    lemma_lookup_push(none, "time"@, time, wanted);
    lemma_lookup_push(one, "priority"@, json_string(record.priority.name()), wanted);
    lemma_lookup_push(two, "category"@, json_string(record.category), wanted);
    lemma_lookup_push(three, "message"@, json_string(record.message), wanted);
    lemma_lookup_optional(four, "source"@, record.source, wanted);
    lemma_lookup_optional(five, "original_category"@, record.original_category, wanted);
    lemma_lookup_list(six, "extra_categories"@, record.extra_categories, wanted);
    lemma_lookup_optional(seven, "color"@, record.color, wanted);
    lemma_lookup_optional(eight, "bgcolor"@, record.bg_color, wanted);
}

proof fn lemma_members_are_found(record: RecordView)
    ensures
        are_members_of(entry_members(record), record),
{
    lemma_keys_differ();
    lemma_timestamp_reads_back(epoch_nanos(record.time));
    lemma_member_is_found(record, "time"@);
    lemma_member_is_found(record, "priority"@);
    lemma_member_is_found(record, "category"@);
    lemma_member_is_found(record, "message"@);
    lemma_member_is_found(record, "source"@);
    lemma_member_is_found(record, "original_category"@);
    lemma_member_is_found(record, "extra_categories"@);
    lemma_member_is_found(record, "color"@);
    lemma_member_is_found(record, "bgcolor"@);
}

/// What is on the wire says what was logged: entries with the same payload agree in every part, and
/// were made in the same millisecond.
pub proof fn lemma_wire_says_what_was_logged(a: RecordView, b: RecordView)
    requires
        payload_bytes(a) == payload_bytes(b),
    ensures
        payload_of(a) == payload_of(b),
        epoch_nanos(a.time) / 1_000_000 == epoch_nanos(b.time) / 1_000_000,
        a.priority.name() == b.priority.name(),
        a.category == b.category,
        a.message == b.message,
        a.source == b.source,
        a.original_category == b.original_category,
        a.extra_categories == b.extra_categories,
        a.color == b.color,
        a.bg_color == b.bg_color,
{
    encode_utf8_decode_utf8(payload_text(payload_of(a)));
    encode_utf8_decode_utf8(payload_text(payload_of(b)));
    lemma_payload_reads_back(payload_of(a), payload_of(b));
    lemma_timestamp_reads_back(epoch_nanos(a.time));
    lemma_timestamp_reads_back(epoch_nanos(b.time));
    assert(epoch_nanos(a.time) / 1_000_000 == epoch_nanos(a.time) / 86_400_000_000_000 * 86_400_000
        + epoch_nanos(a.time) % 86_400_000_000_000 / 1_000_000);
    assert(epoch_nanos(b.time) / 1_000_000 == epoch_nanos(b.time) / 86_400_000_000_000 * 86_400_000
        + epoch_nanos(b.time) % 86_400_000_000_000 / 1_000_000);
}

/// Whether bytes are the frame of an entry: a zero, the length of the payload in four bytes, and
/// the payload, which is the UTF-8 of a JSON object with exactly the entry's parts.
pub open spec fn is_frame_of(frame: Seq<u8>, record: RecordView) -> bool {
    &&& frame.len() >= 5
    &&& frame[0] == 0
    &&& read_big_endian(frame.subrange(1, 5)) == frame.len() - 5
    &&& exists|members: Seq<(Seq<char>, Seq<char>)>|
        {
            &&& frame.skip(5) == #[trigger] encode_utf8(
                seq!['{'] + members_text(members) + seq!['}'],
            )
            &&& are_members_of(members, record)
        }
}

/// The frame of an entry whose payload is within the limit.
pub proof fn lemma_entry_frame(record: RecordView)
    ensures
        payload_bytes(record).len() <= 16_777_216 ==> is_frame_of(
            frame_bytes(0, payload_bytes(record)),
            record,
        ),
        frame_bytes(0, payload_bytes(record)).len() == payload_bytes(record).len() + 5,
{
    let members = lemma_payload_has_the_parts_of_its_entry(record);
    let payload = payload_bytes(record);
    let frame = frame_bytes(0, payload);
    assert(payload == encode_utf8(seq!['{'] + members_text(members) + seq!['}']));
    if payload.len() <= 16_777_216 {
        lemma_frame_reads_back(0, payload, seq![]);
        assert(frame + Seq::<u8>::empty() =~= frame);
        assert(frame.skip(5) =~= payload);
    }
}

/// An entry is encoded as its own frame if the payload is at most 16 MiB long, and otherwise
/// refused with that size and that limit; nothing else happens.
pub proof fn lemma_entries_are_encoded_or_refused(record: &Record, result: Result<Vec<u8>, Error>)
    requires
        call_ensures(encode_record, (record,), result),
    ensures
        match result {
            Ok(frame) => is_frame_of(frame@, record@) && frame@.len() <= 16_777_216 + 5,
            Err(Error::PayloadTooLarge { size, limit }) => {
                &&& limit == 16_777_216
                &&& size > 16_777_216
                &&& exists|members: Seq<(Seq<char>, Seq<char>)>|
                    {
                        &&& size == (#[trigger] encode_utf8(
                            seq!['{'] + members_text(members) + seq!['}'],
                        )).len()
                        &&& are_members_of(members, record@)
                    }
            },
            Err(_) => false,
        },
{
    let members = lemma_payload_has_the_parts_of_its_entry(record@);
    let payload = encode_utf8(seq!['{'] + members_text(members) + seq!['}']);
    assert(payload == payload_bytes(record@));
    lemma_entry_frame(record@);
}

/// Entries that went out as the same frame agree in every part.
pub proof fn lemma_frames_say_what_was_logged(
    a: &Record,
    b: &Record,
    first: Vec<u8>,
    second: Vec<u8>,
)
    requires
        call_ensures(encode_record, (a,), Ok(first)),
        call_ensures(encode_record, (b,), Ok(second)),
        first@ == second@,
    ensures
        epoch_nanos(a@.time) / 1_000_000 == epoch_nanos(b@.time) / 1_000_000,
        a@.priority.name() == b@.priority.name(),
        a@.category == b@.category,
        a@.message == b@.message,
        a@.source == b@.source,
        a@.original_category == b@.original_category,
        a@.extra_categories == b@.extra_categories,
        a@.color == b@.color,
        a@.bg_color == b@.bg_color,
{
    assert(first@.skip(5) =~= payload_bytes(a@));
    assert(second@.skip(5) =~= payload_bytes(b@));
    lemma_wire_says_what_was_logged(a@, b@);
}

/// A list is written in order, its first text first: the text alone if there is no other, and
/// otherwise a comma and the rest of the list behind it.
pub proof fn lemma_lists_are_written_in_order(list: Seq<Seq<char>>)
    requires
        list.len() > 0,
    ensures
        list.len() == 1 ==> json_strings(list) == json_string(list[0]),
        list.len() > 1 ==> json_strings(list) == json_string(list[0]) + (seq![','] + json_strings(
            list.skip(1),
        )),
{
    lemma_strings_from_the_front(list);
    assert(list.skip(1) =~= list.drop_first());
    assert(json_string(list[0]) + Seq::<char>::empty() =~= json_string(list[0]));
}

/// The JSON of an entry's payload is an object with exactly the entry's parts.
pub proof fn lemma_json_has_the_parts_of_its_entry(
    record: &Record,
    payload: LogPayload,
    json: Result<String, JsonError>,
) -> (members: Seq<(Seq<char>, Seq<char>)>)
    requires
        call_ensures(LogPayload::from_record, (record,), payload),
        call_ensures(LogPayload::to_json, (&payload,), json),
    ensures
        json is Ok,
        json->Ok_0@ == seq!['{'] + members_text(members) + seq!['}'],
        are_members_of(members, record@),
{
    lemma_payload_has_the_parts_of_its_entry(record@)
}

/// The banner payload is `ECAPPLOG`, a space and the name, in UTF-8.
pub proof fn lemma_banner_names_the_application(app_name: &str, payload: Vec<u8>)
    requires
        call_ensures(banner_payload, (app_name,), payload),
    ensures
        payload@ == seq![69u8, 67, 65, 80, 80, 76, 79, 71, 32] + encode_utf8(app_name@),
{
    assert(BANNER_PREFIX@ =~= seq![69u8, 67, 65, 80, 80, 76, 79, 71, 32]);
}

/// A frame replaces whatever the buffer held, and reads back as the command and the payload.
pub proof fn lemma_encoded_frames_read_back(command: u8, payload: &[u8], out: &mut Vec<u8>)
    requires
        call_ensures(encode_frame, (command, payload, out), ()),
        payload@.len() <= u32::MAX,
    ensures
        final(out)@.len() == payload@.len() + 5,
        final(out)@[0] == command,
        read_big_endian(final(out)@.subrange(1, 5)) == payload@.len(),
        final(out)@.skip(5) == payload@,
{
    lemma_frame_reads_back(command, payload@, seq![]);
    let frame = frame_bytes(command, payload@);
    assert(frame + Seq::<u8>::empty() =~= frame);
    assert(frame.skip(5) =~= payload@);
}

}
