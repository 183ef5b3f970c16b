//! The wire protocol: frame layout and the JSON log payload.
//!
//! A frame is
//!
//! ```text
//! [u8  command]
//! [u32 payload length, big-endian]
//! [payload bytes]
//! ```
//!
//! with no delimiter and nothing to read back. The whole frame is built in one buffer.

use serde_json::Error as JsonError;
use vstd::prelude::*;
use vstd::string::*;
use vstd::utf8::encode_utf8;

use crate::error::Error;
use crate::clock::epoch_nanos;
use crate::json::{json_string, quote};
use crate::record::{Record, RecordView};
use crate::text::texts;
use crate::timestamp::{format_utc, utc_text};

verus! {

/// Names the connection. Sent once, immediately after connecting.
pub const CMD_BANNER: u8 = 99;

/// Carries a JSON log entry.
pub const CMD_LOG: u8 = 0;

/// The mandatory banner prefix. The trailing space is part of it: the server checks for it and
/// then strips exactly 9 bytes. In ASCII it reads `ECAPPLOG `.
pub const BANNER_PREFIX: [u8; 9] = [69, 67, 65, 80, 80, 76, 79, 71, 32];

/// The server closes the connection on any frame declaring more than this. Exactly this many
/// bytes is still accepted.
pub const MAX_PAYLOAD_SIZE: usize = 16 * 1024 * 1024;

/// The JSON object sent as a [`CMD_LOG`] payload.
///
/// The first four keys are always emitted, even when empty. The rest are omitted when empty. The
/// server reads by key, so the order of the keys is a convention and not a requirement.
pub struct LogPayload<'a> {
    /// The rendered timestamp.
    pub time: String,
    /// The wire name of the priority.
    pub priority: &'a str,
    /// The GUI tab.
    pub category: &'a str,
    /// The text of the entry.
    pub message: &'a str,
    /// Free-form context.
    pub source: &'a str,
    /// The finer category.
    pub original_category: &'a str,
    /// More GUI tabs.
    pub extra_categories: &'a [String],
    /// The foreground colour.
    pub color: &'a str,
    /// The background colour. Its key is one word, no underscore -- unlike `original_category`.
    pub bg_color: &'a str,
}

/// What a [`LogPayload`] says, with its strings as sequences of characters.
#[verifier::ext_equal]
pub struct PayloadView {
    pub time: Seq<char>,
    pub priority: Seq<char>,
    pub category: Seq<char>,
    pub message: Seq<char>,
    pub source: Seq<char>,
    pub original_category: Seq<char>,
    pub extra_categories: Seq<Seq<char>>,
    pub color: Seq<char>,
    pub bg_color: Seq<char>,
}

impl<'a> View for LogPayload<'a> {
    type V = PayloadView;

    open spec fn view(&self) -> PayloadView {
        PayloadView {
            time: self.time@,
            priority: self.priority@,
            category: self.category@,
            message: self.message@,
            source: self.source@,
            original_category: self.original_category@,
            extra_categories: texts(self.extra_categories@),
            color: self.color@,
            bg_color: self.bg_color@,
        }
    }
}

/// What goes on the wire for an entry.
pub open spec fn payload_of(record: RecordView) -> PayloadView {
    PayloadView {
        time: utc_text(epoch_nanos(record.time)),
        priority: record.priority.name(),
        category: record.category,
        message: record.message,
        source: record.source,
        original_category: record.original_category,
        extra_categories: record.extra_categories,
        color: record.color,
        bg_color: record.bg_color,
    }
}

/// A member of a JSON object that is left out when its value is empty.
pub open spec fn optional_member(key: Seq<char>, value: Seq<char>) -> Seq<char> {
    if value.len() == 0 {
        seq![]
    } else {
        key + json_string(value)
    }
}

/// JSON strings separated by commas.
pub open spec fn json_strings(values: Seq<Seq<char>>) -> Seq<char>
    decreases values.len(),
{
    if values.len() == 0 {
        seq![]
    } else if values.len() == 1 {
        json_string(values[0])
    } else {
        json_strings(values.drop_last()) + seq![','] + json_string(values.last())
    }
}

/// A member of a JSON object that holds an array, left out when the array is empty.
pub open spec fn optional_array(key: Seq<char>, values: Seq<Seq<char>>) -> Seq<char> {
    if values.len() == 0 {
        seq![]
    } else {
        key + seq!['['] + json_strings(values) + seq![']']
    }
}

/// The JSON text of a payload: one object, the keys in a fixed order, no whitespace.
pub open spec fn payload_text(payload: PayloadView) -> Seq<char> {
    "{\"time\":"@ + json_string(payload.time)
        + ",\"priority\":"@ + json_string(payload.priority)
        + ",\"category\":"@ + json_string(payload.category)
        + ",\"message\":"@ + json_string(payload.message)
        + optional_member(",\"source\":"@, payload.source)
        + optional_member(",\"original_category\":"@, payload.original_category)
        + optional_array(",\"extra_categories\":"@, payload.extra_categories)
        + optional_member(",\"color\":"@, payload.color)
        + optional_member(",\"bgcolor\":"@, payload.bg_color)
        + "}"@
}

/// The bytes of the payload for an entry.
pub open spec fn payload_bytes(record: RecordView) -> Seq<u8> {
    encode_utf8(payload_text(payload_of(record)))
}

/// Whether a text is empty.
pub fn is_empty(text: &str) -> (empty: bool)
    ensures
        empty == (text@.len() == 0),
{
    text.is_empty()
}

/// Whether a list of texts is empty.
pub fn is_empty_slice(list: &[String]) -> (empty: bool)
    ensures
        empty == (list@.len() == 0),
{
    list.len() == 0
}

/// Appends a member that is always there.
fn push_member(out: &mut String, key: &str, value: &str) -> (done: Result<(), JsonError>)
    ensures
        done is Ok,
        final(out)@ == old(out)@ + key@ + json_string(value@),
{
    out.append(key);
    match quote(value) {
        Ok(quoted) => {
            out.append(quoted.as_str());
            Ok(())
        },
        Err(error) => Err(error),
    }
}

/// Appends a member unless its value is empty.
fn push_optional_member(out: &mut String, key: &str, value: &str) -> (done: Result<(), JsonError>)
    ensures
        done is Ok,
        final(out)@ == old(out)@ + optional_member(key@, value@),
{
    if is_empty(value) {
        assert(out@ =~= out@ + optional_member(key@, value@));
        return Ok(());
    }
    let done = push_member(out, key, value);
    assert(out@ =~= old(out)@ + optional_member(key@, value@));
    done
}

/// Appends an array member unless the array is empty.
fn push_optional_array(out: &mut String, key: &str, values: &[String]) -> (done: Result<
    (),
    JsonError,
>)
    ensures
        done is Ok,
        final(out)@ == old(out)@ + optional_array(key@, texts(values@)),
{
    let ghost before = out@;
    let ghost all = texts(values@);
    if is_empty_slice(values) {
        assert(before =~= before + optional_array(key@, all));
        return Ok(());
    }
    out.append(key);
    out.append("[");
    proof {
        reveal_strlit("[");
        reveal_strlit("]");
        reveal_strlit(",");
        assert("["@ =~= seq!['[']);
        assert("]"@ =~= seq![']']);
        assert(","@ =~= seq![',']);
    }
    let ghost opened = before + key@ + seq!['['];
    assert(out@ =~= opened + json_strings(all.take(0)));
    let mut i: usize = 0;
    while i < values.len()
        invariant
            i <= values@.len(),
            all == texts(values@),
            ","@ == seq![','],
            out@ == opened + json_strings(all.take(i as int)),
        decreases values.len() - i,
    {
        proof {
            let taken = all.take(i + 1);
            assert(taken.drop_last() =~= all.take(i as int));
            assert(taken.last() == values@[i as int]@);
        }
        if i > 0 {
            out.append(",");
        }
        match quote(values[i].as_str()) {
            Ok(quoted) => {
                out.append(quoted.as_str());
            },
            Err(error) => {
                return Err(error);
            },
        }
        assert(out@ =~= opened + json_strings(all.take(i + 1)));
        i = i + 1;
    }
    assert(all.take(i as int) =~= all);
    out.append("]");
    assert(out@ =~= before + optional_array(key@, all));
    Ok(())
}

impl<'a> LogPayload<'a> {
    /// The payload for an entry.
    pub fn from_record(record: &'a Record) -> (payload: Self)
        ensures
            payload@ == payload_of(record@),
    {
        LogPayload {
            time: format_utc(record.time),
            priority: record.priority.as_str(),
            category: record.category.as_str(),
            message: record.message.as_str(),
            source: record.source.as_str(),
            original_category: record.original_category.as_str(),
            extra_categories: record.extra_categories.as_slice(),
            color: record.color.as_str(),
            bg_color: record.bg_color.as_str(),
        }
    }

    /// Serialises the payload to JSON.
    pub fn to_json(&self) -> (json: Result<String, JsonError>)
        ensures
            json is Ok,
            json->Ok_0@ == payload_text(self@),
    {
        let mut out = String::new();
        push_member(&mut out, "{\"time\":", self.time.as_str())?;
        push_member(&mut out, ",\"priority\":", self.priority)?;
        push_member(&mut out, ",\"category\":", self.category)?;
        push_member(&mut out, ",\"message\":", self.message)?;
        push_optional_member(&mut out, ",\"source\":", self.source)?;
        push_optional_member(&mut out, ",\"original_category\":", self.original_category)?;
        push_optional_array(&mut out, ",\"extra_categories\":", self.extra_categories)?;
        push_optional_member(&mut out, ",\"color\":", self.color)?;
        push_optional_member(&mut out, ",\"bgcolor\":", self.bg_color)?;
        out.append("}");
        assert(out@ =~= payload_text(self@));
        Ok(out)
    }
}

/// The low 32 bits of `n`, most significant byte first.
pub open spec fn big_endian(n: int) -> Seq<u8> {
    seq![
        (n / 0x100_0000 % 0x100) as u8,
        (n / 0x1_0000 % 0x100) as u8,
        (n / 0x100 % 0x100) as u8,
        (n % 0x100) as u8,
    ]
}

/// The frame that carries `payload` under `command`.
pub open spec fn frame_bytes(command: u8, payload: Seq<u8>) -> Seq<u8> {
    seq![command] + big_endian(payload.len() as int) + payload
}

/// Writes `command` and `payload` into `out` as a complete frame, replacing whatever `out` held.
///
/// The length field is 32 bits wide, so a payload of 4 GiB or more wraps it. Nothing that long is
/// ever sent: [`encode_record`] refuses payloads far below that.
pub fn encode_frame(command: u8, payload: &[u8], out: &mut Vec<u8>)
    ensures
        final(out)@ == frame_bytes(command, payload@),
{
    let len: usize = payload.len();
    out.clear();
    out.push(command);
    out.push((len / 0x100_0000 % 0x100) as u8);
    out.push((len / 0x1_0000 % 0x100) as u8);
    out.push((len / 0x100 % 0x100) as u8);
    out.push((len % 0x100) as u8);
    out.extend_from_slice(payload);
    assert(out@ =~= frame_bytes(command, payload@));
}

/// The banner payload for an application name: `"ECAPPLOG "` followed by the name.
pub open spec fn banner_bytes(app_name: Seq<char>) -> Seq<u8> {
    BANNER_PREFIX@ + encode_utf8(app_name)
}

/// The banner payload for `app_name`: `"ECAPPLOG "` followed by the name, UTF-8, unterminated.
pub fn banner_payload(app_name: &str) -> (payload: Vec<u8>)
    ensures
        payload@ == banner_bytes(app_name@),
{
    let mut payload: Vec<u8> = Vec::new();
    payload.extend_from_slice(&BANNER_PREFIX);
    payload.extend_from_slice(app_name.as_bytes());
    assert(payload@ =~= banner_bytes(app_name@));
    payload
}

/// The complete frame for an entry, unless the entry cannot be sent.
///
/// A frame over the limit makes the server close the connection, which would take down every entry
/// queued behind this one as well. Dropping the one oversized entry is the lesser loss.
pub fn encode_record(record: &Record) -> (frame: Result<Vec<u8>, Error>)
    ensures
        match frame {
            Ok(bytes) => {
                &&& payload_bytes(record@).len() <= MAX_PAYLOAD_SIZE
                &&& bytes@ == frame_bytes(CMD_LOG, payload_bytes(record@))
            },
            Err(Error::PayloadTooLarge { size, limit }) => {
                &&& payload_bytes(record@).len() > MAX_PAYLOAD_SIZE
                &&& size == payload_bytes(record@).len()
                &&& limit == MAX_PAYLOAD_SIZE
            },
            Err(_) => false,
        },
{
    let json: String = match LogPayload::from_record(record).to_json() {
        Ok(json) => json,
        Err(source) => {
            return Err(Error::Serialize { source });
        },
    };
    let payload: &[u8] = json.as_str().as_bytes();
    if payload.len() > MAX_PAYLOAD_SIZE {
        return Err(Error::PayloadTooLarge { size: payload.len(), limit: MAX_PAYLOAD_SIZE });
    }
    let mut frame: Vec<u8> = Vec::new();
    encode_frame(CMD_LOG, payload, &mut frame);
    Ok(frame)
}

}
