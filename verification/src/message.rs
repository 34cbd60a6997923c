//! The messages that the plugin and the app on the device exchange.

use crate::json;
use crate::text;
use crate::transfer::FILE_CHUNK_BYTES;
use serde_json::Value;
use vstd::prelude::*;

verus! {

/// The tag of messages that set up a connection.
pub const HANDSHAKE_TAG: &'static str = "__hs__";

/// The tag of messages about a file.
pub const FILE_TAG: &'static str = "file";

/// A message from the device about the file that is being sent.
#[derive(Clone, Copy, Debug, PartialEq, Eq, Structural)]
pub enum FileMessage {
    /// The device can receive. `usage` is the storage that it uses, in bytes; `found` and `length`
    /// say whether it has a part of the file already, and how much of it.
    Ready { usage: u64, found: bool, length: u64 },
    /// The device wants chunk `count` once more.
    Error { count: u64 },
    /// The device wants chunk `count`.
    Next { count: u64 },
    /// The device has the whole file.
    Success,
    /// The transfer was given up on the device.
    Cancel,
    Unknown,
}

/// A message from the device.
#[derive(Clone, Copy, Debug, PartialEq, Eq, Structural)]
pub enum Incoming {
    /// A step of the handshake. `count` is the number of steps before it.
    Handshake { count: u64 },
    File(FileMessage),
    Unknown,
}

/// A message to the device.
#[derive(Debug, PartialEq, Eq)]
pub enum Outgoing {
    /// A step of the handshake. `count` is the number of steps before it.
    Handshake { count: usize },
    /// A file is about to be sent in `total` chunks.
    StartTransfer { file_name: String, total: usize },
    /// Chunk `count` of the file. If `resend` is set, the device goes back to this chunk.
    Chunk { count: usize, data: String, resend: bool },
    /// The transfer is given up.
    Cancel,
}

/// What an [`Outgoing`] stands for.
pub enum OutgoingModel {
    Handshake { count: usize },
    StartTransfer { file_name: Seq<char>, total: usize },
    Chunk { count: usize, data: Seq<char>, resend: bool },
    Cancel,
}

impl View for Outgoing {
    type V = OutgoingModel;

    open spec fn view(&self) -> OutgoingModel {
        match self {
            Outgoing::Handshake { count } => OutgoingModel::Handshake { count: *count },
            Outgoing::StartTransfer { file_name, total } => OutgoingModel::StartTransfer {
                file_name: file_name@,
                total: *total,
            },
            Outgoing::Chunk { count, data, resend } => OutgoingModel::Chunk {
                count: *count,
                data: data@,
                resend: *resend,
            },
            Outgoing::Cancel => OutgoingModel::Cancel,
        }
    }
}

/// The text member `key` of a document, or nothing.
pub open spec fn text_member(json: json::Json, key: Seq<char>) -> Option<Seq<char>> {
    match json.member(key) {
        Some(member) => member.text(),
        None => None,
    }
}

/// The non-negative integer member `key` of a document, or 0.
pub open spec fn number_member(json: json::Json, key: Seq<char>) -> u64 {
    match json.member(key) {
        Some(member) => match member.unsigned() {
            Some(number) => number,
            None => 0,
        },
        None => 0,
    }
}

/// The boolean member `key` of a document, or false.
pub open spec fn flag_member(json: json::Json, key: Seq<char>) -> bool {
    match json.member(key) {
        Some(member) => member.flag() == Some(true),
        None => false,
    }
}

/// The message about a file that the members of a document say: `kind` is its kind, and the others
/// are what goes with it.
pub open spec fn file_message_from(
    kind: Option<Seq<char>>,
    usage: u64,
    found: bool,
    length: u64,
    count: u64,
) -> FileMessage {
    if kind == Some("ready"@) {
        FileMessage::Ready { usage, found, length }
    } else if kind == Some("error"@) {
        FileMessage::Error { count }
    } else if kind == Some("next"@) {
        FileMessage::Next { count }
    } else if kind == Some("success"@) {
        FileMessage::Success
    } else if kind == Some("cancel"@) {
        FileMessage::Cancel
    } else {
        FileMessage::Unknown
    }
}

/// The message about a file that a document says. The message may be the member `data` of the
/// document.
pub open spec fn file_message_of(json: json::Json) -> FileMessage {
    let payload = match json.member("data"@) {
        Some(data) => data,
        None => json,
    };
    file_message_from(
        text_member(payload, "type"@),
        number_member(payload, "usage"@),
        flag_member(payload, "found"@),
        number_member(payload, "length"@),
        number_member(payload, "count"@),
    )
}

/// The message that a tag and what goes with it say: `count` is the number of a step of the
/// handshake, and `file` what is said about the file.
pub open spec fn incoming_from(
    tag: Option<Seq<char>>,
    count: u64,
    file: FileMessage,
) -> Incoming {
    if tag == Some(HANDSHAKE_TAG@) {
        Incoming::Handshake { count }
    } else if tag == Some(FILE_TAG@) {
        Incoming::File(file)
    } else {
        Incoming::Unknown
    }
}

/// The message that a document says.
pub open spec fn incoming_of(json: json::Json) -> Incoming {
    incoming_from(
        text_member(json, "tag"@),
        number_member(json, "count"@),
        file_message_of(json),
    )
}

/// The message that a text says, if it is a document at all.
pub open spec fn decoded(text: Seq<char>) -> Option<Incoming> {
    match json::parsed(text) {
        Some(json) => Some(incoming_of(json)),
        None => None,
    }
}

/// The document that says a message.
pub open spec fn outgoing_json(message: OutgoingModel) -> json::Json {
    json::Json::Object(
        match message {
            OutgoingModel::Handshake { count } => map![
                "tag"@ => json::Json::Text(HANDSHAKE_TAG@),
                "count"@ => json::Json::Unsigned(count as u64),
            ],
            OutgoingModel::StartTransfer { file_name, total } => map![
                "tag"@ => json::Json::Text(FILE_TAG@),
                "stat"@ => json::Json::Text("startTransfer"@),
                "filename"@ => json::Json::Text(file_name),
                "total"@ => json::Json::Unsigned(total as u64),
                "chunkSize"@ => json::Json::Unsigned(FILE_CHUNK_BYTES as u64),
            ],
            OutgoingModel::Chunk { count, data, resend } => map![
                "tag"@ => json::Json::Text(FILE_TAG@),
                "stat"@ => json::Json::Text("d"@),
                "count"@ => json::Json::Unsigned(count as u64),
                "data"@ => json::Json::Text(data),
                "setCount"@ => if resend {
                    json::Json::Unsigned(count as u64)
                } else {
                    json::Json::Null
                },
            ],
            OutgoingModel::Cancel => map![
                "tag"@ => json::Json::Text(FILE_TAG@),
                "stat"@ => json::Json::Text("cancel"@),
            ],
        },
    )
}

/// The text that says a message.
pub open spec fn encoded(message: OutgoingModel) -> Seq<char> {
    json::printed(outgoing_json(message))
}

/// The text that an event document carries, if it carries one: its text member `payloadText`, or
/// else its member `payload`, which is printed unless it is a text.
pub open spec fn carried_text(json: json::Json) -> Option<Seq<char>> {
    match text_member(json, "payloadText"@) {
        Some(text) => Some(text),
        None => match json.member("payload"@) {
            Some(payload) => match payload.text() {
                Some(text) => Some(text),
                None => Some(json::printed(payload)),
            },
            None => None,
        },
    }
}

/// The document that an event carries in its member `payload`, if it carries one and no text.
pub open spec fn carried_document(event: Seq<char>) -> Option<json::Json> {
    match json::parsed(event) {
        Some(json) => match (text_member(json, "payloadText"@), json.member("payload"@)) {
            (None, Some(payload)) => if payload.text() is None {
                Some(payload)
            } else {
                None
            },
            _ => None,
        },
        None => None,
    }
}

/// The text that an event brings: what the event document carries, or else the event itself.
pub open spec fn payload_text(payload: Seq<char>) -> Seq<char> {
    match json::parsed(payload) {
        Some(json) => match carried_text(json) {
            Some(text) => text,
            None => payload,
        },
        None => payload,
    }
}

fn read_text<'a>(value: &'a Value, key: &str) -> (result: Option<&'a str>)
    ensures
        match result {
            Some(text) => text_member(json::json_of(*value), key@) == Some(text@),
            None => text_member(json::json_of(*value), key@) is None,
        },
{
    match json::member(value, key) {
        Some(member) => member.as_str(),
        None => None,
    }
}

fn read_number(value: &Value, key: &str) -> (result: u64)
    ensures
        result == number_member(json::json_of(*value), key@),
{
    match json::member(value, key) {
        Some(member) => match member.as_u64() {
            Some(number) => number,
            None => 0,
        },
        None => 0,
    }
}

fn read_flag(value: &Value, key: &str) -> (result: bool)
    ensures
        result == flag_member(json::json_of(*value), key@),
{
    match json::member(value, key) {
        Some(member) => match member.as_bool() {
            Some(flag) => flag,
            None => false,
        },
        None => false,
    }
}

/// The characters of a text that may be missing.
pub open spec fn chars_of(text: Option<&str>) -> Option<Seq<char>> {
    match text {
        Some(text) => Some(text@),
        None => None,
    }
}

/// Tells the messages about a file apart.
pub fn make_file_message(
    kind: Option<&str>,
    usage: u64,
    found: bool,
    length: u64,
    count: u64,
) -> (result: FileMessage)
    ensures
        result == file_message_from(chars_of(kind), usage, found, length, count),
{
    let kind = match kind {
        Some(kind) => kind,
        None => return FileMessage::Unknown,
    };
    if text::same_text(kind, "ready") {
        FileMessage::Ready { usage, found, length }
    } else if text::same_text(kind, "error") {
        FileMessage::Error { count }
    } else if text::same_text(kind, "next") {
        FileMessage::Next { count }
    } else if text::same_text(kind, "success") {
        FileMessage::Success
    } else if text::same_text(kind, "cancel") {
        FileMessage::Cancel
    } else {
        FileMessage::Unknown
    }
}

/// Tells the messages apart.
pub fn make_message(tag: Option<&str>, count: u64, file: FileMessage) -> (result: Incoming)
    ensures
        result == incoming_from(chars_of(tag), count, file),
{
    match tag {
        Some(tag) => if text::same_text(tag, HANDSHAKE_TAG) {
            Incoming::Handshake { count }
        } else if text::same_text(tag, FILE_TAG) {
            Incoming::File(file)
        } else {
            Incoming::Unknown
        },
        None => Incoming::Unknown,
    }
}

/// Reads a message about a file.
fn read_file_message(message: &Value) -> (result: FileMessage)
    ensures
        result == file_message_of(json::json_of(*message)),
{
    let payload = match json::member(message, "data") {
        Some(data) => data,
        None => message,
    };
    make_file_message(
        read_text(payload, "type"),
        read_number(payload, "usage"),
        read_flag(payload, "found"),
        read_number(payload, "length"),
        read_number(payload, "count"),
    )
}

/// Reads a message.
fn read_message(message: &Value) -> (result: Incoming)
    ensures
        result == incoming_of(json::json_of(*message)),
{
    make_message(
        read_text(message, "tag"),
        read_number(message, "count"),
        read_file_message(message),
    )
}

/// Reads a message from a text.
pub fn decode_message(text: &str) -> (result: Option<Incoming>)
    ensures
        result == decoded(text@),
{
    match json::parse(text) {
        Ok(message) => Some(read_message(&message)),
        Err(_) => None,
    }
}

/// Finds the text that an event document carries.
fn read_carried_text(event: &Value) -> (result: Option<String>)
    ensures
        match result {
            Some(text) => carried_text(json::json_of(*event)) == Some(text@),
            None => carried_text(json::json_of(*event)) is None,
        },
        match (
            text_member(json::json_of(*event), "payloadText"@),
            json::json_of(*event).member("payload"@),
        ) {
            (None, Some(payload)) => payload.text() is None && payload.is_plain(
                json::MAX_LEVELS as nat,
            ) ==> json::parsed(json::printed(payload)) == Some(payload),
            _ => true,
        },
{
    match read_text(event, "payloadText") {
        Some(text) => Some(text.to_string()),
        None => match json::member(event, "payload") {
            Some(payload) => match payload.as_str() {
                Some(text) => Some(text.to_string()),
                None => Some(json::print(payload)),
            },
            None => None,
        },
    }
}

/// Finds the text that an event brings. A plain document that the event carries can be read from
/// it.
pub fn extract_payload_text(payload: &str) -> (result: String)
    ensures
        result@ == payload_text(payload@),
        match carried_document(payload@) {
            Some(document) => document.is_plain(json::MAX_LEVELS as nat) ==> json::parsed(result@)
                == Some(document),
            None => true,
        },
{
    match json::parse(payload) {
        Ok(event) => match read_carried_text(&event) {
            Some(text) => text,
            None => payload.to_string(),
        },
        Err(_) => payload.to_string(),
    }
}

fn put(entries: &mut Vec<(String, Value)>, key: &str, value: Value)
    requires
        json::keys_differ(old(entries)@),
        !json::members_of(old(entries)@).contains_key(key@),
    ensures
        json::keys_differ(final(entries)@),
        json::members_of(final(entries)@) == json::members_of(old(entries)@).insert(
            key@,
            json::json_of(value),
        ),
{
    entries.push((key.to_string(), value));
    proof {
        assert(entries@.drop_last() =~= old(entries)@);
        json::lemma_keys_are_members(old(entries)@, key@);
    }
}

/// The names of the members of a message are told apart.
pub proof fn lemma_names_differ()
    ensures
        "tag"@ != "count"@,
        "tag"@ != "stat"@,
        "tag"@ != "filename"@,
        "tag"@ != "total"@,
        "tag"@ != "chunkSize"@,
        "tag"@ != "data"@,
        "tag"@ != "setCount"@,
        "stat"@ != "filename"@,
        "stat"@ != "total"@,
        "stat"@ != "chunkSize"@,
        "stat"@ != "count"@,
        "stat"@ != "data"@,
        "stat"@ != "setCount"@,
        "filename"@ != "total"@,
        "filename"@ != "chunkSize"@,
        "total"@ != "chunkSize"@,
        "count"@ != "data"@,
        "count"@ != "setCount"@,
        "data"@ != "setCount"@,
{
    reveal_strlit("tag");
    reveal_strlit("count");
    reveal_strlit("stat");
    reveal_strlit("filename");
    reveal_strlit("total");
    reveal_strlit("chunkSize");
    reveal_strlit("data");
    reveal_strlit("setCount");
    assert("tag"@.len() == 3);
    assert("stat"@.len() == 4 && "data"@.len() == 4);
    assert("count"@.len() == 5 && "total"@.len() == 5);
    assert("filename"@.len() == 8 && "setCount"@.len() == 8);
    assert("chunkSize"@.len() == 9);
    assert("stat"@[0] != "data"@[0]);
}

/// Builds the document that says a message.
fn build_message(message: &Outgoing) -> (result: Value)
    ensures
        json::json_of(result) == outgoing_json(message@),
{
    let mut entries: Vec<(String, Value)> = Vec::new();
    proof {
        lemma_names_differ();
    }
    match message {
        Outgoing::Handshake { count } => {
            put(&mut entries, "tag", json::text_value(HANDSHAKE_TAG));
            put(&mut entries, "count", json::number_value(*count));
        },
        Outgoing::StartTransfer { file_name, total } => {
            put(&mut entries, "tag", json::text_value(FILE_TAG));
            put(&mut entries, "stat", json::text_value("startTransfer"));
            put(&mut entries, "filename", json::text_value(file_name.as_str()));
            put(&mut entries, "total", json::number_value(*total));
            put(&mut entries, "chunkSize", json::number_value(FILE_CHUNK_BYTES));
        },
        Outgoing::Chunk { count, data, resend } => {
            put(&mut entries, "tag", json::text_value(FILE_TAG));
            put(&mut entries, "stat", json::text_value("d"));
            put(&mut entries, "count", json::number_value(*count));
            put(&mut entries, "data", json::text_value(data.as_str()));
            put(
                &mut entries,
                "setCount",
                if *resend {
                    json::number_value(*count)
                } else {
                    json::null_value()
                },
            );
        },
        Outgoing::Cancel => {
            put(&mut entries, "tag", json::text_value(FILE_TAG));
            put(&mut entries, "stat", json::text_value("cancel"));
        },
    }
    json::object_value(entries)
}

/// Writes a message as a text, from which it can be read again.
pub fn encode_message(message: &Outgoing) -> (result: String)
    ensures
        result@ == encoded(message@),
        json::parsed(result@) == Some(outgoing_json(message@)),
{
    let value = build_message(message);
    proof {
        reveal_with_fuel(json::Json::is_plain, 2);
    }
    json::print(&value)
}

} // verus!
