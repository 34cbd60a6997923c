//! What the messages are on the wire: the members of their documents, by name.

use crate::json;
use crate::message;
use crate::message::{FileMessage, Incoming, Outgoing};
use vstd::prelude::*;

verus! {

// Words

/// The non-negative integer under a name, or 0.
pub open spec fn number_under(members: Map<Seq<char>, json::Json>, name: Seq<char>) -> u64 {
    if members.contains_key(name) && members[name] is Unsigned {
        members[name]->Unsigned_0
    } else {
        0
    }
}

/// Whether there is a certain text under a name.
pub open spec fn says(
    members: Map<Seq<char>, json::Json>,
    name: Seq<char>,
    text: Seq<char>,
) -> bool {
    members.contains_key(name) && members[name] == json::Json::Text(text)
}

/// Whether a message about the file, or what it wraps as `data`, has these members.
pub open spec fn speaks_of_file(
    members: Map<Seq<char>, json::Json>,
    said: Map<Seq<char>, json::Json>,
) -> bool {
    &&& says(members, "tag"@, "file"@)
    &&& if members.contains_key("data"@) {
        members["data"@] == json::Json::Object(said)
    } else {
        members == said
    }
}

proof fn lemma_tags_differ()
    ensures
        "__hs__"@ != "file"@,
{
    reveal_strlit("__hs__");
    reveal_strlit("file");
    assert("__hs__"@.len() > "file"@.len());
}

proof fn lemma_kinds_differ()
    ensures
        "ready"@ != "error"@,
        "ready"@ != "next"@,
        "ready"@ != "success"@,
        "ready"@ != "cancel"@,
        "error"@ != "next"@,
        "error"@ != "success"@,
        "error"@ != "cancel"@,
        "next"@ != "success"@,
        "next"@ != "cancel"@,
        "success"@ != "cancel"@,
{
    reveal_strlit("ready");
    reveal_strlit("error");
    reveal_strlit("next");
    reveal_strlit("success");
    reveal_strlit("cancel");
    assert("ready"@[0] != "error"@[0]);
    assert("ready"@.len() == 5 && "error"@.len() == 5 && "next"@.len() == 4);
    assert("success"@.len() == 7 && "cancel"@.len() == 6);
}

// What comes in

/// A text says what its document says. What is no document says nothing.
pub proof fn law_text_says_its_document(text: Seq<char>)
    ensures
        match json::parsed(text) {
            Some(document) => message::decoded(text) == Some(message::incoming_of(document)),
            None => message::decoded(text) is None,
        },
{
}

/// A document with the tag of the handshake is a step of it, with the number that it has.
pub proof fn law_handshake_is_recognised(members: Map<Seq<char>, json::Json>)
    requires
        says(members, "tag"@, "__hs__"@),
    ensures
        message::incoming_of(json::Json::Object(members)) == (Incoming::Handshake {
            count: number_under(members, "count"@),
        }),
{
}

/// A device that is ready is understood to say how much storage it uses, and whether and how much
/// it has found of the file. Each of these is read by itself, whatever the others are.
pub proof fn law_ready_is_recognised(
    members: Map<Seq<char>, json::Json>,
    said: Map<Seq<char>, json::Json>,
)
    requires
        speaks_of_file(members, said),
        says(said, "type"@, "ready"@),
    ensures
        ({
            &&& message::incoming_of(json::Json::Object(members)) matches Incoming::File(message)
            &&& message matches FileMessage::Ready { usage, found, length }
            &&& usage == number_under(said, "usage"@)
            &&& found == (said.contains_key("found"@) && said["found"@] == json::Json::Bool(true))
            &&& length == number_under(said, "length"@)
        }),
{
    lemma_tags_differ();
}

/// The chunks that a device wants, again or next, are read by their number.
pub proof fn law_wanted_chunk_is_recognised(
    members: Map<Seq<char>, json::Json>,
    said: Map<Seq<char>, json::Json>,
)
    requires
        speaks_of_file(members, said),
    ensures
        says(said, "type"@, "error"@) ==> message::incoming_of(json::Json::Object(members))
            == Incoming::File(FileMessage::Error { count: number_under(said, "count"@) }),
        says(said, "type"@, "next"@) ==> message::incoming_of(json::Json::Object(members))
            == Incoming::File(FileMessage::Next { count: number_under(said, "count"@) }),
{
    lemma_tags_differ();
    lemma_kinds_differ();
}

/// The end of a transfer is recognised, good or bad.
pub proof fn law_end_is_recognised(
    members: Map<Seq<char>, json::Json>,
    said: Map<Seq<char>, json::Json>,
)
    requires
        speaks_of_file(members, said),
    ensures
        says(said, "type"@, "success"@) ==> message::incoming_of(json::Json::Object(members))
            == Incoming::File(FileMessage::Success),
        says(said, "type"@, "cancel"@) ==> message::incoming_of(json::Json::Object(members))
            == Incoming::File(FileMessage::Cancel),
{
    lemma_tags_differ();
    lemma_kinds_differ();
}

/// A message about the file that is of none of these kinds is unknown.
pub proof fn law_other_kinds_are_unknown(members: Map<Seq<char>, json::Json>)
    requires
        says(members, "tag"@, "file"@),
        ({
            let payload = if members.contains_key("data"@) {
                members["data"@]
            } else {
                json::Json::Object(members)
            };
            payload matches json::Json::Object(said) ==> !says(said, "type"@, "ready"@) && !says(
                said,
                "type"@,
                "error"@,
            ) && !says(said, "type"@, "next"@) && !says(said, "type"@, "success"@) && !says(
                said,
                "type"@,
                "cancel"@,
            )
        }),
    ensures
        message::incoming_of(json::Json::Object(members)) == Incoming::File(FileMessage::Unknown),
{
    lemma_tags_differ();
}

/// A document of neither tag is unknown.
pub proof fn law_other_tags_are_unknown(document: json::Json)
    requires
        document matches json::Json::Object(members) ==> !says(members, "tag"@, "__hs__"@)
            && !says(members, "tag"@, "file"@),
    ensures
        message::incoming_of(document) == Incoming::Unknown,
{
}

/// The messages that are made of a tag or kind and what goes with it hold that unchanged.
pub proof fn law_messages_hold_what_is_said(
    usage: u64,
    found: bool,
    length: u64,
    count: u64,
    file: FileMessage,
)
    ensures
        message::file_message_from(Some("ready"@), usage, found, length, count)
            == (FileMessage::Ready { usage, found, length }),
        message::file_message_from(Some("error"@), usage, found, length, count)
            == (FileMessage::Error { count }),
        message::file_message_from(Some("next"@), usage, found, length, count)
            == (FileMessage::Next { count }),
        message::file_message_from(Some("success"@), usage, found, length, count)
            == FileMessage::Success,
        message::file_message_from(Some("cancel"@), usage, found, length, count)
            == FileMessage::Cancel,
        message::incoming_from(Some("__hs__"@), count, file) == (Incoming::Handshake { count }),
        message::incoming_from(Some("file"@), count, file) == Incoming::File(file),
{
    lemma_tags_differ();
    lemma_kinds_differ();
}

/// Of other tags and kinds, or none, no message is made.
pub proof fn law_other_words_say_nothing(
    word: Option<Seq<char>>,
    usage: u64,
    found: bool,
    length: u64,
    count: u64,
    file: FileMessage,
)
    ensures
        word != Some("ready"@) && word != Some("error"@) && word != Some("next"@) && word != Some(
            "success"@,
        ) && word != Some("cancel"@) ==> message::file_message_from(
            word,
            usage,
            found,
            length,
            count,
        ) == FileMessage::Unknown,
        word != Some("__hs__"@) && word != Some("file"@) ==> message::incoming_from(
            word,
            count,
            file,
        ) == Incoming::Unknown,
{
}

// What an event brings

/// A text under `payloadText` is what the event brings.
pub proof fn law_payload_text_comes_first(
    event: Seq<char>,
    members: Map<Seq<char>, json::Json>,
    text: Seq<char>,
)
    requires
        json::parsed(event) == Some(json::Json::Object(members)),
        says(members, "payloadText"@, text),
    ensures
        message::payload_text(event) == text,
        message::carried_text(json::Json::Object(members)) == Some(text),
        message::carried_document(event) is None,
{
}

/// Without one, what is under `payload` is: a text as it is, and everything else in print.
pub proof fn law_payload_comes_second(
    event: Seq<char>,
    members: Map<Seq<char>, json::Json>,
    payload: json::Json,
)
    requires
        json::parsed(event) == Some(json::Json::Object(members)),
        members.contains_key("payloadText"@) ==> !(members["payloadText"@] is Text),
        members.contains_key("payload"@),
        members["payload"@] == payload,
    ensures
        message::payload_text(event) == match payload {
            json::Json::Text(text) => text,
            _ => json::printed(payload),
        },
        message::carried_text(json::Json::Object(members)) == Some(message::payload_text(event)),
        message::carried_document(event) == match payload {
            json::Json::Text(_) => None,
            _ => Some(payload),
        },
{
}

/// An event that has neither brings itself.
pub proof fn law_event_brings_itself(event: Seq<char>)
    requires
        json::parsed(event) matches Some(json::Json::Object(members)) ==> (members.contains_key(
            "payloadText"@,
        ) ==> !(members["payloadText"@] is Text)) && !members.contains_key("payload"@),
    ensures
        message::payload_text(event) == event,
        json::parsed(event) matches Some(document) ==> message::carried_text(document) is None,
        message::carried_document(event) is None,
{
}

// What goes out

/// A step of the handshake has its tag and its number, and nothing else.
pub proof fn law_handshake_on_the_wire(members: Map<Seq<char>, json::Json>, count: usize)
    requires
        members.dom() == set!["tag"@, "count"@],
        members["tag"@] == json::Json::Text("__hs__"@),
        members["count"@] == json::Json::Unsigned(count as u64),
    ensures
        message::outgoing_json(message::OutgoingModel::Handshake { count }) == json::Json::Object(
            members,
        ),
        message::encoded(message::OutgoingModel::Handshake { count }) == json::printed(
            json::Json::Object(members),
        ),
{
    let written = message::outgoing_json(
        message::OutgoingModel::Handshake { count },
    )->Object_0;
    reveal_strlit("tag");
    reveal_strlit("count");
    assert("tag"@.len() != "count"@.len());
    assert(written =~= members);
}

/// The start of a transfer has the tag of files, the name of the file, the number of its chunks and
/// their size of 48 KiB, and nothing else.
pub proof fn law_start_on_the_wire(
    members: Map<Seq<char>, json::Json>,
    file_name: Seq<char>,
    total: usize,
)
    requires
        members.dom() == set!["tag"@, "stat"@, "filename"@, "total"@, "chunkSize"@],
        members["tag"@] == json::Json::Text("file"@),
        members["stat"@] == json::Json::Text("startTransfer"@),
        members["filename"@] == json::Json::Text(file_name),
        members["total"@] == json::Json::Unsigned(total as u64),
        members["chunkSize"@] == json::Json::Unsigned(49152),
    ensures
        message::outgoing_json(message::OutgoingModel::StartTransfer { file_name, total })
            == json::Json::Object(members),
        message::encoded(message::OutgoingModel::StartTransfer { file_name, total })
            == json::printed(json::Json::Object(members)),
{
    let written = message::outgoing_json(
        message::OutgoingModel::StartTransfer { file_name, total },
    )->Object_0;
    message::lemma_names_differ();
    assert(written =~= members);
}

/// A chunk has the tag of files, its number and its characters, and under `setCount` its number once
/// more if the device has to go back to it, else null, and nothing else.
pub proof fn law_chunk_on_the_wire(
    members: Map<Seq<char>, json::Json>,
    count: usize,
    data: Seq<char>,
    resend: bool,
)
    requires
        members.dom() == set!["tag"@, "stat"@, "count"@, "data"@, "setCount"@],
        members["tag"@] == json::Json::Text("file"@),
        members["stat"@] == json::Json::Text("d"@),
        members["count"@] == json::Json::Unsigned(count as u64),
        members["data"@] == json::Json::Text(data),
        resend ==> members["setCount"@] == json::Json::Unsigned(count as u64),
        !resend ==> members["setCount"@] == json::Json::Null,
    ensures
        message::outgoing_json(message::OutgoingModel::Chunk { count, data, resend })
            == json::Json::Object(members),
        message::encoded(message::OutgoingModel::Chunk { count, data, resend }) == json::printed(
            json::Json::Object(members),
        ),
{
    let written = message::outgoing_json(
        message::OutgoingModel::Chunk { count, data, resend },
    )->Object_0;
    message::lemma_names_differ();
    assert(written =~= members);
}

/// Giving up has the tag of files and says so, and nothing else.
pub proof fn law_cancel_on_the_wire(members: Map<Seq<char>, json::Json>)
    requires
        members.dom() == set!["tag"@, "stat"@],
        members["tag"@] == json::Json::Text("file"@),
        members["stat"@] == json::Json::Text("cancel"@),
    ensures
        message::outgoing_json(message::OutgoingModel::Cancel) == json::Json::Object(members),
        message::encoded(message::OutgoingModel::Cancel) == json::printed(
            json::Json::Object(members),
        ),
{
    let written = message::outgoing_json(message::OutgoingModel::Cancel)->Object_0;
    message::lemma_names_differ();
    assert(written =~= members);
}

/// The view of a message shows what it is and each field.
pub proof fn law_message_is_seen_whole(message: Outgoing)
    ensures
        match message {
            Outgoing::Handshake { count } => message@ == (message::OutgoingModel::Handshake {
                count,
            }),
            Outgoing::StartTransfer { file_name, total } => message@
                == (message::OutgoingModel::StartTransfer { file_name: file_name@, total }),
            Outgoing::Chunk { count, data, resend } => message@ == (message::OutgoingModel::Chunk {
                count,
                data: data@,
                resend,
            }),
            Outgoing::Cancel => message@ is Cancel,
        },
{
}

} // verus!
