use hyperbox::message::{
    FileMessage, Incoming, Outgoing, decode_message, encode_message, extract_payload_text,
    make_file_message, make_message,
};
use serde_json::Value;

fn value(text: &str) -> Value {
    serde_json::from_str(text).unwrap()
}

#[test]
fn a_step_of_the_handshake_is_written() {
    assert_eq!(
        encode_message(&Outgoing::Handshake { count: 1 }),
        r#"{"count":1,"tag":"__hs__"}"#
    );
}

#[test]
fn the_start_of_a_transfer_is_written() {
    assert_eq!(
        encode_message(&Outgoing::StartTransfer {
            file_name: "a \"b\".txt".to_string(),
            total: 3,
        }),
        r#"{"chunkSize":49152,"filename":"a \"b\".txt","stat":"startTransfer","tag":"file","total":3}"#
    );
}

#[test]
fn a_chunk_is_written() {
    assert_eq!(
        encode_message(&Outgoing::Chunk {
            count: 2,
            data: "line\n漢字".to_string(),
            resend: false,
        }),
        r#"{"count":2,"data":"line\n漢字","setCount":null,"stat":"d","tag":"file"}"#
    );
    assert_eq!(
        encode_message(&Outgoing::Chunk {
            count: 2,
            data: "x".to_string(),
            resend: true,
        }),
        r#"{"count":2,"data":"x","setCount":2,"stat":"d","tag":"file"}"#
    );
}

#[test]
fn giving_up_is_written() {
    assert_eq!(
        encode_message(&Outgoing::Cancel),
        r#"{"stat":"cancel","tag":"file"}"#
    );
}

fn text_in<'a>(document: &'a Value, key: &str) -> &'a str {
    document.get(key).unwrap().as_str().unwrap()
}

fn number_in(document: &Value, key: &str) -> u64 {
    document.get(key).unwrap().as_u64().unwrap()
}

fn members(document: &Value) -> Vec<&str> {
    document
        .as_object()
        .unwrap()
        .keys()
        .map(|key| key.as_str())
        .collect()
}

#[test]
fn what_is_written_is_read_back() {
    let document = value(&encode_message(&Outgoing::Handshake { count: usize::MAX }));
    assert_eq!(members(&document), vec!["count", "tag"]);
    assert_eq!(text_in(&document, "tag"), "__hs__");
    assert_eq!(number_in(&document, "count"), usize::MAX as u64);

    let name = "\u{0}\u{1f}\u{7f}\\\"/漢😀\u{2028}";
    let document = value(&encode_message(&Outgoing::StartTransfer {
        file_name: name.to_string(),
        total: 0,
    }));
    assert_eq!(
        members(&document),
        vec!["chunkSize", "filename", "stat", "tag", "total"]
    );
    assert_eq!(text_in(&document, "tag"), "file");
    assert_eq!(text_in(&document, "stat"), "startTransfer");
    assert_eq!(text_in(&document, "filename"), name);
    assert_eq!(number_in(&document, "total"), 0);
    assert_eq!(number_in(&document, "chunkSize"), 49152);

    let data = "\t\r\n\u{8}\u{c}\\u0041😀";
    for resend in [true, false] {
        let document = value(&encode_message(&Outgoing::Chunk {
            count: 7,
            data: data.to_string(),
            resend,
        }));
        assert_eq!(
            members(&document),
            vec!["count", "data", "setCount", "stat", "tag"]
        );
        assert_eq!(text_in(&document, "tag"), "file");
        assert_eq!(text_in(&document, "stat"), "d");
        assert_eq!(text_in(&document, "data"), data);
        assert_eq!(number_in(&document, "count"), 7);
        let set_count = document.get("setCount").unwrap();
        assert_eq!(set_count.as_u64(), if resend { Some(7) } else { None });
        assert_eq!(set_count.is_null(), !resend);
    }

    let document = value(&encode_message(&Outgoing::Cancel));
    assert_eq!(members(&document), vec!["stat", "tag"]);
    assert_eq!(text_in(&document, "stat"), "cancel");
    assert_eq!(text_in(&document, "tag"), "file");
}

#[test]
fn a_handshake_is_read_as_it_was_written() {
    for count in [0usize, 1, 2, 77] {
        assert_eq!(
            decode_message(&encode_message(&Outgoing::Handshake { count })),
            Some(Incoming::Handshake { count: count as u64 })
        );
    }
}

#[test]
fn a_handshake_without_a_number_is_the_first() {
    assert_eq!(
        decode_message(r#"{"tag":"__hs__"}"#),
        Some(Incoming::Handshake { count: 0 })
    );
    for count in ["-1", "1.5", "\"1\"", "null", "1e3"] {
        assert_eq!(
            decode_message(&format!("{{\"tag\":\"__hs__\",\"count\":{}}}", count)),
            Some(Incoming::Handshake { count: 0 })
        );
    }
}

#[test]
fn messages_about_the_file_are_read() {
    let read = |text: &str| {
        match decode_message(&format!("{{\"tag\":\"file\",\"data\":{}}}", text)) {
            Some(Incoming::File(message)) => message,
            other => panic!("{:?}", other),
        }
    };
    assert_eq!(
        read(r#"{"type":"ready","usage":7,"found":true,"length":9}"#),
        FileMessage::Ready {
            usage: 7,
            found: true,
            length: 9
        }
    );
    assert_eq!(
        read(r#"{"type":"ready"}"#),
        FileMessage::Ready {
            usage: 0,
            found: false,
            length: 0
        }
    );
    assert_eq!(
        read(r#"{"type":"ready","usage":"7","found":1,"length":-9}"#),
        FileMessage::Ready {
            usage: 0,
            found: false,
            length: 0
        }
    );
    assert_eq!(
        read(r#"{"type":"error","count":3}"#),
        FileMessage::Error { count: 3 }
    );
    assert_eq!(
        read(r#"{"type":"next","count":18446744073709551615}"#),
        FileMessage::Next { count: u64::MAX }
    );
    assert_eq!(
        read(r#"{"type":"next"}"#),
        FileMessage::Next { count: 0 }
    );
    assert_eq!(read(r#"{"type":"success"}"#), FileMessage::Success);
    assert_eq!(read(r#"{"type":"cancel"}"#), FileMessage::Cancel);
    assert_eq!(read(r#"{"type":"Ready"}"#), FileMessage::Unknown);
    assert_eq!(read(r#"{"type":5}"#), FileMessage::Unknown);
    assert_eq!(read("{}"), FileMessage::Unknown);
    assert_eq!(read("[]"), FileMessage::Unknown);
}

#[test]
fn a_message_about_the_file_may_be_wrapped() {
    assert_eq!(
        decode_message(r#"{"tag":"file","data":{"type":"next","count":4}}"#),
        Some(Incoming::File(FileMessage::Next { count: 4 }))
    );
    assert_eq!(
        decode_message(r#"{"tag":"file","type":"next","count":4}"#),
        Some(Incoming::File(FileMessage::Next { count: 4 }))
    );
    assert_eq!(
        decode_message(r#"{"tag":"file","type":"success","data":null}"#),
        Some(Incoming::File(FileMessage::Unknown))
    );
}

#[test]
fn messages_about_the_file_are_told_apart_by_their_kind() {
    let make = |kind: Option<&str>| make_file_message(kind, 1, true, 2, 3);
    assert_eq!(
        make(Some("ready")),
        FileMessage::Ready {
            usage: 1,
            found: true,
            length: 2
        }
    );
    assert_eq!(make(Some("error")), FileMessage::Error { count: 3 });
    assert_eq!(make(Some("next")), FileMessage::Next { count: 3 });
    assert_eq!(make(Some("success")), FileMessage::Success);
    assert_eq!(make(Some("cancel")), FileMessage::Cancel);
    assert_eq!(make(Some("")), FileMessage::Unknown);
    assert_eq!(make(Some("next ")), FileMessage::Unknown);
    assert_eq!(make(None), FileMessage::Unknown);
}

#[test]
fn messages_are_told_apart_by_their_tag() {
    let make = |tag: Option<&str>| make_message(tag, 5, FileMessage::Success);
    assert_eq!(make(Some("__hs__")), Incoming::Handshake { count: 5 });
    assert_eq!(make(Some("file")), Incoming::File(FileMessage::Success));
    assert_eq!(make(Some("File")), Incoming::Unknown);
    assert_eq!(make(Some("")), Incoming::Unknown);
    assert_eq!(make(None), Incoming::Unknown);
}

#[test]
fn other_tags_are_unknown() {
    for text in [r#"{"tag":"music"}"#, r#"{"tag":1}"#, "{}", "\"file\"", "17"] {
        assert_eq!(decode_message(text), Some(Incoming::Unknown));
    }
}

#[test]
fn what_is_not_a_document_is_no_message() {
    assert_eq!(decode_message(""), None);
    assert_eq!(decode_message("hello"), None);
    assert_eq!(decode_message(r#"{"tag":"file""#), None);
    assert_eq!(decode_message("{} {}"), None);
}

#[test]
fn an_event_may_carry_a_text() {
    assert_eq!(
        extract_payload_text(r#"{"payloadText":"timer_hide_message"}"#),
        "timer_hide_message"
    );
    assert_eq!(
        extract_payload_text(r#"{"payloadText":"a","payload":"b"}"#),
        "a"
    );
    assert_eq!(
        extract_payload_text(r#"{"payloadText":5,"payload":"b"}"#),
        "b"
    );
    assert_eq!(extract_payload_text(r#"{"payload":"b"}"#), "b");
}

#[test]
fn an_event_may_carry_a_document() {
    assert_eq!(
        extract_payload_text(r#"{"payload": {"tag": "file", "n": [1, -2, null, true]}}"#),
        r#"{"n":[1,-2,null,true],"tag":"file"}"#
    );
    assert_eq!(extract_payload_text(r#"{"payload":null}"#), "null");
    assert_eq!(extract_payload_text(r#"{"payload":17}"#), "17");
}

#[test]
fn an_event_that_carries_nothing_is_its_own_text() {
    assert_eq!(extract_payload_text("timer_hide_message"), "timer_hide_message");
    assert_eq!(
        extract_payload_text(r#"{ "tag": "__hs__" }"#),
        r#"{ "tag": "__hs__" }"#
    );
    assert_eq!(
        extract_payload_text(r#"{ "payloadText": 1 }"#),
        r#"{ "payloadText": 1 }"#
    );
    assert_eq!(extract_payload_text("[1, 2]"), "[1, 2]");
    assert_eq!(extract_payload_text(""), "");
}

#[test]
fn of_two_members_with_one_name_the_later_counts() {
    assert_eq!(
        decode_message(r#"{"tag":"file","tag":"__hs__","count":1,"count":2}"#),
        Some(Incoming::Handshake { count: 2 })
    );
}

#[test]
fn a_document_inside_an_event_is_read_as_it_was() {
    for document in [
        r#"{"tag":"file","data":{"type":"next","count":4,"more":[1,-9223372036854775808,{}]}}"#.to_string(),
        r#"[18446744073709551615,true,false,null,"\u0000\"\\漢😀",[]]"#.to_string(),
        format!("{}{}", "[".repeat(126), "]".repeat(126)),
    ] {
        let event = format!("{{\"payload\":{}}}", document);
        assert_eq!(value(&extract_payload_text(&event)), value(&document));
        assert_eq!(
            decode_message(&extract_payload_text(&event)),
            decode_message(&document)
        );
    }
}

#[test]
fn documents_are_read_up_to_a_depth() {
    let nested = |levels: usize| format!("{}{}", "[".repeat(levels), "]".repeat(levels));
    assert_eq!(decode_message(&nested(127)), Some(Incoming::Unknown));
    assert_eq!(decode_message(&nested(128)), None);
}
