//! Tests of the JSON layer, the signature engine and the wire codec.

use nickkerish::content::MessageContent;
use nickkerish::content_execute::ExecuteRequest;
use nickkerish::header::Header;
use nickkerish::json::Json;
use nickkerish::json_parse::parse_json_bytes;
use nickkerish::json_ser::to_json_bytes;
use nickkerish::message::{DecodeError, EmptyObjectOr, Message};
use nickkerish::message_type::MessageType;
use hmac::Mac;

fn empty_object() -> Json {
    Json::Obj(Vec::new())
}

fn sample_header(t: MessageType) -> Header {
    Header {
        message_id: b"a".to_vec(),
        message_type: t,
        username: b"b".to_vec(),
        session: b"c".to_vec(),
        date: b"d".to_vec(),
        version: b"e".to_vec(),
    }
}

fn sample_execute_message() -> Message {
    Message {
        identities: vec![b"client-1".to_vec()],
        header: EmptyObjectOr::Object(sample_header(MessageType::ExecuteRequest)),
        parent_header: EmptyObjectOr::EmptyObject,
        metadata: empty_object(),
        content: EmptyObjectOr::Object(MessageContent::ExecuteRequest(ExecuteRequest {
            code: b"+ 1 1".to_vec(),
            silent: false,
            store_history: true,
            user_expressions: Vec::new(),
            allow_stdin: false,
            stop_on_error: false,
        })),
        extra_buffers: vec![b"blob".to_vec()],
    }
}

#[test]
fn test_parse_empty_object() {
    let content = b"{}";
    let parsed = parse_json_bytes(content).unwrap();
    assert!(matches!(parsed, Json::Obj(ms) if ms.is_empty()));
}

#[test]
fn test_parse_empty_empty_object() {
    let content = b"{}";
    let parsed = parse_json_bytes(content).unwrap();
    let out = to_json_bytes(&parsed);
    assert_eq!(out, b"{}".to_vec());
}

#[test]
fn test_serialize_empty_object_or() {
    let json = to_json_bytes(&empty_object());
    assert_eq!(json, b"{}".to_vec());
    let header = sample_header(MessageType::CommMsg);
    let json = to_json_bytes(&header.to_json());
    assert_eq!(
        json,
        br#"{"msg_id":"a","msg_type":"comm_msg","username":"b","session":"c","date":"d","version":"e"}"#
            .to_vec()
    );
}

#[test]
fn test_if_inner_object_can_tolerate_additional_fields() {
    // decoding ignores fields it does not know, per the protocol's
    // forward-compatibility rule
    let input_data = br#"{"a":10,"b":20}"#;
    let parsed = parse_json_bytes(input_data).unwrap();
    match &parsed {
        Json::Obj(ms) => {
            assert_eq!(ms.len(), 2);
            assert!(matches!(&ms[0].1, Json::Num(t) if t == b"10"));
        }
        _ => panic!("expected an object"),
    }
    let extended = br#"{"msg_id":"a","msg_type":"comm_msg","username":"b","session":"c","date":"d","version":"e","future_field":[1,2]}"#;
    let parsed = parse_json_bytes(extended).unwrap();
    let header = Header::from_json(&parsed).unwrap();
    assert_eq!(header.message_id, b"a".to_vec());
}

#[test]
fn json_round_trip_with_escapes_and_numbers() {
    let input = br#"{"text":"line1\nline2 \u0041\u00e9\ud83d\ude00","nums":[0,-12,3.5e2,1.25]} "#;
    let parsed = parse_json_bytes(input).unwrap();
    let out = to_json_bytes(&parsed);
    let reparsed = parse_json_bytes(&out).unwrap();
    let out2 = to_json_bytes(&reparsed);
    assert_eq!(out, out2);
    match &parsed {
        Json::Obj(ms) => match &ms[0].1 {
            Json::Str(s) => {
                assert_eq!(s, "line1\nline2 A\u{e9}\u{1f600}".as_bytes());
            }
            _ => panic!("expected a string"),
        },
        _ => panic!("expected an object"),
    }
}

#[test]
fn json_rejects_malformed_documents() {
    assert!(parse_json_bytes(b"{").is_none());
    assert!(parse_json_bytes(b"[1,]").is_none());
    assert!(parse_json_bytes(b"01").is_none());
    assert!(parse_json_bytes(b"\"\\x\"").is_none());
    assert!(parse_json_bytes(b"{}{}").is_none());
    assert!(parse_json_bytes(b"truex").is_none());
}

#[test]
fn message_codec_round_trip() {
    let m = sample_execute_message();
    let frames = m.encode(b"secret");
    let back = Message::decode(&frames, b"secret").unwrap();
    assert_eq!(back.identities, vec![b"client-1".to_vec()]);
    match &back.header {
        EmptyObjectOr::Object(h) => {
            assert_eq!(h.message_id, b"a".to_vec());
            assert_eq!(h.message_type, MessageType::ExecuteRequest);
        }
        _ => panic!("expected a header"),
    }
    match &back.content {
        EmptyObjectOr::Object(MessageContent::ExecuteRequest(req)) => {
            assert_eq!(req.code, b"+ 1 1".to_vec());
            assert!(req.store_history);
        }
        _ => panic!("expected an execute request"),
    }
    assert_eq!(back.extra_buffers, vec![b"blob".to_vec()]);
    assert!(matches!(back.parent_header, EmptyObjectOr::EmptyObject));
}

#[test]
fn tampered_frame_fails_verification() {
    let m = sample_execute_message();
    let mut frames = m.encode(b"secret");
    // the content frame is at delimiter + 5; flip one byte in it
    let d = frames.iter().position(|f| f == b"<IDS|MSG>").unwrap();
    let last = frames[d + 5].len() - 1;
    frames[d + 5][last] ^= 1;
    assert!(matches!(Message::decode(&frames, b"secret"), Err(DecodeError::SignatureError)));
    // a wrong key fails too
    let frames = m.encode(b"secret");
    assert!(matches!(Message::decode(&frames, b"other"), Err(DecodeError::SignatureError)));
}

#[test]
fn empty_key_accepts_any_signature() {
    let m = sample_execute_message();
    let mut frames = m.encode(b"");
    let d = frames.iter().position(|f| f == b"<IDS|MSG>").unwrap();
    // encode with a disabled key emits the empty signature
    assert_eq!(frames[d + 1], b"".to_vec());
    // and decode accepts any claimed signature at all
    frames[d + 1] = b"deadbeef".to_vec();
    assert!(Message::decode(&frames, b"").is_ok());
}

#[test]
fn missing_delimiter_is_a_framing_error() {
    let frames = vec![b"id".to_vec(), b"{}".to_vec(), b"{}".to_vec()];
    assert!(matches!(Message::decode(&frames, b""), Err(DecodeError::FramingError)));
    // two delimiters are refused as well
    let m = sample_execute_message();
    let mut frames = m.encode(b"");
    frames.push(b"<IDS|MSG>".to_vec());
    assert!(matches!(Message::decode(&frames, b""), Err(DecodeError::FramingError)));
}

#[test]
fn empty_object_or_behaves_like_an_option() {
    let absent: EmptyObjectOr<u32> = EmptyObjectOr::default();
    assert!(absent.into_option().is_none());
    let present = EmptyObjectOr::of_option(Some(7u32));
    assert_eq!(present.map(|v| v + 1).unwrap(), 8);
    let absent: EmptyObjectOr<u32> = EmptyObjectOr::EmptyObject;
    assert_eq!(absent.ok_or("missing"), Err("missing"));
}

#[test]
fn signature_is_lowercase_hex_of_expected_digest() {
    // one fixed vector pins the digest down: HMAC-SHA256("key", "abc")
    let frames = vec![
        b"<IDS|MSG>".to_vec(),
        b"".to_vec(),
        b"{}".to_vec(),
        b"{}".to_vec(),
        b"{}".to_vec(),
        b"{}".to_vec(),
    ];
    // with an empty key the frames above decode as a bare message
    let m = Message::decode(&frames, b"").unwrap();
    let out = m.encode(b"key");
    // the signature over four "{}" frames must match an independent
    // computation with the same primitives
    let mut mac = hmac::Hmac::<sha2::Sha256>::new_from_slice(b"key").unwrap();
    mac.update(b"{}{}{}{}");
    let expected = hex::encode(mac.finalize().into_bytes());
    assert_eq!(out[1], expected.into_bytes());
}
