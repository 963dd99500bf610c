use helix_vue_proxy::codec::{decode, to_serde};
use helix_vue_proxy::json::JsonValue;
use helix_vue_proxy::transport::{
    decode_body, read_frame, read_message, write_message, ByteReader, HeaderReader, ReadError,
};
use serde_json::Value;

fn json(text: &str) -> JsonValue {
    decode(text.as_bytes()).unwrap()
}

/// What is read of a message that was written.
fn there_and_back(message: &JsonValue) -> Value {
    let buf = write_message(message);
    let mut reader = ByteReader::new(buf);
    let result = read_message(&mut reader).unwrap().unwrap();
    assert!(read_message(&mut reader).unwrap().is_none());
    to_serde(&result)
}

/// What reading the bytes gives, all messages and the failure at the end.
fn read_all(bytes: &[u8]) -> (Vec<Value>, Option<ReadError>) {
    let mut reader = ByteReader::new(bytes.to_vec());
    let mut values = Vec::new();
    loop {
        match read_message(&mut reader) {
            Ok(Some(value)) => values.push(to_serde(&value)),
            Ok(None) => return (values, None),
            Err(error) => return (values, Some(error)),
        }
    }
}

#[test]
fn test_roundtrip() {
    let msg = json(
        r#"{
            "jsonrpc": "2.0",
            "method": "initialize",
            "id": 1,
            "params": {}
        }"#,
    );
    assert_eq!(there_and_back(&msg), to_serde(&msg));
}

#[test]
fn test_roundtrip_unicode() {
    let msg = json(
        r#"{
            "jsonrpc": "2.0",
            "method": "textDocument/hover",
            "params": { "text": "こんにちは世界 🌍" }
        }"#,
    );
    assert_eq!(there_and_back(&msg), to_serde(&msg));
}

#[test]
fn test_eof_returns_none() {
    let mut reader = ByteReader::new(Vec::new());
    let result = read_message(&mut reader).unwrap();
    assert!(result.is_none());
}

#[test]
fn test_multiple_messages() {
    let msg1 = json(r#"{"jsonrpc":"2.0","method":"a"}"#);
    let msg2 = json(r#"{"jsonrpc":"2.0","method":"b"}"#);

    let mut buf = Vec::new();
    buf.extend(write_message(&msg1));
    buf.extend(write_message(&msg2));

    let mut reader = ByteReader::new(buf);
    let r1 = read_message(&mut reader).unwrap().unwrap();
    let r2 = read_message(&mut reader).unwrap().unwrap();

    assert_eq!(to_serde(&r1), to_serde(&msg1));
    assert_eq!(to_serde(&r2), to_serde(&msg2));
}

#[test]
fn test_large_message() {
    let large_text = "x".repeat(100_000);
    let msg = json(&format!(r#"{{"data": "{large_text}"}}"#));
    assert_eq!(there_and_back(&msg), to_serde(&msg));
    assert_eq!(to_serde(&msg)["data"], large_text);
}

#[test]
fn test_lsp_message_roundtrip() {
    let msg = json(
        r#"{
            "jsonrpc": "2.0",
            "method": "initialize",
            "id": 1,
            "params": {"capabilities": {}}
        }"#,
    );
    assert_eq!(there_and_back(&msg), to_serde(&msg));
}

#[test]
fn the_bytes_of_a_message() {
    let bytes = write_message(&json(r#"{"method": "ä", "id": [1, -2, 1.5, null, true, "\n"]}"#));
    let body = "{\"id\":[1,-2,1.5,null,true,\"\\n\"],\"method\":\"ä\"}";
    assert_eq!(body.len(), 46);
    assert_eq!(bytes, format!("Content-Length: 46\r\n\r\n{body}").into_bytes());
    assert_eq!(write_message(&json("0")), b"Content-Length: 1\r\n\r\n0".to_vec());
    let long = json(&format!("\"{}\"", "y".repeat(998)));
    assert!(write_message(&long).starts_with(b"Content-Length: 1000\r\n\r\n\"yy"));
}

#[test]
fn headers_may_come_in_many_ways() {
    for head in [
        "Content-Length: 4\r\n\r\n",
        "Content-Length: 4\n\n",
        "  Content-Length: 4 \t\r\n \u{a0}\u{2003}\r\n",
        "Content-Type: text/plain\r\nContent-Length: 4\r\n\r\n",
        "content-length: 9\r\nContent-Length:9\r\nContent-Length: 004\r\n\r\n",
        "Content-Length: 90\r\nContent-Length: +4\r\n\r\n",
        "Überschrift: ja\r\nContent-Length: 4\r\n\r\n",
    ] {
        let (values, error) = read_all(format!("{head}true").as_bytes());
        assert_eq!(values, vec![Value::Bool(true)], "{head:?}");
        assert!(error.is_none(), "{head:?}");
    }
}

#[test]
fn lengths_that_are_no_numbers() {
    for length in ["", "x", "-1", "+", "4x", "4 4", "0x4", "++4", "18446744073709551616", "\u{664}"] {
        let (values, error) = read_all(format!("Content-Length: {length}\r\n\r\ntrue").as_bytes());
        assert!(values.is_empty(), "{length:?}");
        match error {
            // The blank behind the name is gone from a header without a value.
            Some(ReadError::MissingContentLength) => assert_eq!(length, ""),
            Some(ReadError::BadContentLength) => assert_ne!(length, ""),
            other => panic!("{length:?}: {other:?}"),
        }
    }
}

#[test]
fn a_frame_without_a_length() {
    let (_, error) = read_all(b"\r\ntrue");
    assert!(matches!(error, Some(ReadError::MissingContentLength)));
    let (_, error) = read_all(b"Content-Type: x\r\n\r\n");
    assert!(matches!(error, Some(ReadError::MissingContentLength)));
}

#[test]
fn a_body_that_is_cut_off() {
    let (_, error) = read_all(b"Content-Length: 5\r\n\r\ntrue");
    assert!(matches!(error, Some(ReadError::UnexpectedEof)));
    let (_, error) = read_all(b"Content-Length: 18446744073709551615\r\n\r\ntrue");
    assert!(matches!(error, Some(ReadError::UnexpectedEof)));
}

#[test]
fn headers_that_are_cut_off() {
    for bytes in ["Content-Length: 4\r\n", "Content-Length: 4", "x"] {
        let (values, error) = read_all(bytes.as_bytes());
        assert!(values.is_empty());
        assert!(error.is_none());
    }
}

#[test]
fn a_header_that_is_not_text() {
    let (_, error) = read_all(b"Content-Length: \xff\r\n\r\n");
    assert!(matches!(error, Some(ReadError::NotUtf8)));
}

#[test]
fn a_body_that_is_not_json() {
    let (_, error) = read_all(b"Content-Length: 3\r\n\r\n{\"}");
    match error {
        Some(ReadError::BadJson(error)) => assert!(error.is_eof()),
        other => panic!("{other:?}"),
    }
    let (_, error) = read_all(b"Content-Length: 0\r\n\r\n");
    assert!(matches!(error, Some(ReadError::BadJson(_))));
}

#[test]
fn a_failure_leaves_the_rest() {
    let mut reader = ByteReader::new(
        b"Content-Length: 1\r\n\r\n}Content-Length: x\r\n\r\nContent-Length: 1\r\n\r\n7".to_vec(),
    );
    assert!(matches!(read_message(&mut reader), Err(ReadError::BadJson(_))));
    assert!(matches!(read_message(&mut reader), Err(ReadError::BadContentLength)));
    assert!(matches!(read_message(&mut reader), Err(ReadError::MissingContentLength)));
    assert_eq!(to_serde(&read_message(&mut reader).unwrap().unwrap()), Value::from(7));
    assert!(read_message(&mut reader).unwrap().is_none());
}

#[test]
fn frames_are_told_apart() {
    let bytes = b"Content-Length: 2\r\n\r\nabContent-Length: 1\r\n\r\nc";
    let (frame, taken) = read_frame(bytes);
    assert_eq!(frame.unwrap().unwrap(), b"ab");
    let (frame, taken_next) = read_frame(&bytes[taken..]);
    assert_eq!(frame.unwrap().unwrap(), b"c");
    assert_eq!(taken + taken_next, bytes.len());
}

#[test]
fn header_lines_one_at_a_time() {
    let mut reader = HeaderReader::new();
    assert!(matches!(reader.body_length(), Err(ReadError::MissingContentLength)));
    assert!(!reader.read_line("Content-Length: 12\r\n").unwrap());
    assert!(!reader.read_line("Content-Type: json\r\n").unwrap());
    assert!(matches!(reader.read_line("Content-Length: y\r\n"), Err(ReadError::BadContentLength)));
    assert!(reader.read_line("\r\n").unwrap());
    assert_eq!(reader.body_length().unwrap(), 12);
    assert_eq!(to_serde(&decode_body(b" [1] ").unwrap()), Value::from(vec![1]));
    assert!(matches!(decode_body(b"[1"), Err(ReadError::BadJson(_))));
}

#[test]
fn a_stream_of_messages() {
    let texts = ["null", "[]", r#"{"a": {"b": "\u0000\"\\"}}"#, "-9223372036854775808", "18446744073709551615"];
    let mut bytes = Vec::new();
    for text in texts {
        bytes.extend(write_message(&json(text)));
    }
    let (values, error) = read_all(&bytes);
    assert!(error.is_none());
    let expected: Vec<Value> = texts.iter().map(|text| serde_json::from_str(text).unwrap()).collect();
    assert_eq!(values, expected);
}
