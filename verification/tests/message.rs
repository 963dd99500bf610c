use helix_vue_proxy::codec::{decode, to_serde};
use helix_vue_proxy::json::JsonValue;
use helix_vue_proxy::message::{
    build_execute_command_request, build_tsserver_response, classify, extract_tsserver_request,
    is_initialize_request, is_mirrorable_notification, is_tsserver_request, MessageKind,
};
use serde_json::Value;

fn json(text: &str) -> JsonValue {
    decode(text.as_bytes()).unwrap()
}

fn outside(text: &str) -> Value {
    serde_json::from_str(text).unwrap()
}

#[test]
fn test_classify_request() {
    let msg = json(r#"{"jsonrpc":"2.0","id":1,"method":"initialize","params":{}}"#);
    assert_eq!(classify(&msg), MessageKind::Request);
}

#[test]
fn test_classify_response() {
    let msg = json(r#"{"jsonrpc":"2.0","id":1,"result":{}}"#);
    assert_eq!(classify(&msg), MessageKind::Response);
}

#[test]
fn test_classify_notification() {
    let msg = json(r#"{"jsonrpc":"2.0","method":"textDocument/didOpen","params":{}}"#);
    assert_eq!(classify(&msg), MessageKind::Notification);
}

#[test]
fn test_is_tsserver_request() {
    let msg = json(r#"{"jsonrpc":"2.0","method":"tsserver/request","params":[1,"geterr",{}]}"#);
    assert!(is_tsserver_request(&msg));

    let msg = json(r#"{"jsonrpc":"2.0","method":"textDocument/hover","params":{}}"#);
    assert!(!is_tsserver_request(&msg));
}

#[test]
fn test_extract_tsserver_request_flat() {
    let msg = json(
        r#"{
            "jsonrpc":"2.0",
            "method":"tsserver/request",
            "params": [42, "geterr", {"files": ["/tmp/a.vue"]}]
        }"#,
    );

    let (id, command, args) = extract_tsserver_request(&msg).unwrap();
    assert_eq!(to_serde(&id), Value::from(42));
    assert_eq!(command, "geterr");
    assert_eq!(to_serde(&args), outside(r#"{"files": ["/tmp/a.vue"]}"#));
}

#[test]
fn test_extract_tsserver_request_nested() {
    let msg = json(
        r#"{
            "jsonrpc":"2.0",
            "method":"tsserver/request",
            "params": [[42, "geterr", {"files": ["/tmp/a.vue"]}]]
        }"#,
    );

    let (id, command, args) = extract_tsserver_request(&msg).unwrap();
    assert_eq!(to_serde(&id), Value::from(42));
    assert_eq!(command, "geterr");
    assert_eq!(to_serde(&args), outside(r#"{"files": ["/tmp/a.vue"]}"#));
}

#[test]
fn test_build_tsserver_response() {
    let resp = to_serde(&build_tsserver_response(json("42"), json(r#"{"body": "ok"}"#)));
    assert_eq!(resp["method"], "tsserver/response");
    assert_eq!(resp["params"], outside(r#"[[42, {"body": "ok"}]]"#));
}

#[test]
fn test_build_execute_command_request() {
    let req = to_serde(&build_execute_command_request(1, "geterr", json(r#"{"files": []}"#)));
    assert_eq!(req["id"], 1);
    assert_eq!(req["method"], "workspace/executeCommand");
    assert_eq!(req["params"]["command"], "typescript.tsserverRequest");
    assert_eq!(req["params"]["arguments"], outside(r#"["geterr", {"files": []}]"#));
}

#[test]
fn test_is_mirrorable_notification() {
    for method in &[
        "textDocument/didOpen",
        "textDocument/didChange",
        "textDocument/didClose",
        "textDocument/didSave",
    ] {
        let msg = json(&format!(r#"{{"jsonrpc":"2.0","method":"{method}","params":{{}}}}"#));
        assert!(is_mirrorable_notification(&msg), "expected mirrorable: {method}");
    }

    let msg = json(r#"{"jsonrpc":"2.0","method":"textDocument/hover","params":{}}"#);
    assert!(!is_mirrorable_notification(&msg));
}

#[test]
fn test_is_initialize_request() {
    let msg = json(r#"{"jsonrpc":"2.0","id":1,"method":"initialize","params":{}}"#);
    assert!(is_initialize_request(&msg));

    let msg = json(r#"{"jsonrpc":"2.0","id":1,"method":"initialized","params":{}}"#);
    assert!(!is_initialize_request(&msg));
}

#[test]
fn requests_that_carry_nothing() {
    for params in [
        "",
        r#", "params": {}"#,
        r#", "params": []"#,
        r#", "params": [1, "geterr"]"#,
        r#", "params": [1, 2, {}]"#,
        r#", "params": [[1, "geterr"]]"#,
        r#", "params": [[1, null, {}]]"#,
    ] {
        let msg = json(&format!(r#"{{"method": "tsserver/request"{params}}}"#));
        assert!(extract_tsserver_request(&msg).is_none(), "{params}");
    }
}

#[test]
fn an_array_stays_where_it_is_not_the_only_parameter() {
    let msg = json(r#"{"params": [[1], "quickinfo", [2], "more"]}"#);
    let (id, command, args) = extract_tsserver_request(&msg).unwrap();
    assert_eq!(to_serde(&id), outside("[1]"));
    assert_eq!(command, "quickinfo");
    assert_eq!(to_serde(&args), outside("[2]"));
}

#[test]
fn a_method_that_is_no_string_names_nothing() {
    let msg = json(r#"{"id": 1, "method": 5}"#);
    assert_eq!(classify(&msg), MessageKind::Request);
    assert!(!is_tsserver_request(&msg));
    assert!(!is_initialize_request(&msg));
    assert!(!is_mirrorable_notification(&msg));
    assert_eq!(classify(&json("[1]")), MessageKind::Notification);
}

#[test]
fn built_messages_are_of_their_kind() {
    let request = build_execute_command_request(-7, "geterr", JsonValue::Null);
    assert_eq!(classify(&request), MessageKind::Request);
    assert_eq!(to_serde(&request)["id"], -7);
    let response = build_tsserver_response(JsonValue::Null, JsonValue::Null);
    assert_eq!(classify(&response), MessageKind::Notification);
    assert!(!is_tsserver_request(&response));
}
