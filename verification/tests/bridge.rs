use helix_vue_proxy::bridge::{is_initializable, TsBridge};
use helix_vue_proxy::codec::{decode, to_serde};
use helix_vue_proxy::json::JsonValue;
use serde_json::Value;

fn json(text: &str) -> JsonValue {
    decode(text.as_bytes()).unwrap()
}

fn outside(text: &str) -> Value {
    serde_json::from_str(text).unwrap()
}

/// A bridge to a server that is ready.
fn ready_bridge() -> TsBridge {
    let mut bridge = TsBridge::new();
    assert!(bridge.mark_initialized().is_empty());
    bridge
}

/// Forwards a request with this id.
fn forward(bridge: &mut TsBridge, tsserver_id: JsonValue) {
    bridge
        .forward_tsserver_request(tsserver_id, "_vue:projectInfo".to_string(), JsonValue::Null)
        .unwrap();
}

/// A bridge on which a request with this id was forwarded under the id 1.
fn bridge_with_pending(tsserver_id: &str) -> TsBridge {
    let mut bridge = ready_bridge();
    forward(&mut bridge, json(tsserver_id));
    bridge
}

#[test]
fn test_handle_ts_response_extracts_body() {
    let mut bridge = bridge_with_pending("42");

    let response_from_ts = json(
        r#"{
            "jsonrpc": "2.0",
            "id": 1,
            "result": {
                "body": {"configFileName": "/tmp/tsconfig.json", "languageServiceDisabled": false},
                "command": "_vue:projectInfo",
                "type": "response",
                "success": true,
                "seq": 0,
                "request_seq": 5
            }
        }"#,
    );

    let tsserver_resp = to_serde(&bridge.handle_ts_response(&response_from_ts).unwrap());
    assert_eq!(tsserver_resp["method"], "tsserver/response");
    assert_eq!(tsserver_resp["params"][0][0], 42);
    assert_eq!(tsserver_resp["params"][0][1]["configFileName"], "/tmp/tsconfig.json");
    assert_eq!(tsserver_resp["params"][0][1]["languageServiceDisabled"], false);
    assert!(tsserver_resp["params"][0][1].get("command").is_none());
    assert!(tsserver_resp["params"][0][1].get("type").is_none());
}

#[test]
fn test_handle_ts_response_without_body_uses_result() {
    let mut bridge = bridge_with_pending("42");

    let response_from_ts = json(
        r#"{
            "jsonrpc": "2.0",
            "id": 1,
            "result": {"items": []}
        }"#,
    );

    let tsserver_resp = to_serde(&bridge.handle_ts_response(&response_from_ts).unwrap());
    assert_eq!(tsserver_resp["params"][0][1]["items"], outside("[]"));
}

#[test]
fn test_handle_ts_response_error_returns_null() {
    let mut bridge = bridge_with_pending("10");

    let error_response = json(
        r#"{
            "jsonrpc": "2.0",
            "id": 1,
            "error": {"code": -32600, "message": "Invalid Request"}
        }"#,
    );

    let tsserver_resp = to_serde(&bridge.handle_ts_response(&error_response).unwrap());
    assert_eq!(tsserver_resp["params"][0][1], Value::Null);
}

#[test]
fn test_handle_unknown_response_returns_none() {
    let mut bridge = TsBridge::new();
    let msg = json(r#"{"jsonrpc": "2.0", "id": 999, "result": {}}"#);
    assert!(bridge.handle_ts_response(&msg).is_none());
}

#[test]
fn test_drain_pending() {
    let mut bridge = ready_bridge();
    forward(&mut bridge, json("10"));
    forward(&mut bridge, json("20"));

    let responses = bridge.drain_pending();
    assert_eq!(responses.len(), 2);
    assert!(!bridge.is_pending_response(&json(r#"{"id": 1}"#)));
    assert!(!bridge.is_pending_response(&json(r#"{"id": 2}"#)));
    assert!(bridge.drain_pending().is_empty());

    for resp in &responses {
        let resp = to_serde(resp);
        assert_eq!(resp["method"], "tsserver/response");
        let inner = resp["params"][0][1].clone();
        assert_eq!(inner, Value::Null);
    }
}

#[test]
fn test_alloc_id_increments() {
    let mut bridge = TsBridge::new();
    assert_eq!(bridge.alloc_id(), 1);
    assert_eq!(bridge.alloc_id(), 2);
    assert_eq!(bridge.alloc_id(), 3);
}

#[test]
fn test_forward_queues_when_not_initialized() {
    let mut bridge = TsBridge::new();
    assert!(!bridge.is_initialized());

    let sent = bridge.forward_tsserver_request(json("1"), "geterr".to_string(), json("{}"));
    assert!(sent.is_none());

    assert_eq!(bridge.queued().len(), 1);
    assert_eq!(bridge.queued()[0].command, "geterr");
}

#[test]
fn test_is_pending_response() {
    let mut bridge = ready_bridge();
    for _ in 0..4 {
        bridge.alloc_id();
    }
    forward(&mut bridge, json("1"));

    assert!(bridge.is_pending_response(&json(r#"{"id": 5}"#)));
    assert!(!bridge.is_pending_response(&json(r#"{"id": 99}"#)));
    assert!(!bridge.is_pending_response(&json(r#"{"method": "foo"}"#)));
}

#[test]
fn requests_are_forwarded_under_new_ids() {
    let mut bridge = TsBridge::new();
    assert!(bridge.mark_initialized().is_empty());
    assert!(bridge.is_initialized());
    for (id, tsserver_id) in [(1, "10"), (2, "\"b\""), (3, "[12]")] {
        let message = bridge
            .forward_tsserver_request(json(tsserver_id), "quickinfo".to_string(), json("{}"))
            .unwrap();
        assert_eq!(
            to_serde(&message),
            outside(&format!(
                r#"{{"jsonrpc": "2.0", "id": {id}, "method": "workspace/executeCommand",
                    "params": {{"command": "typescript.tsserverRequest",
                        "arguments": ["quickinfo", {{}}]}}}}"#
            ))
        );
    }
    for (id, tsserver_id) in [(2, "\"b\""), (3, "[12]"), (1, "10")] {
        let answer = json(&format!(r#"{{"id": {id}, "result": {{"body": {id}}}}}"#));
        assert!(bridge.is_pending_response(&answer));
        let response = to_serde(&bridge.handle_ts_response(&answer).unwrap());
        assert_eq!(response["params"], outside(&format!("[[{tsserver_id}, {id}]]")));
        assert!(bridge.handle_ts_response(&answer).is_none());
    }
}

#[test]
fn ids_that_are_no_integers_answer_nothing() {
    let mut bridge = bridge_with_pending("42");
    for id in ["1.0", "\"1\"", "null", "18446744073709551615", "[1]", "true"] {
        let answer = json(&format!(r#"{{"id": {id}, "result": 1}}"#));
        assert!(!bridge.is_pending_response(&answer), "{id}");
        assert!(bridge.handle_ts_response(&answer).is_none(), "{id}");
    }
    assert!(bridge.handle_ts_response(&json("1")).is_none());
    assert!(bridge.handle_ts_response(&json(r#"{"id": 1}"#)).is_some());
}

#[test]
fn the_body_may_be_anything() {
    for (rest, body) in [
        (r#""result": {"body": null}"#, "null"),
        (r#""result": {"body": 1.5}"#, "1.5"),
        (r#""result": null"#, "null"),
        (r#""result": [1, {"body": 2}]"#, r#"[1, {"body": 2}]"#),
        (r#""result": 0, "error": {}"#, "0"),
        (r#""other": 0"#, "null"),
    ] {
        let mut bridge = bridge_with_pending("7");
        let answer = json(&format!(r#"{{"id": 1, {rest}}}"#));
        let response = to_serde(&bridge.handle_ts_response(&answer).unwrap());
        assert_eq!(response["params"][0], outside(&format!("[7, {body}]")), "{rest}");
    }
}

#[test]
fn the_queue_keeps_its_order() {
    let mut bridge = TsBridge::new();
    for command in ["a", "b", "c"] {
        assert!(bridge
            .forward_tsserver_request(JsonValue::Null, command.to_string(), JsonValue::Null)
            .is_none());
    }
    let queue = bridge.mark_initialized();
    let commands: Vec<&str> = queue.iter().map(|request| request.command.as_str()).collect();
    assert_eq!(commands, ["a", "b", "c"]);
    assert!(bridge.queued().is_empty());
    assert_eq!(bridge.alloc_id(), 1);
}

#[test]
fn every_pending_request_is_drained_once() {
    let mut bridge = ready_bridge();
    for id in 0..20 {
        forward(&mut bridge, JsonValue::Signed(id));
    }
    bridge.handle_ts_response(&json(r#"{"id": 1}"#)).unwrap();
    let mut ids: Vec<i64> = bridge
        .drain_pending()
        .iter()
        .map(|response| to_serde(response)["params"][0][0].as_i64().unwrap())
        .collect();
    ids.sort();
    assert_eq!(ids, (1..20).collect::<Vec<i64>>());
    assert_eq!(bridge.alloc_id(), 21);
}

#[test]
fn the_initialize_request_gets_an_id_and_the_plugin() {
    let original = json(
        r#"{"jsonrpc": "2.0", "id": "x", "method": "initialize",
            "params": {"rootUri": "file:///tmp", "initializationOptions":
                {"plugins": [1], "tsdk": 2, "kept": 3}}}"#,
    );
    let mut bridge = TsBridge::new();
    let request = to_serde(&bridge.send_initialize(&original, "/plugin", "/tsdk"));
    assert_eq!(
        request,
        outside(
            r#"{"jsonrpc": "2.0", "id": 1, "method": "initialize",
                "params": {"rootUri": "file:///tmp", "initializationOptions":
                    {"plugins": [{"name": "@vue/typescript-plugin", "location": "/plugin",
                        "languages": ["vue"]}], "tsdk": "/tsdk", "kept": 3}}}"#
        )
    );
    assert_eq!(bridge.alloc_id(), 2);
}

#[test]
fn the_initialize_request_without_options_or_parameters() {
    let mut bridge = TsBridge::new();
    let bare = json(r#"{"method": "initialize"}"#);
    assert!(is_initializable(&bare));
    assert_eq!(
        to_serde(&bridge.send_initialize(&bare, "/plugin", "/tsdk")),
        outside(r#"{"method": "initialize", "id": 1}"#)
    );
    assert!(is_initializable(&JsonValue::Null));
    assert_eq!(
        to_serde(&bridge.send_initialize(&JsonValue::Null, "/plugin", "/tsdk")),
        outside(r#"{"id": 2}"#)
    );
    let odd = json(r#"{"params": {"initializationOptions": [1]}}"#);
    assert!(is_initializable(&odd));
    assert_eq!(
        to_serde(&bridge.send_initialize(&odd, "/plugin", "/tsdk")),
        outside(r#"{"id": 3, "params": {"initializationOptions": [1]}}"#)
    );
    assert!(!is_initializable(&json(r#"{"params": null}"#)));
    assert!(!is_initializable(&json("[]")));
}

#[test]
fn a_notification_is_mirrored_as_it_is() {
    let text = r#"{"method": "textDocument/didSave", "params": {"version": 1.25}}"#;
    let bridge = TsBridge::new();
    assert_eq!(to_serde(&bridge.mirror_notification(&json(text))), outside(text));
}
