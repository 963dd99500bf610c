use helix_vue_proxy::bridge::TsBridge;
use helix_vue_proxy::codec::{decode, to_serde};
use helix_vue_proxy::json::JsonValue;
use helix_vue_proxy::message::{
    build_execute_command_request, build_tsserver_response, extract_tsserver_request,
    is_mirrorable_notification, is_tsserver_request,
};
use helix_vue_proxy::proxy::{
    build_initialized, build_local_result, build_response, is_initialize_response, Action, Event,
    Peer, Proxy,
};
use serde_json::Value;

fn json(text: &str) -> JsonValue {
    decode(text.as_bytes()).unwrap()
}

fn outside(text: &str) -> Value {
    serde_json::from_str(text).unwrap()
}

fn new_proxy() -> Proxy {
    Proxy::new("/path/to/plugin", "/path/to/tsdk")
}

/// Tells the proxy of an event that it takes.
fn step(proxy: &mut Proxy, event: Event<JsonValue>) -> Action<JsonValue> {
    assert!(proxy.accepts(&event));
    proxy.step(event)
}

/// Tells the proxy of a message.
fn receive(proxy: &mut Proxy, peer: Peer, text: &str) -> Action<JsonValue> {
    step(proxy, Event::Received(peer, json(text)))
}

/// The action sends this message to this peer.
fn assert_sends(action: Action<JsonValue>, peer: Peer, text: &str) {
    match action {
        Action::Send(to, message) => {
            assert_eq!(to, peer);
            assert_eq!(to_serde(&message), outside(text));
        }
        other => panic!("{other:?}"),
    }
}

fn assert_waits(action: Action<JsonValue>) {
    assert!(matches!(action, Action::Wait), "{action:?}");
}

fn assert_stops(action: Action<JsonValue>) {
    assert!(matches!(action, Action::Stop), "{action:?}");
}

const CAPABILITIES: &str = r#"{"id": 1, "result": {"capabilities": {}}}"#;
const INITIALIZED: &str = r#"{"jsonrpc": "2.0", "method": "initialized", "params": {}}"#;

/// A proxy whose typescript-language-server is ready.
fn ready_proxy() -> Proxy {
    let mut proxy = new_proxy();
    assert_sends(receive(&mut proxy, Peer::Ts, CAPABILITIES), Peer::Ts, INITIALIZED);
    assert_waits(step(&mut proxy, Event::Written));
    proxy
}

/// The message from vue-language-server that asks for a command.
fn request(id: i64, command: &str) -> String {
    format!(r#"{{"jsonrpc": "2.0", "method": "tsserver/request", "params": [{id}, "{command}", {{}}]}}"#)
}

/// The message to typescript-language-server that forwards a command.
fn forwarded(id: i64, command: &str) -> String {
    format!(
        r#"{{"jsonrpc": "2.0", "id": {id}, "method": "workspace/executeCommand",
            "params": {{"command": "typescript.tsserverRequest", "arguments": ["{command}", {{}}]}}}}"#
    )
}

/// The message to vue-language-server that answers a request.
fn answered(id: i64, body: &str) -> String {
    format!(r#"{{"jsonrpc": "2.0", "method": "tsserver/response", "params": [[{id}, {body}]]}}"#)
}

#[test]
fn test_tsserver_request_response_flow() {
    let tsserver_request = json(
        r#"{
            "jsonrpc": "2.0",
            "method": "tsserver/request",
            "params": [42, "completionInfo", {"file": "/tmp/test.vue", "line": 1, "offset": 5}]
        }"#,
    );

    assert_eq!(tsserver_request.get("params").unwrap().as_array().unwrap().len(), 3);
    let (ts_id, command, args) = extract_tsserver_request(&tsserver_request).unwrap();

    assert_eq!(to_serde(&ts_id), Value::from(42));
    assert_eq!(command, "completionInfo");

    let exec_cmd = to_serde(&build_execute_command_request(1, &command, args));

    assert_eq!(exec_cmd["method"], "workspace/executeCommand");
    assert_eq!(exec_cmd["params"]["command"], "typescript.tsserverRequest");

    let ts_response = json(
        r#"{
            "jsonrpc": "2.0",
            "id": 1,
            "result": {
                "body": {
                    "entries": [
                        {"name": "ref", "kind": "function"},
                        {"name": "reactive", "kind": "function"}
                    ]
                }
            }
        }"#,
    );

    let result = ts_response.get("result").unwrap().clone();
    let tsserver_response = to_serde(&build_tsserver_response(ts_id, result));

    assert_eq!(tsserver_response["method"], "tsserver/response");
    assert_eq!(tsserver_response["params"][0][0], 42);
    assert!(tsserver_response["params"][0][1]["body"]["entries"].is_array());
}

#[test]
fn test_initialize_with_plugin_injection() {
    let helix_init = json(
        r#"{
            "jsonrpc": "2.0",
            "id": 1,
            "method": "initialize",
            "params": {
                "capabilities": {
                    "textDocument": {
                        "completion": {}
                    }
                },
                "rootUri": "file:///tmp/project"
            }
        }"#,
    );

    let mut bridge = TsBridge::new();
    for _ in 1..100 {
        bridge.alloc_id();
    }
    let ts_init =
        to_serde(&bridge.send_initialize(&helix_init, "/path/to/plugin", "/path/to/tsdk"));
    assert_eq!(ts_init["id"], 100);

    let plugins = &ts_init["params"]["initializationOptions"]["plugins"];
    assert!(plugins.is_array());
    assert_eq!(plugins[0]["name"], "@vue/typescript-plugin");
    assert_eq!(
        ts_init["params"]["initializationOptions"]["tsdk"],
        "/path/to/tsdk"
    );

    assert!(ts_init["params"]["capabilities"]["textDocument"]["completion"].is_object());
}

#[test]
fn test_passthrough_non_tsserver_messages() {
    let messages = [
        r#"{"jsonrpc":"2.0","id":1,"method":"textDocument/completion","params":{}}"#,
        r#"{"jsonrpc":"2.0","id":2,"result":{"items":[]}}"#,
        r#"{"jsonrpc":"2.0","method":"textDocument/publishDiagnostics","params":{"diagnostics":[]}}"#,
        r#"{"jsonrpc":"2.0","id":3,"method":"textDocument/hover","params":{}}"#,
    ];

    let mut proxy = new_proxy();
    for msg in messages {
        assert!(!is_tsserver_request(&json(msg)));
        assert_sends(receive(&mut proxy, Peer::Vue, msg), Peer::Helix, msg);
        assert_waits(step(&mut proxy, Event::Written));
    }
}

#[test]
fn test_mirror_notifications() {
    let mirrorable = [
        "textDocument/didOpen",
        "textDocument/didChange",
        "textDocument/didClose",
        "textDocument/didSave",
    ];

    let non_mirrorable = ["textDocument/completion", "textDocument/hover", "initialized", "shutdown"];

    let mut proxy = new_proxy();
    for m in mirrorable {
        let msg = format!(r#"{{"jsonrpc":"2.0","method":"{m}","params":{{}}}}"#);
        assert!(is_mirrorable_notification(&json(&msg)), "expected mirrorable: {m}");
        assert_sends(receive(&mut proxy, Peer::Helix, &msg), Peer::Vue, &msg);
        assert_sends(step(&mut proxy, Event::Written), Peer::Ts, &msg);
        assert_waits(step(&mut proxy, Event::Written));
    }

    for m in non_mirrorable {
        let msg = format!(r#"{{"jsonrpc":"2.0","method":"{m}","params":{{}}}}"#);
        assert!(!is_mirrorable_notification(&json(&msg)), "expected NOT mirrorable: {m}");
        assert_sends(receive(&mut proxy, Peer::Helix, &msg), Peer::Vue, &msg);
        assert_waits(step(&mut proxy, Event::Written));
    }
}

#[test]
fn test_multiple_concurrent_tsserver_requests() {
    let mut proxy = ready_proxy();
    let requests = [(10, "completionInfo"), (11, "quickinfo"), (12, "geterr")];
    let mut proxy_id = 1;
    for (ts_id, command) in requests {
        assert_sends(
            receive(&mut proxy, Peer::Vue, &request(ts_id, command)),
            Peer::Ts,
            &forwarded(proxy_id, command),
        );
        assert_waits(step(&mut proxy, Event::Written));
        proxy_id += 1;
    }

    for proxy_id in [2i64, 3, 1] {
        let response = format!(r#"{{"id": {proxy_id}, "result": {{"result": "ok"}}}}"#);
        assert_sends(
            receive(&mut proxy, Peer::Ts, &response),
            Peer::Vue,
            &answered(proxy_id + 9, r#"{"result": "ok"}"#),
        );
        assert_waits(step(&mut proxy, Event::Written));
        assert_waits(receive(&mut proxy, Peer::Ts, &response));
    }

    assert_waits(step(&mut proxy, Event::Closed(Peer::Ts)));
}

#[test]
fn test_null_response_on_error() {
    let mut proxy = ready_proxy();
    assert_sends(
        receive(&mut proxy, Peer::Vue, &request(42, "geterr")),
        Peer::Ts,
        &forwarded(1, "geterr"),
    );
    assert_waits(step(&mut proxy, Event::Written));
    let error_response = r#"{
        "jsonrpc": "2.0",
        "id": 1,
        "error": {"code": -32600, "message": "Invalid Request"}
    }"#;
    match receive(&mut proxy, Peer::Ts, error_response) {
        Action::Send(Peer::Vue, message) => {
            let tsserver_resp = to_serde(&message);
            assert_eq!(tsserver_resp["params"][0][0], 42);
            assert_eq!(tsserver_resp["params"][0][1], Value::Null);
        }
        other => panic!("{other:?}"),
    }
}

#[test]
fn the_first_initialize_goes_to_both_servers() {
    let init = r#"{"jsonrpc": "2.0", "id": 0, "method": "initialize", "params": {}}"#;
    let to_ts = |id: i64| {
        format!(
            r#"{{"jsonrpc": "2.0", "id": {id}, "method": "initialize", "params":
                {{"initializationOptions": {{"plugins": [{{"name": "@vue/typescript-plugin",
                "location": "/path/to/plugin", "languages": ["vue"]}}], "tsdk": "/path/to/tsdk"}}}}}}"#
        )
    };
    let mut proxy = new_proxy();
    assert_sends(receive(&mut proxy, Peer::Helix, init), Peer::Vue, init);
    assert_sends(step(&mut proxy, Event::Written), Peer::Ts, &to_ts(1));
    assert_waits(step(&mut proxy, Event::WriteFailed));
    assert_sends(receive(&mut proxy, Peer::Helix, init), Peer::Vue, init);
    assert_sends(step(&mut proxy, Event::Written), Peer::Ts, &to_ts(2));
    assert_waits(step(&mut proxy, Event::Written));
    assert_sends(receive(&mut proxy, Peer::Helix, init), Peer::Vue, init);
    assert_waits(step(&mut proxy, Event::Written));
}

#[test]
fn one_initialize_under_the_first_id() {
    let init = r#"{"id": 77, "method": "initialize", "params": {"rootUri": "a"}}"#;
    let later = r#"{"id": 78, "method": "initialize", "params": {"rootUri": "b"}}"#;
    let mut proxy = new_proxy();
    assert_waits(receive(&mut proxy, Peer::Vue, &request(5, "queued")));
    let mut initializes = Vec::new();
    for msg in [init, later, later] {
        let mut action = receive(&mut proxy, Peer::Helix, msg);
        while let Action::Send(peer, message) = action {
            if peer == Peer::Ts {
                initializes.push(to_serde(&message));
            }
            action = step(&mut proxy, Event::Written);
        }
        assert_waits(action);
    }
    assert_eq!(initializes.len(), 1);
    assert_eq!(initializes[0]["id"], 1);
    assert_eq!(initializes[0]["params"]["rootUri"], "a");
    assert_sends(receive(&mut proxy, Peer::Ts, CAPABILITIES), Peer::Ts, INITIALIZED);
    assert_sends(step(&mut proxy, Event::Written), Peer::Ts, &forwarded(2, "queued"));
}

#[test]
fn the_first_id_though_the_server_is_ready_early() {
    let init = r#"{"id": 77, "method": "initialize", "params": {}}"#;
    let mut proxy = ready_proxy();
    assert_sends(receive(&mut proxy, Peer::Helix, init), Peer::Vue, init);
    match step(&mut proxy, Event::Written) {
        Action::Send(Peer::Ts, message) => assert_eq!(to_serde(&message)["id"], 1),
        other => panic!("{other:?}"),
    }
}

#[test]
fn no_two_requests_to_the_server_share_an_id() {
    let init = r#"{"id": 1, "method": "initialize", "params": {}}"#;
    let mut proxy = ready_proxy();
    let mut ids = Vec::new();
    for round in 0..5 {
        for (peer, msg) in [(Peer::Vue, request(round, "geterr")), (Peer::Helix, init.to_string())] {
            let mut action = receive(&mut proxy, peer, &msg);
            while let Action::Send(to, message) = action {
                if to == Peer::Ts {
                    ids.push(to_serde(&message)["id"].as_i64().unwrap());
                    action = step(&mut proxy, Event::WriteFailed);
                } else {
                    action = step(&mut proxy, Event::Written);
                }
            }
            assert_waits(action);
        }
    }
    assert_eq!(ids, (1..=10).collect::<Vec<i64>>());
}

#[test]
fn nothing_is_pending_before_the_server_is_ready() {
    let mut proxy = new_proxy();
    assert_waits(receive(&mut proxy, Peer::Vue, &request(5, "queued")));
    assert_waits(receive(&mut proxy, Peer::Ts, r#"{"id": 1, "result": {}}"#));
    assert_waits(step(&mut proxy, Event::Closed(Peer::Ts)));
}

#[test]
fn a_tsserver_response_of_helix_is_passed_on() {
    let msg = answered(3, "null");
    let mut proxy = new_proxy();
    assert_sends(receive(&mut proxy, Peer::Helix, &msg), Peer::Vue, &msg);
    assert_waits(step(&mut proxy, Event::Written));
}

#[test]
fn document_notifications_are_mirrored_in_order() {
    let mut proxy = ready_proxy();
    let mut mirrored = Vec::new();
    for method in ["didOpen", "hover", "didChange", "didSave", "completion", "didClose"] {
        let msg = format!(r#"{{"method": "textDocument/{method}"}}"#);
        let mut action = receive(&mut proxy, Peer::Helix, &msg);
        while let Action::Send(peer, message) = action {
            if peer == Peer::Ts {
                mirrored.push(to_serde(&message)["method"].as_str().unwrap().to_string());
                action = step(&mut proxy, Event::WriteFailed);
            } else {
                action = step(&mut proxy, Event::Written);
            }
        }
    }
    assert_eq!(
        mirrored,
        [
            "textDocument/didOpen",
            "textDocument/didChange",
            "textDocument/didSave",
            "textDocument/didClose",
        ]
    );
}

#[test]
fn an_initialize_that_cannot_be_mirrored() {
    let init = r#"{"id": 0, "method": "initialize", "params": null}"#;
    let mut proxy = new_proxy();
    assert_sends(receive(&mut proxy, Peer::Helix, init), Peer::Vue, init);
    assert!(!proxy.accepts(&Event::Written));
    assert!(proxy.accepts(&Event::WriteFailed));
}

#[test]
fn events_come_in_their_turn() {
    let mut proxy = new_proxy();
    assert!(!proxy.accepts(&Event::Written));
    assert!(!proxy.accepts(&Event::WriteFailed));
    assert!(proxy.accepts(&Event::Closed(Peer::Vue)));
    receive(&mut proxy, Peer::Vue, "{}");
    assert!(!proxy.accepts(&Event::Closed(Peer::Vue)));
    assert!(!proxy.accepts(&Event::Received(Peer::Ts, JsonValue::Null)));
    assert!(proxy.accepts(&Event::Written));
    assert_stops(step(&mut proxy, Event::WriteFailed));
    assert!(!proxy.accepts(&Event::Written));
    assert!(!proxy.accepts(&Event::Closed(Peer::Vue)));
}

#[test]
fn requests_wait_until_the_server_is_ready() {
    let mut proxy = new_proxy();
    for (id, command) in [(7, "a"), (8, "b"), (9, "c")] {
        assert_waits(receive(&mut proxy, Peer::Vue, &request(id, command)));
    }
    assert_sends(receive(&mut proxy, Peer::Ts, CAPABILITIES), Peer::Ts, INITIALIZED);
    assert_sends(step(&mut proxy, Event::WriteFailed), Peer::Ts, &forwarded(1, "a"));
    assert_sends(step(&mut proxy, Event::Written), Peer::Ts, &forwarded(2, "b"));
    assert_sends(step(&mut proxy, Event::Written), Peer::Ts, &forwarded(3, "c"));
    assert_waits(step(&mut proxy, Event::Written));
    assert_sends(
        receive(&mut proxy, Peer::Ts, r#"{"id": 3, "result": {"body": "C"}}"#),
        Peer::Vue,
        &answered(9, "\"C\""),
    );
    assert_waits(step(&mut proxy, Event::WriteFailed));
}

#[test]
fn a_failed_write_ends_the_release_of_the_queue() {
    let mut proxy = new_proxy();
    for (id, command) in [(7, "a"), (8, "b"), (9, "c")] {
        assert_waits(receive(&mut proxy, Peer::Vue, &request(id, command)));
    }
    assert_sends(receive(&mut proxy, Peer::Ts, CAPABILITIES), Peer::Ts, INITIALIZED);
    assert_sends(step(&mut proxy, Event::Written), Peer::Ts, &forwarded(1, "a"));
    assert_sends(step(&mut proxy, Event::Written), Peer::Ts, &forwarded(2, "b"));
    assert_waits(step(&mut proxy, Event::WriteFailed));
    assert_sends(
        receive(&mut proxy, Peer::Vue, &request(1, "d")),
        Peer::Ts,
        &forwarded(3, "d"),
    );
}

#[test]
fn a_request_that_cannot_be_forwarded_is_answered() {
    let mut proxy = ready_proxy();
    receive(&mut proxy, Peer::Vue, &request(5, "geterr"));
    assert_sends(step(&mut proxy, Event::WriteFailed), Peer::Vue, &answered(5, "null"));
    assert_waits(step(&mut proxy, Event::WriteFailed));
}

#[test]
fn a_request_without_a_command_is_dropped() {
    let mut proxy = ready_proxy();
    assert_waits(receive(&mut proxy, Peer::Vue, r#"{"method": "tsserver/request"}"#));
}

#[test]
fn a_second_answer_to_initialize_is_no_confirmation() {
    let mut proxy = ready_proxy();
    assert_waits(receive(&mut proxy, Peer::Ts, CAPABILITIES));
}

#[test]
fn requests_from_the_server_are_answered() {
    let mut proxy = new_proxy();
    for (rest, result) in [
        (r#""method": "workspace/configuration", "params": {"items": [1, 2]}"#, "[{}, {}]"),
        (r#""method": "workspace/configuration", "params": {"items": []}"#, "[]"),
        (r#""method": "workspace/configuration", "params": {"items": 3}"#, "[{}]"),
        (r#""method": "workspace/configuration""#, "[{}]"),
        (r#""method": "window/workDoneProgress/create""#, "null"),
        (r#""method": "client/registerCapability""#, "null"),
        (r#""method": "window/showMessageRequest""#, "null"),
        (r#""method": "something/else""#, "null"),
    ] {
        assert_sends(
            receive(&mut proxy, Peer::Ts, &format!(r#"{{"id": "q", {rest}}}"#)),
            Peer::Ts,
            &format!(r#"{{"jsonrpc": "2.0", "id": "q", "result": {result}}}"#),
        );
        assert_waits(step(&mut proxy, Event::WriteFailed));
    }
    assert_waits(receive(&mut proxy, Peer::Ts, r#"{"method": "textDocument/publishDiagnostics"}"#));
    assert_waits(receive(&mut proxy, Peer::Ts, r#"{"id": 4, "result": null}"#));
}

#[test]
fn a_request_with_the_id_of_another_answers_nothing() {
    let mut proxy = ready_proxy();
    receive(&mut proxy, Peer::Vue, &request(5, "geterr"));
    assert_waits(step(&mut proxy, Event::Written));
    assert_sends(
        receive(&mut proxy, Peer::Ts, r#"{"id": 1, "method": "client/registerCapability"}"#),
        Peer::Ts,
        r#"{"jsonrpc": "2.0", "id": 1, "result": null}"#,
    );
    assert_waits(step(&mut proxy, Event::Written));
    assert_sends(
        receive(&mut proxy, Peer::Ts, r#"{"id": 1, "result": 0}"#),
        Peer::Vue,
        &answered(5, "0"),
    );
}

#[test]
fn pending_requests_are_drained_when_the_server_goes() {
    let mut proxy = ready_proxy();
    for id in [20, 21, 22] {
        receive(&mut proxy, Peer::Vue, &request(id, "geterr"));
        assert_waits(step(&mut proxy, Event::Written));
    }
    let mut drained = Vec::new();
    let mut action = step(&mut proxy, Event::Closed(Peer::Ts));
    let mut writes = [Event::WriteFailed, Event::Written, Event::Written].into_iter();
    while let Action::Send(peer, message) = action {
        assert_eq!(peer, Peer::Vue);
        let message = to_serde(&message);
        let id = message["params"][0][0].as_i64().unwrap();
        assert_eq!(message, outside(&answered(id, "null")));
        drained.push(id);
        action = step(&mut proxy, writes.next().unwrap());
    }
    assert_waits(action);
    drained.sort();
    assert_eq!(drained, [20, 21, 22]);
    assert_waits(step(&mut proxy, Event::Closed(Peer::Ts)));
}

#[test]
fn the_proxy_stops_with_helix_or_the_vue_server() {
    for peer in [Peer::Helix, Peer::Vue] {
        assert_stops(step(&mut new_proxy(), Event::Closed(peer)));
        assert_stops(step(&mut new_proxy(), Event::ReadFailed(peer)));
        let mut proxy = new_proxy();
        receive(&mut proxy, peer, "{}");
        assert_stops(step(&mut proxy, Event::WriteFailed));
    }
    assert_waits(step(&mut new_proxy(), Event::Closed(Peer::Ts)));
    assert_waits(step(&mut new_proxy(), Event::ReadFailed(Peer::Ts)));
}

#[test]
fn a_mirrored_notification_may_fail() {
    let msg = r#"{"method": "textDocument/didOpen"}"#;
    let mut proxy = new_proxy();
    assert_sends(receive(&mut proxy, Peer::Helix, msg), Peer::Vue, msg);
    assert_sends(step(&mut proxy, Event::Written), Peer::Ts, msg);
    assert_waits(step(&mut proxy, Event::WriteFailed));
}

#[test]
fn messages_that_the_proxy_builds() {
    assert_eq!(to_serde(&build_initialized()), outside(INITIALIZED));
    assert_eq!(
        to_serde(&build_response(&json("[1]"), json("{}"))),
        outside(r#"{"jsonrpc": "2.0", "id": [1], "result": {}}"#)
    );
    assert_eq!(to_serde(&build_local_result(&json("{}"))), Value::Null);
    assert!(is_initialize_response(&json(CAPABILITIES)));
    assert!(is_initialize_response(&json(r#"{"result": {"capabilities": null}}"#)));
    assert!(!is_initialize_response(&json(r#"{"result": {}}"#)));
    assert!(!is_initialize_response(&json(r#"{"capabilities": {}}"#)));
}
