//! The messages that the proxy tells apart, takes apart and builds.
use crate::json::{items_json, Json, JsonValue, Object};
use crate::text::same_text;
use vstd::prelude::*;

verus! {

/// Classification of an LSP JSON-RPC message.
#[derive(Debug, Clone, Copy, PartialEq, Eq)]
pub enum MessageKind {
    Request,
    Response,
    Notification,
}

/// The method that a message names, if it names one.
pub open spec fn method_of(message: Json) -> Option<Seq<char>> {
    match message.get("method"@) {
        Some(method) => method.as_str(),
        None => None,
    }
}

/// A message with a method and an id is a request, one with an id alone a response,
/// and every other one a notification.
pub open spec fn kind_of(message: Json) -> MessageKind {
    if message.get("id"@) is None {
        MessageKind::Notification
    } else if message.get("method"@) is None {
        MessageKind::Response
    } else {
        MessageKind::Request
    }
}

/// The methods of the notifications that both language servers receive.
pub open spec fn is_document_sync(method: Seq<char>) -> bool {
    ||| method == "textDocument/didOpen"@
    ||| method == "textDocument/didChange"@
    ||| method == "textDocument/didClose"@
    ||| method == "textDocument/didSave"@
}

/// The items of a request's parameters, without the array that may stand around them.
pub open spec fn unwrapped(params: Seq<Json>) -> Seq<Json> {
    if params.len() == 1 && params[0] is Array {
        params[0]->Array_0
    } else {
        params
    }
}

/// The id, command and arguments that a `tsserver/request` carries.
pub open spec fn tsserver_request(message: Json) -> Option<(Json, Seq<char>, Json)> {
    match message.get("params"@) {
        Some(Json::Array(params)) => {
            let items = unwrapped(params);
            if items.len() >= 3 && items[1] is String {
                Some((items[0], items[1]->String_0, items[2]))
            } else {
                None
            }
        },
        _ => None,
    }
}

/// The `tsserver/response` with an id and a body.
pub open spec fn tsserver_response(id: Json, body: Json) -> Json {
    Json::Object(
        map![
            "jsonrpc"@ => Json::String("2.0"@),
            "method"@ => Json::String("tsserver/response"@),
            "params"@ => Json::Array(seq![Json::Array(seq![id, body])]),
        ],
    )
}

/// The `workspace/executeCommand` request that carries a tsserver command.
pub open spec fn execute_command_request(id: int, command: Seq<char>, args: Json) -> Json {
    Json::Object(
        map![
            "jsonrpc"@ => Json::String("2.0"@),
            "id"@ => Json::Integer(id),
            "method"@ => Json::String("workspace/executeCommand"@),
            "params"@ => Json::Object(
                map![
                    "command"@ => Json::String("typescript.tsserverRequest"@),
                    "arguments"@ => Json::Array(seq![Json::String(command), args]),
                ],
            ),
        ],
    )
}

/// A request carries the same, whether or not another array stands around its parameters.
pub proof fn lemma_wrapped_request(
    flat: Map<Seq<char>, Json>,
    wrapped: Map<Seq<char>, Json>,
    items: Seq<Json>,
)
    requires
        items.len() >= 3,
        Json::Object(flat).get("params"@) == Some(Json::Array(items)),
        Json::Object(wrapped).get("params"@) == Some(Json::Array(seq![Json::Array(items)])),
    ensures
        tsserver_request(Json::Object(flat)) == tsserver_request(Json::Object(wrapped)),
{
}

/// The method of a message is the string that it has under that name, whatever else it holds.
pub proof fn lemma_method_of(message: Json, name: Seq<char>)
    ensures
        method_of(message) == Some(name) <==> message.get("method"@) == Some(Json::String(name)),
        method_of(message) is None <==> !(message.get("method"@) matches Some(Json::String(_))),
{
}

/// What a message is shows in which of the two members it has, whatever they hold.
pub proof fn lemma_kind_of(message: Json)
    ensures
        kind_of(message) == MessageKind::Request <==> message.get("id"@) is Some && message.get(
            "method"@,
        ) is Some,
        kind_of(message) == MessageKind::Response <==> message.get("id"@) is Some && message.get(
            "method"@,
        ) is None,
        kind_of(message) == MessageKind::Notification <==> message.get("id"@) is None,
{
}

/// A request with an id, a command and arguments in its parameters carries these three, of
/// whatever kind the id and the arguments are and whatever the characters of the command, with
/// anything behind them, and with or without another array around them all.
pub proof fn lemma_request_carries(
    message: Json,
    id: Json,
    command: Seq<char>,
    args: Json,
    more: Seq<Json>,
)
    requires
        ({
            let items = seq![id, Json::String(command), args] + more;
            ||| message.get("params"@) == Some(Json::Array(items))
            ||| message.get("params"@) == Some(Json::Array(seq![Json::Array(items)]))
        }),
    ensures
        tsserver_request(message) == Some((id, command, args)),
{
    let items = seq![id, Json::String(command), args] + more;
    assert(items[0] == id && items[1] == Json::String(command) && items[2] == args);
}

/// A request carries nothing only where it has no parameters, where they are no array, or where
/// they, out of the array around them, are fewer than three or have no string for a command.
pub proof fn lemma_request_carries_nothing(message: Json)
    requires
        tsserver_request(message) is None,
    ensures
        match message.get("params"@) {
            Some(Json::Array(params)) => {
                let items = if params.len() == 1 && params[0] is Array {
                    params[0]->Array_0
                } else {
                    params
                };
                items.len() < 3 || !(items[1] is String)
            },
            _ => true,
        },
{
}

/// What a request carries is what stands in its parameters, out of the array around them: the
/// first of them, the second, which is a string, and the third.
pub proof fn lemma_request_carried(message: Json)
    requires
        tsserver_request(message) is Some,
    ensures
        match message.get("params"@) {
            Some(Json::Array(params)) => {
                let items = if params.len() == 1 && params[0] is Array {
                    params[0]->Array_0
                } else {
                    params
                };
                let (id, command, args) = tsserver_request(message)->0;
                &&& items.len() >= 3
                &&& items[0] == id
                &&& items[1] == Json::String(command)
                &&& items[2] == args
            },
            _ => false,
        },
{
}

/// The members of a `tsserver/response`: it is a notification, and no request, and its
/// parameters are the id and the body as they are.
pub proof fn lemma_tsserver_response(id: Json, body: Json)
    ensures
        tsserver_response(id, body) is Object,
        tsserver_response(id, body).get("jsonrpc"@) == Some(Json::String("2.0"@)),
        forall|key: Seq<char>| #[trigger]
            tsserver_response(id, body).get(key) is Some ==> key == "jsonrpc"@ || key == "method"@
                || key == "params"@,
        method_of(tsserver_response(id, body)) == Some("tsserver/response"@),
        kind_of(tsserver_response(id, body)) == MessageKind::Notification,
        tsserver_response(id, body).get("params"@) == Some(
            Json::Array(seq![Json::Array(seq![id, body])]),
        ),
{
    lemma_names();
}

/// The members of the request that carries a tsserver command: it is a request with the id,
/// and hands on the command and its arguments as they are.
pub proof fn lemma_execute_command_request(id: int, command: Seq<char>, args: Json)
    ensures
        execute_command_request(id, command, args) is Object,
        execute_command_request(id, command, args).get("jsonrpc"@) == Some(Json::String("2.0"@)),
        ({
            let params = execute_command_request(id, command, args).get("params"@)->0;
            &&& execute_command_request(id, command, args).get("params"@) is Some
            &&& params is Object
            &&& params.get("command"@) == Some(Json::String("typescript.tsserverRequest"@))
            &&& params.get("arguments"@) == Some(
                Json::Array(seq![Json::String(command), args]),
            )
            &&& forall|key: Seq<char>| #[trigger]
                params.get(key) is Some ==> key == "command"@ || key == "arguments"@
        }),
        forall|key: Seq<char>| #[trigger]
            execute_command_request(id, command, args).get(key) is Some ==> key == "jsonrpc"@ || key
                == "id"@ || key == "method"@ || key == "params"@,
        method_of(execute_command_request(id, command, args)) == Some("workspace/executeCommand"@),
        kind_of(execute_command_request(id, command, args)) == MessageKind::Request,
        execute_command_request(id, command, args).get("id"@) == Some(Json::Integer(id)),
{
    lemma_names();
    reveal_strlit("command");
    reveal_strlit("arguments");
    assert("command"@.len() == 7);
    assert("arguments"@.len() == 9);
}

/// The names of a message's members differ.
pub proof fn lemma_names()
    ensures
        "jsonrpc"@ != "id"@,
        "jsonrpc"@ != "method"@,
        "jsonrpc"@ != "params"@,
        "jsonrpc"@ != "result"@,
        "id"@ != "method"@,
        "id"@ != "params"@,
        "id"@ != "result"@,
        "method"@ != "params"@,
        "method"@ != "result"@,
        "params"@ != "result"@,
{
    reveal_strlit("jsonrpc");
    reveal_strlit("id");
    reveal_strlit("method");
    reveal_strlit("params");
    reveal_strlit("result");
    assert("jsonrpc"@.len() == 7);
    assert("id"@.len() == 2);
    assert("method"@.len() == 6);
    assert("params"@.len() == 6);
    assert("result"@.len() == 6);
    assert("method"@[0] != "params"@[0]);
    assert("method"@[0] != "result"@[0]);
    assert("params"@[0] != "result"@[0]);
}

/// The string value with a text.
pub fn text_value(text: &str) -> (value: JsonValue)
    ensures
        value@ == Json::String(text@),
{
    JsonValue::String(text.to_owned())
}

/// Starts a message: an object with the protocol version.
pub fn new_message() -> (message: Object)
    ensures
        message@ == map!["jsonrpc"@ => Json::String("2.0"@)],
{
    let mut message = Object::new();
    message.insert("jsonrpc".to_owned(), text_value("2.0"));
    message
}

/// The method that a message names, if it names one.
pub fn method(value: &JsonValue) -> (method: Option<&str>)
    ensures
        match method {
            Some(text) => method_of(value@) == Some(text@),
            None => method_of(value@) is None,
        },
{
    match value.get("method") {
        Some(method) => method.as_str(),
        None => None,
    }
}

/// Tells whether a message names a given method.
pub fn has_method(value: &JsonValue, name: &str) -> (has: bool)
    ensures
        has == (method_of(value@) == Some(name@)),
{
    match method(value) {
        Some(text) => same_text(text, name),
        None => false,
    }
}

/// Classify a JSON-RPC message.
pub fn classify(value: &JsonValue) -> (kind: MessageKind)
    ensures
        kind == kind_of(value@),
{
    if value.get("method").is_some() && value.get("id").is_some() {
        MessageKind::Request
    } else if value.get("id").is_some() {
        MessageKind::Response
    } else {
        MessageKind::Notification
    }
}

/// Check if a message is a `tsserver/request` notification.
pub fn is_tsserver_request(value: &JsonValue) -> (is: bool)
    ensures
        is == (method_of(value@) == Some("tsserver/request"@)),
{
    has_method(value, "tsserver/request")
}

/// Extract `(id, command, args)` from a `tsserver/request` notification.
///
/// Handles both formats:
/// - `params: [id, command, args]`
/// - `params: [[id, command, args]]` (Neovim double-wrap)
pub fn extract_tsserver_request(value: &JsonValue) -> (request: Option<
    (JsonValue, String, JsonValue),
>)
    ensures
        match request {
            Some((id, command, args)) => tsserver_request(value@) == Some((id@, command@, args@)),
            None => tsserver_request(value@) is None,
        },
{
    let params = match value.get("params") {
        Some(params) => params,
        None => return None,
    };
    let outer = match params.as_array() {
        Some(items) => items,
        None => return None,
    };
    let inner = if outer.len() == 1 {
        outer[0].as_array()
    } else {
        None
    };
    let items = match inner {
        Some(items) => items,
        None => outer,
    };
    if items.len() < 3 {
        return None;
    }
    match items[1].as_str() {
        Some(command) => Some((items[0].clone(), command.to_owned(), items[2].clone())),
        None => None,
    }
}

/// Build a `tsserver/response` notification to send back to vue-language-server.
pub fn build_tsserver_response(id: JsonValue, body: JsonValue) -> (response: JsonValue)
    ensures
        response@ == tsserver_response(id@, body@),
{
    let mut pair: Vec<JsonValue> = Vec::new();
    pair.push(id);
    pair.push(body);
    assert(items_json(pair@) =~= seq![id@, body@]);
    let mut params: Vec<JsonValue> = Vec::new();
    params.push(JsonValue::Array(pair));
    assert(items_json(params@) =~= seq![Json::Array(seq![id@, body@])]);
    let mut response = new_message();
    response.insert("method".to_owned(), text_value("tsserver/response"));
    response.insert("params".to_owned(), JsonValue::Array(params));
    JsonValue::Object(response)
}

/// Build a `workspace/executeCommand` request for typescript-language-server.
pub fn build_execute_command_request(proxy_id: i64, command: &str, args: JsonValue) -> (request:
    JsonValue)
    ensures
        request@ == execute_command_request(proxy_id as int, command@, args@),
{
    let mut arguments: Vec<JsonValue> = Vec::new();
    arguments.push(text_value(command));
    arguments.push(args);
    assert(items_json(arguments@) =~= seq![Json::String(command@), args@]);
    let mut params = Object::new();
    params.insert("command".to_owned(), text_value("typescript.tsserverRequest"));
    params.insert("arguments".to_owned(), JsonValue::Array(arguments));
    let mut request = new_message();
    request.insert("id".to_owned(), JsonValue::Signed(proxy_id));
    request.insert("method".to_owned(), text_value("workspace/executeCommand"));
    request.insert("params".to_owned(), JsonValue::Object(params));
    JsonValue::Object(request)
}

/// Check if a notification is one that should be mirrored to typescript-language-server.
pub fn is_mirrorable_notification(value: &JsonValue) -> (is: bool)
    ensures
        is == match method_of(value@) {
            Some(method) => is_document_sync(method),
            None => false,
        },
{
    let name = match method(value) {
        Some(name) => name,
        None => return false,
    };
    same_text(name, "textDocument/didOpen") || same_text(name, "textDocument/didChange")
        || same_text(name, "textDocument/didClose") || same_text(name, "textDocument/didSave")
}

/// Check if a request is an `initialize` request.
pub fn is_initialize_request(value: &JsonValue) -> (is: bool)
    ensures
        is == (method_of(value@) == Some("initialize"@)),
{
    has_method(value, "initialize")
}

} // verus!
