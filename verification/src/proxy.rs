//! Which message goes where: the proxy between Helix, vue-language-server and
//! typescript-language-server, as a machine that is told what happened and says what to
//! do next.
use crate::bridge::{
    initializable, initialize_request, is_initializable, lists, null_responses, requests,
    response_body, Bridge, QueuedRequest, Request, TsBridge,
};
use crate::codec::{encode, printed};
use crate::json::{items_json, Json, JsonValue, Object};
use crate::message::{
    build_tsserver_response, extract_tsserver_request, is_document_sync, is_initialize_request,
    is_mirrorable_notification, is_tsserver_request, kind_of, lemma_names, method, method_of,
    new_message, text_value, tsserver_request, tsserver_response, MessageKind,
};
use crate::text::{same_text, truncate_text, truncated};
use vstd::prelude::*;

verus! {

/// Whom the proxy talks to.
#[derive(Debug, Clone, Copy, PartialEq, Eq)]
pub enum Peer {
    Helix,
    /// vue-language-server.
    Vue,
    /// typescript-language-server.
    Ts,
}

/// What happened.
#[derive(Debug)]
pub enum Event<M> {
    /// A message was read from a peer.
    Received(Peer, M),
    /// The output of a peer has ended.
    Closed(Peer),
    /// What a peer wrote is no message, or could not be read.
    ReadFailed(Peer),
    /// The message that was to be sent is written.
    Written,
    /// The message that was to be sent could not be written.
    WriteFailed,
}

/// What to do next.
#[derive(Debug)]
pub enum Action<M> {
    /// Write a message to a peer and report how that went.
    Send(Peer, M),
    /// Read the next message, from whichever peer has one.
    Wait,
    /// Shut down.
    Stop,
}

impl View for Event<JsonValue> {
    type V = Event<Json>;

    open spec fn view(&self) -> Event<Json> {
        match *self {
            Event::Received(peer, message) => Event::Received(peer, message@),
            Event::Closed(peer) => Event::Closed(peer),
            Event::ReadFailed(peer) => Event::ReadFailed(peer),
            Event::Written => Event::Written,
            Event::WriteFailed => Event::WriteFailed,
        }
    }
}

impl View for Action<JsonValue> {
    type V = Action<Json>;

    open spec fn view(&self) -> Action<Json> {
        match *self {
            Action::Send(peer, message) => Action::Send(peer, message@),
            Action::Wait => Action::Wait,
            Action::Stop => Action::Stop,
        }
    }
}

/// What the proxy is doing.
enum Stage {
    /// Nothing: it waits for a message.
    Idle,
    /// It writes this message from Helix to vue-language-server.
    Forwarding(JsonValue),
    /// It writes the `initialize` request to typescript-language-server that mirrors this
    /// message from Helix.
    Initializing(JsonValue),
    /// It writes a message to Helix.
    Returning,
    /// It writes a tsserver request with this id to typescript-language-server.
    Requesting(JsonValue),
    /// It writes the `initialized` notification to typescript-language-server.
    Confirming,
    /// It writes a queued request to typescript-language-server; these are left.
    Releasing(Vec<QueuedRequest>),
    /// It writes a null response to vue-language-server; these are left.
    Draining(Vec<JsonValue>),
    /// It writes a message, and it does not matter how that goes.
    Finishing,
    /// It has stopped.
    Stopped,
}

/// What the proxy is doing, with what the messages mean.
#[verifier::ext_equal]
pub enum Phase {
    Idle,
    Forwarding(Json),
    Initializing(Json),
    Returning,
    Requesting(Json),
    Confirming,
    Releasing(Seq<Request>),
    Draining(Seq<Json>),
    Finishing,
    Stopped,
}

impl View for Stage {
    type V = Phase;

    closed spec fn view(&self) -> Phase {
        match *self {
            Stage::Idle => Phase::Idle,
            Stage::Forwarding(message) => Phase::Forwarding(message@),
            Stage::Initializing(message) => Phase::Initializing(message@),
            Stage::Returning => Phase::Returning,
            Stage::Requesting(id) => Phase::Requesting(id@),
            Stage::Confirming => Phase::Confirming,
            Stage::Releasing(queue) => Phase::Releasing(requests(queue@)),
            Stage::Draining(responses) => Phase::Draining(items_json(responses@)),
            Stage::Finishing => Phase::Finishing,
            Stage::Stopped => Phase::Stopped,
        }
    }
}

/// The proxy.
pub struct Proxy {
    bridge: TsBridge,
    /// Whether the `initialize` request has been sent to typescript-language-server.
    ts_init_sent: bool,
    plugin_path: String,
    tsdk: String,
    stage: Stage,
}

/// What a [`Proxy`] keeps.
#[verifier::ext_equal]
pub struct Machine {
    pub bridge: Bridge,
    pub ts_init_sent: bool,
    pub plugin_path: Seq<char>,
    pub tsdk: Seq<char>,
    pub phase: Phase,
}

impl View for Proxy {
    type V = Machine;

    closed spec fn view(&self) -> Machine {
        Machine {
            bridge: self.bridge@,
            ts_init_sent: self.ts_init_sent,
            plugin_path: self.plugin_path@,
            tsdk: self.tsdk@,
            phase: self.stage@,
        }
    }
}

/// A message that both language servers get: didOpen, didChange, didClose or didSave.
pub open spec fn is_mirrored(message: Json) -> bool {
    match method_of(message) {
        Some(method) => is_document_sync(method),
        None => false,
    }
}

/// A response to the `initialize` request: its result has capabilities.
pub open spec fn has_capabilities(message: Json) -> bool {
    match message.get("result"@) {
        Some(result) => result.get("capabilities"@) is Some,
        None => false,
    }
}

/// The `initialized` notification.
pub open spec fn initialized_notification() -> Json {
    Json::Object(
        map![
            "jsonrpc"@ => Json::String("2.0"@),
            "method"@ => Json::String("initialized"@),
            "params"@ => Json::Object(Map::empty()),
        ],
    )
}

/// The response to a request with an id.
pub open spec fn response(id: Json, result: Json) -> Json {
    Json::Object(
        map![
            "jsonrpc"@ => Json::String("2.0"@),
            "id"@ => id,
            "result"@ => result,
        ],
    )
}

/// How many configurations a message asks for: one for each of the items in its
/// parameters, or one where there are no items.
pub open spec fn configurations(message: Json) -> nat {
    match message.get("params"@) {
        Some(params) => match params.get("items"@) {
            Some(Json::Array(items)) => items.len(),
            _ => 1,
        },
        None => 1,
    }
}

/// The result that a request from typescript-language-server gets: empty configurations
/// where it asks for configurations, else null.
pub open spec fn local_result(message: Json) -> Json {
    if method_of(message) == Some("workspace/configuration"@) {
        Json::Array(Seq::new(configurations(message), |i: int| Json::Object(Map::empty())))
    } else {
        Json::Null
    }
}

impl Machine {
    /// The proxy before anything has happened.
    pub open spec fn initial(plugin_path: Seq<char>, tsdk: Seq<char>) -> Machine {
        Machine {
            bridge: Bridge::initial(),
            ts_init_sent: false,
            plugin_path,
            tsdk,
            phase: Phase::Idle,
        }
    }

    /// Waits for the next message.
    pub open spec fn idle(self) -> (Machine, Action<Json>) {
        (Machine { phase: Phase::Idle, ..self }, Action::Wait)
    }

    /// Shuts down.
    pub open spec fn stop(self) -> (Machine, Action<Json>) {
        (Machine { phase: Phase::Stopped, ..self }, Action::Stop)
    }

    /// Sends a message, and goes on as the phase says once that is done.
    pub open spec fn send(self, phase: Phase, peer: Peer, message: Json) -> (Machine, Action<Json>) {
        (Machine { phase, ..self }, Action::Send(peer, message))
    }

    /// Passes a message from Helix on to typescript-language-server where both get it.
    pub open spec fn mirror(self, message: Json) -> (Machine, Action<Json>) {
        if is_mirrored(message) {
            self.send(Phase::Finishing, Peer::Ts, message)
        } else {
            self.idle()
        }
    }

    /// After a message from Helix has gone to vue-language-server: typescript-language-server
    /// gets the first `initialize` too.
    pub open spec fn forwarded(self, message: Json) -> (Machine, Action<Json>) {
        if method_of(message) == Some("initialize"@) && !self.ts_init_sent {
            Machine { bridge: self.bridge.allocated(), ..self }.send(
                Phase::Initializing(message),
                Peer::Ts,
                initialize_request(message, self.bridge.next_id, self.plugin_path, self.tsdk),
            )
        } else {
            self.mirror(message)
        }
    }

    /// A message has come from vue-language-server: a tsserver request is for
    /// typescript-language-server, everything else is for Helix.
    pub open spec fn from_vue(self, message: Json) -> (Machine, Action<Json>) {
        if method_of(message) != Some("tsserver/request"@) {
            self.send(Phase::Returning, Peer::Helix, message)
        } else {
            match tsserver_request(message) {
                Some((id, command, args)) => {
                    let request = Request { id, command, args };
                    let after = Machine { bridge: self.bridge.accepted(request), ..self };
                    if self.bridge.initialized {
                        after.send(
                            Phase::Requesting(id),
                            Peer::Ts,
                            self.bridge.forwarding(request),
                        )
                    } else {
                        after.idle()
                    }
                },
                None => self.idle(),
            }
        }
    }

    /// A message has come from typescript-language-server.
    pub open spec fn from_ts(self, message: Json) -> (Machine, Action<Json>) {
        if !self.bridge.initialized && has_capabilities(message) {
            self.send(Phase::Confirming, Peer::Ts, initialized_notification())
        } else if method_of(message) is Some && message.get("id"@) is Some {
            self.send(
                Phase::Finishing,
                Peer::Ts,
                response(message.get("id"@)->0, local_result(message)),
            )
        } else {
            let after = Machine { bridge: self.bridge.settled(message), ..self };
            match self.bridge.answered(message) {
                Some(id) => after.send(
                    Phase::Finishing,
                    Peer::Vue,
                    tsserver_response(self.bridge.pending[id], response_body(message)),
                ),
                None => after.idle(),
            }
        }
    }

    /// Sends the first of the queued requests to typescript-language-server.
    pub open spec fn release(self, queue: Seq<Request>) -> (Machine, Action<Json>) {
        if queue.len() == 0 {
            self.idle()
        } else {
            Machine { bridge: self.bridge.forwarded(queue[0]), ..self }.send(
                Phase::Releasing(queue.skip(1)),
                Peer::Ts,
                self.bridge.forwarding(queue[0]),
            )
        }
    }

    /// Sends the first of the null responses to vue-language-server.
    pub open spec fn drain(self, responses: Seq<Json>) -> (Machine, Action<Json>) {
        if responses.len() == 0 {
            self.idle()
        } else {
            self.send(Phase::Draining(responses.skip(1)), Peer::Vue, responses[0])
        }
    }

    /// What the proxy does at an event. The order is that in which the requests without an
    /// answer get their null responses, where typescript-language-server has gone.
    pub open spec fn next(self, event: Event<Json>, order: Seq<i64>) -> (Machine, Action<Json>) {
        match event {
            Event::Received(Peer::Helix, message) => self.send(
                Phase::Forwarding(message),
                Peer::Vue,
                message,
            ),
            Event::Received(Peer::Vue, message) => self.from_vue(message),
            Event::Received(Peer::Ts, message) => self.from_ts(message),
            Event::Closed(Peer::Ts) => Machine { bridge: self.bridge.drained(), ..self }.drain(
                null_responses(self.bridge.pending, order),
            ),
            Event::ReadFailed(Peer::Ts) => self.idle(),
            Event::Closed(_) | Event::ReadFailed(_) => self.stop(),
            Event::Written => match self.phase {
                Phase::Forwarding(message) => self.forwarded(message),
                Phase::Initializing(message) => Machine { ts_init_sent: true, ..self }.mirror(
                    message,
                ),
                Phase::Confirming => Machine { bridge: self.bridge.ready(), ..self }.release(
                    self.bridge.queue,
                ),
                Phase::Releasing(queue) => self.release(queue),
                Phase::Draining(responses) => self.drain(responses),
                _ => self.idle(),
            },
            Event::WriteFailed => match self.phase {
                Phase::Forwarding(_) | Phase::Returning => self.stop(),
                Phase::Initializing(message) => self.mirror(message),
                Phase::Requesting(id) => self.send(
                    Phase::Finishing,
                    Peer::Vue,
                    tsserver_response(id, Json::Null),
                ),
                Phase::Confirming => Machine { bridge: self.bridge.ready(), ..self }.release(
                    self.bridge.queue,
                ),
                Phase::Draining(responses) => self.drain(responses),
                _ => self.idle(),
            },
        }
    }

    /// Whether an event can happen: a message is read while the proxy waits for one, and a
    /// write ends while there is one.
    pub open spec fn expects(self, event: Event<Json>) -> bool {
        match event {
            Event::Written | Event::WriteFailed => !(self.phase is Idle) && !(
            self.phase is Stopped),
            _ => self.phase is Idle,
        }
    }

    /// Whether the proxy can take an event: an `initialize` request that it mirrors has an
    /// object for its parameters, and there is an id left where one is given out.
    pub open spec fn can_take(self, event: Event<Json>) -> bool {
        &&& match (event, self.phase) {
            (Event::Written, Phase::Forwarding(message)) => method_of(message) == Some(
                "initialize"@,
            ) && !self.ts_init_sent ==> initializable(message),
            _ => true,
        }
        &&& self.next(event, Seq::empty()).0.bridge.next_id <= i64::MAX
    }
}

/// At the start nothing has happened: no id is given out, nothing waits, and the paths are those
/// that the proxy was given.
pub proof fn lemma_initial(plugin_path: Seq<char>, tsdk: Seq<char>)
    ensures
        ({
            let machine = Machine::initial(plugin_path, tsdk);
            &&& machine.phase is Idle
            &&& !machine.ts_init_sent
            &&& machine.plugin_path == plugin_path
            &&& machine.tsdk == tsdk
            &&& machine.bridge.next_id == 1
            &&& machine.bridge.pending.dom() == Set::<i64>::empty()
            &&& !machine.bridge.initialized
            &&& machine.bridge.queue.len() == 0
        }),
{
}

/// An event and an action mean the event and the action of their own kind, with the same peer
/// and what their message means.
pub proof fn lemma_meaning(peer: Peer, message: JsonValue)
    ensures
        Event::Received(peer, message)@ == Event::Received(peer, message@),
        Event::<JsonValue>::Closed(peer)@ == Event::<Json>::Closed(peer),
        Event::<JsonValue>::ReadFailed(peer)@ == Event::<Json>::ReadFailed(peer),
        Event::<JsonValue>::Written@ == Event::<Json>::Written,
        Event::<JsonValue>::WriteFailed@ == Event::<Json>::WriteFailed,
        Action::Send(peer, message)@ == Action::Send(peer, message@),
        Action::<JsonValue>::Wait@ == Action::<Json>::Wait,
        Action::<JsonValue>::Stop@ == Action::<Json>::Stop,
{
}

/// A message from typescript-language-server answers `initialize` where its result has
/// capabilities, whatever these hold, and nowhere else.
pub proof fn lemma_has_capabilities(message: Json, result: Json)
    ensures
        message.get("result"@) == Some(result) && result.get("capabilities"@) is Some
            ==> has_capabilities(message),
        message.get("result"@) == Some(result) && result.get("capabilities"@) is None
            ==> !has_capabilities(message),
        message.get("result"@) is None ==> !has_capabilities(message),
{
}

/// Both language servers get the messages with one of four methods, whatever else these hold,
/// and no others.
pub proof fn lemma_is_mirrored(message: Json)
    ensures
        is_mirrored(message) <==> {
            ||| message.get("method"@) == Some(Json::String("textDocument/didOpen"@))
            ||| message.get("method"@) == Some(Json::String("textDocument/didChange"@))
            ||| message.get("method"@) == Some(Json::String("textDocument/didClose"@))
            ||| message.get("method"@) == Some(Json::String("textDocument/didSave"@))
        },
{
}

/// The members of a response: the id and the result as they are. It is a response.
pub proof fn lemma_response(id: Json, result: Json)
    ensures
        response(id, result) is Object,
        response(id, result).get("jsonrpc"@) == Some(Json::String("2.0"@)),
        response(id, result).get("id"@) == Some(id),
        response(id, result).get("result"@) == Some(result),
        kind_of(response(id, result)) == MessageKind::Response,
        forall|key: Seq<char>| #[trigger]
            response(id, result).get(key) is Some ==> key == "jsonrpc"@ || key == "id"@ || key
                == "result"@,
{
    lemma_names();
}

/// The members of the `initialized` notification: it is a notification with empty parameters.
pub proof fn lemma_initialized_notification()
    ensures
        initialized_notification() is Object,
        initialized_notification().get("jsonrpc"@) == Some(Json::String("2.0"@)),
        initialized_notification().get("method"@) == Some(Json::String("initialized"@)),
        initialized_notification().get("params"@) == Some(Json::Object(Map::empty())),
        kind_of(initialized_notification()) == MessageKind::Notification,
        forall|key: Seq<char>| #[trigger]
            initialized_notification().get(key) is Some ==> key == "jsonrpc"@ || key == "method"@
                || key == "params"@,
{
    lemma_names();
}

/// Who asks for configurations gets one for each item asked for, whatever the items are, or one
/// where there is no array of items, and each is an empty object. Every other request gets null.
pub proof fn lemma_local_result(message: Json, params: Json, items: Seq<Json>)
    ensures
        message.get("method"@) != Some(Json::String("workspace/configuration"@)) ==> local_result(
            message,
        ) == Json::Null,
        message.get("method"@) == Some(Json::String("workspace/configuration"@)) ==> {
            let results = local_result(message)->Array_0;
            &&& local_result(message) is Array
            &&& forall|i: int|
                0 <= i < results.len() ==> #[trigger] results[i] == Json::Object(Map::empty())
            &&& message.get("params"@) == Some(params) && params.get("items"@) == Some(
                Json::Array(items),
            ) ==> results.len() == items.len()
            &&& message.get("params"@) is None ==> results.len() == 1
            &&& message.get("params"@) == Some(params) && !(params.get("items"@) matches Some(
                Json::Array(_),
            )) ==> results.len() == 1
        },
{
}

/// While an id is left, an idle proxy takes whatever is read, and a proxy that writes takes the
/// end of the write, unless that was an `initialize` request from Helix, to be mirrored, with
/// parameters that are no object. Nothing else is expected of it. Where no id is left, it still
/// takes what Helix and typescript-language-server say and what becomes of each peer.
pub proof fn lemma_can_take(machine: Machine, event: Event<Json>)
    requires
        machine.bridge.next_id <= i64::MAX,
    ensures
        machine.expects(event) <==> match event {
            Event::Written | Event::WriteFailed => machine.phase != Phase::Idle && machine.phase
                != Phase::Stopped,
            _ => machine.phase == Phase::Idle,
        },
        match event {
            Event::Received(peer, _) => peer != Peer::Vue,
            Event::Closed(_) | Event::ReadFailed(_) => true,
            _ => false,
        } ==> machine.can_take(event),
        machine.bridge.next_id < i64::MAX && !(event is Written) ==> machine.can_take(event),
        machine.bridge.next_id < i64::MAX && !(machine.phase is Forwarding) ==> machine.can_take(
            event,
        ),
        machine.bridge.next_id < i64::MAX && machine.ts_init_sent ==> machine.can_take(event),
        ({
            let message = machine.phase->Forwarding_0;
            machine.bridge.next_id < i64::MAX && machine.phase is Forwarding && (message.get("method"@) != Some(
                Json::String("initialize"@),
            ) || (message.get("params"@) is Some ==> message.get("params"@)->0 is Object))
                ==> machine.can_take(event)
        }),
{
}

/// Build a JSON-RPC response for a ts-ls request that the proxy handles locally.
pub fn build_response(id: &JsonValue, result: JsonValue) -> (message: JsonValue)
    ensures
        message@ == response(id@, result@),
{
    let mut message = new_message();
    message.insert("id".to_owned(), id.clone());
    message.insert("result".to_owned(), result);
    JsonValue::Object(message)
}

/// Build the `initialized` notification.
pub fn build_initialized() -> (message: JsonValue)
    ensures
        message@ == initialized_notification(),
{
    let mut message = new_message();
    message.insert("method".to_owned(), text_value("initialized"));
    message.insert("params".to_owned(), JsonValue::Object(Object::new()));
    JsonValue::Object(message)
}

/// Check if a message is a response to the `initialize` request.
pub fn is_initialize_response(msg: &JsonValue) -> (is: bool)
    ensures
        is == has_capabilities(msg@),
{
    match msg.get("result") {
        Some(result) => result.get("capabilities").is_some(),
        None => false,
    }
}

/// The result that a request from typescript-language-server gets.
pub fn build_local_result(msg: &JsonValue) -> (result: JsonValue)
    ensures
        result@ == local_result(msg@),
{
    let configuration = match method(msg) {
        Some(name) => same_text(name, "workspace/configuration"),
        None => false,
    };
    if !configuration {
        return JsonValue::Null;
    }
    let items = match msg.get("params") {
        Some(params) => params.get("items"),
        None => None,
    };
    let count: usize = match items {
        Some(JsonValue::Array(items)) => items.len(),
        _ => 1,
    };
    let mut results: Vec<JsonValue> = Vec::new();
    for i in 0..count
        invariant
            items_json(results@) == Seq::new(i as nat, |k: int| Json::Object(Map::empty())),
    {
        let ghost before = items_json(results@);
        results.push(JsonValue::Object(Object::new()));
        assert(items_json(results@) =~= before.push(Json::Object(Map::empty())));
    }
    JsonValue::Array(results)
}

/// Truncate a JSON value for logging (avoid huge log entries).
pub fn truncate_log(value: &JsonValue) -> (text: String)
    ensures
        text@ == truncated(printed(value@)),
{
    truncate_text(encode(value).as_str())
}

impl Proxy {
    /// A proxy before anything has happened.
    pub fn new(plugin_path: &str, tsdk: &str) -> (proxy: Proxy)
        ensures
            proxy@ == Machine::initial(plugin_path@, tsdk@),
    {
        Proxy {
            bridge: TsBridge::new(),
            ts_init_sent: false,
            plugin_path: plugin_path.to_owned(),
            tsdk: tsdk.to_owned(),
            stage: Stage::Idle,
        }
    }

    /// Waits for the next message.
    fn idle(&mut self) -> (action: Action<JsonValue>)
        ensures
            (final(self)@, action@) == old(self)@.idle(),
    {
        self.stage = Stage::Idle;
        Action::Wait
    }

    /// Shuts down.
    fn stop(&mut self) -> (action: Action<JsonValue>)
        ensures
            (final(self)@, action@) == old(self)@.stop(),
    {
        self.stage = Stage::Stopped;
        Action::Stop
    }

    /// Sends a message, and goes on as the stage says once that is done.
    fn send(&mut self, stage: Stage, peer: Peer, message: JsonValue) -> (action: Action<JsonValue>)
        ensures
            (final(self)@, action@) == old(self)@.send(stage@, peer, message@),
    {
        self.stage = stage;
        Action::Send(peer, message)
    }

    /// Passes a message from Helix on to typescript-language-server where both get it.
    fn mirror(&mut self, message: JsonValue) -> (action: Action<JsonValue>)
        ensures
            (final(self)@, action@) == old(self)@.mirror(message@),
    {
        if is_mirrorable_notification(&message) {
            let notification = self.bridge.mirror_notification(&message);
            self.send(Stage::Finishing, Peer::Ts, notification)
        } else {
            self.idle()
        }
    }

    /// Goes on after a message from Helix has gone to vue-language-server.
    fn forwarded(&mut self, message: JsonValue) -> (action: Action<JsonValue>)
        requires
            method_of(message@) == Some("initialize"@) && !old(self)@.ts_init_sent
                ==> initializable(message@) && old(self)@.bridge.next_id < i64::MAX,
        ensures
            (final(self)@, action@) == old(self)@.forwarded(message@),
    {
        if is_initialize_request(&message) && !self.ts_init_sent {
            let request = self.bridge.send_initialize(
                &message,
                self.plugin_path.as_str(),
                self.tsdk.as_str(),
            );
            self.send(Stage::Initializing(message), Peer::Ts, request)
        } else {
            self.mirror(message)
        }
    }

    /// Takes a message from vue-language-server.
    fn from_vue(&mut self, message: JsonValue) -> (action: Action<JsonValue>)
        requires
            old(self)@.from_vue(message@).0.bridge.next_id <= i64::MAX,
        ensures
            (final(self)@, action@) == old(self)@.from_vue(message@),
    {
        if !is_tsserver_request(&message) {
            return self.send(Stage::Returning, Peer::Helix, message);
        }
        match extract_tsserver_request(&message) {
            Some((id, command, args)) => {
                let tsserver_id = id.clone();
                match self.bridge.forward_tsserver_request(tsserver_id, command, args) {
                    Some(request) => self.send(Stage::Requesting(id), Peer::Ts, request),
                    None => self.idle(),
                }
            },
            None => self.idle(),
        }
    }

    /// Takes a message from typescript-language-server.
    fn from_ts(&mut self, message: JsonValue) -> (action: Action<JsonValue>)
        ensures
            (final(self)@, action@) == old(self)@.from_ts(message@),
    {
        if !self.bridge.is_initialized() && is_initialize_response(&message) {
            return self.send(Stage::Confirming, Peer::Ts, build_initialized());
        }
        if method(&message).is_some() {
            if let Some(id) = message.get("id") {
                let answer = build_response(id, build_local_result(&message));
                return self.send(Stage::Finishing, Peer::Ts, answer);
            }
        }
        match self.bridge.handle_ts_response(&message) {
            Some(response) => self.send(Stage::Finishing, Peer::Vue, response),
            None => self.idle(),
        }
    }

    /// Sends the first of the queued requests to typescript-language-server.
    fn release(&mut self, queue: Vec<QueuedRequest>) -> (action: Action<JsonValue>)
        requires
            queue@.len() > 0 ==> old(self)@.bridge.next_id < i64::MAX,
        ensures
            (final(self)@, action@) == old(self)@.release(requests(queue@)),
    {
        if queue.len() == 0 {
            return self.idle();
        }
        let mut queue = queue;
        let ghost all = requests(queue@);
        let request = queue.remove(0);
        assert(requests(queue@) =~= all.skip(1));
        let message = self.bridge.send_execute_command(
            request.tsserver_id,
            request.command.as_str(),
            request.args,
        );
        self.send(Stage::Releasing(queue), Peer::Ts, message)
    }

    /// Sends the first of the null responses to vue-language-server.
    fn drain(&mut self, responses: Vec<JsonValue>) -> (action: Action<JsonValue>)
        ensures
            (final(self)@, action@) == old(self)@.drain(items_json(responses@)),
    {
        if responses.len() == 0 {
            return self.idle();
        }
        let mut responses = responses;
        let ghost all = items_json(responses@);
        let response = responses.remove(0);
        assert(items_json(responses@) =~= all.skip(1));
        self.send(Stage::Draining(responses), Peer::Vue, response)
    }

    /// Goes on after the `initialized` notification has gone to typescript-language-server.
    fn confirmed(&mut self) -> (action: Action<JsonValue>)
        requires
            old(self)@.bridge.queue.len() > 0 ==> old(self)@.bridge.next_id < i64::MAX,
        ensures
            (final(self)@, action@) == (Machine {
                bridge: old(self)@.bridge.ready(),
                ..old(self)@
            }).release(old(self)@.bridge.queue),
    {
        let queue = self.bridge.mark_initialized();
        self.release(queue)
    }

    /// Goes on after a message was written.
    fn written(&mut self) -> (action: Action<JsonValue>)
        requires
            old(self)@.can_take(Event::Written),
        ensures
            (final(self)@, action@) == old(self)@.next(Event::Written, Seq::empty()),
    {
        let mut stage = Stage::Idle;
        std::mem::swap(&mut stage, &mut self.stage);
        match stage {
            Stage::Forwarding(message) => self.forwarded(message),
            Stage::Initializing(message) => {
                self.ts_init_sent = true;
                self.mirror(message)
            },
            Stage::Confirming => self.confirmed(),
            Stage::Releasing(queue) => self.release(queue),
            Stage::Draining(responses) => self.drain(responses),
            _ => self.idle(),
        }
    }

    /// Goes on after a message could not be written.
    fn write_failed(&mut self) -> (action: Action<JsonValue>)
        requires
            old(self)@.can_take(Event::WriteFailed),
        ensures
            (final(self)@, action@) == old(self)@.next(Event::WriteFailed, Seq::empty()),
    {
        let mut stage = Stage::Idle;
        std::mem::swap(&mut stage, &mut self.stage);
        match stage {
            Stage::Forwarding(_) | Stage::Returning => self.stop(),
            Stage::Initializing(message) => self.mirror(message),
            Stage::Requesting(id) => {
                let response = build_tsserver_response(id, JsonValue::Null);
                self.send(Stage::Finishing, Peer::Vue, response)
            },
            Stage::Confirming => self.confirmed(),
            Stage::Draining(responses) => self.drain(responses),
            _ => self.idle(),
        }
    }

    /// Tells the proxy what happened: gives what to do next.
    pub fn step(&mut self, event: Event<JsonValue>) -> (action: Action<JsonValue>)
        requires
            old(self)@.expects(event@),
            old(self)@.can_take(event@),
        ensures
            event@ != Event::<Json>::Closed(Peer::Ts) ==> (final(self)@, action@) == old(
                self,
            )@.next(event@, Seq::empty()),
            event@ == Event::<Json>::Closed(Peer::Ts) ==> exists|order: Seq<i64>| #[trigger]
                lists(order, old(self)@.bridge.pending.dom()) && (final(self)@, action@) == old(
                    self,
                )@.next(event@, order),
    {
        match event {
            Event::Received(Peer::Helix, message) => {
                let copy = message.clone();
                self.send(Stage::Forwarding(message), Peer::Vue, copy)
            },
            Event::Received(Peer::Vue, message) => self.from_vue(message),
            Event::Received(Peer::Ts, message) => self.from_ts(message),
            Event::Closed(Peer::Ts) => {
                let responses = self.bridge.drain_pending();
                self.drain(responses)
            },
            Event::ReadFailed(Peer::Ts) => self.idle(),
            Event::Closed(_) | Event::ReadFailed(_) => self.stop(),
            Event::Written => self.written(),
            Event::WriteFailed => self.write_failed(),
        }
    }

    /// Tells whether an event makes the proxy give out an id.
    fn allocates(&self, event: &Event<JsonValue>) -> (does: bool)
        ensures
            self@.next(event@, Seq::empty()).0.bridge.next_id == self@.bridge.next_id + (if does {
                1int
            } else {
                0
            }),
    {
        match event {
            Event::Received(Peer::Vue, message) => self.bridge.is_initialized()
                && is_tsserver_request(message) && extract_tsserver_request(message).is_some(),
            Event::Written => match &self.stage {
                Stage::Forwarding(message) => is_initialize_request(message) && !self.ts_init_sent,
                Stage::Confirming => self.bridge.queued().len() > 0,
                Stage::Releasing(queue) => queue.len() > 0,
                _ => false,
            },
            Event::WriteFailed => match &self.stage {
                Stage::Confirming => self.bridge.queued().len() > 0,
                _ => false,
            },
            _ => false,
        }
    }

    /// Tells whether the proxy can be told of an event.
    pub fn accepts(&self, event: &Event<JsonValue>) -> (accepts: bool)
        ensures
            accepts == (self@.expects(event@) && self@.can_take(event@)),
    {
        let expected = match (event, &self.stage) {
            (Event::Written | Event::WriteFailed, Stage::Idle | Stage::Stopped) => false,
            (Event::Written | Event::WriteFailed, _) => true,
            (_, Stage::Idle) => true,
            _ => false,
        };
        let mirrorable = match (event, &self.stage) {
            (Event::Written, Stage::Forwarding(message)) => !is_initialize_request(message)
                || self.ts_init_sent || is_initializable(message),
            _ => true,
        };
        expected && mirrorable && (self.bridge.has_ids() || !self.allocates(event))
    }
}

} // verus!
