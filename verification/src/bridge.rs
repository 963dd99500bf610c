//! The bridge to typescript-language-server: which tsserver requests wait for it to be
//! ready, and which wait for its answer.
use crate::json::{items_json, Json, JsonValue, Object};
use crate::message::{
    build_execute_command_request, build_tsserver_response, execute_command_request,
    lemma_execute_command_request, lemma_names, text_value, tsserver_response,
};
use std::collections::HashMap;
use vstd::prelude::*;
use vstd::std_specs::iter::IteratorSpec;

verus! {

/// A pending tsserver request waiting for a response from typescript-language-server.
struct PendingTsRequest {
    /// The original tsserver request ID (from vue-language-server).
    tsserver_id: JsonValue,
}

/// Queued request waiting for ts-ls initialization.
#[derive(Debug)]
pub struct QueuedRequest {
    pub tsserver_id: JsonValue,
    pub command: String,
    pub args: JsonValue,
}

/// A tsserver request: what a [`QueuedRequest`] means.
pub struct Request {
    pub id: Json,
    pub command: Seq<char>,
    pub args: Json,
}

impl View for QueuedRequest {
    type V = Request;

    open spec fn view(&self) -> Request {
        Request { id: self.tsserver_id@, command: self.command@, args: self.args@ }
    }
}

/// What each of the requests means.
pub open spec fn requests(queue: Seq<QueuedRequest>) -> Seq<Request> {
    queue.map_values(|request: QueuedRequest| request@)
}

/// Bridge to typescript-language-server for handling tsserver/request forwarding.
pub struct TsBridge {
    next_request_id: i64,
    pending_requests: HashMap<i64, PendingTsRequest>,
    initialized: bool,
    init_queue: Vec<QueuedRequest>,
}

/// What a [`TsBridge`] keeps.
#[verifier::ext_equal]
pub struct Bridge {
    /// The id that the next message to typescript-language-server gets.
    pub next_id: int,
    /// The tsserver ids of the requests that have no answer yet, by the ids under which
    /// they were forwarded.
    pub pending: Map<i64, Json>,
    pub initialized: bool,
    /// The requests that came before typescript-language-server was ready.
    pub queue: Seq<Request>,
}

impl View for TsBridge {
    type V = Bridge;

    closed spec fn view(&self) -> Bridge {
        Bridge {
            next_id: self.next_request_id as int,
            pending: self.pending_requests@.map_values(
                |request: PendingTsRequest| request.tsserver_id@,
            ),
            initialized: self.initialized,
            queue: requests(self.init_queue@),
        }
    }
}

impl Bridge {
    /// The bridge before anything has happened.
    pub open spec fn initial() -> Bridge {
        Bridge { next_id: 1, pending: Map::empty(), initialized: false, queue: Seq::empty() }
    }

    /// Every id that is waited for was given out before. Until typescript-language-server is
    /// ready nothing waits for its answer, and from then on nothing waits in the queue.
    pub open spec fn well_formed(self) -> bool {
        &&& 1 <= self.next_id <= i64::MAX
        &&& self.pending.dom().finite()
        &&& forall|id: i64| #[trigger] self.pending.contains_key(id) ==> 1 <= id < self.next_id
        &&& self.initialized ==> self.queue.len() == 0
        &&& !self.initialized ==> self.pending.dom() == Set::<i64>::empty()
    }

    /// One id further on.
    pub open spec fn allocated(self) -> Bridge {
        Bridge { next_id: self.next_id + 1, ..self }
    }

    /// A request was forwarded, under the next id.
    pub open spec fn forwarded(self, request: Request) -> Bridge {
        Bridge { pending: self.pending.insert(self.next_id as i64, request.id), ..self.allocated() }
    }

    /// The requests were forwarded, one after the other.
    pub open spec fn forwarded_all(self, queue: Seq<Request>) -> Bridge
        decreases queue.len(),
    {
        if queue.len() == 0 {
            self
        } else {
            self.forwarded_all(queue.drop_last()).forwarded(queue.last())
        }
    }

    /// The message that forwards a request.
    pub open spec fn forwarding(self, request: Request) -> Json {
        execute_command_request(self.next_id, request.command, request.args)
    }

    /// A request has come: it is forwarded, or waits in the queue.
    pub open spec fn accepted(self, request: Request) -> Bridge {
        if self.initialized {
            self.forwarded(request)
        } else {
            Bridge { queue: self.queue.push(request), ..self }
        }
    }

    /// typescript-language-server is ready: nothing waits for that any more.
    pub open spec fn ready(self) -> Bridge {
        Bridge { initialized: true, queue: Seq::empty(), ..self }
    }

    /// Nothing waits for an answer any more.
    pub open spec fn drained(self) -> Bridge {
        Bridge { pending: Map::empty(), ..self }
    }

    /// The id in a message under which a request waits for it.
    pub open spec fn answered(self, message: Json) -> Option<i64> {
        match message.get("id"@) {
            Some(id) => match id.as_i64() {
                Some(i) => if self.pending.contains_key(i) {
                    Some(i)
                } else {
                    None
                },
                None => None,
            },
            None => None,
        }
    }

    /// A message has come: the request that waited for it waits no more.
    pub open spec fn settled(self, message: Json) -> Bridge {
        match self.answered(message) {
            Some(id) => Bridge { pending: self.pending.remove(id), ..self },
            None => self,
        }
    }
}

/// What a message from typescript-language-server answers a tsserver request with: the
/// body of its result, or the result where that has none, or null where there is none.
pub open spec fn response_body(message: Json) -> Json {
    match message.get("result"@) {
        Some(result) => match result.get("body"@) {
            Some(body) => body,
            None => result,
        },
        None => Json::Null,
    }
}

/// The order lists each of the ids once, and nothing else.
pub open spec fn lists(order: Seq<i64>, ids: Set<i64>) -> bool {
    order.no_duplicates() && order.to_set() == ids
}

/// The null responses to the pending requests, one for each, in an order.
pub open spec fn null_responses(pending: Map<i64, Json>, order: Seq<i64>) -> Seq<Json> {
    order.map_values(|id: i64| tsserver_response(pending[id], Json::Null))
}

/// The Vue plugin of typescript-language-server.
pub open spec fn plugin(plugin_path: Seq<char>) -> Json {
    Json::Object(
        map![
            "name"@ => Json::String("@vue/typescript-plugin"@),
            "location"@ => Json::String(plugin_path),
            "languages"@ => Json::Array(seq![Json::String("vue"@)]),
        ],
    )
}

/// The options that make typescript-language-server load the Vue plugin.
pub open spec fn with_plugin(options: Json, plugin_path: Seq<char>, tsdk: Seq<char>) -> Json {
    match options {
        Json::Object(members) => Json::Object(
            members.insert(
                "plugins"@,
                Json::Array(seq![plugin(plugin_path)]),
            ).insert("tsdk"@, Json::String(tsdk)),
        ),
        _ => options,
    }
}

/// A message that can be made into an `initialize` request: an object, or nothing, whose
/// parameters, if it has any, are an object.
pub open spec fn initializable(message: Json) -> bool {
    &&& message is Null || message is Object
    &&& match message.get("params"@) {
        Some(params) => params is Object,
        None => true,
    }
}

/// The `initialize` request to typescript-language-server: the original one, with another
/// id and with the plugin in its options.
pub open spec fn initialize_request(
    original: Json,
    id: int,
    plugin_path: Seq<char>,
    tsdk: Seq<char>,
) -> Json {
    let members = match original {
        Json::Object(members) => members,
        _ => Map::empty(),
    };
    let renumbered = members.insert("id"@, Json::Integer(id));
    match original.get("params"@) {
        Some(Json::Object(params)) => {
            let options = match Json::Object(params).get("initializationOptions"@) {
                Some(options) => options,
                None => Json::Object(Map::empty()),
            };
            Json::Object(
                renumbered.insert(
                    "params"@,
                    Json::Object(
                        params.insert(
                            "initializationOptions"@,
                            with_plugin(options, plugin_path, tsdk),
                        ),
                    ),
                ),
            )
        },
        _ => Json::Object(renumbered),
    }
}

/// An answer hands on the member `body` of its result, of whatever kind that is. It hands on
/// the result itself only where that has no such member, and null only where there is no
/// result.
pub proof fn lemma_response_body(message: Json, result: Json, body: Json)
    ensures
        message.get("result"@) == Some(result) && result.get("body"@) == Some(body)
            ==> response_body(message) == body,
        message.get("result"@) == Some(result) && result.get("body"@) is None ==> response_body(
            message,
        ) == result,
        message.get("result"@) is None ==> response_body(message) == Json::Null,
{
}

/// A message answers the request that waits under its id, whatever else the message holds, and
/// no message without such an id answers any.
pub proof fn lemma_answered(bridge: Bridge, message: Json, id: i64)
    ensures
        bridge.answered(message) == Some(id) <==> bridge.pending.contains_key(id) && message.get(
            "id"@,
        ) == Some(Json::Integer(id as int)),
{
}

/// An answer takes away the request that it answers and changes nothing else. A message that
/// answers none changes nothing.
pub proof fn lemma_settled(bridge: Bridge, message: Json, id: i64)
    ensures
        bridge.settled(message).next_id == bridge.next_id,
        bridge.settled(message).initialized == bridge.initialized,
        bridge.settled(message).queue == bridge.queue,
        bridge.settled(message).pending.contains_key(id) <==> bridge.pending.contains_key(id)
            && message.get("id"@) != Some(Json::Integer(id as int)),
        bridge.settled(message).pending.contains_key(id) ==> bridge.settled(message).pending[id]
            == bridge.pending[id],
{
}

/// A request that comes when typescript-language-server is ready is forwarded under the next id
/// and waits under it, with everything else as it was. One that comes before goes to the end of
/// the queue, and nothing else changes.
pub proof fn lemma_accepted(bridge: Bridge, request: Request, id: i64)
    requires
        i64::MIN <= bridge.next_id <= i64::MAX,
    ensures
        ({
            let after = bridge.accepted(request);
            &&& after.initialized == bridge.initialized
            &&& bridge.initialized ==> {
                &&& after.next_id == bridge.next_id + 1
                &&& after.queue == bridge.queue
                &&& after.pending.contains_key(id) <==> id == bridge.next_id
                    || bridge.pending.contains_key(id)
                &&& id == bridge.next_id ==> after.pending[id] == request.id
                &&& id != bridge.next_id && bridge.pending.contains_key(id) ==> after.pending[id]
                    == bridge.pending[id]
                &&& bridge.forwarding(request).get("id"@) == Some(Json::Integer(bridge.next_id))
                &&& bridge.forwarding(request) == execute_command_request(
                    bridge.next_id,
                    request.command,
                    request.args,
                )
            }
            &&& !bridge.initialized ==> {
                &&& after.next_id == bridge.next_id
                &&& after.pending == bridge.pending
                &&& after.queue.len() == bridge.queue.len() + 1
                &&& after.queue.last() == request
                &&& after.queue.drop_last() == bridge.queue
            }
        }),
{
    lemma_execute_command_request(bridge.next_id, request.command, request.args);
    assert(bridge.queue.push(request).drop_last() =~= bridge.queue);
}

/// At the start nothing waits, and the first id is 1. To give out an id, to become ready and to
/// be drained change what their names say and nothing else.
pub proof fn lemma_bridge_changes(bridge: Bridge)
    ensures
        Bridge::initial().next_id == 1,
        Bridge::initial().pending.dom() == Set::<i64>::empty(),
        !Bridge::initial().initialized,
        Bridge::initial().queue.len() == 0,
        bridge.allocated() == (Bridge { next_id: bridge.next_id + 1, ..bridge }),
        bridge.ready().initialized,
        bridge.ready().queue.len() == 0,
        bridge.ready().pending == bridge.pending,
        bridge.ready().next_id == bridge.next_id,
        bridge.drained().pending.dom() == Set::<i64>::empty(),
        bridge.drained().queue == bridge.queue,
        bridge.drained().initialized == bridge.initialized,
        bridge.drained().next_id == bridge.next_id,
{
}

/// A queued request means the id, the command and the arguments that it holds.
pub proof fn lemma_requests(queue: Seq<QueuedRequest>)
    ensures
        requests(queue).len() == queue.len(),
        forall|i: int|
            0 <= i < queue.len() ==> (#[trigger] requests(queue)[i]).id == queue[i].tsserver_id@
                && requests(queue)[i].command == queue[i].command@ && requests(queue)[i].args
                == queue[i].args@,
{
}

/// Every object can be made into an `initialize` request, unless it has parameters that are no
/// object.
pub proof fn lemma_initializable(members: Map<Seq<char>, Json>, params: Map<Seq<char>, Json>)
    ensures
        !members.contains_key("params"@) ==> initializable(Json::Object(members)),
        members.contains_key("params"@) && members["params"@] == Json::Object(params)
            ==> initializable(Json::Object(members)),
        members.contains_key("params"@) && !(members["params"@] is Object) ==> !initializable(
            Json::Object(members),
        ),
{
}

/// The Vue plugin is named by its package, stands where the path says, and is for Vue files.
pub proof fn lemma_plugin(plugin_path: Seq<char>)
    ensures
        plugin(plugin_path) is Object,
        plugin(plugin_path).get("name"@) == Some(Json::String("@vue/typescript-plugin"@)),
        plugin(plugin_path).get("location"@) == Some(Json::String(plugin_path)),
        plugin(plugin_path).get("languages"@) == Some(Json::Array(seq![Json::String("vue"@)])),
        forall|key: Seq<char>| #[trigger]
            plugin(plugin_path).get(key) is Some ==> key == "name"@ || key == "location"@ || key
                == "languages"@,
{
    reveal_strlit("name");
    reveal_strlit("location");
    reveal_strlit("languages");
    assert("name"@.len() == 4);
    assert("location"@.len() == 8);
    assert("languages"@.len() == 9);
}

/// Requests that are forwarded get consecutive ids, and each waits under its own.
pub proof fn lemma_forwarded_all(bridge: Bridge, queue: Seq<Request>)
    requires
        bridge.well_formed(),
        bridge.initialized,
        bridge.next_id + queue.len() <= i64::MAX,
    ensures
        bridge.forwarded_all(queue).well_formed(),
        bridge.forwarded_all(queue).next_id == bridge.next_id + queue.len(),
        bridge.forwarded_all(queue).initialized == bridge.initialized,
        bridge.forwarded_all(queue).queue == bridge.queue,
        forall|i: int|
            0 <= i < queue.len() ==> {
                let id = (bridge.next_id + i) as i64;
                &&& bridge.forwarded_all(queue).pending.contains_key(id)
                &&& bridge.forwarded_all(queue).pending[id] == (#[trigger] queue[i]).id
            },
        forall|id: i64| #[trigger]
            bridge.pending.contains_key(id) ==> bridge.forwarded_all(queue).pending.contains_key(id)
                && bridge.forwarded_all(queue).pending[id] == bridge.pending[id],
    decreases queue.len(),
{
    if queue.len() > 0 {
        let init = queue.drop_last();
        lemma_forwarded_all(bridge, init);
        assert forall|i: int| 0 <= i < queue.len() implies {
            let id = (bridge.next_id + i) as i64;
            &&& bridge.forwarded_all(queue).pending.contains_key(id)
            &&& bridge.forwarded_all(queue).pending[id] == (#[trigger] queue[i]).id
        } by {
            if i < init.len() {
                assert(init[i] == queue[i]);
            }
        }
    }
}

/// The null responses answer every pending request, and each of them once.
pub proof fn lemma_null_responses(pending: Map<i64, Json>, order: Seq<i64>)
    requires
        lists(order, pending.dom()),
    ensures
        null_responses(pending, order).len() == pending.dom().len(),
        forall|i: int|
            0 <= i < order.len() ==> pending.contains_key(#[trigger] order[i]) && null_responses(
                pending,
                order,
            )[i] == tsserver_response(pending[order[i]], Json::Null),
        forall|id: i64| #[trigger]
            pending.contains_key(id) ==> exists|i: int|
                0 <= i < order.len() && #[trigger] order[i] == id,
{
    order.unique_seq_to_set();
    assert forall|i: int| 0 <= i < order.len() implies pending.contains_key(#[trigger] order[i]) by {
        assert(order.to_set().contains(order[i]));
    }
    assert forall|id: i64| #[trigger] pending.contains_key(id) implies exists|i: int|
        0 <= i < order.len() && #[trigger] order[i] == id by {
        assert(order.to_set().contains(id));
    }
}

/// The `initialize` request to typescript-language-server differs from the original one in
/// its id and in the two options that make the plugin load, and in nothing else.
pub proof fn lemma_initialize_request(
    original: Json,
    id: int,
    plugin_path: Seq<char>,
    tsdk: Seq<char>,
)
    requires
        original is Null || original is Object,
        original.get("params"@) is Some ==> original.get("params"@)->0 is Object,
    ensures
        initialize_request(original, id, plugin_path, tsdk) is Object,
        ({
            let request = initialize_request(original, id, plugin_path, tsdk);
            &&& request.get("id"@) == Some(Json::Integer(id))
            &&& forall|key: Seq<char>|
                key != "id"@ && key != "params"@ ==> #[trigger] request.get(key) == original.get(
                    key,
                )
            &&& match original.get("params"@) {
                None => request.get("params"@) is None,
                Some(params) => {
                    let options = match params.get("initializationOptions"@) {
                        Some(options) => options,
                        None => Json::Object(Map::empty()),
                    };
                    let new_params = request.get("params"@)->0;
                    let new_options = new_params.get("initializationOptions"@)->0;
                    &&& request.get("params"@) is Some
                    &&& forall|key: Seq<char>|
                        key != "initializationOptions"@ ==> #[trigger] new_params.get(key)
                            == params.get(key)
                    &&& new_params.get("initializationOptions"@) is Some
                    &&& !(options is Object) ==> new_options == options
                    &&& options is Object ==> {
                        &&& new_options.get("plugins"@) == Some(
                            Json::Array(seq![plugin(plugin_path)]),
                        )
                        &&& new_options.get("tsdk"@) == Some(Json::String(tsdk))
                        &&& forall|key: Seq<char>|
                            key != "plugins"@ && key != "tsdk"@ ==> #[trigger] new_options.get(key)
                                == options.get(key)
                    }
                },
            }
        }),
{
    lemma_names();
    reveal_strlit("plugins");
    reveal_strlit("tsdk");
    assert("plugins"@.len() == 7);
    assert("tsdk"@.len() == 4);
}

/// Tells whether a message can be made into an `initialize` request.
pub fn is_initializable(message: &JsonValue) -> (is: bool)
    ensures
        is == initializable(message@),
{
    match message {
        JsonValue::Null => true,
        JsonValue::Object(members) => match members.get("params") {
            Some(JsonValue::Object(_)) => true,
            Some(_) => false,
            None => true,
        },
        _ => false,
    }
}

/// The options that make typescript-language-server load the Vue plugin.
fn inject_plugin(options: JsonValue, plugin_path: &str, tsdk: &str) -> (result: JsonValue)
    ensures
        result@ == with_plugin(options@, plugin_path@, tsdk@),
{
    match options {
        JsonValue::Object(members) => {
            let mut languages: Vec<JsonValue> = Vec::new();
            languages.push(text_value("vue"));
            assert(items_json(languages@) =~= seq![Json::String("vue"@)]);
            let mut plugin = Object::new();
            plugin.insert("name".to_owned(), text_value("@vue/typescript-plugin"));
            plugin.insert("location".to_owned(), text_value(plugin_path));
            plugin.insert("languages".to_owned(), JsonValue::Array(languages));
            let mut plugins: Vec<JsonValue> = Vec::new();
            plugins.push(JsonValue::Object(plugin));
            assert(items_json(plugins@) =~= seq![Json::Object(plugin@)]);
            let mut members = members;
            members.insert("plugins".to_owned(), JsonValue::Array(plugins));
            members.insert("tsdk".to_owned(), text_value(tsdk));
            JsonValue::Object(members)
        },
        other => other,
    }
}

impl TsBridge {
    /// A bridge before anything has happened.
    pub fn new() -> (bridge: TsBridge)
        ensures
            bridge@ == Bridge::initial(),
            bridge@.well_formed(),
    {
        let bridge = TsBridge {
            next_request_id: 1,
            pending_requests: HashMap::new(),
            initialized: false,
            init_queue: Vec::new(),
        };
        assert(bridge@.pending =~= Map::<i64, Json>::empty());
        assert(bridge@.queue =~= Seq::<Request>::empty());
        bridge
    }

    /// Gives out an id.
    pub fn alloc_id(&mut self) -> (id: i64)
        requires
            old(self)@.next_id < i64::MAX,
        ensures
            id == old(self)@.next_id,
            final(self)@ == old(self)@.allocated(),
            old(self)@.well_formed() ==> final(self)@.well_formed(),
    {
        let id = self.next_request_id;
        self.next_request_id = id + 1;
        id
    }

    /// The initialize request to send to typescript-language-server,
    /// injecting the @vue/typescript-plugin configuration.
    pub fn send_initialize(
        &mut self,
        original_init: &JsonValue,
        plugin_path: &str,
        tsdk: &str,
    ) -> (request: JsonValue)
        requires
            initializable(original_init@),
            old(self)@.next_id < i64::MAX,
        ensures
            request@ == initialize_request(
                original_init@,
                old(self)@.next_id,
                plugin_path@,
                tsdk@,
            ),
            final(self)@ == old(self)@.allocated(),
            old(self)@.well_formed() ==> final(self)@.well_formed(),
    {
        let id = self.alloc_id();
        let mut message = match original_init {
            JsonValue::Object(members) => members.clone(),
            _ => Object::new(),
        };
        message.insert("id".to_owned(), JsonValue::Signed(id));
        if let Some(JsonValue::Object(params)) = original_init.get("params") {
            let options = match params.get("initializationOptions") {
                Some(options) => options.clone(),
                None => JsonValue::Object(Object::new()),
            };
            let mut params = params.clone();
            params.insert(
                "initializationOptions".to_owned(),
                inject_plugin(options, plugin_path, tsdk),
            );
            message.insert("params".to_owned(), JsonValue::Object(params));
        }
        JsonValue::Object(message)
    }

    /// Marks the bridge as initialized and takes the queued requests out, the oldest first.
    pub fn mark_initialized(&mut self) -> (queue: Vec<QueuedRequest>)
        ensures
            requests(queue@) == old(self)@.queue,
            final(self)@ == old(self)@.ready(),
            old(self)@.well_formed() ==> final(self)@.well_formed(),
    {
        self.initialized = true;
        let mut queue: Vec<QueuedRequest> = Vec::new();
        std::mem::swap(&mut queue, &mut self.init_queue);
        assert(self@.queue =~= Seq::<Request>::empty());
        queue
    }

    /// The notification (didOpen/Change/Close/Save) to mirror to typescript-language-server.
    pub fn mirror_notification(&self, msg: &JsonValue) -> (notification: JsonValue)
        ensures
            notification@ == msg@,
    {
        msg.clone()
    }

    /// Forwards a tsserver/request to typescript-language-server as workspace/executeCommand:
    /// gives the message to send. If not yet initialized, queues the request.
    pub fn forward_tsserver_request(
        &mut self,
        tsserver_id: JsonValue,
        command: String,
        args: JsonValue,
    ) -> (message: Option<JsonValue>)
        requires
            old(self)@.initialized ==> old(self)@.next_id < i64::MAX,
        ensures
            ({
                let request = Request { id: tsserver_id@, command: command@, args: args@ };
                &&& final(self)@ == old(self)@.accepted(request)
                &&& match message {
                    Some(m) => old(self)@.initialized && m@ == old(self)@.forwarding(request),
                    None => !old(self)@.initialized,
                }
            }),
            old(self)@.well_formed() ==> final(self)@.well_formed(),
    {
        if !self.initialized {
            let request = QueuedRequest { tsserver_id, command, args };
            self.init_queue.push(request);
            assert(self@.queue =~= old(self)@.queue.push(request@));
            return None;
        }
        Some(self.send_execute_command(tsserver_id, command.as_str(), args))
    }

    /// Registers a request under a new id and gives the message that forwards it.
    pub(crate) fn send_execute_command(
        &mut self,
        tsserver_id: JsonValue,
        command: &str,
        args: JsonValue,
    ) -> (message: JsonValue)
        requires
            old(self)@.next_id < i64::MAX,
        ensures
            ({
                let request = Request { id: tsserver_id@, command: command@, args: args@ };
                &&& final(self)@ == old(self)@.forwarded(request)
                &&& message@ == old(self)@.forwarding(request)
            }),
            old(self)@.well_formed() && old(self)@.initialized ==> final(self)@.well_formed(),
    {
        let proxy_id = self.alloc_id();
        let request = build_execute_command_request(proxy_id, command, args);
        self.pending_requests.insert(proxy_id, PendingTsRequest { tsserver_id });
        assert(self@.pending =~= old(self)@.pending.insert(proxy_id, tsserver_id@));
        request
    }

    /// The id in a message under which a request waits for it.
    fn pending_id(&self, msg: &JsonValue) -> (id: Option<i64>)
        ensures
            id == self@.answered(msg@),
    {
        let id = match msg.get("id") {
            Some(id) => id,
            None => return None,
        };
        match id.as_i64() {
            Some(i) => if self.pending_requests.contains_key(&i) {
                Some(i)
            } else {
                None
            },
            None => None,
        }
    }

    /// Handle a response from typescript-language-server.
    /// Returns `Some(tsserver/response)` if this response matches a pending request.
    pub fn handle_ts_response(&mut self, msg: &JsonValue) -> (response: Option<JsonValue>)
        ensures
            final(self)@ == old(self)@.settled(msg@),
            match (response, old(self)@.answered(msg@)) {
                (Some(r), Some(id)) => r@ == tsserver_response(
                    old(self)@.pending[id],
                    response_body(msg@),
                ),
                (None, None) => true,
                _ => false,
            },
            old(self)@.well_formed() ==> final(self)@.well_formed(),
    {
        let proxy_id = match self.pending_id(msg) {
            Some(id) => id,
            None => return None,
        };
        let pending = match self.pending_requests.remove(&proxy_id) {
            Some(pending) => pending,
            None => return None,
        };
        assert(self@.pending =~= old(self)@.pending.remove(proxy_id));
        let body = match msg.get("result") {
            Some(result) => match result.get("body") {
                Some(inner_body) => inner_body.clone(),
                None => result.clone(),
            },
            None => JsonValue::Null,
        };
        Some(build_tsserver_response(pending.tsserver_id, body))
    }

    /// Build null responses for all pending requests (used on timeout/shutdown).
    pub fn drain_pending(&mut self) -> (responses: Vec<JsonValue>)
        ensures
            exists|order: Seq<i64>| #[trigger]
                lists(order, old(self)@.pending.dom()) && items_json(responses@)
                    == null_responses(old(self)@.pending, order),
            final(self)@ == old(self)@.drained(),
            old(self)@.well_formed() ==> final(self)@.well_formed(),
    {
        let mut ids: Vec<i64> = Vec::new();
        let ghost keys = IteratorSpec::remaining(&self.pending_requests.keys()).unref();
        for id in it: self.pending_requests.keys()
            invariant
                it.seq().unref() == keys,
                ids@ == keys.take(it.index()),
        {
            ids.push(*id);
        }
        let ghost order = ids@;
        let ghost before = self.pending_requests@;
        proof {
            assert(order == keys);
            assert(self@.pending.dom() =~= before.dom());
        }
        let mut responses: Vec<JsonValue> = Vec::new();
        for proxy_id in it: ids
            invariant
                it.seq() == order,
                order.no_duplicates(),
                order.to_set() == before.dom(),
                forall|id: i64| #[trigger]
                    self.pending_requests@.contains_key(id) <==> before.contains_key(id)
                        && !order.take(it.index()).contains(id),
                forall|id: i64| #[trigger]
                    self.pending_requests@.contains_key(id) ==> self.pending_requests@[id]
                        == before[id],
                items_json(responses@) == null_responses(
                    old(self)@.pending,
                    order.take(it.index()),
                ),
                before == old(self).pending_requests@,
                self.next_request_id == old(self).next_request_id,
                self.initialized == old(self).initialized,
                self.init_queue == old(self).init_queue,
        {
            let ghost done = order.take(it.index());
            let ghost answered = items_json(responses@);
            assert(order.take(it.index() + 1) =~= done.push(proxy_id));
            assert(before.dom().contains(proxy_id)) by {
                assert(order.to_set().contains(order[it.index()]));
            }
            assert(!done.contains(proxy_id));
            if let Some(pending) = self.pending_requests.remove(&proxy_id) {
                responses.push(build_tsserver_response(pending.tsserver_id, JsonValue::Null));
            }
            proof {
                broadcast use vstd::seq_lib::group_seq_properties;

                assert(items_json(responses@) =~= answered.push(
                    tsserver_response(old(self)@.pending[proxy_id], Json::Null),
                ));
                assert(items_json(responses@) =~= null_responses(
                    old(self)@.pending,
                    done.push(proxy_id),
                ));
            }
        }
        proof {
            assert(order.take(order.len() as int) =~= order);
            assert(lists(order, old(self)@.pending.dom()));
            assert(self@.pending =~= Map::<i64, Json>::empty()) by {
                assert forall|id: i64| !self.pending_requests@.contains_key(id) by {
                    if self.pending_requests@.contains_key(id) {
                        assert(order.to_set().contains(id));
                    }
                }
            }
        }
        responses
    }

    /// Check if the bridge has been initialized.
    pub fn is_initialized(&self) -> (initialized: bool)
        ensures
            initialized == self@.initialized,
    {
        self.initialized
    }

    /// Check if a response ID matches a pending ts-ls request.
    pub fn is_pending_response(&self, msg: &JsonValue) -> (is: bool)
        ensures
            is == (self@.answered(msg@) is Some),
            is == exists|id: i64| #[trigger]
                self@.pending.contains_key(id) && msg@.get("id"@) == Some(Json::Integer(id as int)),
    {
        self.pending_id(msg).is_some()
    }

    /// Tells whether there is an id left to give out.
    pub fn has_ids(&self) -> (has: bool)
        ensures
            has == (self@.next_id < i64::MAX),
            self@.next_id <= i64::MAX,
    {
        self.next_request_id < i64::MAX
    }

    /// The requests that wait for typescript-language-server to be ready.
    pub fn queued(&self) -> (queue: &Vec<QueuedRequest>)
        ensures
            requests(queue@) == self@.queue,
    {
        &self.init_queue
    }
}

} // verus!
