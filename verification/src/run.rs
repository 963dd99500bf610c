//! Runs of the proxy, and what holds of every one of them.
use crate::bridge::{
    initialize_request, lemma_forwarded_all, lemma_initialize_request, lists, null_responses,
    response_body, Bridge, Request,
};
use crate::json::Json;
use crate::message::{
    execute_command_request, is_document_sync, kind_of, lemma_names, lemma_request_carries,
    lemma_tsserver_response, method_of, tsserver_request, tsserver_response, MessageKind,
};
use crate::proxy::{
    initialized_notification, is_mirrored, local_result, Action, Event, Machine, Peer, Phase,
};
use vstd::prelude::*;

verus! {

/// One event of a run, with the order of the null responses that it may call for.
pub struct Turn {
    pub event: Event<Json>,
    pub order: Seq<i64>,
}

impl Machine {
    /// What the proxy does in a turn.
    pub open spec fn take(self, turn: Turn) -> (Machine, Action<Json>) {
        self.next(turn.event, turn.order)
    }

    /// Whether a turn can be the next one.
    pub open spec fn admits(self, turn: Turn) -> bool {
        &&& self.expects(turn.event)
        &&& self.can_take(turn.event)
        &&& turn.event == Event::<Json>::Closed(Peer::Ts) ==> lists(
            turn.order,
            self.bridge.pending.dom(),
        )
    }

    /// The proxy after a run.
    pub open spec fn after(self, turns: Seq<Turn>) -> Machine
        decreases turns.len(),
    {
        if turns.len() == 0 {
            self
        } else {
            self.after(turns.drop_last()).take(turns.last()).0
        }
    }

    /// Whether the turns can follow one another.
    pub open spec fn runs(self, turns: Seq<Turn>) -> bool
        decreases turns.len(),
    {
        turns.len() > 0 ==> {
            &&& self.runs(turns.drop_last())
            &&& self.after(turns.drop_last()).admits(turns.last())
        }
    }

    /// The messages that a run sends to a peer.
    pub open spec fn sent(self, turns: Seq<Turn>, peer: Peer) -> Seq<Json>
        decreases turns.len(),
    {
        if turns.len() == 0 {
            Seq::empty()
        } else {
            let earlier = self.sent(turns.drop_last(), peer);
            match self.after(turns.drop_last()).take(turns.last()).1 {
                Action::Send(to, message) => if to == peer {
                    earlier.push(message)
                } else {
                    earlier
                },
                _ => earlier,
            }
        }
    }

    /// What holds of the proxy at every moment.
    pub open spec fn sound(self) -> bool {
        &&& self.bridge.well_formed()
        &&& match self.phase {
            Phase::Releasing(_) => self.bridge.initialized,
            Phase::Draining(responses) => forall|i: int|
                0 <= i < responses.len() ==> is_own(#[trigger] responses[i]),
            _ => true,
        }
    }
}

/// The messages that a run reads from a peer.
pub open spec fn received(turns: Seq<Turn>, peer: Peer) -> Seq<Json>
    decreases turns.len(),
{
    if turns.len() == 0 {
        Seq::empty()
    } else {
        let earlier = received(turns.drop_last(), peer);
        match turns.last().event {
            Event::Received(from, message) => if from == peer {
                earlier.push(message)
            } else {
                earlier
            },
            _ => earlier,
        }
    }
}

/// A message that the proxy itself makes for vue-language-server: a `tsserver/response` with
/// some id and some body.
pub open spec fn is_own(message: Json) -> bool {
    exists|id: Json, body: Json| message == #[trigger] tsserver_response(id, body)
}

/// A message that vue-language-server makes for typescript-language-server.
pub open spec fn is_request(message: Json) -> bool {
    message.get("method"@) == Some(Json::String("tsserver/request"@))
}

/// A message with one of the four methods that tell of a document.
pub open spec fn is_document_notification(message: Json) -> bool {
    ||| message.get("method"@) == Some(Json::String("textDocument/didOpen"@))
    ||| message.get("method"@) == Some(Json::String("textDocument/didChange"@))
    ||| message.get("method"@) == Some(Json::String("textDocument/didClose"@))
    ||| message.get("method"@) == Some(Json::String("textDocument/didSave"@))
}

/// A message whose result tells what typescript-language-server can do.
pub open spec fn tells_capabilities(message: Json) -> bool {
    message.get("result"@) is Some && message.get("result"@)->0.get("capabilities"@) is Some
}

/// A message that names a method.
pub open spec fn names_method(message: Json) -> bool {
    message.get("method"@) is Some && message.get("method"@)->0 is String
}

/// Nothing happens in a run without turns.
proof fn lemma_empty_run(machine: Machine, turns: Seq<Turn>, peer: Peer)
    requires
        turns.len() == 0,
    ensures
        machine.after(turns) == machine,
        machine.runs(turns),
        machine.sent(turns, peer) == Seq::<Json>::empty(),
{
}

/// The null responses are all the proxy's own.
proof fn lemma_null_responses_own(pending: Map<i64, Json>, order: Seq<i64>)
    ensures
        forall|i: int|
            0 <= i < null_responses(pending, order).len() ==> is_own(
                #[trigger] null_responses(pending, order)[i],
            ),
{
    assert forall|i: int| 0 <= i < null_responses(pending, order).len() implies is_own(
        #[trigger] null_responses(pending, order)[i],
    ) by {
        assert(null_responses(pending, order)[i] == tsserver_response(
            pending[order[i]],
            Json::Null,
        ));
    }
}

/// A turn keeps the proxy sound.
proof fn lemma_turn_keeps_sound(machine: Machine, turn: Turn)
    requires
        machine.sound(),
        machine.admits(turn),
    ensures
        machine.take(turn).0.sound(),
{
    lemma_null_responses_own(machine.bridge.pending, turn.order);
    assert(machine.take(turn).0.bridge.next_id == machine.next(
        turn.event,
        Seq::empty(),
    ).0.bridge.next_id);
}

/// The proxy is sound before anything has happened.
pub proof fn lemma_initial_sound(plugin_path: Seq<char>, tsdk: Seq<char>)
    ensures
        Machine::initial(plugin_path, tsdk).sound(),
{
}

/// Every run keeps the proxy sound: an id that is waited for was given out before, nothing is
/// waited for until typescript-language-server is ready, and nothing stays in the queue then.
pub proof fn lemma_sound(machine: Machine, turns: Seq<Turn>)
    requires
        machine.sound(),
        machine.runs(turns),
    ensures
        machine.after(turns).sound(),
    decreases turns.len(),
{
    if turns.len() > 0 {
        lemma_sound(machine, turns.drop_last());
        lemma_turn_keeps_sound(machine.after(turns.drop_last()), turns.last());
    }
}

/// Whatever vue-language-server says, except for its tsserver requests, is sent to Helix,
/// unchanged and in the order in which it came, and nothing else is sent to Helix.
pub proof fn lemma_vue_to_helix(machine: Machine, turns: Seq<Turn>)
    requires
        machine.runs(turns),
    ensures
        machine.sent(turns, Peer::Helix) == received(turns, Peer::Vue).filter(
            |message: Json| !is_request(message),
        ),
    decreases turns.len(),
{
    reveal(Seq::filter);
    if turns.len() > 0 {
        lemma_vue_to_helix(machine, turns.drop_last());
        let earlier = received(turns.drop_last(), Peer::Vue);
        if let Event::Received(Peer::Vue, message) = turns.last().event {
            assert(earlier.push(message).drop_last() =~= earlier);
        }
    }
}

/// A message from Helix is sent to vue-language-server at once, unchanged.
pub proof fn lemma_helix_message(machine: Machine, message: Json, order: Seq<i64>)
    ensures
        machine.next(Event::Received(Peer::Helix, message), order) == (
            Machine { phase: Phase::Forwarding(message), ..machine },
            Action::Send(Peer::Vue, message),
        ),
{
}

/// The messages that a run sends to vue-language-server at the turns that read from Helix, or
/// at all the others.
pub open spec fn sent_to_vue(machine: Machine, turns: Seq<Turn>, for_helix: bool) -> Seq<Json>
    decreases turns.len(),
{
    if turns.len() == 0 {
        Seq::empty()
    } else {
        let earlier = sent_to_vue(machine, turns.drop_last(), for_helix);
        let turn = turns.last();
        match machine.after(turns.drop_last()).take(turn).1 {
            Action::Send(Peer::Vue, message) => if (turn.event matches Event::Received(
                Peer::Helix,
                _,
            )) == for_helix {
                earlier.push(message)
            } else {
                earlier
            },
            _ => earlier,
        }
    }
}

/// Whatever Helix says is sent to vue-language-server, unchanged and in the order in which it
/// came. All else that is sent there is tsserver responses, which are notifications. So,
/// tsserver responses apart, what vue-language-server gets is what Helix said.
pub proof fn lemma_helix_to_vue(machine: Machine, turns: Seq<Turn>)
    requires
        machine.sound(),
        machine.runs(turns),
    ensures
        sent_to_vue(machine, turns, true) == received(turns, Peer::Helix),
        forall|i: int|
            0 <= i < sent_to_vue(machine, turns, false).len() ==> is_own(
                #[trigger] sent_to_vue(machine, turns, false)[i],
            ) && kind_of(sent_to_vue(machine, turns, false)[i]) == MessageKind::Notification,
        machine.sent(turns, Peer::Vue).len() == sent_to_vue(machine, turns, true).len()
            + sent_to_vue(machine, turns, false).len(),
        machine.sent(turns, Peer::Vue).filter(|message: Json| !is_own(message)) == received(
            turns,
            Peer::Helix,
        ).filter(|message: Json| !is_own(message)),
    decreases turns.len(),
{
    reveal(Seq::filter);
    if turns.len() > 0 {
        let before = machine.after(turns.drop_last());
        let turn = turns.last();
        lemma_helix_to_vue(machine, turns.drop_last());
        lemma_sound(machine, turns.drop_last());
        let heard = received(turns.drop_last(), Peer::Helix);
        let said = machine.sent(turns.drop_last(), Peer::Vue);
        if let Event::Received(Peer::Helix, message) = turn.event {
            assert(heard.push(message).drop_last() =~= heard);
            assert(said.push(message).drop_last() =~= said);
        } else if let Action::Send(Peer::Vue, message) = before.take(turn).1 {
            assert(is_own(message)) by {
                lemma_null_responses_own(before.bridge.pending, turn.order);
            }
            let (id, body) = choose|id: Json, body: Json|
                message == #[trigger] tsserver_response(id, body);
            lemma_tsserver_response(id, body);
            assert(said.push(message).drop_last() =~= said);
        }
    }
}

/// Whether a turn settles the request that was forwarded under an id: a message without a
/// method answers it, or typescript-language-server goes.
pub open spec fn settles(turn: Turn, id: i64) -> bool {
    match turn.event {
        Event::Received(Peer::Ts, message) => is_answer(message, id),
        Event::Closed(Peer::Ts) => true,
        _ => false,
    }
}

/// A response under an id.
pub open spec fn is_answer(message: Json, id: i64) -> bool {
    message.get("id"@) == Some(Json::Integer(id as int)) && !names_method(message)
}

/// A request stays pending for as long as nothing settles it, and
/// typescript-language-server stays ready.
proof fn lemma_stays_pending(machine: Machine, turns: Seq<Turn>, id: i64)
    requires
        machine.sound(),
        machine.bridge.initialized,
        machine.bridge.pending.contains_key(id),
        machine.runs(turns),
        forall|i: int| 0 <= i < turns.len() ==> !settles(#[trigger] turns[i], id),
    ensures
        machine.after(turns).bridge.initialized,
        machine.after(turns).bridge.pending.contains_key(id),
        machine.after(turns).bridge.pending[id] == machine.bridge.pending[id],
    decreases turns.len(),
{
    if turns.len() > 0 {
        let init = turns.drop_last();
        assert forall|i: int| 0 <= i < init.len() implies !settles(#[trigger] init[i], id) by {
            assert(init[i] == turns[i]);
        }
        lemma_stays_pending(machine, init, id);
        lemma_sound(machine, init);
        assert(!settles(turns[turns.len() - 1], id));
    }
}

/// An id that is given out and waited for no more is never waited for again.
proof fn lemma_stays_settled(machine: Machine, turns: Seq<Turn>, id: i64)
    requires
        machine.sound(),
        id < machine.bridge.next_id,
        !machine.bridge.pending.contains_key(id),
        machine.runs(turns),
    ensures
        id < machine.after(turns).bridge.next_id,
        !machine.after(turns).bridge.pending.contains_key(id),
    decreases turns.len(),
{
    if turns.len() > 0 {
        lemma_stays_settled(machine, turns.drop_last(), id);
        lemma_sound(machine, turns.drop_last());
    }
}

/// When the response under the id of a pending request comes, however much happens before
/// and whatever other requests and responses come in between, vue-language-server gets a
/// `tsserver/response` with the id of its own request and the body of the response. The
/// request is then pending no more.
pub proof fn lemma_pending_is_answered(machine: Machine, id: i64, turns: Seq<Turn>, answer: Json)
    requires
        machine.sound(),
        machine.bridge.initialized,
        machine.bridge.pending.contains_key(id),
        machine.runs(turns),
        forall|i: int| 0 <= i < turns.len() ==> !settles(#[trigger] turns[i], id),
        machine.after(turns).phase is Idle,
        is_answer(answer, id),
    ensures
        ({
            let (answered, reply) = machine.after(turns).next(
                Event::Received(Peer::Ts, answer),
                Seq::empty(),
            );
            &&& reply == Action::Send(
                Peer::Vue,
                tsserver_response(machine.bridge.pending[id], response_body(answer)),
            )
            &&& !answered.bridge.pending.contains_key(id)
        }),
{
    lemma_stays_pending(machine, turns, id);
    assert(machine.after(turns).bridge.answered(answer) == Some(id));
}

/// A tsserver request that cannot be written to typescript-language-server gets a null
/// response at once.
pub proof fn lemma_failed_request(machine: Machine, id: Json, order: Seq<i64>)
    requires
        machine.phase == Phase::Requesting(id),
    ensures
        machine.next(Event::WriteFailed, order) == (
            Machine { phase: Phase::Finishing, ..machine },
            Action::Send(Peer::Vue, tsserver_response(id, Json::Null)),
        ),
{
}

/// A tsserver request reaches typescript-language-server as a `workspace/executeCommand`
/// under a new id. When the response under that id comes, however much happens before and
/// whatever other requests and responses come in between, vue-language-server gets a
/// `tsserver/response` with the id of its own request and the body of the response.
pub proof fn lemma_request_is_answered(
    machine: Machine,
    request: Json,
    turns: Seq<Turn>,
    answer: Json,
)
    requires
        machine.sound(),
        machine.phase is Idle,
        machine.bridge.initialized,
        machine.bridge.next_id < i64::MAX,
        is_request(request),
        tsserver_request(request) is Some,
        ({
            let id = machine.bridge.next_id as i64;
            let asked = machine.next(Event::Received(Peer::Vue, request), Seq::empty()).0;
            &&& asked.runs(turns)
            &&& forall|i: int| 0 <= i < turns.len() ==> !settles(#[trigger] turns[i], id)
            &&& asked.after(turns).phase is Idle
            &&& is_answer(answer, id)
        }),
    ensures
        ({
            let id = machine.bridge.next_id as i64;
            let (tsserver_id, command, args) = tsserver_request(request)->0;
            let (asked, forward) = machine.next(Event::Received(Peer::Vue, request), Seq::empty());
            let (answered, reply) = asked.after(turns).next(
                Event::Received(Peer::Ts, answer),
                Seq::empty(),
            );
            &&& !machine.bridge.pending.contains_key(id)
            &&& forward == Action::Send(
                Peer::Ts,
                execute_command_request(id as int, command, args),
            )
            &&& reply == Action::Send(
                Peer::Vue,
                tsserver_response(tsserver_id, response_body(answer)),
            )
            &&& !answered.bridge.pending.contains_key(id)
        }),
{
    let id = machine.bridge.next_id as i64;
    let turn = Turn { event: Event::Received(Peer::Vue, request), order: Seq::empty() };
    let asked = machine.take(turn).0;
    lemma_turn_keeps_sound(machine, turn);
    assert(asked.bridge.pending.contains_key(id));
    lemma_pending_is_answered(asked, id, turns, answer);
}

/// A request is answered once: after the response under its id, and whatever happens then,
/// another response under that id goes nowhere.
pub proof fn lemma_request_is_answered_once(
    machine: Machine,
    turns: Seq<Turn>,
    again: Json,
    id: i64,
)
    requires
        machine.sound(),
        machine.bridge.initialized,
        id < machine.bridge.next_id,
        !machine.bridge.pending.contains_key(id),
        machine.runs(turns),
        is_answer(again, id),
    ensures
        machine.after(turns).next(Event::Received(Peer::Ts, again), Seq::empty()).1
            == Action::<Json>::Wait,
{
    lemma_stays_settled(machine, turns, id);
    lemma_stays_initialized(machine, turns);
}

/// Once ready, typescript-language-server counts as ready for good.
proof fn lemma_stays_initialized(machine: Machine, turns: Seq<Turn>)
    requires
        machine.bridge.initialized,
    ensures
        machine.after(turns).bridge.initialized,
    decreases turns.len(),
{
    if turns.len() > 0 {
        lemma_stays_initialized(machine, turns.drop_last());
    }
}

/// The requests that a run reads from vue-language-server.
pub open spec fn asked(turns: Seq<Turn>) -> Seq<Request>
    decreases turns.len(),
{
    if turns.len() == 0 {
        Seq::empty()
    } else {
        let earlier = asked(turns.drop_last());
        match turns.last().event {
            Event::Received(Peer::Vue, message) => match tsserver_request(message) {
                Some((id, command, args)) => if is_request(message) {
                    earlier.push(Request { id, command, args })
                } else {
                    earlier
                },
                None => earlier,
            },
            _ => earlier,
        }
    }
}

/// As long as typescript-language-server is not ready, every request waits in the queue, in
/// the order in which it came.
pub proof fn lemma_requests_wait(machine: Machine, turns: Seq<Turn>)
    requires
        machine.runs(turns),
        !machine.after(turns).bridge.initialized,
    ensures
        machine.after(turns).bridge.queue == machine.bridge.queue + asked(turns),
    decreases turns.len(),
{
    if turns.len() > 0 {
        lemma_requests_wait(machine, turns.drop_last());
    }
}

/// The run in which typescript-language-server answers the `initialize` request and a number
/// of writes go well.
pub open spec fn release_run(answer: Json, writes: nat) -> Seq<Turn> {
    seq![Turn { event: Event::Received(Peer::Ts, answer), order: Seq::empty() }] + Seq::new(
        writes,
        |i: int| Turn { event: Event::Written, order: Seq::empty() },
    )
}

/// The messages that forward queued requests, under consecutive ids.
pub open spec fn released(first_id: int, queue: Seq<Request>) -> Seq<Json> {
    Seq::new(
        queue.len(),
        |i: int| execute_command_request(first_id + i, queue[i].command, queue[i].args),
    )
}

proof fn lemma_release_run(machine: Machine, answer: Json, writes: nat)
    requires
        machine.phase is Idle,
        machine.bridge.well_formed(),
        !machine.bridge.initialized,
        tells_capabilities(answer),
        machine.bridge.next_id + machine.bridge.queue.len() <= i64::MAX,
        writes <= machine.bridge.queue.len(),
    ensures
        machine.runs(release_run(answer, writes)),
        machine.after(release_run(answer, writes)) == if writes == 0 {
            Machine { phase: Phase::Confirming, ..machine }
        } else {
            Machine {
                bridge: machine.bridge.ready().forwarded_all(
                    machine.bridge.queue.take(writes as int),
                ),
                phase: Phase::Releasing(machine.bridge.queue.skip(writes as int)),
                ..machine
            }
        },
        machine.sent(release_run(answer, writes), Peer::Ts) == seq![initialized_notification()]
            + released(machine.bridge.next_id, machine.bridge.queue.take(writes as int)),
    decreases writes,
{
    let turns = release_run(answer, writes);
    let queue = machine.bridge.queue;
    let bridge = machine.bridge.ready();
    if writes == 0 {
        lemma_empty_run(machine, turns.drop_last(), Peer::Ts);
        assert(released(machine.bridge.next_id, queue.take(0)) =~= Seq::empty());
    } else {
        let fewer = (writes - 1) as nat;
        lemma_release_run(machine, answer, fewer);
        assert(turns.drop_last() =~= release_run(answer, fewer));
        assert(queue.take(writes as int).drop_last() =~= queue.take(fewer as int));
        assert(queue.skip(fewer as int).skip(1) =~= queue.skip(writes as int));
        assert(queue.take(0) =~= Seq::empty());
        assert(queue.skip(0) =~= queue);
        assert(bridge.well_formed());
        lemma_forwarded_all(bridge, queue.take(fewer as int));
        assert(queue.skip(fewer as int)[0] == queue[fewer as int]);
        assert(released(bridge.next_id, queue.take(writes as int)) =~= released(
            bridge.next_id,
            queue.take(fewer as int),
        ).push(bridge.forwarded_all(queue.take(fewer as int)).forwarding(queue[fewer as int])));
    }
}

/// When typescript-language-server answers the `initialize` request, it gets the
/// `initialized` notification and then every request that waited, in the order in which they
/// came and under consecutive new ids, as long as the writes go well. Each is then pending
/// under its id.
pub proof fn lemma_queue_is_released(machine: Machine, answer: Json)
    requires
        machine.phase is Idle,
        machine.bridge.well_formed(),
        !machine.bridge.initialized,
        tells_capabilities(answer),
        machine.bridge.next_id + machine.bridge.queue.len() <= i64::MAX,
    ensures
        ({
            let queue = machine.bridge.queue;
            let turns = release_run(answer, queue.len() + 1);
            let after = machine.after(turns);
            &&& machine.runs(turns)
            &&& machine.sent(turns, Peer::Ts) == seq![initialized_notification()] + released(
                machine.bridge.next_id,
                queue,
            )
            &&& after.phase is Idle
            &&& after.bridge.initialized
            &&& after.bridge.queue.len() == 0
            &&& forall|i: int|
                0 <= i < queue.len() ==> {
                    let id = (machine.bridge.next_id + i) as i64;
                    &&& after.bridge.pending.contains_key(id)
                    &&& after.bridge.pending[id] == (#[trigger] queue[i]).id
                }
        }),
{
    let queue = machine.bridge.queue;
    let turns = release_run(answer, queue.len() + 1);
    lemma_release_run(machine, answer, queue.len());
    assert(turns.drop_last() =~= release_run(answer, queue.len()));
    assert(queue.take(queue.len() as int) =~= queue);
    assert(machine.bridge.ready().well_formed());
    lemma_forwarded_all(machine.bridge.ready(), queue);
}

/// The run in which typescript-language-server goes and then writes end in some way.
pub open spec fn drain_run(order: Seq<i64>, writes: Seq<Turn>) -> Seq<Turn> {
    seq![Turn { event: Event::Closed(Peer::Ts), order }] + writes
}

/// Every one of the turns is the end of a write.
pub open spec fn all_writes(turns: Seq<Turn>) -> bool {
    forall|i: int|
        0 <= i < turns.len() ==> (#[trigger] turns[i]).event is Written || turns[i].event
            is WriteFailed
}

proof fn lemma_fewer_writes(writes: Seq<Turn>)
    requires
        all_writes(writes),
        writes.len() > 0,
    ensures
        all_writes(writes.drop_last()),
{
    let fewer = writes.drop_last();
    assert forall|i: int| 0 <= i < fewer.len() implies (#[trigger] fewer[i]).event is Written
        || fewer[i].event is WriteFailed by {
        assert(fewer[i] == writes[i]);
    }
}

proof fn lemma_drain_run(machine: Machine, order: Seq<i64>, writes: Seq<Turn>)
    requires
        machine.phase is Idle,
        machine.bridge.next_id <= i64::MAX,
        lists(order, machine.bridge.pending.dom()),
        all_writes(writes),
        writes.len() < order.len(),
    ensures
        ({
            let turns = drain_run(order, writes);
            let responses = null_responses(machine.bridge.pending, order);
            &&& machine.runs(turns)
            &&& machine.after(turns) == Machine {
                bridge: machine.bridge.drained(),
                phase: Phase::Draining(responses.skip(writes.len() as int + 1)),
                ..machine
            }
            &&& machine.sent(turns, Peer::Vue) == responses.take(writes.len() as int + 1)
        }),
    decreases writes.len(),
{
    let turns = drain_run(order, writes);
    let responses = null_responses(machine.bridge.pending, order);
    let n = writes.len() as int;
    if n == 0 {
        lemma_empty_run(machine, turns.drop_last(), Peer::Vue);
        assert(responses.take(1) =~= Seq::empty().push(responses[0]));
    } else {
        let fewer = writes.drop_last();
        lemma_fewer_writes(writes);
        lemma_drain_run(machine, order, fewer);
        assert(turns.drop_last() =~= drain_run(order, fewer));
        assert(writes[n - 1].event is Written || writes[n - 1].event is WriteFailed);
        assert(turns.last() == writes[n - 1]);
        assert(responses.skip(n).skip(1) =~= responses.skip(n + 1));
        assert(responses.take(n + 1) =~= responses.take(n).push(responses[n]));
    }
}

/// When typescript-language-server goes, every request that has no answer gets a null
/// response, whether or not the writes go well, and the proxy goes on without it.
pub proof fn lemma_pending_are_drained(machine: Machine, order: Seq<i64>, writes: Seq<Turn>)
    requires
        machine.phase is Idle,
        machine.bridge.next_id <= i64::MAX,
        lists(order, machine.bridge.pending.dom()),
        all_writes(writes),
        writes.len() == order.len(),
    ensures
        ({
            let turns = drain_run(order, writes);
            &&& machine.runs(turns)
            &&& machine.sent(turns, Peer::Vue) == null_responses(machine.bridge.pending, order)
            &&& machine.after(turns) == Machine { bridge: machine.bridge.drained(), ..machine }
        }),
{
    let turns = drain_run(order, writes);
    let responses = null_responses(machine.bridge.pending, order);
    let n = writes.len() as int;
    if n == 0 {
        lemma_empty_run(machine, turns.drop_last(), Peer::Vue);
    } else {
        let fewer = writes.drop_last();
        lemma_fewer_writes(writes);
        lemma_drain_run(machine, order, fewer);
        assert(turns.drop_last() =~= drain_run(order, fewer));
        assert(writes[n - 1].event is Written || writes[n - 1].event is WriteFailed);
        assert(turns.last() == writes[n - 1]);
        assert(responses.take(n) =~= responses);
    }
}

/// The proxy stops where Helix or vue-language-server ends or cannot be read, or where a
/// message of the one cannot be written to the other, and nowhere else: in particular
/// whatever becomes of typescript-language-server.
pub proof fn lemma_stops(machine: Machine, turn: Turn)
    requires
        machine.admits(turn),
    ensures
        (machine.take(turn).1 is Stop) == match turn.event {
            Event::Closed(peer) | Event::ReadFailed(peer) => peer != Peer::Ts,
            Event::WriteFailed => machine.phase is Forwarding || machine.phase is Returning,
            _ => false,
        },
        machine.take(turn).1 is Stop <==> machine.take(turn).0.phase is Stopped,
{
}

/// A request from typescript-language-server, whatever its method and its id, is answered at
/// once, with its own id: where it asks for configurations, with as many empty ones, else with
/// null. Nothing else changes.
pub proof fn lemma_ts_request(machine: Machine, message: Json, order: Seq<i64>)
    requires
        names_method(message),
        message.get("id"@) is Some,
        machine.bridge.initialized || !tells_capabilities(message),
    ensures
        ({
            let (after, action) = machine.next(Event::Received(Peer::Ts, message), order);
            &&& after == Machine { phase: after.phase, ..machine }
            &&& match action {
                Action::Send(peer, answer) => {
                    &&& peer == Peer::Ts
                    &&& answer.get("id"@) == message.get("id"@)
                    &&& answer.get("result"@) == Some(local_result(message))
                    &&& kind_of(answer) == MessageKind::Response
                },
                _ => false,
            }
        }),
{
    lemma_names();
}

/// The first message from typescript-language-server whose result has capabilities, whatever
/// they hold and whatever else the message holds, makes the proxy send it the `initialized`
/// notification. Nothing else changes.
pub proof fn lemma_ts_ready(machine: Machine, message: Json, order: Seq<i64>)
    requires
        !machine.bridge.initialized,
        tells_capabilities(message),
    ensures
        machine.next(Event::Received(Peer::Ts, message), order) == (
            Machine { phase: Phase::Confirming, ..machine },
            Action::Send(Peer::Ts, initialized_notification()),
        ),
{
}

/// Once the `initialized` notification is gone, whether or not that went well,
/// typescript-language-server counts as ready, and is sent the first of the requests that
/// waited, if there is one.
pub proof fn lemma_confirmed(machine: Machine, event: Event<Json>, order: Seq<i64>)
    requires
        machine.phase is Confirming,
        event is Written || event is WriteFailed,
    ensures
        ({
            let (after, action) = machine.next(event, order);
            let queue = machine.bridge.queue;
            &&& after.bridge.initialized
            &&& after.bridge.queue.len() == 0
            &&& queue.len() == 0 ==> action is Wait && after.phase is Idle && after.bridge.pending
                == machine.bridge.pending && after.bridge.next_id == machine.bridge.next_id
            &&& queue.len() > 0 ==> {
                &&& action == Action::Send(
                    Peer::Ts,
                    execute_command_request(
                        machine.bridge.next_id,
                        queue[0].command,
                        queue[0].args,
                    ),
                )
                &&& after.phase == Phase::Releasing(queue.drop_first())
                &&& after.bridge.pending == machine.bridge.pending.insert(
                    machine.bridge.next_id as i64,
                    queue[0].id,
                )
                &&& after.bridge.next_id == machine.bridge.next_id + 1
            }
        }),
{
    assert(machine.bridge.queue.skip(1) =~= machine.bridge.queue.drop_first());
}

/// While the queue is released, the next request in it follows when one is written, and the rest
/// of it is given up when one cannot be.
pub proof fn lemma_releasing(machine: Machine, queue: Seq<Request>, order: Seq<i64>)
    requires
        machine.phase == Phase::Releasing(queue),
    ensures
        machine.next(Event::WriteFailed, order) == (
            Machine { phase: Phase::Idle, ..machine },
            Action::<Json>::Wait,
        ),
        queue.len() == 0 ==> machine.next(Event::Written, order) == (
            Machine { phase: Phase::Idle, ..machine },
            Action::<Json>::Wait,
        ),
        queue.len() > 0 ==> machine.next(Event::Written, order) == (
            Machine {
                bridge: Bridge {
                    next_id: machine.bridge.next_id + 1,
                    pending: machine.bridge.pending.insert(
                        machine.bridge.next_id as i64,
                        queue[0].id,
                    ),
                    ..machine.bridge
                },
                phase: Phase::Releasing(queue.drop_first()),
                ..machine
            },
            Action::Send(
                Peer::Ts,
                execute_command_request(machine.bridge.next_id, queue[0].command, queue[0].args),
            ),
        ),
{
    assert(queue.len() > 0 ==> queue.skip(1) =~= queue.drop_first());
}

/// While null responses are sent, the next one follows however the write of one ends.
pub proof fn lemma_draining(
    machine: Machine,
    responses: Seq<Json>,
    event: Event<Json>,
    order: Seq<i64>,
)
    requires
        machine.phase == Phase::Draining(responses),
        event is Written || event is WriteFailed,
    ensures
        responses.len() == 0 ==> machine.next(event, order) == (
            Machine { phase: Phase::Idle, ..machine },
            Action::<Json>::Wait,
        ),
        responses.len() > 0 ==> machine.next(event, order) == (
            Machine { phase: Phase::Draining(responses.drop_first()), ..machine },
            Action::Send(Peer::Vue, responses[0]),
        ),
{
    assert(responses.len() > 0 ==> responses.skip(1) =~= responses.drop_first());
}

/// Where nothing hangs on a write any more, the proxy waits again, with all else as it was.
pub proof fn lemma_finished(machine: Machine, event: Event<Json>, order: Seq<i64>)
    requires
        event is Written || event is WriteFailed,
        ({
            ||| machine.phase is Finishing
            ||| machine.phase is Returning && event is Written
            ||| machine.phase is Requesting && event is Written
        }),
    ensures
        machine.next(event, order) == (
            Machine { phase: Phase::Idle, ..machine },
            Action::<Json>::Wait,
        ),
{
}

/// A response to a pending request, whatever else it holds, leads to a tsserver response with
/// the id of the request. Its body is the member `body` of the result, of whatever kind that is;
/// the result itself only where it has no such member; and null only where there is no result.
/// The request is pending no more, and nothing else changes.
pub proof fn lemma_ts_answer(
    machine: Machine,
    message: Json,
    id: i64,
    result: Json,
    body: Json,
    order: Seq<i64>,
)
    requires
        is_answer(message, id),
        machine.bridge.pending.contains_key(id),
        machine.bridge.initialized || !tells_capabilities(message),
        ({
            ||| message.get("result"@) == Some(result) && result.get("body"@) == Some(body)
            ||| message.get("result"@) == Some(result) && result.get("body"@) is None && body
                == result
            ||| message.get("result"@) is None && body == Json::Null
        }),
    ensures
        machine.next(Event::Received(Peer::Ts, message), order) == (
            Machine {
                bridge: Bridge { pending: machine.bridge.pending.remove(id), ..machine.bridge },
                phase: Phase::Finishing,
                ..machine
            },
            Action::Send(Peer::Vue, tsserver_response(machine.bridge.pending[id], body)),
        ),
{
}

/// A message from typescript-language-server that is no request, no response to a pending
/// request and no first answer to `initialize` goes nowhere and changes nothing.
pub proof fn lemma_ts_dropped(machine: Machine, message: Json, order: Seq<i64>)
    requires
        machine.bridge.initialized || !tells_capabilities(message),
        !names_method(message) || message.get("id"@) is None,
        forall|id: i64| #[trigger]
            machine.bridge.pending.contains_key(id) ==> message.get("id"@) != Some(
                Json::Integer(id as int),
            ),
    ensures
        machine.next(Event::Received(Peer::Ts, message), order) == (
            Machine { phase: Phase::Idle, ..machine },
            Action::<Json>::Wait,
        ),
{
    if let Some(id) = machine.bridge.answered(message) {
        assert(machine.bridge.pending.contains_key(id));
    }
}

/// When typescript-language-server goes, nothing is pending any more, and nothing else changes
/// but that null responses are sent. When it cannot be read, nothing changes.
pub proof fn lemma_ts_gone(machine: Machine, order: Seq<i64>)
    ensures
        ({
            let (after, action) = machine.next(Event::Closed(Peer::Ts), order);
            &&& after.bridge == Bridge { pending: Map::empty(), ..machine.bridge }
            &&& after == Machine { bridge: after.bridge, phase: after.phase, ..machine }
            &&& order.len() == 0 ==> action is Wait && after.phase is Idle
            &&& order.len() > 0 ==> action == Action::Send(
                Peer::Vue,
                tsserver_response(machine.bridge.pending[order[0]], Json::Null),
            )
        }),
        machine.next(Event::ReadFailed(Peer::Ts), order) == (
            Machine { phase: Phase::Idle, ..machine },
            Action::<Json>::Wait,
        ),
{
}

/// Every message from vue-language-server whose method is not `tsserver/request`, whatever it
/// holds, is sent to Helix at once, unchanged, and nothing else changes.
pub proof fn lemma_vue_message(machine: Machine, message: Json, order: Seq<i64>)
    requires
        !is_request(message),
    ensures
        machine.next(Event::Received(Peer::Vue, message), order) == (
            Machine { phase: Phase::Returning, ..machine },
            Action::Send(Peer::Helix, message),
        ),
{
}

/// A tsserver request of whatever id, command and arguments, with anything behind them, with or
/// without another array around them, is sent to typescript-language-server under the next id
/// and then waits under that id, if that server is ready. If not, it goes to the end of the
/// queue. Nothing else changes.
pub proof fn lemma_vue_request(
    machine: Machine,
    message: Json,
    id: Json,
    command: Seq<char>,
    args: Json,
    more: Seq<Json>,
    order: Seq<i64>,
)
    requires
        is_request(message),
        ({
            let items = seq![id, Json::String(command), args] + more;
            ||| message.get("params"@) == Some(Json::Array(items))
            ||| message.get("params"@) == Some(Json::Array(seq![Json::Array(items)]))
        }),
    ensures
        machine.bridge.initialized ==> machine.next(Event::Received(Peer::Vue, message), order) == (
            Machine {
                bridge: Bridge {
                    next_id: machine.bridge.next_id + 1,
                    pending: machine.bridge.pending.insert(machine.bridge.next_id as i64, id),
                    ..machine.bridge
                },
                phase: Phase::Requesting(id),
                ..machine
            },
            Action::Send(
                Peer::Ts,
                execute_command_request(machine.bridge.next_id, command, args),
            ),
        ),
        !machine.bridge.initialized ==> machine.next(Event::Received(Peer::Vue, message), order)
            == (
            Machine {
                bridge: Bridge {
                    queue: machine.bridge.queue.push(Request { id, command, args }),
                    ..machine.bridge
                },
                phase: Phase::Idle,
                ..machine
            },
            Action::<Json>::Wait,
        ),
{
    lemma_request_carries(message, id, command, args, more);
}

/// A tsserver request is dropped, with no change, only where it has no parameters, where they
/// are no array, or where they, out of the array around them, are fewer than three or have no
/// string for a command.
pub proof fn lemma_vue_request_dropped(machine: Machine, message: Json, order: Seq<i64>)
    requires
        is_request(message),
        match message.get("params"@) {
            Some(Json::Array(params)) => {
                let items = if params.len() == 1 && params[0] is Array {
                    params[0]->Array_0
                } else {
                    params
                };
                items.len() < 3 || !(items[1] is String)
            },
            _ => true,
        },
    ensures
        machine.next(Event::Received(Peer::Vue, message), order) == (
            Machine { phase: Phase::Idle, ..machine },
            Action::<Json>::Wait,
        ),
{
}

/// A message from Helix that was written to vue-language-server is sent to
/// typescript-language-server too, unchanged, where it has one of the four methods that tell of
/// a document, whatever its parameters hold. An `initialize` is sent there under the next id,
/// unless one was written before. No other message is.
pub proof fn lemma_helix_written(machine: Machine, message: Json, order: Seq<i64>)
    requires
        machine.phase == Phase::Forwarding(message),
    ensures
        is_document_notification(message) ==> machine.next(Event::Written, order) == (
            Machine { phase: Phase::Finishing, ..machine },
            Action::Send(Peer::Ts, message),
        ),
        is_initialize(message) && !machine.ts_init_sent ==> machine.next(Event::Written, order) == (
            Machine {
                bridge: Bridge { next_id: machine.bridge.next_id + 1, ..machine.bridge },
                phase: Phase::Initializing(message),
                ..machine
            },
            Action::Send(
                Peer::Ts,
                initialize_request(
                    message,
                    machine.bridge.next_id,
                    machine.plugin_path,
                    machine.tsdk,
                ),
            ),
        ),
        !is_document_notification(message) && (is_initialize(message) ==> machine.ts_init_sent)
            ==> machine.next(Event::Written, order) == (
            Machine { phase: Phase::Idle, ..machine },
            Action::<Json>::Wait,
        ),
{
    lemma_methods();
}

/// Whether the `initialize` request to typescript-language-server counts as sent is whether it
/// was written. The proxy then waits, with all else as it was.
pub proof fn lemma_initialize_written(machine: Machine, message: Json, order: Seq<i64>)
    requires
        machine.phase == Phase::Initializing(message),
        is_initialize(message),
    ensures
        machine.next(Event::Written, order) == (
            Machine { ts_init_sent: true, phase: Phase::Idle, ..machine },
            Action::<Json>::Wait,
        ),
        machine.next(Event::WriteFailed, order) == (
            Machine { phase: Phase::Idle, ..machine },
            Action::<Json>::Wait,
        ),
{
    lemma_methods();
}

/// A document notification that has reached vue-language-server is sent to
/// typescript-language-server too, unchanged.
pub proof fn lemma_mirrored(machine: Machine, message: Json, order: Seq<i64>)
    requires
        machine.phase == Phase::Forwarding(message),
        is_document_notification(message),
    ensures
        machine.next(Event::Written, order).1 == Action::Send(Peer::Ts, message),
{
    lemma_methods();
}

/// The messages that a run sends to typescript-language-server while it handles messages from
/// Helix, the `initialize` request apart.
pub open spec fn mirrored(machine: Machine, turns: Seq<Turn>) -> Seq<Json>
    decreases turns.len(),
{
    if turns.len() == 0 {
        Seq::empty()
    } else {
        let earlier = mirrored(machine, turns.drop_last());
        let before = machine.after(turns.drop_last());
        let (after, action) = before.take(turns.last());
        match action {
            Action::Send(Peer::Ts, message) => if (before.phase is Forwarding || before.phase
                is Initializing) && !(after.phase is Initializing) {
                earlier.push(message)
            } else {
                earlier
            },
            _ => earlier,
        }
    }
}

/// The message from Helix that has not gone to typescript-language-server yet, though both
/// get it.
spec fn due(machine: Machine) -> Seq<Json> {
    match machine.phase {
        Phase::Forwarding(message) | Phase::Initializing(message) => if is_mirrored(message) {
            seq![message]
        } else {
            Seq::empty()
        },
        _ => Seq::empty(),
    }
}

proof fn lemma_mirrored_so_far(machine: Machine, turns: Seq<Turn>)
    requires
        machine.phase is Idle,
        machine.runs(turns),
        !(machine.after(turns).phase is Stopped),
    ensures
        mirrored(machine, turns) + due(machine.after(turns)) == received(turns, Peer::Helix).filter(
            |message: Json| is_mirrored(message),
        ),
    decreases turns.len(),
{
    reveal(Seq::filter);
    lemma_methods();
    if turns.len() > 0 {
        let before = machine.after(turns.drop_last());
        lemma_mirrored_so_far(machine, turns.drop_last());
        let heard = received(turns.drop_last(), Peer::Helix);
        let earlier = mirrored(machine, turns.drop_last());
        if let Event::Received(Peer::Helix, message) = turns.last().event {
            assert(heard.push(message).drop_last() =~= heard);
            assert(earlier + seq![message] =~= earlier.push(message));
        }
        assert(earlier + Seq::empty() =~= earlier);
        match before.phase {
            Phase::Forwarding(message) | Phase::Initializing(message) => {
                assert(earlier + seq![message] =~= earlier.push(message));
                assert(earlier.push(message) + Seq::empty() =~= earlier.push(message));
            },
            _ => {},
        }
    }
}

/// Whenever the proxy is idle, what it has sent to typescript-language-server while it handled
/// messages from Helix, the `initialize` request apart, is the document notifications among
/// them, unchanged and in the order in which they came, whether or not those writes went well.
pub proof fn lemma_mirrored_in_order(machine: Machine, turns: Seq<Turn>)
    requires
        machine.phase is Idle,
        machine.runs(turns),
        machine.after(turns).phase is Idle,
    ensures
        mirrored(machine, turns) == received(turns, Peer::Helix).filter(
            |message: Json| is_document_notification(message),
        ),
{
    lemma_mirrored_so_far(machine, turns);
    assert(mirrored(machine, turns) + Seq::empty() =~= mirrored(machine, turns));
    assert((|message: Json| is_mirrored(message)) =~= (|message: Json|
        is_document_notification(message)));
}

/// An `initialize` request.
pub open spec fn is_initialize(message: Json) -> bool {
    message.get("method"@) == Some(Json::String("initialize"@))
}

/// The ids under which a run sends `initialize` requests to typescript-language-server: each is
/// the next id at that moment.
pub open spec fn initialize_ids(machine: Machine, turns: Seq<Turn>) -> Seq<int>
    decreases turns.len(),
{
    if turns.len() == 0 {
        Seq::empty()
    } else {
        let earlier = initialize_ids(machine, turns.drop_last());
        let before = machine.after(turns.drop_last());
        if before.take(turns.last()).0.phase is Initializing {
            earlier.push(before.bridge.next_id)
        } else {
            earlier
        }
    }
}

/// How many `initialize` requests a run cannot write to typescript-language-server.
pub open spec fn failed_initializes(machine: Machine, turns: Seq<Turn>) -> nat
    decreases turns.len(),
{
    if turns.len() == 0 {
        0
    } else {
        let earlier = failed_initializes(machine, turns.drop_last());
        if machine.after(turns.drop_last()).phase is Initializing && turns.last().event
            is WriteFailed {
            earlier + 1
        } else {
            earlier
        }
    }
}

/// What holds of the `initialize` requests of a run at every moment.
spec fn initializes_hold(machine: Machine, turns: Seq<Turn>) -> bool {
    let after = machine.after(turns);
    let asked = received(turns, Peer::Helix).filter(|message: Json| is_initialize(message));
    let got = machine.sent(turns, Peer::Ts).filter(|message: Json| is_initialize(message));
    let ids = initialize_ids(machine, turns);
    &&& after.plugin_path == machine.plugin_path
    &&& after.tsdk == machine.tsdk
    &&& after.phase is Initializing ==> !after.ts_init_sent
    &&& match after.phase {
        Phase::Forwarding(message) => is_initialize(message) ==> asked.len() > 0 && asked.last()
            == message,
        _ => true,
    }
    &&& ids.len() == got.len()
    &&& got.len() == failed_initializes(machine, turns) + (if after.ts_init_sent {
        1int
    } else {
        0
    }) + (if after.phase is Initializing {
        1int
    } else {
        0
    })
    &&& got.len() <= asked.len()
    &&& match after.phase {
        Phase::Forwarding(message) => is_initialize(message) ==> got.len() < asked.len(),
        _ => true,
    }
    &&& !after.ts_init_sent && !(after.phase is Stopped) ==> asked.len() == got.len() + (
    match after.phase {
        Phase::Forwarding(message) => if is_initialize(message) {
            1int
        } else {
            0
        },
        _ => 0,
    })
    &&& forall|i: int|
        0 <= i < got.len() ==> #[trigger] got[i] == initialize_request(
            asked[i],
            ids[i],
            machine.plugin_path,
            machine.tsdk,
        )
}

proof fn lemma_initializes_hold(machine: Machine, turns: Seq<Turn>)
    requires
        machine.phase is Idle,
        !machine.ts_init_sent,
        machine.runs(turns),
    ensures
        initializes_hold(machine, turns),
    decreases turns.len(),
{
    reveal(Seq::filter);
    lemma_methods();
    lemma_names();
    if turns.len() > 0 {
        let before = machine.after(turns.drop_last());
        let turn = turns.last();
        lemma_initializes_hold(machine, turns.drop_last());
        let heard = received(turns.drop_last(), Peer::Helix);
        let said = machine.sent(turns.drop_last(), Peer::Ts);
        if let Event::Received(Peer::Helix, message) = turn.event {
            assert(heard.push(message).drop_last() =~= heard);
        }
        if let Action::Send(Peer::Ts, message) = before.take(turn).1 {
            assert(said.push(message).drop_last() =~= said);
            if before.take(turn).0.phase is Initializing {
                let original = before.phase->Forwarding_0;
                lemma_initialize_request(
                    original,
                    before.bridge.next_id,
                    before.plugin_path,
                    before.tsdk,
                );
                assert(message.get("method"@) == original.get("method"@));
                assert(is_initialize(message));
            } else {
                assert(!is_initialize(message));
            }
        }
    }
}

/// The `initialize` requests that typescript-language-server is sent are made from the first
/// ones of Helix, one from each, until the write of one succeeds, and there are no more then.
pub proof fn lemma_initialize_requests(machine: Machine, turns: Seq<Turn>)
    requires
        machine.phase is Idle,
        !machine.ts_init_sent,
        machine.runs(turns),
    ensures
        ({
            let after = machine.after(turns);
            let asked = received(turns, Peer::Helix).filter(|message: Json| is_initialize(message));
            let got = machine.sent(turns, Peer::Ts).filter(|message: Json| is_initialize(message));
            let ids = initialize_ids(machine, turns);
            &&& got.len() <= asked.len()
            &&& ids.len() == got.len()
            &&& forall|i: int|
                0 <= i < got.len() ==> #[trigger] got[i] == initialize_request(
                    asked[i],
                    ids[i],
                    machine.plugin_path,
                    machine.tsdk,
                )
            &&& after.ts_init_sent ==> got.len() == failed_initializes(machine, turns) + 1
            &&& after.phase is Idle && !after.ts_init_sent ==> got.len() == asked.len()
                && got.len() == failed_initializes(machine, turns)
        }),
{
    lemma_initializes_hold(machine, turns);
}

/// Where the first `initialize` request is written without failure, typescript-language-server
/// is sent exactly that one: it is made from the first of Helix's, with the plugin and the next
/// id in it, and later ones of Helix's lead to none. It has been written as soon as Helix has
/// sent one and the proxy is idle again.
pub proof fn lemma_one_initialize(machine: Machine, turns: Seq<Turn>)
    requires
        machine.phase is Idle,
        !machine.ts_init_sent,
        machine.runs(turns),
        failed_initializes(machine, turns) == 0,
    ensures
        ({
            let after = machine.after(turns);
            let asked = received(turns, Peer::Helix).filter(|message: Json| is_initialize(message));
            let got = machine.sent(turns, Peer::Ts).filter(|message: Json| is_initialize(message));
            &&& after.ts_init_sent ==> asked.len() > 0 && initialize_ids(machine, turns).len() == 1
                && got == seq![
                initialize_request(
                    asked[0],
                    initialize_ids(machine, turns)[0],
                    machine.plugin_path,
                    machine.tsdk,
                ),
            ]
            &&& after.phase is Idle ==> after.ts_init_sent == (asked.len() > 0)
            &&& asked.len() == 0 ==> got.len() == 0
        }),
{
    lemma_initializes_hold(machine, turns);
}

/// A run in which no tsserver request is forwarded before the first `initialize` request.
pub open spec fn initialize_comes_first(machine: Machine, turns: Seq<Turn>) -> bool
    decreases turns.len(),
{
    turns.len() > 0 ==> {
        let phase = machine.after(turns).phase;
        &&& initialize_comes_first(machine, turns.drop_last())
        &&& initialize_ids(machine, turns).len() == 0 ==> !(phase is Requesting) && !(
        phase is Releasing)
    }
}

proof fn lemma_no_id_before(machine: Machine, turns: Seq<Turn>)
    requires
        initialize_comes_first(machine, turns),
    ensures
        initialize_ids(machine, turns).len() == 0 ==> machine.after(turns).bridge.next_id
            == machine.bridge.next_id,
        initialize_ids(machine, turns).len() > 0 ==> initialize_ids(machine, turns)[0]
            == machine.bridge.next_id,
    decreases turns.len(),
{
    if turns.len() > 0 {
        lemma_no_id_before(machine, turns.drop_last());
    }
}

/// From the start, the first `initialize` request to typescript-language-server has the id 1,
/// whatever id Helix used, unless a tsserver request is forwarded before it.
pub proof fn lemma_first_initialize_id(plugin_path: Seq<char>, tsdk: Seq<char>, turns: Seq<Turn>)
    requires
        Machine::initial(plugin_path, tsdk).runs(turns),
        initialize_comes_first(Machine::initial(plugin_path, tsdk), turns),
        initialize_ids(Machine::initial(plugin_path, tsdk), turns).len() > 0,
    ensures
        initialize_ids(Machine::initial(plugin_path, tsdk), turns)[0] == 1,
{
    lemma_no_id_before(Machine::initial(plugin_path, tsdk), turns);
}

/// A request of the proxy's own to typescript-language-server.
pub open spec fn is_asking(message: Json) -> bool {
    is_initialize(message) || message.get("method"@) == Some(
        Json::String("workspace/executeCommand"@),
    )
}

/// The ids that a run gives out.
pub open spec fn given_ids(machine: Machine, turns: Seq<Turn>) -> Seq<int>
    decreases turns.len(),
{
    if turns.len() == 0 {
        Seq::empty()
    } else {
        let earlier = given_ids(machine, turns.drop_last());
        let before = machine.after(turns.drop_last());
        if before.take(turns.last()).0.bridge.next_id > before.bridge.next_id {
            earlier.push(before.bridge.next_id)
        } else {
            earlier
        }
    }
}

/// The requests that typescript-language-server is sent have the ids that the run gives out.
/// Each is greater than all before it, and less than the next id afterwards, so that no two
/// requests share an id.
pub proof fn lemma_ids_differ(machine: Machine, turns: Seq<Turn>)
    requires
        machine.runs(turns),
    ensures
        ({
            let asked = machine.sent(turns, Peer::Ts).filter(|message: Json| is_asking(message));
            let ids = given_ids(machine, turns);
            &&& machine.bridge.next_id <= machine.after(turns).bridge.next_id
            &&& ids.len() == asked.len()
            &&& forall|i: int|
                0 <= i < ids.len() ==> machine.bridge.next_id <= #[trigger] ids[i]
                    < machine.after(turns).bridge.next_id
            &&& forall|i: int, j: int| 0 <= i < j < ids.len() ==> ids[i] < ids[j]
            &&& forall|i: int|
                0 <= i < asked.len() ==> (#[trigger] asked[i]).get("id"@) == Some(
                    Json::Integer(ids[i]),
                )
            &&& forall|i: int, j: int|
                0 <= i < j < asked.len() ==> (#[trigger] asked[i]).get("id"@) != (
                #[trigger] asked[j]).get("id"@)
        }),
    decreases turns.len(),
{
    reveal(Seq::filter);
    lemma_methods();
    lemma_names();
    if turns.len() > 0 {
        let before = machine.after(turns.drop_last());
        let turn = turns.last();
        lemma_ids_differ(machine, turns.drop_last());
        let said = machine.sent(turns.drop_last(), Peer::Ts);
        if let Action::Send(Peer::Ts, message) = before.take(turn).1 {
            assert(said.push(message).drop_last() =~= said);
            if before.take(turn).0.phase is Initializing {
                let original = before.phase->Forwarding_0;
                lemma_initialize_request(
                    original,
                    before.bridge.next_id,
                    before.plugin_path,
                    before.tsdk,
                );
                assert(message.get("method"@) == original.get("method"@));
            }
            assert(is_asking(message) == (before.take(turn).0.bridge.next_id
                > before.bridge.next_id));
        }
    }
}

/// Until typescript-language-server is ready, nothing waits for an answer of it: no message
/// leads to a tsserver response, and nothing is drained if it goes.
pub proof fn lemma_nothing_pending_early(machine: Machine, turns: Seq<Turn>, message: Json)
    requires
        machine.sound(),
        machine.runs(turns),
        !machine.after(turns).bridge.initialized,
    ensures
        machine.after(turns).bridge.pending == Map::<i64, Json>::empty(),
        machine.after(turns).bridge.answered(message) is None,
        forall|order: Seq<i64>|
            lists(order, machine.after(turns).bridge.pending.dom()) ==> #[trigger] null_responses(
                machine.after(turns).bridge.pending,
                order,
            ).len() == 0,
{
    lemma_sound(machine, turns);
    let pending = machine.after(turns).bridge.pending;
    assert(pending =~= Map::<i64, Json>::empty());
    assert forall|order: Seq<i64>| lists(order, pending.dom()) implies #[trigger] null_responses(
        pending,
        order,
    ).len() == 0 by {
        if order.len() > 0 {
            assert(order.to_set().contains(order[0]));
        }
    }
}

/// Once the `initialize` request is written to typescript-language-server, none is sent there
/// again.
pub proof fn lemma_initialize_sent_once(machine: Machine, turns: Seq<Turn>)
    requires
        machine.ts_init_sent,
        machine.runs(turns),
    ensures
        machine.after(turns).ts_init_sent,
        forall|i: int|
            0 <= i < machine.sent(turns, Peer::Ts).len() ==> method_of(
                #[trigger] machine.sent(turns, Peer::Ts)[i],
            ) != Some("initialize"@),
    decreases turns.len(),
{
    lemma_methods();
    if turns.len() > 0 {
        lemma_initialize_sent_once(machine, turns.drop_last());
        lemma_names();
    }
}

/// The methods of the messages to typescript-language-server differ.
proof fn lemma_methods()
    ensures
        !is_document_sync("initialize"@),
        !is_document_sync("workspace/executeCommand"@),
        "initialized"@ != "workspace/executeCommand"@,
        "initialize"@ != "initialized"@,
        "initialize"@ != "workspace/executeCommand"@,
{
    reveal_strlit("initialize");
    reveal_strlit("initialized");
    reveal_strlit("workspace/executeCommand");
    reveal_strlit("textDocument/didOpen");
    reveal_strlit("textDocument/didChange");
    reveal_strlit("textDocument/didClose");
    reveal_strlit("textDocument/didSave");
    assert("initialize"@.len() == 10);
    assert("initialized"@.len() == 11);
    assert("workspace/executeCommand"@.len() == 24);
    assert("textDocument/didOpen"@.len() == 20);
    assert("textDocument/didChange"@.len() == 22);
    assert("textDocument/didClose"@.len() == 21);
    assert("textDocument/didSave"@.len() == 20);
}

} // verus!
