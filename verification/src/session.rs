//! The session state machine: one instance owns one connection for its whole
//! lifetime. It parses inbound envelopes, starts and stops operations,
//! multiplexes the items of many concurrently running operation streams onto
//! one outbound queue, enforces the heartbeat timeout, and deregisters itself
//! when it terminates.
//!
//! The machine is written as a pure transition: every outside happening (an
//! inbound frame, a registry reply, a heartbeat tick, an item produced by an
//! operation's stream) is an event, and handling an event moves the session
//! to its next state and yields the actions the surrounding runtime must
//! perform, in order. All outbound envelopes travel through that single
//! action sequence, so the wire order is the emission order.

use vstd::prelude::*;

use crate::envelope::{esc, wf_envelope, dec_envelope, decode, Envelope, EnvelopeV, MsgType, QUOTE};
use crate::request::{dec_request, parse_request, GraphqlRequest, RequestV};
use crate::CLIENT_TIMEOUT;

verus! {

/// The lifecycle of a session.
#[derive(Clone, Copy, Debug, PartialEq, Eq, Structural)]
pub enum SessionState {
    /// From acceptance of the connection until the registry assigns an id.
    Connecting,
    /// The steady state: envelopes are processed and operations run.
    Active,
    /// A terminal event happened; operations are cancelled and the
    /// connection is released, and only teardown events are still taken.
    Closing,
    /// Terminal: nothing is processed any more.
    Closed,
}

/// The mathematical value of a session.
#[verifier::ext_equal]
pub struct SessionV {
    pub state: SessionState,
    pub id: int,
    pub hb: int,
    pub live: Seq<Seq<u8>>,
}

/// One connection's protocol state machine: its lifecycle state, the id the
/// registry assigned, the time of the last observed liveness response, and
/// the ids of the operations whose streams are running.
pub struct WebSocketSession {
    pub state: SessionState,
    pub id: usize,
    pub hb: u64,
    pub live_operations: Vec<Vec<u8>>,
}

impl View for WebSocketSession {
    type V = SessionV;

    open spec fn view(&self) -> SessionV {
        SessionV {
            state: self.state,
            id: self.id as int,
            hb: self.hb as int,
            live: Seq::new(self.live_operations@.len(), |i: int| self.live_operations@[i]@),
        }
    }
}

/// Everything that can happen to a session.
#[derive(Debug)]
pub enum SessionEvent {
    /// The registry acknowledged registration and assigned this id.
    Registered { id: usize },
    /// The registry could not register the session.
    RegisterFailed,
    /// A liveness probe arrived; its data is echoed back.
    Ping { data: Vec<u8>, now: u64 },
    /// A liveness response arrived.
    Pong { now: u64 },
    /// A text frame arrived.
    Text { bytes: Vec<u8> },
    /// A binary frame arrived; the protocol has no use for it.
    Binary,
    /// The peer closed the connection.
    CloseFrame,
    /// The transport failed.
    TransportError,
    /// The probe timer fired.
    HeartbeatTick { now: u64 },
    /// A running operation's stream produced an item.
    StreamItem { op_id: Vec<u8>, payload: Vec<u8>, is_error: bool },
    /// A running operation's stream ended.
    StreamComplete { op_id: Vec<u8> },
    /// The runtime is tearing the session down.
    Stopping,
}

/// The mathematical value of an event.
pub enum EventV {
    Registered { id: int },
    RegisterFailed,
    Ping { data: Seq<u8>, now: int },
    Pong { now: int },
    Text { bytes: Seq<u8> },
    Binary,
    CloseFrame,
    TransportError,
    HeartbeatTick { now: int },
    StreamItem { op_id: Seq<u8>, payload: Seq<u8>, is_error: bool },
    StreamComplete { op_id: Seq<u8> },
    Stopping,
}

impl View for SessionEvent {
    type V = EventV;

    open spec fn view(&self) -> EventV {
        match self {
            SessionEvent::Registered { id } => EventV::Registered { id: *id as int },
            SessionEvent::RegisterFailed => EventV::RegisterFailed,
            SessionEvent::Ping { data, now } => EventV::Ping { data: data@, now: *now as int },
            SessionEvent::Pong { now } => EventV::Pong { now: *now as int },
            SessionEvent::Text { bytes } => EventV::Text { bytes: bytes@ },
            SessionEvent::Binary => EventV::Binary,
            SessionEvent::CloseFrame => EventV::CloseFrame,
            SessionEvent::TransportError => EventV::TransportError,
            SessionEvent::HeartbeatTick { now } => EventV::HeartbeatTick { now: *now as int },
            SessionEvent::StreamItem { op_id, payload, is_error } => EventV::StreamItem {
                op_id: op_id@,
                payload: payload@,
                is_error: *is_error,
            },
            SessionEvent::StreamComplete { op_id } => EventV::StreamComplete { op_id: op_id@ },
            SessionEvent::Stopping => EventV::Stopping,
        }
    }
}

/// What the runtime must do after an event, in order.
#[derive(Debug)]
pub enum SessionAction {
    /// Enqueue this envelope on the outbound queue.
    Send { env: Envelope },
    /// Send a liveness probe.
    SendPing,
    /// Answer a probe, echoing its data.
    SendPong { data: Vec<u8> },
    /// Hand this request to the operation executor and run its stream under
    /// this operation id.
    StartStream { op_id: Vec<u8>, request: GraphqlRequest },
    /// Signal this operation's cancellation token.
    CancelStream { op_id: Vec<u8> },
    /// Tell the registry this session is gone.
    Deregister { id: usize },
    /// Release the physical connection.
    CloseConnection,
}

/// The mathematical value of an action.
pub enum ActionV {
    Send { env: EnvelopeV },
    SendPing,
    SendPong { data: Seq<u8> },
    StartStream { op_id: Seq<u8>, request: RequestV },
    CancelStream { op_id: Seq<u8> },
    Deregister { id: int },
    CloseConnection,
}

impl View for SessionAction {
    type V = ActionV;

    open spec fn view(&self) -> ActionV {
        match self {
            SessionAction::Send { env } => ActionV::Send { env: env@ },
            SessionAction::SendPing => ActionV::SendPing,
            SessionAction::SendPong { data } => ActionV::SendPong { data: data@ },
            SessionAction::StartStream { op_id, request } => ActionV::StartStream {
                op_id: op_id@,
                request: request@,
            },
            SessionAction::CancelStream { op_id } => ActionV::CancelStream { op_id: op_id@ },
            SessionAction::Deregister { id } => ActionV::Deregister { id: *id as int },
            SessionAction::CloseConnection => ActionV::CloseConnection,
        }
    }
}

/// The values of a sequence of actions.
pub open spec fn acts_view(v: Seq<SessionAction>) -> Seq<ActionV> {
    Seq::new(v.len(), |i: int| v[i]@)
}

/// Whether `id` is among the live operation ids.
pub open spec fn live_contains(live: Seq<Seq<u8>>, id: Seq<u8>) -> bool {
    exists|k: int| 0 <= k < live.len() && live[k] == id
}

/// The index of `id` among the live operation ids, or -1.
pub open spec fn find_op(live: Seq<Seq<u8>>, id: Seq<u8>) -> int
    decreases live.len(),
{
    if live.len() == 0 {
        -1
    } else if live[0] == id {
        0
    } else {
        let r = find_op(live.skip(1), id);
        if r == -1 {
            -1
        } else {
            r + 1
        }
    }
}

/// A cancellation for every live operation, in order.
pub open spec fn cancels(live: Seq<Seq<u8>>) -> Seq<ActionV> {
    Seq::new(live.len(), |i: int| ActionV::CancelStream { op_id: live[i] })
}

/// A session is well formed when its live operation ids are distinct and
/// only the steady state runs operations.
pub open spec fn wf_session(s: SessionV) -> bool {
    &&& forall|i: int, j: int| 0 <= i < j < s.live.len() ==> s.live[i] != s.live[j]
    &&& (s.state != SessionState::Active ==> s.live.len() == 0)
}

/// Whether a session still drives its connection: liveness probes and the
/// heartbeat timer run from session start, before registration completes.
pub open spec fn running(st: SessionState) -> bool {
    st == SessionState::Connecting || st == SessionState::Active
}

/// A session as it stands when its connection has just been accepted.
pub open spec fn fresh_session(now: int) -> SessionV {
    SessionV { state: SessionState::Connecting, id: 0, hb: now, live: Seq::empty() }
}

/// The result of one transition: the next state and the actions to perform.
pub struct StepV {
    pub s: SessionV,
    pub out: Seq<ActionV>,
}

/// A transition that changes nothing and does nothing.
pub open spec fn skip_step(s: SessionV) -> StepV {
    StepV { s, out: Seq::empty() }
}

/// An outbound error envelope whose payload is the message as a quoted,
/// escaped string.
pub open spec fn err_env(id: Option<Seq<u8>>, msg: Seq<u8>) -> EnvelopeV {
    EnvelopeV {
        msg_type: MsgType::Error,
        operation_id: id,
        payload: Option::Some(seq![QUOTE] + esc(msg) + seq![QUOTE]),
    }
}

/// The error message for a text frame that is no envelope.
pub open spec fn bad_envelope_msg() -> Seq<u8> {
    seq![98u8, 97, 100, 32, 101, 110, 118, 101, 108, 111, 112, 101]
}

/// The error message for an envelope of a type only this side may send.
pub open spec fn unexpected_type_msg() -> Seq<u8> {
    seq![117u8, 110, 101, 120, 112, 101, 99, 116, 101, 100, 32, 116, 121, 112, 101]
}

/// The error message for a second `start` under a live id.
pub open spec fn duplicate_id_msg() -> Seq<u8> {
    seq![
        100u8, 117, 112, 108, 105, 99, 97, 116, 101, 32, 111, 112, 101, 114, 97, 116, 105, 111,
        110, 32, 105, 100,
    ]
}

/// The error message for a `start` whose payload is no request.
pub open spec fn bad_payload_msg() -> Seq<u8> {
    seq![98u8, 97, 100, 32, 112, 97, 121, 108, 111, 97, 100]
}

/// Handling a `start` envelope: a live id is a protocol error and disturbs
/// nothing; a malformed payload is a protocol error and starts nothing; else
/// the id becomes live and its stream is started.
pub open spec fn start_step(s: SessionV, oid: Seq<u8>, p: Seq<u8>) -> StepV {
    if live_contains(s.live, oid) {
        StepV {
            s,
            out: seq![
                ActionV::Send { env: err_env(Option::Some(oid), duplicate_id_msg()) },
            ],
        }
    } else {
        match dec_request(p) {
            Option::None => StepV {
                s,
                out: seq![
                    ActionV::Send { env: err_env(Option::Some(oid), bad_payload_msg()) },
                ],
            },
            Option::Some(req) => StepV {
                s: SessionV { state: s.state, id: s.id, hb: s.hb, live: s.live.push(oid) },
                out: seq![ActionV::StartStream { op_id: oid, request: req }],
            },
        }
    }
}

/// Handling a `stop` envelope: a live id is cancelled and removed exactly
/// once; an unknown or already-completed id is a no-op.
pub open spec fn stop_step(s: SessionV, oid: Seq<u8>) -> StepV {
    if live_contains(s.live, oid) {
        StepV {
            s: SessionV {
                state: s.state,
                id: s.id,
                hb: s.hb,
                live: s.live.remove(find_op(s.live, oid)),
            },
            out: seq![ActionV::CancelStream { op_id: oid }],
        }
    } else {
        skip_step(s)
    }
}

/// Handling a text frame in the steady state: malformed text is answered
/// with an error envelope carrying no id and never terminates the session;
/// `connection_init` is accepted unconditionally; `start` and `stop` drive
/// the operation lifecycle; an inbound `data` or `error` envelope is a
/// protocol error scoped to its id.
pub open spec fn text_step(s: SessionV, d: Option<EnvelopeV>) -> StepV {
    match d {
        Option::None => StepV {
            s,
            out: seq![ActionV::Send { env: err_env(Option::None, bad_envelope_msg()) }],
        },
        Option::Some(e) => match e.msg_type {
            MsgType::ConnectionInit => skip_step(s),
            MsgType::Start => start_step(s, e.operation_id.unwrap(), e.payload.unwrap()),
            MsgType::Stop => stop_step(s, e.operation_id.unwrap()),
            MsgType::Data => StepV {
                s,
                out: seq![
                    ActionV::Send { env: err_env(e.operation_id, unexpected_type_msg()) },
                ],
            },
            MsgType::Error => StepV {
                s,
                out: seq![
                    ActionV::Send { env: err_env(e.operation_id, unexpected_type_msg()) },
                ],
            },
        },
    }
}

/// A terminal transport event: every live operation is cancelled, the
/// connection is released, and the session waits only for teardown.
pub open spec fn close_step(s: SessionV) -> StepV {
    StepV {
        s: SessionV { state: SessionState::Closing, id: s.id, hb: s.hb, live: Seq::empty() },
        out: cancels(s.live) + seq![ActionV::CloseConnection],
    }
}

/// The whole machine: what one event does to a session and what the runtime
/// must do for it.
pub open spec fn session_step(s: SessionV, ev: EventV) -> StepV {
    match ev {
        EventV::Registered { id } => if s.state == SessionState::Connecting {
            StepV {
                s: SessionV { state: SessionState::Active, id, hb: s.hb, live: s.live },
                out: Seq::empty(),
            }
        } else {
            skip_step(s)
        },
        EventV::RegisterFailed => if s.state == SessionState::Connecting {
            StepV {
                s: SessionV { state: SessionState::Closed, id: s.id, hb: s.hb, live: s.live },
                out: seq![ActionV::CloseConnection],
            }
        } else {
            skip_step(s)
        },
        EventV::Ping { data, now } => if running(s.state) {
            StepV {
                s: SessionV { state: s.state, id: s.id, hb: now, live: s.live },
                out: seq![ActionV::SendPong { data }],
            }
        } else {
            skip_step(s)
        },
        EventV::Pong { now } => if running(s.state) {
            StepV {
                s: SessionV { state: s.state, id: s.id, hb: now, live: s.live },
                out: Seq::empty(),
            }
        } else {
            skip_step(s)
        },
        EventV::Text { bytes } => if s.state == SessionState::Active {
            text_step(s, dec_envelope(bytes))
        } else {
            skip_step(s)
        },
        EventV::Binary => skip_step(s),
        EventV::CloseFrame => if s.state == SessionState::Closing || s.state
            == SessionState::Closed {
            skip_step(s)
        } else {
            close_step(s)
        },
        EventV::TransportError => if s.state == SessionState::Closing || s.state
            == SessionState::Closed {
            skip_step(s)
        } else {
            close_step(s)
        },
        EventV::HeartbeatTick { now } => if running(s.state) {
            if now - s.hb > CLIENT_TIMEOUT {
                StepV {
                    s: SessionV {
                        state: SessionState::Closing,
                        id: s.id,
                        hb: s.hb,
                        live: Seq::empty(),
                    },
                    out: cancels(s.live) + seq![
                        ActionV::Deregister { id: s.id },
                        ActionV::CloseConnection,
                    ],
                }
            } else {
                StepV { s, out: seq![ActionV::SendPing] }
            }
        } else {
            skip_step(s)
        },
        EventV::StreamItem { op_id, payload, is_error } => if s.state == SessionState::Active
            && live_contains(s.live, op_id) {
            StepV {
                s,
                out: seq![
                    ActionV::Send {
                        env: EnvelopeV {
                            msg_type: if is_error {
                                MsgType::Error
                            } else {
                                MsgType::Data
                            },
                            operation_id: Option::Some(op_id),
                            payload: Option::Some(payload),
                        },
                    },
                ],
            }
        } else {
            skip_step(s)
        },
        EventV::StreamComplete { op_id } => if s.state == SessionState::Active && live_contains(
            s.live,
            op_id,
        ) {
            StepV {
                s: SessionV {
                    state: s.state,
                    id: s.id,
                    hb: s.hb,
                    live: s.live.remove(find_op(s.live, op_id)),
                },
                out: Seq::empty(),
            }
        } else {
            skip_step(s)
        },
        EventV::Stopping => if s.state == SessionState::Closed {
            skip_step(s)
        } else {
            StepV {
                s: SessionV {
                    state: SessionState::Closed,
                    id: s.id,
                    hb: s.hb,
                    live: Seq::empty(),
                },
                out: cancels(s.live) + seq![ActionV::Deregister { id: s.id }],
            }
        },
    }
}

/// `find_op` names the first occurrence, and -1 exactly when there is none.
pub proof fn lemma_find_op(live: Seq<Seq<u8>>, id: Seq<u8>)
    ensures
        find_op(live, id) == -1 <==> !live_contains(live, id),
        find_op(live, id) != -1 ==> 0 <= find_op(live, id) < live.len() && live[find_op(live, id)]
            == id && forall|j: int| 0 <= j < find_op(live, id) ==> live[j] != id,
    decreases live.len(),
{
    if live.len() == 0 {
    } else if live[0] == id {
    } else {
        lemma_find_op(live.skip(1), id);
        let r = find_op(live.skip(1), id);
        if r == -1 {
            assert forall|k: int| 0 <= k < live.len() implies live[k] != id by {
                if k > 0 {
                    assert(live.skip(1)[k - 1] == live[k]);
                }
            }
        } else {
            assert(live.skip(1)[r] == live[r + 1]);
            assert forall|j: int| 0 <= j < r + 1 implies live[j] != id by {
                if j > 0 {
                    assert(live.skip(1)[j - 1] == live[j]);
                }
            }
        }
    }
}

/// Removing the found occurrence of one id keeps the others distinct and
/// drops exactly that id.
pub proof fn lemma_remove_live(live: Seq<Seq<u8>>, id: Seq<u8>)
    requires
        forall|i: int, j: int| 0 <= i < j < live.len() ==> live[i] != live[j],
        live_contains(live, id),
    ensures
        ({
            let l2 = live.remove(find_op(live, id));
            &&& l2.len() == live.len() - 1
            &&& !live_contains(l2, id)
            &&& forall|i: int, j: int| 0 <= i < j < l2.len() ==> l2[i] != l2[j]
            &&& forall|x: Seq<u8>| x != id ==> (live_contains(l2, x) <==> live_contains(live, x))
        }),
{
    lemma_find_op(live, id);
    let k = find_op(live, id);
    let l2 = live.remove(k);
    live.remove_ensures(k);
    assert forall|m: int| 0 <= m < l2.len() implies l2[m] != id by {
        if m < k {
        } else {
            assert(l2[m] == live[m + 1]);
        }
    }
    assert forall|x: Seq<u8>| x != id && live_contains(live, x) implies live_contains(l2, x) by {
        let w = choose|w: int| 0 <= w < live.len() && live[w] == x;
        if w < k {
            assert(l2[w] == x);
        } else {
            assert(w > k);
            assert(l2[w - 1] == x);
        }
    }
    assert forall|x: Seq<u8>| live_contains(l2, x) implies live_contains(live, x) by {
        let w = choose|w: int| 0 <= w < l2.len() && l2[w] == x;
        if w < k {
            assert(live[w] == x);
        } else {
            assert(live[w + 1] == x);
        }
    }
}

/// One step keeps a session well formed.
pub proof fn lemma_step_wf(s: SessionV, ev: EventV)
    requires
        wf_session(s),
    ensures
        wf_session(session_step(s, ev).s),
{
    match ev {
        EventV::Text { bytes } => {
            if s.state == SessionState::Active {
                match dec_envelope(bytes) {
                    Option::Some(e) => {
                        if e.msg_type == MsgType::Start {
                            let oid = e.operation_id.unwrap();
                            let p = e.payload.unwrap();
                            if !live_contains(s.live, oid) && dec_request(p) is Some {
                                let l2 = s.live.push(oid);
                                assert forall|i: int, j: int| 0 <= i < j < l2.len() implies l2[i]
                                    != l2[j] by {
                                    if j == l2.len() - 1 {
                                        assert(l2[i] == s.live[i]);
                                        assert(!(s.live[i] == oid));
                                    }
                                }
                            }
                        } else if e.msg_type == MsgType::Stop {
                            let oid = e.operation_id.unwrap();
                            if live_contains(s.live, oid) {
                                lemma_remove_live(s.live, oid);
                            }
                        }
                    },
                    Option::None => {},
                }
            }
        },
        EventV::StreamComplete { op_id } => {
            if s.state == SessionState::Active && live_contains(s.live, op_id) {
                lemma_remove_live(s.live, op_id);
            }
        },
        _ => {},
    }
}

/// A copy of a byte string.
pub(crate) fn clone_bytes(v: &Vec<u8>) -> (r: Vec<u8>)
    ensures
        r@ == v@,
{
    let mut r: Vec<u8> = Vec::new();
    let mut i: usize = 0;
    while i < v.len()
        invariant
            i <= v@.len(),
            r@ == v@.take(i as int),
        decreases v.len() - i,
    {
        r.push(v[i]);
        proof {
            assert(v@.take(i as int + 1) =~= v@.take(i as int).push(v@[i as int]));
        }
        i = i + 1;
    }
    assert(v@.take(v@.len() as int) =~= v@);
    r
}

fn bad_envelope_vec() -> (r: Vec<u8>)
    ensures
        r@ == bad_envelope_msg(),
{
    let mut out: Vec<u8> = Vec::new();
    out.push(98);
    out.push(97);
    out.push(100);
    out.push(32);
    out.push(101);
    out.push(110);
    out.push(118);
    out.push(101);
    out.push(108);
    out.push(111);
    out.push(112);
    out.push(101);
    assert(out@ =~= bad_envelope_msg());
    out
}

fn unexpected_type_vec() -> (r: Vec<u8>)
    ensures
        r@ == unexpected_type_msg(),
{
    let mut out: Vec<u8> = Vec::new();
    out.push(117);
    out.push(110);
    out.push(101);
    out.push(120);
    out.push(112);
    out.push(101);
    out.push(99);
    out.push(116);
    out.push(101);
    out.push(100);
    out.push(32);
    out.push(116);
    out.push(121);
    out.push(112);
    out.push(101);
    assert(out@ =~= unexpected_type_msg());
    out
}

fn duplicate_id_vec() -> (r: Vec<u8>)
    ensures
        r@ == duplicate_id_msg(),
{
    let mut out: Vec<u8> = Vec::new();
    out.push(100);
    out.push(117);
    out.push(112);
    out.push(108);
    out.push(105);
    out.push(99);
    out.push(97);
    out.push(116);
    out.push(101);
    out.push(32);
    out.push(111);
    out.push(112);
    out.push(101);
    out.push(114);
    out.push(97);
    out.push(116);
    out.push(105);
    out.push(111);
    out.push(110);
    out.push(32);
    out.push(105);
    out.push(100);
    assert(out@ =~= duplicate_id_msg());
    out
}

fn bad_payload_vec() -> (r: Vec<u8>)
    ensures
        r@ == bad_payload_msg(),
{
    let mut out: Vec<u8> = Vec::new();
    out.push(98);
    out.push(97);
    out.push(100);
    out.push(32);
    out.push(112);
    out.push(97);
    out.push(121);
    out.push(108);
    out.push(111);
    out.push(97);
    out.push(100);
    assert(out@ =~= bad_payload_msg());
    out
}

/// An outbound envelope of type `data`, tagged with the operation it
/// belongs to.
#[derive(Debug)]
pub struct WsGraphql(pub Envelope);

/// An outbound envelope of type `error`.
#[derive(Debug)]
pub struct WsError(pub Envelope);

impl WsGraphql {
    /// Wraps an operation's result value into a tagged `data` envelope.
    pub fn from_value(request_id: Option<Vec<u8>>, value: Vec<u8>) -> (r: Self)
        ensures
            r.0@ == (EnvelopeV {
                msg_type: MsgType::Data,
                operation_id: match request_id {
                    Option::Some(v) => Option::Some(v@),
                    Option::None => Option::None,
                },
                payload: Option::Some(value@),
            }),
    {
        WsGraphql(
            Envelope {
                msg_type: MsgType::Data,
                operation_id: request_id,
                payload: Some(value),
            },
        )
    }
}

impl WsError {
    /// Wraps an error value into a tagged `error` envelope.
    pub fn from_value(request_id: Option<Vec<u8>>, value: Vec<u8>) -> (r: Self)
        ensures
            r.0@ == (EnvelopeV {
                msg_type: MsgType::Error,
                operation_id: match request_id {
                    Option::Some(v) => Option::Some(v@),
                    Option::None => Option::None,
                },
                payload: Option::Some(value@),
            }),
    {
        WsError(
            Envelope {
                msg_type: MsgType::Error,
                operation_id: request_id,
                payload: Some(value),
            },
        )
    }

    /// Wraps a plain message into an `error` envelope whose payload is the
    /// message as a quoted, escaped string.
    pub fn from_str(request_id: Option<Vec<u8>>, error: &Vec<u8>) -> (r: Self)
        ensures
            r.0@ == err_env(
                match request_id {
                    Option::Some(v) => Option::Some(v@),
                    Option::None => Option::None,
                },
                error@,
            ),
    {
        let mut payload: Vec<u8> = Vec::new();
        payload.push(QUOTE);
        crate::envelope::push_escaped(&mut payload, error);
        payload.push(QUOTE);
        assert(payload@ =~= seq![QUOTE] + esc(error@) + seq![QUOTE]);
        WsError(
            Envelope {
                msg_type: MsgType::Error,
                operation_id: request_id,
                payload: Some(payload),
            },
        )
    }
}

impl WebSocketSession {
    /// A session for a just-accepted connection: it waits for the registry,
    /// has no live operations, and counts `now` as the last sign of life.
    pub fn new(now: u64) -> (r: Self)
        ensures
            r@ == fresh_session(now as int),
            wf_session(r@),
    {
        let r = WebSocketSession {
            state: SessionState::Connecting,
            id: 0,
            hb: now,
            live_operations: Vec::new(),
        };
        proof {
            assert(r@.live =~= Seq::<Seq<u8>>::empty());
            assert(r@ =~= fresh_session(now as int));
        }
        r
    }

    /// Whether an operation id is live in this session.
    pub fn has_operation(&self, op_id: &Vec<u8>) -> (b: bool)
        ensures
            b == live_contains(self@.live, op_id@),
    {
        let mut i: usize = 0;
        while i < self.live_operations.len()
            invariant
                i <= self.live_operations@.len(),
                forall|j: int| 0 <= j < i ==> self.live_operations@[j]@ != op_id@,
            decreases self.live_operations@.len() - i,
        {
            if crate::envelope::bytes_eq(&self.live_operations[i], op_id) {
                proof {
                    assert(self@.live[i as int] == op_id@);
                }
                return true;
            }
            i = i + 1;
        }
        proof {
            assert forall|k: int| 0 <= k < self@.live.len() implies self@.live[k] != op_id@ by {
                assert(self@.live[k] == self.live_operations@[k]@);
            }
        }
        false
    }

    /// The position of a live operation id, if any.
    fn find_operation(&self, op_id: &Vec<u8>) -> (r: Option<usize>)
        ensures
            match r {
                Option::Some(i) => i < self.live_operations@.len() && find_op(self@.live, op_id@)
                    == i as int,
                Option::None => !live_contains(self@.live, op_id@),
            },
    {
        let mut i: usize = 0;
        while i < self.live_operations.len()
            invariant
                i <= self.live_operations@.len(),
                forall|j: int| 0 <= j < i ==> self@.live[j] != op_id@,
            decreases self.live_operations@.len() - i,
        {
            if crate::envelope::bytes_eq(&self.live_operations[i], op_id) {
                proof {
                    assert(self@.live[i as int] == op_id@);
                    lemma_find_op(self@.live, op_id@);
                    let k = find_op(self@.live, op_id@);
                    if k < i {
                        assert(self@.live[k] != op_id@);
                    }
                    if k > i {
                        assert(self@.live[i as int] != op_id@);
                    }
                }
                return Some(i);
            }
            i = i + 1;
        }
        proof {
            assert forall|k: int| 0 <= k < self@.live.len() implies self@.live[k] != op_id@ by {}
        }
        None
    }

    /// Cancels every live operation: one action each, in order, and the
    /// live set becomes empty. State, id and heartbeat stay.
    fn drain_cancel_actions(&mut self) -> (out: Vec<SessionAction>)
        ensures
            acts_view(out@) == cancels(old(self)@.live),
            final(self)@.live == Seq::<Seq<u8>>::empty(),
            final(self)@.state == old(self)@.state,
            final(self)@.id == old(self)@.id,
            final(self)@.hb == old(self)@.hb,
    {
        let ghost lv = self@.live;
        let mut out: Vec<SessionAction> = Vec::new();
        let mut i: usize = 0;
        proof {
            assert(acts_view(out@) =~= cancels(lv).take(0));
        }
        while i < self.live_operations.len()
            invariant
                i <= self.live_operations@.len(),
                self@.live == lv,
                self@ == old(self)@,
                acts_view(out@) == cancels(lv).take(i as int),
            decreases self.live_operations@.len() - i,
        {
            let id = clone_bytes(&self.live_operations[i]);
            let ghost idv = id@;
            let ghost outp = out@;
            let a = SessionAction::CancelStream { op_id: id };
            let ghost av = a@;
            out.push(a);
            proof {
                assert(av == ActionV::CancelStream { op_id: idv });
                assert(out@ == outp.push(a));
                assert(acts_view(outp).len() == outp.len());
                assert(cancels(lv).len() == lv.len());
                assert(lv.len() == self.live_operations@.len());
                assert(cancels(lv).take(i as int).len() == i);
                assert(outp.len() == i);
                assert forall|k: int| 0 <= k < i + 1 implies acts_view(out@)[k] == cancels(
                    lv,
                ).take(i as int + 1)[k] by {
                    if k < i {
                        assert(out@[k] == outp[k]);
                        assert(acts_view(outp)[k] == cancels(lv).take(i as int)[k]);
                    } else {
                        assert(out@[k] == a);
                        assert(lv[k] == self.live_operations@[k]@);
                    }
                }
                assert(acts_view(out@) =~= cancels(lv).take(i as int + 1));
            }
            i = i + 1;
        }
        proof {
            assert(acts_view(out@) =~= cancels(lv));
        }
        self.live_operations = Vec::new();
        proof {
            assert(self@.live =~= Seq::<Seq<u8>>::empty());
        }
        out
    }
}

impl WebSocketSession {
    /// Handles one event: the session moves to its next state and hands
    /// back, in order, the actions the runtime must perform. This is the
    /// whole protocol: registration, liveness, envelope handling, the
    /// operation lifecycle, stream multiplexing and teardown.
    pub fn handle(&mut self, ev: SessionEvent) -> (out: Vec<SessionAction>)
        requires
            wf_session(old(self)@),
        ensures
            final(self)@ == session_step(old(self)@, ev@).s,
            acts_view(out@) == session_step(old(self)@, ev@).out,
            wf_session(final(self)@),
    {
        proof {
            lemma_step_wf(old(self)@, ev@);
        }
        let ghost s0 = self@;
        let ghost evv = ev@;
        match ev {
            SessionEvent::Registered { id } => {
                if self.state == SessionState::Connecting {
                    self.state = SessionState::Active;
                    self.id = id;
                }
                let out: Vec<SessionAction> = Vec::new();
                proof {
                    assert(self@ =~= session_step(s0, evv).s);
                    assert(acts_view(out@) =~= session_step(s0, evv).out);
                }
                out
            },
            SessionEvent::RegisterFailed => {
                let mut out: Vec<SessionAction> = Vec::new();
                if self.state == SessionState::Connecting {
                    self.state = SessionState::Closed;
                    out.push(SessionAction::CloseConnection);
                }
                proof {
                    assert(self@ =~= session_step(s0, evv).s);
                    assert(acts_view(out@) =~= session_step(s0, evv).out);
                }
                out
            },
            SessionEvent::Ping { data, now } => {
                let mut out: Vec<SessionAction> = Vec::new();
                if self.state == SessionState::Connecting || self.state == SessionState::Active {
                    self.hb = now;
                    out.push(SessionAction::SendPong { data });
                }
                proof {
                    assert(self@ =~= session_step(s0, evv).s);
                    assert(acts_view(out@) =~= session_step(s0, evv).out);
                }
                out
            },
            SessionEvent::Pong { now } => {
                if self.state == SessionState::Connecting || self.state == SessionState::Active {
                    self.hb = now;
                }
                let out: Vec<SessionAction> = Vec::new();
                proof {
                    assert(self@ =~= session_step(s0, evv).s);
                    assert(acts_view(out@) =~= session_step(s0, evv).out);
                }
                out
            },
            SessionEvent::Text { bytes } => {
                let out = self.handle_text(bytes);
                proof {
                    assert(self@ =~= session_step(s0, evv).s);
                    assert(acts_view(out@) =~= session_step(s0, evv).out);
                }
                out
            },
            SessionEvent::Binary => {
                let out: Vec<SessionAction> = Vec::new();
                proof {
                    assert(self@ =~= session_step(s0, evv).s);
                    assert(acts_view(out@) =~= session_step(s0, evv).out);
                }
                out
            },
            SessionEvent::CloseFrame => {
                if self.state == SessionState::Closing || self.state == SessionState::Closed {
                    let out: Vec<SessionAction> = Vec::new();
                    proof {
                        assert(self@ =~= session_step(s0, evv).s);
                        assert(acts_view(out@) =~= session_step(s0, evv).out);
                    }
                    out
                } else {
                    let mut out = self.drain_cancel_actions();
                    self.state = SessionState::Closing;
                    out.push(SessionAction::CloseConnection);
                    proof {
                        assert(self@ =~= session_step(s0, evv).s);
                        assert(acts_view(out@) =~= session_step(s0, evv).out);
                    }
                    out
                }
            },
            SessionEvent::TransportError => {
                if self.state == SessionState::Closing || self.state == SessionState::Closed {
                    let out: Vec<SessionAction> = Vec::new();
                    proof {
                        assert(self@ =~= session_step(s0, evv).s);
                        assert(acts_view(out@) =~= session_step(s0, evv).out);
                    }
                    out
                } else {
                    let mut out = self.drain_cancel_actions();
                    self.state = SessionState::Closing;
                    out.push(SessionAction::CloseConnection);
                    proof {
                        assert(self@ =~= session_step(s0, evv).s);
                        assert(acts_view(out@) =~= session_step(s0, evv).out);
                    }
                    out
                }
            },
            SessionEvent::HeartbeatTick { now } => {
                let mut out: Vec<SessionAction> = Vec::new();
                if self.state == SessionState::Connecting || self.state == SessionState::Active {
                    if now >= self.hb && now - self.hb > CLIENT_TIMEOUT {
                        let mut out2 = self.drain_cancel_actions();
                        self.state = SessionState::Closing;
                        out2.push(SessionAction::Deregister { id: self.id });
                        out2.push(SessionAction::CloseConnection);
                        proof {
                            assert(self@ =~= session_step(s0, evv).s);
                            assert(acts_view(out2@) =~= session_step(s0, evv).out);
                        }
                        return out2;
                    } else {
                        out.push(SessionAction::SendPing);
                    }
                }
                proof {
                    assert(self@ =~= session_step(s0, evv).s);
                    assert(acts_view(out@) =~= session_step(s0, evv).out);
                }
                out
            },
            SessionEvent::StreamItem { op_id, payload, is_error } => {
                let mut out: Vec<SessionAction> = Vec::new();
                if self.state == SessionState::Active && self.has_operation(&op_id) {
                    let t = if is_error {
                        MsgType::Error
                    } else {
                        MsgType::Data
                    };
                    out.push(
                        SessionAction::Send {
                            env: Envelope {
                                msg_type: t,
                                operation_id: Some(op_id),
                                payload: Some(payload),
                            },
                        },
                    );
                }
                proof {
                    assert(self@ =~= session_step(s0, evv).s);
                    assert(acts_view(out@) =~= session_step(s0, evv).out);
                }
                out
            },
            SessionEvent::StreamComplete { op_id } => {
                let out: Vec<SessionAction> = Vec::new();
                if self.state == SessionState::Active {
                    let ghost ov = self.live_operations@;
                    match self.find_operation(&op_id) {
                        Option::Some(i) => {
                            let _removed = self.live_operations.remove(i);
                            proof {
                                lemma_find_op(s0.live, op_id@);
                                lemma_live_view_remove(ov, i as int);
                                assert(self@.live =~= Seq::new(
                                    ov.remove(i as int).len(),
                                    |k: int| ov.remove(i as int)[k]@,
                                ));
                                assert(s0.live =~= Seq::new(ov.len(), |k: int| ov[k]@));
                                assert(self@.live =~= s0.live.remove(i as int));
                                assert(self@ =~= session_step(s0, evv).s);
                            }
                        },
                        Option::None => {},
                    }
                }
                proof {
                    assert(self@ =~= session_step(s0, evv).s);
                    assert(acts_view(out@) =~= session_step(s0, evv).out);
                }
                out
            },
            SessionEvent::Stopping => {
                if self.state == SessionState::Closed {
                    let out: Vec<SessionAction> = Vec::new();
                    proof {
                        assert(self@ =~= session_step(s0, evv).s);
                        assert(acts_view(out@) =~= session_step(s0, evv).out);
                    }
                    out
                } else {
                    let mut out = self.drain_cancel_actions();
                    self.state = SessionState::Closed;
                    out.push(SessionAction::Deregister { id: self.id });
                    proof {
                        assert(self@ =~= session_step(s0, evv).s);
                        assert(acts_view(out@) =~= session_step(s0, evv).out);
                    }
                    out
                }
            },
        }
    }

}

impl WebSocketSession {
    /// Handles one inbound text frame in the steady state.
    fn handle_text(&mut self, bytes: Vec<u8>) -> (out: Vec<SessionAction>)
        requires
            wf_session(old(self)@),
        ensures
            final(self)@ == session_step(old(self)@, EventV::Text { bytes: bytes@ }).s,
            acts_view(out@) == session_step(old(self)@, EventV::Text { bytes: bytes@ }).out,
    {
        let ghost s0 = self@;
        let ghost evv = EventV::Text { bytes: bytes@ };
        if !(self.state == SessionState::Active) {
            let out: Vec<SessionAction> = Vec::new();
            proof {
                assert(self@ =~= session_step(s0, evv).s);
                assert(acts_view(out@) =~= session_step(s0, evv).out);
            }
            return out;
        }
        match decode(&bytes) {
            Option::None => {
                let m = bad_envelope_vec();
                let e = WsError::from_str(None, &m);
                let mut out: Vec<SessionAction> = Vec::new();
                out.push(SessionAction::Send { env: e.0 });
                proof {
                    assert(self@ =~= session_step(s0, evv).s);
                    assert(acts_view(out@) =~= session_step(s0, evv).out);
                }
                out
            },
            Option::Some(env) => {
                let ghost envv = env@;
                proof {
                    assert(dec_envelope(bytes@) == Option::Some(envv));
                    assert(wf_envelope(envv));
                }
                let Envelope { msg_type, operation_id, payload } = env;
                match msg_type {
                    MsgType::ConnectionInit => {
                        let out: Vec<SessionAction> = Vec::new();
                        proof {
                            assert(self@ =~= session_step(s0, evv).s);
                            assert(acts_view(out@) =~= session_step(s0, evv).out);
                        }
                        out
                    },
                    MsgType::Start => {
                        let oid = match operation_id {
                            Option::Some(o) => o,
                            Option::None => {
                                proof {
                                    assert(false);
                                }
                                return Vec::new();
                            },
                        };
                        let p = match payload {
                            Option::Some(p) => p,
                            Option::None => {
                                proof {
                                    assert(false);
                                }
                                return Vec::new();
                            },
                        };
                        let mut out: Vec<SessionAction> = Vec::new();
                        if self.has_operation(&oid) {
                            let m = duplicate_id_vec();
                            let e = WsError::from_str(Some(oid), &m);
                            out.push(SessionAction::Send { env: e.0 });
                        } else {
                            match parse_request(&p) {
                                Option::None => {
                                    let m = bad_payload_vec();
                                    let e = WsError::from_str(Some(oid), &m);
                                    out.push(SessionAction::Send { env: e.0 });
                                },
                                Option::Some(req) => {
                                    let oid2 = clone_bytes(&oid);
                                    self.live_operations.push(oid2);
                                    proof {
                                        assert(self@.live =~= s0.live.push(oid@));
                                    }
                                    out.push(
                                        SessionAction::StartStream { op_id: oid, request: req },
                                    );
                                },
                            }
                        }
                        proof {
                            assert(self@ =~= session_step(s0, evv).s);
                            assert(acts_view(out@) =~= session_step(s0, evv).out);
                        }
                        out
                    },
                    MsgType::Stop => {
                        let oid = match operation_id {
                            Option::Some(o) => o,
                            Option::None => {
                                proof {
                                    assert(false);
                                }
                                return Vec::new();
                            },
                        };
                        let mut out: Vec<SessionAction> = Vec::new();
                        let ghost ov = self.live_operations@;
                        match self.find_operation(&oid) {
                            Option::Some(i) => {
                                let _removed = self.live_operations.remove(i);
                                proof {
                                    lemma_find_op(s0.live, oid@);
                                    lemma_live_view_remove(ov, i as int);
                                    assert(self@.live =~= Seq::new(
                                        ov.remove(i as int).len(),
                                        |k: int| ov.remove(i as int)[k]@,
                                    ));
                                    assert(s0.live =~= Seq::new(ov.len(), |k: int| ov[k]@));
                                    assert(self@.live =~= s0.live.remove(i as int));
                                }
                                out.push(SessionAction::CancelStream { op_id: oid });
                            },
                            Option::None => {},
                        }
                        proof {
                            assert(self@ =~= session_step(s0, evv).s);
                            assert(acts_view(out@) =~= session_step(s0, evv).out);
                        }
                        out
                    },
                    MsgType::Data => {
                        let m = unexpected_type_vec();
                        let e = WsError::from_str(operation_id, &m);
                        let mut out: Vec<SessionAction> = Vec::new();
                        out.push(SessionAction::Send { env: e.0 });
                        proof {
                            assert(self@ =~= session_step(s0, evv).s);
                            assert(acts_view(out@) =~= session_step(s0, evv).out);
                        }
                        out
                    },
                    MsgType::Error => {
                        let m = unexpected_type_vec();
                        let e = WsError::from_str(operation_id, &m);
                        let mut out: Vec<SessionAction> = Vec::new();
                        out.push(SessionAction::Send { env: e.0 });
                        proof {
                            assert(self@ =~= session_step(s0, evv).s);
                            assert(acts_view(out@) =~= session_step(s0, evv).out);
                        }
                        out
                    },
                }
            },
        }
    }
}

impl WebSocketSession {
    /// The body of one tick of the heartbeat monitor: past the timeout the
    /// session deregisters, cancels every live operation and releases the
    /// connection without sending a final probe; otherwise it sends a probe.
    pub fn hb(&mut self, now: u64) -> (out: Vec<SessionAction>)
        requires
            wf_session(old(self)@),
        ensures
            final(self)@ == session_step(old(self)@, EventV::HeartbeatTick { now: now as int }).s,
            acts_view(out@) == session_step(
                old(self)@,
                EventV::HeartbeatTick { now: now as int },
            ).out,
            wf_session(final(self)@),
    {
        self.handle(SessionEvent::HeartbeatTick { now })
    }

    /// Teardown: whatever remains live is cancelled and the registry is
    /// told this session is gone. The session ends `Closed`; tearing down
    /// twice does nothing the second time.
    pub fn stopping(&mut self) -> (out: Vec<SessionAction>)
        requires
            wf_session(old(self)@),
        ensures
            final(self)@ == session_step(old(self)@, EventV::Stopping).s,
            acts_view(out@) == session_step(old(self)@, EventV::Stopping).out,
            wf_session(final(self)@),
    {
        self.handle(SessionEvent::Stopping)
    }
}

/// The session state after a sequence of events.
pub open spec fn run(s: SessionV, evs: Seq<EventV>) -> SessionV
    decreases evs.len(),
{
    if evs.len() == 0 {
        s
    } else {
        run(session_step(s, evs[0]).s, evs.skip(1))
    }
}

/// The actions of a whole run, in emission order.
pub open spec fn run_out(s: SessionV, evs: Seq<EventV>) -> Seq<ActionV>
    decreases evs.len(),
{
    if evs.len() == 0 {
        Seq::empty()
    } else {
        session_step(s, evs[0]).out + run_out(session_step(s, evs[0]).s, evs.skip(1))
    }
}

/// Law: emission is first-in first-out: running two event sequences back to
/// back emits the first sequence's actions, in order, followed by the
/// second's. In particular the envelopes of one operation keep their
/// produced order on the wire, whatever is interleaved between them.
pub proof fn lemma_run_out_append(s: SessionV, evs1: Seq<EventV>, evs2: Seq<EventV>)
    ensures
        run(s, evs1 + evs2) == run(run(s, evs1), evs2),
        run_out(s, evs1 + evs2) == run_out(s, evs1) + run_out(run(s, evs1), evs2),
    decreases evs1.len(),
{
    if evs1.len() == 0 {
        assert(evs1 + evs2 =~= evs2);
        assert(run_out(s, evs1) + run_out(run(s, evs1), evs2) =~= run_out(s, evs2));
    } else {
        let s1 = session_step(s, evs1[0]).s;
        assert((evs1 + evs2)[0] == evs1[0]);
        assert((evs1 + evs2).skip(1) =~= evs1.skip(1) + evs2);
        lemma_run_out_append(s1, evs1.skip(1), evs2);
        assert(session_step(s, evs1[0]).out + (run_out(s1, evs1.skip(1)) + run_out(
            run(s1, evs1.skip(1)),
            evs2,
        )) =~= (session_step(s, evs1[0]).out + run_out(s1, evs1.skip(1))) + run_out(
            run(s1, evs1.skip(1)),
            evs2,
        ));
    }
}

/// Whether an event is a `start` of operation `x`: a text frame that
/// decodes to a `start` envelope naming `x`.
pub open spec fn is_start_of(ev: EventV, x: Seq<u8>) -> bool {
    match ev {
        EventV::Text { bytes } => match dec_envelope(bytes) {
            Option::Some(e) => e.msg_type == MsgType::Start && e.operation_id == Option::Some(x),
            Option::None => false,
        },
        _ => false,
    }
}

/// Whether an event is a `stop` of operation `x`: a text frame that decodes
/// to a `stop` envelope naming `x`.
pub open spec fn is_stop_of(ev: EventV, x: Seq<u8>) -> bool {
    match ev {
        EventV::Text { bytes } => match dec_envelope(bytes) {
            Option::Some(e) => e.msg_type == MsgType::Stop && e.operation_id == Option::Some(x),
            Option::None => false,
        },
        _ => false,
    }
}

/// Whether an event is the completion of operation `x`'s stream.
pub open spec fn is_completion_of(ev: EventV, x: Seq<u8>) -> bool {
    ev matches EventV::StreamComplete { op_id } && op_id == x
}

/// Law: as long as the session stays in its steady state, a live id stays
/// live through every event that neither stops nor completes it.
pub proof fn lemma_step_keeps_live(s: SessionV, ev: EventV, x: Seq<u8>)
    requires
        wf_session(s),
        live_contains(s.live, x),
        !is_stop_of(ev, x),
        !is_completion_of(ev, x),
        session_step(s, ev).s.state == SessionState::Active,
    ensures
        live_contains(session_step(s, ev).s.live, x),
{
    let l2 = session_step(s, ev).s.live;
    match ev {
        EventV::Text { bytes } => {
            match dec_envelope(bytes) {
                Option::Some(e) => {
                    if e.msg_type == MsgType::Start {
                        let oid = e.operation_id.unwrap();
                        if !live_contains(s.live, oid) && dec_request(e.payload.unwrap())
                            is Some {
                            let k = choose|k: int| 0 <= k < s.live.len() && s.live[k] == x;
                            assert(l2[k] == x);
                        }
                    } else if e.msg_type == MsgType::Stop {
                        let oid = e.operation_id.unwrap();
                        if live_contains(s.live, oid) {
                            assert(wf_envelope(e));
                            assert(oid != x);
                            lemma_remove_live(s.live, oid);
                        }
                    }
                },
                Option::None => {},
            }
        },
        EventV::StreamComplete { op_id } => {
            if live_contains(s.live, op_id) {
                assert(op_id != x);
                lemma_remove_live(s.live, op_id);
            }
        },
        _ => {},
    }
}

/// One step makes an id live only through a `start` that names it.
pub proof fn lemma_step_not_live(s: SessionV, ev: EventV, x: Seq<u8>)
    requires
        !live_contains(s.live, x),
        !is_start_of(ev, x),
    ensures
        !live_contains(session_step(s, ev).s.live, x),
{
    let l2 = session_step(s, ev).s.live;
    match ev {
        EventV::Text { bytes } => {
            if s.state == SessionState::Active {
                match dec_envelope(bytes) {
                    Option::Some(e) => {
                        if e.msg_type == MsgType::Start {
                            let oid = e.operation_id.unwrap();
                            if !live_contains(s.live, oid) && dec_request(e.payload.unwrap())
                                is Some {
                                assert(wf_envelope(e));
                                assert(e.operation_id == Option::Some(oid));
                                assert(oid != x);
                                assert forall|k: int| 0 <= k < l2.len() implies l2[k] != x by {
                                    if k < s.live.len() {
                                        assert(l2[k] == s.live[k]);
                                    } else {
                                        assert(l2[k] == oid);
                                    }
                                }
                            }
                        } else if e.msg_type == MsgType::Stop {
                            let oid = e.operation_id.unwrap();
                            if live_contains(s.live, oid) {
                                lemma_find_op(s.live, oid);
                                s.live.remove_ensures(find_op(s.live, oid));
                                assert forall|k: int| 0 <= k < l2.len() implies l2[k] != x by {
                                    if k < find_op(s.live, oid) {
                                        assert(l2[k] == s.live[k]);
                                    } else {
                                        assert(l2[k] == s.live[k + 1]);
                                    }
                                }
                            }
                        }
                    },
                    Option::None => {},
                }
            }
        },
        EventV::StreamComplete { op_id } => {
            if s.state == SessionState::Active && live_contains(s.live, op_id) {
                lemma_find_op(s.live, op_id);
                s.live.remove_ensures(find_op(s.live, op_id));
                assert forall|k: int| 0 <= k < l2.len() implies l2[k] != x by {
                    if k < find_op(s.live, op_id) {
                        assert(l2[k] == s.live[k]);
                    } else {
                        assert(l2[k] == s.live[k + 1]);
                    }
                }
            }
        },
        _ => {},
    }
}

/// Law: only a `start` makes an id live. An id that is not live stays dead
/// through any events among which none starts it; so every live id was
/// started and not yet stopped or completed.
pub proof fn lemma_never_started_never_live(s: SessionV, evs: Seq<EventV>, x: Seq<u8>)
    requires
        !live_contains(s.live, x),
        forall|i: int| 0 <= i < evs.len() ==> !is_start_of(#[trigger] evs[i], x),
    ensures
        !live_contains(run(s, evs).live, x),
    decreases evs.len(),
{
    if evs.len() > 0 {
        let s1 = session_step(s, evs[0]).s;
        lemma_step_not_live(s, evs[0], x);
        assert forall|i: int| 0 <= i < evs.skip(1).len() implies !is_start_of(
            #[trigger] evs.skip(1)[i],
            x,
        ) by {
            assert(evs.skip(1)[i] == evs[i + 1]);
        }
        lemma_never_started_never_live(s1, evs.skip(1), x);
    }
}

/// Law: a stream item is forwarded only under a live id. For an id that is
/// live, exactly one envelope is emitted — `data` for a result, `error` for
/// an error item, tagged with that id — and the session does not change;
/// for an id that was never started, was stopped, or has completed, nothing
/// is emitted at all.
pub proof fn lemma_stream_item_emission(
    s: SessionV,
    op_id: Seq<u8>,
    payload: Seq<u8>,
    is_error: bool,
)
    ensures
        ({
            let st = session_step(s, EventV::StreamItem { op_id, payload, is_error });
            &&& st.s == s
            &&& (s.state == SessionState::Active && live_contains(s.live, op_id) ==> st.out
                =~= seq![
                ActionV::Send {
                    env: EnvelopeV {
                        msg_type: if is_error {
                            MsgType::Error
                        } else {
                            MsgType::Data
                        },
                        operation_id: Option::Some(op_id),
                        payload: Option::Some(payload),
                    },
                },
            ])
            &&& (!(s.state == SessionState::Active && live_contains(s.live, op_id)) ==> st.out
                =~= Seq::<ActionV>::empty())
        }),
{
}

/// Law: whatever the event, a `data` envelope is emitted only while the
/// session is in its steady state and only for a stream item of an id that
/// is live — started and neither stopped nor completed — and it carries that
/// id and that item.
pub proof fn lemma_data_emission_only_live(s: SessionV, ev: EventV, env: EnvelopeV)
    requires
        session_step(s, ev).out.contains(ActionV::Send { env }),
        env.msg_type == MsgType::Data,
    ensures
        s.state == SessionState::Active,
        env.operation_id is Some,
        live_contains(s.live, env.operation_id.unwrap()),
        ev matches EventV::StreamItem { op_id, payload, is_error } && env.operation_id
            == Option::Some(op_id) && env.payload == Option::Some(payload) && !is_error,
{
    let out = session_step(s, ev).out;
    let i = choose|i: int| 0 <= i < out.len() && out[i] == (ActionV::Send { env });
    match ev {
        EventV::Text { bytes } => {
            match dec_envelope(bytes) {
                Option::Some(e) => {
                    assert(out[i] == (ActionV::Send { env }));
                },
                Option::None => {
                    assert(out[i] == (ActionV::Send { env }));
                },
            }
        },
        _ => {
            assert(out[i] == (ActionV::Send { env }));
        },
    }
}

/// Law: after a `stop` of an id, and as long as no new `start` names that
/// id again, a late item of its stream produces no envelope.
pub proof fn lemma_no_emission_after_stop(
    s: SessionV,
    bytes: Seq<u8>,
    e: EnvelopeV,
    evs: Seq<EventV>,
    payload: Seq<u8>,
    is_error: bool,
)
    requires
        wf_session(s),
        s.state == SessionState::Active,
        dec_envelope(bytes) == Option::Some(e),
        e.msg_type == MsgType::Stop,
        forall|i: int| 0 <= i < evs.len() ==> !is_start_of(
            #[trigger] evs[i],
            e.operation_id.unwrap(),
        ),
    ensures
        ({
            let s1 = session_step(s, EventV::Text { bytes }).s;
            let s2 = run(s1, evs);
            session_step(
                s2,
                EventV::StreamItem { op_id: e.operation_id.unwrap(), payload, is_error },
            ).out =~= Seq::<ActionV>::empty()
        }),
{
    let x = e.operation_id.unwrap();
    let s1 = session_step(s, EventV::Text { bytes }).s;
    if live_contains(s.live, x) {
        lemma_remove_live(s.live, x);
    }
    assert(!live_contains(s1.live, x));
    lemma_never_started_never_live(s1, evs, x);
    lemma_stream_item_emission(run(s1, evs), x, payload, is_error);
}

/// The payloads of the envelopes tagged with one operation id, in emission
/// order.
pub open spec fn payloads_for(out: Seq<ActionV>, x: Seq<u8>) -> Seq<Seq<u8>>
    decreases out.len(),
{
    if out.len() == 0 {
        Seq::empty()
    } else {
        let rest = payloads_for(out.skip(1), x);
        match out[0] {
            ActionV::Send { env } => if env.operation_id == Option::Some(x) && env.payload
                is Some {
                seq![env.payload.unwrap()] + rest
            } else {
                rest
            },
            _ => rest,
        }
    }
}

/// One stream item event per produced item, in produced order.
pub open spec fn item_events(items: Seq<(Seq<u8>, Seq<u8>)>) -> Seq<EventV> {
    Seq::new(
        items.len(),
        |i: int| EventV::StreamItem { op_id: items[i].0, payload: items[i].1, is_error: false },
    )
}

/// The payloads among the produced items that belong to one operation id,
/// in produced order.
pub open spec fn payloads_of(items: Seq<(Seq<u8>, Seq<u8>)>, x: Seq<u8>) -> Seq<Seq<u8>>
    decreases items.len(),
{
    if items.len() == 0 {
        Seq::empty()
    } else if items[0].0 == x {
        seq![items[0].1] + payloads_of(items.skip(1), x)
    } else {
        payloads_of(items.skip(1), x)
    }
}

/// Law: multiplexing keeps each operation's own order. When the items of
/// many streams arrive interleaved, the envelopes put on the wire for one
/// live operation carry exactly that operation's payloads, in the order its
/// stream produced them — whatever stands between them.
pub proof fn lemma_per_operation_order(s: SessionV, items: Seq<(Seq<u8>, Seq<u8>)>, x: Seq<u8>)
    requires
        s.state == SessionState::Active,
        live_contains(s.live, x),
    ensures
        run(s, item_events(items)) == s,
        payloads_for(run_out(s, item_events(items)), x) == payloads_of(items, x),
    decreases items.len(),
{
    let evs = item_events(items);
    if items.len() == 0 {
        assert(evs.len() == 0);
        assert(payloads_for(run_out(s, evs), x) =~= payloads_of(items, x));
    } else {
        let ev0 = evs[0];
        let st = session_step(s, ev0);
        assert(st.s == s);
        lemma_per_operation_order(s, items.skip(1), x);
        assert(evs.skip(1) =~= item_events(items.skip(1)));
        let rest = run_out(s, evs.skip(1));
        assert(run_out(s, evs) == st.out + rest);
        if live_contains(s.live, items[0].0) {
            let env = EnvelopeV {
                msg_type: MsgType::Data,
                operation_id: Option::Some(items[0].0),
                payload: Option::Some(items[0].1),
            };
            assert(st.out =~= seq![ActionV::Send { env }]);
            let whole = st.out + rest;
            assert(whole[0] == ActionV::Send { env });
            assert(whole.skip(1) =~= rest);
            if items[0].0 == x {
                assert(payloads_for(whole, x) =~= seq![items[0].1] + payloads_for(rest, x));
                assert(payloads_for(whole, x) =~= payloads_of(items, x));
            } else {
                assert(payloads_for(whole, x) == payloads_for(rest, x));
            }
        } else {
            assert(items[0].0 != x);
            assert(st.out =~= Seq::<ActionV>::empty());
            assert(st.out + rest =~= rest);
        }
    }
}

/// Law: a second `start` under a live id yields exactly one `error`
/// envelope naming that id and disturbs nothing: state and live set are
/// untouched, no stream is cancelled and none is started, so the first
/// operation keeps producing.
pub proof fn lemma_duplicate_start(s: SessionV, bytes: Seq<u8>, e: EnvelopeV)
    requires
        s.state == SessionState::Active,
        dec_envelope(bytes) == Option::Some(e),
        e.msg_type == MsgType::Start,
        live_contains(s.live, e.operation_id.unwrap()),
    ensures
        session_step(s, EventV::Text { bytes }).s == s,
        session_step(s, EventV::Text { bytes }).out =~= seq![
            ActionV::Send { env: err_env(e.operation_id, duplicate_id_msg()) },
        ],
{
    assert(wf_envelope(e));
}

/// Law: stopping an unknown or already-completed id is a no-op: nothing is
/// emitted and the session stays as it is, `Active` included.
pub proof fn lemma_stop_unknown(s: SessionV, bytes: Seq<u8>, e: EnvelopeV)
    requires
        s.state == SessionState::Active,
        dec_envelope(bytes) == Option::Some(e),
        e.msg_type == MsgType::Stop,
        !live_contains(s.live, e.operation_id.unwrap()),
    ensures
        session_step(s, EventV::Text { bytes }).s == s,
        session_step(s, EventV::Text { bytes }).out =~= Seq::<ActionV>::empty(),
{
}

/// Law: at a heartbeat tick past the timeout the session leaves the steady
/// state, cancels every live operation, deregisters from the registry and
/// releases the connection — all in this one tick.
pub proof fn lemma_heartbeat_timeout(s: SessionV, now: int)
    requires
        wf_session(s),
        s.state == SessionState::Active,
        now - s.hb > CLIENT_TIMEOUT,
    ensures
        ({
            let st = session_step(s, EventV::HeartbeatTick { now });
            &&& st.s.state == SessionState::Closing
            &&& st.s.live.len() == 0
            &&& st.out == cancels(s.live) + seq![
                ActionV::Deregister { id: s.id },
                ActionV::CloseConnection,
            ]
            &&& forall|x: Seq<u8>| live_contains(s.live, x) ==> st.out.contains(
                ActionV::CancelStream { op_id: x },
            )
        }),
{
    let st = session_step(s, EventV::HeartbeatTick { now });
    assert forall|x: Seq<u8>| live_contains(s.live, x) implies st.out.contains(
        ActionV::CancelStream { op_id: x },
    ) by {
        let k = choose|k: int| 0 <= k < s.live.len() && s.live[k] == x;
        assert(cancels(s.live)[k] == ActionV::CancelStream { op_id: x });
        assert(st.out[k] == cancels(s.live)[k]);
    }
}

/// Law: a `start` whose payload is malformed yields exactly one `error`
/// envelope naming the supplied id; the session stays `Active` and the live
/// set is unchanged.
pub proof fn lemma_malformed_start(s: SessionV, bytes: Seq<u8>, e: EnvelopeV)
    requires
        s.state == SessionState::Active,
        dec_envelope(bytes) == Option::Some(e),
        e.msg_type == MsgType::Start,
        !live_contains(s.live, e.operation_id.unwrap()),
        dec_request(e.payload.unwrap()) is None,
    ensures
        session_step(s, EventV::Text { bytes }).s == s,
        session_step(s, EventV::Text { bytes }).out =~= seq![
            ActionV::Send { env: err_env(e.operation_id, bad_payload_msg()) },
        ],
{
    assert(wf_envelope(e));
}

/// Law: a text frame that is no envelope at all yields exactly one `error`
/// envelope carrying no id; the session stays as it is and is never
/// terminated by malformed input.
pub proof fn lemma_malformed_envelope(s: SessionV, bytes: Seq<u8>)
    requires
        s.state == SessionState::Active,
        dec_envelope(bytes) is None,
    ensures
        session_step(s, EventV::Text { bytes }).s == s,
        session_step(s, EventV::Text { bytes }).out =~= seq![
            ActionV::Send { env: err_env(Option::None, bad_envelope_msg()) },
        ],
{
}

/// Removing an entry of a vector of byte strings removes the same entry of
/// its sequence of values.
proof fn lemma_live_view_remove(ov: Seq<Vec<u8>>, i: int)
    requires
        0 <= i < ov.len(),
    ensures
        Seq::new(ov.remove(i).len(), |k: int| ov.remove(i)[k]@) =~= Seq::new(
            ov.len(),
            |k: int| ov[k]@,
        ).remove(i),
{
    let nv = ov.remove(i);
    let lv = Seq::new(ov.len(), |k: int| ov[k]@);
    ov.remove_ensures(i);
    lv.remove_ensures(i);
    assert forall|k: int| 0 <= k < nv.len() implies Seq::new(nv.len(), |q: int| nv[q]@)[k]
        == lv.remove(i)[k] by {
        if k < i {
            assert(nv[k] == ov[k]);
            assert(lv.remove(i)[k] == lv[k]);
        } else {
            assert(nv[k] == ov[k + 1]);
            assert(lv.remove(i)[k] == lv[k + 1]);
        }
    }
}

impl Envelope {
    /// Parses the payload into an operation request. A missing or malformed
    /// payload becomes the `error` envelope the session sends back, tagged
    /// with this envelope's operation id.
    pub fn to_graphql_request(self) -> (r: Result<GraphqlRequest, WsError>)
        ensures
            match r {
                Result::Ok(req) => self@.payload is Some && dec_request(self@.payload.unwrap())
                    == Option::Some(req@),
                Result::Err(e) => (self@.payload is None || dec_request(
                    self@.payload.unwrap(),
                ) is None) && e.0@ == err_env(self@.operation_id, bad_payload_msg()),
            },
    {
        let id = self.operation_id;
        match &self.payload {
            Option::Some(p) => match parse_request(p) {
                Option::Some(req) => Ok(req),
                Option::None => {
                    let m = bad_payload_vec();
                    Err(WsError::from_str(id, &m))
                },
            },
            Option::None => {
                let m = bad_payload_vec();
                Err(WsError::from_str(id, &m))
            },
        }
    }
}

impl From<WsGraphql> for Envelope {
    fn from(w: WsGraphql) -> (r: Envelope) {
        w.0
    }
}

impl vstd::std_specs::convert::FromSpecImpl<WsGraphql> for Envelope {
    open spec fn obeys_from_spec() -> bool {
        true
    }

    open spec fn from_spec(w: WsGraphql) -> Envelope {
        w.0
    }
}

impl From<WsError> for Envelope {
    fn from(w: WsError) -> (r: Envelope) {
        w.0
    }
}

impl vstd::std_specs::convert::FromSpecImpl<WsError> for Envelope {
    open spec fn obeys_from_spec() -> bool {
        true
    }

    open spec fn from_spec(w: WsError) -> Envelope {
        w.0
    }
}

} // verus!
