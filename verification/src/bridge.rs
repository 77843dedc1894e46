//! The request/response correlation layer.
//!
//! The bridge owns the connection flag and the request-id counter, and
//! decides, for every inbound transport event, whether a waiting call is
//! resolved, failed, or must keep waiting. The asynchronous socket itself is
//! driven outside; it hands the bridge plain events and takes plain wire
//! texts back.
use vstd::prelude::*;

use crate::msg::{
    error_or_unknown, parse_response_text, payload_or_empty, request_text, IpcRequest,
    RequestModel,
};
use crate::json::is_json_value_text;
use crate::text::dec_rep;

verus! {

// ---------------------------------------------------------------------------
// Errors
// ---------------------------------------------------------------------------

/// Why a call failed.
#[derive(Debug)]
pub enum RpcError {
    /// No live session: the call was refused before anything was sent.
    NotConnected,
    /// The remote side closed the stream while the call was waiting.
    ConnectionClosed,
    /// An I/O or decode failure on the stream, with its description.
    Transport(String),
    /// The stream ended without a matching response.
    NoResponse,
    /// The engine answered the request and reported failure.
    Remote(String),
}

/// Mathematical content of an error.
pub enum ErrModel {
    NotConnected,
    ConnectionClosed,
    Transport(Seq<char>),
    NoResponse,
    Remote(Seq<char>),
}

impl View for RpcError {
    type V = ErrModel;

    open spec fn view(&self) -> ErrModel {
        match self {
            RpcError::NotConnected => ErrModel::NotConnected,
            RpcError::ConnectionClosed => ErrModel::ConnectionClosed,
            RpcError::Transport(m) => ErrModel::Transport(m@),
            RpcError::NoResponse => ErrModel::NoResponse,
            RpcError::Remote(m) => ErrModel::Remote(m@),
        }
    }
}

/// The message a caller sees for each error.
pub open spec fn error_message(e: ErrModel) -> Seq<char> {
    match e {
        ErrModel::NotConnected => ("Not connected")@,
        ErrModel::ConnectionClosed => ("Connection closed")@,
        ErrModel::Transport(m) => m,
        ErrModel::NoResponse => ("No response received")@,
        ErrModel::Remote(m) => m,
    }
}

impl RpcError {
    /// Render the error as its caller-facing message.
    pub fn message(&self) -> (r: String)
        ensures
            r@ == error_message(self@),
    {
        match self {
            RpcError::NotConnected => String::from_str("Not connected"),
            RpcError::ConnectionClosed => String::from_str("Connection closed"),
            RpcError::Transport(m) => m.clone(),
            RpcError::NoResponse => String::from_str("No response received"),
            RpcError::Remote(m) => m.clone(),
        }
    }
}

/// A call result as the specification sees it.
pub open spec fn result_view(r: Result<String, RpcError>) -> Result<Seq<char>, ErrModel> {
    match r {
        Ok(s) => Ok(s@),
        Err(e) => Err(e@),
    }
}

// ---------------------------------------------------------------------------
// Inbound events and the per-event decision
// ---------------------------------------------------------------------------

/// One event handed in from the transport's read side.
pub enum InboundEvent {
    /// A text frame arrived.
    Text(String),
    /// The stream was closed by the remote side.
    Closed,
    /// Reading failed, with the transport's description.
    ReadError(String),
    /// A frame of no interest to the protocol (ping, pong, binary).
    Other,
}

/// Mathematical content of an inbound event.
pub enum EventModel {
    Text(Seq<char>),
    Closed,
    ReadError(Seq<char>),
    Other,
}

impl View for InboundEvent {
    type V = EventModel;

    open spec fn view(&self) -> EventModel {
        match self {
            InboundEvent::Text(t) => EventModel::Text(t@),
            InboundEvent::Closed => EventModel::Closed,
            InboundEvent::ReadError(m) => EventModel::ReadError(m@),
            InboundEvent::Other => EventModel::Other,
        }
    }
}

/// What one inbound event does to a call waiting for the given id.
pub enum StepModel {
    /// The event does not concern this call; keep waiting.
    Progress,
    /// The call is over, successfully or not.
    Finished(Result<Seq<char>, ErrModel>),
}

/// The decision rule, one event at a time: a text that decodes to a response
/// bearing the awaited id finishes the call with its payload or its reported
/// error; a decodable text with any other id is discarded; an undecodable
/// text is a transport failure; a close finishes the call as closed; a read
/// error is a transport failure; anything else is ignored.
pub open spec fn step_of(id: Seq<char>, ev: EventModel) -> StepModel {
    match ev {
        EventModel::Text(t) => match parse_response_text(t) {
            Some(resp) => {
                if resp.id == id {
                    if resp.success {
                        StepModel::Finished(Ok(payload_or_empty(resp.data)))
                    } else {
                        StepModel::Finished(Err(ErrModel::Remote(error_or_unknown(resp.error))))
                    }
                } else {
                    StepModel::Progress
                }
            },
            None => StepModel::Finished(Err(ErrModel::Transport(("Malformed response")@))),
        },
        EventModel::Closed => StepModel::Finished(Err(ErrModel::ConnectionClosed)),
        EventModel::ReadError(m) => StepModel::Finished(
            Err(ErrModel::Transport(("WebSocket error: ")@ + m)),
        ),
        EventModel::Other => StepModel::Progress,
    }
}

/// Run the decision rule over a whole inbound sequence: the first finishing
/// event decides the call; a stream that ends first yields `NoResponse`.
pub open spec fn correlate_spec(id: Seq<char>, evs: Seq<EventModel>) -> Result<
    Seq<char>,
    ErrModel,
>
    decreases evs.len(),
{
    if evs.len() == 0 {
        Err(ErrModel::NoResponse)
    } else {
        match step_of(id, evs[0]) {
            StepModel::Finished(r) => r,
            StepModel::Progress => correlate_spec(id, evs.drop_first()),
        }
    }
}

/// The inbound sequence as the specification sees it.
pub open spec fn events_view(evs: Seq<InboundEvent>) -> Seq<EventModel> {
    evs.map_values(|e: InboundEvent| e@)
}

/// Executable counterpart of `StepModel`.
pub enum Step {
    Progress,
    Finished(Result<String, RpcError>),
}

impl View for Step {
    type V = StepModel;

    open spec fn view(&self) -> StepModel {
        match self {
            Step::Progress => StepModel::Progress,
            Step::Finished(r) => StepModel::Finished(result_view(*r)),
        }
    }
}

/// Decide what one inbound event means for the call awaiting `id`.
pub fn process_inbound(id: &String, ev: &InboundEvent) -> (r: Step)
    ensures
        r@ == step_of(id@, ev@),
{
    match ev {
        InboundEvent::Text(t) => {
            match crate::msg::parse_response(t.as_str()) {
                Some(resp) => {
                    if resp.id.eq(id) {
                        if resp.success {
                            Step::Finished(Ok(resp.payload()))
                        } else {
                            Step::Finished(Err(RpcError::Remote(resp.failure_message())))
                        }
                    } else {
                        Step::Progress
                    }
                },
                None => Step::Finished(
                    Err(RpcError::Transport(String::from_str("Malformed response"))),
                ),
            }
        },
        InboundEvent::Closed => Step::Finished(Err(RpcError::ConnectionClosed)),
        InboundEvent::ReadError(m) => {
            let mut text = String::from_str("WebSocket error: ");
            text.append(m.as_str());
            Step::Finished(Err(RpcError::Transport(text)))
        },
        InboundEvent::Other => Step::Progress,
    }
}

/// Resolve a call awaiting `id` against a whole inbound sequence.
pub fn correlate(id: &String, events: &Vec<InboundEvent>) -> (r: Result<String, RpcError>)
    ensures
        result_view(r) == correlate_spec(id@, events_view(events@)),
{
    let ghost all = events_view(events@);
    let mut k: usize = 0;
    proof {
        assert(all.skip(0) =~= all);
    }
    while k < events.len()
        invariant
            all == events_view(events@),
            k <= events@.len(),
            correlate_spec(id@, all) == correlate_spec(id@, all.skip(k as int)),
            forall|j: int| 0 <= j < k ==> step_of(id@, all[j]) == StepModel::Progress,
        decreases events@.len() - k,
    {
        proof {
            assert(all.skip(k as int)[0] == all[k as int]);
            assert(all[k as int] == events@[k as int]@);
            assert(all.skip(k as int).drop_first() =~= all.skip(k as int + 1));
        }
        match process_inbound(id, &events[k]) {
            Step::Finished(r) => {
                return r;
            },
            Step::Progress => {},
        }
        k = k + 1;
    }
    proof {
        assert(all.skip(events@.len() as int) =~= Seq::<EventModel>::empty());
    }
    Err(RpcError::NoResponse)
}

// ---------------------------------------------------------------------------
// The bridge and its state machine
// ---------------------------------------------------------------------------

/// Mathematical state of the bridge: the connection flag, the next request
/// id, and how many sessions have ever been established (the current
/// session's identity, when connected).
pub struct BridgeModel {
    pub connected: bool,
    pub next_id: int,
    pub epoch: int,
}

/// The operations that change the bridge's state.
pub enum BridgeOp {
    /// Tear down whatever session exists, ahead of establishing a new one.
    StartConnect,
    /// Record the outcome of establishing a session.
    FinishConnect(bool),
    /// Drop the session if there is one.
    Disconnect,
    /// Allocate a request id for one call.
    Call,
}

/// The transition relation, one operation at a time. The id counter is never
/// reset, so ids from an earlier session cannot recur in a later one.
pub open spec fn apply_op(m: BridgeModel, op: BridgeOp) -> BridgeModel {
    match op {
        BridgeOp::StartConnect => BridgeModel { connected: false, ..m },
        BridgeOp::FinishConnect(ok) => BridgeModel {
            connected: ok,
            epoch: if ok {
                m.epoch + 1
            } else {
                m.epoch
            },
            ..m
        },
        BridgeOp::Disconnect => BridgeModel { connected: false, ..m },
        BridgeOp::Call => BridgeModel { next_id: m.next_id + 1, ..m },
    }
}

/// A whole sequence of operations, applied left to right.
pub open spec fn apply_ops(m: BridgeModel, ops: Seq<BridgeOp>) -> BridgeModel
    decreases ops.len(),
{
    if ops.len() == 0 {
        m
    } else {
        apply_ops(apply_op(m, ops[0]), ops.drop_first())
    }
}

/// The request ids allocated along a trace, in order.
pub open spec fn ids_allocated(m: BridgeModel, ops: Seq<BridgeOp>) -> Seq<int>
    decreases ops.len(),
{
    if ops.len() == 0 {
        Seq::empty()
    } else {
        let rest = ids_allocated(apply_op(m, ops[0]), ops.drop_first());
        if ops[0] is Call {
            seq![m.next_id] + rest
        } else {
            rest
        }
    }
}

/// The IPC bridge: one connection flag and one monotonically increasing
/// request-id counter, as the editor side of the engine link needs.
pub struct IpcBridge {
    connected: bool,
    next_id: u64,
    epoch: Ghost<int>,
}

impl View for IpcBridge {
    type V = BridgeModel;

    closed spec fn view(&self) -> BridgeModel {
        BridgeModel { connected: self.connected, next_id: self.next_id as int, epoch: self.epoch@ }
    }
}

/// One call, ready to go out: the id that was allocated for it and the exact
/// text to place on the wire.
pub struct PendingCall {
    pub id: u64,
    pub wire: String,
}

/// The wire text a call with the given id, method and parameters produces.
pub open spec fn call_wire_text(id: int, method: Seq<char>, params: Seq<char>) -> Seq<char> {
    request_text(
        RequestModel {
            msg_type: ("request")@,
            id: dec_rep(id as nat),
            method: method,
            params: params,
        },
    )
}

impl IpcBridge {
    /// A fresh bridge: disconnected, with request ids starting at 1.
    pub fn new() -> (r: IpcBridge)
        ensures
            r@ == (BridgeModel { connected: false, next_id: 1int, epoch: 0int }),
    {
        IpcBridge { connected: false, next_id: 1, epoch: Ghost(0int) }
    }

    /// Whether a session is currently live.
    pub fn is_connected(&self) -> (r: bool)
        ensures
            r == self@.connected,
    {
        self.connected
    }

    /// Whether another request id can still be allocated.
    pub fn can_allocate_id(&self) -> (r: bool)
        ensures
            r == (self@.next_id < u64::MAX as int),
    {
        self.next_id < u64::MAX
    }

    /// Tear down whatever session exists. Connecting always starts with this,
    /// even when a session looks live: it may be stale.
    pub fn start_connect(&mut self)
        ensures
            final(self)@ == apply_op(old(self)@, BridgeOp::StartConnect),
    {
        self.connected = false;
    }

    /// Record whether establishing the session succeeded. On failure the
    /// bridge stays disconnected; the id counter is never touched.
    pub fn finish_connect(&mut self, ok: bool)
        ensures
            final(self)@ == apply_op(old(self)@, BridgeOp::FinishConnect(ok)),
    {
        self.connected = ok;
        proof {
            if ok {
                self.epoch@ = self.epoch@ + 1;
            }
        }
    }

    /// Drop the session. When already disconnected this changes nothing.
    pub fn disconnect(&mut self)
        ensures
            final(self)@ == apply_op(old(self)@, BridgeOp::Disconnect),
            !old(self)@.connected ==> final(self)@ == old(self)@,
    {
        self.connected = false;
    }

    /// The session is gone without a deliberate disconnect: the stream closed
    /// under a waiting call. Further calls are refused until a reconnect.
    pub fn connection_lost(&mut self)
        ensures
            final(self)@ == apply_op(old(self)@, BridgeOp::Disconnect),
    {
        self.connected = false;
    }

    /// Allocate the id for one call and compose its wire text. The id is
    /// consumed even when the bridge is disconnected and the call is refused,
    /// exactly as the counter behaves in the running system.
    pub fn begin_call(&mut self, method: &str, params: &str) -> (r: Result<PendingCall, RpcError>)
        requires
            old(self)@.next_id < u64::MAX as int,
            is_json_value_text(params@),
        ensures
            final(self)@ == apply_op(old(self)@, BridgeOp::Call),
            !old(self)@.connected ==> (r matches Err(e) && e@ == ErrModel::NotConnected),
            old(self)@.connected ==> (r matches Ok(pc) && pc.id as int == old(self)@.next_id
                && pc.wire@ == call_wire_text(old(self)@.next_id, method@, params@)),
    {
        let id = self.next_id;
        self.next_id = self.next_id + 1;
        if !self.connected {
            return Err(RpcError::NotConnected);
        }
        let req = IpcRequest::new(
            crate::text::u64_to_dec(id),
            String::from_str(method),
            String::from_str(params),
        );
        let wire = req.encode();
        Ok(PendingCall { id, wire })
    }

    /// One whole call, resolved against a given inbound sequence: allocate
    /// the id, compose the wire text, and correlate the events. `sent` is
    /// what went out on the wire — nothing when the call was refused. A call
    /// that ends with the stream closed leaves the bridge disconnected, so a
    /// later call without a reconnect is refused outright.
    pub fn call_with_events(
        &mut self,
        method: &str,
        params: &str,
        events: &Vec<InboundEvent>,
    ) -> (o: (Option<String>, Result<String, RpcError>))
        requires
            old(self)@.next_id < u64::MAX as int,
            is_json_value_text(params@),
        ensures
            final(self)@.next_id == old(self)@.next_id + 1,
            final(self)@.epoch == old(self)@.epoch,
            !old(self)@.connected ==> o.0 is None && result_view(o.1) == Err::<
                Seq<char>,
                ErrModel,
            >(ErrModel::NotConnected) && !final(self)@.connected,
            old(self)@.connected ==> (o.0 matches Some(w) && w@ == call_wire_text(
                old(self)@.next_id,
                method@,
                params@,
            ) && result_view(o.1) == correlate_spec(
                dec_rep(old(self)@.next_id as nat),
                events_view(events@),
            )),
            final(self)@.connected <==> (old(self)@.connected && !(result_view(o.1) == Err::<
                Seq<char>,
                ErrModel,
            >(ErrModel::ConnectionClosed))),
    {
        let pc = match self.begin_call(method, params) {
            Ok(pc) => pc,
            Err(e) => {
                return (None, Err(e));
            },
        };
        let id_text = crate::text::u64_to_dec(pc.id);
        let result = correlate(&id_text, events);
        let closed = match &result {
            Err(RpcError::ConnectionClosed) => true,
            _ => false,
        };
        if closed {
            self.connection_lost();
        }
        (Some(pc.wire), result)
    }
}

impl Default for IpcBridge {
    /// Same as `new`: disconnected, with request ids starting at 1.
    fn default() -> (r: IpcBridge)
        ensures
            r@ == (BridgeModel { connected: false, next_id: 1int, epoch: 0int }),
    {
        IpcBridge::new()
    }
}

// ---------------------------------------------------------------------------
// Laws
// ---------------------------------------------------------------------------

/// Every id a trace allocates is at least the id counter at its start.
proof fn lemma_ids_lower_bound(m: BridgeModel, ops: Seq<BridgeOp>)
    ensures
        forall|j: int|
            0 <= j < ids_allocated(m, ops).len() ==> ids_allocated(m, ops)[j] >= m.next_id,
    decreases ops.len(),
{
    if ops.len() > 0 {
        let m2 = apply_op(m, ops[0]);
        let rest = ops.drop_first();
        lemma_ids_lower_bound(m2, rest);
        let ids = ids_allocated(m, ops);
        let ids2 = ids_allocated(m2, rest);
        assert(m2.next_id >= m.next_id);
        if ops[0] is Call {
            assert(ids == seq![m.next_id] + ids2);
            assert forall|j: int| 0 <= j < ids.len() implies ids[j] >= m.next_id by {
                if j == 0 {
                    assert(ids[0] == m.next_id);
                } else {
                    assert(ids[j] == ids2[j - 1]);
                }
            }
        } else {
            assert(ids == ids2);
            assert forall|j: int| 0 <= j < ids.len() implies ids[j] >= m.next_id by {
                assert(ids[j] == ids2[j]);
            }
        }
    }
}

/// Request ids are strictly increasing along any sequence of operations,
/// however connects, disconnects and calls interleave: the counter is never
/// reset, so an id can never recur — not even across reconnects.
pub proof fn lemma_ids_strictly_increase(m: BridgeModel, ops: Seq<BridgeOp>)
    ensures
        forall|a: int, b: int|
            0 <= a < b < ids_allocated(m, ops).len() ==> ids_allocated(m, ops)[a] < ids_allocated(
                m,
                ops,
            )[b],
    decreases ops.len(),
{
    if ops.len() > 0 {
        let m2 = apply_op(m, ops[0]);
        let rest = ops.drop_first();
        lemma_ids_strictly_increase(m2, rest);
        lemma_ids_lower_bound(m2, rest);
        let ids = ids_allocated(m, ops);
        let ids2 = ids_allocated(m2, rest);
        if ops[0] is Call {
            assert(ids == seq![m.next_id] + ids2);
            assert(m2.next_id == m.next_id + 1);
            assert forall|a: int, b: int| 0 <= a < b < ids.len() implies ids[a] < ids[b] by {
                if a == 0 {
                    assert(ids[b] == ids2[b - 1]);
                    assert(ids2[b - 1] >= m2.next_id);
                } else {
                    assert(ids[a] == ids2[a - 1]);
                    assert(ids[b] == ids2[b - 1]);
                }
            }
        } else {
            assert(ids == ids2);
            assert forall|a: int, b: int| 0 <= a < b < ids.len() implies ids[a] < ids[b] by {
                assert(ids[a] == ids2[a]);
                assert(ids[b] == ids2[b]);
            }
        }
    }
}

/// Disconnecting when already disconnected is a no-op: the state, including
/// the `false` connection flag, is exactly what it was.
pub proof fn lemma_disconnect_idempotent(m: BridgeModel)
    requires
        !m.connected,
    ensures
        apply_op(m, BridgeOp::Disconnect) == m,
{
}

/// Connecting twice in a row leaves exactly one live session: the second
/// one. The first session is released — the teardown ahead of the second
/// connect leaves the bridge disconnected — and the session that remains is
/// of a strictly newer epoch than the first.
pub proof fn lemma_reconnect_single_session(m: BridgeModel)
    ensures
        ({
            let first = apply_op(apply_op(m, BridgeOp::StartConnect), BridgeOp::FinishConnect(true));
            let torn = apply_op(first, BridgeOp::StartConnect);
            let second = apply_op(torn, BridgeOp::FinishConnect(true));
            &&& first.connected
            &&& !torn.connected
            &&& second.connected
            &&& second.epoch == m.epoch + 2
            &&& second.epoch != first.epoch
            &&& second.next_id == m.next_id
        }),
{
}

/// Correlation is exact: when a call completes successfully, its payload is
/// that of a response bearing the caller's own id — never another caller's —
/// and every earlier event was one the rule discards.
pub proof fn lemma_correlation_exact(id: Seq<char>, evs: Seq<EventModel>)
    ensures
        correlate_spec(id, evs) matches Ok(d) ==> exists|k: int|
            0 <= k < evs.len() && step_of(id, evs[k]) == StepModel::Finished(
                Ok::<Seq<char>, ErrModel>(d),
            ) && (forall|j: int| 0 <= j < k ==> step_of(id, evs[j]) == StepModel::Progress),
    decreases evs.len(),
{
    if evs.len() > 0 {
        match step_of(id, evs[0]) {
            StepModel::Finished(r) => {
                match r {
                    Ok(d) => {
                        assert(step_of(id, evs[0]) == StepModel::Finished(
                            Ok::<Seq<char>, ErrModel>(d),
                        ));
                    },
                    Err(_) => {},
                }
            },
            StepModel::Progress => {
                lemma_correlation_exact(id, evs.drop_first());
                match correlate_spec(id, evs) {
                    Ok(d) => {
                        let k0 = choose|k: int|
                        0 <= k < evs.drop_first().len() && step_of(id, evs.drop_first()[k])
                            == StepModel::Finished(Ok::<Seq<char>, ErrModel>(d)) && (forall|j: int|
                            0 <= j < k ==> step_of(id, evs.drop_first()[j]) == StepModel::Progress);
                        assert(evs.drop_first()[k0] == evs[k0 + 1]);
                        assert(forall|j: int|
                            0 <= j < k0 + 1 ==> step_of(id, evs[j]) == StepModel::Progress) by {
                            assert(forall|j: int|
                                1 <= j < k0 + 1 ==> evs[j] == evs.drop_first()[j - 1]);
                        }
                        assert(0 <= k0 + 1 < evs.len() && step_of(id, evs[k0 + 1])
                            == StepModel::Finished(Ok::<Seq<char>, ErrModel>(d)));
                    },
                    Err(_) => {},
                }
            },
        }
    }
}

/// The companion direction: when some event finishes the call successfully
/// and everything before it is discarded, the caller receives exactly that
/// event's payload.
pub proof fn lemma_first_match_resolves(id: Seq<char>, evs: Seq<EventModel>, k: int, d: Seq<char>)
    requires
        0 <= k < evs.len(),
        step_of(id, evs[k]) == StepModel::Finished(Ok::<Seq<char>, ErrModel>(d)),
        forall|j: int| 0 <= j < k ==> step_of(id, evs[j]) == StepModel::Progress,
    ensures
        correlate_spec(id, evs) == Ok::<Seq<char>, ErrModel>(d),
    decreases k,
{
    if k > 0 {
        let rest = evs.drop_first();
        assert(forall|j: int| 0 <= j < k - 1 ==> rest[j] == evs[j + 1]);
        assert(rest[k - 1] == evs[k]);
        lemma_first_match_resolves(id, rest, k - 1, d);
    }
}

/// An inbound message whose id is not the awaited one is discarded: the wait
/// continues exactly as if the message had never arrived.
pub proof fn lemma_unmatched_discarded(id: Seq<char>, ev: EventModel, rest: Seq<EventModel>)
    requires
        step_of(id, ev) == StepModel::Progress,
    ensures
        correlate_spec(id, seq![ev] + rest) == correlate_spec(id, rest),
{
    assert((seq![ev] + rest).drop_first() =~= rest);
}

} // verus!
