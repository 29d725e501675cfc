//! The bridge that multiplexes many logical connections over the one
//! channel of the service.
//!
//! The bridge decodes each frame, keeps the state of every open connection,
//! and queues one lifecycle event per frame for the logic that the embedding
//! program supplies. That program takes the events, hands them to the logic,
//! and sends what the logic answers through [`WASIResponder::respond`].
//!
//! Frames are not checked against the connections that are open: input for
//! an id without an open connection opens one, and closing an id that is
//! not open releases nothing; the event is queued either way. Once a
//! `Destroy` has been decoded the bridge is finished: every open connection
//! is released, and every further frame is refused with `NotConnected`.
use vstd::prelude::*;
use crate::envelope::{
    inbound_bytes, inbound_parse, lemma_inbound_round_trip, lemma_outbound_round_trip,
    outbound_bytes, outbound_parse, payload_fits, ConnectionId, Inbound, InboundEnvelope,
    Outbound, OutboundEnvelope,
};
use crate::error::ServiceError;
use crate::registry::{ConnectionState, Registry};
use crate::service::{
    lemma_post_then_take, lemma_posts_keep_order, Handler, ServiceView, ServiceWorker,
    MAX_FRAME,
};
use crate::stream::{lemma_stream_round_trip, outbound_stream_bytes, outbound_stream_parse};

verus! {

/// The status with which the process is to end after a `Destroy`.
pub const EXIT_CODE: i32 = 1;

/// What the bridge tells the embedded logic.
#[derive(Clone, Debug, PartialEq, Eq)]
pub enum LifecycleEvent {
    /// The bridge has started.
    Create,
    /// A connection was opened.
    Connected(ConnectionId),
    /// Input for the logic of one connection.
    Input(ConnectionId, Vec<u8>),
    /// A connection was closed.
    Disconnected(ConnectionId),
    /// The compute unit is shutting down.
    Destroy,
}

/// The mathematical value of a [`LifecycleEvent`].
pub ghost enum Lifecycle {
    Create,
    Connected(ConnectionId),
    Input(ConnectionId, Seq<u8>),
    Disconnected(ConnectionId),
    Destroy,
}

impl View for LifecycleEvent {
    type V = Lifecycle;

    open spec fn view(&self) -> Lifecycle {
        match *self {
            LifecycleEvent::Create => Lifecycle::Create,
            LifecycleEvent::Connected(id) => Lifecycle::Connected(id),
            LifecycleEvent::Input(id, payload) => Lifecycle::Input(id, payload@),
            LifecycleEvent::Disconnected(id) => Lifecycle::Disconnected(id),
            LifecycleEvent::Destroy => Lifecycle::Destroy,
        }
    }
}

/// The values of a list of events.
pub open spec fn events_view(events: Seq<LifecycleEvent>) -> Seq<Lifecycle> {
    events.map_values(|e: LifecycleEvent| e@)
}

impl Inbound {
    /// The event that an inbound envelope becomes for the logic.
    pub open spec fn event(self) -> Lifecycle {
        match self {
            Inbound::Connected(id) => Lifecycle::Connected(id),
            Inbound::Input(id, payload) => Lifecycle::Input(id, payload),
            Inbound::Disconnected(id) => Lifecycle::Disconnected(id),
            Inbound::Destroy => Lifecycle::Destroy,
        }
    }
}

impl Lifecycle {
    /// The connection that an event is for, if it is for one.
    pub open spec fn connection(self) -> Option<ConnectionId> {
        match self {
            Lifecycle::Connected(id) => Some(id),
            Lifecycle::Input(id, _) => Some(id),
            Lifecycle::Disconnected(id) => Some(id),
            _ => None,
        }
    }
}

/// The state of a [`WASIAgent`].
pub ghost struct AgentView {
    /// The open connections.
    pub connections: Map<ConnectionId, ConnectionState>,
    /// The events that the logic has not been given yet, oldest first.
    pub events: Seq<Lifecycle>,
    /// Whether a `Destroy` has been decoded.
    pub destroyed: bool,
}

impl AgentView {
    /// A bridge that has seen nothing yet.
    pub open spec fn fresh() -> AgentView {
        AgentView { connections: Map::empty(), events: Seq::empty(), destroyed: false }
    }

    /// The open connections after the envelope `m`.
    pub open spec fn connections_after(self, m: Inbound) -> Map<ConnectionId, ConnectionState> {
        match m {
            Inbound::Connected(id) => self.connections.insert(id, ConnectionState::Connected),
            Inbound::Input(id, _) => self.connections.insert(id, ConnectionState::Active),
            Inbound::Disconnected(id) => self.connections.remove(id),
            Inbound::Destroy => Map::empty(),
        }
    }

    /// The bridge after the envelope `m`: the connection that `m` names
    /// moves on, and `m` is queued as one event.
    pub open spec fn dispatch(self, m: Inbound) -> AgentView {
        AgentView {
            connections: self.connections_after(m),
            events: self.events.push(m.event()),
            destroyed: self.destroyed || m is Destroy,
        }
    }

    /// The bridge after the frame `raw`, and what handling it returns.
    pub open spec fn on_message(self, raw: Seq<u8>) -> (AgentView, Result<(), ServiceError>) {
        if self.destroyed {
            (self, Err(ServiceError::NotConnected))
        } else {
            match inbound_parse(raw) {
                Some(m) => (self.dispatch(m), Ok(())),
                None => (self, Err(ServiceError::Decode)),
            }
        }
    }

    /// The bridge after `run`.
    pub open spec fn started(self) -> AgentView {
        AgentView { events: self.events.push(Lifecycle::Create), ..self }
    }

    /// The status with which the process is to end, once it is to end.
    pub open spec fn exit_code(self) -> Option<i32> {
        if self.destroyed {
            Some(EXIT_CODE)
        } else {
            None
        }
    }
}

/// The bridge between the service and the logic of many connections.
pub struct WASIAgent {
    registry: Registry,
    events: Vec<LifecycleEvent>,
    destroyed: bool,
}

impl View for WASIAgent {
    type V = AgentView;

    closed spec fn view(&self) -> AgentView {
        AgentView {
            connections: self.registry@,
            events: events_view(self.events@),
            destroyed: self.destroyed,
        }
    }
}

/// Starts a bridge.
pub trait ThreadedWASI {
    /// Links the bridge to the logic and tells the host that the compute
    /// unit has loaded.
    fn run<H: Handler>(&mut self, service: &mut ServiceWorker<H>) -> Result<(), ServiceError>;
}

impl WASIAgent {
    /// A bridge with no open connection and no event.
    pub fn new() -> (agent: WASIAgent)
        ensures
            agent@ == AgentView::fresh(),
    {
        let agent = WASIAgent { registry: Registry::new(), events: Vec::new(), destroyed: false };
        proof {
            assert(events_view(agent.events@) =~= Seq::<Lifecycle>::empty());
        }
        agent
    }

    /// Queues one event.
    fn notify(&mut self, event: LifecycleEvent)
        ensures
            final(self)@ == (AgentView { events: old(self)@.events.push(event@), ..old(self)@ }),
    {
        self.events.push(event);
        proof {
            assert(events_view(self.events@) =~= events_view(old(self).events@).push(event@));
        }
    }

    /// The state of the connection `id`, if it is open.
    pub fn connection(&self, id: ConnectionId) -> (state: Option<ConnectionState>)
        ensures
            state == if self@.connections.contains_key(id) {
                Some(self@.connections[id])
            } else {
                None
            },
    {
        self.registry.get(id)
    }

    /// Hands over the queued events, oldest first, and empties the queue.
    pub fn take_events(&mut self) -> (events: Vec<LifecycleEvent>)
        ensures
            events_view(events@) == old(self)@.events,
            final(self)@ == (AgentView { events: Seq::empty(), ..old(self)@ }),
    {
        let mut events: Vec<LifecycleEvent> = Vec::new();
        core::mem::swap(&mut self.events, &mut events);
        proof {
            assert(events_view(self.events@) =~= Seq::<Lifecycle>::empty());
        }
        events
    }

    /// Whether a `Destroy` has been decoded.
    pub fn is_destroyed(&self) -> (b: bool)
        ensures
            b == self@.destroyed,
    {
        self.destroyed
    }

    /// The status with which the process is to end: [`EXIT_CODE`] once a
    /// `Destroy` has been decoded, nothing before.
    pub fn exit_code(&self) -> (code: Option<i32>)
        ensures
            code == self@.exit_code(),
    {
        if self.destroyed {
            Some(EXIT_CODE)
        } else {
            None
        }
    }
}

impl Handler for WASIAgent {
    open spec fn handles(&self, msg: Seq<u8>, after: WASIAgent, r: Result<(), ServiceError>) -> bool {
        (after@, r) == self@.on_message(msg)
    }

    /// Decodes one frame and dispatches it. A frame that does not decode is
    /// refused with `Decode` and changes nothing.
    fn on_message(&mut self, msg: &[u8]) -> (r: Result<(), ServiceError>) {
        if self.destroyed {
            return Err(ServiceError::NotConnected);
        }
        let envelope = match InboundEnvelope::decode(msg) {
            Ok(envelope) => envelope,
            Err(e) => {
                return Err(e);
            },
        };
        match envelope {
            InboundEnvelope::Connected(id) => {
                self.registry.set(id, ConnectionState::Connected);
                self.notify(LifecycleEvent::Connected(id));
            },
            InboundEnvelope::Input(id, payload) => {
                self.registry.set(id, ConnectionState::Active);
                self.notify(LifecycleEvent::Input(id, payload));
            },
            InboundEnvelope::Disconnected(id) => {
                self.registry.remove(id);
                self.notify(LifecycleEvent::Disconnected(id));
            },
            InboundEnvelope::Destroy => {
                self.registry.clear();
                self.destroyed = true;
                self.notify(LifecycleEvent::Destroy);
            },
        }
        Ok(())
    }
}

impl ThreadedWASI for WASIAgent {
    /// Queues `Create` for the logic, then posts a `Loaded` envelope. What
    /// posting returns is returned; the event is queued either way.
    fn run<H: Handler>(&mut self, service: &mut ServiceWorker<H>) -> (r: Result<(), ServiceError>)
        ensures
            final(self)@ == old(self)@.started(),
            (final(service)@, r) == old(service)@.post_message(outbound_bytes(Outbound::Loaded)),
    {
        self.notify(LifecycleEvent::Create);
        let loaded = OutboundEnvelope::Loaded.encode();
        service.post_message(loaded.as_slice())
    }
}

/// What a failed send is reported as.
pub open spec fn diagnostic(r: Result<(), ServiceError>) -> Option<ServiceError> {
    match r {
        Ok(_) => None,
        Err(e) => Some(e),
    }
}

/// Sends the answers of the logic to the host.
pub struct WASIResponder {}

impl WASIResponder {
    /// Posts `payload` as the output of the connection `id`.
    ///
    /// Sending is best effort: a failure is not an error of the caller. It
    /// is handed back as a diagnostic to report, and the service is then
    /// unchanged.
    pub fn respond<H: Handler>(
        &self,
        service: &mut ServiceWorker<H>,
        id: ConnectionId,
        payload: Vec<u8>,
    ) -> (report: Option<ServiceError>)
        ensures
            final(service)@ == old(service)@.post_message(
                outbound_bytes(Outbound::Output(id, payload@)),
            ).0,
            report == diagnostic(
                old(service)@.post_message(outbound_bytes(Outbound::Output(id, payload@))).1,
            ),
    {
        let data = OutboundEnvelope::Output(id, payload).encode();
        match service.post_message(data.as_slice()) {
            Ok(_) => None,
            Err(e) => Some(e),
        }
    }
}

/// An envelope for one connection leaves every other connection as it
/// was, and queues exactly one event, which is for that connection.
pub proof fn lemma_dispatch_is_confined(a: AgentView, m: Inbound, other: ConnectionId)
    requires
        m.event().connection() is Some,
        m.event().connection() != Some(other),
    ensures
        a.dispatch(m).connections.contains_key(other) == a.connections.contains_key(other),
        a.connections.contains_key(other) ==> a.dispatch(m).connections[other]
            == a.connections[other],
        a.dispatch(m).events == a.events.push(m.event()),
{
}

/// The life of a connection: opening it creates its state, input makes it
/// active and reaches the logic as one event for that connection with the
/// payload untouched, closing it releases its state. No other connection
/// is opened, changed or closed on the way.
pub proof fn lemma_connection_lifecycle(a: AgentView, id: ConnectionId, payload: Seq<u8>)
    ensures
        ({
            let opened = a.dispatch(Inbound::Connected(id));
            let fed = opened.dispatch(Inbound::Input(id, payload));
            let closed = fed.dispatch(Inbound::Disconnected(id));
            &&& opened.connections.contains_key(id)
            &&& opened.connections[id] == ConnectionState::Connected
            &&& fed.connections.contains_key(id)
            &&& fed.connections[id] == ConnectionState::Active
            &&& !closed.connections.contains_key(id)
            &&& closed.connections == a.connections.remove(id)
            &&& closed.events == a.events + seq![
                Lifecycle::Connected(id),
                Lifecycle::Input(id, payload),
                Lifecycle::Disconnected(id),
            ]
            &&& closed.destroyed == a.destroyed
        }),
{
    let opened = a.dispatch(Inbound::Connected(id));
    let fed = opened.dispatch(Inbound::Input(id, payload));
    let closed = fed.dispatch(Inbound::Disconnected(id));
    assert(closed.connections =~= a.connections.remove(id));
    assert(closed.events =~= a.events + seq![
        Lifecycle::Connected(id),
        Lifecycle::Input(id, payload),
        Lifecycle::Disconnected(id),
    ]);
}

/// A decoded `Destroy` ends the bridge whatever its state: the exit status
/// is set, no connection stays open, and no later frame is handled.
pub proof fn lemma_destroy_is_final(a: AgentView, later: Seq<u8>)
    requires
        !a.destroyed,
    ensures
        a.on_message(inbound_bytes(Inbound::Destroy)).1 is Ok,
        a.on_message(inbound_bytes(Inbound::Destroy)).0.exit_code() == Some(EXIT_CODE),
        a.on_message(inbound_bytes(Inbound::Destroy)).0.connections == Map::<
            ConnectionId,
            ConnectionState,
        >::empty(),
        a.on_message(inbound_bytes(Inbound::Destroy)).0.on_message(later) == (
            a.on_message(inbound_bytes(Inbound::Destroy)).0,
            Err::<(), ServiceError>(ServiceError::NotConnected),
        ),
        a.exit_code() is None,
{
    lemma_inbound_round_trip(Inbound::Destroy);
}

/// A frame that holds the bytes of an envelope is dispatched as that
/// envelope; a frame that holds no envelope changes nothing.
pub proof fn lemma_frames_are_dispatched(a: AgentView, m: Inbound)
    requires
        !a.destroyed,
        m.wf(),
    ensures
        a.on_message(inbound_bytes(m)) == (a.dispatch(m), Ok::<(), ServiceError>(())),
{
    lemma_inbound_round_trip(m);
}

/// Two answers for two connections do not mix: where the host picks up
/// after each, it decodes the first to the first connection's id and payload
/// and the second to the second's.
pub proof fn lemma_responses_do_not_mix<H>(
    s: ServiceView<H>,
    first: ConnectionId,
    first_payload: Seq<u8>,
    second: ConnectionId,
    second_payload: Seq<u8>,
)
    requires
        s.bound is Some,
        !s.in_use,
        s.outbound().len() == 0,
        payload_fits(first_payload),
        payload_fits(second_payload),
    ensures
        ({
            let one = Outbound::Output(first, first_payload);
            let two = Outbound::Output(second, second_payload);
            let picked_one = s.post_message(outbound_bytes(one)).0.take_output();
            let picked_two = picked_one.0.post_message(outbound_bytes(two)).0.take_output();
            &&& outbound_parse(picked_one.1) == Some(one)
            &&& outbound_parse(picked_two.1) == Some(two)
        }),
{
    let one = Outbound::Output(first, first_payload);
    let two = Outbound::Output(second, second_payload);
    lemma_outbound_round_trip(one);
    lemma_outbound_round_trip(two);
    lemma_post_then_take(s, outbound_bytes(one));
    let picked_one = s.post_message(outbound_bytes(one)).0.take_output();
    lemma_post_then_take(picked_one.0, outbound_bytes(two));
}

/// Two answers that pile up in the outbound target do not mix either: the
/// host reads back both, each with its own id and payload, in the order in
/// which they were sent.
pub proof fn lemma_responses_arrive_in_order<H>(
    s: ServiceView<H>,
    first: ConnectionId,
    first_payload: Seq<u8>,
    second: ConnectionId,
    second_payload: Seq<u8>,
)
    requires
        s.bound is Some,
        !s.in_use,
        s.outbound().len() == 0,
        payload_fits(first_payload),
        payload_fits(second_payload),
    ensures
        ({
            let one = Outbound::Output(first, first_payload);
            let two = Outbound::Output(second, second_payload);
            let sent = s.post_message(outbound_bytes(one)).0.post_message(outbound_bytes(two)).0;
            outbound_stream_parse(sent.take_output().1) == Some(seq![one, two])
        }),
{
    let one = Outbound::Output(first, first_payload);
    let two = Outbound::Output(second, second_payload);
    let both = seq![one, two];
    lemma_stream_round_trip(both);
    lemma_posts_keep_order(s, outbound_bytes(one), outbound_bytes(two));
    assert(both.drop_first() =~= seq![two]);
    assert(both.drop_first().drop_first() =~= Seq::<Outbound>::empty());
    reveal_with_fuel(outbound_stream_bytes, 3);
    assert(outbound_stream_bytes(both) =~= s.outbound() + outbound_bytes(one) + outbound_bytes(
        two,
    ));
}

/// The bridge behind the service: where all that waits in the inbound
/// stream is one envelope that fits a frame, reading a message dispatches
/// exactly that envelope, returns the number of its bytes, leaves the stream
/// empty and writes nothing to the outbound target.
pub proof fn lemma_service_feeds_bridge(
    s: ServiceView<WASIAgent>,
    after: ServiceView<WASIAgent>,
    r: Result<usize, ServiceError>,
    m: Inbound,
)
    requires
        s.on_message(after, r),
        !s.in_use,
        s.bound is Some,
        s.handler is Some,
        !s.handler.unwrap()@.destroyed,
        m.wf(),
        s.inbound() == inbound_bytes(m),
        inbound_bytes(m).len() <= MAX_FRAME,
    ensures
        r == Ok::<usize, ServiceError>(inbound_bytes(m).len() as usize),
        after.handler is Some,
        after.handler.unwrap()@ == s.handler.unwrap()@.dispatch(m),
        after.inbound() == Seq::<u8>::empty(),
        after.outbound() == s.outbound(),
{
    lemma_inbound_round_trip(m);
    let frame = s.bound.unwrap().channels.frame(MAX_FRAME as nat);
    assert(frame =~= inbound_bytes(m));
    assert(after.inbound() =~= Seq::<u8>::empty());
}

} // verus!
