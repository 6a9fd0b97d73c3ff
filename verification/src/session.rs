//! The peer session controller: the decision kernel of one session's
//! control loop.  The loop multiplexes two sources — caller commands and
//! engine occurrences — and this module decides, for each input, the
//! next session state, the engine call to make, and the event to emit.
//! The host only performs what a step decides; it never decides itself.

use vstd::prelude::*;

verus! {

/// A command a caller sends into a running ping session.
#[derive(Clone, Debug, PartialEq, Eq)]
pub enum PingCommand {
    /// Initiate an outbound connection to this address.
    Dial(String),
    /// Tear down the connection to this peer, if any.
    Disconnect(String),
    /// Terminate the session loop.
    Stop,
}

/// An event a ping session emits to its subscriber.
#[derive(Clone, Debug, PartialEq, Eq)]
pub enum PingEvent {
    /// The local transport now accepts connections at this address.
    Listening { addr: String },
    /// A connection to this peer was established.
    Connected { peer_id: String },
    /// The connection to this peer closed.
    Disconnected { peer_id: String },
    /// A round-trip latency sample for this peer.
    Ping { peer_id: String, rtt_ms: u128 },
    /// A recoverable failure; the session continues.
    Error { message: String },
}

/// A command a caller sends into a running identify session.
#[derive(Clone, Debug, PartialEq, Eq)]
pub enum IdentifyCommand {
    /// Initiate an outbound connection to this address.
    Dial(String),
    /// Tear down the connection to this peer, if any.
    Disconnect(String),
    /// Terminate the session loop.
    Stop,
}

/// An event an identify session emits to its subscriber.
#[derive(Clone, Debug, PartialEq, Eq)]
pub enum IdentifyEvent {
    /// The local transport now accepts connections at this address.
    Listening { addr: String },
    /// A connection to this peer was established.
    Connected { peer_id: String },
    /// The connection to this peer closed.
    Disconnected { peer_id: String },
    /// A round-trip latency sample for this peer.
    Ping { peer_id: String, rtt_ms: u128 },
    /// The remote peer identified itself.
    Identified {
        peer_id: String,
        protocol_version: String,
        agent_version: String,
        listen_addrs: Vec<String>,
    },
    /// A recoverable failure; the session continues.
    Error { message: String },
}

/// One occurrence the underlying network engine surfaces, as the
/// controller models it.
#[derive(Debug, PartialEq, Eq)]
pub enum EngineOccurrence {
    /// The engine bound a new listening address.
    NewListenAddr { addr: String },
    /// A connection to this peer was established.
    ConnectionEstablished { peer_id: String },
    /// The connection to this peer closed.
    ConnectionClosed { peer_id: String },
    /// A ping round-trip finished, with its latency or its failure text.
    PingOutcome { peer_id: String, outcome: Result<u128, String> },
    /// The remote peer's identification information arrived.
    IdentifyReceived {
        peer_id: String,
        protocol_version: String,
        agent_version: String,
        listen_addrs: Vec<String>,
    },
    /// Identify-protocol housekeeping with no external meaning.
    IdentifyHousekeeping,
    /// Anything else the controller does not model.
    Unmodeled,
}

/// The engine call one step decides on.
#[derive(Clone, Debug, PartialEq, Eq)]
pub enum EngineAction {
    /// Instruct the engine to dial this address.
    Dial(String),
    /// Instruct the engine to disconnect this peer.
    Disconnect(String),
    /// No engine call.
    NoCall,
}

/// The lifecycle state of one session's control loop.
#[derive(Clone, Copy, Debug, PartialEq, Eq, Structural)]
pub enum SessionState {
    /// The loop is active and polling.
    Running,
    /// The loop has exited; no further command is accepted.
    Terminated,
}

/// One input the ping loop multiplexes: a caller command or an engine
/// occurrence, whichever arrived.
#[derive(Debug, PartialEq, Eq)]
pub enum PingInput {
    Cmd(PingCommand),
    Occ(EngineOccurrence),
}

/// One input the identify loop multiplexes.
#[derive(Debug, PartialEq, Eq)]
pub enum IdentifyInput {
    Cmd(IdentifyCommand),
    Occ(EngineOccurrence),
}

/// What one step of a ping loop decides.
pub struct PingStep {
    /// The state the session is in after the step.
    pub state: SessionState,
    /// The engine call to make.
    pub action: EngineAction,
    /// The event to emit, if the input is modeled.
    pub emit: Option<PingEvent>,
}

/// What one step of an identify loop decides.
pub struct IdentifyStep {
    /// The state the session is in after the step.
    pub state: SessionState,
    /// The engine call to make.
    pub action: EngineAction,
    /// The event to emit, if the input is modeled.
    pub emit: Option<IdentifyEvent>,
}

/// The event a ping session emits for an engine occurrence: each modeled
/// occurrence maps to exactly one event, all others are dropped.
pub open spec fn spec_ping_translate(occ: EngineOccurrence) -> Option<PingEvent> {
    match occ {
        EngineOccurrence::NewListenAddr { addr } => Option::Some(PingEvent::Listening { addr }),
        EngineOccurrence::ConnectionEstablished { peer_id } => Option::Some(
            PingEvent::Connected { peer_id },
        ),
        EngineOccurrence::ConnectionClosed { peer_id } => Option::Some(
            PingEvent::Disconnected { peer_id },
        ),
        EngineOccurrence::PingOutcome { peer_id, outcome } => match outcome {
            Result::Ok(rtt) => Option::Some(PingEvent::Ping { peer_id, rtt_ms: rtt }),
            Result::Err(message) => Option::Some(PingEvent::Error { message }),
        },
        EngineOccurrence::IdentifyReceived { .. } => Option::None,
        EngineOccurrence::IdentifyHousekeeping => Option::None,
        EngineOccurrence::Unmodeled => Option::None,
    }
}

/// The event an identify session emits for an engine occurrence: the
/// ping mapping extended with the received-identification occurrence.
pub open spec fn spec_identify_translate(occ: EngineOccurrence) -> Option<IdentifyEvent> {
    match occ {
        EngineOccurrence::NewListenAddr { addr } => Option::Some(
            IdentifyEvent::Listening { addr },
        ),
        EngineOccurrence::ConnectionEstablished { peer_id } => Option::Some(
            IdentifyEvent::Connected { peer_id },
        ),
        EngineOccurrence::ConnectionClosed { peer_id } => Option::Some(
            IdentifyEvent::Disconnected { peer_id },
        ),
        EngineOccurrence::PingOutcome { peer_id, outcome } => match outcome {
            Result::Ok(rtt) => Option::Some(IdentifyEvent::Ping { peer_id, rtt_ms: rtt }),
            Result::Err(message) => Option::Some(IdentifyEvent::Error { message }),
        },
        EngineOccurrence::IdentifyReceived {
            peer_id,
            protocol_version,
            agent_version,
            listen_addrs,
        } => Option::Some(
            IdentifyEvent::Identified { peer_id, protocol_version, agent_version, listen_addrs },
        ),
        EngineOccurrence::IdentifyHousekeeping => Option::None,
        EngineOccurrence::Unmodeled => Option::None,
    }
}

/// One step of the ping loop: a terminated loop does nothing; a running
/// one turns a dial or disconnect command into the matching engine call,
/// exits on stop, and translates an occurrence into its event.
pub open spec fn spec_ping_step(st: SessionState, input: PingInput) -> PingStep {
    if st is Terminated {
        PingStep {
            state: SessionState::Terminated,
            action: EngineAction::NoCall,
            emit: Option::None,
        }
    } else {
        match input {
            PingInput::Cmd(cmd) => match cmd {
                PingCommand::Dial(addr) => PingStep {
                    state: SessionState::Running,
                    action: EngineAction::Dial(addr),
                    emit: Option::None,
                },
                PingCommand::Disconnect(peer_id) => PingStep {
                    state: SessionState::Running,
                    action: EngineAction::Disconnect(peer_id),
                    emit: Option::None,
                },
                PingCommand::Stop => PingStep {
                    state: SessionState::Terminated,
                    action: EngineAction::NoCall,
                    emit: Option::None,
                },
            },
            PingInput::Occ(occ) => PingStep {
                state: SessionState::Running,
                action: EngineAction::NoCall,
                emit: spec_ping_translate(occ),
            },
        }
    }
}

/// One step of the identify loop; identical to the ping loop but for the
/// extended event vocabulary.
pub open spec fn spec_identify_step(st: SessionState, input: IdentifyInput) -> IdentifyStep {
    if st is Terminated {
        IdentifyStep {
            state: SessionState::Terminated,
            action: EngineAction::NoCall,
            emit: Option::None,
        }
    } else {
        match input {
            IdentifyInput::Cmd(cmd) => match cmd {
                IdentifyCommand::Dial(addr) => IdentifyStep {
                    state: SessionState::Running,
                    action: EngineAction::Dial(addr),
                    emit: Option::None,
                },
                IdentifyCommand::Disconnect(peer_id) => IdentifyStep {
                    state: SessionState::Running,
                    action: EngineAction::Disconnect(peer_id),
                    emit: Option::None,
                },
                IdentifyCommand::Stop => IdentifyStep {
                    state: SessionState::Terminated,
                    action: EngineAction::NoCall,
                    emit: Option::None,
                },
            },
            IdentifyInput::Occ(occ) => IdentifyStep {
                state: SessionState::Running,
                action: EngineAction::NoCall,
                emit: spec_identify_translate(occ),
            },
        }
    }
}

/// Translate an engine occurrence for a ping session.
pub fn ping_translate(occ: EngineOccurrence) -> (r: Option<PingEvent>)
    ensures
        r == spec_ping_translate(occ),
{
    match occ {
        EngineOccurrence::NewListenAddr { addr } => Option::Some(PingEvent::Listening { addr }),
        EngineOccurrence::ConnectionEstablished { peer_id } => Option::Some(
            PingEvent::Connected { peer_id },
        ),
        EngineOccurrence::ConnectionClosed { peer_id } => Option::Some(
            PingEvent::Disconnected { peer_id },
        ),
        EngineOccurrence::PingOutcome { peer_id, outcome } => match outcome {
            Result::Ok(rtt) => Option::Some(PingEvent::Ping { peer_id, rtt_ms: rtt }),
            Result::Err(message) => Option::Some(PingEvent::Error { message }),
        },
        EngineOccurrence::IdentifyReceived { .. } => Option::None,
        EngineOccurrence::IdentifyHousekeeping => Option::None,
        EngineOccurrence::Unmodeled => Option::None,
    }
}

/// Translate an engine occurrence for an identify session.
pub fn identify_translate(occ: EngineOccurrence) -> (r: Option<IdentifyEvent>)
    ensures
        r == spec_identify_translate(occ),
{
    match occ {
        EngineOccurrence::NewListenAddr { addr } => Option::Some(
            IdentifyEvent::Listening { addr },
        ),
        EngineOccurrence::ConnectionEstablished { peer_id } => Option::Some(
            IdentifyEvent::Connected { peer_id },
        ),
        EngineOccurrence::ConnectionClosed { peer_id } => Option::Some(
            IdentifyEvent::Disconnected { peer_id },
        ),
        EngineOccurrence::PingOutcome { peer_id, outcome } => match outcome {
            Result::Ok(rtt) => Option::Some(IdentifyEvent::Ping { peer_id, rtt_ms: rtt }),
            Result::Err(message) => Option::Some(IdentifyEvent::Error { message }),
        },
        EngineOccurrence::IdentifyReceived {
            peer_id,
            protocol_version,
            agent_version,
            listen_addrs,
        } => Option::Some(
            IdentifyEvent::Identified { peer_id, protocol_version, agent_version, listen_addrs },
        ),
        EngineOccurrence::IdentifyHousekeeping => Option::None,
        EngineOccurrence::Unmodeled => Option::None,
    }
}

/// The decision kernel of one ping session's loop.
pub struct PingController {
    /// The lifecycle state of the loop.
    pub state: SessionState,
}

impl PingController {
    /// A controller for a freshly started session.
    pub fn new() -> (c: PingController)
        ensures
            c.state == SessionState::Running,
    {
        PingController { state: SessionState::Running }
    }

    /// Apply one multiplexed input and decide the engine call to make
    /// and the event to emit.
    pub fn step(&mut self, input: PingInput) -> (r: (EngineAction, Option<PingEvent>))
        ensures
            ({
                let s = spec_ping_step(old(self).state, input);
                final (self).state == s.state && r.0 == s.action && r.1 == s.emit
            }),
    {
        match self.state {
            SessionState::Terminated => (EngineAction::NoCall, Option::None),
            SessionState::Running => match input {
                PingInput::Cmd(cmd) => match cmd {
                    PingCommand::Dial(addr) => (EngineAction::Dial(addr), Option::None),
                    PingCommand::Disconnect(peer_id) => (
                        EngineAction::Disconnect(peer_id),
                        Option::None,
                    ),
                    PingCommand::Stop => {
                        self.state = SessionState::Terminated;
                        (EngineAction::NoCall, Option::None)
                    },
                },
                PingInput::Occ(occ) => (EngineAction::NoCall, ping_translate(occ)),
            },
        }
    }
}

/// The decision kernel of one identify session's loop.
pub struct IdentifyController {
    /// The lifecycle state of the loop.
    pub state: SessionState,
}

impl IdentifyController {
    /// A controller for a freshly started session.
    pub fn new() -> (c: IdentifyController)
        ensures
            c.state == SessionState::Running,
    {
        IdentifyController { state: SessionState::Running }
    }

    /// Apply one multiplexed input and decide the engine call to make
    /// and the event to emit.
    pub fn step(&mut self, input: IdentifyInput) -> (r: (EngineAction, Option<IdentifyEvent>))
        ensures
            ({
                let s = spec_identify_step(old(self).state, input);
                final (self).state == s.state && r.0 == s.action && r.1 == s.emit
            }),
    {
        match self.state {
            SessionState::Terminated => (EngineAction::NoCall, Option::None),
            SessionState::Running => match input {
                IdentifyInput::Cmd(cmd) => match cmd {
                    IdentifyCommand::Dial(addr) => (EngineAction::Dial(addr), Option::None),
                    IdentifyCommand::Disconnect(peer_id) => (
                        EngineAction::Disconnect(peer_id),
                        Option::None,
                    ),
                    IdentifyCommand::Stop => {
                        self.state = SessionState::Terminated;
                        (EngineAction::NoCall, Option::None)
                    },
                },
                IdentifyInput::Occ(occ) => (EngineAction::NoCall, identify_translate(occ)),
            },
        }
    }
}

/// The ephemeral-port wildcard address a session listens on at start.
pub fn default_listen_addr() -> (r: String)
    ensures
        r@ == "/ip4/0.0.0.0/tcp/0"@,
{
    "/ip4/0.0.0.0/tcp/0".to_owned()
}

/// The state and the emitted events of a ping loop run over a sequence
/// of inputs, in arrival order.
pub open spec fn spec_ping_run(st: SessionState, inputs: Seq<PingInput>) -> (
    SessionState,
    Seq<PingEvent>,
)
    decreases inputs.len(),
{
    if inputs.len() == 0 {
        (st, Seq::empty())
    } else {
        let s = spec_ping_step(st, inputs[0]);
        let rest = spec_ping_run(s.state, inputs.skip(1));
        (
            rest.0,
            (match s.emit {
                Option::Some(e) => seq![e],
                Option::None => Seq::empty(),
            }) + rest.1,
        )
    }
}

/// The state and the emitted events of an identify loop run over a
/// sequence of inputs, in arrival order.
pub open spec fn spec_identify_run(st: SessionState, inputs: Seq<IdentifyInput>) -> (
    SessionState,
    Seq<IdentifyEvent>,
)
    decreases inputs.len(),
{
    if inputs.len() == 0 {
        (st, Seq::empty())
    } else {
        let s = spec_identify_step(st, inputs[0]);
        let rest = spec_identify_run(s.state, inputs.skip(1));
        (
            rest.0,
            (match s.emit {
                Option::Some(e) => seq![e],
                Option::None => Seq::empty(),
            }) + rest.1,
        )
    }
}

/// A terminated ping loop stays terminated and emits nothing, whatever
/// inputs still arrive.
pub proof fn lemma_ping_terminated_is_silent(inputs: Seq<PingInput>)
    ensures
        spec_ping_run(SessionState::Terminated, inputs) == (
            SessionState::Terminated,
            Seq::<PingEvent>::empty(),
        ),
    decreases inputs.len(),
{
    if inputs.len() > 0 {
        lemma_ping_terminated_is_silent(inputs.skip(1));
        assert(Seq::<PingEvent>::empty() + Seq::<PingEvent>::empty() =~= Seq::<
            PingEvent,
        >::empty());
    }
}

/// A stop command ends the ping loop whatever else is pending, further
/// stops change nothing, and no event is emitted after the loop exits.
pub proof fn lemma_ping_stop_is_idempotent(st: SessionState, later: Seq<PingInput>)
    ensures
        spec_ping_step(st, PingInput::Cmd(PingCommand::Stop)).state == SessionState::Terminated,
        spec_ping_step(st, PingInput::Cmd(PingCommand::Stop)).emit is None,
        spec_ping_run(
            spec_ping_step(st, PingInput::Cmd(PingCommand::Stop)).state,
            later,
        ) == (SessionState::Terminated, Seq::<PingEvent>::empty()),
{
    lemma_ping_terminated_is_silent(later);
}

/// A disconnect command to a running ping loop emits no event and keeps
/// the loop running: on a peer with no active connection it is a no-op,
/// not an error.
pub proof fn lemma_ping_disconnect_is_quiet(st: SessionState, peer_id: String)
    ensures
        spec_ping_step(st, PingInput::Cmd(PingCommand::Disconnect(peer_id))).emit is None,
        spec_ping_step(st, PingInput::Cmd(PingCommand::Disconnect(peer_id))).state == st,
{
}

/// The ping loop consumes its inputs strictly in arrival order: running
/// one batch and then another emits exactly the events of their
/// concatenation, in order.
pub proof fn lemma_ping_run_in_order(st: SessionState, a: Seq<PingInput>, b: Seq<PingInput>)
    ensures
        spec_ping_run(st, a + b).0 == spec_ping_run(spec_ping_run(st, a).0, b).0,
        spec_ping_run(st, a + b).1 == spec_ping_run(st, a).1 + spec_ping_run(
            spec_ping_run(st, a).0,
            b,
        ).1,
    decreases a.len(),
{
    if a.len() == 0 {
        assert(a + b =~= b);
        assert(spec_ping_run(st, a).1 + spec_ping_run(st, b).1 =~= spec_ping_run(st, b).1);
    } else {
        let s = spec_ping_step(st, a[0]);
        assert((a + b).skip(1) =~= a.skip(1) + b);
        lemma_ping_run_in_order(s.state, a.skip(1), b);
        let head = (match s.emit {
            Option::Some(e) => seq![e],
            Option::None => Seq::<PingEvent>::empty(),
        });
        assert(head + (spec_ping_run(s.state, a.skip(1)).1 + spec_ping_run(
            spec_ping_run(s.state, a.skip(1)).0,
            b,
        ).1) =~= (head + spec_ping_run(s.state, a.skip(1)).1) + spec_ping_run(
            spec_ping_run(s.state, a.skip(1)).0,
            b,
        ).1);
    }
}

/// A terminated identify loop stays terminated and emits nothing,
/// whatever inputs still arrive.
pub proof fn lemma_identify_terminated_is_silent(inputs: Seq<IdentifyInput>)
    ensures
        spec_identify_run(SessionState::Terminated, inputs) == (
            SessionState::Terminated,
            Seq::<IdentifyEvent>::empty(),
        ),
    decreases inputs.len(),
{
    if inputs.len() > 0 {
        lemma_identify_terminated_is_silent(inputs.skip(1));
        assert(Seq::<IdentifyEvent>::empty() + Seq::<IdentifyEvent>::empty() =~= Seq::<
            IdentifyEvent,
        >::empty());
    }
}

/// A stop command ends the identify loop whatever else is pending,
/// further stops change nothing, and no event is emitted after the loop
/// exits.
pub proof fn lemma_identify_stop_is_idempotent(st: SessionState, later: Seq<IdentifyInput>)
    ensures
        spec_identify_step(st, IdentifyInput::Cmd(IdentifyCommand::Stop)).state
            == SessionState::Terminated,
        spec_identify_step(st, IdentifyInput::Cmd(IdentifyCommand::Stop)).emit is None,
        spec_identify_run(
            spec_identify_step(st, IdentifyInput::Cmd(IdentifyCommand::Stop)).state,
            later,
        ) == (SessionState::Terminated, Seq::<IdentifyEvent>::empty()),
{
    lemma_identify_terminated_is_silent(later);
}

/// A disconnect command to a running identify loop emits no event and
/// keeps the loop running: on a peer with no active connection it is a
/// no-op, not an error.
pub proof fn lemma_identify_disconnect_is_quiet(st: SessionState, peer_id: String)
    ensures
        spec_identify_step(st, IdentifyInput::Cmd(IdentifyCommand::Disconnect(peer_id))).emit
            is None,
        spec_identify_step(st, IdentifyInput::Cmd(IdentifyCommand::Disconnect(peer_id))).state
            == st,
{
}

/// The identify loop consumes its inputs strictly in arrival order:
/// running one batch and then another emits exactly the events of their
/// concatenation, in order.
pub proof fn lemma_identify_run_in_order(
    st: SessionState,
    a: Seq<IdentifyInput>,
    b: Seq<IdentifyInput>,
)
    ensures
        spec_identify_run(st, a + b).0 == spec_identify_run(spec_identify_run(st, a).0, b).0,
        spec_identify_run(st, a + b).1 == spec_identify_run(st, a).1 + spec_identify_run(
            spec_identify_run(st, a).0,
            b,
        ).1,
    decreases a.len(),
{
    if a.len() == 0 {
        assert(a + b =~= b);
        assert(spec_identify_run(st, a).1 + spec_identify_run(st, b).1 =~= spec_identify_run(
            st,
            b,
        ).1);
    } else {
        let s = spec_identify_step(st, a[0]);
        assert((a + b).skip(1) =~= a.skip(1) + b);
        lemma_identify_run_in_order(s.state, a.skip(1), b);
        let head = (match s.emit {
            Option::Some(e) => seq![e],
            Option::None => Seq::<IdentifyEvent>::empty(),
        });
        assert(head + (spec_identify_run(s.state, a.skip(1)).1 + spec_identify_run(
            spec_identify_run(s.state, a.skip(1)).0,
            b,
        ).1) =~= (head + spec_identify_run(s.state, a.skip(1)).1) + spec_identify_run(
            spec_identify_run(s.state, a.skip(1)).0,
            b,
        ).1);
    }
}

} // verus!
