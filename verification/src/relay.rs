//! One relay session: dial the remote target, wrap the two streams where the
//! endpoint asks for it, forward until the streams end.
//!
//! The library decides; the caller does the work on sockets. Each decision is a
//! step from a state and the outcome of the last piece of work to the next
//! state and the next piece of work. No step can fail, and no failure of the
//! outside work is handed on: it ends the session, with a line for the log.

use vstd::prelude::*;
use crate::addr::{RemoteAddr, RemoteAddrView, SocketAddr};
use crate::endpoint::{Acceptor, ConnectOpts, Connector};
use crate::tuning::{buffer_size, Platform, Tuning};

verus! {

/// Where a session stands.
#[derive(Clone, Copy, Debug, PartialEq, Eq, Structural)]
pub enum RelayState {
    Idle,
    Dialing,
    TransportHandshaking,
    Relaying,
    Terminated,
}

/// What the outside work reports.
#[derive(Clone, Copy, Debug, PartialEq, Eq, Structural)]
pub enum RelayEvent {
    /// A local stream was accepted.
    Accepted,
    /// The remote target was reached.
    Connected { local_peer: SocketAddr, remote_peer: SocketAddr },
    /// The remote target was not reached.
    DialFailed,
    /// Both streams are wrapped.
    HandshakeDone,
    /// Wrapping one of the streams failed.
    HandshakeFailed,
    /// Both directions reached the end of their stream.
    RelayDone,
    /// Reading or writing failed while forwarding.
    RelayFailed,
}

/// The work that the caller does next.
#[derive(Clone, Copy, Debug, PartialEq, Eq, Structural)]
pub enum RelayAction {
    /// Open the outbound connection.
    Dial,
    /// Wrap the two streams as `handshake_plan` says.
    Handshake,
    /// Forward in both directions; over the wrapped streams where `wrapped` holds.
    Relay { wrapped: bool },
    /// Drop the connection. The session is over.
    Close,
}

/// A line for the log.
#[derive(Clone, Debug, PartialEq, Eq)]
pub enum LogEntry {
    /// A connection stands: from this local peer, to the remote target as it
    /// is configured, which was reached at this remote peer. For the
    /// informational level.
    Established { local_peer: SocketAddr, remote: RemoteAddr, remote_peer: SocketAddr },
    /// The session failed in this state. For the debug level.
    Failed(RelayState),
}

/// One decision.
#[derive(Clone, Debug, PartialEq, Eq)]
pub struct Step {
    pub next: RelayState,
    pub action: RelayAction,
    pub log: Option<LogEntry>,
}

/// A session as its task carries it along: where it stands, and the buffer
/// size that was set when it started.
#[derive(Clone, Copy, Debug, PartialEq, Eq, Structural)]
pub struct Session {
    pub state: RelayState,
    pub pipe_cap: Option<usize>,
}

/// The work of a handshake: which wrapper goes on which stream.
#[derive(Clone, Copy, Debug, PartialEq, Eq)]
pub struct HandshakePlan<'a> {
    /// Wraps the local stream that was accepted.
    pub local: &'a Acceptor,
    /// Wraps the remote stream that was dialed.
    pub remote: &'a Connector,
}

/// One piece of the work of dialing.
#[derive(Clone, Copy, Debug, PartialEq, Eq, Structural)]
pub enum DialStep {
    /// Bind the socket to this source address.
    BindSource(SocketAddr),
    /// Bind the socket to the endpoint's network interface.
    BindDevice,
    /// Connect the socket to this address.
    Connect(SocketAddr),
}

/// The end of a session: nothing more to do, whatever comes in.
pub open spec fn halt(log: Option<LogEntry>) -> Step {
    Step { next: RelayState::Terminated, action: RelayAction::Close, log }
}

/// The decision in `state` on `event`, for a session toward `remote` that
/// wraps its streams (`wrapped`) or not. An event that does not belong to the
/// state counts as a failure in that state.
pub open spec fn step(
    state: RelayState,
    event: RelayEvent,
    remote: RemoteAddr,
    wrapped: bool,
) -> Step {
    match (state, event) {
        (RelayState::Terminated, _) => halt(None),
        (RelayState::Idle, RelayEvent::Accepted) => Step {
            next: RelayState::Dialing,
            action: RelayAction::Dial,
            log: None,
        },
        (RelayState::Dialing, RelayEvent::Connected { local_peer, remote_peer }) => Step {
            next: if wrapped {
                RelayState::TransportHandshaking
            } else {
                RelayState::Relaying
            },
            action: if wrapped {
                RelayAction::Handshake
            } else {
                RelayAction::Relay { wrapped: false }
            },
            log: Some(LogEntry::Established { local_peer, remote, remote_peer }),
        },
        (RelayState::TransportHandshaking, RelayEvent::HandshakeDone) => Step {
            next: RelayState::Relaying,
            action: RelayAction::Relay { wrapped: true },
            log: None,
        },
        (RelayState::Relaying, RelayEvent::RelayDone) => halt(None),
        (_, _) => halt(Some(LogEntry::Failed(state))),
    }
}

/// The state after the events `events`, taken in order from `state`.
pub open spec fn run(
    state: RelayState,
    events: Seq<RelayEvent>,
    remote: RemoteAddr,
    wrapped: bool,
) -> RelayState
    decreases events.len(),
{
    if events.len() == 0 {
        state
    } else {
        run(
            step(state, events[0], remote, wrapped).next,
            events.subrange(1, events.len() as int),
            remote,
            wrapped,
        )
    }
}

/// How many lines of the kind `Established` the events `events` put into the
/// log, taken in order from `state`.
pub open spec fn established_lines(
    state: RelayState,
    events: Seq<RelayEvent>,
    remote: RemoteAddr,
    wrapped: bool,
) -> nat
    decreases events.len(),
{
    if events.len() == 0 {
        0
    } else {
        let s = step(state, events[0], remote, wrapped);
        let rest = established_lines(
            s.next,
            events.subrange(1, events.len() as int),
            remote,
            wrapped,
        );
        if s.log is Some && s.log->0 is Established {
            1 + rest
        } else {
            rest
        }
    }
}

/// How many lines of the kind `Failed` the events `events` put into the log,
/// taken in order from `state`.
pub open spec fn failure_lines(
    state: RelayState,
    events: Seq<RelayEvent>,
    remote: RemoteAddr,
    wrapped: bool,
) -> nat
    decreases events.len(),
{
    if events.len() == 0 {
        0
    } else {
        let s = step(state, events[0], remote, wrapped);
        let rest = failure_lines(s.next, events.subrange(1, events.len() as int), remote, wrapped);
        if s.log is Some && s.log->0 is Failed {
            1 + rest
        } else {
            rest
        }
    }
}

/// How far a session has come.
pub open spec fn rank(state: RelayState) -> nat {
    match state {
        RelayState::Idle => 0,
        RelayState::Dialing => 1,
        RelayState::TransportHandshaking => 2,
        RelayState::Relaying => 3,
        RelayState::Terminated => 4,
    }
}

/// `event` reports a failure of the outside work.
pub open spec fn is_failure(event: RelayEvent) -> bool {
    event is DialFailed || event is HandshakeFailed || event is RelayFailed
}

/// The address that a dial goes to. A fixed target is itself, whatever the
/// resolver answered; a domain name is the first address of this dial's own
/// answer, with its zone and with the target's port, and nothing where the
/// answer is empty. The ports of the answer are not looked at.
pub open spec fn dial_target(remote: RemoteAddrView, answer: Seq<SocketAddr>) -> Option<
    SocketAddr,
> {
    match remote {
        RemoteAddrView::SocketAddr(a) => Some(a),
        RemoteAddrView::DomainName(_, port) => if answer.len() > 0 {
            Some(SocketAddr { ip: answer[0].ip, port, scope_id: answer[0].scope_id })
        } else {
            None
        },
    }
}

/// The work of one dial, in order: bind the source address where one is set,
/// then bind the interface where one is set, then connect.
pub open spec fn dial_steps(source: Option<SocketAddr>, device: bool, target: SocketAddr) -> Seq<
    DialStep,
> {
    let bind = match source {
        Some(a) => seq![DialStep::BindSource(a)],
        None => Seq::<DialStep>::empty(),
    };
    let tie = if device {
        seq![DialStep::BindDevice]
    } else {
        Seq::<DialStep>::empty()
    };
    bind + tie + seq![DialStep::Connect(target)]
}

impl RemoteAddr {
    /// The host that every dial has to look up; `None` for a fixed address.
    pub fn lookup_host(&self) -> (r: Option<&String>)
        ensures
            match self@ {
                RemoteAddrView::SocketAddr(_) => r is None,
                RemoteAddrView::DomainName(host, _) => r is Some && r->0@ == host,
            },
    {
        match self {
            RemoteAddr::SocketAddr(_) => None,
            RemoteAddr::DomainName(host, _) => Some(host),
        }
    }

    /// The address that this dial goes to, given what the resolver answered
    /// for it.
    pub fn resolve(&self, answer: &Vec<SocketAddr>) -> (r: Option<SocketAddr>)
        ensures
            r == dial_target(self@, answer@),
    {
        match self {
            RemoteAddr::SocketAddr(a) => Some(*a),
            RemoteAddr::DomainName(_, port) => {
                if answer.len() > 0 {
                    Some(
                        SocketAddr {
                            ip: answer[0].ip,
                            port: *port,
                            scope_id: answer[0].scope_id,
                        },
                    )
                } else {
                    None
                }
            },
        }
    }
}

/// The work of dialing `target` under the policy `conn_opts`. An interface is
/// bound only where the platform can do that; elsewhere the setting is passed
/// over.
pub fn dial_plan(conn_opts: &ConnectOpts, platform: &Platform, target: SocketAddr) -> (r: Vec<
    DialStep,
>)
    ensures
        r@ == dial_steps(
            conn_opts.send_through,
            conn_opts.bind_interface is Some && platform.bind_device,
            target,
        ),
{
    let mut plan: Vec<DialStep> = Vec::new();
    if let Some(a) = conn_opts.send_through {
        plan.push(DialStep::BindSource(a));
    }
    if conn_opts.bind_interface.is_some() && platform.bind_device {
        plan.push(DialStep::BindDevice);
    }
    plan.push(DialStep::Connect(target));
    assert(plan@ =~= dial_steps(
        conn_opts.send_through,
        conn_opts.bind_interface is Some && platform.bind_device,
        target,
    ));
    plan
}

impl RemoteAddr {
    /// A second value that holds the same.
    pub fn duplicate(&self) -> (r: RemoteAddr)
        ensures
            r == *self,
    {
        match self {
            RemoteAddr::SocketAddr(a) => RemoteAddr::SocketAddr(*a),
            RemoteAddr::DomainName(host, port) => RemoteAddr::DomainName(host.clone(), *port),
        }
    }
}

/// The work of the handshake under the policy `conn_opts`: the acceptor of its
/// transport goes on the accepted stream, the connector on the dialed one.
/// There is none where the policy has no transport; no session is then told
/// to shake hands.
pub fn handshake_plan(conn_opts: &ConnectOpts) -> (r: Option<HandshakePlan<'_>>)
    ensures
        match conn_opts.transport {
            Some(pair) => r is Some && *r->0.local == pair.accept && *r->0.remote == pair.connect,
            None => r is None,
        },
{
    match &conn_opts.transport {
        Some(pair) => Some(HandshakePlan { local: &pair.accept, remote: &pair.connect }),
        None => None,
    }
}

/// Decides what a session does next. The session starts in `Idle` with the
/// event `Accepted`, and is over when the action is `Close`.
pub fn connect_and_relay(
    state: RelayState,
    event: RelayEvent,
    raddr: &RemoteAddr,
    conn_opts: &ConnectOpts,
) -> (r: Step)
    ensures
        r == step(state, event, *raddr, conn_opts.transport is Some),
        is_failure(event) ==> r.next is Terminated && r.action is Close,
        r.action is Close <==> r.next is Terminated,
        r.action is Handshake ==> conn_opts.transport is Some,
{
    let wrapped = conn_opts.transport.is_some();
    let halt = Step { next: RelayState::Terminated, action: RelayAction::Close, log: None };
    match (state, event) {
        (RelayState::Terminated, _) => halt,
        (RelayState::Idle, RelayEvent::Accepted) => Step {
            next: RelayState::Dialing,
            action: RelayAction::Dial,
            log: None,
        },
        (RelayState::Dialing, RelayEvent::Connected { local_peer, remote_peer }) => {
            let log = Some(
                LogEntry::Established { local_peer, remote: raddr.duplicate(), remote_peer },
            );
            if wrapped {
                Step { next: RelayState::TransportHandshaking, action: RelayAction::Handshake, log }
            } else {
                Step {
                    next: RelayState::Relaying,
                    action: RelayAction::Relay { wrapped: false },
                    log,
                }
            }
        },
        (RelayState::TransportHandshaking, RelayEvent::HandshakeDone) => Step {
            next: RelayState::Relaying,
            action: RelayAction::Relay { wrapped: true },
            log: None,
        },
        (RelayState::Relaying, RelayEvent::RelayDone) => halt,
        (_, _) => Step {
            next: RelayState::Terminated,
            action: RelayAction::Close,
            log: Some(LogEntry::Failed(state)),
        },
    }
}

impl Session {
    /// A session for a stream that was just accepted. It takes the buffer size
    /// as it is set now and keeps it: what is set later bears on later
    /// sessions only.
    pub fn start(tuning: &Tuning) -> (r: Session)
        ensures
            r.state == RelayState::Idle,
            r.pipe_cap == tuning.pipe_cap,
    {
        Session { state: RelayState::Idle, pipe_cap: tuning.pipe_cap }
    }

    /// The buffer size that this session forwards with; absent where the copy
    /// is left to its own size.
    pub fn buffer(&self) -> (r: Option<usize>)
        ensures
            r == buffer_size(self.pipe_cap),
    {
        match self.pipe_cap {
            Some(cap) => if cap > 0 {
                Some(cap)
            } else {
                None
            },
            None => None,
        }
    }

    /// Takes the decision of `connect_and_relay` and moves on to its state.
    pub fn advance(&mut self, event: RelayEvent, raddr: &RemoteAddr, conn_opts: &ConnectOpts) -> (r:
        Step)
        ensures
            r == step(old(self).state, event, *raddr, conn_opts.transport is Some),
            final(self).state == r.next,
            final(self).pipe_cap == old(self).pipe_cap,
    {
        let step = connect_and_relay(self.state, event, raddr, conn_opts);
        self.state = step.next;
        step
    }
}

/// Every failure of the outside work ends the session at once, in whatever
/// state it comes, and goes to the log at most: the step is defined, its action
/// is to close, and nothing else is left to the caller.
pub proof fn lemma_failure_is_contained(
    state: RelayState,
    event: RelayEvent,
    remote: RemoteAddr,
    wrapped: bool,
)
    requires
        is_failure(event),
    ensures
        step(state, event, remote, wrapped).next == RelayState::Terminated,
        step(state, event, remote, wrapped).action == RelayAction::Close,
        state != RelayState::Terminated ==> step(state, event, remote, wrapped).log == Some(
            LogEntry::Failed(state),
        ),
{
}

/// Every step moves a session forward, and a session that is over stays over.
pub proof fn lemma_step_advances(
    state: RelayState,
    event: RelayEvent,
    remote: RemoteAddr,
    wrapped: bool,
)
    ensures
        state != RelayState::Terminated ==> rank(step(state, event, remote, wrapped).next) > rank(state),
        state == RelayState::Terminated ==> step(state, event, remote, wrapped) == halt(None),
{
}

/// A session is over after four events at most, whatever they are: no
/// combination of outcomes keeps it from completing.
pub proof fn lemma_session_completes(
    state: RelayState,
    events: Seq<RelayEvent>,
    remote: RemoteAddr,
    wrapped: bool,
)
    requires
        events.len() + rank(state) >= 4,
    ensures
        run(state, events, remote, wrapped) == RelayState::Terminated,
    decreases events.len(),
{
    if events.len() > 0 {
        lemma_step_advances(state, events[0], remote, wrapped);
        lemma_session_completes(
            step(state, events[0], remote, wrapped).next,
            events.subrange(1, events.len() as int),
            remote,
            wrapped,
        );
    }
}

/// A session writes at most one line for a connection that stands and at most
/// one line for a failure, whatever happens; past the dial no connection is
/// announced any more, and a session that is over writes nothing.
pub proof fn lemma_log_is_short(
    state: RelayState,
    events: Seq<RelayEvent>,
    remote: RemoteAddr,
    wrapped: bool,
)
    ensures
        established_lines(state, events, remote, wrapped) <= 1,
        rank(state) >= 2 ==> established_lines(state, events, remote, wrapped) == 0,
        failure_lines(state, events, remote, wrapped) <= 1,
        state == RelayState::Terminated ==> failure_lines(state, events, remote, wrapped) == 0,
    decreases events.len(),
{
    if events.len() > 0 {
        lemma_step_advances(state, events[0], remote, wrapped);
        lemma_log_is_short(
            step(state, events[0], remote, wrapped).next,
            events.subrange(1, events.len() as int),
            remote,
            wrapped,
        );
    }
}

/// A dial connects last and once, and binds the source address before the
/// interface where it binds both.
pub proof fn lemma_dial_connects_last(source: Option<SocketAddr>, device: bool, target: SocketAddr)
    ensures
        dial_steps(source, device, target).len() >= 1,
        dial_steps(source, device, target).last() == DialStep::Connect(target),
        forall|i: int|
            0 <= i < dial_steps(source, device, target).len() - 1 ==> !(#[trigger] dial_steps(
                source,
                device,
                target,
            )[i] is Connect),
        source is Some && device ==> dial_steps(source, device, target) == seq![
            DialStep::BindSource(source->0),
            DialStep::BindDevice,
            DialStep::Connect(target),
        ],
{
    let steps = dial_steps(source, device, target);
    if source is Some && device {
        assert(steps =~= seq![
            DialStep::BindSource(source->0),
            DialStep::BindDevice,
            DialStep::Connect(target),
        ]);
    }
}

/// Payload is forwarded over wrapped streams only after the handshake is done,
/// and a session that wraps its streams never forwards over the bare ones; a
/// session that does not wrap them never shakes hands.
pub proof fn lemma_handshake_precedes_payload(
    state: RelayState,
    event: RelayEvent,
    remote: RemoteAddr,
    wrapped: bool,
)
    ensures
        step(state, event, remote, wrapped).action == (RelayAction::Relay { wrapped: true }) ==> state
            == RelayState::TransportHandshaking && event == RelayEvent::HandshakeDone,
        wrapped ==> step(state, event, remote, wrapped).action != (RelayAction::Relay { wrapped: false }),
        !wrapped ==> step(state, event, remote, wrapped).action != RelayAction::Handshake,
        step(state, event, remote, wrapped).action is Relay ==> step(state, event, remote, wrapped).next
            == RelayState::Relaying,
{
}

/// A fixed target resolves to itself every time, whatever the resolver
/// answers.
pub proof fn lemma_fixed_target_is_stable(
    addr: SocketAddr,
    first: Seq<SocketAddr>,
    second: Seq<SocketAddr>,
)
    ensures
        dial_target(RemoteAddrView::SocketAddr(addr), first) == Some(addr),
        dial_target(RemoteAddrView::SocketAddr(addr), first) == dial_target(
            RemoteAddrView::SocketAddr(addr),
            second,
        ),
{
}

/// A domain name resolves by each dial's own answer: two dials whose answers
/// begin with different addresses go to different addresses.
pub proof fn lemma_domain_target_follows_answer(
    host: Seq<char>,
    port: u16,
    first: Seq<SocketAddr>,
    second: Seq<SocketAddr>,
)
    requires
        first.len() > 0,
        second.len() > 0,
        first[0].ip != second[0].ip || first[0].scope_id != second[0].scope_id,
    ensures
        dial_target(RemoteAddrView::DomainName(host, port), first) != dial_target(
            RemoteAddrView::DomainName(host, port),
            second,
        ),
        dial_target(RemoteAddrView::DomainName(host, port), first) == Some(
            SocketAddr { ip: first[0].ip, port, scope_id: first[0].scope_id },
        ),
{
}

} // verus!
