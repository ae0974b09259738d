//! Deterministic recovery coordinator. Times are local monotonic milliseconds.
//! The caller drains/discards frozen capture input and invalidates old backend
//! tokens before completing Barrier. Installed acknowledges new KCP/motion/
//! receipt state, NOT merely scheduling its installation. Every callback enters
//! through step(), which checks both deadlines before processing it.

use crate::bytes::{blank, is_blank, same};
use crate::protocol::{Baseline, Control, Envelope, EnvelopeView, Kind, Ownership, Role, Session};
use vstd::prelude::*;

verus! {

pub const RECOVERY_MS: u64 = 2000;

pub const RETRY_MS: u64 = 50;

#[derive(Clone, Copy, Debug, PartialEq, Eq, Structural)]
pub enum State {
    Normal,
    Quiescing,
    AwaitCommit,
    AwaitCommitAck,
    Installing,
    AwaitActivate,
    AwaitActivateAck,
    Closed,
}

#[derive(Clone, Copy, Debug, PartialEq, Eq, Structural)]
pub enum CloseReason {
    RecoveryTimeout,
    PeerTimeout,
    EpochExhausted,
    Identity,
    Protocol,
    Ownership,
    BarrierFailed,
    InstallFailed,
    ClockRegression,
}

/// An unforgeable-by-accident callback token; old session/round completions are ignored.
#[derive(Clone, Copy, Debug, PartialEq, Eq)]
pub struct Round {
    session: Session,
    epoch: u64,
}

impl Round {
    /// The round of recovery that ends `epoch` of `session`.
    pub closed spec fn of(session: Session, epoch: u64) -> Round {
        Round { session, epoch }
    }

    pub closed spec fn session_of(self) -> Session {
        self.session
    }

    pub closed spec fn epoch_of(self) -> u64 {
        self.epoch
    }

    pub fn session(self) -> (r: Session)
        ensures
            r == self.session_of(),
    {
        self.session
    }

    pub fn old_epoch(self) -> (r: u64)
        ensures
            r == self.epoch_of(),
    {
        self.epoch
    }

    pub fn next_epoch(self) -> (r: u64)
        requires
            self.epoch_of() < u64::MAX,
        ensures
            r == self.epoch_of() + 1,
    {
        self.epoch + 1
    }

    pub fn same(&self, other: &Round) -> (r: bool)
        ensures
            r == (*self == *other),
    {
        same(&self.session, &other.session) && self.epoch == other.epoch
    }
}

/// A round is its session and its epoch.
pub broadcast proof fn round_parts(round: Round)
    ensures
        #![trigger round.session_of()]
        #![trigger round.epoch_of()]
        round == Round::of(round.session_of(), round.epoch_of()),
{
}

pub broadcast proof fn round_of(session: Session, epoch: u64)
    ensures
        (#[trigger] Round::of(session, epoch)).session_of() == session,
        Round::of(session, epoch).epoch_of() == epoch,
{
}

#[derive(Clone, Copy, Debug)]
pub enum Input {
    Start,
    Control(Control),
    Barrier { round: Round, result: Result<Baseline, ()> },
    Installed { round: Round, result: Result<(), ()> },
    /// Only authenticated current-session liveness; never stale data/receipts.
    PeerActivity,
    Tick,
}

/// Immutable, bounded result of one event. No public fields let a driver change
/// a failed operation to success. No queues: at most one outbound control and
/// one outstanding barrier/install token. Repeated tokens must be coalesced.
#[derive(Clone, Debug)]
pub struct Outcome {
    state: State,
    closed: Option<CloseReason>,
    control: Option<Control>,
    barrier: Option<Round>,
    install: Option<Round>,
    peer_baseline: Option<Baseline>,
}

/// What one event resulted in.
pub ghost struct Effect {
    pub state: State,
    pub closed: Option<CloseReason>,
    pub control: Option<Control>,
    pub barrier: Option<Round>,
    pub install: Option<Round>,
    pub peer_baseline: Option<Baseline>,
}

impl View for Outcome {
    type V = Effect;

    closed spec fn view(&self) -> Effect {
        Effect {
            state: self.state,
            closed: self.closed,
            control: self.control,
            barrier: self.barrier,
            install: self.install,
            peer_baseline: self.peer_baseline,
        }
    }
}

impl Outcome {
    pub fn state(&self) -> (r: State)
        ensures
            r == self@.state,
    {
        self.state
    }

    pub fn closed(&self) -> (r: Option<CloseReason>)
        ensures
            r == self@.closed,
    {
        self.closed
    }

    pub fn control(&self) -> (r: Option<&Control>)
        ensures
            r == (match self@.control {
                Some(c) => Some(&c),
                None => None,
            }),
    {
        self.control.as_ref()
    }

    pub fn barrier(&self) -> (r: Option<Round>)
        ensures
            r == self@.barrier,
    {
        self.barrier
    }

    pub fn install(&self) -> (r: Option<Round>)
        ensures
            r == self@.install,
    {
        self.install
    }

    pub fn peer_baseline(&self) -> (r: Option<Baseline>)
        ensures
            r == self@.peer_baseline,
    {
        self.peer_baseline
    }
}

pub struct Recovery {
    session: Session,
    epoch: u64,
    role: Role,
    ownership: Ownership,
    owner: Role,
    state: State,
    closed: Option<CloseReason>,
    started: Option<u64>,
    last_now: u64,
    last_peer: u64,
    peer_ms: u64,
    last_send: Option<u64>,
    local: Option<Baseline>,
    peer: Option<Baseline>,
    prepared: bool,
    pending: Option<Control>,
    // Exactly ONE previous terminal response; replaced at each completion.
    // Neither delayed datagrams nor retries can allocate an unbounded history.
    terminal: Option<Control>,
}

/// The state of the coordinator.
pub ghost struct Machine {
    pub session: Session,
    pub epoch: u64,
    pub role: Role,
    pub ownership: Ownership,
    pub owner: Role,
    pub state: State,
    pub closed: Option<CloseReason>,
    /// When the current recovery began.
    pub started: Option<u64>,
    /// The latest clock reading.
    pub last_now: u64,
    /// When the peer was last known to live.
    pub last_peer: u64,
    pub peer_ms: u64,
    /// When a control frame last left, unless the frame to send has changed since.
    pub last_send: Option<u64>,
    pub local: Option<Baseline>,
    pub peer: Option<Baseline>,
    /// Whether the dialer has asked the acceptor to prepare.
    pub prepared: bool,
    /// The control frame that is sent until the peer answers.
    pub pending: Option<Control>,
    /// The last control frame of the previous round.
    pub terminal: Option<Control>,
}

impl View for Recovery {
    type V = Machine;

    closed spec fn view(&self) -> Machine {
        Machine {
            session: self.session,
            epoch: self.epoch,
            role: self.role,
            ownership: self.ownership,
            owner: self.owner,
            state: self.state,
            closed: self.closed,
            started: self.started,
            last_now: self.last_now,
            last_peer: self.last_peer,
            peer_ms: self.peer_ms,
            last_send: self.last_send,
            local: self.local,
            peer: self.peer,
            prepared: self.prepared,
            pending: self.pending,
            terminal: self.terminal,
        }
    }
}

/// Whether two control frames say the same, coordinates compared as numbers.
pub open spec fn same_control(a: Control, b: Control) -> bool {
    &&& a.session == b.session
    &&& a.epoch == b.epoch
    &&& a.source == b.source
    &&& a.kind == b.kind
    &&& match (a.baseline, b.baseline) {
        (Some(x), Some(y)) => x.agrees(y),
        (None, None) => true,
        _ => false,
    }
}

fn control_same(a: &Control, b: &Control) -> (r: bool)
    ensures
        r == same_control(*a, *b),
{
    let based = match (&a.baseline, &b.baseline) {
        (Some(x), Some(y)) => x.same(y),
        (None, None) => true,
        _ => false,
    };
    same(&a.session, &b.session) && a.epoch == b.epoch && a.source == b.source && a.kind == b.kind
        && based
}

impl Machine {
    pub open spec fn round(self) -> Round {
        Round::of(self.session, self.epoch)
    }

    /// A recovery is under way.
    pub open spec fn recovering(self) -> bool {
        self.state != State::Normal && self.state != State::Closed
    }

    /// The deadline that has passed at `now`; of two, the one that passed first.
    pub open spec fn expired(self, now: u64) -> Option<CloseReason> {
        if now < self.last_now {
            Some(CloseReason::ClockRegression)
        } else {
            let late = self.started is Some && now >= self.started->0 + RECOVERY_MS;
            let silent = now >= self.last_peer + self.peer_ms;
            if late && (!silent || self.started->0 + RECOVERY_MS <= self.last_peer + self.peer_ms) {
                Some(CloseReason::RecoveryTimeout)
            } else if silent {
                Some(CloseReason::PeerTimeout)
            } else {
                None
            }
        }
    }

    /// The epoch in which input may be sent at `now`.
    pub open spec fn send_gate(self, now: u64) -> Option<u64> {
        if self.state == State::Normal && self.expired(now) is None {
            Some(self.epoch)
        } else {
            None
        }
    }

    /// The epoch from which input is accepted at `now`.
    pub open spec fn receive_gate(self, now: u64) -> Option<u64> {
        if self.expired(now) is Some {
            None
        } else if self.state == State::Normal {
            Some(self.epoch)
        } else if self.state == State::AwaitActivate || self.state == State::AwaitActivateAck {
            Some((self.epoch + 1) as u64)
        } else {
            None
        }
    }

    /// Whether data in an envelope is accepted at `now`.
    pub open spec fn accepts(self, now: u64, envelope: EnvelopeView) -> bool {
        &&& !(envelope is Control)
        &&& self.receive_gate(now) is Some
        &&& envelope.session() == self.session@
        &&& envelope.epoch() == self.receive_gate(now)->0
        &&& envelope.source() == self.role.other()
    }

    /// The baseline is sound and names the confirmed owner.
    pub open spec fn fits(self, b: Baseline) -> bool {
        b@.sound() && b.ownership == self.ownership && b.owner == self.owner
    }

    /// The control frame of this round of the given kind.
    pub open spec fn frame(self, kind: Kind) -> Control {
        Control {
            session: self.session,
            epoch: self.epoch,
            source: self.role,
            kind,
            baseline: if kind.carries() {
                self.local
            } else {
                None
            },
        }
    }

    pub open spec fn close(self, reason: CloseReason) -> Machine {
        Machine { closed: Some(reason), state: State::Closed, pending: None, ..self }
    }

    /// The control frame to send becomes one of this kind; a new one goes out at once.
    pub open spec fn publish(self, kind: Kind) -> Machine {
        let control = self.frame(kind);
        if self.pending is Some && same_control(self.pending->0, control) {
            self
        } else {
            Machine { pending: Some(control), last_send: None, ..self }
        }
    }

    pub open spec fn start(self, now: u64) -> Machine {
        if self.state != State::Normal {
            self
        } else if self.epoch == u64::MAX {
            self.close(CloseReason::EpochExhausted)
        } else {
            Machine {
                started: Some(now),
                state: State::Quiescing,
                local: None,
                peer: None,
                prepared: false,
                ..self
            }.publish(
                if self.role == Role::Dialer {
                    Kind::Prepare
                } else {
                    Kind::Request
                },
            )
        }
    }

    /// Leaves the quiescent stage once both sides are known to be quiet.
    pub open spec fn ready(self) -> Machine {
        if self.state != State::Quiescing || self.local is None {
            self
        } else if self.role == Role::Dialer && self.peer is Some {
            Machine { state: State::AwaitCommitAck, ..self }.publish(Kind::Commit)
        } else if self.role == Role::Acceptor && self.prepared {
            Machine { state: State::AwaitCommit, ..self }.publish(Kind::Prepared)
        } else {
            self
        }
    }

    pub open spec fn finish(self) -> Machine {
        Machine {
            terminal: Some(
                self.frame(
                    if self.role == Role::Dialer {
                        Kind::Activate
                    } else {
                        Kind::ActivateAck
                    },
                ),
            ),
            epoch: (self.epoch + 1) as u64,
            state: State::Normal,
            started: None,
            pending: None,
            ..self
        }
    }

    /// What a current control frame of the peer does once liveness is renewed.
    pub open spec fn stage(self, now: u64, c: Control) -> (Machine, Option<Control>) {
        if self.state == State::Normal && c.kind != Kind::Request && c.kind != Kind::Prepare {
            (self.close(CloseReason::Protocol), None)
        } else {
            let m = if self.state == State::Normal {
                self.start(now)
            } else {
                self
            };
            if m.role == Role::Acceptor && c.kind == Kind::Prepare {
                (Machine { prepared: true, ..m }.ready(), None)
            } else if m.role == Role::Dialer && c.kind == Kind::Prepared {
                (Machine { peer: c.baseline, ..m }.ready(), None)
            } else if m.role == Role::Acceptor && c.kind == Kind::Commit && m.state
                == State::AwaitCommit {
                (Machine { peer: c.baseline, state: State::Installing, ..m }, None)
            } else if m.role == Role::Dialer && c.kind == Kind::CommitAck && m.state
                == State::AwaitCommitAck {
                (Machine { state: State::Installing, ..m }, None)
            } else if m.role == Role::Acceptor && c.kind == Kind::Activate && m.state
                == State::AwaitActivate {
                (m.finish(), m.finish().terminal)
            } else if m.role == Role::Dialer && c.kind == Kind::ActivateAck && m.state
                == State::AwaitActivateAck {
                (m.finish(), None)
            } else {
                (m, None)
            }
        }
    }

    /// What a control frame of the peer does, and the answer that it asks for.
    pub open spec fn on_control(self, now: u64, c: Control) -> (Machine, Option<Control>) {
        if c.session != self.session || c.source != self.role.other() {
            (self.close(CloseReason::Identity), None)
        } else if !c@.sound() || c.epoch > self.epoch {
            (self.close(CloseReason::Protocol), None)
        } else if c.epoch < self.epoch {
            (
                self,
                match self.terminal {
                    Some(t) => if t.epoch == c.epoch && !(self.role == Role::Dialer && c.kind
                        == Kind::ActivateAck) {
                        Some(t)
                    } else {
                        None
                    },
                    None => None,
                },
            )
        } else if c.baseline is Some && (!self.fits(c.baseline->0) || (self.peer is Some
            && !self.peer->0.agrees(c.baseline->0))) {
            (self.close(CloseReason::Ownership), None)
        } else {
            Machine { last_peer: now, ..self }.stage(now, c)
        }
    }

    /// What one input does before its deadline, and the answer that it asks for.
    pub open spec fn advance(self, now: u64, input: Input) -> (Machine, Option<Control>) {
        match input {
            Input::Start => (self.start(now), None),
            Input::PeerActivity => (Machine { last_peer: now, ..self }, None),
            Input::Tick => (self, None),
            Input::Control(c) => self.on_control(now, c),
            Input::Barrier { round, result } => if round == self.round() && self.state
                == State::Quiescing && self.local is None {
                match result {
                    Ok(b) => if self.fits(b) {
                        (Machine { local: Some(b), ..self }.ready(), None)
                    } else {
                        (self.close(CloseReason::Ownership), None)
                    },
                    Err(_) => (self.close(CloseReason::BarrierFailed), None),
                }
            } else {
                (self, None)
            },
            Input::Installed { round, result } => if round == self.round() && self.state
                == State::Installing {
                if result is Err {
                    (self.close(CloseReason::InstallFailed), None)
                } else if self.role == Role::Dialer {
                    (
                        Machine { state: State::AwaitActivateAck, ..self }.publish(Kind::Activate),
                        None,
                    )
                } else {
                    (
                        Machine { state: State::AwaitActivate, ..self }.publish(Kind::CommitAck),
                        None,
                    )
                }
            } else {
                (self, None)
            },
        }
    }

    /// The machine after one input, with the answer that the input asks for.
    pub open spec fn react(self, now: u64, input: Input) -> (Machine, Option<Control>) {
        if self.state == State::Closed {
            (self, None)
        } else {
            match self.expired(now) {
                Some(reason) => (self.close(reason), None),
                None => Machine { last_now: now, ..self }.advance(now, input),
            }
        }
    }

    /// The control frame that leaves at `now`: the answer or else the pending frame, at most one
    /// every `RETRY_MS` unless it is new or ends the round.
    pub open spec fn emitted(self, now: u64, answer: Option<Control>, completed: bool) -> Option<
        Control,
    > {
        let control = if answer is Some {
            answer
        } else {
            self.pending
        };
        if self.state != State::Closed && (completed || self.last_send is None || now
            - self.last_send->0 >= RETRY_MS) {
            control
        } else {
            None
        }
    }

    /// One input: the machine after it, and what it results in.
    pub open spec fn step(self, now: u64, input: Input) -> (Machine, Effect) {
        let (m, answer) = self.react(now, input);
        let completed = self.state != State::Normal && m.state == State::Normal;
        let control = m.emitted(now, answer, completed);
        let after = if control is Some {
            Machine { last_send: Some(now), ..m }
        } else {
            m
        };
        (
            after,
            Effect {
                state: m.state,
                closed: m.closed,
                control,
                barrier: if m.state == State::Quiescing && m.local is None {
                    Some(m.round())
                } else {
                    None
                },
                install: if m.state == State::Installing {
                    Some(m.round())
                } else {
                    None
                },
                peer_baseline: m.peer,
            },
        )
    }

    /// What holds of every coordinator.
    pub open spec fn well_formed(self) -> bool {
        &&& !blank(self.session@)
        &&& !blank(self.ownership@)
        &&& 1 <= self.peer_ms <= 60000
        &&& self.last_peer <= self.last_now
        &&& self.last_send is Some ==> self.last_send->0 <= self.last_now
        &&& self.closed is Some <==> self.state == State::Closed
        &&& self.started is Some ==> self.started->0 <= self.last_now
        &&& self.state == State::Normal ==> self.started is None && self.pending is None
        &&& self.state == State::Closed ==> self.pending is None
        &&& self.recovering() ==> {
            &&& self.epoch < u64::MAX
            &&& self.started is Some
            &&& self.pending == Some(self.frame(self.due()))
            &&& self.local is Some ==> self.fits(self.local->0)
            &&& self.peer is Some ==> self.fits(self.peer->0)
            &&& self.state != State::Quiescing ==> self.local is Some
            &&& (self.state == State::AwaitCommit || self.state == State::AwaitActivate)
                ==> self.role == Role::Acceptor
            &&& (self.state == State::AwaitCommitAck || self.state == State::AwaitActivateAck)
                ==> self.role == Role::Dialer
            &&& (self.state != State::Quiescing && self.state != State::AwaitCommit)
                ==> self.peer is Some
        }
        &&& self.terminal is Some ==> {
            &&& self.terminal->0.epoch < self.epoch
            &&& self.terminal->0@.sound()
            &&& self.terminal->0.session == self.session
            &&& self.terminal->0.source == self.role
            &&& self.terminal->0.kind == (if self.role == Role::Dialer {
                Kind::Activate
            } else {
                Kind::ActivateAck
            })
        }
    }

    /// The kind of control frame that each stage of a recovery repeats.
    pub open spec fn due(self) -> Kind {
        if self.role == Role::Dialer {
            match self.state {
                State::Quiescing => Kind::Prepare,
                State::AwaitActivateAck => Kind::Activate,
                _ => Kind::Commit,
            }
        } else {
            match self.state {
                State::Quiescing => Kind::Request,
                State::AwaitActivate => Kind::CommitAck,
                _ => Kind::Prepared,
            }
        }
    }
}

impl Recovery {
    pub fn peer_remaining(&self, now: u64) -> (r: u64)
        ensures
            r == (if now <= self@.last_peer {
                self@.peer_ms as int
            } else if now - self@.last_peer >= self@.peer_ms {
                0
            } else {
                self@.peer_ms - (now - self@.last_peer)
            }),
    {
        self.peer_ms.saturating_sub(now.saturating_sub(self.last_peer))
    }

    pub fn installation_pending(&self, round: Round, now: u64) -> (r: bool)
        requires
            self@.well_formed(),
        ensures
            r == (self@.state == State::Installing && self@.round() == round && self@.expired(
                now,
            ) is None),
    {
        self.state == State::Installing && self.round().same(&round) && self.expired(
            now,
        ).is_none()
    }

    /// Update only a confirmed normal-phase handover. An in-flight handover
    /// must be rejected by the caller rather than guessed during recovery.
    pub fn set_ownership(&mut self, ownership: Ownership, owner: Role) -> (r: bool)
        requires
            old(self)@.well_formed(),
        ensures
            r == (old(self)@.state == State::Normal && !blank(ownership@)),
            final(self)@ == (if r {
                Machine { ownership, owner, ..old(self)@ }
            } else {
                old(self)@
            }),
            final(self)@.well_formed(),
    {
        if self.state != State::Normal || is_blank(&ownership) {
            return false;
        }
        self.ownership = ownership;
        self.owner = owner;
        true
    }

    pub fn new(
        session: Session,
        epoch: u64,
        role: Role,
        ownership: Ownership,
        owner: Role,
        peer_ms: u64,
        now: u64,
    ) -> (r: Result<Recovery, CloseReason>)
        ensures
            (blank(session@) || blank(ownership@)) <==> r == Err::<Recovery, CloseReason>(
                CloseReason::Identity,
            ),
            (!blank(session@) && !blank(ownership@) && !(1 <= peer_ms <= 60000)) <==> r == Err::<
                Recovery,
                CloseReason,
            >(CloseReason::Protocol),
            r is Ok <==> (!blank(session@) && !blank(ownership@) && 1 <= peer_ms <= 60000),
            r is Ok ==> r->Ok_0@.well_formed() && r->Ok_0@ == (Machine {
                session,
                epoch,
                role,
                ownership,
                owner,
                state: State::Normal,
                closed: None,
                started: None,
                last_now: now,
                last_peer: now,
                peer_ms,
                last_send: None,
                local: None,
                peer: None,
                prepared: false,
                pending: None,
                terminal: None,
            }),
    {
        if is_blank(&session) || is_blank(&ownership) {
            return Err(CloseReason::Identity);
        }
        if peer_ms < 1 || peer_ms > 60000 {
            return Err(CloseReason::Protocol);
        }
        Ok(
            Recovery {
                session,
                epoch,
                role,
                ownership,
                owner,
                state: State::Normal,
                closed: None,
                started: None,
                last_now: now,
                last_peer: now,
                peer_ms,
                last_send: None,
                local: None,
                peer: None,
                prepared: false,
                pending: None,
                terminal: None,
            },
        )
    }

    pub fn session(&self) -> (r: Session)
        ensures
            r == self@.session,
    {
        self.session
    }

    pub fn epoch(&self) -> (r: u64)
        ensures
            r == self@.epoch,
    {
        self.epoch
    }

    pub fn role(&self) -> (r: Role)
        ensures
            r == self@.role,
    {
        self.role
    }

    pub fn recovery_started(&self) -> (r: Option<u64>)
        ensures
            r == self@.started,
    {
        self.started
    }

    fn round(&self) -> (r: Round)
        ensures
            r == self@.round(),
    {
        Round { session: self.session, epoch: self.epoch }
    }

    fn expired(&self, now: u64) -> (r: Option<CloseReason>)
        requires
            self@.well_formed(),
        ensures
            r == self@.expired(now),
    {
        if now < self.last_now {
            return Some(CloseReason::ClockRegression);
        }
        let silent = now - self.last_peer >= self.peer_ms;
        // When caller ticks late, report the deadline that actually expired first.
        if let Some(start) = self.started {
            if now - start >= RECOVERY_MS && (!silent || start as u128 + RECOVERY_MS as u128
                <= self.last_peer as u128 + self.peer_ms as u128) {
                return Some(CloseReason::RecoveryTimeout);
            }
        }
        if silent {
            Some(CloseReason::PeerTimeout)
        } else {
            None
        }
    }

    /// Check immediately before every send/injection, including after awaits.
    /// The time-aware gates remain closed even if the caller missed a tick.
    pub fn send_epoch(&self, now: u64) -> (r: Option<u64>)
        requires
            self@.well_formed(),
        ensures
            r == self@.send_gate(now),
    {
        if self.state == State::Normal && self.expired(now).is_none() {
            Some(self.epoch)
        } else {
            None
        }
    }

    pub fn receive_epoch(&self, now: u64) -> (r: Option<u64>)
        requires
            self@.well_formed(),
        ensures
            r == self@.receive_gate(now),
    {
        if self.expired(now).is_some() {
            return None;
        }
        match self.state {
            State::Normal => Some(self.epoch),
            State::AwaitActivate | State::AwaitActivateAck => Some(self.epoch + 1),
            _ => None,
        }
    }

    /// Control frames always use step(Control); this gate is only for data.
    pub fn accepts_data(&self, now: u64, envelope: &Envelope) -> (r: bool)
        requires
            self@.well_formed(),
        ensures
            r == self@.accepts(now, envelope@),
    {
        if let Envelope::Control(_) = envelope {
            return false;
        }
        match self.receive_epoch(now) {
            Some(epoch) => envelope.matches(self.session, epoch, self.role.peer()),
            None => false,
        }
    }

    fn close(&mut self, reason: CloseReason)
        ensures
            final(self)@ == old(self)@.close(reason),
    {
        self.closed = Some(reason);
        self.state = State::Closed;
        self.pending = None;
    }

    fn frame(&self, kind: Kind) -> (r: Control)
        ensures
            r == self@.frame(kind),
    {
        Control {
            session: self.session,
            epoch: self.epoch,
            source: self.role,
            kind,
            baseline: if kind.has_baseline() {
                self.local
            } else {
                None
            },
        }
    }

    fn publish(&mut self, kind: Kind)
        ensures
            final(self)@ == old(self)@.publish(kind),
    {
        let control = self.frame(kind);
        let unchanged = match &self.pending {
            Some(pending) => control_same(pending, &control),
            None => false,
        };
        if !unchanged {
            self.pending = Some(control);
            self.last_send = None;
        }
    }

    fn start(&mut self, now: u64)
        ensures
            final(self)@ == old(self)@.start(now),
    {
        if self.state != State::Normal {
            return;
        }
        if self.epoch == u64::MAX {
            self.close(CloseReason::EpochExhausted);
            return;
        }
        self.started = Some(now);
        self.state = State::Quiescing;
        self.local = None;
        self.peer = None;
        self.prepared = false;
        let kind = if self.role == Role::Dialer {
            Kind::Prepare
        } else {
            Kind::Request
        };
        self.publish(kind);
    }

    fn baseline_valid(&self, b: &Baseline) -> (r: bool)
        ensures
            r == self@.fits(*b),
    {
        b.valid() && same(&b.ownership, &self.ownership) && b.owner == self.owner
    }

    fn ready(&mut self)
        ensures
            final(self)@ == old(self)@.ready(),
    {
        if self.state != State::Quiescing || self.local.is_none() {
            return;
        }
        if self.role == Role::Dialer && self.peer.is_some() {
            self.state = State::AwaitCommitAck;
            self.publish(Kind::Commit);
        } else if self.role == Role::Acceptor && self.prepared {
            self.state = State::AwaitCommit;
            self.publish(Kind::Prepared);
        }
    }

    fn finish(&mut self)
        requires
            old(self)@.epoch < u64::MAX,
        ensures
            final(self)@ == old(self)@.finish(),
    {
        let kind = if self.role == Role::Dialer {
            Kind::Activate
        } else {
            Kind::ActivateAck
        };
        self.terminal = Some(self.frame(kind));
        self.epoch = self.epoch + 1;
        self.state = State::Normal;
        self.started = None;
        self.pending = None;
    }

    fn emit(&mut self, now: u64, control: Option<Control>, immediate: bool) -> (r: Option<Control>)
        requires
            old(self)@.last_send is Some ==> old(self)@.last_send->0 <= now,
        ensures
            r == (if immediate || old(self)@.last_send is None || now - old(self)@.last_send->0
                >= RETRY_MS {
                control
            } else {
                None
            }),
            final(self)@ == (if r is Some {
                Machine { last_send: Some(now), ..old(self)@ }
            } else {
                old(self)@
            }),
    {
        let due = match self.last_send {
            Some(last) => now - last >= RETRY_MS,
            None => true,
        };
        if control.is_some() && (immediate || due) {
            self.last_send = Some(now);
            control
        } else {
            None
        }
    }

    fn on_control(&mut self, now: u64, c: Control) -> (r: Option<Control>)
        requires
            old(self)@.well_formed(),
        ensures
            (final(self)@, r) == old(self)@.on_control(now, c),
    {
        if !same(&c.session, &self.session) || c.source != self.role.peer() {
            self.close(CloseReason::Identity);
            return None;
        }
        if !c.valid() {
            self.close(CloseReason::Protocol);
            return None;
        }
        if c.epoch < self.epoch {
            // No liveness refresh, freeze, or new barrier for a completed round.
            return match self.terminal {
                Some(t) => if t.epoch == c.epoch && !(self.role == Role::Dialer && c.kind
                    == Kind::ActivateAck) {
                    Some(t)
                } else {
                    None
                },
                None => None,
            };
        }
        if c.epoch > self.epoch {
            self.close(CloseReason::Protocol);
            return None;
        }
        if let Some(b) = &c.baseline {
            let differs = match &self.peer {
                Some(earlier) => !earlier.same(b),
                None => false,
            };
            if !self.baseline_valid(b) || differs {
                self.close(CloseReason::Ownership);
                return None;
            }
        }
        self.last_peer = now;
        self.stage(now, c)
    }

    fn stage(&mut self, now: u64, c: Control) -> (r: Option<Control>)
        requires
            old(self)@.recovering() ==> old(self)@.epoch < u64::MAX,
        ensures
            (final(self)@, r) == old(self)@.stage(now, c),
    {
        if self.state == State::Normal {
            if c.kind != Kind::Request && c.kind != Kind::Prepare {
                self.close(CloseReason::Protocol);
                return None;
            }
            self.start(now);
        }
        let dialer = self.role == Role::Dialer;
        if !dialer && c.kind == Kind::Prepare {
            self.prepared = true;
            self.ready();
        } else if dialer && c.kind == Kind::Prepared {
            self.peer = c.baseline;
            self.ready();
        } else if !dialer && c.kind == Kind::Commit && self.state == State::AwaitCommit {
            self.peer = c.baseline;
            self.state = State::Installing;
        } else if dialer && c.kind == Kind::CommitAck && self.state == State::AwaitCommitAck {
            self.state = State::Installing;
        } else if !dialer && c.kind == Kind::Activate && self.state == State::AwaitActivate {
            self.finish();
            return self.terminal;
        } else if dialer && c.kind == Kind::ActivateAck && self.state == State::AwaitActivateAck {
            self.finish();
        }
        // Both triggers merge into this one epoch. Early or duplicate stages cannot
        // advance gates. Reliable periodic retransmission of the current stage
        // repairs loss/reordering.
        None
    }

    pub fn step(&mut self, now: u64, input: Input) -> (r: Outcome)
        requires
            old(self)@.well_formed(),
        ensures
            (final(self)@, r@) == old(self)@.step(now, input),
            final(self)@.well_formed(),
    {
        proof {
            law_steps_keep_the_invariant(self@, now, input);
        }
        let mut reply: Option<Control> = None;
        let was_normal = self.state == State::Normal;
        if self.state != State::Closed {
            if let Some(reason) = self.expired(now) {
                self.close(reason);
            } else {
                self.last_now = now;
                match input {
                    Input::Start => self.start(now),
                    Input::PeerActivity => self.last_peer = now,
                    Input::Tick => {},
                    Input::Control(c) => reply = self.on_control(now, c),
                    Input::Barrier { round, result } => {
                        if round.same(&self.round()) && self.state == State::Quiescing
                            && self.local.is_none() {
                            match result {
                                Ok(b) => {
                                    if self.baseline_valid(&b) {
                                        self.local = Some(b);
                                        self.ready();
                                    } else {
                                        self.close(CloseReason::Ownership);
                                    }
                                },
                                Err(_) => self.close(CloseReason::BarrierFailed),
                            }
                        }
                    },
                    Input::Installed { round, result } => {
                        // Old-session/round and duplicate callbacks are inert.
                        if round.same(&self.round()) && self.state == State::Installing {
                            if result.is_err() {
                                self.close(CloseReason::InstallFailed);
                            } else if self.role == Role::Dialer {
                                self.state = State::AwaitActivateAck;
                                self.publish(Kind::Activate);
                            } else {
                                self.state = State::AwaitActivate;
                                self.publish(Kind::CommitAck);
                            }
                        }
                    },
                }
            }
        }
        let control = if self.state == State::Closed {
            None
        } else {
            let completed = !was_normal && self.state == State::Normal;
            let due = if reply.is_some() {
                reply
            } else {
                self.pending
            };
            self.emit(now, due, completed)
        };
        Outcome {
            state: self.state,
            closed: self.closed,
            control,
            barrier: if self.state == State::Quiescing && self.local.is_none() {
                Some(self.round())
            } else {
                None
            },
            install: if self.state == State::Installing {
                Some(self.round())
            } else {
                None
            },
            peer_baseline: self.peer,
        }
    }
}

proof fn lemma_start(m: Machine, now: u64)
    requires
        m.well_formed(),
        m.last_now == now,
    ensures
        m.start(now).well_formed(),
{
}

proof fn lemma_ready(m: Machine)
    requires
        m.well_formed(),
    ensures
        m.ready().well_formed(),
{
}

proof fn lemma_stage(m: Machine, now: u64, c: Control)
    requires
        m.well_formed(),
        m.last_now == now,
        c@.sound(),
        c.epoch == m.epoch,
        c.baseline is Some ==> m.fits(c.baseline->0),
    ensures
        m.stage(now, c).0.well_formed(),
        m.stage(now, c).1 is Some ==> m.stage(now, c).1 == m.stage(now, c).0.terminal,
{
    lemma_start(m, now);
    let s = if m.state == State::Normal {
        m.start(now)
    } else {
        m
    };
    lemma_ready(Machine { prepared: true, ..s });
    if c.kind == Kind::Prepared && s.recovering() {
        lemma_ready(Machine { peer: c.baseline, ..s });
    }
}

proof fn lemma_advance(m: Machine, now: u64, input: Input)
    requires
        m.well_formed(),
        m.last_now == now,
        m.state != State::Closed,
    ensures
        m.advance(now, input).0.well_formed(),
        m.advance(now, input).1 is Some ==> m.advance(now, input).1 == m.advance(
            now,
            input,
        ).0.terminal,
{
    match input {
        Input::Start => lemma_start(m, now),
        Input::Control(c) => {
            if c@.sound() && c.epoch == m.epoch && (c.baseline is Some ==> m.fits(c.baseline->0)) {
                lemma_stage(Machine { last_peer: now, ..m }, now, c);
            }
        },
        Input::Barrier { result, .. } => {
            if let Ok(b) = result {
                if m.fits(b) && m.state == State::Quiescing {
                    lemma_ready(Machine { local: Some(b), ..m });
                }
            }
        },
        _ => {},
    }
}

/// Every input keeps what holds of every coordinator.
pub proof fn law_steps_keep_the_invariant(m: Machine, now: u64, input: Input)
    requires
        m.well_formed(),
    ensures
        m.step(now, input).0.well_formed(),
{
    if m.state != State::Closed && m.expired(now) is None {
        lemma_advance(Machine { last_now: now, ..m }, now, input);
    }
}

/// Every control frame that leaves is sound, names this session and comes from this role, and it is
/// either the frame that the current stage repeats or the last one of the previous round.
pub proof fn law_emitted_controls_are_sound(m: Machine, now: u64, input: Input)
    requires
        m.well_formed(),
    ensures
        m.step(now, input).1.control matches Some(c) ==> {
            &&& c@.sound()
            &&& c.session == m.session
            &&& c.source == m.role
            &&& m.step(now, input).0.pending == Some(c) || m.step(now, input).0.terminal == Some(c)
        },
{
    law_steps_keep_the_invariant(m, now, input);
    if m.state != State::Closed && m.expired(now) is None {
        lemma_advance(Machine { last_now: now, ..m }, now, input);
        lemma_constants(Machine { last_now: now, ..m }, now, input);
    }
}

proof fn lemma_constants(m: Machine, now: u64, input: Input)
    ensures
        m.advance(now, input).0.session == m.session,
        m.advance(now, input).0.role == m.role,
        m.advance(now, input).0.ownership == m.ownership,
        m.advance(now, input).0.owner == m.owner,
        m.advance(now, input).0.peer_ms == m.peer_ms,
        m.advance(now, input).0.last_now == m.last_now,
{
}

/// A closed coordinator stays as it is, keeps its reason and sends nothing.
pub proof fn law_closed_is_final(m: Machine, now: u64, input: Input)
    requires
        m.well_formed(),
        m.state == State::Closed,
    ensures
        m.step(now, input).0 == m,
        m.step(now, input).1.control is None,
        m.step(now, input).1.closed == m.closed,
        m.send_gate(now) is None,
        m.receive_gate(now) is None,
{
}

/// Neither control frames, callbacks nor liveness move the start of a recovery under way, so none
/// of them extends its deadline.
pub proof fn law_the_deadline_is_fixed(m: Machine, now: u64, input: Input)
    requires
        m.well_formed(),
        m.recovering(),
    ensures
        m.step(now, input).0.state != State::Normal ==> m.step(now, input).0.started == m.started,
{
}

/// Whatever the input, a recovery that reaches its deadline ends: it completed before, or the
/// coordinator closes.
pub proof fn law_recovery_ends_in_time(m: Machine, now: u64, input: Input)
    requires
        m.well_formed(),
        m.recovering(),
        now >= m.started->0 + RECOVERY_MS,
    ensures
        m.step(now, input).0.state == State::Closed,
        m.step(now, input).1.control is None,
{
}

/// Silence of the peer for the whole peer timeout closes the coordinator, whatever the input.
pub proof fn law_silence_closes(m: Machine, now: u64, input: Input)
    requires
        m.well_formed(),
        now >= m.last_peer + m.peer_ms,
    ensures
        m.step(now, input).0.state == State::Closed,
        m.send_gate(now) is None,
        m.receive_gate(now) is None,
{
}

/// While a recovery is under way nothing may be sent, and nothing is accepted but input of the epoch
/// that the recovery installs.
pub proof fn law_recovery_keeps_the_gates_shut(m: Machine, now: u64)
    requires
        m.well_formed(),
        m.recovering(),
    ensures
        m.send_gate(now) is None,
        m.receive_gate(now) is Some ==> m.receive_gate(now)->0 == m.epoch + 1 && (m.state
            == State::AwaitActivate || m.state == State::AwaitActivateAck),
{
}

/// The epoch never falls; it rises by one, and only when the peer's last frame of the current round
/// arrives in the last stage and in time.
pub proof fn law_the_epoch_rises_only_by_completion(m: Machine, now: u64, input: Input)
    requires
        m.well_formed(),
    ensures
        m.step(now, input).0.epoch != m.epoch ==> {
            &&& m.step(now, input).0.epoch == m.epoch + 1
            &&& m.step(now, input).0.state == State::Normal
            &&& m.expired(now) is None
            &&& input matches Input::Control(c)
            &&& c.epoch == m.epoch
            &&& c.session == m.session
            &&& c.source == m.role.other()
            &&& if m.role == Role::Dialer {
                m.state == State::AwaitActivateAck && c.kind == Kind::ActivateAck
            } else {
                m.state == State::AwaitActivate && c.kind == Kind::Activate
            }
        },
{
}

/// A control frame of a finished round changes nothing: no liveness, no freeze, no new barrier. It
/// is answered at most by the last frame of the previous round.
pub proof fn law_stale_controls_are_inert(m: Machine, now: u64, c: Control)
    requires
        m.well_formed(),
        m.state != State::Closed,
        m.expired(now) is None,
        c.session == m.session,
        c.source == m.role.other(),
        c@.sound(),
        c.epoch < m.epoch,
    ensures
        m.step(now, Input::Control(c)).0 == (Machine {
            last_now: now,
            last_send: m.step(now, Input::Control(c)).0.last_send,
            ..m
        }),
        m.state == State::Normal ==> m.step(now, Input::Control(c)).1.control is None || m.step(
            now,
            Input::Control(c),
        ).1.control == m.terminal,
{
}

/// Completions of another session, another round or another stage change nothing.
pub proof fn law_stale_callbacks_are_inert(m: Machine, now: u64, input: Input)
    requires
        m.well_formed(),
        m.state != State::Closed,
        m.expired(now) is None,
        match input {
            Input::Barrier { round, .. } => round != m.round() || m.state != State::Quiescing
                || m.local is Some,
            Input::Installed { round, .. } => round != m.round() || m.state != State::Installing,
            _ => false,
        },
    ensures
        m.step(now, input).0 == (Machine {
            last_now: now,
            last_send: m.step(now, input).0.last_send,
            ..m
        }),
{
}

/// A frame that claims another session or the own role closes the coordinator.
pub proof fn law_foreign_controls_close(m: Machine, now: u64, c: Control)
    requires
        m.well_formed(),
        m.state != State::Closed,
        m.expired(now) is None,
        c.session != m.session || c.source == m.role,
    ensures
        m.step(now, Input::Control(c)).0 == (Machine { last_now: now, ..m }).close(
            CloseReason::Identity,
        ),
        m.step(now, Input::Control(c)).1.control is None,
{
}

/// A frame leaves only if it is new, if it ends the round, or if `RETRY_MS` have passed since the
/// last one.
pub proof fn law_retries_are_paced(m: Machine, now: u64, input: Input)
    requires
        m.well_formed(),
        m.step(now, input).1.control is Some,
        m.last_send is Some,
        now < m.last_send->0 + RETRY_MS,
    ensures
        m.step(now, input).0.pending != m.pending || (m.state != State::Normal && m.step(
            now,
            input,
        ).0.state == State::Normal),
{
}

/// Whenever the coordinator asks to install a round or resumes after one, it knows the peer's
/// baseline.
pub proof fn law_installing_knows_the_peer(m: Machine, now: u64, input: Input)
    requires
        m.well_formed(),
    ensures
        m.step(now, input).1.install is Some ==> m.step(now, input).1.peer_baseline is Some,
        m.step(now, input).0.epoch != m.epoch ==> m.step(now, input).1.peer_baseline is Some,
{
    law_steps_keep_the_invariant(m, now, input);
}

/// A recovery begins by asking for quiet, keeps its epoch until it ends, and ends at rest in the next
/// epoch or closed.
pub proof fn law_rounds_have_a_shape(m: Machine, now: u64, input: Input)
    requires
        m.well_formed(),
    ensures
        ({
            let (next, effect) = m.step(now, input);
            &&& effect.state == next.state
            &&& effect.closed == next.closed
            &&& effect.peer_baseline == next.peer
            &&& effect.barrier is Some ==> effect.barrier == Some(next.round())
                && next.recovering()
            &&& effect.install is Some ==> effect.install == Some(next.round())
                && next.recovering()
            &&& next.recovering() ==> next.epoch == m.epoch
            &&& next.recovering() && !m.recovering() ==> m.state == State::Normal && effect.barrier
                == Some(next.round()) && effect.install is None
            &&& next.state == State::Normal && m.state == State::Normal ==> next.epoch == m.epoch
                && next.peer == m.peer
            &&& next.state == State::Normal && m.state != State::Normal ==> next.epoch == m.epoch + 1
                && m.recovering() && next.peer is Some
            &&& next.epoch == m.epoch || next.epoch == m.epoch + 1
            &&& next.session == m.session
        }),
{
    law_steps_keep_the_invariant(m, now, input);
}

/// A stage that a control frame has taken is not taken again by the same frame.
proof fn lemma_again(m: Machine, now: u64, c: Control, sent: Option<u64>)
    requires
        m.well_formed(),
        m.last_now == now,
        m.state != State::Closed,
        m.on_control(now, c).0.state != State::Closed,
        m.on_control(now, c).0.well_formed(),
    ensures
        ({
            let once = Machine { last_send: sent, ..m.on_control(now, c).0 };
            let twice = once.on_control(now, c).0;
            twice == Machine { last_send: twice.last_send, ..once }
        }),
{
    let once = Machine { last_send: sent, ..m.on_control(now, c).0 };
    if c.epoch == m.epoch {
        if m.state == State::Normal {
            assert(once.state == State::Quiescing);
        } else if once.state == State::Normal {
            assert(once.epoch == m.epoch + 1);
        } else if once.state != m.state {
            assert(once.epoch == m.epoch);
            assert(once.state == State::AwaitCommitAck || once.state == State::AwaitCommit
                || once.state == State::Installing);
        }
    }
}

/// A control frame that arrives again at once changes nothing more.
pub proof fn law_repeated_controls_change_nothing(m: Machine, now: u64, c: Control)
    requires
        m.well_formed(),
    ensures
        ({
            let once = m.step(now, Input::Control(c)).0;
            let twice = once.step(now, Input::Control(c)).0;
            twice == Machine { last_send: twice.last_send, ..once }
        }),
{
    let once = m.step(now, Input::Control(c)).0;
    law_steps_keep_the_invariant(m, now, Input::Control(c));
    if once.state != State::Closed {
        let s = Machine { last_now: now, ..m };
        lemma_advance(s, now, Input::Control(c));
        lemma_again(s, now, c, once.last_send);
        assert(once == Machine { last_send: once.last_send, ..s.on_control(now, c).0 });
    }
}

/// A frame that the peer has not answered is sent again after `RETRY_MS`, as long as there is time.
pub proof fn law_unanswered_frames_are_repeated(m: Machine, now: u64)
    requires
        m.well_formed(),
        m.recovering(),
        m.expired(now) is None,
        m.last_send is None || now >= m.last_send->0 + RETRY_MS,
    ensures
        m.step(now, Input::Tick).1.control == m.pending,
        m.step(now, Input::Tick).1.control == Some(m.frame(m.due())),
        m.step(now, Input::Tick).0 == (Machine { last_now: now, last_send: Some(now), ..m }),
{
}

} // verus!
