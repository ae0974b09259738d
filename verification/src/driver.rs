//! The decisions of a connection's driver. Whoever runs the loop waits for an event, hands it to the
//! method for that event, performs what the method returns, and then settles the connection. Times
//! are milliseconds since the connection was attached.

use crate::bytes::{at64, get64};
use crate::event::{Codec, Decoded};
use crate::fault::Fault;
use crate::frame::{self, CAP_KCP_INPUT_V1, CAP_KCP_REQUEST, CAP_UDP_MOTION_V1, MOTION_TAG};
use crate::frame::{Frame, FrameView};
use crate::lifecycle::{law_runtime_keeps_its_invariant, later};
use crate::lifecycle::{Conduct, Generation, Link, Runtime};
use crate::motion;
use crate::peer::{is_outdated, outdated, Delivery, Receipt, WirePacket, CLOSE_TIMEOUT_MS};
use crate::policy::Timeouts;
use crate::protocol::{self, Control, Envelope, EnvelopeView, Role, CAP_INPUT_RECOVERY_V1};
use crate::recovery::{law_emitted_controls_are_sound, round_of, round_parts};
use crate::recovery::{Effect, Input, Outcome, Round};
use crate::session::{message_limit, zeros, Channel, Session};
use std::collections::VecDeque;
use vstd::prelude::*;

verus! {

broadcast use {round_of, round_parts};

/// How long an incoming connection may take to greet.
pub const HELLO_MS: u64 = 6000;

pub struct Driver {
    pub dialer: bool,
    pub recoverable: bool,
    pub timeouts: Timeouts,
    /// The length of the longest fixed event.
    pub event_limit: usize,
    /// The length of the longest display layout.
    pub layout_limit: usize,
    pub session: Session,
    /// Whether KCP carries the input, once that is settled.
    pub reliable: Option<bool>,
    /// Whether motion goes by datagram, once that is settled.
    pub hybrid: Option<bool>,
    /// Whether input can recover, once that is settled.
    pub recovery_selected: Option<bool>,
    pub sender: motion::Sender,
    pub receiver: motion::Receiver,
    pub pending: VecDeque<Delivery>,
    pub direct_output: Option<WirePacket>,
    pub runtime: Option<Runtime>,
    pub installed_epoch: u64,
    pub pending_probe: Option<Round>,
    /// Control frames for the writer. The coordinator repeats each of them, so they may be dropped.
    pub controls: Vec<Vec<u8>>,
}

/// What became of bytes that the application sent.
pub enum Taken {
    /// They count for nothing; there is nothing to settle.
    Ignored,
    Done,
    /// They are motion, for the writer's motion slot.
    Motion(WirePacket),
}

/// The id and the conversation of the session in an epoch of a recoverable connection.
pub open spec fn session_ids(identity: Seq<u8>, epoch: u64) -> (u64, u32) {
    let id = at64(identity, 0) ^ epoch;
    let conv = ((at64(identity, 8) ^ epoch) % 0x1_0000_0000) as u32;
    (
        if id == 0 {
            1
        } else {
            id
        },
        if conv == 0 {
            1
        } else {
            conv
        },
    )
}

pub fn derive_ids(identity: &[u8; 16], epoch: u64) -> (r: (u64, u32))
    ensures
        r == session_ids(identity@, epoch),
        r.0 != 0,
        r.1 != 0,
{
    let id: u64 = get64(identity, 0) ^ epoch;
    let conv: u32 = ((get64(identity, 8) ^ epoch) % 0x1_0000_0000) as u32;
    (
        if id == 0 {
            1
        } else {
            id
        },
        if conv == 0 {
            1
        } else {
            conv
        },
    )
}

/// The id and the conversation of a first session: the seed and its low half, neither of them zero.
pub open spec fn seeded(seed: u64) -> (u64, u32) {
    let id: u64 = if seed == 0 {
        1
    } else {
        seed
    };
    (
        id,
        if id % 0x1_0000_0000 == 0 {
            1
        } else {
            (id % 0x1_0000_0000) as u32
        },
    )
}

/// The id and the conversation of a first session, drawn from a seed.
pub fn first_ids(seed: u64) -> (r: (u64, u32))
    ensures
        r == seeded(seed),
{
    let id: u64 = if seed == 0 {
        1
    } else {
        seed
    };
    let conv: u32 = (id % 0x1_0000_0000) as u32;
    (
        id,
        if conv == 0 {
            1
        } else {
            conv
        },
    )
}

/// The capabilities that a greeting carries.
pub open spec fn advertised(capabilities: u32, dialer: bool, recoverable: bool) -> u32 {
    (capabilities & !CAP_INPUT_RECOVERY_V1) | CAP_KCP_INPUT_V1 | CAP_UDP_MOTION_V1 | (
    if recoverable {
        CAP_INPUT_RECOVERY_V1
    } else {
        0
    }) | (if dialer {
        CAP_KCP_REQUEST
    } else {
        0
    })
}

fn advertise(capabilities: u32, dialer: bool, recoverable: bool) -> (r: u32)
    ensures
        r == advertised(capabilities, dialer, recoverable),
{
    let recovery: u32 = if recoverable {
        CAP_INPUT_RECOVERY_V1
    } else {
        0
    };
    let request: u32 = if dialer {
        CAP_KCP_REQUEST
    } else {
        0
    };
    (capabilities & !CAP_INPUT_RECOVERY_V1) | CAP_KCP_INPUT_V1 | CAP_UDP_MOTION_V1 | recovery
        | request
}

/// A greeting offers KCP and motion, requests KCP exactly if it is a dialer's or already did so, and
/// offers recovery exactly if the connection is recoverable.
pub proof fn law_greetings_offer_what_is_supported(capabilities: u32, dialer: bool, recoverable: bool)
    ensures
        advertised(capabilities, dialer, recoverable) & CAP_KCP_INPUT_V1 != 0,
        advertised(capabilities, dialer, recoverable) & CAP_UDP_MOTION_V1 != 0,
        (advertised(capabilities, dialer, recoverable) & CAP_INPUT_RECOVERY_V1 != 0) == recoverable,
        (advertised(capabilities, dialer, recoverable) & CAP_KCP_REQUEST != 0) == (dialer
            || capabilities & CAP_KCP_REQUEST != 0),
{
    let c = capabilities;
    assert({
        &&& ((c & !64u32) | 4u32 | 32u32 | 64u32 | 8u32) & 4u32 != 0
        &&& ((c & !64u32) | 4u32 | 32u32 | 64u32 | 0u32) & 4u32 != 0
        &&& ((c & !64u32) | 4u32 | 32u32 | 0u32 | 8u32) & 4u32 != 0
        &&& ((c & !64u32) | 4u32 | 32u32 | 0u32 | 0u32) & 4u32 != 0
        &&& ((c & !64u32) | 4u32 | 32u32 | 64u32 | 8u32) & 32u32 != 0
        &&& ((c & !64u32) | 4u32 | 32u32 | 64u32 | 0u32) & 32u32 != 0
        &&& ((c & !64u32) | 4u32 | 32u32 | 0u32 | 8u32) & 32u32 != 0
        &&& ((c & !64u32) | 4u32 | 32u32 | 0u32 | 0u32) & 32u32 != 0
        &&& ((c & !64u32) | 4u32 | 32u32 | 64u32 | 8u32) & 64u32 != 0
        &&& ((c & !64u32) | 4u32 | 32u32 | 64u32 | 0u32) & 64u32 != 0
        &&& ((c & !64u32) | 4u32 | 32u32 | 0u32 | 8u32) & 64u32 == 0
        &&& ((c & !64u32) | 4u32 | 32u32 | 0u32 | 0u32) & 64u32 == 0
        &&& ((c & !64u32) | 4u32 | 32u32 | 64u32 | 8u32) & 8u32 != 0
        &&& ((c & !64u32) | 4u32 | 32u32 | 0u32 | 8u32) & 8u32 != 0
        &&& (((c & !64u32) | 4u32 | 32u32 | 64u32 | 0u32) & 8u32 != 0) == (c & 8u32 != 0)
        &&& (((c & !64u32) | 4u32 | 32u32 | 0u32 | 0u32) & 8u32 != 0) == (c & 8u32 != 0)
    }) by (bit_vector);
}

/// A packet as it leaves: inside an envelope if the connection is recoverable. `event` is what the
/// codec makes of the event inside a motion datagram.
pub open spec fn enveloped(
    bytes: Seq<u8>,
    runtime: Option<Conduct>,
    motion: bool,
    limit: usize,
    event: Decoded,
    now: u64,
    probe_epoch: Option<u64>,
) -> Result<Seq<u8>, Fault> {
    match runtime {
        None => Ok(bytes),
        Some(c) => {
            let m = c.machine;
            let epoch = if m.receive_gate(now) is Some {
                m.receive_gate(now)
            } else {
                probe_epoch
            };
            if epoch is None {
                Err(Fault::ReceiveGate)
            } else if !motion && frame::parse(bytes) is None {
                Err(Fault::ReliableOutput)
            } else {
                let envelope = if motion {
                    EnvelopeView::Motion {
                        session: m.session@,
                        epoch: epoch->0,
                        source: m.role,
                        bytes,
                    }
                } else {
                    EnvelopeView::Reliable {
                        session: m.session@,
                        epoch: epoch->0,
                        source: m.role,
                        frame: frame::parse(bytes)->0,
                    }
                };
                if envelope.sound(limit, event) {
                    Ok(envelope.wire())
                } else {
                    Err(Fault::RecoveryOutput)
                }
            }
        },
    }
}

/// The state of the runtime, if there is one.
pub open spec fn conduct(runtime: Option<Runtime>) -> Option<Conduct> {
    match runtime {
        Some(runtime) => Some(runtime@),
        None => None,
    }
}

pub fn envelope(
    bytes: Vec<u8>,
    runtime: &Option<Runtime>,
    motion: bool,
    limit: usize,
    event: &Decoded,
    now: u64,
    probe_epoch: Option<u64>,
) -> (r: Result<Vec<u8>, Fault>)
    requires
        runtime is Some ==> runtime->0@.well_formed(),
    ensures
        ({
            let sent = enveloped(bytes@, conduct(*runtime), motion, limit, *event, now, probe_epoch);
            match r {
                Ok(wire) => sent == Ok::<Seq<u8>, Fault>(wire@),
                Err(fault) => sent == Err::<Seq<u8>, Fault>(fault),
            }
        }),
{
    let runtime = match runtime {
        Some(runtime) => runtime,
        None => return Ok(bytes),
    };
    let epoch: u64 = match runtime.machine().receive_epoch(now) {
        Some(epoch) => epoch,
        None => match probe_epoch {
            Some(epoch) => epoch,
            None => return Err(Fault::ReceiveGate),
        },
    };
    let session = runtime.machine().session();
    let source = runtime.machine().role();
    let wrapped = if motion {
        Envelope::Motion { session, epoch, source, bytes }
    } else {
        match Frame::decode(&bytes) {
            Some(frame) => Envelope::Reliable { session, epoch, source, frame },
            None => return Err(Fault::ReliableOutput),
        }
    };
    match wrapped.encode(limit, event) {
        Some(wire) => Ok(wire),
        None => Err(Fault::RecoveryOutput),
    }
}

/// The byte strings of a list.
pub open spec fn lines(list: Seq<Vec<u8>>) -> Seq<Seq<u8>> {
    list.map_values(|bytes: Vec<u8>| bytes@)
}

/// The control frame of an effect as it leaves, if it has one.
pub open spec fn control_line(effect: Effect) -> Seq<Seq<u8>> {
    match effect.control {
        Some(control) => seq![EnvelopeView::Control(control@).wire()],
        None => Seq::empty(),
    }
}

impl Driver {
    /// What every driver keeps.
    pub open spec fn inv(self, link: Link) -> bool {
        &&& self.session.inv()
        &&& self.dialer ==> self.reliable == Some(true)
        &&& self.runtime is Some ==> self.runtime->0@.well_formed() && self.runtime->0@.guards(link)
        &&& self.pending_probe is Some ==> self.runtime is Some
            && self.pending_probe->0.epoch_of() < u64::MAX
    }

    /// A driver of a connection that was just attached. `seed` picks the ids of its first session.
    pub fn new(
        dialer: bool,
        recoverable: bool,
        timeouts: Timeouts,
        event_limit: usize,
        layout_limit: usize,
        seed: u64,
    ) -> (r: Driver)
        ensures
            r.inv(Link::fresh()),
            r.dialer == dialer,
            r.recoverable == recoverable,
            r.timeouts == timeouts,
            r.event_limit == event_limit,
            r.layout_limit == layout_limit,
            r.reliable == (if dialer {
                Some(true)
            } else {
                None
            }),
            r.hybrid is None,
            r.recovery_selected is None,
            r.pending@.len() == 0,
            r.direct_output is None,
            r.runtime is None,
            r.installed_epoch == 0,
            r.pending_probe is None,
            r.controls@.len() == 0,
            r.sender.initial(),
            r.receiver == motion::Receiver::initial(),
            r.session@ == Channel::initial(
                dialer,
                seeded(seed).0,
                seeded(seed).1,
                0,
                timeouts.stall@,
                timeouts.peer@,
                message_limit(layout_limit),
            ),
    {
        let (id, conv) = first_ids(seed);
        Driver {
            dialer,
            recoverable,
            timeouts,
            event_limit,
            layout_limit,
            session: Session::with_timeout(dialer, id, conv, 0, timeouts, layout_limit),
            reliable: if dialer {
                Some(true)
            } else {
                None
            },
            hybrid: None,
            recovery_selected: None,
            sender: motion::Sender::default(),
            receiver: motion::Receiver::default(),
            pending: VecDeque::new(),
            direct_output: None,
            runtime: None,
            installed_epoch: 0,
            pending_probe: None,
            controls: Vec::new(),
        }
    }

    /// Hands one input to the coordinator and keeps the control frame that it wants sent.
    fn advance(&mut self, now: u64, input: Input, link: &mut Link) -> (r: Result<(), Fault>)
        requires
            old(self).inv(*old(link)),
            old(self).runtime is Some,
        ensures
            old(self).advances(now, input, *old(link), r, *final(self), *final(link)),
            r is Ok ==> final(self).inv(*final(link)),
            final(self).session.inv(),
    {
        let ghost s = *self;
        let ghost l = *link;
        let mut runtime = match self.runtime.take() {
            Some(runtime) => runtime,
            None => return Ok(()),
        };
        proof {
            law_runtime_keeps_its_invariant(runtime@, l, now, input);
        }
        let stepped = runtime.step(now, input, link);
        let ghost c = runtime@;
        self.runtime = Some(runtime);
        match stepped {
            Ok(outcome) => {
                proof {
                    let before = s.runtime->0@;
                    law_emitted_controls_are_sound(before.informed(l, now), now, input);
                }
                self.queue_control(&outcome);
                Ok(())
            },
            Err(fault) => Err(fault),
        }
    }

    fn queue_control(&mut self, outcome: &Outcome)
        requires
            outcome@.control is Some ==> outcome@.control->0@.sound(),
        ensures
            *final(self) == (Driver { controls: final(self).controls, ..*old(self) }),
            lines(final(self).controls@) == lines(old(self).controls@) + control_line(outcome@),
    {
        if let Some(control) = outcome.control() {
            // The state machine retries every 50ms; a full control lane never
            // allocates more memory or blocks the deadline/watchdog task.
            if let Some(bytes) = Envelope::Control(*control).encode(0, &Decoded::Other) {
                self.controls.push(bytes);
                assert(lines(self.controls@) =~= lines(old(self).controls@).push(bytes@));
                assert(lines(self.controls@) =~= lines(old(self).controls@) + control_line(
                    outcome@,
                ));
            }
        } else {
            assert(lines(self.controls@) =~= lines(old(self).controls@) + control_line(outcome@));
        }
    }

    /// One input of the coordinator: the runtime and the link step, and the control frame that the
    /// step asks for is kept.
    pub open spec fn advances(
        self,
        now: u64,
        input: Input,
        link: Link,
        r: Result<(), Fault>,
        next: Driver,
        after: Link,
    ) -> bool {
        let (c, l, result) = self.runtime->0@.step(link, now, input);
        &&& next.runtime is Some
        &&& next.runtime->0@ == c
        &&& after == l
        &&& next == (Driver { runtime: next.runtime, controls: next.controls, ..self })
        &&& match result {
            Ok(effect) => r is Ok && lines(next.controls@) == lines(self.controls@) + control_line(
                effect,
            ),
            Err(fault) => r == Err::<(), Fault>(fault) && next.controls == self.controls,
        }
    }

    /// The link as a stalled connection leaves it.
    pub open spec fn stalls(link: Link) -> Link {
        if link.frozen {
            link
        } else {
            Link { stalled: true, ..link.shut() }
        }
    }

    /// The epoch that the coordinator is in; zero without one.
    pub open spec fn epoch(self) -> u64 {
        match self.runtime {
            Some(runtime) => runtime@.machine.epoch,
            None => 0,
        }
    }

    fn machine_epoch(&self) -> (r: u64)
        ensures
            r == self.epoch(),
    {
        match &self.runtime {
            Some(runtime) => runtime.machine().epoch(),
            None => 0,
        }
    }

    /// Whether the coordinator, if there is one, accepts input of some epoch.
    pub open spec fn open(self, now: u64) -> bool {
        self.runtime is Some ==> self.runtime->0@.machine.receive_gate(now) is Some
    }

    fn is_open(&self, now: u64) -> (r: bool)
        requires
            self.runtime is Some ==> self.runtime->0@.well_formed(),
        ensures
            r == self.open(now),
    {
        match &self.runtime {
            Some(runtime) => runtime.machine().receive_epoch(now).is_some(),
            None => true,
        }
    }

    /// What a tick does, where the session's own tick, if it comes to that, results in `ticked`.
    pub open spec fn ticks(
        self,
        link: Link,
        now: u64,
        ticked: Result<(), Fault>,
        r: Result<(), Fault>,
        next: Driver,
        after: Link,
    ) -> bool {
        if link.enabled && !link.frozen && self.session@.is_ready() && self.session@.stalled(now) {
            r is Ok && next == self && after == Driver::stalls(link)
        } else if self.reliable == Some(true) && (!link.frozen || self.installed_epoch
            > self.epoch()) {
            &&& (Channel { now, ..self.session@ }).ticks(ticked, next.session@)
            &&& next == (Driver { session: next.session, ..self })
            &&& match ticked {
                Ok(_) => r is Ok && after == link,
                Err(fault) => if self.runtime is Some && (fault == Fault::InputStalled || fault
                    == Fault::OutputStalled) {
                    r is Ok && after == Driver::stalls(link)
                } else {
                    r == Err::<(), Fault>(fault) && after == link
                },
            }
        } else {
            &&& next == self
            &&& after == link
            &&& r == (if self.reliable is None && now > HELLO_MS {
                Err::<(), Fault>(Fault::HelloTimeout)
            } else {
                Ok(())
            })
        }
    }

    /// The periodic tick.
    pub fn tick(&mut self, link: &mut Link, now: u64) -> (r: Result<(), Fault>)
        requires
            old(self).inv(*old(link)),
        ensures
            final(self).inv(*final(link)),
            exists|ticked: Result<(), Fault>| #[trigger]
                old(self).ticks(*old(link), now, ticked, r, *final(self), *final(link)),
    {
        let ghost s = *self;
        let ghost l = *link;
        if link.enabled() && !link.frozen() && self.session.recovery_due(now) {
            link.stall();
            assert(s.ticks(l, now, Ok(()), Ok(()), *self, *link));
            return Ok(());
        }
        if self.reliable == Some(true) && (!link.frozen() || self.installed_epoch
            > self.machine_epoch()) {
            let ticked = self.session.tick(now);
            match ticked {
                Ok(_) => {
                    assert(s.ticks(l, now, ticked, Ok(()), *self, *link));
                    return Ok(());
                },
                Err(fault) => {
                    if self.runtime.is_some() && (fault == Fault::InputStalled || fault
                        == Fault::OutputStalled) {
                        link.stall();
                        assert(s.ticks(l, now, ticked, Ok(()), *self, *link));
                        return Ok(());
                    }
                    assert(s.ticks(l, now, ticked, Err(fault), *self, *link));
                    return Err(fault);
                },
            }
        }
        if self.reliable.is_none() && now > HELLO_MS {
            assert(s.ticks(l, now, Ok(()), Err(Fault::HelloTimeout), *self, *link));
            return Err(Fault::HelloTimeout);
        }
        assert(s.ticks(l, now, Ok(()), Ok(()), *self, *link));
        Ok(())
    }

    /// The application has consumed a message of a generation.
    pub fn completed(
        &mut self,
        sequence: u64,
        generation: &Option<Generation>,
        link: &Link,
        now: u64,
    ) -> (r: Result<(), Fault>)
        requires
            old(self).inv(*link),
        ensures
            final(self).inv(*link),
            *final(self) == (Driver { session: final(self).session, ..*old(self) }),
            if outdated(*generation, *link, now) {
                r is Ok && final(self).session == old(self).session
            } else {
                (final(self).session@, r) == old(self).session@.processed(sequence)
            },
    {
        if is_outdated(generation, link, now) {
            return Ok(());
        }
        self.session.processed(sequence, now)
    }

    /// Whether there is a packet that may leave.
    pub fn wants_output(&self, now: u64) -> (r: bool)
        requires
            self.runtime is Some ==> self.runtime->0@.well_formed(),
        ensures
            r == (self.direct_output is Some || ((self.session@.wire.len() > 0
                || self.session@.output.len() > 0) && (self.pending_probe is Some || self.open(
                now,
            )))),
    {
        self.direct_output.is_some() || (self.session.has_output() && (self.pending_probe.is_some()
            || self.is_open(now)))
    }

    /// The next epoch of the probed round.
    pub open spec fn probe_epoch(self) -> Option<u64> {
        match self.pending_probe {
            Some(round) => Some((round.epoch_of() + 1) as u64),
            None => None,
        }
    }

    fn probed(&self) -> (r: Option<u64>)
        requires
            self.pending_probe is Some ==> self.pending_probe->0.epoch_of() < u64::MAX,
        ensures
            r == self.probe_epoch(),
    {
        match &self.pending_probe {
            Some(round) => Some(round.next_epoch()),
            None => None,
        }
    }

    /// The packet that leaves next. Call it when the writer has room.
    pub fn next_output(&mut self, link: &Link, now: u64) -> (r: Result<Option<WirePacket>, Fault>)
        requires
            old(self).inv(*link),
        ensures
            final(self).inv(*link),
            ({
                let s = old(self).session@;
                if old(self).direct_output is Some {
                    &&& r == Ok::<Option<WirePacket>, Fault>(old(self).direct_output)
                    &&& *final(self) == (Driver { direct_output: None, ..*old(self) })
                } else if s.wire.len() == 0 && s.output.len() == 0 {
                    &&& r == Ok::<Option<WirePacket>, Fault>(None)
                    &&& *final(self) == (Driver { session: final(self).session, ..*old(self) })
                    &&& final(self).session@ == s
                } else {
                    let own = s.wire.len() > 0 && (s.output.len() == 0 || s.wire[0].0
                        <= s.output[0].0);
                    let created = if own {
                        s.wire[0].0
                    } else {
                        s.output[0].0
                    };
                    let bytes = if own {
                        s.wire[0].1
                    } else {
                        (FrameView::Data { id: s.id, payload: s.output[0].1 }).wire()
                    };
                    let sent = enveloped(
                        bytes,
                        conduct(old(self).runtime),
                        false,
                        old(self).event_limit,
                        Decoded::Other,
                        now,
                        old(self).probe_epoch(),
                    );
                    &&& *final(self) == (Driver { session: final(self).session, ..*old(self) })
                    &&& final(self).session@ == (if own {
                        Channel { wire: s.wire.subrange(1, s.wire.len() as int), ..s }
                    } else {
                        Channel { output: s.output.subrange(1, s.output.len() as int), ..s }
                    })
                    &&& match r {
                        Ok(packet) => {
                            &&& packet is Some
                            &&& sent == Ok::<Seq<u8>, Fault>(packet->0.bytes@)
                            &&& packet->0.deadline == later(created, old(self).timeouts.stall@)
                            &&& packet->0.generation == link.generation
                        },
                        Err(fault) => sent == Err::<Seq<u8>, Fault>(fault),
                    }
                }
            }),
    {
        if self.direct_output.is_some() {
            return Ok(self.direct_output.take());
        }
        match self.session.pop_output() {
            Some((created, bytes)) => {
                let wire = envelope(
                    bytes,
                    &self.runtime,
                    false,
                    self.event_limit,
                    &Decoded::Other,
                    now,
                    self.probed(),
                );
                match wire {
                    Ok(bytes) => Ok(
                        Some(
                            WirePacket {
                                bytes,
                                deadline: created.saturating_add(
                                    self.timeouts.stall.milliseconds(),
                                ),
                                generation: link.generation(),
                            },
                        ),
                    ),
                    Err(fault) => Err(fault),
                }
            },
            None => Ok(None),
        }
    }

    /// Whether a command of the application can be taken.
    pub fn accepts_command(&self, link: &Link) -> (r: bool)
        ensures
            r == (self.direct_output is None && (link.frozen || self.reliable != Some(true)
                || !self.session@.is_ready() || (self.session@.outstanding.len()
                < crate::engine::MAX_PENDING && self.session@.running && self.session@.waiting.len()
                < crate::engine::MAX_PENDING))),
    {
        self.direct_output.is_none() && (link.frozen() || self.reliable != Some(true)
            || !self.session.ready() || self.session.can_send())
    }

    /// How long a packet that bypasses the session may wait for the writer.
    pub open spec fn bypass_ms(self) -> u64 {
        if self.reliable == Some(true) {
            self.timeouts.stall@
        } else {
            CLOSE_TIMEOUT_MS
        }
    }

    /// What a packed event does: motion goes to the writer's motion slot, a checkpoint to the session.
    /// `inner` is what the codec makes of the event inside packed motion.
    pub open spec fn sends_packed(
        self,
        packed: Result<(bool, Vec<u8>), Fault>,
        inner: Decoded,
        link: Link,
        now: u64,
        r: Result<Taken, Fault>,
        next: Driver,
    ) -> bool {
        match packed {
            Err(fault) => r == Err::<Taken, Fault>(fault) && next == self,
            Ok((true, bytes)) => {
                &&& next == self
                &&& match enveloped(
                    bytes@,
                    conduct(self.runtime),
                    true,
                    self.event_limit,
                    inner,
                    now,
                    None,
                ) {
                    Ok(wire) => {
                        &&& r matches Ok(Taken::Motion(packet))
                        &&& packet.bytes@ == wire
                        &&& packet.deadline == later(now, self.timeouts.stall@)
                        &&& packet.generation == link.generation
                    },
                    Err(fault) => r == Err::<Taken, Fault>(fault),
                }
            },
            Ok((false, bytes)) => self.sends_reliably(bytes@, now, r, next),
        }
    }

    /// What sending bytes through the session does.
    pub open spec fn sends_reliably(
        self,
        bytes: Seq<u8>,
        now: u64,
        r: Result<Taken, Fault>,
        next: Driver,
    ) -> bool {
        let s = Channel { now, ..self.session@ };
        &&& next == (Driver { session: next.session, ..self })
        &&& exists|sent: Result<(), Fault>|
            {
                &&& #[trigger] s.sends(bytes, sent, next.session@)
                &&& match sent {
                    Ok(_) => r == Ok::<Taken, Fault>(Taken::Done),
                    Err(fault) => r == Err::<Taken, Fault>(fault),
                }
            }
    }

    /// What a command of the application does, where `event` is what the codec makes of its bytes.
    pub open spec fn commands<C: Codec>(
        self,
        codec: &C,
        event: Decoded,
        bytes: Vec<u8>,
        generation: Option<Generation>,
        link: Link,
        now: u64,
        r: Result<Taken, Fault>,
        next: Driver,
    ) -> bool {
        if event is Malformed {
            r == Err::<Taken, Fault>(Fault::ApplicationSend) && next == self
        } else if event.bypasses() {
            &&& r == Ok::<Taken, Fault>(Taken::Done)
            &&& next == (Driver { direct_output: next.direct_output, ..self })
            &&& next.direct_output matches Some(packet)
            &&& packet.deadline == later(now, self.bypass_ms())
            &&& packet.generation is None
            &&& match event {
                Decoded::Hello { capabilities, .. } => call_ensures(
                    C::greeting,
                    (codec, &bytes, advertised(capabilities, self.dialer, self.recoverable)),
                    packet.bytes,
                ),
                _ => packet.bytes == bytes,
            }
        } else if link.frozen || outdated(generation, link, now) {
            r == Ok::<Taken, Fault>(Taken::Ignored) && next == self
        } else if self.reliable == Some(false) {
            &&& r == Ok::<Taken, Fault>(Taken::Done)
            &&& next == (Driver {
                direct_output: Some(
                    WirePacket { bytes, deadline: later(now, CLOSE_TIMEOUT_MS), generation: None },
                ),
                ..self
            })
        } else if self.hybrid == Some(true) {
            exists|packed: Result<(bool, Vec<u8>), Fault>, inner: Decoded, mid: Driver|
                {
                    &&& self.sender.packs(codec, event, bytes, packed, mid.sender)
                    &&& mid == (Driver { sender: mid.sender, ..self })
                    &&& packed matches Ok((true, frame)) ==> exists|part: Vec<u8>|
                        part@ == motion::embedded(frame@) && #[trigger] call_ensures(
                            C::fixed,
                            (codec, &part),
                            inner,
                        )
                    &&& #[trigger] mid.sends_packed(packed, inner, link, now, r, next)
                }
        } else {
            self.sends_reliably(bytes@, now, r, next)
        }
    }

    fn send_reliably(&mut self, bytes: &Vec<u8>, link: &Link, now: u64) -> (r: Result<Taken, Fault>)
        requires
            old(self).inv(*link),
        ensures
            final(self).inv(*link),
            old(self).sends_reliably(bytes@, now, r, *final(self)),
    {
        match self.session.send(bytes, now) {
            Ok(_) => Ok(Taken::Done),
            Err(fault) => Err(fault),
        }
    }

    fn send_packed(
        &mut self,
        packed: Result<(bool, Vec<u8>), Fault>,
        inner: Decoded,
        link: &Link,
        now: u64,
    ) -> (r: Result<Taken, Fault>)
        requires
            old(self).inv(*link),
        ensures
            final(self).inv(*link),
            old(self).sends_packed(packed, inner, *link, now, r, *final(self)),
    {
        match packed {
            Err(fault) => Err(fault),
            Ok((unreliable, bytes)) => {
                if !unreliable {
                    return self.send_reliably(&bytes, link, now);
                }
                let wire = envelope(
                    bytes,
                    &self.runtime,
                    true,
                    self.event_limit,
                    &inner,
                    now,
                    None,
                );
                match wire {
                    Ok(bytes) => Ok(
                        Taken::Motion(
                            WirePacket {
                                bytes,
                                deadline: now.saturating_add(self.timeouts.stall.milliseconds()),
                                generation: link.generation(),
                            },
                        ),
                    ),
                    Err(fault) => Err(fault),
                }
            },
        }
    }

    /// Takes bytes that the application sends with the generation that it held. `event` is what the
    /// codec makes of them.
    pub fn command<C: Codec>(
        &mut self,
        codec: &C,
        event: Decoded,
        bytes: Vec<u8>,
        generation: &Option<Generation>,
        link: &Link,
        now: u64,
    ) -> (r: Result<Taken, Fault>)
        requires
            old(self).inv(*link),
        ensures
            final(self).inv(*link),
            old(self).commands(codec, event, bytes, *generation, *link, now, r, *final(self)),
    {
        if let Decoded::Malformed = event {
            return Err(Fault::ApplicationSend);
        }
        if event.direct() {
            let bytes = match event {
                Decoded::Hello { capabilities, .. } => codec.greeting(
                    &bytes,
                    advertise(capabilities, self.dialer, self.recoverable),
                ),
                _ => bytes,
            };
            let patience: u64 = if self.reliable == Some(true) {
                self.timeouts.stall.milliseconds()
            } else {
                CLOSE_TIMEOUT_MS
            };
            self.direct_output = Some(
                WirePacket { bytes, deadline: now.saturating_add(patience), generation: None },
            );
            return Ok(Taken::Done);
        }
        if link.frozen() || is_outdated(generation, link, now) {
            return Ok(Taken::Ignored);
        }
        if self.reliable == Some(false) {
            self.direct_output = Some(
                WirePacket {
                    bytes,
                    deadline: now.saturating_add(CLOSE_TIMEOUT_MS),
                    generation: None,
                },
            );
            return Ok(Taken::Done);
        }
        if self.hybrid == Some(true) {
            let packed = self.sender.pack(codec, event, bytes);
            let mut inner = Decoded::Other;
            if let Ok((unreliable, frame)) = &packed {
                if *unreliable {
                    let part = motion::Frame::event_bytes(frame);
                    inner = codec.fixed(&part);
                }
            }
            let ghost mid = *self;
            let r = self.send_packed(packed, inner, link, now);
            assert(mid.sends_packed(packed, inner, *link, now, r, *self));
            return r;
        }
        self.send_reliably(&bytes, link, now)
    }

    /// Whether there is something for the application.
    pub fn wants_delivery(&self, now: u64) -> (r: bool)
        requires
            self.runtime is Some ==> self.runtime->0@.well_formed(),
        ensures
            r == (self.open(now) && (self.pending@.len() > 0 || self.session@.incoming.len() > 0 || (
            self.session@.is_ready() && self.receiver.has_ready()))),
    {
        self.is_open(now) && (self.pending.len() > 0 || self.session.has_received() || (
        self.session.ready() && self.receiver.ready()))
    }

    /// The receipt of a message delivered now.
    pub open spec fn receipt(self, sequence: u64, link: Link, now: u64) -> Receipt {
        Receipt {
            sequence,
            deadline: later(now, self.timeouts.stall@),
            generation: link.generation,
        }
    }

    fn make_receipt(&self, sequence: u64, link: &Link, now: u64) -> (r: Receipt)
        ensures
            r == self.receipt(sequence, *link, now),
    {
        Receipt {
            sequence,
            deadline: now.saturating_add(self.timeouts.stall.milliseconds()),
            generation: link.generation(),
        }
    }

    /// A reliable event joins the deliveries if it is one that belongs into the reliable channel.
    pub open spec fn hands_over<C: Codec>(
        self,
        codec: &C,
        bytes: Seq<u8>,
        sequence: u64,
        link: Link,
        now: u64,
        r: Result<(), Fault>,
        next: Driver,
    ) -> bool {
        exists|whole: Vec<u8>, event: Decoded|
            {
                &&& whole@ == bytes
                &&& #[trigger] call_ensures(C::any, (codec, &whole), event)
                &&& if event is Malformed {
                    r == Err::<(), Fault>(Fault::ReliableEvent) && next == self
                } else if event.bypasses() {
                    r == Err::<(), Fault>(Fault::DirectEvent) && next == self
                } else {
                    &&& r is Ok
                    &&& next == (Driver { pending: next.pending, ..self })
                    &&& next.pending@ == self.pending@.push(
                        Delivery {
                            bytes: whole,
                            receipt: Some(self.receipt(sequence, link, now)),
                        },
                    )
                }
            }
    }

    fn hand_over<C: Codec>(
        &mut self,
        codec: &C,
        bytes: Vec<u8>,
        sequence: u64,
        link: &Link,
        now: u64,
    ) -> (r: Result<(), Fault>)
        requires
            old(self).inv(*link),
        ensures
            final(self).inv(*link),
            old(self).hands_over(codec, bytes@, sequence, *link, now, r, *final(self)),
    {
        let event = codec.any(&bytes);
        assert(call_ensures(C::any, (codec, &bytes), event));
        if let Decoded::Malformed = event {
            return Err(Fault::ReliableEvent);
        }
        if event.direct() {
            return Err(Fault::DirectEvent);
        }
        let receipt = self.make_receipt(sequence, link, now);
        self.pending.push_back(Delivery { bytes, receipt: Some(receipt) });
        Ok(())
    }

    /// What a reliable message does: with motion by datagram it is a checkpoint, whose motion is
    /// delivered before its event.
    pub open spec fn queues<C: Codec>(
        self,
        codec: &C,
        sequence: u64,
        bytes: Seq<u8>,
        link: Link,
        now: u64,
        r: Result<(), Fault>,
        next: Driver,
    ) -> bool {
        if self.hybrid != Some(true) {
            self.hands_over(codec, bytes, sequence, link, now, r, next)
        } else {
            exists|part: Vec<u8>, inner: Decoded|
                {
                    &&& part@ == motion::embedded(bytes)
                    &&& #[trigger] call_ensures(C::fixed, (codec, &part), inner)
                    &&& match motion::parse(bytes, true, self.event_limit, inner) {
                        Err(fault) => r == Err::<(), Fault>(fault) && next == self,
                        Ok(view) => self.restores(codec, sequence, view, link, now, r, next),
                    }
                }
        }
    }

    /// What a checkpoint does: the motion that it restores is delivered first.
    pub open spec fn restores<C: Codec>(
        self,
        codec: &C,
        sequence: u64,
        view: motion::FrameView,
        link: Link,
        now: u64,
        r: Result<(), Fault>,
        next: Driver,
    ) -> bool {
        exists|frame: motion::Frame, motion: Result<Option<Vec<u8>>, Fault>, mid: Driver|
            {
                &&& frame@ == view
                &&& #[trigger] self.receiver.checkpoints(
                    codec,
                    frame,
                    sequence,
                    motion,
                    mid.receiver,
                )
                &&& mid == (Driver { receiver: mid.receiver, pending: mid.pending, ..self })
                &&& match motion {
                    Err(fault) => r == Err::<(), Fault>(fault) && next == mid && mid.pending
                        == self.pending,
                    Ok(motion) => {
                        &&& mid.pending@ == (match motion {
                            Some(bytes) => self.pending@.push(Delivery { bytes, receipt: None }),
                            None => self.pending@,
                        })
                        &&& mid.hands_over(codec, view.critical, sequence, link, now, r, next)
                    },
                }
            }
    }

    fn queue<C: Codec>(
        &mut self,
        codec: &C,
        sequence: u64,
        bytes: Vec<u8>,
        link: &Link,
        now: u64,
    ) -> (r: Result<(), Fault>)
        requires
            old(self).inv(*link),
        ensures
            final(self).inv(*link),
            old(self).queues(codec, sequence, bytes@, *link, now, r, *final(self)),
    {
        if self.hybrid != Some(true) {
            return self.hand_over(codec, bytes, sequence, link, now);
        }
        let ghost s = *self;
        let part = motion::Frame::event_bytes(&bytes);
        let inner = codec.fixed(&part);
        assert(call_ensures(C::fixed, (codec, &part), inner));
        let frame = match motion::Frame::decode(&bytes, true, self.event_limit, inner) {
            Ok(frame) => frame,
            Err(fault) => return Err(fault),
        };
        let motion = self.receiver.checkpoint(codec, &frame, sequence);
        assert(s.receiver.checkpoints(codec, frame, sequence, motion, self.receiver));
        match motion {
            Ok(motion) => {
                if let Some(bytes) = motion {
                    self.pending.push_back(Delivery { bytes, receipt: None });
                }
                let ghost mid = *self;
                let r = self.hand_over(codec, motion::copy(&frame.critical), sequence, link, now);
                assert(s.receiver.checkpoints(
                    codec,
                    frame,
                    sequence,
                    Ok::<Option<Vec<u8>>, Fault>(motion),
                    mid.receiver,
                ));
                assert(s.restores(codec, sequence, frame@, *link, now, r, *self));
                r
            },
            Err(fault) => {
                assert(s.restores(codec, sequence, frame@, *link, now, Err(fault), *self));
                Err(fault)
            },
        }
    }

    /// What refilling the empty list of deliveries does: a reliable message goes before motion.
    pub open spec fn fills<C: Codec>(
        self,
        codec: &C,
        link: Link,
        now: u64,
        r: Result<(), Fault>,
        next: Driver,
    ) -> bool {
        let s = self.session@;
        if s.incoming.len() > 0 {
            exists|mid: Driver|
                {
                    &&& mid == (Driver { session: mid.session, ..self })
                    &&& mid.session@ == (Channel {
                        incoming: s.incoming.subrange(1, s.incoming.len() as int),
                        ..s
                    })
                    &&& #[trigger] mid.queues(
                        codec,
                        s.incoming[0].0,
                        s.incoming[0].1,
                        link,
                        now,
                        r,
                        next,
                    )
                }
        } else {
            exists|motion: Result<Option<Vec<u8>>, Fault>|
                {
                    &&& #[trigger] self.receiver.takes(codec, motion, next.receiver)
                    &&& next.session@ == s
                    &&& next == (Driver {
                        session: next.session,
                        receiver: next.receiver,
                        pending: next.pending,
                        ..self
                    })
                    &&& match motion {
                        Err(fault) => r == Err::<(), Fault>(fault) && next.pending@ == self.pending@,
                        Ok(Some(bytes)) => r is Ok && next.pending@ == self.pending@.push(
                            Delivery { bytes, receipt: None },
                        ),
                        Ok(None) => r is Ok && next.pending@ == self.pending@,
                    }
                }
        }
    }

    fn fill<C: Codec>(&mut self, codec: &C, link: &Link, now: u64) -> (r: Result<(), Fault>)
        requires
            old(self).inv(*link),
        ensures
            final(self).inv(*link),
            old(self).fills(codec, *link, now, r, *final(self)),
    {
        let ghost s = *self;
        if let Some((sequence, bytes)) = self.session.receive() {
            let ghost mid = *self;
            let ghost content = bytes@;
            let r = self.queue(codec, sequence, bytes, link, now);
            assert(mid.queues(codec, sequence, content, *link, now, r, *self));
            return r;
        }
        let motion = self.receiver.take(codec);
        assert(s.receiver.takes(codec, motion, self.receiver));
        match motion {
            Ok(Some(bytes)) => {
                self.pending.push_back(Delivery { bytes, receipt: None });
                Ok(())
            },
            Ok(None) => Ok(()),
            Err(fault) => Err(fault),
        }
    }

    /// What a delivery does, where refilling, if it comes to that, results in `filled` and `mid`. Each
    /// delivery of a recoverable connection carries a receipt.
    pub open spec fn delivers(
        self,
        filled: Result<(), Fault>,
        link: Link,
        now: u64,
        r: Result<Option<Delivery>, Fault>,
        next: Driver,
    ) -> bool {
        match filled {
            Err(fault) => r == Err::<Option<Delivery>, Fault>(fault) && next == self,
            Ok(_) => if self.pending@.len() == 0 {
                r == Ok::<Option<Delivery>, Fault>(None) && next == self
            } else {
                let first = self.pending@[0];
                &&& next == (Driver { pending: next.pending, ..self })
                &&& next.pending@ == self.pending@.subrange(1, self.pending@.len() as int)
                &&& r == Ok::<Option<Delivery>, Fault>(
                    Some(
                        Delivery {
                            bytes: first.bytes,
                            receipt: if link.enabled && first.receipt is None {
                                Some(self.receipt(0, link, now))
                            } else {
                                first.receipt
                            },
                        },
                    ),
                )
            },
        }
    }

    /// The next message for the application. Call it when the application has room.
    pub fn deliver<C: Codec>(&mut self, codec: &C, link: &Link, now: u64) -> (r: Result<
        Option<Delivery>,
        Fault,
    >)
        requires
            old(self).inv(*link),
        ensures
            final(self).inv(*link),
            exists|filled: Result<(), Fault>, mid: Driver|
                {
                    &&& if old(self).pending@.len() > 0 {
                        filled is Ok && mid == *old(self)
                    } else {
                        old(self).fills(codec, *link, now, filled, mid)
                    }
                    &&& #[trigger] mid.delivers(filled, *link, now, r, *final(self))
                },
    {
        let mut filled: Result<(), Fault> = Ok(());
        if self.pending.len() == 0 {
            filled = self.fill(codec, link, now);
        }
        let ghost mid = *self;
        if let Err(fault) = filled {
            assert(mid.delivers(filled, *link, now, Err(fault), *self));
            return Err(fault);
        }
        if self.pending.len() == 0 {
            let r: Result<Option<Delivery>, Fault> = Ok(None);
            assert(mid.delivers(filled, *link, now, r, *self));
            return r;
        }
        let mut r: Result<Option<Delivery>, Fault> = Ok(None);
        if let Some(delivery) = self.pending.pop_front() {
            let mut delivery = delivery;
            if link.enabled() && delivery.receipt.is_none() {
                delivery.receipt = Some(self.make_receipt(0, link, now));
            }
            r = Ok(Some(delivery));
        }
        assert(mid.delivers(filled, *link, now, r, *self));
        r
    }

    /// Whether a greeting with these capabilities makes the dialer's connection recoverable, for which
    /// it then needs an identity.
    pub open spec fn needs_identity(self, capabilities: u32) -> bool {
        &&& self.dialer
        &&& self.runtime is None
        &&& self.recoverable
        &&& capabilities & CAP_INPUT_RECOVERY_V1 != 0
    }

    /// The transport that a greeting selects: the dialer has made its choice, the acceptor follows the
    /// greeting.
    pub open spec fn selects(self, capabilities: u32) -> Option<bool> {
        if self.dialer {
            self.reliable
        } else {
            Some(capabilities & CAP_KCP_REQUEST != 0)
        }
    }

    /// What the peer's greeting does, where `identity` is the identity of a new recoverable
    /// connection, and `hello` is what the session makes of the greeting if it comes to that.
    pub open spec fn greets(
        self,
        native: bool,
        capabilities: u32,
        identity: Option<[u8; 16]>,
        link: Link,
        now: u64,
        r: Result<(), Fault>,
        next: Driver,
        after: Link,
    ) -> bool {
        let chosen = self.selects(capabilities);
        let recovery = self.recoverable && capabilities & CAP_INPUT_RECOVERY_V1 != 0;
        let motion = capabilities & CAP_UDP_MOTION_V1 != 0;
        let s1 = Driver { reliable: chosen, ..self };
        let s2 = Driver { recovery_selected: Some(recovery), ..s1 };
        if !native {
            r == Err::<(), Fault>(Fault::ForeignHello) && next == self && after == link
        } else if self.reliable is Some && self.reliable != chosen {
            r == Err::<(), Fault>(Fault::TransportChanged) && next == self && after == link
        } else if chosen != Some(true) {
            r is Ok && next == s1 && after == link
        } else if self.recovery_selected is Some && self.recovery_selected != Some(recovery) {
            r == Err::<(), Fault>(Fault::RecoveryChanged) && next == s1 && after == link
        } else if self.needs_identity(capabilities) {
            match identity {
                None => r == Err::<(), Fault>(Fault::RandomIdentity) && next == s2 && after == link,
                Some(identity) => exists|made: Result<Runtime, Fault>|
                    {
                        &&& #[trigger] Conduct::starts(
                            identity,
                            Role::Dialer,
                            self.timeouts.peer@,
                            now,
                            link,
                            made,
                            after,
                        )
                        &&& match made {
                            Err(fault) => r == Err::<(), Fault>(fault) && next == s2,
                            Ok(runtime) => (Driver {
                                runtime: Some(runtime),
                                ..s2
                            }).selects_motion(motion, capabilities, now, r, next),
                        }
                    },
            }
        } else {
            after == link && s2.selects_motion(motion, capabilities, now, r, next)
        }
    }

    /// The rest of a greeting: motion is selected once, and the session is greeted.
    pub open spec fn selects_motion(
        self,
        motion: bool,
        capabilities: u32,
        now: u64,
        r: Result<(), Fault>,
        next: Driver,
    ) -> bool {
        if self.hybrid is Some && self.hybrid != Some(motion) {
            r == Err::<(), Fault>(Fault::MotionChanged) && next == self
        } else {
            let supported = capabilities & CAP_KCP_INPUT_V1 != 0;
            let s = Channel { now, ..self.session@ };
            &&& next == (Driver { hybrid: Some(motion), session: next.session, ..self })
            &&& s.greeted(supported, r, next.session@)
        }
    }

    fn select_motion(&mut self, capabilities: u32, link: &Link, now: u64) -> (r: Result<(), Fault>)
        requires
            old(self).inv(*link),
        ensures
            final(self).inv(*link),
            old(self).selects_motion(
                capabilities & CAP_UDP_MOTION_V1 != 0,
                capabilities,
                now,
                r,
                *final(self),
            ),
    {
        let motion = capabilities & CAP_UDP_MOTION_V1 != 0;
        if let Some(previous) = self.hybrid {
            if previous != motion {
                return Err(Fault::MotionChanged);
            }
        }
        self.hybrid = Some(motion);
        self.session.hello(capabilities & CAP_KCP_INPUT_V1 != 0, now)
    }

    /// Takes the peer's greeting. `identity` is a random identity, asked for only where the greeting
    /// makes the dialer's connection recoverable.
    pub fn greet(
        &mut self,
        native: bool,
        capabilities: u32,
        identity: Option<[u8; 16]>,
        link: &mut Link,
        now: u64,
    ) -> (r: Result<(), Fault>)
        requires
            old(self).inv(*old(link)),
        ensures
            final(self).inv(*final(link)),
            old(self).greets(
                native,
                capabilities,
                identity,
                *old(link),
                now,
                r,
                *final(self),
                *final(link),
            ),
    {
        if !native {
            return Err(Fault::ForeignHello);
        }
        if !self.dialer {
            let requested = capabilities & CAP_KCP_REQUEST != 0;
            if let Some(mode) = self.reliable {
                if mode != requested {
                    return Err(Fault::TransportChanged);
                }
            }
            self.reliable = Some(requested);
        }
        if self.reliable != Some(true) {
            return Ok(());
        }
        let recovery = self.recoverable && capabilities & CAP_INPUT_RECOVERY_V1 != 0;
        if let Some(previous) = self.recovery_selected {
            if previous != recovery {
                return Err(Fault::RecoveryChanged);
            }
        }
        self.recovery_selected = Some(recovery);
        if recovery && self.dialer && self.runtime.is_none() {
            let identity = match identity {
                Some(identity) => identity,
                None => return Err(Fault::RandomIdentity),
            };
            let ghost before = *link;
            let made = Runtime::new(
                identity,
                Role::Dialer,
                self.timeouts.peer.milliseconds(),
                now,
                link,
            );
            assert(Conduct::starts(
                identity,
                Role::Dialer,
                self.timeouts.peer@,
                now,
                before,
                made,
                *link,
            ));
            match made {
                Ok(runtime) => self.runtime = Some(runtime),
                Err(fault) => return Err(fault),
            }
        }
        self.select_motion(capabilities, link, now)
    }

    /// Whether the connection takes packets now.
    pub fn accepts_packet(&self) -> (r: bool)
        ensures
            r == (self.runtime is Some || (self.session@.wire.len() < crate::session::WIRE_CAPACITY
                && self.session@.output.len() <= crate::engine::OUTPUT_CAPACITY - 2)),
    {
        self.runtime.is_some() || self.session.can_input()
    }

    /// What the first envelope of a connection does: it must be the dialer's offer of epoch zero.
    pub open spec fn bootstraps(
        self,
        envelope: EnvelopeView,
        link: Link,
        now: u64,
        r: Result<(), Fault>,
        next: Driver,
        after: Link,
    ) -> bool {
        if self.runtime is Some {
            r is Ok && next == self && after == link
        } else {
            let first = match envelope {
                EnvelopeView::Reliable { epoch, source, frame, .. } => epoch == 0 && source
                    == Role::Dialer && frame is Offer,
                _ => false,
            };
            if !first {
                r == Err::<(), Fault>(Fault::RecoveryBootstrap) && next == self && after == link
            } else if self.dialer {
                r == Err::<(), Fault>(Fault::UnexpectedBootstrap) && next == self && after == link
            } else {
                exists|session: protocol::Session, made: Result<Runtime, Fault>|
                    {
                        &&& session@ == envelope.session()
                        &&& #[trigger] Conduct::starts(
                            session,
                            Role::Acceptor,
                            self.timeouts.peer@,
                            now,
                            link,
                            made,
                            after,
                        )
                        &&& match made {
                            Err(fault) => r == Err::<(), Fault>(fault) && next == self,
                            Ok(runtime) => r is Ok && next == (Driver {
                                runtime: Some(runtime),
                                ..self
                            }),
                        }
                    }
            }
        }
    }

    fn bootstrap(&mut self, envelope: &Envelope, link: &mut Link, now: u64) -> (r: Result<
        (),
        Fault,
    >)
        requires
            old(self).inv(*old(link)),
        ensures
            final(self).inv(*final(link)),
            old(self).bootstraps(envelope@, *old(link), now, r, *final(self), *final(link)),
            r is Ok ==> final(self).runtime is Some,
    {
        if self.runtime.is_some() {
            return Ok(());
        }
        let session = match envelope {
            Envelope::Reliable { session, epoch, source, frame } => {
                if *epoch != 0 || *source != Role::Dialer {
                    return Err(Fault::RecoveryBootstrap);
                }
                match frame {
                    Frame::Offer { .. } => *session,
                    _ => return Err(Fault::RecoveryBootstrap),
                }
            },
            _ => return Err(Fault::RecoveryBootstrap),
        };
        if self.dialer {
            return Err(Fault::UnexpectedBootstrap);
        }
        let ghost before = *link;
        let made = Runtime::new(
            session,
            Role::Acceptor,
            self.timeouts.peer.milliseconds(),
            now,
            link,
        );
        assert(Conduct::starts(
            session,
            Role::Acceptor,
            self.timeouts.peer@,
            now,
            before,
            made,
            *link,
        ));
        match made {
            Ok(runtime) => {
                self.runtime = Some(runtime);
                Ok(())
            },
            Err(fault) => Err(fault),
        }
    }

    /// Whether data in an envelope is let in: by the coordinator, or as the answer to a probe.
    pub open spec fn lets_in(self, envelope: EnvelopeView, now: u64) -> bool {
        ||| self.runtime->0@.machine.accepts(now, envelope)
        ||| {
            &&& self.pending_probe is Some
            &&& envelope is Reliable
            &&& envelope.session() == self.pending_probe->0.session_of()@
            &&& envelope.epoch() == self.pending_probe->0.epoch_of() + 1
            &&& envelope.source() == Role::Acceptor
        }
    }

    /// What opening an envelope does. A control frame goes to the coordinator; data that is let in
    /// proves that the peer lives, and its content is handed on.
    pub open spec fn opens(
        self,
        envelope: EnvelopeView,
        link: Link,
        now: u64,
        r: Result<Option<Vec<u8>>, Fault>,
        next: Driver,
        after: Link,
    ) -> bool {
        match envelope {
            EnvelopeView::Control(c) => exists|control: Control, stepped: Result<(), Fault>|
                {
                    &&& control@ == c
                    &&& #[trigger] self.advances(
                        now,
                        Input::Control(control),
                        link,
                        stepped,
                        next,
                        after,
                    )
                    &&& match stepped {
                        Ok(_) => r == Ok::<Option<Vec<u8>>, Fault>(None),
                        Err(fault) => r == Err::<Option<Vec<u8>>, Fault>(fault),
                    }
                },
            _ => if !self.lets_in(envelope, now) {
                r == Ok::<Option<Vec<u8>>, Fault>(None) && next == self && after == link
            } else {
                exists|stepped: Result<(), Fault>|
                    {
                        &&& #[trigger] self.advances(
                            now,
                            Input::PeerActivity,
                            link,
                            stepped,
                            next,
                            after,
                        )
                        &&& match stepped {
                            Ok(_) => r matches Ok(Some(bytes)) && bytes@ == envelope.body(),
                            Err(fault) => r == Err::<Option<Vec<u8>>, Fault>(fault),
                        }
                    }
            },
        }
    }

    fn open_envelope(&mut self, envelope: Envelope, link: &mut Link, now: u64) -> (r: Result<
        Option<Vec<u8>>,
        Fault,
    >)
        requires
            old(self).inv(*old(link)),
            old(self).runtime is Some,
        ensures
            r is Ok ==> final(self).inv(*final(link)),
            final(self).session.inv(),
            old(self).opens(envelope@, *old(link), now, r, *final(self), *final(link)),
    {
        let ghost s = *self;
        let ghost l = *link;
        if let Envelope::Control(control) = &envelope {
            let control = *control;
            let stepped = self.advance(now, Input::Control(control), link);
            assert(s.advances(now, Input::Control(control), l, stepped, *self, *link));
            return match stepped {
                Ok(_) => Ok(None),
                Err(fault) => Err(fault),
            };
        }
        let accepted = match &self.runtime {
            Some(runtime) => runtime.machine().accepts_data(now, &envelope),
            None => false,
        };
        let awaited = match (&self.pending_probe, &envelope) {
            (Some(round), Envelope::Reliable { .. }) => envelope.matches(
                round.session(),
                round.next_epoch(),
                Role::Acceptor,
            ),
            _ => false,
        };
        if !accepted && !awaited {
            return Ok(None);
        }
        let stepped = self.advance(now, Input::PeerActivity, link);
        assert(s.advances(now, Input::PeerActivity, l, stepped, *self, *link));
        if let Err(fault) = stepped {
            return Err(fault);
        }
        match envelope {
            Envelope::Reliable { frame, .. } => Ok(Some(frame.encode())),
            Envelope::Motion { bytes, .. } => Ok(Some(bytes)),
            Envelope::Control(_) => Ok(None),
        }
    }

    /// What a packet is before it is sorted: one in an envelope is opened. `inner` is what the codec
    /// makes of the event inside a motion datagram.
    pub open spec fn unwraps(
        self,
        bytes: Vec<u8>,
        inner: Decoded,
        link: Link,
        now: u64,
        r: Result<Option<Vec<u8>>, Fault>,
        next: Driver,
        after: Link,
    ) -> bool {
        let tag = if bytes@.len() > 0 {
            Some(bytes@[0])
        } else {
            None
        };
        if tag == Some(protocol::TAG) {
            if self.recovery_selected != Some(true) {
                r == Err::<Option<Vec<u8>>, Fault>(Fault::Unnegotiated) && next == self && after
                    == link
            } else {
                match protocol::parse(bytes@, self.event_limit, inner) {
                    None => r == Err::<Option<Vec<u8>>, Fault>(Fault::RecoveryEnvelope) && next
                        == self && after == link,
                    Some(envelope) => exists|begun: Result<(), Fault>, mid: Driver, between: Link|
                        {
                            &&& #[trigger] self.bootstraps(envelope, link, now, begun, mid, between)
                            &&& match begun {
                                Err(fault) => r == Err::<Option<Vec<u8>>, Fault>(fault) && next
                                    == mid && after == between,
                                Ok(_) => mid.opens(envelope, between, now, r, next, after),
                            }
                        },
                }
            }
        } else if self.recovery_selected == Some(true) && (tag == Some(frame::TAG) || tag == Some(
            MOTION_TAG,
        )) {
            r == Err::<Option<Vec<u8>>, Fault>(Fault::Unscoped) && next == self && after == link
        } else {
            r == Ok::<Option<Vec<u8>>, Fault>(Some(bytes)) && next == self && after == link
        }
    }

    fn unwrap(&mut self, bytes: Vec<u8>, inner: Decoded, link: &mut Link, now: u64) -> (r: Result<
        Option<Vec<u8>>,
        Fault,
    >)
        requires
            old(self).inv(*old(link)),
        ensures
            r is Ok ==> final(self).inv(*final(link)),
            final(self).session.inv(),
            old(self).unwraps(bytes, inner, *old(link), now, r, *final(self), *final(link)),
    {
        let ghost s = *self;
        let ghost l = *link;
        let tag: u8 = if bytes.len() > 0 {
            bytes[0]
        } else {
            0
        };
        if tag == protocol::TAG {
            if self.recovery_selected != Some(true) {
                return Err(Fault::Unnegotiated);
            }
            let envelope = match Envelope::decode(&bytes, self.event_limit, &inner) {
                Some(envelope) => envelope,
                None => return Err(Fault::RecoveryEnvelope),
            };
            let begun = self.bootstrap(&envelope, link, now);
            assert(s.bootstraps(envelope@, l, now, begun, *self, *link));
            if let Err(fault) = begun {
                return Err(fault);
            }
            return self.open_envelope(envelope, link, now);
        }
        if self.recovery_selected == Some(true) && (tag == frame::TAG || tag == MOTION_TAG) {
            return Err(Fault::Unscoped);
        }
        Ok(Some(bytes))
    }

    /// What a motion datagram does: the freshest sample is kept, and one that is fresh proves that the
    /// peer lives. `inner` is what the codec makes of the event inside.
    pub open spec fn takes_motion(
        self,
        bytes: Seq<u8>,
        inner: Decoded,
        now: u64,
        r: Result<(), Fault>,
        next: Driver,
    ) -> bool {
        if self.reliable != Some(true) || self.hybrid != Some(true) {
            r == Err::<(), Fault>(Fault::UnnegotiatedMotion) && next == self
        } else {
            match motion::parse(bytes, false, self.event_limit, inner) {
                Err(fault) => r == Err::<(), Fault>(fault) && next == self,
                Ok(view) => exists|frame: motion::Frame|
                    {
                        &&& frame@ == view
                        &&& r is Ok
                        &&& if #[trigger] self.receiver.fresh(frame) {
                            &&& next == (Driver {
                                session: next.session,
                                receiver: motion::Receiver {
                                    freshest: frame.sequence,
                                    freshest_dependency: frame.dependency,
                                    pending: Some(frame),
                                    ..self.receiver
                                },
                                ..self
                            })
                            &&& next.session@ == self.session@.fresh_motion(frame.dependency, now)
                        } else {
                            next == self
                        }
                    },
            }
        }
    }

    fn take_motion(&mut self, bytes: &Vec<u8>, inner: Decoded, link: &Link, now: u64) -> (r: Result<
        (),
        Fault,
    >)
        requires
            old(self).inv(*link),
        ensures
            final(self).inv(*link),
            old(self).takes_motion(bytes@, inner, now, r, *final(self)),
    {
        if self.reliable != Some(true) || self.hybrid != Some(true) {
            return Err(Fault::UnnegotiatedMotion);
        }
        // UDP may overtake the KCP bootstrap. Retain one sample,
        // but deliver nothing until the reliable session is ready.
        let frame = match motion::Frame::decode(bytes, false, self.event_limit, inner) {
            Ok(frame) => frame,
            Err(fault) => return Err(fault),
        };
        let dependency: u64 = frame.dependency;
        let ghost sample = frame;
        let fresh = self.receiver.datagram(frame);
        assert(fresh == old(self).receiver.fresh(sample));
        if fresh {
            self.session.fresh_motion(dependency, now);
        }
        Ok(())
    }

    /// What a frame of the session does. During a probe no message may arrive yet.
    pub open spec fn takes_frame(
        self,
        bytes: Seq<u8>,
        now: u64,
        r: Result<(), Fault>,
        next: Driver,
    ) -> bool {
        if self.reliable != Some(true) {
            r == Err::<(), Fault>(Fault::LegacyFrame) && next == self
        } else {
            let s = Channel { now, ..self.session@ };
            &&& next == (Driver { session: next.session, ..self })
            &&& exists|taken: Result<(), Fault>|
                {
                    &&& #[trigger] s.takes(bytes, taken, next.session@)
                    &&& r == (match taken {
                        Err(fault) => Err::<(), Fault>(fault),
                        Ok(_) => if self.pending_probe is Some && next.session@.incoming.len() > 0 {
                            Err(Fault::EarlyInput)
                        } else {
                            Ok(())
                        },
                    })
                }
        }
    }

    fn take_frame(&mut self, bytes: &Vec<u8>, link: &Link, now: u64) -> (r: Result<(), Fault>)
        requires
            old(self).inv(*link),
        ensures
            final(self).inv(*link),
            old(self).takes_frame(bytes@, now, r, *final(self)),
    {
        if self.reliable != Some(true) {
            return Err(Fault::LegacyFrame);
        }
        let ghost s = Channel { now, ..self.session@ };
        let taken = self.session.input(bytes, now);
        assert(s.takes(bytes@, taken, self.session@));
        match taken {
            Err(fault) => Err(fault),
            Ok(_) => if self.pending_probe.is_some() && self.session.has_received() {
                Err(Fault::EarlyInput)
            } else {
                Ok(())
            },
        }
    }

    /// What a liveness probe or its answer does: it proves that the peer lives, and nothing else.
    pub open spec fn hears(
        self,
        link: Link,
        now: u64,
        r: Result<(), Fault>,
        next: Driver,
        after: Link,
    ) -> bool {
        if self.runtime is None {
            &&& r is Ok
            &&& after == link
            &&& next == (Driver { session: next.session, ..self })
            &&& next.session@ == self.session@.peer_activity(now)
        } else {
            exists|mid: Driver|
                {
                    &&& mid == (Driver { session: mid.session, ..self })
                    &&& mid.session@ == self.session@.peer_activity(now)
                    &&& #[trigger] mid.advances(now, Input::PeerActivity, link, r, next, after)
                }
        }
    }

    fn hear(&mut self, link: &mut Link, now: u64) -> (r: Result<(), Fault>)
        requires
            old(self).inv(*old(link)),
        ensures
            r is Ok ==> final(self).inv(*final(link)),
            final(self).session.inv(),
            old(self).hears(*old(link), now, r, *final(self), *final(link)),
    {
        let ghost l = *link;
        // DTLS authenticates the sender. Heartbeats only renew
        // peer liveness, never reliable consumption deadlines.
        self.session.peer_activity(now);
        let ghost mid = *self;
        if self.runtime.is_some() {
            let r = self.advance(now, Input::PeerActivity, link);
            assert(mid.advances(now, Input::PeerActivity, l, r, *self, *link));
            return r;
        }
        Ok(())
    }

    /// What a packet outside any envelope does, where `event` is what the codec makes of it and
    /// `identity` is the identity of a new recoverable connection.
    pub open spec fn takes_event(
        self,
        event: Decoded,
        identity: Option<[u8; 16]>,
        link: Link,
        now: u64,
        r: Result<bool, Fault>,
        next: Driver,
        after: Link,
    ) -> bool {
        match event {
            Decoded::Malformed => r == Ok::<bool, Fault>(false) && next == self && after == link,
            Decoded::Heartbeat => exists|heard: Result<(), Fault>|
                {
                    &&& #[trigger] self.hears(link, now, heard, next, after)
                    &&& r == delivered(heard)
                },
            Decoded::Hello { native, capabilities } => exists|greeted: Result<(), Fault>|
                {
                    &&& #[trigger] self.greets(
                        native,
                        capabilities,
                        identity,
                        link,
                        now,
                        greeted,
                        next,
                        after,
                    )
                    &&& r == delivered(greeted)
                },
            _ => {
                &&& next == self
                &&& after == link
                &&& r == (if !event.bypasses() && self.reliable != Some(false) {
                    Err::<bool, Fault>(Fault::Unselected)
                } else {
                    Ok(true)
                })
            },
        }
    }

    /// Takes a packet outside any envelope; returns whether the application gets it. `identity` is a
    /// random identity, asked for only where a greeting needs one.
    pub fn take_event(
        &mut self,
        event: Decoded,
        identity: Option<[u8; 16]>,
        link: &mut Link,
        now: u64,
    ) -> (r: Result<bool, Fault>)
        requires
            old(self).inv(*old(link)),
        ensures
            r is Ok ==> final(self).inv(*final(link)),
            final(self).session.inv(),
            old(self).takes_event(
                event,
                identity,
                *old(link),
                now,
                r,
                *final(self),
                *final(link),
            ),
    {
        let ghost s = *self;
        let ghost l = *link;
        match event {
            Decoded::Malformed => Ok(false),
            Decoded::Heartbeat => {
                let heard = self.hear(link, now);
                assert(s.hears(l, now, heard, *self, *link));
                match heard {
                    Ok(_) => Ok(true),
                    Err(fault) => Err(fault),
                }
            },
            Decoded::Hello { native, capabilities } => {
                let greeted = self.greet(native, capabilities, identity, link, now);
                assert(s.greets(
                    native,
                    capabilities,
                    identity,
                    l,
                    now,
                    greeted,
                    *self,
                    *link,
                ));
                match greeted {
                    Ok(_) => Ok(true),
                    Err(fault) => Err(fault),
                }
            },
            _ => if !event.direct() && self.reliable != Some(false) {
                Err(Fault::Unselected)
            } else {
                Ok(true)
            },
        }
    }

    /// What may be drawn for an event: an identity for a greeting that starts a recovery, and nothing
    /// for any other event.
    pub open spec fn draws(self, event: Decoded, identity: Option<[u8; 16]>) -> bool {
        match event {
            Decoded::Hello { capabilities, .. } if self.needs_identity(capabilities) => drawn(
                identity,
            ),
            _ => identity is None,
        }
    }

    /// What an opened packet does, by its first byte: motion and frames are for the session, and
    /// anything else is an event.
    pub open spec fn sorts(
        self,
        bytes: Vec<u8>,
        event: Decoded,
        inner: Decoded,
        link: Link,
        now: u64,
        r: Result<Arrival, Fault>,
        next: Driver,
        after: Link,
    ) -> bool {
        let tag = if bytes@.len() > 0 {
            Some(bytes@[0])
        } else {
            None
        };
        if tag == Some(MOTION_TAG) {
            &&& after == link
            &&& exists|taken: Result<(), Fault>|
                {
                    &&& #[trigger] self.takes_motion(bytes@, inner, now, taken, next)
                    &&& r == arrived(taken)
                }
        } else if tag == Some(frame::TAG) {
            &&& after == link
            &&& exists|taken: Result<(), Fault>|
                {
                    &&& #[trigger] self.takes_frame(bytes@, now, taken, next)
                    &&& r == arrived(taken)
                }
        } else {
            exists|taken: Result<bool, Fault>, identity: Option<[u8; 16]>|
                {
                    &&& #[trigger] self.takes_event(event, identity, link, now, taken, next, after)
                    &&& self.draws(event, identity)
                    &&& r == (match taken {
                        Ok(true) => Ok::<Arrival, Fault>(
                            Arrival::Deliver(Delivery { bytes, receipt: None }),
                        ),
                        Ok(false) => Ok(Arrival::Ignored),
                        Err(fault) => Err(fault),
                    })
                }
        }
    }

    fn sort(
        &mut self,
        bytes: Vec<u8>,
        event: Decoded,
        inner: Decoded,
        link: &mut Link,
        now: u64,
    ) -> (r: Result<Arrival, Fault>)
        requires
            old(self).inv(*old(link)),
        ensures
            r is Ok ==> final(self).inv(*final(link)),
            final(self).session.inv(),
            old(self).sorts(
                bytes,
                event,
                inner,
                *old(link),
                now,
                r,
                *final(self),
                *final(link),
            ),
    {
        let ghost s = *self;
        let ghost l = *link;
        let tag: u8 = if bytes.len() > 0 {
            bytes[0]
        } else {
            0
        };
        if tag == MOTION_TAG {
            let taken = self.take_motion(&bytes, inner, link, now);
            assert(s.takes_motion(bytes@, inner, now, taken, *self));
            return match taken {
                Ok(_) => Ok(Arrival::Done),
                Err(fault) => Err(fault),
            };
        }
        if tag == frame::TAG {
            let taken = self.take_frame(&bytes, link, now);
            assert(s.takes_frame(bytes@, now, taken, *self));
            return match taken {
                Ok(_) => Ok(Arrival::Done),
                Err(fault) => Err(fault),
            };
        }
        let mut identity: Option<[u8; 16]> = None;
        if let Decoded::Hello { capabilities, .. } = event {
            if self.dialer && self.runtime.is_none() && self.recoverable && capabilities
                & CAP_INPUT_RECOVERY_V1 != 0 {
                identity = random_identity();
            }
        }
        assert(s.draws(event, identity));
        let taken = self.take_event(event, identity, link, now);
        assert(s.takes_event(event, identity, l, now, taken, *self, *link));
        match taken {
            Ok(true) => Ok(Arrival::Deliver(Delivery { bytes, receipt: None })),
            Ok(false) => Ok(Arrival::Ignored),
            Err(fault) => Err(fault),
        }
    }

    /// What a packet of the peer does, where `event` is what the codec makes of the packet and `inner`
    /// what it makes of the event inside a motion datagram.
    pub open spec fn receives(
        self,
        bytes: Vec<u8>,
        event: Decoded,
        inner: Decoded,
        link: Link,
        now: u64,
        r: Result<Arrival, Fault>,
        next: Driver,
        after: Link,
    ) -> bool {
        exists|opened: Result<Option<Vec<u8>>, Fault>, mid: Driver, between: Link|
            {
                &&& #[trigger] self.unwraps(bytes, inner, link, now, opened, mid, between)
                &&& match opened {
                    Err(fault) => r == Err::<Arrival, Fault>(fault) && next == mid && after
                        == between,
                    Ok(None) => r == Ok::<Arrival, Fault>(Arrival::Ignored) && next == mid && after
                        == between,
                    Ok(Some(content)) => mid.sorts(
                        content,
                        event,
                        inner,
                        between,
                        now,
                        r,
                        next,
                        after,
                    ),
                }
            }
    }

    /// Takes a packet of the peer, of which the codec makes `event`; of the event inside a motion
    /// datagram it makes `inner`.
    pub fn receive(
        &mut self,
        bytes: Vec<u8>,
        event: Decoded,
        inner: Decoded,
        link: &mut Link,
        now: u64,
    ) -> (r: Result<Arrival, Fault>)
        requires
            old(self).inv(*old(link)),
        ensures
            r is Ok ==> final(self).inv(*final(link)),
            final(self).session.inv(),
            old(self).receives(
                bytes,
                event,
                inner,
                *old(link),
                now,
                r,
                *final(self),
                *final(link),
            ),
    {
        let ghost s = *self;
        let ghost l = *link;
        let opened = self.unwrap(bytes, inner, link, now);
        assert(s.unwraps(bytes, inner, l, now, opened, *self, *link));
        match opened {
            Ok(Some(content)) => self.sort(content, event, inner, link, now),
            Ok(None) => Ok(Arrival::Ignored),
            Err(fault) => Err(fault),
        }
    }

    /// Takes a packet of the peer.
    pub fn packet<C: Codec>(&mut self, codec: &C, bytes: Vec<u8>, link: &mut Link, now: u64) -> (r:
        Result<Arrival, Fault>)
        requires
            old(self).inv(*old(link)),
        ensures
            r is Ok ==> final(self).inv(*final(link)),
            final(self).session.inv(),
            exists|event: Decoded, inner: Decoded, part: Vec<u8>|
                {
                    &&& call_ensures(C::any, (codec, &bytes), event)
                    &&& part@ == motion_event(bytes@)
                    &&& #[trigger] call_ensures(C::fixed, (codec, &part), inner)
                    &&& #[trigger] old(self).receives(
                        bytes,
                        event,
                        inner,
                        *old(link),
                        now,
                        r,
                        *final(self),
                        *final(link),
                    )
                },
    {
        let event = codec.any(&bytes);
        let part = inner_event(&bytes);
        let inner = codec.fixed(&part);
        self.receive(bytes, event, inner, link, now)
    }

    /// Everything of the previous epoch is gone, and the session of `epoch` is open; with `probe`, its
    /// first message waits for its acknowledgement.
    pub open spec fn revives(self, epoch: u64, probe: bool, now: u64, next: Driver) -> bool {
        let identity = self.runtime->0@.machine.session@;
        let (id, conv) = session_ids(identity, epoch);
        let s = Channel::initial(
            self.dialer,
            id,
            conv,
            now,
            self.timeouts.stall@,
            self.timeouts.peer@,
            message_limit(self.layout_limit),
        );
        &&& next == (Driver {
            session: next.session,
            sender: next.sender,
            receiver: motion::Receiver::initial(),
            pending: next.pending,
            installed_epoch: epoch,
            ..self
        })
        &&& next.sender.initial()
        &&& next.pending@.len() == 0
        &&& exists|begun: Channel|
            {
                &&& #[trigger] s.starts(begun)
                &&& if probe {
                    (Channel { ready: true, ..begun }).probes(Fault::Probe, Ok(()), next.session@)
                } else {
                    next.session@ == (Channel { ready: true, ..begun })
                }
            }
    }

    /// Replaces the session by that of `epoch`; with `probe`, its first message must be acknowledged
    /// before the peer counts as having it too.
    fn revive(&mut self, epoch: u64, probe: bool, link: &Link, now: u64) -> (r: Result<(), Fault>)
        requires
            old(self).inv(*link),
            old(self).runtime is Some,
        ensures
            final(self).inv(*link),
            r is Ok,
            old(self).revives(epoch, probe, now, *final(self)),
            final(self).session@.waiting == (if probe {
                seq![zeros()]
            } else {
                Seq::empty()
            }),
    {
        let identity = match &self.runtime {
            Some(runtime) => runtime.machine().session(),
            None => return Ok(()),
        };
        let (id, conv) = derive_ids(&identity, epoch);
        let made = Session::recovered(
            self.dialer,
            id,
            conv,
            now,
            self.timeouts,
            self.layout_limit,
        );
        match made {
            Ok(session) => self.session = session,
            Err(fault) => return Err(fault),
        }
        let ghost begun = Channel { ready: false, ..self.session@ };
        assert(Channel::initial(
            self.dialer,
            id,
            conv,
            now,
            self.timeouts.stall@,
            self.timeouts.peer@,
            message_limit(self.layout_limit),
        ).starts(begun));
        assert(self.session@ == (Channel { ready: true, ..begun }));
        if probe {
            if let Err(fault) = self.session.recovery_probe() {
                return Err(fault);
            }
            assert(self.session@.waiting =~= seq![zeros()]);
        }
        self.installed_epoch = epoch;
        self.sender = motion::Sender::default();
        self.receiver = motion::Receiver::default();
        self.pending.clear();
        Ok(())
    }

    /// What a stall does: a recovery begins.
    pub open spec fn settles_stall(
        self,
        link: Link,
        now: u64,
        r: Result<(), Fault>,
        next: Driver,
        after: Link,
    ) -> bool {
        if !link.stalled {
            r is Ok && next == self && after == link
        } else {
            self.advances(now, Input::Start, Link { stalled: false, ..link }, r, next, after)
        }
    }

    fn settle_stall(&mut self, link: &mut Link, now: u64) -> (r: Result<(), Fault>)
        requires
            old(self).inv(*old(link)),
            old(self).runtime is Some,
        ensures
            r is Ok ==> final(self).inv(*final(link)) && final(self).runtime is Some,
            final(self).session.inv(),
            old(self).settles_stall(*old(link), now, r, *final(self), *final(link)),
    {
        if !link.stalled {
            return Ok(());
        }
        link.stalled = false;
        self.advance(now, Input::Start, link)
    }

    /// What an answer of the local input owner does. The dialer first probes the session that it
    /// installs; stale and repeated answers touch nothing of the live epoch.
    pub open spec fn settles_response(
        self,
        link: Link,
        now: u64,
        r: Result<(), Fault>,
        next: Driver,
        after: Link,
    ) -> bool {
        let heard = Link { response: None, ..link };
        let m = self.runtime->0@.machine;
        match answer(link) {
            None => r is Ok && next == self && after == heard,
            Some(Input::Installed { round, result: Ok(done) }) => {
                if !(m.state == crate::recovery::State::Installing && m.round() == round && m.expired(
                    now,
                ) is None) || self.pending_probe is Some {
                    r is Ok && next == self && after == heard
                } else if self.dialer {
                    &&& after == heard
                    &&& r is Ok
                    &&& next.pending_probe == Some(round)
                    &&& next.session@.waiting == seq![zeros()]
                    &&& self.revives(
                        (round.epoch_of() + 1) as u64,
                        true,
                        now,
                        Driver { pending_probe: self.pending_probe, ..next },
                    )
                } else {
                    self.advances(
                        now,
                        Input::Installed { round, result: Ok(done) },
                        heard,
                        r,
                        next,
                        after,
                    )
                }
            },
            Some(input) => self.advances(now, input, heard, r, next, after),
        }
    }

    fn settle_response(&mut self, link: &mut Link, now: u64) -> (r: Result<(), Fault>)
        requires
            old(self).inv(*old(link)),
            old(self).runtime is Some,
        ensures
            r is Ok ==> final(self).inv(*final(link)) && final(self).runtime is Some,
            final(self).session.inv(),
            old(self).settles_response(*old(link), now, r, *final(self), *final(link)),
    {
        let mut response: Option<Input> = None;
        let mut current = false;
        if let Some(runtime) = &self.runtime {
            response = runtime.response(link);
            if let Some(Input::Installed { round, result: Ok(_) }) = response {
                current = runtime.machine().installation_pending(round, now);
            }
        }
        let input = match response {
            Some(input) => input,
            None => return Ok(()),
        };
        if let Input::Installed { round, result: Ok(_) } = input {
            if !current || self.pending_probe.is_some() {
                // Ignore stale/duplicate local callbacks before touching
                // KCP, motion, or sequence state in the live epoch.
                return Ok(());
            }
            if self.dialer {
                if let Err(fault) = self.revive(round.next_epoch(), true, link, now) {
                    return Err(fault);
                }
                self.pending_probe = Some(round);
                return Ok(());
            }
        }
        self.advance(now, input, link)
    }

    /// What the acknowledgement of a probe does: the round counts as installed.
    pub open spec fn settles_probe(
        self,
        link: Link,
        now: u64,
        r: Result<(), Fault>,
        next: Driver,
        after: Link,
    ) -> bool {
        if self.pending_probe is None || !self.session@.running || self.session@.waiting.len() > 0 {
            r is Ok && next == self && after == link
        } else {
            (Driver { pending_probe: None, ..self }).advances(
                now,
                Input::Installed { round: self.pending_probe->0, result: Ok(()) },
                link,
                r,
                next,
                after,
            )
        }
    }

    fn settle_probe(&mut self, link: &mut Link, now: u64) -> (r: Result<(), Fault>)
        requires
            old(self).inv(*old(link)),
            old(self).runtime is Some,
        ensures
            r is Ok ==> final(self).inv(*final(link)) && final(self).runtime is Some,
            final(self).session.inv(),
            old(self).settles_probe(*old(link), now, r, *final(self), *final(link)),
    {
        if let Some(round) = self.pending_probe {
            if self.session.recovery_probe_confirmed() {
                self.pending_probe = None;
                return self.advance(now, Input::Installed { round, result: Ok(()) }, link);
            }
        }
        Ok(())
    }

    /// What the coordinator's gates do: a frozen link drops the deliveries of the epoch that it ends,
    /// and an epoch that opens replaces the session. `emptied` tells whether the writer's motion slot
    /// is to be emptied.
    pub open spec fn settles_epoch(self, link: Link, now: u64, emptied: bool, next: Driver) -> bool {
        let m = self.runtime->0@.machine;
        let gate = m.receive_gate(now);
        &&& emptied == (link.frozen && self.installed_epoch == m.epoch)
        &&& if gate is Some && gate->0 > self.installed_epoch {
            self.revives(gate->0, false, now, next)
        } else {
            &&& next == (Driver { pending: next.pending, ..self })
            &&& next.pending@ == (if emptied {
                Seq::empty()
            } else {
                self.pending@
            })
        }
    }

    fn settle_epoch(&mut self, link: &Link, now: u64) -> (emptied: bool)
        requires
            old(self).inv(*link),
            old(self).runtime is Some,
        ensures
            final(self).inv(*link),
            old(self).settles_epoch(*link, now, emptied, *final(self)),
    {
        // Freeze discards only the retired generation. Once the new
        // receive gate is installed, the peer may send before our last
        // ActivateAck arrives; preserve its checkpoint + critical pair.
        let ghost s = *self;
        let emptied = link.frozen() && self.installed_epoch == self.machine_epoch();
        if emptied {
            self.pending.clear();
        }
        let gate = match &self.runtime {
            Some(runtime) => runtime.machine().receive_epoch(now),
            None => None,
        };
        let ghost mid = *self;
        assert(mid.pending@ =~= (if emptied {
            Seq::empty()
        } else {
            s.pending@
        }));
        if let Some(epoch) = gate {
            if epoch > self.installed_epoch {
                let _ = self.revive(epoch, false, link, now);
                assert(mid.revives(epoch, false, now, *self));
                assert(s.revives(epoch, false, now, *self));
            }
        }
        emptied
    }

    /// What settling a recoverable connection does, step by step.
    pub open spec fn settles(
        self,
        link: Link,
        now: u64,
        r: Result<bool, Fault>,
        next: Driver,
        after: Link,
    ) -> bool {
        exists|r1: Result<(), Fault>, d1: Driver, l1: Link|
            {
                &&& #[trigger] self.settles_stall(link, now, r1, d1, l1)
                &&& match r1 {
                    Err(fault) => r == Err::<bool, Fault>(fault) && next == d1 && after == l1,
                    Ok(_) => d1.settles_on(l1, now, r, next, after),
                }
            }
    }

    /// What settling does after a stall was seen to.
    pub open spec fn settles_on(
        self,
        link: Link,
        now: u64,
        r: Result<bool, Fault>,
        next: Driver,
        after: Link,
    ) -> bool {
        exists|r1: Result<(), Fault>, d1: Driver, l1: Link|
            {
                &&& #[trigger] self.settles_response(link, now, r1, d1, l1)
                &&& match r1 {
                    Err(fault) => r == Err::<bool, Fault>(fault) && next == d1 && after == l1,
                    Ok(_) => d1.settles_further(l1, now, r, next, after),
                }
            }
    }

    /// What settling does after the local input owner was heard.
    pub open spec fn settles_further(
        self,
        link: Link,
        now: u64,
        r: Result<bool, Fault>,
        next: Driver,
        after: Link,
    ) -> bool {
        exists|r1: Result<(), Fault>, d1: Driver, l1: Link|
            {
                &&& #[trigger] self.settles_probe(link, now, r1, d1, l1)
                &&& match r1 {
                    Err(fault) => r == Err::<bool, Fault>(fault) && next == d1 && after == l1,
                    Ok(_) => d1.settles_last(l1, now, r, next, after),
                }
            }
    }

    /// What settling does at the end: the coordinator's clock advances, and its gates take effect.
    pub open spec fn settles_last(
        self,
        link: Link,
        now: u64,
        r: Result<bool, Fault>,
        next: Driver,
        after: Link,
    ) -> bool {
        exists|r1: Result<(), Fault>, d1: Driver|
            {
                &&& #[trigger] self.advances(now, Input::Tick, link, r1, d1, after)
                &&& match r1 {
                    Err(fault) => r == Err::<bool, Fault>(fault) && next == d1,
                    Ok(_) => r is Ok && d1.settles_epoch(after, now, r->Ok_0, next),
                }
            }
    }

    fn settle_last(&mut self, link: &mut Link, now: u64) -> (r: Result<bool, Fault>)
        requires
            old(self).inv(*old(link)),
            old(self).runtime is Some,
        ensures
            r is Ok ==> final(self).inv(*final(link)),
            final(self).session.inv(),
            old(self).settles_last(*old(link), now, r, *final(self), *final(link)),
    {
        let ghost s = *self;
        let ghost l = *link;
        let ticked = self.advance(now, Input::Tick, link);
        assert(s.advances(now, Input::Tick, l, ticked, *self, *link));
        match ticked {
            Err(fault) => Err(fault),
            Ok(_) => Ok(self.settle_epoch(link, now)),
        }
    }

    fn settle_further(&mut self, link: &mut Link, now: u64) -> (r: Result<bool, Fault>)
        requires
            old(self).inv(*old(link)),
            old(self).runtime is Some,
        ensures
            r is Ok ==> final(self).inv(*final(link)),
            final(self).session.inv(),
            old(self).settles_further(*old(link), now, r, *final(self), *final(link)),
    {
        let ghost s = *self;
        let ghost l = *link;
        let probed = self.settle_probe(link, now);
        assert(s.settles_probe(l, now, probed, *self, *link));
        match probed {
            Err(fault) => Err(fault),
            Ok(_) => self.settle_last(link, now),
        }
    }

    fn settle_on(&mut self, link: &mut Link, now: u64) -> (r: Result<bool, Fault>)
        requires
            old(self).inv(*old(link)),
            old(self).runtime is Some,
        ensures
            r is Ok ==> final(self).inv(*final(link)),
            final(self).session.inv(),
            old(self).settles_on(*old(link), now, r, *final(self), *final(link)),
    {
        let ghost s = *self;
        let ghost l = *link;
        let heard = self.settle_response(link, now);
        assert(s.settles_response(l, now, heard, *self, *link));
        match heard {
            Err(fault) => Err(fault),
            Ok(_) => self.settle_further(link, now),
        }
    }

    /// Settles the connection after an event: stalls, answers of the local input owner, probes and
    /// deadlines of a recovery take effect. Returns whether the writer's motion slot is to be emptied.
    pub fn settle(&mut self, link: &mut Link, now: u64) -> (r: Result<bool, Fault>)
        requires
            old(self).inv(*old(link)),
        ensures
            r is Ok ==> final(self).inv(*final(link)),
            final(self).session.inv(),
            if old(link).failed {
                r == Err::<bool, Fault>(Fault::SafetyFailure) && *final(self) == *old(self)
                    && *final(link) == *old(link)
            } else if old(self).runtime is None {
                r == Ok::<bool, Fault>(false) && *final(self) == *old(self) && *final(link)
                    == *old(link)
            } else {
                old(self).settles(*old(link), now, r, *final(self), *final(link))
            },
    {
        if link.failed {
            return Err(Fault::SafetyFailure);
        }
        if self.runtime.is_none() {
            return Ok(false);
        }
        let ghost s = *self;
        let ghost l = *link;
        let stalled = self.settle_stall(link, now);
        assert(s.settles_stall(l, now, stalled, *self, *link));
        match stalled {
            Err(fault) => Err(fault),
            Ok(_) => self.settle_on(link, now),
        }
    }

    /// Whether the application may send.
    pub open spec fn usable(self, link: Link) -> bool {
        self.reliable == Some(false) || self.session@.is_ready() || (link.frozen && link.enabled)
    }

    /// Concludes a turn of the driver: a packet that waits too long for the writer ends the
    /// connection, or starts its recovery. Returns what the connection shows while it is usable.
    pub fn conclude(&mut self, link: &mut Link, now: u64) -> (r: Result<Option<Status>, Fault>)
        requires
            old(self).inv(*old(link)),
        ensures
            final(self).inv(*final(link)),
            ({
                let overdue = old(self).direct_output is Some && now
                    >= old(self).direct_output->0.deadline;
                if overdue && !old(link).enabled {
                    &&& r == Err::<Option<Status>, Fault>(Fault::OutputStalled)
                    &&& *final(self) == *old(self)
                    &&& *final(link) == *old(link)
                } else {
                    &&& *final(self) == (if overdue {
                        Driver { direct_output: None, ..*old(self) }
                    } else {
                        *old(self)
                    })
                    &&& *final(link) == (if overdue {
                        Driver::stalls(*old(link))
                    } else {
                        *old(link)
                    })
                    &&& r == Ok::<Option<Status>, Fault>(
                        if !old(self).usable(*old(link)) {
                            None
                        } else if old(link).frozen {
                            Some(Status::Recovering)
                        } else if old(self).reliable == Some(false) {
                            Some(Status::Legacy)
                        } else {
                            Some(Status::Kcp)
                        },
                    )
                }
            }),
    {
        let usable = self.reliable == Some(false) || self.session.ready() || (link.frozen()
            && link.enabled());
        let status = if !usable {
            None
        } else if link.frozen() {
            Some(Status::Recovering)
        } else if self.reliable == Some(false) {
            Some(Status::Legacy)
        } else {
            Some(Status::Kcp)
        };
        let overdue = match &self.direct_output {
            Some(packet) => now >= packet.deadline,
            None => false,
        };
        if overdue {
            if !link.enabled() {
                return Err(Fault::OutputStalled);
            }
            self.direct_output = None;
            link.stall();
        }
        Ok(status)
    }
}

/// What a usable connection shows.
#[derive(Clone, Copy, Debug, PartialEq, Eq, Structural)]
pub enum Status {
    Recovering,
    Legacy,
    Kcp,
}

impl Status {
    pub open spec fn label(self) -> &'static str {
        match self {
            Status::Recovering => "Recovering",
            Status::Legacy => "Legacy",
            Status::Kcp => "KCP",
        }
    }

    pub fn text(self) -> (r: &'static str)
        ensures
            r == self.label(),
    {
        match self {
            Status::Recovering => "Recovering",
            Status::Legacy => "Legacy",
            Status::Kcp => "KCP",
        }
    }
}

/// The local input owner's answer as an input of the coordinator.
pub open spec fn answer(link: Link) -> Option<Input> {
    match link.response {
        Some(crate::lifecycle::InputResponse::Barrier(round, result)) => Some(
            Input::Barrier { round, result },
        ),
        Some(crate::lifecycle::InputResponse::Installed(round, result)) => Some(
            Input::Installed { round, result },
        ),
        None => None,
    }
}

/// The event bytes inside a motion datagram, whether or not the datagram is in an envelope.
pub open spec fn motion_event(bytes: Seq<u8>) -> Seq<u8> {
    if bytes.len() >= 28 && bytes[0] == protocol::TAG {
        motion::embedded(bytes.subrange(28, bytes.len() as int))
    } else {
        motion::embedded(bytes)
    }
}

fn inner_event(bytes: &Vec<u8>) -> (r: Vec<u8>)
    ensures
        r@ == motion_event(bytes@),
{
    if bytes.len() >= 28 && bytes[0] == protocol::TAG {
        motion::Frame::event_bytes(vstd::slice::slice_subrange(bytes, 28, bytes.len()))
    } else {
        motion::Frame::event_bytes(bytes)
    }
}

/// A packet whose handling succeeded is for the application.
pub open spec fn delivered(handled: Result<(), Fault>) -> Result<bool, Fault> {
    match handled {
        Ok(_) => Ok(true),
        Err(fault) => Err(fault),
    }
}

/// A packet whose handling succeeded is done.
pub open spec fn arrived(handled: Result<(), Fault>) -> Result<Arrival, Fault> {
    match handled {
        Ok(_) => Ok(Arrival::Done),
        Err(fault) => Err(fault),
    }
}

/// What became of a packet of the peer.
pub enum Arrival {
    /// It counts for nothing, or only for the coordinator; there is nothing to settle.
    Ignored,
    Done,
    /// The application gets it at once.
    Deliver(Delivery),
}

/// Whether this can have come of drawing an identity.
pub closed spec fn drawn(identity: Option<[u8; 16]>) -> bool {
    call_ensures(random_identity, (), identity)
}

/// Sixteen random bytes of `rustls`'s `ring` provider, or nothing if its generator fails. Nothing is
/// claimed of the bytes.
#[verifier::external_body]
fn random_identity() -> Option<[u8; 16]> {
    let mut identity = [0; 16];
    let provider = rustls::crypto::ring::default_provider();
    provider.secure_random.fill(&mut identity).ok()?;
    Some(identity)
}

/// What a greeting has selected, no later greeting of the connection changes.
pub proof fn law_selections_are_final(
    d: Driver,
    native: bool,
    capabilities: u32,
    identity: Option<[u8; 16]>,
    link: Link,
    now: u64,
    r: Result<(), Fault>,
    next: Driver,
    after: Link,
)
    requires
        d.greets(native, capabilities, identity, link, now, r, next, after),
    ensures
        d.reliable is Some ==> next.reliable == d.reliable,
        d.recovery_selected is Some ==> next.recovery_selected == d.recovery_selected,
        d.hybrid is Some ==> next.hybrid == d.hybrid,
        d.runtime is Some ==> next.runtime == d.runtime,
{
}

/// During a recovery that is not being probed, no data of the epoch that it ends, or of an earlier
/// one, is let in.
pub proof fn law_recovery_lets_no_old_data_in(d: Driver, link: Link, envelope: EnvelopeView, now: u64)
    requires
        d.inv(link),
        d.runtime is Some,
        d.runtime->0@.machine.recovering(),
        d.pending_probe is None,
        envelope.epoch() <= d.runtime->0@.machine.epoch,
    ensures
        !d.lets_in(envelope, now),
{
}

} // verus!
