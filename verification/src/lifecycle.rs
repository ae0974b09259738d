//! Bounded bridge between the transport and the local input owner.
//!
//! A generation is the right to deliver and to inject input of one epoch. Whoever holds one keeps a
//! copy of its identity and asks the link whether it is still valid.

use crate::bytes::{blank, le32, put32};
use crate::fault::Fault;
use crate::protocol::{Baseline, Role, Session};
use crate::recovery::{law_installing_knows_the_peer, law_steps_keep_the_invariant};
use crate::recovery::law_rounds_have_a_shape;
use crate::recovery::{round_of, round_parts, Effect, Machine, RECOVERY_MS};
use crate::recovery::{Input, Outcome, Recovery, Round, State};
use vstd::prelude::*;

verus! {

broadcast use {round_of, round_parts};

/// The time `ms` milliseconds after `now`, or the last one there is.
pub open spec fn later(now: u64, ms: u64) -> u64 {
    if now + ms > u64::MAX {
        u64::MAX
    } else {
        (now + ms) as u64
    }
}

#[derive(Clone, Copy, Debug)]
pub struct Generation {
    pub session: Session,
    pub epoch: u64,
    pub active: bool,
    /// When an uncommitted generation expires.
    pub deadline: Option<u64>,
    pub committed: bool,
    /// When the peer counts as silent.
    pub peer_deadline: Option<u64>,
}

impl Generation {
    /// Whether input of this generation may pass at `now`: it was not retired, the peer is not
    /// silent, and it was committed or its recovery is still in time.
    pub open spec fn alive(self, now: u64) -> bool {
        &&& self.active
        &&& self.peer_deadline is Some ==> now < self.peer_deadline->0
        &&& self.committed || (self.deadline is Some ==> now < self.deadline->0)
    }

    pub fn new(session: Session, epoch: u64, deadline: Option<u64>) -> (r: Generation)
        ensures
            r == (Generation {
                session,
                epoch,
                active: true,
                deadline,
                committed: false,
                peer_deadline: None,
            }),
    {
        Generation { session, epoch, active: true, deadline, committed: false, peer_deadline: None }
    }

    pub fn valid(&self, now: u64) -> (r: bool)
        ensures
            r == self.alive(now),
    {
        let heard = match self.peer_deadline {
            Some(deadline) => now < deadline,
            None => true,
        };
        let timely = match self.deadline {
            Some(deadline) => now < deadline,
            None => true,
        };
        self.active && heard && (self.committed || timely)
    }

    pub fn retire(&mut self)
        ensures
            *final(self) == (Generation { active: false, ..*old(self) }),
    {
        self.active = false;
    }

    pub fn update_peer_deadline(&mut self, now: u64, remaining_ms: u64)
        ensures
            *final(self) == (Generation {
                peer_deadline: Some(later(now, remaining_ms)),
                ..*old(self)
            }),
    {
        self.peer_deadline = Some(now.saturating_add(remaining_ms));
    }

    pub fn commit(&mut self, now: u64) -> (r: bool)
        ensures
            r == old(self).alive(now),
            *final(self) == (if r {
                Generation { committed: true, ..*old(self) }
            } else {
                *old(self)
            }),
    {
        if !self.valid(now) {
            return false;
        }
        self.committed = true;
        true
    }
}

/// What the transport asks of the local input owner.
#[derive(Clone, Copy, Debug)]
pub enum Request {
    Barrier(Round),
    Install { round: Round, peer: Baseline },
    Resumed { epoch: u64, peer: Baseline },
}

#[derive(Clone, Copy, Debug)]
pub enum InputResponse {
    Barrier(Round, Result<Baseline, ()>),
    Installed(Round, Result<(), ()>),
}

#[derive(Clone, Copy, Debug)]
pub struct Link {
    pub enabled: bool,
    pub frozen: bool,
    pub stalled: bool,
    pub failed: bool,
    pub request: Option<Request>,
    pub response: Option<InputResponse>,
    pub generation: Option<Generation>,
    /// None means an ownership transition has not been acknowledged.
    pub ownership: Option<([u8; 16], Role)>,
}

/// The ownership digest of a handover: its serial number, then ones.
pub open spec fn digest(serial: u32) -> Seq<u8> {
    le32(serial) + Seq::new(12, |i: int| 1u8)
}

impl Link {
    /// The link of a connection that was just attached.
    pub open spec fn fresh() -> Link {
        Link {
            enabled: false,
            frozen: false,
            stalled: false,
            failed: false,
            request: None,
            response: None,
            generation: None,
            ownership: None,
        }
    }

    /// The generation, if there is one, counts for nothing any more.
    pub open spec fn retired(self) -> Option<Generation> {
        match self.generation {
            Some(g) => Some(Generation { active: false, ..g }),
            None => None,
        }
    }

    pub open spec fn shut(self) -> Link {
        Link { frozen: true, generation: self.retired(), ..self }
    }

    /// Whether a held generation is the current one and alive.
    pub open spec fn honours(self, held: Generation, now: u64) -> bool {
        &&& self.generation matches Some(g)
        &&& g.session == held.session
        &&& g.epoch == held.epoch
        &&& g.alive(now)
    }

    /// No input passes through the link in any epoch but `epoch`.
    pub open spec fn bars_all_but(self, epoch: int) -> bool {
        &&& self.frozen
        &&& self.generation matches Some(g) ==> g.epoch == epoch || !g.active
    }

    pub fn stall(&mut self)
        ensures
            *final(self) == (if old(self).frozen {
                *old(self)
            } else {
                Link { stalled: true, ..old(self).shut() }
            }),
    {
        if !self.frozen {
            self.close();
            self.stalled = true;
        }
    }

    pub fn fail(&mut self)
        ensures
            *final(self) == (Link { failed: true, ..old(self).shut() }),
    {
        self.failed = true;
        self.close();
    }

    pub fn enabled(&self) -> (r: bool)
        ensures
            r == self.enabled,
    {
        self.enabled
    }

    pub fn frozen(&self) -> (r: bool)
        ensures
            r == self.frozen,
    {
        self.frozen
    }

    pub fn generation(&self) -> (r: Option<Generation>)
        ensures
            r == self.generation,
    {
        self.generation
    }

    /// Whether a generation that was handed out earlier is still valid.
    pub fn valid(&self, held: &Generation, now: u64) -> (r: bool)
        ensures
            r == self.honours(*held, now),
    {
        match &self.generation {
            Some(g) => crate::bytes::same(&g.session, &held.session) && g.epoch == held.epoch
                && g.valid(now),
            None => false,
        }
    }

    pub fn request(&mut self) -> (r: Option<Request>)
        ensures
            r == old(self).request,
            *final(self) == (Link { request: None, ..*old(self) }),
    {
        let r = self.request;
        self.request = None;
        r
    }

    pub fn ownership(&mut self, serial: Option<u32>, owner: Role)
        ensures
            match serial {
                Some(serial) => {
                    &&& final(self).ownership matches Some(confirmed)
                    &&& confirmed.0@ == digest(serial)
                    &&& confirmed.1 == owner
                },
                None => final(self).ownership is None,
            },
            *final(self) == (Link { ownership: final(self).ownership, ..*old(self) }),
    {
        match serial {
            Some(serial) => {
                let mut mark: [u8; 16] = [1;16];
                let mut number: Vec<u8> = Vec::new();
                put32(&mut number, serial);
                assert(number@ =~= le32(serial));
                mark[0] = number[0];
                mark[1] = number[1];
                mark[2] = number[2];
                mark[3] = number[3];
                assert(mark@ =~= digest(serial));
                self.ownership = Some((mark, owner));
            },
            None => self.ownership = None,
        }
    }

    pub fn barrier_done(&mut self, round: Round, result: Result<Baseline, ()>)
        ensures
            *final(self) == (Link {
                response: Some(InputResponse::Barrier(round, result)),
                ..*old(self)
            }),
    {
        self.response = Some(InputResponse::Barrier(round, result));
    }

    pub fn installed(&mut self, round: Round, result: Result<(), ()>)
        ensures
            *final(self) == (Link {
                response: Some(InputResponse::Installed(round, result)),
                ..*old(self)
            }),
    {
        self.response = Some(InputResponse::Installed(round, result));
    }

    /// The local baseline at a cursor position, given by bit patterns, if ownership is confirmed.
    pub fn baseline(&self, x: u64, y: u64, layout: u64) -> (r: Option<Baseline>)
        ensures
            r == (match self.ownership {
                Some(confirmed) => Some(
                    Baseline { x, y, layout, ownership: confirmed.0, owner: confirmed.1 },
                ),
                None => None,
            }),
    {
        match self.ownership {
            Some((ownership, owner)) => Some(Baseline { x, y, layout, ownership, owner }),
            None => None,
        }
    }

    pub fn close(&mut self)
        ensures
            *final(self) == old(self).shut(),
    {
        self.frozen = true;
        if let Some(mut generation) = self.generation {
            generation.retire();
            self.generation = Some(generation);
        }
    }
}

impl Default for Link {
    fn default() -> (r: Link)
        ensures
            r == Link::fresh(),
    {
        Link {
            enabled: false,
            frozen: false,
            stalled: false,
            failed: false,
            request: None,
            response: None,
            generation: None,
            ownership: None,
        }
    }
}

pub struct Runtime {
    machine: Recovery,
    barrier: Option<Round>,
    install: Option<Round>,
    resumed: u64,
    started: Option<u64>,
    deadline: Option<u64>,
}

/// The state of a runtime.
pub ghost struct Conduct {
    pub machine: Machine,
    /// The round whose barrier was asked for last.
    pub barrier: Option<Round>,
    /// The round whose installation was asked for last.
    pub install: Option<Round>,
    /// The epoch resumed last.
    pub resumed: u64,
    pub started: Option<u64>,
    /// When the generation to install expires.
    pub deadline: Option<u64>,
}

impl View for Runtime {
    type V = Conduct;

    closed spec fn view(&self) -> Conduct {
        Conduct {
            machine: self.machine@,
            barrier: self.barrier,
            install: self.install,
            resumed: self.resumed,
            started: self.started,
            deadline: self.deadline,
        }
    }
}

impl Conduct {
    /// What making a runtime does: it takes a session and a timeout that are valid, and the link gets
    /// the first generation.
    pub open spec fn starts(
        session: Session,
        role: Role,
        peer_ms: u64,
        now: u64,
        link: Link,
        r: Result<Runtime, Fault>,
        after: Link,
    ) -> bool {
        &&& r is Ok <==> (!blank(session@) && 1 <= peer_ms <= 60000)
        &&& after.ownership matches Some(confirmed)
        &&& confirmed.0@ == digest(0)
        &&& confirmed.1 == Role::Dialer
        &&& match r {
            Ok(runtime) => {
                &&& runtime@.well_formed()
                &&& runtime@.guards(after)
                &&& after == (Link {
                    enabled: true,
                    ownership: Some(confirmed),
                    generation: Some(
                        Generation {
                            session,
                            epoch: 0,
                            active: true,
                            deadline: None,
                            committed: false,
                            peer_deadline: Some(later(now, peer_ms)),
                        },
                    ),
                    ..link
                })
                &&& runtime@ == (Conduct {
                    machine: Machine {
                        session,
                        epoch: 0,
                        role,
                        ownership: confirmed.0,
                        owner: Role::Dialer,
                        state: State::Normal,
                        closed: None,
                        started: None,
                        last_now: now,
                        last_peer: now,
                        peer_ms,
                        last_send: None,
                        local: None,
                        peer: None,
                        prepared: false,
                        pending: None,
                        terminal: None,
                    },
                    barrier: None,
                    install: None,
                    resumed: 0,
                    started: None,
                    deadline: None,
                })
            },
            Err(fault) => {
                &&& fault == Fault::RecoveryIdentity
                &&& after == (Link { ownership: Some(confirmed), ..link })
            },
        }
    }

    /// What every runtime keeps.
    pub open spec fn well_formed(self) -> bool {
        let m = self.machine;
        &&& m.well_formed()
        &&& self.resumed <= m.epoch
        &&& m.state == State::Normal && m.epoch > self.resumed ==> m.peer is Some
        &&& self.barrier is Some ==> self.barrier->0.epoch_of() <= m.epoch
        &&& self.install is Some ==> self.install->0.epoch_of() <= m.epoch
        &&& m.state == State::Normal && self.barrier is Some ==> self.barrier->0.epoch_of()
            < m.epoch
        &&& m.state == State::Normal && self.install is Some ==> self.install->0.epoch_of()
            < m.epoch
    }

    /// What a runtime that has stepped keeps of its link: during a recovery the link lets no input
    /// pass but that of the epoch to come.
    pub open spec fn guards(self, link: Link) -> bool {
        self.machine.recovering() ==> {
            &&& self.barrier == Some(self.machine.round())
            &&& link.bars_all_but(self.machine.epoch + 1)
        }
    }

    /// The machine learns of a handover that was confirmed while it was at rest.
    pub open spec fn informed(self, link: Link, now: u64) -> Machine {
        if self.machine.send_gate(now) is Some && link.ownership is Some && !blank(
            (link.ownership->0).0@,
        ) {
            Machine { ownership: (link.ownership->0).0, owner: (link.ownership->0).1, ..self.machine }
        } else {
            self.machine
        }
    }

    /// A new round asks the local input owner for quiet.
    pub open spec fn begins(self, link: Link, now: u64, effect: Effect) -> (Conduct, Link) {
        if effect.barrier is Some && self.barrier != effect.barrier {
            let elapsed = match self.machine.started {
                Some(start) => if now > start {
                    now - start
                } else {
                    0
                },
                None => 0,
            };
            let remaining = if elapsed < RECOVERY_MS {
                (RECOVERY_MS - elapsed) as u64
            } else {
                0
            };
            (
                Conduct {
                    barrier: effect.barrier,
                    started: self.machine.started,
                    deadline: Some(later(now, remaining)),
                    ..self
                },
                Link { request: Some(Request::Barrier(effect.barrier->0)), ..link.shut() },
            )
        } else {
            (self, link)
        }
    }

    /// A round to install gets its generation.
    pub open spec fn installs(self, link: Link, effect: Effect) -> (Conduct, Link) {
        if effect.install is Some && self.install != effect.install {
            let round = effect.install->0;
            (
                Conduct { install: effect.install, ..self },
                Link {
                    generation: Some(
                        Generation {
                            session: round.session_of(),
                            epoch: (round.epoch_of() + 1) as u64,
                            active: true,
                            deadline: self.deadline,
                            committed: false,
                            peer_deadline: None,
                        },
                    ),
                    request: Some(Request::Install { round, peer: effect.peer_baseline->0 }),
                    ..link
                },
            )
        } else {
            (self, link)
        }
    }

    /// Whether a finished round is still to be resumed.
    pub open spec fn resuming(self) -> bool {
        self.machine.state == State::Normal && self.machine.epoch > self.resumed
    }

    /// A finished round opens the link again.
    pub open spec fn resumes(self, link: Link, effect: Effect) -> (Conduct, Link) {
        if self.resuming() {
            (
                Conduct { resumed: self.machine.epoch, started: None, ..self },
                Link {
                    generation: Some(Generation { committed: true, ..link.generation->0 }),
                    frozen: false,
                    request: Some(
                        Request::Resumed {
                            epoch: self.machine.epoch,
                            peer: effect.peer_baseline->0,
                        },
                    ),
                    ..link
                },
            )
        } else {
            (self, link)
        }
    }

    /// How long the peer may still be silent.
    pub open spec fn patience(self, now: u64) -> u64 {
        let m = self.machine;
        if now <= m.last_peer {
            m.peer_ms
        } else if now - m.last_peer >= m.peer_ms {
            0
        } else {
            (m.peer_ms - (now - m.last_peer)) as u64
        }
    }

    /// Queue and backend gates learn until when the peer may be silent.
    pub open spec fn tells(self, link: Link, now: u64) -> Link {
        Link {
            generation: match link.generation {
                Some(g) => Some(
                    Generation { peer_deadline: Some(later(now, self.patience(now))), ..g },
                ),
                None => None,
            },
            ..link
        }
    }

    /// One input: the runtime and the link after it, and what it results in.
    pub open spec fn step(self, link: Link, now: u64, input: Input) -> (
        Conduct,
        Link,
        Result<Effect, Fault>,
    ) {
        let (machine, effect) = self.informed(link, now).step(now, input);
        let after = Conduct { machine, ..self };
        if effect.closed is Some {
            (after, link.shut(), Err(Fault::RecoveryFailed))
        } else if effect.barrier is Some && self.barrier != effect.barrier && link.ownership is None {
            (after, link.shut(), Err(Fault::UnconfirmedHandover))
        } else {
            let (c1, l1) = after.begins(link, now, effect);
            let (c2, l2) = c1.installs(l1, effect);
            if c2.resuming() && !(l2.generation is Some && l2.generation->0.alive(now)) {
                (c2, Link { failed: true, ..l2.shut() }, Err(Fault::GenerationExpired))
            } else {
                let (c3, l3) = c2.resumes(l2, effect);
                (c3, c3.tells(l3, now), Ok(effect))
            }
        }
    }
}

impl Runtime {
    pub fn new(session: Session, role: Role, peer_ms: u64, now: u64, link: &mut Link) -> (r: Result<
        Runtime,
        Fault,
    >)
        ensures
            Conduct::starts(session, role, peer_ms, now, *old(link), r, *final(link)),
    {
        // Before the first handover, neither endpoint has granted remote input.
        link.ownership(Some(0), Role::Dialer);
        let (ownership, owner) = match link.ownership {
            Some(confirmed) => confirmed,
            None => return Err(Fault::RecoveryIdentity),
        };
        assert(ownership@[4] == 1);
        let machine = match Recovery::new(session, 0, role, ownership, owner, peer_ms, now) {
            Ok(machine) => machine,
            Err(_) => return Err(Fault::RecoveryIdentity),
        };
        let mut generation = Generation::new(session, 0, None);
        generation.update_peer_deadline(now, peer_ms);
        link.generation = Some(generation);
        link.enabled = true;
        Ok(
            Runtime {
                machine,
                barrier: None,
                install: None,
                resumed: 0,
                started: None,
                deadline: None,
            },
        )
    }

    /// The coordinator.
    pub fn machine(&self) -> (r: &Recovery)
        ensures
            r@ == self@.machine,
    {
        &self.machine
    }

    pub fn step(&mut self, now: u64, input: Input, link: &mut Link) -> (r: Result<Outcome, Fault>)
        requires
            old(self)@.well_formed(),
            old(self)@.guards(*old(link)),
        ensures
            final(self)@.well_formed(),
            r is Ok ==> final(self)@.guards(*final(link)),
            ({
                let (runtime, next, result) = old(self)@.step(*old(link), now, input);
                &&& final(self)@ == runtime
                &&& *final(link) == next
                &&& match r {
                    Ok(outcome) => result == Ok::<Effect, Fault>(outcome@),
                    Err(fault) => result == Err::<Effect, Fault>(fault),
                }
            }),
    {
        proof {
            law_runtime_keeps_its_invariant(self@, *link, now, input);
        }
        let ghost s = self@;
        let ghost l = *link;
        self.inform(now, link);
        proof {
            law_installing_knows_the_peer(self@.machine, now, input);
        }
        let outcome = self.machine.step(now, input);
        assert(self@ == (Conduct { machine: s.informed(l, now).step(now, input).0, ..s }));
        if outcome.closed().is_some() {
            link.close();
            return Err(Fault::RecoveryFailed);
        }
        if let Err(fault) = self.begin(now, &outcome, link) {
            return Err(fault);
        }
        self.install(&outcome, link);
        if let Err(fault) = self.resume(now, &outcome, link) {
            return Err(fault);
        }
        self.tell(now, link);
        Ok(outcome)
    }

    fn inform(&mut self, now: u64, link: &Link)
        requires
            old(self)@.machine.well_formed(),
        ensures
            final(self)@ == (Conduct { machine: old(self)@.informed(*link, now), ..old(self)@ }),
            final(self)@.machine.well_formed(),
    {
        if self.machine.send_epoch(now).is_some() {
            if let Some((ownership, owner)) = link.ownership {
                let _ = self.machine.set_ownership(ownership, owner);
            }
        }
    }

    fn begin(&mut self, now: u64, outcome: &Outcome, link: &mut Link) -> (r: Result<(), Fault>)
        ensures
            if outcome@.barrier is Some && old(self)@.barrier != outcome@.barrier
                && old(link).ownership is None {
                &&& r == Err::<(), Fault>(Fault::UnconfirmedHandover)
                &&& final(self)@ == old(self)@
                &&& *final(link) == old(link).shut()
            } else {
                &&& r is Ok
                &&& (final(self)@, *final(link)) == old(self)@.begins(*old(link), now, outcome@)
            },
    {
        if let Some(round) = outcome.barrier() {
            let known = match &self.barrier {
                Some(last) => last.same(&round),
                None => false,
            };
            if !known {
                link.close();
                if link.ownership.is_none() {
                    return Err(Fault::UnconfirmedHandover);
                }
                self.barrier = Some(round);
                self.started = self.machine.recovery_started();
                let start: u64 = match self.started {
                    Some(start) => start,
                    None => now,
                };
                let remaining: u64 = RECOVERY_MS.saturating_sub(now.saturating_sub(start));
                self.deadline = Some(now.saturating_add(remaining));
                link.request = Some(Request::Barrier(round));
            }
        }
        Ok(())
    }

    fn install(&mut self, outcome: &Outcome, link: &mut Link)
        requires
            outcome@.install is Some ==> outcome@.peer_baseline is Some
                && outcome@.install->0.epoch_of() < u64::MAX,
        ensures
            (final(self)@, *final(link)) == old(self)@.installs(*old(link), outcome@),
    {
        if let (Some(round), Some(peer)) = (outcome.install(), outcome.peer_baseline()) {
            let known = match &self.install {
                Some(last) => last.same(&round),
                None => false,
            };
            if !known {
                self.install = Some(round);
                link.generation = Some(
                    Generation::new(round.session(), round.next_epoch(), self.deadline),
                );
                link.request = Some(Request::Install { round, peer });
            }
        }
    }

    fn resume(&mut self, now: u64, outcome: &Outcome, link: &mut Link) -> (r: Result<(), Fault>)
        requires
            outcome@.state == old(self)@.machine.state,
            old(self)@.resuming() ==> outcome@.peer_baseline is Some,
        ensures
            if old(self)@.resuming() && !(old(link).generation is Some
                && old(link).generation->0.alive(now)) {
                &&& r == Err::<(), Fault>(Fault::GenerationExpired)
                &&& final(self)@ == old(self)@
                &&& *final(link) == (Link { failed: true, ..old(link).shut() })
            } else {
                &&& r is Ok
                &&& (final(self)@, *final(link)) == old(self)@.resumes(*old(link), outcome@)
            },
    {
        if outcome.state() == State::Normal && self.machine.epoch() > self.resumed {
            let mut committed = false;
            if let Some(mut generation) = link.generation {
                committed = generation.commit(now);
                link.generation = Some(generation);
            }
            if !committed {
                link.fail();
                return Err(Fault::GenerationExpired);
            }
            self.resumed = self.machine.epoch();
            link.frozen = false;
            if let Some(peer) = outcome.peer_baseline() {
                link.request = Some(Request::Resumed { epoch: self.resumed, peer });
            }
            self.started = None;
        }
        Ok(())
    }

    fn tell(&self, now: u64, link: &mut Link)
        ensures
            *final(link) == self@.tells(*old(link), now),
    {
        if let Some(mut generation) = link.generation {
            // Queue and backend gates enforce liveness even when the driver
            // has not been scheduled to consume its next watchdog tick.
            generation.update_peer_deadline(now, self.machine.peer_remaining(now));
            link.generation = Some(generation);
        }
    }

    /// The local input owner's answer, if it has given one.
    pub fn response(&self, link: &mut Link) -> (r: Option<Input>)
        ensures
            r == (match old(link).response {
                Some(InputResponse::Barrier(round, result)) => Some(Input::Barrier { round, result }),
                Some(InputResponse::Installed(round, result)) => Some(
                    Input::Installed { round, result },
                ),
                None => None,
            }),
            *final(link) == (Link { response: None, ..*old(link) }),
    {
        let response = link.response;
        link.response = None;
        match response {
            Some(InputResponse::Barrier(round, result)) => Some(Input::Barrier { round, result }),
            Some(InputResponse::Installed(round, result)) => Some(
                Input::Installed { round, result },
            ),
            None => None,
        }
    }
}

/// What a runtime does with the effect of its machine keeps what holds of every runtime.
proof fn lemma_conduct(c: Conduct, link: Link, now: u64, next: Machine, effect: Effect)
    requires
        c.well_formed(),
        c.guards(link),
        next.well_formed(),
        effect.state == next.state,
        effect.closed is None,
        next.closed is None,
        effect.peer_baseline == next.peer,
        effect.barrier is Some ==> effect.barrier == Some(next.round()) && next.recovering(),
        effect.install is Some ==> effect.install == Some(next.round()) && next.recovering(),
        next.recovering() ==> next.epoch == c.machine.epoch && next.session == c.machine.session,
        next.recovering() && !c.machine.recovering() ==> c.machine.state == State::Normal
            && effect.barrier == Some(next.round()) && effect.install is None,
        next.state == State::Normal && c.machine.state == State::Normal ==> next.epoch
            == c.machine.epoch && next.peer == c.machine.peer,
        next.state == State::Normal && c.machine.state != State::Normal ==> next.epoch
            == c.machine.epoch + 1 && c.machine.recovering() && next.peer is Some,
        next.epoch == c.machine.epoch || next.epoch == c.machine.epoch + 1,
    ensures
        ({
            let after = Conduct { machine: next, ..c };
            let (c1, l1) = after.begins(link, now, effect);
            let (c2, l2) = c1.installs(l1, effect);
            let (c3, l3) = c2.resumes(l2, effect);
            &&& c2.well_formed()
            &&& c2.resuming() ==> effect.peer_baseline is Some
            &&& c3.well_formed()
            &&& c3.guards(c3.tells(l3, now))
        }),
{
}

/// Every input keeps what holds of every runtime, and during a recovery no input of an earlier epoch
/// passes the link.
pub proof fn law_runtime_keeps_its_invariant(c: Conduct, link: Link, now: u64, input: Input)
    requires
        c.well_formed(),
        c.guards(link),
    ensures
        c.step(link, now, input).0.well_formed(),
        c.step(link, now, input).2 is Ok ==> c.step(link, now, input).0.guards(
            c.step(link, now, input).1,
        ),
{
    let m = c.informed(link, now);
    let (next, effect) = m.step(now, input);
    assert(m.well_formed());
    assert(next.well_formed()) by {
        law_steps_keep_the_invariant(m, now, input);
    }
    law_rounds_have_a_shape(m, now, input);
    if effect.closed is None {
        lemma_conduct(c, link, now, next, effect);
    }
}

/// A retired generation never counts again, and neither a commit nor news of the peer revives it.
pub proof fn law_retired_generations_stay_retired(g: Generation, deadline: Option<u64>, now: u64)
    requires
        !g.active,
    ensures
        !g.alive(now),
        !(Generation { committed: true, peer_deadline: deadline, ..g }).alive(now),
{
}

/// A prepared generation expires at its deadline by itself, and it can then not be committed; a
/// committed one lasts until the peer falls silent.
pub proof fn law_prepared_generations_expire(g: Generation, now: u64)
    requires
        g.deadline is Some,
        now >= g.deadline->0,
    ensures
        g.alive(now) ==> g.committed,
        g.peer_deadline is Some && now >= g.peer_deadline->0 ==> !g.alive(now),
{
}

/// While a recovery is under way, nobody who holds a generation of the epoch that it ends, or of an
/// earlier one, gets anything through.
pub proof fn law_recovery_bars_old_generations(c: Conduct, link: Link, held: Generation, now: u64)
    requires
        c.guards(link),
        c.machine.recovering(),
        held.epoch <= c.machine.epoch,
    ensures
        link.frozen,
        !link.honours(held, now),
{
}

/// A step opens a frozen link only when it resumes a finished round with a generation that is alive.
pub proof fn law_only_a_finished_round_thaws(c: Conduct, link: Link, now: u64, input: Input)
    requires
        c.well_formed(),
        link.frozen,
        !c.step(link, now, input).1.frozen,
    ensures
        ({
            let (next, after, r) = c.step(link, now, input);
            &&& r is Ok
            &&& next.resumed == next.machine.epoch
            &&& next.resumed > c.resumed
            &&& after.generation matches Some(g)
            &&& g.active && g.committed
        }),
{
}

/// Nothing that the local input owner does to the link opens it during a recovery.
pub proof fn law_owners_keep_the_guard(
    c: Conduct,
    link: Link,
    request: Option<Request>,
    response: Option<InputResponse>,
    ownership: Option<([u8; 16], Role)>,
)
    requires
        c.guards(link),
    ensures
        c.guards(link.shut()),
        c.guards(Link { stalled: true, ..link.shut() }),
        c.guards(Link { failed: true, ..link.shut() }),
        c.guards(Link { request, response, ownership, ..link }),
{
}

} // verus!
