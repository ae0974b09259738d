//! What two coordinators agree on over an authenticated link that may lose, delay, duplicate and
//! reorder their control frames.

use crate::protocol::{Baseline, Control, Kind, Role};
use crate::recovery::{law_emitted_controls_are_sound, law_steps_keep_the_invariant};
use crate::recovery::{Effect, Input, Machine, State, RECOVERY_MS, RETRY_MS};
use vstd::prelude::*;

verus! {

/// A dialer, an acceptor, and every control frame that either has sent so far. The link delivers any
/// of these frames, any number of times, in any order, and nothing else.
pub ghost struct Pair {
    pub dialer: Machine,
    pub acceptor: Machine,
    pub sent: Set<Control>,
}

/// Whether `input` can reach a coordinator of the given role: a control frame must have been sent
/// by its peer.
pub open spec fn reaches(pair: Pair, role: Role, input: Input) -> bool {
    match input {
        Input::Control(c) => pair.sent.contains(c) && c.source == role.other(),
        _ => true,
    }
}

/// The frames sent so far, with the one that just left.
pub open spec fn with_sent(sent: Set<Control>, control: Option<Control>) -> Set<Control> {
    match control {
        Some(c) => sent.insert(c),
        None => sent,
    }
}

impl Pair {
    pub open spec fn dialer_step(self, now: u64, input: Input) -> Pair {
        let (dialer, effect) = self.dialer.step(now, input);
        Pair { dialer, sent: with_sent(self.sent, effect.control), ..self }
    }

    pub open spec fn acceptor_step(self, now: u64, input: Input) -> Pair {
        let (acceptor, effect) = self.acceptor.step(now, input);
        Pair { acceptor, sent: with_sent(self.sent, effect.control), ..self }
    }

    /// Two fresh coordinators of one session, before anything was sent.
    pub open spec fn initial(self) -> bool {
        &&& self.dialer.well_formed()
        &&& self.acceptor.well_formed()
        &&& self.dialer.role == Role::Dialer
        &&& self.acceptor.role == Role::Acceptor
        &&& self.dialer.epoch == self.acceptor.epoch
        &&& self.dialer.state == State::Normal
        &&& self.acceptor.state == State::Normal
        &&& self.dialer.terminal is None
        &&& self.acceptor.terminal is None
        &&& self.sent == Set::<Control>::empty()
    }

    /// The dialer has installed the next epoch, or has closed.
    pub open spec fn dialer_committed(self) -> bool {
        self.dialer.state == State::AwaitActivateAck || self.dialer.state == State::Closed
    }

    /// What holds of every pair that started out together.
    pub open spec fn in_step(self) -> bool {
        &&& self.dialer.well_formed()
        &&& self.acceptor.well_formed()
        &&& self.dialer.role == Role::Dialer
        &&& self.acceptor.role == Role::Acceptor
        &&& self.dialer.epoch <= self.acceptor.epoch
        &&& self.acceptor.epoch > self.dialer.epoch ==> self.acceptor.epoch == self.dialer.epoch + 1
            && self.dialer_committed()
        &&& forall|c: Control| #[trigger]
            self.sent.contains(c) && c.kind == Kind::ActivateAck ==> c.epoch < self.acceptor.epoch
        &&& forall|c: Control| #[trigger]
            self.sent.contains(c) && c.kind == Kind::Activate ==> c.epoch < self.dialer.epoch || (
            c.epoch == self.dialer.epoch && self.dialer_committed())
    }
}

/// A step keeps the role.
proof fn lemma_role(m: Machine, now: u64, input: Input)
    ensures
        m.step(now, input).0.role == m.role,
{
}

/// Two coordinators that start out together stay in step, whatever the link does with their frames
/// and in whatever order their callbacks arrive.
pub proof fn law_peers_start_in_step(pair: Pair)
    requires
        pair.initial(),
    ensures
        pair.in_step(),
{
}

/// A step of the dialer keeps the pair in step.
pub proof fn law_dialer_keeps_step(pair: Pair, now: u64, input: Input)
    requires
        pair.in_step(),
        reaches(pair, Role::Dialer, input),
    ensures
        pair.dialer_step(now, input).in_step(),
{
    let m = pair.dialer;
    let next = pair.dialer_step(now, input);
    law_steps_keep_the_invariant(m, now, input);
    law_emitted_controls_are_sound(m, now, input);
    lemma_role(m, now, input);
    crate::recovery::law_the_epoch_rises_only_by_completion(m, now, input);
}

/// A step of the acceptor keeps the pair in step.
pub proof fn law_acceptor_keeps_step(pair: Pair, now: u64, input: Input)
    requires
        pair.in_step(),
        reaches(pair, Role::Acceptor, input),
    ensures
        pair.acceptor_step(now, input).in_step(),
{
    let m = pair.acceptor;
    law_steps_keep_the_invariant(m, now, input);
    law_emitted_controls_are_sound(m, now, input);
    lemma_role(m, now, input);
    crate::recovery::law_the_epoch_rises_only_by_completion(m, now, input);
}

/// Where the dialer may send, the acceptor is in the same epoch. Where the acceptor may send, the
/// dialer is in the same epoch, or has installed it and accepts it, or has closed.
pub proof fn law_senders_are_expected(pair: Pair, now: u64)
    requires
        pair.in_step(),
    ensures
        pair.dialer.send_gate(now) is Some ==> pair.acceptor.epoch == pair.dialer.send_gate(now)->0,
        pair.acceptor.send_gate(now) is Some ==> {
            ||| pair.dialer.epoch == pair.acceptor.send_gate(now)->0
            ||| pair.dialer.state == State::AwaitActivateAck && pair.dialer.epoch + 1
                == pair.acceptor.send_gate(now)->0
            ||| pair.dialer.state == State::Closed
        },
{
}

/// The input that a frame which just left is to its receiver.
pub open spec fn delivered(effect: Effect) -> Input {
    Input::Control(effect.control->0)
}

/// The opening of a round that the dialer begins: its frame arrives.
pub open spec fn dialer_opens(dialer: Machine, acceptor: Machine, at: Seq<u64>) -> (
    Machine,
    Machine,
) {
    let (a, prepare) = dialer.step(at[0], Input::Start);
    (a, acceptor.step(at[1], delivered(prepare)).0)
}

/// The opening of a round that the acceptor begins: its request and the dialer's answer arrive.
pub open spec fn acceptor_opens(dialer: Machine, acceptor: Machine, at: Seq<u64>) -> (
    Machine,
    Machine,
) {
    let (b, request) = acceptor.step(at[0], Input::Start);
    let (a, prepare) = dialer.step(at[0], delivered(request));
    (a, b.step(at[1], delivered(prepare)).0)
}

/// The rest of a round in which every frame arrives and both owners answer.
pub open spec fn concluded(
    opened: (Machine, Machine),
    near: Baseline,
    far: Baseline,
    at: Seq<u64>,
) -> (Machine, Machine) {
    let (a1, b1) = opened;
    let (round_a, round_b) = (a1.round(), b1.round());
    let (a2, _) = a1.step(at[1], Input::Barrier { round: round_a, result: Ok(near) });
    let (b2, prepared) = b1.step(at[2], Input::Barrier { round: round_b, result: Ok(far) });
    let (a3, commit) = a2.step(at[3], delivered(prepared));
    let (b3, _) = b2.step(at[4], delivered(commit));
    let (b4, commit_ack) = b3.step(at[5], Input::Installed { round: round_b, result: Ok(()) });
    let (a4, _) = a3.step(at[6], delivered(commit_ack));
    let (a5, activate) = a4.step(at[7], Input::Installed { round: round_a, result: Ok(()) });
    let (b5, activate_ack) = b4.step(at[8], delivered(activate));
    let (a6, _) = a5.step(at[9], delivered(activate_ack));
    (a6, b5)
}

/// Both peers are at rest in the epoch after `epoch`, may send in it, and know each other's
/// baseline.
pub open spec fn resumed(
    ended: (Machine, Machine),
    epoch: u64,
    near: Baseline,
    far: Baseline,
    now: u64,
) -> bool {
    let (a, b) = ended;
    &&& a.state == State::Normal
    &&& b.state == State::Normal
    &&& a.epoch == epoch + 1
    &&& b.epoch == epoch + 1
    &&& a.peer == Some(far)
    &&& b.peer == Some(near)
    &&& a.send_gate(now) == Some((epoch + 1) as u64)
    &&& b.send_gate(now) == Some((epoch + 1) as u64)
    &&& a.receive_gate(now) == Some((epoch + 1) as u64)
    &&& b.receive_gate(now) == Some((epoch + 1) as u64)
}

/// Two peers at rest in one epoch that agree on the owner, two sound baselines, and the times of
/// ten steps that all lie before the deadlines.
pub open spec fn answerable(
    dialer: Machine,
    acceptor: Machine,
    near: Baseline,
    far: Baseline,
    at: Seq<u64>,
) -> bool {
    &&& dialer.well_formed()
    &&& acceptor.well_formed()
    &&& dialer.role == Role::Dialer
    &&& acceptor.role == Role::Acceptor
    &&& dialer.state == State::Normal
    &&& acceptor.state == State::Normal
    &&& dialer.session == acceptor.session
    &&& dialer.epoch == acceptor.epoch
    &&& dialer.epoch < u64::MAX
    &&& dialer.ownership == acceptor.ownership
    &&& dialer.owner == acceptor.owner
    &&& dialer.fits(near)
    &&& dialer.fits(far)
    &&& at.len() == 10
    &&& forall|i: int, j: int| 0 <= i <= j < 10 ==> at[i] <= at[j]
    &&& at[0] >= dialer.last_now
    &&& at[0] >= acceptor.last_now
    &&& at[9] < at[0] + RECOVERY_MS
    &&& at[9] < dialer.last_peer + dialer.peer_ms
    &&& at[9] < acceptor.last_peer + acceptor.peer_ms
}

/// A coordinator has time until `until`: neither of its deadlines passes before.
spec fn in_time(m: Machine, until: u64) -> bool {
    &&& m.well_formed()
    &&& m.last_now <= until
    &&& m.started is Some ==> until < m.started->0 + RECOVERY_MS
    &&& until < m.last_peer + m.peer_ms
}

/// The same coordinator in the same round.
spec fn same_round(m: Machine, n: Machine) -> bool {
    &&& n.session == m.session
    &&& n.epoch == m.epoch
    &&& n.role == m.role
    &&& n.ownership == m.ownership
    &&& n.owner == m.owner
}

proof fn lemma_begins(m: Machine, now: u64, until: u64)
    requires
        in_time(m, until),
        m.state == State::Normal,
        m.epoch < u64::MAX,
        m.last_now <= now <= until < now + RECOVERY_MS,
    ensures
        ({
            let (n, e) = m.step(now, Input::Start);
            &&& in_time(n, until)
            &&& same_round(m, n)
            &&& n.last_now == now
            &&& n.state == State::Quiescing
            &&& n.local is None
            &&& n.peer is None
            &&& e.control == Some(n.frame(n.due()))
        }),
{
    law_steps_keep_the_invariant(m, now, Input::Start);
}

proof fn lemma_asked(m: Machine, now: u64, until: u64, c: Control)
    requires
        in_time(m, until),
        m.state == State::Normal || (m.role == Role::Acceptor && m.state == State::Quiescing
            && m.local is None && m.peer is None),
        m.epoch < u64::MAX,
        m.last_now <= now <= until < now + RECOVERY_MS,
        c == (Control {
            session: m.session,
            epoch: m.epoch,
            source: m.role.other(),
            kind: if m.role == Role::Dialer {
                Kind::Request
            } else {
                Kind::Prepare
            },
            baseline: None,
        }),
    ensures
        ({
            let (n, e) = m.step(now, Input::Control(c));
            &&& in_time(n, until)
            &&& same_round(m, n)
            &&& n.last_now == now
            &&& n.state == State::Quiescing
            &&& n.local is None
            &&& n.peer is None
            &&& m.role == Role::Acceptor ==> n.prepared
            &&& m.role == Role::Dialer ==> e.control == Some(n.frame(Kind::Prepare))
        }),
{
    law_steps_keep_the_invariant(m, now, Input::Control(c));
}

proof fn lemma_quiet(m: Machine, now: u64, until: u64, b: Baseline)
    requires
        in_time(m, until),
        m.state == State::Quiescing,
        m.local is None,
        m.peer is None,
        m.role == Role::Acceptor ==> m.prepared,
        m.fits(b),
        m.last_now <= now <= until,
    ensures
        ({
            let (n, e) = m.step(now, Input::Barrier { round: m.round(), result: Ok(b) });
            &&& in_time(n, until)
            &&& same_round(m, n)
            &&& n.last_now == now
            &&& n.local == Some(b)
            &&& n.peer is None
            &&& m.role == Role::Dialer ==> n.state == State::Quiescing
            &&& m.role == Role::Acceptor ==> n.state == State::AwaitCommit && e.control == Some(
                n.frame(Kind::Prepared),
            )
        }),
{
    law_steps_keep_the_invariant(m, now, Input::Barrier { round: m.round(), result: Ok(b) });
}

proof fn lemma_answered(m: Machine, now: u64, until: u64, c: Control)
    requires
        in_time(m, until),
        m.last_now <= now <= until,
        c.session == m.session,
        c.epoch == m.epoch,
        c.source == m.role.other(),
        c@.sound(),
        m.role == Role::Dialer ==> {
            ||| m.state == State::Quiescing && m.local is Some && m.peer is None && c.kind
                == Kind::Prepared && m.fits(c.baseline->0)
            ||| m.state == State::AwaitCommitAck && c.kind == Kind::CommitAck
        },
        m.role == Role::Acceptor ==> m.state == State::AwaitCommit && m.peer is None && c.kind
            == Kind::Commit && m.fits(c.baseline->0),
    ensures
        ({
            let (n, e) = m.step(now, Input::Control(c));
            &&& in_time(n, until)
            &&& same_round(m, n)
            &&& n.last_now == now
            &&& n.local == m.local
            &&& if c.kind == Kind::Prepared {
                n.state == State::AwaitCommitAck && n.peer == c.baseline && e.control == Some(
                    n.frame(Kind::Commit),
                )
            } else {
                n.state == State::Installing && n.peer == if c.kind == Kind::Commit {
                    c.baseline
                } else {
                    m.peer
                }
            }
        }),
{
    law_steps_keep_the_invariant(m, now, Input::Control(c));
}

proof fn lemma_installed(m: Machine, now: u64, until: u64)
    requires
        in_time(m, until),
        m.state == State::Installing,
        m.last_now <= now <= until,
    ensures
        ({
            let (n, e) = m.step(now, Input::Installed { round: m.round(), result: Ok(()) });
            &&& in_time(n, until)
            &&& same_round(m, n)
            &&& n.last_now == now
            &&& n.peer == m.peer
            &&& m.role == Role::Dialer ==> n.state == State::AwaitActivateAck && e.control == Some(
                n.frame(Kind::Activate),
            )
            &&& m.role == Role::Acceptor ==> n.state == State::AwaitActivate && e.control == Some(
                n.frame(Kind::CommitAck),
            )
        }),
{
    law_steps_keep_the_invariant(m, now, Input::Installed { round: m.round(), result: Ok(()) });
}

proof fn lemma_finishes(m: Machine, now: u64, until: u64, c: Control)
    requires
        in_time(m, until),
        m.last_now <= now <= until,
        c.session == m.session,
        c.epoch == m.epoch,
        c.source == m.role.other(),
        c@.sound(),
        m.role == Role::Dialer ==> m.state == State::AwaitActivateAck && c.kind
            == Kind::ActivateAck,
        m.role == Role::Acceptor ==> m.state == State::AwaitActivate && c.kind == Kind::Activate,
    ensures
        ({
            let (n, e) = m.step(now, Input::Control(c));
            &&& in_time(n, until)
            &&& n.last_now == now
            &&& n.state == State::Normal
            &&& n.epoch == m.epoch + 1
            &&& n.peer == m.peer
            &&& m.role == Role::Acceptor ==> e.control == Some(m.frame(Kind::ActivateAck))
        }),
{
    law_steps_keep_the_invariant(m, now, Input::Control(c));
}

proof fn lemma_concludes(a1: Machine, b1: Machine, near: Baseline, far: Baseline, at: Seq<u64>)
    requires
        in_time(a1, at[9]),
        in_time(b1, at[9]),
        a1.role == Role::Dialer,
        b1.role == Role::Acceptor,
        a1.state == State::Quiescing,
        b1.state == State::Quiescing,
        a1.local is None,
        b1.local is None,
        a1.peer is None,
        b1.peer is None,
        b1.prepared,
        a1.session == b1.session,
        a1.epoch == b1.epoch,
        a1.ownership == b1.ownership,
        a1.owner == b1.owner,
        a1.fits(near),
        a1.fits(far),
        at.len() == 10,
        forall|i: int, j: int| 0 <= i <= j < 10 ==> at[i] <= at[j],
        a1.last_now <= at[1],
        b1.last_now <= at[1],
    ensures
        resumed(concluded((a1, b1), near, far, at), a1.epoch, near, far, at[9]),
{
    let until = at[9];
    let (round_a, round_b) = (a1.round(), b1.round());
    let (a2, _) = a1.step(at[1], Input::Barrier { round: round_a, result: Ok(near) });
    lemma_quiet(a1, at[1], until, near);
    let (b2, prepared) = b1.step(at[2], Input::Barrier { round: round_b, result: Ok(far) });
    lemma_quiet(b1, at[2], until, far);
    let (a3, commit) = a2.step(at[3], delivered(prepared));
    lemma_answered(a2, at[3], until, prepared.control->0);
    let (b3, _) = b2.step(at[4], delivered(commit));
    lemma_answered(b2, at[4], until, commit.control->0);
    let (b4, commit_ack) = b3.step(at[5], Input::Installed { round: round_b, result: Ok(()) });
    lemma_installed(b3, at[5], until);
    let (a4, _) = a3.step(at[6], delivered(commit_ack));
    lemma_answered(a3, at[6], until, commit_ack.control->0);
    let (a5, activate) = a4.step(at[7], Input::Installed { round: round_a, result: Ok(()) });
    lemma_installed(a4, at[7], until);
    let (b5, activate_ack) = b4.step(at[8], delivered(activate));
    lemma_finishes(b4, at[8], until, activate.control->0);
    lemma_finishes(a5, at[9], until, activate_ack.control->0);
}

/// Where the frames of a round that the dialer begins arrive and both owners answer in time, the
/// round succeeds.
pub proof fn law_a_round_of_the_dialer_succeeds(
    dialer: Machine,
    acceptor: Machine,
    near: Baseline,
    far: Baseline,
    at: Seq<u64>,
)
    requires
        answerable(dialer, acceptor, near, far, at),
    ensures
        resumed(
            concluded(dialer_opens(dialer, acceptor, at), near, far, at),
            dialer.epoch,
            near,
            far,
            at[9],
        ),
{
    lemma_begins(dialer, at[0], at[9]);
    let (a, prepare) = dialer.step(at[0], Input::Start);
    lemma_asked(acceptor, at[1], at[9], prepare.control->0);
    let (a1, b1) = dialer_opens(dialer, acceptor, at);
    lemma_concludes(a1, b1, near, far, at);
}

/// Where the frames of a round that the acceptor begins arrive and both owners answer in time, the
/// round succeeds.
pub proof fn law_a_round_of_the_acceptor_succeeds(
    dialer: Machine,
    acceptor: Machine,
    near: Baseline,
    far: Baseline,
    at: Seq<u64>,
)
    requires
        answerable(dialer, acceptor, near, far, at),
    ensures
        resumed(
            concluded(acceptor_opens(dialer, acceptor, at), near, far, at),
            dialer.epoch,
            near,
            far,
            at[9],
        ),
{
    lemma_begins(acceptor, at[0], at[9]);
    let (b, request) = acceptor.step(at[0], Input::Start);
    lemma_asked(dialer, at[0], at[9], request.control->0);
    let (a, prepare) = dialer.step(at[0], delivered(request));
    lemma_asked(b, at[1], at[9], prepare.control->0);
    let (a1, b1) = acceptor_opens(dialer, acceptor, at);
    lemma_concludes(a1, b1, near, far, at);
}

/// What the peers of one round have to agree on: the session and its epoch, the baseline of each owner,
/// and the time from which and until which the round runs.
pub ghost struct Terms {
    pub dialer: Machine,
    pub near: Baseline,
    pub far: Baseline,
    pub from: u64,
    pub until: u64,
}

/// The control frames that leave with an effect.
pub open spec fn said(effect: Effect) -> Seq<Control> {
    match effect.control {
        Some(c) => seq![c],
        None => Seq::empty(),
    }
}

/// One input to a coordinator whose owner answers at once, quiet with the baseline `own` and able to
/// install: the coordinator afterwards, and the control frames that leave.
pub open spec fn served(m: Machine, now: u64, input: Input, own: Baseline) -> (
    Machine,
    Seq<Control>,
) {
    let (m1, e1) = m.step(now, input);
    if e1.barrier is Some {
        let (m2, e2) = m1.step(now, Input::Barrier { round: e1.barrier->0, result: Ok(own) });
        (m2, said(e1) + said(e2))
    } else if e1.install is Some {
        let (m2, e2) = m1.step(now, Input::Installed { round: e1.install->0, result: Ok(()) });
        (m2, said(e1) + said(e2))
    } else {
        (m1, said(e1))
    }
}

/// Who sends frames of a kind in a round.
pub open spec fn sender(kind: Kind) -> Role {
    match kind {
        Kind::Prepare | Kind::Commit | Kind::Activate => Role::Dialer,
        _ => Role::Acceptor,
    }
}

/// How far its sender has come when it first sends a frame of a kind.
pub open spec fn asks(kind: Kind) -> int {
    match kind {
        Kind::Request => 1,
        Kind::Prepare => 1,
        Kind::Prepared => 2,
        Kind::Commit => 2,
        Kind::CommitAck => 3,
        Kind::Activate => 3,
        Kind::ActivateAck => 4,
    }
}

/// How far a frame of a kind brings its receiver.
pub open spec fn brings(kind: Kind) -> int {
    match kind {
        Kind::Request => 1,
        Kind::Prepare => 2,
        Kind::Prepared => 2,
        Kind::Commit => 3,
        Kind::CommitAck => 3,
        Kind::Activate => 4,
        Kind::ActivateAck => 4,
    }
}

impl Terms {
    pub open spec fn epoch(self) -> u64 {
        self.dialer.epoch
    }

    /// The baseline of the owner on one side.
    pub open spec fn own(self, role: Role) -> Baseline {
        if role == Role::Dialer {
            self.near
        } else {
            self.far
        }
    }

    /// The frame of a kind in this round.
    pub open spec fn word(self, kind: Kind) -> Control {
        Control {
            session: self.dialer.session,
            epoch: self.epoch(),
            source: sender(kind),
            kind,
            baseline: if kind.carries() {
                Some(self.own(sender(kind)))
            } else {
                None
            },
        }
    }

    /// The terms can be met.
    pub open spec fn fair(self) -> bool {
        &&& self.epoch() < u64::MAX
        &&& self.dialer.fits(self.near)
        &&& self.dialer.fits(self.far)
        &&& self.from <= self.until < self.from + RECOVERY_MS
    }

    /// How far a coordinator has come in the round: at rest, asked to be quiet and quiet, agreed,
    /// installed, and at rest in the next epoch.
    pub open spec fn stage(self, m: Machine) -> int {
        if m.epoch != self.epoch() {
            4
        } else {
            match m.state {
                State::Normal => 0,
                State::Quiescing => 1,
                State::AwaitCommit | State::AwaitCommitAck => 2,
                _ => 3,
            }
        }
    }

    /// What holds of a coordinator in the round while its owner answers at once.
    pub open spec fn keeps(self, m: Machine) -> bool {
        &&& m.well_formed()
        &&& m.session == self.dialer.session
        &&& m.ownership == self.dialer.ownership
        &&& m.owner == self.dialer.owner
        &&& m.last_now <= self.until
        &&& m.started is Some ==> self.from <= m.started->0
        &&& self.until < m.last_peer + m.peer_ms
        &&& if m.epoch == self.epoch() {
            match m.state {
                State::Normal => true,
                State::Quiescing => {
                    &&& m.local == Some(self.own(m.role))
                    &&& m.peer is None
                    &&& m.role == Role::Acceptor ==> !m.prepared
                },
                State::AwaitCommit => m.local == Some(self.own(m.role)) && m.peer is None,
                State::AwaitCommitAck | State::AwaitActivate | State::AwaitActivateAck => {
                    &&& m.local == Some(self.own(m.role))
                    &&& m.peer == Some(self.own(m.role.other()))
                },
                _ => false,
            }
        } else {
            &&& m.epoch == self.epoch() + 1
            &&& m.state == State::Normal
            &&& m.peer == Some(self.own(m.role.other()))
            &&& m.terminal == Some(
                self.word(
                    if m.role == Role::Dialer {
                        Kind::Activate
                    } else {
                        Kind::ActivateAck
                    },
                ),
            )
        }
    }

    /// The inputs that the link and the clock have for a coordinator: a tick, a sign of life, the wish
    /// to start unless the round is over, and the frames that its peer can have sent by then.
    pub open spec fn has(self, m: Machine, input: Input) -> bool {
        match input {
            Input::Tick | Input::PeerActivity => true,
            Input::Start => m.epoch == self.epoch(),
            Input::Control(c) => {
                &&& c == self.word(c.kind)
                &&& sender(c.kind) == m.role.other()
                &&& self.stage(m) >= brings(c.kind) - (if c.kind == Kind::Prepare {
                    2int
                } else {
                    1int
                })
            },
            _ => false,
        }
    }

    /// How far such an input brings a coordinator.
    pub open spec fn led(self, m: Machine, input: Input) -> int {
        let to = match input {
            Input::Start => 1,
            Input::Control(c) => brings(c.kind),
            _ => 0,
        };
        if to > self.stage(m) {
            to
        } else {
            self.stage(m)
        }
    }
}

/// Which frames leave when a coordinator comes from one stage to another: those of every stage that
/// it enters, and none of a stage that it has not reached.
pub open spec fn speaks(t: Terms, role: Role, from: int, to: int, frames: Seq<Control>) -> bool {
    &&& forall|i: int|
        0 <= i < frames.len() ==> (#[trigger] frames[i]) == t.word(frames[i].kind) && sender(
            frames[i].kind,
        ) == role && asks(frames[i].kind) <= to
    &&& forall|kind: Kind|
        sender(kind) == role && from < asks(kind) <= to ==> frames.contains(#[trigger] t.word(kind))
}

/// A dialer whose owner answers at once goes through a round in order, whatever frames of its peer
/// reach it and however often.
#[verifier::rlimit(60)]
pub(crate) proof fn lemma_dialer_served(t: Terms, m: Machine, now: u64, input: Input)
    requires
        t.fair(),
        t.keeps(m),
        m.role == Role::Dialer,
        t.has(m, input),
        t.from <= now <= t.until,
        m.last_now <= now,
    ensures
        ({
            let (n, frames) = served(m, now, input, t.near);
            &&& t.keeps(n)
            &&& n.role == Role::Dialer
            &&& n.last_now == now
            &&& t.stage(n) == t.led(m, input)
            &&& speaks(t, Role::Dialer, t.stage(m), t.stage(n), frames)
        }),
{
    let (m1, e1) = m.step(now, input);
    law_steps_keep_the_invariant(m, now, input);
    let (n, frames) = served(m, now, input, t.near);
    if e1.barrier is Some {
        let answer = Input::Barrier { round: e1.barrier->0, result: Ok(t.near) };
        law_steps_keep_the_invariant(m1, now, answer);
        let (m2, e2) = m1.step(now, answer);
        assert(e1.control == Some(t.word(Kind::Prepare)));
        assert(frames[0] == t.word(Kind::Prepare));
    } else if e1.install is Some {
        let answer = Input::Installed { round: e1.install->0, result: Ok(()) };
        law_steps_keep_the_invariant(m1, now, answer);
        let (m2, e2) = m1.step(now, answer);
        assert(e2.control == Some(t.word(Kind::Activate)));
        assert(frames.last() == t.word(Kind::Activate));
    } else if t.stage(m) == 1 && t.stage(n) == 2 {
        assert(e1.control == Some(t.word(Kind::Commit)));
        assert(frames[0] == t.word(Kind::Commit));
    }
}

/// An acceptor whose owner answers at once goes through a round in order, whatever frames of its peer
/// reach it and however often.
#[verifier::rlimit(60)]
pub(crate) proof fn lemma_acceptor_served(t: Terms, m: Machine, now: u64, input: Input)
    requires
        t.fair(),
        t.keeps(m),
        m.role == Role::Acceptor,
        t.has(m, input),
        t.from <= now <= t.until,
        m.last_now <= now,
    ensures
        ({
            let (n, frames) = served(m, now, input, t.far);
            &&& t.keeps(n)
            &&& n.role == Role::Acceptor
            &&& n.last_now == now
            &&& t.stage(n) == t.led(m, input)
            &&& speaks(t, Role::Acceptor, t.stage(m), t.stage(n), frames)
        }),
{
    let (m1, e1) = m.step(now, input);
    law_steps_keep_the_invariant(m, now, input);
    let (n, frames) = served(m, now, input, t.far);
    if e1.barrier is Some {
        let answer = Input::Barrier { round: e1.barrier->0, result: Ok(t.far) };
        law_steps_keep_the_invariant(m1, now, answer);
        let (m2, e2) = m1.step(now, answer);
        assert(e1.control == Some(t.word(Kind::Request)));
        assert(frames[0] == t.word(Kind::Request));
        if t.stage(n) == 2 {
            assert(e2.control == Some(t.word(Kind::Prepared)));
            assert(frames[1] == t.word(Kind::Prepared));
        }
    } else if e1.install is Some {
        let answer = Input::Installed { round: e1.install->0, result: Ok(()) };
        law_steps_keep_the_invariant(m1, now, answer);
        let (m2, e2) = m1.step(now, answer);
        assert(e2.control == Some(t.word(Kind::CommitAck)));
        assert(frames.last() == t.word(Kind::CommitAck));
    } else if t.stage(m) == 1 && t.stage(n) == 2 {
        assert(e1.control == Some(t.word(Kind::Prepared)));
        assert(frames[0] == t.word(Kind::Prepared));
    } else if t.stage(m) == 3 && t.stage(n) == 4 {
        assert(e1.control == Some(t.word(Kind::ActivateAck)));
        assert(frames[0] == t.word(Kind::ActivateAck));
    }
}

/// Something reaches one of the peers.
pub ghost struct Event {
    pub role: Role,
    pub now: u64,
    pub input: Input,
}

impl Pair {
    /// How far both peers have come together.
    pub open spec fn progress(self, t: Terms) -> int {
        t.stage(self.dialer) + t.stage(self.acceptor)
    }

    pub open spec fn peer(self, role: Role) -> Machine {
        if role == Role::Dialer {
            self.dialer
        } else {
            self.acceptor
        }
    }

    /// The round has come as far on one side as what the other side waits for shows, and the frames
    /// that were sent are those of the stages that were reached.
    pub open spec fn under_way(self, t: Terms) -> bool {
        let (a, b) = (t.stage(self.dialer), t.stage(self.acceptor));
        &&& t.fair()
        &&& t.keeps(self.dialer)
        &&& t.keeps(self.acceptor)
        &&& self.dialer.role == Role::Dialer
        &&& self.acceptor.role == Role::Acceptor
        &&& b >= 2 ==> a >= 1
        &&& a >= 2 ==> b >= 2
        &&& b >= 3 ==> a >= 2
        &&& a >= 3 ==> b >= 3
        &&& b >= 4 ==> a >= 3
        &&& a >= 4 ==> b >= 4
        &&& forall|c: Control| #[trigger] self.sent.contains(c) ==> c == t.word(c.kind)
        &&& forall|kind: Kind|
            self.sent.contains(#[trigger] t.word(kind)) <==> t.stage(self.peer(sender(kind)))
                >= asks(kind)
    }

    /// What can reach a peer: a tick, a sign of life, the wish to start unless the round is over, and
    /// any frame that the other side has sent, no matter how often it was delivered before.
    pub open spec fn may_meet(self, t: Terms, event: Event) -> bool {
        let m = self.peer(event.role);
        &&& t.from <= event.now <= t.until
        &&& m.last_now <= event.now
        &&& match event.input {
            Input::Tick | Input::PeerActivity => true,
            Input::Start => m.epoch == t.epoch(),
            Input::Control(c) => self.sent.contains(c) && sender(c.kind) == event.role.other(),
            _ => false,
        }
    }

    /// The peers after it.
    pub open spec fn meets(self, t: Terms, event: Event) -> Pair {
        let (m, frames) = served(
            self.peer(event.role),
            event.now,
            event.input,
            t.own(event.role),
        );
        let sent = self.sent.union(frames.to_set());
        if event.role == Role::Dialer {
            Pair { dialer: m, sent, ..self }
        } else {
            Pair { acceptor: m, sent, ..self }
        }
    }

    /// The peers after a run of events.
    pub open spec fn after(self, t: Terms, events: Seq<Event>) -> Pair
        decreases events.len(),
    {
        if events.len() == 0 {
            self
        } else {
            self.meets(t, events[0]).after(t, events.skip(1))
        }
    }

    /// Whether all of the events can happen, one after the other.
    pub open spec fn may_meet_all(self, t: Terms, events: Seq<Event>) -> bool
        decreases events.len(),
    {
        events.len() == 0 || (self.may_meet(t, events[0]) && self.meets(t, events[0]).may_meet_all(
            t,
            events.skip(1),
        ))
    }

    /// The kind of frame that the round waits for, if it was begun and is not over.
    pub open spec fn missing(self, t: Terms) -> Option<Kind> {
        let (a, b) = (t.stage(self.dialer), t.stage(self.acceptor));
        if b == 4 {
            if a == 4 {
                None
            } else {
                Some(Kind::ActivateAck)
            }
        } else if a == 3 {
            Some(Kind::Activate)
        } else if b == 3 {
            Some(Kind::CommitAck)
        } else if a == 2 {
            Some(Kind::Commit)
        } else if b == 2 {
            Some(Kind::Prepared)
        } else if a == 1 {
            Some(Kind::Prepare)
        } else if b == 1 {
            Some(Kind::Request)
        } else {
            None
        }
    }

    /// Whether an event is the arrival of the frame that the round waits for.
    pub open spec fn helped_by(self, t: Terms, event: Event) -> bool {
        &&& self.missing(t) is Some
        &&& event.input == Input::Control(t.word(self.missing(t)->0))
        &&& event.role == sender(self.missing(t)->0).other()
    }

    /// How often in a run of events the frame arrives that the round waits for.
    pub open spec fn helped(self, t: Terms, events: Seq<Event>) -> nat
        decreases events.len(),
    {
        if events.len() == 0 {
            0
        } else {
            self.meets(t, events[0]).helped(t, events.skip(1)) + if self.helped_by(t, events[0]) {
                1nat
            } else {
                0nat
            }
        }
    }
}

/// Whatever of the frames is lost, delayed, doubled or reordered, neither side closes, and neither
/// falls back.
pub proof fn law_losses_do_no_harm(t: Terms, pair: Pair, event: Event)
    requires
        pair.under_way(t),
        pair.may_meet(t, event),
    ensures
        pair.meets(t, event).under_way(t),
        t.stage(pair.meets(t, event).dialer) >= t.stage(pair.dialer),
        t.stage(pair.meets(t, event).acceptor) >= t.stage(pair.acceptor),
        pair.helped_by(t, event) ==> pair.meets(t, event).progress(t) > pair.progress(t),
{
    let m = pair.peer(event.role);
    let next = pair.meets(t, event);
    let (n, frames) = served(m, event.now, event.input, t.own(event.role));
    if let Input::Control(c) = event.input {
        assert(c == t.word(c.kind));
        assert(t.stage(pair.peer(sender(c.kind))) >= asks(c.kind));
    }
    assert(t.has(m, event.input));
    if event.role == Role::Dialer {
        lemma_dialer_served(t, m, event.now, event.input);
    } else {
        lemma_acceptor_served(t, m, event.now, event.input);
    }
    assert forall|c: Control| #[trigger] next.sent.contains(c) implies c == t.word(c.kind) by {
        if !pair.sent.contains(c) {
            let i = choose|i: int| 0 <= i < frames.len() && frames[i] == c;
            assert(frames[i] == t.word(frames[i].kind));
        }
    }
    assert forall|kind: Kind| next.sent.contains(#[trigger] t.word(kind)) <==> t.stage(
        next.peer(sender(kind)),
    ) >= asks(kind) by {
        assert(pair.sent.contains(t.word(kind)) <==> t.stage(pair.peer(sender(kind))) >= asks(
            kind,
        ));
        if next.sent.contains(t.word(kind)) && !pair.sent.contains(t.word(kind)) {
            let i = choose|i: int| 0 <= i < frames.len() && frames[i] == t.word(kind);
            assert(asks(frames[i].kind) <= t.stage(n));
        }
        if t.stage(next.peer(sender(kind))) >= asks(kind) && !pair.sent.contains(t.word(kind)) {
            assert(frames.contains(t.word(kind)));
        }
    }
}

/// A round that was begun and is not over waits for one frame. That frame was sent; and where it was
/// lost, its sender sends it again at the first tick with which a repetition is due, or, where its
/// sender is done, when it next hears of the frame before it.
pub proof fn law_what_is_missing_is_sent_again(t: Terms, pair: Pair, now: u64)
    requires
        pair.under_way(t),
        pair.progress(t) > 0,
        pair.progress(t) < 8,
    ensures
        pair.missing(t) is Some,
        pair.sent.contains(t.word(pair.missing(t)->0)),
        ({
            let kind = pair.missing(t)->0;
            let m = pair.peer(sender(kind));
            let due = m.last_send is None || now >= m.last_send->0 + RETRY_MS;
            let reminder = if kind == Kind::ActivateAck {
                Input::Control(t.word(Kind::Activate))
            } else {
                Input::Tick
            };
            m.last_now <= now && t.from <= now <= t.until && due ==> served(
                m,
                now,
                reminder,
                t.own(m.role),
            ).1.contains(t.word(kind))
        }),
{
    let kind = pair.missing(t)->0;
    let m = pair.peer(sender(kind));
    assert(t.stage(m) >= asks(kind));
    let reminder = if kind == Kind::ActivateAck {
        Input::Control(t.word(Kind::Activate))
    } else {
        Input::Tick
    };
    if m.last_now <= now && t.from <= now <= t.until && (m.last_send is None || now
        >= m.last_send->0 + RETRY_MS) {
        let (m1, e1) = m.step(now, reminder);
        assert(e1.control == Some(t.word(kind)));
        let frames = served(m, now, reminder, t.own(m.role)).1;
        assert(frames[0] == t.word(kind));
    }
}

/// A round completes on both sides however many frames are lost, delayed, doubled or reordered, if
/// the frame that it waits for arrives often enough before the deadlines: at most seven times. So it
/// completes where the first frame of a kind is lost and every frame is doubled.
pub proof fn law_rounds_survive_losses(t: Terms, pair: Pair, events: Seq<Event>)
    requires
        pair.under_way(t),
        pair.progress(t) > 0,
        pair.may_meet_all(t, events),
        pair.progress(t) + pair.helped(t, events) >= 8,
    ensures
        pair.after(t, events).under_way(t),
        resumed(
            (pair.after(t, events).dialer, pair.after(t, events).acceptor),
            t.epoch(),
            t.near,
            t.far,
            t.until,
        ),
    decreases events.len(),
{
    if events.len() > 0 {
        law_losses_do_no_harm(t, pair, events[0]);
        law_rounds_survive_losses(t, pair.meets(t, events[0]), events.skip(1));
    }
}

/// Two peers at rest begin a round together when the acceptor, the dialer or both are told to start.
pub proof fn law_rounds_begin(t: Terms, dialer: Machine, acceptor: Machine, at: Seq<u64>)
    requires
        answerable(dialer, acceptor, t.near, t.far, at),
        t.dialer == dialer,
        t.from == at[0],
        t.until == at[9],
    ensures
        ({
            let pair = Pair { dialer, acceptor, sent: Set::empty() };
            &&& pair.under_way(t)
            &&& forall|role: Role|
                pair.may_meet(t, Event { role, now: at[0], input: Input::Start })
                    && #[trigger] pair.meets(
                    t,
                    Event { role, now: at[0], input: Input::Start },
                ).progress(t) == 1
        }),
{
    let pair = Pair { dialer, acceptor, sent: Set::<Control>::empty() };
    assert forall|role: Role|
        pair.may_meet(t, Event { role, now: at[0], input: Input::Start }) && #[trigger] pair.meets(
            t,
            Event { role, now: at[0], input: Input::Start },
        ).progress(t) == 1 by {
        if role == Role::Dialer {
            lemma_dialer_served(t, dialer, at[0], Input::Start);
        } else {
            lemma_acceptor_served(t, acceptor, at[0], Input::Start);
        }
    }
}

/// When a coordinator last sent a frame, it sent one.
pub(crate) proof fn lemma_sends(m: Machine, now: u64, input: Input, own: Baseline, at: u64)
    requires
        served(m, now, input, own).0.last_send == Some(at),
    ensures
        m.last_send == Some(at) || (at == now && served(m, now, input, own).1.len() > 0),
{
}

/// A coordinator that stays where it is says what it said when it came there.
#[verifier::rlimit(60)]
pub(crate) proof fn lemma_repeats(t: Terms, m: Machine, now: u64, input: Input, kind: Kind)
    requires
        t.fair(),
        t.keeps(m),
        m.role == sender(kind),
        t.has(m, input),
        t.from <= now <= t.until,
        m.last_now <= now,
        t.stage(m) == asks(kind),
        t.stage(served(m, now, input, t.own(m.role)).0) == asks(kind),
    ensures
        served(m, now, input, t.own(m.role)).1.len() > 0 ==> served(
            m,
            now,
            input,
            t.own(m.role),
        ).1.contains(t.word(kind)),
        input == Input::Tick && kind != Kind::ActivateAck && (m.last_send is None || now
            >= m.last_send->0 + RETRY_MS) ==> served(m, now, input, t.own(m.role)).1.contains(
            t.word(kind),
        ),
        input == Input::Control(t.word(Kind::Activate)) && kind == Kind::ActivateAck && (
        m.last_send is None || now >= m.last_send->0 + RETRY_MS) ==> served(
            m,
            now,
            input,
            t.own(m.role),
        ).1.contains(t.word(kind)),
{
    let (m1, e1) = m.step(now, input);
    let frames = served(m, now, input, t.own(m.role)).1;
    law_steps_keep_the_invariant(m, now, input);
    assert(e1.barrier is None);
    assert(e1.install is None);
    assert(e1.control is Some ==> e1.control == Some(t.word(kind)));
    if e1.control is Some {
        assert(frames[0] == t.word(kind));
    }
}

} // verus!
