//! What the recovery coordinator is for: each input takes the round one stage further, tells the peer and
//! the driver, and keeps the deadlines.

use crate::bytes::blank;
use crate::protocol::{Baseline, Control, Envelope, EnvelopeView, Kind, Ownership, Role, Session};
use crate::recovery::{
    law_steps_keep_the_invariant, round_of, round_parts, CloseReason, Input, Machine, Outcome, Recovery,
    Round, State,
};
use vstd::prelude::*;

verus! {

broadcast use {round_of, round_parts};

/// Whether no deadline of the coordinator has passed: its clock has not gone back, its recovery has not
/// taken two seconds, and its peer has been heard within its timeout.
pub open spec fn in_time(m: Machine, now: u64) -> bool {
    &&& now >= m.last_now
    &&& m.started is Some ==> now < m.started->0 + 2000
    &&& now < m.last_peer + m.peer_ms
}

/// Whether a control frame is one of this coordinator's current round.
pub open spec fn says(c: Control, m: Machine, kind: Kind, baseline: Option<Baseline>) -> bool {
    &&& c.session == m.session && c.epoch == m.epoch && c.source == m.role
    &&& c.kind == kind && c.baseline == baseline
}

/// Whether a round is the coordinator's current one.
pub open spec fn is_current(round: Round, m: Machine) -> bool {
    round.session_of() == m.session && round.epoch_of() == m.epoch
}

/// Whether a baseline is one that the coordinator can agree to.
pub open spec fn is_agreeable(b: Baseline, m: Machine) -> bool {
    b@.sound() && b.ownership == m.ownership && b.owner == m.owner
}

/// A missed deadline closes the coordinator, whatever comes, and says which one it was: of two, the one
/// that passed first.
pub proof fn law_missed_deadlines_close(
    recovery: &mut Recovery,
    now: u64,
    input: Input,
    r: Outcome,
)
    requires
        old(recovery)@.well_formed(),
        call_ensures(Recovery::step, (recovery, now, input), r),
        !(old(recovery)@.state is Closed),
        !in_time(old(recovery)@, now),
    ensures
        ({
            let (m, n) = (old(recovery)@, final(recovery)@);
            let late = m.started is Some && now >= m.started->0 + 2000;
            let silent = now >= m.last_peer + m.peer_ms;
            &&& n.state is Closed && n.pending is None && n.epoch == m.epoch
            &&& r@.state is Closed && r@.closed == n.closed
            &&& r@.control is None && r@.barrier is None && r@.install is None
            &&& now < m.last_now ==> n.closed == Some(CloseReason::ClockRegression)
            &&& now >= m.last_now && late && !silent ==> n.closed == Some(
                CloseReason::RecoveryTimeout,
            )
            &&& now >= m.last_now && silent && !late ==> n.closed == Some(CloseReason::PeerTimeout)
            &&& now >= m.last_now && silent && late ==> n.closed == Some(
                if m.started->0 + 2000 <= m.last_peer + m.peer_ms {
                    CloseReason::RecoveryTimeout
                } else {
                    CloseReason::PeerTimeout
                },
            )
        }),
{
}

/// A closed coordinator stays closed and says nothing.
pub proof fn law_closed_coordinators_rest(
    recovery: &mut Recovery,
    now: u64,
    input: Input,
    r: Outcome,
    sends: Option<u64>,
    takes: Option<u64>,
)
    requires
        old(recovery)@.well_formed(),
        call_ensures(Recovery::step, (recovery, now, input), r),
        call_ensures(Recovery::send_epoch, (&*final(recovery), now), sends),
        call_ensures(Recovery::receive_epoch, (&*final(recovery), now), takes),
        old(recovery)@.state is Closed,
    ensures
        final(recovery)@ == old(recovery)@,
        r@.control is None && r@.barrier is None && r@.install is None,
        sends is None && takes is None,
{
}

/// A recovery that is started freezes this end, asks for quiet, and tells the peer at once: the dialer
/// asks it to prepare, the acceptor asks the dialer to. It does not start where one is under way.
pub proof fn law_recoveries_start(
    recovery: &mut Recovery,
    now: u64,
    r: Outcome,
    sends: Option<u64>,
)
    requires
        old(recovery)@.well_formed(),
        call_ensures(Recovery::step, (recovery, now, Input::Start), r),
        call_ensures(Recovery::send_epoch, (&*final(recovery), now), sends),
        !(old(recovery)@.state is Closed),
        in_time(old(recovery)@, now),
    ensures
        ({
            let (m, n) = (old(recovery)@, final(recovery)@);
            &&& sends is None
            &&& m.state is Normal && m.epoch < u64::MAX ==> {
                &&& n.state is Quiescing && n.started == Some(now) && n.epoch == m.epoch
                &&& n.local is None && n.peer is None && !n.prepared
                &&& r@.state is Quiescing && r@.closed is None && r@.install is None
                &&& r@.barrier matches Some(round) && is_current(round, m)
                &&& r@.control matches Some(c) && says(
                    c,
                    m,
                    if m.role is Dialer {
                        Kind::Prepare
                    } else {
                        Kind::Request
                    },
                    None,
                )
            }
            &&& m.state is Normal && m.epoch == u64::MAX ==> n.closed == Some(
                CloseReason::EpochExhausted,
            )
            &&& !(m.state is Normal) ==> n.state == m.state && n.started == m.started && n.local
                == m.local && n.peer == m.peer
        }),
{
    law_steps_keep_the_invariant(old(recovery)@, now, Input::Start);
}

/// Once this end is quiet, its baseline is kept if it is sound and names the confirmed owner. A dialer
/// that has the peer's commits to both; an acceptor that was asked to prepare says that it is; either
/// waits otherwise. Any other baseline, and a barrier that failed, closes the coordinator.
pub proof fn law_quiet_ends_agree(
    recovery: &mut Recovery,
    now: u64,
    round: Round,
    result: Result<Baseline, ()>,
    r: Outcome,
)
    requires
        old(recovery)@.well_formed(),
        call_ensures(Recovery::step, (recovery, now, Input::Barrier { round, result }), r),
        old(recovery)@.state is Quiescing,
        old(recovery)@.local is None,
        in_time(old(recovery)@, now),
        is_current(round, old(recovery)@),
    ensures
        ({
            let (m, n) = (old(recovery)@, final(recovery)@);
            &&& result is Err ==> n.closed == Some(CloseReason::BarrierFailed) && r@.control is None
            &&& result matches Ok(b) ==> {
                &&& !is_agreeable(b, m) ==> n.closed == Some(CloseReason::Ownership) && r@.control
                    is None
                &&& is_agreeable(b, m) ==> {
                    &&& n.local == Some(b) && n.peer == m.peer && n.epoch == m.epoch && n.started
                        == m.started
                    &&& r@.barrier is None && r@.install is None
                    &&& m.role is Dialer && m.peer is Some ==> n.state is AwaitCommitAck && (
                    r@.control matches Some(c) && says(c, m, Kind::Commit, Some(b)))
                    &&& m.role is Acceptor && m.prepared ==> n.state is AwaitCommit && (
                    r@.control matches Some(c) && says(c, m, Kind::Prepared, Some(b)))
                    &&& !(m.role is Dialer && m.peer is Some) && !(m.role is Acceptor && m.prepared)
                        ==> n.state is Quiescing
                }
            }
        }),
{
    law_steps_keep_the_invariant(old(recovery)@, now, Input::Barrier { round, result });
}

/// Once the round is installed, the dialer asks the peer to activate it and the acceptor acknowledges the
/// commit; both then accept input of the next epoch. A failed installation closes the coordinator.
pub proof fn law_installed_rounds_activate(
    recovery: &mut Recovery,
    now: u64,
    round: Round,
    result: Result<(), ()>,
    r: Outcome,
    sends: Option<u64>,
    takes: Option<u64>,
)
    requires
        old(recovery)@.well_formed(),
        call_ensures(Recovery::step, (recovery, now, Input::Installed { round, result }), r),
        call_ensures(Recovery::send_epoch, (&*final(recovery), now), sends),
        call_ensures(Recovery::receive_epoch, (&*final(recovery), now), takes),
        old(recovery)@.state is Installing,
        in_time(old(recovery)@, now),
        is_current(round, old(recovery)@),
    ensures
        ({
            let (m, n) = (old(recovery)@, final(recovery)@);
            &&& sends is None
            &&& result is Err ==> n.closed == Some(CloseReason::InstallFailed) && r@.control is None
                && takes is None
            &&& result is Ok ==> {
                &&& takes matches Some(epoch) && epoch == m.epoch + 1
                &&& n.local == m.local && n.peer == m.peer && n.epoch == m.epoch
                &&& r@.barrier is None && r@.install is None
                &&& m.role is Dialer ==> n.state is AwaitActivateAck && (r@.control matches Some(c)
                    && says(c, m, Kind::Activate, None))
                &&& m.role is Acceptor ==> n.state is AwaitActivate && (r@.control matches Some(c)
                    && says(c, m, Kind::CommitAck, None))
            }
        }),
{
    law_steps_keep_the_invariant(old(recovery)@, now, Input::Installed { round, result });
}

/// Whether a control frame is one of the peer in the current round, with a baseline that can be agreed to
/// and agrees with what it said before.
pub open spec fn is_expected(c: Control, m: Machine) -> bool {
    &&& c.session == m.session && c.source != m.role && c.epoch == m.epoch
    &&& c@.sound()
    &&& c.baseline matches Some(b) ==> is_agreeable(b, m) && (m.peer matches Some(p)
        ==> p.agrees(b))
}

/// The frames of a round do what they are for. A request or a call to prepare starts one; a call to prepare
/// and the answer to it let the ends agree; a commit, and its acknowledgement, has the round installed;
/// and an activation, and its acknowledgement, ends it in the next epoch.
pub proof fn law_controls_take_the_round_on(
    recovery: &mut Recovery,
    now: u64,
    c: Control,
    r: Outcome,
)
    requires
        old(recovery)@.well_formed(),
        call_ensures(Recovery::step, (recovery, now, Input::Control(c)), r),
        !(old(recovery)@.state is Closed),
        in_time(old(recovery)@, now),
        is_expected(c, old(recovery)@),
    ensures
        ({
            let (m, n) = (old(recovery)@, final(recovery)@);
            &&& n.last_peer == now
            &&& m.state is Normal && (c.kind is Request || c.kind is Prepare) && m.epoch < u64::MAX ==> {
                &&& n.state is Quiescing && n.started == Some(now) && n.epoch == m.epoch
                &&& r@.barrier matches Some(round) && is_current(round, m)
                &&& r@.control is Some
                &&& n.prepared <==> c.kind is Prepare
            }
            &&& m.state is Normal && !(c.kind is Request || c.kind is Prepare) ==> n.closed == Some(
                CloseReason::Protocol,
            )
            &&& m.state is Quiescing && c.kind is Prepare ==> {
                &&& n.prepared
                &&& m.local is Some ==> n.state is AwaitCommit && (r@.control matches Some(f) && says(
                    f,
                    m,
                    Kind::Prepared,
                    m.local,
                ))
                &&& m.local is None ==> n.state is Quiescing
            }
            &&& m.state is Quiescing && c.kind is Prepared ==> {
                &&& n.peer == c.baseline
                &&& m.local is Some ==> n.state is AwaitCommitAck && (r@.control matches Some(f)
                    && says(f, m, Kind::Commit, m.local))
                &&& m.local is None ==> n.state is Quiescing
            }
            &&& m.state is AwaitCommit && c.kind is Commit ==> n.state is Installing && n.peer
                == c.baseline && (r@.install matches Some(round) && is_current(round, m))
            &&& m.state is AwaitCommitAck && c.kind is CommitAck ==> n.state is Installing && n.peer
                == m.peer && (r@.install matches Some(round) && is_current(round, m))
            &&& m.state is AwaitActivate && c.kind is Activate ==> {
                &&& n.state is Normal && n.epoch == m.epoch + 1 && n.started is None
                &&& r@.control matches Some(f) && says(f, m, Kind::ActivateAck, None)
            }
            &&& m.state is AwaitActivateAck && c.kind is ActivateAck ==> n.state is Normal && n.epoch
                == m.epoch + 1 && n.started is None && n.pending is None
            &&& c.kind is Request && !(m.state is Normal) ==> n.state == m.state && n.local == m.local
                && n.peer == m.peer
        }),
{
    law_steps_keep_the_invariant(old(recovery)@, now, Input::Control(c));
}

/// A finished round leaves both directions open in the next epoch.
pub proof fn law_finished_rounds_open(
    recovery: Recovery,
    now: u64,
    sends: Option<u64>,
    takes: Option<u64>,
)
    requires
        recovery@.well_formed(),
        call_ensures(Recovery::send_epoch, (&recovery, now), sends),
        call_ensures(Recovery::receive_epoch, (&recovery, now), takes),
    ensures
        ({
            let m = recovery@;
            &&& sends is Some <==> m.state is Normal && in_time(m, now)
            &&& sends matches Some(epoch) ==> epoch == m.epoch
            &&& takes is Some <==> in_time(m, now) && (m.state is Normal || m.state is AwaitActivate
                || m.state is AwaitActivateAck)
            &&& m.state is Normal && takes is Some ==> takes->0 == m.epoch
            &&& !(m.state is Normal) && takes is Some ==> takes->0 == m.epoch + 1
        }),
{
}

/// A frame that cannot be agreed to closes the coordinator: of another session or of its own role, unsound
/// or of an epoch to come, or with a baseline that does not fit.
pub proof fn law_wrong_controls_close(
    recovery: &mut Recovery,
    now: u64,
    c: Control,
    r: Outcome,
)
    requires
        old(recovery)@.well_formed(),
        call_ensures(Recovery::step, (recovery, now, Input::Control(c)), r),
        !(old(recovery)@.state is Closed),
        in_time(old(recovery)@, now),
        c.epoch >= old(recovery)@.epoch || c.session != old(recovery)@.session || c.source == old(recovery)@.role || !c@.sound(),
        !is_expected(c, old(recovery)@),
    ensures
        ({
            let (m, n) = (old(recovery)@, final(recovery)@);
            let foreign = c.session != m.session || c.source == m.role;
            &&& n.state is Closed && r@.control is None && r@.barrier is None && r@.install is None
            &&& foreign ==> n.closed == Some(CloseReason::Identity)
            &&& !foreign && (!c@.sound() || c.epoch > m.epoch) ==> n.closed == Some(
                CloseReason::Protocol,
            )
            &&& !foreign && c@.sound() && c.epoch == m.epoch ==> n.closed == Some(
                CloseReason::Ownership,
            )
        }),
{
}

/// A frame of a round that is over moves nothing. If it is one of the last round and asks for its end, it
/// is answered with it, unless a frame left within the last 50 milliseconds.
pub proof fn law_late_controls_are_answered(
    recovery: &mut Recovery,
    now: u64,
    c: Control,
    r: Outcome,
)
    requires
        old(recovery)@.well_formed(),
        call_ensures(Recovery::step, (recovery, now, Input::Control(c)), r),
        old(recovery)@.state is Normal,
        in_time(old(recovery)@, now),
        c.session == old(recovery)@.session,
        c.source != old(recovery)@.role,
        c@.sound(),
        c.epoch < old(recovery)@.epoch,
    ensures
        ({
            let (m, n) = (old(recovery)@, final(recovery)@);
            let free = m.last_send is None || now >= m.last_send->0 + 50;
            let asks = m.terminal is Some && m.terminal->0.epoch == c.epoch && !(m.role is Dialer
                && c.kind is ActivateAck);
            &&& n.state is Normal && n.epoch == m.epoch && n.last_peer == m.last_peer && n.terminal
                == m.terminal
            &&& r@.barrier is None && r@.install is None && r@.closed is None
            &&& free && asks ==> r@.control == m.terminal
            &&& !(free && asks) ==> r@.control is None
        }),
{
}

/// The peer's signs of life are noted. A frame that it has not answered leaves again after 50 milliseconds
/// and not before.
pub proof fn law_waiting_frames_are_repeated(
    recovery: &mut Recovery,
    now: u64,
    alive: bool,
    r: Outcome,
)
    requires
        old(recovery)@.well_formed(),
        call_ensures(
            Recovery::step,
            (
                recovery,
                now,
                if alive {
                    Input::PeerActivity
                } else {
                    Input::Tick
                },
            ),
            r,
        ),
        !(old(recovery)@.state is Closed),
        in_time(old(recovery)@, now),
    ensures
        ({
            let (m, n) = (old(recovery)@, final(recovery)@);
            let free = m.last_send is None || now >= m.last_send->0 + 50;
            &&& n.state == m.state && n.epoch == m.epoch && n.started == m.started && n.local == m.local
                && n.peer == m.peer && n.pending == m.pending && n.last_now == now
            &&& n.last_peer == if alive {
                now
            } else {
                m.last_peer
            }
            &&& free ==> r@.control == m.pending
            &&& !free ==> r@.control is None
            &&& r@.control is Some ==> n.last_send == Some(now)
            &&& r@.barrier is Some <==> m.state is Quiescing && m.local is None
            &&& r@.install is Some <==> m.state is Installing
        }),
{
}

/// Data is accepted exactly if it comes from the peer, in this session and in the epoch that is open to
/// receive.
pub proof fn law_data_of_the_open_epoch_is_accepted(
    recovery: Recovery,
    now: u64,
    envelope: Envelope,
    takes: Option<u64>,
    r: bool,
)
    requires
        recovery@.well_formed(),
        call_ensures(Recovery::receive_epoch, (&recovery, now), takes),
        call_ensures(Recovery::accepts_data, (&recovery, now, &envelope), r),
    ensures
        envelope is Control ==> !r,
        envelope@ matches EnvelopeView::Reliable { session, epoch, source, .. } ==> (r <==> takes
            == Some(epoch) && session == recovery@.session@ && source != recovery@.role),
        envelope@ matches EnvelopeView::Motion { session, epoch, source, .. } ==> (r <==> takes
            == Some(epoch) && session == recovery@.session@ && source != recovery@.role),
{
}

/// A new coordinator is at rest in its epoch, and both directions are open; it needs ids that are set and
/// a timeout of at most a minute.
pub proof fn law_new_coordinators_are_at_rest(
    session: Session,
    epoch: u64,
    role: Role,
    ownership: Ownership,
    owner: Role,
    peer_ms: u64,
    now: u64,
    r: Result<Recovery, CloseReason>,
)
    requires
        call_ensures(
            Recovery::new,
            (session, epoch, role, ownership, owner, peer_ms, now),
            r,
        ),
    ensures
        r is Ok <==> !blank(session@) && !blank(ownership@) && 1 <= peer_ms <= 60000,
        r matches Err(e) ==> (e is Identity <==> blank(session@) || blank(ownership@)) && (e is Identity
            || e is Protocol),
        r matches Ok(made) ==> {
            let m = made@;
            &&& m.well_formed()
            &&& m.state is Normal && m.closed is None && m.epoch == epoch && m.session == session
            &&& m.role == role && m.ownership == ownership && m.owner == owner
            &&& m.peer_ms == peer_ms && m.last_peer == now && m.last_now == now
            &&& in_time(m, now)
            &&& m.terminal is None && m.pending is None
        },
{
}

/// The owner changes only between rounds. The peer's time runs from when it was last heard. An
/// installation is awaited while its round is being installed and in time.
pub proof fn law_owners_change_between_rounds(
    recovery: &mut Recovery,
    ownership: Ownership,
    owner: Role,
    r: bool,
    round: Round,
    now: u64,
    left: u64,
    awaited: bool,
)
    requires
        old(recovery)@.well_formed(),
        call_ensures(Recovery::peer_remaining, (&*old(recovery), now), left),
        call_ensures(Recovery::installation_pending, (&*old(recovery), round, now), awaited),
        call_ensures(Recovery::set_ownership, (recovery, ownership, owner), r),
    ensures
        r <==> old(recovery)@.state is Normal && !blank(ownership@),
        r ==> final(recovery)@.ownership == ownership && final(recovery)@.owner == owner
            && final(recovery)@.state is Normal && final(recovery)@.epoch == old(recovery)@.epoch,
        !r ==> final(recovery)@ == old(recovery)@,
        awaited <==> old(recovery)@.state is Installing && is_current(round, old(recovery)@)
            && in_time(old(recovery)@, now),
        now <= old(recovery)@.last_peer ==> left == old(recovery)@.peer_ms,
        left == 0 <==> now >= old(recovery)@.last_peer + old(recovery)@.peer_ms,
        now >= old(recovery)@.last_peer && left > 0 ==> now + left == old(recovery)@.last_peer + old(recovery)@.peer_ms,
{
}

/// A round names its session and the epochs that it ends and begins; an outcome shows what came of a step.
pub proof fn law_rounds_and_outcomes_are_plain(
    round: Round,
    other: Round,
    session: Session,
    ends: u64,
    begins: u64,
    same: bool,
    outcome: Outcome,
    state: State,
    control: Option<&Control>,
    barrier: Option<Round>,
    install: Option<Round>,
    closed: Option<CloseReason>,
    peer: Option<Baseline>,
)
    requires
        round.epoch_of() < u64::MAX,
        call_ensures(Round::session, (round,), session),
        call_ensures(Round::old_epoch, (round,), ends),
        call_ensures(Round::next_epoch, (round,), begins),
        call_ensures(Round::same, (&round, &other), same),
        call_ensures(Outcome::state, (&outcome,), state),
        call_ensures(Outcome::control, (&outcome,), control),
        call_ensures(Outcome::barrier, (&outcome,), barrier),
        call_ensures(Outcome::install, (&outcome,), install),
        call_ensures(Outcome::closed, (&outcome,), closed),
        call_ensures(Outcome::peer_baseline, (&outcome,), peer),
    ensures
        session == round.session_of() && ends == round.epoch_of() && begins == ends + 1,
        same <==> round.session_of() == other.session_of() && round.epoch_of() == other.epoch_of(),
        state == outcome@.state && barrier == outcome@.barrier && install == outcome@.install && closed
            == outcome@.closed && peer == outcome@.peer_baseline,
        control is Some <==> outcome@.control is Some,
        control matches Some(c) ==> outcome@.control == Some(*c),
{
}

} // verus!
