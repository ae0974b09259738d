//! What the bridge to the input owner is for: a generation is a right that ends in time, the link freezes
//! and thaws with the rounds, and each request reaches the owner.

use crate::fault::Fault;
use crate::lifecycle::{Generation, Link, Request, Runtime};
use crate::protocol::{Baseline, Role, Session};
use crate::recovery::{
    law_installing_knows_the_peer, law_rounds_have_a_shape, law_steps_keep_the_invariant, round_of,
    round_parts, Input, Outcome, Round,
};
use crate::recovery_laws::{in_time, is_current};
use vstd::prelude::*;

verus! {

broadcast use {round_of, round_parts};

/// A new generation is a right of its epoch until its deadline, or until it is retired. Once committed it
/// has no deadline of its own; the peer's silence ends it all the same.
pub proof fn law_generations_last_until_their_deadline(
    session: Session,
    epoch: u64,
    deadline: Option<u64>,
    made: Generation,
    now: u64,
    first: bool,
    held: &mut Generation,
    committed: bool,
    then: u64,
    later: bool,
)
    requires
        call_ensures(Generation::new, (session, epoch, deadline), made),
        call_ensures(Generation::valid, (&made, now), first),
        *old(held) == made,
        call_ensures(Generation::commit, (held, now), committed),
        call_ensures(Generation::valid, (&*final(held), then), later),
    ensures
        made.session == session && made.epoch == epoch,
        first <==> (deadline matches Some(end) ==> now < end),
        committed == first,
        committed ==> later,
        !committed ==> *final(held) == made,
        final(held).session == session && final(held).epoch == epoch,
{
}

/// The peer's time runs from now; when it is up, no commitment helps. A retired generation is no right.
pub proof fn law_silence_ends_generations(
    held: &mut Generation,
    now: u64,
    left: u64,
    then: u64,
    heard: bool,
    gone: &mut Generation,
    over: bool,
    again: &mut Generation,
    kept: bool,
)
    requires
        call_ensures(Generation::update_peer_deadline, (held, now, left), ()),
        call_ensures(Generation::valid, (&*final(held), then), heard),
        *old(gone) == *final(held),
        call_ensures(Generation::retire, (gone,), ()),
        call_ensures(Generation::valid, (&*final(gone), then), over),
        *old(again) == *final(gone),
        call_ensures(Generation::commit, (again, then), kept),
    ensures
        then >= now + left ==> !heard,
        now + left <= u64::MAX && then < now + left && old(held).active && (old(held).committed || (old(held).deadline matches Some(end) ==> then < end)) ==> heard,
        !old(held).active ==> !heard,
        !over && !kept,
        final(held).epoch == old(held).epoch && final(held).session == old(held).session
            && final(held).committed == old(held).committed && final(held).deadline == old(held).deadline,
{
}

/// The link honours a generation exactly if it is the link's own, of the same session and epoch, and still
/// a right.
pub proof fn law_links_honour_their_generation(
    link: Link,
    held: Generation,
    now: u64,
    r: bool,
    own: Generation,
    alive: bool,
)
    requires
        call_ensures(Link::valid, (&link, &held, now), r),
        link.generation is Some ==> link.generation == Some(own),
        call_ensures(Generation::valid, (&own, now), alive),
    ensures
        r <==> link.generation is Some && own.session == held.session && own.epoch == held.epoch
            && alive,
{
}

/// A stall freezes a link that was not frozen and calls for a recovery; a failure freezes it for good. Both,
/// and a close, leave no generation that is a right.
pub proof fn law_frozen_links_bar_their_generation(
    stalled: &mut Link,
    failed: &mut Link,
    closed: &mut Link,
    held: Generation,
    now: u64,
    a: bool,
    b: bool,
    c: bool,
)
    requires
        call_ensures(Link::stall, (stalled,), ()),
        call_ensures(Link::fail, (failed,), ()),
        call_ensures(Link::close, (closed,), ()),
        call_ensures(Link::valid, (&*final(stalled), &held, now), a),
        call_ensures(Link::valid, (&*final(failed), &held, now), b),
        call_ensures(Link::valid, (&*final(closed), &held, now), c),
    ensures
        final(stalled).frozen && final(failed).frozen && final(closed).frozen,
        final(failed).failed,
        !old(stalled).frozen ==> final(stalled).stalled && !a,
        old(stalled).frozen ==> *final(stalled) == *old(stalled),
        !b && !c,
        final(closed).stalled == old(closed).stalled && final(closed).failed == old(closed).failed,
        final(stalled).request == old(stalled).request && final(failed).request == old(failed).request
            && final(closed).request == old(closed).request,
        final(stalled).ownership == old(stalled).ownership && final(closed).ownership == old(closed).ownership,
        final(closed).enabled == old(closed).enabled && final(stalled).enabled == old(stalled).enabled,
{
}

/// A request is handed to the owner once; the owner's answer reaches the coordinator once, as the result
/// of the round that it names.
pub proof fn law_requests_and_answers_pass_once(
    link: &mut Link,
    request: Option<Request>,
    asked: &mut Link,
    repeated: Option<Request>,
    answered: &mut Link,
    round: Round,
    result: Result<Baseline, ()>,
    runtime: Runtime,
    read: &mut Link,
    input: Option<Input>,
    drained: &mut Link,
    nothing: Option<Input>,
)
    requires
        call_ensures(Link::request, (link,), request),
        *old(asked) == *final(link),
        call_ensures(Link::request, (asked,), repeated),
        call_ensures(Link::barrier_done, (answered, round, result), ()),
        *old(read) == *final(answered),
        call_ensures(Runtime::response, (&runtime, read), input),
        *old(drained) == *final(read),
        call_ensures(Runtime::response, (&runtime, drained), nothing),
    ensures
        request == old(link).request,
        repeated is None,
        input == Some(Input::Barrier { round, result }),
        nothing is None,
        final(link).generation == old(link).generation && final(link).frozen == old(link).frozen,
        final(answered).generation == old(answered).generation && final(answered).frozen == old(answered).frozen,
{
}

/// So does the answer to an installation.
pub proof fn law_installations_are_answered_once(
    answered: &mut Link,
    round: Round,
    result: Result<(), ()>,
    runtime: Runtime,
    read: &mut Link,
    input: Option<Input>,
)
    requires
        call_ensures(Link::installed, (answered, round, result), ()),
        *old(read) == *final(answered),
        call_ensures(Runtime::response, (&runtime, read), input),
    ensures
        input == Some(Input::Installed { round, result }),
        final(read).response is None,
        final(read).request == old(answered).request && final(read).generation == old(answered).generation,
{
}

/// The owner that was confirmed last is the one that a baseline names, by the number of its handover;
/// without one there is no baseline.
pub proof fn law_baselines_name_the_owner(
    link: &mut Link,
    serial: u32,
    owner: Role,
    x: u64,
    y: u64,
    layout: u64,
    r: Option<Baseline>,
    lost: &mut Link,
    none: Option<Baseline>,
)
    requires
        call_ensures(Link::ownership, (link, Some(serial), owner), ()),
        call_ensures(Link::baseline, (&*final(link), x, y, layout), r),
        call_ensures(Link::ownership, (lost, None::<u32>, owner), ()),
        call_ensures(Link::baseline, (&*final(lost), x, y, layout), none),
    ensures
        none is None,
        r matches Some(b) && {
            &&& b.x == x && b.y == y && b.layout == layout && b.owner == owner
            &&& crate::wire_laws::number(b.ownership@.take(4)) == serial
            &&& forall|i: int| 4 <= i < 16 ==> b.ownership@[i] == 1
        },
        final(link).generation == old(link).generation && final(link).request == old(link).request
            && final(link).frozen == old(link).frozen,
{
    let mark = (final(link).ownership->0).0@;
    crate::wire_laws::lemma_four(serial);
    assert(mark.take(4) =~= crate::bytes::le32(serial));
}

/// Whether nothing of a link but the peer's deadline differs.
pub open spec fn only_told(before: Link, after: Link) -> bool {
    &&& after.enabled == before.enabled && after.frozen == before.frozen && after.stalled
        == before.stalled && after.failed == before.failed
    &&& after.request == before.request && after.response == before.response && after.ownership
        == before.ownership
    &&& after.generation is Some <==> before.generation is Some
    &&& after.generation matches Some(g) ==> g == (Generation {
        peer_deadline: g.peer_deadline,
        ..before.generation->0
    })
}

/// A recovery that begins freezes the link, ends the right of the current generation, and asks the owner
/// for quiet. It fails where no handover is confirmed.
pub proof fn law_recoveries_freeze_the_link(
    runtime: &mut Runtime,
    now: u64,
    link: &mut Link,
    r: Result<Outcome, Fault>,
)
    requires
        old(runtime)@.well_formed(),
        old(runtime)@.guards(*old(link)),
        call_ensures(Runtime::step, (runtime, now, Input::Start, link), r),
        old(runtime)@.machine.state is Normal,
        old(runtime)@.machine.epoch < u64::MAX,
        old(runtime)@.resumed == old(runtime)@.machine.epoch,
        in_time(old(runtime)@.machine, now),
    ensures
        ({
            let (m, n) = (old(runtime)@.machine, final(runtime)@.machine);
            &&& final(link).frozen
            &&& final(link).generation matches Some(g) ==> !g.active
            &&& old(link).ownership is None ==> r is Err
            &&& old(link).ownership is Some ==> {
                &&& r is Ok
                &&& n.state is Quiescing && n.epoch == m.epoch && n.started == Some(now)
                &&& final(link).request matches Some(Request::Barrier(round)) && is_current(round, m)
                &&& final(runtime)@.deadline matches Some(end) && (now + 2000 <= u64::MAX ==> end
                    == now + 2000)
            }
            &&& final(link).response == old(link).response && final(link).ownership == old(link).ownership && final(link).failed == old(link).failed
        }),
{
    let c = old(runtime)@;
    let m = c.informed(*old(link), now);
    law_rounds_have_a_shape(m, now, Input::Start);
    let effect = m.step(now, Input::Start).1;
    assert(effect.barrier == Some(m.round()));
    assert(c.barrier != effect.barrier);
}

/// A round that is to be installed gives the owner the peer's baseline, and a generation of the next epoch
/// that lasts no longer than the recovery. The link stays frozen.
pub proof fn law_installations_reach_the_owner(
    runtime: &mut Runtime,
    now: u64,
    input: Input,
    link: &mut Link,
    outcome: Outcome,
)
    requires
        old(runtime)@.well_formed(),
        old(runtime)@.guards(*old(link)),
        call_ensures(
            Runtime::step,
            (runtime, now, input, link),
            Ok::<Outcome, Fault>(outcome),
        ),
        old(runtime)@.machine.recovering(),
        outcome@.install is Some,
        old(runtime)@.install != outcome@.install,
    ensures
        final(link).frozen == old(link).frozen,
        final(link).request matches Some(Request::Install { round, peer }) && Some(round)
            == outcome@.install && Some(peer) == outcome@.peer_baseline,
        final(link).generation matches Some(g) && {
            &&& g.session == old(runtime)@.machine.session
            &&& g.epoch == old(runtime)@.machine.epoch + 1
            &&& g.active && !g.committed
            &&& g.deadline == old(runtime)@.deadline
        },
        final(runtime)@.install == outcome@.install,
{
    let c = old(runtime)@;
    let m = c.informed(*old(link), now);
    law_rounds_have_a_shape(m, now, input);
    law_steps_keep_the_invariant(m, now, input);
    law_installing_knows_the_peer(m, now, input);
}

/// A round that ends thaws the link, commits the generation of the new epoch and tells the owner, with the
/// peer's baseline, that input goes on. Where that generation is no right any more, the link fails.
pub proof fn law_finished_rounds_thaw_the_link(
    runtime: &mut Runtime,
    now: u64,
    input: Input,
    link: &mut Link,
    r: Result<Outcome, Fault>,
    alive: bool,
)
    requires
        old(runtime)@.well_formed(),
        old(runtime)@.guards(*old(link)),
        call_ensures(Runtime::step, (runtime, now, input, link), r),
        old(runtime)@.machine.recovering(),
        final(runtime)@.machine.state is Normal,
        old(link).generation is Some,
        call_ensures(Generation::valid, (&old(link).generation->0, now), alive),
    ensures
        alive ==> {
            &&& r is Ok && !final(link).frozen
            &&& final(link).request matches Some(Request::Resumed { epoch, peer }) && epoch
                == final(runtime)@.machine.epoch && Some(peer) == final(runtime)@.machine.peer
            &&& final(link).generation matches Some(g) && g.committed && g.active && g.epoch == old(link).generation->0.epoch
            &&& final(runtime)@.resumed == final(runtime)@.machine.epoch
        },
        !alive ==> r is Err && final(link).failed && final(link).frozen,
{
    let c = old(runtime)@;
    let m = c.informed(*old(link), now);
    law_rounds_have_a_shape(m, now, input);
    law_steps_keep_the_invariant(m, now, input);
}

/// At rest, a tick and the peer's signs of life only renew the peer's deadline.
pub proof fn law_the_link_rests_between_rounds(
    runtime: &mut Runtime,
    now: u64,
    alive: bool,
    link: &mut Link,
    r: Result<Outcome, Fault>,
)
    requires
        old(runtime)@.well_formed(),
        old(runtime)@.guards(*old(link)),
        call_ensures(
            Runtime::step,
            (
                runtime,
                now,
                if alive {
                    Input::PeerActivity
                } else {
                    Input::Tick
                },
                link,
            ),
            r,
        ),
        old(runtime)@.machine.state is Normal,
        old(runtime)@.resumed == old(runtime)@.machine.epoch,
    ensures
        r is Ok <==> in_time(old(runtime)@.machine, now),
        r is Ok ==> only_told(*old(link), *final(link)) && final(runtime)@.machine.state is Normal
            && final(runtime)@.machine.epoch == old(runtime)@.machine.epoch,
        r is Ok && alive ==> (final(link).generation matches Some(g) ==> g.peer_deadline matches Some(
            end,
        ) && (now + old(runtime)@.machine.peer_ms <= u64::MAX ==> end == now
            + old(runtime)@.machine.peer_ms)),
        r is Err ==> final(link).frozen && final(runtime)@.machine.state is Closed,
{
}

/// Whatever closes the coordinator freezes the link, ends its generation and is an error.
pub proof fn law_closed_rounds_shut_the_link(
    runtime: &mut Runtime,
    now: u64,
    input: Input,
    link: &mut Link,
    r: Result<Outcome, Fault>,
)
    requires
        old(runtime)@.well_formed(),
        old(runtime)@.guards(*old(link)),
        call_ensures(Runtime::step, (runtime, now, input, link), r),
        final(runtime)@.machine.state is Closed,
    ensures
        r is Err,
        final(link).frozen,
        final(link).generation matches Some(g) ==> !g.active,
        final(link).request == old(link).request,
{
    let m = old(runtime)@.informed(*old(link), now);
    law_steps_keep_the_invariant(m, now, input);
}

/// A new runtime opens the link in the first epoch, with a generation that lasts while the peer is heard
/// and an owner that both ends know.
pub proof fn law_new_runtimes_open_the_link(
    session: Session,
    role: Role,
    peer_ms: u64,
    now: u64,
    link: &mut Link,
    r: Result<Runtime, Fault>,
)
    requires
        call_ensures(Runtime::new, (session, role, peer_ms, now, link), r),
    ensures
        r is Ok <==> (exists|i: int| 0 <= i < 16 && session@[i] != 0) && 1 <= peer_ms <= 60000,
        r matches Ok(made) ==> {
            &&& final(link).enabled && final(link).frozen == old(link).frozen
            &&& final(link).generation matches Some(g) && g.session == session && g.epoch == 0
                && g.active && g.deadline is None && (now + peer_ms <= u64::MAX ==> g.peer_deadline
                == Some((now + peer_ms) as u64))
            &&& final(link).ownership matches Some(o) && o.1 is Dialer && o.0@.take(4) =~= seq![
                0u8,
                0u8,
                0u8,
                0u8,
            ]
            &&& made@.machine.state is Normal && made@.machine.epoch == 0 && made@.machine.role == role
                && made@.machine.session == session && made@.resumed == 0
            &&& in_time(made@.machine, now)
        },
        r is Err ==> final(link).enabled == old(link).enabled && final(link).generation == old(link).generation,
{
    assert(crate::bytes::blank(session@) <==> !(exists|i: int| 0 <= i < 16 && session@[i] != 0));
    let mark = (final(link).ownership->0).0@;
    assert(mark.take(4) =~= crate::bytes::le32(0));
    assert(crate::bytes::le32(0) =~= seq![0u8, 0u8, 0u8, 0u8]);
}

} // verus!
