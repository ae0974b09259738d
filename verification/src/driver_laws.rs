//! What a connection's driver is for: what its methods promise whoever runs the loop, whatever the state
//! of the connection.

use crate::bytes::{at64, blank, le64};
use crate::driver::{derive_ids, first_ids, law_greetings_offer_what_is_supported, lines};
use crate::driver::{motion_event, session_ids};
use crate::driver::{Arrival, Driver, Status, Taken};
use crate::engine::{pieces, HEADER};
use crate::event::{finite, Codec, Decoded};
use crate::fault::Fault;
use crate::frame::{self, FrameView, MOTION_TAG, MTU};
use crate::lifecycle::{law_runtime_keeps_its_invariant, Conduct, Generation, InputResponse, Link};
use crate::lifecycle::{Request, Runtime};
use crate::motion;
use crate::peer::{is_outdated, Delivery, WirePacket};
use crate::protocol::{self, Baseline, Control, EnvelopeView, Kind, Role};
use crate::recovery::{law_steps_keep_the_invariant, round_of, round_parts, Input, Machine};
use crate::recovery::{State, RECOVERY_MS};
use crate::session::{law_segments_join_to_the_message, zeros, Channel};
use vstd::prelude::*;

verus! {

broadcast use {round_of, round_parts};

/// Whether a ready session has made no progress for longer than it may: a message that was sent or
/// received was not consumed, or one that the peer has sent did not arrive.
pub open spec fn input_is_overdue(d: Driver, now: u64) -> bool {
    let s = d.session@;
    &&& s.ready && !s.closed
    &&& {
        ||| s.acknowledgement_since is Some && now > s.acknowledgement_since->0 + s.stall_ms
        ||| s.consuming.len() > 0 && now > s.consuming[0].1 + s.stall_ms
        ||| s.gap_since is Some && now > s.gap_since->0 + s.stall_ms
    }
}

/// An input stall on a recoverable connection that is not frozen never ends it: the tick succeeds and
/// keeps the session, and it leaves the link frozen, its generation retired and a recovery called for.
pub proof fn law_a_stall_calls_for_a_recovery(
    driver: &mut Driver,
    link: &mut Link,
    now: u64,
    r: Result<(), Fault>,
)
    requires
        old(driver).inv(*old(link)),
        call_ensures(Driver::tick, (driver, link, now), r),
        old(link).enabled,
        !old(link).frozen,
        input_is_overdue(*old(driver), now),
    ensures
        r is Ok,
        *final(driver) == *old(driver),
        final(link).frozen,
        final(link).stalled,
        final(link).enabled,
        final(link).failed == old(link).failed,
        final(link).request == old(link).request,
        final(link).response == old(link).response,
        final(link).ownership == old(link).ownership,
        final(link).generation is Some <==> old(link).generation is Some,
        final(link).generation matches Some(g) ==> !g.active,
{
}

/// A coordinator at rest that is told to start asks for quiet and says so to its peer.
proof fn lemma_starts(c: Conduct, link: Link, now: u64)
    requires
        c.well_formed(),
        c.machine.state == State::Normal,
        c.machine.epoch < u64::MAX,
        c.machine.epoch == c.resumed,
        c.machine.last_now <= now < c.machine.last_peer + c.machine.peer_ms,
        link.ownership is Some,
    ensures
        ({
            let (n, after, r) = c.step(link, now, Input::Start);
            &&& r is Ok
            &&& n.well_formed()
            &&& n.machine.state == State::Quiescing
            &&& n.machine.local is None
            &&& n.machine.epoch == c.machine.epoch
            &&& n.machine.session == c.machine.session
            &&& n.machine.role == c.machine.role
            &&& n.machine.started == Some(now)
            &&& n.machine.last_now == now
            &&& n.machine.last_peer == c.machine.last_peer
            &&& n.machine.peer_ms == c.machine.peer_ms
            &&& n.machine.pending matches Some(frame)
            &&& frame.kind == (if c.machine.role == Role::Dialer {
                Kind::Prepare
            } else {
                Kind::Request
            })
            &&& n.barrier == Some(c.machine.round())
            &&& r->Ok_0.control is Some
            &&& after.frozen
            &&& after.stalled == link.stalled
            &&& after.response == link.response
            &&& after.ownership == link.ownership
            &&& after.request == Some(Request::Barrier(c.machine.round()))
        }),
{
    law_runtime_keeps_its_invariant(c, link, now, Input::Start);
}

/// A tick at the same time leaves it waiting for quiet.
proof fn lemma_keeps_waiting(c: Conduct, link: Link, now: u64)
    requires
        c.well_formed(),
        c.machine.state == State::Quiescing,
        c.machine.local is None,
        c.machine.started == Some(now),
        c.machine.last_now == now,
        now < c.machine.last_peer + c.machine.peer_ms,
        c.barrier == Some(c.machine.round()),
    ensures
        ({
            let (n, after, r) = c.step(link, now, Input::Tick);
            &&& r is Ok
            &&& n.machine.state == State::Quiescing
            &&& n.machine.epoch == c.machine.epoch
            &&& n.machine.started == c.machine.started
            &&& n.machine.pending == c.machine.pending
            &&& n.machine.receive_gate(now) is None
            &&& after.frozen == link.frozen
            &&& after.stalled == link.stalled
            &&& after.request == link.request
        }),
{
}

/// Once a recovery is called for, settling begins a round on the same connection: the coordinator asks
/// its owner for quiet, and the frame that opens the round waits for the writer.
pub proof fn law_settling_begins_the_round(
    driver: &mut Driver,
    link: &mut Link,
    now: u64,
    r: Result<bool, Fault>,
)
    requires
        old(driver).inv(*old(link)),
        call_ensures(Driver::settle, (driver, link, now), r),
        old(link).stalled,
        !old(link).failed,
        old(link).response is None,
        old(link).ownership is Some,
        old(driver).runtime is Some,
        old(driver).pending_probe is None,
        ({
            let m = old(driver).runtime->0@.machine;
            &&& m.state == State::Normal
            &&& m.epoch < u64::MAX
            &&& m.epoch == old(driver).runtime->0@.resumed
            &&& m.last_now <= now < m.last_peer + m.peer_ms
        }),
    ensures
        r is Ok,
        !final(link).stalled,
        final(link).frozen,
        final(driver).runtime is Some,
        ({
            let m = old(driver).runtime->0@.machine;
            let n = final(driver).runtime->0@.machine;
            &&& n.state == State::Quiescing
            &&& n.epoch == m.epoch
            &&& n.started == Some(now)
            &&& final(link).request == Some(Request::Barrier(m.round()))
            &&& n.pending matches Some(frame)
            &&& frame.kind == (if m.role == Role::Dialer {
                Kind::Prepare
            } else {
                Kind::Request
            })
            &&& final(driver).controls@.len() > old(driver).controls@.len()
        }),
{
    let (s, l) = (*old(driver), *old(link));
    let (next, after) = (*final(driver), *final(link));
    assert(s.settles(l, now, r, next, after));
    let calm = Link { stalled: false, ..l };
    let c = s.runtime->0@;
    lemma_starts(c, calm, now);
    let (r1, d1, l1) = choose|r1: Result<(), Fault>, d1: Driver, l1: Link|
        {
            &&& #[trigger] s.settles_stall(l, now, r1, d1, l1)
            &&& match r1 {
                Err(fault) => r == Err::<bool, Fault>(fault) && next == d1 && after == l1,
                Ok(_) => d1.settles_on(l1, now, r, next, after),
            }
        };
    assert(s.advances(now, Input::Start, calm, r1, d1, l1));
    assert(lines(d1.controls@).len() == lines(s.controls@).len() + 1);
    let (r2, d2, l2) = choose|r2: Result<(), Fault>, d2: Driver, l2: Link|
        {
            &&& #[trigger] d1.settles_response(l1, now, r2, d2, l2)
            &&& match r2 {
                Err(fault) => r == Err::<bool, Fault>(fault) && next == d2 && after == l2,
                Ok(_) => d2.settles_further(l2, now, r, next, after),
            }
        };
    assert(d2 == d1 && l2 == Link { response: None, ..l1 });
    let (r3, d3, l3) = choose|r3: Result<(), Fault>, d3: Driver, l3: Link|
        {
            &&& #[trigger] d2.settles_probe(l2, now, r3, d3, l3)
            &&& match r3 {
                Err(fault) => r == Err::<bool, Fault>(fault) && next == d3 && after == l3,
                Ok(_) => d3.settles_last(l3, now, r, next, after),
            }
        };
    assert(d3 == d2 && l3 == l2);
    let (r4, d4) = choose|r4: Result<(), Fault>, d4: Driver|
        {
            &&& #[trigger] d3.advances(now, Input::Tick, l3, r4, d4, after)
            &&& match r4 {
                Err(fault) => r == Err::<bool, Fault>(fault) && next == d4,
                Ok(_) => r is Ok && d4.settles_epoch(after, now, r->Ok_0, next),
            }
        };
    lemma_keeps_waiting(d3.runtime->0@, l3, now);
    assert(lines(d4.controls@).len() >= lines(d3.controls@).len());
}

/// Without a recovery, an input stall ends the connection.
pub proof fn law_a_stall_ends_what_cannot_recover(
    driver: &mut Driver,
    link: &mut Link,
    now: u64,
    r: Result<(), Fault>,
)
    requires
        old(driver).inv(*old(link)),
        call_ensures(Driver::tick, (driver, link, now), r),
        !old(link).enabled,
        !old(link).frozen,
        old(driver).reliable == Some(true),
        old(driver).runtime is None,
        input_is_overdue(*old(driver), now),
        now <= old(driver).session@.last_peer + old(driver).session@.peer_ms,
    ensures
        r == Err::<(), Fault>(Fault::InputStalled),
        final(driver).session@.closed,
        *final(link) == *old(link),
{
}

/// A peer that is silent for too long ends the connection, unless its input stalled before.
pub proof fn law_silence_ends_the_connection(
    driver: &mut Driver,
    link: &mut Link,
    now: u64,
    r: Result<(), Fault>,
)
    requires
        old(driver).inv(*old(link)),
        call_ensures(Driver::tick, (driver, link, now), r),
        !old(link).frozen,
        old(driver).reliable == Some(true),
        old(driver).session@.ready,
        !old(driver).session@.closed,
        !input_is_overdue(*old(driver), now),
        now > old(driver).session@.last_peer + old(driver).session@.peer_ms,
    ensures
        r == Err::<(), Fault>(Fault::PeerTimeout),
        final(driver).session@.closed,
        *final(link) == *old(link),
{
}

/// While no deadline has passed, a tick succeeds, leaves the link alone and keeps the session ready.
pub proof fn law_ticks_keep_a_healthy_connection(
    driver: &mut Driver,
    link: &mut Link,
    now: u64,
    r: Result<(), Fault>,
)
    requires
        old(driver).inv(*old(link)),
        call_ensures(Driver::tick, (driver, link, now), r),
        old(driver).reliable == Some(true),
        ({
            let s = old(driver).session@;
            &&& s.ready && !s.closed
            &&& !input_is_overdue(*old(driver), now)
            &&& now <= s.last_peer + s.peer_ms
            &&& s.wire.len() > 0 ==> now <= s.wire[0].0 + s.stall_ms
            &&& s.output.len() > 0 ==> now <= s.output[0].0 + s.stall_ms
        }),
    ensures
        r is Ok,
        *final(link) == *old(link),
        final(driver).session@.ready,
        !final(driver).session@.closed,
        final(driver).session@.sent == old(driver).session@.sent,
        final(driver).session@.incoming == old(driver).session@.incoming,
        final(driver).session@.outstanding == old(driver).session@.outstanding,
        final(driver).pending == old(driver).pending,
        final(driver).receiver == old(driver).receiver,
        final(driver).runtime == old(driver).runtime,
{
}

/// A packet that the writer does not get to calls for a recovery where there is a coordinator, and ends
/// the connection where there is none.
pub proof fn law_stuck_output_recovers_or_ends(
    driver: &mut Driver,
    link: &mut Link,
    now: u64,
    r: Result<(), Fault>,
)
    requires
        old(driver).inv(*old(link)),
        call_ensures(Driver::tick, (driver, link, now), r),
        !old(link).frozen,
        old(driver).reliable == Some(true),
        ({
            let s = old(driver).session@;
            &&& s.ready && !s.closed
            &&& !input_is_overdue(*old(driver), now)
            &&& now <= s.last_peer + s.peer_ms
            &&& {
                ||| s.wire.len() > 0 && now > s.wire[0].0 + s.stall_ms
                ||| s.output.len() > 0 && now > s.output[0].0 + s.stall_ms
            }
        }),
    ensures
        old(driver).runtime is None ==> r == Err::<(), Fault>(Fault::OutputStalled)
            && *final(link) == *old(link),
        old(driver).runtime is Some ==> r is Ok && final(link).frozen && final(link).stalled,
        final(driver).session@.closed,
{
}

/// An incoming connection that does not greet in six seconds ends, and not before.
pub proof fn law_greetings_are_awaited(
    driver: &mut Driver,
    link: &mut Link,
    now: u64,
    r: Result<(), Fault>,
)
    requires
        old(driver).inv(*old(link)),
        call_ensures(Driver::tick, (driver, link, now), r),
        old(driver).reliable is None,
        !old(link).enabled,
    ensures
        now > 6000 ==> r == Err::<(), Fault>(Fault::HelloTimeout),
        now <= 6000 ==> r is Ok,
        *final(driver) == *old(driver),
        *final(link) == *old(link),
{
}

/// A frozen connection is not ticked before the next epoch is installed.
pub proof fn law_ticks_spare_a_frozen_connection(
    driver: &mut Driver,
    link: &mut Link,
    now: u64,
    r: Result<(), Fault>,
)
    requires
        old(driver).inv(*old(link)),
        call_ensures(Driver::tick, (driver, link, now), r),
        old(link).frozen,
        old(driver).reliable is Some,
        old(driver).runtime is Some ==> old(driver).installed_epoch
            <= old(driver).runtime->0@.machine.epoch,
        old(driver).runtime is None ==> old(driver).installed_epoch == 0,
    ensures
        r is Ok,
        *final(driver) == *old(driver),
        *final(link) == *old(link),
{
}

/// Whether the codec reads these bytes as an event of the reliable channel, whatever it returns.
pub open spec fn reads_as_input<C: Codec>(codec: &C, bytes: Seq<u8>) -> bool {
    forall|whole: Vec<u8>, event: Decoded|
        whole@ == bytes && #[trigger] call_ensures(C::any, (codec, &whole), event) ==> event is Motion
            || event is Other
}

/// A delivery that has been handed out: its bytes, and its receipt, which bears the message's number and
/// asks for consumption within the stall timeout.
pub open spec fn handed(
    delivery: Delivery,
    bytes: Seq<u8>,
    sequence: u64,
    d: Driver,
    link: Link,
    now: u64,
) -> bool {
    &&& delivery.bytes@ == bytes
    &&& delivery.receipt matches Some(receipt)
    &&& receipt.sequence == sequence
    &&& receipt.generation == link.generation
    &&& now + d.timeouts.stall@ <= u64::MAX ==> receipt.deadline == now + d.timeouts.stall@
}

/// The next message of the session, if it is an event of the reliable channel, is handed to the
/// application with its receipt, whichever end of the connection this is; and it leaves the session's
/// queue, so that it is handed out once and the message after it comes next.
pub proof fn law_messages_are_delivered_once_and_in_order<C: Codec>(
    driver: &mut Driver,
    codec: &C,
    link: Link,
    now: u64,
    r: Result<Option<Delivery>, Fault>,
)
    requires
        old(driver).inv(link),
        call_ensures(Driver::deliver::<C>, (driver, codec, &link, now), r),
        old(driver).pending@.len() == 0,
        old(driver).hybrid != Some(true),
        old(driver).session@.incoming.len() > 0,
        reads_as_input(codec, old(driver).session@.incoming[0].1),
    ensures
        ({
            let incoming = old(driver).session@.incoming;
            let (sequence, bytes) = incoming[0];
            &&& r matches Ok(Some(delivery))
            &&& handed(delivery, bytes, sequence, *old(driver), link, now)
            &&& final(driver).session@.incoming == incoming.skip(1)
            &&& final(driver).pending@.len() == 0
            &&& final(driver).receiver == old(driver).receiver
            &&& final(driver).session@.consumed == old(driver).session@.consumed
            &&& final(driver).session@.received == old(driver).session@.received
        }),
{
    let s = old(driver).session@;
    assert(s.incoming.subrange(1, s.incoming.len() as int) =~= s.incoming.skip(1));
}

/// What waits to be handed out is handed out first in, first out. On a recoverable connection each
/// delivery has a receipt; that of motion has no number.
pub proof fn law_waiting_deliveries_go_first<C: Codec>(
    driver: &mut Driver,
    codec: &C,
    link: Link,
    now: u64,
    r: Result<Option<Delivery>, Fault>,
)
    requires
        old(driver).inv(link),
        call_ensures(Driver::deliver::<C>, (driver, codec, &link, now), r),
        old(driver).pending@.len() > 0,
    ensures
        ({
            let first = old(driver).pending@[0];
            &&& r matches Ok(Some(delivery))
            &&& delivery.bytes == first.bytes
            &&& first.receipt is Some ==> delivery.receipt == first.receipt
            &&& first.receipt is None && !link.enabled ==> delivery.receipt is None
            &&& first.receipt is None && link.enabled ==> delivery.receipt is Some
                && delivery.receipt->0.sequence == 0 && delivery.receipt->0.generation
                == link.generation
            &&& final(driver).pending@ == old(driver).pending@.skip(1)
            &&& final(driver).session == old(driver).session
            &&& final(driver).receiver == old(driver).receiver
        }),
{
    let p = old(driver).pending@;
    assert(p.subrange(1, p.len() as int) =~= p.skip(1));
}

/// With motion by datagram, the next message is a checkpoint. If it depends on what was delivered, the
/// application gets the motion that it brings, if that is news, and then its event with the receipt.
pub proof fn law_checkpoints_deliver_their_event<C: Codec>(
    driver: &mut Driver,
    codec: &C,
    link: Link,
    now: u64,
    frame: motion::FrameView,
    r: Result<Option<Delivery>, Fault>,
)
    requires
        old(driver).inv(link),
        call_ensures(Driver::deliver::<C>, (driver, codec, &link, now), r),
        old(driver).pending@.len() == 0,
        old(driver).hybrid == Some(true),
        old(driver).session@.incoming.len() > 0,
        ({
            let (sequence, bytes) = old(driver).session@.incoming[0];
            &&& forall|part: Vec<u8>, inner: Decoded|
                part@ == motion::embedded(bytes) && #[trigger] call_ensures(
                    C::fixed,
                    (codec, &part),
                    inner,
                ) ==> motion::parse(bytes, true, old(driver).event_limit, inner) == Ok::<
                    motion::FrameView,
                    Fault,
                >(frame)
            &&& frame.dependency == old(driver).receiver.reliable
            &&& sequence == frame.dependency + 1
            &&& frame.sequence <= old(driver).receiver.sequence
            &&& reads_as_input(codec, frame.critical)
        }),
    ensures
        ({
            let (sequence, bytes) = old(driver).session@.incoming[0];
            &&& r matches Ok(Some(delivery))
            &&& handed(delivery, frame.critical, sequence, *old(driver), link, now)
            &&& final(driver).session@.incoming == old(driver).session@.incoming.skip(1)
            &&& final(driver).pending@.len() == 0
            &&& final(driver).receiver.reliable == sequence
            &&& final(driver).receiver.x == old(driver).receiver.x
            &&& final(driver).receiver.y == old(driver).receiver.y
            &&& final(driver).receiver.sequence == old(driver).receiver.sequence
        }),
{
    let s = old(driver).session@;
    assert(s.incoming.subrange(1, s.incoming.len() as int) =~= s.incoming.skip(1));
}

/// Whether the codec takes the difference of these totals as finite, whatever it returns.
pub open spec fn differs_finitely<C: Codec>(codec: &C, a: u64, b: u64) -> bool {
    forall|d: u64| #[trigger] call_ensures(C::minus, (codec, a, b), d) ==> finite(d)
}

/// A checkpoint whose motion is news delivers the distance from what was delivered before to its own
/// totals first, and its event with the receipt next.
pub proof fn law_checkpoints_deliver_their_motion_first<C: Codec>(
    driver: &mut Driver,
    codec: &C,
    link: Link,
    now: u64,
    frame: motion::FrameView,
    dx: u64,
    dy: u64,
    r: Result<Option<Delivery>, Fault>,
)
    requires
        old(driver).inv(link),
        call_ensures(Driver::deliver::<C>, (driver, codec, &link, now), r),
        old(driver).pending@.len() == 0,
        old(driver).hybrid == Some(true),
        old(driver).session@.incoming.len() > 0,
        ({
            let (sequence, bytes) = old(driver).session@.incoming[0];
            &&& forall|part: Vec<u8>, inner: Decoded|
                part@ == motion::embedded(bytes) && #[trigger] call_ensures(
                    C::fixed,
                    (codec, &part),
                    inner,
                ) ==> motion::parse(bytes, true, old(driver).event_limit, inner) == Ok::<
                    motion::FrameView,
                    Fault,
                >(frame)
            &&& frame.dependency == old(driver).receiver.reliable
            &&& sequence == frame.dependency + 1
            &&& frame.sequence > old(driver).receiver.sequence
            &&& frame.event == Decoded::Motion { dx, dy }
            &&& differs_finitely(codec, dx, old(driver).receiver.x)
            &&& differs_finitely(codec, dy, old(driver).receiver.y)
            &&& reads_as_input(codec, frame.critical)
        }),
    ensures
        ({
            let (sequence, bytes) = old(driver).session@.incoming[0];
            &&& r matches Ok(Some(delivery))
            &&& moves_by(codec, delivery.bytes, frame.motion, (old(driver).receiver.x, old(driver).receiver.y), (
                dx,
                dy,
            ))
            &&& final(driver).pending@.len() == 1
            &&& handed(final(driver).pending@[0], frame.critical, sequence, *old(driver), link, now)
            &&& final(driver).session@.incoming == old(driver).session@.incoming.skip(1)
            &&& final(driver).receiver.reliable == sequence
            &&& final(driver).receiver.x == dx
            &&& final(driver).receiver.y == dy
            &&& final(driver).receiver.sequence == frame.sequence
        }),
{
    let s = old(driver).session@;
    assert(s.incoming.subrange(1, s.incoming.len() as int) =~= s.incoming.skip(1));
}

/// Whether these bytes are the motion event `event` with the distance between two totals in place of
/// its own.
pub open spec fn moves_by<C: Codec>(
    codec: &C,
    bytes: Vec<u8>,
    event: Seq<u8>,
    from: (u64, u64),
    to: (u64, u64),
) -> bool {
    exists|original: Vec<u8>, x: u64, y: u64|
        {
            &&& original@ == event
            &&& call_ensures(C::minus, (codec, to.0, from.0), x)
            &&& call_ensures(C::minus, (codec, to.1, from.1), y)
            &&& #[trigger] call_ensures(C::moved, (codec, &original, x, y), bytes)
        }
}

/// Once every reliable event that a waiting sample depends on was delivered and none waits, the
/// application gets the distance from what was delivered before to the sample's totals.
pub proof fn law_samples_are_delivered<C: Codec>(
    driver: &mut Driver,
    codec: &C,
    link: Link,
    now: u64,
    sample: motion::Frame,
    dx: u64,
    dy: u64,
    r: Result<Option<Delivery>, Fault>,
)
    requires
        old(driver).inv(link),
        call_ensures(Driver::deliver::<C>, (driver, codec, &link, now), r),
        old(driver).pending@.len() == 0,
        old(driver).session@.incoming.len() == 0,
        old(driver).receiver.pending == Some(sample),
        sample.dependency == old(driver).receiver.reliable,
        sample.sequence > old(driver).receiver.sequence,
        sample.event == (Decoded::Motion { dx, dy }),
        differs_finitely(codec, dx, old(driver).receiver.x),
        differs_finitely(codec, dy, old(driver).receiver.y),
    ensures
        r matches Ok(Some(delivery)) && moves_by(
            codec,
            delivery.bytes,
            sample.motion@,
            (old(driver).receiver.x, old(driver).receiver.y),
            (dx, dy),
        ),
        final(driver).receiver.x == dx,
        final(driver).receiver.y == dy,
        final(driver).receiver.sequence == sample.sequence,
        final(driver).receiver.reliable == old(driver).receiver.reliable,
        final(driver).receiver.pending is None,
        final(driver).pending@.len() == 0,
        final(driver).session@ == old(driver).session@,
{
}

/// Where nothing waits, nothing is handed out and nothing changes.
pub proof fn law_nothing_is_delivered_of_nothing<C: Codec>(
    driver: &mut Driver,
    codec: &C,
    link: Link,
    now: u64,
    r: Result<Option<Delivery>, Fault>,
)
    requires
        old(driver).inv(link),
        call_ensures(Driver::deliver::<C>, (driver, codec, &link, now), r),
        old(driver).pending@.len() == 0,
        old(driver).session@.incoming.len() == 0,
        old(driver).receiver.pending is Some ==> old(driver).receiver.pending->0.dependency > old(driver).receiver.reliable,
    ensures
        r == Ok::<Option<Delivery>, Fault>(None),
        final(driver).pending@.len() == 0,
        final(driver).session@ == old(driver).session@,
        final(driver).receiver == old(driver).receiver,
{
}

/// What is no event of the reliable channel ends the connection instead of being delivered.
pub proof fn law_misplaced_messages_are_refused<C: Codec>(
    driver: &mut Driver,
    codec: &C,
    link: Link,
    now: u64,
    r: Result<Option<Delivery>, Fault>,
)
    requires
        old(driver).inv(link),
        call_ensures(Driver::deliver::<C>, (driver, codec, &link, now), r),
        old(driver).pending@.len() == 0,
        old(driver).hybrid != Some(true),
        old(driver).session@.incoming.len() > 0,
        forall|whole: Vec<u8>, event: Decoded|
            whole@ == old(driver).session@.incoming[0].1 && #[trigger] call_ensures(
                C::any,
                (codec, &whole),
                event,
            ) ==> !(event is Motion || event is Other),
    ensures
        r is Err,
        final(driver).pending@.len() == 0,
{
}

/// The loop is told that there is something for the application exactly where the coordinator accepts
/// input and a delivery, a message or, on a ready session, a sample that may go waits.
pub proof fn law_deliveries_are_announced(d: Driver, now: u64, r: bool)
    requires
        d.runtime is Some ==> d.runtime->0@.well_formed(),
        call_ensures(Driver::wants_delivery, (&d, now), r),
    ensures
        r <==> (d.runtime is Some ==> d.runtime->0@.machine.receive_gate(now) is Some) && {
            ||| d.pending@.len() > 0
            ||| d.session@.incoming.len() > 0
            ||| d.session@.ready && !d.session@.closed && d.receiver.pending is Some
                && d.receiver.pending->0.dependency <= d.receiver.reliable
        },
{
}

/// Whether a packet is a motion datagram that stands for this sample in this connection.
pub open spec fn is_sample(d: Driver, bytes: Seq<u8>, inner: Decoded, frame: motion::FrameView) -> bool {
    &&& d.reliable == Some(true)
    &&& d.hybrid == Some(true)
    &&& bytes.len() > 0 && bytes[0] == MOTION_TAG
    &&& motion::parse(bytes, false, d.event_limit, inner) == Ok::<motion::FrameView, Fault>(frame)
}

/// Whether a sample is newer than every one seen and depends on no reliable event that is past.
pub open spec fn is_news(d: Driver, frame: motion::FrameView) -> bool {
    &&& frame.sequence > d.receiver.freshest
    &&& frame.sequence > d.receiver.sequence
    &&& frame.dependency >= d.receiver.reliable
    &&& frame.dependency >= d.receiver.freshest_dependency
}

/// A motion datagram that is news becomes the waiting sample, and proves to a ready session that the
/// peer lives. One that is none changes nothing.
pub proof fn law_fresh_motion_waits_to_be_delivered(
    driver: &mut Driver,
    bytes: Vec<u8>,
    event: Decoded,
    inner: Decoded,
    link: &mut Link,
    now: u64,
    frame: motion::FrameView,
    r: Result<Arrival, Fault>,
)
    requires
        old(driver).inv(*old(link)),
        call_ensures(Driver::receive, (driver, bytes, event, inner, link, now), r),
        old(driver).recovery_selected != Some(true),
        is_sample(*old(driver), bytes@, inner, frame),
    ensures
        r == Ok::<Arrival, Fault>(Arrival::Done),
        *final(link) == *old(link),
        final(driver).pending == old(driver).pending,
        final(driver).session@.incoming == old(driver).session@.incoming,
        is_news(*old(driver), frame) ==> {
            &&& final(driver).receiver.pending matches Some(sample)
            &&& sample@ == frame
            &&& final(driver).receiver.freshest == frame.sequence
            &&& final(driver).receiver.freshest_dependency == frame.dependency
            &&& final(driver).receiver.sequence == old(driver).receiver.sequence
            &&& final(driver).receiver.reliable == old(driver).receiver.reliable
            &&& final(driver).receiver.x == old(driver).receiver.x
            &&& final(driver).receiver.y == old(driver).receiver.y
            &&& old(driver).session@.ready && !old(driver).session@.closed
                ==> final(driver).session@.last_peer == now && final(driver).session@.peer_sent
                >= frame.dependency
        },
        !is_news(*old(driver), frame) ==> *final(driver) == *old(driver),
{
}

/// A motion datagram that arrives when nothing else waits, is news and depends on what was delivered,
/// moves the pointer: the next delivery is its distance.
pub proof fn law_motion_moves_the_pointer<C: Codec>(
    driver: &mut Driver,
    bytes: Vec<u8>,
    event: Decoded,
    inner: Decoded,
    link: &mut Link,
    now: u64,
    frame: motion::FrameView,
    arrival: Result<Arrival, Fault>,
    after: &mut Driver,
    codec: &C,
    later: u64,
    dx: u64,
    dy: u64,
    r: Result<Option<Delivery>, Fault>,
)
    requires
        old(driver).inv(*old(link)),
        call_ensures(Driver::receive, (driver, bytes, event, inner, link, now), arrival),
        old(driver).recovery_selected != Some(true),
        is_sample(*old(driver), bytes@, inner, frame),
        is_news(*old(driver), frame),
        frame.dependency == old(driver).receiver.reliable,
        frame.event == (Decoded::Motion { dx, dy }),
        old(driver).pending@.len() == 0,
        old(driver).session@.incoming.len() == 0,
        *old(after) == *final(driver),
        call_ensures(Driver::deliver::<C>, (after, codec, &*final(link), later), r),
        differs_finitely(codec, dx, old(driver).receiver.x),
        differs_finitely(codec, dy, old(driver).receiver.y),
    ensures
        r matches Ok(Some(delivery)) && moves_by(
            codec,
            delivery.bytes,
            frame.motion,
            (old(driver).receiver.x, old(driver).receiver.y),
            (dx, dy),
        ),
        final(after).receiver.x == dx,
        final(after).receiver.y == dy,
{
    law_fresh_motion_waits_to_be_delivered(
        driver,
        bytes,
        event,
        inner,
        link,
        now,
        frame,
        arrival,
    );
    let sample = final(driver).receiver.pending->0;
    law_samples_are_delivered(after, codec, *final(link), later, sample, dx, dy, r);
}

/// Motion and frames of the session that were not agreed on end the connection.
pub proof fn law_packets_need_an_agreement(
    driver: &mut Driver,
    bytes: Vec<u8>,
    event: Decoded,
    inner: Decoded,
    link: &mut Link,
    now: u64,
    r: Result<Arrival, Fault>,
)
    requires
        old(driver).inv(*old(link)),
        call_ensures(Driver::receive, (driver, bytes, event, inner, link, now), r),
        bytes@.len() > 0,
    ensures
        bytes@[0] == MOTION_TAG && (old(driver).reliable != Some(true) || old(driver).hybrid
            != Some(true)) ==> r is Err,
        bytes@[0] == frame::TAG && old(driver).reliable != Some(true) ==> r is Err,
        bytes@[0] == protocol::TAG && old(driver).recovery_selected != Some(true) ==> r == Err::<
            Arrival,
            Fault,
        >(Fault::Unnegotiated),
        (bytes@[0] == MOTION_TAG || bytes@[0] == frame::TAG) && old(driver).recovery_selected
            == Some(true) ==> r == Err::<Arrival, Fault>(Fault::Unscoped),
{
}

/// Whether a packet is none of the transport's own.
pub open spec fn is_plain(bytes: Seq<u8>) -> bool {
    bytes.len() == 0 || (bytes[0] != MOTION_TAG && bytes[0] != frame::TAG && bytes[0] != protocol::TAG)
}

/// Over a legacy connection the application gets every event as it came. Over any other it gets what
/// bypasses the reliable channel, and other input outside that channel ends the connection. What is no
/// event is ignored.
pub proof fn law_plain_events_are_delivered(
    driver: &mut Driver,
    bytes: Vec<u8>,
    event: Decoded,
    inner: Decoded,
    link: &mut Link,
    now: u64,
    r: Result<Arrival, Fault>,
)
    requires
        old(driver).inv(*old(link)),
        call_ensures(Driver::receive, (driver, bytes, event, inner, link, now), r),
        is_plain(bytes@),
    ensures
        (event is Motion || event is Other) && old(driver).reliable == Some(false) || event is Clipboard
            ==> r == Ok::<Arrival, Fault>(Arrival::Deliver(Delivery { bytes, receipt: None })),
        (event is Motion || event is Other) && old(driver).reliable != Some(false) ==> r is Err,
        event is Malformed ==> r == Ok::<Arrival, Fault>(Arrival::Ignored),
        event is Motion || event is Other || event is Clipboard || event is Malformed
            ==> *final(driver) == *old(driver) && *final(link) == *old(link),
        (event is Heartbeat || event is Hello) && r is Ok ==> r == Ok::<Arrival, Fault>(
            Arrival::Deliver(Delivery { bytes, receipt: None }),
        ),
{
}

/// A liveness probe renews the peer's liveness on a ready session and no deadline of its input.
pub proof fn law_heartbeats_prove_life(
    driver: &mut Driver,
    bytes: Vec<u8>,
    event: Decoded,
    inner: Decoded,
    link: &mut Link,
    now: u64,
    r: Result<Arrival, Fault>,
)
    requires
        old(driver).inv(*old(link)),
        call_ensures(Driver::receive, (driver, bytes, event, inner, link, now), r),
        is_plain(bytes@),
        event is Heartbeat,
    ensures
        ({
            let (s, n) = (old(driver).session@, final(driver).session@);
            &&& s.ready && !s.closed ==> n.last_peer == now
            &&& n.acknowledgement_since == s.acknowledgement_since
            &&& n.consuming == s.consuming
            &&& n.gap_since == s.gap_since
            &&& n.outstanding == s.outstanding
            &&& n.incoming == s.incoming
            &&& n.ready == s.ready
            &&& n.closed == s.closed
        }),
        old(driver).runtime is None ==> r is Ok && *final(link) == *old(link),
        ({
            let m = old(driver).runtime->0@.machine;
            old(driver).runtime is Some && m.state == State::Normal && m.epoch == old(driver).runtime->0@.resumed && m.last_now <= now < m.last_peer + m.peer_ms ==> r is Ok
                && final(driver).runtime->0@.machine.last_peer == now
        }),
{
}

/// A frame of the session reaches the session as it is, and what the session says of it decides; while
/// a probe waits, a message that arrives with it ends the connection.
pub proof fn law_frames_reach_the_session(
    driver: &mut Driver,
    bytes: Vec<u8>,
    event: Decoded,
    inner: Decoded,
    link: &mut Link,
    now: u64,
    before: Channel,
    r: Result<Arrival, Fault>,
)
    requires
        old(driver).inv(*old(link)),
        call_ensures(Driver::receive, (driver, bytes, event, inner, link, now), r),
        before == (Channel { now, ..old(driver).session@ }),
        bytes@.len() > 0 && bytes@[0] == frame::TAG,
        old(driver).reliable == Some(true),
        old(driver).recovery_selected != Some(true),
    ensures
        *final(link) == *old(link),
        final(driver).receiver == old(driver).receiver,
        final(driver).pending == old(driver).pending,
        exists|taken: Result<(), Fault>|
            {
                &&& #[trigger] before.takes(bytes@, taken, final(driver).session@)
                &&& taken is Err ==> r is Err
                &&& taken is Ok && old(driver).pending_probe is None ==> r == Ok::<Arrival, Fault>(
                    Arrival::Done,
                )
            },
{
}

/// An acceptor takes the transport that the greeting asks for, once: KCP exactly if it is requested.
/// With KCP, motion goes by datagram exactly if the greeting offers it, and input can recover exactly if
/// both ends want to.
pub proof fn law_greetings_select_the_transport(
    driver: &mut Driver,
    native: bool,
    capabilities: u32,
    identity: Option<[u8; 16]>,
    link: &mut Link,
    now: u64,
    r: Result<(), Fault>,
)
    requires
        old(driver).inv(*old(link)),
        call_ensures(Driver::greet, (driver, native, capabilities, identity, link, now), r),
    ensures
        !native ==> r is Err && *final(driver) == *old(driver) && *final(link) == *old(link),
        r is Ok ==> native && {
            &&& final(driver).reliable == (if old(driver).dialer {
                Some(true)
            } else {
                Some(capabilities & 8 != 0)
            })
            &&& final(driver).reliable == Some(true) ==> {
                &&& final(driver).hybrid == Some(capabilities & 32 != 0)
                &&& final(driver).recovery_selected == Some(
                    old(driver).recoverable && capabilities & 64 != 0,
                )
                &&& capabilities & 4 != 0
                &&& final(driver).session@.hello
            }
        },
        native && !old(driver).dialer && old(driver).reliable is None && capabilities & 8 == 0
            ==> r is Ok && final(driver).reliable == Some(false),
        native && !old(driver).dialer && old(driver).reliable is None && capabilities & 8 != 0
            && capabilities & 4 != 0 && old(driver).recovery_selected is None && old(driver).hybrid is None && !old(driver).session@.closed && !old(driver).session@.dialer ==> r is Ok,
        old(driver).reliable is Some && !old(driver).dialer && old(driver).reliable != Some(
            capabilities & 8 != 0,
        ) ==> r is Err,
{
}

/// A dialer that can recover, and hears that its peer can, starts to coordinate: the link is enabled, and
/// its first generation is that of the identity drawn.
pub proof fn law_dialers_start_to_coordinate(
    driver: &mut Driver,
    capabilities: u32,
    identity: [u8; 16],
    link: &mut Link,
    now: u64,
    r: Result<(), Fault>,
)
    requires
        old(driver).inv(*old(link)),
        call_ensures(
            Driver::greet,
            (driver, true, capabilities, Some(identity), link, now),
            r,
        ),
        old(driver).dialer,
        old(driver).recoverable,
        old(driver).runtime is None,
        old(driver).recovery_selected != Some(false),
        capabilities & 64 != 0,
        exists|i: int| 0 <= i < 16 && identity@[i] != 0,
        1 <= old(driver).timeouts.peer@ <= 60000,
    ensures
        final(driver).runtime is Some,
        final(link).enabled,
        final(link).frozen == old(link).frozen,
        final(link).generation matches Some(g) && g.session == identity && g.epoch == 0 && g.active,
        ({
            let m = final(driver).runtime->0@.machine;
            &&& m.role == Role::Dialer
            &&& m.session == identity
            &&& m.epoch == 0
            &&& m.state == State::Normal
            &&& m.peer_ms == old(driver).timeouts.peer@
        }),
{
    let i = choose|i: int| 0 <= i < 16 && identity@[i] != 0;
    assert(!blank(identity@));
    let (s, l) = (*old(driver), *old(link));
    assert(s.needs_identity(capabilities));
    assert(s.greets(true, capabilities, Some(identity), l, now, r, *final(driver), *final(link)));
    assert(s.selects(capabilities) == Some(true));
    assert(s.recoverable && capabilities & crate::protocol::CAP_INPUT_RECOVERY_V1 != 0);
    assert(s.recovery_selected is Some ==> s.recovery_selected == Some(true));
    let motion = capabilities & 32 != 0;
    let s2 = Driver { recovery_selected: Some(true), ..s };
    assert(s2 == Driver { recovery_selected: Some(true), ..Driver { reliable: s.reliable, ..s } });
    let made = choose|made: Result<Runtime, Fault>|
        {
            &&& #[trigger] Conduct::starts(
                identity,
                Role::Dialer,
                s.timeouts.peer@,
                now,
                l,
                made,
                *final(link),
            )
            &&& match made {
                Err(fault) => r == Err::<(), Fault>(fault) && *final(driver) == s2,
                Ok(runtime) => (Driver { runtime: Some(runtime), ..s2 }).selects_motion(
                    motion,
                    capabilities,
                    now,
                    r,
                    *final(driver),
                ),
            }
        };
    assert(made is Ok);
}

/// What the application sends as input reaches the session: on a ready connection without datagrams that
/// has room, the session numbers it and keeps it as outstanding, and its engine gets it to send.
pub proof fn law_input_is_sent_reliably<C: Codec>(
    driver: &mut Driver,
    codec: &C,
    event: Decoded,
    bytes: Vec<u8>,
    generation: Option<Generation>,
    link: Link,
    now: u64,
    over: bool,
    r: Result<Taken, Fault>,
)
    requires
        old(driver).inv(link),
        call_ensures(
            Driver::command::<C>,
            (driver, codec, event, bytes, &generation, &link, now),
            r,
        ),
        call_ensures(is_outdated, (&generation, &link, now), over),
        event is Motion || event is Other,
        !link.frozen,
        !over,
        old(driver).reliable == Some(true),
        old(driver).hybrid != Some(true),
        can_carry(*old(driver), bytes@.len()),
    ensures
        r == Ok::<Taken, Fault>(Taken::Done),
        ({
            let (s, n) = (old(driver).session@, final(driver).session@);
            &&& n.sent == s.sent + 1
            &&& n.outstanding == s.outstanding.push((n.sent, now))
            &&& n.waiting.len() > s.waiting.len()
            &&& n.waiting.flatten() == s.waiting.flatten() + (le64(n.sent) + bytes@)
            &&& n.ready && !n.closed
            &&& s.outstanding.len() == 0 ==> n.acknowledgement_since == Some(now)
            &&& s.outstanding.len() > 0 ==> n.acknowledgement_since == s.acknowledgement_since
            &&& n.incoming == s.incoming
        }),
        final(driver).direct_output == old(driver).direct_output,
        final(driver).sender == old(driver).sender,
{
    let s = old(driver).session@;
    let message = le64((s.sent + 1) as u64) + bytes@;
    let parts = pieces(message, (MTU - HEADER) as nat);
    law_segments_join_to_the_message(message, (MTU - HEADER) as nat);
    lemma_few(message);
    assert((s.waiting + parts).flatten() == s.waiting.flatten() + parts.flatten()) by {
        lemma_flatten_joins(s.waiting, parts);
    }
}

/// The parts of two lists put together are the parts of each put together.
proof fn lemma_flatten_joins(a: Seq<Seq<u8>>, b: Seq<Seq<u8>>)
    ensures
        (a + b).flatten() == a.flatten() + b.flatten(),
    decreases a.len(),
{
    if a.len() == 0 {
        assert(a + b =~= b);
        assert(a.flatten() =~= Seq::empty());
    } else {
        assert((a + b).drop_first() =~= a.drop_first() + b);
        lemma_flatten_joins(a.drop_first(), b);
        assert((a + b).flatten() =~= a.flatten() + b.flatten());
    }
}

/// A message has no more segments than it takes to hold it, or one.
proof fn lemma_few(message: Seq<u8>)
    ensures
        pieces(message, (MTU - HEADER) as nat).len() * 1076 <= message.len() + 1076,
    decreases message.len(),
{
    if message.len() > MTU - HEADER {
        lemma_few(message.subrange(MTU - HEADER, message.len() as int));
    }
}

/// Whether the session of a driver can take one more message of so many bytes.
pub open spec fn can_carry(d: Driver, length: nat) -> bool {
    let s = d.session@;
    &&& s.ready && !s.closed && s.running
    &&& length + 8 <= s.limit && length + 8 <= 0x1_0000
    &&& s.outstanding.len() < 64
    &&& s.waiting.len() < 64
    &&& s.sent < u64::MAX
    &&& s.segments < 0x7000_0000
}

/// What bypasses the reliable channel leaves at once as it is, whatever the state of the connection; of
/// a greeting the codec replaces the capabilities.
pub proof fn law_direct_events_leave_at_once<C: Codec>(
    driver: &mut Driver,
    codec: &C,
    event: Decoded,
    bytes: Vec<u8>,
    generation: Option<Generation>,
    link: Link,
    now: u64,
    r: Result<Taken, Fault>,
)
    requires
        old(driver).inv(link),
        call_ensures(
            Driver::command::<C>,
            (driver, codec, event, bytes, &generation, &link, now),
            r,
        ),
        event is Heartbeat || event is Clipboard || event is Hello,
    ensures
        r == Ok::<Taken, Fault>(Taken::Done),
        final(driver).direct_output matches Some(packet) && {
            &&& event is Heartbeat || event is Clipboard ==> packet.bytes == bytes
            &&& packet.generation is None
            &&& now + 60000 <= u64::MAX && old(driver).timeouts.stall@ <= 60000 ==> packet.deadline
                == now + (if old(driver).reliable == Some(true) {
                old(driver).timeouts.stall@
            } else {
                300
            })
            &&& event matches Decoded::Hello { capabilities, .. } ==> exists|offered: u32|
                {
                    &&& #[trigger] call_ensures(C::greeting, (codec, &bytes, offered), packet.bytes)
                    &&& offered & 4 != 0
                    &&& offered & 32 != 0
                    &&& offered & 64 != 0 <==> old(driver).recoverable
                    &&& offered & 8 != 0 <==> old(driver).dialer || capabilities & 8 != 0
                }
        },
        final(driver).session == old(driver).session,
        final(driver).sender == old(driver).sender,
{
    if let Decoded::Hello { capabilities, .. } = event {
        law_greetings_offer_what_is_supported(
            capabilities,
            old(driver).dialer,
            old(driver).recoverable,
        );
        let offered = crate::driver::advertised(
            capabilities,
            old(driver).dialer,
            old(driver).recoverable,
        );
        assert(call_ensures(
            C::greeting,
            (codec, &bytes, offered),
            final(driver).direct_output->0.bytes,
        ));
    }
}

/// Input is dropped during a recovery and when its generation is over, and over a legacy connection it
/// leaves at once as it is; what is no event is refused.
pub proof fn law_input_waits_for_no_recovery<C: Codec>(
    driver: &mut Driver,
    codec: &C,
    event: Decoded,
    bytes: Vec<u8>,
    generation: Option<Generation>,
    link: Link,
    now: u64,
    over: bool,
    r: Result<Taken, Fault>,
)
    requires
        old(driver).inv(link),
        call_ensures(
            Driver::command::<C>,
            (driver, codec, event, bytes, &generation, &link, now),
            r,
        ),
        call_ensures(is_outdated, (&generation, &link, now), over),
    ensures
        event is Malformed ==> r is Err && *final(driver) == *old(driver),
        (event is Motion || event is Other) && (link.frozen || over) ==> r == Ok::<Taken, Fault>(
            Taken::Ignored,
        ) && *final(driver) == *old(driver),
        (event is Motion || event is Other) && !link.frozen && !over && old(driver).reliable == Some(
            false,
        ) ==> {
            &&& r == Ok::<Taken, Fault>(Taken::Done)
            &&& final(driver).direct_output matches Some(packet)
            &&& packet.bytes == bytes
            &&& now + 300 <= u64::MAX ==> packet.deadline == now + 300
            &&& final(driver).session == old(driver).session
        },
{
}

/// With motion by datagram, motion goes to the writer's motion slot and not to the session: the packet is
/// the envelope of the new totals, with the next number, and depends on the reliable events sent.
pub proof fn law_motion_leaves_by_datagram<C: Codec>(
    driver: &mut Driver,
    codec: &C,
    dx: u64,
    dy: u64,
    bytes: Vec<u8>,
    generation: Option<Generation>,
    link: Link,
    now: u64,
    over: bool,
    r: Result<Taken, Fault>,
)
    requires
        old(driver).inv(link),
        call_ensures(
            Driver::command::<C>,
            (driver, codec, Decoded::Motion { dx, dy }, bytes, &generation, &link, now),
            r,
        ),
        call_ensures(is_outdated, (&generation, &link, now), over),
        !link.frozen,
        !over,
        old(driver).reliable == Some(true),
        old(driver).hybrid == Some(true),
        old(driver).runtime is None,
        old(driver).sender.sequence < u64::MAX,
        sums_finitely(codec, old(driver).sender.x, dx),
        sums_finitely(codec, old(driver).sender.y, dy),
    ensures
        r matches Ok(Taken::Motion(packet)) && {
            let (s, n) = (old(driver).sender, final(driver).sender);
            &&& call_ensures(C::plus, (codec, s.x, dx), n.x)
            &&& call_ensures(C::plus, (codec, s.y, dy), n.y)
            &&& n.sequence == s.sequence + 1
            &&& n.reliable == s.reliable
            &&& call_ensures(C::moved, (codec, &bytes, n.x, n.y), n.last)
            &&& packet.bytes@ == seq![241u8, 1u8, 0u8] + le64(s.reliable) + le64(n.sequence) + seq![
                n.last@.len() as u8,
            ] + n.last@
            &&& packet.generation == link.generation
            &&& now + old(driver).timeouts.stall@ <= u64::MAX ==> packet.deadline == now + old(driver).timeouts.stall@
        },
        final(driver).session == old(driver).session,
        final(driver).direct_output == old(driver).direct_output,
{
    if let Ok(Taken::Motion(packet)) = r {
        let (s, n) = (old(driver).sender, final(driver).sender);
        assert(packet.bytes@ =~= seq![241u8, 1u8, 0u8] + le64(s.reliable) + le64(n.sequence) + seq![
            n.last@.len() as u8,
        ] + n.last@);
    }
}

/// Whether the codec takes the sum of these numbers as finite, whatever it returns.
pub open spec fn sums_finitely<C: Codec>(codec: &C, a: u64, b: u64) -> bool {
    forall|d: u64| #[trigger] call_ensures(C::plus, (codec, a, b), d) ==> finite(d)
}

/// With motion by datagram, any other input is a checkpoint: the session sends it with the latest
/// totals, and every motion after it depends on it.
pub proof fn law_other_input_is_a_checkpoint<C: Codec>(
    driver: &mut Driver,
    codec: &C,
    bytes: Vec<u8>,
    generation: Option<Generation>,
    link: Link,
    now: u64,
    over: bool,
    r: Result<Taken, Fault>,
)
    requires
        old(driver).inv(link),
        call_ensures(
            Driver::command::<C>,
            (driver, codec, Decoded::Other, bytes, &generation, &link, now),
            r,
        ),
        call_ensures(is_outdated, (&generation, &link, now), over),
        !link.frozen,
        !over,
        bytes@.len() > 0,
        old(driver).reliable == Some(true),
        old(driver).hybrid == Some(true),
        old(driver).sender.reliable < u64::MAX,
        can_carry(*old(driver), 20 + old(driver).sender.last@.len() + bytes@.len()),
    ensures
        r == Ok::<Taken, Fault>(Taken::Done),
        final(driver).sender.reliable == old(driver).sender.reliable + 1,
        final(driver).sender.sequence == old(driver).sender.sequence,
        final(driver).sender.last == old(driver).sender.last,
        final(driver).sender.x == old(driver).sender.x,
        final(driver).sender.y == old(driver).sender.y,
        ({
            let (s, n) = (old(driver).session@, final(driver).session@);
            let tx = old(driver).sender;
            &&& n.sent == s.sent + 1
            &&& n.outstanding == s.outstanding.push((n.sent, now))
            &&& n.waiting.flatten() == s.waiting.flatten() + (le64(n.sent) + (seq![241u8, 1u8, 1u8]
                + le64(tx.reliable) + le64(tx.sequence) + seq![tx.last@.len() as u8] + tx.last@
                + bytes@))
        }),
{
    let s = old(driver).session@;
    let tx = old(driver).sender;
    let content = seq![241u8, 1u8, 1u8] + le64(tx.reliable) + le64(tx.sequence) + seq![
        tx.last@.len() as u8,
    ] + tx.last@ + bytes@;
    let frame = motion::FrameView {
        dependency: tx.reliable,
        sequence: tx.sequence,
        motion: tx.last@,
        event: Decoded::Other,
        critical: bytes@,
    };
    assert(frame.wire() =~= content);
    let message = le64((s.sent + 1) as u64) + content;
    let parts = pieces(message, (MTU - HEADER) as nat);
    law_segments_join_to_the_message(message, (MTU - HEADER) as nat);
    lemma_few(message);
    assert((s.waiting + parts).flatten() == s.waiting.flatten() + parts.flatten()) by {
        lemma_flatten_joins(s.waiting, parts);
    }
}

/// What leaves next is what bypasses the reliable channel, and else the older one of the session's first
/// frame and its engine's first datagram, as it is; it leaves its queue with that, and nothing else does.
pub proof fn law_output_leaves_in_order(
    driver: &mut Driver,
    link: Link,
    now: u64,
    r: Result<Option<WirePacket>, Fault>,
)
    requires
        old(driver).inv(link),
        call_ensures(Driver::next_output, (driver, &link, now), r),
    ensures
        old(driver).direct_output is Some ==> r == Ok::<Option<WirePacket>, Fault>(
            old(driver).direct_output,
        ) && final(driver).direct_output is None && final(driver).session == old(driver).session,
        old(driver).direct_output is None && old(driver).runtime is None ==> {
            let (s, n) = (old(driver).session@, final(driver).session@);
            &&& s.wire.len() + s.output.len() == 0 ==> r == Ok::<Option<WirePacket>, Fault>(None)
            &&& s.wire.len() + s.output.len() > 0 ==> {
                &&& r matches Ok(Some(packet))
                &&& packet.generation == link.generation
                &&& n.wire.len() + n.output.len() == s.wire.len() + s.output.len() - 1
                &&& n.wire.len() < s.wire.len() ==> packet.bytes@ == s.wire[0].1 && n.wire
                    == s.wire.skip(1) && n.output == s.output && (s.output.len() > 0 ==> s.wire[0].0
                    <= s.output[0].0)
                &&& n.output.len() < s.output.len() ==> packet.bytes@ == (FrameView::Data {
                    id: s.id,
                    payload: s.output[0].1,
                }).wire() && n.output == s.output.skip(1) && n.wire == s.wire && (s.wire.len() > 0
                    ==> s.output[0].0 < s.wire[0].0)
            }
        },
        final(driver).pending == old(driver).pending,
        final(driver).receiver == old(driver).receiver,
{
    let s = old(driver).session@;
    if s.wire.len() > 0 {
        assert(s.wire.subrange(1, s.wire.len() as int) =~= s.wire.skip(1));
    }
    if s.output.len() > 0 {
        assert(s.output.subrange(1, s.output.len() as int) =~= s.output.skip(1));
    }
}

/// The loop is told exactly when there is something to write that may leave, when the application may be
/// heard, and when the peer may.
pub proof fn law_the_loop_is_told(d: Driver, link: Link, now: u64, out: bool, heard: bool, peer: bool)
    requires
        d.runtime is Some ==> d.runtime->0@.well_formed(),
        call_ensures(Driver::wants_output, (&d, now), out),
        call_ensures(Driver::accepts_command, (&d, &link), heard),
        call_ensures(Driver::accepts_packet, (&d,), peer),
    ensures
        d.direct_output is Some ==> out && !heard,
        d.direct_output is None ==> (out <==> d.session@.wire.len() + d.session@.output.len() > 0 && (
        d.pending_probe is Some || d.runtime is None || d.runtime->0@.machine.receive_gate(
            now,
        ) is Some)),
        d.direct_output is None && (link.frozen || d.reliable != Some(true)) ==> heard,
        d.direct_output is None && !link.frozen && d.reliable == Some(true) && d.session@.ready
            && !d.session@.closed ==> (heard <==> d.session@.running && d.session@.outstanding.len()
            < 64 && d.session@.waiting.len() < 64),
        d.runtime is Some ==> peer,
        d.runtime is None ==> (peer <==> d.session@.wire.len() < 64 && d.session@.output.len() <= 67),
{
}

/// Consumption of a message counts once and in order, and not at all if its generation is over.
pub proof fn law_consumption_counts_in_order(
    driver: &mut Driver,
    sequence: u64,
    generation: Option<Generation>,
    link: Link,
    now: u64,
    over: bool,
    r: Result<(), Fault>,
)
    requires
        old(driver).inv(link),
        call_ensures(Driver::completed, (driver, sequence, &generation, &link, now), r),
        call_ensures(is_outdated, (&generation, &link, now), over),
    ensures
        over ==> r is Ok && final(driver).session == old(driver).session,
        !over && !old(driver).session@.closed ==> {
            let (s, n) = (old(driver).session@, final(driver).session@);
            &&& r is Ok <==> sequence == s.consumed + 1 && sequence <= s.received
            &&& r is Ok ==> n.consumed == sequence && n.consuming == s.consuming.skip(1)
                && n.incoming == s.incoming && n.ready == s.ready
            &&& r is Err ==> n.closed
        },
        !over && old(driver).session@.closed ==> r is Err,
        final(driver).pending == old(driver).pending,
{
    let s = old(driver).session@;
    if s.consuming.len() > 0 {
        assert(s.consuming.subrange(1, s.consuming.len() as int) =~= s.consuming.skip(1));
    }
}

/// A packet outside the session that waits for the writer past its deadline calls for a recovery on a
/// recoverable connection, and ends any other. Else the connection shows what it is.
pub proof fn law_turns_conclude(
    driver: &mut Driver,
    link: &mut Link,
    now: u64,
    r: Result<Option<Status>, Fault>,
)
    requires
        old(driver).inv(*old(link)),
        call_ensures(Driver::conclude, (driver, link, now), r),
    ensures
        ({
            let d = *old(driver);
            let late = d.direct_output matches Some(packet) && now >= packet.deadline;
            &&& late && !old(link).enabled <==> r is Err
            &&& r is Err ==> r == Err::<Option<Status>, Fault>(Fault::OutputStalled)
            &&& late && old(link).enabled ==> final(link).frozen && (final(link).stalled
                || old(link).frozen) && final(driver).direct_output is None
            &&& !late ==> *final(link) == *old(link) && *final(driver) == d
            &&& final(driver).session == d.session
            &&& r matches Ok(shown) ==> {
                let usable = d.reliable == Some(false) || (d.session@.ready && !d.session@.closed) || (
                old(link).frozen && old(link).enabled);
                &&& shown is Some <==> usable
                &&& usable && old(link).frozen ==> shown == Some(Status::Recovering)
                &&& usable && !old(link).frozen && d.reliable == Some(false) ==> shown == Some(
                    Status::Legacy,
                )
                &&& usable && !old(link).frozen && d.reliable != Some(false) ==> shown == Some(
                    Status::Kcp,
                )
            }
        }),
{
}

/// Two ends that agree on the identity and the epoch of a session agree on its id and conversation,
/// which are never zero; those of a first session come of its seed.
pub proof fn law_sessions_have_ids(
    identity: [u8; 16],
    epoch: u64,
    a: (u64, u32),
    b: (u64, u32),
    seed: u64,
    c: (u64, u32),
)
    requires
        call_ensures(derive_ids, (&identity, epoch), a),
        call_ensures(derive_ids, (&identity, epoch), b),
        call_ensures(first_ids, (seed,), c),
    ensures
        a == b,
        a.0 != 0 && a.1 != 0,
        at64(identity@, 0) != epoch ==> a.0 == at64(identity@, 0) ^ epoch,
        c.0 != 0 && c.1 != 0,
        seed != 0 ==> c.0 == seed,
        seed % 0x1_0000_0000 != 0 ==> c.1 == seed % 0x1_0000_0000,
{
    let x = at64(identity@, 0);
    assert(x ^ epoch == 0 ==> x == epoch) by (bit_vector);
}

/// The steps of settling one after the other.
ghost struct Settling {
    r1: Result<(), Fault>,
    d1: Driver,
    l1: Link,
    r2: Result<(), Fault>,
    d2: Driver,
    l2: Link,
    r3: Result<(), Fault>,
    d3: Driver,
    l3: Link,
    r4: Result<(), Fault>,
    d4: Driver,
}

proof fn lemma_settling(
    s: Driver,
    l: Link,
    now: u64,
    r: Result<bool, Fault>,
    next: Driver,
    after: Link,
) -> (c: Settling)
    requires
        s.settles(l, now, r, next, after),
    ensures
        s.settles_stall(l, now, c.r1, c.d1, c.l1),
        c.r1 is Ok ==> c.d1.settles_response(c.l1, now, c.r2, c.d2, c.l2),
        c.r1 is Ok && c.r2 is Ok ==> c.d2.settles_probe(c.l2, now, c.r3, c.d3, c.l3),
        c.r1 is Ok && c.r2 is Ok && c.r3 is Ok ==> c.d3.advances(
            now,
            Input::Tick,
            c.l3,
            c.r4,
            c.d4,
            after,
        ) && (c.r4 is Ok ==> r is Ok && c.d4.settles_epoch(after, now, r->Ok_0, next)),
        r is Ok ==> c.r1 is Ok && c.r2 is Ok && c.r3 is Ok && c.r4 is Ok,
{
    let (r1, d1, l1) = choose|r1: Result<(), Fault>, d1: Driver, l1: Link|
        {
            &&& #[trigger] s.settles_stall(l, now, r1, d1, l1)
            &&& match r1 {
                Err(fault) => r == Err::<bool, Fault>(fault) && next == d1 && after == l1,
                Ok(_) => d1.settles_on(l1, now, r, next, after),
            }
        };
    let (r2, d2, l2) = choose|r2: Result<(), Fault>, d2: Driver, l2: Link|
        {
            &&& #[trigger] d1.settles_response(l1, now, r2, d2, l2)
            &&& match r2 {
                Err(fault) => r == Err::<bool, Fault>(fault) && next == d2 && after == l2,
                Ok(_) => d2.settles_further(l2, now, r, next, after),
            }
        };
    let (r3, d3, l3) = choose|r3: Result<(), Fault>, d3: Driver, l3: Link|
        {
            &&& #[trigger] d2.settles_probe(l2, now, r3, d3, l3)
            &&& match r3 {
                Err(fault) => r == Err::<bool, Fault>(fault) && next == d3 && after == l3,
                Ok(_) => d3.settles_last(l3, now, r, next, after),
            }
        };
    let (r4, d4) = choose|r4: Result<(), Fault>, d4: Driver|
        {
            &&& #[trigger] d3.advances(now, Input::Tick, l3, r4, d4, after)
            &&& match r4 {
                Err(fault) => r == Err::<bool, Fault>(fault) && next == d4,
                Ok(_) => r is Ok && d4.settles_epoch(after, now, r->Ok_0, next),
            }
        };
    Settling { r1, d1, l1, r2, d2, l2, r3, d3, l3, r4, d4 }
}

/// A safety failure of the local input owner ends the connection, and without a coordinator there is
/// nothing to settle.
pub proof fn law_safety_failures_end_the_connection(
    driver: &mut Driver,
    link: &mut Link,
    now: u64,
    r: Result<bool, Fault>,
)
    requires
        old(driver).inv(*old(link)),
        call_ensures(Driver::settle, (driver, link, now), r),
        old(link).failed || old(driver).runtime is None,
    ensures
        old(link).failed ==> r == Err::<bool, Fault>(Fault::SafetyFailure),
        !old(link).failed ==> r == Ok::<bool, Fault>(false),
        *final(driver) == *old(driver),
        *final(link) == *old(link),
{
}

/// Whether a coordinator is at rest and no deadline of it has passed.
pub open spec fn rests(c: Conduct, now: u64) -> bool {
    &&& c.machine.state == State::Normal
    &&& c.machine.epoch == c.resumed
    &&& c.machine.last_now <= now < c.machine.last_peer + c.machine.peer_ms
}

/// Settling a connection at rest, of which nothing was asked, succeeds and disturbs nothing: the session,
/// the deliveries and the epoch stay, and the link stays open.
pub proof fn law_settling_disturbs_nothing_at_rest(
    driver: &mut Driver,
    link: &mut Link,
    now: u64,
    r: Result<bool, Fault>,
)
    requires
        old(driver).inv(*old(link)),
        call_ensures(Driver::settle, (driver, link, now), r),
        !old(link).failed,
        !old(link).stalled,
        !old(link).frozen,
        old(link).response is None,
        old(driver).runtime is Some,
        old(driver).pending_probe is None,
        rests(old(driver).runtime->0@, now),
        old(driver).installed_epoch == old(driver).runtime->0@.machine.epoch,
    ensures
        r == Ok::<bool, Fault>(false),
        !final(link).frozen,
        !final(link).stalled,
        !final(link).failed,
        final(link).request == old(link).request,
        final(driver).session == old(driver).session,
        final(driver).receiver == old(driver).receiver,
        final(driver).sender == old(driver).sender,
        final(driver).pending@ == old(driver).pending@,
        final(driver).runtime is Some && rests(final(driver).runtime->0@, now),
        final(driver).runtime->0@.machine.epoch == old(driver).runtime->0@.machine.epoch,
{
    let (s, l) = (*old(driver), *old(link));
    let c = lemma_settling(s, l, now, r, *final(driver), *final(link));
    assert(c.d1 == s && c.l1 == l);
    assert(c.d2 == s && c.l2 == Link { response: None, ..l });
    assert(c.d3 == s && c.l3 == c.l2);
    assert(s.runtime->0@.machine.step(now, Input::Tick).1.control is None);
}

/// A tick in time leaves a coordinator in the same stage of its round, and the link as it is but for what
/// it knows of the peer.
proof fn lemma_ticks_on(c: Conduct, link: Link, now: u64)
    requires
        c.well_formed(),
        c.machine.recovering(),
        c.machine.last_now <= now < c.machine.last_peer + c.machine.peer_ms,
        now < c.machine.started->0 + RECOVERY_MS,
        c.barrier == Some(c.machine.round()),
        c.machine.state == State::Installing ==> c.install == Some(c.machine.round()),
    ensures
        ({
            let (n, after, r) = c.step(link, now, Input::Tick);
            &&& r is Ok
            &&& n.machine == Machine {
                last_now: now,
                last_send: n.machine.last_send,
                ..c.machine
            }
            &&& after == Link { generation: after.generation, ..link }
        }),
{
    assert(c.informed(link, now) == c.machine);
}

/// A coordinator whose owner is quiet notes its baseline.
proof fn lemma_quiet(c: Conduct, link: Link, now: u64, baseline: Baseline)
    requires
        c.well_formed(),
        c.machine.state == State::Quiescing,
        c.machine.local is None,
        c.machine.peer is None,
        c.machine.fits(baseline),
        c.machine.last_now <= now < c.machine.last_peer + c.machine.peer_ms,
        now < c.machine.started->0 + RECOVERY_MS,
        c.barrier == Some(c.machine.round()),
        link.frozen,
    ensures
        ({
            let m = c.machine;
            let input = Input::Barrier { round: m.round(), result: Ok(baseline) };
            let (n, after, r) = c.step(link, now, input);
            &&& r is Ok
            &&& n.well_formed()
            &&& n.barrier == c.barrier
            &&& n.machine.local == Some(baseline)
            &&& n.machine.epoch == m.epoch
            &&& n.machine.session == m.session
            &&& n.machine.last_now == now
            &&& n.machine.last_peer == m.last_peer
            &&& n.machine.peer_ms == m.peer_ms
            &&& n.machine.started == m.started
            &&& n.machine.state == (if m.role == Role::Acceptor && m.prepared {
                State::AwaitCommit
            } else {
                State::Quiescing
            })
            &&& after == Link { generation: after.generation, ..link }
        }),
{
    assert(c.informed(link, now) == c.machine);
    let input = Input::Barrier { round: c.machine.round(), result: Ok(baseline) };
    assert(c.machine.step(now, input).0.well_formed()) by {
        law_steps_keep_the_invariant(c.machine, now, input);
    }
}

/// A coordinator whose owner has installed a round says so.
proof fn lemma_installed(c: Conduct, link: Link, now: u64)
    requires
        c.well_formed(),
        c.machine.state == State::Installing,
        c.machine.last_now <= now < c.machine.last_peer + c.machine.peer_ms,
        now < c.machine.started->0 + RECOVERY_MS,
        c.barrier == Some(c.machine.round()),
        link.frozen,
    ensures
        ({
            let m = c.machine;
            let input = Input::Installed { round: m.round(), result: Ok(()) };
            let (n, after, r) = c.step(link, now, input);
            &&& r is Ok
            &&& r->Ok_0.control is Some
            &&& n.well_formed()
            &&& n.barrier == c.barrier
            &&& n.machine.epoch == m.epoch
            &&& n.machine.session == m.session
            &&& n.machine.last_now == now
            &&& n.machine.last_peer == m.last_peer
            &&& n.machine.peer_ms == m.peer_ms
            &&& n.machine.started == m.started
            &&& n.machine.state == (if m.role == Role::Dialer {
                State::AwaitActivateAck
            } else {
                State::AwaitActivate
            })
            &&& n.machine.pending matches Some(frame)
            &&& frame.kind == (if m.role == Role::Dialer {
                Kind::Activate
            } else {
                Kind::CommitAck
            })
            &&& after == Link { generation: after.generation, ..link }
        }),
{
    assert(c.informed(link, now) == c.machine);
    let input = Input::Installed { round: c.machine.round(), result: Ok(()) };
    assert(c.machine.step(now, input).0.well_formed()) by {
        law_steps_keep_the_invariant(c.machine, now, input);
    }
}

/// An answer of the local input owner is taken once. That it is quiet, with a baseline that fits, is
/// noted; an acceptor that was asked to prepare then agrees.
pub proof fn law_quiet_owners_are_heard(
    driver: &mut Driver,
    link: &mut Link,
    now: u64,
    baseline: Baseline,
    r: Result<bool, Fault>,
)
    requires
        old(driver).inv(*old(link)),
        call_ensures(Driver::settle, (driver, link, now), r),
        !old(link).failed,
        !old(link).stalled,
        old(driver).runtime is Some,
        old(driver).pending_probe is None,
        ({
            let m = old(driver).runtime->0@.machine;
            &&& old(link).response == Some(InputResponse::Barrier(m.round(), Ok(baseline)))
            &&& m.state == State::Quiescing
            &&& m.local is None
            &&& m.peer is None
            &&& m.fits(baseline)
            &&& m.last_now <= now < m.last_peer + m.peer_ms
            &&& now < m.started->0 + RECOVERY_MS
        }),
    ensures
        r is Ok,
        final(link).response is None,
        final(link).frozen,
        ({
            let m = old(driver).runtime->0@.machine;
            let n = final(driver).runtime->0@.machine;
            &&& n.local == Some(baseline)
            &&& n.epoch == m.epoch
            &&& n.state == (if m.role == Role::Acceptor && m.prepared {
                State::AwaitCommit
            } else {
                State::Quiescing
            })
        }),
        final(driver).session == old(driver).session,
{
    let (s, l) = (*old(driver), *old(link));
    let c = lemma_settling(s, l, now, r, *final(driver), *final(link));
    assert(c.d1 == s && c.l1 == l);
    let conduct = s.runtime->0@;
    let input = Input::Barrier { round: conduct.machine.round(), result: Ok(baseline) };
    let heard = Link { response: None, ..l };
    lemma_quiet(conduct, heard, now, baseline);
    assert(c.d1.advances(now, input, heard, c.r2, c.d2, c.l2));
    assert(c.d3 == c.d2 && c.l3 == c.l2);
    lemma_ticks_on(c.d3.runtime->0@, c.l3, now);
}

/// Everything of the epoch before is gone: the session is a new one, open at once, with the ids of the
/// epoch, and nothing is left to deliver or to add up.
pub open spec fn starts_over(d: Driver, epoch: u64, next: Driver) -> bool {
    let s = next.session@;
    &&& next.installed_epoch == epoch
    &&& s.ready && !s.closed && s.running
    &&& s.sent == 0 && s.received == 0 && s.consumed == 0 && s.peer_sent == 0
    &&& s.outstanding.len() == 0
    &&& s.incoming.len() == 0
    &&& s.consuming.len() == 0
    &&& s.acknowledgement_since is None
    &&& s.gap_since is None
    &&& s.dialer == d.dialer
    &&& s.stall_ms == d.timeouts.stall@
    &&& s.peer_ms == d.timeouts.peer@
    &&& (s.id, s.conv) == session_ids(d.runtime->0@.machine.session@, epoch)
    &&& next.pending@.len() == 0
    &&& next.receiver.sequence == 0 && next.receiver.reliable == 0 && next.receiver.x == 0
        && next.receiver.y == 0 && next.receiver.pending is None
    &&& next.sender.sequence == 0 && next.sender.reliable == 0 && next.sender.x == 0
        && next.sender.y == 0 && next.sender.last@.len() == 0
}

proof fn lemma_revived(d: Driver, epoch: u64, probe: bool, now: u64, next: Driver)
    requires
        d.revives(epoch, probe, now, next),
    ensures
        starts_over(d, epoch, next),
        next.runtime == d.runtime,
        next.controls == d.controls,
        next.pending_probe == d.pending_probe,
        next.direct_output == d.direct_output,
{
    assert(pieces(zeros(), (MTU - HEADER) as nat) =~= seq![zeros()]);
}

/// When the acceptor's owner has installed a round, the acceptor starts over in the next epoch, whose
/// input it now accepts, and says so.
pub proof fn law_acceptors_start_over_when_installed(
    driver: &mut Driver,
    link: &mut Link,
    now: u64,
    r: Result<bool, Fault>,
)
    requires
        old(driver).inv(*old(link)),
        call_ensures(Driver::settle, (driver, link, now), r),
        !old(link).failed,
        !old(link).stalled,
        !old(driver).dialer,
        old(driver).runtime is Some,
        old(driver).pending_probe is None,
        ({
            let m = old(driver).runtime->0@.machine;
            &&& old(link).response == Some(InputResponse::Installed(m.round(), Ok(())))
            &&& m.role == Role::Acceptor
            &&& m.state == State::Installing
            &&& old(driver).installed_epoch == m.epoch
            &&& m.last_now <= now < m.last_peer + m.peer_ms
            &&& now < m.started->0 + RECOVERY_MS
        }),
    ensures
        r is Ok,
        final(link).response is None,
        ({
            let m = old(driver).runtime->0@.machine;
            let n = final(driver).runtime->0@.machine;
            &&& n.state == State::AwaitActivate
            &&& n.epoch == m.epoch
            &&& n.receive_gate(now) == Some((m.epoch + 1) as u64)
            &&& n.send_gate(now) is None
            &&& starts_over(*old(driver), (m.epoch + 1) as u64, *final(driver))
            &&& final(driver).controls@.len() > old(driver).controls@.len()
        }),
{
    let (s, l) = (*old(driver), *old(link));
    let c = lemma_settling(s, l, now, r, *final(driver), *final(link));
    assert(c.d1 == s && c.l1 == l);
    let conduct = s.runtime->0@;
    let input = Input::Installed { round: conduct.machine.round(), result: Ok(()) };
    let heard = Link { response: None, ..l };
    lemma_installed(conduct, heard, now);
    assert(c.d1.advances(now, input, heard, c.r2, c.d2, c.l2));
    assert(lines(c.d2.controls@).len() == lines(s.controls@).len() + 1);
    assert(c.d3 == c.d2 && c.l3 == c.l2);
    lemma_ticks_on(c.d3.runtime->0@, c.l3, now);
    assert(c.d4.runtime->0@.machine.receive_gate(now) == Some((conduct.machine.epoch + 1) as u64));
    lemma_revived(
        c.d4,
        (conduct.machine.epoch + 1) as u64,
        false,
        now,
        *final(driver),
    );
    assert(lines(c.d4.controls@).len() >= lines(c.d3.controls@).len());
}

/// When the dialer's owner has installed a round, the dialer starts over in the next epoch and probes it:
/// its first message waits for its acknowledgement, and the round is not yet installed.
pub proof fn law_dialers_probe_what_is_installed(
    driver: &mut Driver,
    link: &mut Link,
    now: u64,
    r: Result<bool, Fault>,
)
    requires
        old(driver).inv(*old(link)),
        call_ensures(Driver::settle, (driver, link, now), r),
        !old(link).failed,
        !old(link).stalled,
        old(driver).dialer,
        old(driver).runtime is Some,
        old(driver).pending_probe is None,
        ({
            let m = old(driver).runtime->0@.machine;
            &&& old(link).response == Some(InputResponse::Installed(m.round(), Ok(())))
            &&& m.role == Role::Dialer
            &&& m.state == State::Installing
            &&& old(driver).runtime->0@.install == Some(m.round())
            &&& m.last_now <= now < m.last_peer + m.peer_ms
            &&& now < m.started->0 + RECOVERY_MS
        }),
    ensures
        r is Ok,
        final(link).response is None,
        ({
            let m = old(driver).runtime->0@.machine;
            &&& final(driver).pending_probe == Some(m.round())
            &&& final(driver).session@.waiting.len() == 1
            &&& starts_over(*old(driver), (m.epoch + 1) as u64, *final(driver))
            &&& final(driver).runtime->0@.machine.state == State::Installing
            &&& final(driver).runtime->0@.machine.epoch == m.epoch
        }),
{
    let (s, l) = (*old(driver), *old(link));
    let c = lemma_settling(s, l, now, r, *final(driver), *final(link));
    assert(c.d1 == s && c.l1 == l);
    let conduct = s.runtime->0@;
    let epoch = (conduct.machine.epoch + 1) as u64;
    assert(c.r2 is Ok);
    lemma_revived(s, epoch, true, now, Driver { pending_probe: s.pending_probe, ..c.d2 });
    assert(c.d3 == c.d2 && c.l3 == c.l2);
    lemma_ticks_on(conduct, c.l3, now);
}

/// Once the peer has acknowledged the probe, the dialer counts the round as installed and asks the peer
/// to activate it.
pub proof fn law_probed_rounds_are_activated(
    driver: &mut Driver,
    link: &mut Link,
    now: u64,
    r: Result<bool, Fault>,
)
    requires
        old(driver).inv(*old(link)),
        call_ensures(Driver::settle, (driver, link, now), r),
        !old(link).failed,
        !old(link).stalled,
        old(link).response is None,
        old(driver).runtime is Some,
        old(driver).session@.running,
        old(driver).session@.waiting.len() == 0,
        ({
            let m = old(driver).runtime->0@.machine;
            &&& old(driver).pending_probe == Some(m.round())
            &&& m.role == Role::Dialer
            &&& m.state == State::Installing
            &&& old(driver).installed_epoch == m.epoch + 1
            &&& m.last_now <= now < m.last_peer + m.peer_ms
            &&& now < m.started->0 + RECOVERY_MS
        }),
    ensures
        r is Ok,
        final(driver).pending_probe is None,
        final(driver).session == old(driver).session,
        ({
            let m = old(driver).runtime->0@.machine;
            let n = final(driver).runtime->0@.machine;
            &&& n.state == State::AwaitActivateAck
            &&& n.epoch == m.epoch
            &&& n.pending matches Some(frame) && frame.kind == Kind::Activate
            &&& final(driver).controls@.len() > old(driver).controls@.len()
        }),
{
    let (s, l) = (*old(driver), *old(link));
    let c = lemma_settling(s, l, now, r, *final(driver), *final(link));
    assert(c.d1 == s && c.l1 == l);
    assert(c.d2 == s && c.l2 == Link { response: None, ..l });
    let conduct = s.runtime->0@;
    let input = Input::Installed { round: conduct.machine.round(), result: Ok(()) };
    lemma_installed(conduct, c.l2, now);
    let cleared = Driver { pending_probe: None, ..s };
    assert(cleared.advances(now, input, c.l2, c.r3, c.d3, c.l3));
    assert(lines(c.d3.controls@).len() == lines(s.controls@).len() + 1);
    lemma_ticks_on(c.d3.runtime->0@, c.l3, now);
    assert(lines(c.d4.controls@).len() >= lines(c.d3.controls@).len());
}

/// A frozen link drops what is left to deliver of the epoch that it ends, and has the writer's motion
/// slot emptied.
pub proof fn law_a_freeze_drops_old_deliveries(
    driver: &mut Driver,
    link: &mut Link,
    now: u64,
    r: Result<bool, Fault>,
)
    requires
        old(driver).inv(*old(link)),
        call_ensures(Driver::settle, (driver, link, now), r),
        r is Ok,
        old(driver).runtime is Some,
        final(link).frozen,
        final(driver).installed_epoch == final(driver).runtime->0@.machine.epoch,
        final(driver).runtime->0@.machine.state != State::Normal,
    ensures
        r == Ok::<bool, Fault>(true),
        final(driver).pending@.len() == 0,
{
    let c = lemma_settling(*old(driver), *old(link), now, r, *final(driver), *final(link));
}

/// A packet is read by the codec: over a legacy connection the application gets every event.
pub proof fn law_packets_are_read_by_the_codec<C: Codec>(
    driver: &mut Driver,
    codec: &C,
    bytes: Vec<u8>,
    link: &mut Link,
    now: u64,
    r: Result<Arrival, Fault>,
)
    requires
        old(driver).inv(*old(link)),
        call_ensures(Driver::packet::<C>, (driver, codec, bytes, link, now), r),
        old(driver).recovery_selected != Some(true),
        is_plain(bytes@),
        old(driver).reliable == Some(false),
        reads_as_input(codec, bytes@),
    ensures
        r == Ok::<Arrival, Fault>(Arrival::Deliver(Delivery { bytes, receipt: None })),
        *final(driver) == *old(driver),
{
}

/// A motion datagram is read by the codec: if it is news, it becomes the waiting sample.
pub proof fn law_datagrams_are_read_by_the_codec<C: Codec>(
    driver: &mut Driver,
    codec: &C,
    bytes: Vec<u8>,
    link: &mut Link,
    now: u64,
    frame: motion::FrameView,
    r: Result<Arrival, Fault>,
)
    requires
        old(driver).inv(*old(link)),
        call_ensures(Driver::packet::<C>, (driver, codec, bytes, link, now), r),
        old(driver).recovery_selected != Some(true),
        bytes@.len() > 0 && bytes@[0] == MOTION_TAG,
        forall|part: Vec<u8>, inner: Decoded|
            part@ == motion::embedded(bytes@) && #[trigger] call_ensures(
                C::fixed,
                (codec, &part),
                inner,
            ) ==> is_sample(*old(driver), bytes@, inner, frame),
        is_news(*old(driver), frame),
    ensures
        r == Ok::<Arrival, Fault>(Arrival::Done),
        final(driver).receiver.pending matches Some(sample) && sample@ == frame,
{
    assert(motion_event(bytes@) == motion::embedded(bytes@));
}

/// Whether an envelope carries data that this connection accepts at `now`.
pub open spec fn is_accepted(d: Driver, envelope: EnvelopeView, now: u64) -> bool {
    let m = d.runtime->0@.machine;
    &&& d.runtime is Some
    &&& rests(d.runtime->0@, now)
    &&& !(envelope is Control)
    &&& envelope.session() == m.session@
    &&& envelope.epoch() == m.epoch
    &&& envelope.source() == m.role.other()
}

/// A sign of life leaves a coordinator at rest, and the link as it is but for what it knows of the peer.
proof fn lemma_hears(c: Conduct, link: Link, now: u64)
    requires
        c.well_formed(),
        rests(c, now),
    ensures
        ({
            let (n, after, r) = c.step(link, now, Input::PeerActivity);
            &&& r is Ok
            &&& n.machine.last_peer == now
            &&& n.machine.state == State::Normal
            &&& n.machine.epoch == c.machine.epoch
            &&& after == Link { generation: after.generation, ..link }
        }),
{
}

/// What is in an envelope of the current epoch is sorted.
proof fn lemma_opened(
    s: Driver,
    bytes: Vec<u8>,
    event: Decoded,
    inner: Decoded,
    link: Link,
    now: u64,
    envelope: EnvelopeView,
    r: Result<Arrival, Fault>,
    next: Driver,
    after: Link,
) -> (mid: (Vec<u8>, Driver, Link))
    requires
        s.inv(link),
        s.receives(bytes, event, inner, link, now, r, next, after),
        s.recovery_selected == Some(true),
        bytes@.len() > 0 && bytes@[0] == protocol::TAG,
        protocol::parse(bytes@, s.event_limit, inner) == Some(envelope),
        is_accepted(s, envelope, now),
    ensures
        mid.0@ == envelope.body(),
        mid.1.sorts(mid.0, event, inner, mid.2, now, r, next, after),
        mid.1 == (Driver { runtime: mid.1.runtime, controls: mid.1.controls, ..s }),
        mid.1.runtime is Some,
        mid.1.runtime->0@.machine.last_peer == now,
        mid.1.runtime->0@.machine.state == State::Normal,
        mid.2 == (Link { generation: mid.2.generation, ..link }),
{
    lemma_hears(s.runtime->0@, link, now);
    let (opened, mid, between) = choose|
        opened: Result<Option<Vec<u8>>, Fault>,
        mid: Driver,
        between: Link,
    |
        {
            &&& #[trigger] s.unwraps(bytes, inner, link, now, opened, mid, between)
            &&& match opened {
                Err(fault) => r == Err::<Arrival, Fault>(fault) && next == mid && after == between,
                Ok(None) => r == Ok::<Arrival, Fault>(Arrival::Ignored) && next == mid && after
                    == between,
                Ok(Some(content)) => mid.sorts(
                    content,
                    event,
                    inner,
                    between,
                    now,
                    r,
                    next,
                    after,
                ),
            }
        };
    assert(s.lets_in(envelope, now));
    assert(s.opens(envelope, link, now, opened, mid, between));
    let stepped = choose|stepped: Result<(), Fault>|
        {
            &&& #[trigger] s.advances(now, Input::PeerActivity, link, stepped, mid, between)
            &&& match stepped {
                Ok(_) => opened matches Ok(Some(content)) && content@ == envelope.body(),
                Err(fault) => opened == Err::<Option<Vec<u8>>, Fault>(fault),
            }
        };
    (opened->Ok_0->0, mid, between)
}

proof fn lemma_frame_sorted(
    d: Driver,
    content: Vec<u8>,
    event: Decoded,
    inner: Decoded,
    link: Link,
    now: u64,
    before: Channel,
    r: Result<Arrival, Fault>,
    next: Driver,
    after: Link,
) -> (taken: Result<(), Fault>)
    requires
        d.sorts(content, event, inner, link, now, r, next, after),
        content@.len() > 0 && content@[0] == frame::TAG,
        d.reliable == Some(true),
        before == (Channel { now, ..d.session@ }),
    ensures
        before.takes(content@, taken, next.session@),
        taken is Err ==> r is Err,
        taken is Ok && d.pending_probe is None ==> r == Ok::<Arrival, Fault>(Arrival::Done),
        next.runtime == d.runtime,
        after == link,
{
    let handled = choose|handled: Result<(), Fault>|
        {
            &&& #[trigger] d.takes_frame(content@, now, handled, next)
            &&& r == crate::driver::arrived(handled)
        };
    choose|taken: Result<(), Fault>|
        {
            &&& #[trigger] before.takes(content@, taken, next.session@)
            &&& handled == (match taken {
                Err(fault) => Err::<(), Fault>(fault),
                Ok(_) => if d.pending_probe is Some && next.session@.incoming.len() > 0 {
                    Err(Fault::EarlyInput)
                } else {
                    Ok(())
                },
            })
        }
}

proof fn lemma_motion_sorted(
    d: Driver,
    content: Vec<u8>,
    event: Decoded,
    inner: Decoded,
    link: Link,
    now: u64,
    sample: motion::FrameView,
    r: Result<Arrival, Fault>,
    next: Driver,
    after: Link,
)
    requires
        d.sorts(content, event, inner, link, now, r, next, after),
        is_sample(d, content@, inner, sample),
        is_news(d, sample),
    ensures
        r == Ok::<Arrival, Fault>(Arrival::Done),
        next.receiver.pending is Some && next.receiver.pending->0@ == sample,
        next.runtime == d.runtime,
        after == link,
{
}

/// On a recoverable connection at rest, a frame in an envelope of the current epoch reaches the session
/// as if it had come alone, and the peer is known to live.
pub proof fn law_frames_of_the_epoch_reach_the_session(
    driver: &mut Driver,
    bytes: Vec<u8>,
    event: Decoded,
    inner: Decoded,
    link: &mut Link,
    now: u64,
    envelope: EnvelopeView,
    before: Channel,
    r: Result<Arrival, Fault>,
)
    requires
        old(driver).inv(*old(link)),
        call_ensures(Driver::receive, (driver, bytes, event, inner, link, now), r),
        old(driver).recovery_selected == Some(true),
        old(driver).reliable == Some(true),
        bytes@.len() > 0 && bytes@[0] == protocol::TAG,
        protocol::parse(bytes@, old(driver).event_limit, inner) == Some(envelope),
        is_accepted(*old(driver), envelope, now),
        envelope is Reliable,
        before == (Channel { now, ..old(driver).session@ }),
    ensures
        final(driver).runtime is Some && final(driver).runtime->0@.machine.last_peer == now,
        final(driver).runtime->0@.machine.state == State::Normal,
        final(link).frozen == old(link).frozen,
        exists|taken: Result<(), Fault>|
            {
                &&& #[trigger] before.takes(envelope.body(), taken, final(driver).session@)
                &&& taken is Err ==> r is Err
                &&& taken is Ok && old(driver).pending_probe is None ==> r == Ok::<Arrival, Fault>(
                    Arrival::Done,
                )
            },
{
    let (content, mid, between) = lemma_opened(
        *old(driver),
        bytes,
        event,
        inner,
        *old(link),
        now,
        envelope,
        r,
        *final(driver),
        *final(link),
    );
    assert(content@[0] == frame::TAG);
    let taken = lemma_frame_sorted(
        mid,
        content,
        event,
        inner,
        between,
        now,
        before,
        r,
        *final(driver),
        *final(link),
    );
    assert(before.takes(envelope.body(), taken, final(driver).session@));
}

/// On a recoverable connection at rest, a motion datagram in an envelope of the current epoch that is
/// news becomes the waiting sample, and the peer is known to live.
pub proof fn law_motion_of_the_epoch_waits_to_be_delivered(
    driver: &mut Driver,
    bytes: Vec<u8>,
    event: Decoded,
    inner: Decoded,
    link: &mut Link,
    now: u64,
    envelope: EnvelopeView,
    sample: motion::FrameView,
    r: Result<Arrival, Fault>,
)
    requires
        old(driver).inv(*old(link)),
        call_ensures(Driver::receive, (driver, bytes, event, inner, link, now), r),
        old(driver).recovery_selected == Some(true),
        bytes@.len() > 0 && bytes@[0] == protocol::TAG,
        protocol::parse(bytes@, old(driver).event_limit, inner) == Some(envelope),
        is_accepted(*old(driver), envelope, now),
        envelope is Motion,
        is_sample(*old(driver), envelope.body(), inner, sample),
        is_news(*old(driver), sample),
    ensures
        r == Ok::<Arrival, Fault>(Arrival::Done),
        final(driver).receiver.pending matches Some(kept) && kept@ == sample,
        final(driver).runtime is Some && final(driver).runtime->0@.machine.last_peer == now,
        final(link).frozen == old(link).frozen,
{
    let (content, mid, between) = lemma_opened(
        *old(driver),
        bytes,
        event,
        inner,
        *old(link),
        now,
        envelope,
        r,
        *final(driver),
        *final(link),
    );
    lemma_motion_sorted(
        mid,
        content,
        event,
        inner,
        between,
        now,
        sample,
        r,
        *final(driver),
        *final(link),
    );
}

/// Data of another session or another epoch, or from the wrong end, is ignored: it changes nothing.
pub proof fn law_foreign_envelopes_are_ignored(
    driver: &mut Driver,
    bytes: Vec<u8>,
    event: Decoded,
    inner: Decoded,
    link: &mut Link,
    now: u64,
    envelope: EnvelopeView,
    r: Result<Arrival, Fault>,
)
    requires
        old(driver).inv(*old(link)),
        call_ensures(Driver::receive, (driver, bytes, event, inner, link, now), r),
        old(driver).recovery_selected == Some(true),
        old(driver).runtime is Some,
        old(driver).pending_probe is None,
        bytes@.len() > 0 && bytes@[0] == protocol::TAG,
        protocol::parse(bytes@, old(driver).event_limit, inner) == Some(envelope),
        !(envelope is Control),
        ({
            let m = old(driver).runtime->0@.machine;
            ||| envelope.session() != m.session@
            ||| envelope.source() != m.role.other()
            ||| envelope.epoch() < m.epoch
            ||| envelope.epoch() > m.epoch + 1
            ||| m.state == State::Normal && envelope.epoch() != m.epoch
            ||| m.recovering() && envelope.epoch() != m.epoch + 1
        }),
    ensures
        r == Ok::<Arrival, Fault>(Arrival::Ignored),
        *final(driver) == *old(driver),
        *final(link) == *old(link),
{
}

/// Whether the coordinator has taken this control frame, and what it says of it decides.
pub open spec fn hears_control(
    d: Driver,
    link: Link,
    now: u64,
    control: Control,
    r: Result<Arrival, Fault>,
    next: Driver,
    after: Link,
) -> bool {
    let (n, left, result) = d.runtime->0@.step(link, now, Input::Control(control));
    &&& next.runtime is Some && next.runtime->0@ == n
    &&& after == left
    &&& r is Ok <==> result is Ok
    &&& r is Ok ==> r == Ok::<Arrival, Fault>(Arrival::Ignored)
}

/// A control frame goes to the coordinator, and to nobody else.
pub proof fn law_control_frames_reach_the_coordinator(
    driver: &mut Driver,
    bytes: Vec<u8>,
    event: Decoded,
    inner: Decoded,
    link: &mut Link,
    now: u64,
    envelope: EnvelopeView,
    r: Result<Arrival, Fault>,
)
    requires
        old(driver).inv(*old(link)),
        call_ensures(Driver::receive, (driver, bytes, event, inner, link, now), r),
        old(driver).recovery_selected == Some(true),
        old(driver).runtime is Some,
        bytes@.len() > 0 && bytes@[0] == protocol::TAG,
        protocol::parse(bytes@, old(driver).event_limit, inner) == Some(envelope),
        envelope is Control,
    ensures
        exists|control: Control| #[trigger]
            hears_control(*old(driver), *old(link), now, control, r, *final(driver), *final(link))
                && EnvelopeView::Control(control@) == envelope,
        final(driver).session == old(driver).session,
        final(driver).pending == old(driver).pending,
        final(driver).receiver == old(driver).receiver,
{
    let (s, l) = (*old(driver), *old(link));
    let (opened, mid, between) = choose|
        opened: Result<Option<Vec<u8>>, Fault>,
        mid: Driver,
        between: Link,
    |
        {
            &&& #[trigger] s.unwraps(bytes, inner, l, now, opened, mid, between)
            &&& match opened {
                Err(fault) => r == Err::<Arrival, Fault>(fault) && *final(driver) == mid
                    && *final(link) == between,
                Ok(None) => r == Ok::<Arrival, Fault>(Arrival::Ignored) && *final(driver) == mid
                    && *final(link) == between,
                Ok(Some(content)) => mid.sorts(
                    content,
                    event,
                    inner,
                    between,
                    now,
                    r,
                    *final(driver),
                    *final(link),
                ),
            }
        };
    assert(s.opens(envelope, l, now, opened, mid, between));
    let c = envelope->Control_0;
    let (control, stepped) = choose|control: Control, stepped: Result<(), Fault>|
        {
            &&& control@ == c
            &&& #[trigger] s.advances(now, Input::Control(control), l, stepped, mid, between)
            &&& match stepped {
                Ok(_) => opened == Ok::<Option<Vec<u8>>, Fault>(None),
                Err(fault) => opened == Err::<Option<Vec<u8>>, Fault>(fault),
            }
        };
    assert(hears_control(s, l, now, control, r, *final(driver), *final(link)));
}

/// The first envelope of a connection makes an acceptor a coordinator exactly if it is the dialer's offer
/// of epoch zero; a dialer refuses it, and anything else ends the connection.
pub proof fn law_offers_start_the_acceptor(
    driver: &mut Driver,
    bytes: Vec<u8>,
    event: Decoded,
    inner: Decoded,
    link: &mut Link,
    now: u64,
    envelope: EnvelopeView,
    r: Result<Arrival, Fault>,
)
    requires
        old(driver).inv(*old(link)),
        call_ensures(Driver::receive, (driver, bytes, event, inner, link, now), r),
        old(driver).recovery_selected == Some(true),
        old(driver).runtime is None,
        bytes@.len() > 0 && bytes@[0] == protocol::TAG,
        protocol::parse(bytes@, old(driver).event_limit, inner) == Some(envelope),
        1 <= old(driver).timeouts.peer@ <= 60000,
    ensures
        ({
            let first = envelope matches EnvelopeView::Reliable { epoch, source, frame, .. }
                && epoch == 0 && source == Role::Dialer && frame is Offer;
            &&& !first || old(driver).dialer ==> r is Err && *final(driver) == *old(driver)
            &&& first && !old(driver).dialer && !blank(envelope.session()) ==> {
                &&& final(driver).runtime is Some
                &&& final(driver).runtime->0@.machine.role == Role::Acceptor
                &&& final(driver).runtime->0@.machine.session@ == envelope.session()
                &&& final(driver).runtime->0@.machine.epoch == 0
                &&& final(link).enabled
                &&& final(link).generation matches Some(g) && g.session@ == envelope.session()
                    && g.epoch == 0 && g.active
            }
        }),
{
}

} // verus!
