//! What motion is for: the sender keeps the sum of all motion, and the receiver hands out the part of it
//! that is new, in its place among the reliable events.

use crate::event::{finite, Codec, Decoded};
use crate::fault::Fault;
use crate::motion::{Frame, Receiver, Sender};
use crate::wire_laws::number;
use vstd::prelude::*;

verus! {

/// A motion is added to the totals and leaves at once as a datagram of the next number, with the event
/// that moves by the totals and after the reliable events sent so far. It counts as no reliable event.
pub proof fn law_motion_adds_up<C: Codec>(
    sender: &mut Sender,
    codec: &C,
    dx: u64,
    dy: u64,
    original: Vec<u8>,
    r: Result<(bool, Vec<u8>), Fault>,
)
    requires
        call_ensures(
            Sender::pack::<C>,
            (sender, codec, Decoded::Motion { dx, dy }, original),
            r,
        ),
    ensures
        ({
            let (s, n) = (*old(sender), *final(sender));
            &&& call_ensures(C::plus, (codec, s.x, dx), n.x)
            &&& call_ensures(C::plus, (codec, s.y, dy), n.y)
            &&& n.reliable == s.reliable
            &&& r is Ok <==> finite(n.x) && finite(n.y) && s.sequence < u64::MAX
            &&& r matches Ok(packed) ==> {
                let w = packed.1@;
                &&& packed.0
                &&& n.sequence == s.sequence + 1
                &&& call_ensures(C::moved, (codec, &original, n.x, n.y), n.last)
                &&& w.len() == 20 + n.last@.len()
                &&& w[0] == 241 && w[1] == 1 && w[2] == 0
                &&& number(w.subrange(3, 11)) == s.reliable
                &&& number(w.subrange(11, 19)) == n.sequence
                &&& n.last@.len() <= 255 ==> w[19] == n.last@.len()
                &&& w.skip(20) == n.last@
            }
            &&& r is Err ==> n.sequence == s.sequence && n.last == s.last
        }),
{
    let (s, n) = (*old(sender), *final(sender));
    if r is Ok {
        let w = r->Ok_0.1;
        lemma_layout(s.reliable, n.sequence, n.last@, Seq::empty(), w@);
        assert(w@.skip(20) =~= w@.subrange(20, 20 + n.last@.len() as int));
    }
}

/// Any other event leaves as a checkpoint: after the reliable events sent so far, with the latest motion
/// and its number, and then the event itself. It counts as the next reliable event and moves nothing.
pub proof fn law_other_events_are_checkpoints<C: Codec>(
    sender: &mut Sender,
    codec: &C,
    event: Decoded,
    original: Vec<u8>,
    r: Result<(bool, Vec<u8>), Fault>,
)
    requires
        call_ensures(Sender::pack::<C>, (sender, codec, event, original), r),
        !(event is Motion),
    ensures
        ({
            let (s, n) = (*old(sender), *final(sender));
            &&& n.sequence == s.sequence && n.x == s.x && n.y == s.y && n.last == s.last
            &&& r is Ok <==> s.reliable < u64::MAX
            &&& r is Err ==> n.reliable == s.reliable
            &&& r matches Ok(packed) ==> {
                let w = packed.1@;
                &&& !packed.0
                &&& n.reliable == s.reliable + 1
                &&& w.len() == 20 + s.last@.len() + original@.len()
                &&& w[0] == 241 && w[1] == 1
                &&& original@.len() > 0 ==> w[2] == 1
                &&& number(w.subrange(3, 11)) == s.reliable
                &&& number(w.subrange(11, 19)) == s.sequence
                &&& s.last@.len() <= 255 ==> w[19] == s.last@.len()
                &&& w.subrange(20, 20 + s.last@.len() as int) == s.last@
                &&& w.skip(20 + s.last@.len() as int) == original@
            }
        }),
{
    let (s, n) = (*old(sender), *final(sender));
    if r is Ok {
        lemma_layout(s.reliable, s.sequence, s.last@, original@, r->Ok_0.1@);
    }
}

/// Where the parts of a motion envelope stand.
proof fn lemma_layout(
    dependency: u64,
    sequence: u64,
    motion: Seq<u8>,
    critical: Seq<u8>,
    w: Seq<u8>,
)
    requires
        w == (crate::motion::FrameView {
            dependency,
            sequence,
            motion,
            event: Decoded::Other,
            critical,
        }).wire(),
    ensures
        w.len() == 20 + motion.len() + critical.len(),
        w[0] == 241 && w[1] == 1,
        w[2] == 0 <==> critical.len() == 0,
        w[2] == 1 <==> critical.len() > 0,
        number(w.subrange(3, 11)) == dependency,
        number(w.subrange(11, 19)) == sequence,
        motion.len() <= 255 ==> w[19] == motion.len(),
        w.subrange(20, 20 + motion.len() as int) == motion,
        w.skip(20 + motion.len() as int) == critical,
{
    crate::wire_laws::lemma_eight(dependency);
    crate::wire_laws::lemma_eight(sequence);
    assert(w.subrange(3, 11) =~= crate::bytes::le64(dependency));
    assert(w.subrange(11, 19) =~= crate::bytes::le64(sequence));
    assert(w.subrange(20, 20 + motion.len() as int) =~= motion);
    assert(w.skip(20 + motion.len() as int) =~= critical);
}

/// A datagram replaces the sample that waits exactly if it is newer than every motion seen or handed out
/// and does not depend on fewer reliable events than those that were delivered or that a sample seen
/// depended on. Any other changes nothing.
pub proof fn law_the_freshest_sample_waits(receiver: &mut Receiver, frame: Frame, r: bool)
    requires
        call_ensures(Receiver::datagram, (receiver, frame), r),
    ensures
        ({
            let (s, n) = (*old(receiver), *final(receiver));
            &&& r <==> frame.sequence > s.freshest && frame.sequence > s.sequence && frame.dependency
                >= s.reliable && frame.dependency >= s.freshest_dependency
            &&& r ==> n.pending == Some(frame) && n.freshest == frame.sequence
                && n.freshest_dependency == frame.dependency
            &&& n.reliable == s.reliable && n.sequence == s.sequence && n.x == s.x && n.y == s.y
            &&& !r ==> n == s
        }),
{
}

/// A waiting sample is handed out once every reliable event that it depends on was delivered, and no
/// later one; the event that comes out moves by as much as the sample's totals exceed those handed out
/// before, which are then the sample's.
pub proof fn law_samples_move_by_what_is_new<C: Codec>(
    receiver: &mut Receiver,
    codec: &C,
    frame: Frame,
    dx: u64,
    dy: u64,
    x: u64,
    y: u64,
    waits: bool,
    r: Result<Option<Vec<u8>>, Fault>,
)
    requires
        call_ensures(Receiver::ready, (&*old(receiver),), waits),
        call_ensures(Receiver::take::<C>, (receiver, codec), r),
        old(receiver).pending == Some(frame),
        frame.event == (Decoded::Motion { dx, dy }),
        frame.sequence > old(receiver).sequence,
        forall|a: u64| #[trigger]
            call_ensures(C::minus, (codec, dx, old(receiver).x), a) ==> a == x,
        forall|b: u64| #[trigger]
            call_ensures(C::minus, (codec, dy, old(receiver).y), b) ==> b == y,
    ensures
        ({
            let (s, n) = (*old(receiver), *final(receiver));
            &&& waits <==> frame.dependency <= s.reliable
            &&& !waits ==> r == Ok::<Option<Vec<u8>>, Fault>(None) && n == s
            &&& waits ==> n.pending is None
            &&& frame.dependency < s.reliable ==> r == Ok::<Option<Vec<u8>>, Fault>(None) && n
                == (Receiver { pending: None, ..s })
            &&& frame.dependency == s.reliable && finite(x) && finite(y) ==> {
                &&& r matches Ok(Some(bytes)) && call_ensures(
                    C::moved,
                    (codec, &frame.motion, x, y),
                    bytes,
                )
                &&& n.x == dx && n.y == dy && n.sequence == frame.sequence
                &&& n.reliable == s.reliable && n.freshest == s.freshest
            }
            &&& frame.dependency == s.reliable && !(finite(x) && finite(y)) ==> r is Err && n.x == s.x
                && n.y == s.y && n.sequence == s.sequence
        }),
{
}

/// Nothing is handed out where nothing waits.
pub proof fn law_nothing_waits_of_nothing<C: Codec>(
    receiver: &mut Receiver,
    codec: &C,
    waits: bool,
    r: Result<Option<Vec<u8>>, Fault>,
)
    requires
        call_ensures(Receiver::ready, (&*old(receiver),), waits),
        call_ensures(Receiver::take::<C>, (receiver, codec), r),
        old(receiver).pending is None,
    ensures
        !waits,
        r == Ok::<Option<Vec<u8>>, Fault>(None),
        *final(receiver) == *old(receiver),
{
}

/// A checkpoint is taken exactly if it is that of the next reliable event and follows all before it. Its
/// motion is handed out if it is newer than what was handed out, moved by what is new in it.
pub proof fn law_checkpoints_keep_their_place<C: Codec>(
    receiver: &mut Receiver,
    codec: &C,
    frame: Frame,
    sequence: u64,
    dx: u64,
    dy: u64,
    x: u64,
    y: u64,
    r: Result<Option<Vec<u8>>, Fault>,
)
    requires
        call_ensures(Receiver::checkpoint::<C>, (receiver, codec, &frame, sequence), r),
        frame.sequence > 0 ==> frame.event == (Decoded::Motion { dx, dy }),
        forall|a: u64| #[trigger]
            call_ensures(C::minus, (codec, dx, old(receiver).x), a) ==> a == x,
        forall|b: u64| #[trigger]
            call_ensures(C::minus, (codec, dy, old(receiver).y), b) ==> b == y,
    ensures
        ({
            let (s, n) = (*old(receiver), *final(receiver));
            let next = frame.dependency == s.reliable && sequence == s.reliable + 1;
            &&& !next ==> r is Err && n == s
            &&& next && frame.sequence <= s.sequence ==> r == Ok::<Option<Vec<u8>>, Fault>(None) && n.x
                == s.x && n.y == s.y && n.sequence == s.sequence
            &&& next && frame.sequence > s.sequence && finite(x) && finite(y) ==> {
                &&& r matches Ok(Some(bytes)) && call_ensures(
                    C::moved,
                    (codec, &frame.motion, x, y),
                    bytes,
                )
                &&& n.x == dx && n.y == dy && n.sequence == frame.sequence
            }
            &&& next && frame.sequence > s.sequence && !(finite(x) && finite(y)) ==> r is Err && n == s
            &&& r is Ok ==> {
                &&& n.reliable == sequence
                &&& n.freshest >= s.freshest && n.freshest >= frame.sequence
                &&& n.freshest == s.freshest || n.freshest == frame.sequence
                &&& n.freshest_dependency >= s.freshest_dependency && n.freshest_dependency
                    >= frame.dependency
                &&& n.freshest_dependency == s.freshest_dependency || n.freshest_dependency
                    == frame.dependency
                &&& n.pending == s.pending
            }
        }),
{
}

/// Both ends begin with nothing sent and nothing received.
pub proof fn law_motion_begins_at_rest(sender: Sender, receiver: Receiver)
    requires
        call_ensures(<Sender as Default>::default, (), sender),
        call_ensures(<Receiver as Default>::default, (), receiver),
    ensures
        sender.reliable == 0 && sender.sequence == 0 && sender.x == 0 && sender.y == 0
            && sender.last@.len() == 0,
        receiver.reliable == 0 && receiver.sequence == 0 && receiver.freshest == 0
            && receiver.freshest_dependency == 0 && receiver.x == 0 && receiver.y == 0
            && receiver.pending is None,
{
}

} // verus!
