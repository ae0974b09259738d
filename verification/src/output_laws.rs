//! How packets leave a recoverable connection: each inside an envelope that names the session, the epoch
//! and the sender.

use crate::driver::{conduct, envelope, enveloped, Driver, Taken};
use crate::driver_laws::sums_finitely;
use crate::event::{finite, Codec, Decoded};
use crate::fault::Fault;
use crate::frame::{self, FrameView};
use crate::lifecycle::{Generation, Link, Runtime};
use crate::motion;
use crate::peer::{is_outdated, WirePacket};
use crate::protocol::EnvelopeView;
use crate::recovery::{round_of, round_parts, Machine, Recovery};
use crate::wire_laws::{lemma_eight, number};
use vstd::prelude::*;

verus! {

broadcast use {round_of, round_parts};

/// Whether bytes are the envelope of these bytes: the tag, the version, what it holds, who sends it, the
/// session, the epoch, and the bytes themselves.
pub open spec fn wraps(wire: Seq<u8>, m: Machine, epoch: u64, motion: bool, bytes: Seq<u8>) -> bool {
    &&& wire.len() == 28 + bytes.len()
    &&& wire[0] == 242 && wire[1] == 1
    &&& wire[2] == 1 <==> !motion
    &&& wire[2] == 2 <==> motion
    &&& wire[3] == 0 <==> m.role is Dialer
    &&& wire[3] == 1 <==> m.role is Acceptor
    &&& wire.subrange(4, 20) == m.session@
    &&& number(wire.subrange(20, 28)) == epoch
    &&& wire.skip(28) == bytes
}

proof fn lemma_wraps(e: EnvelopeView, m: Machine, epoch: u64, motion: bool, bytes: Seq<u8>)
    requires
        e.session() == m.session@,
        e.epoch() == epoch,
        e.source() == m.role,
        e.body() == bytes,
        motion ==> e is Motion,
        !motion ==> e is Reliable,
    ensures
        wraps(e.wire(), m, epoch, motion, bytes),
{
    let w = e.wire();
    assert(m.session@.len() == 16);
    lemma_eight(epoch);
    assert(w.subrange(4, 20) =~= m.session@);
    assert(w.subrange(20, 28) =~= crate::bytes::le64(epoch));
    assert(w.skip(28) =~= bytes);
}

/// What leaves of bytes, inside the epoch that is open to receive or else the one that is probed.
proof fn lemma_enveloped(
    bytes: Seq<u8>,
    runtime: Runtime,
    motion: bool,
    limit: usize,
    event: Decoded,
    now: u64,
    probe: Option<u64>,
)
    ensures
        ({
            let m = runtime@.machine;
            let open = m.receive_gate(now);
            let epoch = if open is Some {
                open
            } else {
                probe
            };
            match enveloped(bytes, Some(runtime@), motion, limit, event, now, probe) {
                Ok(wire) => epoch is Some && wraps(wire, m, epoch->0, motion, bytes),
                Err(_) => true,
            }
        }),
{
    let m = runtime@.machine;
    let open = m.receive_gate(now);
    let epoch = if open is Some {
        open
    } else {
        probe
    };
    if epoch is Some {
        if motion {
            let e = EnvelopeView::Motion {
                session: m.session@,
                epoch: epoch->0,
                source: m.role,
                bytes,
            };
            lemma_wraps(e, m, epoch->0, motion, bytes);
        } else if frame::parse(bytes) is Some {
            frame::law_frames_are_canonical(bytes);
            let e = EnvelopeView::Reliable {
                session: m.session@,
                epoch: epoch->0,
                source: m.role,
                frame: frame::parse(bytes)->0,
            };
            lemma_wraps(e, m, epoch->0, motion, bytes);
        }
    }
}

/// Without recovery, bytes leave as they are. With it, they leave inside an envelope of the epoch that is
/// open to receive, or of the one that is probed where none is. A frame does exactly if there is such an
/// epoch and a receiver accepts it.
pub proof fn law_packets_leave_inside_envelopes(
    bytes: Vec<u8>,
    runtime: Option<Runtime>,
    motion: bool,
    limit: usize,
    event: Decoded,
    now: u64,
    probe: Option<u64>,
    r: Result<Vec<u8>, Fault>,
    coordinator: Recovery,
    open: Option<u64>,
)
    requires
        runtime is Some ==> runtime->0@.well_formed() && coordinator@ == runtime->0@.machine,
        coordinator@.well_formed(),
        call_ensures(Recovery::receive_epoch, (&coordinator, now), open),
        call_ensures(envelope, (bytes, &runtime, motion, limit, &event, now, probe), r),
    ensures
        runtime is None ==> (r matches Ok(wire) && wire@ == bytes@),
        runtime is Some ==> {
            let epoch = if open is Some {
                open
            } else {
                probe
            };
            &&& r matches Ok(wire) ==> epoch is Some && wraps(
                wire@,
                coordinator@,
                epoch->0,
                motion,
                bytes@,
            )
            &&& !motion ==> (r is Ok <==> epoch is Some && frame::parse(bytes@) is Some)
            &&& epoch is None ==> r is Err
        },
{
    if let Some(it) = runtime {
        lemma_enveloped(bytes@, it, motion, limit, event, now, probe);
        if !motion && frame::parse(bytes@) is Some {
            frame::law_frames_are_canonical(bytes@);
        }
    }
}

/// The session's packets leave in order there too, each inside an envelope, to be written before it is
/// late and while its generation is the link's.
pub proof fn law_wrapped_output_leaves_in_order(
    driver: &mut Driver,
    link: Link,
    now: u64,
    r: Result<Option<WirePacket>, Fault>,
    coordinator: Recovery,
    open: Option<u64>,
)
    requires
        old(driver).inv(link),
        old(driver).runtime is Some,
        coordinator@ == old(driver).runtime->0@.machine,
        call_ensures(Recovery::receive_epoch, (&coordinator, now), open),
        call_ensures(Driver::next_output, (driver, &link, now), r),
        old(driver).direct_output is None,
        old(driver).session@.wire.len() + old(driver).session@.output.len() > 0,
    ensures
        ({
            let (s, n) = (old(driver).session@, final(driver).session@);
            let own = s.wire.len() > 0 && (s.output.len() == 0 || s.wire[0].0 <= s.output[0].0);
            let data = FrameView::Data { id: s.id, payload: s.output[0].1 };
            let created = if own {
                s.wire[0].0
            } else {
                s.output[0].0
            };
            let stall = old(driver).timeouts.stall@;
            &&& own ==> n.wire == s.wire.skip(1) && n.output == s.output
            &&& !own ==> n.output == s.output.skip(1) && n.wire == s.wire
            &&& r matches Ok(sent) ==> {
                &&& sent matches Some(packet)
                &&& packet.generation == link.generation
                &&& created + stall <= u64::MAX ==> packet.deadline == created + stall
                &&& open is Some ==> wraps(
                    packet.bytes@,
                    coordinator@,
                    open->0,
                    false,
                    if own {
                        s.wire[0].1
                    } else {
                        data.wire()
                    },
                )
                &&& open is None ==> old(driver).pending_probe is Some && wraps(
                    packet.bytes@,
                    coordinator@,
                    (old(driver).pending_probe->0.epoch_of() + 1) as u64,
                    false,
                    if own {
                        s.wire[0].1
                    } else {
                        data.wire()
                    },
                )
            }
            &&& r is Ok <==> (open is Some || old(driver).pending_probe is Some) && frame::parse(
                if own {
                    s.wire[0].1
                } else {
                    data.wire()
                },
            ) is Some
        }),
{
    let s = old(driver).session@;
    let own = s.wire.len() > 0 && (s.output.len() == 0 || s.wire[0].0 <= s.output[0].0);
    let bytes = if own {
        s.wire[0].1
    } else {
        (FrameView::Data { id: s.id, payload: s.output[0].1 }).wire()
    };
    if s.wire.len() > 0 {
        assert(s.wire.subrange(1, s.wire.len() as int) =~= s.wire.skip(1));
    }
    if s.output.len() > 0 {
        assert(s.output.subrange(1, s.output.len() as int) =~= s.output.skip(1));
    }
    assert(conduct(old(driver).runtime) == Some(old(driver).runtime->0@));
    lemma_enveloped(
        bytes,
        old(driver).runtime->0,
        false,
        old(driver).event_limit,
        Decoded::Other,
        now,
        old(driver).probe_epoch(),
    );
    if frame::parse(bytes) is Some {
        frame::law_frames_are_canonical(bytes);
    }
}

/// On a recoverable connection, motion by datagram leaves inside an envelope of the open epoch, if the
/// codec reads what it wrote.
pub proof fn law_wrapped_motion_leaves_by_datagram<C: Codec>(
    driver: &mut Driver,
    codec: &C,
    dx: u64,
    dy: u64,
    bytes: Vec<u8>,
    generation: Option<Generation>,
    link: Link,
    now: u64,
    over: bool,
    r: Result<Taken, Fault>,
    coordinator: Recovery,
    open: Option<u64>,
)
    requires
        old(driver).inv(link),
        call_ensures(
            Driver::command::<C>,
            (driver, codec, Decoded::Motion { dx, dy }, bytes, &generation, &link, now),
            r,
        ),
        call_ensures(is_outdated, (&generation, &link, now), over),
        !link.frozen,
        !over,
        old(driver).reliable == Some(true),
        old(driver).hybrid == Some(true),
        old(driver).runtime is Some,
        coordinator@ == old(driver).runtime->0@.machine,
        call_ensures(Recovery::receive_epoch, (&coordinator, now), open),
        open is Some,
        old(driver).sender.sequence < u64::MAX,
        sums_finitely(codec, old(driver).sender.x, dx),
        sums_finitely(codec, old(driver).sender.y, dy),
        0 < final(driver).sender.last@.len() <= 255,
        final(driver).sender.last@.len() <= old(driver).event_limit,
        forall|part: Vec<u8>, read: Decoded|
            part@ == final(driver).sender.last@ && #[trigger] call_ensures(
                C::fixed,
                (codec, &part),
                read,
            ) ==> (read matches Decoded::Motion { dx: a, dy: b } && finite(a) && finite(b)),
    ensures
        r matches Ok(Taken::Motion(packet)) && {
            let (s, n) = (old(driver).sender, final(driver).sender);
            let sent = (motion::FrameView {
                dependency: s.reliable,
                sequence: (s.sequence + 1) as u64,
                motion: n.last@,
                event: Decoded::Other,
                critical: Seq::empty(),
            }).wire();
            &&& n.sequence == s.sequence + 1
            &&& wraps(packet.bytes@, coordinator@, open->0, true, sent)
            &&& packet.generation == link.generation
        },
        final(driver).session == old(driver).session,
{
    let (d, n) = (*old(driver), *final(driver));
    let event = Decoded::Motion { dx, dy };
    let (packed, inner, mid) = choose|
        packed: Result<(bool, Vec<u8>), Fault>,
        inner: Decoded,
        mid: Driver,
    |
        {
            &&& d.sender.packs(codec, event, bytes, packed, mid.sender)
            &&& mid == (Driver { sender: mid.sender, ..d })
            &&& packed matches Ok((true, frame)) ==> exists|part: Vec<u8>|
                part@ == motion::embedded(frame@) && #[trigger] call_ensures(
                    C::fixed,
                    (codec, &part),
                    inner,
                )
            &&& #[trigger] mid.sends_packed(packed, inner, link, now, r, n)
        };
    assert(packed is Ok);
    let out = packed->Ok_0.1@;
    let view = motion::FrameView {
        dependency: d.sender.reliable,
        sequence: mid.sender.sequence,
        motion: mid.sender.last@,
        event: Decoded::Motion { dx: 0, dy: 0 },
        critical: Seq::empty(),
    };
    assert(out == view.wire());
    assert(n.sender == mid.sender);
    motion::law_motion_round_trips(view, false, d.event_limit);
    assert(motion::embedded(out) == n.sender.last@);
    motion::law_envelopes_carry_what_is_read(out, d.event_limit, inner);
    lemma_sound(out, d.event_limit, inner);
    lemma_enveloped(out, d.runtime->0, true, d.event_limit, inner, now, None);
}

/// What is read as a motion envelope with one finite motion is so with any other.
proof fn lemma_sound(bytes: Seq<u8>, limit: usize, event: Decoded)
    requires
        motion::parse(bytes, false, limit, Decoded::Motion { dx: 0, dy: 0 }) is Ok,
        event matches Decoded::Motion { dx, dy } && finite(dx) && finite(dy),
    ensures
        crate::protocol::motion_sound(bytes, limit, event),
{
    motion::law_envelopes_carry_what_is_read(bytes, limit, Decoded::Motion { dx: 0, dy: 0 });
}

} // verus!
