//! What the bytes on the wire are: where each number stands in a frame, a motion envelope and a recovery
//! envelope, and that what is written is what is read.

use crate::bytes::{blank, le16, le32, le64};
use crate::event::Decoded;
use crate::fault::Fault;
use crate::frame::{self, Frame};
use crate::motion;
use crate::protocol::{self, negotiated, Baseline, Control, Envelope, Kind, Role, Session};
use vstd::prelude::*;

verus! {

/// The number that bytes stand for, the least significant first.
pub open spec fn number(bytes: Seq<u8>) -> int
    decreases bytes.len(),
{
    if bytes.len() == 0 {
        0
    } else {
        bytes[0] + 0x100 * number(bytes.skip(1))
    }
}

proof fn lemma_two(x: u16)
    ensures
        number(le16(x)) == x,
        le16(x).len() == 2,
{
    let s = le16(x);
    reveal_with_fuel(number, 3);
    assert(s.skip(1)[0] == s[1]);
    assert(s.skip(1).skip(1).len() == 0);
}

proof fn lemma_joins(a: Seq<u8>, b: Seq<u8>)
    requires
        a.len() == 2 || a.len() == 4,
    ensures
        a.len() == 2 ==> number(a + b) == number(a) + 0x1_0000 * number(b),
        a.len() == 4 ==> number(a + b) == number(a) + 0x1_0000_0000 * number(b),
{
    let s = a + b;
    reveal_with_fuel(number, 5);
    assert(s.skip(1)[0] == a[1]);
    assert(a.skip(1)[0] == a[1]);
    if a.len() == 2 {
        assert(s.skip(1).skip(1) =~= b);
        assert(a.skip(1).skip(1).len() == 0);
    } else {
        assert(s.skip(1).skip(1)[0] == a[2]);
        assert(a.skip(1).skip(1)[0] == a[2]);
        assert(s.skip(1).skip(1).skip(1)[0] == a[3]);
        assert(a.skip(1).skip(1).skip(1)[0] == a[3]);
        assert(s.skip(1).skip(1).skip(1).skip(1) =~= b);
        assert(a.skip(1).skip(1).skip(1).skip(1).len() == 0);
    }
}

pub proof fn lemma_four(x: u32)
    ensures
        number(le32(x)) == x,
        le32(x).len() == 4,
{
    let (a, b) = ((x % 0x1_0000) as u16, (x / 0x1_0000) as u16);
    lemma_two(a);
    lemma_two(b);
    lemma_joins(le16(a), le16(b));
}

pub proof fn lemma_eight(x: u64)
    ensures
        number(le64(x)) == x,
        le64(x).len() == 8,
{
    let (a, b) = ((x % 0x1_0000_0000) as u32, (x / 0x1_0000_0000) as u32);
    lemma_four(a);
    lemma_four(b);
    lemma_joins(le32(a), le32(b));
}

/// A frame begins with its tag, its version, its kind and the id of its session. An offer and its
/// confirmation go on with the conversation, data with its length and itself, and feedback with the
/// number of the last message sent and of the last one consumed.
pub proof fn law_frames_are_laid_out(frame: Frame, bytes: Vec<u8>)
    requires
        call_ensures(Frame::encode, (&frame,), bytes),
    ensures
        bytes@.len() >= 11 && bytes@[0] == 240 && bytes@[1] == 2,
        frame matches Frame::Offer { id, conv } ==> bytes@.len() == 15 && bytes@[2] == 0 && number(
            bytes@.subrange(3, 11),
        ) == id && number(bytes@.subrange(11, 15)) == conv,
        frame matches Frame::Ready { id, conv } ==> bytes@.len() == 15 && bytes@[2] == 1 && number(
            bytes@.subrange(3, 11),
        ) == id && number(bytes@.subrange(11, 15)) == conv,
        frame matches Frame::Data { id, payload } ==> bytes@.len() == 13 + payload@.len() && bytes@[2]
            == 2 && number(bytes@.subrange(3, 11)) == id && bytes@.skip(13) == payload@ && (
        payload@.len() <= 0xffff ==> number(bytes@.subrange(11, 13)) == payload@.len()),
        frame matches Frame::Progress { id, sent, processed } ==> bytes@.len() == 27 && bytes@[2] == 3
            && number(bytes@.subrange(3, 11)) == id && number(bytes@.subrange(11, 19)) == sent
            && number(bytes@.subrange(19, 27)) == processed,
{
    let id = frame@.id();
    lemma_eight(id);
    assert(bytes@.subrange(3, 11) =~= le64(id));
    match frame {
        Frame::Offer { conv, .. } => {
            lemma_four(conv);
            assert(bytes@.subrange(11, 15) =~= le32(conv));
        },
        Frame::Ready { conv, .. } => {
            lemma_four(conv);
            assert(bytes@.subrange(11, 15) =~= le32(conv));
        },
        Frame::Data { payload, .. } => {
            lemma_two(payload@.len() as u16);
            assert(bytes@.subrange(11, 13) =~= le16(payload@.len() as u16));
            assert(bytes@.skip(13) =~= payload@);
        },
        Frame::Progress { sent, processed, .. } => {
            lemma_eight(sent);
            lemma_eight(processed);
            assert(bytes@.subrange(11, 19) =~= le64(sent));
            assert(bytes@.subrange(19, 27) =~= le64(processed));
        },
    }
}

/// What is written is read again, if the session and the conversation are numbered and data is one
/// datagram of the engine; any other frame is refused.
pub proof fn law_frames_are_read_as_written(
    frame: Frame,
    bytes: Vec<u8>,
    arrived: &[u8],
    r: Option<Frame>,
)
    requires
        call_ensures(Frame::encode, (&frame,), bytes),
        arrived@ == bytes@,
        call_ensures(Frame::decode, (arrived,), r),
        frame matches Frame::Data { payload, .. } ==> payload@.len() <= 0xffff,
    ensures
        r is Some <==> match frame {
            Frame::Offer { id, conv } => id != 0 && conv != 0,
            Frame::Ready { id, conv } => id != 0 && conv != 0,
            Frame::Data { id, payload } => id != 0 && 24 <= payload@.len() <= 1100,
            Frame::Progress { id, .. } => id != 0,
        },
        r matches Some(f) ==> f@ == frame@,
{
    law_frames_are_laid_out(frame, bytes);
    if frame@.acceptable() {
        frame::law_frames_round_trip(frame@);
    } else if r is Some {
        frame::law_frames_are_canonical(bytes@);
        lemma_frames_differ(frame@, r->0@);
    }
}

/// Frames with the same bytes are the same, but for the length of a payload that is too long to say.
proof fn lemma_frames_differ(a: frame::FrameView, b: frame::FrameView)
    requires
        a.wire() == b.wire(),
        a matches frame::FrameView::Data { payload, .. } ==> payload.len() <= 0xffff,
        b.acceptable(),
    ensures
        a == b,
{
    let w = a.wire();
    assert(w[2] == a.kind() && w[2] == b.kind());
    lemma_eight(a.id());
    lemma_eight(b.id());
    assert(w.subrange(3, 11) =~= le64(a.id()));
    assert(w.subrange(3, 11) =~= le64(b.id()));
    assert(w.skip(11) =~= a.body());
    assert(w.skip(11) =~= b.body());
    match (a, b) {
        (frame::FrameView::Offer { conv: x, .. }, frame::FrameView::Offer { conv: y, .. }) => {
            lemma_four(x);
            lemma_four(y);
        },
        (frame::FrameView::Ready { conv: x, .. }, frame::FrameView::Ready { conv: y, .. }) => {
            lemma_four(x);
            lemma_four(y);
        },
        (frame::FrameView::Data { payload: x, .. }, frame::FrameView::Data { payload: y, .. }) => {
            assert(w.skip(13) =~= x);
            assert(w.skip(13) =~= y);
        },
        (
            frame::FrameView::Progress { sent: x, processed: p, .. },
            frame::FrameView::Progress { sent: y, processed: q, .. },
        ) => {
            lemma_eight(x);
            lemma_eight(y);
            lemma_eight(p);
            lemma_eight(q);
            assert(w.subrange(11, 19) =~= le64(x));
            assert(w.subrange(11, 19) =~= le64(y));
            assert(w.subrange(19, 27) =~= le64(p));
            assert(w.subrange(19, 27) =~= le64(q));
        },
        _ => {},
    }
}

/// What is read is written again as it was.
pub proof fn law_frames_are_written_as_read(bytes: &[u8], frame: Frame, again: Vec<u8>)
    requires
        call_ensures(Frame::decode, (bytes,), Some(frame)),
        call_ensures(Frame::encode, (&frame,), again),
    ensures
        again@ == bytes@,
{
    frame::law_frames_are_canonical(bytes@);
}

/// A motion envelope begins with its tag and its version and says whether it is a checkpoint; then come
/// the number of reliable events that precede it, its own number, the length of its motion, the motion,
/// and the reliable event of a checkpoint.
pub proof fn law_motion_is_laid_out(f: motion::Frame, bytes: Vec<u8>)
    requires
        call_ensures(motion::Frame::encode, (&f,), bytes),
    ensures
        bytes@.len() == 20 + f.motion@.len() + f.critical@.len(),
        bytes@[0] == 241 && bytes@[1] == 1,
        bytes@[2] == 0 <==> f.critical@.len() == 0,
        bytes@[2] == 1 <==> f.critical@.len() > 0,
        number(bytes@.subrange(3, 11)) == f.dependency,
        number(bytes@.subrange(11, 19)) == f.sequence,
        f.motion@.len() <= 255 ==> bytes@[19] == f.motion@.len(),
        bytes@.subrange(20, 20 + f.motion@.len() as int) == f.motion@,
        bytes@.skip(20 + f.motion@.len() as int) == f.critical@,
{
    lemma_eight(f.dependency);
    lemma_eight(f.sequence);
    assert(bytes@.subrange(3, 11) =~= le64(f.dependency));
    assert(bytes@.subrange(11, 19) =~= le64(f.sequence));
    assert(bytes@.subrange(20, 20 + f.motion@.len() as int) =~= f.motion@);
    assert(bytes@.skip(20 + f.motion@.len() as int) =~= f.critical@);
}

/// A motion envelope is read as it was written. A datagram has a numbered, finite motion and no reliable
/// event; a checkpoint has one, with or without a motion.
pub proof fn law_motion_is_read_as_written(
    f: motion::Frame,
    critical: bool,
    limit: usize,
    bytes: Vec<u8>,
    arrived: &[u8],
    inside: Vec<u8>,
    r: Result<motion::Frame, Fault>,
)
    requires
        call_ensures(motion::Frame::encode, (&f,), bytes),
        arrived@ == bytes@,
        call_ensures(motion::Frame::event_bytes, (arrived,), inside),
        call_ensures(motion::Frame::decode, (arrived, critical, limit, f.event), r),
        critical == (f.critical@.len() > 0),
        f.motion@.len() <= limit,
        f.motion@.len() <= 255,
    ensures
        inside@ == f.motion@,
        f.motion@.len() == 0 ==> (r is Ok <==> f.sequence == 0 && critical),
        f.motion@.len() > 0 ==> (r is Ok <==> f.sequence != 0 && match f.event {
            Decoded::Motion { dx, dy } => crate::event::finite(dx) && crate::event::finite(dy),
            _ => false,
        }),
        r matches Ok(read) ==> read@ == f@,
{
    let w = bytes@;
    law_motion_is_laid_out(f, bytes);
    if f@.acceptable(critical, limit) {
        motion::law_motion_round_trips(f@, critical, limit);
    } else {
        assert(motion::embedded(w) =~= f.motion@);
        if r is Ok {
            motion::law_motion_is_canonical(w, critical, limit, f.event);
            let g = r->Ok_0@;
            lemma_eight(g.sequence);
            lemma_eight(f.sequence);
            assert(w.subrange(11, 19) =~= le64(g.sequence));
            assert(w.subrange(11, 19) =~= le64(f.sequence));
        }
    }
}

/// A motion envelope that is read is written again as it was.
pub proof fn law_motion_is_written_as_read(
    bytes: &[u8],
    critical: bool,
    limit: usize,
    event: Decoded,
    f: motion::Frame,
    again: Vec<u8>,
)
    requires
        call_ensures(
            motion::Frame::decode,
            (bytes, critical, limit, event),
            Ok::<motion::Frame, Fault>(f),
        ),
        call_ensures(motion::Frame::encode, (&f,), again),
    ensures
        again@ == bytes@,
        f.event == event,
        critical <==> f.critical@.len() > 0,
        f.motion@.len() <= limit,
{
    motion::law_motion_is_canonical(bytes@, critical, limit, event);
}

/// An envelope begins with its tag and its version, says what it holds and who sent it, and names the
/// session and the epoch that it belongs to. Frames and motion follow as they are.
pub proof fn law_envelopes_are_laid_out(
    e: Envelope,
    limit: usize,
    event: Decoded,
    bytes: Vec<u8>,
)
    requires
        call_ensures(Envelope::encode, (&e, limit, &event), Some(bytes)),
    ensures
        bytes@.len() >= 29 && bytes@[0] == 242 && bytes@[1] == 1,
        match e {
            Envelope::Control(c) => bytes@[2] == 0 && bytes@.subrange(4, 20) == c.session@ && number(
                bytes@.subrange(20, 28),
            ) == c.epoch && (bytes@[3] == 0 <==> c.source is Dialer) && (bytes@[3] == 1 <==> c.source
                is Acceptor),
            Envelope::Reliable { session, epoch, source, frame } => bytes@[2] == 1 && bytes@.subrange(
                4,
                20,
            ) == session@ && number(bytes@.subrange(20, 28)) == epoch && (bytes@[3] == 0 <==> source
                is Dialer) && (bytes@[3] == 1 <==> source is Acceptor) && (forall|w: Vec<u8>| #[trigger]
                call_ensures(Frame::encode, (&frame,), w) ==> bytes@.skip(28) == w@),
            Envelope::Motion { session, epoch, source, bytes: inside } => bytes@[2] == 2
                && bytes@.subrange(4, 20) == session@ && number(bytes@.subrange(20, 28)) == epoch && (
            bytes@[3] == 0 <==> source is Dialer) && (bytes@[3] == 1 <==> source is Acceptor)
                && bytes@.skip(28) == inside@,
        },
{
    let w = bytes@;
    let v = e@;
    assert(v.session().len() == 16);
    lemma_eight(v.epoch());
    assert(w.subrange(4, 20) =~= v.session());
    assert(w.subrange(20, 28) =~= le64(v.epoch()));
    assert(w.skip(28) =~= v.body());
}

/// The body of a control frame: its kind, and with a baseline both coordinates, the layout, the ownership
/// and the owner.
pub proof fn law_controls_are_laid_out(c: Control, limit: usize, event: Decoded, bytes: Vec<u8>)
    requires
        call_ensures(Envelope::encode, (&Envelope::Control(c), limit, &event), Some(bytes)),
    ensures
        bytes@[28] == match c.kind {
            Kind::Request => 0u8,
            Kind::Prepare => 1u8,
            Kind::Prepared => 2u8,
            Kind::Commit => 3u8,
            Kind::CommitAck => 4u8,
            Kind::Activate => 5u8,
            Kind::ActivateAck => 6u8,
        },
        c.baseline is None ==> bytes@.len() == 29,
        c.baseline matches Some(b) ==> {
            &&& bytes@.len() == 70
            &&& number(bytes@.subrange(29, 37)) == b.x
            &&& number(bytes@.subrange(37, 45)) == b.y
            &&& number(bytes@.subrange(45, 53)) == b.layout
            &&& bytes@.subrange(53, 69) == b.ownership@
            &&& bytes@[69] == 0 <==> b.owner is Dialer
            &&& bytes@[69] == 1 <==> b.owner is Acceptor
        },
{
    let w = bytes@;
    let v = Envelope::Control(c)@;
    assert(v.session().len() == 16);
    lemma_eight(v.epoch());
    assert(w.skip(28) =~= v.body());
    assert(w[28] == v.body()[0]);
    if let Some(b) = c.baseline {
        lemma_eight(b.x);
        lemma_eight(b.y);
        lemma_eight(b.layout);
        assert(v.body().len() == 42);
        assert(w.subrange(29, 37) =~= le64(b.x));
        assert(w.subrange(37, 45) =~= le64(b.y));
        assert(w.subrange(45, 53) =~= le64(b.layout));
        assert(w.subrange(53, 69) =~= b.ownership@);
        assert(w[69] == v.body()[41]);
    }
}

/// An envelope is read as it was written and written again as it was read.
pub proof fn law_envelopes_are_read_as_written(
    e: Envelope,
    limit: usize,
    event: Decoded,
    bytes: Vec<u8>,
    arrived: &[u8],
    r: Option<Envelope>,
)
    requires
        limit <= 255,
        call_ensures(Envelope::encode, (&e, limit, &event), Some(bytes)),
        arrived@ == bytes@,
        call_ensures(Envelope::decode, (arrived, limit, &event), r),
    ensures
        r matches Some(read) && read@ == e@,
{
    protocol::law_envelopes_round_trip(e@, limit, event);
}

/// An envelope is sent exactly if it names a session and holds what its receiver accepts: a sound control
/// frame, a frame with its ids set and data of a size for the engine, or one numbered, finite motion.
pub proof fn law_envelopes_are_judged(
    e: Envelope,
    limit: usize,
    event: Decoded,
    r: Option<Vec<u8>>,
)
    requires
        call_ensures(Envelope::encode, (&e, limit, &event), r),
    ensures
        match e {
            Envelope::Control(c) => forall|valid: bool| #[trigger]
                call_ensures(Control::valid, (&c,), valid) ==> (r is Some <==> valid),
            Envelope::Reliable { session, frame, .. } => r is Some <==> !blank(session@)
                && match frame {
                Frame::Offer { id, conv } => id != 0 && conv != 0,
                Frame::Ready { id, conv } => id != 0 && conv != 0,
                Frame::Data { id, payload } => id != 0 && 24 <= payload@.len() <= 1100,
                Frame::Progress { id, .. } => id != 0,
            },
            Envelope::Motion { session, bytes, .. } => r is Some <==> {
                &&& !blank(session@)
                &&& bytes@.len() > 20 && bytes@[0] == 241 && bytes@[1] == 1 && bytes@[2] == 0
                &&& bytes@[19] <= limit && bytes@.len() == 20 + bytes@[19]
                &&& exists|i: int| 11 <= i < 19 && bytes@[i] != 0
                &&& event matches Decoded::Motion { dx, dy } && crate::event::finite(dx)
                    && crate::event::finite(dy)
            },
        },
{
    if let Envelope::Motion { bytes, .. } = e {
        let w = bytes@;
        if w.len() > 20 {
            let n = crate::bytes::at64(w, 11);
            assert(n == 0 ==> w[11] == 0 && w[12] == 0 && w[13] == 0 && w[14] == 0 && w[15] == 0
                && w[16] == 0 && w[17] == 0 && w[18] == 0);
            if exists|i: int| 11 <= i < 19 && w[i] != 0 {
                assert(n != 0);
            } else {
                assert(w[11] == 0 && w[12] == 0 && w[13] == 0 && w[14] == 0 && w[15] == 0 && w[16]
                    == 0 && w[17] == 0 && w[18] == 0);
            }
        }
    }
}

/// What is read as an envelope is written again as it was.
pub proof fn law_envelopes_are_written_as_read(
    bytes: &[u8],
    limit: usize,
    event: Decoded,
    e: Envelope,
    again: Option<Vec<u8>>,
)
    requires
        call_ensures(Envelope::decode, (bytes, limit, &event), Some(e)),
        call_ensures(Envelope::encode, (&e, limit, &event), again),
    ensures
        again matches Some(w) && w@ == bytes@,
{
    protocol::law_envelopes_are_canonical(bytes@, limit, event);
}

/// An envelope names the session, the epoch and the sender that it was made with.
pub proof fn law_envelopes_are_addressed(
    e: Envelope,
    session: Session,
    epoch: u64,
    source: Role,
    id: (Session, u64, Role),
    r: bool,
)
    requires
        call_ensures(Envelope::identity, (&e,), id),
        call_ensures(Envelope::matches, (&e, session, epoch, source), r),
    ensures
        match e {
            Envelope::Control(c) => id.0@ == c.session@ && id.1 == c.epoch && id.2 == c.source,
            Envelope::Reliable { session: s, epoch: n, source: from, .. } => id.0@ == s@ && id.1 == n
                && id.2 == from,
            Envelope::Motion { session: s, epoch: n, source: from, .. } => id.0@ == s@ && id.1 == n
                && id.2 == from,
        },
        r <==> id.0@ == session@ && id.1 == epoch && id.2 == source,
{
}

/// Each kind of control frame but the request comes from one role, and only the frames that say where an
/// end stands carry a baseline.
pub proof fn law_controls_have_a_sender(
    kind: Kind,
    role: Role,
    other: Role,
    from: Option<Role>,
    based: bool,
)
    requires
        call_ensures(Role::peer, (role,), other),
        call_ensures(Kind::sender, (kind,), from),
        call_ensures(Kind::has_baseline, (kind,), based),
    ensures
        other != role,
        kind is Request <==> from is None,
        kind is Prepare || kind is Commit || kind is Activate <==> from == Some(Role::Dialer),
        kind is Prepared || kind is CommitAck || kind is ActivateAck <==> from == Some(Role::Acceptor),
        based <==> kind is Prepared || kind is Commit,
{
}

/// A control frame is sound exactly if it names a session, leaves an epoch to come, is sent by whom it
/// may be sent, and carries a sound baseline where and only where its kind does.
pub proof fn law_controls_are_judged(
    c: Control,
    r: bool,
    from: Option<Role>,
    based: bool,
    b: Baseline,
    standing: bool,
)
    requires
        call_ensures(Control::valid, (&c,), r),
        call_ensures(Kind::sender, (c.kind,), from),
        call_ensures(Kind::has_baseline, (c.kind,), based),
        c.baseline is Some ==> c.baseline == Some(b),
        call_ensures(Baseline::valid, (&b,), standing),
    ensures
        r <==> {
            &&& exists|i: int| 0 <= i < 16 && c.session@[i] != 0
            &&& c.epoch < 0xffff_ffff_ffff_ffff
            &&& from is None || from == Some(c.source)
            &&& based == (c.baseline is Some)
            &&& c.baseline is Some ==> standing
        },
        standing <==> {
            &&& b.x % 0x8000_0000_0000_0000 <= 0x41DF_FFFF_FFC0_0000
            &&& b.y % 0x8000_0000_0000_0000 <= 0x41DF_FFFF_FFC0_0000
            &&& b.layout != 0
            &&& exists|i: int| 0 <= i < 16 && b.ownership@[i] != 0
        },
{
    assert(blank(c.session@) <==> !(exists|i: int| 0 <= i < 16 && c.session@[i] != 0));
    assert(blank(b.ownership@) <==> !(exists|i: int| 0 <= i < 16 && b.ownership@[i] != 0));
}

/// Recovery is used where KCP is and both ends can do it.
pub proof fn law_recovery_needs_both_ends(local: u32, remote: u32, kcp: bool, r: bool)
    requires
        call_ensures(negotiated, (local, remote, kcp), r),
    ensures
        r <==> kcp && local & 64 != 0 && remote & 64 != 0,
{
    assert((local & remote & 64 != 0) == (local & 64 != 0 && remote & 64 != 0)) by (bit_vector);
}

} // verus!
