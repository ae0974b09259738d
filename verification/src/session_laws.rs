//! What a session is for: how two ends open it, what each message and each frame does to it, and when it
//! ends.

use crate::bytes::at64;
use crate::fault::Fault;
use crate::frame::{self, FrameView, MTU};
use crate::policy::Timeouts;
use crate::engine::{
    kcp_acknowledged, kcp_after_input, kcp_inbox, segments_sound, within,
};
use crate::session::{
    law_runs_arrive_as_sent, numbered_all, session_keeps, stamped, Channel, Session,
};
use vstd::prelude::*;

verus! {

/// Whether a session is open.
pub open spec fn is_open(s: Channel) -> bool {
    s.ready && !s.closed
}

/// A new session waits for its greeting: it is not open, has sent and received nothing, and keeps the
/// ids and the timeouts that it was given.
pub proof fn law_new_sessions_wait(
    dialer: bool,
    id: u64,
    conv: u32,
    now: u64,
    timeouts: Timeouts,
    layout: usize,
    session: Session,
    ready: bool,
    output: bool,
    received: bool,
)
    requires
        call_ensures(Session::with_timeout, (dialer, id, conv, now, timeouts, layout), session),
        call_ensures(Session::ready, (&session,), ready),
        call_ensures(Session::has_output, (&session,), output),
        call_ensures(Session::has_received, (&session,), received),
    ensures
        !ready && !output && !received,
        session.inv(),
        ({
            let s = session@;
            &&& s.dialer == dialer && s.id == id && s.conv == conv
            &&& !s.hello && !s.closed && !s.running
            &&& s.sent == 0 && s.received == 0 && s.consumed == 0
            &&& s.started == now && s.last_peer == now
            &&& s.stall_ms == timeouts.stall@ && s.peer_ms == timeouts.peer@
            &&& layout + 72 <= usize::MAX ==> s.limit == layout + 72
        }),
{
}

/// A session of a recovered epoch is open at once, and otherwise new.
pub proof fn law_recovered_sessions_are_open(
    dialer: bool,
    id: u64,
    conv: u32,
    now: u64,
    timeouts: Timeouts,
    layout: usize,
    r: Result<Session, Fault>,
)
    requires
        call_ensures(Session::recovered, (dialer, id, conv, now, timeouts, layout), r),
    ensures
        r is Ok,
        ({
            let s = r->Ok_0@;
            &&& is_open(s) && s.hello && s.running
            &&& s.dialer == dialer && s.id == id && s.conv == conv
            &&& s.sent == 0 && s.received == 0 && s.consumed == 0 && s.peer_sent == 0
            &&& s.outstanding.len() == 0 && s.incoming.len() == 0 && s.consuming.len() == 0
            &&& s.wire.len() == 0 && s.output.len() == 0
            &&& s.last_peer == now
            &&& s.stall_ms == timeouts.stall@ && s.peer_ms == timeouts.peer@
        }),
{
}

/// A peer without KCP closes the session. With it, the greeting makes a dialer start its engine and offer
/// the session, and makes an acceptor listen; a second greeting changes nothing.
pub proof fn law_greetings_open_the_negotiation(
    session: &mut Session,
    supported: bool,
    now: u64,
    r: Result<(), Fault>,
)
    requires
        old(session).inv(),
        call_ensures(Session::hello, (session, supported, now), r),
        !old(session)@.closed,
        old(session)@.wire.len() < 64,
    ensures
        !supported ==> r is Err && final(session)@.closed,
        supported ==> r is Ok && final(session)@.hello && !final(session)@.closed
            && final(session)@.ready == old(session)@.ready,
        supported && !old(session)@.hello && old(session)@.dialer ==> {
            let (s, n) = (old(session)@, final(session)@);
            &&& n.running
            &&& n.wire.len() == s.wire.len() + 1
            &&& n.wire.last().0 == now
            &&& frame::parse(n.wire.last().1) == Some(FrameView::Offer { id: s.id, conv: s.conv })
                || s.id == 0 || s.conv == 0
            &&& n.id == s.id && n.conv == s.conv
        },
        supported && !old(session)@.hello && !old(session)@.dialer ==> final(session)@.wire == old(session)@.wire && !final(session)@.running,
        supported && old(session)@.hello ==> final(session)@ == (Channel { now, ..old(session)@ }),
{
    session_keeps(*old(session));
    let s = old(session)@;
    frame::law_frames_round_trip(FrameView::Offer { id: s.id, conv: s.conv });
}

/// An offer makes an acceptor take over its ids and confirm them; one that repeats them is confirmed
/// again, and any other closes the session.
pub proof fn law_offers_are_confirmed(
    session: &mut Session,
    id: u64,
    conv: u32,
    now: u64,
    bytes: &[u8],
    r: Result<(), Fault>,
)
    requires
        old(session).inv(),
        call_ensures(Session::input, (session, bytes, now), r),
        frame::parse(bytes@) == Some(FrameView::Offer { id, conv }),
        !old(session)@.closed,
        old(session)@.hello,
        !old(session)@.dialer,
        old(session)@.wire.len() < 64,
    ensures
        !old(session)@.running || (id == old(session)@.id && conv == old(session)@.conv) ==> {
            let (s, n) = (old(session)@, final(session)@);
            &&& r is Ok
            &&& n.running && !n.closed
            &&& n.id == id && n.conv == conv
            &&& n.wire.len() == s.wire.len() + 1
            &&& frame::parse(n.wire.last().1) == Some(FrameView::Ready { id, conv })
            &&& n.received == s.received && n.incoming == s.incoming
        },
        old(session)@.running && (id != old(session)@.id || conv != old(session)@.conv) ==> r is Err
            && final(session)@.closed,
{
    frame::law_frames_are_canonical(bytes@);
    frame::law_frames_round_trip(FrameView::Ready { id, conv });
}

/// The confirmation of its own offer opens a dialer's session, and the peer is known to live.
pub proof fn law_confirmations_open_the_session(
    session: &mut Session,
    now: u64,
    bytes: &[u8],
    r: Result<(), Fault>,
)
    requires
        old(session).inv(),
        call_ensures(Session::input, (session, bytes, now), r),
        frame::parse(bytes@) == Some(
            FrameView::Ready { id: old(session)@.id, conv: old(session)@.conv },
        ),
        !old(session)@.closed,
        old(session)@.hello,
        old(session)@.dialer,
        !old(session)@.ready,
        old(session)@.output.len() == 0,
        old(session)@.segments < 0x7000_0000,
        old(session)@.carried < 0x7000_0000,
    ensures
        r is Ok,
        is_open(final(session)@),
        final(session)@.last_peer == now,
        final(session)@.waiting.len() == old(session)@.waiting.len() + 1,
        final(session)@.sent == old(session)@.sent,
{
    assert(crate::engine::pieces(
        crate::session::zeros(),
        (MTU - crate::engine::HEADER) as nat,
    ) =~= seq![crate::session::zeros()]);
}

/// What is no frame, and a frame that has no place, closes the session; data and feedback of another
/// session count for nothing.
pub proof fn law_misplaced_frames_close(
    session: &mut Session,
    now: u64,
    bytes: &[u8],
    r: Result<(), Fault>,
)
    requires
        old(session).inv(),
        call_ensures(Session::input, (session, bytes, now), r),
        !old(session)@.closed,
    ensures
        !old(session)@.hello || frame::parse(bytes@) is None ==> r is Err && final(session)@.closed,
        old(session)@.hello && (frame::parse(bytes@) matches Some(FrameView::Offer { .. })) && old(session)@.dialer ==> r is Err && final(session)@.closed,
        old(session)@.hello && (frame::parse(bytes@) matches Some(FrameView::Ready { id, conv }) && (
        !old(session)@.dialer || id != old(session)@.id || conv != old(session)@.conv)) ==> r is Err
            && final(session)@.closed,
        old(session)@.hello && (frame::parse(bytes@) matches Some(FrameView::Data { id, .. }) && id
            != old(session)@.id) ==> r is Ok && final(session)@ == (Channel { now, ..old(session)@ }),
        old(session)@.hello && (frame::parse(bytes@) matches Some(
            FrameView::Progress { id, .. },
        ) && id != old(session)@.id) ==> r is Ok && final(session)@ == (Channel {
            now,
            ..old(session)@
        }),
{
}

/// Feedback takes exactly the messages that the peer has consumed off those that are outstanding, renews
/// the deadline of the rest if it takes any, and proves that the peer lives. That the peer has consumed
/// what was never sent closes the session.
pub proof fn law_feedback_settles_what_was_consumed(
    session: &mut Session,
    sent: u64,
    processed: u64,
    now: u64,
    bytes: &[u8],
    r: Result<(), Fault>,
)
    requires
        old(session).inv(),
        call_ensures(Session::input, (session, bytes, now), r),
        frame::parse(bytes@) == Some(
            FrameView::Progress { id: old(session)@.id, sent, processed },
        ),
        !old(session)@.closed,
        old(session)@.hello,
        old(session)@.running,
    ensures
        processed > old(session)@.sent ==> r is Err && final(session)@.closed,
        processed <= old(session)@.sent ==> {
            let (s, n) = (old(session)@, final(session)@);
            &&& r is Ok
            &&& n.ready == s.ready && !n.closed
            &&& n.last_peer == now
            &&& n.outstanding.len() <= s.outstanding.len()
            &&& n.outstanding == s.outstanding.skip(s.outstanding.len() - n.outstanding.len())
            &&& forall|i: int|
                0 <= i < n.outstanding.len() ==> (#[trigger] n.outstanding[i]).0 > processed
            &&& forall|i: int|
                0 <= i < s.outstanding.len() - n.outstanding.len() ==> (
                #[trigger] s.outstanding[i]).0 <= processed
            &&& n.outstanding.len() == 0 ==> n.acknowledgement_since is None
            &&& 0 < n.outstanding.len() < s.outstanding.len() ==> n.acknowledgement_since == Some(
                now,
            )
            &&& 0 < n.outstanding.len() == s.outstanding.len() ==> n.acknowledgement_since
                == s.acknowledgement_since
            &&& n.peer_sent >= s.peer_sent && n.peer_sent >= sent
            &&& n.peer_sent == s.peer_sent || n.peer_sent == sent
            &&& n.peer_sent > s.received && s.gap_since is None ==> n.gap_since == Some(now)
            &&& s.gap_since is Some || n.peer_sent <= s.received ==> n.gap_since == s.gap_since
            &&& n.incoming == s.incoming && n.received == s.received && n.consumed == s.consumed
                && n.sent == s.sent
        },
{
    session_keeps(*old(session));
    let s = old(session)@;
    lemma_beyond(s.outstanding, processed);
}

/// What is left of a queue is its end, from the first entry that counts on.
proof fn lemma_beyond(queue: Seq<(u64, u64)>, processed: u64)
    ensures
        ({
            let left = crate::session::beyond(queue, processed);
            &&& left.len() <= queue.len()
            &&& left == queue.skip(queue.len() - left.len())
            &&& left.len() > 0 ==> left[0].0 > processed
            &&& forall|i: int|
                0 <= i < queue.len() - left.len() ==> (#[trigger] queue[i]).0 <= processed
        }),
    decreases queue.len(),
{
    let left = crate::session::beyond(queue, processed);
    if queue.len() > 0 && queue[0].0 <= processed {
        let rest = queue.subrange(1, queue.len() as int);
        lemma_beyond(rest, processed);
        assert(left =~= queue.skip(queue.len() - left.len()));
        assert forall|i: int| 0 <= i < queue.len() - left.len() implies (
        #[trigger] queue[i]).0 <= processed by {
            if i > 0 {
                assert(queue[i] == rest[i - 1]);
            }
        }
    } else {
        assert(left =~= queue.skip(0));
    }
}

/// The engine's next message, if it bears the next number, is of a size that the session takes and finds
/// room, waits for the application under that number. Any other closes the session, but for the
/// dialer's first message, which bears no number and only opens the way.
pub proof fn law_the_next_message_is_accepted(
    session: &mut Session,
    message: Vec<u8>,
    r: Result<(), Fault>,
)
    requires
        old(session).inv(),
        old(session)@.running,
        call_ensures(Session::accept, (session, message), r),
        !old(session)@.closed,
    ensures
        ({
            let (s, n) = (old(session)@, final(session)@);
            let fits = 8 <= message@.len() <= s.limit && s.consuming.len() < 64;
            let number = at64(message@, 0);
            &&& fits && number == s.received + 1 ==> {
                &&& r is Ok
                &&& n.received == number
                &&& n.incoming == s.incoming.push((number, message@.skip(8)))
                &&& n.consuming == s.consuming.push((number, s.now))
                &&& n.peer_sent >= number
                &&& n.sent == s.sent && n.consumed == s.consumed && n.ready == s.ready && !n.closed
            }
            &&& fits && number == 0 && message@.len() == 8 && !s.dialer && s.received == 0
                ==> r is Ok && n == s
            &&& !fits || (number != s.received + 1 && !(number == 0 && message@.len() == 8
                && !s.dialer && s.received == 0)) ==> r is Err && n.closed
        }),
{
    assert(message@.len() >= 8 ==> message@.subrange(8, message@.len() as int) =~= message@.skip(8));
}

/// The application gets the messages that wait in their order, each once.
pub proof fn law_messages_are_received_in_order(
    session: &mut Session,
    r: Option<(u64, Vec<u8>)>,
    waits: bool,
)
    requires
        old(session).inv(),
        call_ensures(Session::receive, (session,), r),
        call_ensures(Session::has_received, (&*old(session),), waits),
    ensures
        waits <==> old(session)@.incoming.len() > 0,
        r is Some <==> waits,
        r matches Some(m) ==> m.0 == old(session)@.incoming[0].0 && m.1@ == old(session)@.incoming[0].1 && final(session)@ == (Channel {
            incoming: old(session)@.incoming.skip(1),
            ..old(session)@
        }),
        r is None ==> final(session)@ == old(session)@,
{
    let q = old(session)@.incoming;
    if q.len() > 0 {
        assert(q.subrange(1, q.len() as int) =~= q.skip(1));
    }
}

/// Messages are consumed in their order: the next one counts, and any other closes the session.
pub proof fn law_messages_are_consumed_in_order(
    session: &mut Session,
    sequence: u64,
    now: u64,
    r: Result<(), Fault>,
)
    requires
        old(session).inv(),
        call_ensures(Session::processed, (session, sequence, now), r),
    ensures
        r is Ok <==> !old(session)@.closed && sequence == old(session)@.consumed + 1 && sequence
            <= old(session)@.received,
        r is Ok ==> final(session)@.consumed == sequence && final(session)@.consuming == old(session)@.consuming.skip(1) && final(session)@.incoming == old(session)@.incoming
            && final(session)@.ready == old(session)@.ready && !final(session)@.closed,
        r is Err ==> final(session)@.closed,
{
    let q = old(session)@.consuming;
    if q.len() > 0 {
        assert(q.subrange(1, q.len() as int) =~= q.skip(1));
    }
}

/// A session that is not open refuses to send and stays as it is. One whose window is full, or whose
/// message is too long, closes.
pub proof fn law_sending_needs_an_open_session(
    session: &mut Session,
    bytes: &[u8],
    now: u64,
    r: Result<(), Fault>,
    room: bool,
)
    requires
        old(session).inv(),
        call_ensures(Session::send, (session, bytes, now), r),
        call_ensures(Session::can_send, (&*old(session),), room),
    ensures
        !is_open(old(session)@) ==> r == Err::<(), Fault>(Fault::NotReady) && final(session)@ == (
        Channel { now, ..old(session)@ }),
        is_open(old(session)@) && (old(session)@.outstanding.len() >= 64 || old(session)@.waiting.len() >= 64 || bytes@.len() + 8 > old(session)@.limit) ==> r is Err
            && final(session)@.closed,
        room <==> is_open(old(session)@) && old(session)@.running && old(session)@.outstanding.len()
            < 64 && old(session)@.waiting.len() < 64,
        r is Ok ==> final(session)@.sent == old(session)@.sent + 1 && final(session)@.outstanding == old(session)@.outstanding.push((final(session)@.sent, now)),
{
}

/// A sign of life renews an open session's knowledge of the peer and nothing else.
pub proof fn law_signs_of_life_renew_nothing_else(session: &mut Session, now: u64)
    requires
        old(session).inv(),
        call_ensures(Session::peer_activity, (session, now), ()),
    ensures
        is_open(old(session)@) ==> final(session)@ == (Channel { last_peer: now, ..old(session)@ }),
        !is_open(old(session)@) ==> final(session)@ == old(session)@,
{
}

/// Motion that depends on a message that has not arrived shows a gap: its deadline starts, and is not
/// renewed by more of it.
pub proof fn law_motion_shows_gaps(session: &mut Session, dependency: u64, now: u64)
    requires
        old(session).inv(),
        call_ensures(Session::fresh_motion, (session, dependency, now), ()),
        is_open(old(session)@),
    ensures
        ({
            let (s, n) = (old(session)@, final(session)@);
            &&& n.last_peer == now
            &&& n.peer_sent >= dependency && n.peer_sent >= s.peer_sent
            &&& n.peer_sent == dependency || n.peer_sent == s.peer_sent
            &&& s.gap_since is None && dependency > s.received ==> n.gap_since == Some(now)
            &&& s.gap_since is Some ==> n.gap_since == s.gap_since
            &&& n.peer_sent <= s.received ==> n.gap_since == s.gap_since
            &&& n.acknowledgement_since == s.acknowledgement_since
            &&& n.consuming == s.consuming
            &&& n.outstanding == s.outstanding
            &&& n.incoming == s.incoming
        }),
{
}

/// A recovery is due exactly where an open session has made no progress for longer than it may.
pub proof fn law_recovery_is_due_when_input_stalls(session: Session, now: u64, r: bool)
    requires
        call_ensures(Session::recovery_due, (&session, now), r),
    ensures
        r <==> is_open(session@) && {
            let s = session@;
            ||| s.acknowledgement_since is Some && now > s.acknowledgement_since->0 + s.stall_ms
            ||| s.consuming.len() > 0 && now > s.consuming[0].1 + s.stall_ms
            ||| s.gap_since is Some && now > s.gap_since->0 + s.stall_ms
        },
{
}

/// Whether a deadline of a session has passed: that of its negotiation, of its peer's silence, of its
/// input, or of what waits for the writer.
pub open spec fn deadline_passed(s: Channel, now: u64) -> bool {
    ||| !s.ready && now >= s.started + 6000
    ||| s.ready && now > s.last_peer + s.peer_ms
    ||| s.ready && s.acknowledgement_since is Some && now > s.acknowledgement_since->0 + s.stall_ms
    ||| s.ready && s.consuming.len() > 0 && now > s.consuming[0].1 + s.stall_ms
    ||| s.ready && s.gap_since is Some && now > s.gap_since->0 + s.stall_ms
    ||| s.wire.len() > 0 && now > s.wire[0].0 + s.stall_ms
    ||| s.output.len() > 0 && now > s.output[0].0 + s.stall_ms
}

/// A tick fails exactly if the session is closed or a deadline has passed, and closes it then. Else it
/// keeps what was sent and received. A dialer that is not confirmed offers its session again every 100
/// milliseconds, and an open session reports every 50 what it has sent and consumed.
pub proof fn law_ticks_hold_deadlines(session: &mut Session, now: u64, r: Result<(), Fault>)
    requires
        old(session).inv(),
        call_ensures(Session::tick, (session, now), r),
    ensures
        r is Err <==> old(session)@.closed || deadline_passed(old(session)@, now),
        r is Err ==> final(session)@.closed,
        r is Ok ==> {
            let (s, n) = (old(session)@, final(session)@);
            &&& n.ready == s.ready && !n.closed && n.hello == s.hello && n.running == s.running
            &&& n.sent == s.sent && n.received == s.received && n.consumed == s.consumed
            &&& n.incoming == s.incoming && n.outstanding == s.outstanding && n.consuming
                == s.consuming && n.waiting == s.waiting
            &&& n.acknowledgement_since == s.acknowledgement_since && n.gap_since == s.gap_since
                && n.last_peer == s.last_peer
            &&& n.output.len() >= s.output.len() && n.output.take(s.output.len() as int) == s.output
            &&& n.wire.len() >= s.wire.len() && n.wire.take(s.wire.len() as int) == s.wire
            &&& s.hello && s.dialer && !s.ready && s.wire.len() < 64 && now >= s.last_offer + 100
                ==> n.wire.len() == s.wire.len() + 1 && n.wire.last().1 == (FrameView::Offer {
                id: s.id,
                conv: s.conv,
            }).wire() && n.last_offer == now
            &&& s.ready && s.wire.len() < 64 && now >= s.last_feedback + 50 ==> n.wire.len()
                == s.wire.len() + 1 && n.wire.last().1 == (FrameView::Progress {
                id: s.id,
                sent: s.sent,
                processed: s.consumed,
            }).wire() && n.last_feedback == now
            &&& s.ready && now < s.last_feedback + 50 ==> n.wire == s.wire
        },
{
    let (s, n) = (old(session)@, final(session)@);
    if r is Ok {
        assert(n.output.take(s.output.len() as int) =~= s.output);
        assert(n.wire.take(s.wire.len() as int) =~= s.wire);
    }
}

/// The older one of the first frame and the first datagram leaves first, and a frame before a datagram
/// of the same time; there is something to write exactly while one waits.
pub proof fn law_the_oldest_packet_leaves_first(
    session: &mut Session,
    r: Option<(u64, Vec<u8>)>,
    waits: bool,
)
    requires
        old(session).inv(),
        call_ensures(Session::pop_output, (session,), r),
        call_ensures(Session::has_output, (&*old(session),), waits),
    ensures
        ({
            let (s, n) = (old(session)@, final(session)@);
            &&& waits <==> s.wire.len() + s.output.len() > 0
            &&& r is Some <==> waits
            &&& s.wire.len() > 0 && (s.output.len() == 0 || s.wire[0].0 <= s.output[0].0) ==> {
                &&& r matches Some(m) && m.0 == s.wire[0].0 && m.1@ == s.wire[0].1
                &&& n == (Channel { wire: s.wire.skip(1), ..s })
            }
            &&& s.output.len() > 0 && (s.wire.len() == 0 || s.output[0].0 < s.wire[0].0) ==> {
                let data = FrameView::Data { id: s.id, payload: s.output[0].1 };
                &&& r matches Some(m) && m.0 == s.output[0].0 && m.1@ == data.wire()
                &&& n == (Channel { output: s.output.skip(1), ..s })
            }
        }),
{
    let s = old(session)@;
    if s.wire.len() > 0 {
        assert(s.wire.subrange(1, s.wire.len() as int) =~= s.wire.skip(1));
    }
    if s.output.len() > 0 {
        assert(s.output.subrange(1, s.output.len() as int) =~= s.output.skip(1));
    }
}

/// A datagram of the engine waits for the writer unless the session is closed, its queue is full or the
/// datagram is too long.
pub proof fn law_datagrams_wait_for_the_writer(session: &mut Session, datagram: Vec<u8>, r: bool)
    requires
        old(session).inv(),
        call_ensures(Session::queue, (session, datagram), r),
    ensures
        r <==> !old(session)@.closed && old(session)@.output.len() < 69 && datagram@.len() <= 1100,
        r ==> final(session)@.output == old(session)@.output.push(
            (old(session)@.now, datagram@),
        ),
        !r ==> final(session)@ == old(session)@,
        final(session)@.wire == old(session)@.wire,
{
    let s = old(session)@;
    assert(crate::session::stamped(seq![datagram@], s.now) =~= seq![(s.now, datagram@)]);
    assert(s.output + seq![(s.now, datagram@)] =~= s.output.push((s.now, datagram@)));
}

/// The peer's datagrams are taken while there is room for what they call for, and what waits for the
/// writer is late once the oldest of it has waited for longer than it may.
pub proof fn law_room_and_patience(session: Session, now: u64, room: bool, late: bool, done: bool)
    requires
        call_ensures(Session::can_input, (&session,), room),
        call_ensures(Session::output_expired, (&session, now), late),
        call_ensures(Session::recovery_probe_confirmed, (&session,), done),
    ensures
        room <==> session@.wire.len() < 64 && session@.output.len() <= 67,
        late <==> (session@.wire.len() > 0 && now > session@.wire[0].0 + session@.stall_ms) || (
        session@.output.len() > 0 && now > session@.output[0].0 + session@.stall_ms),
        done <==> session@.running && session@.waiting.len() == 0,
{
}

/// Whether a datagram is one that the engine can take now: its segments are sound, and the session is past
/// its negotiation.
pub open spec fn is_due(s: Channel, payload: Seq<u8>) -> bool {
    &&& s.ready || !s.dialer
    &&& segments_sound(payload, s.conv)
    &&& s.can_take(payload)
}

/// A datagram of the peer's engine opens the session and proves that the peer lives. The messages that it
/// completes, if they bear the numbers that come next and there is room for them, wait for the
/// application in their order, behind those that wait already; and a gap that it closes is closed.
pub proof fn law_datagrams_bring_messages(
    session: &mut Session,
    payload: Seq<u8>,
    contents: Seq<Seq<u8>>,
    now: u64,
    bytes: &[u8],
    r: Result<(), Fault>,
)
    requires
        old(session).inv(),
        call_ensures(Session::input, (session, bytes, now), r),
        frame::parse(bytes@) == Some(FrameView::Data { id: old(session)@.id, payload }),
        !old(session)@.closed,
        old(session)@.hello,
        old(session)@.running,
        is_due(Channel { now, ..old(session)@ }, payload),
        old(session)@.output.len() < 69,
        kcp_inbox(kcp_after_input(old(session)@.engine->0, payload)) == numbered_all(
            old(session)@.received,
            contents,
        ),
        old(session)@.received + contents.len() <= u64::MAX,
        old(session)@.consuming.len() + contents.len() <= 64,
        forall|i: int|
            0 <= i < contents.len() ==> (#[trigger] contents[i]).len() + 8 <= old(session)@.limit,
    ensures
        ({
            let (s, n) = (old(session)@, final(session)@);
            &&& r is Ok
            &&& is_open(n) && n.last_peer == now
            &&& n.received == s.received + contents.len()
            &&& n.incoming == s.incoming + Seq::new(
                contents.len(),
                |i: int| ((s.received + 1 + i) as u64, contents[i]),
            )
            &&& n.peer_sent <= n.received ==> n.gap_since is None
            &&& n.peer_sent > n.received && contents.len() > 0 ==> n.gap_since == Some(now)
            &&& n.peer_sent > n.received && contents.len() == 0 ==> n.gap_since == s.gap_since
            &&& n.sent == s.sent && n.outstanding == s.outstanding && n.consumed == s.consumed
        }),
{
    session_keeps(*old(session));
    let s = Channel { now, ..old(session)@ };
    let fed = kcp_after_input(s.engine->0, payload);
    let o = s.opened(payload);
    let messages = kcp_inbox(fed);
    if kcp_acknowledged(fed).len() > 0 {
        lemma_stamped(s, kcp_acknowledged(fed));
    }
    assert(o.well_formed()) by {
        lemma_opened(s, payload);
    }
    law_runs_arrive_as_sent(o, contents);
    lemma_kept(o, messages);
    assert(numbered_all(o.received, contents) == messages);
}

proof fn lemma_stamped(s: Channel, written: Seq<Seq<u8>>)
    ensures
        stamped(written, s.now).len() == written.len(),
        forall|i: int|
            0 <= i < written.len() ==> (#[trigger] stamped(written, s.now)[i]).1 == written[i],
{
}

/// A session that has taken a datagram is still in order.
proof fn lemma_opened(s: Channel, payload: Seq<u8>)
    requires
        s.well_formed(),
        !s.closed,
        s.running,
        s.hello,
        s.can_take(payload),
        s.output.len() < 69,
        kcp_acknowledged(kcp_after_input(s.engine->0, payload)).len() <= 1,
        within(kcp_acknowledged(kcp_after_input(s.engine->0, payload)), MTU as nat),
    ensures
        s.opened(payload).well_formed(),
{
    let written = kcp_acknowledged(kcp_after_input(s.engine->0, payload));
    let o = s.opened(payload);
    lemma_stamped(s, written);
    assert forall|i: int| 0 <= i < o.output.len() implies (#[trigger] o.output[i]).1.len()
        <= MTU by {
        if i < s.output.len() {
            assert(o.output[i] == s.output[i]);
        } else {
            assert(o.output[i] == stamped(written, s.now)[i - s.output.len()]);
            assert(written[i - s.output.len()].len() <= MTU);
        }
    }
}

/// What the engine hands out leaves the other numbers as they are.
proof fn lemma_kept(c: Channel, messages: Seq<Seq<u8>>)
    requires
        c.accept_all(messages).1 is Ok,
    ensures
        ({
            let n = c.accept_all(messages).0;
            &&& n.ready == c.ready && n.closed == c.closed && n.last_peer == c.last_peer && n.now
                == c.now
            &&& n.sent == c.sent && n.outstanding == c.outstanding && n.consumed == c.consumed
                && n.gap_since == c.gap_since
        }),
    decreases messages.len(),
{
    if messages.len() > 0 {
        lemma_kept(
            c.read().accept(messages[0]).0,
            messages.subrange(1, messages.len() as int),
        );
    }
}

/// Data before the negotiation is over, and segments that are not sound, close the session; a datagram
/// that the engine has no count for is as good as lost.
pub proof fn law_unsound_datagrams_close(
    session: &mut Session,
    payload: Seq<u8>,
    now: u64,
    bytes: &[u8],
    r: Result<(), Fault>,
)
    requires
        old(session).inv(),
        call_ensures(Session::input, (session, bytes, now), r),
        frame::parse(bytes@) == Some(FrameView::Data { id: old(session)@.id, payload }),
        !old(session)@.closed,
        old(session)@.hello,
    ensures
        !old(session)@.running ==> r is Err && final(session)@.closed,
        old(session)@.dialer && !old(session)@.ready ==> r is Err && final(session)@.closed,
        !segments_sound(payload, old(session)@.conv) ==> r is Err && final(session)@.closed,
        old(session)@.running && (old(session)@.ready || !old(session)@.dialer) && segments_sound(
            payload,
            old(session)@.conv,
        ) && !old(session)@.can_take(payload) ==> r is Ok && final(session)@ == (Channel {
            now,
            ..old(session)@
        }),
{
}

/// An offer names the session and waits for the writer; a probe is one more message for the peer's engine
/// to acknowledge; and the time that input may take is what was last set.
pub proof fn law_offers_and_probes(
    offers: &mut Session,
    r: Result<(), Fault>,
    probes: &mut Session,
    p: Result<(), Fault>,
    timed: &mut Session,
    milliseconds: u64,
)
    requires
        old(offers).inv(),
        !old(offers)@.closed,
        call_ensures(Session::offer, (offers,), r),
        old(probes).inv(),
        old(probes)@.running,
        !old(probes)@.closed,
        call_ensures(Session::recovery_probe, (probes,), p),
        old(timed).inv(),
        call_ensures(Session::set_stall_ms, (timed, milliseconds), ()),
    ensures
        old(offers)@.wire.len() < 64 ==> r is Ok && final(offers)@.wire == old(offers)@.wire.push(
            (
                old(offers)@.now,
                (FrameView::Offer { id: old(offers)@.id, conv: old(offers)@.conv }).wire(),
            ),
        ) && final(offers)@.ready == old(offers)@.ready,
        old(offers)@.wire.len() >= 64 ==> r is Err && final(offers)@.closed,
        p is Ok ==> final(probes)@.waiting.len() == old(probes)@.waiting.len() + 1
            && final(probes)@.sent == old(probes)@.sent && final(probes)@.outstanding == old(probes)@.outstanding,
        final(timed)@.stall_ms == milliseconds,
        final(timed)@.peer_ms == old(timed)@.peer_ms && final(timed)@.ready == old(timed)@.ready,
{
    assert(crate::engine::pieces(
        crate::session::zeros(),
        (MTU - crate::engine::HEADER) as nat,
    ) =~= seq![crate::session::zeros()]);
}

/// The number that four bytes stand for, the least significant first.
pub open spec fn word(s: Seq<u8>, at: int) -> int {
    s[at] + 0x100 * s[at + 1] + 0x1_0000 * s[at + 2] + 0x100_0000 * s[at + 3]
}

/// Whether bytes are one segment of the engine: the conversation, a command, at most one fragment to come,
/// the numbers of the segment and of the next one expected, and its length with as many bytes behind.
pub open spec fn is_segment(s: Seq<u8>, conv: u32) -> bool {
    &&& s.len() >= 24
    &&& word(s, 0) == conv
    &&& 81 <= s[4] <= 84
    &&& s[5] <= 1
    &&& word(s, 20) <= 1076
    &&& s.len() == 24 + word(s, 20)
}

/// Whether the engine can reckon with the numbers of a segment.
pub open spec fn is_near(s: Seq<u8>, clock: u32) -> bool {
    &&& s[4] == 81 ==> word(s, 12) < 0x7FFF_FF7F
    &&& s[4] == 82 ==> word(s, 12) < 0x8000_0000 && word(s, 8) < 0x8000_0000 && clock < word(s, 8)
        + 0x2000_0000
    &&& word(s, 16) < 0x8000_0000
}

/// Every segment of this conversation whose numbers can be reckoned with is one that the session takes,
/// alone or before others that it takes, and no other is.
pub proof fn law_segments_are_taken(s: Channel, segment: Seq<u8>, rest: Seq<u8>)
    requires
        is_segment(segment, s.conv),
    ensures
        segments_sound(segment + rest, s.conv) <==> segments_sound(rest, s.conv),
        segments_sound(Seq::<u8>::empty(), s.conv),
        (s.ready || !s.dialer) && s.taken < 0xFFFF_FFFE ==> (is_due(s, segment) <==> is_near(
            segment,
            s.clock,
        )),
        is_near(segment, s.clock) && is_due(s, rest) ==> is_due(s, segment + rest),
{
    let w = segment + rest;
    assert(segments_sound(Seq::<u8>::empty(), s.conv));
    assert(crate::engine::segments_fit(Seq::<u8>::empty(), s.clock));
    assert(w.subrange(24 + word(segment, 20), w.len() as int) =~= rest);
    assert(segment.subrange(24 + word(segment, 20), segment.len() as int) =~= Seq::<u8>::empty());
    assert(crate::bytes::at32(w, 0) == word(segment, 0));
    assert(crate::bytes::at32(w, 8) == word(segment, 8));
    assert(crate::bytes::at32(w, 12) == word(segment, 12));
    assert(crate::bytes::at32(w, 16) == word(segment, 16));
    assert(crate::bytes::at32(w, 20) == word(segment, 20));
    assert(crate::bytes::at32(segment, 0) == word(segment, 0));
    assert(crate::bytes::at32(segment, 8) == word(segment, 8));
    assert(crate::bytes::at32(segment, 12) == word(segment, 12));
    assert(crate::bytes::at32(segment, 16) == word(segment, 16));
    assert(crate::bytes::at32(segment, 20) == word(segment, 20));
    assert(w[4] == segment[4] && w[5] == segment[5]);
}

/// Bytes that begin with no segment of this conversation are not sound.
pub proof fn law_other_bytes_are_not_taken(s: Channel, payload: Seq<u8>)
    requires
        payload.len() > 0,
        payload.len() >= 24 ==> {
            ||| word(payload, 0) != s.conv
            ||| !(81 <= payload[4] <= 84)
            ||| payload[5] > 1
            ||| word(payload, 20) > 1076
            ||| payload.len() < 24 + word(payload, 20)
        },
    ensures
        !segments_sound(payload, s.conv),
        !is_due(s, payload),
{
    if payload.len() >= 24 {
        assert(crate::bytes::at32(payload, 0) == word(payload, 0));
        assert(crate::bytes::at32(payload, 20) == word(payload, 20));
    }
}

} // verus!
