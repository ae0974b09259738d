//! The KCP engine of one session, and the channel that takes the datagrams that it writes.
//!
//! The engine's state is opaque. Its contracts speak of what it holds, the segments that wait for an
//! acknowledgement and the messages that are ready to be read, and of the datagrams that it writes.

use crate::bytes::at32;
use crate::frame::MTU;
use std::sync::mpsc::{Receiver, Sender};
use vstd::prelude::*;

verus! {

// Together with the fixed receive window (128), bounded output queues and
// 16-slot I/O queues this leaves headroom under a 1 MiB transport payload budget.
// DTLS's own buffers and allocator/task overhead are owned by webrtc, not KCP.
pub const MAX_PENDING: usize = 64;

// One flush: <=64 send-window segments, one carried ACK buffer and two probes.
// Reserve two further packets for input/flush_ack (one MTU of <=45 ACKs).
pub const FLUSH_RESERVE: usize = MAX_PENDING + 3;

pub const OUTPUT_CAPACITY: usize = FLUSH_RESERVE + 2;

/// The length of a KCP segment header.
pub const HEADER: usize = 24;

/// The engine compares times as signed numbers of 32 bits, and adds to the clock no more than the time
/// that a segment has waited and two minutes. Under this reading that sum keeps its sign.
pub const CLOCK_LIMIT: u32 = 0x3FF0_0000;

/// A reading past which the clock starts anew as soon as no segment waits.
pub const CLOCK_TURN: u32 = 0x2000_0000;

/// The engine adds up eight round trips in 32 bits.
pub const ROUND_TRIP_LIMIT: u32 = 0x2000_0000;

/// The first number that the engine takes for a negative one.
pub const SIGN: u32 = 0x8000_0000;

/// The engine adds the receive window to the number that it expects next, and the sum keeps its sign.
pub const NUMBER_LIMIT: u32 = 0x7FFF_FF7F;

/// The engine counts for each segment, with 32 bits, the datagrams that acknowledge a later one.
pub const DATAGRAM_LIMIT: u32 = 0xFFFF_FFFE;

/// The engine counts the segments that it repeats with 32 bits, a whole window at a time.
pub const WRITE_LIMIT: u64 = 0xFFFF_FF00;

/// The declaration of `std::io::Error`, which a refused write carries.
#[verifier::external_type_specification]
#[verifier::external_body]
pub struct ExIoError(std::io::Error);

/// The declaration of `kcp::Kcp`, one KCP control block with its output.
#[verifier::external_type_specification]
#[verifier::external_body]
#[verifier::reject_recursive_types(O)]
pub struct ExKcp<O>(kcp::Kcp<O>);

/// The declaration of `kcp::Error`.
#[verifier::external_type_specification]
#[verifier::external_body]
pub struct ExKcpError(kcp::Error);

/// The declaration of `std::sync::mpsc::Sender`.
#[verifier::external_type_specification]
#[verifier::external_body]
#[verifier::reject_recursive_types(T)]
pub struct ExSender<T>(std::sync::mpsc::Sender<T>);

/// The declaration of `std::sync::mpsc::Receiver`.
#[verifier::external_type_specification]
#[verifier::external_body]
#[verifier::reject_recursive_types(T)]
pub struct ExReceiver<T>(std::sync::mpsc::Receiver<T>);

/// Where the engine writes its datagrams: one end of a channel.
pub struct Output {
    sender: Sender<Vec<u8>>,
}

/// Whether nothing but what is written to this unused output reaches the other end of its channel.
pub uninterp spec fn feeds(output: Output, datagrams: Receiver<Vec<u8>>) -> bool;

/// `std::sync::mpsc::channel`: the two ends of an empty channel.
#[verifier::external_body]
pub(crate) fn channel() -> (r: (Output, Receiver<Vec<u8>>))
    ensures
        feeds(r.0, r.1),
{
    let (sender, datagrams) = std::sync::mpsc::channel();
    (Output { sender }, datagrams)
}

/// `std::sync::mpsc::Sender::send`: hands a datagram over. Where the other end is gone, and with it
/// whoever would have read the datagram, the datagram is dropped. Nothing is claimed of the channel.
#[verifier::external_body]
fn hand_over(sender: &Sender<Vec<u8>>, datagram: Vec<u8>) {
    let _ = sender.send(datagram);
}

/// `std::io::Error::other` with the text of a refused datagram. Nothing is claimed of the error.
#[verifier::external_body]
fn refused() -> std::io::Error {
    std::io::Error::other("KCP output budget")
}

impl Output {
    /// Whether a datagram of these bytes was handed over to the channel.
    pub closed spec fn handed(self, bytes: Seq<u8>) -> bool {
        exists|datagram: Vec<u8>|
            datagram@ == bytes && #[trigger] call_ensures(
                hand_over,
                (&self.sender, datagram),
                (),
            )
    }
}

impl std::io::Write for Output {
    /// Hands one datagram over whole. One longer than the MTU is refused, and no other is.
    fn write(&mut self, bytes: &[u8]) -> (r: std::io::Result<usize>)
        ensures
            r is Ok <==> bytes@.len() <= MTU,
            r is Ok ==> r->Ok_0 == bytes@.len() && old(self).handed(bytes@),
    {
        if bytes.len() > MTU {
            return Err(refused());
        }
        let datagram = vstd::slice::slice_to_vec(bytes);
        hand_over(&self.sender, datagram);
        assert(call_ensures(hand_over, (&old(self).sender, datagram), ()));
        Ok(bytes.len())
    }

    fn flush(&mut self) -> (r: std::io::Result<()>)
        ensures
            r is Ok,
    {
        Ok(())
    }
}

/// The data of the segments that are neither acknowledged nor discarded: those sent before those
/// that still wait for the window, each in the order of `send`.
pub uninterp spec fn kcp_waiting(k: kcp::Kcp<Output>) -> Seq<Seq<u8>>;

/// The messages that calls of `recv` hand out one after the other until none is complete.
pub uninterp spec fn kcp_inbox(k: kcp::Kcp<Output>) -> Seq<Seq<u8>>;

/// The longest data of one segment.
pub uninterp spec fn kcp_segment(k: kcp::Kcp<Output>) -> nat;

/// The conversation that the engine was made for.
pub uninterp spec fn kcp_conv(k: kcp::Kcp<Output>) -> u32;

/// Whether nothing was sent with the engine nor put into it since it was made.
pub uninterp spec fn kcp_fresh(k: kcp::Kcp<Output>) -> bool;

/// Whether the engine's clock has been set.
pub uninterp spec fn kcp_started(k: kcp::Kcp<Output>) -> bool;

/// How many segments the engine sends ahead of their acknowledgements at most.
pub uninterp spec fn kcp_window(k: kcp::Kcp<Output>) -> nat;

/// How many segments the engine keeps for its reader at most.
pub uninterp spec fn kcp_receive_window(k: kcp::Kcp<Output>) -> nat;

/// How the engine repeats segments: whether early, how many milliseconds lie between flushes, how many
/// later acknowledgements call for a repetition, and whether congestion is ignored.
pub uninterp spec fn kcp_pace(k: kcp::Kcp<Output>) -> (bool, int, int, bool);

/// How many acknowledgements the engine has to write.
pub uninterp spec fn kcp_acks(k: kcp::Kcp<Output>) -> nat;

/// The engine's clock.
pub uninterp spec fn kcp_clock(k: kcp::Kcp<Output>) -> u32;

/// How many segments the engine has numbered or is still to number.
pub uninterp spec fn kcp_numbers(k: kcp::Kcp<Output>) -> nat;

/// The largest of the engine's counts, one for each segment that waits, of the datagrams that have
/// acknowledged a later one.
pub uninterp spec fn kcp_passed(k: kcp::Kcp<Output>) -> nat;

/// How often the engine has written a segment with data, the repetitions counted.
pub uninterp spec fn kcp_writes(k: kcp::Kcp<Output>) -> nat;

/// Where the engine writes.
pub uninterp spec fn kcp_output(k: kcp::Kcp<Output>) -> Output;

/// The datagrams that `flush` writes.
pub uninterp spec fn kcp_flushed(k: kcp::Kcp<Output>) -> Seq<Seq<u8>>;

/// The datagrams that `flush_ack` writes.
pub uninterp spec fn kcp_acknowledged(k: kcp::Kcp<Output>) -> Seq<Seq<u8>>;

/// The datagrams that `update` writes at a clock reading.
pub uninterp spec fn kcp_updated(k: kcp::Kcp<Output>, now: u32) -> Seq<Seq<u8>>;

/// The engine after `update` at a clock reading.
pub uninterp spec fn kcp_after_update(k: kcp::Kcp<Output>, now: u32) -> kcp::Kcp<Output>;

/// The engine after `send` has taken a message.
pub uninterp spec fn kcp_after_send(k: kcp::Kcp<Output>, message: Seq<u8>) -> kcp::Kcp<Output>;

/// The engine after `flush`.
pub uninterp spec fn kcp_after_flush(k: kcp::Kcp<Output>) -> kcp::Kcp<Output>;

/// The engine after `flush_ack`.
pub uninterp spec fn kcp_after_flush_ack(k: kcp::Kcp<Output>) -> kcp::Kcp<Output>;

/// The engine after `input` has taken a datagram.
pub uninterp spec fn kcp_after_input(k: kcp::Kcp<Output>, bytes: Seq<u8>) -> kcp::Kcp<Output>;

/// The engine after `recv` has handed out a message.
pub uninterp spec fn kcp_after_recv(k: kcp::Kcp<Output>) -> kcp::Kcp<Output>;

/// Datagrams as sequences of bytes.
pub open spec fn views(datagrams: Seq<Vec<u8>>) -> Seq<Seq<u8>> {
    datagrams.map_values(|d: Vec<u8>| d@)
}

/// Whether every datagram has at most `limit` bytes.
pub open spec fn within(datagrams: Seq<Seq<u8>>, limit: nat) -> bool {
    forall|i: int| 0 <= i < datagrams.len() ==> (#[trigger] datagrams[i]).len() <= limit
}

/// The pieces of `s`, each but the last of `n` bytes. An empty `s` has one empty piece.
pub open spec fn pieces(s: Seq<u8>, n: nat) -> Seq<Seq<u8>>
    decreases s.len(),
{
    if n == 0 || s.len() <= n {
        seq![s]
    } else {
        seq![s.subrange(0, n as int)] + pieces(s.subrange(n as int, s.len() as int), n)
    }
}

/// Whether `s` is a whole number of segments of conversation `conv`, each with a known command, at
/// most one following fragment and data that one datagram can hold.
pub open spec fn segments_sound(s: Seq<u8>, conv: u32) -> bool
    decreases s.len(),
{
    s.len() == 0 || {
        &&& s.len() >= HEADER
        &&& at32(s, 0) == conv
        &&& at32(s, 20) <= MTU - HEADER
        &&& s.len() >= HEADER + at32(s, 20)
        &&& s[5] <= 1
        &&& 81 <= s[4] <= 84
        &&& segments_sound(s.subrange(HEADER + at32(s, 20), s.len() as int), conv)
    }
}

/// Whether every difference that the engine takes of the numbers in these segments fits its type: the
/// number of a push or an acknowledgement, the acknowledged number of any segment, and the timestamp
/// of an acknowledgement, which the engine also takes for the start of a round trip.
pub open spec fn segments_fit(s: Seq<u8>, clock: u32) -> bool
    decreases s.len(),
{
    s.len() < HEADER || {
        &&& s[4] == 81 ==> at32(s, 12) < NUMBER_LIMIT
        &&& s[4] == 82 ==> {
            &&& at32(s, 12) < SIGN
            &&& at32(s, 8) < SIGN
            &&& clock < at32(s, 8) + ROUND_TRIP_LIMIT
        }
        &&& at32(s, 16) < SIGN
        &&& s.len() < HEADER + at32(s, 20) || segments_fit(
            s.subrange(HEADER + at32(s, 20), s.len() as int),
            clock,
        )
    }
}

/// How many segments of `s` carry data.
pub open spec fn pushes(s: Seq<u8>) -> nat
    decreases s.len(),
{
    if s.len() < HEADER {
        0
    } else {
        (if s[4] == 81 {
            1nat
        } else {
            0
        }) + if s.len() < HEADER + at32(s, 20) {
            0
        } else {
            pushes(s.subrange(HEADER + at32(s, 20), s.len() as int))
        }
    }
}

/// How many segments of these datagrams carry data.
pub open spec fn all_pushes(datagrams: Seq<Seq<u8>>) -> nat
    decreases datagrams.len(),
{
    if datagrams.len() == 0 {
        0
    } else {
        all_pushes(datagrams.drop_last()) + pushes(datagrams.last())
    }
}

/// `kcp::Kcp::new`: an engine of conversation `conv` that holds nothing.
#[verifier::external_body]
pub(crate) fn kcp_new(conv: u32, output: Output) -> (k: kcp::Kcp<Output>)
    ensures
        kcp_fresh(k),
        kcp_conv(k) == conv,
        kcp_output(k) == output,
        kcp_acks(k) == 0,
        kcp_clock(k) == 0,
        kcp_numbers(k) == 0,
        kcp_passed(k) == 0,
        kcp_writes(k) == 0,
        kcp_waiting(k) == Seq::<Seq<u8>>::empty(),
        kcp_inbox(k) == Seq::<Seq<u8>>::empty(),
{
    kcp::Kcp::new(conv, output)
}

/// `kcp::Kcp::set_mtu` before the engine is used: refuses an MTU under 50; otherwise a segment holds
/// what the header leaves of the MTU.
#[verifier::external_body]
pub(crate) fn kcp_set_mtu(k: &mut kcp::Kcp<Output>, mtu: usize) -> (r: Result<(), kcp::Error>)
    requires
        kcp_fresh(*old(k)),
        mtu <= 0xFFFF,
    ensures
        r is Ok <==> mtu >= 50,
        kcp_segment(*final(k)) == (if r is Ok {
            (mtu - HEADER) as nat
        } else {
            kcp_segment(*old(k))
        }),
        kcp_fresh(*final(k)),
        kcp_conv(*final(k)) == kcp_conv(*old(k)),
        kcp_output(*final(k)) == kcp_output(*old(k)),
        kcp_clock(*final(k)) == kcp_clock(*old(k)),
        kcp_numbers(*final(k)) == kcp_numbers(*old(k)),
        kcp_passed(*final(k)) == kcp_passed(*old(k)),
        kcp_writes(*final(k)) == kcp_writes(*old(k)),
        kcp_receive_window(*final(k)) == kcp_receive_window(*old(k)),
        kcp_pace(*final(k)) == kcp_pace(*old(k)),
        kcp_window(*final(k)) == kcp_window(*old(k)),
        kcp_acks(*final(k)) == kcp_acks(*old(k)),
        kcp_started(*final(k)) == kcp_started(*old(k)),
        kcp_waiting(*final(k)) == kcp_waiting(*old(k)),
        kcp_inbox(*final(k)) == kcp_inbox(*old(k)),
{
    k.set_mtu(mtu)
}

/// `kcp::Kcp::set_wndsize` before the engine is used: sets the two windows, each unless it is zero. The
/// receive window has at least 128 segments. Windows of at most 128 segments keep the sum of a window
/// and a sequence number within its sign.
#[verifier::external_body]
pub(crate) fn kcp_set_wndsize(k: &mut kcp::Kcp<Output>, send: u16, receive: u16)
    requires
        kcp_fresh(*old(k)),
        send <= 128,
        receive <= 128,
    ensures
        kcp_window(*final(k)) == (if send > 0 {
            send as nat
        } else {
            kcp_window(*old(k))
        }),
        kcp_receive_window(*final(k)) == (if receive > 0 {
            128
        } else {
            kcp_receive_window(*old(k))
        }),
        kcp_fresh(*final(k)),
        kcp_segment(*final(k)) == kcp_segment(*old(k)),
        kcp_conv(*final(k)) == kcp_conv(*old(k)),
        kcp_output(*final(k)) == kcp_output(*old(k)),
        kcp_clock(*final(k)) == kcp_clock(*old(k)),
        kcp_numbers(*final(k)) == kcp_numbers(*old(k)),
        kcp_passed(*final(k)) == kcp_passed(*old(k)),
        kcp_writes(*final(k)) == kcp_writes(*old(k)),
        kcp_pace(*final(k)) == kcp_pace(*old(k)),
        kcp_acks(*final(k)) == kcp_acks(*old(k)),
        kcp_started(*final(k)) == kcp_started(*old(k)),
        kcp_waiting(*final(k)) == kcp_waiting(*old(k)),
        kcp_inbox(*final(k)) == kcp_inbox(*old(k)),
{
    k.set_wndsize(send, receive)
}

/// `kcp::Kcp::set_nodelay` before the engine is used: sets how segments are repeated. The interval is
/// kept between 10 and 5000 milliseconds, and a negative `resend` changes nothing. A larger `resend`
/// than is asked for here would overflow the congestion window, a number of 16 bits.
#[verifier::external_body]
pub(crate) fn kcp_set_nodelay(
    k: &mut kcp::Kcp<Output>,
    nodelay: bool,
    interval: i32,
    resend: i32,
    unlimited: bool,
)
    requires
        kcp_fresh(*old(k)),
        resend <= 0x7FFF,
    ensures
        kcp_pace(*final(k)) == (
            nodelay,
            if interval < 10 {
                10
            } else if interval > 5000 {
                5000
            } else {
                interval as int
            },
            if resend >= 0 {
                resend as int
            } else {
                kcp_pace(*old(k)).2
            },
            unlimited,
        ),
        kcp_fresh(*final(k)),
        kcp_segment(*final(k)) == kcp_segment(*old(k)),
        kcp_conv(*final(k)) == kcp_conv(*old(k)),
        kcp_output(*final(k)) == kcp_output(*old(k)),
        kcp_clock(*final(k)) == kcp_clock(*old(k)),
        kcp_numbers(*final(k)) == kcp_numbers(*old(k)),
        kcp_passed(*final(k)) == kcp_passed(*old(k)),
        kcp_writes(*final(k)) == kcp_writes(*old(k)),
        kcp_receive_window(*final(k)) == kcp_receive_window(*old(k)),
        kcp_window(*final(k)) == kcp_window(*old(k)),
        kcp_acks(*final(k)) == kcp_acks(*old(k)),
        kcp_started(*final(k)) == kcp_started(*old(k)),
        kcp_waiting(*final(k)) == kcp_waiting(*old(k)),
        kcp_inbox(*final(k)) == kcp_inbox(*old(k)),
{
    k.set_nodelay(nodelay, interval, resend, unlimited)
}

/// `kcp::Kcp::update`: advances the clock and, when a flush is due, writes datagrams, none longer than
/// the MTU: at most one for each acknowledgement, one for each segment of the window, and three. A
/// fresh engine has none to write. It neither takes nor drops a segment. The datagrams are taken off
/// the channel; the output refuses none of them. The clock goes back only while no segment waits, and
/// stays where sums and differences of times fit their types. How often segments with data have been
/// written, which bounds the engine's own count of repetitions, shows in the datagrams.
#[verifier::external_body]
pub(crate) fn kcp_update(
    k: &mut kcp::Kcp<Output>,
    datagrams: &Receiver<Vec<u8>>,
    now: u32,
) -> (r: Result<Vec<Vec<u8>>, kcp::Error>)
    requires
        feeds(kcp_output(*old(k)), *datagrams),
        kcp_segment(*old(k)) + HEADER <= MTU,
        kcp_writes(*old(k)) + kcp_window(*old(k)) <= u32::MAX,
        now < CLOCK_LIMIT,
        kcp_clock(*old(k)) <= now || kcp_waiting(*old(k)).len() == 0,
    ensures
        r is Ok,
        *final(k) == kcp_after_update(*old(k), now),
        views(r->Ok_0@) == kcp_updated(*old(k), now),
        kcp_clock(*final(k)) == now,
        kcp_fresh(*old(k)) ==> r->Ok_0@.len() == 0,
        kcp_writes(*final(k)) == kcp_writes(*old(k)) + all_pushes(views(r->Ok_0@)),
        r->Ok_0@.len() <= kcp_acks(*old(k)) + kcp_window(*old(k)) + 3,
        within(views(r->Ok_0@), kcp_segment(*old(k)) + HEADER as nat),
        kcp_started(*final(k)),
        kcp_acks(*final(k)) <= kcp_acks(*old(k)),
        kcp_segment(*final(k)) == kcp_segment(*old(k)),
        kcp_conv(*final(k)) == kcp_conv(*old(k)),
        kcp_output(*final(k)) == kcp_output(*old(k)),
        kcp_numbers(*final(k)) == kcp_numbers(*old(k)),
        kcp_passed(*final(k)) <= kcp_passed(*old(k)),
        kcp_receive_window(*final(k)) == kcp_receive_window(*old(k)),
        kcp_pace(*final(k)) == kcp_pace(*old(k)),
        kcp_window(*final(k)) == kcp_window(*old(k)),
        kcp_waiting(*final(k)) == kcp_waiting(*old(k)),
        kcp_inbox(*final(k)) == kcp_inbox(*old(k)),
        kcp_fresh(*final(k)) == kcp_fresh(*old(k)),
{
    k.update(now)?;
    Ok(datagrams.try_iter().collect())
}

/// `kcp::Kcp::wait_snd`: how many segments wait.
#[verifier::external_body]
pub(crate) fn kcp_wait_snd(k: &kcp::Kcp<Output>) -> (n: usize)
    ensures
        n == kcp_waiting(*k).len(),
{
    k.wait_snd()
}

/// `kcp::Kcp::send` outside stream mode: cuts the message into segments that then wait, or refuses a
/// message of 128 segments or more. Each segment gets the next number in its turn.
#[verifier::external_body]
pub(crate) fn kcp_send(k: &mut kcp::Kcp<Output>, message: &[u8]) -> (r: Result<usize, kcp::Error>)
    requires
        kcp_segment(*old(k)) > 0,
        message@.len() <= 127 * kcp_segment(*old(k)) ==> kcp_numbers(*old(k)) + pieces(
            message@,
            kcp_segment(*old(k)),
        ).len() <= NUMBER_LIMIT,
    ensures
        r is Ok <==> message@.len() <= 127 * kcp_segment(*old(k)),
        *final(k) == (if r is Ok {
            kcp_after_send(*old(k), message@)
        } else {
            *old(k)
        }),
        kcp_numbers(*final(k)) - kcp_numbers(*old(k)) == kcp_waiting(*final(k)).len() - kcp_waiting(
            *old(k),
        ).len(),
        kcp_waiting(*final(k)) == (if r is Ok {
            kcp_waiting(*old(k)) + pieces(message@, kcp_segment(*old(k)))
        } else {
            kcp_waiting(*old(k))
        }),
        kcp_segment(*final(k)) == kcp_segment(*old(k)),
        kcp_conv(*final(k)) == kcp_conv(*old(k)),
        kcp_output(*final(k)) == kcp_output(*old(k)),
        kcp_clock(*final(k)) == kcp_clock(*old(k)),
        kcp_passed(*final(k)) == kcp_passed(*old(k)),
        kcp_writes(*final(k)) == kcp_writes(*old(k)),
        kcp_receive_window(*final(k)) == kcp_receive_window(*old(k)),
        kcp_pace(*final(k)) == kcp_pace(*old(k)),
        kcp_window(*final(k)) == kcp_window(*old(k)),
        kcp_acks(*final(k)) == kcp_acks(*old(k)),
        kcp_started(*final(k)) == kcp_started(*old(k)),
        kcp_inbox(*final(k)) == kcp_inbox(*old(k)),
{
    k.send(message)
}

/// `kcp::Kcp::flush` once the clock is set: writes the acknowledgements and segments that are due in
/// datagrams, none longer than the MTU: at most one for each acknowledgement, one for each segment of
/// the window, and three. It neither takes nor drops a segment. The datagrams are taken off the
/// channel; the output refuses none of them. How often segments with data have been written, which
/// bounds the engine's own count of repetitions, shows in the datagrams.
#[verifier::external_body]
pub(crate) fn kcp_flush(
    k: &mut kcp::Kcp<Output>,
    datagrams: &Receiver<Vec<u8>>,
) -> (r: Result<Vec<Vec<u8>>, kcp::Error>)
    requires
        feeds(kcp_output(*old(k)), *datagrams),
        kcp_segment(*old(k)) + HEADER <= MTU,
        kcp_writes(*old(k)) + kcp_window(*old(k)) <= u32::MAX,
        kcp_started(*old(k)),
    ensures
        r is Ok,
        *final(k) == kcp_after_flush(*old(k)),
        views(r->Ok_0@) == kcp_flushed(*old(k)),
        kcp_writes(*final(k)) == kcp_writes(*old(k)) + all_pushes(views(r->Ok_0@)),
        r->Ok_0@.len() <= kcp_acks(*old(k)) + kcp_window(*old(k)) + 3,
        within(views(r->Ok_0@), kcp_segment(*old(k)) + HEADER as nat),
        kcp_acks(*final(k)) == 0,
        kcp_segment(*final(k)) == kcp_segment(*old(k)),
        kcp_conv(*final(k)) == kcp_conv(*old(k)),
        kcp_output(*final(k)) == kcp_output(*old(k)),
        kcp_clock(*final(k)) == kcp_clock(*old(k)),
        kcp_numbers(*final(k)) == kcp_numbers(*old(k)),
        kcp_passed(*final(k)) <= kcp_passed(*old(k)),
        kcp_receive_window(*final(k)) == kcp_receive_window(*old(k)),
        kcp_pace(*final(k)) == kcp_pace(*old(k)),
        kcp_window(*final(k)) == kcp_window(*old(k)),
        kcp_started(*final(k)) == kcp_started(*old(k)),
        kcp_waiting(*final(k)) == kcp_waiting(*old(k)),
        kcp_inbox(*final(k)) == kcp_inbox(*old(k)),
{
    k.flush()?;
    Ok(datagrams.try_iter().collect())
}

/// `kcp::Kcp::flush_ack` once the clock is set: collects the acknowledgements that are due and writes
/// each datagram that they fill, at most one if one datagram can hold them all. It neither takes nor
/// drops a segment. The datagrams are taken off the channel; the output refuses none of them.
#[verifier::external_body]
pub(crate) fn kcp_flush_ack(
    k: &mut kcp::Kcp<Output>,
    datagrams: &Receiver<Vec<u8>>,
) -> (r: Result<Vec<Vec<u8>>, kcp::Error>)
    requires
        feeds(kcp_output(*old(k)), *datagrams),
        kcp_segment(*old(k)) + HEADER <= MTU,
        kcp_started(*old(k)),
    ensures
        r is Ok,
        *final(k) == kcp_after_flush_ack(*old(k)),
        views(r->Ok_0@) == kcp_acknowledged(*old(k)),
        kcp_acks(*old(k)) * HEADER <= kcp_segment(*old(k)) + HEADER ==> r->Ok_0@.len() <= 1,
        within(views(r->Ok_0@), kcp_segment(*old(k)) + HEADER as nat),
        kcp_acks(*final(k)) == 0,
        kcp_segment(*final(k)) == kcp_segment(*old(k)),
        kcp_conv(*final(k)) == kcp_conv(*old(k)),
        kcp_output(*final(k)) == kcp_output(*old(k)),
        kcp_clock(*final(k)) == kcp_clock(*old(k)),
        kcp_numbers(*final(k)) == kcp_numbers(*old(k)),
        kcp_passed(*final(k)) == kcp_passed(*old(k)),
        kcp_writes(*final(k)) == kcp_writes(*old(k)),
        kcp_receive_window(*final(k)) == kcp_receive_window(*old(k)),
        kcp_pace(*final(k)) == kcp_pace(*old(k)),
        kcp_window(*final(k)) == kcp_window(*old(k)),
        kcp_started(*final(k)) == kcp_started(*old(k)),
        kcp_waiting(*final(k)) == kcp_waiting(*old(k)),
        kcp_inbox(*final(k)) == kcp_inbox(*old(k)),
{
    k.flush_ack()?;
    Ok(datagrams.try_iter().collect())
}

/// `kcp::Kcp::input`: takes a datagram of sound segments of its own conversation. Acknowledged
/// segments stop waiting and none starts to. Each segment calls for one acknowledgement at most. Which
/// segments still wait and which messages can be read then follow from the engine and the datagram.
/// The numbers of the segments keep every difference within its type, and so does the limit on the
/// counts of later acknowledgements, of which each datagram adds one at most to any.
#[verifier::external_body]
pub(crate) fn kcp_input(k: &mut kcp::Kcp<Output>, bytes: &[u8]) -> (r: Result<usize, kcp::Error>)
    requires
        bytes@.len() >= HEADER,
        segments_sound(bytes@, kcp_conv(*old(k))),
        segments_fit(bytes@, kcp_clock(*old(k))),
        kcp_passed(*old(k)) < DATAGRAM_LIMIT,
    ensures
        r is Ok,
        *final(k) == kcp_after_input(*old(k), bytes@),
        kcp_passed(*final(k)) <= kcp_passed(*old(k)) + 1,
        kcp_waiting(*final(k)).len() == 0 ==> kcp_passed(*final(k)) == 0,
        kcp_writes(*final(k)) == kcp_writes(*old(k)),
        kcp_acks(*final(k)) * HEADER <= kcp_acks(*old(k)) * HEADER + bytes@.len(),
        kcp_waiting(*final(k)).len() <= kcp_waiting(*old(k)).len(),
        kcp_waiting(*final(k)).to_multiset().subset_of(kcp_waiting(*old(k)).to_multiset()),
        kcp_segment(*final(k)) == kcp_segment(*old(k)),
        kcp_conv(*final(k)) == kcp_conv(*old(k)),
        kcp_output(*final(k)) == kcp_output(*old(k)),
        kcp_clock(*final(k)) == kcp_clock(*old(k)),
        kcp_numbers(*final(k)) == kcp_numbers(*old(k)),
        kcp_receive_window(*final(k)) == kcp_receive_window(*old(k)),
        kcp_pace(*final(k)) == kcp_pace(*old(k)),
        kcp_window(*final(k)) == kcp_window(*old(k)),
        kcp_started(*final(k)) == kcp_started(*old(k)),
{
    k.input(bytes)
}

/// `kcp::Kcp::peeksize`: the length of the message that can be read next, if one can.
#[verifier::external_body]
pub(crate) fn kcp_peeksize(k: &kcp::Kcp<Output>) -> (r: Result<usize, kcp::Error>)
    ensures
        r is Ok <==> kcp_inbox(*k).len() > 0,
        r is Ok ==> r->Ok_0 == kcp_inbox(*k)[0].len(),
{
    k.peeksize()
}

/// `kcp::Kcp::recv` with a buffer of `size` bytes: hands out the next message if the buffer holds it.
#[verifier::external_body]
pub(crate) fn kcp_recv(k: &mut kcp::Kcp<Output>, size: usize) -> (r: Result<Vec<u8>, kcp::Error>)
    ensures
        r is Ok <==> kcp_inbox(*old(k)).len() > 0 && kcp_inbox(*old(k))[0].len() <= size,
        r is Ok ==> r->Ok_0@ == kcp_inbox(*old(k))[0],
        *final(k) == (if r is Ok {
            kcp_after_recv(*old(k))
        } else {
            *old(k)
        }),
        kcp_inbox(*final(k)) == (if r is Ok {
            kcp_inbox(*old(k)).subrange(1, kcp_inbox(*old(k)).len() as int)
        } else {
            kcp_inbox(*old(k))
        }),
        kcp_waiting(*final(k)) == kcp_waiting(*old(k)),
        kcp_segment(*final(k)) == kcp_segment(*old(k)),
        kcp_conv(*final(k)) == kcp_conv(*old(k)),
        kcp_output(*final(k)) == kcp_output(*old(k)),
        kcp_clock(*final(k)) == kcp_clock(*old(k)),
        kcp_numbers(*final(k)) == kcp_numbers(*old(k)),
        kcp_passed(*final(k)) == kcp_passed(*old(k)),
        kcp_writes(*final(k)) == kcp_writes(*old(k)),
        kcp_receive_window(*final(k)) == kcp_receive_window(*old(k)),
        kcp_pace(*final(k)) == kcp_pace(*old(k)),
        kcp_window(*final(k)) == kcp_window(*old(k)),
        kcp_acks(*final(k)) == kcp_acks(*old(k)),
        kcp_started(*final(k)) == kcp_started(*old(k)),
{
    let mut message = vec![0; size];
    let n = k.recv(&mut message)?;
    message.truncate(n);
    Ok(message)
}

} // verus!
