//! One reliable input session over KCP: negotiation, ordered delivery, feedback and deadlines.
//! Times are milliseconds of a local monotonic clock.

use crate::bytes::{at32, at64, get32, get64, put64, put_all, tail};
use crate::bytes::{le64, lemma_64};
use crate::engine::{channel, kcp_flush, kcp_flush_ack, kcp_input, kcp_new, kcp_peeksize, kcp_recv};
use crate::engine::{feeds, kcp_acknowledged, kcp_acks, kcp_clock, kcp_conv, kcp_flushed, kcp_fresh};
use crate::engine::{kcp_after_flush, kcp_after_flush_ack, kcp_after_input, kcp_after_recv};
use crate::engine::{kcp_after_send, kcp_after_update, kcp_inbox, kcp_numbers, kcp_output, kcp_pace};
use crate::engine::{kcp_passed, kcp_receive_window, kcp_segment, kcp_started, kcp_updated};
use crate::engine::{kcp_send, kcp_set_mtu, kcp_set_nodelay, kcp_set_wndsize, kcp_update};
use crate::engine::{kcp_wait_snd, kcp_waiting, kcp_window, kcp_writes, Output};
use crate::engine::{all_pushes, pieces, pushes, segments_fit, segments_sound, views, within};
use crate::engine::{CLOCK_LIMIT, CLOCK_TURN, DATAGRAM_LIMIT, NUMBER_LIMIT};
use crate::engine::{ROUND_TRIP_LIMIT, SIGN, WRITE_LIMIT};
use crate::engine::{FLUSH_RESERVE, HEADER, MAX_PENDING, OUTPUT_CAPACITY};
use crate::fault::Fault;
use crate::frame::{self, Frame, FrameView, MTU};
use crate::policy::Timeouts;
use std::collections::VecDeque;
use std::sync::mpsc::Receiver;
use vstd::prelude::*;

verus! {

/// How many negotiation and feedback frames may wait for the writer.
pub const WIRE_CAPACITY: usize = 64;

/// What a message holds besides the longest display layout.
pub const MESSAGE_OVERHEAD: usize = 8 + 64;

/// How long negotiation may take.
pub const NEGOTIATION_MS: u64 = 6000;

pub const OFFER_MS: u64 = 100;

pub const FEEDBACK_MS: u64 = 50;

pub struct Session {
    dialer: bool,
    hello: bool,
    ready: bool,
    closed: bool,
    id: u64,
    conv: u32,
    started: u64,
    last_offer: u64,
    last_feedback: u64,
    last_peer: u64,
    now: u64,
    kcp: Option<kcp::Kcp<Output>>,
    datagrams: Option<Receiver<Vec<u8>>>,
    // When the engine's clock began, and what it reads.
    since: u64,
    clock: u32,
    // How many segments the engine was given, how often it has written one, and how many
    // datagrams it has taken since no segment waited.
    segments: u32,
    carried: u64,
    taken: u32,
    output: VecDeque<(u64, Vec<u8>)>,
    wire: VecDeque<(u64, Vec<u8>)>,
    incoming: VecDeque<(u64, Vec<u8>)>,
    sent: u64,
    received: u64,
    consumed: u64,
    peer_sent: u64,
    outstanding: VecDeque<(u64, u64)>,
    // Time since contiguous application consumption last advanced.
    acknowledgement_since: Option<u64>,
    consuming: VecDeque<(u64, u64)>,
    gap_since: Option<u64>,
    stall_ms: u64,
    peer_ms: u64,
    limit: usize,
}

/// The state of a session. A queued packet or message is a number, its time or its sequence number,
/// and its bytes.
pub ghost struct Channel {
    pub dialer: bool,
    /// Whether the peer has greeted.
    pub hello: bool,
    pub ready: bool,
    pub closed: bool,
    pub id: u64,
    pub conv: u32,
    pub started: u64,
    pub last_offer: u64,
    pub last_feedback: u64,
    /// When the peer was last known to live.
    pub last_peer: u64,
    /// The latest clock reading.
    pub now: u64,
    /// Whether the engine runs.
    pub running: bool,
    /// The engine, while it runs.
    pub engine: Option<kcp::Kcp<Output>>,
    /// Where what the engine writes comes out.
    pub datagrams: Option<Receiver<Vec<u8>>>,
    /// When the engine's clock began.
    pub since: u64,
    /// What the engine's clock reads.
    pub clock: u32,
    /// How many segments the engine was given to send.
    pub segments: u32,
    /// How often the engine has written a segment with data.
    pub carried: u64,
    /// How many datagrams the engine has taken since no segment waited.
    pub taken: u32,
    /// The segments that the engine still has to get across.
    pub waiting: Seq<Seq<u8>>,
    /// Datagrams of the engine that wait for the writer.
    pub output: Seq<(u64, Seq<u8>)>,
    /// Frames of the session that wait for the writer.
    pub wire: Seq<(u64, Seq<u8>)>,
    /// Messages that wait for the application.
    pub incoming: Seq<(u64, Seq<u8>)>,
    pub sent: u64,
    pub received: u64,
    pub consumed: u64,
    /// The highest sequence number that the peer is known to have sent.
    pub peer_sent: u64,
    /// Sequence number and time of each message sent and not known to be consumed.
    pub outstanding: Seq<(u64, u64)>,
    pub acknowledgement_since: Option<u64>,
    /// Sequence number and time of each message received and not consumed.
    pub consuming: Seq<(u64, u64)>,
    pub gap_since: Option<u64>,
    pub stall_ms: u64,
    pub peer_ms: u64,
    /// The longest message, with its sequence number.
    pub limit: usize,
}

/// The longest message of a session whose longest display layout has `layout` bytes.
pub open spec fn message_limit(layout: usize) -> usize {
    if layout + MESSAGE_OVERHEAD > usize::MAX {
        usize::MAX
    } else {
        (layout + MESSAGE_OVERHEAD) as usize
    }
}

/// A queue of packets with their bytes as sequences.
pub open spec fn packets(queue: Seq<(u64, Vec<u8>)>) -> Seq<(u64, Seq<u8>)> {
    queue.map_values(|p: (u64, Vec<u8>)| (p.0, p.1@))
}

/// Whether more than `limit` milliseconds have passed since `since`.
pub open spec fn late(now: u64, since: u64, limit: u64) -> bool {
    now > since + limit
}

/// Datagrams with the time at which they were written.
pub open spec fn stamped(written: Seq<Seq<u8>>, now: u64) -> Seq<(u64, Seq<u8>)> {
    written.map_values(|d: Seq<u8>| (now, d))
}

/// Whether `k` is the engine of conversation `conv` with these segments waiting. It is flushed every 10
/// ms, repeats a segment after two later acknowledgements and ignores congestion.
pub open spec fn holds(k: kcp::Kcp<Output>, conv: u32, waiting: Seq<Seq<u8>>) -> bool {
    &&& kcp_conv(k) == conv
    &&& kcp_waiting(k) == waiting
    &&& kcp_segment(k) == MTU - HEADER
    &&& kcp_window(k) == MAX_PENDING
    &&& kcp_receive_window(k) == 128
    &&& kcp_pace(k) == (true, 10int, 2int, true)
}

/// Whether `k` is an engine of conversation `conv` whose clock was just started.
pub open spec fn begun(k: kcp::Kcp<Output>, conv: u32) -> bool {
    &&& kcp_inbox(k) == Seq::<Seq<u8>>::empty()
    &&& exists|new: kcp::Kcp<Output>| #[trigger]
        kcp_fresh(new) && holds(new, conv, Seq::empty()) && k == kcp_after_update(new, 0)
}

/// What is left of a queue of numbered entries once those up to `processed` leave its front.
pub open spec fn beyond(queue: Seq<(u64, u64)>, processed: u64) -> Seq<(u64, u64)>
    decreases queue.len(),
{
    if queue.len() > 0 && queue[0].0 <= processed {
        beyond(queue.subrange(1, queue.len() as int), processed)
    } else {
        queue
    }
}

/// Eight zero bytes.
pub open spec fn zeros() -> Seq<u8> {
    Seq::new(8, |i: int| 0u8)
}

/// The entries of the next `n` messages received.
pub open spec fn fresh(s: Channel, n: nat) -> Seq<(u64, u64)> {
    Seq::new(n, |i: int| ((s.received + 1 + i) as u64, s.now))
}

impl View for Session {
    type V = Channel;

    closed spec fn view(&self) -> Channel {
        Channel {
            dialer: self.dialer,
            hello: self.hello,
            ready: self.ready,
            closed: self.closed,
            id: self.id,
            conv: self.conv,
            started: self.started,
            last_offer: self.last_offer,
            last_feedback: self.last_feedback,
            last_peer: self.last_peer,
            now: self.now,
            running: self.kcp is Some,
            engine: self.kcp,
            datagrams: self.datagrams,
            since: self.since,
            clock: self.clock,
            segments: self.segments,
            carried: self.carried,
            taken: self.taken,
            waiting: match self.kcp {
                Some(k) => kcp_waiting(k),
                None => Seq::<Seq<u8>>::empty(),
            },
            output: packets(self.output@),
            wire: packets(self.wire@),
            incoming: packets(self.incoming@),
            sent: self.sent,
            received: self.received,
            consumed: self.consumed,
            peer_sent: self.peer_sent,
            outstanding: self.outstanding@,
            acknowledgement_since: self.acknowledgement_since,
            consuming: self.consuming@,
            gap_since: self.gap_since,
            stall_ms: self.stall_ms,
            peer_ms: self.peer_ms,
            limit: self.limit,
        }
    }
}

impl Channel {
    /// A session before its greeting.
    pub open spec fn initial(
        dialer: bool,
        id: u64,
        conv: u32,
        now: u64,
        stall_ms: u64,
        peer_ms: u64,
        limit: usize,
    ) -> Channel {
        Channel {
            dialer,
            hello: false,
            ready: false,
            closed: false,
            id,
            conv,
            started: now,
            last_offer: now,
            last_feedback: now,
            last_peer: now,
            now,
            running: false,
            engine: None,
            datagrams: None,
            since: now,
            clock: 0,
            segments: 0,
            carried: 0,
            taken: 0,
            waiting: Seq::empty(),
            output: Seq::empty(),
            wire: Seq::empty(),
            incoming: Seq::empty(),
            sent: 0,
            received: 0,
            consumed: 0,
            peer_sent: 0,
            outstanding: Seq::empty(),
            acknowledgement_since: None,
            consuming: Seq::empty(),
            gap_since: None,
            stall_ms,
            peer_ms,
            limit,
        }
    }

    /// The session after a failure: closed for good, with nothing left to send or to deliver.
    pub open spec fn failed(self) -> Channel {
        Channel {
            closed: true,
            ready: false,
            running: false,
            engine: None,
            datagrams: None,
            clock: 0,
            segments: 0,
            carried: 0,
            taken: 0,
            waiting: Seq::empty(),
            output: Seq::empty(),
            wire: Seq::empty(),
            incoming: Seq::empty(),
            outstanding: Seq::empty(),
            acknowledgement_since: None,
            consuming: Seq::empty(),
            ..self
        }
    }

    pub open spec fn is_ready(self) -> bool {
        self.ready && !self.closed
    }

    pub open spec fn can_flush(self) -> bool {
        self.output.len() <= OUTPUT_CAPACITY - FLUSH_RESERVE
    }

    /// Whether the output queue can take these datagrams.
    pub open spec fn has_room(self, written: Seq<Seq<u8>>) -> bool {
        self.output.len() + written.len() <= OUTPUT_CAPACITY
    }

    /// The datagrams join the output queue, as many as it can take.
    pub open spec fn queued(self, written: Seq<Seq<u8>>) -> Channel {
        let kept = if self.has_room(written) {
            written
        } else {
            written.take(OUTPUT_CAPACITY - self.output.len())
        };
        Channel { output: self.output + stamped(kept, self.now), ..self }
    }

    /// Whether the oldest packet has waited for the writer for too long.
    pub open spec fn output_late(self, now: u64) -> bool {
        ||| self.wire.len() > 0 && late(now, self.wire[0].0, self.stall_ms)
        ||| self.output.len() > 0 && late(now, self.output[0].0, self.stall_ms)
    }

    /// Whether reliable input has made no progress for too long: a message sent was not consumed, a
    /// message received was not consumed, or a message that the peer sent did not arrive.
    pub open spec fn stalled(self, now: u64) -> bool {
        ||| self.acknowledgement_since is Some && late(
            now,
            self.acknowledgement_since->0,
            self.stall_ms,
        )
        ||| self.consuming.len() > 0 && late(now, self.consuming[0].1, self.stall_ms)
        ||| self.gap_since is Some && late(now, self.gap_since->0, self.stall_ms)
    }

    /// The frame joins those that wait for the writer.
    pub open spec fn emit(self, frame: FrameView) -> Channel {
        Channel { wire: self.wire.push((self.now, frame.wire())), ..self }
    }

    /// A motion datagram that depends on the reliable message `dependency` arrived.
    pub open spec fn fresh_motion(self, dependency: u64, now: u64) -> Channel {
        if !self.is_ready() {
            self
        } else {
            let known = if dependency > self.peer_sent {
                dependency
            } else {
                self.peer_sent
            };
            Channel {
                last_peer: now,
                peer_sent: known,
                gap_since: if known > self.received && self.gap_since is None {
                    Some(now)
                } else {
                    self.gap_since
                },
                ..self
            }
        }
    }

    /// The peer is known to live.
    pub open spec fn peer_activity(self, now: u64) -> Channel {
        if self.is_ready() {
            Channel { last_peer: now, ..self }
        } else {
            self
        }
    }

    /// The peer reports the highest sequence numbers that it sent and consumed.
    pub open spec fn progress(self, sent: u64, processed: u64) -> (Channel, Result<(), Fault>) {
        if processed > self.sent {
            (self.failed(), Err(Fault::FutureAcknowledgement))
        } else {
            let known = if sent > self.peer_sent {
                sent
            } else {
                self.peer_sent
            };
            let left = beyond(self.outstanding, processed);
            (
                Channel {
                    peer_sent: known,
                    outstanding: left,
                    acknowledgement_since: if left.len() == 0 {
                        None
                    } else if left.len() < self.outstanding.len() {
                        Some(self.now)
                    } else {
                        self.acknowledgement_since
                    },
                    gap_since: if known > self.received && self.gap_since is None {
                        Some(self.now)
                    } else {
                        self.gap_since
                    },
                    last_peer: self.now,
                    ..self
                },
                Ok(()),
            )
        }
    }

    /// The engine hands out one message.
    pub open spec fn accept(self, message: Seq<u8>) -> (Channel, Result<(), Fault>) {
        if message.len() < 8 || message.len() > self.limit || self.consuming.len() >= MAX_PENDING {
            (self.failed(), Err(Fault::ReceiveBudget))
        } else {
            let seq = at64(message, 0);
            if seq == 0 && message.len() == 8 && !self.dialer && self.received == 0 {
                (self, Ok(()))
            } else if seq != self.received + 1 {
                (self.failed(), Err(Fault::InvalidSequence))
            } else {
                (
                    Channel {
                        received: seq,
                        peer_sent: if seq > self.peer_sent {
                            seq
                        } else {
                            self.peer_sent
                        },
                        consuming: self.consuming.push((seq, self.now)),
                        incoming: self.incoming.push(
                            (seq, message.subrange(8, message.len() as int)),
                        ),
                        ..self
                    },
                    Ok(()),
                )
            }
        }
    }

    /// The application has consumed a message.
    pub open spec fn processed(self, sequence: u64) -> (Channel, Result<(), Fault>) {
        if self.closed {
            (self, Err(Fault::Closed))
        } else if sequence != self.consumed + 1 || sequence > self.received {
            (self.failed(), Err(Fault::OutOfOrder))
        } else {
            (
                Channel {
                    consumed: sequence,
                    consuming: self.consuming.subrange(1, self.consuming.len() as int),
                    ..self
                },
                Ok(()),
            )
        }
    }

    /// The feedback that this session owes its peer.
    pub open spec fn report(self) -> FrameView {
        FrameView::Progress { id: self.id, sent: self.sent, processed: self.consumed }
    }

    /// A new engine starts with its clock at zero and nothing to send or to read.
    pub open spec fn starts(self, next: Channel) -> bool {
        &&& next.engine is Some
        &&& begun(next.engine->0, self.conv)
        &&& next.datagrams is Some
        &&& feeds(kcp_output(next.engine->0), next.datagrams->0)
        &&& next == (Channel {
            hello: true,
            running: true,
            engine: next.engine,
            datagrams: next.datagrams,
            since: self.now,
            clock: 0,
            segments: 0,
            carried: 0,
            taken: 0,
            ..self
        })
    }

    /// What the peer's greeting does. The dialer starts its engine and
    /// offers the session, which fails if too many frames wait.
    pub open spec fn greeted(self, supported: bool, r: Result<(), Fault>, next: Channel) -> bool {
        if self.closed {
            r == Err::<(), Fault>(Fault::Closed) && next == self
        } else if !supported {
            r == Err::<(), Fault>(Fault::Unsupported) && next == self.failed()
        } else if self.hello {
            r is Ok && next == self
        } else if self.dialer {
            exists|s: Channel| #[trigger]
                self.starts(s) && if self.wire.len() >= WIRE_CAPACITY {
                    r == Err::<(), Fault>(Fault::WireBudget) && next == s.failed()
                } else {
                    r is Ok && next == s.emit(FrameView::Offer { id: self.id, conv: self.conv })
                }
        } else {
            r is Ok && next == (Channel { hello: true, ..self })
        }
    }

    /// The session whose engine has taken one message.
    pub open spec fn loaded(self, bytes: Seq<u8>) -> Channel {
        let seq = (self.sent + 1) as u64;
        Channel {
            sent: seq,
            outstanding: self.outstanding.push((seq, self.now)),
            acknowledgement_since: if self.outstanding.len() == 0 {
                Some(self.now)
            } else {
                self.acknowledgement_since
            },
            ..self.given(le64(seq) + bytes)
        }
    }

    /// The session whose engine was given these bytes as one message.
    pub open spec fn given(self, message: Seq<u8>) -> Channel {
        let parts = pieces(message, (MTU - HEADER) as nat);
        Channel {
            engine: Some(kcp_after_send(self.engine->0, message)),
            waiting: self.waiting + parts,
            segments: (self.segments + parts.len()) as u32,
            ..self
        }
    }

    /// The engine is flushed, and what it writes joins the output queue.
    pub open spec fn flushed(self) -> Channel {
        Channel {
            engine: Some(kcp_after_flush(self.engine->0)),
            carried: self.laden(kcp_flushed(self.engine->0)),
            ..self.queued(kcp_flushed(self.engine->0))
        }
    }

    /// How often the engine has written a segment with data once it has written these datagrams.
    pub open spec fn laden(self, written: Seq<Seq<u8>>) -> u64 {
        (self.carried + all_pushes(written)) as u64
    }

    /// Whether the engine can number the segments of one more message.
    pub open spec fn can_number(self, message: Seq<u8>) -> bool {
        self.segments + pieces(message, (MTU - HEADER) as nat).len() <= NUMBER_LIMIT
    }

    /// Whether the engine can count what it repeats in one more flush.
    pub open spec fn can_repeat(self) -> bool {
        self.carried <= WRITE_LIMIT
    }

    /// Whether the engine can take a datagram of these segments: it can compare their numbers and
    /// count the datagram for every segment that waits.
    pub open spec fn can_take(self, payload: Seq<u8>) -> bool {
        self.taken < DATAGRAM_LIMIT && segments_fit(payload, self.clock)
    }

    /// What sending one message does. The engine takes every message that it can cut into segments
    /// and number, and writes at once if the output queue has room for a whole flush.
    pub open spec fn sends(self, bytes: Seq<u8>, r: Result<(), Fault>, next: Channel) -> bool {
        let message = le64((self.sent + 1) as u64) + bytes;
        if !self.is_ready() {
            r == Err::<(), Fault>(Fault::NotReady) && next == self
        } else if message.len() > self.limit || self.outstanding.len() >= MAX_PENDING
            || self.waiting.len() >= MAX_PENDING {
            r == Err::<(), Fault>(Fault::InputBudget) && next == self.failed()
        } else if self.sent == u64::MAX {
            r == Err::<(), Fault>(Fault::SequenceExhausted) && next == self
        } else if message.len() > 127 * (MTU - HEADER) || !self.can_number(message) {
            &&& r == Err::<(), Fault>(Fault::EngineSend)
            &&& next == (Channel { sent: (self.sent + 1) as u64, ..self }).failed()
        } else if self.can_flush() && self.can_repeat() {
            &&& r is Ok
            &&& self.has_room(kcp_flushed(self.loaded(bytes).engine->0))
            &&& next == self.loaded(bytes).flushed()
        } else {
            r is Ok && next == self.loaded(bytes)
        }
    }

    /// The session whose engine has handed out a message.
    pub open spec fn read(self) -> Channel {
        Channel {
            engine: match self.engine {
                Some(k) => Some(kcp_after_recv(k)),
                None => None,
            },
            ..self
        }
    }

    /// The engine hands out messages in a row, until one is refused.
    pub open spec fn accept_all(self, messages: Seq<Seq<u8>>) -> (Channel, Result<(), Fault>)
        decreases messages.len(),
    {
        if messages.len() == 0 {
            (self, Ok(()))
        } else {
            let (next, r) = self.read().accept(messages[0]);
            match r {
                Ok(_) => next.accept_all(messages.subrange(1, messages.len() as int)),
                Err(fault) => (next, Err(fault)),
            }
        }
    }

    /// The messages received since join the ones that wait for the application, numbered on from the
    /// last one received before.
    pub open spec fn delivers(self, next: Channel) -> bool {
        let n = next.received - self.received;
        &&& n >= 0
        &&& next == (Channel {
            received: next.received,
            peer_sent: if next.received > self.peer_sent {
                next.received
            } else {
                self.peer_sent
            },
            consuming: self.consuming + fresh(self, n as nat),
            incoming: next.incoming,
            engine: next.engine,
            ..self
        })
        &&& next.engine is Some == self.engine is Some
        &&& next.incoming.len() == self.incoming.len() + n
        &&& next.incoming.subrange(0, self.incoming.len() as int) == self.incoming
        &&& forall|i: int|
            self.incoming.len() <= i < next.incoming.len() ==> (#[trigger] next.incoming[i]).0
                == self.received + 1 + i - self.incoming.len() && next.incoming[i].1.len() + 8
                <= self.limit
    }

    /// A datagram that the engine has taken opens the session and proves that the peer lives. The
    /// engine has acknowledged it.
    pub open spec fn opened(self, payload: Seq<u8>) -> Channel {
        let fed = kcp_after_input(self.engine->0, payload);
        Channel {
            ready: true,
            last_peer: self.now,
            engine: Some(kcp_after_flush_ack(fed)),
            waiting: kcp_waiting(fed),
            taken: if kcp_waiting(fed).len() == 0 {
                0
            } else {
                (self.taken + 1) as u32
            },
            ..self.queued(kcp_acknowledged(fed))
        }
    }

    /// Messages have arrived since `received`: a gap that is left starts anew, or there is none.
    pub open spec fn settle_gap(self, received: u64) -> Channel {
        Channel {
            gap_since: if self.peer_sent <= self.received {
                None
            } else if self.received > received {
                Some(self.now)
            } else {
                self.gap_since
            },
            ..self
        }
    }

    /// What a datagram of sound segments does: the engine takes and acknowledges it, and hands out the
    /// messages that it completes.
    pub open spec fn takes_segments(self, payload: Seq<u8>) -> (Channel, Result<(), Fault>) {
        let fed = kcp_after_input(self.engine->0, payload);
        if !self.has_room(kcp_acknowledged(fed)) {
            (self.failed(), Err(Fault::EngineInput))
        } else {
            let (last, r) = self.opened(payload).accept_all(kcp_inbox(fed));
            (
                if r is Ok {
                    last.settle_gap(self.received)
                } else {
                    last
                },
                r,
            )
        }
    }

    /// What a datagram of the engine does. It never adds to the segments that wait, and one datagram
    /// acknowledges it. A datagram that the engine cannot take counts as lost.
    pub open spec fn takes_data(
        self,
        payload: Seq<u8>,
        r: Result<(), Fault>,
        next: Channel,
    ) -> bool {
        let fed = kcp_after_input(self.engine->0, payload);
        if self.dialer && !self.ready {
            r == Err::<(), Fault>(Fault::DataBeforeReady) && next == self.failed()
        } else if !segments_sound(payload, self.conv) {
            r == Err::<(), Fault>(Fault::InvalidSegment) && next == self.failed()
        } else if !self.can_take(payload) {
            r is Ok && next == self
        } else {
            &&& (next, r) == self.takes_segments(payload)
            &&& kcp_waiting(fed).len() <= self.waiting.len()
            &&& kcp_acknowledged(fed).len() <= 1
            &&& within(kcp_acknowledged(fed), MTU as nat)
        }
    }

    /// What the dialer's offer does: the first one starts the engine, and each is confirmed.
    pub open spec fn takes_offer(
        self,
        id: u64,
        conv: u32,
        r: Result<(), Fault>,
        next: Channel,
    ) -> bool {
        if self.running {
            if id != self.id || conv != self.conv {
                r == Err::<(), Fault>(Fault::Renegotiation) && next == self.failed()
            } else if self.wire.len() >= WIRE_CAPACITY {
                r == Err::<(), Fault>(Fault::WireBudget) && next == self.failed()
            } else {
                r is Ok && next == self.emit(FrameView::Ready { id, conv })
            }
        } else {
            exists|s: Channel|
                {
                    &&& #[trigger] (Channel { id, conv, ..self }).starts(s)
                    &&& if s.wire.len() >= WIRE_CAPACITY {
                        r == Err::<(), Fault>(Fault::WireBudget) && next == s.failed()
                    } else {
                        r is Ok && next == s.emit(FrameView::Ready { id, conv })
                    }
                }
        }
    }

    /// What the acceptor's confirmation does: the first one opens the session, and the dialer sends
    /// a message without a sequence number.
    pub open spec fn takes_ready(self, r: Result<(), Fault>, next: Channel) -> bool {
        if self.ready {
            r is Ok && next == self
        } else {
            let opened = Channel { ready: true, last_peer: self.now, ..self };
            opened.probes(Fault::BootstrapFlush, r, next)
        }
    }

    /// What sending a message without a sequence number does. It is written at once; `fault` says
    /// that the output queue could not take all of it, or that the engine has no number for it or
    /// cannot count it.
    pub open spec fn probes(self, fault: Fault, r: Result<(), Fault>, next: Channel) -> bool {
        if !self.can_number(zeros()) || !self.can_repeat() {
            r == Err::<(), Fault>(fault) && next == self
        } else {
            let written = kcp_flushed(self.given(zeros()).engine->0);
            &&& written.len() <= FLUSH_RESERVE
            &&& next == self.given(zeros()).flushed()
            &&& r == (if self.has_room(written) {
                Ok::<(), Fault>(())
            } else {
                Err(fault)
            })
        }
    }

    /// What one frame of the peer does.
    pub open spec fn takes(self, bytes: Seq<u8>, r: Result<(), Fault>, next: Channel) -> bool {
        if self.closed {
            r == Err::<(), Fault>(Fault::Closed) && next == self
        } else if !self.hello {
            r == Err::<(), Fault>(Fault::BeforeHello) && next == self.failed()
        } else {
            match frame::parse(bytes) {
                None => r == Err::<(), Fault>(Fault::InvalidFrame) && next == self.failed(),
                Some(FrameView::Offer { id, conv }) if !self.dialer => self.takes_offer(
                    id,
                    conv,
                    r,
                    next,
                ),
                Some(FrameView::Ready { id, conv }) if self.dialer && id == self.id && conv
                    == self.conv => self.takes_ready(r, next),
                Some(FrameView::Data { id, payload }) if id == self.id && self.running =>
                    self.takes_data(payload, r, next),
                Some(FrameView::Progress { id, sent, processed }) if id == self.id && self.running =>
                    (next, r) == self.progress(sent, processed),
                Some(FrameView::Data { id, .. }) if id != self.id => r is Ok && next == self,
                Some(FrameView::Progress { id, .. }) if id != self.id => r is Ok && next == self,
                Some(_) => r == Err::<(), Fault>(Fault::UnexpectedFrame) && next == self.failed(),
            }
        }
    }

    /// The fault that the deadlines at `now` call for.
    pub open spec fn overdue(self, now: u64) -> Option<Fault> {
        if !self.ready && now >= self.started + NEGOTIATION_MS {
            Some(Fault::NegotiationTimeout)
        } else if self.ready && late(now, self.last_peer, self.peer_ms) {
            Some(Fault::PeerTimeout)
        } else if self.ready && self.stalled(now) {
            Some(Fault::InputStalled)
        } else if self.output_late(now) {
            Some(Fault::OutputStalled)
        } else {
            None
        }
    }

    /// The session with an offer, if one is due.
    pub open spec fn offered(self) -> Channel {
        if self.wire.len() < WIRE_CAPACITY && self.hello && self.dialer && !self.ready && self.now
            >= self.last_offer + OFFER_MS {
            Channel { last_offer: self.now, ..self.emit(
                FrameView::Offer { id: self.id, conv: self.conv },
            ) }
        } else {
            self
        }
    }

    /// The session with its feedback, if it is due.
    pub open spec fn reported(self) -> Channel {
        if self.wire.len() < WIRE_CAPACITY && self.ready && self.now >= self.last_feedback
            + FEEDBACK_MS {
            Channel { last_feedback: self.now, ..self.emit(self.report()) }
        } else {
            self
        }
    }

    /// How long the engine has run.
    pub open spec fn elapsed(self) -> u64 {
        if self.now > self.since {
            (self.now - self.since) as u64
        } else {
            0
        }
    }

    /// The engine's clock starts anew once it has run for long and no segment waits.
    pub open spec fn turned(self) -> Channel {
        if self.waiting.len() == 0 && self.elapsed() >= CLOCK_TURN {
            Channel { since: self.now, clock: 0, ..self }
        } else {
            self
        }
    }

    /// The next reading of the engine's clock. It does not go back, and stands still at its end.
    pub open spec fn reading(self) -> u32 {
        let elapsed = if self.elapsed() < CLOCK_LIMIT {
            self.elapsed() as u32
        } else {
            (CLOCK_LIMIT - 1) as u32
        };
        if elapsed > self.clock {
            elapsed
        } else {
            self.clock
        }
    }

    /// The packet that leaves next, if one waits: the older one of the first frame and the first
    /// datagram, and the frame of two as old. Tells whether it is a frame of the session.
    pub open spec fn first_out(self) -> Option<(bool, u64, Seq<u8>)> {
        if self.wire.len() > 0 && (self.output.len() == 0 || self.wire[0].0 <= self.output[0].0) {
            Some((true, self.wire[0].0, self.wire[0].1))
        } else if self.output.len() > 0 {
            Some((false, self.output[0].0, self.framed(0).1))
        } else {
            None
        }
    }

    /// A datagram that waits, in its frame.
    pub open spec fn framed(self, i: int) -> (u64, Seq<u8>) {
        (
            self.output[i].0,
            (FrameView::Data { id: self.id, payload: self.output[i].1 }).wire(),
        )
    }

    /// The session without the packet that leaves next.
    pub open spec fn popped(self) -> Channel {
        match self.first_out() {
            Some((true, _, _)) => Channel {
                wire: self.wire.subrange(1, self.wire.len() as int),
                ..self
            },
            Some((false, _, _)) => Channel {
                output: self.output.subrange(1, self.output.len() as int),
                ..self
            },
            None => self,
        }
    }

    /// The packets that leave one after the other until none waits.
    pub open spec fn leaving(self) -> Seq<(bool, u64, Seq<u8>)>
        decreases self.wire.len() + self.output.len(),
    {
        match self.first_out() {
            Some(packet) => seq![packet] + self.popped().leaving(),
            None => Seq::empty(),
        }
    }

    /// The session once all of them have left.
    pub open spec fn emptied(self) -> Channel
        decreases self.wire.len() + self.output.len(),
    {
        if self.first_out() is Some {
            self.popped().emptied()
        } else {
            self
        }
    }

    /// The engine's clock advances, and what it writes joins the output queue.
    pub open spec fn updated(self) -> Channel {
        Channel {
            engine: Some(kcp_after_update(self.engine->0, self.reading())),
            clock: self.reading(),
            carried: self.laden(kcp_updated(self.engine->0, self.reading())),
            ..self.queued(kcp_updated(self.engine->0, self.reading()))
        }
    }

    /// What a tick does. The engine's clock advances only if the output queue has room for a whole
    /// flush.
    pub open spec fn ticks(self, r: Result<(), Fault>, next: Channel) -> bool {
        if self.closed {
            r == Err::<(), Fault>(Fault::Closed) && next == self
        } else {
            match self.overdue(self.now) {
                Some(fault) => r == Err::<(), Fault>(fault) && next == self.failed(),
                None => {
                    let s = self.offered().reported();
                    &&& r is Ok
                    &&& if s.can_flush() && s.running && s.can_repeat() {
                        let t = s.turned();
                        &&& t.has_room(kcp_updated(t.engine->0, t.reading()))
                        &&& next == t.updated()
                    } else {
                        next == s
                    }
                },
            }
        }
    }

    /// What every session keeps.
    pub open spec fn well_formed(self) -> bool {
        &&& self.closed ==> self == self.failed()
        &&& self.running <==> self.engine is Some
        &&& self.clock < CLOCK_LIMIT
        &&& self.segments <= NUMBER_LIMIT
        &&& self.carried <= WRITE_LIMIT + 0x1_0000
        &&& self.taken <= DATAGRAM_LIMIT
        &&& self.ready ==> self.running
        &&& self.running ==> self.hello
        &&& self.hello && self.dialer && !self.closed ==> self.running
        &&& !self.running ==> self.waiting.len() == 0
        &&& self.wire.len() <= WIRE_CAPACITY
        &&& self.output.len() <= OUTPUT_CAPACITY
        &&& forall|i: int|
            0 <= i < self.output.len() ==> (#[trigger] self.output[i]).1.len() <= MTU
        &&& self.limit >= MESSAGE_OVERHEAD
        &&& self.consumed <= self.received <= self.peer_sent
        &&& self.outstanding.len() <= MAX_PENDING
        &&& self.outstanding.len() <= self.sent
        &&& self.acknowledgement_since is Some <==> self.outstanding.len() > 0
        &&& forall|i: int|
            0 <= i < self.outstanding.len() ==> (#[trigger] self.outstanding[i]).0 == self.sent
                - self.outstanding.len() + 1 + i
        &&& self.consuming.len() <= MAX_PENDING
        &&& !self.closed ==> self.consuming.len() == self.received - self.consumed
        &&& forall|i: int|
            0 <= i < self.consuming.len() ==> (#[trigger] self.consuming[i]).0 == self.consumed + 1
                + i
        &&& self.incoming.len() <= self.received
        &&& forall|i: int|
            0 <= i < self.incoming.len() ==> (#[trigger] self.incoming[i]).0 == self.received
                - self.incoming.len() + 1 + i
    }
}

impl Session {
    /// What every session keeps, its engine included.
    pub closed spec fn inv(self) -> bool {
        &&& self@.well_formed()
        &&& self.kcp is Some ==> {
            let k = self.kcp->0;
            &&& holds(k, self.conv, self@.waiting)
            &&& kcp_started(k)
            &&& kcp_acks(k) == 0
            &&& kcp_clock(k) == self.clock
            &&& kcp_numbers(k) == self.segments
            &&& kcp_passed(k) <= self.taken
            &&& kcp_writes(k) == self.carried
            &&& self.datagrams is Some
            &&& feeds(kcp_output(k), self.datagrams->0)
        }
    }

    /// A session that still has to negotiate. `layout` is the length of the longest display layout.
    pub fn with_timeout(
        dialer: bool,
        id: u64,
        conv: u32,
        now: u64,
        timeouts: Timeouts,
        layout: usize,
    ) -> (r: Session)
        ensures
            r.inv(),
            r@ == Channel::initial(
                dialer,
                id,
                conv,
                now,
                timeouts.stall@,
                timeouts.peer@,
                message_limit(layout),
            ),
    {
        let r = Session {
            dialer,
            hello: false,
            ready: false,
            closed: false,
            id,
            conv,
            started: now,
            last_offer: now,
            last_feedback: now,
            last_peer: now,
            now,
            kcp: None,
            datagrams: None,
            since: now,
            clock: 0,
            segments: 0,
            carried: 0,
            taken: 0,
            output: VecDeque::new(),
            wire: VecDeque::new(),
            incoming: VecDeque::new(),
            sent: 0,
            received: 0,
            consumed: 0,
            peer_sent: 0,
            outstanding: VecDeque::new(),
            acknowledgement_since: None,
            consuming: VecDeque::new(),
            gap_since: None,
            stall_ms: timeouts.stall.milliseconds(),
            peer_ms: timeouts.peer.milliseconds(),
            limit: layout.saturating_add(MESSAGE_OVERHEAD),
        };
        assert(packets(r.output@) =~= Seq::<(u64, Seq<u8>)>::empty());
        r
    }

    pub fn set_stall_ms(&mut self, milliseconds: u64)
        requires
            old(self).inv(),
        ensures
            final(self).inv(),
            final(self)@ == (Channel { stall_ms: milliseconds, ..old(self)@ }),
    {
        self.stall_ms = milliseconds;
    }

    fn fail(&mut self)
        requires
            old(self).inv(),
        ensures
            final(self).inv(),
            final(self)@ == old(self)@.failed(),
    {
        self.closed = true;
        self.ready = false;
        self.kcp = None;
        self.datagrams = None;
        self.clock = 0;
        self.segments = 0;
        self.carried = 0;
        self.taken = 0;
        self.wire.clear();
        self.incoming.clear();
        self.outstanding.clear();
        self.acknowledgement_since = None;
        self.consuming.clear();
        self.output.clear();
        assert(packets(Seq::<(u64, Vec<u8>)>::empty()) =~= Seq::<(u64, Seq<u8>)>::empty());
    }

    pub fn ready(&self) -> (r: bool)
        ensures
            r == self@.is_ready(),
    {
        self.ready && !self.closed
    }

    pub fn can_send(&self) -> (r: bool)
        ensures
            r == (self@.is_ready() && self@.outstanding.len() < MAX_PENDING && self@.running
                && self@.waiting.len() < MAX_PENDING),
    {
        let room = match &self.kcp {
            Some(k) => kcp_wait_snd(k) < MAX_PENDING,
            None => false,
        };
        self.ready() && self.outstanding.len() < MAX_PENDING && room
    }

    pub fn has_received(&self) -> (r: bool)
        ensures
            r == (self@.incoming.len() > 0),
    {
        self.incoming.len() > 0
    }

    pub fn can_input(&self) -> (r: bool)
        ensures
            r == (self@.wire.len() < WIRE_CAPACITY && self@.output.len() <= OUTPUT_CAPACITY - 2),
    {
        self.wire.len() < WIRE_CAPACITY && self.output.len() <= OUTPUT_CAPACITY - 2
    }

    fn can_flush(&self) -> (r: bool)
        ensures
            r == self@.can_flush(),
    {
        self.output.len() <= OUTPUT_CAPACITY - FLUSH_RESERVE
    }

    pub fn fresh_motion(&mut self, dependency: u64, now: u64)
        requires
            old(self).inv(),
        ensures
            final(self).inv(),
            final(self)@ == old(self)@.fresh_motion(dependency, now),
    {
        if self.ready() {
            self.last_peer = now;
            // A future sample also proves a reliable gap even if Progress was lost.
            // Start its deadline once; further motion must never renew it.
            if dependency > self.peer_sent {
                self.peer_sent = dependency;
            }
            if self.peer_sent > self.received && self.gap_since.is_none() {
                self.gap_since = Some(now);
            }
        }
    }

    /// Authenticated liveness of the peer, apart from reliable input.
    pub fn peer_activity(&mut self, now: u64)
        requires
            old(self).inv(),
        ensures
            final(self).inv(),
            final(self)@ == old(self)@.peer_activity(now),
    {
        if self.ready() {
            self.last_peer = now;
        }
    }

    pub fn has_output(&self) -> (r: bool)
        ensures
            r == (self@.wire.len() > 0 || self@.output.len() > 0),
    {
        self.wire.len() > 0 || self.output.len() > 0
    }

    pub fn output_expired(&self, now: u64) -> (r: bool)
        ensures
            r == self@.output_late(now),
    {
        (self.wire.len() > 0 && now.saturating_sub(self.wire[0].0) > self.stall_ms) || (
        self.output.len() > 0 && now.saturating_sub(self.output[0].0) > self.stall_ms)
    }

    // Called only after the writer has reserved capacity. Never discard a batch.
    pub fn pop_output(&mut self) -> (r: Option<(u64, Vec<u8>)>)
        requires
            old(self).inv(),
        ensures
            final(self).inv(),
            final(self)@ == old(self)@.popped(),
            match r {
                Some(p) => old(self)@.first_out() matches Some(first) && p.0 == first.1 && p.1@
                    == first.2,
                None => old(self)@.first_out() is None,
            },
    {
        if self.wire.len() > 0 && (self.output.len() == 0 || self.wire[0].0 <= self.output[0].0) {
            let r = self.wire.pop_front();
            assert(self@.wire =~= old(self)@.wire.subrange(1, old(self)@.wire.len() as int));
            r
        } else {
            match self.output.pop_front() {
                Some((created, payload)) => {
                    assert(self@.output =~= old(self)@.output.subrange(
                        1,
                        old(self)@.output.len() as int,
                    ));
                    Some((created, Frame::Data { id: self.id, payload }.encode()))
                },
                None => None,
            }
        }
    }

    /// Queues a datagram of the engine unless the queue is full or the datagram is longer than the
    /// MTU.
    pub fn queue(&mut self, datagram: Vec<u8>) -> (r: bool)
        requires
            old(self).inv(),
        ensures
            final(self).inv(),
            r == (!old(self)@.closed && old(self)@.output.len() < OUTPUT_CAPACITY && datagram@.len()
                <= MTU),
            final(self)@ == (if r {
                old(self)@.queued(seq![datagram@])
            } else {
                old(self)@
            }),
    {
        if self.closed || self.output.len() >= OUTPUT_CAPACITY || datagram.len() > MTU {
            return false;
        }
        let ghost s = self@;
        self.output.push_back((self.now, datagram));
        assert(stamped(seq![datagram@], s.now) =~= seq![(s.now, datagram@)]);
        assert(self@.output =~= s.output + seq![(s.now, datagram@)]);
        true
    }

    /// Queues the datagrams that the engine has written, as many as the queue can take.
    fn queue_all(&mut self, written: Vec<Vec<u8>>) -> (r: bool)
        requires
            old(self).inv(),
            !old(self)@.closed,
            within(views(written@), MTU as nat),
        ensures
            final(self).inv(),
            r == old(self)@.has_room(views(written@)),
            final(self)@ == old(self)@.queued(views(written@)),
    {
        let ghost s = self@;
        let ghost all = views(written@);
        let mut rest = written;
        assert(s.output + stamped(all.take(0), s.now) =~= s.output);
        while rest.len() > 0
            invariant
                self.inv(),
                !s.closed,
                self.kcp == old(self).kcp,
                s == old(self)@,
                all == views(written@),
                within(all, MTU as nat),
                rest@.len() <= all.len(),
                views(rest@) == all.skip(all.len() - rest@.len()),
                s.output.len() + all.len() - rest@.len() <= OUTPUT_CAPACITY,
                self@ == (Channel {
                    output: s.output + stamped(all.take(all.len() - rest@.len()), s.now),
                    ..s
                }),
            decreases rest.len(),
        {
            let ghost done = all.len() - rest@.len();
            let ghost queue = rest@;
            let datagram = rest.remove(0);
            assert(views(queue)[0] == datagram@);
            assert(views(queue)[0] == all[done]);
            if !self.queue(datagram) {
                return false;
            }
            assert forall|i: int| 0 <= i < rest@.len() implies views(rest@)[i] == all.skip(
                done + 1,
            )[i] by {
                assert(views(queue)[i + 1] == all.skip(done)[i + 1]);
            }
            assert(views(rest@) =~= all.skip(done + 1));
            assert(stamped(all.take(done + 1), s.now) =~= stamped(all.take(done), s.now)
                + stamped(seq![datagram@], s.now));
            assert(self@.output =~= s.output + stamped(all.take(done + 1), s.now));
        }
        assert(all.take(all.len() as int) =~= all);
        true
    }

    /// Starts the engine of a session that has been greeted.
    fn init(&mut self) -> (r: Result<(), Fault>)
        requires
            old(self).inv(),
            !old(self)@.closed,
            !old(self)@.running,
        ensures
            r is Ok,
            final(self).inv(),
            old(self)@.starts(final(self)@),
    {
        let (output, datagrams) = channel();
        let mut k = kcp_new(self.conv, output);
        if kcp_set_mtu(&mut k, MTU).is_err() {
            return Err(Fault::Mtu);
        }
        kcp_set_wndsize(&mut k, 64, 128);
        // Interactive LAN input must not wait for a congestion window to
        // recover after Wi-Fi loss. Application windows/queues remain bounded.
        kcp_set_nodelay(&mut k, true, 10, 2, true);
        // A new engine has nothing to write.
        let ghost new = k;
        if kcp_update(&mut k, &datagrams, 0).is_err() {
            return Err(Fault::EngineUpdate);
        }
        assert(kcp_fresh(new) && holds(new, self.conv, Seq::empty()));
        self.hello = true;
        self.since = self.now;
        self.clock = 0;
        self.segments = 0;
        self.carried = 0;
        self.taken = 0;
        self.kcp = Some(k);
        self.datagrams = Some(datagrams);
        assert(self@.waiting =~= old(self)@.waiting);
        Ok(())
    }

    fn emit(&mut self, frame: Frame) -> (r: Result<(), Fault>)
        requires
            old(self).inv(),
            !old(self)@.closed,
        ensures
            final(self).inv(),
            if old(self)@.wire.len() >= WIRE_CAPACITY {
                r == Err::<(), Fault>(Fault::WireBudget) && final(self)@ == old(self)@.failed()
            } else {
                r is Ok && final(self)@ == old(self)@.emit(frame@)
            },
    {
        if self.wire.len() >= WIRE_CAPACITY {
            self.fail();
            return Err(Fault::WireBudget);
        }
        self.wire.push_back((self.now, frame.encode()));
        assert(self@.wire =~= old(self)@.wire.push((old(self)@.now, frame@.wire())));
        Ok(())
    }

    /// Offers the peer this session.
    pub fn offer(&mut self) -> (r: Result<(), Fault>)
        requires
            old(self).inv(),
            !old(self)@.closed,
        ensures
            final(self).inv(),
            if old(self)@.wire.len() >= WIRE_CAPACITY {
                r == Err::<(), Fault>(Fault::WireBudget) && final(self)@ == old(self)@.failed()
            } else {
                r is Ok && final(self)@ == old(self)@.emit(
                    FrameView::Offer { id: old(self)@.id, conv: old(self)@.conv },
                )
            },
    {
        self.emit(Frame::Offer { id: self.id, conv: self.conv })
    }

    fn feedback(&mut self) -> (r: Result<(), Fault>)
        requires
            old(self).inv(),
            !old(self)@.closed,
        ensures
            final(self).inv(),
            if old(self)@.wire.len() >= WIRE_CAPACITY {
                r == Err::<(), Fault>(Fault::WireBudget) && final(self)@ == old(self)@.failed()
            } else {
                r is Ok && final(self)@ == old(self)@.emit(old(self)@.report())
            },
    {
        self.emit(Frame::Progress { id: self.id, sent: self.sent, processed: self.consumed })
    }

    /// The peer's greeting says whether it supports KCP. The dialer then offers the session.
    pub fn hello(&mut self, supported: bool, now: u64) -> (r: Result<(), Fault>)
        requires
            old(self).inv(),
        ensures
            final(self).inv(),
            (Channel { now, ..old(self)@ }).greeted(supported, r, final(self)@),
    {
        self.now = now;
        if self.closed {
            return Err(Fault::Closed);
        }
        if !supported {
            self.fail();
            return Err(Fault::Unsupported);
        }
        if !self.hello {
            if self.dialer {
                if let Err(fault) = self.init() {
                    return Err(fault);
                }
                assert((Channel { now, ..old(self)@ }).starts(self@));
                return self.offer();
            }
            self.hello = true;
        }
        Ok(())
    }

    /// Sends one reliable message.
    pub fn send(&mut self, bytes: &[u8], now: u64) -> (r: Result<(), Fault>)
        requires
            old(self).inv(),
        ensures
            final(self).inv(),
            (Channel { now, ..old(self)@ }).sends(bytes@, r, final(self)@),
    {
        self.now = now;
        if !self.ready() {
            return Err(Fault::NotReady);
        }
        let full = match &self.kcp {
            Some(k) => kcp_wait_snd(k) >= MAX_PENDING,
            None => true,
        };
        if bytes.len() > self.limit - 8 || self.outstanding.len() >= MAX_PENDING || full {
            self.fail();
            return Err(Fault::InputBudget);
        }
        if self.sent == u64::MAX {
            return Err(Fault::SequenceExhausted);
        }
        let ghost s = self@;
        self.sent = self.sent + 1;
        let mut message: Vec<u8> = Vec::new();
        put64(&mut message, self.sent);
        put_all(&mut message, bytes);
        assert(message@ =~= le64(self.sent) + bytes@);
        let flush = self.can_flush() && self.carried <= WRITE_LIMIT;
        let mut accepted = false;
        let mut written: Vec<Vec<u8>> = Vec::new();
        let count: u32 = if message.len() > 127 * (MTU - HEADER) {
            0
        } else {
            piece_count(&message)
        };
        if self.segments <= NUMBER_LIMIT - count {
            if let Some(datagrams) = &self.datagrams {
                if let Some(k) = &mut self.kcp {
                    accepted = kcp_send(k, &message).is_ok();
                    if accepted {
                        self.segments = self.segments + count;
                        if flush {
                            match kcp_flush(k, datagrams) {
                                Ok(packets) => written = packets,
                                Err(_) => accepted = false,
                            }
                        }
                    }
                }
            }
        }
        if self.outstanding.len() == 0 {
            self.acknowledgement_since = Some(now);
        }
        self.outstanding.push_back((self.sent, now));
        if !accepted {
            self.fail();
            return Err(Fault::EngineSend);
        }
        let ghost taken = s.loaded(bytes@);
        if flush {
            assert(self@ == (Channel { engine: self@.engine, ..taken }));
            self.carried = self.carried + push_counts(&written);
            if !self.queue_all(written) {
                self.fail();
                return Err(Fault::EngineSend);
            }
            assert(self@ == taken.flushed());
        } else {
            assert(self@ == taken);
        }
        Ok(())
    }

    /// Takes one message that the engine handed out.
    pub fn accept(&mut self, message: Vec<u8>) -> (r: Result<(), Fault>)
        requires
            old(self).inv(),
            old(self)@.running,
        ensures
            final(self).inv(),
            (final(self)@, r) == old(self)@.accept(message@),
    {
        if message.len() < 8 || message.len() > self.limit || self.consuming.len() >= MAX_PENDING {
            self.fail();
            return Err(Fault::ReceiveBudget);
        }
        let seq: u64 = get64(&message, 0);
        if seq == 0 && message.len() == 8 && !self.dialer && self.received == 0 {
            return Ok(());
        }
        if seq == 0 || seq - 1 != self.received {
            self.fail();
            return Err(Fault::InvalidSequence);
        }
        let ghost s = self@;
        self.received = seq;
        if seq > self.peer_sent {
            self.peer_sent = seq;
        }
        self.consuming.push_back((seq, self.now));
        let body = tail(&message, 8);
        self.incoming.push_back((seq, body));
        assert(self@.consuming =~= s.consuming.push((seq, s.now)));
        assert(self@.incoming =~= s.incoming.push((seq, body@)));
        Ok(())
    }

    /// Takes every message that the engine has ready, until one is refused.
    fn drain_engine(&mut self) -> (r: Result<(), Fault>)
        requires
            old(self).inv(),
            old(self)@.running,
        ensures
            final(self).inv(),
            (final(self)@, r) == old(self)@.accept_all(kcp_inbox(old(self)@.engine->0)),
    {
        loop
            invariant
                self.inv(),
                self@.running,
                self@.accept_all(kcp_inbox(self.kcp->0)) == old(self)@.accept_all(
                    kcp_inbox(old(self)@.engine->0),
                ),
            decreases kcp_inbox(self.kcp->0).len(),
        {
            let ghost before = self@;
            let mut next: Option<Vec<u8>> = None;
            if let Some(k) = &mut self.kcp {
                if let Ok(size) = kcp_peeksize(k) {
                    if let Ok(message) = kcp_recv(k, size) {
                        next = Some(message);
                    }
                }
            }
            assert(self@ == (if next is Some {
                before.read()
            } else {
                before
            }));
            match next {
                Some(message) => {
                    if let Err(fault) = self.accept(message) {
                        return Err(fault);
                    }
                },
                None => return Ok(()),
            }
        }
    }

    fn on_data(&mut self, payload: Vec<u8>) -> (r: Result<(), Fault>)
        requires
            old(self).inv(),
            old(self)@.running,
            HEADER <= payload@.len() <= MTU,
        ensures
            final(self).inv(),
            old(self)@.takes_data(payload@, r, final(self)@),
    {
        if self.dialer && !self.ready {
            self.fail();
            return Err(Fault::DataBeforeReady);
        }
        if !valid_segments(&payload, self.conv) {
            self.fail();
            return Err(Fault::InvalidSegment);
        }
        let ghost s = self@;
        // What the engine could not compare or count is left to a repetition.
        if self.taken >= DATAGRAM_LIMIT || !fitting_segments(&payload, self.conv, self.clock) {
            return Ok(());
        }
        let ghost fed = kcp_after_input(self.kcp->0, payload@);
        let mut taken = false;
        let mut waits = true;
        let mut written: Vec<Vec<u8>> = Vec::new();
        if let Some(datagrams) = &self.datagrams {
            if let Some(k) = &mut self.kcp {
                taken = kcp_input(k, &payload).is_ok();
                waits = kcp_wait_snd(k) > 0;
                match kcp_flush_ack(k, datagrams) {
                    Ok(packets) => written = packets,
                    Err(_) => taken = false,
                }
            }
        }
        self.taken = if waits {
            self.taken + 1
        } else {
            0
        };
        assert(views(written@) == kcp_acknowledged(fed));
        if !taken || !self.queue_all(written) {
            self.fail();
            return Err(Fault::EngineInput);
        }
        self.ready = true;
        self.last_peer = self.now;
        let previous: u64 = self.received;
        let ghost mid = self@;
        assert(mid == s.opened(payload@));
        let drained = self.drain_engine();
        if drained.is_err() {
            return drained;
        }
        if self.peer_sent <= self.received {
            self.gap_since = None;
        } else if self.received > previous {
            // Only contiguous application progress renews the remaining gap.
            // Bootstrap, ACK-only and buffered out-of-order segments do not.
            self.gap_since = Some(self.now);
        }
        assert(self@ == mid.accept_all(kcp_inbox(fed)).0.settle_gap(s.received));
        drained
    }

    fn on_offer(&mut self, id: u64, conv: u32) -> (r: Result<(), Fault>)
        requires
            old(self).inv(),
            old(self)@.hello,
            !old(self)@.closed,
            !old(self)@.dialer,
        ensures
            final(self).inv(),
            old(self)@.takes_offer(id, conv, r, final(self)@),
    {
        if self.kcp.is_none() {
            self.id = id;
            self.conv = conv;
            if let Err(fault) = self.init() {
                return Err(fault);
            }
        }
        if id != self.id || conv != self.conv {
            self.fail();
            return Err(Fault::Renegotiation);
        }
        self.emit(Frame::Ready { id, conv })
    }

    fn on_ready(&mut self) -> (r: Result<(), Fault>)
        requires
            old(self).inv(),
            old(self)@.running,
            old(self)@.dialer,
        ensures
            final(self).inv(),
            old(self)@.takes_ready(r, final(self)@),
    {
        if !self.ready {
            self.ready = true;
            self.last_peer = self.now;
            // Bootstrap the acceptor's reverse gate without an application event.
            return self.bootstrap();
        }
        Ok(())
    }

    /// Sends eight zero bytes: a message without a sequence number.
    fn bootstrap(&mut self) -> (r: Result<(), Fault>)
        requires
            old(self).inv(),
            old(self)@.running,
        ensures
            final(self).inv(),
            old(self)@.probes(Fault::BootstrapFlush, r, final(self)@),
    {
        let zero: [u8; 8] = [0;8];
        let ghost s = self@;
        assert(zero@ =~= zeros());
        assert(pieces(zeros(), (MTU - HEADER) as nat) =~= seq![zeros()]);
        if self.segments > NUMBER_LIMIT - 1 || self.carried > WRITE_LIMIT {
            return Err(Fault::BootstrapFlush);
        }
        let mut sent = false;
        let mut flushed = false;
        let mut written: Vec<Vec<u8>> = Vec::new();
        if let Some(datagrams) = &self.datagrams {
            if let Some(k) = &mut self.kcp {
                assert(pieces(zeros(), kcp_segment(*k)) =~= seq![zeros()]);
                sent = kcp_send(k, &zero).is_ok();
                if let Ok(packets) = kcp_flush(k, datagrams) {
                    written = packets;
                    flushed = true;
                }
            }
        }
        if !sent {
            return Err(Fault::Bootstrap);
        }
        self.segments = self.segments + 1;
        let ghost given = s.given(zeros());
        assert(self@ == (Channel { engine: self@.engine, ..given }));
        self.carried = self.carried + push_counts(&written);
        if !self.queue_all(written) || !flushed {
            return Err(Fault::BootstrapFlush);
        }
        assert(self@ == given.flushed());
        Ok(())
    }

    #[verifier::rlimit(40)]
    fn on_progress(&mut self, sent: u64, processed: u64) -> (r: Result<(), Fault>)
        requires
            old(self).inv(),
            old(self)@.running,
        ensures
            final(self).inv(),
            (final(self)@, r) == old(self)@.progress(sent, processed),
    {
        if processed > self.sent {
            self.fail();
            return Err(Fault::FutureAcknowledgement);
        }
        let ghost s = self@;
        // Reordered feedback cannot roll back either cumulative watermark.
        if sent > self.peer_sent {
            self.peer_sent = sent;
        }
        let pending: usize = self.outstanding.len();
        let ghost mid = self@;
        while self.outstanding.len() > 0 && self.outstanding[0].0 <= processed
            invariant
                self.outstanding@.len() <= s.outstanding.len(),
                self.outstanding@ == s.outstanding.subrange(
                    s.outstanding.len() - self.outstanding@.len(),
                    s.outstanding.len() as int,
                ),
                beyond(self.outstanding@, processed) == beyond(s.outstanding, processed),
                self@ == (Channel { outstanding: self.outstanding@, ..mid }),
                self.kcp == old(self).kcp,
                self.datagrams == old(self).datagrams,
            decreases self.outstanding@.len(),
        {
            let ghost queue = self.outstanding@;
            let _ = self.outstanding.pop_front();
            assert(self.outstanding@ =~= queue.subrange(1, queue.len() as int));
            assert(self.outstanding@ =~= s.outstanding.subrange(
                s.outstanding.len() - self.outstanding@.len(),
                s.outstanding.len() as int,
            ));
        }
        assert(self.outstanding@ == beyond(s.outstanding, processed));
        if self.outstanding.len() == 0 {
            self.acknowledgement_since = None;
        } else if self.outstanding.len() < pending {
            // A heartbeat, duplicate feedback or transport ACK cannot
            // renew this deadline. Only newly consumed input can.
            self.acknowledgement_since = Some(self.now);
        }
        if self.peer_sent > self.received && self.gap_since.is_none() {
            self.gap_since = Some(self.now);
        }
        self.last_peer = self.now;
        Ok(())
    }

    /// Takes one frame of the peer.
    pub fn input(&mut self, bytes: &[u8], now: u64) -> (r: Result<(), Fault>)
        requires
            old(self).inv(),
        ensures
            final(self).inv(),
            (Channel { now, ..old(self)@ }).takes(bytes@, r, final(self)@),
    {
        self.now = now;
        if self.closed {
            return Err(Fault::Closed);
        }
        if !self.hello {
            self.fail();
            return Err(Fault::BeforeHello);
        }
        let frame = match Frame::decode(bytes) {
            Some(frame) => frame,
            None => {
                self.fail();
                return Err(Fault::InvalidFrame);
            },
        };
        proof {
            frame::law_frames_are_canonical(bytes@);
        }
        match frame {
            Frame::Offer { id, conv } => {
                if !self.dialer {
                    return self.on_offer(id, conv);
                }
            },
            Frame::Ready { id, conv } => {
                if self.dialer && id == self.id && conv == self.conv {
                    return self.on_ready();
                }
            },
            Frame::Data { id, payload } => {
                if id != self.id {
                    return Ok(());
                }
                if self.kcp.is_some() {
                    return self.on_data(payload);
                }
            },
            Frame::Progress { id, sent, processed } => {
                if id != self.id {
                    return Ok(());
                }
                if self.kcp.is_some() {
                    return self.on_progress(sent, processed);
                }
            },
        }
        self.fail();
        Err(Fault::UnexpectedFrame)
    }

    /// The next message for the application.
    pub fn receive(&mut self) -> (r: Option<(u64, Vec<u8>)>)
        requires
            old(self).inv(),
        ensures
            final(self).inv(),
            ({
                let s = old(self)@;
                if s.incoming.len() == 0 {
                    r is None && final(self)@ == s
                } else {
                    &&& r matches Some(m)
                    &&& m.0 == s.incoming[0].0
                    &&& m.1@ == s.incoming[0].1
                    &&& final(self)@ == (Channel {
                        incoming: s.incoming.subrange(1, s.incoming.len() as int),
                        ..s
                    })
                }
            }),
    {
        let ghost s = self@;
        let r = self.incoming.pop_front();
        if r.is_some() {
            assert(self@.incoming =~= s.incoming.subrange(1, s.incoming.len() as int));
        }
        r
    }

    /// The application has consumed the message with this sequence number.
    pub fn processed(&mut self, sequence: u64, _now: u64) -> (r: Result<(), Fault>)
        requires
            old(self).inv(),
        ensures
            final(self).inv(),
            (final(self)@, r) == old(self)@.processed(sequence),
    {
        if self.closed {
            return Err(Fault::Closed);
        }
        if sequence == 0 || sequence - 1 != self.consumed || sequence > self.received {
            self.fail();
            return Err(Fault::OutOfOrder);
        }
        let ghost s = self@;
        self.consumed = sequence;
        let _ = self.consuming.pop_front();
        assert(self@.consuming =~= s.consuming.subrange(1, s.consuming.len() as int));
        Ok(())
    }

    /// Whether reliable input has stalled, so that a recovery is due. Changes nothing.
    pub fn recovery_due(&self, now: u64) -> (r: bool)
        ensures
            r == (self@.is_ready() && self@.stalled(now)),
    {
        self.ready() && self.stalled(now)
    }

    fn stalled(&self, now: u64) -> (r: bool)
        ensures
            r == self@.stalled(now),
    {
        let unacknowledged = match self.acknowledgement_since {
            Some(since) => now.saturating_sub(since) > self.stall_ms,
            None => false,
        };
        let missing = match self.gap_since {
            Some(since) => now.saturating_sub(since) > self.stall_ms,
            None => false,
        };
        unacknowledged || (self.consuming.len() > 0 && now.saturating_sub(self.consuming[0].1)
            > self.stall_ms) || missing
    }

    /// Checks every deadline, repeats what is due and advances the engine's clock.
    pub fn tick(&mut self, now: u64) -> (r: Result<(), Fault>)
        requires
            old(self).inv(),
        ensures
            final(self).inv(),
            (Channel { now, ..old(self)@ }).ticks(r, final(self)@),
    {
        self.now = now;
        if self.closed {
            return Err(Fault::Closed);
        }
        if !self.ready && now.saturating_sub(self.started) >= NEGOTIATION_MS {
            self.fail();
            return Err(Fault::NegotiationTimeout);
        }
        if self.ready && now.saturating_sub(self.last_peer) > self.peer_ms {
            self.fail();
            return Err(Fault::PeerTimeout);
        }
        if self.ready && self.stalled(now) {
            self.fail();
            return Err(Fault::InputStalled);
        }
        if self.output_expired(now) {
            self.fail();
            return Err(Fault::OutputStalled);
        }
        if self.wire.len() < WIRE_CAPACITY && self.hello && self.dialer && !self.ready
            && now.saturating_sub(self.last_offer) >= OFFER_MS {
            if let Err(fault) = self.offer() {
                return Err(fault);
            }
            self.last_offer = now;
        }
        if self.wire.len() < WIRE_CAPACITY && self.ready && now.saturating_sub(self.last_feedback)
            >= FEEDBACK_MS {
            if let Err(fault) = self.feedback() {
                return Err(fault);
            }
            self.last_feedback = now;
        }
        if self.can_flush() && self.kcp.is_some() && self.carried <= WRITE_LIMIT {
            if self.recovery_probe_confirmed() && now.saturating_sub(self.since) >= CLOCK_TURN as u64 {
                self.since = now;
                self.clock = 0;
            }
            let ghost t = self@;
            let elapsed: u64 = now.saturating_sub(self.since);
            let reading: u32 = if elapsed < CLOCK_LIMIT as u64 {
                elapsed as u32
            } else {
                CLOCK_LIMIT - 1
            };
            if reading > self.clock {
                self.clock = reading;
            }
            let mut updated = true;
            let mut written: Vec<Vec<u8>> = Vec::new();
            if let Some(datagrams) = &self.datagrams {
                if let Some(k) = &mut self.kcp {
                    match kcp_update(k, datagrams, self.clock) {
                        Ok(packets) => written = packets,
                        Err(_) => updated = false,
                    }
                }
            }
            assert(self@ == (Channel { engine: self@.engine, clock: t.reading(), ..t }));
            self.carried = self.carried + push_counts(&written);
            if !updated || !self.queue_all(written) {
                self.fail();
                return Err(Fault::OutputBudget);
            }
            assert(self@ == t.updated());
        }
        Ok(())
    }

    /// A session of a recovered epoch: both ends know its id and conversation, so it is open at once.
    pub fn recovered(
        dialer: bool,
        id: u64,
        conv: u32,
        now: u64,
        timeouts: Timeouts,
        layout: usize,
    ) -> (r: Result<Session, Fault>)
        ensures
            r matches Ok(session) && {
                let s = Channel::initial(
                    dialer,
                    id,
                    conv,
                    now,
                    timeouts.stall@,
                    timeouts.peer@,
                    message_limit(layout),
                );
                &&& session.inv()
                &&& s.starts(Channel { ready: false, ..session@ })
                &&& session@.ready
            },
    {
        let mut session = Session::with_timeout(dialer, id, conv, now, timeouts, layout);
        if let Err(fault) = session.init() {
            return Err(fault);
        }
        session.ready = true;
        Ok(session)
    }

    /// Sends a message without a sequence number, whose acknowledgement proves that the peer has the
    /// session too.
    pub fn recovery_probe(&mut self) -> (r: Result<(), Fault>)
        requires
            old(self).inv(),
            old(self)@.running,
        ensures
            final(self).inv(),
            old(self)@.probes(Fault::Probe, r, final(self)@),
    {
        if self.bootstrap().is_err() {
            return Err(Fault::Probe);
        }
        Ok(())
    }

    /// Whether everything that was sent has been acknowledged.
    pub fn recovery_probe_confirmed(&self) -> (r: bool)
        ensures
            r == (self@.running && self@.waiting.len() == 0),
    {
        match &self.kcp {
            Some(k) => kcp_wait_snd(k) == 0,
            None => false,
        }
    }
}

/// A message has as many segments as it takes to hold it.
proof fn lemma_piece_count(message: Seq<u8>)
    ensures
        pieces(message, (MTU - HEADER) as nat).len() == (if message.len() == 0 {
            1
        } else {
            (message.len() + 1075) / 1076
        }),
    decreases message.len(),
{
    if message.len() > MTU - HEADER {
        lemma_piece_count(message.subrange(MTU - HEADER, message.len() as int));
    }
}

/// How many segments a message has.
fn piece_count(message: &Vec<u8>) -> (r: u32)
    requires
        message@.len() <= 127 * (MTU - HEADER),
    ensures
        r == pieces(message@, (MTU - HEADER) as nat).len(),
        r <= 127,
{
    proof {
        lemma_piece_count(message@);
    }
    if message.len() == 0 {
        1
    } else {
        ((message.len() + 1075) / 1076) as u32
    }
}

/// A segment with data has a header at least.
proof fn lemma_pushes(s: Seq<u8>)
    ensures
        pushes(s) * HEADER <= s.len(),
    decreases s.len(),
{
    if s.len() >= HEADER && s.len() >= HEADER + at32(s, 20) {
        lemma_pushes(s.subrange(HEADER + at32(s, 20), s.len() as int));
    }
}

/// How many segments of a datagram carry data.
fn push_count(bytes: &Vec<u8>) -> (r: u32)
    requires
        bytes@.len() <= MTU,
    ensures
        r == pushes(bytes@),
        r <= 46,
{
    let mut count: u32 = 0;
    let mut at: usize = 0;
    proof {
        lemma_pushes(bytes@);
    }
    assert(bytes@.subrange(0, bytes@.len() as int) =~= bytes@);
    while bytes.len() - at >= HEADER
        invariant
            at <= bytes@.len() <= MTU,
            pushes(bytes@) <= 46,
            pushes(bytes@) == count + pushes(bytes@.subrange(at as int, bytes@.len() as int)),
        decreases bytes.len() - at,
    {
        let ghost rest = bytes@.subrange(at as int, bytes@.len() as int);
        assert(at32(rest, 20) == at32(bytes@, at + 20));
        if bytes[at + 4] == 81 {
            count = count + 1;
        }
        let len: u32 = get32(bytes, at + 20);
        if ((bytes.len() - at - HEADER) as u64) < len as u64 {
            return count;
        }
        at = at + HEADER + len as usize;
        assert(bytes@.subrange(at as int, bytes@.len() as int) =~= rest.subrange(
            HEADER + at32(rest, 20),
            rest.len() as int,
        ));
    }
    count
}

/// How many segments of these datagrams carry data.
fn push_counts(datagrams: &Vec<Vec<u8>>) -> (r: u64)
    requires
        within(views(datagrams@), MTU as nat),
        datagrams@.len() <= FLUSH_RESERVE,
    ensures
        r == all_pushes(views(datagrams@)),
        r < 0x1_0000,
{
    let ghost all = views(datagrams@);
    let mut total: u64 = 0;
    let mut i: usize = 0;
    assert(all.take(0) =~= Seq::empty());
    while i < datagrams.len()
        invariant
            i <= datagrams@.len() <= FLUSH_RESERVE,
            all == views(datagrams@),
            within(all, MTU as nat),
            total == all_pushes(all.take(i as int)),
            total <= i * 46,
        decreases datagrams.len() - i,
    {
        assert(all[i as int].len() <= MTU);
        assert(all.take(i + 1).drop_last() =~= all.take(i as int));
        total = total + push_count(&datagrams[i]) as u64;
        i = i + 1;
    }
    assert(all.take(i as int) =~= all);
    total
}

// kcp accepts trailing short data and large fragments; validate the complete datagram first.
fn valid_segments(bytes: &[u8], conv: u32) -> (r: bool)
    ensures
        r == segments_sound(bytes@, conv),
{
    let mut at: usize = 0;
    assert(bytes@.subrange(0, bytes@.len() as int) =~= bytes@);
    while at < bytes.len()
        invariant
            at <= bytes.len(),
            segments_sound(bytes@, conv) == segments_sound(
                bytes@.subrange(at as int, bytes@.len() as int),
                conv,
            ),
        decreases bytes.len() - at,
    {
        let ghost rest = bytes@.subrange(at as int, bytes@.len() as int);
        if bytes.len() - at < HEADER {
            return false;
        }
        assert(at32(rest, 0) == at32(bytes@, at as int));
        assert(at32(rest, 20) == at32(bytes@, at + 20));
        if get32(bytes, at) != conv {
            return false;
        }
        let len: usize = get32(bytes, at + 20) as usize;
        if len > MTU - HEADER || bytes.len() - at < HEADER + len || bytes[at + 5] > 1 {
            return false;
        }
        let command: u8 = bytes[at + 4];
        if command < 81 || command > 84 {
            return false;
        }
        at = at + HEADER + len;
        assert(bytes@.subrange(at as int, bytes@.len() as int) =~= rest.subrange(
            HEADER + at32(rest, 20),
            rest.len() as int,
        ));
    }
    true
}

/// Whether the engine can take differences of the numbers in sound segments.
fn fitting_segments(bytes: &[u8], conv: u32, clock: u32) -> (r: bool)
    requires
        segments_sound(bytes@, conv),
    ensures
        r == segments_fit(bytes@, clock),
{
    let mut at: usize = 0;
    assert(bytes@.subrange(0, bytes@.len() as int) =~= bytes@);
    while at < bytes.len()
        invariant
            at <= bytes.len(),
            segments_sound(bytes@.subrange(at as int, bytes@.len() as int), conv),
            segments_fit(bytes@, clock) == segments_fit(
                bytes@.subrange(at as int, bytes@.len() as int),
                clock,
            ),
        decreases bytes.len() - at,
    {
        let ghost rest = bytes@.subrange(at as int, bytes@.len() as int);
        assert(at32(rest, 8) == at32(bytes@, at + 8));
        assert(at32(rest, 12) == at32(bytes@, at + 12));
        assert(at32(rest, 16) == at32(bytes@, at + 16));
        assert(at32(rest, 20) == at32(bytes@, at + 20));
        let command: u8 = bytes[at + 4];
        let ts: u32 = get32(bytes, at + 8);
        let sn: u32 = get32(bytes, at + 12);
        if command == 81 && sn >= NUMBER_LIMIT {
            return false;
        }
        if command == 82 && (sn >= SIGN || ts >= SIGN || clock >= ts + ROUND_TRIP_LIMIT) {
            return false;
        }
        if get32(bytes, at + 16) >= SIGN {
            return false;
        }
        at = at + HEADER + get32(bytes, at + 20) as usize;
        assert(bytes@.subrange(at as int, bytes@.len() as int) =~= rest.subrange(
            HEADER + at32(rest, 20),
            rest.len() as int,
        ));
    }
    true
}

/// What every session keeps holds of its state.
pub proof fn session_keeps(session: Session)
    requires
        session.inv(),
    ensures
        session@.well_formed(),
{
}

/// The message that carries `bytes` as number `seq`.
pub open spec fn numbered(seq: u64, bytes: Seq<u8>) -> Seq<u8> {
    le64(seq) + bytes
}

/// The segments of a message, put together again, are the message.
pub proof fn law_segments_join_to_the_message(message: Seq<u8>, n: nat)
    ensures
        pieces(message, n).len() >= 1,
        pieces(message, n).flatten() == message,
        n > 0 ==> forall|i: int|
            0 <= i < pieces(message, n).len() ==> (#[trigger] pieces(message, n)[i]).len() <= n,
    decreases message.len(),
{
    let parts = pieces(message, n);
    if n == 0 || message.len() <= n {
        assert(parts.drop_first() =~= Seq::empty());
        assert(parts.drop_first().flatten() =~= Seq::empty());
        assert(parts.flatten() =~= message);
    } else {
        let head = message.subrange(0, n as int);
        let rest = message.subrange(n as int, message.len() as int);
        law_segments_join_to_the_message(rest, n);
        assert(parts.drop_first() =~= pieces(rest, n));
        assert(head + rest =~= message);
        assert(parts.flatten() =~= message);
        assert forall|i: int| 0 <= i < parts.len() implies (#[trigger] parts[i]).len() <= n by {
            if i > 0 {
                assert(parts[i] == pieces(rest, n)[i - 1]);
            }
        }
    }
}

/// What one end sends, its engine gets as one numbered message in segments; and once the other
/// end's engine hands out that message, the other end's application gets the same number and the
/// same bytes, if it has received every earlier message and has room.
pub proof fn law_messages_arrive_as_sent(
    sender: Channel,
    bytes: Seq<u8>,
    r: Result<(), Fault>,
    after: Channel,
    receiver: Channel,
)
    requires
        sender.well_formed(),
        receiver.well_formed(),
        sender.sends(bytes, r, after),
        r is Ok,
        receiver.received == sender.sent,
        receiver.consuming.len() < MAX_PENDING,
        receiver.limit >= sender.limit,
    ensures
        after.sent == sender.sent + 1,
        exists|parts: Seq<Seq<u8>>|
            after.waiting == #[trigger] (sender.waiting + parts) && parts.flatten() == numbered(
                after.sent,
                bytes,
            ),
        ({
            let (next, accepted) = receiver.accept(numbered(after.sent, bytes));
            &&& accepted is Ok
            &&& next.received == after.sent
            &&& next.incoming == receiver.incoming.push((after.sent, bytes))
        }),
{
    let message = numbered(after.sent, bytes);
    let parts = pieces(message, (MTU - HEADER) as nat);
    law_segments_join_to_the_message(message, (MTU - HEADER) as nat);
    assert(after.waiting == sender.waiting + parts);
    assert(message.subrange(0, 8) =~= le64(after.sent));
    lemma_64(message, 0, after.sent);
    assert(message.subrange(8, message.len() as int) =~= bytes);
}

/// The messages that carry `contents` as the numbers after `last`.
pub open spec fn numbered_all(last: u64, contents: Seq<Seq<u8>>) -> Seq<Seq<u8>> {
    Seq::new(contents.len(), |i: int| numbered((last + 1 + i) as u64, contents[i]))
}

proof fn lemma_one_arrives(receiver: Channel, bytes: Seq<u8>)
    requires
        receiver.well_formed(),
        !receiver.closed,
        receiver.received < u64::MAX,
        receiver.consuming.len() < MAX_PENDING,
        bytes.len() + 8 <= receiver.limit,
    ensures
        ({
            let seq = (receiver.received + 1) as u64;
            let (next, r) = receiver.accept(numbered(seq, bytes));
            &&& r is Ok
            &&& next.well_formed()
            &&& !next.closed
            &&& next.received == seq
            &&& next.limit == receiver.limit
            &&& next.consuming.len() == receiver.consuming.len() + 1
            &&& next.incoming == receiver.incoming.push((seq, bytes))
        }),
{
    let seq = (receiver.received + 1) as u64;
    let message = numbered(seq, bytes);
    assert(message.subrange(0, 8) =~= le64(seq));
    lemma_64(message, 0, seq);
    assert(message.subrange(8, message.len() as int) =~= bytes);
}

/// Whatever run of messages one end sends, the other end's application gets the same run: the same
/// bytes in the same order, numbered on from the last message before.
#[verifier::rlimit(100)]
#[verifier::spinoff_prover]
pub proof fn law_runs_arrive_as_sent(receiver: Channel, contents: Seq<Seq<u8>>)
    requires
        receiver.well_formed(),
        !receiver.closed,
        receiver.received + contents.len() <= u64::MAX,
        receiver.consuming.len() + contents.len() <= MAX_PENDING,
        forall|i: int|
            0 <= i < contents.len() ==> (#[trigger] contents[i]).len() + 8 <= receiver.limit,
    ensures
        ({
            let (next, r) = receiver.accept_all(numbered_all(receiver.received, contents));
            &&& r is Ok
            &&& next.received == receiver.received + contents.len()
            &&& next.incoming == receiver.incoming + Seq::new(
                contents.len(),
                |i: int| ((receiver.received + 1 + i) as u64, contents[i]),
            )
        }),
    decreases contents.len(),
{
    let messages = numbered_all(receiver.received, contents);
    let arrived = Seq::new(
        contents.len(),
        |i: int| ((receiver.received + 1 + i) as u64, contents[i]),
    );
    if contents.len() == 0 {
        assert(receiver.incoming + arrived =~= receiver.incoming);
    } else {
        lemma_one_arrives(receiver.read(), contents[0]);
        let next = receiver.read().accept(messages[0]).0;
        let rest = contents.subrange(1, contents.len() as int);
        assert forall|i: int| 0 <= i < rest.len() implies (#[trigger] rest[i]).len() + 8
            <= next.limit by {
            assert(rest[i] == contents[i + 1]);
        }
        law_runs_arrive_as_sent(next, rest);
        assert(messages.subrange(1, messages.len() as int) =~= numbered_all(next.received, rest));
        let later = Seq::new(rest.len(), |i: int| ((next.received + 1 + i) as u64, rest[i]));
        assert(receiver.incoming + arrived =~= next.incoming + later);
    }
}

proof fn lemma_delivers(s: Channel, before: Channel, message: Seq<u8>)
    requires
        s.well_formed(),
        s.delivers(before),
        before.read().accept(message).1 is Ok,
    ensures
        s.delivers(before.read().accept(message).0),
{
    let next = before.read().accept(message).0;
    let n = next.received - s.received;
    if next.received != before.received {
        assert(next.consuming =~= s.consuming + fresh(s, n as nat));
        assert(next.incoming.subrange(0, s.incoming.len() as int) =~= before.incoming.subrange(
            0,
            s.incoming.len() as int,
        ));
    }
}

proof fn lemma_delivers_all(s: Channel, before: Channel, messages: Seq<Seq<u8>>)
    requires
        s.well_formed(),
        s.delivers(before),
        before.accept_all(messages).1 is Ok,
    ensures
        s.delivers(before.accept_all(messages).0),
    decreases messages.len(),
{
    if messages.len() > 0 {
        lemma_delivers(s, before, messages[0]);
        lemma_delivers_all(
            s,
            before.read().accept(messages[0]).0,
            messages.subrange(1, messages.len() as int),
        );
    }
}

/// Whatever the engine hands out, the messages that are accepted carry consecutive numbers: none is
/// lost, repeated or out of order, and nothing else changes.
pub proof fn law_delivery_is_in_order(c: Channel, messages: Seq<Seq<u8>>)
    requires
        c.well_formed(),
        c.accept_all(messages).1 is Ok,
    ensures
        c.delivers(c.accept_all(messages).0),
{
    assert(c.consuming + fresh(c, 0) =~= c.consuming);
    assert(c.incoming.subrange(0, c.incoming.len() as int) =~= c.incoming);
    lemma_delivers_all(c, c, messages);
}

/// A flush is only tried where the output queue has room for all that it can write, and a datagram of
/// the peer is only taken where the queue has room for its acknowledgement: nothing of it is lost.
pub proof fn law_reserved_room_is_enough(c: Channel, written: Seq<Seq<u8>>)
    requires
        ({
            ||| c.can_flush() && written.len() <= FLUSH_RESERVE
            ||| c.output.len() <= OUTPUT_CAPACITY - 2 && written.len() <= 1
        }),
    ensures
        c.has_room(written),
        c.queued(written).output == c.output + stamped(written, c.now),
        c.queued(written).output.len() <= OUTPUT_CAPACITY,
{
}

/// While the peer's datagrams are only taken with room for their acknowledgements, no datagram of
/// sound segments closes the session for want of room.
pub proof fn law_acknowledgements_find_room(
    c: Channel,
    payload: Seq<u8>,
    r: Result<(), Fault>,
    next: Channel,
)
    requires
        c.output.len() <= OUTPUT_CAPACITY - 2,
        c.takes_data(payload, r, next),
    ensures
        r != Err::<(), Fault>(Fault::EngineInput),
{
    lemma_refusals(c.opened(payload), kcp_inbox(kcp_after_input(c.engine->0, payload)));
}

/// What refuses a message is its size or its number.
proof fn lemma_refusals(c: Channel, messages: Seq<Seq<u8>>)
    ensures
        c.accept_all(messages).1 != Err::<(), Fault>(Fault::EngineInput),
    decreases messages.len(),
{
    if messages.len() > 0 && c.read().accept(messages[0]).1 is Ok {
        lemma_refusals(c.read().accept(messages[0]).0, messages.subrange(1, messages.len() as int));
    }
}

/// The packets of one kind among those that leave, in their order.
pub open spec fn of_kind(packets: Seq<(bool, u64, Seq<u8>)>, frame: bool) -> Seq<(u64, Seq<u8>)>
    decreases packets.len(),
{
    if packets.len() == 0 {
        Seq::empty()
    } else {
        let rest = of_kind(packets.subrange(1, packets.len() as int), frame);
        if packets[0].0 == frame {
            seq![(packets[0].1, packets[0].2)] + rest
        } else {
            rest
        }
    }
}

/// Whether the times of a queue never fall.
pub open spec fn in_time_order(queue: Seq<(u64, Seq<u8>)>) -> bool {
    forall|i: int, j: int| 0 <= i <= j < queue.len() ==> queue[i].0 <= queue[j].0
}

/// Whether a packet may leave before another: it is older, or as old and not a datagram before a
/// frame.
pub open spec fn may_precede(a: (bool, u64, Seq<u8>), b: (bool, u64, Seq<u8>)) -> bool {
    a.1 < b.1 || (a.1 == b.1 && (a.0 || !b.0))
}

/// Taking packets until none is left yields every one that waits exactly once: the frames in their
/// order and the datagrams in theirs.
pub proof fn law_draining_loses_nothing(c: Channel)
    ensures
        of_kind(c.leaving(), true) == c.wire,
        of_kind(c.leaving(), false) == Seq::new(c.output.len(), |i: int| c.framed(i)),
        c.leaving().len() == c.wire.len() + c.output.len(),
        c.emptied() == (Channel { wire: Seq::empty(), output: Seq::empty(), ..c }),
    decreases c.wire.len() + c.output.len(),
{
    let framed = Seq::new(c.output.len(), |i: int| c.framed(i));
    if c.first_out() is Some {
        let next = c.popped();
        law_draining_loses_nothing(next);
        let all = c.leaving();
        assert(all.subrange(1, all.len() as int) =~= next.leaving());
        assert(of_kind(all, true) =~= c.wire);
        assert(of_kind(all, false) =~= framed);
    } else {
        assert(c.wire =~= Seq::empty());
        assert(c.output =~= Seq::empty());
        assert(framed =~= Seq::empty());
    }
}

/// Every packet that leaves is at least as old as the queue that it came from.
proof fn lemma_leaving(c: Channel, k: int)
    requires
        0 <= k < c.leaving().len(),
        in_time_order(c.wire),
        in_time_order(c.output),
    ensures
        c.leaving()[k].0 ==> c.wire.len() > 0 && c.leaving()[k].1 >= c.wire[0].0,
        !c.leaving()[k].0 ==> c.output.len() > 0 && c.leaving()[k].1 >= c.output[0].0,
    decreases c.wire.len() + c.output.len(),
{
    let next = c.popped();
    if k > 0 {
        assert(c.leaving()[k] == next.leaving()[k - 1]);
        lemma_leaving(next, k - 1);
    }
}

/// Where the two queues are in the order of their times, packets leave in that order, and a frame
/// before a datagram of the same time.
pub proof fn law_packets_leave_in_time_order(c: Channel, i: int, j: int)
    requires
        in_time_order(c.wire),
        in_time_order(c.output),
        0 <= i < j < c.leaving().len(),
    ensures
        may_precede(c.leaving()[i], c.leaving()[j]),
    decreases c.wire.len() + c.output.len(),
{
    let next = c.popped();
    assert(c.leaving()[j] == next.leaving()[j - 1]);
    if i > 0 {
        assert(c.leaving()[i] == next.leaving()[i - 1]);
        law_packets_leave_in_time_order(next, i - 1, j - 1);
    } else {
        lemma_leaving(next, j - 1);
    }
}

/// A closed session refuses everything and stays as it is.
pub proof fn law_closed_is_terminal(
    c: Channel,
    supported: bool,
    bytes: Seq<u8>,
    sequence: u64,
    r: Result<(), Fault>,
    next: Channel,
)
    requires
        c.well_formed(),
        c.closed,
    ensures
        c.greeted(supported, r, next) ==> r is Err && next == c,
        c.takes(bytes, r, next) ==> r is Err && next == c,
        c.sends(bytes, r, next) ==> r is Err && next == c,
        c.ticks(r, next) ==> r is Err && next == c,
        c.processed(sequence) == (c, Err::<(), Fault>(Fault::Closed)),
        c.incoming.len() == 0,
{
}

/// Authenticated heartbeats renew the peer's liveness and no deadline of reliable input.
pub proof fn law_heartbeats_do_not_extend_input_deadlines(c: Channel, heard: u64, now: u64)
    ensures
        c.peer_activity(heard).stalled(now) == c.stalled(now),
{
}

/// Motion renews no deadline of reliable input. It may only start the deadline of a missing message.
pub proof fn law_motion_does_not_extend_input_deadlines(
    c: Channel,
    dependency: u64,
    heard: u64,
    now: u64,
)
    ensures
        c.stalled(now) ==> c.fresh_motion(dependency, heard).stalled(now),
        c.gap_since is Some ==> c.fresh_motion(dependency, heard).gap_since == c.gap_since,
{
}

/// Feedback that reports no newly consumed message renews no deadline of reliable input, and no
/// feedback extends the deadline of a missing message.
pub proof fn law_repeated_feedback_does_not_extend_input_deadlines(
    c: Channel,
    sent: u64,
    processed: u64,
    now: u64,
)
    requires
        c.well_formed(),
        processed + c.outstanding.len() <= c.sent,
    ensures
        c.progress(sent, processed).1 is Ok,
        c.stalled(now) ==> c.progress(sent, processed).0.stalled(now),
        c.gap_since is Some ==> c.progress(sent, processed).0.gap_since == c.gap_since,
{
    if c.outstanding.len() > 0 {
        assert(c.outstanding[0].0 > processed);
    }
}

/// A stalled or silent session closes at the next tick.
pub proof fn law_a_stall_closes(c: Channel, r: Result<(), Fault>, next: Channel)
    requires
        !c.closed,
        c.ready,
        c.stalled(c.now) || late(c.now, c.last_peer, c.peer_ms),
        c.ticks(r, next),
    ensures
        r is Err,
        next.closed,
        !next.is_ready(),
{
}

/// No frame of the peer takes a watermark back.
pub proof fn law_watermarks_never_fall(
    c: Channel,
    bytes: Seq<u8>,
    r: Result<(), Fault>,
    next: Channel,
)
    requires
        c.well_formed(),
        r is Ok,
        c.takes(bytes, r, next),
    ensures
        next.sent == c.sent,
        next.consumed == c.consumed,
        next.received >= c.received,
        next.peer_sent >= c.peer_sent,
{
    if let Some(FrameView::Data { payload, .. }) = frame::parse(bytes) {
        if !c.closed && c.running && segments_sound(payload, c.conv) && !(c.dialer && !c.ready) {
            let s = c.opened(payload);
            let inbox = kcp_inbox(kcp_after_input(c.engine->0, payload));
            if s.accept_all(inbox).1 is Ok && s.well_formed() {
                law_delivery_is_in_order(s, inbox);
            }
        }
    }
}

} // verus!
