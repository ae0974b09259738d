//! What the application side and the writer of a connection decide: what may be queued, which packet
//! leaves next and for how long it may wait, and what becomes of a delivered message's receipt.

use crate::event::Decoded;
use crate::lifecycle::{later, Generation, Link};
use crate::policy::InputTransport;
use crate::recovery::RECOVERY_MS;
use vstd::prelude::*;

verus! {

/// How many packets, commands or deliveries a queue of a connection holds.
pub const QUEUE: usize = 16;

/// Resource cleanup has its own bound, independent of input tolerance.
pub const CLOSE_TIMEOUT_MS: u64 = 300;

/// A packet for the writer, when it goes stale, and the generation whose input it carries.
pub struct WirePacket {
    pub bytes: Vec<u8>,
    pub deadline: u64,
    pub generation: Option<Generation>,
}

/// Proof of a delivery, with which the application reports that it has consumed the message. Motion
/// has sequence number zero.
#[derive(Clone, Copy, Debug)]
pub struct Receipt {
    pub sequence: u64,
    pub deadline: u64,
    pub generation: Option<Generation>,
}

/// A message for the application.
pub struct Delivery {
    pub bytes: Vec<u8>,
    pub receipt: Option<Receipt>,
}

/// What becomes of a reported consumption.
#[derive(Clone, Copy, Debug, PartialEq, Eq, Structural)]
pub enum Completion {
    /// It counts for nothing.
    Ignored,
    /// It goes to the session.
    Reported,
    /// It comes too late.
    Expired,
}

/// Whether a generation was given that the link no longer honours.
pub open spec fn outdated(generation: Option<Generation>, link: Link, now: u64) -> bool {
    generation is Some && !link.honours(generation->0, now)
}

pub fn is_outdated(generation: &Option<Generation>, link: &Link, now: u64) -> (r: bool)
    ensures
        r == outdated(*generation, *link, now),
{
    match generation {
        Some(g) => !link.valid(g, now),
        None => false,
    }
}

impl Receipt {
    pub fn generation(&self) -> (r: Option<Generation>)
        ensures
            r == self.generation,
    {
        self.generation
    }

    /// The message was lost; returns whether the connection must end.
    pub fn abort(&self, link: &Link, now: u64) -> (r: bool)
        ensures
            r == !outdated(self.generation, *link, now),
    {
        !is_outdated(&self.generation, link, now)
    }

    /// The message was not consumed in time: a recoverable connection recovers. Returns whether the
    /// connection must end.
    pub fn expire(&self, link: &mut Link, now: u64) -> (r: bool)
        ensures
            r == (!outdated(self.generation, *old(link), now) && !old(link).enabled),
            *final(link) == (if outdated(self.generation, *old(link), now) || !old(link).enabled
                || old(link).frozen {
                *old(link)
            } else {
                Link { stalled: true, ..old(link).shut() }
            }),
    {
        if is_outdated(&self.generation, link, now) {
            return false;
        }
        if link.enabled() {
            link.stall();
            false
        } else {
            true
        }
    }

    /// Whether consumption may still be reported.
    pub open spec fn current(self, cancelled: bool, link: Link, now: u64) -> bool {
        !cancelled && now < self.deadline && !outdated(self.generation, link, now)
    }

    pub fn valid(&self, cancelled: bool, link: &Link, now: u64) -> (r: bool)
        ensures
            r == self.current(cancelled, *link, now),
    {
        !cancelled && now < self.deadline && !is_outdated(&self.generation, link, now)
    }

    pub fn complete(self, cancelled: bool, link: &Link, now: u64) -> (r: Completion)
        ensures
            r == (if outdated(self.generation, *link, now) || self.sequence == 0 {
                Completion::Ignored
            } else if self.current(cancelled, *link, now) {
                Completion::Reported
            } else {
                Completion::Expired
            }),
    {
        if is_outdated(&self.generation, link, now) || self.sequence == 0 {
            Completion::Ignored
        } else if self.valid(cancelled, link, now) {
            Completion::Reported
        } else {
            Completion::Expired
        }
    }
}

impl Delivery {
    /// Whether the application still gets this message.
    pub fn current(&self, link: &Link, now: u64) -> (r: bool)
        ensures
            r == !(self.receipt is Some && outdated(self.receipt->0.generation, *link, now)),
    {
        match &self.receipt {
            Some(receipt) => !is_outdated(&receipt.generation, link, now),
            None => true,
        }
    }
}

/// Keeps the latest packet under the deadline of the oldest one that it replaces.
pub fn replace(slot: &mut Option<WirePacket>, packet: WirePacket)
    ensures
        *final(slot) == Some(
            WirePacket {
                deadline: match *old(slot) {
                    Some(earlier) => earlier.deadline,
                    None => packet.deadline,
                },
                ..packet
            },
        ),
{
    let mut packet = packet;
    if let Some(earlier) = slot {
        packet.deadline = earlier.deadline;
    }
    *slot = Some(packet);
}

/// What becomes of bytes that the application sends.
#[derive(Clone, Copy, Debug, PartialEq, Eq, Structural)]
pub enum Admission {
    /// The connection is closed or not ready, or the bytes are no event.
    Refused,
    /// Input during a recovery: accepted and dropped.
    Dropped,
    Queued,
}

/// Judges what the application sends.
pub fn judge(event: &Decoded, cancelled: bool, ready: bool, link: &Link) -> (r: Admission)
    ensures
        r == (if cancelled || *event is Malformed {
            Admission::Refused
        } else if event.bypasses() {
            Admission::Queued
        } else if link.frozen {
            Admission::Dropped
        } else if ready {
            Admission::Queued
        } else {
            Admission::Refused
        }),
{
    if cancelled {
        return Admission::Refused;
    }
    if let Decoded::Malformed = event {
        return Admission::Refused;
    }
    if event.direct() {
        Admission::Queued
    } else if link.frozen() {
        Admission::Dropped
    } else if ready {
        Admission::Queued
    } else {
        Admission::Refused
    }
}

/// The queue stayed full for too long. A recoverable connection recovers and the input counts as
/// sent; returns false if the connection must end instead.
pub fn overflow(cancelled: bool, link: &mut Link) -> (r: bool)
    ensures
        r == (old(link).enabled && !cancelled),
        *final(link) == (if r && !old(link).frozen {
            Link { stalled: true, ..old(link).shut() }
        } else {
            *old(link)
        }),
{
    if link.enabled() && !cancelled {
        link.stall();
        true
    } else {
        false
    }
}

/// Where the writer takes its next packet from.
#[derive(Clone, Copy, Debug, PartialEq, Eq, Structural)]
pub enum Lane {
    Control,
    Motion,
    Wire,
}

/// The lane to write from, given which ones hold a packet. Control goes first; the other two take
/// turns when both are busy, so that neither can starve the other.
pub open spec fn next_lane(prefer_motion: bool, control: bool, motion: bool, wire: bool) -> Option<
    Lane,
> {
    if control {
        Some(Lane::Control)
    } else if motion && (prefer_motion || !wire) {
        Some(Lane::Motion)
    } else if wire {
        Some(Lane::Wire)
    } else {
        None
    }
}

/// Picks the lane and remembers whose turn is next.
pub fn pick(prefer_motion: &mut bool, control: bool, motion: bool, wire: bool) -> (r: Option<Lane>)
    ensures
        r == next_lane(*old(prefer_motion), control, motion, wire),
        *final(prefer_motion) == (match r {
            Some(Lane::Wire) => true,
            Some(Lane::Motion) => false,
            _ => *old(prefer_motion),
        }),
{
    if control {
        Some(Lane::Control)
    } else if motion && (*prefer_motion || !wire) {
        *prefer_motion = false;
        Some(Lane::Motion)
    } else if wire {
        *prefer_motion = true;
        Some(Lane::Wire)
    } else {
        None
    }
}

/// Whichever lane was served, a busy one of the other two is served next but for control.
pub proof fn law_lanes_take_turns(prefer_motion: bool, motion: bool, wire: bool)
    ensures
        next_lane(prefer_motion, false, motion, wire) == Some(Lane::Wire) ==> next_lane(
            true,
            false,
            true,
            wire,
        ) == Some(Lane::Motion),
        next_lane(prefer_motion, false, motion, wire) == Some(Lane::Motion) ==> next_lane(
            false,
            false,
            motion,
            true,
        ) == Some(Lane::Wire),
{
}

/// What the writer does with a packet.
#[derive(Clone, Copy, Debug, PartialEq, Eq, Structural)]
pub enum Dispatch {
    /// The packet is outdated, or its connection recovers.
    Skipped,
    /// The packet must be written before the deadline.
    Send { deadline: u64 },
    /// The connection must end.
    Failed,
}

/// Judges a packet at the moment of writing. `stall_ms` is the tolerance of a KCP connection.
pub fn dispatch(packet: &WirePacket, kcp_selected: bool, stall_ms: u64, link: &mut Link, now: u64)
    -> (r: Dispatch)
    ensures
        ({
            let patience = if old(link).enabled {
                RECOVERY_MS
            } else if kcp_selected {
                stall_ms
            } else {
                CLOSE_TIMEOUT_MS
            };
            let until = later(now, patience);
            if outdated(packet.generation, *old(link), now) {
                r == Dispatch::Skipped && *final(link) == *old(link)
            } else if old(link).enabled {
                if now >= packet.deadline {
                    &&& r == Dispatch::Skipped
                    &&& *final(link) == (if old(link).frozen {
                        *old(link)
                    } else {
                        Link { stalled: true, ..old(link).shut() }
                    })
                } else {
                    &&& *final(link) == *old(link)
                    &&& r == (if now < until {
                        Dispatch::Send { deadline: until }
                    } else {
                        Dispatch::Failed
                    })
                }
            } else {
                let deadline = if packet.deadline < until {
                    packet.deadline
                } else {
                    until
                };
                &&& *final(link) == *old(link)
                &&& r == (if now < deadline {
                    Dispatch::Send { deadline }
                } else {
                    Dispatch::Failed
                })
            }
        }),
{
    if is_outdated(&packet.generation, link, now) {
        return Dispatch::Skipped;
    }
    if now >= packet.deadline && link.enabled() {
        link.stall();
        return Dispatch::Skipped;
    }
    // Automatic incoming Legacy retains its original fixed I/O bound.
    let patience: u64 = if link.enabled() {
        RECOVERY_MS
    } else if kcp_selected {
        stall_ms
    } else {
        CLOSE_TIMEOUT_MS
    };
    let until: u64 = now.saturating_add(patience);
    let deadline: u64 = if link.enabled() || until <= packet.deadline {
        until
    } else {
        packet.deadline
    };
    if now >= deadline {
        Dispatch::Failed
    } else {
        Dispatch::Send { deadline }
    }
}

/// How a connection is attached: as it is, or managed by a dialer or an acceptor. No mode means that
/// the connection is incoming: the authenticated controller's Hello selects the mode.
pub fn attachment(mode: Option<InputTransport>) -> (dialer: Option<bool>)
    ensures
        dialer == (match mode {
            Some(InputTransport::Legacy) => None,
            Some(InputTransport::KcpRequired) => Some(true),
            None => Some(false),
        }),
{
    match mode {
        Some(InputTransport::Legacy) => None,
        Some(InputTransport::KcpRequired) => Some(true),
        None => Some(false),
    }
}

/// A generation that was handed out counts exactly while the link's own one is of the same session and
/// epoch, was not retired, has a peer that is not silent, and is committed or in time.
pub proof fn law_generations_count_while_they_are_current(
    generation: Option<Generation>,
    link: Link,
    now: u64,
    r: bool,
)
    requires
        call_ensures(is_outdated, (&generation, &link, now), r),
    ensures
        generation is None ==> !r,
        generation matches Some(held) ==> (!r <==> {
            &&& link.generation matches Some(g)
            &&& g.session == held.session
            &&& g.epoch == held.epoch
            &&& g.active
            &&& g.peer_deadline matches Some(deadline) ==> now < deadline
            &&& g.committed || (g.deadline matches Some(deadline) ==> now < deadline)
        }),
{
}

/// A lost message ends its connection unless its generation is over. A message that was not consumed in
/// time does so too unless the connection is recoverable: then the link is frozen and a recovery is
/// called for.
pub proof fn law_unconsumed_messages_recover_or_end(
    receipt: Receipt,
    link: &mut Link,
    now: u64,
    over: bool,
    lost: bool,
    ends: bool,
)
    requires
        call_ensures(is_outdated, (&receipt.generation, &*old(link), now), over),
        call_ensures(Receipt::abort, (&receipt, &*old(link), now), lost),
        call_ensures(Receipt::expire, (&receipt, link, now), ends),
    ensures
        lost == !over,
        ends <==> !over && !old(link).enabled,
        !over && old(link).enabled ==> final(link).frozen && (final(link).stalled
            || old(link).frozen),
        over || !old(link).enabled ==> *final(link) == *old(link),
        final(link).enabled == old(link).enabled,
        final(link).failed == old(link).failed,
        !over && old(link).enabled && !old(link).frozen ==> final(link).stalled && (
        final(link).generation matches Some(g) ==> !g.active),
{
}

/// Consumption is reported exactly if the message is a reliable one, its connection is open, and its
/// deadline has not passed; of a generation that is over, and of motion, it counts for nothing.
pub proof fn law_consumption_is_reported_in_time(
    receipt: Receipt,
    cancelled: bool,
    link: Link,
    now: u64,
    over: bool,
    r: Completion,
)
    requires
        call_ensures(is_outdated, (&receipt.generation, &link, now), over),
        call_ensures(Receipt::complete, (receipt, cancelled, &link, now), r),
    ensures
        r == Completion::Ignored <==> over || receipt.sequence == 0,
        r == Completion::Reported <==> !over && receipt.sequence != 0 && !cancelled && now
            < receipt.deadline,
{
}

/// The application gets a message unless its generation is over.
pub proof fn law_deliveries_outlive_nothing_but_their_generation(
    delivery: Delivery,
    link: Link,
    now: u64,
    over: bool,
    r: bool,
)
    requires
        delivery.receipt is Some ==> call_ensures(
            is_outdated,
            (&delivery.receipt->0.generation, &link, now),
            over,
        ),
        call_ensures(Delivery::current, (&delivery, &link, now), r),
    ensures
        r <==> delivery.receipt is None || !over,
{
}

/// A slot holds the latest packet, and never for longer than the oldest one that it replaced could
/// wait.
pub proof fn law_slots_keep_the_latest_packet(slot: &mut Option<WirePacket>, packet: WirePacket)
    requires
        call_ensures(replace, (slot, packet), ()),
    ensures
        *final(slot) matches Some(kept) && {
            &&& kept.bytes == packet.bytes
            &&& kept.generation == packet.generation
            &&& kept.deadline == (match *old(slot) {
                Some(earlier) => earlier.deadline,
                None => packet.deadline,
            })
        },
{
}

/// What is no event, and what comes after the end, is refused. Input during a recovery is accepted and
/// dropped; other input is queued exactly while the connection is ready; what bypasses the reliable
/// channel is always queued.
pub proof fn law_admission_follows_the_connection(
    event: Decoded,
    cancelled: bool,
    ready: bool,
    link: Link,
    r: Admission,
)
    requires
        call_ensures(judge, (&event, cancelled, ready, &link), r),
    ensures
        cancelled || event is Malformed ==> r == Admission::Refused,
        !cancelled && (event is Hello || event is Heartbeat || event is Clipboard) ==> r
            == Admission::Queued,
        !cancelled && (event is Motion || event is Other) ==> {
            &&& r == Admission::Dropped <==> link.frozen
            &&& r == Admission::Queued <==> !link.frozen && ready
        },
{
}

/// A queue that stays full ends its connection unless that is recoverable and open: then the link is
/// frozen, and a recovery is called for.
pub proof fn law_overflow_recovers_or_ends(cancelled: bool, link: &mut Link, r: bool)
    requires
        call_ensures(overflow, (cancelled, link), r),
    ensures
        r <==> old(link).enabled && !cancelled,
        r ==> final(link).frozen && (final(link).stalled || old(link).frozen),
        r && !old(link).frozen ==> final(link).stalled && (final(link).generation matches Some(
            g,
        ) ==> !g.active),
        !r ==> *final(link) == *old(link),
        final(link).enabled == old(link).enabled,
{
}

/// A packet is picked exactly if there is one, from a lane that has one. Control goes first, and of the
/// other two, when both are busy, the one that was not served last.
pub proof fn law_picking_is_fair(
    prefer: &mut bool,
    control: bool,
    motion: bool,
    wire: bool,
    r: Option<Lane>,
    again: &mut bool,
    next: Option<Lane>,
)
    requires
        call_ensures(pick, (prefer, control, motion, wire), r),
        *old(again) == *final(prefer),
        call_ensures(pick, (again, false, true, true), next),
    ensures
        r is Some <==> control || motion || wire,
        r == Some(Lane::Control) <==> control,
        r == Some(Lane::Motion) ==> motion,
        r == Some(Lane::Wire) ==> wire,
        r == Some(Lane::Motion) ==> next == Some(Lane::Wire),
        r == Some(Lane::Wire) ==> next == Some(Lane::Motion),
        control ==> *final(prefer) == *old(prefer),
{
}

/// The writer sends a packet exactly if its generation is not over and there is time left for it, and
/// then before the deadlines of the packet and of its kind of connection. On a recoverable connection a
/// packet that waited too long is not sent and calls for a recovery; on any other it ends the
/// connection.
pub proof fn law_packets_leave_in_time(
    packet: WirePacket,
    kcp: bool,
    stall_ms: u64,
    link: &mut Link,
    now: u64,
    over: bool,
    r: Dispatch,
)
    requires
        call_ensures(is_outdated, (&packet.generation, &*old(link), now), over),
        call_ensures(dispatch, (&packet, kcp, stall_ms, link, now), r),
        stall_ms > 0,
        now + 60000 <= u64::MAX,
        stall_ms <= 60000,
    ensures
        over ==> r == Dispatch::Skipped && *final(link) == *old(link),
        !over && now < packet.deadline ==> r is Send && *final(link) == *old(link),
        !over && now >= packet.deadline && !old(link).enabled ==> r == Dispatch::Failed
            && *final(link) == *old(link),
        !over && now >= packet.deadline && old(link).enabled ==> r == Dispatch::Skipped
            && final(link).frozen && (final(link).stalled || old(link).frozen),
        r matches Dispatch::Send { deadline } ==> {
            &&& now < deadline
            &&& old(link).enabled ==> deadline == now + 2000
            &&& !old(link).enabled ==> deadline <= packet.deadline && deadline <= now + (if kcp {
                stall_ms
            } else {
                300
            }) && (deadline == packet.deadline || deadline == now + (if kcp {
                stall_ms
            } else {
                300
            }))
        },
{
}

/// A connection in legacy mode is left as it is; the other configured mode dials, and an incoming
/// connection accepts.
pub proof fn law_attachments_follow_the_mode(mode: Option<InputTransport>, r: Option<bool>)
    requires
        call_ensures(attachment, (mode,), r),
    ensures
        r is None <==> mode == Some(InputTransport::Legacy),
        r == Some(true) <==> mode == Some(InputTransport::KcpRequired),
        r == Some(false) <==> mode is None,
{
}

} // verus!
