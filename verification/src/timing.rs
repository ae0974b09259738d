//! When a round that two coordinators have begun completes on both sides.

use crate::agreement::{asks, brings, resumed, sender, served, speaks};
use crate::agreement::{law_losses_do_no_harm, lemma_acceptor_served, lemma_dialer_served};
use crate::agreement::{lemma_repeats, lemma_sends, Event, Pair, Terms};
use crate::protocol::{Kind, Role};
use crate::recovery::{Input, RETRY_MS};
use vstd::prelude::*;

verus! {

/// What reaches two peers one after the other while a round is under way, and how they stand before and
/// after. Until `clear` the link loses what it likes. A frame that leaves later arrives within `delay`
/// milliseconds, but for the first one of the kind `lost`, if there is such a kind.
pub ghost struct History {
    pub states: Seq<Pair>,
    pub events: Seq<Event>,
    pub clear: u64,
    pub delay: u64,
    pub lost: Option<Kind>,
}

impl History {
    /// Whether a frame of a kind leaves with an event.
    #[verifier::opaque]
    pub open spec fn emits(self, t: Terms, i: int, kind: Kind) -> bool {
        let event = self.events[i];
        served(
            self.states[i].peer(event.role),
            event.now,
            event.input,
            t.own(event.role),
        ).1.contains(t.word(kind))
    }

    /// Whether no frame of a kind has left since the link is clear.
    pub open spec fn unsaid(self, t: Terms, i: int, kind: Kind) -> bool {
        forall|j: int| 0 <= j < i && self.clear <= self.events[j].now ==> !#[trigger] self.emits(
            t,
            j,
            kind,
        )
    }

    /// Whether an event is the arrival of a frame of a kind at its receiver.
    pub open spec fn arrival(self, t: Terms, i: int, kind: Kind) -> bool {
        &&& 0 <= i < self.events.len()
        &&& self.events[i].role == sender(kind).other()
        &&& self.events[i].input == Input::Control(t.word(kind))
    }

    /// Whether a peer ticks at a time.
    pub open spec fn ticks(self, role: Role, now: u64) -> bool {
        self.events.contains(Event { role, now, input: Input::Tick })
    }

    /// A round has begun, and each event finds the peers as the one before has left them.
    #[verifier::opaque]
    pub open spec fn follows(self, t: Terms) -> bool {
        &&& self.states[0].under_way(t)
        &&& self.states[0].progress(t) >= 1
        &&& self.states[0].dialer.last_now <= t.from
        &&& self.states[0].acceptor.last_now <= t.from
        &&& forall|i: int|
            0 <= i < self.events.len() ==> self.states[i].may_meet(t, #[trigger] self.events[i])
                && self.states[i + 1] == self.states[i].meets(t, self.events[i])
    }

    /// The events follow each other in time, each peer ticks every millisecond, and the link keeps its
    /// promise.
    pub open spec fn runs(self, t: Terms) -> bool {
        &&& self.states.len() == self.events.len() + 1
        &&& self.follows(t)
        &&& t.from <= self.clear
        &&& forall|i: int, j: int|
            0 <= i <= j < self.events.len() ==> (#[trigger] self.events[i]).now <= (
            #[trigger] self.events[j]).now
        &&& forall|role: Role, now: u64|
            t.from < now <= t.until ==> #[trigger] self.ticks(role, now)
        &&& forall|i: int, kind: Kind|
            0 <= i < self.events.len() && #[trigger] self.emits(t, i, kind) && self.clear
                <= self.events[i].now && self.events[i].now + self.delay <= t.until && !(self.lost
                == Some(kind) && self.unsaid(t, i, kind)) ==> exists|d: int| #[trigger]
                self.arrival(t, d, kind) && i < d && self.events[d].now <= self.events[i].now
                    + self.delay
    }

    /// Whether every event up to a time has happened before the given state.
    pub open spec fn past(self, i: int, now: int) -> bool {
        &&& 0 <= i <= self.events.len()
        &&& forall|d: int|
            0 <= d < self.events.len() && (#[trigger] self.events[d]).now <= now ==> d < i
    }

    #[verifier::opaque]
    spec fn stage(self, t: Terms, role: Role, i: int) -> int {
        t.stage(self.states[i].peer(role))
    }

    /// Whether a frame of a kind has taken its receiver where it takes it.
    spec fn reached(self, t: Terms, i: int, kind: Kind) -> bool {
        self.stage(t, sender(kind).other(), i) >= brings(kind)
    }

    /// Whether a stage that a frame calls for is reached once a time is past.
    spec fn settled(self, t: Terms, kind: Kind, now: int) -> bool {
        forall|i: int| #[trigger] self.past(i, now) ==> self.reached(t, i, kind)
    }
}

impl History {
    /// The round stays under way, and neither peer falls back.
    proof fn lemma_under_way(self, t: Terms, i: int, j: int)
        requires
            self.runs(t),
            0 <= i <= j <= self.events.len(),
        ensures
            self.states[i].under_way(t),
            self.states[j].under_way(t),
            self.stage(t, Role::Dialer, i) <= self.stage(t, Role::Dialer, j),
            self.stage(t, Role::Acceptor, i) <= self.stage(t, Role::Acceptor, j),
        decreases j,
    {
        reveal(History::follows);
        reveal(History::stage);
        if j > 0 {
            let event = self.events[j - 1];
            if i == j {
                self.lemma_under_way(t, j - 1, j - 1);
            } else {
                self.lemma_under_way(t, i, j - 1);
            }
            law_losses_do_no_harm(t, self.states[j - 1], event);
            assert(self.states[j - 1 + 1] == self.states[j - 1].meets(t, event));
        }
    }

    /// Neither peer falls back, and neither gets ahead of what the other has said.
    proof fn lemma_stages(self, t: Terms, i: int, j: int)
        requires
            self.runs(t),
            0 <= i <= j <= self.events.len(),
        ensures
            ({
                let (a, b) = (self.stage(t, Role::Dialer, j), self.stage(t, Role::Acceptor, j));
                &&& self.stage(t, Role::Dialer, i) <= a <= 4
                &&& self.stage(t, Role::Acceptor, i) <= b <= 4
                &&& a + b >= 1
                &&& b >= 2 ==> a >= 1
                &&& a >= 2 ==> b >= 2
                &&& b >= 3 ==> a >= 2
                &&& a >= 3 ==> b >= 3
                &&& b >= 4 ==> a >= 3
                &&& a >= 4 ==> b >= 4
            }),
    {
        self.lemma_under_way(t, i, j);
        self.lemma_under_way(t, 0, j);
        reveal(History::follows);
        reveal(History::stage);
    }

    /// What one event does to its peer.
    proof fn lemma_event(self, t: Terms, i: int)
        requires
            self.runs(t),
            0 <= i < self.events.len(),
        ensures
            ({
                let event = self.events[i];
                let m = self.states[i].peer(event.role);
                let (n, frames) = served(m, event.now, event.input, t.own(event.role));
                &&& t.fair()
                &&& t.keeps(m)
                &&& m.role == event.role
                &&& t.has(m, event.input)
                &&& m.last_now <= event.now
                &&& t.from <= event.now <= t.until
                &&& self.states[i + 1].peer(event.role) == n
                &&& self.states[i + 1].peer(event.role.other()) == self.states[i].peer(
                    event.role.other(),
                )
                &&& t.stage(n) == t.led(m, event.input)
                &&& speaks(t, event.role, t.stage(m), t.stage(n), frames)
            }),
    {
        let event = self.events[i];
        let m = self.states[i].peer(event.role);
        self.lemma_under_way(t, i, i);
        reveal(History::follows);
        if let Input::Control(c) = event.input {
            assert(c == t.word(c.kind));
            assert(t.stage(self.states[i].peer(sender(c.kind))) >= asks(c.kind));
        }
        assert(t.has(m, event.input));
        if event.role == Role::Dialer {
            lemma_dialer_served(t, m, event.now, event.input);
        } else {
            lemma_acceptor_served(t, m, event.now, event.input);
        }
    }

    /// Who waits to be heard says it again, and says nothing else.
    proof fn lemma_waits(self, t: Terms, i: int, kind: Kind)
        requires
            self.runs(t),
            0 <= i < self.events.len(),
            self.events[i].role == sender(kind),
            self.stage(t, sender(kind), i) == asks(kind),
            self.stage(t, sender(kind), i + 1) == asks(kind),
        ensures
            ({
                let event = self.events[i];
                let m = self.states[i].peer(event.role);
                let due = m.last_send is None || event.now >= m.last_send->0 + RETRY_MS;
                &&& served(m, event.now, event.input, t.own(event.role)).1.len() > 0 ==> self.emits(
                    t,
                    i,
                    kind,
                )
                &&& due && kind != Kind::ActivateAck && event.input == Input::Tick ==> self.emits(
                    t,
                    i,
                    kind,
                )
                &&& due && kind == Kind::ActivateAck && event.input == Input::Control(
                    t.word(Kind::Activate),
                ) ==> self.emits(t, i, kind)
            }),
    {
        self.lemma_event(t, i);
        reveal(History::emits);
        reveal(History::stage);
        let event = self.events[i];
        lemma_repeats(t, self.states[i].peer(event.role), event.now, event.input, kind);
    }

    /// A frame that was the last to leave left with an event, or before all of them.
    proof fn lemma_left(self, t: Terms, role: Role, i: int, at: u64) -> (g: int)
        requires
            self.runs(t),
            0 <= i <= self.events.len(),
            self.states[i].peer(role).last_send == Some(at),
            at > t.from,
        ensures
            0 <= g < i,
            self.events[g].role == role,
            self.events[g].now == at,
            served(
                self.states[g].peer(role),
                at,
                self.events[g].input,
                t.own(role),
            ).1.len() > 0,
        decreases i,
    {
        if i == 0 {
            self.lemma_under_way(t, 0, 0);
            reveal(History::follows);
            assert(self.states[0].peer(role).last_now <= t.from);
            0
        } else {
            self.lemma_event(t, i - 1);
            let event = self.events[i - 1];
            assert(self.states[i - 1 + 1].peer(role).last_send == Some(at));
            if event.role == role {
                let m = self.states[i - 1].peer(role);
                lemma_sends(m, event.now, event.input, t.own(role), at);
                if m.last_send == Some(at) {
                    self.lemma_left(t, role, i - 1, at)
                } else {
                    i - 1
                }
            } else {
                assert(event.role.other() == role);
                self.lemma_left(t, role, i - 1, at)
            }
        }
    }

    /// The last frame that a waiting peer has sent since a time is the one that it repeats.
    proof fn lemma_said(self, t: Terms, kind: Kind, from: int, i: int, now: u64) -> (g: int)
        requires
            self.runs(t),
            0 <= from <= i < self.events.len(),
            t.from <= now,
            from > 0 ==> self.events[from - 1].now <= now,
            forall|j: int| from <= j <= i + 1 ==> #[trigger] self.stage(t, sender(kind), j) == asks(kind),
            self.states[i].peer(sender(kind)).last_send is Some,
            self.states[i].peer(sender(kind)).last_send->0 > now,
        ensures
            from <= g < i,
            self.emits(t, g, kind),
            now < self.events[g].now,
    {
        let at = self.states[i].peer(sender(kind)).last_send->0;
        let g = self.lemma_left(t, sender(kind), i, at);
        if g < from {
            assert(self.events[g].now <= self.events[from - 1].now);
        }
        assert(self.stage(t, sender(kind), g) == asks(kind));
        assert(self.stage(t, sender(kind), g + 1) == asks(kind));
        self.lemma_waits(t, g, kind);
        g
    }

    /// While a peer waits to be heard, it repeats its frame within `RETRY_MS`.
    proof fn lemma_window(self, t: Terms, kind: Kind, from: int, end: int, now: u64) -> (g: int)
        requires
            self.runs(t),
            kind != Kind::ActivateAck,
            0 <= from <= end,
            self.past(end, now + RETRY_MS),
            t.from <= now,
            now + RETRY_MS <= t.until,
            from > 0 ==> self.events[from - 1].now <= now,
            forall|j: int| from <= j <= end ==> #[trigger] self.stage(t, sender(kind), j) == asks(kind),
        ensures
            from <= g < end,
            self.emits(t, g, kind),
            now < self.events[g].now <= now + RETRY_MS,
    {
        let at = (now + RETRY_MS) as u64;
        assert(self.ticks(sender(kind), at));
        let tick = Event { role: sender(kind), now: at, input: Input::Tick };
        let b = choose|b: int| 0 <= b < self.events.len() && self.events[b] == tick;
        assert(b < end);
        if b < from {
            assert(self.events[b].now <= self.events[from - 1].now);
        }
        let m = self.states[b].peer(sender(kind));
        if m.last_send is Some && m.last_send->0 > now {
            let g = self.lemma_said(t, kind, from, b, now);
            assert(self.events[g].now <= self.events[b].now);
            g
        } else {
            assert(self.stage(t, sender(kind), b) == asks(kind));
            assert(self.stage(t, sender(kind), b + 1) == asks(kind));
            self.lemma_waits(t, b, kind);
            b
        }
    }

    /// A frame that arrives takes its receiver where it takes it.
    proof fn lemma_arrival(self, t: Terms, i: int, kind: Kind)
        requires
            self.runs(t),
            self.arrival(t, i, kind),
        ensures
            self.reached(t, i + 1, kind),
    {
        self.lemma_event(t, i);
        reveal(History::stage);
    }

    /// A frame that leaves, and is not the one that is lost, takes its receiver where it takes it.
    proof fn lemma_delivered(self, t: Terms, g: int, kind: Kind, end: int)
        requires
            self.runs(t),
            0 <= g < self.events.len(),
            self.emits(t, g, kind),
            self.clear <= self.events[g].now,
            self.events[g].now + self.delay <= t.until,
            !(self.lost == Some(kind) && self.unsaid(t, g, kind)),
            self.past(end, self.events[g].now + self.delay),
        ensures
            self.reached(t, end, kind),
    {
        let d = choose|d: int| #[trigger]
            self.arrival(t, d, kind) && g < d && self.events[d].now <= self.events[g].now
                + self.delay;
        assert(d < end);
        self.lemma_arrival(t, d, kind);
        self.lemma_stages(t, d + 1, end);
    }
}

impl History {
    /// How much longer a round can take for a frame of a kind.
    spec fn toll(self, kind: Kind) -> int {
        self.delay + if self.lost == Some(kind) {
            RETRY_MS as int
        } else {
            0
        }
    }

    /// A peer that has come so far came so far at some time.
    proof fn lemma_enters(self, t: Terms, role: Role, stage: int, i: int) -> (h: int)
        requires
            0 <= i <= self.events.len(),
            self.stage(t, role, i) >= stage,
        ensures
            0 <= h <= i,
            self.stage(t, role, h) >= stage,
            h > 0 ==> self.stage(t, role, h - 1) < stage,
        decreases i,
    {
        if i > 0 && self.stage(t, role, i - 1) >= stage {
            self.lemma_enters(t, role, stage, i - 1)
        } else {
            i
        }
    }

    /// A peer says its frame when it comes to wait for the answer.
    proof fn lemma_entering(self, t: Terms, h: int, kind: Kind)
        requires
            self.runs(t),
            0 < h <= self.events.len(),
            self.stage(t, sender(kind), h - 1) < asks(kind),
            self.stage(t, sender(kind), h) >= asks(kind),
        ensures
            self.emits(t, h - 1, kind),
    {
        self.lemma_event(t, h - 1);
        reveal(History::emits);
        reveal(History::stage);
        let event = self.events[h - 1];
        assert(self.states[h - 1 + 1].peer(sender(kind)) == self.states[h].peer(sender(kind)));
        assert(event.role == sender(kind) || event.role.other() == sender(kind));
    }

    /// A peer that waits has said its frame since the link is clear.
    proof fn lemma_first(self, t: Terms, kind: Kind, h: int, end: int, now: int) -> (g: int)
        requires
            self.runs(t),
            kind != Kind::ActivateAck,
            self.clear + RETRY_MS <= now <= t.until,
            0 <= h <= end,
            self.past(end, now),
            h > 0 ==> self.stage(t, sender(kind), h - 1) < asks(kind) && self.events[h - 1].now
                <= now,
            forall|j: int| h <= j <= end ==> #[trigger] self.stage(t, sender(kind), j) == asks(kind),
        ensures
            0 <= g,
            h - 1 <= g < end,
            self.emits(t, g, kind),
            self.clear <= self.events[g].now <= now,
    {
        if h > 0 && self.clear <= self.events[h - 1].now {
            assert(self.stage(t, sender(kind), h) == asks(kind));
            self.lemma_entering(t, h, kind);
            h - 1
        } else {
            self.lemma_window(t, kind, h, end, self.clear)
        }
    }

    /// Once its sender waits, a frame takes its receiver where it takes it before long.
    proof fn lemma_link(self, t: Terms, kind: Kind, now: int)
        requires
            self.runs(t),
            kind != Kind::ActivateAck,
            self.clear + RETRY_MS <= now,
            now + self.toll(kind) <= t.until,
            forall|i: int| #[trigger]
                self.past(i, now) ==> self.stage(t, sender(kind), i) >= asks(kind) || self.reached(
                    t,
                    i,
                    kind,
                ),
        ensures
            self.settled(t, kind, now + self.toll(kind)),
    {
        assert forall|end: int| #[trigger] self.past(end, now + self.toll(kind)) implies self.reached(
            t,
            end,
            kind,
        ) by {
            if !self.reached(t, end, kind) {
                assert(self.past(end, now));
                let h = self.lemma_enters(t, sender(kind), asks(kind), end);
                assert forall|j: int| h <= j <= end implies #[trigger] self.stage(
                    t,
                    sender(kind),
                    j,
                ) == asks(kind) by {
                    self.lemma_stages(t, h, j);
                    self.lemma_stages(t, j, end);
                }
                if h > 0 && self.events[h - 1].now > now {
                    self.lemma_stages(t, h - 1, end);
                    assert(self.past(h - 1, now));
                }
                let g = self.lemma_first(t, kind, h, end, now);
                if self.lost == Some(kind) {
                    if h > 0 {
                        assert(self.events[h - 1].now <= self.events[g].now);
                    }
                    let again = self.lemma_window(t, kind, h, end, self.events[g].now);
                    assert(g < again) by {
                        if again <= g {
                            assert(self.events[again].now <= self.events[g].now);
                        }
                    }
                    self.lemma_delivered(t, again, kind, end);
                } else {
                    self.lemma_delivered(t, g, kind, end);
                }
            }
        }
    }

    /// An acceptor that is done answers the dialer, who is not, again.
    proof fn lemma_reminded(self, t: Terms, h: int, end: int, now: u64) -> (g: int)
        requires
            self.runs(t),
            0 <= h <= end,
            self.clear <= now,
            now + 2 * RETRY_MS + self.toll(Kind::Activate) <= t.until,
            self.past(end, now + 2 * RETRY_MS + self.toll(Kind::Activate)),
            h > 0 ==> self.events[h - 1].now <= now,
            forall|j: int| h <= j <= end ==> #[trigger] self.stage(t, Role::Dialer, j) == 3,
            forall|j: int| h <= j <= end ==> #[trigger] self.stage(t, Role::Acceptor, j) == 4,
        ensures
            h <= g < end,
            self.emits(t, g, Kind::ActivateAck),
            now < self.events[g].now <= now + 2 * RETRY_MS + self.toll(Kind::Activate),
    {
        let kind = Kind::Activate;
        let first = self.lemma_window(t, kind, h, end, (now + RETRY_MS) as u64);
        let g = if self.lost == Some(kind) {
            if h > 0 {
                assert(self.events[h - 1].now <= self.events[first].now);
            }
            let again = self.lemma_window(t, kind, h, end, self.events[first].now);
            assert(first < again) by {
                if again <= first {
                    assert(self.events[again].now <= self.events[first].now);
                }
            }
            again
        } else {
            first
        };
        let d = choose|d: int| #[trigger]
            self.arrival(t, d, kind) && g < d && self.events[d].now <= self.events[g].now
                + self.delay;
        assert(d < end);
        assert(self.events[g].now <= self.events[d].now);
        let m = self.states[d].peer(Role::Acceptor);
        assert(self.stage(t, Role::Acceptor, d) == 4);
        assert(self.stage(t, Role::Acceptor, d + 1) == 4);
        if m.last_send is Some && m.last_send->0 > now {
            let said = self.lemma_said(t, Kind::ActivateAck, h, d, now);
            assert(self.events[said].now <= self.events[d].now);
            said
        } else {
            self.lemma_waits(t, d, Kind::ActivateAck);
            d
        }
    }

    /// Once the acceptor is done, so is the dialer before long.
    proof fn lemma_last_link(self, t: Terms, now: int, end: int)
        requires
            self.runs(t),
            self.settled(t, Kind::Activate, now),
            ({
                let last = self.clear + 4 * RETRY_MS + 8 * self.delay;
                &&& now + self.delay <= last <= t.until
                &&& self.lost == Some(Kind::ActivateAck) ==> now + 2 * RETRY_MS + 2 * self.delay
                    <= last
                &&& self.past(end, last)
            }),
        ensures
            self.reached(t, end, Kind::ActivateAck),
    {
        let kind = Kind::ActivateAck;
        if !self.reached(t, end, kind) {
            assert(self.past(end, now));
            assert(self.reached(t, end, Kind::Activate));
            let h = self.lemma_enters(t, Role::Acceptor, 4, end);
            assert forall|j: int| h <= j <= end implies #[trigger] self.stage(t, Role::Acceptor, j)
                == 4 by {
                self.lemma_stages(t, h, j);
            }
            assert forall|j: int| h <= j <= end implies #[trigger] self.stage(t, Role::Dialer, j)
                == 3 by {
                self.lemma_stages(t, h, j);
                self.lemma_stages(t, j, end);
                assert(self.stage(t, Role::Acceptor, j) == 4);
            }
            if h > 0 && self.events[h - 1].now > now {
                assert(self.past(h - 1, now));
                assert(self.reached(t, h - 1, Kind::Activate));
            }
            self.lemma_answered_again(t, now, h, end);
        }
    }

    /// A dialer to whom the acceptor's answer, or its repetition, gets through is done.
    proof fn lemma_answered_again(self, t: Terms, now: int, h: int, end: int)
        requires
            self.runs(t),
            0 <= h <= end,
            h > 0 ==> self.events[h - 1].now <= now && self.stage(t, Role::Acceptor, h - 1) < 4,
            forall|j: int| h <= j <= end ==> #[trigger] self.stage(t, Role::Dialer, j) == 3,
            forall|j: int| h <= j <= end ==> #[trigger] self.stage(t, Role::Acceptor, j) == 4,
            ({
                let last = self.clear + 4 * RETRY_MS + 8 * self.delay;
                &&& now + self.delay <= last <= t.until
                &&& self.lost == Some(Kind::ActivateAck) ==> now + 2 * RETRY_MS + 2 * self.delay
                    <= last
                &&& self.past(end, last)
            }),
        ensures
            self.reached(t, end, Kind::ActivateAck),
    {
        let kind = Kind::ActivateAck;
        let last = self.clear + 4 * RETRY_MS + 8 * self.delay;
        if h > 0 && self.clear <= self.events[h - 1].now {
            let g = h - 1;
            assert(self.stage(t, Role::Acceptor, h) == 4);
            self.lemma_entering(t, h, kind);
            if self.lost == Some(kind) {
                assert(self.past(end, self.events[g].now + 2 * RETRY_MS + self.delay));
                let again = self.lemma_reminded(t, h, end, self.events[g].now);
                assert(self.past(end, self.events[again].now + self.delay));
                self.lemma_delivered(t, again, kind, end);
            } else {
                assert(self.past(end, self.events[g].now + self.delay));
                self.lemma_delivered(t, g, kind, end);
            }
        } else {
            assert(self.past(end, self.clear + 2 * RETRY_MS + self.toll(Kind::Activate)));
            let g = self.lemma_reminded(t, h, end, self.clear);
            if self.lost == Some(kind) {
                assert(self.past(end, self.events[g].now + 2 * RETRY_MS + self.delay));
                let again = self.lemma_reminded(t, h, end, self.events[g].now);
                assert(g < again) by {
                    if again <= g {
                        assert(self.events[again].now <= self.events[g].now);
                    }
                }
                assert(self.past(end, self.events[again].now + self.delay));
                self.lemma_delivered(t, again, kind, end);
            } else {
                assert(self.past(end, self.events[g].now + self.delay));
                self.lemma_delivered(t, g, kind, end);
            }
        }
    }
}

/// A round that has begun completes on both sides within four repetitions and eight delays of the time
/// from which the link is clear, also where the first frame of one kind is then lost, and whatever is
/// doubled or reordered. Neither side closes before. So on a link that is clear from the start a round
/// takes 1900 milliseconds at most where no frame takes longer than 212, and after 1500 milliseconds
/// without a link where none takes longer than 25.
pub proof fn law_rounds_complete_in_time(t: Terms, history: History)
    requires
        history.runs(t),
        history.clear + 4 * RETRY_MS + 8 * history.delay <= t.until,
    ensures
        forall|i: int|
            0 <= i <= history.events.len() ==> (#[trigger] history.states[i]).under_way(t),
        forall|i: int| #[trigger]
            history.past(i, history.clear + 4 * RETRY_MS + 8 * history.delay) ==> resumed(
                (history.states[i].dialer, history.states[i].acceptor),
                t.epoch(),
                t.near,
                t.far,
                t.until,
            ),
{
    assert forall|i: int| 0 <= i <= history.events.len() implies (
    #[trigger] history.states[i]).under_way(t) by {
        history.lemma_under_way(t, 0, i);
    }
    let begun = history.clear + RETRY_MS;
    assert forall|i: int| #[trigger] history.past(i, begun) implies history.stage(
        t,
        Role::Acceptor,
        i,
    ) >= 1 || history.reached(t, i, Kind::Request) by {
        history.lemma_stages(t, 0, i);
    }
    history.lemma_link(t, Kind::Request, begun);
    let asked = begun + history.toll(Kind::Request);
    history.lemma_link(t, Kind::Prepare, asked);
    let quiet = asked + history.toll(Kind::Prepare);
    history.lemma_link(t, Kind::Prepared, quiet);
    let agreed = quiet + history.toll(Kind::Prepared);
    history.lemma_link(t, Kind::Commit, agreed);
    let committed = agreed + history.toll(Kind::Commit);
    history.lemma_link(t, Kind::CommitAck, committed);
    let installed = committed + history.toll(Kind::CommitAck);
    history.lemma_link(t, Kind::Activate, installed);
    let active = installed + history.toll(Kind::Activate);
    assert forall|i: int| #[trigger]
        history.past(i, history.clear + 4 * RETRY_MS + 8 * history.delay) implies resumed(
        (history.states[i].dialer, history.states[i].acceptor),
        t.epoch(),
        t.near,
        t.far,
        t.until,
    ) by {
        history.lemma_last_link(t, active, i);
        assert(history.states[i].under_way(t));
        reveal(History::stage);
        assert(history.stage(t, Role::Dialer, i) >= 4);
    }
}

} // verus!
