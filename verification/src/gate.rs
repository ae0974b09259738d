//! Physical release gate, before Command/Ctrl mapping or transport queueing.
//!
//! While input is frozen nothing passes. A key, a button or a modifier that was down at the freeze,
//! or went down during it, stays out afterwards until it was physically released, and scrolling
//! that merely coasts stays out until the user scrolls again.

use crate::input::{Event, KeyboardEvent, PointerEvent};
use std::collections::HashSet;
use vstd::prelude::*;
use vstd::std_specs::iter::IteratorSpec;

verus! {

broadcast use vstd::std_specs::hash::group_hash_axioms;

/// A key or a button as one number.
pub open spec fn switch(pointer: bool, code: u32) -> u64 {
    if pointer {
        (0x1_0000_0000 + code) as u64
    } else {
        code as u64
    }
}

/// A key and a button are never taken for one another.
pub proof fn law_switches_are_distinct(a: (bool, u32), b: (bool, u32))
    requires
        switch(a.0, a.1) == switch(b.0, b.1),
    ensures
        a == b,
{
}

/// The key or button that an event speaks of, and its state.
pub open spec fn switch_of(event: Event) -> Option<(u64, u32)> {
    match event {
        Event::Keyboard(KeyboardEvent::Key { key, state, .. }) => Some(
            (switch(false, key), state as u32),
        ),
        Event::Pointer(PointerEvent::Button { button, state, .. }) => Some(
            (switch(true, button), state),
        ),
        _ => None,
    }
}

/// The three levels of a modifier snapshot.
#[derive(Clone, Copy, Debug, PartialEq, Eq, Structural)]
pub struct Levels {
    pub depressed: u32,
    pub latched: u32,
    pub locked: u32,
}

pub open spec fn no_levels() -> Levels {
    Levels { depressed: 0, latched: 0, locked: 0 }
}

/// The bits that stay blocked of `blocked` when `current` is reported.
pub open spec fn still_blocked(blocked: u32, current: u32, paused: bool) -> u32 {
    if paused {
        (blocked & current) | current
    } else {
        blocked & current
    }
}

fn keep_blocked(blocked: u32, current: u32, paused: bool) -> (r: u32)
    ensures
        r == still_blocked(blocked, current, paused),
{
    if paused {
        (blocked & current) | current
    } else {
        blocked & current
    }
}

/// A [`PhysicalGate`] as contracts speak of it.
#[verifier::ext_equal]
pub struct GateView {
    pub held: Set<u64>,
    pub blocked: Set<u64>,
    pub modifiers: Levels,
    pub blocked_modifiers: Levels,
    pub paused: bool,
    pub stale_momentum: bool,
}

/// What an event leaves behind, and what passes.
pub open spec fn passed(gate: GateView, event: Event) -> (GateView, Option<Event>) {
    match event {
        Event::Keyboard(KeyboardEvent::Key { .. })
        | Event::Pointer(PointerEvent::Button { .. }) => {
            let (key, state) = switch_of(event)->0;
            let next = if state == 0 {
                GateView { held: gate.held.remove(key), blocked: gate.blocked.remove(key), ..gate }
            } else if gate.paused {
                GateView { held: gate.held.insert(key), blocked: gate.blocked.insert(key), ..gate }
            } else {
                GateView { held: gate.held.insert(key), ..gate }
            };
            (
                next,
                if gate.paused || gate.blocked.contains(key) {
                    None
                } else {
                    Some(event)
                },
            )
        },
        Event::Keyboard(KeyboardEvent::Modifiers { depressed, latched, locked, group }) => {
            let blocked = Levels {
                depressed: still_blocked(gate.blocked_modifiers.depressed, depressed, gate.paused),
                latched: still_blocked(gate.blocked_modifiers.latched, latched, gate.paused),
                locked: still_blocked(gate.blocked_modifiers.locked, locked, gate.paused),
            };
            (
                GateView {
                    modifiers: Levels { depressed, latched, locked },
                    blocked_modifiers: blocked,
                    ..gate
                },
                if gate.paused {
                    None
                } else {
                    Some(
                        Event::Keyboard(
                            KeyboardEvent::Modifiers {
                                depressed: depressed & !blocked.depressed,
                                latched: latched & !blocked.latched,
                                locked: locked & !blocked.locked,
                                group,
                            },
                        ),
                    )
                },
            )
        },
        Event::Pointer(PointerEvent::Axis { momentum, .. }) => {
            if gate.paused || (momentum && gate.stale_momentum) {
                (gate, None)
            } else if momentum {
                (gate, Some(event))
            } else {
                (GateView { stale_momentum: false, ..gate }, Some(event))
            }
        },
        _ => (
            gate,
            if gate.paused {
                None
            } else {
                Some(event)
            },
        ),
    }
}

/// A freeze.
pub open spec fn frozen(gate: GateView) -> GateView {
    GateView {
        blocked: gate.blocked.union(gate.held),
        blocked_modifiers: gate.modifiers,
        paused: true,
        stale_momentum: true,
        ..gate
    }
}

pub struct PhysicalGate {
    held: HashSet<u64>,
    blocked: HashSet<u64>,
    modifiers: Levels,
    blocked_modifiers: Levels,
    paused: bool,
    stale_momentum: bool,
}

impl View for PhysicalGate {
    type V = GateView;

    closed spec fn view(&self) -> GateView {
        GateView {
            held: self.held@,
            blocked: self.blocked@,
            modifiers: self.modifiers,
            blocked_modifiers: self.blocked_modifiers,
            paused: self.paused,
            stale_momentum: self.stale_momentum,
        }
    }
}

impl Default for PhysicalGate {
    fn default() -> (r: PhysicalGate)
        ensures
            r@ == (GateView {
                held: Set::empty(),
                blocked: Set::empty(),
                modifiers: no_levels(),
                blocked_modifiers: no_levels(),
                paused: false,
                stale_momentum: false,
            }),
    {
        PhysicalGate {
            held: HashSet::new(),
            blocked: HashSet::new(),
            modifiers: Levels { depressed: 0, latched: 0, locked: 0 },
            blocked_modifiers: Levels { depressed: 0, latched: 0, locked: 0 },
            paused: false,
            stale_momentum: false,
        }
    }
}

fn number(pointer: bool, code: u32) -> (r: u64)
    ensures
        r == switch(pointer, code),
{
    if pointer {
        0x1_0000_0000 + code as u64
    } else {
        code as u64
    }
}

impl PhysicalGate {
    /// Holds everything back from here on, and what is down until it was released.
    pub fn freeze(&mut self)
        ensures
            final(self)@ == frozen(old(self)@),
    {
        let ghost before = self.blocked@;
        let ghost held = self.held@;
        let ghost all = vstd::std_specs::hash::spec_hash_keys_iter(&self.held).remaining();
        for key in listed: self.held.iter()
            invariant
                listed.seq() == all,
                self.held@ == held,
                self.modifiers == old(self).modifiers,
                forall|x: u64| #[trigger]
                    self.blocked@.contains(x) <==> before.contains(x) || (exists|i: int|
                        0 <= i < listed.index() && *all[i] == x),
        {
            self.blocked.insert(*key);
        }
        proof {
            assert forall|x: u64| self.blocked@.contains(x) <==> before.union(held).contains(x) by {
                assert(all.unref().to_set() == held);
                if held.contains(x) {
                    assert(all.unref().contains(x));
                    let i = choose|i: int| 0 <= i < all.unref().len() && all.unref()[i] == x;
                    assert(*all[i] == x);
                }
                if exists|i: int| 0 <= i < all.len() && *all[i] == x {
                    let i = choose|i: int| 0 <= i < all.len() && *all[i] == x;
                    assert(all.unref()[i] == x);
                    assert(all.unref().contains(x));
                }
            }
            assert(self.blocked@ =~= before.union(held));
        }
        self.blocked_modifiers = self.modifiers;
        self.paused = true;
        self.stale_momentum = true;
    }

    pub fn resume(&mut self)
        ensures
            final(self)@ == (GateView { paused: false, ..old(self)@ }),
    {
        self.paused = false;
    }

    /// Takes note of an event and tells what of it passes.
    pub fn filter(&mut self, event: Event) -> (r: Option<Event>)
        ensures
            final(self)@ == passed(old(self)@, event).0,
            r == passed(old(self)@, event).1,
    {
        match event {
            Event::Keyboard(KeyboardEvent::Key { key, state, .. }) => {
                if self.turn(number(false, key), state as u32) {
                    Some(event)
                } else {
                    None
                }
            },
            Event::Pointer(PointerEvent::Button { button, state, .. }) => {
                if self.turn(number(true, button), state) {
                    Some(event)
                } else {
                    None
                }
            },
            Event::Keyboard(KeyboardEvent::Modifiers { depressed, latched, locked, group }) => {
                self.modifiers = Levels { depressed, latched, locked };
                let blocked = Levels {
                    depressed: keep_blocked(
                        self.blocked_modifiers.depressed,
                        depressed,
                        self.paused,
                    ),
                    latched: keep_blocked(self.blocked_modifiers.latched, latched, self.paused),
                    locked: keep_blocked(self.blocked_modifiers.locked, locked, self.paused),
                };
                self.blocked_modifiers = blocked;
                if self.paused {
                    None
                } else {
                    Some(
                        Event::Keyboard(
                            KeyboardEvent::Modifiers {
                                depressed: depressed & !blocked.depressed,
                                latched: latched & !blocked.latched,
                                locked: locked & !blocked.locked,
                                group,
                            },
                        ),
                    )
                }
            },
            Event::Pointer(PointerEvent::Axis { momentum, .. }) => {
                if self.paused || (momentum && self.stale_momentum) {
                    None
                } else {
                    if !momentum {
                        self.stale_momentum = false;
                    }
                    Some(event)
                }
            },
            _ => {
                if self.paused {
                    None
                } else {
                    Some(event)
                }
            },
        }
    }

    /// Takes note of a key or a button and tells whether it passes.
    fn turn(&mut self, key: u64, state: u32) -> (r: bool)
        ensures
            r == !(old(self)@.paused || old(self)@.blocked.contains(key)),
            final(self)@ == (if state == 0 {
                GateView {
                    held: old(self)@.held.remove(key),
                    blocked: old(self)@.blocked.remove(key),
                    ..old(self)@
                }
            } else if old(self)@.paused {
                GateView {
                    held: old(self)@.held.insert(key),
                    blocked: old(self)@.blocked.insert(key),
                    ..old(self)@
                }
            } else {
                GateView { held: old(self)@.held.insert(key), ..old(self)@ }
            }),
    {
        let blocked = self.blocked.contains(&key);
        if state == 0 {
            self.held.remove(&key);
            self.blocked.remove(&key);
        } else {
            self.held.insert(key);
            if self.paused {
                self.blocked.insert(key);
            }
        }
        !blocked && !self.paused
    }
}

/// Something that happens to a gate.
pub enum GateStep {
    Freeze,
    Resume,
    Input(Event),
}

pub open spec fn gate_after(gate: GateView, step: GateStep) -> GateView {
    match step {
        GateStep::Freeze => frozen(gate),
        GateStep::Resume => GateView { paused: false, ..gate },
        GateStep::Input(event) => passed(gate, event).0,
    }
}

pub open spec fn gate_after_all(gate: GateView, steps: Seq<GateStep>) -> GateView
    decreases steps.len(),
{
    if steps.len() == 0 {
        gate
    } else {
        gate_after(gate_after_all(gate, steps.drop_last()), steps.last())
    }
}

/// Nothing passes a gate that is paused.
pub proof fn law_a_paused_gate_passes_nothing(gate: GateView, event: Event)
    requires
        gate.paused,
    ensures
        passed(gate, event).1 is None,
        passed(gate, event).0.paused,
{
}

/// What passes is the event itself, or a modifier snapshot with some of its bits taken out.
pub proof fn law_nothing_is_invented(gate: GateView, event: Event)
    ensures
        match (event, passed(gate, event).1) {
            (_, None) => true,
            (
                Event::Keyboard(
                    KeyboardEvent::Modifiers { depressed: a, latched: b, locked: c, group: g },
                ),
                Some(after),
            ) => after matches Event::Keyboard(
                KeyboardEvent::Modifiers { depressed: x, latched: y, locked: z, group: h },
            ) && x & a == x && y & b == y && z & c == z && g == h,
            (_, Some(after)) => after == event,
        },
{
    if let Event::Keyboard(
        KeyboardEvent::Modifiers { depressed, latched, locked, group },
    ) = event {
        let next = passed(gate, event).0.blocked_modifiers;
        let (x, y, z) = (next.depressed, next.latched, next.locked);
        assert((depressed & !x) & depressed == depressed & !x) by (bit_vector);
        assert((latched & !y) & latched == latched & !y) by (bit_vector);
        assert((locked & !z) & locked == locked & !z) by (bit_vector);
    }
}

/// A key or a button that is blocked, as everything that is down at a freeze is, never passes
/// before it was physically released, whatever else happens.
pub proof fn law_blocked_switches_wait_for_their_release(
    gate: GateView,
    steps: Seq<GateStep>,
    key: u64,
)
    requires
        gate.blocked.contains(key),
        forall|i: int|
            0 <= i < steps.len() ==> (#[trigger] steps[i]) is Input ==> switch_of(steps[i]->0)
                != Some((key, 0u32)),
    ensures
        gate_after_all(gate, steps).blocked.contains(key),
        forall|event: Event|
            switch_of(event) is Some && (switch_of(event)->0).0 == key ==> (#[trigger] passed(
                gate_after_all(gate, steps),
                event,
            )).1 is None,
    decreases steps.len(),
{
    if steps.len() > 0 {
        let front = steps.drop_last();
        assert forall|i: int|
            0 <= i < front.len() && (#[trigger] front[i]) is Input implies switch_of(front[i]->0)
            != Some((key, 0u32)) by {
            assert(front[i] == steps[i]);
        }
        law_blocked_switches_wait_for_their_release(gate, front, key);
        let last = steps[steps.len() - 1];
        if last is Input {
            assert(switch_of(last->0) != Some((key, 0u32)));
        }
    }
}

/// What is down at a freeze is blocked by it, and so is what goes down before input resumes.
pub proof fn law_a_freeze_blocks_what_is_down(gate: GateView, event: Event)
    ensures
        forall|key: u64| gate.held.contains(key) ==> frozen(gate).blocked.contains(key),
        gate.paused && switch_of(event) is Some && (switch_of(event)->0).1 != 0 ==> passed(
            gate,
            event,
        ).0.blocked.contains((switch_of(event)->0).0),
{
}

/// Once released, a key or a button passes again while input is not paused.
pub proof fn law_a_release_unblocks(gate: GateView, release: Event, press: Event)
    requires
        !gate.paused,
        switch_of(release) is Some,
        (switch_of(release)->0).1 == 0,
        switch_of(press) is Some,
        (switch_of(press)->0).0 == (switch_of(release)->0).0,
    ensures
        passed(passed(gate, release).0, press).1 == Some(press),
{
}

proof fn lemma_level(blocked: u32, current: u32, paused: bool, bit: u32)
    requires
        blocked & bit == bit,
        current & bit == bit,
    ensures
        still_blocked(blocked, current, paused) & bit == bit,
        (current & !still_blocked(blocked, current, paused)) & bit == 0,
{
    assert((blocked & current) & bit == bit && ((blocked & current) | current) & bit == bit && (
    current & !(blocked & current)) & bit == 0 && (current & !((blocked & current) | current)) & bit
        == 0) by (bit_vector)
        requires
            blocked & bit == bit,
            current & bit == bit,
    ;
}

/// Modifier bits that are blocked never pass before a snapshot came without them, on any of the
/// three levels.
pub proof fn law_blocked_modifiers_wait_for_their_release(
    gate: GateView,
    now: Levels,
    group: u32,
    bit: u32,
)
    ensures
        ({
            let event = Event::Keyboard(
                KeyboardEvent::Modifiers {
                    depressed: now.depressed,
                    latched: now.latched,
                    locked: now.locked,
                    group,
                },
            );
            let blocked = gate.blocked_modifiers;
            let (next, out) = passed(gate, event);
            &&& blocked.depressed & bit == bit && now.depressed & bit == bit ==> {
                &&& next.blocked_modifiers.depressed & bit == bit
                &&& out matches Some(
                    Event::Keyboard(KeyboardEvent::Modifiers { depressed: shown, .. }),
                ) ==> shown & bit == 0
            }
            &&& blocked.latched & bit == bit && now.latched & bit == bit ==> {
                &&& next.blocked_modifiers.latched & bit == bit
                &&& out matches Some(
                    Event::Keyboard(KeyboardEvent::Modifiers { latched: shown, .. }),
                ) ==> shown & bit == 0
            }
            &&& blocked.locked & bit == bit && now.locked & bit == bit ==> {
                &&& next.blocked_modifiers.locked & bit == bit
                &&& out matches Some(
                    Event::Keyboard(KeyboardEvent::Modifiers { locked: shown, .. }),
                ) ==> shown & bit == 0
            }
        }),
{
    let blocked = gate.blocked_modifiers;
    if blocked.depressed & bit == bit && now.depressed & bit == bit {
        lemma_level(blocked.depressed, now.depressed, gate.paused, bit);
    }
    if blocked.latched & bit == bit && now.latched & bit == bit {
        lemma_level(blocked.latched, now.latched, gate.paused, bit);
    }
    if blocked.locked & bit == bit && now.locked & bit == bit {
        lemma_level(blocked.locked, now.locked, gate.paused, bit);
    }
}

/// After a freeze, scrolling that coasts is held back until the user scrolls again.
pub proof fn law_stale_momentum_is_held_back(
    gate: GateView,
    time: u32,
    axis: u8,
    value: u64,
    momentum: bool,
)
    requires
        gate.stale_momentum,
    ensures
        ({
            let event = Event::Pointer(PointerEvent::Axis { time, axis, value, momentum });
            let (next, out) = passed(gate, event);
            &&& momentum ==> out is None && next.stale_momentum
            &&& !momentum && !gate.paused ==> out == Some(event) && !next.stale_momentum
        }),
{
}

/// While the filter is not paused, motion, wheel clicks and clipboard changes pass as they are and leave
/// the filter as it is. A key or a button passes as it is unless it is blocked, and continuous scrolling
/// does unless it coasts while momentum is stale.
pub proof fn law_an_open_gate_passes_events(gate: &mut PhysicalGate, event: Event, r: Option<Event>)
    requires
        call_ensures(PhysicalGate::filter, (gate, event), r),
        !old(gate)@.paused,
    ensures
        match event {
            Event::Pointer(PointerEvent::Motion { .. })
            | Event::Pointer(PointerEvent::AxisDiscrete120 { .. })
            | Event::Clipboard => r == Some(event) && final(gate)@ == old(gate)@,
            Event::Pointer(PointerEvent::Axis { momentum, .. }) => {
                &&& r == Some(event) <==> !(momentum && old(gate)@.stale_momentum)
                &&& r is None <==> momentum && old(gate)@.stale_momentum
            },
            Event::Keyboard(KeyboardEvent::Key { key, .. }) => {
                &&& r == Some(event) <==> !old(gate)@.blocked.contains(key as u64)
                &&& r is None <==> old(gate)@.blocked.contains(key as u64)
            },
            Event::Pointer(PointerEvent::Button { button, .. }) => {
                let code = (0x1_0000_0000 + button) as u64;
                &&& r == Some(event) <==> !old(gate)@.blocked.contains(code)
                &&& r is None <==> old(gate)@.blocked.contains(code)
            },
            Event::Keyboard(KeyboardEvent::Modifiers { .. }) => r is Some,
        },
{
}

/// A modifier snapshot that passes shows exactly those of its bits that are not blocked, on each of its
/// three levels, and keeps its group.
pub proof fn law_snapshots_show_what_is_not_blocked(
    gate: &mut PhysicalGate,
    now: Levels,
    group: u32,
    r: Option<Event>,
)
    requires
        ({
            let event = Event::Keyboard(
                KeyboardEvent::Modifiers {
                    depressed: now.depressed,
                    latched: now.latched,
                    locked: now.locked,
                    group,
                },
            );
            call_ensures(PhysicalGate::filter, (gate, event), r)
        }),
        !old(gate)@.paused,
    ensures
        r == Some(
            Event::Keyboard(
                KeyboardEvent::Modifiers {
                    depressed: now.depressed & !old(gate)@.blocked_modifiers.depressed,
                    latched: now.latched & !old(gate)@.blocked_modifiers.latched,
                    locked: now.locked & !old(gate)@.blocked_modifiers.locked,
                    group,
                },
            ),
        ),
{
    let b = old(gate)@.blocked_modifiers;
    let (x, y, z) = (now.depressed, now.latched, now.locked);
    let (p, q, s) = (b.depressed, b.latched, b.locked);
    assert(x & !(p & x) == x & !p) by (bit_vector);
    assert(y & !(q & y) == y & !q) by (bit_vector);
    assert(z & !(s & z) == z & !s) by (bit_vector);
}

/// The filter knows what is down: a key or a button is, after an event of its own that is no release, and
/// is not after its release; every other one is as it was. A release takes a block off, and nothing
/// else does; a press puts one on exactly while the filter is paused.
pub proof fn law_the_gate_follows_the_switches(
    gate: &mut PhysicalGate,
    event: Event,
    other: u64,
    r: Option<Event>,
)
    requires
        call_ensures(PhysicalGate::filter, (gate, event), r),
    ensures
        final(gate)@.paused == old(gate)@.paused,
        old(gate)@.paused ==> r is None,
        event matches Event::Keyboard(KeyboardEvent::Key { key, state, .. }) ==> {
            &&& final(gate)@.held.contains(key as u64) <==> state != 0
            &&& final(gate)@.blocked.contains(key as u64) <==> state != 0 && (
            old(gate)@.blocked.contains(key as u64) || old(gate)@.paused)
        },
        event matches Event::Pointer(PointerEvent::Button { button, state, .. }) ==> {
            let code = (0x1_0000_0000 + button) as u64;
            &&& final(gate)@.held.contains(code) <==> state != 0
            &&& final(gate)@.blocked.contains(code) <==> state != 0 && (
            old(gate)@.blocked.contains(code) || old(gate)@.paused)
        },
        !(event matches Event::Keyboard(KeyboardEvent::Key { key, .. }) && key == other) && !(
        event matches Event::Pointer(PointerEvent::Button { button, .. }) && 0x1_0000_0000 + button
            == other) ==> {
            &&& final(gate)@.held.contains(other) <==> old(gate)@.held.contains(other)
            &&& final(gate)@.blocked.contains(other) <==> old(gate)@.blocked.contains(other)
        },
{
}

/// The filter remembers the latest modifier snapshot, and only a snapshot changes what it knows of
/// modifiers. A bit stays blocked exactly if it is still reported and was blocked, or is reported while
/// the filter is paused. Momentum is stale until the user scrolls while the filter is not paused.
pub proof fn law_the_gate_follows_modifiers_and_momentum(
    gate: &mut PhysicalGate,
    event: Event,
    r: Option<Event>,
)
    requires
        call_ensures(PhysicalGate::filter, (gate, event), r),
    ensures
        match event {
            Event::Keyboard(KeyboardEvent::Modifiers { depressed, latched, locked, .. }) => {
                let (before, after) = (old(gate)@.blocked_modifiers, final(gate)@.blocked_modifiers);
                let paused = old(gate)@.paused;
                &&& final(gate)@.modifiers == Levels { depressed, latched, locked }
                &&& paused ==> after == Levels { depressed, latched, locked }
                &&& !paused ==> after.depressed == before.depressed & depressed && after.latched
                    == before.latched & latched && after.locked == before.locked & locked
            },
            _ => final(gate)@.modifiers == old(gate)@.modifiers
                && final(gate)@.blocked_modifiers == old(gate)@.blocked_modifiers,
        },
        final(gate)@.stale_momentum <==> old(gate)@.stale_momentum && (old(gate)@.paused || !(
        event matches Event::Pointer(PointerEvent::Axis { momentum, .. }) && !momentum)),
{
    if let Event::Keyboard(KeyboardEvent::Modifiers { depressed, latched, locked, .. }) = event {
        let b = old(gate)@.blocked_modifiers;
        let (p, q, s) = (b.depressed, b.latched, b.locked);
        assert((p & depressed) | depressed == depressed) by (bit_vector);
        assert((q & latched) | latched == latched) by (bit_vector);
        assert((s & locked) | locked == locked) by (bit_vector);
    }
}

/// A freeze pauses the filter, makes momentum stale, and blocks what is down on top of what was blocked.
/// What the filter knows of keys, buttons and modifiers stays.
pub proof fn law_a_freeze_holds_everything_back(gate: &mut PhysicalGate)
    requires
        call_ensures(PhysicalGate::freeze, (gate,), ()),
    ensures
        final(gate)@.paused,
        final(gate)@.stale_momentum,
        forall|key: u64|
            final(gate)@.blocked.contains(key) <==> old(gate)@.blocked.contains(key)
                || old(gate)@.held.contains(key),
        final(gate)@.held == old(gate)@.held,
        final(gate)@.modifiers == old(gate)@.modifiers,
        final(gate)@.blocked_modifiers == old(gate)@.modifiers,
{
}

/// Resuming takes the pause off and nothing else.
pub proof fn law_resuming_keeps_the_blocks(gate: &mut PhysicalGate)
    requires
        call_ensures(PhysicalGate::resume, (gate,), ()),
    ensures
        !final(gate)@.paused,
        final(gate)@.held == old(gate)@.held,
        final(gate)@.blocked == old(gate)@.blocked,
        final(gate)@.modifiers == old(gate)@.modifiers,
        final(gate)@.blocked_modifiers == old(gate)@.blocked_modifiers,
        final(gate)@.stale_momentum == old(gate)@.stale_momentum,
{
}

/// A new gate passes every event as it is.
pub proof fn law_a_new_gate_passes_everything(
    new: PhysicalGate,
    gate: &mut PhysicalGate,
    event: Event,
    r: Option<Event>,
)
    requires
        call_ensures(<PhysicalGate as Default>::default, (), new),
        *old(gate) == new,
        call_ensures(PhysicalGate::filter, (gate, event), r),
    ensures
        r == Some(event),
{
    if let Event::Keyboard(KeyboardEvent::Modifiers { depressed, latched, locked, .. }) = event {
        assert(depressed & !(0u32 & depressed) == depressed) by (bit_vector);
        assert(latched & !(0u32 & latched) == latched) by (bit_vector);
        assert(locked & !(0u32 & locked) == locked) by (bit_vector);
    }
}

} // verus!
