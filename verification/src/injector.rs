//! Injects remote keyboard input while keeping the injected state consistent.
//!
//! The state machine tracks what macOS has been told, releases exactly those
//! keys, and stops injecting new ordinary keys once the IOHID path has
//! failed, so a half-applied shortcut is never replayed and no key is left
//! down.

use crate::keyboard::{lemma_positions, side_at};
use crate::keyboard::{
    category, desired_sides, flags_below, flags_for, flags_of, local_part, locally_held_flags,
    press_steps, reached, release_steps, steps_between, steps_view, transitions, wanted, Injection,
    InjectionPath, KeyCategory, ModifierKinds, ModifierSide, ModifierSides, MANAGED_FLAG_MASKS,
};
use crate::text::{decimal, put_decimal};
use std::collections::BTreeSet;
use vstd::prelude::*;
use vstd::std_specs::cmp::OrdSpec;
use vstd::std_specs::iter::IteratorSpec;

verus! {

broadcast use {vstd::std_specs::btree::group_btree_axioms, crate::keyboard::sides_extensional};

/// The macOS-facing half of the injector.
pub trait KeySink {
    /// The path this sink can carry keyboard events on.
    fn preferred_path(&self) -> InjectionPath;

    /// Posts one injection, returning the raw platform status on failure.
    fn inject(&self, path: InjectionPath, injection: Injection) -> Result<(), i32>;
}

/// Input this backend injected and has not confirmed released.
#[derive(Clone, Copy, Debug, PartialEq, Eq, Structural)]
pub struct CleanupResidue {
    /// How many ordinary keys are still recorded as pressed.
    pub pressed_keys: usize,
    /// Modifier sides still recorded as held.
    pub modifier_sides: ModifierSides,
}

impl CleanupResidue {
    /// Whether cleanup confirmed every injected input was released.
    pub fn is_empty(self) -> (r: bool)
        ensures
            r == (self.pressed_keys == 0 && self.modifier_sides@ == Set::<ModifierSide>::empty()),
    {
        self.pressed_keys == 0 && self.modifier_sides.is_empty()
    }
}

/// The modifier snapshot state that was last logged.
///
/// Comparing whole snapshots keeps diagnostics on "state changed" events
/// only: repeated identical snapshots (every keystroke without modifiers)
/// stay silent.
#[derive(Clone, Copy, Debug, PartialEq, Eq, Structural)]
pub struct SnapshotLog {
    /// The aggregate state the remote reported.
    pub kinds: ModifierKinds,
    /// The sides the event stream identified.
    pub known: ModifierSides,
    /// The window server's combined state; includes this backend's own
    /// injections, so it is observed state, not purely physical keys.
    pub observed_flags: u32,
    /// The sides macOS has been told are down.
    pub injected_sides: ModifierSides,
    /// The flags the last successful injection published.
    pub posted_flags: u32,
}

/// What the injector has told macOS and what it makes of it.
#[derive(Clone, Debug)]
pub struct InjectorState {
    /// Path currently used for new injections.
    pub path: InjectionPath,
    /// Sides macOS has been told are down.
    pub held_sides: ModifierSides,
    /// Modifier flags the remote snapshot is responsible for.
    pub remote_flags: u32,
    /// Flags the last successful injection published.
    pub post_flags: u32,
    /// Modifier flags the local session reported at the last snapshot.
    pub local_flags: u32,
    /// Ordinary keys injected down and not released yet.
    pub pressed_keys: BTreeSet<u16>,
    /// Set when the IOHID path failed while input is still recorded, which
    /// keeps new presses out until the recorded input is released.
    pub degraded: bool,
    /// Ordinary presses dropped while degraded, for rate limited logging.
    pub dropped_presses: u64,
    /// The last snapshot written to diagnostics, to suppress repeats.
    pub last_snapshot_log: Option<SnapshotLog>,
}

/// An [`InjectorState`] as contracts speak of it.
#[verifier::ext_equal]
pub struct Board {
    pub path: InjectionPath,
    pub held: Set<ModifierSide>,
    pub remote_flags: u32,
    pub post_flags: u32,
    pub local_flags: u32,
    pub pressed: Set<u16>,
    pub degraded: bool,
    pub dropped: u64,
    pub logged: Option<SnapshotLog>,
}

impl Board {
    /// Nothing that was injected is still recorded as down.
    pub open spec fn clean(self) -> bool {
        self.pressed.is_empty() && self.held == Set::<ModifierSide>::empty()
    }

    /// Only the IOHID path is ever given up.
    pub open spec fn sound(self) -> bool {
        self.degraded ==> self.path == InjectionPath::Nx
    }

    /// An attempt on a path went this way.
    pub open spec fn tried(self, path: InjectionPath, outcome: Result<(), i32>) -> Board {
        if outcome is Err && path == InjectionPath::Nx {
            Board { degraded: true, ..self }
        } else {
            self
        }
    }

    /// A failed IOHID path is replaced by the fallback once nothing injected is still held.
    pub open spec fn settled(self) -> Board {
        if self.degraded && self.path == InjectionPath::Nx && self.clean() {
            Board { path: InjectionPath::CgEvent, degraded: false, dropped: 0, ..self }
        } else {
            self
        }
    }

    /// The snapshot of this state that diagnostics would show.
    pub open spec fn snapshot(
        self,
        kinds: ModifierKinds,
        known: ModifierSides,
        entry: SnapshotLog,
    ) -> bool {
        &&& entry.kinds == kinds
        &&& entry.known == known
        &&& entry.observed_flags == self.local_flags
        &&& entry.injected_sides@ == self.held
        &&& entry.posted_flags == self.post_flags
    }
}

impl InjectorState {
    pub open spec fn board(self) -> Board {
        Board {
            path: self.path,
            held: self.held_sides@,
            remote_flags: self.remote_flags,
            post_flags: self.post_flags,
            local_flags: self.local_flags,
            pressed: self.pressed_keys@,
            degraded: self.degraded,
            dropped: self.dropped_presses,
            logged: self.last_snapshot_log,
        }
    }

    /// Nothing was injected yet.
    pub fn new(path: InjectionPath) -> (r: InjectorState)
        ensures
            r.board() == (Board {
                path,
                held: Set::empty(),
                remote_flags: 0,
                post_flags: 0,
                local_flags: 0,
                pressed: Set::empty(),
                degraded: false,
                dropped: 0,
                logged: None,
            }),
    {
        InjectorState {
            path,
            held_sides: ModifierSides::default(),
            remote_flags: 0,
            post_flags: 0,
            local_flags: 0,
            pressed_keys: BTreeSet::new(),
            degraded: false,
            dropped_presses: 0,
            last_snapshot_log: None,
        }
    }

    fn note_attempt(&mut self, path: InjectionPath, failed: bool)
        ensures
            final(self).board() == (if failed && path == InjectionPath::Nx {
                Board { degraded: true, ..old(self).board() }
            } else {
                old(self).board()
            }),
    {
        if failed && path == InjectionPath::Nx {
            self.degraded = true;
        }
    }

    /// Replaces a failed IOHID path with the fallback once nothing injected is
    /// still held.
    ///
    /// The failed path is not retried mid-session: a half-applied shortcut
    /// must not be replayed, so the switch happens only from a clean state.
    fn settle(&mut self)
        ensures
            final(self).board() == old(self).board().settled(),
    {
        if !self.degraded || self.path != InjectionPath::Nx {
            return ;
        }
        if !self.pressed_keys.is_empty() || !self.held_sides.is_empty() {
            return ;
        }
        self.path = InjectionPath::CgEvent;
        self.degraded = false;
        self.dropped_presses = 0;
    }

    /// Records a press that was dropped because the path failed.
    fn drop_press(&mut self)
        requires
            old(self).dropped_presses < u64::MAX,
        ensures
            final(self).board() == (Board {
                dropped: (old(self).dropped_presses + 1) as u64,
                ..old(self).board()
            }),
    {
        self.dropped_presses = self.dropped_presses + 1;
    }
}

/// Returns whether this snapshot differs from the last logged one, recording
/// it either way so unchanged snapshots stay silent.
pub fn snapshot_changed(state: &mut InjectorState, entry: SnapshotLog) -> (r: bool)
    ensures
        r == (old(state).last_snapshot_log != Some(entry)),
        final(state).board() == (Board { logged: Some(entry), ..old(state).board() }),
{
    let same = match state.last_snapshot_log {
        Some(previous) => previous == entry,
        None => false,
    };
    state.last_snapshot_log = Some(entry);
    !same
}

/// Whether a dropped press is reported: the first one, and then every 64th.
pub fn drop_is_reported(dropped_presses: u64) -> (r: bool)
    ensures
        r == (dropped_presses == 1 || dropped_presses % 64 == 0),
{
    dropped_presses == 1 || dropped_presses % 64 == 0
}

/// Whether a submitted event is reported. Ordinary keys stay silent so normal typing never floods
/// the log.
pub fn submission_is_reported(injection: Injection) -> (r: bool)
    ensures
        r == (match injection {
            Injection::Modifiers { .. } => true,
            Injection::Key { key_code, .. } => category(key_code) != KeyCategory::Ordinary,
        }),
{
    match injection {
        Injection::Modifiers { .. } => true,
        Injection::Key { key_code, .. } => crate::keyboard::categorize(key_code)
            != KeyCategory::Ordinary,
    }
}

/// The `path_degraded` diagnostics line.
pub open spec fn degradation_text(session: u64, dropped: u64) -> Seq<char> {
    "event=path_degraded session="@ + decimal(session as nat)
        + " reason=iohid_injection_failure new_path=cgevent dropped_presses_total="@ + decimal(
        dropped as nat,
    )
        + " recovery_condition=every_injected_key_and_modifier_released iohid_retry=only_in_a_new_backend_session note=cgevent_types_but_does_not_guarantee_macos_system_shortcuts"@
}

/// The `path_degraded` diagnostics line.
///
/// `dropped` is the total number of presses held back while the failed path
/// was cleaned up. The notice names the recovery condition and never claims
/// the fallback is incapable of system shortcuts: `CGEvent` is simply not
/// guaranteed to trigger them.
pub fn degradation_message(session: u64, dropped: u64) -> (r: String)
    ensures
        r@ == degradation_text(session, dropped),
{
    let mut text = String::new();
    text.append("event=path_degraded session=");
    put_decimal(&mut text, session);
    text.append(" reason=iohid_injection_failure new_path=cgevent dropped_presses_total=");
    put_decimal(&mut text, dropped);
    text.append(
        " recovery_condition=every_injected_key_and_modifier_released iohid_retry=only_in_a_new_backend_session note=cgevent_types_but_does_not_guarantee_macos_system_shortcuts",
    );
    assert(text@ =~= degradation_text(session, dropped));
    text
}

/// `keys` lists the set in ascending order.
pub open spec fn lists(keys: Seq<u16>, set: Set<u16>) -> bool {
    &&& forall|i: int, j: int| 0 <= i < j < keys.len() ==> keys[i] < keys[j]
    &&& keys.to_set() == set
}

/// References to keys are ordered as the keys are.
proof fn lemma_key_order()
    ensures
        vstd::laws_cmp::obeys_cmp::<&u16>(),
{
    broadcast use vstd::laws_eq::group_laws_eq;

    reveal(vstd::laws_eq::obeys_eq_spec_properties);
    reveal(vstd::laws_cmp::obeys_partial_cmp_spec_properties);
    reveal(vstd::laws_cmp::obeys_cmp_partial_ord);
    reveal(vstd::laws_cmp::obeys_cmp_ord);
    assert(vstd::laws_eq::obeys_eq::<&u16>());
}

/// The members of a set in ascending order.
fn ascending(set: &BTreeSet<u16>) -> (r: Vec<u16>)
    ensures
        lists(r@, set@),
{
    let mut keys: Vec<u16> = Vec::new();
    let ghost all = vstd::std_specs::btree::spec_btree_keys_iter(set).remaining();
    for key in listed: set.iter()
        invariant
            listed.seq() == all,
            keys@.len() == listed.index(),
            forall|i: int| 0 <= i < keys@.len() ==> keys@[i] == *#[trigger] all[i],
    {
        keys.push(*key);
    }
    proof {
        assert(keys@ =~= all.unref());
        lemma_key_order();
        assert forall|i: int, j: int| 0 <= i < j < keys@.len() implies keys@[i] < keys@[j] by {
            let (a, b) = (all[i], all[j]);
            assert(vstd::std_specs::btree::increasing_seq(all));
            assert(OrdSpec::cmp_spec(&a, &b) is Less);
        }
    }
    keys
}

/// One injection handed to the sink, and what came of it.
pub struct Attempt {
    pub path: InjectionPath,
    pub injection: Injection,
    pub outcome: Result<(), i32>,
}

/// How many attempts a release takes that begins this way.
pub open spec fn release_attempts(path: InjectionPath, log: Seq<Attempt>) -> int {
    if log[0].outcome is Err && path == InjectionPath::Nx {
        2
    } else {
        1
    }
}

/// These attempts are one release: the first on the given path, and a second one through the
/// fallback where the IOHID path failed.
pub open spec fn is_release(path: InjectionPath, injection: Injection, log: Seq<Attempt>) -> bool {
    &&& log.len() >= 1
    &&& log.len() == release_attempts(path, log)
    &&& log[0].path == path
    &&& log[0].injection == injection
    &&& log.len() == 2 ==> log[1].path == InjectionPath::CgEvent && log[1].injection == injection
}

pub open spec fn key_event(key_code: u16, down: bool, cg_flags: u32) -> Injection {
    Injection::Key { key_code, down, cg_flags }
}

/// A key is forgotten where its release went through.
pub open spec fn key_freed(
    before: Board,
    path: InjectionPath,
    key_code: u16,
    log: Seq<Attempt>,
) -> Board {
    let tried = before.tried(path, log[0].outcome);
    if log.last().outcome is Ok {
        Board { pressed: tried.pressed.remove(key_code), ..tried }
    } else {
        tried
    }
}

/// A key is pressed on the current path; while degraded, the press is dropped.
pub open spec fn key_pressed(before: Board, key_code: u16, log: Seq<Attempt>, after: Board) -> bool {
    if before.degraded {
        &&& log.len() == 0
        &&& after == (Board { dropped: (before.dropped + 1) as u64, ..before })
    } else {
        &&& log.len() == 1
        &&& log[0].path == before.path
        &&& log[0].injection == key_event(key_code, true, before.post_flags)
        &&& after == if log[0].outcome is Ok {
            Board { pressed: before.pressed.insert(key_code), ..before }
        } else {
            before.tried(before.path, log[0].outcome)
        }
    }
}

/// A key is released on the current path.
pub open spec fn key_raised(
    before: Board,
    key_code: u16,
    log: Seq<Attempt>,
    r: Result<(), i32>,
    after: Board,
) -> bool {
    &&& is_release(before.path, key_event(key_code, false, before.post_flags), log)
    &&& r == log.last().outcome
    &&& after == key_freed(before, before.path, key_code, log).settled()
}

/// Caps Lock is pressed and released; while degraded, the tap is dropped. A tap whose release fails
/// stays recorded as a pressed key.
pub open spec fn caps_tapped(
    before: Board,
    key_code: u16,
    log: Seq<Attempt>,
    r: Result<(), i32>,
    after: Board,
) -> bool {
    if before.degraded {
        &&& log.len() == 0
        &&& after == (Board { dropped: (before.dropped + 1) as u64, ..before })
        &&& r is Ok
    } else {
        &&& log.len() >= 1
        &&& log[0].path == before.path
        &&& log[0].injection == key_event(key_code, true, before.post_flags)
        &&& if log[0].outcome is Err {
            &&& log.len() == 1
            &&& after == before.tried(before.path, log[0].outcome)
            &&& r is Ok
        } else {
            let up = log.skip(1);
            let tried = before.tried(before.path, up[0].outcome);
            &&& is_release(before.path, key_event(key_code, false, before.post_flags), up)
            &&& r == up.last().outcome
            &&& after == (if r is Err {
                Board { pressed: tried.pressed.insert(key_code), ..tried }
            } else {
                tried
            }).settled()
        }
    }
}

/// The keys are released one after the other.
pub open spec fn keys_released(
    before: Board,
    path: InjectionPath,
    keys: Seq<u16>,
    log: Seq<Attempt>,
    after: Board,
) -> bool
    decreases keys.len(),
{
    if keys.len() == 0 {
        log.len() == 0 && after == before
    } else {
        let n = release_attempts(path, log);
        let first = log.take(n);
        &&& n <= log.len()
        &&& is_release(path, key_event(keys[0], false, before.post_flags), first)
        &&& keys_released(
            key_freed(before, path, keys[0], first),
            path,
            keys.skip(1),
            log.skip(n),
            after,
        )
    }
}

/// The sides are released one after the other, each with the flags of what is held after it; what
/// could not be released is added to `stuck`, which ends as `left`.
pub open spec fn sides_released(
    before: Board,
    path: InjectionPath,
    local: u32,
    steps: Seq<(ModifierSide, Set<ModifierSide>)>,
    stuck: Set<ModifierSide>,
    log: Seq<Attempt>,
    after: Board,
    left: Set<ModifierSide>,
) -> bool
    decreases steps.len(),
{
    if steps.len() == 0 {
        log.len() == 0 && after == before && left == stuck
    } else {
        let n = release_attempts(path, log);
        let first = log.take(n);
        let (side, held) = steps[0];
        let flags = local | flags_of(held);
        let tried = before.tried(path, log[0].outcome);
        &&& n <= log.len()
        &&& is_release(path, Injection::Modifiers { key_code: side.code(), flags }, first)
        &&& if first.last().outcome is Ok {
            sides_released(
                Board { remote_flags: flags_of(held), post_flags: flags, ..tried },
                path,
                local,
                steps.skip(1),
                stuck,
                log.skip(n),
                after,
                left,
            )
        } else {
            sides_released(
                tried,
                path,
                local,
                steps.skip(1),
                stuck.insert(side),
                log.skip(n),
                after,
                left,
            )
        }
    }
}

/// The transitions are posted one after the other, each with the flags of what is held after it,
/// up to the first that fails.
pub open spec fn steps_posted(
    before: Board,
    local: u32,
    steps: Seq<(ModifierSide, Set<ModifierSide>)>,
    log: Seq<Attempt>,
    after: Board,
) -> bool
    decreases steps.len(),
{
    if steps.len() == 0 {
        log.len() == 0 && after == before
    } else {
        let (side, held) = steps[0];
        let flags = local | flags_of(held);
        &&& log.len() >= 1
        &&& log[0].path == before.path
        &&& log[0].injection == Injection::Modifiers { key_code: side.code(), flags }
        &&& if log[0].outcome is Ok {
            steps_posted(
                Board { held, remote_flags: flags_of(held), post_flags: flags, ..before },
                local,
                steps.skip(1),
                log.skip(1),
                after,
            )
        } else {
            log.len() == 1 && after == before.tried(before.path, log[0].outcome)
        }
    }
}

/// Everything that was injected is released: the keys in ascending order, then the modifiers.
pub open spec fn all_released(before: Board, log: Seq<Attempt>, after: Board) -> bool {
    exists|keys: Seq<u16>, n: int, mid: Board, last: Board, left: Set<ModifierSide>|
        {
            &&& lists(keys, before.pressed)
            &&& 0 <= n <= log.len()
            &&& #[trigger] keys_released(before, before.path, keys, log.take(n), mid)
            &&& #[trigger] sides_released(
                mid,
                before.path,
                local_part(mid.local_flags, mid.remote_flags),
                steps_between(mid.held, Set::empty()),
                Set::empty(),
                log.skip(n),
                last,
                left,
            )
            &&& after == (Board { held: left, ..last }).settled()
        }
}

/// The remote modifier snapshot is published as far as the sink takes it.
pub open spec fn snapshot_published(
    before: Board,
    aggregate: ModifierKinds,
    known: Set<ModifierSide>,
    local_flags: u32,
    log: Seq<Attempt>,
    after: Board,
) -> bool {
    exists|mid: Board|
        {
            &&& #[trigger] steps_posted(
                Board { local_flags, ..before },
                local_part(local_flags, before.remote_flags),
                steps_between(before.held, wanted(aggregate, known)),
                log,
                mid,
            )
            &&& after == mid.settled()
        }
}

/// Injects remote keyboard input on macOS while keeping the injected state
/// consistent.
///
/// The state machine tracks what macOS has been told, releases exactly those
/// keys, and stops injecting new ordinary keys once the IOHID path has
/// failed, so a half-applied shortcut is never replayed and no key is left
/// down.
pub struct KeyboardInjector<S: KeySink> {
    sink: S,
    state: InjectorState,
    /// Stable diagnostic identifier for this backend instance.
    session: u64,
    log: Ghost<Seq<Attempt>>,
}

impl<S: KeySink> KeyboardInjector<S> {
    pub closed spec fn sink(&self) -> S {
        self.sink
    }

    pub closed spec fn id(&self) -> u64 {
        self.session
    }

    pub closed spec fn board(&self) -> Board {
        self.state.board()
    }

    /// Every injection handed to the sink so far, in order.
    pub closed spec fn attempts(&self) -> Seq<Attempt> {
        self.log@
    }

    /// Every recorded outcome is one that the sink gave.
    pub open spec fn genuine(&self) -> bool {
        forall|i: int|
            0 <= i < self.attempts().len() ==> {
                let attempt = #[trigger] self.attempts()[i];
                call_ensures(
                    S::inject,
                    (&self.sink(), attempt.path, attempt.injection),
                    attempt.outcome,
                )
            }
    }

    /// What was handed to the sink since.
    pub open spec fn since(&self, earlier: &KeyboardInjector<S>) -> Seq<Attempt> {
        self.attempts().skip(earlier.attempts().len() as int)
    }

    /// The same injector later: the sink, the session and the past stay.
    pub open spec fn follows(&self, earlier: &KeyboardInjector<S>) -> bool {
        &&& self.sink() == earlier.sink()
        &&& self.id() == earlier.id()
        &&& self.attempts() == earlier.attempts() + self.since(earlier)
        &&& earlier.genuine() ==> self.genuine()
    }

    /// Creates an injector that posts through `sink`. `session` identifies this backend instance
    /// in diagnostics.
    pub fn new(sink: S, session: u64) -> (r: Self)
        ensures
            r.sink() == sink,
            r.id() == session,
            r.attempts().len() == 0,
            r.genuine(),
            call_ensures(S::preferred_path, (&sink,), r.board().path),
            r.board() == (Board {
                path: r.board().path,
                held: Set::empty(),
                remote_flags: 0,
                post_flags: 0,
                local_flags: 0,
                pressed: Set::empty(),
                degraded: false,
                dropped: 0,
                logged: None,
            }),
    {
        let path = sink.preferred_path();
        KeyboardInjector::with_state(sink, session, InjectorState::new(path))
    }

    /// Creates an injector that takes over what was told macOS before.
    pub fn with_state(sink: S, session: u64, state: InjectorState) -> (r: Self)
        ensures
            r.sink() == sink,
            r.id() == session,
            r.attempts().len() == 0,
            r.genuine(),
            r.board() == state.board(),
    {
        KeyboardInjector { sink, state, session, log: Ghost(Seq::empty()) }
    }

    /// What macOS has been told.
    pub fn state(&self) -> (r: &InjectorState)
        ensures
            r.board() == self.board(),
    {
        &self.state
    }

    /// The stable diagnostic identifier of this backend instance.
    pub fn session(&self) -> (r: u64)
        ensures
            r == self.id(),
    {
        self.session
    }

    /// The path new injections currently use.
    pub fn current_path(&self) -> (r: InjectionPath)
        ensures
            r == self.board().path,
    {
        self.state.path
    }

    /// Input this backend injected and has not confirmed released.
    pub fn pending(&self) -> (r: CleanupResidue)
        ensures
            r.pressed_keys == self.board().pressed.len(),
            r.modifier_sides@ == self.board().held,
    {
        CleanupResidue {
            pressed_keys: self.state.pressed_keys.len(),
            modifier_sides: self.state.held_sides,
        }
    }

    /// Hands one injection to the sink.
    fn attempt(&mut self, path: InjectionPath, injection: Injection) -> (r: Result<(), i32>)
        ensures
            final(self).follows(old(self)),
            final(self).since(old(self)) == seq![Attempt { path, injection, outcome: r }],
            final(self).board() == old(self).board(),
    {
        let outcome = self.sink.inject(path, injection);
        proof {
            let entry = Attempt { path, injection, outcome };
            self.log@ = self.log@.push(entry);
            assert(self.since(old(self)) =~= seq![entry]);
            assert(self.attempts() =~= old(self).attempts() + self.since(old(self)));
        }
        outcome
    }

    /// Posts one injection on the current path.
    fn post(&mut self, injection: Injection) -> (r: Result<(), i32>)
        ensures
            final(self).follows(old(self)),
            final(self).since(old(self)) == seq![
                Attempt { path: old(self).board().path, injection, outcome: r },
            ],
            final(self).board() == old(self).board().tried(old(self).board().path, r),
    {
        let path = self.state.path;
        let outcome = self.attempt(path, injection);
        self.state.note_attempt(path, outcome.is_err());
        outcome
    }

    /// Posts a release, retrying once through the other path so a failure on
    /// the IOHID path cannot leave input stuck.
    ///
    /// Returns the status of the last failed attempt so the caller can
    /// propagate an unrecoverable release instead of pretending the input
    /// was released.
    pub fn release(&mut self, path: InjectionPath, injection: Injection) -> (r: Result<(), i32>)
        ensures
            final(self).follows(old(self)),
            is_release(path, injection, final(self).since(old(self))),
            r == final(self).since(old(self)).last().outcome,
            final(self).board() == old(self).board().tried(
                path,
                final(self).since(old(self))[0].outcome,
            ),
    {
        let outcome = self.attempt(path, injection);
        self.state.note_attempt(path, outcome.is_err());
        if outcome.is_ok() || path != InjectionPath::Nx {
            return outcome;
        }
        let ghost mid = *self;
        let second = self.attempt(InjectionPath::CgEvent, injection);
        proof {
            lemma_since(old(self), &mid, self);
            assert(self.since(old(self)) =~= seq![
                Attempt { path, injection, outcome },
                Attempt { path: InjectionPath::CgEvent, injection, outcome: second },
            ]);
        }
        second
    }
}

impl<S: KeySink> KeyboardInjector<S> {
    /// Injects a key down.
    pub fn key_down(&mut self, key_code: u16)
        requires
            old(self).board().degraded ==> old(self).board().dropped < u64::MAX,
        ensures
            final(self).follows(old(self)),
            key_pressed(
                old(self).board(),
                key_code,
                final(self).since(old(self)),
                final(self).board(),
            ),
    {
        if self.state.degraded {
            self.state.drop_press();
            assert(self.since(old(self)) =~= Seq::empty());
            assert(self.attempts() =~= old(self).attempts() + self.since(old(self)));
            return ;
        }
        let injection = Injection::Key { key_code, down: true, cg_flags: self.state.post_flags };
        if self.post(injection).is_ok() {
            self.state.pressed_keys.insert(key_code);
        }
    }

    /// Injects a key up.
    ///
    /// A key that was never pressed is still released: the peer's key-up is
    /// authoritative, and a release can never create a stuck key.
    ///
    /// A failed release is the one failure this state machine cannot absorb
    /// by dropping input: the user already let the key go, so it is retried
    /// once through the other path and the last failure is propagated to the
    /// caller instead of leaving a phantom press that blocks the session
    /// forever.
    pub fn key_up(&mut self, key_code: u16) -> (r: Result<(), i32>)
        ensures
            final(self).follows(old(self)),
            key_raised(
                old(self).board(),
                key_code,
                final(self).since(old(self)),
                r,
                final(self).board(),
            ),
    {
        let path = self.state.path;
        let injection = Injection::Key { key_code, down: false, cg_flags: self.state.post_flags };
        let released = self.release(path, injection);
        if released.is_ok() {
            self.state.pressed_keys.remove(&key_code);
        }
        self.state.settle();
        released
    }

    /// Turns Caps Lock over once.
    ///
    /// macOS owns the locked state, so this is a real HID tap of the Caps
    /// Lock key; it is not a modifier transition and must never be repeated.
    pub fn caps_tap(&mut self, key_code: u16) -> (r: Result<(), i32>)
        requires
            old(self).board().degraded ==> old(self).board().dropped < u64::MAX,
        ensures
            final(self).follows(old(self)),
            caps_tapped(
                old(self).board(),
                key_code,
                final(self).since(old(self)),
                r,
                final(self).board(),
            ),
    {
        if self.state.degraded {
            self.state.drop_press();
            assert(self.since(old(self)) =~= Seq::empty());
            assert(self.attempts() =~= old(self).attempts() + self.since(old(self)));
            return Ok(());
        }
        let path = self.state.path;
        let down = Injection::Key { key_code, down: true, cg_flags: self.state.post_flags };
        if self.post(down).is_err() {
            // The tap never landed. A press is never replayed after a
            // failure, so this tap is simply dropped like any other press.
            return Ok(());
        }
        let ghost mid = *self;
        let up = Injection::Key { key_code, down: false, cg_flags: self.state.post_flags };
        let released = self.release(path, up);
        proof {
            lemma_since(old(self), &mid, self);
            assert(self.since(old(self)).skip(1) =~= self.since(&mid));
        }
        if released.is_err() {
            // The tap was posted but not released; keep it so cleanup
            // retries the key-up instead of leaving Caps Lock down.
            self.state.pressed_keys.insert(key_code);
        }
        self.state.settle();
        released
    }

    fn release_keys(&mut self, path: InjectionPath, keys: &Vec<u16>)
        ensures
            final(self).follows(old(self)),
            keys_released(
                old(self).board(),
                path,
                keys@,
                final(self).since(old(self)),
                final(self).board(),
            ),
    {
        let mut i: usize = 0;
        assert(self.since(old(self)) =~= Seq::empty());
        assert(self.attempts() =~= old(self).attempts() + self.since(old(self)));
        assert(keys@.take(0) =~= Seq::empty());
        while i < keys.len()
            invariant
                i <= keys@.len(),
                self.follows(old(self)),
                keys_released(
                    old(self).board(),
                    path,
                    keys@.take(i as int),
                    self.since(old(self)),
                    self.board(),
                ),
            decreases keys.len() - i,
        {
            let ghost mid = *self;
            let key_code = keys[i];
            let injection = Injection::Key {
                key_code,
                down: false,
                cg_flags: self.state.post_flags,
            };
            if self.release(path, injection).is_ok() {
                self.state.pressed_keys.remove(&key_code);
            }
            proof {
                lemma_since(old(self), &mid, self);
                let done = keys@.take(i + 1);
                let log = self.since(old(self));
                let n = mid.since(old(self)).len() as int;
                assert(done.drop_last() =~= keys@.take(i as int));
                assert(log.take(n) =~= mid.since(old(self)));
                assert(log.skip(n) =~= self.since(&mid));
                lemma_one_more_key(
                    old(self).board(),
                    path,
                    done,
                    log,
                    n,
                    mid.board(),
                    self.board(),
                );
            }
            i += 1;
        }
        assert(keys@.take(keys@.len() as int) =~= keys@);
    }

    fn release_sides(
        &mut self,
        path: InjectionPath,
        locally_held: u32,
        steps: &Vec<(ModifierSide, ModifierSides)>,
        from: usize,
        stuck: ModifierSides,
    ) -> (r: ModifierSides)
        requires
            from <= steps@.len(),
        ensures
            final(self).follows(old(self)),
            sides_released(
                old(self).board(),
                path,
                locally_held,
                steps_view(steps@).skip(from as int),
                stuck@,
                final(self).since(old(self)),
                final(self).board(),
                r@,
            ),
        decreases steps.len() - from,
    {
        if from == steps.len() {
            assert(self.since(old(self)) =~= Seq::empty());
            assert(self.attempts() =~= old(self).attempts() + self.since(old(self)));
            return stuck;
        }
        let (side, next) = steps[from];
        let flags = locally_held | flags_for(next);
        let injection = Injection::Modifiers { key_code: side.key_code(), flags };
        let released = self.release(path, injection);
        let mut left = stuck;
        if released.is_ok() {
            self.state.remote_flags = flags_for(next);
            self.state.post_flags = flags;
        } else {
            left = left.with(side.bit());
            assert(left@ =~= stuck@.insert(side));
        }
        let ghost mid = *self;
        let r = self.release_sides(path, locally_held, steps, from + 1, left);
        proof {
            lemma_since(old(self), &mid, self);
            let log = self.since(old(self));
            let first = mid.since(old(self));
            let rest = steps_view(steps@).skip(from as int);
            assert(rest[0] == (side, next@));
            assert(rest.skip(1) =~= steps_view(steps@).skip(from + 1));
            let n = release_attempts(path, log);
            assert(log.take(n) =~= first);
            assert(log.skip(n) =~= self.since(&mid));
        }
        r
    }

    /// Releases everything this backend injected.
    pub fn release_all(&mut self) -> (r: CleanupResidue)
        ensures
            final(self).follows(old(self)),
            all_released(old(self).board(), final(self).since(old(self)), final(self).board()),
            r.pressed_keys == final(self).board().pressed.len(),
            r.modifier_sides@ == final(self).board().held,
    {
        let path = self.state.path;
        let keys = ascending(&self.state.pressed_keys);
        self.release_keys(path, &keys);
        let ghost mid = *self;

        // One baseline for the whole batch: `remote_flags` moves as the steps
        // below are posted, and a per-step baseline would turn the sides this
        // backend has just released into locally held bits.
        let locally_held = locally_held_flags(self.state.local_flags, self.state.remote_flags);
        let none = ModifierSides::default();
        let steps = transitions(self.state.held_sides, none);
        let still_held = self.release_sides(path, locally_held, &steps, 0, none);
        let ghost last = *self;
        self.state.held_sides = still_held;
        self.state.settle();
        proof {
            lemma_since(old(self), &mid, &last);
            let log = last.since(old(self));
            assert(self.since(old(self)) =~= log);
            let n = mid.since(old(self)).len() as int;
            assert(log.take(n) =~= mid.since(old(self)));
            assert(log.skip(n) =~= last.since(&mid));
            assert(steps_view(steps@).skip(0) =~= steps_view(steps@));
            assert(keys_released(old(self).board(), path, keys@, log.take(n), mid.board()));
            assert(sides_released(
                mid.board(),
                path,
                local_part(mid.board().local_flags, mid.board().remote_flags),
                steps_between(mid.board().held, Set::empty()),
                Set::empty(),
                log.skip(n),
                last.board(),
                still_held@,
            ));
        }
        self.pending()
    }

    fn post_steps(
        &mut self,
        locally_held: u32,
        steps: &Vec<(ModifierSide, ModifierSides)>,
        from: usize,
    )
        requires
            from <= steps@.len(),
        ensures
            final(self).follows(old(self)),
            steps_posted(
                old(self).board(),
                locally_held,
                steps_view(steps@).skip(from as int),
                final(self).since(old(self)),
                final(self).board(),
            ),
        decreases steps.len() - from,
    {
        if from == steps.len() {
            assert(self.since(old(self)) =~= Seq::empty());
            assert(self.attempts() =~= old(self).attempts() + self.since(old(self)));
            return ;
        }
        let (side, next) = steps[from];
        let flags = locally_held | flags_for(next);
        let injection = Injection::Modifiers { key_code: side.key_code(), flags };
        let ghost rest = steps_view(steps@).skip(from as int);
        assert(rest[0] == (side, next@));
        if self.post(injection).is_err() {
            // The recorded state stays at the last side macOS accepted;
            // cleanup releases exactly that.
            return ;
        }
        self.state.held_sides = next;
        self.state.remote_flags = flags_for(next);
        self.state.post_flags = flags;
        let ghost mid = *self;
        self.post_steps(locally_held, steps, from + 1);
        proof {
            lemma_since(old(self), &mid, self);
            assert(rest.skip(1) =~= steps_view(steps@).skip(from + 1));
            assert(self.since(old(self)).skip(1) =~= self.since(&mid));
        }
    }

    /// Publishes the remote modifier snapshot.
    ///
    /// `aggregate` is the remote's side-agnostic state, `known` the sides the
    /// event stream identified, and `local_flags` the window server's current
    /// modifier flags. Returns whether the snapshot differs from the last one
    /// that diagnostics have seen.
    pub fn sync_modifiers(
        &mut self,
        aggregate: ModifierKinds,
        known: ModifierSides,
        local_flags: u32,
    ) -> (r: bool)
        ensures
            final(self).follows(old(self)),
            snapshot_published(
                old(self).board(),
                aggregate,
                known@,
                local_flags,
                final(self).since(old(self)),
                Board { logged: old(self).board().logged, ..final(self).board() },
            ),
            final(self).board().logged is Some,
            final(self).board().snapshot(
                aggregate,
                known,
                final(self).board().logged->0,
            ),
            r == (final(self).board().logged != old(self).board().logged),
    {
        let desired = desired_sides(aggregate, known);
        self.state.local_flags = local_flags;
        let ghost start = *self;
        let locally_held = locally_held_flags(local_flags, self.state.remote_flags);
        let steps = transitions(self.state.held_sides, desired);
        self.post_steps(locally_held, &steps, 0);
        let ghost mid = *self;
        self.state.settle();
        let entry = SnapshotLog {
            kinds: aggregate,
            known,
            observed_flags: self.state.local_flags,
            injected_sides: self.state.held_sides,
            posted_flags: self.state.post_flags,
        };
        let r = snapshot_changed(&mut self.state, entry);
        proof {
            let before = old(self).board();
            assert(mid.since(&start) =~= mid.since(old(self)));
            assert(self.since(old(self)) =~= mid.since(&start));
            assert(steps_view(steps@).skip(0) =~= steps_view(steps@));
            lemma_steps_keep_the_log(
                start.board(),
                locally_held,
                steps_view(steps@),
                mid.since(&start),
                mid.board(),
            );
            assert(steps_posted(
                Board { local_flags, ..before },
                local_part(local_flags, before.remote_flags),
                steps_between(before.held, wanted(aggregate, known@)),
                self.since(old(self)),
                mid.board(),
            ));
        }
        r
    }
}

proof fn lemma_one_more_key(
    before: Board,
    path: InjectionPath,
    keys: Seq<u16>,
    log: Seq<Attempt>,
    n: int,
    mid: Board,
    after: Board,
)
    requires
        keys.len() > 0,
        0 <= n <= log.len(),
        keys_released(before, path, keys.drop_last(), log.take(n), mid),
        is_release(path, key_event(keys.last(), false, mid.post_flags), log.skip(n)),
        after == key_freed(mid, path, keys.last(), log.skip(n)),
    ensures
        keys_released(before, path, keys, log, after),
    decreases keys.len(),
{
    let tail = log.skip(n);
    if keys.len() == 1 {
        assert(log.take(n) =~= Seq::empty());
        assert(tail =~= log);
        assert(log.take(log.len() as int) =~= log);
        assert(keys.skip(1) =~= Seq::empty());
        assert(log.skip(log.len() as int) =~= Seq::empty());
        assert(keys_released(after, path, keys.skip(1), Seq::empty(), after));
    } else {
        let front = log.take(n);
        let m = release_attempts(path, front);
        assert(front[0] == log[0]);
        assert(front.take(m) =~= log.take(m));
        assert(keys.drop_last().skip(1) =~= keys.skip(1).drop_last());
        assert(front.skip(m) =~= log.skip(m).take(n - m));
        assert(log.skip(m).skip(n - m) =~= tail);
        lemma_one_more_key(
            key_freed(before, path, keys[0], log.take(m)),
            path,
            keys.skip(1),
            log.skip(m),
            n - m,
            mid,
            after,
        );
    }
}

/// Posting steps leaves the last logged snapshot and the local flags alone.
proof fn lemma_steps_keep_the_log(
    before: Board,
    local: u32,
    steps: Seq<(ModifierSide, Set<ModifierSide>)>,
    log: Seq<Attempt>,
    after: Board,
)
    requires
        steps_posted(before, local, steps, log, after),
    ensures
        after.logged == before.logged,
        after.local_flags == before.local_flags,
    decreases steps.len(),
{
    if steps.len() > 0 && log[0].outcome is Ok {
        let (side, held) = steps[0];
        lemma_steps_keep_the_log(
            Board {
                held,
                remote_flags: flags_of(held),
                post_flags: local | flags_of(held),
                ..before
            },
            local,
            steps.skip(1),
            log.skip(1),
            after,
        );
    }
}

/// What was handed over since is what was handed over up to a moment between, and after it.
proof fn lemma_since<S: KeySink>(
    first: &KeyboardInjector<S>,
    mid: &KeyboardInjector<S>,
    last: &KeyboardInjector<S>,
)
    requires
        mid.follows(first),
        last.follows(mid),
    ensures
        last.follows(first),
        last.since(first) == mid.since(first) + last.since(mid),
{
    let all = first.attempts() + mid.since(first) + last.since(mid);
    assert(last.attempts() =~= all);
    assert(last.since(first) =~= mid.since(first) + last.since(mid));
    assert(last.attempts() =~= first.attempts() + last.since(first));
}

/// The path changes only from the IOHID path to the fallback, and only while nothing injected is
/// still down. From a clean state the session is always fit for new presses.
pub proof fn law_the_path_changes_only_when_clean(board: Board)
    ensures
        board.settled().path != board.path ==> board.clean() && board.path == InjectionPath::Nx
            && board.settled().path == InjectionPath::CgEvent,
        board.settled().held == board.held,
        board.settled().pressed == board.pressed,
        board.sound() ==> board.settled().sound(),
        board.sound() && board.clean() ==> !board.settled().degraded,
{
}

/// One operation on an injector.
pub ghost enum Operation {
    KeyDown { key_code: u16 },
    KeyUp { key_code: u16, result: Result<(), i32> },
    CapsTap { key_code: u16, result: Result<(), i32> },
    ReleaseAll,
    SyncModifiers { aggregate: ModifierKinds, known: Set<ModifierSide>, local_flags: u32 },
}

/// What one operation hands to the sink and makes of the board.
pub open spec fn operated(before: Board, op: Operation, log: Seq<Attempt>, after: Board) -> bool {
    match op {
        Operation::KeyDown { key_code } => key_pressed(before, key_code, log, after),
        Operation::KeyUp { key_code, result } => key_raised(before, key_code, log, result, after),
        Operation::CapsTap { key_code, result } => caps_tapped(
            before,
            key_code,
            log,
            result,
            after,
        ),
        Operation::ReleaseAll => all_released(before, log, after),
        Operation::SyncModifiers { aggregate, known, local_flags } => snapshot_published(
            before,
            aggregate,
            known,
            local_flags,
            log,
            Board { logged: before.logged, ..after },
        ),
    }
}

/// Whether the IOHID path refused an injection.
pub open spec fn path_failed(log: Seq<Attempt>) -> bool {
    exists|i: int|
        0 <= i < log.len() && (#[trigger] log[i]).path == InjectionPath::Nx && log[i].outcome is Err
}

/// Whether every injection went through the fallback.
pub open spec fn fallback_only(log: Seq<Attempt>) -> bool {
    forall|i: int| 0 <= i < log.len() ==> (#[trigger] log[i]).path == InjectionPath::CgEvent
}

/// Posting on a board's path neither changes the path nor degrades it without a refusal.
spec fn kept(before: Board, path: InjectionPath, log: Seq<Attempt>, after: Board) -> bool {
    &&& after.path == before.path
    &&& after.degraded ==> before.degraded || path_failed(log)
    &&& path == InjectionPath::CgEvent ==> fallback_only(log)
}

proof fn lemma_joined(
    before: Board,
    mid: Board,
    after: Board,
    path: InjectionPath,
    log: Seq<Attempt>,
    n: int,
)
    requires
        0 <= n <= log.len(),
        kept(before, path, log.take(n), mid),
        kept(mid, path, log.skip(n), after),
    ensures
        kept(before, path, log, after),
{
    let (front, back) = (log.take(n), log.skip(n));
    if path_failed(front) {
        let i = choose|i: int|
            0 <= i < front.len() && (#[trigger] front[i]).path == InjectionPath::Nx
                && front[i].outcome is Err;
        assert(log[i] == front[i]);
    }
    if path_failed(back) {
        let i = choose|i: int|
            0 <= i < back.len() && (#[trigger] back[i]).path == InjectionPath::Nx
                && back[i].outcome is Err;
        assert(log[n + i] == back[i]);
    }
    if path == InjectionPath::CgEvent {
        assert forall|i: int| 0 <= i < log.len() implies (#[trigger] log[i]).path
            == InjectionPath::CgEvent by {
            if i < n {
                assert(front[i] == log[i]);
            } else {
                assert(back[i - n] == log[i]);
            }
        }
    }
}

proof fn lemma_release_keeps(
    before: Board,
    path: InjectionPath,
    injection: Injection,
    log: Seq<Attempt>,
)
    requires
        is_release(path, injection, log),
    ensures
        kept(before, path, log, before.tried(path, log[0].outcome)),
{
    if log[0].outcome is Err && path == InjectionPath::Nx {
        assert(log[0].path == InjectionPath::Nx);
    }
}

proof fn lemma_keys_keep(
    before: Board,
    path: InjectionPath,
    keys: Seq<u16>,
    log: Seq<Attempt>,
    after: Board,
)
    requires
        keys_released(before, path, keys, log, after),
    ensures
        kept(before, path, log, after),
    decreases keys.len(),
{
    if keys.len() > 0 {
        let n = release_attempts(path, log);
        let first = log.take(n);
        let next = key_freed(before, path, keys[0], first);
        lemma_release_keeps(before, path, key_event(keys[0], false, before.post_flags), first);
        lemma_keys_keep(next, path, keys.skip(1), log.skip(n), after);
        lemma_joined(before, next, after, path, log, n);
    }
}

proof fn lemma_sides_keep(
    before: Board,
    path: InjectionPath,
    local: u32,
    steps: Seq<(ModifierSide, Set<ModifierSide>)>,
    stuck: Set<ModifierSide>,
    log: Seq<Attempt>,
    after: Board,
    left: Set<ModifierSide>,
)
    requires
        sides_released(before, path, local, steps, stuck, log, after, left),
    ensures
        kept(before, path, log, after),
        after.pressed == before.pressed,
    decreases steps.len(),
{
    if steps.len() > 0 {
        let n = release_attempts(path, log);
        let first = log.take(n);
        let (side, held) = steps[0];
        let flags = local | flags_of(held);
        let tried = before.tried(path, log[0].outcome);
        lemma_release_keeps(
            before,
            path,
            Injection::Modifiers { key_code: side.code(), flags },
            first,
        );
        assert(first[0] == log[0]);
        let done = first.last().outcome is Ok;
        let next = if done {
            Board { remote_flags: flags_of(held), post_flags: flags, ..tried }
        } else {
            tried
        };
        let stuck2 = if done {
            stuck
        } else {
            stuck.insert(side)
        };
        lemma_sides_keep(next, path, local, steps.skip(1), stuck2, log.skip(n), after, left);
        lemma_joined(before, next, after, path, log, n);
    }
}

proof fn lemma_steps_keep(
    before: Board,
    local: u32,
    steps: Seq<(ModifierSide, Set<ModifierSide>)>,
    log: Seq<Attempt>,
    after: Board,
)
    requires
        steps_posted(before, local, steps, log, after),
    ensures
        kept(before, before.path, log, after),
    decreases steps.len(),
{
    if steps.len() > 0 {
        let (side, held) = steps[0];
        let flags = local | flags_of(held);
        if log[0].outcome is Ok {
            let next = Board { held, remote_flags: flags_of(held), post_flags: flags, ..before };
            lemma_steps_keep(next, local, steps.skip(1), log.skip(1), after);
            assert(log.take(1) =~= seq![log[0]]);
            lemma_joined(before, next, after, before.path, log, 1);
        }
    }
}

/// What one operation can do to the path.
proof fn lemma_operation(before: Board, op: Operation, log: Seq<Attempt>, after: Board)
    requires
        operated(before, op, log, after),
    ensures
        ({
            ||| after.path == before.path
            ||| {
                &&& before.path == InjectionPath::Nx
                &&& after.path == InjectionPath::CgEvent
                &&& after.clean()
                &&& before.degraded || path_failed(log)
            }
        }),
        after.degraded ==> before.degraded || path_failed(log),
        before.path == InjectionPath::CgEvent ==> fallback_only(log),
{
    match op {
        Operation::KeyDown { .. } => {},
        Operation::KeyUp { key_code, .. } => {
            lemma_release_keeps(
                before,
                before.path,
                key_event(key_code, false, before.post_flags),
                log,
            );
        },
        Operation::CapsTap { key_code, .. } => {
            if !before.degraded && log[0].outcome is Ok {
                let up = log.skip(1);
                lemma_release_keeps(
                    before,
                    before.path,
                    key_event(key_code, false, before.post_flags),
                    up,
                );
                assert(log.take(1) =~= seq![log[0]]);
                lemma_joined(
                    before,
                    before,
                    before.tried(before.path, up[0].outcome),
                    before.path,
                    log,
                    1,
                );
            }
        },
        Operation::ReleaseAll => {
            let (keys, n, mid, last, left) = choose|
                keys: Seq<u16>,
                n: int,
                mid: Board,
                last: Board,
                left: Set<ModifierSide>,
            |
                {
                    &&& lists(keys, before.pressed)
                    &&& 0 <= n <= log.len()
                    &&& #[trigger] keys_released(before, before.path, keys, log.take(n), mid)
                    &&& #[trigger] sides_released(
                        mid,
                        before.path,
                        local_part(mid.local_flags, mid.remote_flags),
                        steps_between(mid.held, Set::empty()),
                        Set::empty(),
                        log.skip(n),
                        last,
                        left,
                    )
                    &&& after == (Board { held: left, ..last }).settled()
                };
            lemma_keys_keep(before, before.path, keys, log.take(n), mid);
            lemma_sides_keep(
                mid,
                before.path,
                local_part(mid.local_flags, mid.remote_flags),
                steps_between(mid.held, Set::empty()),
                Set::empty(),
                log.skip(n),
                last,
                left,
            );
            lemma_joined(before, mid, last, before.path, log, n);
        },
        Operation::SyncModifiers { aggregate, known, local_flags } => {
            let shown = Board { logged: before.logged, ..after };
            let start = Board { local_flags, ..before };
            let local = local_part(local_flags, before.remote_flags);
            let steps = steps_between(before.held, wanted(aggregate, known));
            let mid = choose|mid: Board|
                #[trigger] steps_posted(start, local, steps, log, mid) && shown == mid.settled();
            lemma_steps_keep(start, local, steps, log, mid);
        },
    }
}

/// A run of operations on one injector.
pub open spec fn is_history(
    boards: Seq<Board>,
    ops: Seq<Operation>,
    logs: Seq<Seq<Attempt>>,
) -> bool {
    &&& boards.len() == ops.len() + 1
    &&& logs.len() == ops.len()
    &&& !boards[0].degraded
    &&& forall|i: int|
        0 <= i < ops.len() ==> #[trigger] operated(boards[i], ops[i], logs[i], boards[i + 1])
}

/// Over any run of operations, up to any of them: a degraded path was refused an injection before.
proof fn lemma_history(
    boards: Seq<Board>,
    ops: Seq<Operation>,
    logs: Seq<Seq<Attempt>>,
    i: int,
)
    requires
        is_history(boards, ops, logs),
        0 <= i < boards.len(),
    ensures
        boards[i].degraded ==> exists|k: int| 0 <= k < i && path_failed(#[trigger] logs[k]),
    decreases i,
{
    if i > 0 {
        let k = i - 1;
        lemma_history(boards, ops, logs, k);
        assert(operated(boards[k], ops[k], logs[k], boards[k + 1]));
        lemma_operation(boards[k], ops[k], logs[k], boards[k + 1]);
        if boards[i].degraded && path_failed(logs[k]) {
            assert(0 <= k < i && path_failed(logs[k]));
        }
    }
}

/// Over any run of operations the path changes at most once, from the IOHID path to the fallback and
/// never back; it changes only with an operation that leaves nothing down, and only after the IOHID
/// path refused an injection; from then on everything goes through the fallback.
pub proof fn law_the_path_changes_once(
    boards: Seq<Board>,
    ops: Seq<Operation>,
    logs: Seq<Seq<Attempt>>,
    i: int,
    j: int,
)
    requires
        is_history(boards, ops, logs),
        0 <= i <= j < boards.len(),
    ensures
        boards[i].path == InjectionPath::CgEvent ==> boards[j].path == InjectionPath::CgEvent,
        boards[i].path == InjectionPath::CgEvent && j < logs.len() ==> fallback_only(logs[j]),
        boards[i].path != boards[j].path ==> exists|k: int|
            {
                &&& i <= k < j
                &&& boards[k].path == boards[i].path
                &&& (#[trigger] boards[k + 1]).path == boards[j].path
                &&& boards[k + 1].clean()
                &&& exists|l: int| 0 <= l <= k && path_failed(#[trigger] logs[l])
            },
    decreases j - i,
{
    if j < logs.len() {
        assert(operated(boards[j], ops[j], logs[j], boards[j + 1]));
        lemma_operation(boards[j], ops[j], logs[j], boards[j + 1]);
    }
    if i < j {
        let k = j - 1;
        law_the_path_changes_once(boards, ops, logs, i, k);
        assert(operated(boards[k], ops[k], logs[k], boards[k + 1]));
        lemma_operation(boards[k], ops[k], logs[k], boards[k + 1]);
        lemma_history(boards, ops, logs, k);
        if boards[i].path != boards[j].path {
            if boards[i].path == boards[k].path {
                assert(exists|l: int| 0 <= l <= k && path_failed(#[trigger] logs[l])) by {
                    if path_failed(logs[k]) {
                        assert(0 <= k <= k && path_failed(logs[k]));
                    } else {
                        let l = choose|l: int| 0 <= l < k && path_failed(#[trigger] logs[l]);
                        assert(0 <= l <= k && path_failed(logs[l]));
                    }
                }
                assert(boards[k + 1].clean());
            } else {
                let l = choose|l: int|
                    {
                        &&& i <= l < k
                        &&& boards[l].path == boards[i].path
                        &&& (#[trigger] boards[l + 1]).path == boards[k].path
                        &&& boards[l + 1].clean()
                        &&& exists|h: int| 0 <= h <= l && path_failed(#[trigger] logs[h])
                    };
                assert(boards[l + 1].path == boards[j].path);
            }
        }
    }
}

/// Whether the fallback took everything that it was handed.
pub open spec fn fallback_accepts(log: Seq<Attempt>) -> bool {
    forall|i: int|
        0 <= i < log.len() && (#[trigger] log[i]).path == InjectionPath::CgEvent
            ==> log[i].outcome is Ok
}

proof fn lemma_accepted_release(path: InjectionPath, injection: Injection, log: Seq<Attempt>)
    requires
        is_release(path, injection, log),
        fallback_accepts(log),
    ensures
        log.last().outcome is Ok,
{
    assert(log[0].path == path);
    if log.len() == 2 {
        assert(log[1].path == InjectionPath::CgEvent);
    }
}

proof fn lemma_accepted_keys(
    before: Board,
    path: InjectionPath,
    keys: Seq<u16>,
    log: Seq<Attempt>,
    after: Board,
)
    requires
        keys_released(before, path, keys, log, after),
        fallback_accepts(log),
    ensures
        after.pressed == before.pressed.difference(keys.to_set()),
        after.held == before.held,
        after.path == before.path,
        before.path == path && before.sound() ==> after.sound(),
    decreases keys.len(),
{
    if keys.len() == 0 {
        assert(after.pressed =~= before.pressed.difference(keys.to_set()));
    } else {
        let n = release_attempts(path, log);
        let first = log.take(n);
        let next = key_freed(before, path, keys[0], first);
        assert(fallback_accepts(first)) by {
            assert forall|i: int|
                0 <= i < first.len() && (#[trigger] first[i]).path == InjectionPath::CgEvent implies
                first[i].outcome is Ok by {
                assert(first[i] == log[i]);
            }
        }
        lemma_accepted_release(path, key_event(keys[0], false, before.post_flags), first);
        let rest = log.skip(n);
        assert(fallback_accepts(rest)) by {
            assert forall|i: int|
                0 <= i < rest.len() && (#[trigger] rest[i]).path == InjectionPath::CgEvent implies
                rest[i].outcome is Ok by {
                assert(rest[i] == log[n + i]);
            }
        }
        lemma_accepted_keys(next, path, keys.skip(1), rest, after);
        assert(keys =~= seq![keys[0]] + keys.skip(1));
        assert forall|key: u16| keys.to_set().contains(key) <==> key == keys[0] || keys.skip(
            1,
        ).to_set().contains(key) by {
            if keys.to_set().contains(key) && key != keys[0] {
                let i = choose|i: int| 0 <= i < keys.len() && keys[i] == key;
                assert(keys.skip(1)[i - 1] == key);
            }
            if keys.skip(1).to_set().contains(key) {
                let i = choose|i: int| 0 <= i < keys.skip(1).len() && keys.skip(1)[i] == key;
                assert(keys[i + 1] == key);
            }
            assert(keys[0] == keys.first());
        }
        assert(after.pressed =~= before.pressed.difference(keys.to_set()));
    }
}

proof fn lemma_accepted_sides(
    before: Board,
    path: InjectionPath,
    local: u32,
    steps: Seq<(ModifierSide, Set<ModifierSide>)>,
    stuck: Set<ModifierSide>,
    log: Seq<Attempt>,
    after: Board,
    left: Set<ModifierSide>,
)
    requires
        sides_released(before, path, local, steps, stuck, log, after, left),
        fallback_accepts(log),
    ensures
        left == stuck,
        after.pressed == before.pressed,
        after.path == before.path,
        before.path == path && before.sound() ==> after.sound(),
    decreases steps.len(),
{
    if steps.len() > 0 {
        let n = release_attempts(path, log);
        let first = log.take(n);
        let (side, held) = steps[0];
        let flags = local | flags_of(held);
        assert(fallback_accepts(first)) by {
            assert forall|i: int|
                0 <= i < first.len() && (#[trigger] first[i]).path == InjectionPath::CgEvent implies
                first[i].outcome is Ok by {
                assert(first[i] == log[i]);
            }
        }
        lemma_accepted_release(path, Injection::Modifiers { key_code: side.code(), flags }, first);
        let rest = log.skip(n);
        assert(fallback_accepts(rest)) by {
            assert forall|i: int|
                0 <= i < rest.len() && (#[trigger] rest[i]).path == InjectionPath::CgEvent implies
                rest[i].outcome is Ok by {
                assert(rest[i] == log[n + i]);
            }
        }
        lemma_accepted_sides(
            Board {
                remote_flags: flags_of(held),
                post_flags: flags,
                ..before.tried(path, log[0].outcome)
            },
            path,
            local,
            steps.skip(1),
            stuck,
            rest,
            after,
            left,
        );
    }
}

/// No key and no modifier is left down by a cleanup during which the fallback took what it was
/// handed, however often the IOHID path failed. The session is then fit for new presses.
pub proof fn law_cleanup_leaves_nothing_down(before: Board, log: Seq<Attempt>, after: Board)
    requires
        before.sound(),
        all_released(before, log, after),
        fallback_accepts(log),
    ensures
        after.clean(),
        !after.degraded,
{
    let (keys, n, mid, last, left) = choose|
        keys: Seq<u16>,
        n: int,
        mid: Board,
        last: Board,
        left: Set<ModifierSide>,
    |
        {
            &&& lists(keys, before.pressed)
            &&& 0 <= n <= log.len()
            &&& #[trigger] keys_released(before, before.path, keys, log.take(n), mid)
            &&& #[trigger] sides_released(
                mid,
                before.path,
                local_part(mid.local_flags, mid.remote_flags),
                steps_between(mid.held, Set::empty()),
                Set::empty(),
                log.skip(n),
                last,
                left,
            )
            &&& after == (Board { held: left, ..last }).settled()
        };
    let (front, back) = (log.take(n), log.skip(n));
    assert(fallback_accepts(front)) by {
        assert forall|i: int|
            0 <= i < front.len() && (#[trigger] front[i]).path == InjectionPath::CgEvent implies
            front[i].outcome is Ok by {
            assert(front[i] == log[i]);
        }
    }
    assert(fallback_accepts(back)) by {
        assert forall|i: int|
            0 <= i < back.len() && (#[trigger] back[i]).path == InjectionPath::CgEvent implies
            back[i].outcome is Ok by {
            assert(back[i] == log[n + i]);
        }
    }
    lemma_accepted_keys(before, before.path, keys, front, mid);
    assert(mid.pressed =~= Set::empty());
    lemma_accepted_sides(
        mid,
        before.path,
        local_part(mid.local_flags, mid.remote_flags),
        steps_between(mid.held, Set::empty()),
        Set::empty(),
        back,
        last,
        left,
    );
}

/// Whether an injection releases this key.
pub open spec fn frees_key(injection: Injection, key: u16) -> bool {
    injection matches Injection::Key { key_code, down, .. } && key_code == key && !down
}

/// Whether an injection changes this side.
pub open spec fn frees_side(injection: Injection, side: ModifierSide) -> bool {
    injection matches Injection::Modifiers { key_code, .. } && key_code == side.code()
}

/// Whether every release of the key was refused.
pub open spec fn key_refused(log: Seq<Attempt>, key: u16) -> bool {
    forall|i: int|
        0 <= i < log.len() && frees_key((#[trigger] log[i]).injection, key) ==> log[i].outcome is Err
}

/// Whether every change of the side was refused.
pub open spec fn side_refused(log: Seq<Attempt>, side: ModifierSide) -> bool {
    forall|i: int|
        0 <= i < log.len() && frees_side((#[trigger] log[i]).injection, side)
            ==> log[i].outcome is Err
}

/// Whether the release of the key was tried.
pub open spec fn key_tried(log: Seq<Attempt>, key: u16) -> bool {
    exists|i: int| 0 <= i < log.len() && frees_key((#[trigger] log[i]).injection, key)
}

/// Whether the release of the side was tried.
pub open spec fn side_tried(log: Seq<Attempt>, side: ModifierSide) -> bool {
    exists|i: int| 0 <= i < log.len() && frees_side((#[trigger] log[i]).injection, side)
}

/// The key or modifier that an injection is about.
pub open spec fn code_of(injection: Injection) -> u16 {
    match injection {
        Injection::Key { key_code, .. } => key_code,
        Injection::Modifiers { key_code, .. } => key_code,
    }
}

/// Whether the steps change this side.
spec fn names(steps: Seq<(ModifierSide, Set<ModifierSide>)>, side: ModifierSide) -> bool {
    exists|k: int| 0 <= k < steps.len() && (#[trigger] steps[k]).0 == side
}

/// A release is refused exactly where its last attempt is, and all of it is about one thing.
proof fn lemma_one_release(path: InjectionPath, injection: Injection, log: Seq<Attempt>)
    requires
        is_release(path, injection, log),
    ensures
        forall|i: int| 0 <= i < log.len() ==> (#[trigger] log[i]).injection == injection,
        log.last().outcome is Err <==> (forall|i: int|
            0 <= i < log.len() ==> (#[trigger] log[i]).outcome is Err),
{
    if log.last().outcome is Err {
        assert(log[0].outcome is Err);
    }
}

#[verifier::rlimit(60)]
proof fn lemma_freed_keys(
    before: Board,
    path: InjectionPath,
    keys: Seq<u16>,
    log: Seq<Attempt>,
    after: Board,
)
    requires
        keys_released(before, path, keys, log, after),
        forall|i: int, j: int| 0 <= i < j < keys.len() ==> keys[i] < keys[j],
    ensures
        forall|key: u16| #[trigger]
            after.pressed.contains(key) <==> before.pressed.contains(key) && (keys.contains(key)
                ==> key_refused(log, key)),
        forall|i: int|
            0 <= i < log.len() ==> frees_key((#[trigger] log[i]).injection, code_of(log[i].injection))
                && keys.contains(code_of(log[i].injection)),
        forall|key: u16| #[trigger] keys.contains(key) ==> key_tried(log, key),
        forall|i: int, j: int|
            0 <= i < j < log.len() ==> code_of((#[trigger] log[i]).injection) <= code_of(
                (#[trigger] log[j]).injection,
            ),
        after.held == before.held,
    decreases keys.len(),
{
    if keys.len() > 0 {
        let n = release_attempts(path, log);
        let (first, rest) = (log.take(n), log.skip(n));
        let key = keys[0];
        let later = keys.skip(1);
        let injection = key_event(key, false, before.post_flags);
        let next = key_freed(before, path, key, first);
        lemma_one_release(path, injection, first);
        assert forall|i: int, j: int| 0 <= i < j < later.len() implies later[i] < later[j] by {
            assert(keys[i + 1] < keys[j + 1]);
        }
        lemma_freed_keys(next, path, later, rest, after);
        assert forall|other: u16| keys.contains(other) <==> other == key || later.contains(
            other,
        ) by {
            if keys.contains(other) && other != key {
                let k = choose|k: int| 0 <= k < keys.len() && keys[k] == other;
                assert(later[k - 1] == other);
            }
            if later.contains(other) {
                let k = choose|k: int| 0 <= k < later.len() && later[k] == other;
                assert(keys[k + 1] == other);
            }
            assert(keys[0] == key);
        }
        assert(!later.contains(key)) by {
            if later.contains(key) {
                let k = choose|k: int| 0 <= k < later.len() && later[k] == key;
                assert(keys[0] < keys[k + 1]);
            }
        }
        assert forall|i: int| 0 <= i < log.len() implies #[trigger] log[i] == (if i < n {
            first[i]
        } else {
            rest[i - n]
        }) by {}
        assert forall|other: u16|
            keys.contains(other) implies key_refused(log, other) == (if other == key {
            first.last().outcome is Err
        } else {
            key_refused(rest, other)
        }) && key_tried(log, other) by {
            if other == key {
                assert(log[0] == first[0]);
                assert(frees_key(log[0].injection, key));
                if key_refused(log, key) {
                    assert forall|i: int| 0 <= i < first.len() implies (#[trigger] first[i]).outcome
                        is Err by {
                        assert(log[i] == first[i]);
                    }
                }
            } else {
                assert forall|i: int| 0 <= i < rest.len() implies #[trigger] rest[i] == log[n
                    + i] by {}
                let i = choose|i: int|
                    0 <= i < rest.len() && frees_key((#[trigger] rest[i]).injection, other);
                assert(log[n + i] == rest[i]);
                if key_refused(log, other) {
                    assert forall|i: int|
                        0 <= i < rest.len() && frees_key(
                            (#[trigger] rest[i]).injection,
                            other,
                        ) implies rest[i].outcome is Err by {
                        assert(log[n + i] == rest[i]);
                    }
                }
            }
        }
        assert forall|i: int, j: int| 0 <= i < j < log.len() implies code_of(
            (#[trigger] log[i]).injection,
        ) <= code_of((#[trigger] log[j]).injection) by {
            if i < n && j >= n {
                let other = code_of(rest[j - n].injection);
                let k = choose|k: int| 0 <= k < later.len() && later[k] == other;
                assert(keys[0] < keys[k + 1]);
            }
        }
    }
}

#[verifier::rlimit(60)]
proof fn lemma_freed_sides(
    before: Board,
    path: InjectionPath,
    local: u32,
    steps: Seq<(ModifierSide, Set<ModifierSide>)>,
    stuck: Set<ModifierSide>,
    log: Seq<Attempt>,
    after: Board,
    left: Set<ModifierSide>,
)
    requires
        sides_released(before, path, local, steps, stuck, log, after, left),
        forall|i: int, j: int| 0 <= i < j < steps.len() ==> steps[i].0 != steps[j].0,
    ensures
        forall|side: ModifierSide| #[trigger]
            left.contains(side) <==> stuck.contains(side) || (names(steps, side) && side_refused(
                log,
                side,
            )),
        forall|i: int|
            0 <= i < log.len() ==> exists|side: ModifierSide|
                names(steps, side) && frees_side((#[trigger] log[i]).injection, side),
        forall|side: ModifierSide| #[trigger] names(steps, side) ==> side_tried(log, side),
    decreases steps.len(),
{
    if steps.len() > 0 {
        let n = release_attempts(path, log);
        let (first, rest) = (log.take(n), log.skip(n));
        let (side, held) = steps[0];
        let later = steps.skip(1);
        let flags = local | flags_of(held);
        let tried = before.tried(path, log[0].outcome);
        let injection = Injection::Modifiers { key_code: side.code(), flags };
        lemma_one_release(path, injection, first);
        let done = first.last().outcome is Ok;
        let next = if done {
            Board { remote_flags: flags_of(held), post_flags: flags, ..tried }
        } else {
            tried
        };
        let stuck2 = if done {
            stuck
        } else {
            stuck.insert(side)
        };
        assert forall|i: int, j: int| 0 <= i < j < later.len() implies later[i].0 != later[j].0 by {
            assert(steps[i + 1].0 != steps[j + 1].0);
        }
        lemma_freed_sides(next, path, local, later, stuck2, rest, after, left);
        assert forall|other: ModifierSide| names(steps, other) <==> other == side || names(
            later,
            other,
        ) by {
            if names(steps, other) && other != side {
                let k = choose|k: int| 0 <= k < steps.len() && (#[trigger] steps[k]).0 == other;
                assert(later[k - 1].0 == other);
            }
            if names(later, other) {
                let k = choose|k: int| 0 <= k < later.len() && (#[trigger] later[k]).0 == other;
                assert(steps[k + 1].0 == other);
            }
            assert(steps[0].0 == side);
        }
        assert(!names(later, side)) by {
            if names(later, side) {
                let k = choose|k: int| 0 <= k < later.len() && (#[trigger] later[k]).0 == side;
                assert(steps[0].0 != steps[k + 1].0);
            }
        }
        assert forall|a: ModifierSide, b: ModifierSide| a.code() == b.code() implies a == b by {}
        assert forall|i: int| 0 <= i < log.len() implies #[trigger] log[i] == (if i < n {
            first[i]
        } else {
            rest[i - n]
        }) by {}
        assert forall|i: int| 0 <= i < log.len() implies exists|other: ModifierSide|
            names(steps, other) && frees_side((#[trigger] log[i]).injection, other) by {
            if i < n {
                assert(names(steps, side) && frees_side(log[i].injection, side));
            } else {
                let other = choose|other: ModifierSide|
                    names(later, other) && frees_side(rest[i - n].injection, other);
                assert(names(steps, other) && frees_side(log[i].injection, other));
            }
        }
        assert forall|other: ModifierSide|
            names(steps, other) implies side_refused(log, other) == (if other == side {
            first.last().outcome is Err
        } else {
            side_refused(rest, other)
        }) && side_tried(log, other) by {
            if other == side {
                assert(log[0] == first[0]);
                assert(frees_side(log[0].injection, side));
                if side_refused(log, side) {
                    assert forall|i: int| 0 <= i < first.len() implies (#[trigger] first[i]).outcome
                        is Err by {
                        assert(log[i] == first[i]);
                    }
                } else {
                    let i = choose|i: int|
                        0 <= i < log.len() && frees_side((#[trigger] log[i]).injection, side)
                            && log[i].outcome is Ok;
                    if i >= n {
                        let o = choose|o: ModifierSide|
                            names(later, o) && frees_side(rest[i - n].injection, o);
                        assert(o == side);
                    }
                }
            } else {
                let i = choose|i: int|
                    0 <= i < rest.len() && frees_side((#[trigger] rest[i]).injection, other);
                assert(log[n + i] == rest[i]);
                if side_refused(log, other) {
                    assert forall|i: int|
                        0 <= i < rest.len() && frees_side(
                            (#[trigger] rest[i]).injection,
                            other,
                        ) implies rest[i].outcome is Err by {
                        assert(log[n + i] == rest[i]);
                    }
                }
            }
        }
    }
}

/// Letting go of everything changes each held side once.
proof fn lemma_all_let_go(held: Set<ModifierSide>, n: nat)
    requires
        n <= 8,
    ensures
        ({
            let steps = release_steps(held, Set::empty(), n);
            &&& forall|side: ModifierSide| #[trigger]
                names(steps, side) <==> held.contains(side) && side.position() < n
            &&& forall|i: int, j: int| 0 <= i < j < steps.len() ==> steps[i].0 != steps[j].0
        }),
        press_steps(held, Set::empty(), n) == Seq::<(ModifierSide, Set<ModifierSide>)>::empty(),
    decreases n,
{
    if n > 0 {
        let m = (n - 1) as nat;
        lemma_all_let_go(held, m);
        let earlier = release_steps(held, Set::empty(), m);
        let steps = release_steps(held, Set::empty(), n);
        let side = side_at(n - 1);
        lemma_positions(side);
        assert forall|other: ModifierSide| #[trigger] names(steps, other) <==> held.contains(other)
            && other.position() < n by {
            lemma_positions(other);
            if names(steps, other) {
                let k = choose|k: int| 0 <= k < steps.len() && (#[trigger] steps[k]).0 == other;
                if k < earlier.len() {
                    assert(earlier[k].0 == other);
                    assert(names(earlier, other));
                }
            }
            if held.contains(other) && other.position() < n {
                if other == side {
                    assert(steps.last().0 == side);
                    assert(steps[steps.len() - 1].0 == side);
                } else {
                    assert(names(earlier, other));
                    let k = choose|k: int|
                        0 <= k < earlier.len() && (#[trigger] earlier[k]).0 == other;
                    assert(steps[k].0 == other);
                }
            }
        }
        assert forall|i: int, j: int| 0 <= i < j < steps.len() implies steps[i].0 != steps[j].0 by {
            assert(earlier[i] == steps[i]);
            if j < earlier.len() {
                assert(earlier[j] == steps[j]);
            } else {
                assert(names(earlier, steps[i].0));
            }
        }
    }
}

/// A cleanup tries to release every key that is recorded as down, in ascending order, and then every
/// side, whatever was refused before, and hands over nothing else. A key or a side stays recorded
/// exactly where every path refused its release.
pub proof fn law_cleanup_keeps_what_was_refused(before: Board, log: Seq<Attempt>, after: Board)
    requires
        all_released(before, log, after),
    ensures
        forall|key: u16| #[trigger]
            after.pressed.contains(key) <==> before.pressed.contains(key) && key_refused(log, key),
        forall|side: ModifierSide| #[trigger]
            after.held.contains(side) <==> before.held.contains(side) && side_refused(log, side),
        forall|key: u16| #[trigger] before.pressed.contains(key) ==> key_tried(log, key),
        forall|side: ModifierSide| #[trigger] before.held.contains(side) ==> side_tried(log, side),
        forall|i: int|
            0 <= i < log.len() ==> {
                ||| (exists|key: u16|
                    before.pressed.contains(key) && frees_key((#[trigger] log[i]).injection, key))
                ||| (exists|side: ModifierSide|
                    before.held.contains(side) && frees_side(log[i].injection, side))
            },
        forall|i: int, j: int|
            0 <= i < j < log.len() ==> {
                ||| (#[trigger] log[j]).injection is Modifiers
                ||| (#[trigger] log[i]).injection is Key && code_of(log[i].injection) <= code_of(
                    log[j].injection,
                )
            },
{
    let (keys, n, mid, last, left) = choose|
        keys: Seq<u16>,
        n: int,
        mid: Board,
        last: Board,
        left: Set<ModifierSide>,
    |
        {
            &&& lists(keys, before.pressed)
            &&& 0 <= n <= log.len()
            &&& #[trigger] keys_released(before, before.path, keys, log.take(n), mid)
            &&& #[trigger] sides_released(
                mid,
                before.path,
                local_part(mid.local_flags, mid.remote_flags),
                steps_between(mid.held, Set::empty()),
                Set::empty(),
                log.skip(n),
                last,
                left,
            )
            &&& after == (Board { held: left, ..last }).settled()
        };
    let (front, back) = (log.take(n), log.skip(n));
    let steps = steps_between(mid.held, Set::empty());
    let local = local_part(mid.local_flags, mid.remote_flags);
    lemma_freed_keys(before, before.path, keys, front, mid);
    lemma_all_let_go(mid.held, 8);
    assert(steps =~= release_steps(mid.held, Set::empty(), 8));
    lemma_freed_sides(mid, before.path, local, steps, Set::empty(), back, last, left);
    lemma_sides_keep(mid, before.path, local, steps, Set::empty(), back, last, left);
    assert forall|key: u16| keys.contains(key) <==> before.pressed.contains(key) by {
        assert(keys.to_set().contains(key) <==> keys.contains(key));
    }
    assert forall|side: ModifierSide| #[trigger] names(steps, side) <==> before.held.contains(
        side,
    ) by {
        lemma_positions(side);
    }
    assert forall|i: int| 0 <= i < log.len() implies #[trigger] log[i] == (if i < n {
        front[i]
    } else {
        back[i - n]
    }) by {}
    assert forall|i: int| 0 <= i < back.len() implies (#[trigger] back[i]).injection is Modifiers by {
        let side = choose|side: ModifierSide|
            names(steps, side) && frees_side(back[i].injection, side);
    }
    assert forall|i: int| 0 <= i < front.len() implies (#[trigger] front[i]).injection is Key by {
        assert(frees_key(front[i].injection, code_of(front[i].injection)));
    }
    assert forall|key: u16| key_refused(log, key) == key_refused(front, key) by {
        if key_refused(log, key) {
            assert forall|i: int|
                0 <= i < front.len() && frees_key((#[trigger] front[i]).injection, key) implies
                front[i].outcome is Err by {
                assert(log[i] == front[i]);
            }
        }
    }
    assert forall|side: ModifierSide| side_refused(log, side) == side_refused(back, side) by {
        if side_refused(log, side) {
            assert forall|i: int|
                0 <= i < back.len() && frees_side((#[trigger] back[i]).injection, side) implies
                back[i].outcome is Err by {
                assert(log[n + i] == back[i]);
            }
        }
    }
    assert forall|key: u16| #[trigger] before.pressed.contains(key) implies key_tried(log, key) by {
        assert(keys.contains(key));
        let i = choose|i: int|
            0 <= i < front.len() && frees_key((#[trigger] front[i]).injection, key);
        assert(log[i] == front[i]);
    }
    assert forall|side: ModifierSide| #[trigger] before.held.contains(side) implies side_tried(
        log,
        side,
    ) by {
        assert(names(steps, side));
        let i = choose|i: int|
            0 <= i < back.len() && frees_side((#[trigger] back[i]).injection, side);
        assert(log[n + i] == back[i]);
    }
    assert forall|i: int| 0 <= i < log.len() implies {
        ||| (exists|key: u16|
            before.pressed.contains(key) && frees_key((#[trigger] log[i]).injection, key))
        ||| (exists|side: ModifierSide|
            before.held.contains(side) && frees_side(log[i].injection, side))
    } by {
        if i < n {
            let key = code_of(front[i].injection);
            assert(before.pressed.contains(key) && frees_key(log[i].injection, key));
        } else {
            let side = choose|side: ModifierSide|
                names(steps, side) && frees_side(back[i - n].injection, side);
            assert(before.held.contains(side) && frees_side(log[i].injection, side));
        }
    }
    assert forall|i: int, j: int| 0 <= i < j < log.len() implies {
        ||| (#[trigger] log[j]).injection is Modifiers
        ||| (#[trigger] log[i]).injection is Key && code_of(log[i].injection) <= code_of(
            log[j].injection,
        )
    } by {
        if j < n {
            assert(front[i] == log[i] && front[j] == log[j]);
        }
    }
}

/// A snapshot that the sink takes whole leaves exactly the wanted sides held, and the remote
/// responsible for exactly their flags where any side changed.
pub proof fn law_a_snapshot_that_is_taken_is_held(
    before: Board,
    aggregate: ModifierKinds,
    known: Set<ModifierSide>,
    local_flags: u32,
    log: Seq<Attempt>,
    after: Board,
)
    requires
        snapshot_published(before, aggregate, known, local_flags, log, after),
        forall|i: int| 0 <= i < log.len() ==> (#[trigger] log[i]).outcome is Ok,
    ensures
        after.held == wanted(aggregate, known),
        before.held != wanted(aggregate, known) ==> after.remote_flags == flags_of(
            wanted(aggregate, known),
        ) && after.post_flags == local_part(local_flags, before.remote_flags) | flags_of(
            wanted(aggregate, known),
        ),
{
    let steps = steps_between(before.held, wanted(aggregate, known));
    let local = local_part(local_flags, before.remote_flags);
    let mid = choose|mid: Board|
        {
            &&& #[trigger] steps_posted(Board { local_flags, ..before }, local, steps, log, mid)
            &&& after == mid.settled()
        };
    lemma_taken_steps(Board { local_flags, ..before }, local, steps, log, mid);
    crate::keyboard::law_transitions_reach_what_is_desired(before.held, wanted(aggregate, known));
}

proof fn lemma_taken_steps(
    before: Board,
    local: u32,
    steps: Seq<(ModifierSide, Set<ModifierSide>)>,
    log: Seq<Attempt>,
    after: Board,
)
    requires
        steps_posted(before, local, steps, log, after),
        forall|i: int| 0 <= i < log.len() ==> (#[trigger] log[i]).outcome is Ok,
    ensures
        after.held == reached(before.held, steps),
        steps.len() > 0 ==> after.remote_flags == flags_of(after.held) && after.post_flags == local
            | flags_of(after.held),
    decreases steps.len(),
{
    reveal_with_fuel(steps_posted, 2);
    if steps.len() > 0 {
        let (side, held) = steps[0];
        let rest = log.skip(1);
        assert forall|i: int| 0 <= i < rest.len() implies (#[trigger] rest[i]).outcome is Ok by {
            assert(rest[i] == log[i + 1]);
        }
        assert(log[0].outcome is Ok);
        let next = Board {
            held,
            remote_flags: flags_of(held),
            post_flags: local | flags_of(held),
            ..before
        };
        lemma_taken_steps(next, local, steps.skip(1), rest, after);
    }
}

/// A snapshot that asks for what is held already posts nothing.
pub proof fn law_a_repeated_snapshot_is_silent(
    before: Board,
    aggregate: ModifierKinds,
    known: Set<ModifierSide>,
    local_flags: u32,
    log: Seq<Attempt>,
    after: Board,
)
    requires
        snapshot_published(before, aggregate, known, local_flags, log, after),
        before.held == wanted(aggregate, known),
    ensures
        log.len() == 0,
        after.held == before.held,
{
    lemma_no_steps(before.held, 8);
    assert(steps_between(before.held, before.held).len() == 0);
}

proof fn lemma_no_steps(held: Set<ModifierSide>, n: nat)
    ensures
        release_steps(held, held, n).len() == 0,
        press_steps(held, held, n).len() == 0,
    decreases n,
{
    if n > 0 {
        lemma_no_steps(held, (n - 1) as nat);
    }
}

/// A snapshot that drops every side leaves none of the flags behind that the remote was responsible
/// for, whatever the window server reported, and every managed flag that was not the remote's.
pub proof fn law_dropped_sides_leave_no_flag(
    before: Board,
    aggregate: ModifierKinds,
    known: Set<ModifierSide>,
    local_flags: u32,
    log: Seq<Attempt>,
    after: Board,
)
    requires
        snapshot_published(before, aggregate, known, local_flags, log, after),
        forall|i: int| 0 <= i < log.len() ==> (#[trigger] log[i]).outcome is Ok,
        wanted(aggregate, known) == Set::<ModifierSide>::empty(),
        before.held != Set::<ModifierSide>::empty(),
    ensures
        after.held == Set::<ModifierSide>::empty(),
        after.remote_flags == 0,
        after.post_flags & before.remote_flags == 0,
        after.post_flags == local_part(local_flags, before.remote_flags),
{
    law_a_snapshot_that_is_taken_is_held(before, aggregate, known, local_flags, log, after);
    lemma_no_flags(8);
    let remote = before.remote_flags;
    let managed = MANAGED_FLAG_MASKS;
    assert((((local_flags & !remote & managed) | 0u32) & remote) == 0 && ((local_flags & !remote
        & managed) | 0u32) == local_flags & !remote & managed) by (bit_vector);
}

proof fn lemma_no_flags(n: nat)
    ensures
        flags_below(Set::empty(), n) == 0,
    decreases n,
{
    if n > 0 {
        lemma_no_flags((n - 1) as nat);
    }
}

} // verus!
