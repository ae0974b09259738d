//! Keyboard injection on macOS, against a sink that fails on demand.

use mousehop::injector::{
    degradation_message, drop_is_reported, snapshot_changed, submission_is_reported,
    CleanupResidue, InjectorState, KeySink, KeyboardInjector, SnapshotLog,
};
use mousehop::keyboard::{
    describe_injection, describe_kinds, describe_sides, desired_sides, flags_for, key_category,
    locally_held_flags, path_name, transitions, Injection, InjectionPath, ModifierKinds,
    ModifierSide, ModifierSides, NX_ALPHASHIFTMASK, NX_ALTERNATEMASK, NX_COMMANDMASK,
    NX_CONTROLMASK, NX_DEVICELALTKEYMASK, NX_DEVICELCMDKEYMASK, NX_DEVICELCTLKEYMASK,
    NX_DEVICELSHIFTKEYMASK, NX_DEVICERALTKEYMASK, NX_DEVICERCMDKEYMASK, NX_DEVICERCTLKEYMASK,
    NX_DEVICERSHIFTKEYMASK, NX_SHIFTMASK,
};
use std::cell::RefCell;
use std::collections::BTreeSet;
use std::rc::Rc;

/// `kVK_Control`, the left Control virtual key code. The comparison app
/// that proved the IOHID path also used `kVK_Control`.
const LEFT_CONTROL: u16 = 0x3B;
/// `kVK_RightControl`.
const RIGHT_CONTROL: u16 = 0x3E;
/// `kVK_RightArrow`, the key in the reported shortcut.
const RIGHT_ARROW: u16 = 0x7C;
/// `kVK_CapsLock`.
const CAPS_LOCK: u16 = 0x39;

#[derive(Debug)]
struct FakeSink {
    preferred: InjectionPath,
    /// Paths to fail once, in order, before succeeding again.
    failures: RefCell<Vec<InjectionPath>>,
    /// One-based call numbers to fail once.
    call_failures: RefCell<Vec<usize>>,
    calls: RefCell<Vec<(InjectionPath, Injection)>>,
}

impl FakeSink {
    fn new(preferred: InjectionPath) -> Rc<Self> {
        Rc::new(Self {
            preferred,
            failures: RefCell::new(Vec::new()),
            call_failures: RefCell::new(Vec::new()),
            calls: RefCell::new(Vec::new()),
        })
    }

    fn fail_once(&self, path: InjectionPath) {
        self.failures.borrow_mut().push(path);
    }

    /// Fails the `call`-th (one-based) injection posted from now on.
    fn fail_call(&self, call: usize) {
        self.call_failures.borrow_mut().push(call);
    }

    fn injections(&self) -> Vec<Injection> {
        self.calls
            .borrow()
            .iter()
            .map(|(_, injection)| *injection)
            .collect()
    }

    fn calls(&self) -> Vec<(InjectionPath, Injection)> {
        self.calls.borrow().clone()
    }
}

/// A sink that the test and the injector share.
struct Handle(Rc<FakeSink>);

impl KeySink for Handle {
    fn preferred_path(&self) -> InjectionPath {
        self.0.preferred_path()
    }

    fn inject(&self, path: InjectionPath, injection: Injection) -> Result<(), i32> {
        self.0.inject(path, injection)
    }
}

impl FakeSink {
    fn preferred_path(&self) -> InjectionPath {
        self.preferred
    }

    fn inject(&self, path: InjectionPath, injection: Injection) -> Result<(), i32> {
        let call = {
            let mut calls = self.calls.borrow_mut();
            calls.push((path, injection));
            calls.len()
        };
        let mut call_failures = self.call_failures.borrow_mut();
        if let Some(index) = call_failures.iter().position(|failed| *failed == call) {
            call_failures.remove(index);
            return Err(-536_870_911);
        }
        drop(call_failures);
        let mut failures = self.failures.borrow_mut();
        if let Some(index) = failures.iter().position(|failed| *failed == path) {
            failures.remove(index);
            return Err(-536_870_911);
        }
        Ok(())
    }
}

fn sides(list: &[ModifierSide]) -> ModifierSides {
    list.iter()
        .fold(ModifierSides::default(), |set, side| set.with(side.bit()))
}

fn modifier(key_code: u16, flags: u32) -> Injection {
    Injection::Modifiers { key_code, flags }
}

fn key(key_code: u16, down: bool, cg_flags: u32) -> Injection {
    Injection::Key {
        key_code,
        down,
        cg_flags,
    }
}

#[test]
fn a_transient_key_up_failure_recovers_through_the_fallback_path() {
    let sink = FakeSink::new(InjectionPath::Nx);
    let mut injector = KeyboardInjector::new(Handle(sink.clone()), 1);

    injector.key_down(RIGHT_ARROW);
    sink.fail_once(InjectionPath::Nx);
    assert!(
        injector.key_up(RIGHT_ARROW).is_ok(),
        "the fallback retry delivered the release"
    );

    assert_eq!(
        sink.calls(),
        vec![
            (InjectionPath::Nx, key(RIGHT_ARROW, true, 0)),
            (InjectionPath::Nx, key(RIGHT_ARROW, false, 0)),
            (InjectionPath::CgEvent, key(RIGHT_ARROW, false, 0)),
        ],
        "a failed ordinary release must be retried through the fallback"
    );
    injector.key_down(0x0B);
    assert_eq!(
        sink.calls().last().copied(),
        Some((InjectionPath::CgEvent, key(0x0B, true, 0))),
        "a transient release failure must not drop later input forever"
    );
}

#[test]
fn a_caps_tap_release_failure_recovers_through_the_fallback_path() {
    let sink = FakeSink::new(InjectionPath::Nx);
    let mut injector = KeyboardInjector::new(Handle(sink.clone()), 1);

    sink.fail_call(2);
    assert!(
        injector.caps_tap(CAPS_LOCK).is_ok(),
        "the fallback retry delivered the tap's release"
    );

    assert_eq!(
        sink.calls(),
        vec![
            (InjectionPath::Nx, key(CAPS_LOCK, true, 0)),
            (InjectionPath::Nx, key(CAPS_LOCK, false, 0)),
            (InjectionPath::CgEvent, key(CAPS_LOCK, false, 0)),
        ],
        "the tap's key-up must be retried instead of leaving Caps Lock down"
    );
    injector.key_down(RIGHT_ARROW);
    assert_eq!(
        sink.calls().last().copied(),
        Some((InjectionPath::CgEvent, key(RIGHT_ARROW, true, 0)))
    );
}

#[test]
fn modifier_side_key_codes_are_the_macos_virtual_keys() {
    assert_eq!(ModifierSide::LeftShift.key_code(), 0x38);
    assert_eq!(ModifierSide::RightShift.key_code(), 0x3C);
    assert_eq!(ModifierSide::LeftControl.key_code(), 0x3B);
    assert_eq!(ModifierSide::RightControl.key_code(), 0x3E);
    assert_eq!(ModifierSide::LeftOption.key_code(), 0x3A);
    assert_eq!(ModifierSide::RightOption.key_code(), 0x3D);
    assert_eq!(ModifierSide::LeftCommand.key_code(), 0x37);
    assert_eq!(ModifierSide::RightCommand.key_code(), 0x36);
}

#[test]
fn every_side_maps_to_its_general_and_device_flags() {
    assert_eq!(
        flags_for(sides(&[ModifierSide::LeftControl])),
        NX_CONTROLMASK | NX_DEVICELCTLKEYMASK
    );
    assert_eq!(
        flags_for(sides(&[ModifierSide::RightControl])),
        NX_CONTROLMASK | NX_DEVICERCTLKEYMASK
    );
    assert_eq!(
        flags_for(sides(&[ModifierSide::LeftShift])),
        NX_SHIFTMASK | NX_DEVICELSHIFTKEYMASK
    );
    assert_eq!(
        flags_for(sides(&[ModifierSide::LeftShift, ModifierSide::RightShift])),
        NX_SHIFTMASK | NX_DEVICELSHIFTKEYMASK | NX_DEVICERSHIFTKEYMASK
    );
    assert_eq!(
        flags_for(sides(&[ModifierSide::LeftOption])),
        NX_ALTERNATEMASK | NX_DEVICELALTKEYMASK
    );
    assert_eq!(
        flags_for(sides(&[ModifierSide::RightOption])),
        NX_ALTERNATEMASK | NX_DEVICERALTKEYMASK
    );
    assert_eq!(
        flags_for(sides(&[ModifierSide::LeftCommand])),
        NX_COMMANDMASK | NX_DEVICELCMDKEYMASK
    );
    assert_eq!(
        flags_for(sides(&[ModifierSide::RightCommand])),
        NX_COMMANDMASK | NX_DEVICERCMDKEYMASK
    );
    assert_eq!(
        flags_for(sides(&[
            ModifierSide::LeftControl,
            ModifierSide::RightCommand
        ])),
        NX_CONTROLMASK | NX_DEVICELCTLKEYMASK | NX_COMMANDMASK | NX_DEVICERCMDKEYMASK
    );
    assert_eq!(flags_for(ModifierSides::default()), 0);
}

#[test]
fn a_remote_control_press_posts_a_flags_changed_with_the_left_side_key_code() {
    let sink = FakeSink::new(InjectionPath::Nx);
    let mut injector = KeyboardInjector::new(Handle(sink.clone()), 1);

    injector.sync_modifiers(ModifierKinds::control(), ModifierSides::default(), 0);

    assert_eq!(
        sink.injections(),
        vec![modifier(
            LEFT_CONTROL,
            NX_CONTROLMASK | NX_DEVICELCTLKEYMASK
        )]
    );
}

#[test]
fn a_remote_right_control_press_reports_the_right_device_flag() {
    let sink = FakeSink::new(InjectionPath::Nx);
    let mut injector = KeyboardInjector::new(Handle(sink.clone()), 1);

    injector.sync_modifiers(
        ModifierKinds::control(),
        sides(&[ModifierSide::RightControl]),
        0,
    );

    assert_eq!(
        sink.injections(),
        vec![modifier(
            RIGHT_CONTROL,
            NX_CONTROLMASK | NX_DEVICERCTLKEYMASK
        )]
    );
}

#[test]
fn an_unchanged_snapshot_does_not_repeat_the_transition() {
    let sink = FakeSink::new(InjectionPath::Nx);
    let mut injector = KeyboardInjector::new(Handle(sink.clone()), 1);
    let both = sides(&[ModifierSide::LeftControl, ModifierSide::RightControl]);

    injector.sync_modifiers(ModifierKinds::control(), both, 0);
    injector.sync_modifiers(ModifierKinds::control(), both, 0);

    assert_eq!(sink.injections().len(), 2);
}

#[test]
fn releasing_one_control_side_keeps_the_other_side_held() {
    let sink = FakeSink::new(InjectionPath::Nx);
    let mut injector = KeyboardInjector::new(Handle(sink.clone()), 1);

    injector.sync_modifiers(
        ModifierKinds::control(),
        sides(&[ModifierSide::LeftControl, ModifierSide::RightControl]),
        0,
    );
    injector.sync_modifiers(
        ModifierKinds::control(),
        sides(&[ModifierSide::RightControl]),
        0,
    );

    assert_eq!(
        sink.injections().last().copied(),
        Some(modifier(
            LEFT_CONTROL,
            NX_CONTROLMASK | NX_DEVICERCTLKEYMASK
        ))
    );
}

#[test]
fn a_snapshot_without_side_information_uses_the_left_side() {
    assert_eq!(
        desired_sides(ModifierKinds::control(), ModifierSides::default()),
        sides(&[ModifierSide::LeftControl])
    );
    assert_eq!(
        desired_sides(
            ModifierKinds::control().with(ModifierKinds::command()),
            sides(&[ModifierSide::RightCommand])
        ),
        sides(&[ModifierSide::LeftControl, ModifierSide::RightCommand])
    );
}

#[test]
fn a_snapshot_migrates_off_the_invented_side_when_a_real_side_arrives() {
    let sink = FakeSink::new(InjectionPath::Nx);
    let mut injector = KeyboardInjector::new(Handle(sink.clone()), 1);

    injector.sync_modifiers(ModifierKinds::control(), ModifierSides::default(), 0);
    injector.sync_modifiers(
        ModifierKinds::control(),
        sides(&[ModifierSide::RightControl]),
        0,
    );

    assert_eq!(
        sink.injections(),
        vec![
            modifier(LEFT_CONTROL, NX_CONTROLMASK | NX_DEVICELCTLKEYMASK),
            modifier(LEFT_CONTROL, 0),
            modifier(RIGHT_CONTROL, NX_CONTROLMASK | NX_DEVICERCTLKEYMASK),
        ]
    );
}

#[test]
fn a_snapshot_that_drops_a_kind_releases_the_invented_side() {
    let sink = FakeSink::new(InjectionPath::Nx);
    let mut injector = KeyboardInjector::new(Handle(sink.clone()), 1);

    injector.sync_modifiers(ModifierKinds::control(), ModifierSides::default(), 0);
    injector.sync_modifiers(ModifierKinds::default(), ModifierSides::default(), 0);

    assert_eq!(
        sink.injections(),
        vec![
            modifier(LEFT_CONTROL, NX_CONTROLMASK | NX_DEVICELCTLKEYMASK),
            modifier(LEFT_CONTROL, 0),
        ]
    );
}

#[test]
fn the_remote_snapshot_never_clears_a_locally_held_modifier() {
    let local_shift = NX_SHIFTMASK | NX_DEVICELSHIFTKEYMASK;
    let sink = FakeSink::new(InjectionPath::Nx);
    let mut injector = KeyboardInjector::new(Handle(sink.clone()), 1);

    injector.sync_modifiers(
        ModifierKinds::control(),
        ModifierSides::default(),
        local_shift,
    );
    assert_eq!(
        sink.injections().last().copied(),
        Some(modifier(
            LEFT_CONTROL,
            local_shift | NX_CONTROLMASK | NX_DEVICELCTLKEYMASK
        ))
    );

    injector.sync_modifiers(
        ModifierKinds::default(),
        ModifierSides::default(),
        local_shift,
    );
    assert_eq!(
        sink.injections().last().copied(),
        Some(modifier(LEFT_CONTROL, local_shift))
    );
    // Bits the remote is responsible for are released; the bits it never
    // claimed belong to the local keyboard and are kept.
    assert_eq!(locally_held_flags(local_shift, 0), local_shift);
    assert_eq!(locally_held_flags(local_shift, local_shift), 0);
    assert_eq!(
        locally_held_flags(0, local_shift | NX_CONTROLMASK | NX_DEVICELCTLKEYMASK),
        0
    );
}

#[test]
fn releasing_both_injected_control_sides_leaves_the_flags_clear() {
    let sink = FakeSink::new(InjectionPath::Nx);
    let mut injector = KeyboardInjector::new(Handle(sink.clone()), 1);
    let both = sides(&[ModifierSide::LeftControl, ModifierSide::RightControl]);

    injector.sync_modifiers(ModifierKinds::control(), both, 0);
    // A later snapshot observes the combined state the window server
    // reports, which is this backend's own injection.
    injector.sync_modifiers(ModifierKinds::control(), both, flags_for(both));
    injector.release_all();

    assert_eq!(
        sink.injections().last().copied(),
        Some(modifier(RIGHT_CONTROL, 0)),
        "a released remote side must not come back as a locally held flag"
    );
}

#[test]
fn a_snapshot_that_dropped_every_side_leaves_no_injected_flag_behind() {
    let sink = FakeSink::new(InjectionPath::Nx);
    let mut injector = KeyboardInjector::new(Handle(sink.clone()), 1);
    let both = sides(&[ModifierSide::LeftControl, ModifierSide::RightControl]);

    injector.sync_modifiers(ModifierKinds::control(), both, 0);
    injector.sync_modifiers(ModifierKinds::control(), both, flags_for(both));
    injector.sync_modifiers(
        ModifierKinds::default(),
        ModifierSides::default(),
        flags_for(both),
    );

    assert_eq!(
        sink.injections().last().copied(),
        Some(modifier(RIGHT_CONTROL, 0))
    );
}

#[test]
fn a_locally_held_modifier_survives_a_multi_step_release_batch() {
    let local_shift = NX_SHIFTMASK | NX_DEVICELSHIFTKEYMASK;
    let sink = FakeSink::new(InjectionPath::Nx);
    let mut injector = KeyboardInjector::new(Handle(sink.clone()), 1);
    let both = sides(&[ModifierSide::LeftControl, ModifierSide::RightControl]);

    injector.sync_modifiers(ModifierKinds::control(), both, local_shift);
    injector.sync_modifiers(ModifierKinds::control(), both, local_shift | flags_for(both));
    injector.sync_modifiers(
        ModifierKinds::default(),
        ModifierSides::default(),
        local_shift | flags_for(both),
    );

    assert_eq!(
        sink.injections().last().copied(),
        Some(modifier(RIGHT_CONTROL, local_shift))
    );
}

#[test]
fn ordinary_keys_carry_modifier_state_only_for_the_fallback_path() {
    let sink = FakeSink::new(InjectionPath::Nx);
    let mut injector = KeyboardInjector::new(Handle(sink.clone()), 1);

    injector.sync_modifiers(ModifierKinds::control(), ModifierSides::default(), 0);
    injector.key_down(RIGHT_ARROW);
    assert!(injector.key_up(RIGHT_ARROW).is_ok());

    assert_eq!(
        sink.injections(),
        vec![
            modifier(LEFT_CONTROL, NX_CONTROLMASK | NX_DEVICELCTLKEYMASK),
            key(RIGHT_ARROW, true, NX_CONTROLMASK | NX_DEVICELCTLKEYMASK),
            key(RIGHT_ARROW, false, NX_CONTROLMASK | NX_DEVICELCTLKEYMASK),
        ]
    );
}

#[test]
fn caps_lock_is_one_tap_and_leaves_nothing_to_release() {
    let sink = FakeSink::new(InjectionPath::Nx);
    let mut injector = KeyboardInjector::new(Handle(sink.clone()), 1);

    assert!(injector.caps_tap(CAPS_LOCK).is_ok());
    injector.release_all();

    assert_eq!(
        sink.injections(),
        vec![key(CAPS_LOCK, true, 0), key(CAPS_LOCK, false, 0)]
    );
}

#[test]
fn a_caps_tap_whose_release_fails_is_retried_by_cleanup() {
    let sink = FakeSink::new(InjectionPath::Nx);
    let mut injector = KeyboardInjector::new(Handle(sink.clone()), 1);

    // The tap's key-up is the second injection it posts.
    sink.fail_call(2);
    assert!(injector.caps_tap(CAPS_LOCK).is_ok());
    injector.release_all();

    assert_eq!(
        sink.calls(),
        vec![
            (InjectionPath::Nx, key(CAPS_LOCK, true, 0)),
            (InjectionPath::Nx, key(CAPS_LOCK, false, 0)),
            (InjectionPath::CgEvent, key(CAPS_LOCK, false, 0)),
        ]
    );
}

#[test]
fn release_all_releases_keys_before_modifiers() {
    let sink = FakeSink::new(InjectionPath::Nx);
    let mut injector = KeyboardInjector::new(Handle(sink.clone()), 1);

    injector.sync_modifiers(ModifierKinds::control(), ModifierSides::default(), 0);
    injector.key_down(RIGHT_ARROW);
    injector.release_all();

    assert_eq!(
        sink.injections(),
        vec![
            modifier(LEFT_CONTROL, NX_CONTROLMASK | NX_DEVICELCTLKEYMASK),
            key(RIGHT_ARROW, true, NX_CONTROLMASK | NX_DEVICELCTLKEYMASK),
            key(RIGHT_ARROW, false, NX_CONTROLMASK | NX_DEVICELCTLKEYMASK),
            modifier(LEFT_CONTROL, 0),
        ]
    );
}

#[test]
fn an_iohid_failure_holds_new_presses_until_the_recorded_input_is_released() {
    let sink = FakeSink::new(InjectionPath::Nx);
    let mut injector = KeyboardInjector::new(Handle(sink.clone()), 1);

    injector.key_down(0x00);
    sink.fail_once(InjectionPath::Nx);
    injector.key_down(0x0B);
    injector.key_down(0x08);
    assert_eq!(sink.calls().len(), 2, "the dropped press is never posted");

    assert!(injector.key_up(0x00).is_ok());
    injector.key_down(0x08);
    assert_eq!(
        sink.calls().last().copied(),
        Some((InjectionPath::CgEvent, key(0x08, true, 0)))
    );
}

#[test]
fn a_failed_iohid_release_is_retried_once_through_the_fallback_path() {
    let sink = FakeSink::new(InjectionPath::Nx);
    let mut injector = KeyboardInjector::new(Handle(sink.clone()), 1);

    injector.key_down(RIGHT_ARROW);
    sink.fail_once(InjectionPath::Nx);
    injector.release_all();

    assert_eq!(
        sink.calls(),
        vec![
            (InjectionPath::Nx, key(RIGHT_ARROW, true, 0)),
            (InjectionPath::Nx, key(RIGHT_ARROW, false, 0)),
            (InjectionPath::CgEvent, key(RIGHT_ARROW, false, 0)),
        ]
    );
    injector.key_down(RIGHT_ARROW);
    assert_eq!(
        sink.calls().last().copied(),
        Some((InjectionPath::CgEvent, key(RIGHT_ARROW, true, 0)))
    );
}

#[test]
fn a_key_up_failure_on_both_paths_is_propagated_and_recovers_on_retry() {
    let sink = FakeSink::new(InjectionPath::Nx);
    let mut injector = KeyboardInjector::new(Handle(sink.clone()), 1);

    injector.key_down(RIGHT_ARROW);
    sink.fail_once(InjectionPath::Nx);
    sink.fail_once(InjectionPath::CgEvent);
    assert!(
        injector.key_up(RIGHT_ARROW).is_err(),
        "an unreleasable key must be reported, not silently recorded"
    );

    // The failed release keeps the key recorded, so a new press is held
    // back instead of interleaving with unconfirmed state. It must not
    // be swallowed forever: the key's next release retries both paths
    // and, once clean, the session degrades for new input.
    injector.key_down(0x0B);
    assert_eq!(sink.calls().len(), 3, "the press is held back");
    assert!(injector.key_up(RIGHT_ARROW).is_ok());
    injector.key_down(0x0B);
    assert_eq!(
        sink.calls().last().copied(),
        Some((InjectionPath::CgEvent, key(0x0B, true, 0)))
    );
}

#[test]
fn a_release_that_fails_on_both_paths_keeps_the_side_recorded() {
    let sink = FakeSink::new(InjectionPath::Nx);
    let mut injector = KeyboardInjector::new(Handle(sink.clone()), 1);

    injector.sync_modifiers(ModifierKinds::control(), ModifierSides::default(), 0);
    sink.fail_once(InjectionPath::Nx);
    sink.fail_once(InjectionPath::CgEvent);
    injector.release_all();
    assert_eq!(
        sink.calls().last().copied(),
        Some((InjectionPath::CgEvent, modifier(LEFT_CONTROL, 0)))
    );

    // The next snapshot still knows Control was never released, so it
    // releases it again instead of inventing a second press, and only then
    // is the session clean enough for the fallback path.
    injector.sync_modifiers(ModifierKinds::default(), ModifierSides::default(), 0);
    assert_eq!(
        sink.calls().last().copied(),
        Some((InjectionPath::Nx, modifier(LEFT_CONTROL, 0)))
    );

    // Only once that release is confirmed does the session switch to the
    // fallback for new presses.
    injector.key_down(0x00);
    assert_eq!(
        sink.calls().last().copied(),
        Some((InjectionPath::CgEvent, key(0x00, true, 0)))
    );
}

#[test]
fn an_unavailable_path_starts_on_the_cg_event_fallback() {
    let sink = FakeSink::new(InjectionPath::CgEvent);
    let mut injector = KeyboardInjector::new(Handle(sink.clone()), 1);

    injector.key_down(RIGHT_ARROW);
    assert_eq!(
        sink.calls().last().copied(),
        Some((InjectionPath::CgEvent, key(RIGHT_ARROW, true, 0)))
    );
}

#[test]
fn a_release_that_fails_on_both_paths_is_reported() {
    let sink = FakeSink::new(InjectionPath::Nx);
    let state = InjectorState {
        path: InjectionPath::Nx,
        held_sides: sides(&[ModifierSide::LeftControl]),
        remote_flags: NX_CONTROLMASK | NX_DEVICELCTLKEYMASK,
        post_flags: NX_CONTROLMASK | NX_DEVICELCTLKEYMASK,
        local_flags: 0,
        pressed_keys: BTreeSet::new(),
        degraded: false,
        dropped_presses: 0,
        last_snapshot_log: None,
    };
    let mut injector = KeyboardInjector::with_state(Handle(sink.clone()), 1, state);

    sink.fail_once(InjectionPath::Nx);
    sink.fail_once(InjectionPath::CgEvent);

    assert!(
        injector
            .release(InjectionPath::Nx, modifier(LEFT_CONTROL, 0))
            .is_err()
    );
    assert_eq!(
        sink.calls(),
        vec![
            (InjectionPath::Nx, modifier(LEFT_CONTROL, 0)),
            (InjectionPath::CgEvent, modifier(LEFT_CONTROL, 0)),
        ]
    );
    assert!(injector.state().degraded);
}

fn fresh_state() -> InjectorState {
    InjectorState {
        path: InjectionPath::Nx,
        held_sides: ModifierSides::default(),
        remote_flags: 0,
        post_flags: 0,
        local_flags: 0,
        pressed_keys: BTreeSet::new(),
        degraded: false,
        dropped_presses: 0,
        last_snapshot_log: None,
    }
}

#[test]
fn categories_and_redaction_hide_ordinary_key_codes() {
    // kVK_ANSI_A / kVK_ANSI_S: identities of ordinary typing.
    assert_eq!(key_category(0x00), "ordinary");
    assert_eq!(key_category(0x01), "ordinary");
    assert_eq!(key_category(RIGHT_ARROW), "arrow");
    assert_eq!(key_category(0x39), "caps_lock");
    assert_eq!(key_category(LEFT_CONTROL), "modifier");

    let ordinary = describe_injection(key(0x01, true, 0));
    assert!(ordinary.contains("category=ordinary"));
    assert!(
        !ordinary.contains("key_code"),
        "ordinary key identity must never reach diagnostics: {ordinary}"
    );
    let shortcut = describe_injection(key(RIGHT_ARROW, true, 0));
    assert!(shortcut.contains("category=arrow"));
}

#[test]
fn paths_and_modifier_sides_are_named_stably() {
    assert_eq!(path_name(InjectionPath::Nx), "iohid");
    assert_eq!(path_name(InjectionPath::CgEvent), "cgevent");
    let both = ModifierSide::LeftControl
        .bit()
        .with(ModifierSide::RightControl.bit());
    assert_eq!(describe_sides(both), "left_control+right_control");
    assert_eq!(describe_sides(ModifierSides::default()), "none");
}

#[test]
fn snapshot_diagnostics_report_each_distinct_state_once() {
    let mut state = fresh_state();
    let entry = SnapshotLog {
        kinds: ModifierKinds::control(),
        known: ModifierSide::LeftControl.bit(),
        observed_flags: NX_CONTROLMASK,
        injected_sides: ModifierSide::LeftControl.bit(),
        posted_flags: NX_CONTROLMASK,
    };
    assert!(snapshot_changed(&mut state, entry));
    assert!(
        !snapshot_changed(&mut state, entry),
        "an unchanged snapshot must stay silent"
    );
    let moved = SnapshotLog {
        injected_sides: ModifierSide::RightControl.bit(),
        ..entry
    };
    assert!(
        snapshot_changed(&mut state, moved),
        "a new injected side must be reported"
    );
}

#[test]
fn degradation_diagnostics_carry_totals_and_avoid_absolute_claims() {
    let message = degradation_message(7, 12);
    assert!(message.contains("session=7"));
    assert!(message.contains("dropped_presses_total=12"));
    assert!(message.contains("new_path=cgevent"));
    assert!(message.contains("does_not_guarantee_macos_system_shortcuts"));
    assert!(
        !message.to_lowercase().contains("cannot"),
        "the fallback is best effort, not proven impossible: {message}"
    );
}

#[test]
fn cleanup_residue_reports_keys_that_survived_both_paths() {
    let sink = FakeSink::new(InjectionPath::Nx);
    let mut injector = KeyboardInjector::new(Handle(sink.clone()), 1);

    injector.key_down(RIGHT_ARROW);
    assert_eq!(
        injector.pending(),
        CleanupResidue {
            pressed_keys: 1,
            modifier_sides: ModifierSides::default(),
        }
    );

    sink.fail_once(InjectionPath::Nx);
    sink.fail_once(InjectionPath::CgEvent);
    let residue = injector.release_all();
    assert_eq!(residue.pressed_keys, 1);
    assert!(residue.modifier_sides.is_empty());

    // Once both paths accept the release, cleanup reports a clean
    // state for the destroy/terminate diagnostics.
    assert!(injector.release_all().is_empty());
    assert!(injector.pending().is_empty());
}

#[test]
fn cleanup_residue_reports_a_stuck_modifier_side() {
    let sink = FakeSink::new(InjectionPath::Nx);
    let mut injector = KeyboardInjector::new(Handle(sink.clone()), 1);

    injector.sync_modifiers(
        ModifierKinds::control(),
        sides(&[ModifierSide::LeftControl]),
        0,
    );
    sink.fail_once(InjectionPath::Nx);
    sink.fail_once(InjectionPath::CgEvent);

    let residue = injector.release_all();
    assert_eq!(residue.pressed_keys, 0);
    assert_eq!(residue.modifier_sides, sides(&[ModifierSide::LeftControl]));
}

#[test]
fn transitions_release_before_they_press() {
    let held = sides(&[ModifierSide::LeftShift, ModifierSide::RightCommand]);
    let desired = sides(&[ModifierSide::LeftControl, ModifierSide::RightCommand]);
    assert_eq!(
        transitions(held, desired),
        vec![
            (
                ModifierSide::LeftShift,
                sides(&[ModifierSide::RightCommand])
            ),
            (ModifierSide::LeftControl, desired),
        ]
    );
    assert!(transitions(desired, desired).is_empty());
}

#[test]
fn the_caps_lock_bit_is_only_carried() {
    assert_eq!(
        locally_held_flags(NX_ALPHASHIFTMASK | 0x8000_0000, 0),
        NX_ALPHASHIFTMASK
    );
    for bits in 0..=255u8 {
        let set = ModifierSides::from_bits_truncate(bits);
        assert_eq!(flags_for(set) & NX_ALPHASHIFTMASK, 0);
    }
}

#[test]
fn sets_of_sides_behave_as_sets() {
    let left = ModifierSide::LeftShift.bit();
    let both = left.with(ModifierSide::RightShift.bit());
    assert!(both.contains(left));
    assert!(!left.contains(both));
    assert!(both.intersects(left));
    assert!(!left.intersects(ModifierSide::RightShift.bit()));
    assert_eq!(both.without(left), ModifierSide::RightShift.bit());
    assert!(left.without(left).is_empty());
    assert_eq!(ModifierSides::from_bits_truncate(3), both);
    for side in ModifierSide::all() {
        assert_eq!(ModifierSide::from_key_code(side.key_code()), Some(side));
        assert_eq!(side.sibling().sibling(), side);
        assert_ne!(side.is_default_side(), side.sibling().is_default_side());
        assert!(side.bit().holds(side));
    }
    assert_eq!(ModifierSide::from_key_code(0x39), None);
}

#[test]
fn a_snapshot_change_is_told_once() {
    let sink = FakeSink::new(InjectionPath::Nx);
    let mut injector = KeyboardInjector::new(Handle(sink.clone()), 4);
    assert_eq!(injector.session(), 4);
    assert!(injector.sync_modifiers(ModifierKinds::shift(), ModifierSides::default(), 0));
    assert!(!injector.sync_modifiers(ModifierKinds::shift(), ModifierSides::default(), 0));
    assert!(injector.sync_modifiers(ModifierKinds::default(), ModifierSides::default(), 0));
}

#[test]
fn cleanup_survives_an_iohid_path_that_always_fails() {
    let sink = FakeSink::new(InjectionPath::Nx);
    let mut injector = KeyboardInjector::new(Handle(sink.clone()), 1);
    for key_code in [9, 3, 7] {
        injector.key_down(key_code);
    }
    injector.sync_modifiers(
        ModifierKinds::command(),
        sides(&[ModifierSide::RightCommand]),
        0,
    );
    for _ in 0..4 {
        sink.fail_once(InjectionPath::Nx);
    }
    assert!(injector.release_all().is_empty());
    assert_eq!(injector.current_path(), InjectionPath::CgEvent);
    assert!(!injector.state().degraded);
    let released: Vec<Injection> = sink
        .calls()
        .iter()
        .filter(|(path, _)| *path == InjectionPath::CgEvent)
        .map(|(_, injection)| *injection)
        .collect();
    let flags = NX_COMMANDMASK | NX_DEVICERCMDKEYMASK;
    assert_eq!(
        released,
        vec![
            key(3, false, flags),
            key(7, false, flags),
            key(9, false, flags),
            modifier(0x36, 0),
        ]
    );
}

#[test]
fn presses_held_back_are_counted_until_the_path_changes() {
    let sink = FakeSink::new(InjectionPath::Nx);
    let mut injector = KeyboardInjector::new(Handle(sink.clone()), 1);
    injector.key_down(1);
    sink.fail_once(InjectionPath::Nx);
    injector.key_down(2);
    injector.key_down(3);
    assert!(injector.caps_tap(CAPS_LOCK).is_ok());
    assert_eq!(injector.state().dropped_presses, 2);
    assert!(injector.key_up(1).is_ok());
    assert_eq!(injector.state().dropped_presses, 0);
    assert!(drop_is_reported(1));
    assert!(!drop_is_reported(2));
    assert!(drop_is_reported(128));
}

#[test]
fn a_failed_caps_press_is_not_replayed() {
    let sink = FakeSink::new(InjectionPath::CgEvent);
    let mut injector = KeyboardInjector::new(Handle(sink.clone()), 1);
    sink.fail_call(1);
    assert!(injector.caps_tap(CAPS_LOCK).is_ok());
    assert_eq!(sink.calls().len(), 1);
    sink.fail_call(3);
    assert_eq!(injector.caps_tap(CAPS_LOCK), Err(-536_870_911));
    assert_eq!(injector.pending().pressed_keys, 1);
}

#[test]
fn diagnostics_read_exactly_so() {
    assert_eq!(
        describe_injection(modifier(0x3B, 0x0004_0001)),
        "modifiers side=left_control key_code=0x003b flags=0x00040001"
    );
    assert_eq!(
        describe_injection(modifier(0x01, 0)),
        "modifiers side=unknown key_code=0x0001 flags=0x00000000"
    );
    assert_eq!(
        describe_injection(key(RIGHT_ARROW, false, 0)),
        "key category=arrow key_code=0x007c down=false"
    );
    assert_eq!(
        describe_injection(key(0x01, true, 0)),
        "key category=ordinary down=true"
    );
    assert_eq!(describe_kinds(ModifierKinds::default()), "none");
    assert_eq!(
        describe_kinds(ModifierKinds::shift().with(ModifierKinds::command())),
        "shift+command"
    );
    assert!(submission_is_reported(modifier(0x3B, 0)));
    assert!(!submission_is_reported(key(0x01, true, 0)));
    assert_eq!(
        degradation_message(7, 12),
        "event=path_degraded session=7 reason=iohid_injection_failure new_path=cgevent \
         dropped_presses_total=12 \
         recovery_condition=every_injected_key_and_modifier_released \
         iohid_retry=only_in_a_new_backend_session \
         note=cgevent_types_but_does_not_guarantee_macos_system_shortcuts"
    );
}
