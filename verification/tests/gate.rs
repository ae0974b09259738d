//! What passes to the peer and what is let in from it.

use mousehop::gate::PhysicalGate;
use mousehop::input::{Event, KeyboardEvent, PointerEvent};
use mousehop::lifecycle::{Generation, Link};
use mousehop::token::RecoveryToken;
use std::cell::RefCell;
use std::rc::Rc;

const BTN_LEFT: u32 = 0x110;

fn key(state: u8) -> Event {
    Event::Keyboard(KeyboardEvent::Key {
        time: 0,
        key: 30,
        state,
    })
}

fn button(state: u32) -> Event {
    Event::Pointer(PointerEvent::Button {
        time: 0,
        button: BTN_LEFT,
        state,
    })
}

fn scroll(momentum: bool) -> Event {
    Event::Pointer(PointerEvent::Axis {
        time: 0,
        axis: 0,
        value: 2.5f64.to_bits(),
        momentum,
    })
}

#[test]
fn r13_held_keys_buttons_and_repeat_require_physical_release() {
    let mut gate = PhysicalGate::default();
    assert!(gate.filter(key(1)).is_some());
    gate.freeze();
    assert!(gate.filter(button(1)).is_none());
    gate.resume();
    for event in [key(2), key(1), button(1), key(0), button(0)] {
        assert!(gate.filter(event).is_none());
    }
    assert!(gate.filter(key(1)).is_some());
    assert!(gate.filter(button(1)).is_some());
}

#[test]
fn r13_pause_discards_motion_scroll_and_filters_modifier_snapshots() {
    let mut gate = PhysicalGate::default();
    let mods = |depressed| {
        Event::Keyboard(KeyboardEvent::Modifiers {
            depressed,
            latched: 0,
            locked: 0,
            group: 0,
        })
    };
    gate.filter(mods(3));
    gate.freeze();
    assert!(
        gate.filter(Event::Pointer(PointerEvent::Motion {
            time: 0,
            dx: 42.0f64.to_bits(),
            dy: (-7.0f64).to_bits()
        }))
        .is_none()
    );
    assert!(
        gate.filter(Event::Pointer(PointerEvent::AxisDiscrete120 {
            axis: 0,
            value: 120
        }))
        .is_none()
    );
    gate.resume();
    assert_eq!(gate.filter(mods(3)), Some(mods(0)));
    assert_eq!(gate.filter(mods(0)), Some(mods(0)));
    assert_eq!(gate.filter(mods(1)), Some(mods(1)));
}

#[test]
fn a_key_and_a_button_of_one_number_are_two_things() {
    let mut gate = PhysicalGate::default();
    let same_number = Event::Pointer(PointerEvent::Button {
        time: 0,
        button: 30,
        state: 1,
    });
    gate.filter(key(1));
    gate.freeze();
    gate.resume();
    assert!(gate.filter(key(1)).is_none());
    assert_eq!(gate.filter(same_number), Some(same_number));
}

#[test]
fn coasting_stays_out_until_the_user_scrolls() {
    let mut gate = PhysicalGate::default();
    assert!(gate.filter(scroll(true)).is_some());
    gate.freeze();
    assert!(gate.filter(scroll(false)).is_none());
    gate.resume();
    assert!(gate.filter(scroll(true)).is_none());
    assert_eq!(gate.filter(scroll(false)), Some(scroll(false)));
    assert_eq!(gate.filter(scroll(true)), Some(scroll(true)));
    assert_eq!(gate.filter(Event::Clipboard), Some(Event::Clipboard));
}

#[test]
fn modifiers_that_went_down_during_the_pause_stay_out_on_every_level() {
    let mut gate = PhysicalGate::default();
    let mods = |depressed, latched, locked| {
        Event::Keyboard(KeyboardEvent::Modifiers {
            depressed,
            latched,
            locked,
            group: 7,
        })
    };
    gate.freeze();
    assert!(gate.filter(mods(1, 2, 4)).is_none());
    gate.resume();
    assert_eq!(gate.filter(mods(9, 10, 12)), Some(mods(8, 8, 8)));
    assert_eq!(gate.filter(mods(8, 2, 0)), Some(mods(8, 0, 0)));
    assert_eq!(gate.filter(mods(1, 2, 4)), Some(mods(1, 0, 4)));
}

#[test]
fn recovery_r1_2_old_queue_and_reconnect_tokens_never_reopen() {
    let link = Link::default();
    let old = Rc::new(RefCell::new(RecoveryToken::new([1; 16], 0)));
    assert!(!old.borrow_mut().activate());
    old.borrow_mut().prepare();
    assert!(old.borrow_mut().activate());
    let queued = old.clone();
    old.borrow_mut().retire();
    assert!(!queued.borrow().valid(&link, 0));
    old.borrow_mut().prepare();
    assert!(!old.borrow_mut().activate());
    let mut replacement = RecoveryToken::new([1; 16], 0);
    replacement.prepare();
    assert!(replacement.activate());
    assert!(!queued.borrow().valid(&link, 0));
}

#[test]
fn a_bound_token_follows_its_generation() {
    let mut link = Link::default();
    let generation = Generation::new([1; 16], 4, None);
    link.generation = Some(generation);
    let mut token = RecoveryToken::new([1; 16], 4);
    assert_eq!((token.session(), token.epoch()), ([1; 16], 4));
    assert!(!token.bind(Generation::new([1; 16], 3, None), &link, 0));
    assert!(!token.bind(Generation::new([2; 16], 4, None), &link, 0));
    assert!(token.bind(generation, &link, 0));
    token.prepare();
    assert!(!token.valid(&link, 0));
    assert!(token.activate());
    assert!(token.valid(&link, 0));
    link.generation = Some(Generation::new([1; 16], 5, None));
    assert!(!token.valid(&link, 0));
    assert!(!token.bind(generation, &link, 0));
}

#[test]
fn only_a_frozen_token_takes_a_barrier_result() {
    let mut token = RecoveryToken::new([1; 16], 0);
    assert_eq!(token.barrier_result(Err::<u8, u8>(4)), Some(Err(4)));
    assert!(token.frozen());
    assert_eq!(token.barrier_result(Ok::<u8, u8>(1)), Some(Ok(1)));
    assert!(!token.frozen());
    assert!(token.activate());
    token.retire();
    assert!(token.retired());
    assert_eq!(token.barrier_result(Ok::<u8, u8>(1)), None);
}
