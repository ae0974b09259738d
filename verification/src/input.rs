//! Input events as the local devices report them.
//!
//! Pointer distances are IEEE-754 doubles, carried as their bit patterns.

use vstd::prelude::*;

verus! {

#[derive(Clone, Copy, Debug, PartialEq, Eq, Structural)]
pub enum PointerEvent {
    /// Relative motion.
    Motion { time: u32, dx: u64, dy: u64 },
    Button { time: u32, button: u32, state: u32 },
    /// Continuous scrolling; `momentum` where the device coasts without a finger on it.
    Axis { time: u32, axis: u8, value: u64, momentum: bool },
    /// Scrolling by wheel clicks, 120 to a click.
    AxisDiscrete120 { axis: u8, value: i32 },
}

#[derive(Clone, Copy, Debug, PartialEq, Eq, Structural)]
pub enum KeyboardEvent {
    /// 0 is a release, 1 a press, anything above a repeat.
    Key { time: u32, key: u32, state: u8 },
    Modifiers { depressed: u32, latched: u32, locked: u32, group: u32 },
}

#[derive(Clone, Copy, Debug, PartialEq, Eq, Structural)]
pub enum Event {
    Pointer(PointerEvent),
    Keyboard(KeyboardEvent),
    /// A clipboard change, whose content does not matter here.
    Clipboard,
}

} // verus!
