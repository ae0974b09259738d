//! Windows input injection planning.
//!
//! `SendInput` takes one record per event. This module decides which record an event becomes, when
//! a key repeats, and where the cursor goes; the caller performs the system calls.

use vstd::prelude::*;

verus! {

pub const MOUSEEVENTF_MOVE: u32 = 0x0001;

pub const MOUSEEVENTF_LEFTDOWN: u32 = 0x0002;

pub const MOUSEEVENTF_LEFTUP: u32 = 0x0004;

pub const MOUSEEVENTF_RIGHTDOWN: u32 = 0x0008;

pub const MOUSEEVENTF_RIGHTUP: u32 = 0x0010;

pub const MOUSEEVENTF_MIDDLEDOWN: u32 = 0x0020;

pub const MOUSEEVENTF_MIDDLEUP: u32 = 0x0040;

pub const MOUSEEVENTF_XDOWN: u32 = 0x0080;

pub const MOUSEEVENTF_XUP: u32 = 0x0100;

pub const MOUSEEVENTF_WHEEL: u32 = 0x0800;

pub const MOUSEEVENTF_HWHEEL: u32 = 0x1000;

pub const XBUTTON1: u32 = 1;

pub const XBUTTON2: u32 = 2;

pub const KEYEVENTF_EXTENDEDKEY: u32 = 0x0001;

pub const KEYEVENTF_KEYUP: u32 = 0x0002;

pub const KEYEVENTF_SCANCODE: u32 = 0x0008;

/// Fallback initial key-repeat delay in milliseconds, for a machine whose setting can't be read.
pub const DEFAULT_REPEAT_DELAY_MS: u64 = 500;

/// Fallback key-repeat interval in milliseconds, for a machine whose setting can't be read.
pub const DEFAULT_REPEAT_INTERVAL_MS: u64 = 32;

/// A `MOUSEINPUT` record; the fields that are always zero are left out.
#[derive(Clone, Copy, Debug, PartialEq, Eq, Structural)]
pub struct MouseInput {
    pub dx: i32,
    pub dy: i32,
    pub mouse_data: u32,
    pub flags: u32,
}

/// A `KEYBDINPUT` record; the fields that are always zero are left out.
#[derive(Clone, Copy, Debug, PartialEq, Eq, Structural)]
pub struct KeyInput {
    pub scan: u16,
    pub flags: u32,
}

#[derive(Clone, Copy, Debug, PartialEq, Eq, Structural)]
pub enum WindowsInput {
    Mouse(MouseInput),
    Key(KeyInput),
}

/// The mouse buttons that can be injected.
#[derive(Clone, Copy, Debug, PartialEq, Eq, Structural)]
pub enum Button {
    Left,
    Right,
    Middle,
    Back,
    Forward,
    /// Any other button.
    Other,
}

/// The nearest value in range.
pub open spec fn clamped(value: int) -> i32 {
    if value > i32::MAX {
        i32::MAX
    } else if value < i32::MIN {
        i32::MIN
    } else {
        value as i32
    }
}

fn sum(a: i32, b: i32) -> (r: i32)
    ensures
        r == clamped(a + b),
{
    let wide: i64 = a as i64 + b as i64;
    if wide > i32::MAX as i64 {
        i32::MAX
    } else if wide < i32::MIN as i64 {
        i32::MIN
    } else {
        wide as i32
    }
}

/// Convert a union-relative warp target into absolute screen
/// coordinates.
///
/// Warp targets arrive union-relative, scaled against the *size* of the
/// display union, while `SetCursorPos` consumes absolute screen coordinates.
/// Reapplying the origin is a no-op whenever the primary display is
/// the top-left one, and is the difference between landing on the
/// intended monitor and the wrong one when it isn't.
pub fn union_to_screen(origin: (i32, i32), x: i32, y: i32) -> (r: (i32, i32))
    ensures
        r == (clamped(origin.0 + x), clamped(origin.1 + y)),
{
    (sum(origin.0, x), sum(origin.1, y))
}

/// The size of the display union, where the system reports one.
pub fn display_size(width: i32, height: i32) -> (r: Option<(u32, u32)>)
    ensures
        r == (if width <= 0 || height <= 0 {
            None
        } else {
            Some((width as u32, height as u32))
        }),
{
    if width <= 0 || height <= 0 {
        return None;
    }
    Some((width as u32, height as u32))
}

/// A relative motion.
pub fn rel_mouse(dx: i32, dy: i32) -> (r: MouseInput)
    ensures
        r == (MouseInput { dx, dy, mouse_data: 0, flags: MOUSEEVENTF_MOVE }),
{
    MouseInput { dx, dy, mouse_data: 0, flags: MOUSEEVENTF_MOVE }
}

/// The flag of a button going up or down.
pub open spec fn button_flag(button: Button, down: bool) -> u32 {
    match button {
        Button::Left => if down {
            MOUSEEVENTF_LEFTDOWN
        } else {
            MOUSEEVENTF_LEFTUP
        },
        Button::Right => if down {
            MOUSEEVENTF_RIGHTDOWN
        } else {
            MOUSEEVENTF_RIGHTUP
        },
        Button::Middle => if down {
            MOUSEEVENTF_MIDDLEDOWN
        } else {
            MOUSEEVENTF_MIDDLEUP
        },
        _ => if down {
            MOUSEEVENTF_XDOWN
        } else {
            MOUSEEVENTF_XUP
        },
    }
}

/// Which of the extra buttons it is.
pub open spec fn button_data(button: Button) -> u32 {
    match button {
        Button::Back => XBUTTON1,
        Button::Forward => XBUTTON2,
        _ => 0,
    }
}

pub open spec fn button_input(button: Button, state: u32) -> Option<MouseInput> {
    if state > 1 || button == Button::Other {
        None
    } else {
        Some(
            MouseInput {
                dx: 0,
                dy: 0,
                mouse_data: button_data(button),
                flags: button_flag(button, state == 1),
            },
        )
    }
}

/// A button going up (0) or down (1). Other states and buttons are ignored.
pub fn mouse_button(button: Button, state: u32) -> (r: Option<MouseInput>)
    ensures
        r == button_input(button, state),
{
    let flags = match state {
        0 => match button {
            Button::Left => MOUSEEVENTF_LEFTUP,
            Button::Right => MOUSEEVENTF_RIGHTUP,
            Button::Middle => MOUSEEVENTF_MIDDLEUP,
            Button::Back | Button::Forward => MOUSEEVENTF_XUP,
            Button::Other => return None,
        },
        1 => match button {
            Button::Left => MOUSEEVENTF_LEFTDOWN,
            Button::Right => MOUSEEVENTF_RIGHTDOWN,
            Button::Middle => MOUSEEVENTF_MIDDLEDOWN,
            Button::Back | Button::Forward => MOUSEEVENTF_XDOWN,
            Button::Other => return None,
        },
        _ => return None,
    };
    let mouse_data = match button {
        Button::Back => XBUTTON1,
        Button::Forward => XBUTTON2,
        _ => 0,
    };
    Some(MouseInput { dx: 0, dy: 0, mouse_data, flags })
}

/// The distance in the other direction; the smallest one has no opposite.
pub open spec fn reversed(value: i32) -> i32 {
    if value == i32::MIN {
        i32::MIN
    } else {
        (-value) as i32
    }
}

/// A wheel distance as the unsigned field that carries it.
pub open spec fn wheel_data(value: i32) -> u32 {
    if value < 0 {
        (value + 0x1_0000_0000) as u32
    } else {
        value as u32
    }
}

fn wheel_bits(value: i32) -> (r: u32)
    ensures
        r == wheel_data(value),
{
    let wide: i64 = if value < 0 {
        value as i64 + 0x1_0000_0000
    } else {
        value as i64
    };
    wide as u32
}

pub open spec fn wheel_input(axis: u8, value: i32) -> Option<MouseInput> {
    if axis == 0 {
        Some(
            MouseInput {
                dx: 0,
                dy: 0,
                mouse_data: wheel_data(reversed(value)),
                flags: MOUSEEVENTF_WHEEL,
            },
        )
    } else if axis == 1 {
        Some(MouseInput { dx: 0, dy: 0, mouse_data: wheel_data(value), flags: MOUSEEVENTF_HWHEEL })
    } else {
        None
    }
}

/// A scroll by `value` along an axis.
///
/// Wire axes are positive down/right. Win32 wheel axes are positive
/// up/right, so only vertical scrolling needs a sign conversion here.
/// The per-peer natural-scroll preference has already been applied.
pub fn scroll_input(axis: u8, value: i32) -> (r: Option<MouseInput>)
    ensures
        r == wheel_input(axis, value),
{
    match axis {
        0 => {
            let delta: i32 = if value == i32::MIN {
                i32::MIN
            } else {
                -value
            };
            Some(
                MouseInput {
                    dx: 0,
                    dy: 0,
                    mouse_data: wheel_bits(delta),
                    flags: MOUSEEVENTF_WHEEL,
                },
            )
        },
        1 => Some(
            MouseInput { dx: 0, dy: 0, mouse_data: wheel_bits(value), flags: MOUSEEVENTF_HWHEEL },
        ),
        _ => None,
    }
}

/// The record of a key with this scan code: a code beyond a byte is an extended key's, whose low
/// byte counts.
pub open spec fn scan_input(scancode: u16, state: u8) -> KeyInput {
    let base = if scancode > 0xff {
        KEYEVENTF_SCANCODE | KEYEVENTF_EXTENDEDKEY
    } else {
        KEYEVENTF_SCANCODE
    };
    KeyInput {
        scan: scancode & 0xff,
        flags: if state == 0 {
            base | KEYEVENTF_KEYUP
        } else {
            base
        },
    }
}

/// A key going up (0) or down. A key without a scan code on this machine is ignored.
pub fn key_event(scancode: Option<u16>, state: u8) -> (r: Option<KeyInput>)
    ensures
        r == (match scancode {
            Some(code) => Some(scan_input(code, state)),
            None => None,
        }),
{
    let code = match scancode {
        Some(code) => code,
        None => return None,
    };
    let mut flags: u32 = KEYEVENTF_SCANCODE;
    if code > 0xff {
        flags = flags | KEYEVENTF_EXTENDEDKEY;
    }
    if state == 0 {
        flags = flags | KEYEVENTF_KEYUP;
    }
    Some(KeyInput { scan: code & 0xff, flags })
}

/// An event to inject: coordinates in whole pixels, and a key by its scan code on this machine.
#[derive(Clone, Copy, Debug, PartialEq, Eq, Structural)]
pub enum Injected {
    Motion { dx: i32, dy: i32 },
    Button { button: Button, state: u32 },
    Scroll { axis: u8, value: i32 },
    Key { scancode: Option<u16>, state: u8 },
    /// A modifier snapshot or a clipboard change, which need no input of their own.
    Nothing,
}

/// What to do for an event, in this order.
#[derive(Clone, Copy, Debug, PartialEq, Eq, Structural)]
pub struct Plan {
    /// Stop the repeating key.
    pub stop_repeat: bool,
    /// Submit this, whether or not a repeating key could be stopped.
    pub input: Option<WindowsInput>,
    /// Let this key repeat once both went through.
    pub start_repeat: bool,
}

pub open spec fn planned(event: Injected) -> Plan {
    match event {
        Injected::Motion { dx, dy } => Plan {
            stop_repeat: false,
            input: Some(
                WindowsInput::Mouse(MouseInput { dx, dy, mouse_data: 0, flags: MOUSEEVENTF_MOVE }),
            ),
            start_repeat: false,
        },
        Injected::Button { button, state } => Plan {
            stop_repeat: false,
            input: match button_input(button, state) {
                Some(input) => Some(WindowsInput::Mouse(input)),
                None => None,
            },
            start_repeat: false,
        },
        Injected::Scroll { axis, value } => Plan {
            stop_repeat: false,
            input: match wheel_input(axis, value) {
                Some(input) => Some(WindowsInput::Mouse(input)),
                None => None,
            },
            start_repeat: false,
        },
        Injected::Key { scancode, state } => Plan {
            stop_repeat: state == 0 || state == 1,
            input: match scancode {
                Some(code) => Some(WindowsInput::Key(scan_input(code, state))),
                None => None,
            },
            start_repeat: state == 1,
        },
        Injected::Nothing => Plan { stop_repeat: false, input: None, start_repeat: false },
    }
}

fn mouse(input: Option<MouseInput>) -> (r: Option<WindowsInput>)
    ensures
        r == (match input {
            Some(input) => Some(WindowsInput::Mouse(input)),
            None => None,
        }),
{
    match input {
        Some(input) => Some(WindowsInput::Mouse(input)),
        None => None,
    }
}

/// What to do for an event. A key that goes down or up ends what repeats, and only a press repeats.
pub fn consume(event: Injected) -> (r: Plan)
    ensures
        r == planned(event),
{
    match event {
        Injected::Motion { dx, dy } => Plan {
            stop_repeat: false,
            input: mouse(Some(rel_mouse(dx, dy))),
            start_repeat: false,
        },
        Injected::Button { button, state } => Plan {
            stop_repeat: false,
            input: mouse(mouse_button(button, state)),
            start_repeat: false,
        },
        Injected::Scroll { axis, value } => Plan {
            stop_repeat: false,
            input: mouse(scroll_input(axis, value)),
            start_repeat: false,
        },
        Injected::Key { scancode, state } => Plan {
            stop_repeat: state == 0 || state == 1,
            input: match key_event(scancode, state) {
                Some(input) => Some(WindowsInput::Key(input)),
                None => None,
            },
            start_repeat: state == 1,
        },
        Injected::Nothing => Plan { stop_repeat: false, input: None, start_repeat: false },
    }
}

/// How carrying out a plan ends: a repeat that could not be stopped is reported before an input
/// that was refused, and a key repeats only where neither happened.
pub fn concluded<E>(plan: Plan, stopped: Result<(), E>, injected: Result<(), E>) -> (r: Result<
    bool,
    E,
>)
    ensures
        r == (match (stopped, injected) {
            (Err(error), _) => Err(error),
            (Ok(()), Err(error)) => Err(error),
            (Ok(()), Ok(())) => Ok(plan.start_repeat),
        }),
{
    match stopped {
        Err(error) => Err(error),
        Ok(()) => match injected {
            Err(error) => Err(error),
            Ok(()) => Ok(plan.start_repeat),
        },
    }
}

/// Two keys never repeat at once: whatever lets a key repeat has stopped the one before.
pub proof fn law_one_key_repeats(event: Injected)
    ensures
        planned(event).start_repeat ==> planned(event).stop_repeat,
{
}

/// The system refused an input.
#[derive(Clone, Copy, Debug, PartialEq, Eq, Structural)]
pub struct Rejected;

/// Submits one input by a call that tells how many were taken.
///
/// Exactly one event: no partially executed batch and no blind retry.
pub fn submit_input<F: FnOnce() -> u32>(send: F) -> (r: Result<(), Rejected>)
    requires
        send.requires(()),
    ensures
        match r {
            Ok(()) => send.ensures((), 1),
            Err(_) => exists|taken: u32| taken != 1 && #[trigger] send.ensures((), taken),
        },
{
    let taken: u32 = send();
    if taken == 1 {
        Ok(())
    } else {
        Err(Rejected)
    }
}

/// The initial key-repeat delay in milliseconds for the keyboard delay setting, which counts
/// quarters of a second from one to four.
pub fn repeat_delay(setting: Option<u32>) -> (r: u64)
    ensures
        r == (match setting {
            Some(value) => (if value > 3 {
                4int
            } else {
                value + 1
            }) * 250,
            None => DEFAULT_REPEAT_DELAY_MS as int,
        }),
{
    match setting {
        Some(value) => {
            let steps: u64 = if value > 3 {
                4
            } else {
                value as u64 + 1
            };
            steps * 250
        },
        None => DEFAULT_REPEAT_DELAY_MS,
    }
}

/// The key-repeat interval in milliseconds, rounded down, for the keyboard speed setting, which
/// rises evenly from 2.5 repeats a second at 0 to 30 at 31: that is `2.5 + setting * 27.5 / 31` of
/// them, and a thousand divided by it is `62000 / (155 + 55 * setting)`.
pub fn repeat_interval(setting: Option<u32>) -> (r: u64)
    ensures
        r == (match setting {
            Some(value) => 62000int / (155 + 55 * (if value > 31 {
                31int
            } else {
                value as int
            })),
            None => DEFAULT_REPEAT_INTERVAL_MS as int,
        }),
{
    match setting {
        Some(value) => {
            let speed: u64 = if value > 31 {
                31
            } else {
                value as u64
            };
            62000 / (155 + 55 * speed)
        },
        None => DEFAULT_REPEAT_INTERVAL_MS,
    }
}

/// A warp reaches the target exactly wherever that lies on a screen.
pub proof fn law_warps_are_exact_on_screen(origin: (i32, i32), x: i32, y: i32)
    requires
        i32::MIN <= origin.0 + x <= i32::MAX,
        i32::MIN <= origin.1 + y <= i32::MAX,
    ensures
        clamped(origin.0 + x) == origin.0 + x,
        clamped(origin.1 + y) == origin.1 + y,
{
}

/// A key that has a scan code gets a record, and no other does. The record carries the code's low byte.
/// It says that the key goes up exactly on a release, and that the key is an extended one exactly where
/// the code exceeds a byte, whichever of the two else holds.
pub proof fn law_key_records_say_up_and_extended(scancode: Option<u16>, state: u8, r: Option<KeyInput>)
    requires
        call_ensures(key_event, (scancode, state), r),
    ensures
        r is Some <==> scancode is Some,
        r matches Some(input) ==> {
            let code = scancode->0;
            &&& input.scan == code % 0x100
            &&& input.flags & 0x0008 == 0x0008
            &&& input.flags & 0x0002 != 0 <==> state == 0
            &&& input.flags & 0x0001 != 0 <==> code > 0xff
            &&& input.flags <= 0x000b
        },
{
    assert({
        &&& (8u32 | 1) & 8 == 8 && ((8u32 | 1) | 2) & 8 == 8 && (8u32 | 2) & 8 == 8 && 8u32 & 8 == 8
        &&& (8u32 | 1) & 2 == 0 && ((8u32 | 1) | 2) & 2 == 2 && (8u32 | 2) & 2 == 2 && 8u32 & 2 == 0
        &&& (8u32 | 1) & 1 == 1 && ((8u32 | 1) | 2) & 1 == 1 && (8u32 | 2) & 1 == 0 && 8u32 & 1 == 0
        &&& (8u32 | 1) <= 0xb && ((8u32 | 1) | 2) <= 0xb && (8u32 | 2) <= 0xb
    }) by (bit_vector);
    if scancode is Some {
        let code = scancode->0;
        assert(code & 0xff == code % 0x100) by (bit_vector);
    }
}

/// The release of a key names the same key as its press and differs from it in that it goes up.
pub proof fn law_releases_match_presses(
    scancode: Option<u16>,
    state: u8,
    pressed: Option<KeyInput>,
    released: Option<KeyInput>,
)
    requires
        state != 0,
        call_ensures(key_event, (scancode, state), pressed),
        call_ensures(key_event, (scancode, 0u8), released),
    ensures
        pressed is Some <==> released is Some,
        pressed is Some ==> {
            &&& released->0.scan == pressed->0.scan
            &&& released->0.flags == pressed->0.flags + 0x0002
        },
{
    assert((8u32 | 1) == 9 && ((8u32 | 1) | 2) == 11 && (8u32 | 2) == 10) by (bit_vector);
}

/// Every button but an unknown one can go down and up. The record of its release has twice the flag of
/// its press, and the two extra buttons share a flag and differ in their number.
pub proof fn law_buttons_go_down_and_up(
    button: Button,
    state: u32,
    pressed: Option<MouseInput>,
    released: Option<MouseInput>,
    other: Option<MouseInput>,
)
    requires
        call_ensures(mouse_button, (button, 1u32), pressed),
        call_ensures(mouse_button, (button, 0u32), released),
        call_ensures(mouse_button, (button, state), other),
    ensures
        pressed is Some <==> button != Button::Other,
        released is Some <==> button != Button::Other,
        other is Some ==> state <= 1,
        button != Button::Other ==> {
            let (down, up) = (pressed->0, released->0);
            &&& down.dx == 0 && down.dy == 0 && up.dx == 0 && up.dy == 0
            &&& down.flags == (match button {
                Button::Left => 0x0002u32,
                Button::Right => 0x0008,
                Button::Middle => 0x0020,
                _ => 0x0080,
            })
            &&& up.flags == 2 * down.flags
            &&& down.mouse_data == up.mouse_data
            &&& down.mouse_data == (match button {
                Button::Back => 1u32,
                Button::Forward => 2,
                _ => 0,
            })
        },
{
}

/// Two records of buttons are the same only if they are of the same button in the same state.
pub proof fn law_button_records_are_distinct(
    a: (Button, u32),
    b: (Button, u32),
    x: Option<MouseInput>,
    y: Option<MouseInput>,
)
    requires
        call_ensures(mouse_button, a, x),
        call_ensures(mouse_button, b, y),
        x is Some,
        x == y,
    ensures
        a == b,
{
}

/// A scroll turns the wheel of its axis by its distance: the vertical wheel, which counts upwards, by
/// the opposite, and the horizontal one by the distance itself, each modulo the field's size.
pub proof fn law_scrolls_turn_the_wheel(axis: u8, value: i32, r: Option<MouseInput>)
    requires
        call_ensures(scroll_input, (axis, value), r),
    ensures
        r is Some <==> axis <= 1,
        r matches Some(input) ==> {
            &&& input.dx == 0 && input.dy == 0
            &&& axis == 0 ==> input.flags == 0x0800 && (input.mouse_data + value)
                % 0x1_0000_0000 == 0
            &&& axis == 1 ==> input.flags == 0x1000 && (input.mouse_data - value)
                % 0x1_0000_0000 == 0
        },
{
}

/// A motion moves the cursor by its distance and does nothing else.
pub proof fn law_motions_move_by_their_distance(dx: i32, dy: i32, r: MouseInput)
    requires
        call_ensures(rel_mouse, (dx, dy), r),
    ensures
        r.dx == dx,
        r.dy == dy,
        r.mouse_data == 0,
        r.flags == 0x0001,
{
}

/// What is submitted for an event is the record of that event: that of the motion, the button, the
/// scroll or the key, whichever it is, and nothing for an event that needs no input. Only a key stops
/// what repeats, when it goes down or up, and only a press repeats.
pub proof fn law_plans_submit_the_event(
    event: Injected,
    plan: Plan,
    motion: MouseInput,
    button: Option<MouseInput>,
    scroll: Option<MouseInput>,
    key: Option<KeyInput>,
)
    requires
        call_ensures(consume, (event,), plan),
        event matches Injected::Motion { dx, dy } ==> call_ensures(rel_mouse, (dx, dy), motion),
        event matches Injected::Button { button: b, state } ==> call_ensures(
            mouse_button,
            (b, state),
            button,
        ),
        event matches Injected::Scroll { axis, value } ==> call_ensures(
            scroll_input,
            (axis, value),
            scroll,
        ),
        event matches Injected::Key { scancode, state } ==> call_ensures(
            key_event,
            (scancode, state),
            key,
        ),
    ensures
        event is Motion ==> plan.input == Some(WindowsInput::Mouse(motion)),
        event is Button ==> (plan.input is Some <==> button is Some),
        event is Button && button is Some ==> plan.input == Some(WindowsInput::Mouse(button->0)),
        event is Scroll ==> (plan.input is Some <==> scroll is Some),
        event is Scroll && scroll is Some ==> plan.input == Some(WindowsInput::Mouse(scroll->0)),
        event is Key ==> (plan.input is Some <==> key is Some),
        event is Key && key is Some ==> plan.input == Some(WindowsInput::Key(key->0)),
        event is Nothing ==> plan.input is None,
        plan.stop_repeat <==> (event matches Injected::Key { state, .. } && state <= 1),
        plan.start_repeat <==> (event matches Injected::Key { state, .. } && state == 1),
{
}

/// A key repeats exactly where its plan asks for it and both steps went through, and each failure is
/// reported, the first one first.
pub proof fn law_failures_are_reported<E>(
    plan: Plan,
    stopped: Result<(), E>,
    injected: Result<(), E>,
    r: Result<bool, E>,
)
    requires
        call_ensures(concluded::<E>, (plan, stopped, injected), r),
    ensures
        r is Ok <==> stopped is Ok && injected is Ok,
        r matches Ok(repeats) ==> repeats == plan.start_repeat,
        stopped is Err ==> r is Err && r->Err_0 == stopped->Err_0,
        stopped is Ok && injected is Err ==> r is Err && r->Err_0 == injected->Err_0,
{
}

/// A slower setting never repeats sooner, and the delay is a whole number of quarters of a second up to
/// one second.
pub proof fn law_repeat_delays_rise(a: u32, b: u32, x: u64, y: u64)
    requires
        a <= b,
        call_ensures(repeat_delay, (Some(a),), x),
        call_ensures(repeat_delay, (Some(b),), y),
    ensures
        x <= y,
        x % 250 == 0,
        250 <= x <= 1000,
        a == 0 ==> x == 250,
        a < b <= 3 ==> x + 250 <= y,
        b >= 3 ==> y == 1000,
{
}

/// The interval is the largest whole number of milliseconds that is no longer than the setting's rate
/// asks for, and a faster setting never repeats later.
pub proof fn law_repeat_intervals_fall(a: u32, b: u32, x: u64, y: u64)
    requires
        a <= b,
        call_ensures(repeat_interval, (Some(a),), x),
        call_ensures(repeat_interval, (Some(b),), y),
    ensures
        y <= x,
        a <= 31 ==> x * (155 + 55 * a) <= 62000 && 62000 < (x + 1) * (155 + 55 * a),
        a >= 31 ==> x == 33,
{
    let k = if a > 31 {
        31int
    } else {
        a as int
    };
    let l = if b > 31 {
        31int
    } else {
        b as int
    };
    let (p, q) = (155 + 55 * k, 155 + 55 * l);
    if k == 31 {
        assert(62000int / 1860 == 33);
        assert(p == 1860);
    }
    assert(62000int / p * p <= 62000 < (62000int / p + 1) * p) by (nonlinear_arith)
        requires
            p > 0,
    ;
    assert(62000int / q <= 62000int / p) by (nonlinear_arith)
        requires
            0 < p <= q,
    ;
}

/// Without a setting the defaults hold.
pub proof fn law_repeat_defaults(x: u64, y: u64)
    requires
        call_ensures(repeat_delay, (None::<u32>,), x),
        call_ensures(repeat_interval, (None::<u32>,), y),
    ensures
        x == 500,
        y == 32,
{
}

/// A warp lands where the union's origin puts its target, or on the last position there is in that
/// direction.
pub proof fn law_warps_reapply_the_origin(origin: (i32, i32), x: i32, y: i32, r: (i32, i32))
    requires
        call_ensures(union_to_screen, (origin, x, y), r),
    ensures
        i32::MIN <= origin.0 + x <= i32::MAX ==> r.0 == origin.0 + x,
        i32::MIN <= origin.1 + y <= i32::MAX ==> r.1 == origin.1 + y,
        origin.0 + x > i32::MAX ==> r.0 == i32::MAX,
        origin.0 + x < i32::MIN ==> r.0 == i32::MIN,
        origin.1 + y > i32::MAX ==> r.1 == i32::MAX,
        origin.1 + y < i32::MIN ==> r.1 == i32::MIN,
{
}

/// A union has a size exactly where both of its sides are positive, and then that size.
pub proof fn law_sizes_are_positive(width: i32, height: i32, r: Option<(u32, u32)>)
    requires
        call_ensures(display_size, (width, height), r),
    ensures
        r is Some <==> width > 0 && height > 0,
        r matches Some(size) ==> size.0 == width && size.1 == height,
{
}

} // verus!
