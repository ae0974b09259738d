//! Windows records, key repetition and log texts.

use mousehop::diagnostics::{
    backup_extension, panic_record, rotates, warning_file, Crash, Place, ROTATION_BYTES,
};
use mousehop::windows::{
    concluded, consume, display_size, key_event, mouse_button, rel_mouse, repeat_delay,
    repeat_interval, scroll_input, submit_input, union_to_screen, Button, Injected, KeyInput,
    MouseInput, Plan, Rejected, WindowsInput, MOUSEEVENTF_HWHEEL, MOUSEEVENTF_WHEEL,
};

#[test]
fn recovery_r1_2_send_input_failure_is_bounded_and_propagated() {
    let mut calls = 0;
    assert!(
        submit_input(|| {
            calls += 1;
            0
        })
        .is_err()
    );
    assert_eq!(calls, 1);
    assert!(submit_input(|| 1).is_ok());
    assert_eq!(submit_input(|| 2), Err(Rejected));
}

#[test]
fn scroll_axes_map_to_win32_up_and_right_conventions() {
    for (value, vertical, horizontal) in [(120, -120, 120), (-120, 120, -120)] {
        let y = scroll_input(0, value).unwrap();
        let x = scroll_input(1, value).unwrap();
        assert_eq!(y.flags, MOUSEEVENTF_WHEEL);
        assert_eq!(x.flags, MOUSEEVENTF_HWHEEL);
        assert_eq!(y.mouse_data as i32, vertical);
        assert_eq!(x.mouse_data as i32, horizontal);
    }
    assert!(scroll_input(2, 120).is_none());
}

#[test]
fn the_smallest_scroll_keeps_its_value() {
    for value in [i32::MIN, i32::MIN + 1, -1, 0, 1, i32::MAX] {
        let y = scroll_input(0, value).unwrap();
        assert_eq!(y.mouse_data as i32, value.wrapping_neg());
        assert_eq!((y.dx, y.dy), (0, 0));
    }
}

#[test]
fn union_to_screen_is_identity_when_the_primary_is_top_left() {
    assert_eq!(union_to_screen((0, 0), 0, 0), (0, 0));
    assert_eq!(union_to_screen((0, 0), 1919, 1079), (1919, 1079));
}

#[test]
fn union_to_screen_reapplies_a_negative_origin() {
    // A 1920x1200 display left of and slightly above a 1920x1080
    // primary: the union's top-left sits at (-1920, -120), so a
    // union-relative left-edge entry belongs there, not at x = 0.
    let origin = (-1920, -120);
    assert_eq!(union_to_screen(origin, 0, 0), (-1920, -120));
    // The primary's own top-left, reached from union coordinates.
    assert_eq!(union_to_screen(origin, 1920, 120), (0, 0));
    // The far corner of the union: the primary's bottom-right.
    assert_eq!(union_to_screen(origin, 3839, 1199), (1919, 1079));
}

#[test]
fn union_to_screen_saturates_rather_than_overflowing() {
    assert_eq!(
        union_to_screen((i32::MAX, i32::MIN), 1, -1),
        (i32::MAX, i32::MIN)
    );
}

#[test]
fn a_display_union_has_a_size() {
    assert_eq!(display_size(1920, 1080), Some((1920, 1080)));
    assert_eq!(display_size(0, 1080), None);
    assert_eq!(display_size(1920, -1), None);
}

#[test]
fn buttons_become_their_records() {
    let record = |mouse_data, flags| {
        Some(MouseInput {
            dx: 0,
            dy: 0,
            mouse_data,
            flags,
        })
    };
    for (button, data, up, down) in [
        (Button::Left, 0, 4, 2),
        (Button::Right, 0, 0x10, 8),
        (Button::Middle, 0, 0x40, 0x20),
        (Button::Back, 1, 0x100, 0x80),
        (Button::Forward, 2, 0x100, 0x80),
    ] {
        assert_eq!(mouse_button(button, 0), record(data, up));
        assert_eq!(mouse_button(button, 1), record(data, down));
        assert_eq!(mouse_button(button, 2), None);
    }
    assert_eq!(mouse_button(Button::Other, 1), None);
    assert_eq!(rel_mouse(3, -4).flags, 1);
}

#[test]
fn keys_become_their_records() {
    assert_eq!(key_event(None, 1), None);
    assert_eq!(
        key_event(Some(0x1e), 1),
        Some(KeyInput {
            scan: 0x1e,
            flags: 8
        })
    );
    assert_eq!(
        key_event(Some(0xe04d), 0),
        Some(KeyInput {
            scan: 0x4d,
            flags: 8 | 1 | 2
        })
    );
}

#[test]
fn presses_repeat_and_releases_end_it() {
    let plan = |state| {
        consume(Injected::Key {
            scancode: Some(0x1e),
            state,
        })
    };
    assert_eq!(
        plan(1),
        Plan {
            stop_repeat: true,
            input: Some(WindowsInput::Key(KeyInput {
                scan: 0x1e,
                flags: 8
            })),
            start_repeat: true,
        }
    );
    assert!(plan(0).stop_repeat && !plan(0).start_repeat);
    assert!(!plan(2).stop_repeat && !plan(2).start_repeat);
    assert_eq!(consume(Injected::Nothing).input, None);
    assert_eq!(
        consume(Injected::Motion { dx: 5, dy: 6 }).input,
        Some(WindowsInput::Mouse(rel_mouse(5, 6)))
    );
    assert_eq!(
        consume(Injected::Scroll { axis: 1, value: 7 }).input,
        scroll_input(1, 7).map(WindowsInput::Mouse)
    );
    assert_eq!(
        consume(Injected::Button {
            button: Button::Back,
            state: 1
        })
        .input,
        mouse_button(Button::Back, 1).map(WindowsInput::Mouse)
    );
    assert_eq!(concluded(plan(1), Ok::<(), u8>(()), Ok(())), Ok(true));
    assert_eq!(concluded(plan(1), Err(3), Err(4)), Err(3));
    assert_eq!(concluded(plan(1), Ok(()), Err(4)), Err(4));
    assert_eq!(concluded(plan(0), Ok::<(), u8>(()), Ok(())), Ok(false));
}

#[test]
fn repeat_settings_follow_the_machine() {
    assert_eq!(repeat_delay(None), 500);
    assert_eq!(repeat_delay(Some(0)), 250);
    assert_eq!(repeat_delay(Some(9)), 1000);
    assert_eq!(repeat_interval(None), 32);
    for setting in 0..40u32 {
        let per_second = 2.5 + f64::from(setting.min(31)) * (30.0 - 2.5) / 31.0;
        assert_eq!(
            repeat_interval(Some(setting)),
            (1000.0 / per_second) as u64,
            "setting={setting}"
        );
    }
}

#[test]
fn log_texts_read_exactly_so() {
    assert_eq!(warning_file("daemon"), "connection-daemon.log");
    assert_eq!(backup_extension(), "previous.log");
    assert!(!rotates(ROTATION_BYTES - 1));
    assert!(rotates(4 * 1024 * 1024));
    let crash = Crash {
        role: "gui",
        pid: 42,
        when: 1700000000,
        thread: Some("main"),
        place: Some(Place {
            file: "src/main.rs",
            line: 12,
            column: 5,
        }),
        message: Some("boom"),
        backtrace: "0: top",
    };
    assert_eq!(
        panic_record(crash),
        "\n==== mousehop gui panic \u{2014} pid 42, unix 1700000000s ====\n\
         thread 'main' panicked at src/main.rs:12:5:\nboom\nstack backtrace:\n0: top\n"
    );
    let unknown = Crash {
        role: "daemon",
        pid: 1,
        when: 0,
        thread: None,
        place: None,
        message: None,
        backtrace: "",
    };
    assert_eq!(
        panic_record(unknown),
        "\n==== mousehop daemon panic \u{2014} pid 1, unix 0s ====\n\
         thread '<unnamed>' panicked at <unknown location>:\n<non-string panic payload>\n\
         stack backtrace:\n\n"
    );
}
