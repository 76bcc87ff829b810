use operation_logger::applications::AppWindow;
use operation_logger::logger::keyboard::csv_rows::{
    keyboard_input_row, KEYBOARD_INPUT_FILE, KEYBOARD_INPUT_HEADER,
};
use operation_logger::logger::keyboard::filter::KeyboardEventFilter;
use operation_logger::logger::keyboard::foreground::{
    foreground_process_from_raw, ForegroundResolver,
};
use operation_logger::logger::keyboard::model::{
    key_name, key_name_lparam, known_key_name, KeyboardInputEvent, KeyboardInputKind,
    KeyboardKeyId, RawKeyboardEvent,
};
use operation_logger::logger::mouse::csv_rows::{
    mouse_input_row, mouse_move_row, MouseCsvLine, MouseCsvRows, MOUSE_INPUT_FILE,
    MOUSE_INPUT_HEADER, MOUSE_MOVE_FILE, MOUSE_MOVE_HEADER,
};
use operation_logger::logger::mouse::hook_events::{
    raw_mouse_event, wheel_delta, WM_LBUTTONDOWN, WM_MOUSEHWHEEL, WM_MOUSEMOVE, WM_MOUSEWHEEL,
    WM_RBUTTONUP,
};
use operation_logger::logger::mouse::model::{
    ClientPoint, MouseButton, MouseInputEvent, MouseInputKind, MouseMoveEvent, RawMouseEvent,
    RawMouseEventKind, ResolvedMouseEvent, ScreenPoint,
};
use operation_logger::logger::mouse::target_resolver::TargetResolver;

fn raw(key: KeyboardKeyId, kind: KeyboardInputKind) -> RawKeyboardEvent {
    RawKeyboardEvent {
        key,
        kind,
        is_injected: false,
    }
}

fn key_a() -> KeyboardKeyId {
    KeyboardKeyId {
        virtual_key: 0x41,
        scan_code: 0x1E,
        is_extended: false,
    }
}

fn target() -> AppWindow {
    AppWindow {
        hwnd: 0x42,
        title: "Game".to_string(),
        process_id: 99,
        process_name: Some("game.exe".to_string()),
    }
}

#[test]
fn suppresses_repeated_keydown_until_keyup() {
    let key = key_a();
    let mut filter = KeyboardEventFilter::new();

    assert!(filter.accept(raw(key, KeyboardInputKind::Down), None).is_some());
    assert!(filter.accept(raw(key, KeyboardInputKind::Down), None).is_none());
    assert!(filter.accept(raw(key, KeyboardInputKind::Up), None).is_some());
    assert!(filter.accept(raw(key, KeyboardInputKind::Down), None).is_some());
}

#[test]
fn ignores_keyup_after_pressed_state_is_cleared() {
    let key = key_a();
    let mut filter = KeyboardEventFilter::new();

    assert!(filter.accept(raw(key, KeyboardInputKind::Down), None).is_some());
    filter.clear();
    assert!(filter.accept(raw(key, KeyboardInputKind::Up), None).is_none());
}

#[test]
fn keys_differing_in_extended_flag_are_tracked_apart() {
    let left = KeyboardKeyId {
        virtual_key: 0x11,
        scan_code: 0x1D,
        is_extended: false,
    };
    let right = KeyboardKeyId {
        is_extended: true,
        ..left
    };
    let mut filter = KeyboardEventFilter::new();
    let down = filter.accept(raw(left, KeyboardInputKind::Down), None).unwrap();
    assert_eq!(down.key_name, "LCtrl");
    let other = filter.accept(raw(right, KeyboardInputKind::Down), None).unwrap();
    assert_eq!(other.key_name, "RCtrl");
    assert!(filter.accept(raw(left, KeyboardInputKind::Up), None).is_some());
    assert!(filter.accept(raw(left, KeyboardInputKind::Up), None).is_none());
    assert!(filter.accept(raw(right, KeyboardInputKind::Up), None).is_some());
}

#[test]
fn filter_forgets_keys_while_target_is_in_background() {
    let key = key_a();
    let mut filter = KeyboardEventFilter::new();
    let event = filter
        .process(raw(key, KeyboardInputKind::Down), true, Some("A".to_string()))
        .unwrap();
    assert_eq!(event.key_name, "A");
    assert_eq!(event.virtual_key, 0x41);
    assert_eq!(event.scan_code, 0x1E);
    assert_eq!(event.kind, KeyboardInputKind::Down);
    assert!(!event.is_injected);
    assert!(filter
        .process(raw(key, KeyboardInputKind::Up), false, None)
        .is_none());
    // The key was forgotten, so its Up is no longer logged once back in front.
    assert!(filter
        .process(raw(key, KeyboardInputKind::Up), true, None)
        .is_none());
}

#[test]
fn key_names_prefer_fixed_names_then_layout_then_code() {
    let shift = KeyboardKeyId {
        virtual_key: 0x10,
        scan_code: 0x36,
        is_extended: false,
    };
    assert_eq!(known_key_name(shift), Some("RShift"));
    assert_eq!(key_name(shift, Some("Shift".to_string())), "RShift");
    assert_eq!(key_name(key_a(), Some("A".to_string())), "A");
    assert_eq!(key_name(key_a(), None), "VK_41");
    let f1 = KeyboardKeyId {
        virtual_key: 0x7,
        scan_code: 0,
        is_extended: false,
    };
    assert_eq!(key_name(f1, None), "VK_07");
    let wide = KeyboardKeyId {
        virtual_key: 0x1234,
        scan_code: 0,
        is_extended: false,
    };
    assert_eq!(key_name(wide, None), "VK_1234");
    assert_eq!(known_key_name(key_a()), None);
    for (vk, name) in [
        (0x20, "Space"),
        (0x1B, "Esc"),
        (0x0D, "Enter"),
        (0x09, "Tab"),
        (0x08, "Backspace"),
        (0xA5, "RAlt"),
    ] {
        let key = KeyboardKeyId {
            virtual_key: vk,
            scan_code: 0,
            is_extended: false,
        };
        assert_eq!(known_key_name(key), Some(name));
    }
}

#[test]
fn key_name_queries_carry_scan_code_and_extended_bit() {
    assert_eq!(key_name_lparam(key_a()), Some(0x1E << 16));
    let extended = KeyboardKeyId {
        virtual_key: 0x2E,
        scan_code: 0x53,
        is_extended: true,
    };
    assert_eq!(key_name_lparam(extended), Some((0x53 << 16) | (1 << 24)));
    let no_scan = KeyboardKeyId {
        virtual_key: 0x41,
        scan_code: 0,
        is_extended: false,
    };
    assert_eq!(key_name_lparam(no_scan), None);
}

#[test]
fn keyboard_events_copy_their_raw_fields() {
    let event = KeyboardInputEvent::from_raw(
        RawKeyboardEvent {
            key: key_a(),
            kind: KeyboardInputKind::Up,
            is_injected: true,
        },
        None,
    );
    assert_eq!(event.virtual_key, 0x41);
    assert_eq!(event.scan_code, 0x1E);
    assert_eq!(event.key_name, "VK_41");
    assert_eq!(event.kind, KeyboardInputKind::Up);
    assert!(event.is_injected);
    assert_eq!(KeyboardInputKind::Down.as_csv_value(), "keydown");
    assert_eq!(KeyboardInputKind::Up.as_csv_value(), "keyup");
}

#[test]
fn writes_keyboard_input_csv() {
    let row = keyboard_input_row(
        "2026-04-13T01:23:45.678",
        &KeyboardInputEvent {
            virtual_key: 65,
            scan_code: 30,
            key_name: "A".to_string(),
            kind: KeyboardInputKind::Down,
            is_injected: false,
        },
    );
    assert_eq!(KEYBOARD_INPUT_FILE, "keyboard_input.csv");
    assert_eq!(
        KEYBOARD_INPUT_HEADER,
        "timestamp,virtual_key,scan_code,key_name,event,is_injected"
    );
    assert!(row.contains(",65,30,A,keydown,false"));
    assert_eq!(row, "2026-04-13T01:23:45.678,65,30,A,keydown,false");
}

#[test]
fn escapes_keyboard_key_names_for_csv() {
    let row = keyboard_input_row(
        "t",
        &KeyboardInputEvent {
            virtual_key: 188,
            scan_code: 51,
            key_name: "Comma, \"quoted\"".to_string(),
            kind: KeyboardInputKind::Up,
            is_injected: true,
        },
    );

    assert!(row.contains(",188,51,\"Comma, \"\"quoted\"\"\",keyup,true"));
}

#[test]
fn foreground_resolution_compares_process_ids() {
    let resolver = ForegroundResolver::new(&target());
    assert!(resolver.is_target_foreground(Some(99)));
    assert!(!resolver.is_target_foreground(Some(100)));
    assert!(!resolver.is_target_foreground(None));
    assert_eq!(foreground_process_from_raw(0), None);
    assert_eq!(foreground_process_from_raw(99), Some(99));
}

#[test]
fn hook_messages_decode_to_mouse_events() {
    assert_eq!(
        raw_mouse_event(WM_MOUSEMOVE, 5, -6, 0),
        Some(RawMouseEvent {
            screen_position: ScreenPoint { x: 5, y: -6 },
            kind: RawMouseEventKind::Move
        })
    );
    assert_eq!(
        raw_mouse_event(WM_LBUTTONDOWN, 1, 2, 0).unwrap().kind,
        RawMouseEventKind::Input {
            button: MouseButton::Left,
            kind: MouseInputKind::Down,
            delta: 0
        }
    );
    assert_eq!(
        raw_mouse_event(WM_RBUTTONUP, 1, 2, 0).unwrap().kind,
        RawMouseEventKind::Input {
            button: MouseButton::Right,
            kind: MouseInputKind::Up,
            delta: 0
        }
    );
    assert_eq!(
        raw_mouse_event(WM_MOUSEWHEEL, 0, 0, 0x0078_0000).unwrap().kind,
        RawMouseEventKind::Input {
            button: MouseButton::WheelVertical,
            kind: MouseInputKind::Wheel,
            delta: 120
        }
    );
    assert_eq!(
        raw_mouse_event(WM_MOUSEHWHEEL, 0, 0, 0xFF88_0000).unwrap().kind,
        RawMouseEventKind::Input {
            button: MouseButton::WheelHorizontal,
            kind: MouseInputKind::Wheel,
            delta: -120
        }
    );
    assert_eq!(raw_mouse_event(0x0207, 0, 0, 0), None);
    assert_eq!(wheel_delta(0x8000_0000), -32768);
    assert_eq!(wheel_delta(0x7FFF_FFFF), 32767);
}

#[test]
fn target_resolver_keeps_events_over_the_target_in_client_coordinates() {
    let resolver = TargetResolver::new(&target());
    assert_eq!(resolver.hwnd(), 0x42);
    let click = RawMouseEvent {
        screen_position: ScreenPoint { x: 500, y: 400 },
        kind: RawMouseEventKind::Input {
            button: MouseButton::Left,
            kind: MouseInputKind::Down,
            delta: 0,
        },
    };
    assert_eq!(
        resolver.resolve(click, Some(99), Some(ClientPoint { x: 10, y: 20 })),
        Some(ResolvedMouseEvent::Input(MouseInputEvent {
            position: ClientPoint { x: 10, y: 20 },
            button: MouseButton::Left,
            kind: MouseInputKind::Down,
            delta: 0
        }))
    );
    let moved = RawMouseEvent {
        screen_position: ScreenPoint { x: 1, y: 1 },
        kind: RawMouseEventKind::Move,
    };
    assert_eq!(
        resolver.resolve(moved, Some(99), Some(ClientPoint { x: -3, y: 4 })),
        Some(ResolvedMouseEvent::Move(MouseMoveEvent {
            position: ClientPoint { x: -3, y: 4 }
        }))
    );
    assert_eq!(resolver.resolve(click, Some(7), Some(ClientPoint { x: 10, y: 20 })), None);
    assert_eq!(resolver.resolve(click, Some(99), None), None);
    assert_eq!(resolver.resolve(click, None, Some(ClientPoint { x: 10, y: 20 })), None);
    // A target whose process id is zero still needs a window under the pointer.
    let system = TargetResolver::new(&AppWindow {
        hwnd: 0x42,
        title: "System".to_string(),
        process_id: 0,
        process_name: None,
    });
    assert_eq!(system.resolve(click, None, Some(ClientPoint { x: 1, y: 1 })), None);
    assert!(system.resolve(click, Some(0), Some(ClientPoint { x: 1, y: 1 })).is_some());
}

#[test]
fn writes_mouse_input_csv() {
    let row = mouse_input_row(
        "t",
        &MouseInputEvent {
            position: ClientPoint { x: 10, y: 20 },
            button: MouseButton::Left,
            kind: MouseInputKind::Down,
            delta: 0,
        },
    );
    assert_eq!(MOUSE_INPUT_FILE, "mouse_input.csv");
    assert_eq!(MOUSE_INPUT_HEADER, "timestamp,x,y,button,event,delta");
    assert!(row.contains(",10,20,left,mousedown,0"));
    let wheel = mouse_input_row(
        "t",
        &MouseInputEvent {
            position: ClientPoint { x: -1, y: 0 },
            button: MouseButton::WheelHorizontal,
            kind: MouseInputKind::Wheel,
            delta: -120,
        },
    );
    assert_eq!(wheel, "t,-1,0,wheel_h,wheel,-120");
    assert_eq!(MouseButton::WheelVertical.as_csv_value(), "wheel_v");
    assert_eq!(MouseButton::Right.as_csv_value(), "right");
    assert_eq!(MouseInputKind::Up.as_csv_value(), "mouseup");
}

fn moved_to(x: i32, y: i32) -> ResolvedMouseEvent {
    ResolvedMouseEvent::Move(MouseMoveEvent {
        position: ClientPoint { x, y },
    })
}

#[test]
fn writes_mouse_move_csv_without_consecutive_duplicate_positions() {
    let mut rows = MouseCsvRows::new();
    let mut lines = vec![MOUSE_MOVE_HEADER.to_string()];
    for event in [moved_to(10, 20), moved_to(10, 20), moved_to(11, 20)] {
        if let Some(MouseCsvLine::Move(line)) = rows.line_for("t", &event) {
            lines.push(line);
        }
    }
    assert_eq!(MOUSE_MOVE_FILE, "mouse_move.csv");
    assert_eq!(lines[0], "timestamp,x,y");
    assert_eq!(lines.len(), 3);
    assert!(lines[1].contains(",10,20"));
    assert!(lines[2].contains(",11,20"));
}

#[test]
fn mouse_rows_log_every_click_and_moves_back_to_an_old_position() {
    let mut rows = MouseCsvRows::new();
    let click = ResolvedMouseEvent::Input(MouseInputEvent {
        position: ClientPoint { x: 1, y: 2 },
        button: MouseButton::Left,
        kind: MouseInputKind::Up,
        delta: 0,
    });
    assert!(matches!(rows.line_for("t", &moved_to(1, 2)), Some(MouseCsvLine::Move(_))));
    match rows.line_for("t", &click) {
        Some(MouseCsvLine::Input(line)) => assert_eq!(line, "t,1,2,left,mouseup,0"),
        other => panic!("expected an input line, got {:?}", other),
    }
    assert!(matches!(rows.line_for("t", &click), Some(MouseCsvLine::Input(_))));
    // A click does not reset the move de-duplication.
    assert!(rows.line_for("t", &moved_to(1, 2)).is_none());
    assert!(rows.line_for("t", &moved_to(3, 2)).is_some());
    match rows.line_for("t", &moved_to(1, 2)) {
        Some(MouseCsvLine::Move(line)) => assert_eq!(line, mouse_move_row("t", &MouseMoveEvent {
            position: ClientPoint { x: 1, y: 2 }
        })),
        other => panic!("expected a move line, got {:?}", other),
    }
}
