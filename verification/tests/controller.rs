use operation_logger::logger::controller::csv_rows::{
    controller_analog_row, controller_button_row, CONTROLLER_ANALOG_FILE, CONTROLLER_ANALOG_HEADER,
    CONTROLLER_BUTTON_FILE, CONTROLLER_BUTTON_HEADER,
};
use operation_logger::logger::controller::device_registry::{format_device_id, DeviceRegistry};
use operation_logger::logger::controller::hid_mapper::{
    make_button_name, pressed_buttons, HidMapper, ReportLayout, DUALSENSE_BLUETOOTH_REPORT_ID,
    DUALSENSE_USB_REPORT_ID,
};
use operation_logger::logger::controller::model::{
    apply_deadzone, preprocess_analog_value, quantize_analog_value, AnalogControlKind,
    ControllerAnalogEvent, ControllerButtonEvent, ControllerButtonEventKind, ControllerSnapshot,
    ControllerState, RawControllerReport,
};
use operation_logger::logger::controller::raw_report::{
    controller_report_from_raw_input, RIM_TYPEHID,
};
use operation_logger::logger::controller::worker::ControllerLogger;

fn snapshot(buttons: &[&str], analog: &[(&str, i32)]) -> ControllerSnapshot {
    ControllerSnapshot::new(
        buttons.iter().map(|b| b.to_string()).collect(),
        analog.iter().map(|(c, v)| (c.to_string(), *v)).collect(),
    )
}

#[test]
fn builds_stable_session_device_ids_from_raw_input_handles() {
    let mut registry = DeviceRegistry::new();

    assert_eq!(
        registry.device_id(0x1234),
        "rawhid_0000000000001234".to_string()
    );
    assert_eq!(
        registry.device_id(0x1234),
        "rawhid_0000000000001234".to_string()
    );
}

#[test]
fn assigns_different_ids_to_different_raw_input_handles() {
    let mut registry = DeviceRegistry::new();

    let first = registry.device_id(0x1234);
    let second = registry.device_id(0x5678);

    assert_ne!(first, second);
    assert_eq!(second, "rawhid_0000000000005678");
}

#[test]
fn device_ids_show_handle_bits_in_upper_case_hex() {
    assert_eq!(format_device_id(0), "rawhid_0000000000000000");
    assert_eq!(format_device_id(0xABCDEF), "rawhid_0000000000ABCDEF");
    if usize::BITS == 64 {
        assert_eq!(format_device_id(-1), "rawhid_FFFFFFFFFFFFFFFF");
        assert_eq!(format_device_id(isize::MIN), "rawhid_8000000000000000");
    }
}

#[test]
fn maps_dualsense_usb_style_report_to_generic_names() {
    let mut mapper = HidMapper::new();
    let report = [
        DUALSENSE_USB_REPORT_ID,
        10,
        20,
        30,
        40,
        50,
        60,
        0,
        0b0011_0010,
        0b0000_0001,
        0,
    ];

    let snapshot = mapper.map_report(&report).unwrap();

    assert!(snapshot.is_pressed("dpad_right"));
    assert!(snapshot.is_pressed("button_01"));
    assert!(snapshot.is_pressed("button_02"));
    assert!(snapshot.is_pressed("button_05"));
    assert!(snapshot.has_analog_value("axis_left_x", 10));
    assert!(snapshot.has_analog_value("trigger_right", 60));
}

#[test]
fn maps_dualsense_bluetooth_style_report_to_generic_names() {
    let mut mapper = HidMapper::new();
    let report = [
        DUALSENSE_BLUETOOTH_REPORT_ID,
        0,
        11,
        21,
        31,
        41,
        51,
        61,
        0,
        0b0101_1000,
        0,
        0b0000_0010,
    ];

    let snapshot = mapper.map_report(&report).unwrap();

    assert!(!snapshot.is_pressed("dpad_up"));
    assert!(snapshot.is_pressed("button_01"));
    assert!(snapshot.is_pressed("button_03"));
    assert!(snapshot.is_pressed("button_14"));
    assert!(snapshot.has_analog_value("axis_left_x", 11));
    assert!(snapshot.has_analog_value("trigger_right", 61));
}

#[test]
fn rejects_unknown_reports_instead_of_guessing_layout() {
    let mut mapper = HidMapper::new();
    let report = [0x99, 10, 20, 30, 40, 50, 60, 0, 0b1111_1111, 0b1111_1111, 0];

    assert!(mapper.map_report(&report).is_none());
}

#[test]
fn rejects_short_dualsense_reports() {
    let mut mapper = HidMapper::new();
    let report = [0x01, 10, 20, 30];

    assert!(mapper.map_report(&report).is_none());
}

#[test]
fn rejects_empty_reports() {
    let mut mapper = HidMapper::new();

    assert!(mapper.map_report(&[]).is_none());
}

#[test]
fn report_layouts_by_id_and_length() {
    let usb = [DUALSENSE_USB_REPORT_ID, 0, 0, 0, 0, 0, 0, 0, 0, 0, 0];
    let layout = ReportLayout::from_report(&usb).unwrap();
    assert_eq!((layout.analog_offset, layout.button_offset), (1, 8));
    let bluetooth = [DUALSENSE_BLUETOOTH_REPORT_ID, 0, 0, 0, 0, 0, 0, 0, 0, 0, 0, 0];
    let layout = ReportLayout::from_report(&bluetooth).unwrap();
    assert_eq!((layout.analog_offset, layout.button_offset), (2, 9));
    assert!(ReportLayout::from_report(&bluetooth[..11]).is_none());
}

#[test]
fn hat_values_and_button_bits_name_the_pressed_buttons() {
    // Hat 7 is up-left; bit 7 of the first byte is button 4; the last byte's bit 7 is button 20.
    let report = [0b1000_0111, 0, 0b1000_0000];
    let names = pressed_buttons(&report, 0);
    assert_eq!(names, vec!["button_04", "button_20", "dpad_left", "dpad_up"]);
    // Hat 8 (released) and no bits: nothing pressed.
    assert!(pressed_buttons(&[0b0000_1000, 0, 0], 0).is_empty());
    assert_eq!(make_button_name(7), "button_07");
    assert_eq!(make_button_name(14), "button_14");
}

#[test]
fn emits_button_edges_and_changed_analog_values() {
    let mut state = ControllerState::new();
    let first = state.diff("rawhid_0001", snapshot(&["button_01"], &[("axis_x", 127)]));

    assert_eq!(first.button_events.len(), 1);
    assert_eq!(first.button_events[0].kind, ControllerButtonEventKind::Down);
    assert_eq!(first.analog_events.len(), 1);
    assert_eq!(first.analog_events[0].value, 120);

    let second = state.diff("rawhid_0001", snapshot(&[], &[("axis_x", 127)]));

    assert_eq!(second.button_events.len(), 1);
    assert_eq!(second.button_events[0].kind, ControllerButtonEventKind::Up);
    assert!(second.analog_events.is_empty());
}

#[test]
fn does_not_emit_events_when_state_is_unchanged() {
    let mut state = ControllerState::new();
    let snapshot = snapshot(&["button_01", "dpad_up"], &[("axis_left_x", 128)]);

    let first = state.diff("rawhid_0001", snapshot.duplicate());
    assert_eq!(first.button_events.len(), 2);
    assert_eq!(first.analog_events.len(), 1);

    let second = state.diff("rawhid_0001", snapshot);
    assert!(second.button_events.is_empty());
    assert!(second.analog_events.is_empty());
}

#[test]
fn emits_only_changed_analog_values() {
    let mut state = ControllerState::new();
    let _ = state.diff(
        "rawhid_0001",
        snapshot(&[], &[("axis_left_x", 128), ("axis_left_y", 200)]),
    );

    let events = state.diff(
        "rawhid_0001",
        snapshot(&[], &[("axis_left_x", 128), ("axis_left_y", 208)]),
    );

    assert!(events.button_events.is_empty());
    assert_eq!(events.analog_events.len(), 1);
    assert_eq!(events.analog_events[0].control, "axis_left_y");
    assert_eq!(events.analog_events[0].value, 208);
}

#[test]
fn emits_down_and_up_edges_for_multiple_buttons() {
    let mut state = ControllerState::new();
    let _ = state.diff("rawhid_0001", snapshot(&["button_01", "button_02"], &[]));

    let events = state.diff("rawhid_0001", snapshot(&["button_02", "button_03"], &[]));

    assert_eq!(events.button_events.len(), 2);
    assert!(events.button_events.iter().any(|event| {
        event.button == "button_01" && event.kind == ControllerButtonEventKind::Up
    }));
    assert!(events.button_events.iter().any(|event| {
        event.button == "button_03" && event.kind == ControllerButtonEventKind::Down
    }));
}

#[test]
fn button_edges_come_downs_first_in_name_order() {
    let mut state = ControllerState::new();
    let _ = state.diff("pad", snapshot(&["b", "d"], &[]));
    let events = state.diff("pad", snapshot(&["e", "c", "a", "c"], &[]));
    let seen: Vec<(String, ControllerButtonEventKind)> = events
        .button_events
        .iter()
        .map(|e| (e.button.clone(), e.kind))
        .collect();
    assert_eq!(
        seen,
        vec![
            ("a".to_string(), ControllerButtonEventKind::Down),
            ("c".to_string(), ControllerButtonEventKind::Down),
            ("e".to_string(), ControllerButtonEventKind::Down),
            ("b".to_string(), ControllerButtonEventKind::Up),
            ("d".to_string(), ControllerButtonEventKind::Up),
        ]
    );
    assert!(events.button_events.iter().all(|e| e.device_id == "pad"));
}

#[test]
fn does_not_emit_stick_event_for_small_center_movement_within_deadzone() {
    let mut state = ControllerState::new();
    let _ = state.diff("rawhid_0001", snapshot(&[], &[("axis_left_x", 128)]));

    let events = state.diff("rawhid_0001", snapshot(&[], &[("axis_left_x", 140)]));

    assert!(events.analog_events.is_empty());
}

#[test]
fn does_not_emit_trigger_event_for_small_value_within_deadzone() {
    let mut state = ControllerState::new();
    let _ = state.diff("rawhid_0001", snapshot(&[], &[("trigger_left", 0)]));

    let events = state.diff("rawhid_0001", snapshot(&[], &[("trigger_left", 20)]));

    assert!(events.analog_events.is_empty());
}

#[test]
fn does_not_emit_event_when_values_stay_in_same_quantized_bin() {
    let mut state = ControllerState::new();
    let _ = state.diff("rawhid_0001", snapshot(&[], &[("axis_x", 65)]));

    let events = state.diff("rawhid_0001", snapshot(&[], &[("axis_x", 71)]));

    assert!(events.analog_events.is_empty());
}

#[test]
fn emits_event_when_value_moves_to_different_quantized_bin() {
    let mut state = ControllerState::new();
    let _ = state.diff("rawhid_0001", snapshot(&[], &[("axis_x", 71)]));

    let events = state.diff("rawhid_0001", snapshot(&[], &[("axis_x", 72)]));

    assert_eq!(events.analog_events.len(), 1);
    assert_eq!(events.analog_events[0].value, 72);
}

#[test]
fn emits_trigger_event_when_value_exits_deadzone() {
    let mut state = ControllerState::new();
    let _ = state.diff("rawhid_0001", snapshot(&[], &[("trigger_right", 10)]));

    let events = state.diff("rawhid_0001", snapshot(&[], &[("trigger_right", 80)]));

    assert_eq!(events.analog_events.len(), 1);
    assert_eq!(events.analog_events[0].value, 80);
}

#[test]
fn analog_preprocessing_values() {
    assert_eq!(AnalogControlKind::from_control("axis_right_y"), AnalogControlKind::Stick);
    assert_eq!(AnalogControlKind::from_control("trigger_left"), AnalogControlKind::Trigger);
    assert_eq!(AnalogControlKind::from_control("axis_x"), AnalogControlKind::Other);

    assert_eq!(apply_deadzone("axis_left_x", 112), 128);
    assert_eq!(apply_deadzone("axis_left_x", 111), 111);
    assert_eq!(apply_deadzone("axis_left_x", 144), 128);
    assert_eq!(apply_deadzone("axis_left_x", 145), 145);
    assert_eq!(apply_deadzone("trigger_left", 30), 0);
    assert_eq!(apply_deadzone("trigger_left", 31), 31);
    assert_eq!(apply_deadzone("axis_x", 5), 5);

    assert_eq!(quantize_analog_value(-5), 0);
    assert_eq!(quantize_analog_value(7), 0);
    assert_eq!(quantize_analog_value(8), 8);
    assert_eq!(quantize_analog_value(254), 248);
    assert_eq!(quantize_analog_value(255), 255);
    assert_eq!(quantize_analog_value(1000), 255);

    assert_eq!(preprocess_analog_value("axis_left_y", 140), 128);
    assert_eq!(preprocess_analog_value("trigger_right", 61), 56);
}

#[test]
fn writes_controller_csv_files() {
    let button = ControllerButtonEvent {
        device_id: "rawhid_0001".to_string(),
        button: "button_01".to_string(),
        kind: ControllerButtonEventKind::Down,
    };
    let analog = ControllerAnalogEvent {
        device_id: "rawhid_0001".to_string(),
        control: "axis_left_x".to_string(),
        value: 127,
    };
    assert_eq!(CONTROLLER_BUTTON_FILE, "controller_button_input.csv");
    assert_eq!(CONTROLLER_ANALOG_FILE, "controller_analog_input.csv");
    assert_eq!(CONTROLLER_BUTTON_HEADER, "timestamp,device_id,button,event");
    assert_eq!(CONTROLLER_ANALOG_HEADER, "timestamp,device_id,control,value");
    let button_row = controller_button_row("2026-04-13T00:00:00.000", &button);
    let analog_row = controller_analog_row("2026-04-13T00:00:00.000", &analog);
    assert!(button_row.ends_with(",rawhid_0001,button_01,keydown"));
    assert!(analog_row.ends_with(",rawhid_0001,axis_left_x,127"));
    assert_eq!(
        button_row,
        "2026-04-13T00:00:00.000,rawhid_0001,button_01,keydown"
    );
}

#[test]
fn controller_rows_quote_names_and_write_negative_values() {
    let up = ControllerButtonEvent {
        device_id: "pad,1".to_string(),
        button: "b".to_string(),
        kind: ControllerButtonEventKind::Up,
    };
    assert_eq!(controller_button_row("t", &up), "t,\"pad,1\",b,keyup");
    let analog = ControllerAnalogEvent {
        device_id: "d".to_string(),
        control: "say \"x\"".to_string(),
        value: -3,
    };
    assert_eq!(controller_analog_row("t", &analog), "t,d,\"say \"\"x\"\"\",-3");
}

#[test]
fn raw_input_records_yield_hid_bytes() {
    let buffer = [9u8, 9, 1, 2, 3, 4, 5, 6];
    let report = controller_report_from_raw_input(RIM_TYPEHID, 77, 3, 2, &buffer, 2).unwrap();
    assert_eq!(report.device_handle, 77);
    assert_eq!(report.report, vec![1, 2, 3, 4, 5, 6]);
    assert!(controller_report_from_raw_input(0, 77, 3, 2, &buffer, 2).is_none());
    assert!(controller_report_from_raw_input(RIM_TYPEHID, 77, 0, 2, &buffer, 2).is_none());
    assert!(controller_report_from_raw_input(RIM_TYPEHID, 77, 4, 2, &buffer, 2).is_none());
    assert!(
        controller_report_from_raw_input(RIM_TYPEHID, 77, u32::MAX, 2, &buffer, 0).is_none()
    );
}

#[test]
fn controller_logger_diffs_per_device_while_target_is_foreground() {
    let mut logger = ControllerLogger::new();
    let pressed = RawControllerReport {
        device_handle: 0x1234,
        report: vec![DUALSENSE_USB_REPORT_ID, 128, 128, 128, 128, 0, 0, 0, 0b0001_1000, 0, 0],
    };
    let first = logger.handle_report(&pressed, true);
    assert_eq!(first.button_events.len(), 1);
    assert_eq!(first.button_events[0].button, "button_01");
    assert_eq!(first.button_events[0].device_id, "rawhid_0000000000001234");
    assert_eq!(first.analog_events.len(), 6);

    let again = logger.handle_report(&pressed, true);
    assert!(again.button_events.is_empty());
    assert!(again.analog_events.is_empty());

    // Another device starts from a fresh state.
    let other = RawControllerReport { device_handle: 0x5678, ..pressed.clone() };
    let events = logger.handle_report(&other, true);
    assert_eq!(events.button_events.len(), 1);
    assert_eq!(events.button_events[0].device_id, "rawhid_0000000000005678");

    // Unknown reports are skipped.
    let unknown = RawControllerReport { device_handle: 0x1234, report: vec![0x77, 1, 2] };
    let events = logger.handle_report(&unknown, true);
    assert!(events.button_events.is_empty() && events.analog_events.is_empty());

    // Leaving the foreground drops every state, so the same report is new again.
    let events = logger.handle_report(&pressed, false);
    assert!(events.button_events.is_empty() && events.analog_events.is_empty());
    let events = logger.handle_report(&pressed, true);
    assert_eq!(events.button_events.len(), 1);
}

#[test]
fn repeated_report_stays_quiet_across_other_devices() {
    let mut logger = ControllerLogger::new();
    let pad = RawControllerReport {
        device_handle: 1,
        report: vec![DUALSENSE_USB_REPORT_ID, 10, 20, 30, 40, 50, 60, 0, 0b0011_0000, 0, 0],
    };
    let other = RawControllerReport { device_handle: 2, ..pad.clone() };
    let unknown = RawControllerReport { device_handle: 1, report: vec![0x55, 0, 0] };
    assert!(!logger.handle_report(&pad, true).button_events.is_empty());
    assert!(!logger.handle_report(&other, true).button_events.is_empty());
    let _ = logger.handle_report(&unknown, true);
    let again = logger.handle_report(&pad, true);
    assert!(again.button_events.is_empty());
    assert!(again.analog_events.is_empty());
}
