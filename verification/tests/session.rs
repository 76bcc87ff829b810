use operation_logger::applications::{list_running_applications, AppWindow, RawWindow};
use operation_logger::gui::app_model::{
    build_items, build_label, preserve_selected_index, AppIdentity, AppSelection, StartFailure,
    StartPlan,
};
use operation_logger::local_participant_config::{
    backup_timestamp, decide_config_load, invalid_config_backup_file_name,
    new_local_participant_config, validate_config, ConfigError, ConfigLoad, LocalParticipantConfig,
    CONFIG_DIR_NAME, CONFIG_FILE_NAME, SCHEMA_VERSION,
};
use operation_logger::log_directory::{
    directory_timestamp, operation_log_directory_name, sanitize_path_component,
    OPERATION_LOGS_DIR,
};
use operation_logger::release_package::{
    artifact_name, binary_extension, extract_target_dir, extract_target_triple, platform_and_arch,
};
use operation_logger::session_metadata::{session_metadata_for, SESSION_METADATA_FILE};
use operation_logger::timestamp::{format_utc_timestamp, is_utc_millis_format};
use operation_logger::uuid_text::{is_valid_uuid, v4_uuid_text};

const RANDOM: [u8; 16] = [
    0x8d, 0xd7, 0xf0, 0xc2, 0x6e, 0x33, 0x0e, 0xd4, 0x23, 0x4f, 0x0a, 0x5b, 0x7f, 0xd4, 0xb7, 0xd8,
];

fn window(hwnd: isize, visible: bool, title: &str, pid: u32, name: Option<&str>) -> RawWindow {
    RawWindow {
        hwnd,
        visible,
        title: title.to_string(),
        process_id: pid,
        process_name: name.map(|n| n.to_string()),
    }
}

fn app(hwnd: isize, title: &str, pid: u32, name: Option<&str>) -> AppWindow {
    AppWindow {
        hwnd,
        title: title.to_string(),
        process_id: pid,
        process_name: name.map(|n| n.to_string()),
    }
}

fn args(list: &[&str]) -> Vec<String> {
    list.iter().map(|a| a.to_string()).collect()
}

#[test]
fn list_running_applications_does_not_fail() {
    let raw = vec![
        window(1, true, "  Editor  ", 10, Some("editor.exe")),
        window(2, false, "Hidden", 11, Some("hidden.exe")),
        window(3, true, " \t\n", 12, None),
        window(4, true, "Game", 13, None),
    ];
    let windows = list_running_applications(raw);

    assert_eq!(windows.len(), 2);
    for w in &windows {
        assert!(!w.title.trim().is_empty());
    }
    assert_eq!(windows[0].hwnd, 1);
    assert_eq!(windows[0].title, "Editor");
    assert_eq!(windows[0].process_name.as_deref(), Some("editor.exe"));
    assert_eq!(windows[1].hwnd, 4);
    assert_eq!(windows[1].process_id, 13);
    assert_eq!(windows[1].process_name, None);
    assert!(list_running_applications(Vec::new()).is_empty());
}

#[test]
fn format_validator_rejects_invalid_values() {
    assert!(!is_utc_millis_format("2026/04/13 12:34:56"));
    assert!(!is_utc_millis_format("2026-04-13T12:34:56"));
}

#[test]
fn started_at_utc_uses_expected_format() {
    let value = format_utc_timestamp(2026, 4, 13, 1, 2, 3, 45);
    assert_eq!(value, "2026-04-13T01:02:03.045");
    assert!(is_utc_millis_format(&value));
    assert!(is_utc_millis_format(&format_utc_timestamp(9999, 12, 31, 23, 59, 59, 999)));
    assert!(!is_utc_millis_format("2026-04-13T12:34:56.12a"));
    assert!(!is_utc_millis_format("2026-04-13 12:34:56.123"));
    assert!(!is_utc_millis_format(""));
}

#[test]
fn writes_expected_json_fields() {
    let app = app(1, "Game Window", 999, Some("game.exe"));
    let metadata = session_metadata_for(
        &app,
        "8dd7f0c2-6e33-4ed4-a34f-0a5b7fd4b7d8",
        "0.1.0",
        true,
        "2026-04-13T01:02:03.045".to_string(),
        RANDOM,
    );

    assert_eq!(SESSION_METADATA_FILE, "session_metadata.json");
    assert_eq!(metadata.operation_logger_version, "0.1.0");
    assert!(metadata.is_production_build);
    assert_eq!(
        metadata.local_participant_id,
        "8dd7f0c2-6e33-4ed4-a34f-0a5b7fd4b7d8"
    );
    assert!(uuid::Uuid::parse_str(&metadata.session_id).is_ok());
    assert_eq!(metadata.started_at_utc, "2026-04-13T01:02:03.045");
    assert_eq!(metadata.target_app.title, "Game Window");
    assert_eq!(metadata.target_app.process_name, "game.exe");
}

#[test]
fn target_app_falls_back_to_unknown_process_name() {
    let app = app(1, "Untitled", 7, None);
    let metadata = session_metadata_for(
        &app,
        "8dd7f0c2-6e33-4ed4-a34f-0a5b7fd4b7d8",
        "0.1.0",
        false,
        "2026-04-13T01:02:03.045".to_string(),
        RANDOM,
    );
    assert_eq!(metadata.target_app.title, "Untitled");
    assert_eq!(metadata.target_app.process_name, "unknown");
    assert!(!metadata.is_production_build);
}

#[test]
fn session_ids_are_fresh_lowercase_v4_uuids() {
    let app = app(1, "Game", 7, None);
    let a = session_metadata_for(&app, "p", "v", true, String::new(), [0u8; 16]);
    let b = session_metadata_for(&app, "p", "v", true, String::new(), [0xffu8; 16]);
    assert_eq!(a.session_id, "00000000-0000-4000-8000-000000000000");
    assert_eq!(b.session_id, "ffffffff-ffff-4fff-bfff-ffffffffffff");
    for id in [&a.session_id, &b.session_id] {
        assert_eq!(id.len(), 36);
        assert_eq!(id.as_bytes()[14], b'4');
        assert!(matches!(id.as_bytes()[19], b'8' | b'9' | b'a' | b'b'));
        assert_eq!(id.to_lowercase(), *id);
    }
    assert_ne!(a.session_id, b.session_id);
}

#[test]
fn v4_uuid_text_keeps_random_bits_and_sets_version_and_variant() {
    assert_eq!(v4_uuid_text(RANDOM), "8dd7f0c2-6e33-4ed4-a34f-0a5b7fd4b7d8");
    let bytes: [u8; 16] = [
        0x00, 0x11, 0x22, 0x33, 0x44, 0x55, 0x66, 0x77, 0x88, 0x99, 0xaa, 0xbb, 0xcc, 0xdd, 0xee,
        0xff,
    ];
    assert_eq!(v4_uuid_text(bytes), "00112233-4455-4677-8899-aabbccddeeff");
    let config = new_local_participant_config(String::new(), bytes);
    assert_eq!(config.local_participant_id, "00112233-4455-4677-8899-aabbccddeeff");
    assert!(is_valid_uuid(&config.local_participant_id));
}

#[test]
fn uuid_texts_in_every_accepted_form() {
    assert!(is_valid_uuid("8dd7f0c2-6e33-4ed4-a34f-0a5b7fd4b7d8"));
    assert!(is_valid_uuid("8DD7F0C2-6E33-4ED4-A34F-0A5B7FD4B7D8"));
    assert!(is_valid_uuid("8dd7f0c26e334ed4a34f0a5b7fd4b7d8"));
    assert!(is_valid_uuid("{8dd7f0c2-6e33-4ed4-a34f-0a5b7fd4b7d8}"));
    assert!(is_valid_uuid("urn:uuid:8dd7f0c2-6e33-4ed4-a34f-0a5b7fd4b7d8"));
    assert!(!is_valid_uuid("not-a-uuid"));
    assert!(!is_valid_uuid(""));
    assert!(!is_valid_uuid("8dd7f0c2-6e33-4ed4-a34f-0a5b7fd4b7dz"));
    assert!(!is_valid_uuid("8dd7f0c2_6e33-4ed4-a34f-0a5b7fd4b7d8"));
}

fn config(schema_version: u32, id: &str) -> LocalParticipantConfig {
    LocalParticipantConfig {
        schema_version,
        local_participant_id: id.to_string(),
        created_at_utc: "2026-04-27T07:20:31.123".to_string(),
    }
}

#[test]
fn creates_config_when_missing() {
    assert!(matches!(decide_config_load(false, None), ConfigLoad::Create));
    let config = new_local_participant_config("2026-04-27T07:20:31.123".to_string(), RANDOM);
    assert_eq!(config.schema_version, 1);
    assert!(uuid::Uuid::parse_str(&config.local_participant_id).is_ok());
    assert_eq!(config.created_at_utc, "2026-04-27T07:20:31.123");
    assert_eq!(CONFIG_DIR_NAME, "operation-logger");
    assert_eq!(CONFIG_FILE_NAME, "config.json");
}

#[test]
fn reuses_existing_local_participant_id() {
    let first = new_local_participant_config("2026-04-27T07:20:31.123".to_string(), RANDOM);
    match decide_config_load(true, Some(first.clone())) {
        ConfigLoad::Reuse(second) => {
            assert_eq!(second.local_participant_id, first.local_participant_id);
            assert_eq!(second.created_at_utc, first.created_at_utc);
        }
        other => panic!("expected the config to be reused, got {:?}", other),
    }
}

#[test]
fn backs_up_invalid_config_and_creates_new_one() {
    // A file that does not parse is replaced.
    assert!(matches!(decide_config_load(true, None), ConfigLoad::ReplaceInvalid));
    let name = invalid_config_backup_file_name(&backup_timestamp("2026-04-27T07:20:31.123"), 0);
    assert!(name.starts_with("config.invalid-"));
    assert_eq!(name, "config.invalid-20260427_072031.json");
    assert_eq!(
        invalid_config_backup_file_name("20260427_072031", 2),
        "config.invalid-20260427_072031-2.json"
    );
}

#[test]
fn treats_invalid_uuid_as_invalid_config() {
    let stored = config(1, "not-a-uuid");
    assert_eq!(validate_config(&stored), Err(ConfigError::InvalidParticipantId));
    assert!(matches!(
        decide_config_load(true, Some(stored)),
        ConfigLoad::ReplaceInvalid
    ));
    let recreated = new_local_participant_config("2026-04-27T07:20:31.123".to_string(), RANDOM);
    assert!(uuid::Uuid::parse_str(&recreated.local_participant_id).is_ok());
    assert_ne!(recreated.local_participant_id, "not-a-uuid");
}

#[test]
fn treats_invalid_schema_version_as_invalid_config() {
    let stored = config(999, "8dd7f0c2-6e33-4ed4-a34f-0a5b7fd4b7d8");
    assert_eq!(
        validate_config(&stored),
        Err(ConfigError::UnsupportedSchemaVersion)
    );
    assert!(matches!(
        decide_config_load(true, Some(stored.clone())),
        ConfigLoad::ReplaceInvalid
    ));
    let recreated = new_local_participant_config("2026-04-27T07:20:31.123".to_string(), [7u8; 16]);
    assert_eq!(recreated.schema_version, 1);
    assert_ne!(recreated.local_participant_id, stored.local_participant_id);
}

#[test]
fn a_loaded_config_is_reused_by_the_next_load() {
    let created = new_local_participant_config("2026-04-27T07:20:31.123".to_string(), RANDOM);
    for loaded in [decide_config_load(false, None), decide_config_load(true, None)] {
        let result = match loaded {
            ConfigLoad::Reuse(c) => c,
            _ => created.clone(),
        };
        match decide_config_load(true, Some(result.clone())) {
            ConfigLoad::Reuse(again) => {
                assert_eq!(again.local_participant_id, result.local_participant_id);
                assert_eq!(again.created_at_utc, result.created_at_utc);
                assert_eq!(again.schema_version, result.schema_version);
            }
            other => panic!("expected reuse, got {:?}", other),
        }
    }
}

#[test]
fn schema_version_is_checked_before_the_participant_id() {
    assert_eq!(
        validate_config(&config(2, "not-a-uuid")),
        Err(ConfigError::UnsupportedSchemaVersion)
    );
    assert_eq!(
        validate_config(&config(SCHEMA_VERSION, "{8dd7f0c2-6e33-4ed4-a34f-0a5b7fd4b7d8}")),
        Ok(())
    );
}

#[test]
fn new_configs_are_valid_and_reused() {
    let fresh = new_local_participant_config(String::new(), RANDOM);
    assert_eq!(validate_config(&fresh), Ok(()));
    assert!(matches!(
        decide_config_load(true, Some(fresh)),
        ConfigLoad::Reuse(_)
    ));
}

#[test]
fn creates_operation_log_directory() {
    let app = app(1, "Test App", 123, Some("test-app.exe"));
    assert_eq!(OPERATION_LOGS_DIR, "OperationLogs");
    assert_eq!(
        operation_log_directory_name("2026-04-13_012345", &app),
        "2026-04-13_012345_test-app.exe"
    );
}

#[test]
fn sanitizes_process_name_for_directory_name() {
    let app = app(1, "Test App", 123, Some(r#"bad<>:"/\|?*.exe"#));
    assert_eq!(
        operation_log_directory_name("2026-04-13_012345", &app),
        "2026-04-13_012345_bad_________.exe"
    );
}

#[test]
fn sanitized_components_are_never_empty_or_dotted() {
    assert_eq!(sanitize_path_component(" .. "), "unknown");
    assert_eq!(sanitize_path_component(""), "unknown");
    assert_eq!(sanitize_path_component(". game.exe ."), "game.exe");
    assert_eq!(sanitize_path_component("a\u{7}b\u{85}c"), "a_b_c");
    assert_eq!(sanitize_path_component("ゲーム.exe"), "ゲーム.exe");
    let unnamed = app(1, "x", 1, None);
    assert_eq!(operation_log_directory_name("t", &unnamed), "t_unknown");
    assert_eq!(directory_timestamp(2026, 4, 13, 1, 23, 45), "2026-04-13_012345");
}

#[test]
fn labels_and_identities_of_listed_apps() {
    let editor = app(5, "  Editor ", 42, Some("editor.exe"));
    assert_eq!(build_label(&editor), "Editor | editor.exe | pid:42");
    assert_eq!(
        build_label(&app(6, "Game", 7, None)),
        "Game | (unknown) | pid:7"
    );
    let id = AppIdentity::from_app(&editor);
    assert_eq!(id, AppIdentity::from_app(&app(5, "  Editor ", 42, None)));
    assert_ne!(id, AppIdentity::from_app(&app(5, "Editor", 42, None)));
    assert!(id.matches(&app(5, "  Editor ", 42, None)));
    assert!(!id.matches(&app(5, "Editor", 42, Some("editor.exe"))));
    assert!(!id.matches(&app(9, "  Editor ", 42, Some("editor.exe"))));
    assert!(!id.matches(&app(5, "  Editor ", 43, Some("editor.exe"))));

    let items = build_items(vec![app(1, "A", 1, None), editor.clone(), editor.clone()]);
    assert_eq!(items.len(), 3);
    assert_eq!(items[1].label, "Editor | editor.exe | pid:42");
    assert_eq!(preserve_selected_index(&items, Some(id.clone())), Some(1));
    assert_eq!(preserve_selected_index(&items, None), None);
    assert_eq!(
        preserve_selected_index(&items, Some(AppIdentity::from_app(&app(2, "B", 2, None)))),
        None
    );
}

#[test]
fn selection_survives_refresh_while_the_app_is_listed() {
    let mut selection = AppSelection::new();
    assert_eq!(selection.status_text(), "Ready");
    assert_eq!(selection.selected_index(), None);

    selection.apply_refresh(vec![app(1, "A", 1, None), app(2, "B", 2, Some("b.exe"))], true);
    assert_eq!(selection.status_text(), "Loaded 2 applications. Select one.");
    assert_eq!(selection.apps().len(), 2);

    selection.update_selection(1);
    assert_eq!(selection.selected_index(), Some(1));
    assert_eq!(selection.status_text(), "Selected: B (pid 2, b.exe).");
    assert_eq!(selection.selected_app().unwrap().app.hwnd, 2);

    selection.apply_refresh(
        vec![app(3, "C", 3, None), app(2, "B", 2, Some("b.exe")), app(1, "A", 1, None)],
        false,
    );
    assert_eq!(selection.selected_index(), Some(1));
    assert_eq!(selection.status_text(), "Refreshed 3 applications.");

    selection.apply_refresh(vec![app(3, "C", 3, None)], false);
    assert_eq!(selection.selected_index(), None);
    assert_eq!(
        selection.status_text(),
        "Refreshed 1 applications. Selection was cleared."
    );

    selection.update_selection(0);
    selection.apply_refresh(vec![app(3, "C", 3, None)], true);
    assert_eq!(selection.status_text(), "Loaded 1 applications.");

    selection.apply_refresh(Vec::new(), false);
    assert_eq!(selection.status_text(), "No running applications found.");
    assert_eq!(selection.selected_index(), None);
}

#[test]
fn selection_updates_and_refresh_errors() {
    let mut selection = AppSelection::new();
    selection.apply_refresh(vec![app(1, "A", 1, None)], true);
    selection.update_selection(0);
    assert_eq!(selection.status_text(), "Selected: A (pid 1, unknown).");
    selection.update_selection(5);
    assert_eq!(selection.selected_index(), None);
    assert_eq!(selection.status_text(), "Selected item no longer exists.");
    selection.update_selection(0);
    selection.update_selection(-1);
    assert_eq!(selection.selected_index(), None);
    assert_eq!(selection.status_text(), "Selection cleared.");
    selection.update_selection(0);
    selection.apply_refresh_error("access denied");
    assert_eq!(selection.selected_index(), Some(0));
    assert_eq!(selection.apps().len(), 1);
    assert_eq!(
        selection.status_text(),
        "Failed to load applications: access denied"
    );
}

#[test]
fn release_build_arguments_name_target_and_directory() {
    assert_eq!(
        extract_target_triple(&args(&["--locked", "--target", "x86_64-pc-windows-msvc"])),
        Some("x86_64-pc-windows-msvc".to_string())
    );
    assert_eq!(
        extract_target_triple(&args(&["--target=aarch64-apple-darwin", "--target", "x"])),
        Some("aarch64-apple-darwin".to_string())
    );
    assert_eq!(extract_target_triple(&args(&["--target"])), None);
    assert_eq!(extract_target_triple(&args(&["--target-dir", "out"])), None);
    assert_eq!(
        extract_target_dir(&args(&["--target-dir", "out", "--target", "t"])),
        Some("out".to_string())
    );
    assert_eq!(
        extract_target_dir(&args(&["--target-dir=build/x"])),
        Some("build/x".to_string())
    );
    assert_eq!(extract_target_dir(&args(&[])), None);
}

#[test]
fn release_artifacts_are_named_by_platform_and_arch() {
    let pair = |t: Option<&str>, os: &str, arch: &str| {
        let (p, a) = platform_and_arch(t, os, arch);
        (p, a)
    };
    assert_eq!(
        pair(Some("x86_64-pc-windows-msvc"), "linux", "x86_64"),
        ("windows".to_string(), "x64".to_string())
    );
    assert_eq!(
        pair(Some("aarch64-apple-darwin"), "linux", "x86_64"),
        ("macos".to_string(), "arm64".to_string())
    );
    assert_eq!(
        pair(Some("i686-unknown-linux-gnu"), "windows", "x86_64"),
        ("linux".to_string(), "x86".to_string())
    );
    assert_eq!(
        pair(Some("wasm32-unknown-emscripten"), "windows", "x86_64"),
        ("emscripten".to_string(), "wasm32".to_string())
    );
    assert_eq!(
        pair(Some("thumbv7em"), "windows", "x86_64"),
        ("unknown".to_string(), "thumbv7em".to_string())
    );
    assert_eq!(
        pair(None, "linux", "aarch64"),
        ("linux".to_string(), "arm64".to_string())
    );
    assert_eq!(
        pair(None, "freebsd", "riscv64"),
        ("freebsd".to_string(), "riscv64".to_string())
    );
    assert_eq!(binary_extension("windows"), ".exe");
    assert_eq!(binary_extension("linux"), "");
    assert_eq!(
        artifact_name("operation-logger", "cli", "0.1.0", "windows", "x64", ".exe"),
        "operation-logger-cli-v0.1.0-windows-x64.exe"
    );
}

fn start(gui: &mut AppSelection) -> Option<StartPlan> {
    gui.begin_start(
        "8dd7f0c2-6e33-4ed4-a34f-0a5b7fd4b7d8",
        "0.1.0",
        true,
        "2026-04-13T01:02:03.045".to_string(),
        RANDOM,
    )
}

#[test]
fn logging_sessions_start_and_stop_from_the_selection() {
    let mut gui = AppSelection::new();
    assert!(!gui.logging());
    assert!(!gui.has_log_dir());
    assert_eq!(gui.selected_index_for_ui(), -1);
    let (title, name, pid) = gui.selected_details();
    assert_eq!((title.as_str(), name.as_str(), pid.as_str()), ("-", "-", "-"));

    assert!(start(&mut gui).is_none());
    assert_eq!(gui.status_text(), "Select an application first.");
    assert!(!gui.begin_stop());
    assert_eq!(gui.status_text(), "Logging is not running.");
    assert!(gui.folder_to_open().is_none());
    assert_eq!(gui.status_text(), "No log folder is available yet.");

    gui.apply_refresh(vec![app(7, "Game", 70, None)], true);
    gui.update_selection(0);
    assert_eq!(gui.selected_index_for_ui(), 0);
    let (title, name, pid) = gui.selected_details();
    assert_eq!((title.as_str(), name.as_str(), pid.as_str()), ("Game", "(unknown)", "70"));

    let plan = start(&mut gui).expect("a selected app can be logged");
    assert_eq!(plan.app.hwnd, 7);
    assert_eq!(plan.app.process_id, 70);
    assert_eq!(plan.metadata.local_participant_id, "8dd7f0c2-6e33-4ed4-a34f-0a5b7fd4b7d8");
    assert_eq!(plan.metadata.operation_logger_version, "0.1.0");
    assert!(plan.metadata.is_production_build);
    assert_eq!(plan.metadata.started_at_utc, "2026-04-13T01:02:03.045");
    assert_eq!(plan.metadata.target_app.title, "Game");
    assert_eq!(plan.metadata.target_app.process_name, "unknown");
    assert!(uuid::Uuid::parse_str(&plan.metadata.session_id).is_ok());
    gui.start_failed(StartFailure::SessionMetadata, "disk full");
    assert_eq!(gui.status_text(), "Failed to write session metadata: disk full");
    gui.start_failed(StartFailure::ScreenCapture, "no device");
    assert_eq!(gui.status_text(), "Failed to start screen capture: no device");
    assert!(!gui.logging());
    gui.start_failed(StartFailure::LogDirectory, "denied");
    assert_eq!(gui.status_text(), "Failed to create log directory: denied");
    gui.start_failed(StartFailure::InputLogging, "hook");
    assert_eq!(gui.status_text(), "Failed to start input logging: hook");

    gui.started("C:/logs/2026-04-13_012345_game");
    assert!(gui.logging());
    assert!(gui.has_log_dir());
    assert_eq!(gui.status_text(), "Logging started: C:/logs/2026-04-13_012345_game");
    assert!(start(&mut gui).is_none());
    assert_eq!(gui.status_text(), "Logging is already running.");

    assert!(gui.begin_stop());
    gui.stopped(None);
    assert!(!gui.logging());
    assert_eq!(gui.status_text(), "Logging stopped.");
    gui.stopped(Some("writer failed"));
    assert_eq!(gui.status_text(), "Failed to stop logging cleanly: writer failed");

    let folder = gui.folder_to_open().unwrap();
    assert_eq!(folder, "C:/logs/2026-04-13_012345_game");
    gui.folder_opened(&folder, None);
    assert_eq!(gui.status_text(), "Opened log folder: C:/logs/2026-04-13_012345_game");
    gui.folder_opened(&folder, Some("not found"));
    assert_eq!(gui.status_text(), "Failed to open folder: not found");
}
