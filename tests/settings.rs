use voice_tool::settings::{
    format_geometry, hotkeys_conflict, normalize_hotkey_value, parse_geometry, HotkeyConfig, OPEN_WINDOW_CONFLICT,
    RECORD_PTT_CONFLICT,
};

#[test]
fn unbound_hotkeys_get_defaults() {
    let c = HotkeyConfig::default().with_defaults();
    assert_eq!(c, config(Some("Ctrl+F11"), Some("Ctrl+F12"), Some("Ctrl+Alt+O")));
    let c = config(Some("F9"), None, Some("Alt+W")).with_defaults();
    assert_eq!(c, config(Some("F9"), Some("Ctrl+F12"), Some("Alt+W")));
}

#[test]
fn update_replaces_only_named_hotkeys() {
    let current = config(Some("F9"), Some("F10"), None);
    let next = current.updated(Some("  F7 ".to_string()), None, Some("Ctrl+O".to_string()));
    assert_eq!(next, config(Some("F7"), Some("F10"), Some("Ctrl+O")));
    let cleared = current.updated(None, Some("   ".to_string()), None);
    assert_eq!(cleared, config(Some("F9"), None, None));
}

#[test]
fn geometry_is_parsed() {
    assert_eq!(parse_geometry("800x600+10+-20"), Some((800, 600, 10, -20)));
    assert_eq!(parse_geometry("1x2+3+4+5"), Some((1, 2, 3, 4)));
    assert_eq!(parse_geometry("1x2x3+0+0"), Some((1, 2, 0, 0)));
    assert_eq!(parse_geometry("0x0+-2147483648+2147483647"), Some((0, 0, i32::MIN, i32::MAX)));
    assert_eq!(parse_geometry("4294967295x007+0+0"), Some((u32::MAX, 7, 0, 0)));
}

#[test]
fn malformed_geometry_is_rejected() {
    for bad in [
        "", "800x600", "800x600+10", "800+1+2", "x600+1+2", "800x+1+2", "800x600++1",
        "800x600+1+", "4294967296x1+0+0", "1x2+2147483648+0", "1x2+-2147483649+0",
        "-1x2+0+0", "1x2+-+0", "1x2+a+0", "1 x2+0+0", "1x2+0+0x",
    ] {
        assert_eq!(parse_geometry(bad), None, "{bad}");
    }
}

fn config(record: Option<&str>, ptt: Option<&str>, open: Option<&str>) -> HotkeyConfig {
    HotkeyConfig {
        record: record.map(String::from),
        ptt: ptt.map(String::from),
        open_window: open.map(String::from),
    }
}

#[test]
fn distinct_hotkeys_do_not_conflict() {
    assert_eq!(hotkeys_conflict(&config(Some("Ctrl+F11"), Some("Ctrl+F12"), Some("Ctrl+Alt+O"))), None);
    assert_eq!(hotkeys_conflict(&config(None, None, None)), None);
    assert_eq!(hotkeys_conflict(&config(None, Some("A"), None)), None);
}

#[test]
fn toggle_and_push_to_talk_must_differ() {
    assert_eq!(
        hotkeys_conflict(&config(Some("Ctrl+F11"), Some("ctrl+f11"), Some("ctrl+f11"))),
        Some(RECORD_PTT_CONFLICT.to_string())
    );
}

#[test]
fn open_window_must_differ_from_recording_keys() {
    assert_eq!(
        hotkeys_conflict(&config(Some("Ctrl+F11"), Some("Ctrl+F12"), Some("CTRL+F12"))),
        Some(OPEN_WINDOW_CONFLICT.to_string())
    );
    assert_eq!(
        hotkeys_conflict(&config(Some("Ctrl+É"), None, Some("ctrl+É"))),
        Some(OPEN_WINDOW_CONFLICT.to_string())
    );
    assert_eq!(hotkeys_conflict(&config(Some("Ctrl+É"), None, Some("ctrl+é"))), None);
}

#[test]
fn hotkey_values_are_trimmed() {
    assert_eq!(normalize_hotkey_value(Some("  Ctrl+A \t\n".to_string())), Some("Ctrl+A".to_string()));
    assert_eq!(normalize_hotkey_value(Some("\u{3000}Alt + B\u{a0}".to_string())), Some("Alt + B".to_string()));
    assert_eq!(normalize_hotkey_value(Some("X".to_string())), Some("X".to_string()));
}

#[test]
fn blank_hotkeys_are_unbound() {
    assert_eq!(normalize_hotkey_value(None), None);
    assert_eq!(normalize_hotkey_value(Some(String::new())), None);
    assert_eq!(normalize_hotkey_value(Some(" \u{2003}\r\n".to_string())), None);
}

use voice_tool::window::mini_window_position;

#[test]
fn mini_window_is_centred_above_bottom_margin() {
    assert_eq!(mini_window_position(0, 0, 1920, 1080, 233, 42), Some((843, 1006)));
    assert_eq!(mini_window_position(1920, -200, 1280, 1024, 320, 76), Some((2400, 716)));
}

#[test]
fn mini_window_stays_below_monitor_top() {
    assert_eq!(mini_window_position(0, 100, 800, 50, 233, 150), Some((283, 100)));
}

#[test]
fn wider_window_is_centred_toward_zero() {
    assert_eq!(mini_window_position(10, 0, 100, 1000, 233, 42), Some((-56, 926)));
}

#[test]
fn out_of_range_position_is_refused() {
    assert_eq!(mini_window_position(i32::MAX, 0, u32::MAX, 100, 0, 0), None);
    assert_eq!(mini_window_position(0, i32::MAX, 10, u32::MAX, 10, 0), None);
}

#[test]
fn geometry_is_formatted_and_read_back() {
    assert_eq!(format_geometry(800, 600, 10, -20), "800x600+10+-20");
    assert_eq!(format_geometry(0, 0, 0, 0), "0x0+0+0");
    assert_eq!(
        format_geometry(u32::MAX, 7, i32::MIN, i32::MAX),
        "4294967295x7+-2147483648+2147483647"
    );
    for (w, h, x, y) in [(1u32, 2u32, 3i32, 4i32), (1920, 1080, -1920, -5), (u32::MAX, 0, i32::MIN, i32::MAX)] {
        assert_eq!(parse_geometry(&format_geometry(w, h, x, y)), Some((w, h, x, y)));
    }
}
