use right_panel::sys::{
    bgra_to_rgba, color_hex, combo_events, input_region, is_exe, media_key, pin_message,
    remember_foreground, set_self_window, wide, ForegroundTracker, MediaKey,
};
use right_panel::watch::{clip_script, menu_action, ClipWatch, EdgeAction, EdgeConfig, EdgeWatch, MenuAction};

#[test]
fn wide_strings_end_in_zero() {
    assert_eq!(wide(""), vec![0]);
    assert_eq!(wide("Ab"), vec![65, 98, 0]);
    assert_eq!(wide("é😀"), vec![0xe9, 0xd83d, 0xde00, 0]);
    let s = "Right Panel 📌";
    let mut expected: Vec<u16> = s.encode_utf16().collect();
    expected.push(0);
    assert_eq!(wide(s), expected);
}

#[test]
fn foreground_tracker_ignores_the_panel() {
    let mut t = ForegroundTracker::new();
    set_self_window(&mut t, 42);
    assert_eq!(t.self_window, 42);
    remember_foreground(&mut t, 7);
    assert_eq!(t.previous, 7);
    remember_foreground(&mut t, 42);
    assert_eq!(t.previous, 7);
    remember_foreground(&mut t, 9);
    assert_eq!(t.previous, 9);
}

#[test]
fn exe_paths() {
    assert!(is_exe("C:\\Apps\\Tool.EXE"));
    assert!(is_exe("run.exe"));
    assert!(!is_exe("run.exe.lnk"));
    assert!(!is_exe("exe"));
}

#[test]
fn picked_colours() {
    assert_eq!(color_hex(0x00_00_00_ff), "#ff0000");
    assert_eq!(color_hex(0x00_12_34_56), "#563412");
    assert_eq!(color_hex(0), "#000000");
}

#[test]
fn icon_pixels() {
    assert_eq!(bgra_to_rgba(vec![1, 2, 3, 0, 4, 5, 6, 0]), vec![3, 2, 1, 255, 6, 5, 4, 255]);
    assert_eq!(bgra_to_rgba(vec![1, 2, 3, 0, 4, 5, 6, 9]), vec![3, 2, 1, 0, 6, 5, 4, 9]);
    assert_eq!(bgra_to_rgba(vec![]), Vec::<u8>::new());
}

#[test]
fn key_chords() {
    assert!(media_key("play") == Some(MediaKey::PlayPause));
    assert!(media_key("desktop") == Some(MediaKey::ShowDesktop));
    assert!(media_key("volup") == Some(MediaKey::VolumeUp));
    assert!(media_key("boom").is_none());
    assert_eq!(combo_events(&vec![0x11, 0x56]), vec![(0x11, false), (0x56, false), (0x56, true), (0x11, true)]);
    assert_eq!(combo_events(&vec![]), vec![]);
}

#[test]
fn pin_messages() {
    assert_eq!(pin_message(None), "No window to pin");
    assert_eq!(pin_message(Some(("Notepad", true))), "Unpinned Notepad");
    assert_eq!(pin_message(Some(("Notepad", false))), "📌 Notepad stays on top");
    let long = "abcdefghijklmnopqrstuvwxyz0123456789";
    assert_eq!(pin_message(Some((long, true))), "Unpinned abcdefghijklmnopqrstuvwxyz01…");
}

#[test]
fn input_regions() {
    assert_eq!(input_region(480, 680, true), (477, 0, 3, 680));
    assert_eq!(input_region(480, 680, false), (0, 0, 480, 680));
    assert_eq!(input_region(0, -5, true), (-2, 0, 3, 1));
}

fn cfg() -> EdgeConfig {
    EdgeConfig { win_y: 100, height: 600, edge: 1920, near_px: 160 }
}

#[test]
fn edge_opens_on_fresh_move_into_edge() {
    let mut w = EdgeWatch::new();
    assert!(w.step(cfg(), false, Some((1918, 300)), false) == EdgeAction::Open);
    assert!(w.step(cfg(), false, Some((1918, 300)), false) == EdgeAction::Cursor(1918, 300));
    assert!(w.step(cfg(), false, Some((1919, 300)), true) == EdgeAction::Cursor(1919, 300));
    assert!(w.step(cfg(), false, Some((1000, 300)), false) == EdgeAction::Leave);
    assert!(w.step(cfg(), false, Some((1001, 300)), false) == EdgeAction::Nothing);
    assert!(w.step(cfg(), false, Some((1919, 50)), false) == EdgeAction::Nothing);
    assert!(w.step(cfg(), false, None, false) == EdgeAction::Nothing);
    assert!(w.step(cfg(), false, Some((1800, 300)), false) == EdgeAction::Cursor(1800, 300));
    assert!(w.step(cfg(), true, Some((1919, 300)), false) == EdgeAction::Nothing);
    assert!(!w.near);
}

#[test]
fn clipboard_changes() {
    let mut c = ClipWatch::new();
    assert!(!c.observe(0));
    assert!(c.observe(5));
    assert!(!c.observe(5));
    assert_eq!(clip_script("hi \"you\"").unwrap(), "app.clip(\"hi \\\"you\\\"\")");
    assert!(clip_script(&"x".repeat(99999)).is_some());
    assert!(clip_script(&"x".repeat(100000)).is_none());
    assert_eq!(
        clip_script("a\nb\t\u{1}\\\u{7f}").unwrap(),
        "app.clip(\"a\\nb\\t\\u0001\\\\\u{7f}\")"
    );
}

#[test]
fn tray_menu_entries() {
    assert!(menu_action("open") == MenuAction::ShowPanel);
    assert!(menu_action("settings") == MenuAction::ShowSettings);
    assert!(menu_action("addapp") == MenuAction::AddApp);
    assert!(menu_action("startup") == MenuAction::ToggleStartup);
    assert!(menu_action("quit") == MenuAction::Quit);
    assert!(menu_action("other") == MenuAction::Ignore);
}
