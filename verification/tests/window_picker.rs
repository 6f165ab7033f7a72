use cms_video_recorder::window_picker::{
    alias_for, capturable, icon_owners, image_file_name, listed_title, listing_alias, sort_by_title, strip_exe,
    wide_enough, WindowEntry, WindowPickerState, MIN_WINDOW_WIDTH, WS_EX_TOOLWINDOW,
};

fn window(hwnd: isize, title: &str, process: &str) -> WindowEntry {
    WindowEntry {
        hwnd,
        title: title.to_string(),
        width: 1280,
        height: 720,
        minimized: false,
        process: process.to_string(),
        alias: strip_exe(process),
    }
}

#[test]
fn aliases_for_allow_listed_executables() {
    assert_eq!(alias_for("MapleStory.exe"), Some("冒险岛正式服"));
    assert_eq!(alias_for("MAPLESTORYTA.EXE"), Some("冒险岛测试服"));
    assert_eq!(alias_for("msw.exe"), Some("冒险岛世界"));
    assert_eq!(alias_for("notepad.exe"), None);
    assert_eq!(alias_for("MapleStory"), None);
}

#[test]
fn exe_suffix_is_stripped() {
    assert_eq!(strip_exe("MapleStory.exe"), "MapleStory");
    assert_eq!(strip_exe("GAME.EXE"), "GAME");
    assert_eq!(strip_exe("Game.Exe"), "Game.Exe");
    assert_eq!(strip_exe("tool"), "tool");
}

#[test]
fn listing_labels() {
    assert_eq!(listing_alias("MapleStory.exe", false).as_deref(), Some("冒险岛正式服"));
    assert_eq!(listing_alias("chrome.exe", false), None);
    assert_eq!(listing_alias("chrome.exe", true).as_deref(), Some("chrome"));
}

#[test]
fn image_names_from_paths() {
    assert_eq!(image_file_name("C:\\Games\\MapleStory.exe").as_deref(), Some("MapleStory.exe"));
    assert_eq!(image_file_name("/usr/bin/app").as_deref(), Some("app"));
    assert_eq!(image_file_name("C:\\dir\\"), None);
    assert_eq!(image_file_name("plain.exe").as_deref(), Some("plain.exe"));
}

#[test]
fn narrow_windows_are_skipped() {
    assert_eq!(MIN_WINDOW_WIDTH, 800);
    assert!(wide_enough(800));
    assert!(!wide_enough(799));
}

#[test]
fn capturable_filter() {
    assert!(capturable(true, true, 0, None));
    assert!(capturable(true, true, 0, Some(0)));
    assert!(!capturable(false, true, 0, None));
    assert!(!capturable(true, false, 0, None));
    assert!(!capturable(true, true, WS_EX_TOOLWINDOW | 0x100, None));
    assert!(!capturable(true, true, 0, Some(2)));
}

#[test]
fn titles_are_trimmed() {
    assert_eq!(listed_title("  MapleStory \u{3000}").as_deref(), Some("MapleStory"));
    assert_eq!(listed_title(" \t "), None);
    assert_eq!(listed_title(""), None);
}

#[test]
fn windows_sort_by_title_ignoring_case() {
    let list = vec![
        window(1, "banana", "b.exe"),
        window(2, "Apple", "a.exe"),
        window(3, "apple", "c.exe"),
        window(4, "Ärger", "d.exe"),
        window(5, "cherry", "e.exe"),
    ];
    let sorted = sort_by_title(list);
    let order: Vec<isize> = sorted.iter().map(|w| w.hwnd).collect();
    // Equal titles keep their order; "ärger" sorts after ASCII letters.
    assert_eq!(order, vec![2, 3, 1, 5, 4]);
    // Case is ignored: "Zebra" sorts after "apple".
    let sorted = sort_by_title(vec![window(1, "Zebra", "z.exe"), window(2, "apple", "a.exe")]);
    assert_eq!(sorted.iter().map(|w| w.hwnd).collect::<Vec<_>>(), vec![2, 1]);
}

#[test]
fn icons_shared_per_executable() {
    let processes: Vec<String> =
        ["MapleStory.exe", "chrome.exe", "MAPLESTORY.EXE", "chrome.exe", "x.exe"].iter().map(|s| s.to_string()).collect();
    assert_eq!(icon_owners(&processes), vec![0, 1, 0, 1, 4]);
    assert!(icon_owners(&Vec::new()).is_empty());
}

#[test]
fn window_details() {
    let mut w = window(7, "Game", "MapleStoryTA.exe");
    assert_eq!(w.dimensions(), "1280×720");
    assert_eq!(w.process_label(), "MapleStoryTA");
    assert_eq!(w.detail(), "MapleStoryTA · 1280×720");
    w.minimized = true;
    assert_eq!(w.dimensions(), "已最小化");
    let copy = w.duplicate();
    assert_eq!((copy.hwnd, copy.title.as_str(), copy.minimized), (7, "Game", true));
}

#[test]
fn picker_keeps_a_live_selection() {
    let mut picker = WindowPickerState::new();
    assert_eq!(picker.button_label(), "选择窗口");
    assert!(picker.toggle());
    picker.select(window(2, "B", "b.exe"));
    assert!(!picker.is_open);
    assert_eq!(picker.button_label(), "b");
    // Still listed: the fresh entry replaces it.
    let mut fresh = window(2, "B renamed", "b.exe");
    fresh.width = 1920;
    picker.refreshed(vec![window(1, "A", "a.exe"), fresh]);
    assert_eq!(picker.selected.as_ref().map(|w| (w.hwnd, w.width)), Some((2, 1920)));
    assert_eq!(picker.windows.len(), 2);
    // Gone: the selection is dropped.
    picker.refreshed(vec![window(1, "A", "a.exe")]);
    assert!(picker.selected.is_none());
    assert!(!picker.toggle() || picker.is_open);
}
