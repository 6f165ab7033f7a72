use cms_video_recorder::config::{AppConfig, Hotkey};
use cms_video_recorder::i18n::Language;
use cms_video_recorder::settings::{KeyInput, Modifiers, NamedKey};
use cms_video_recorder::toolbar::{
    clock, compressed_name, truncate, Action, Failure, PanelSize, RecordButton, Status, Toolbar, STATUS_TTL_MS,
};
use cms_video_recorder::videos::{CompressionOutcome, CompressionReport};
use cms_video_recorder::window_picker::WindowEntry;

fn window(hwnd: isize, alias: &str) -> WindowEntry {
    WindowEntry {
        hwnd,
        title: format!("window {hwnd}"),
        width: 1280,
        height: 720,
        minimized: false,
        process: "MapleStory.exe".to_string(),
        alias: alias.to_string(),
    }
}

fn toolbar() -> Toolbar {
    Toolbar::new(AppConfig::defaults("D:\\rec".to_string(), Language::SimplifiedChinese), "D:\\rec".to_string())
}

#[test]
fn clock_formats() {
    assert_eq!(clock(0), "00s");
    assert_eq!(clock(9), "09s");
    assert_eq!(clock(59), "59s");
    assert_eq!(clock(60), "01:00");
    assert_eq!(clock(754), "12:34");
    assert_eq!(clock(6000), "100:00");
}

#[test]
fn status_text_is_truncated() {
    assert_eq!(truncate("short", 22), "short");
    assert_eq!(truncate("abcdef", 4), "abc\u{2026}");
    assert_eq!(truncate("冒险岛正式服冒险岛正式服", 5), "冒险岛正\u{2026}");
    assert_eq!(truncate("abc", 0), "\u{2026}");
    assert_eq!(truncate("", 0), "");
}

#[test]
fn compressed_copy_name() {
    assert_eq!(compressed_name("clip_20260817-203015.mp4"), "clip_20260817-203015_compressed");
    assert_eq!(compressed_name("noext"), "noext_compressed");
}

#[test]
fn recording_needs_a_window() {
    let mut bar = toolbar();
    assert_eq!(bar.panel_size(), PanelSize::Bar);
    assert_eq!(bar.record_button(), RecordButton::Record { enabled: false });
    let actions = bar.toggle_recording(10);
    assert!(actions.is_empty());
    assert!(!bar.starting);
    assert!(matches!(bar.status, Some(Status::Failed(Failure::PickWindow))));
    assert_eq!(bar.status_since, 10);
    assert!(bar.recording_request().is_none());
}

#[test]
fn full_recording_cycle() {
    let mut bar = toolbar();
    assert_eq!(bar.toggle_window_picker(), vec![Action::RefreshWindows { check_target: true }, Action::Resize(PanelSize::Picker)]);
    assert_eq!(bar.panel_size(), PanelSize::Picker);
    assert!(bar.windows_refreshed(vec![window(1, "冒险岛正式服"), window(2, "冒险岛M")], true).is_empty());
    assert_eq!(bar.window_selected(window(2, "冒险岛M")), vec![Action::Resize(PanelSize::Bar)]);
    assert_eq!(bar.record_button(), RecordButton::Record { enabled: true });

    assert_eq!(bar.toggle_recording(100), vec![Action::StartRecording]);
    assert_eq!(bar.record_button(), RecordButton::Preparing);
    // Pressing again while starting does nothing.
    assert!(bar.toggle_recording(101).is_empty());
    let (hwnd, alias, config) = bar.recording_request().unwrap();
    assert_eq!((hwnd, alias.as_str()), (2, "冒险岛M"));
    assert_eq!(config.output_dir, "D:\\rec");
    assert_eq!(config.max_duration_secs, Some(30));

    assert!(bar.recording_started(Ok(Some(2)), 200).is_empty());
    assert!(bar.is_recording());
    assert_eq!(bar.record_button(), RecordButton::Stop { enabled: true });
    assert_eq!(bar.recording_clock(0), "30s");
    assert_eq!(bar.recording_clock(29_000_000_001), "01s");
    assert_eq!(bar.recording_clock(30_000_000_000), "00s");

    // Under the cap nothing happens; at the cap the recording stops.
    assert!(bar.tick(300, 29_999_999_999, true).is_empty());
    assert_eq!(bar.tick(400, 30_000_000_000, true), vec![Action::FinishRecording]);
    assert!(!bar.is_recording());
    assert!(bar.stopping);
    assert_eq!(bar.record_button(), RecordButton::Saving);

    assert!(bar.recording_finished(Ok("D:\\rec\\a.mp4".to_string()), 500).is_empty());
    assert!(!bar.stopping);
    assert!(matches!(&bar.status, Some(Status::Saved(path)) if path == "D:\\rec\\a.mp4"));
    // The status expires after its time.
    assert!(bar.tick(500 + STATUS_TTL_MS - 1, 0, true).is_empty());
    assert!(bar.status.is_some());
    assert!(bar.tick(500 + STATUS_TTL_MS, 0, true).is_empty());
    assert!(bar.status.is_none());
}

#[test]
fn lost_target_stops_the_recording() {
    let mut bar = toolbar();
    bar.window_selected(window(5, "a"));
    bar.toggle_recording(0);
    bar.recording_started(Ok(Some(5)), 1);
    assert_eq!(bar.tick(2, 1, false), vec![Action::FinishRecording]);

    let mut bar = toolbar();
    bar.window_selected(window(5, "a"));
    bar.toggle_recording(0);
    bar.recording_started(Ok(Some(5)), 1);
    bar.toggle_window_picker();
    // The window vanished from the list while the picker was open.
    assert_eq!(bar.windows_refreshed(vec![window(6, "b")], true), vec![Action::FinishRecording]);
    assert!(bar.picker.selected.is_none());
}

#[test]
fn start_failure_and_switched_target() {
    let mut bar = toolbar();
    bar.window_selected(window(5, "a"));
    bar.toggle_recording(0);
    assert!(bar.recording_started(Err("boom".to_string()), 3).is_empty());
    assert!(!bar.starting);
    assert!(matches!(&bar.status, Some(Status::Failed(Failure::Recorder(msg))) if msg == "boom"));

    bar.toggle_recording(4);
    // The session came up for a window that is no longer selected.
    bar.window_selected(window(6, "b"));
    assert_eq!(bar.recording_started(Ok(Some(5)), 5), vec![Action::FinishRecording]);
}

#[test]
fn panels_are_exclusive() {
    let mut bar = toolbar();
    assert_eq!(bar.toggle_settings(), vec![Action::Resize(PanelSize::Settings)]);
    assert!(bar.settings.is_open);
    assert_eq!(bar.toggle_videos(), vec![Action::RefreshVideos, Action::Resize(PanelSize::Videos)]);
    assert!(!bar.settings.is_open && bar.videos.is_open);
    assert_eq!(bar.toggle_window_picker(), vec![Action::RefreshWindows { check_target: true }, Action::Resize(PanelSize::Picker)]);
    assert!(!bar.videos.is_open && bar.picker.is_open);
    assert_eq!(bar.toggle_window_picker(), vec![Action::Resize(PanelSize::Bar)]);
}

#[test]
fn settings_are_committed_on_close() {
    let mut bar = toolbar();
    bar.toggle_settings();
    bar.max_duration_changed("1a5");
    assert_eq!(bar.settings.max_duration, "15");
    bar.output_dir_changed("  E:\\clips  ".to_string());
    assert_eq!(bar.save_settings(), vec![Action::SaveConfig, Action::Resize(PanelSize::Bar)]);
    assert_eq!(bar.config.max_duration_secs, 15);
    assert_eq!(bar.config.output_dir, "E:\\clips");
    assert_eq!(bar.settings.output_dir, "E:\\clips");
    // Closing again without changes saves nothing.
    bar.toggle_settings();
    assert_eq!(bar.toggle_settings(), vec![Action::Resize(PanelSize::Bar)]);
}

#[test]
fn language_and_hotkey_changes_are_applied() {
    let mut bar = toolbar();
    assert_eq!(
        bar.select_language(Language::English),
        vec![Action::SetLanguage, Action::RefreshWindows { check_target: false }, Action::SaveConfig]
    );
    assert_eq!(bar.config.language, Language::English);

    bar.capture_hotkey();
    assert!(bar.settings.capturing);
    // A bare letter keeps waiting.
    let none = Modifiers { control: false, alt: false, shift: false, logo: false };
    assert!(bar.hotkey_captured(&KeyInput::Character("q".to_string()), none).is_empty());
    assert!(bar.settings.capturing);
    assert_eq!(bar.hotkey_captured(&KeyInput::Named(NamedKey::F8), none), vec![Action::ApplyHotkey, Action::SaveConfig]);
    assert_eq!(bar.config.hotkey, Some(Hotkey { ctrl: false, alt: false, shift: false, win: false, key: 0x77 }));
    assert!(!bar.settings.capturing);
    // Not capturing: key presses are ignored.
    assert!(bar.hotkey_captured(&KeyInput::Named(NamedKey::F9), none).is_empty());

    assert_eq!(bar.clear_hotkey(), vec![Action::ApplyHotkey, Action::SaveConfig]);
    assert_eq!(bar.config.hotkey, None);

    bar.hotkey_rejected(9);
    assert!(matches!(bar.status, Some(Status::Failed(Failure::HotkeyTaken(None)))));
}

#[test]
fn folder_dialog_flow() {
    let mut bar = toolbar();
    bar.toggle_settings();
    assert_eq!(bar.browse_output_dir(), vec![Action::PickFolder]);
    assert!(bar.browse_output_dir().is_empty());
    assert_eq!(bar.folder_dialog_start(), "D:\\rec");
    assert_eq!(bar.output_dir_picked(Some("F:\\new".to_string())), vec![Action::SaveConfig]);
    assert_eq!(bar.config.output_dir, "F:\\new");
    assert!(!bar.settings.browsing);
    bar.browse_output_dir();
    assert!(bar.output_dir_picked(None).is_empty());
}

#[test]
fn compression_flow() {
    let mut bar = toolbar();
    bar.toggle_videos();
    assert!(bar.compress_video("D:\\rec\\a.mp4".to_string(), false, 1).is_empty());
    assert!(matches!(bar.status, Some(Status::Failed(Failure::FfmpegMissing))));

    assert_eq!(bar.compress_video("D:\\rec\\a.mp4".to_string(), true, 2), vec![Action::PickSaveTarget]);
    assert_eq!(bar.videos.compressing.as_deref(), Some("D:\\rec\\a.mp4"));
    let job = bar.compress_target_picked(Some("D:\\rec\\a_compressed.mp4".to_string()), false, 3);
    assert_eq!(job, Some(("D:\\rec\\a.mp4".to_string(), "D:\\rec\\a_compressed.mp4".to_string())));
    assert_eq!(bar.cancel_compression(), vec![Action::CancelCompression]);
    let actions = bar.compression_finished(CompressionReport::Done(CompressionOutcome { size: 10, reached_target: true }), 4);
    assert_eq!(actions, vec![Action::RefreshVideos]);
    assert!(bar.videos.compressing.is_none());
    assert!(matches!(bar.status, Some(Status::Compressed(CompressionOutcome { size: 10, reached_target: true }))));

    // Picking no destination gives the clip back.
    bar.compress_video("D:\\rec\\b.mp4".to_string(), true, 5);
    assert_eq!(bar.compress_target_picked(None, false, 6), None);
    assert!(bar.videos.compressing.is_none());
}

#[test]
fn delete_flow() {
    let mut bar = toolbar();
    bar.toggle_videos();
    bar.delete_video("D:\\rec\\a.mp4".to_string());
    assert_eq!(bar.videos.pending_delete.as_deref(), Some("D:\\rec\\a.mp4"));
    bar.cancel_delete();
    assert!(bar.videos.pending_delete.is_none());
    assert_eq!(bar.confirm_delete(), None);
    bar.delete_video("D:\\rec\\a.mp4".to_string());
    assert_eq!(bar.confirm_delete().as_deref(), Some("D:\\rec\\a.mp4"));
    assert_eq!(bar.delete_finished("a", Ok(()), 7), vec![Action::RefreshVideos]);
    assert!(matches!(&bar.status, Some(Status::Deleted(name)) if name == "a"));
}

#[test]
fn a_vanished_session_only_ends_the_start() {
    let mut bar = toolbar();
    bar.window_selected(window(5, "a"));
    bar.toggle_recording(0);
    assert!(bar.recording_started(Ok(None), 1).is_empty());
    assert!(!bar.starting);
    assert!(bar.recording.is_none());
    assert!(bar.status.is_none());
}
