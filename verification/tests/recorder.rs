use cms_video_recorder::recorder::{output_file_name, sanitize, Error, RecorderConfig, MAX_DURATION_SECS, WARMUP_MS};

#[test]
fn sanitize_replaces_forbidden_characters() {
    assert_eq!(sanitize("a/b\\c:d*e?f\"g<h>i|j"), "a_b_c_d_e_f_g_h_i_j");
    assert_eq!(sanitize("tab\there"), "tab_here");
}

#[test]
fn sanitize_trims_spaces_and_dots() {
    assert_eq!(sanitize("  .name. "), "name");
    assert_eq!(sanitize("冒险岛正式服"), "冒险岛正式服");
    assert_eq!(sanitize(" a . b "), "a . b");
}

#[test]
fn sanitize_falls_back_when_nothing_is_left() {
    assert_eq!(sanitize(""), "recording");
    assert_eq!(sanitize(" . . "), "recording");
}

#[test]
fn sanitize_is_idempotent() {
    for name in ["a/b", " x. ", "", "..", "冒险岛M", "q?:"] {
        let once = sanitize(name);
        assert_eq!(sanitize(&once), once);
    }
}

#[test]
fn output_file_name_pads_each_field() {
    assert_eq!(
        output_file_name("冒险岛正式服", (2026, 8, 17, 20, 30, 15)),
        "冒险岛正式服_20260817-203015.mp4"
    );
    assert_eq!(output_file_name("a/b", (7, 1, 2, 3, 4, 5)), "a_b_00070102-030405.mp4");
    assert_eq!(output_file_name("", (2024, 12, 31, 0, 0, 0)), "recording_20241231-000000.mp4");
}

#[test]
fn error_messages_carry_their_prefix() {
    assert_eq!(Error::Io("disk full".to_string()).message(), "文件写入失败: disk full");
    assert_eq!(Error::Encoder("x".to_string()).message(), "编码失败: x");
    assert_eq!(Error::Capture("y".to_string()).message(), "录制失败: y");
    assert_eq!(Error::Audio("z".to_string()).message(), "音频录制失败: z");
}

#[test]
fn recorder_defaults() {
    let config = RecorderConfig::with_output_dir("out".to_string());
    assert_eq!(config.output_dir, "out");
    assert_eq!(config.max_duration_secs, Some(MAX_DURATION_SECS));
    assert_eq!(MAX_DURATION_SECS, 30);
    assert_eq!(config.frame_rate, 60);
    assert_eq!(config.bitrate, 12_000_000);
    assert!(config.exclude_window_border);
    assert_eq!(config.max_native_size, Some((1920, 1200)));
    assert_eq!(config.warmup_ms, WARMUP_MS);
    assert_eq!(WARMUP_MS, 600);
    assert!(config.capture_audio);
}

#[test]
fn different_start_times_give_different_names() {
    let a = output_file_name("x", (2026, 8, 17, 20, 30, 15));
    let b = output_file_name("x", (2026, 8, 17, 20, 30, 16));
    let c = output_file_name("x", (2026, 1, 11, 0, 0, 0));
    let d = output_file_name("x", (2026, 11, 1, 0, 0, 0));
    assert_ne!(a, b);
    assert_ne!(c, d);
}
