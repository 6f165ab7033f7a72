use cms_video_recorder::videos::{
    after_pass, display_name, ffmpeg_args, ffmpeg_error, human_size, is_clip, plan_compression, select_parameters,
    sort_newest_first, temp_file_name, CompressionOutcome, Opening, PassVerdict, VideoEntry, VideosState,
    BITRATE_STEP, MIN_BITRATE, START_BITRATE, TARGET_BYTES,
};

fn clip(name: &str, modified: Option<(i64, u32)>) -> VideoEntry {
    VideoEntry { path: format!("D:\\rec\\{name}"), name: name.to_string(), modified, size: 1 }
}

#[test]
fn display_names_drop_the_extension() {
    assert_eq!(display_name("冒险岛正式服_20260817-203015.mp4"), "冒险岛正式服_20260817-203015");
    assert_eq!(display_name("a.b.mp4"), "a.b");
    assert_eq!(display_name(".hidden"), ".hidden");
    assert_eq!(display_name("noext"), "noext");
    assert_eq!(display_name(".."), "..");
    assert_eq!(clip("x.mp4", None).display_name(), "x");
}

#[test]
fn clips_are_mp4_files_in_any_case() {
    assert!(is_clip("a.mp4"));
    assert!(is_clip("A.MP4"));
    assert!(is_clip("b.Mp4"));
    assert!(!is_clip("a.mp4.compress"));
    assert!(!is_clip(".mp4"));
    assert!(!is_clip("mp4"));
    assert!(!is_clip("a.mp3"));
    assert!(!is_clip(".."));
}

#[test]
fn human_sizes() {
    assert_eq!(human_size(0), "0 B");
    assert_eq!(human_size(1023), "1023 B");
    assert_eq!(human_size(1024), "1.0 KiB");
    assert_eq!(human_size(1536), "1.5 KiB");
    assert_eq!(human_size(5 * 1024 * 1024 + 100 * 1024), "5.1 MiB");
    assert_eq!(human_size(3 * 1024 * 1024 * 1024), "3.0 GiB");
    assert_eq!(human_size(2u64 << 40), "2.0 TiB");
    assert_eq!(human_size(2048u64 << 40), "2048.0 TiB");
}

#[test]
fn human_sizes_match_float_formatting() {
    // Ties round to even, as formatting the float does.
    for bytes in [1280u64, 1792, 1075, 1_048_575, 1_153_434, 5_000_000, 123_456_789, 1u64 << 45] {
        let mut value = bytes as f64;
        let mut unit = 0;
        let units = ["B", "KiB", "MiB", "GiB", "TiB"];
        while value >= 1024.0 && unit + 1 < units.len() {
            value /= 1024.0;
            unit += 1;
        }
        let expected = if unit == 0 { format!("{bytes} B") } else { format!("{value:.1} {}", units[unit]) };
        assert_eq!(human_size(bytes), expected, "{bytes}");
    }
    assert_eq!(human_size(1280), "1.2 KiB");
    assert_eq!(human_size(1792), "1.8 KiB");
}

#[test]
fn clips_sort_newest_first() {
    let list = vec![
        clip("old.mp4", Some((100, 0))),
        clip("unknown.mp4", None),
        clip("new.mp4", Some((200, 5))),
        clip("same1.mp4", Some((150, 1))),
        clip("newer.mp4", Some((200, 6))),
        clip("same2.mp4", Some((150, 1))),
    ];
    let sorted = sort_newest_first(list);
    let names: Vec<&str> = sorted.iter().map(|v| v.name.as_str()).collect();
    assert_eq!(names, vec!["newer.mp4", "new.mp4", "same1.mp4", "same2.mp4", "old.mp4", "unknown.mp4"]);
    assert!(sort_newest_first(Vec::new()).is_empty());
}

#[test]
fn temp_and_select_names() {
    assert_eq!(temp_file_name(Some("a.mp4")), "a.mp4.compress");
    assert_eq!(temp_file_name(None), "clip.mp4.compress");
    assert_eq!(select_parameters("C:\\a b\\c.mp4"), "/select,\"C:\\a b\\c.mp4\"");
}

#[test]
fn compression_opening() {
    assert_eq!(plan_compression(false, 10, false, false), Opening::MissingFfmpeg);
    assert_eq!(plan_compression(true, TARGET_BYTES - 1, false, false), Opening::AlreadySmall { copy: true, size: TARGET_BYTES - 1 });
    assert_eq!(plan_compression(true, 0, false, true), Opening::AlreadySmall { copy: false, size: 0 });
    assert_eq!(plan_compression(true, 10, true, false), Opening::Encode { bitrate_kbps: START_BITRATE });
    assert_eq!(plan_compression(true, TARGET_BYTES, false, false), Opening::Encode { bitrate_kbps: 5000 });
}

#[test]
fn compression_walks_the_bitrate_down() {
    assert_eq!(TARGET_BYTES, 5000 * 1024);
    assert_eq!(after_pass(5000, TARGET_BYTES - 1), PassVerdict::Keep(CompressionOutcome { size: TARGET_BYTES - 1, reached_target: true }));
    assert_eq!(after_pass(5000, TARGET_BYTES), PassVerdict::Retry { bitrate_kbps: 5000 - BITRATE_STEP });
    assert_eq!(after_pass(400, TARGET_BYTES * 2), PassVerdict::Retry { bitrate_kbps: MIN_BITRATE });
    assert_eq!(after_pass(MIN_BITRATE, TARGET_BYTES * 2), PassVerdict::Keep(CompressionOutcome { size: TARGET_BYTES * 2, reached_target: false }));
    // From the start rate the loop ends after at most 25 passes.
    let mut bitrate = START_BITRATE;
    let mut passes = 0;
    loop {
        passes += 1;
        match after_pass(bitrate, u64::MAX) {
            PassVerdict::Retry { bitrate_kbps } => bitrate = bitrate_kbps,
            PassVerdict::Keep(outcome) => {
                assert!(!outcome.reached_target);
                break;
            }
        }
    }
    assert_eq!(passes, 25);
}

#[test]
fn ffmpeg_command_line() {
    let plain = ffmpeg_args("in.mp4", "out.mp4.compress", 4800, None);
    assert_eq!(
        plain,
        vec![
            "-y", "-i", "in.mp4", "-c:v", "libx264", "-preset", "fast", "-b:v", "4800k", "-c:a", "copy", "-movflags",
            "+faststart", "-f", "mp4", "out.mp4.compress"
        ]
    );
    let trimmed = ffmpeg_args("in.mp4", "o", 200, Some(("1.500", "2.250")));
    assert_eq!(
        trimmed,
        vec![
            "-y", "-ss", "1.500", "-i", "in.mp4", "-t", "2.250", "-c:v", "libx264", "-preset", "fast", "-b:v", "200k",
            "-c:a", "copy", "-movflags", "+faststart", "-f", "mp4", "o"
        ]
    );
}

#[test]
fn ffmpeg_error_takes_last_nonblank_line() {
    assert_eq!(ffmpeg_error("a\nInvalid data found\n  \n", "unknown"), "Invalid data found");
    assert_eq!(ffmpeg_error("first\r\nsecond\r\n", "unknown"), "second");
    assert_eq!(ffmpeg_error("", "unknown"), "unknown");
    assert_eq!(ffmpeg_error(" \n\t\n", "unknown"), "unknown");
    let long = "x".repeat(200);
    assert_eq!(ffmpeg_error(&long, "unknown"), "x".repeat(120));
}

#[test]
fn videos_state_starts_empty() {
    let state = VideosState::new();
    assert!(!state.is_open);
    assert!(state.videos.is_empty());
    assert!(state.pending_delete.is_none());
    assert!(state.compressing.is_none());
}
