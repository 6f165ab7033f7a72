use cms_video_recorder::trim::{duration_fields, fit, parse_resolution, preview_args, PREVIEW_MAX_HEIGHT, PREVIEW_MAX_WIDTH};

#[test]
fn parses_video_resolution() {
    let banner = "  Stream #0:0[0x1](und): Video: h264 (avc1 / 0x31637661), \
                  yuv420p(progressive), 1922x1112 [SAR 1:1 DAR 961:556], 3975 kb/s";
    assert_eq!(parse_resolution(banner), Some((1922, 1112)));
}

#[test]
fn fits_wide_video_to_preview() {
    // 1922x1112 downscales to 415x240, keeping the aspect ratio.
    assert_eq!(fit(1922, 1112, 436, 240), (415, 240));
}

#[test]
fn fits_small_video_with_upscale() {
    // 320x180 grows to 427x240; height wins because it is the tighter
    // dimension.
    assert_eq!(fit(320, 180, 436, 240), (427, 240));
}

#[test]
fn resolution_is_read_from_the_video_line_only() {
    let text = "Input #0, mov,mp4, from 'a.mp4':\n  Duration: 00:00:30.03, start: 0.000000\n  Stream #0:1(und): Audio: aac 48000 Hz, stereo\r\n  Stream #0:0(und): Video: h264, yuv420p, 1280x720 [SAR 1:1 DAR 16:9], 25 fps\n";
    assert_eq!(parse_resolution(text), Some((1280, 720)));
}

#[test]
fn resolution_missing_without_video_line() {
    assert_eq!(parse_resolution("  Stream #0:1: Audio: aac, 0x0\n"), None);
    assert_eq!(parse_resolution(""), None);
}

#[test]
fn resolution_skips_zero_and_malformed_tokens() {
    let line = "  Stream #0:0: Video: h264 0x0 axb 12x 640x480";
    assert_eq!(parse_resolution(line), Some((640, 480)));
    // A line that does not start with the stream marker is ignored.
    assert_eq!(parse_resolution("Stream #0:0: Video: 640x480"), None);
}

#[test]
fn fit_of_empty_source_is_the_box() {
    assert_eq!(fit(0, 100, 436, 240), (436, 240));
    assert_eq!(fit(100, 0, 436, 240), (436, 240));
}

#[test]
fn fit_keeps_at_least_one_pixel() {
    assert_eq!(fit(10000, 1, 436, 240), (436, 1));
    assert_eq!(fit(1, 10000, 436, 240), (1, 240));
}

#[test]
fn fit_fills_one_side_of_the_box() {
    let (w, h) = fit(1920, 1080, PREVIEW_MAX_WIDTH, PREVIEW_MAX_HEIGHT);
    assert!(w == PREVIEW_MAX_WIDTH || h == PREVIEW_MAX_HEIGHT);
    assert!(w <= PREVIEW_MAX_WIDTH && h <= PREVIEW_MAX_HEIGHT);
    assert_eq!((w, h), (427, 240));
}

#[test]
fn preview_command_line() {
    let args = preview_args("C:\\clips\\a.mp4", "1.5", "3", 415, 240);
    let expected: Vec<String> = [
        "-hide_banner", "-loglevel", "error", "-ss", "1.5", "-re", "-i", "C:\\clips\\a.mp4", "-t", "3", "-an", "-vf",
        "scale=415:240", "-f", "rawvideo", "-pix_fmt", "rgba", "-",
    ]
    .iter()
    .map(|s| s.to_string())
    .collect();
    assert_eq!(args, expected);
}

#[test]
fn resolution_token_must_be_clean() {
    // A size followed by a comma is not a size token.
    assert_eq!(parse_resolution("  Stream #0:0: Video: h264, 1280x720, 25 fps"), None);
}

#[test]
fn duration_fields_from_banner() {
    let banner = "  Duration: 00:00:30.03, start: 0.000000, bitrate: 3978 kb/s";
    assert_eq!(
        duration_fields(banner),
        Some(("00".to_string(), "00".to_string(), "30.03".to_string()))
    );
    let text = "Input #0\r\n  Stream #0:0: Video: h264 640x480\r\n\tDuration: 01:02:03.5 ,x\r\n";
    assert_eq!(duration_fields(text), Some(("01".to_string(), "02".to_string(), "03.5".to_string())));
}

#[test]
fn duration_fields_need_three_parts() {
    assert_eq!(duration_fields("  Duration: N/A, bitrate: N/A"), None);
    assert_eq!(duration_fields("  Duration: 00:07"), None);
    assert_eq!(duration_fields("no banner here"), None);
    // Extra parts are ignored; only the first duration line counts.
    assert_eq!(
        duration_fields("Duration: 1:2:3:4\nDuration: 5:6:7"),
        Some(("1".to_string(), "2".to_string(), "3".to_string()))
    );
    // Text after a second marker is not part of the value.
    assert_eq!(
        duration_fields("Duration: 1:2Duration: 3:4"),
        None
    );
}

#[test]
fn parses_duration_banner() {
    let banner = "  Duration: 00:00:30.03, start: 0.000000, bitrate: 3978 kb/s";
    let (hours, minutes, seconds) = duration_fields(banner).unwrap();
    let value = hours.parse::<f64>().unwrap() * 3600.0
        + minutes.parse::<f64>().unwrap() * 60.0
        + seconds.parse::<f64>().unwrap();
    assert_eq!(Some(value), Some(30.03));
}
