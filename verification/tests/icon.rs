use cms_video_recorder::icon::{bgra_to_rgba, rgba_len, IconRgba};

#[test]
fn swaps_blue_and_red() {
    let mut pixels = vec![1, 2, 3, 4, 5, 6, 7, 0];
    bgra_to_rgba(&mut pixels);
    assert_eq!(pixels, vec![3, 2, 1, 4, 7, 6, 5, 0]);
}

#[test]
fn all_zero_alpha_becomes_opaque() {
    let mut pixels = vec![1, 2, 3, 0, 5, 6, 7, 0];
    bgra_to_rgba(&mut pixels);
    assert_eq!(pixels, vec![3, 2, 1, 255, 7, 6, 5, 255]);
}

#[test]
fn trailing_bytes_are_kept() {
    let mut pixels = vec![1, 2, 3, 0, 9, 8];
    bgra_to_rgba(&mut pixels);
    assert_eq!(pixels, vec![3, 2, 1, 255, 9, 8]);
    let mut empty: Vec<u8> = Vec::new();
    bgra_to_rgba(&mut empty);
    assert!(empty.is_empty());
}

#[test]
fn icon_buffer_size() {
    assert_eq!(rgba_len(32, 16), 2048);
    let icon = IconRgba { width: 1, height: 1, pixels: vec![0; rgba_len(1, 1)] };
    assert_eq!(icon.pixels.len(), 4);
}
