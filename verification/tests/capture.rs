use cms_video_recorder::capture::{client_region, plan_layout, repack, FrameAction, FrameKeeper, Layout};

#[test]
fn layout_uses_whole_frame_when_borders_kept() {
    let layout = plan_layout(1283, 757, Some((8, 31, 1264, 711)), false, Some((1920, 1200)));
    assert_eq!(
        layout,
        Layout { src_x: 0, src_y: 0, src_width: 1282, src_height: 756, out_width: 1282, out_height: 756 }
    );
    assert!(!layout.halves());
}

#[test]
fn layout_crops_to_client_area() {
    let layout = plan_layout(1282, 753, Some((1, 31, 1280, 721)), true, Some((1920, 1200)));
    assert_eq!(
        layout,
        Layout { src_x: 1, src_y: 31, src_width: 1280, src_height: 720, out_width: 1280, out_height: 720 }
    );
    // No measured client area: the full frame is used.
    let full = plan_layout(1282, 753, None, true, Some((1920, 1200)));
    assert_eq!((full.src_x, full.src_y, full.out_width, full.out_height), (0, 0, 1282, 752));
}

#[test]
fn oversized_capture_is_halved() {
    let layout = plan_layout(3842, 2162, Some((1, 1, 3840, 2160)), true, Some((1920, 1200)));
    assert_eq!(
        layout,
        Layout { src_x: 1, src_y: 1, src_width: 3840, src_height: 2160, out_width: 1920, out_height: 1080 }
    );
    assert!(layout.halves());
    // Odd halves round down to even.
    let odd = plan_layout(2002, 1302, None, false, Some((1920, 1200)));
    assert_eq!((odd.out_width, odd.out_height, odd.src_width, odd.src_height), (1000, 650, 2000, 1300));
    // Without a limit nothing is halved.
    let native = plan_layout(3841, 2161, None, false, None);
    assert_eq!((native.out_width, native.out_height), (3840, 2160));
}

#[test]
fn client_region_inside_frame() {
    // Frame bounds match the capture size: the client sits below a 31px bar.
    assert_eq!(client_region((100, 50, 1382, 803), 1280, 720, (101, 81), 1282, 753), Some((1, 31, 1280, 720)));
    // DPI-virtualised: bounds do not match the frame.
    assert_eq!(client_region((100, 50, 1382, 803), 1280, 720, (101, 81), 1000, 753), None);
    // Client bigger than what is left of the frame is clipped.
    assert_eq!(client_region((0, 0, 100, 100), 500, 500, (10, 20), 100, 100), Some((10, 20, 90, 80)));
    // Empty client area.
    assert_eq!(client_region((0, 0, 100, 100), 0, 50, (0, 0), 100, 100), None);
}

#[test]
fn repack_flips_rows() {
    let layout = Layout { src_x: 0, src_y: 0, src_width: 2, src_height: 2, out_width: 2, out_height: 2 };
    // Two rows of two pixels, pitch 10 bytes (2 bytes of padding).
    let mut src = vec![0u8; 20];
    for i in 0..8 {
        src[i] = i as u8; // row 0
        src[10 + i] = 100 + i as u8; // row 1
    }
    let mut dst = vec![9u8; 3];
    repack(&src, 10, layout, &mut dst);
    let mut expected: Vec<u8> = (100..108).collect();
    expected.extend(0..8u8);
    assert_eq!(dst, expected);
}

#[test]
fn repack_halves_by_averaging() {
    let layout = Layout { src_x: 0, src_y: 0, src_width: 2, src_height: 2, out_width: 1, out_height: 1 };
    let src = vec![
        10, 20, 30, 255, 11, 21, 31, 255, // row 0
        12, 22, 32, 255, 13, 23, 34, 254, // row 1
    ];
    let mut dst = Vec::new();
    repack(&src, 8, layout, &mut dst);
    // (10+11+12+13+2)/4 = 12, (20+21+22+23+2)/4 = 22, (30+31+32+34+2)/4 = 32, (255*3+254+2)/4 = 255
    assert_eq!(dst, vec![12, 22, 32, 255]);
}

fn layout() -> Layout {
    Layout { src_x: 1, src_y: 31, src_width: 1280, src_height: 720, out_width: 1280, out_height: 720 }
}

#[test]
fn frame_keeper_warms_up_then_encodes() {
    let mut keeper = FrameKeeper::new();
    let warmup = 600_000_000;
    let cap = Some(30_000_000_000);
    // First arrival starts the warm-up.
    assert_eq!(keeper.on_frame(1_000, warmup, cap, layout(), 1282, 753), FrameAction::Skip);
    assert_eq!(keeper.keep_from, Some(600_001_000));
    assert_eq!(keeper.on_frame(600_000_999, warmup, cap, layout(), 1282, 753), FrameAction::Skip);
    // The first kept frame arms the audio.
    assert_eq!(
        keeper.on_frame(600_001_000, warmup, cap, layout(), 1282, 753),
        FrameAction::Encode { arm_audio: true, repack: true, finish: false }
    );
    assert_eq!(keeper.first_frame, Some(600_001_000));
    // A shrunken surface is passed through unrepacked.
    assert_eq!(
        keeper.on_frame(700_000_000, warmup, cap, layout(), 1000, 753),
        FrameAction::Encode { arm_audio: false, repack: false, finish: false }
    );
}

#[test]
fn frame_keeper_closes_at_the_cap() {
    let mut keeper = FrameKeeper::new();
    let cap = Some(1_000);
    assert_eq!(keeper.on_frame(10, 0, cap, layout(), 1282, 753), FrameAction::Encode { arm_audio: true, repack: true, finish: false });
    assert_eq!(keeper.on_frame(1_009, 0, cap, layout(), 1282, 753), FrameAction::Encode { arm_audio: false, repack: true, finish: false });
    assert_eq!(keeper.on_frame(1_010, 0, cap, layout(), 1282, 753), FrameAction::Encode { arm_audio: false, repack: true, finish: true });
    assert!(!keeper.open);
    // Once closed, every frame stops the capture.
    assert_eq!(keeper.on_frame(2_000, 0, cap, layout(), 1282, 753), FrameAction::Stop);
}

#[test]
fn frame_keeper_without_cap_never_finishes() {
    let mut keeper = FrameKeeper::new();
    for now in [0u64, 1, 1_000_000_000_000] {
        match keeper.on_frame(now, 0, None, layout(), 1282, 753) {
            FrameAction::Encode { finish, .. } => assert!(!finish),
            other => panic!("unexpected {other:?}"),
        }
    }
    keeper.close();
    assert_eq!(keeper.on_frame(5, 0, None, layout(), 1282, 753), FrameAction::Stop);
}

#[test]
fn planned_layout_fits_its_own_frame() {
    for (fw, fh, client) in [
        (1282u32, 753u32, Some((1u32, 31u32, 1280u32, 721u32))),
        (3842, 2162, Some((1, 1, 3840, 2160))),
        (101, 51, None),
    ] {
        let layout = plan_layout(fw, fh, client, true, Some((1920, 1200)));
        let mut keeper = FrameKeeper::new();
        match keeper.on_frame(0, 0, None, layout, fw, fh) {
            FrameAction::Encode { repack, .. } => assert!(repack),
            other => panic!("unexpected {other:?}"),
        }
    }
}
