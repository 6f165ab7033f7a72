use cms_video_recorder::config::{key_label, AppConfig, Hotkey, MOD_ALT, MOD_CONTROL, MOD_NOREPEAT, MOD_SHIFT, MOD_WIN};
use cms_video_recorder::i18n::Language;

fn hotkey(ctrl: bool, alt: bool, shift: bool, win: bool, key: u32) -> Hotkey {
    Hotkey { ctrl, alt, shift, win, key }
}

#[test]
fn shipped_default_is_ctrl_shift_r() {
    let h = Hotkey::shipped_default();
    assert_eq!(h, hotkey(true, false, true, false, 0x52));
    assert_eq!(h.label(), "Ctrl + Shift + R");
}

#[test]
fn modifier_bits_follow_win32_flags() {
    assert_eq!(hotkey(true, false, false, false, 0x41).modifier_bits(), MOD_CONTROL);
    assert_eq!(hotkey(false, true, false, false, 0x41).modifier_bits(), MOD_ALT);
    assert_eq!(hotkey(false, false, true, false, 0x41).modifier_bits(), MOD_SHIFT);
    assert_eq!(hotkey(false, false, false, true, 0x41).modifier_bits(), MOD_WIN);
    assert_eq!(hotkey(true, true, true, true, 0x41).modifier_bits(), 0xF);
    assert_eq!(hotkey(true, false, false, false, 0x41).registration_bits(), MOD_CONTROL | MOD_NOREPEAT);
}

#[test]
fn hotkey_bits_round_trip() {
    for ctrl in [false, true] {
        for alt in [false, true] {
            for shift in [false, true] {
                for win in [false, true] {
                    for key in [0x30u32, 0x52, 0x70, 0x87, 0xFFFF_FFFF] {
                        let h = hotkey(ctrl, alt, shift, win, key);
                        assert_eq!(Hotkey::from_bits(Hotkey::to_bits(Some(h))), Some(h));
                    }
                }
            }
        }
    }
    assert_eq!(Hotkey::from_bits(Hotkey::to_bits(None)), None);
    assert_eq!(Hotkey::to_bits(None), Hotkey::NONE_BITS);
}

#[test]
fn hotkey_bits_layout() {
    // Modifiers in the high half, key in the low half.
    let h = hotkey(true, false, true, false, 0x52);
    assert_eq!(Hotkey::to_bits(Some(h)), ((MOD_CONTROL | MOD_SHIFT) as u64) << 32 | 0x52);
    // A binding with no key packs as "no hotkey".
    assert_eq!(Hotkey::to_bits(Some(hotkey(true, true, false, false, 0))), 0);
    assert_eq!(Hotkey::from_bits(0x0000_0003_0000_0000), None);
}

#[test]
fn key_labels() {
    assert_eq!(key_label(0x41).as_deref(), Some("A"));
    assert_eq!(key_label(0x5A).as_deref(), Some("Z"));
    assert_eq!(key_label(0x30).as_deref(), Some("0"));
    assert_eq!(key_label(0x70).as_deref(), Some("F1"));
    assert_eq!(key_label(0x87).as_deref(), Some("F24"));
    assert_eq!(key_label(0x20).as_deref(), Some("Space"));
    assert_eq!(key_label(0x25).as_deref(), Some("Left"));
    assert_eq!(key_label(0x2E).as_deref(), Some("Delete"));
    assert_eq!(key_label(0x61), None);
    assert_eq!(key_label(0xBA), None);
}

#[test]
fn hotkey_parts_and_label() {
    let h = hotkey(true, true, true, true, 0x70);
    assert_eq!(h.parts(), vec!["Ctrl", "Shift", "Alt", "Win", "F1"]);
    assert_eq!(h.label(), "Ctrl + Shift + Alt + Win + F1");
    // Keys without a name show their code in hex.
    assert_eq!(hotkey(false, true, false, false, 0xBA).label(), "Alt + 0xBA");
    assert_eq!(hotkey(false, false, false, false, 0x5).label(), "0x05");
}

#[test]
fn config_defaults_and_cap() {
    let config = AppConfig::defaults("D:\\clips".to_string(), Language::English);
    assert_eq!(config.output_dir, "D:\\clips");
    assert_eq!(config.max_duration_secs, 30);
    assert_eq!(config.hotkey, Some(Hotkey::shipped_default()));
    assert_eq!(config.language, Language::English);
    assert_eq!(config.max_duration(), Some(30));
    let mut uncapped = config.clone();
    uncapped.max_duration_secs = 0;
    assert_eq!(uncapped.max_duration(), None);
}

#[test]
fn normalized_config_fills_blank_directory() {
    let mut config = AppConfig::defaults(String::new(), Language::SimplifiedChinese);
    config.output_dir = String::new();
    let fixed = config.normalized("C:\\Videos\\rec".to_string());
    assert_eq!(fixed.output_dir, "C:\\Videos\\rec");
    let mut kept = AppConfig::defaults("E:\\x".to_string(), Language::SimplifiedChinese);
    kept.max_duration_secs = 5;
    let same = kept.clone().normalized("C:\\y".to_string());
    assert_eq!(same.output_dir, "E:\\x");
    assert_eq!(same.max_duration_secs, 5);
    assert!(same.same_as(&kept));
    assert!(!same.same_as(&fixed));
}

#[test]
fn recorder_config_carries_directory_and_cap() {
    let mut config = AppConfig::defaults("D:\\rec".to_string(), Language::English);
    config.max_duration_secs = 12;
    let recorder = config.recorder_config();
    assert_eq!(recorder.output_dir, "D:\\rec");
    assert_eq!(recorder.max_duration_secs, Some(12));
    config.max_duration_secs = 0;
    assert_eq!(config.recorder_config().max_duration_secs, None);
}
