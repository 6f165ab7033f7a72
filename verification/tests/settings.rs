use cms_video_recorder::config::{AppConfig, Hotkey};
use cms_video_recorder::i18n::Language;
use cms_video_recorder::settings::{capture, named_virtual_key, virtual_key, Capture, KeyInput, Modifiers, NamedKey, SettingsState};

fn mods(control: bool, alt: bool, shift: bool, logo: bool) -> Modifiers {
    Modifiers { control, alt, shift, logo }
}

#[test]
fn virtual_keys() {
    assert_eq!(named_virtual_key(NamedKey::F1), Some(0x70));
    assert_eq!(named_virtual_key(NamedKey::F12), Some(0x7B));
    assert_eq!(named_virtual_key(NamedKey::Space), Some(0x20));
    assert_eq!(named_virtual_key(NamedKey::ArrowDown), Some(0x28));
    assert_eq!(named_virtual_key(NamedKey::Escape), None);
    assert_eq!(named_virtual_key(NamedKey::Other), None);
    assert_eq!(virtual_key(&KeyInput::Character("r".to_string())), Some(0x52));
    assert_eq!(virtual_key(&KeyInput::Character("7".to_string())), Some(0x37));
    assert_eq!(virtual_key(&KeyInput::Character("ab".to_string())), Some(0x41));
    assert_eq!(virtual_key(&KeyInput::Character(String::new())), None);
    assert_eq!(virtual_key(&KeyInput::Character("é".to_string())), None);
    assert_eq!(virtual_key(&KeyInput::Unidentified), None);
}

#[test]
fn captured_key_presses() {
    let none = mods(false, false, false, false);
    assert_eq!(capture(&KeyInput::Named(NamedKey::Escape), mods(true, false, false, false)), Capture::Cancelled);
    assert_eq!(capture(&KeyInput::Named(NamedKey::Backspace), none), Capture::Cleared);
    assert_eq!(capture(&KeyInput::Named(NamedKey::Delete), none), Capture::Cleared);
    // With a modifier, Delete is a key like any other.
    assert_eq!(
        capture(&KeyInput::Named(NamedKey::Delete), mods(true, false, false, false)),
        Capture::Bound(Hotkey { ctrl: true, alt: false, shift: false, win: false, key: 0x2E })
    );
    // A bare letter needs a modifier; a bare function key does not.
    assert_eq!(capture(&KeyInput::Character("r".to_string()), none), Capture::Ignored);
    assert_eq!(
        capture(&KeyInput::Named(NamedKey::F9), none),
        Capture::Bound(Hotkey { ctrl: false, alt: false, shift: false, win: false, key: 0x78 })
    );
    assert_eq!(
        capture(&KeyInput::Character("R".to_string()), mods(true, false, true, false)),
        Capture::Bound(Hotkey::shipped_default())
    );
    assert_eq!(capture(&KeyInput::Unidentified, mods(true, true, true, true)), Capture::Ignored);
}

#[test]
fn settings_fields_round_trip_through_config() {
    let mut config = AppConfig::defaults("D:\\rec".to_string(), Language::English);
    config.max_duration_secs = 45;
    let mut state = SettingsState::new(Language::SimplifiedChinese);
    state.reset(&config);
    assert_eq!(state.output_dir, "D:\\rec");
    assert_eq!(state.max_duration, "45");
    assert_eq!(state.language, Language::English);
    let back = state.to_config("C:\\default");
    assert!(back.same_as(&config));
}

#[test]
fn typed_fields_are_cleaned_up() {
    let mut state = SettingsState::new(Language::English);
    state.output_dir = "  ".to_string();
    state.max_duration = " 12 ".to_string();
    let config = state.to_config("C:\\default");
    assert_eq!(config.output_dir, "C:\\default");
    assert_eq!(config.max_duration_secs, 12);
    state.output_dir = "  E:\\clips ".to_string();
    state.max_duration = "abc".to_string();
    let config = state.to_config("C:\\default");
    assert_eq!(config.output_dir, "E:\\clips");
    assert_eq!(config.max_duration_secs, 0);
    state.max_duration = "99999999999999999999".to_string();
    assert_eq!(state.to_config("x").max_duration_secs, 0);
}

#[test]
fn captured_shortcuts_survive_storage() {
    let presses = [
        (KeyInput::Named(NamedKey::F5), mods(false, false, false, false)),
        (KeyInput::Character("9".to_string()), mods(false, true, false, false)),
        (KeyInput::Named(NamedKey::Space), mods(true, false, true, true)),
    ];
    for (key, modifiers) in presses {
        match capture(&key, modifiers) {
            Capture::Bound(h) => {
                assert!(h.key != 0);
                assert_eq!(Hotkey::from_bits(Hotkey::to_bits(Some(h))), Some(h));
            }
            other => panic!("unexpected {other:?}"),
        }
    }
}
