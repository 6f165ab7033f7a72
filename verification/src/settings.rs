//! State of the settings panel, and how a key press becomes a hotkey.
//!
//! The panel edits text, so the fields it owns are strings rather than the
//! typed values in `AppConfig`; they are parsed on commit.

use vstd::prelude::*;
use vstd::string::StringExecFns;

use crate::config::{modifier_value, packed_bits, unpacked, AppConfig, Hotkey};
use crate::i18n::Language;
use crate::text::{
    chars_of, decimal, decimal_chars, parse_unsigned, parsed_unsigned, string_of, trim_chars,
    trimmed,
};

verus! {

/// The named keys the hotkey field reacts to; every other named key is
/// `Other`.
#[derive(Debug, Clone, Copy, PartialEq, Eq, Structural)]
pub enum NamedKey {
    Escape,
    Backspace,
    Delete,
    F1,
    F2,
    F3,
    F4,
    F5,
    F6,
    F7,
    F8,
    F9,
    F10,
    F11,
    F12,
    Space,
    Enter,
    Tab,
    Insert,
    Home,
    End,
    PageUp,
    PageDown,
    ArrowLeft,
    ArrowUp,
    ArrowRight,
    ArrowDown,
    Other,
}

/// A key press as the window system reported it.
#[derive(Debug, Clone)]
pub enum KeyInput {
    /// A named key.
    Named(NamedKey),
    /// A key that produces text.
    Character(String),
    /// A key the window system could not identify.
    Unidentified,
}

/// Modifier keys held during a key press.
#[derive(Debug, Clone, Copy, PartialEq, Eq, Structural)]
pub struct Modifiers {
    pub control: bool,
    pub alt: bool,
    pub shift: bool,
    /// The Windows (logo) key.
    pub logo: bool,
}

impl Modifiers {
    /// Whether no modifier is held.
    pub open spec fn none_held(&self) -> bool {
        !self.control && !self.alt && !self.shift && !self.logo
    }
}

/// What a captured key press means for the hotkey field.
#[derive(Debug, Clone, Copy, PartialEq, Eq, Structural)]
pub enum Capture {
    /// A usable combination.
    Bound(Hotkey),
    /// Clear the hotkey.
    Cleared,
    /// Leave the hotkey as it was.
    Cancelled,
    /// A modifier on its own, or a key that can't be bound: keep waiting.
    Ignored,
}

/// The Win32 virtual-key code of a named key, for the keys that make sense
/// as a global shortcut.
pub open spec fn named_key_code(named: NamedKey) -> Option<u32> {
    match named {
        NamedKey::F1 => Some(0x70),
        NamedKey::F2 => Some(0x71),
        NamedKey::F3 => Some(0x72),
        NamedKey::F4 => Some(0x73),
        NamedKey::F5 => Some(0x74),
        NamedKey::F6 => Some(0x75),
        NamedKey::F7 => Some(0x76),
        NamedKey::F8 => Some(0x77),
        NamedKey::F9 => Some(0x78),
        NamedKey::F10 => Some(0x79),
        NamedKey::F11 => Some(0x7A),
        NamedKey::F12 => Some(0x7B),
        NamedKey::Space => Some(0x20),
        NamedKey::Enter => Some(0x0D),
        NamedKey::Tab => Some(0x09),
        NamedKey::Insert => Some(0x2D),
        NamedKey::Delete => Some(0x2E),
        NamedKey::Backspace => Some(0x08),
        NamedKey::Home => Some(0x24),
        NamedKey::End => Some(0x23),
        NamedKey::PageUp => Some(0x21),
        NamedKey::PageDown => Some(0x22),
        NamedKey::ArrowLeft => Some(0x25),
        NamedKey::ArrowUp => Some(0x26),
        NamedKey::ArrowRight => Some(0x27),
        NamedKey::ArrowDown => Some(0x28),
        _ => None,
    }
}

/// The Win32 virtual-key code of a key press: for text keys, the ASCII
/// value of the first character upper-cased, when it is a letter or digit.
pub open spec fn key_code(key: KeyInput) -> Option<u32> {
    match key {
        KeyInput::Character(text) => if text@.len() == 0 {
            None
        } else {
            let c = crate::text::ascii_upper(text@[0]);
            if ('A' <= c <= 'Z') || ('0' <= c <= '9') {
                Some(c as u32)
            } else {
                None
            }
        },
        KeyInput::Named(named) => named_key_code(named),
        KeyInput::Unidentified => None,
    }
}

/// What a key press does to the hotkey field: Escape cancels, a bare
/// Backspace or Delete clears, and a key with a code binds, but only with a
/// modifier unless it is a function key.
pub open spec fn captured(key: KeyInput, modifiers: Modifiers) -> Capture {
    if key == KeyInput::Named(NamedKey::Escape) {
        Capture::Cancelled
    } else if (key == KeyInput::Named(NamedKey::Backspace) || key == KeyInput::Named(
        NamedKey::Delete,
    )) && modifiers.none_held() {
        Capture::Cleared
    } else {
        match key_code(key) {
            None => Capture::Ignored,
            Some(vk) => {
                let hotkey = Hotkey {
                    ctrl: modifiers.control,
                    alt: modifiers.alt,
                    shift: modifiers.shift,
                    win: modifiers.logo,
                    key: vk,
                };
                if modifier_value(hotkey) == 0 && !(0x70 <= vk <= 0x87) {
                    Capture::Ignored
                } else {
                    Capture::Bound(hotkey)
                }
            },
        }
    }
}


/// A bound shortcut carries exactly the modifiers that were held: Ctrl,
/// Alt, Shift and the Windows key each as pressed.
pub proof fn lemma_binding_keeps_modifiers(key: KeyInput, modifiers: Modifiers)
    ensures
        captured(key, modifiers) matches Capture::Bound(h) ==> {
            &&& h.ctrl == modifiers.control
            &&& h.alt == modifiers.alt
            &&& h.shift == modifiers.shift
            &&& h.win == modifiers.logo
        },
{
}

/// Escape always cancels the capture; Backspace or Delete with no modifier
/// held clears the shortcut; and a shortcut bound with no modifier held is
/// a function key (F1 to F24).
pub proof fn lemma_capture_rules(key: KeyInput, modifiers: Modifiers)
    ensures
        key == KeyInput::Named(NamedKey::Escape) ==> captured(key, modifiers) == Capture::Cancelled,
        (key == KeyInput::Named(NamedKey::Backspace) || key == KeyInput::Named(NamedKey::Delete))
            && !modifiers.control && !modifiers.alt && !modifiers.shift && !modifiers.logo
            ==> captured(key, modifiers) == Capture::Cleared,
        !modifiers.control && !modifiers.alt && !modifiers.shift && !modifiers.logo ==> (captured(
            key,
            modifiers,
        ) matches Capture::Bound(h) ==> 0x70 <= h.key <= 0x87),
{
}

/// A letter or digit typed with at least one modifier held binds, with
/// exactly the held modifiers, the virtual-key code of that character: its
/// upper-case ASCII value.
pub proof fn lemma_letter_binding(text: String, modifiers: Modifiers)
    requires
        text@.len() > 0,
        !modifiers.none_held(),
    ensures
        ({
            let c = text@[0] as u32;
            let vk: u32 = if 97 <= c <= 122 { (c - 32) as u32 } else { c };
            (97 <= c <= 122 || 65 <= c <= 90 || 48 <= c <= 57) ==> captured(
                KeyInput::Character(text),
                modifiers,
            ) == Capture::Bound(
                Hotkey { key: vk, win: modifiers.logo, shift: modifiers.shift, alt: modifiers.alt, ctrl: modifiers.control },
            )
        }),
{
}

/// Every shortcut the hotkey field accepts can be registered and stored: it
/// has a key, carries a modifier unless that key is a function key, and
/// packs into the stored form and back unchanged.
pub proof fn lemma_captured_binding_usable(key: KeyInput, modifiers: Modifiers)
    ensures
        captured(key, modifiers) matches Capture::Bound(h) ==> {
            &&& h.key != 0
            &&& (modifier_value(h) != 0 || 0x70 <= h.key <= 0x87)
            &&& unpacked(packed_bits(Some(h)) as u64) == Some(h)
        },
{
    if let Capture::Bound(h) = captured(key, modifiers) {
        match key {
            KeyInput::Character(text) => {
                let c = crate::text::ascii_upper(text@[0]);
                assert(c as u32 >= 0x30);
            },
            _ => {},
        }
        crate::config::lemma_hotkey_bits_round_trip(Some(h));
    }
}

/// Win32 virtual-key code for a named key, when it has a usable one.
pub fn named_virtual_key(named: NamedKey) -> (vk: Option<u32>)
    ensures
        vk == named_key_code(named),
{
    match named {
        NamedKey::F1 => Some(0x70),
        NamedKey::F2 => Some(0x71),
        NamedKey::F3 => Some(0x72),
        NamedKey::F4 => Some(0x73),
        NamedKey::F5 => Some(0x74),
        NamedKey::F6 => Some(0x75),
        NamedKey::F7 => Some(0x76),
        NamedKey::F8 => Some(0x77),
        NamedKey::F9 => Some(0x78),
        NamedKey::F10 => Some(0x79),
        NamedKey::F11 => Some(0x7A),
        NamedKey::F12 => Some(0x7B),
        NamedKey::Space => Some(0x20),
        NamedKey::Enter => Some(0x0D),
        NamedKey::Tab => Some(0x09),
        NamedKey::Insert => Some(0x2D),
        NamedKey::Delete => Some(0x2E),
        NamedKey::Backspace => Some(0x08),
        NamedKey::Home => Some(0x24),
        NamedKey::End => Some(0x23),
        NamedKey::PageUp => Some(0x21),
        NamedKey::PageDown => Some(0x22),
        NamedKey::ArrowLeft => Some(0x25),
        NamedKey::ArrowUp => Some(0x26),
        NamedKey::ArrowRight => Some(0x27),
        NamedKey::ArrowDown => Some(0x28),
        _ => None,
    }
}

/// Win32 virtual-key code for a key press, when there is one.
pub fn virtual_key(key: &KeyInput) -> (vk: Option<u32>)
    ensures
        vk == key_code(*key),
{
    match key {
        KeyInput::Character(text) => {
            let chars = chars_of(text.as_str());
            if chars.len() == 0 {
                return None;
            }
            let c = crate::text::to_ascii_upper_char(chars[0]);
            if ('A' <= c && c <= 'Z') || ('0' <= c && c <= '9') {
                Some(c as u32)
            } else {
                None
            }
        },
        KeyInput::Named(named) => named_virtual_key(*named),
        KeyInput::Unidentified => None,
    }
}

/// Turns a key press into a hotkey.
pub fn capture(key: &KeyInput, modifiers: Modifiers) -> (c: Capture)
    ensures
        c == captured(*key, modifiers),
{
    let is_escape = match key {
        KeyInput::Named(NamedKey::Escape) => true,
        _ => false,
    };
    if is_escape {
        return Capture::Cancelled;
    }
    let is_erase = match key {
        KeyInput::Named(NamedKey::Backspace) => true,
        KeyInput::Named(NamedKey::Delete) => true,
        _ => false,
    };
    if is_erase && !modifiers.control && !modifiers.alt && !modifiers.shift && !modifiers.logo {
        return Capture::Cleared;
    }
    let vk = match virtual_key(key) {
        Some(vk) => vk,
        None => {
            return Capture::Ignored;
        },
    };
    let is_function_key = 0x70 <= vk && vk <= 0x87;
    let hotkey = Hotkey {
        ctrl: modifiers.control,
        alt: modifiers.alt,
        shift: modifiers.shift,
        win: modifiers.logo,
        key: vk,
    };
    if hotkey.modifier_bits() == 0 && !is_function_key {
        return Capture::Ignored;
    }
    Capture::Bound(hotkey)
}

/// The panel's edit buffers.
#[derive(Debug)]
pub struct SettingsState {
    /// Whether the panel is expanded.
    pub is_open: bool,
    /// Output directory, as typed.
    pub output_dir: String,
    /// Duration cap in seconds, as typed. Empty counts as zero.
    pub max_duration: String,
    /// The shortcut being edited, `None` when disabled.
    pub hotkey: Option<Hotkey>,
    /// The language picked in the panel.
    pub language: Language,
    /// True while the next key press is being read as the new shortcut.
    pub capturing: bool,
    /// True while the folder dialog is open.
    pub browsing: bool,
}

/// The abstract content of the settings panel.
pub struct SettingsView {
    pub is_open: bool,
    pub output_dir: Seq<char>,
    pub max_duration: Seq<char>,
    pub hotkey: Option<Hotkey>,
    pub language: Language,
    pub capturing: bool,
    pub browsing: bool,
}

impl View for SettingsState {
    type V = SettingsView;

    open spec fn view(&self) -> SettingsView {
        SettingsView {
            is_open: self.is_open,
            output_dir: self.output_dir@,
            max_duration: self.max_duration@,
            hotkey: self.hotkey,
            language: self.language,
            capturing: self.capturing,
            browsing: self.browsing,
        }
    }
}

/// The duration cap a typed value stands for: its trimmed text parsed as a
/// `u64`, with anything blank or unparseable meaning 0 (no limit).
pub open spec fn typed_duration(text: Seq<char>) -> u64 {
    match parsed_unsigned(trimmed(text), 0xffff_ffff_ffff_ffff) {
        Some(v) => v as u64,
        None => 0,
    }
}

impl SettingsState {
    /// A closed panel with empty fields.
    pub fn new(language: Language) -> (s: SettingsState)
        ensures
            !s.is_open,
            s.output_dir@.len() == 0,
            s.max_duration@.len() == 0,
            s.hotkey is None,
            s.language == language,
            !s.capturing,
            !s.browsing,
    {
        SettingsState {
            is_open: false,
            output_dir: String::new(),
            max_duration: String::new(),
            hotkey: None,
            language,
            capturing: false,
            browsing: false,
        }
    }

    /// Fills the edit fields from `config`.
    pub fn reset(&mut self, config: &AppConfig)
        ensures
            final(self).output_dir@ == config.output_dir@,
            final(self).max_duration@ == decimal(config.max_duration_secs as nat),
            final(self).hotkey == config.hotkey,
            final(self).language == config.language,
            !final(self).capturing,
            final(self).is_open == old(self).is_open,
            final(self).browsing == old(self).browsing,
    {
        self.output_dir = String::from_str(config.output_dir.as_str());
        let digits = decimal_chars(config.max_duration_secs);
        self.max_duration = string_of(digits.as_slice());
        self.hotkey = config.hotkey;
        self.language = config.language;
        self.capturing = false;
    }

    /// Builds a config from the edit fields: a blank or unparseable duration
    /// becomes zero (no limit), and a blank path falls back to
    /// `default_output_dir`.
    pub fn to_config(&self, default_output_dir: &str) -> (config: AppConfig)
        ensures
            config.output_dir@ == (if trimmed(self.output_dir@).len() == 0 {
                default_output_dir@
            } else {
                trimmed(self.output_dir@)
            }),
            config.max_duration_secs == typed_duration(self.max_duration@),
            config.hotkey == self.hotkey,
            config.language == self.language,
    {
        let dir = trim_chars(chars_of(self.output_dir.as_str()).as_slice());
        let output_dir = if dir.len() == 0 {
            String::from_str(default_output_dir)
        } else {
            string_of(dir.as_slice())
        };
        let typed = trim_chars(chars_of(self.max_duration.as_str()).as_slice());
        let max_duration_secs = match parse_unsigned(typed.as_slice(), 0xffff_ffff_ffff_ffff) {
            Some(v) => v,
            None => 0,
        };
        AppConfig { output_dir, max_duration_secs, hotkey: self.hotkey, language: self.language }
    }
}

} // verus!
