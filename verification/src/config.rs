//! User settings: the global record/stop shortcut and the persisted
//! preferences.

use vstd::prelude::*;
use vstd::string::StringExecFns;

use crate::i18n::Language;
use crate::recorder::{RecorderConfig, MAX_DURATION_SECS};
use crate::text::{decimal, decimal_chars, hex_chars, hexadecimal, padded, push_all, push_char};

verus! {

/// Win32 modifier flag for Alt, as `RegisterHotKey` wants it.
pub const MOD_ALT: u32 = 0x0001;
/// Win32 modifier flag for Ctrl.
pub const MOD_CONTROL: u32 = 0x0002;
/// Win32 modifier flag for Shift.
pub const MOD_SHIFT: u32 = 0x0004;
/// Win32 modifier flag for the Windows key.
pub const MOD_WIN: u32 = 0x0008;
/// Win32 flag that stops a held-down shortcut from auto-repeating.
pub const MOD_NOREPEAT: u32 = 0x4000;

/// A system-wide shortcut: modifier keys plus a Win32 virtual-key code.
#[derive(Debug, Clone, Copy, PartialEq, Eq, Structural)]
pub struct Hotkey {
    pub ctrl: bool,
    pub alt: bool,
    pub shift: bool,
    /// The Windows key.
    pub win: bool,
    /// Win32 virtual-key code, e.g. `0x52` for R.
    pub key: u32,
}

/// The modifier flags of a hotkey, as a number.
pub open spec fn modifier_value(h: Hotkey) -> int {
    (if h.ctrl { MOD_CONTROL as int } else { 0 }) + (if h.alt { MOD_ALT as int } else { 0 })
        + (if h.shift { MOD_SHIFT as int } else { 0 }) + (if h.win { MOD_WIN as int } else { 0 })
}

/// The packed form of an optional binding: modifiers in the high 32 bits,
/// the key code in the low 32 bits, and 0 for "no hotkey".
pub open spec fn packed_bits(hotkey: Option<Hotkey>) -> int {
    match hotkey {
        Some(h) => if h.key != 0 {
            modifier_value(h) * 0x1_0000_0000 + h.key
        } else {
            0
        },
        None => 0,
    }
}

/// The binding a packed value stands for.
pub open spec fn unpacked(bits: u64) -> Option<Hotkey> {
    let key = bits % 0x1_0000_0000;
    let modifiers = bits / 0x1_0000_0000;
    if key == 0 {
        None
    } else {
        Some(
            Hotkey {
                ctrl: (modifiers / 2) % 2 == 1,
                alt: modifiers % 2 == 1,
                shift: (modifiers / 4) % 2 == 1,
                win: (modifiers / 8) % 2 == 1,
                key: key as u32,
            },
        )
    }
}

impl Hotkey {
    /// Ctrl + Shift + R, the shipped default.
    pub open spec fn shipped_default_spec() -> Hotkey {
        Hotkey { ctrl: true, alt: false, shift: true, win: false, key: 0x52 }
    }

    /// Ctrl + Shift + R, the shipped default.
    pub fn shipped_default() -> (h: Hotkey)
        ensures
            h == (Hotkey { ctrl: true, alt: false, shift: true, win: false, key: 0x52 }),
    {
        Hotkey { ctrl: true, alt: false, shift: true, win: false, key: 0x52 }
    }

    /// Encoding of "no hotkey".
    pub const NONE_BITS: u64 = 0;

    /// Modifier flags for `RegisterHotKey`.
    pub fn modifier_bits(&self) -> (bits: u32)
        ensures
            bits == modifier_value(*self),
            bits < 16,
    {
        let mut bits: u32 = 0;
        if self.ctrl {
            bits = bits + MOD_CONTROL;
        }
        if self.alt {
            bits = bits + MOD_ALT;
        }
        if self.shift {
            bits = bits + MOD_SHIFT;
        }
        if self.win {
            bits = bits + MOD_WIN;
        }
        bits
    }

    /// Modifier flags for registering the binding: those of the binding,
    /// plus the flag that keeps a held-down shortcut from repeating.
    pub fn registration_bits(&self) -> (bits: u32)
        ensures
            bits == modifier_value(*self) + MOD_NOREPEAT,
    {
        let m = self.modifier_bits();
        assert(m | 0x4000u32 == m + 0x4000u32) by (bit_vector)
            requires
                m < 16,
        ;
        m | MOD_NOREPEAT
    }

    /// Packs an optional binding into one `u64`.
    pub fn to_bits(hotkey: Option<Hotkey>) -> (bits: u64)
        ensures
            bits == packed_bits(hotkey),
    {
        match hotkey {
            Some(h) => {
                if h.key != 0 {
                    let m = h.modifier_bits() as u64;
                    let k = h.key as u64;
                    assert((m << 32u64) | k == m * 0x1_0000_0000 + k) by (bit_vector)
                        requires
                            m < 16,
                            k < 0x1_0000_0000,
                    ;
                    (m << 32u64) | k
                } else {
                    Self::NONE_BITS
                }
            },
            None => Self::NONE_BITS,
        }
    }

    /// Inverse of [`Hotkey::to_bits`].
    pub fn from_bits(bits: u64) -> (hotkey: Option<Hotkey>)
        ensures
            hotkey == unpacked(bits),
    {
        let key = bits as u32;
        assert(key == bits % 0x1_0000_0000) by (bit_vector)
            requires
                key == bits as u32,
        ;
        if key == 0 {
            return None;
        }
        let modifiers = (bits >> 32u64) as u32;
        assert(modifiers == bits / 0x1_0000_0000) by (bit_vector)
            requires
                modifiers == (bits >> 32u64) as u32,
        ;
        assert((modifiers & MOD_CONTROL != 0) == ((modifiers / 2) % 2 == 1)) by (bit_vector);
        assert((modifiers & MOD_ALT != 0) == (modifiers % 2 == 1)) by (bit_vector);
        assert((modifiers & MOD_SHIFT != 0) == ((modifiers / 4) % 2 == 1)) by (bit_vector);
        assert((modifiers & MOD_WIN != 0) == ((modifiers / 8) % 2 == 1)) by (bit_vector);
        Some(
            Hotkey {
                ctrl: modifiers & MOD_CONTROL != 0,
                alt: modifiers & MOD_ALT != 0,
                shift: modifiers & MOD_SHIFT != 0,
                win: modifiers & MOD_WIN != 0,
                key,
            },
        )
    }
}

/// Everything the settings panel can change.
#[derive(Debug, Clone)]
pub struct AppConfig {
    /// Directory the MP4 files are written to.
    pub output_dir: String,
    /// Automatic stop, in seconds. Zero means no limit.
    pub max_duration_secs: u64,
    /// System-wide record/stop shortcut, or `None` to disable it.
    pub hotkey: Option<Hotkey>,
    /// Display language.
    pub language: Language,
}

/// The abstract content of a configuration.
pub struct ConfigView {
    pub output_dir: Seq<char>,
    pub max_duration_secs: u64,
    pub hotkey: Option<Hotkey>,
    pub language: Language,
}

impl View for AppConfig {
    type V = ConfigView;

    open spec fn view(&self) -> ConfigView {
        ConfigView {
            output_dir: self.output_dir@,
            max_duration_secs: self.max_duration_secs,
            hotkey: self.hotkey,
            language: self.language,
        }
    }
}

impl AppConfig {
    /// The shipped preferences, for the given default output directory and
    /// the language the OS locale suggests.
    pub fn defaults(output_dir: String, language: Language) -> (config: AppConfig)
        ensures
            config.output_dir@ == output_dir@,
            config.max_duration_secs == MAX_DURATION_SECS,
            config.hotkey == Some(Hotkey::shipped_default_spec()),
            config.language == language,
    {
        AppConfig {
            output_dir,
            max_duration_secs: MAX_DURATION_SECS,
            hotkey: Some(Hotkey::shipped_default()),
            language,
        }
    }

    /// The configuration as loaded: an empty output directory, which would
    /// send recordings to the working directory, is replaced by the default.
    pub fn normalized(self, default_output_dir: String) -> (config: AppConfig)
        ensures
            config.output_dir@ == (if self.output_dir@.len() == 0 {
                default_output_dir@
            } else {
                self.output_dir@
            }),
            config.max_duration_secs == self.max_duration_secs,
            config.hotkey == self.hotkey,
            config.language == self.language,
    {
        if self.output_dir.as_str().is_empty() {
            AppConfig { output_dir: default_output_dir, ..self }
        } else {
            self
        }
    }

    /// Whether two configurations hold the same settings.
    pub fn same_as(&self, other: &AppConfig) -> (same: bool)
        ensures
            same == (self@ == other@),
    {
        let same = self.output_dir == other.output_dir && self.max_duration_secs
            == other.max_duration_secs && self.hotkey == other.hotkey && self.language
            == other.language;
        proof {
            if same {
                assert(self@ == other@);
            }
        }
        same
    }

    /// The duration cap in seconds, as the recorder wants it: `None` for
    /// unlimited.
    pub fn max_duration(&self) -> (cap: Option<u64>)
        ensures
            cap == (if self.max_duration_secs > 0 { Some(self.max_duration_secs) } else { None }),
    {
        if self.max_duration_secs > 0 {
            Some(self.max_duration_secs)
        } else {
            None
        }
    }

    /// Encoder settings for a recording started with these preferences;
    /// everything the settings panel does not expose keeps its default.
    pub fn recorder_config(&self) -> (config: RecorderConfig)
        ensures
            config.output_dir@ == self.output_dir@,
            config.max_duration_secs == (if self.max_duration_secs > 0 {
                Some(self.max_duration_secs)
            } else {
                None
            }),
            config.frame_rate == 60,
            config.bitrate == 12_000_000,
            config.exclude_window_border,
            config.max_native_size == Some(
                (crate::recorder::MAX_NATIVE_WIDTH, crate::recorder::MAX_NATIVE_HEIGHT),
            ),
            config.warmup_ms == crate::recorder::WARMUP_MS,
            config.capture_audio,
    {
        let base = RecorderConfig::with_output_dir(self.output_dir.clone());
        RecorderConfig { max_duration_secs: self.max_duration(), ..base }
    }
}

/// Unpacking a packed binding gives the binding back, for every binding
/// with a key; a binding without a key, like no binding at all, packs to 0,
/// which unpacks to no binding.
pub proof fn lemma_hotkey_bits_round_trip(hotkey: Option<Hotkey>)
    ensures
        0 <= packed_bits(hotkey) < 0x1_0000_0000_0000_0000,
        unpacked(packed_bits(hotkey) as u64) == (match hotkey {
            Some(h) => if h.key != 0 { Some(h) } else { None },
            None => None,
        }),
{
    match hotkey {
        Some(h) => {
            if h.key != 0 {
                let m = modifier_value(h);
                let bits = m * 0x1_0000_0000 + h.key;
                assert(0 <= m < 16);
                assert(bits % 0x1_0000_0000 == h.key);
                assert(bits / 0x1_0000_0000 == m);
            }
        },
        None => {},
    }
}

/// Packing an unpacked value keeps the key code and the four modifier
/// flags and clears every other bit.
pub proof fn lemma_hotkey_bits_canonical(bits: u64)
    ensures
        unpacked(bits) is None <==> bits % 0x1_0000_0000 == 0,
        unpacked(bits) is Some ==> packed_bits(unpacked(bits)) == (bits / 0x1_0000_0000) % 16
            * 0x1_0000_0000 + bits % 0x1_0000_0000,
{
    let m: u64 = bits / 0x1_0000_0000;
    assert(m % 16 == m % 2 + 2 * ((m / 2) % 2) + 4 * ((m / 4) % 2) + 8 * ((m / 8) % 2))
        by (bit_vector);
    if bits % 0x1_0000_0000 != 0 {
        let h = unpacked(bits).unwrap();
        assert(modifier_value(h) == m % 16);
    }
}

/// The name of a virtual-key code, for the keys the hotkey picker accepts.
pub open spec fn key_name(vk: u32) -> Option<Seq<char>> {
    if (0x30 <= vk <= 0x39) || (0x41 <= vk <= 0x5A) {
        // Digits and letters share their ASCII value with their key code.
        Some(seq![vk as char])
    } else if 0x70 <= vk <= 0x87 {
        Some(seq!['F'] + decimal((vk - 0x6F) as nat))
    } else if vk == 0x08 {
        Some("Backspace"@)
    } else if vk == 0x09 {
        Some("Tab"@)
    } else if vk == 0x0D {
        Some("Enter"@)
    } else if vk == 0x20 {
        Some("Space"@)
    } else if vk == 0x21 {
        Some("PageUp"@)
    } else if vk == 0x22 {
        Some("PageDown"@)
    } else if vk == 0x23 {
        Some("End"@)
    } else if vk == 0x24 {
        Some("Home"@)
    } else if vk == 0x25 {
        Some("Left"@)
    } else if vk == 0x26 {
        Some("Up"@)
    } else if vk == 0x27 {
        Some("Right"@)
    } else if vk == 0x28 {
        Some("Down"@)
    } else if vk == 0x2D {
        Some("Insert"@)
    } else if vk == 0x2E {
        Some("Delete"@)
    } else {
        None
    }
}

/// How a key appears in a shortcut: its name, or `0x` and at least two
/// upper-case hex digits when it has none.
pub open spec fn key_part(vk: u32) -> Seq<char> {
    match key_name(vk) {
        Some(name) => name,
        None => "0x"@ + padded(hexadecimal(vk as nat), 2, '0'),
    }
}

/// The names of the keys a shortcut uses, modifiers first in the order
/// Windows writes them (Ctrl, Shift, Alt, Win), then the key.
pub open spec fn hotkey_parts(h: Hotkey) -> Seq<Seq<char>> {
    (if h.ctrl { seq!["Ctrl"@] } else { Seq::empty() }) + (if h.shift {
        seq!["Shift"@]
    } else {
        Seq::empty()
    }) + (if h.alt { seq!["Alt"@] } else { Seq::empty() }) + (if h.win {
        seq!["Win"@]
    } else {
        Seq::empty()
    }) + seq![key_part(h.key)]
}

/// The pieces joined with `sep` between consecutive ones.
pub open spec fn joined(pieces: Seq<Seq<char>>, sep: Seq<char>) -> Seq<char>
    decreases pieces.len(),
{
    if pieces.len() == 0 {
        Seq::empty()
    } else if pieces.len() == 1 {
        pieces[0]
    } else {
        joined(pieces.drop_last(), sep) + sep + pieces.last()
    }
}

/// Name of a virtual-key code, for the keys the picker accepts.
pub fn key_label(vk: u32) -> (label: Option<String>)
    ensures
        match label {
            Some(s) => key_name(vk) == Some(s@),
            None => key_name(vk) is None,
        },
{
    if (0x30 <= vk && vk <= 0x39) || (0x41 <= vk && vk <= 0x5A) {
        let mut s = String::new();
        push_char(&mut s, (vk as u8) as char);
        return Some(s);
    }
    if 0x70 <= vk && vk <= 0x87 {
        let mut s = String::new();
        push_char(&mut s, 'F');
        let digits = decimal_chars((vk - 0x6F) as u64);
        push_all(&mut s, digits.as_slice());
        return Some(s);
    }
    let named = if vk == 0x08 {
        "Backspace"
    } else if vk == 0x09 {
        "Tab"
    } else if vk == 0x0D {
        "Enter"
    } else if vk == 0x20 {
        "Space"
    } else if vk == 0x21 {
        "PageUp"
    } else if vk == 0x22 {
        "PageDown"
    } else if vk == 0x23 {
        "End"
    } else if vk == 0x24 {
        "Home"
    } else if vk == 0x25 {
        "Left"
    } else if vk == 0x26 {
        "Up"
    } else if vk == 0x27 {
        "Right"
    } else if vk == 0x28 {
        "Down"
    } else if vk == 0x2D {
        "Insert"
    } else if vk == 0x2E {
        "Delete"
    } else {
        return None;
    };
    Some(String::from_str(named))
}

impl Hotkey {
    /// The shortcut split into the names of the keys it uses, modifiers
    /// first, in the order Windows writes them. A key code with no name
    /// falls back to its hex value.
    pub fn parts(&self) -> (parts: Vec<String>)
        ensures
            parts@.map_values(|p: String| p@) == hotkey_parts(*self),
    {
        let mut parts: Vec<String> = Vec::new();
        let ghost want = hotkey_parts(*self);
        let ghost c: Seq<Seq<char>> = if self.ctrl { seq!["Ctrl"@] } else { Seq::empty() };
        let ghost sh: Seq<Seq<char>> = if self.shift { seq!["Shift"@] } else { Seq::empty() };
        let ghost a: Seq<Seq<char>> = if self.alt { seq!["Alt"@] } else { Seq::empty() };
        let ghost w: Seq<Seq<char>> = if self.win { seq!["Win"@] } else { Seq::empty() };
        if self.ctrl {
            parts.push(String::from_str("Ctrl"));
        }
        assert(parts@.map_values(|p: String| p@) =~= c);
        if self.shift {
            parts.push(String::from_str("Shift"));
        }
        assert(parts@.map_values(|p: String| p@) =~= c + sh);
        if self.alt {
            parts.push(String::from_str("Alt"));
        }
        assert(parts@.map_values(|p: String| p@) =~= c + sh + a);
        if self.win {
            parts.push(String::from_str("Win"));
        }
        assert(parts@.map_values(|p: String| p@) =~= c + sh + a + w);
        let key = match key_label(self.key) {
            Some(name) => name,
            None => {
                let mut s = String::from_str("0x");
                let digits = hex_chars(self.key as u64);
                if digits.len() < 2 {
                    push_char(&mut s, '0');
                }
                push_all(&mut s, digits.as_slice());
                proof {
                    assert(digits@.len() >= 1);
                    if digits.len() < 2 {
                        assert(Seq::new((2 - digits@.len()) as nat, |i: int| '0') =~= seq!['0']);
                    }
                    assert(s@ =~= key_part(self.key));
                }
                s
            },
        };
        assert(key@ == key_part(self.key));
        parts.push(key);
        assert(parts@.map_values(|p: String| p@) =~= want);
        parts
    }

    /// Human-readable form, e.g. `Ctrl + Shift + R`.
    pub fn label(&self) -> (label: String)
        ensures
            label@ == joined(hotkey_parts(*self), " + "@),
    {
        let parts = self.parts();
        let ghost pieces = parts@.map_values(|p: String| p@);
        let mut out = String::new();
        let mut i: usize = 0;
        while i < parts.len()
            invariant
                i <= parts.len(),
                pieces == parts@.map_values(|p: String| p@),
                out@ == joined(pieces.take(i as int), " + "@),
            decreases parts.len() - i,
        {
            if i > 0 {
                out.append(" + ");
            }
            out.append(parts[i].as_str());
            assert(pieces.take(i + 1).drop_last() =~= pieces.take(i as int));
            i = i + 1;
        }
        assert(pieces.take(parts.len() as int) =~= pieces);
        out
    }
}

} // verus!
