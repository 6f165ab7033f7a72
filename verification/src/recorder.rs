//! Recording settings, recorder errors and output file naming.

use vstd::prelude::*;
use vstd::string::StringExecFns;

use crate::text::{chars_of, decimal, padded, push_decimal_padded, string_of};

verus! {

/// Default ceiling on a single recording, in seconds.
pub const MAX_DURATION_SECS: u64 = 30;

/// Frames captured within this many milliseconds of the capture session
/// starting are discarded, so the recording opens on a settled pipeline.
pub const WARMUP_MS: u64 = 600;

/// Width above which captures are halved.
pub const MAX_NATIVE_WIDTH: u32 = 1920;
/// Height above which captures are halved.
pub const MAX_NATIVE_HEIGHT: u32 = 1200;

/// Recording settings.
#[derive(Debug, Clone)]
pub struct RecorderConfig {
    /// Directory the MP4 files are written to. Created on demand.
    pub output_dir: String,
    /// Recording stops automatically after this many seconds; `None` runs
    /// until the user stops it.
    pub max_duration_secs: Option<u64>,
    /// Encoder frame rate hint, in frames per second.
    pub frame_rate: u32,
    /// Target video bitrate, in bits per second.
    pub bitrate: u32,
    /// Record only the window's client area, dropping the title bar and
    /// borders.
    pub exclude_window_border: bool,
    /// Largest capture recorded at native resolution, as `(width, height)`;
    /// anything wider or taller is halved. `None` always records native.
    pub max_native_size: Option<(u32, u32)>,
    /// How long, in milliseconds, the capture pipeline is left to settle
    /// before frames are kept.
    pub warmup_ms: u64,
    /// Record the audio coming out of the default playback device.
    pub capture_audio: bool,
}

impl RecorderConfig {
    /// The shipped settings, writing into `output_dir`.
    pub fn with_output_dir(output_dir: String) -> (config: RecorderConfig)
        ensures
            config.output_dir@ == output_dir@,
            config.max_duration_secs == Some(MAX_DURATION_SECS),
            config.frame_rate == 60,
            config.bitrate == 12_000_000,
            config.exclude_window_border,
            config.max_native_size == Some((MAX_NATIVE_WIDTH, MAX_NATIVE_HEIGHT)),
            config.warmup_ms == WARMUP_MS,
            config.capture_audio,
    {
        RecorderConfig {
            output_dir,
            max_duration_secs: Some(MAX_DURATION_SECS),
            frame_rate: 60,
            // ~12 Mbps is plenty for a game window at 1080p60 and keeps a
            // 30 second clip under about 45 MB.
            bitrate: 12_000_000,
            exclude_window_border: true,
            max_native_size: Some((MAX_NATIVE_WIDTH, MAX_NATIVE_HEIGHT)),
            warmup_ms: WARMUP_MS,
            capture_audio: true,
        }
    }
}

/// Anything that can go wrong while recording, flattened to a message.
#[derive(Debug, Clone)]
pub enum Error {
    /// Creating the output directory or file failed.
    Io(String),
    /// The encoder rejected a frame or failed to finalise the file.
    Encoder(String),
    /// Starting or stopping the capture session failed.
    Capture(String),
    /// Loopback audio capture failed.
    Audio(String),
}

/// What an error reads as in the UI.
pub open spec fn error_message(error: Error) -> Seq<char> {
    match error {
        Error::Io(msg) => "文件写入失败: "@ + msg@,
        Error::Encoder(msg) => "编码失败: "@ + msg@,
        Error::Capture(msg) => "录制失败: "@ + msg@,
        Error::Audio(msg) => "音频录制失败: "@ + msg@,
    }
}

impl Error {
    /// The message shown for this error.
    pub fn message(&self) -> (text: String)
        ensures
            text@ == error_message(*self),
    {
        let (prefix, msg) = match self {
            Error::Io(msg) => ("文件写入失败: ", msg),
            Error::Encoder(msg) => ("编码失败: ", msg),
            Error::Capture(msg) => ("录制失败: ", msg),
            Error::Audio(msg) => ("音频录制失败: ", msg),
        };
        let mut text = String::from_str(prefix);
        text.append(msg.as_str());
        text
    }
}

/// Whether `c` is a control character (general category Cc), as
/// `char::is_control` decides it.
pub open spec fn is_control(c: char) -> bool {
    c <= '\u{1f}' || ('\u{7f}' <= c <= '\u{9f}')
}

/// Whether Windows refuses `c` in a file name.
pub open spec fn forbidden_in_name(c: char) -> bool {
    c == '\\' || c == '/' || c == ':' || c == '*' || c == '?' || c == '"' || c == '<' || c == '>'
        || c == '|' || is_control(c)
}

/// `c`, or `_` when Windows refuses it in a file name.
pub open spec fn cleaned_char(c: char) -> char {
    if forbidden_in_name(c) {
        '_'
    } else {
        c
    }
}

/// Whether `c` is trimmed from the ends of a file name.
pub open spec fn is_edge_junk(c: char) -> bool {
    c == ' ' || c == '.'
}

/// Number of leading characters of `s` that are spaces or dots.
pub open spec fn leading_junk(s: Seq<char>) -> nat
    decreases s.len(),
{
    if s.len() > 0 && is_edge_junk(s[0]) {
        1 + leading_junk(s.drop_first())
    } else {
        0
    }
}

/// Number of trailing characters of `s` that are spaces or dots.
pub open spec fn trailing_junk(s: Seq<char>) -> nat
    decreases s.len(),
{
    if s.len() > 0 && is_edge_junk(s.last()) {
        1 + trailing_junk(s.drop_last())
    } else {
        0
    }
}

/// A name made safe for a Windows file name: refused characters become
/// `_`, spaces and dots are trimmed from both ends, and an empty result
/// becomes `recording`.
pub open spec fn sanitized(name: Seq<char>) -> Seq<char> {
    let cleaned = name.map_values(|c: char| cleaned_char(c));
    let front = cleaned.skip(leading_junk(cleaned) as int);
    let core = front.take(front.len() - trailing_junk(front));
    if core.len() == 0 {
        "recording"@
    } else {
        core
    }
}

proof fn lemma_leading_junk(s: Seq<char>, i: int)
    requires
        0 <= i <= s.len(),
        forall|j: int| 0 <= j < i ==> is_edge_junk(s[j]),
        i == s.len() || !is_edge_junk(s[i]),
    ensures
        leading_junk(s) == i,
    decreases i,
{
    if i > 0 {
        lemma_leading_junk(s.drop_first(), i - 1);
    }
}

proof fn lemma_trailing_junk(s: Seq<char>, k: int)
    requires
        0 <= k <= s.len(),
        forall|j: int| s.len() - k <= j < s.len() ==> is_edge_junk(s[j]),
        k == s.len() || !is_edge_junk(s[s.len() - k - 1]),
    ensures
        trailing_junk(s) == k,
    decreases k,
{
    if k > 0 {
        lemma_trailing_junk(s.drop_last(), k - 1);
    }
}


proof fn lemma_leading_junk_spec(s: Seq<char>)
    ensures
        leading_junk(s) <= s.len(),
        leading_junk(s) < s.len() ==> !is_edge_junk(s[leading_junk(s) as int]),
    decreases s.len(),
{
    if s.len() > 0 && is_edge_junk(s[0]) {
        lemma_leading_junk_spec(s.drop_first());
        if leading_junk(s) < s.len() {
            assert(s[leading_junk(s) as int] == s.drop_first()[leading_junk(s.drop_first()) as int]);
        }
    }
}

proof fn lemma_trailing_junk_spec(s: Seq<char>)
    ensures
        trailing_junk(s) <= s.len(),
        trailing_junk(s) < s.len() ==> !is_edge_junk(s[s.len() - trailing_junk(s) - 1]),
    decreases s.len(),
{
    if s.len() > 0 && is_edge_junk(s.last()) {
        lemma_trailing_junk_spec(s.drop_last());
        if trailing_junk(s) < s.len() {
            assert(s[s.len() - trailing_junk(s) - 1] == s.drop_last()[s.drop_last().len() - trailing_junk(s.drop_last()) - 1]);
        }
    }
}

/// A sanitised name is always usable as a Windows file name: it is never
/// empty, holds no character Windows refuses, and neither starts nor ends
/// with a space or a dot; sanitising it again changes nothing.
pub proof fn lemma_sanitized_is_safe(name: Seq<char>)
    ensures
        sanitized(name).len() > 0,
        forall|i: int| 0 <= i < sanitized(name).len() ==> !forbidden_in_name(#[trigger] sanitized(name)[i]),
        !is_edge_junk(sanitized(name)[0]),
        !is_edge_junk(sanitized(name).last()),
        sanitized(sanitized(name)) == sanitized(name),
{
    reveal_strlit("recording");
    let cleaned = name.map_values(|c: char| cleaned_char(c));
    let lj = leading_junk(cleaned);
    lemma_leading_junk_spec(cleaned);
    let front = cleaned.skip(lj as int);
    let tj = trailing_junk(front);
    lemma_trailing_junk_spec(front);
    let core = front.take(front.len() - tj);
    let r = sanitized(name);
    assert forall|i: int| 0 <= i < cleaned.len() implies !forbidden_in_name(#[trigger] cleaned[i]) by {}
    if core.len() == 0 {
        assert(r =~= seq!['r', 'e', 'c', 'o', 'r', 'd', 'i', 'n', 'g']);
    } else {
        assert(r == core);
        assert(r[0] == cleaned[lj as int]);
        assert(r.last() == front[front.len() - tj - 1]);
        assert forall|i: int| 0 <= i < r.len() implies !forbidden_in_name(#[trigger] r[i]) by {
            assert(r[i] == cleaned[lj + i]);
        }
    }
    // Sanitising the result again: nothing is replaced and nothing trimmed.
    let again = r.map_values(|c: char| cleaned_char(c));
    assert(again =~= r);
    lemma_leading_junk(r, 0);
    assert(r.skip(0) =~= r);
    lemma_trailing_junk(r, 0);
    assert(r.take(r.len() as int) =~= r);
}

/// Strips characters Windows won't accept in a file name.
pub fn sanitize(name: &str) -> (safe: String)
    ensures
        safe@ == sanitized(name@),
{
    let raw = chars_of(name);
    let mut cleaned: Vec<char> = Vec::new();
    let mut i: usize = 0;
    while i < raw.len()
        invariant
            i <= raw.len(),
            raw@ == name@,
            cleaned@ == raw@.take(i as int).map_values(|c: char| cleaned_char(c)),
        decreases raw.len() - i,
    {
        let c = raw[i];
        let bad = c == '\\' || c == '/' || c == ':' || c == '*' || c == '?' || c == '"' || c == '<'
            || c == '>' || c == '|' || c <= '\u{1f}' || ('\u{7f}' <= c && c <= '\u{9f}');
        cleaned.push(if bad { '_' } else { c });
        assert(raw@.take(i + 1).map_values(|c: char| cleaned_char(c)) =~= raw@.take(
            i as int,
        ).map_values(|c: char| cleaned_char(c)).push(cleaned_char(c)));
        i = i + 1;
    }
    assert(raw@.take(raw.len() as int) == raw@);
    let ghost cl = cleaned@;
    let mut lo: usize = 0;
    while lo < cleaned.len() && (cleaned[lo] == ' ' || cleaned[lo] == '.')
        invariant
            lo <= cleaned.len(),
            forall|j: int| 0 <= j < lo ==> is_edge_junk(cleaned@[j]),
        decreases cleaned.len() - lo,
    {
        lo = lo + 1;
    }
    proof {
        lemma_leading_junk(cl, lo as int);
    }
    let ghost front = cl.skip(lo as int);
    let mut hi: usize = cleaned.len();
    while hi > lo && (cleaned[hi - 1] == ' ' || cleaned[hi - 1] == '.')
        invariant
            lo <= hi <= cleaned.len(),
            forall|j: int| hi <= j < cleaned.len() ==> is_edge_junk(cleaned@[j]),
        decreases hi,
    {
        hi = hi - 1;
    }
    proof {
        let k = (cleaned.len() - hi) as int;
        assert forall|j: int| front.len() - k <= j < front.len() implies is_edge_junk(front[j]) by {
            assert(front[j] == cl[lo + j]);
        }
        if k < front.len() {
            assert(front[front.len() - k - 1] == cl[hi - 1]);
        }
        lemma_trailing_junk(front, k);
    }
    if lo == hi {
        let s = String::from_str("recording");
        return s;
    }
    let mut core: Vec<char> = Vec::new();
    let mut k: usize = lo;
    while k < hi
        invariant
            lo <= k <= hi,
            hi <= cleaned.len(),
            core@ == cleaned@.subrange(lo as int, k as int),
        decreases hi - k,
    {
        core.push(cleaned[k]);
        assert(cleaned@.subrange(lo as int, k + 1) == cleaned@.subrange(lo as int, k as int).push(
            cleaned@[k as int],
        ));
        k = k + 1;
    }
    assert(core@ =~= front.take(front.len() - (cleaned.len() - hi)));
    string_of(core.as_slice())
}

/// The file name a recording of `alias` gets when it starts at local time
/// `(year, month, day, hour, minute, second)`:
/// `{alias}_{yyyy}{mm}{dd}-{hh}{mm}{ss}.mp4`, the alias sanitised and each
/// field zero-padded.
pub open spec fn recording_file_name(alias: Seq<char>, time: (u16, u16, u16, u16, u16, u16)) -> Seq<char> {
    sanitized(alias) + "_"@ + padded(decimal(time.0 as nat), 4, '0') + padded(
        decimal(time.1 as nat),
        2,
        '0',
    ) + padded(decimal(time.2 as nat), 2, '0') + "-"@ + padded(decimal(time.3 as nat), 2, '0')
        + padded(decimal(time.4 as nat), 2, '0') + padded(decimal(time.5 as nat), 2, '0')
        + ".mp4"@
}


/// Two recordings of the same window started at different local times get
/// different file names, as long as the year has at most four digits and
/// every other field at most two.
pub proof fn lemma_file_names_distinct(
    alias: Seq<char>,
    t1: (u16, u16, u16, u16, u16, u16),
    t2: (u16, u16, u16, u16, u16, u16),
)
    requires
        t1.0 < 10000 && t1.1 < 100 && t1.2 < 100 && t1.3 < 100 && t1.4 < 100 && t1.5 < 100,
        t2.0 < 10000 && t2.1 < 100 && t2.2 < 100 && t2.3 < 100 && t2.4 < 100 && t2.5 < 100,
        t1 != t2,
    ensures
        recording_file_name(alias, t1) != recording_file_name(alias, t2),
{
    let f = |t: (u16, u16, u16, u16, u16, u16)| seq![
        padded(decimal(t.0 as nat), 4, '0'),
        padded(decimal(t.1 as nat), 2, '0'),
        padded(decimal(t.2 as nat), 2, '0'),
        padded(decimal(t.3 as nat), 2, '0'),
        padded(decimal(t.4 as nat), 2, '0'),
        padded(decimal(t.5 as nat), 2, '0'),
    ];
    let p = sanitized(alias) + "_"@;
    let n1 = recording_file_name(alias, t1);
    let n2 = recording_file_name(alias, t2);
    if n1 == n2 {
        let a = f(t1);
        let b = f(t2);
        let fields = |x: Seq<Seq<char>>| p + x[0] + x[1] + x[2] + "-"@ + x[3] + x[4] + x[5] + ".mp4"@;
        lemma_widths(t1);
        lemma_widths(t2);
        assert(n1 == fields(a));
        assert(n2 == fields(b));
        let o = p.len() as int;
        reveal_strlit("-");
        reveal_strlit(".mp4");
        assert(n1.subrange(o, o + 4) =~= a[0]);
        assert(n2.subrange(o, o + 4) =~= b[0]);
        assert(n1.subrange(o + 4, o + 6) =~= a[1]);
        assert(n2.subrange(o + 4, o + 6) =~= b[1]);
        assert(n1.subrange(o + 6, o + 8) =~= a[2]);
        assert(n2.subrange(o + 6, o + 8) =~= b[2]);
        assert(n1.subrange(o + 9, o + 11) =~= a[3]);
        assert(n2.subrange(o + 9, o + 11) =~= b[3]);
        assert(n1.subrange(o + 11, o + 13) =~= a[4]);
        assert(n2.subrange(o + 11, o + 13) =~= b[4]);
        assert(n1.subrange(o + 13, o + 15) =~= a[5]);
        assert(n2.subrange(o + 13, o + 15) =~= b[5]);
        crate::text::lemma_padded_decimal(t1.0 as nat, 4);
        crate::text::lemma_padded_decimal(t2.0 as nat, 4);
        crate::text::lemma_padded_decimal(t1.1 as nat, 2);
        crate::text::lemma_padded_decimal(t2.1 as nat, 2);
        crate::text::lemma_padded_decimal(t1.2 as nat, 2);
        crate::text::lemma_padded_decimal(t2.2 as nat, 2);
        crate::text::lemma_padded_decimal(t1.3 as nat, 2);
        crate::text::lemma_padded_decimal(t2.3 as nat, 2);
        crate::text::lemma_padded_decimal(t1.4 as nat, 2);
        crate::text::lemma_padded_decimal(t2.4 as nat, 2);
        crate::text::lemma_padded_decimal(t1.5 as nat, 2);
        crate::text::lemma_padded_decimal(t2.5 as nat, 2);
        assert(t1 == t2);
    }
}

proof fn lemma_widths(t: (u16, u16, u16, u16, u16, u16))
    requires
        t.0 < 10000 && t.1 < 100 && t.2 < 100 && t.3 < 100 && t.4 < 100 && t.5 < 100,
    ensures
        padded(decimal(t.0 as nat), 4, '0').len() == 4,
        padded(decimal(t.1 as nat), 2, '0').len() == 2,
        padded(decimal(t.2 as nat), 2, '0').len() == 2,
        padded(decimal(t.3 as nat), 2, '0').len() == 2,
        padded(decimal(t.4 as nat), 2, '0').len() == 2,
        padded(decimal(t.5 as nat), 2, '0').len() == 2,
{
    crate::text::lemma_decimal_len(t.0 as nat);
    crate::text::lemma_decimal_len(t.1 as nat);
    crate::text::lemma_decimal_len(t.2 as nat);
    crate::text::lemma_decimal_len(t.3 as nat);
    crate::text::lemma_decimal_len(t.4 as nat);
    crate::text::lemma_decimal_len(t.5 as nat);
    crate::text::lemma_padded_decimal(t.0 as nat, 4);
    crate::text::lemma_padded_decimal(t.1 as nat, 2);
    crate::text::lemma_padded_decimal(t.2 as nat, 2);
    crate::text::lemma_padded_decimal(t.3 as nat, 2);
    crate::text::lemma_padded_decimal(t.4 as nat, 2);
    crate::text::lemma_padded_decimal(t.5 as nat, 2);
}

/// Builds a file name like `冒险岛正式服_20260817-203015.mp4` for a
/// recording of `alias` started at the given local time.
pub fn output_file_name(alias: &str, time: (u16, u16, u16, u16, u16, u16)) -> (name: String)
    ensures
        name@ == recording_file_name(alias@, time),
{
    let (y, mo, d, h, mi, s) = time;
    let mut name = sanitize(alias);
    name.append("_");
    push_decimal_padded(&mut name, y as u64, 4);
    push_decimal_padded(&mut name, mo as u64, 2);
    push_decimal_padded(&mut name, d as u64, 2);
    name.append("-");
    push_decimal_padded(&mut name, h as u64, 2);
    push_decimal_padded(&mut name, mi as u64, 2);
    push_decimal_padded(&mut name, s as u64, 2);
    name.append(".mp4");
    name
}

} // verus!
