//! The recordings manager: clip names and sizes, listing order, and the
//! compression pass that walks a clip down under the upload limit.

use vstd::prelude::*;
use vstd::string::StringExecFns;

use crate::text::{chars_of, decimal, decimal_chars, push_all, string_of_range, trimmed, trim_chars};

verus! {

/// One recorded clip, as shown in the manager.
#[derive(Debug, Clone)]
pub struct VideoEntry {
    /// Full path of the MP4 on disk.
    pub path: String,
    /// File name, e.g. `冒险岛正式服_20260817-203015.mp4`.
    pub name: String,
    /// Last-modified time as (seconds, nanoseconds) relative to the Unix
    /// epoch, for sorting newest first.
    pub modified: Option<(i64, u32)>,
    /// File size in bytes.
    pub size: u64,
}

/// The abstract content of a clip entry.
pub struct VideoEntryView {
    pub path: Seq<char>,
    pub name: Seq<char>,
    pub modified: Option<(i64, u32)>,
    pub size: u64,
}

impl View for VideoEntry {
    type V = VideoEntryView;

    open spec fn view(&self) -> VideoEntryView {
        VideoEntryView { path: self.path@, name: self.name@, modified: self.modified, size: self.size }
    }
}

/// The clips of a list as views.
pub open spec fn video_views(list: Seq<VideoEntry>) -> Seq<VideoEntryView> {
    list.map_values(|v: VideoEntry| v@)
}

/// State of the recordings panel.
#[derive(Debug)]
pub struct VideosState {
    /// Whether the panel is expanded.
    pub is_open: bool,
    /// Clips currently in the output directory, newest first.
    pub videos: Vec<VideoEntry>,
    /// Clip waiting for its deletion to be confirmed.
    pub pending_delete: Option<String>,
    /// Clip being compressed on the worker thread.
    pub compressing: Option<String>,
    /// Whether a cancellation handle for a compression pass is held.
    pub has_session: bool,
}

/// The abstract content of the recordings panel.
pub struct VideosView {
    pub is_open: bool,
    pub videos: Seq<VideoEntryView>,
    pub pending_delete: Option<Seq<char>>,
    pub compressing: Option<Seq<char>>,
    pub has_session: bool,
}

/// The view of an optional string.
pub open spec fn opt_string_view(s: Option<String>) -> Option<Seq<char>> {
    match s {
        Some(t) => Some(t@),
        None => None,
    }
}

impl View for VideosState {
    type V = VideosView;

    open spec fn view(&self) -> VideosView {
        VideosView {
            is_open: self.is_open,
            videos: video_views(self.videos@),
            pending_delete: opt_string_view(self.pending_delete),
            compressing: opt_string_view(self.compressing),
            has_session: self.has_session,
        }
    }
}

impl VideosState {
    /// A closed panel with nothing listed or pending.
    pub fn new() -> (state: VideosState)
        ensures
            state@ == (VideosView {
                is_open: false,
                videos: Seq::empty(),
                pending_delete: None,
                compressing: None,
                has_session: false,
            }),
    {
        let state = VideosState {
            is_open: false,
            videos: Vec::new(),
            pending_delete: None,
            compressing: None,
            has_session: false,
        };
        assert(state@.videos =~= Seq::<VideoEntryView>::empty());
        state
    }
}

/// Position of the last `c` in `s`, if any.
pub open spec fn last_index_of(s: Seq<char>, c: char) -> Option<int>
    decreases s.len(),
{
    if s.len() == 0 {
        None
    } else if s.last() == c {
        Some(s.len() - 1)
    } else {
        last_index_of(s.drop_last(), c)
    }
}

/// The stem of a file name, as `Path::file_stem` gives it: everything
/// before the last `.`, unless that dot starts the name; names `""`, `.`
/// and `..` are kept whole.
pub open spec fn file_stem(name: Seq<char>) -> Seq<char> {
    if name == ".."@ {
        name
    } else {
        match last_index_of(name, '.') {
            Some(i) => if i > 0 {
                name.take(i)
            } else {
                name
            },
            None => name,
        }
    }
}

fn find_last(s: &[char], c: char) -> (r: Option<usize>)
    ensures
        match r {
            Some(i) => last_index_of(s@, c) == Some(i as int) && i < s@.len() && s@[i as int] == c,
            None => last_index_of(s@, c) is None,
        },
{
    let mut k: usize = s.len();
    assert(s@.take(k as int) == s@);
    while k > 0
        invariant
            k <= s.len(),
            last_index_of(s@, c) == last_index_of(s@.take(k as int), c),
        decreases k,
    {
        assert(s@.take(k as int).drop_last() == s@.take(k - 1));
        if s[k - 1] == c {
            return Some(k - 1);
        }
        k = k - 1;
    }
    None
}

/// Strips the extension from a file name, for display.
pub fn display_name(name: &str) -> (stem: String)
    ensures
        stem@ == file_stem(name@),
{
    let chars = chars_of(name);
    proof {
        reveal_strlit("..");
    }
    if chars.len() == 2 && chars[0] == '.' && chars[1] == '.' {
        assert(name@ =~= ".."@);
        return String::from_str(name);
    }
    assert(name@ != ".."@ || chars@.len() == 2);
    match find_last(chars.as_slice(), '.') {
        Some(i) => {
            if i > 0 {
                string_of_range(chars.as_slice(), 0, i)
            } else {
                String::from_str(name)
            }
        },
        None => String::from_str(name),
    }
}


/// The extension of a file name, as `Path::extension` gives it: the text
/// after the last `.`, unless that dot starts the name.
pub open spec fn file_extension(name: Seq<char>) -> Option<Seq<char>> {
    if name == ".."@ {
        None
    } else {
        match last_index_of(name, '.') {
            Some(i) => if i > 0 {
                Some(name.skip(i + 1))
            } else {
                None
            },
            None => None,
        }
    }
}

/// Whether a directory entry of this name is listed as a clip: its
/// extension is `mp4` in any case.
pub open spec fn is_clip_name(name: Seq<char>) -> bool {
    match file_extension(name) {
        Some(ext) => crate::text::ascii_lowered(ext) == "mp4"@,
        None => false,
    }
}

/// Whether a file of this name is listed in the recordings manager.
pub fn is_clip(name: &str) -> (listed: bool)
    ensures
        listed == is_clip_name(name@),
{
    let chars = chars_of(name);
    proof {
        reveal_strlit("..");
        reveal_strlit("mp4");
    }
    if chars.len() == 2 && chars[0] == '.' && chars[1] == '.' {
        assert(name@ =~= ".."@);
        return false;
    }
    assert(name@ != ".."@ || chars@.len() == 2);
    match find_last(chars.as_slice(), '.') {
        Some(i) => {
            if i == 0 || chars.len() - (i + 1) != 3 {
                proof {
                    if i > 0 {
                        assert(crate::text::ascii_lowered(name@.skip(i + 1)).len() == name@.skip(i + 1).len());
                    }
                }
                return false;
            }
            let a = chars[i + 1];
            let b = chars[i + 2];
            let c = chars[i + 3];
            let hit = (a == 'm' || a == 'M') && (b == 'p' || b == 'P') && c == '4';
            proof {
                let ext = name@.skip(i + 1);
                let low = crate::text::ascii_lowered(ext);
                assert(low.len() == 3);
                assert(low[0] == crate::text::ascii_lower(a));
                assert(low[1] == crate::text::ascii_lower(b));
                assert(low[2] == crate::text::ascii_lower(c));
                if hit {
                    assert(low =~= "mp4"@);
                } else {
                    assert(low != "mp4"@ ) by {
                        if low == "mp4"@ {
                            assert(low[0] == 'm' && low[1] == 'p' && low[2] == '4');
                        }
                    }
                }
            }
            hit
        },
        None => false,
    }
}

/// Whether modification time `a` is older than `b`; an unknown time is
/// older than any known one.
pub open spec fn older(a: Option<(i64, u32)>, b: Option<(i64, u32)>) -> bool {
    match (a, b) {
        (_, None) => false,
        (None, Some(_)) => true,
        (Some(x), Some(y)) => x.0 < y.0 || (x.0 == y.0 && x.1 < y.1),
    }
}

/// Where a clip goes in a newest-first list: before the first clip older
/// than it, so that clips of equal age keep their order.
pub open spec fn insertion_point(list: Seq<VideoEntryView>, item: VideoEntryView) -> int
    decreases list.len(),
{
    if list.len() == 0 {
        0
    } else if older(list[0].modified, item.modified) {
        0
    } else {
        1 + insertion_point(list.drop_first(), item)
    }
}

/// The clips newest first; clips of equal age keep their order, and clips
/// with no known time go last.
pub open spec fn newest_first(list: Seq<VideoEntryView>) -> Seq<VideoEntryView>
    decreases list.len(),
{
    if list.len() == 0 {
        Seq::empty()
    } else {
        let rest = newest_first(list.drop_last());
        rest.insert(insertion_point(rest, list.last()), list.last())
    }
}

proof fn lemma_insertion_point(list: Seq<VideoEntryView>, item: VideoEntryView, p: int)
    requires
        0 <= p <= list.len(),
        forall|k: int| 0 <= k < p ==> !older(#[trigger] list[k].modified, item.modified),
        p < list.len() ==> older(list[p].modified, item.modified),
    ensures
        insertion_point(list, item) == p,
    decreases list.len(),
{
    if list.len() > 0 && p > 0 {
        assert forall|k: int| 0 <= k < p - 1 implies !older(#[trigger] list.drop_first()[k].modified, item.modified) by {
            assert(list.drop_first()[k] == list[k + 1]);
        }
        if p - 1 < list.len() - 1 {
            assert(list.drop_first()[p - 1] == list[p]);
        }
        lemma_insertion_point(list.drop_first(), item, p - 1);
    }
}

proof fn lemma_insertion_point_bound(list: Seq<VideoEntryView>, item: VideoEntryView)
    ensures
        0 <= insertion_point(list, item) <= list.len(),
    decreases list.len(),
{
    if list.len() > 0 && !older(list[0].modified, item.modified) {
        lemma_insertion_point_bound(list.drop_first(), item);
    }
}

proof fn lemma_newest_first_len(list: Seq<VideoEntryView>)
    ensures
        newest_first(list).len() == list.len(),
    decreases list.len(),
{
    if list.len() > 0 {
        let rest = newest_first(list.drop_last());
        lemma_newest_first_len(list.drop_last());
        lemma_insertion_point_bound(rest, list.last());
    }
}


/// No clip in `list` is older than one after it.
pub open spec fn is_newest_first(list: Seq<VideoEntryView>) -> bool {
    forall|i: int, j: int| 0 <= i < j < list.len() ==> !older(#[trigger] list[i].modified, #[trigger] list[j].modified)
}

proof fn lemma_insertion_point_spec(list: Seq<VideoEntryView>, item: VideoEntryView)
    ensures
        0 <= insertion_point(list, item) <= list.len(),
        forall|k: int| 0 <= k < insertion_point(list, item) ==> !older(#[trigger] list[k].modified, item.modified),
        insertion_point(list, item) < list.len() ==> older(list[insertion_point(list, item)].modified, item.modified),
    decreases list.len(),
{
    if list.len() > 0 && !older(list[0].modified, item.modified) {
        let tail = list.drop_first();
        lemma_insertion_point_spec(tail, item);
        assert forall|k: int| 0 <= k < insertion_point(list, item) implies !older(#[trigger] list[k].modified, item.modified) by {
            if k > 0 {
                assert(list[k] == tail[k - 1]);
            }
        }
        if insertion_point(list, item) < list.len() {
            assert(list[insertion_point(list, item)] == tail[insertion_point(tail, item)]);
        }
    }
}

proof fn lemma_insert_keeps_order(rest: Seq<VideoEntryView>, x: VideoEntryView)
    requires
        is_newest_first(rest),
    ensures
        is_newest_first(rest.insert(insertion_point(rest, x), x)),
{
    let p = insertion_point(rest, x);
    lemma_insertion_point_spec(rest, x);
    let r = rest.insert(p, x);
    assert forall|i: int, j: int| 0 <= i < j < r.len() implies !older(#[trigger] r[i].modified, #[trigger] r[j].modified) by {
        if i < p && j < p {
            assert(r[i] == rest[i] && r[j] == rest[j]);
        } else if i < p && j == p {
            assert(r[i] == rest[i]);
        } else if i < p {
            assert(r[i] == rest[i] && r[j] == rest[j - 1]);
        } else if i == p {
            assert(r[j] == rest[j - 1]);
            assert(!older(rest[p].modified, rest[j - 1].modified) || p == j - 1);
        } else {
            assert(r[i] == rest[i - 1] && r[j] == rest[j - 1]);
        }
    }
}

/// The manager lists clips newest first: no clip comes before a newer one.
pub proof fn lemma_newest_first_sorted(list: Seq<VideoEntryView>)
    ensures
        is_newest_first(newest_first(list)),
    decreases list.len(),
{
    if list.len() > 0 {
        lemma_newest_first_sorted(list.drop_last());
        lemma_insert_keeps_order(newest_first(list.drop_last()), list.last());
    }
}

/// Sorting neither loses nor duplicates a clip.
pub proof fn lemma_newest_first_keeps_clips(list: Seq<VideoEntryView>)
    ensures
        newest_first(list).to_multiset() == list.to_multiset(),
    decreases list.len(),
{
    broadcast use vstd::seq_lib::group_to_multiset_ensures;

    if list.len() > 0 {
        let rest = newest_first(list.drop_last());
        lemma_newest_first_keeps_clips(list.drop_last());
        lemma_insertion_point_spec(rest, list.last());
        assert(list.drop_last().push(list.last()) =~= list);
    }
}

/// Sorts the clips newest first, as the manager lists them; clips of equal
/// age keep their order, and clips with no known time go last.
pub fn sort_newest_first(videos: Vec<VideoEntry>) -> (sorted: Vec<VideoEntry>)
    ensures
        video_views(sorted@) == newest_first(video_views(videos@)),
{
    let ghost input = video_views(videos@);
    let mut rest = videos;
    let mut sorted: Vec<VideoEntry> = Vec::new();
    let ghost mut taken: int = 0;
    assert(input.take(0) =~= Seq::<VideoEntryView>::empty());
    while rest.len() > 0
        invariant
            0 <= taken <= input.len(),
            video_views(rest@) == input.skip(taken),
            video_views(sorted@) == newest_first(input.take(taken)),
        decreases rest@.len(),
    {
        let ghost pre = rest@;
        proof {
            assert(video_views(pre).len() == pre.len());
            assert(taken < input.len());
            assert(video_views(pre)[0] == pre[0]@);
            assert(input.skip(taken)[0] == input[taken]);
        }
        let item = rest.remove(0);
        proof {
            assert(video_views(rest@) =~= input.skip(taken + 1)) by {
                assert forall|k: int| 0 <= k < rest@.len() implies #[trigger] video_views(rest@)[k] == input.skip(taken + 1)[k] by {
                    assert(rest@[k] == pre[k + 1]);
                    assert(video_views(pre)[k + 1] == pre[k + 1]@);
                    assert(input.skip(taken)[k + 1] == input[taken + k + 1]);
                }
            }
            assert(item@ == input[taken]);
            lemma_newest_first_len(input.take(taken));
        }
        let mut p: usize = 0;
        while p < sorted.len()
            invariant
                p <= sorted@.len(),
                forall|k: int| 0 <= k < p ==> !older(#[trigger] video_views(sorted@)[k].modified, item@.modified),
            ensures
                p <= sorted@.len(),
                forall|k: int| 0 <= k < p ==> !older(#[trigger] video_views(sorted@)[k].modified, item@.modified),
                p < sorted@.len() ==> older(video_views(sorted@)[p as int].modified, item@.modified),
            decreases sorted@.len() - p,
        {
            let later = match (&sorted[p].modified, &item.modified) {
                (_, None) => false,
                (None, Some(_)) => true,
                (Some(x), Some(y)) => x.0 < y.0 || (x.0 == y.0 && x.1 < y.1),
            };
            proof {
                assert(video_views(sorted@)[p as int] == sorted@[p as int]@);
            }
            if later {
                break;
            }
            p = p + 1;
        }
        let ghost before = video_views(sorted@);
        proof {
            lemma_insertion_point(before, item@, p as int);
            let grown = input.take(taken + 1);
            assert(grown.drop_last() =~= input.take(taken));
            assert(grown.last() == item@);
        }
        sorted.insert(p, item);
        proof {
            assert(video_views(sorted@) =~= before.insert(p as int, item@));
            taken = taken + 1;
        }
    }
    assert(input.take(taken) =~= input);
    sorted
}

impl VideoEntry {
    /// File name without the extension, for display.
    pub fn display_name(&self) -> (stem: String)
        ensures
            stem@ == file_stem(self.name@),
    {
        display_name(self.name.as_str())
    }
}

/// The unit a size is shown in: the largest of B, KiB, MiB, GiB and TiB
/// that the size reaches at least one of.
pub open spec fn size_unit(bytes: nat) -> nat {
    if bytes >= 0x100_0000_0000 {
        4
    } else if bytes >= 0x4000_0000 {
        3
    } else if bytes >= 0x10_0000 {
        2
    } else if bytes >= 0x400 {
        1
    } else {
        0
    }
}

/// 1024 to the power `unit`.
pub open spec fn unit_scale(unit: nat) -> nat {
    if unit == 0 {
        1
    } else if unit == 1 {
        0x400
    } else if unit == 2 {
        0x10_0000
    } else if unit == 3 {
        0x4000_0000
    } else {
        0x100_0000_0000
    }
}

/// The name of a size unit.
pub open spec fn unit_name(unit: nat) -> Seq<char> {
    if unit == 0 {
        "B"@
    } else if unit == 1 {
        "KiB"@
    } else if unit == 2 {
        "MiB"@
    } else if unit == 3 {
        "GiB"@
    } else {
        "TiB"@
    }
}

/// `n / d` rounded to the nearest integer, halves to the even neighbour.
pub open spec fn round_half_even(n: nat, d: nat) -> nat {
    let q = n / d;
    let r = n % d;
    if 2 * r > d || (2 * r == d && q % 2 == 1) {
        q + 1
    } else {
        q
    }
}

/// Human-readable size in binary units: whole bytes below one KiB
/// (`123 B`), otherwise the size in the largest unit it reaches, rounded to
/// one decimal place with halves to even (`5.1 KiB`).
pub open spec fn readable_size(bytes: nat) -> Seq<char> {
    let unit = size_unit(bytes);
    if unit == 0 {
        decimal(bytes) + " B"@
    } else {
        let tenths = round_half_even(bytes * 10, unit_scale(unit));
        decimal(tenths / 10) + "."@ + decimal(tenths % 10) + " "@ + unit_name(unit)
    }
}

/// Human-readable file size in binary units: `123 B`, `5.1 KiB`, `2.3 MiB`.
pub fn human_size(bytes: u64) -> (text: String)
    ensures
        text@ == readable_size(bytes as nat),
{
    let (unit, scale, name): (u64, u128, &str) = if bytes >= 0x100_0000_0000 {
        (4, 0x100_0000_0000, "TiB")
    } else if bytes >= 0x4000_0000 {
        (3, 0x4000_0000, "GiB")
    } else if bytes >= 0x10_0000 {
        (2, 0x10_0000, "MiB")
    } else if bytes >= 0x400 {
        (1, 0x400, "KiB")
    } else {
        (0, 1, "B")
    };
    let mut text = String::new();
    if unit == 0 {
        push_all(&mut text, decimal_chars(bytes).as_slice());
        text.append(" B");
        return text;
    }
    let n = bytes as u128 * 10;
    let q = n / scale;
    let r = n % scale;
    let tenths = if 2 * r > scale || (2 * r == scale && q % 2 == 1) {
        q + 1
    } else {
        q
    };
    assert(tenths <= 0xffff_ffff_ffff_ffff) by (nonlinear_arith)
        requires
            q == n / scale,
            n == bytes * 10,
            scale >= 0x400,
            tenths <= q + 1,
            bytes <= 0xffff_ffff_ffff_ffff,
    ;
    let tenths = tenths as u64;
    push_all(&mut text, decimal_chars(tenths / 10).as_slice());
    text.append(".");
    push_all(&mut text, decimal_chars(tenths % 10).as_slice());
    text.append(" ");
    text.append(name);
    text
}

/// Name of the temporary file ffmpeg writes into, next to the destination:
/// the destination's file name (or `clip.mp4` when it has none) followed by
/// `.compress`.
pub fn temp_file_name(file_name: Option<&str>) -> (name: String)
    ensures
        name@ == match file_name {
            Some(n) => n@,
            None => "clip.mp4"@,
        } + ".compress"@,
{
    let mut name = match file_name {
        Some(n) => String::from_str(n),
        None => String::from_str("clip.mp4"),
    };
    name.append(".compress");
    name
}

/// Explorer's arguments for opening a window with `path` selected:
/// `/select,"path"`. Quotes cannot occur in a Windows path, so quoting is
/// always safe.
pub fn select_parameters(path: &str) -> (parameters: String)
    ensures
        parameters@ == "/select,\""@ + path@ + "\""@,
{
    let mut parameters = String::from_str("/select,\"");
    parameters.append(path);
    parameters.append("\"");
    parameters
}

/// Compressed size the pass walks down to, in bytes: 5000 KiB.
pub const TARGET_BYTES: u64 = 5000 * 1024;
/// Starting video bitrate, in kbps.
pub const START_BITRATE: i64 = 5000;
/// How much each retry drops the bitrate, in kbps.
pub const BITRATE_STEP: i64 = 200;
/// Floor below which the video isn't worth keeping, in kbps.
pub const MIN_BITRATE: i64 = 200;

/// What a compression pass produced.
#[derive(Debug, Clone, Copy, PartialEq, Eq, Structural)]
pub struct CompressionOutcome {
    /// Size of the compressed file, in bytes.
    pub size: u64,
    /// True when the size target was reached.
    pub reached_target: bool,
}

/// What the worker reports back once it is done, however it ended.
#[derive(Debug, Clone)]
pub enum CompressionReport {
    /// The destination file is ready.
    Done(CompressionOutcome),
    /// ffmpeg failed; the destination is untouched.
    Failed(String),
    /// The user pressed cancel; the partial file was removed.
    Cancelled,
}

/// How a compression request begins.
#[derive(Debug, Clone, Copy, PartialEq, Eq, Structural)]
pub enum Opening {
    /// There is no ffmpeg to compress with.
    MissingFfmpeg,
    /// The whole clip is already under the target: it is copied across
    /// as it is (when the destination is another file) and reported done.
    AlreadySmall { copy: bool, size: u64 },
    /// Re-encode, starting at this bitrate in kbps.
    Encode { bitrate_kbps: i64 },
}

/// How a compression request begins: a trimmed range always re-encodes;
/// otherwise a clip already under the target is kept as it is.
pub open spec fn opening(ffmpeg_found: bool, source_size: u64, trimmed: bool, same_file: bool) -> Opening {
    if !ffmpeg_found {
        Opening::MissingFfmpeg
    } else if !trimmed && source_size < TARGET_BYTES {
        Opening::AlreadySmall { copy: !same_file, size: source_size }
    } else {
        Opening::Encode { bitrate_kbps: START_BITRATE }
    }
}

/// Decides how a compression request begins, from whether ffmpeg was found,
/// the source's size (0 when unreadable), whether a range was selected, and
/// whether source and destination are the same file.
pub fn plan_compression(ffmpeg_found: bool, source_size: u64, trimmed: bool, same_file: bool) -> (o: Opening)
    ensures
        o == opening(ffmpeg_found, source_size, trimmed, same_file),
{
    if !ffmpeg_found {
        Opening::MissingFfmpeg
    } else if !trimmed && source_size < TARGET_BYTES {
        Opening::AlreadySmall { copy: !same_file, size: source_size }
    } else {
        Opening::Encode { bitrate_kbps: START_BITRATE }
    }
}

/// What to do once an ffmpeg pass has written a file of some size.
#[derive(Debug, Clone, Copy, PartialEq, Eq, Structural)]
pub enum PassVerdict {
    /// Keep this result as the compressed clip.
    Keep(CompressionOutcome),
    /// Encode again at this lower bitrate, in kbps.
    Retry { bitrate_kbps: i64 },
}

/// The verdict on a pass at `bitrate_kbps` that produced `size` bytes: under
/// the target it is kept; otherwise the bitrate drops one step, and once
/// that would fall below the floor the smallest result is kept anyway.
pub open spec fn verdict(bitrate_kbps: i64, size: u64) -> PassVerdict {
    if size < TARGET_BYTES {
        PassVerdict::Keep(CompressionOutcome { size, reached_target: true })
    } else if bitrate_kbps - BITRATE_STEP < MIN_BITRATE {
        PassVerdict::Keep(CompressionOutcome { size, reached_target: false })
    } else {
        PassVerdict::Retry { bitrate_kbps: (bitrate_kbps - BITRATE_STEP) as i64 }
    }
}

/// Decides what follows a pass at `bitrate_kbps` that produced `size` bytes.
pub fn after_pass(bitrate_kbps: i64, size: u64) -> (v: PassVerdict)
    requires
        bitrate_kbps >= MIN_BITRATE,
    ensures
        v == verdict(bitrate_kbps, size),
{
    if size < TARGET_BYTES {
        return PassVerdict::Keep(CompressionOutcome { size, reached_target: true });
    }
    let next = bitrate_kbps - BITRATE_STEP;
    if next < MIN_BITRATE {
        PassVerdict::Keep(CompressionOutcome { size, reached_target: false })
    } else {
        PassVerdict::Retry { bitrate_kbps: next }
    }
}

/// The bitrate of the `n`-th pass (counting from 0): the start rate lowered
/// by one step per earlier pass.
pub open spec fn pass_bitrate(n: nat) -> int {
    START_BITRATE - BITRATE_STEP * n
}

/// The compression loop ends: starting at the start rate, every retry
/// lowers the rate by exactly one step and stays at or above the floor, so
/// at most 25 passes run (5000 kbps down to 200 kbps), and a result is kept
/// exactly when it is under the target or the floor is reached.
pub proof fn lemma_compression_terminates(n: nat, size: u64)
    requires
        pass_bitrate(n) >= MIN_BITRATE,
    ensures
        n < 25,
        match verdict(pass_bitrate(n) as i64, size) {
            PassVerdict::Retry { bitrate_kbps } => bitrate_kbps == pass_bitrate(n + 1)
                && bitrate_kbps >= MIN_BITRATE && n + 1 < 25,
            PassVerdict::Keep(outcome) => outcome.size == size && outcome.reached_target == (size
                < TARGET_BYTES) && (size >= TARGET_BYTES ==> n == 24),
        },
{
}

/// The decimal form of a signed number.
pub open spec fn signed_decimal(n: int) -> Seq<char> {
    if n < 0 {
        "-"@ + decimal((-n) as nat)
    } else {
        decimal(n as nat)
    }
}

/// Appends the decimal form of a signed number.
pub fn push_signed_decimal(s: &mut String, n: i64)
    ensures
        final(s)@ == old(s)@ + signed_decimal(n as int),
{
    if n < 0 {
        s.append("-");
        let magnitude: u64 = if n == i64::MIN {
            0x8000_0000_0000_0000
        } else {
            (-n) as u64
        };
        push_all(s, decimal_chars(magnitude).as_slice());
    } else {
        push_all(s, decimal_chars(n as u64).as_slice());
    }
}

/// The views of a list of strings.
pub open spec fn views(v: Seq<String>) -> Seq<Seq<char>> {
    v.map_values(|s: String| s@)
}

/// Command line for one compression pass: the video is re-encoded with
/// x264 at `bitrate_kbps`, the audio copied through, written as MP4 with
/// the index up front. A selected range is given as its start and length,
/// already written in seconds: the start seeks the input (`-ss` before
/// `-i`) and the length bounds the output (`-t` after it).
pub open spec fn pass_arguments(
    input: Seq<char>,
    output: Seq<char>,
    bitrate_kbps: int,
    range: Option<(Seq<char>, Seq<char>)>,
) -> Seq<Seq<char>> {
    let seek = match range {
        Some(r) => seq!["-ss"@, r.0],
        None => Seq::empty(),
    };
    let bound = match range {
        Some(r) => seq!["-t"@, r.1],
        None => Seq::empty(),
    };
    seq!["-y"@] + seek + seq!["-i"@, input] + bound + seq![
        "-c:v"@,
        "libx264"@,
        "-preset"@,
        "fast"@,
        "-b:v"@,
        signed_decimal(bitrate_kbps) + "k"@,
        "-c:a"@,
        "copy"@,
        "-movflags"@,
        "+faststart"@,
        "-f"@,
        "mp4"@,
        output,
    ]
}

/// Command line for one compression pass; see [`pass_arguments`].
pub fn ffmpeg_args(input: &str, output: &str, bitrate_kbps: i64, range: Option<(&str, &str)>) -> (args: Vec<String>)
    ensures
        views(args@) == pass_arguments(
            input@,
            output@,
            bitrate_kbps as int,
            match range {
                Some(r) => Some((r.0@, r.1@)),
                None => None,
            },
        ),
{
    let ghost rv = match range {
        Some(r) => Some((r.0@, r.1@)),
        None => None::<(Seq<char>, Seq<char>)>,
    };
    let mut args: Vec<String> = Vec::new();
    args.push(String::from_str("-y"));
    if let Some((start, _)) = range {
        args.push(String::from_str("-ss"));
        args.push(String::from_str(start));
    }
    args.push(String::from_str("-i"));
    args.push(String::from_str(input));
    if let Some((_, length)) = range {
        args.push(String::from_str("-t"));
        args.push(String::from_str(length));
    }
    let mut rate = String::new();
    push_signed_decimal(&mut rate, bitrate_kbps);
    rate.append("k");
    args.push(String::from_str("-c:v"));
    args.push(String::from_str("libx264"));
    args.push(String::from_str("-preset"));
    args.push(String::from_str("fast"));
    args.push(String::from_str("-b:v"));
    args.push(rate);
    args.push(String::from_str("-c:a"));
    args.push(String::from_str("copy"));
    args.push(String::from_str("-movflags"));
    args.push(String::from_str("+faststart"));
    args.push(String::from_str("-f"));
    args.push(String::from_str("mp4"));
    args.push(String::from_str(output));
    assert(views(args@) =~= pass_arguments(input@, output@, bitrate_kbps as int, rv));
    args
}

/// `s` without one trailing carriage return, when `terminated` says the
/// line was ended by a newline (as `str::lines` strips `\r\n`).
pub open spec fn without_cr(s: Seq<char>, terminated: bool) -> Seq<char> {
    if terminated && s.len() > 0 && s.last() == '\r' {
        s.drop_last()
    } else {
        s
    }
}

/// The last line of `text` with something other than white space on it,
/// as `str::lines` splits the text; `terminated` says whether `text` itself
/// was followed by a newline.
pub open spec fn last_nonblank_line(text: Seq<char>, terminated: bool) -> Option<Seq<char>>
    decreases text.len(),
{
    match last_index_of(text, '\n') {
        Some(k) => {
            let line = without_cr(text.skip(k + 1), terminated);
            if trimmed(line).len() > 0 {
                Some(line)
            } else {
                proof {
                    lemma_last_index_bound(text, '\n');
                }
                last_nonblank_line(text.take(k), true)
            }
        },
        None => {
            let line = without_cr(text, terminated);
            if trimmed(line).len() > 0 {
                Some(line)
            } else {
                None
            }
        },
    }
}

/// Where the last occurrence of a character sits, when there is one.
pub proof fn lemma_last_index_bound(s: Seq<char>, c: char)
    ensures
        match last_index_of(s, c) {
            Some(k) => 0 <= k < s.len() && s[k] == c && forall|j: int| k < j < s.len() ==> s[j] != c,
            None => forall|j: int| 0 <= j < s.len() ==> s[j] != c,
        },
    decreases s.len(),
{
    if s.len() > 0 {
        let t = s.drop_last();
        lemma_last_index_bound(t, c);
        if s.last() != c {
            assert forall|j: int| 0 <= j < t.len() implies t[j] == s[j] by {}
        }
    }
}

/// The summary shown for a failed ffmpeg run: the last non-blank line of
/// its error output (`fallback` when there is none), cut to 120 characters.
pub open spec fn error_summary(text: Seq<char>, fallback: Seq<char>) -> Seq<char> {
    let line = match last_nonblank_line(text, false) {
        Some(l) => l,
        None => fallback,
    };
    if line.len() > 120 {
        line.take(120)
    } else {
        line
    }
}

fn find_last_before(s: &[char], c: char, end: usize) -> (r: Option<usize>)
    requires
        end <= s@.len(),
    ensures
        match r {
            Some(i) => last_index_of(s@.take(end as int), c) == Some(i as int) && i < end,
            None => last_index_of(s@.take(end as int), c) is None,
        },
{
    let mut k: usize = end;
    while k > 0
        invariant
            k <= end,
            end <= s@.len(),
            last_index_of(s@.take(end as int), c) == last_index_of(s@.take(k as int), c),
        decreases k,
    {
        assert(s@.take(k as int).drop_last() == s@.take(k - 1));
        if s[k - 1] == c {
            return Some(k - 1);
        }
        k = k - 1;
    }
    None
}

/// The characters `v[lo..hi]`, without a final carriage return when
/// `terminated` is set.
pub(crate) fn line_chars(v: &[char], lo: usize, hi: usize, terminated: bool) -> (line: Vec<char>)
    requires
        lo <= hi <= v@.len(),
    ensures
        line@ == without_cr(v@.subrange(lo as int, hi as int), terminated),
{
    let stop = if terminated && hi > lo && v[hi - 1] == '\r' { hi - 1 } else { hi };
    let mut line: Vec<char> = Vec::new();
    let mut i = lo;
    while i < stop
        invariant
            lo <= i <= stop,
            stop <= hi <= v@.len(),
            line@ == v@.subrange(lo as int, i as int),
        decreases stop - i,
    {
        line.push(v[i]);
        assert(v@.subrange(lo as int, i + 1) == v@.subrange(lo as int, i as int).push(v@[i as int]));
        i = i + 1;
    }
    assert(line@ =~= without_cr(v@.subrange(lo as int, hi as int), terminated));
    line
}

fn last_nonblank(chars: &[char], end: usize, terminated: bool) -> (line: Option<Vec<char>>)
    requires
        end <= chars@.len(),
    ensures
        match line {
            Some(l) => last_nonblank_line(chars@.take(end as int), terminated) == Some(l@),
            None => last_nonblank_line(chars@.take(end as int), terminated) is None,
        },
    decreases end,
{
    let ghost cur = chars@.take(end as int);
    match find_last_before(chars, '\n', end) {
        Some(k) => {
            let line = line_chars(chars, k + 1, end, terminated);
            assert(cur.skip(k + 1) == chars@.subrange(k + 1, end as int));
            assert(cur.take(k as int) == chars@.take(k as int));
            if trim_chars(line.as_slice()).len() > 0 {
                Some(line)
            } else {
                last_nonblank(chars, k, true)
            }
        },
        None => {
            let line = line_chars(chars, 0, end, terminated);
            assert(cur == chars@.subrange(0, end as int));
            if trim_chars(line.as_slice()).len() > 0 {
                Some(line)
            } else {
                None
            }
        },
    }
}

/// Last non-empty line of ffmpeg's error output, clipped to a readable
/// length; `fallback` when every line is blank.
pub fn ffmpeg_error(text: &str, fallback: &str) -> (summary: String)
    ensures
        summary@ == error_summary(text@, fallback@),
{
    let chars = chars_of(text);
    assert(text@.take(chars@.len() as int) == text@);
    let line = match last_nonblank(chars.as_slice(), chars.len(), false) {
        Some(l) => l,
        None => chars_of(fallback),
    };
    let n = if line.len() > 120 { 120 } else { line.len() };
    let summary = string_of_range(line.as_slice(), 0, n);
    assert(summary@ =~= error_summary(text@, fallback@));
    summary
}

} // verus!
