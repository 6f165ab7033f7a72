//! Clip trimming before compression: the preview size, and what the clip's
//! banner says about it.

use vstd::prelude::*;
use vstd::string::StringExecFns;

use crate::text::{
    chars_of, contains, has_infix, has_prefix, is_space, is_space_char, leading_space, occurs_at, trimmed,
    parse_unsigned, parsed_unsigned, starts_with,
};
use crate::videos::{views, without_cr};

verus! {

/// Width of the preview box.
pub const PREVIEW_MAX_WIDTH: u32 = 436;
/// Height of the preview box.
pub const PREVIEW_MAX_HEIGHT: u32 = 240;

/// `n / d` rounded to the nearest integer, halves rounding up.
pub open spec fn rounded_quotient(n: int, d: int) -> int {
    (2 * n + d) / (2 * d)
}

/// `width` x `height` scaled to fit inside `max_width` x `max_height`,
/// keeping the aspect ratio: the tighter side fills the box exactly, the
/// other is scaled by the same factor and rounded to the nearest pixel
/// (halves up), and neither side drops below one pixel. A degenerate source
/// gets the whole box.
pub open spec fn fitted(width: int, height: int, max_width: int, max_height: int) -> (int, int) {
    let by_width = rounded_quotient(height * max_width, width);
    let by_height = rounded_quotient(width * max_height, height);
    if width == 0 || height == 0 {
        (max_width, max_height)
    } else if max_width * height <= max_height * width {
        (at_least_one(max_width), at_least_one(by_width))
    } else {
        (at_least_one(by_height), at_least_one(max_height))
    }
}

/// `x`, or 1 when it is not positive.
pub open spec fn at_least_one(x: int) -> int {
    if x > 0 {
        x
    } else {
        1
    }
}

/// Scales `width` x `height` down (or up) to fit inside `max_width` x
/// `max_height`, keeping the aspect ratio.
pub fn fit(width: u32, height: u32, max_width: u32, max_height: u32) -> (size: (u32, u32))
    ensures
        (size.0 as int, size.1 as int) == fitted(
            width as int,
            height as int,
            max_width as int,
            max_height as int,
        ),
{
    if width == 0 || height == 0 {
        return (max_width, max_height);
    }
    let w = width as u128;
    let h = height as u128;
    let mw = max_width as u128;
    let mh = max_height as u128;
    assert(mw * h <= 0xffff_ffff * 0xffff_ffff && mh * w <= 0xffff_ffff * 0xffff_ffff)
        by (nonlinear_arith)
        requires
            mw <= 0xffff_ffff,
            mh <= 0xffff_ffff,
            w <= 0xffff_ffff,
            h <= 0xffff_ffff,
    ;
    if mw * h <= mh * w {
        let q = (2 * (h * mw) + w) / (2 * w);
        assert(q <= mh) by (nonlinear_arith)
            requires
                q == (2 * (h * mw) + w) / (2 * w),
                mw * h <= mh * w,
                w > 0,
        ;
        let out_h: u32 = if q > 0 { q as u32 } else { 1 };
        let out_w: u32 = if max_width > 0 { max_width } else { 1 };
        (out_w, out_h)
    } else {
        let q = (2 * (w * mh) + h) / (2 * h);
        assert(q <= mw) by (nonlinear_arith)
            requires
                q == (2 * (w * mh) + h) / (2 * h),
                mw * h > mh * w,
                h > 0,
        ;
        let out_w: u32 = if q > 0 { q as u32 } else { 1 };
        let out_h: u32 = if max_height > 0 { max_height } else { 1 };
        (out_w, out_h)
    }
}

/// A non-degenerate source fitted into a non-empty box fits inside it and
/// fills it along at least one side.
pub proof fn lemma_fit_fills_box(width: int, height: int, max_width: int, max_height: int)
    requires
        width > 0,
        height > 0,
        max_width > 0,
        max_height > 0,
    ensures
        ({
            let (w, h) = fitted(width, height, max_width, max_height);
            &&& 1 <= w <= max_width
            &&& 1 <= h <= max_height
            &&& (w == max_width || h == max_height)
        }),
{
    if max_width * height <= max_height * width {
        let q = rounded_quotient(height * max_width, width);
        assert(q <= max_height) by (nonlinear_arith)
            requires
                q == (2 * (height * max_width) + width) / (2 * width),
                max_width * height <= max_height * width,
                width > 0,
        ;
    } else {
        let q = rounded_quotient(width * max_height, height);
        assert(q <= max_width) by (nonlinear_arith)
            requires
                q == (2 * (width * max_height) + height) / (2 * height),
                max_width * height > max_height * width,
                height > 0,
        ;
    }
}

/// Position of the first `c` in `s`, if any.
pub open spec fn first_index_of(s: Seq<char>, c: char) -> Option<int>
    decreases s.len(),
{
    if s.len() == 0 {
        None
    } else if s[0] == c {
        Some(0)
    } else {
        match first_index_of(s.drop_first(), c) {
            Some(i) => Some(i + 1),
            None => None,
        }
    }
}

/// Where the first occurrence of a character sits, when there is one.
pub proof fn lemma_first_index_bound(s: Seq<char>, c: char)
    ensures
        match first_index_of(s, c) {
            Some(k) => 0 <= k < s.len() && s[k] == c && forall|j: int| 0 <= j < k ==> s[j] != c,
            None => forall|j: int| 0 <= j < s.len() ==> s[j] != c,
        },
    decreases s.len(),
{
    if s.len() > 0 {
        lemma_first_index_bound(s.drop_first(), c);
        if s[0] != c {
            assert forall|j: int| 1 <= j < s.len() implies s[j] == s.drop_first()[j - 1] by {}
        }
    }
}

/// Whether a banner line describes the video stream.
pub open spec fn is_video_stream_line(line: Seq<char>) -> bool {
    has_prefix(line, "  Stream #"@) && has_infix(line, "Video:"@)
}

/// The first line of `text`, as `str::lines` splits it, that describes the
/// video stream.
pub open spec fn video_stream_line(text: Seq<char>) -> Option<Seq<char>>
    decreases text.len(),
{
    match first_index_of(text, '\n') {
        Some(k) => {
            let line = without_cr(text.take(k), true);
            if is_video_stream_line(line) {
                Some(line)
            } else {
                proof {
                    lemma_first_index_bound(text, '\n');
                }
                video_stream_line(text.skip(k + 1))
            }
        },
        None => if is_video_stream_line(text) {
            Some(text)
        } else {
            None
        },
    }
}

/// Number of characters before the first white space in `s`.
pub open spec fn word_len(s: Seq<char>) -> nat
    decreases s.len(),
{
    if s.len() > 0 && !is_space(s[0]) {
        1 + word_len(s.drop_first())
    } else {
        0
    }
}

/// A `WIDTHxHEIGHT` token: the text before the first `x` and the text after
/// it, both parsing as `u32` and both positive.
pub open spec fn token_size(token: Seq<char>) -> Option<(u32, u32)> {
    match first_index_of(token, 'x') {
        Some(p) => {
            let w = parsed_unsigned(token.take(p), 0xffff_ffff);
            let h = parsed_unsigned(token.skip(p + 1), 0xffff_ffff);
            if w is Some && h is Some && w.unwrap() > 0 && h.unwrap() > 0 {
                Some((w.unwrap() as u32, h.unwrap() as u32))
            } else {
                None
            }
        },
        None => None,
    }
}

/// The first white-space separated token of `s` that is a `WIDTHxHEIGHT`
/// size.
pub open spec fn first_size(s: Seq<char>) -> Option<(u32, u32)>
    decreases s.len(),
{
    let t = s.skip(leading_space(s) as int);
    if t.len() == 0 {
        None
    } else {
        let n = word_len(t);
        match token_size(t.take(n as int)) {
            Some(size) => Some(size),
            None => {
                proof {
                    lemma_word_len(t);
                    crate::text::lemma_leading_space_bound(s);
                }
                if n == 0 {
                    None
                } else {
                    first_size(t.skip(n as int))
                }
            },
        }
    }
}

/// Bounds on the length of the first word.
pub proof fn lemma_word_len(s: Seq<char>)
    ensures
        word_len(s) <= s.len(),
        forall|j: int| 0 <= j < word_len(s) ==> !is_space(#[trigger] s[j]),
        word_len(s) < s.len() ==> is_space(s[word_len(s) as int]),
    decreases s.len(),
{
    if s.len() > 0 && !is_space(s[0]) {
        lemma_word_len(s.drop_first());
        assert forall|j: int| 0 <= j < word_len(s) implies !is_space(#[trigger] s[j]) by {
            if j > 0 {
                assert(s[j] == s.drop_first()[j - 1]);
            }
        }
    }
}

proof fn lemma_word_len_at(s: Seq<char>, n: int)
    requires
        0 <= n <= s.len(),
        forall|j: int| 0 <= j < n ==> !is_space(s[j]),
        n == s.len() || is_space(s[n]),
    ensures
        word_len(s) == n,
    decreases n,
{
    if n > 0 {
        lemma_word_len_at(s.drop_first(), n - 1);
    }
}

fn find_first_from(s: &[char], c: char, start: usize) -> (r: Option<usize>)
    requires
        start <= s@.len(),
    ensures
        match r {
            Some(i) => start <= i < s@.len() && first_index_of(s@.skip(start as int), c) == Some(
                i - start,
            ),
            None => first_index_of(s@.skip(start as int), c) is None,
        },
{
    let mut i = start;
    while i < s.len()
        invariant
            start <= i <= s@.len(),
            forall|j: int| start <= j < i ==> s@[j] != c,
        decreases s.len() - i,
    {
        if s[i] == c {
            proof {
                let t = s@.skip(start as int);
                lemma_first_index_bound(t, c);
                assert(t[i - start] == c);
                match first_index_of(t, c) {
                    Some(k) => {
                        if k < i - start {
                            assert(t[k] == s@[start + k]);
                        }
                        if k > i - start {
                            assert(t[i - start] != c);
                        }
                    },
                    None => {},
                }
            }
            return Some(i);
        }
        i = i + 1;
    }
    proof {
        let t = s@.skip(start as int);
        lemma_first_index_bound(t, c);
        match first_index_of(t, c) {
            Some(k) => {
                assert(t[k] == s@[start + k]);
            },
            None => {},
        }
    }
    None
}

fn is_stream_line(line: &[char]) -> (r: bool)
    ensures
        r == is_video_stream_line(line@),
{
    let prefix = chars_of("  Stream #");
    let video = chars_of("Video:");
    starts_with(line, prefix.as_slice()) && contains(line, video.as_slice())
}

fn stream_line_from(chars: &[char], start: usize) -> (line: Option<Vec<char>>)
    requires
        start <= chars@.len(),
    ensures
        match line {
            Some(l) => video_stream_line(chars@.skip(start as int)) == Some(l@),
            None => video_stream_line(chars@.skip(start as int)) is None,
        },
    decreases chars@.len() - start,
{
    let ghost t = chars@.skip(start as int);
    match find_first_from(chars, '\n', start) {
        Some(k) => {
            let line = crate::videos::line_chars(chars, start, k, true);
            assert(t.take(k - start) == chars@.subrange(start as int, k as int));
            if is_stream_line(line.as_slice()) {
                Some(line)
            } else {
                assert(t.skip(k - start + 1) == chars@.skip(k + 1));
                let n = chars.len();
                assert(k < n);
                stream_line_from(chars, k + 1)
            }
        },
        None => {
            let line = crate::videos::line_chars(chars, start, chars.len(), false);
            assert(t == chars@.subrange(start as int, chars@.len() as int));
            if is_stream_line(line.as_slice()) {
                Some(line)
            } else {
                None
            }
        },
    }
}

fn token_size_of(line: &[char], lo: usize, hi: usize) -> (size: Option<(u32, u32)>)
    requires
        lo <= hi <= line@.len(),
    ensures
        size == token_size(line@.subrange(lo as int, hi as int)),
{
    let ghost tok = line@.subrange(lo as int, hi as int);
    let mut p = lo;
    while p < hi && line[p] != 'x'
        invariant
            lo <= p <= hi,
            hi <= line@.len(),
            forall|j: int| lo <= j < p ==> line@[j] != 'x',
        decreases hi - p,
    {
        p = p + 1;
    }
    proof {
        lemma_first_index_bound(tok, 'x');
        match first_index_of(tok, 'x') {
            Some(k) => {
                assert(tok[k] == line@[lo + k]);
                if p < hi {
                    assert(tok[p - lo] == 'x');
                }
            },
            None => {
                if p < hi {
                    assert(tok[p - lo] == 'x');
                }
            },
        }
    }
    if p == hi {
        return None;
    }
    let mut w_chars: Vec<char> = Vec::new();
    let mut i = lo;
    while i < p
        invariant
            lo <= i <= p,
            p < hi,
            hi <= line@.len(),
            w_chars@ == line@.subrange(lo as int, i as int),
        decreases p - i,
    {
        w_chars.push(line[i]);
        assert(line@.subrange(lo as int, i + 1) == line@.subrange(lo as int, i as int).push(line@[i as int]));
        i = i + 1;
    }
    let mut h_chars: Vec<char> = Vec::new();
    let mut i = p + 1;
    while i < hi
        invariant
            p + 1 <= i <= hi,
            hi <= line@.len(),
            h_chars@ == line@.subrange(p + 1, i as int),
        decreases hi - i,
    {
        h_chars.push(line[i]);
        assert(line@.subrange(p + 1, i + 1) == line@.subrange(p + 1, i as int).push(line@[i as int]));
        i = i + 1;
    }
    assert(tok.take(p - lo) == w_chars@);
    assert(tok.skip(p - lo + 1) == h_chars@);
    let w = parse_unsigned(w_chars.as_slice(), 0xffff_ffff);
    let h = parse_unsigned(h_chars.as_slice(), 0xffff_ffff);
    match (w, h) {
        (Some(w), Some(h)) => {
            if w > 0 && h > 0 {
                Some((w as u32, h as u32))
            } else {
                None
            }
        },
        _ => None,
    }
}

fn first_size_from(line: &[char], start: usize) -> (size: Option<(u32, u32)>)
    requires
        start <= line@.len(),
    ensures
        size == first_size(line@.skip(start as int)),
    decreases line@.len() - start,
{
    let ghost s = line@.skip(start as int);
    let mut i = start;
    while i < line.len() && is_space_char(line[i])
        invariant
            start <= i <= line@.len(),
            forall|j: int| start <= j < i ==> is_space(line@[j]),
        decreases line.len() - i,
    {
        i = i + 1;
    }
    proof {
        crate::text::lemma_leading_space(s, i - start);
        assert(s.skip(i - start) == line@.skip(i as int));
    }
    if i == line.len() {
        return None;
    }
    let mut j = i;
    while j < line.len() && !is_space_char(line[j])
        invariant
            i <= j <= line@.len(),
            forall|m: int| i <= m < j ==> !is_space(line@[m]),
        decreases line.len() - j,
    {
        j = j + 1;
    }
    let ghost t = line@.skip(i as int);
    proof {
        lemma_word_len_at(t, j - i);
        assert(t.take(j - i) == line@.subrange(i as int, j as int));
        assert(t.skip(j - i) == line@.skip(j as int));
    }
    match token_size_of(line, i, j) {
        Some(size) => Some(size),
        None => first_size_from(line, j),
    }
}

/// The first `WIDTHxHEIGHT` token on the video stream's banner line.
pub fn parse_resolution(stderr: &str) -> (size: Option<(u32, u32)>)
    ensures
        size == banner_resolution(stderr@),
{
    let chars = chars_of(stderr);
    assert(chars@.skip(0) == chars@);
    match stream_line_from(chars.as_slice(), 0) {
        Some(line) => {
            assert(line@.skip(0) == line@);
            first_size_from(line.as_slice(), 0)
        },
        None => None,
    }
}

/// Command line for the preview pass: decode the selected segment (start
/// and length already written in seconds) in real time (`-re`), without
/// audio, scaled to `width` x `height`, as raw RGBA frames on stdout.
pub open spec fn preview_arguments(path: Seq<char>, start: Seq<char>, length: Seq<char>, width: u32, height: u32) -> Seq<Seq<char>> {
    seq![
        "-hide_banner"@,
        "-loglevel"@,
        "error"@,
        "-ss"@,
        start,
        "-re"@,
        "-i"@,
        path,
        "-t"@,
        length,
        "-an"@,
        "-vf"@,
        "scale="@ + crate::text::decimal(width as nat) + ":"@ + crate::text::decimal(height as nat),
        "-f"@,
        "rawvideo"@,
        "-pix_fmt"@,
        "rgba"@,
        "-"@,
    ]
}

/// Command line for the preview pass; see [`preview_arguments`].
pub fn preview_args(path: &str, start: &str, length: &str, width: u32, height: u32) -> (args: Vec<String>)
    ensures
        views(args@) == preview_arguments(path@, start@, length@, width, height),
{
    let mut scale = String::from_str("scale=");
    crate::text::push_all(&mut scale, crate::text::decimal_chars(width as u64).as_slice());
    scale.append(":");
    crate::text::push_all(&mut scale, crate::text::decimal_chars(height as u64).as_slice());
    let mut args: Vec<String> = Vec::new();
    args.push(String::from_str("-hide_banner"));
    args.push(String::from_str("-loglevel"));
    args.push(String::from_str("error"));
    args.push(String::from_str("-ss"));
    args.push(String::from_str(start));
    args.push(String::from_str("-re"));
    args.push(String::from_str("-i"));
    args.push(String::from_str(path));
    args.push(String::from_str("-t"));
    args.push(String::from_str(length));
    args.push(String::from_str("-an"));
    args.push(String::from_str("-vf"));
    args.push(scale);
    args.push(String::from_str("-f"));
    args.push(String::from_str("rawvideo"));
    args.push(String::from_str("-pix_fmt"));
    args.push(String::from_str("rgba"));
    args.push(String::from_str("-"));
    assert(views(args@) =~= preview_arguments(path@, start@, length@, width, height));
    args
}


/// Whether a banner line carries the clip's duration: after its leading
/// white space it starts with `Duration: `.
pub open spec fn is_duration_line(line: Seq<char>) -> bool {
    has_prefix(line.skip(leading_space(line) as int), "Duration: "@)
}

/// The first line of `text`, as `str::lines` splits it, that carries the
/// clip's duration.
pub open spec fn duration_line(text: Seq<char>) -> Option<Seq<char>>
    decreases text.len(),
{
    match first_index_of(text, '\n') {
        Some(k) => {
            let line = without_cr(text.take(k), true);
            if is_duration_line(line) {
                Some(line)
            } else {
                proof {
                    lemma_first_index_bound(text, '\n');
                }
                duration_line(text.skip(k + 1))
            }
        },
        None => if is_duration_line(text) {
            Some(text)
        } else {
            None
        },
    }
}

/// The first position at or after `i` where `p` occurs in `s`.
pub open spec fn occurrence_from(s: Seq<char>, p: Seq<char>, i: int) -> Option<int>
    decreases s.len() + 1 - i,
{
    if i < 0 || i + p.len() > s.len() {
        None
    } else if occurs_at(s, p, i) {
        Some(i)
    } else {
        occurrence_from(s, p, i + 1)
    }
}

/// The first position in `lo..hi` where `s` holds `c`, or `hi`.
pub open spec fn char_from(s: Seq<char>, c: char, lo: int, hi: int) -> int
    decreases hi - lo,
{
    if lo >= hi {
        hi
    } else if s[lo] == c {
        lo
    } else {
        char_from(s, c, lo + 1, hi)
    }
}

/// The duration text of a duration line: what follows the first
/// `Duration: ` (up to a second one, as splitting on it would cut), up to
/// the first comma, trimmed.
pub open spec fn duration_value(line: Seq<char>) -> Option<Seq<char>> {
    let marker = "Duration: "@;
    match occurrence_from(line, marker, 0) {
        Some(i) => {
            let line_len = line.len();
    let start = i + marker.len();
            let end = match occurrence_from(line, marker, start) {
                Some(j) => j,
                None => line.len() as int,
            };
            Some(trimmed(line.subrange(start, char_from(line, ',', start, end))))
        },
        None => None,
    }
}

/// The hours, minutes and seconds fields of the duration the banner
/// reports, each trimmed: the first three `:`-separated parts of the
/// duration text; nothing when there is no duration line or fewer than
/// three parts.
pub open spec fn duration_parts(text: Seq<char>) -> Option<(Seq<char>, Seq<char>, Seq<char>)> {
    match duration_line(text) {
        Some(line) => match duration_value(line) {
            Some(v) => {
                let n = v.len() as int;
                let a = char_from(v, ':', 0, n);
                let b = char_from(v, ':', a + 1, n);
                let c = char_from(v, ':', b + 1, n);
                if a < n && b < n {
                    Some((trimmed(v.subrange(0, a)), trimmed(v.subrange(a + 1, b)), trimmed(v.subrange(b + 1, c))))
                } else {
                    None
                }
            },
            None => None,
        },
        None => None,
    }
}

fn find_char(s: &[char], c: char, lo: usize, hi: usize) -> (k: usize)
    requires
        lo <= hi <= s@.len(),
    ensures
        k == char_from(s@, c, lo as int, hi as int),
        lo <= k <= hi,
{
    let mut k = lo;
    while k < hi && s[k] != c
        invariant
            lo <= k <= hi,
            hi <= s@.len(),
            char_from(s@, c, lo as int, hi as int) == char_from(s@, c, k as int, hi as int),
        decreases hi - k,
    {
        k = k + 1;
    }
    k
}

fn find_pattern(s: &[char], p: &[char], start: usize) -> (r: Option<usize>)
    requires
        start <= s@.len(),
    ensures
        match r {
            Some(i) => occurrence_from(s@, p@, start as int) == Some(i as int) && i + p@.len() <= s@.len(),
            None => occurrence_from(s@, p@, start as int) is None,
        },
{
    let mut i = start;
    while i < s.len()
        invariant
            start <= i <= s@.len(),
            occurrence_from(s@, p@, start as int) == occurrence_from(s@, p@, i as int),
        decreases s@.len() - i,
    {
        if p.len() > s.len() - i {
            return None;
        }
        if crate::text::matches_at(s, p, i) {
            return Some(i);
        }
        i = i + 1;
    }
    if crate::text::matches_at(s, p, i) {
        Some(i)
    } else {
        assert(occurrence_from(s@, p@, i + 1) is None);
        None
    }
}

fn is_duration(line: &[char]) -> (r: bool)
    ensures
        r == is_duration_line(line@),
{
    let mut i: usize = 0;
    while i < line.len() && is_space_char(line[i])
        invariant
            i <= line@.len(),
            forall|j: int| 0 <= j < i ==> is_space(line@[j]),
        decreases line.len() - i,
    {
        i = i + 1;
    }
    proof {
        crate::text::lemma_leading_space(line@, i as int);
    }
    let marker = chars_of("Duration: ");
    let r = crate::text::matches_at(line, marker.as_slice(), i);
    proof {
        if marker@.len() <= line@.skip(i as int).len() {
            assert(line@.skip(i as int).take(marker@.len() as int) =~= line@.subrange(i as int, i + marker@.len()));
        }
    }
    r
}

fn duration_line_from(chars: &[char], start: usize) -> (line: Option<Vec<char>>)
    requires
        start <= chars@.len(),
    ensures
        match line {
            Some(l) => duration_line(chars@.skip(start as int)) == Some(l@),
            None => duration_line(chars@.skip(start as int)) is None,
        },
    decreases chars@.len() - start,
{
    let ghost t = chars@.skip(start as int);
    match find_first_from(chars, '\n', start) {
        Some(k) => {
            let line = crate::videos::line_chars(chars, start, k, true);
            assert(t.take(k - start) == chars@.subrange(start as int, k as int));
            if is_duration(line.as_slice()) {
                Some(line)
            } else {
                assert(t.skip(k - start + 1) == chars@.skip(k + 1));
                let n = chars.len();
                assert(k < n);
                duration_line_from(chars, k + 1)
            }
        },
        None => {
            let line = crate::videos::line_chars(chars, start, chars.len(), false);
            assert(t == chars@.subrange(start as int, chars@.len() as int));
            if is_duration(line.as_slice()) {
                Some(line)
            } else {
                None
            }
        },
    }
}

fn trimmed_part(v: &[char], lo: usize, hi: usize) -> (part: String)
    requires
        lo <= hi <= v@.len(),
    ensures
        part@ == trimmed(v@.subrange(lo as int, hi as int)),
{
    let mut piece: Vec<char> = Vec::new();
    let mut i = lo;
    while i < hi
        invariant
            lo <= i <= hi,
            hi <= v@.len(),
            piece@ == v@.subrange(lo as int, i as int),
        decreases hi - i,
    {
        piece.push(v[i]);
        assert(v@.subrange(lo as int, i + 1) == v@.subrange(lo as int, i as int).push(v@[i as int]));
        i = i + 1;
    }
    crate::text::string_of(crate::text::trim_chars(piece.as_slice()).as_slice())
}

/// The hours, minutes and seconds fields of the `Duration: 00:00:07.03`
/// line of ffmpeg's banner, as text; see [`duration_parts`]. Reading them
/// as numbers is left to the caller.
pub fn duration_fields(stderr: &str) -> (fields: Option<(String, String, String)>)
    ensures
        match fields {
            Some((h, m, s)) => duration_parts(stderr@) == Some((h@, m@, s@)),
            None => duration_parts(stderr@) is None,
        },
{
    let chars = chars_of(stderr);
    assert(chars@.skip(0) == chars@);
    let line = match duration_line_from(chars.as_slice(), 0) {
        Some(l) => l,
        None => return None,
    };
    let marker = chars_of("Duration: ");
    proof {
        reveal_strlit("Duration: ");
    }
    let i = match find_pattern(line.as_slice(), marker.as_slice(), 0) {
        Some(i) => i,
        None => return None,
    };
    let line_len = line.len();
    let start = i + marker.len();
    let end = match find_pattern(line.as_slice(), marker.as_slice(), start) {
        Some(j) => j,
        None => line_len,
    };
    proof {
        if start <= line@.len() {
            match occurrence_from(line@, marker@, start as int) {
                Some(j) => {
                    lemma_occurrence_bound(line@, marker@, start as int);
                },
                None => {},
            }
        }
    }
    let comma = find_char(line.as_slice(), ',', start, end);
    let field = trimmed_part(line.as_slice(), start, comma);
    let value = chars_of(field.as_str());
    let n = value.len();
    let a = find_char(value.as_slice(), ':', 0, n);
    if a >= n {
        return None;
    }
    let b = find_char(value.as_slice(), ':', a + 1, n);
    if b >= n {
        return None;
    }
    let c = find_char(value.as_slice(), ':', b + 1, n);
    Some((trimmed_part(value.as_slice(), 0, a), trimmed_part(value.as_slice(), a + 1, b), trimmed_part(value.as_slice(), b + 1, c)))
}

proof fn lemma_occurrence_bound(s: Seq<char>, p: Seq<char>, i: int)
    requires
        0 <= i,
    ensures
        match occurrence_from(s, p, i) {
            Some(j) => i <= j && j + p.len() <= s.len(),
            None => true,
        },
    decreases s.len() + 1 - i,
{
    if i + p.len() <= s.len() && !occurs_at(s, p, i) {
        lemma_occurrence_bound(s, p, i + 1);
    }
}

/// The video size the banner reports: the first `WIDTHxHEIGHT` token on the
/// video stream's line.
pub open spec fn banner_resolution(text: Seq<char>) -> Option<(u32, u32)> {
    match video_stream_line(text) {
        Some(line) => first_size(line),
        None => None,
    }
}

} // verus!
