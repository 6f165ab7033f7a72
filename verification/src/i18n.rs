//! Display languages and message lookup.
//!
//! Messages come from Fluent (FTL) sources, one per supported language. A
//! lookup tries the selected language, then English, then falls back to the
//! message id itself, so a missing key can never blank the UI.

use fluent::concurrent::FluentBundle;
use fluent::{FluentArgs, FluentResource};
use vstd::prelude::*;
use vstd::string::StringExecFns;

use crate::text::{ascii_lower, ascii_lowered, chars_of, contains, has_infix, has_prefix, starts_with, to_ascii_lower};

verus! {

/// Languages the UI can be displayed in.
#[derive(Debug, Clone, Copy, PartialEq, Eq, Structural)]
pub enum Language {
    SimplifiedChinese,
    TraditionalChinese,
    English,
}

/// Position of a language in the bundle order.
pub open spec fn language_index(language: Language) -> int {
    match language {
        Language::SimplifiedChinese => 0,
        Language::TraditionalChinese => 1,
        Language::English => 2,
    }
}

/// The BCP-47 code the config file stores for a language.
pub open spec fn language_code(language: Language) -> Seq<char> {
    match language {
        Language::SimplifiedChinese => "zh-CN"@,
        Language::TraditionalChinese => "zh-TW"@,
        Language::English => "en"@,
    }
}

/// The language a locale name maps to: English for `en…`, Chinese for
/// `zh…` (Traditional when the name mentions tw, hk, mo or hant), compared
/// without regard to ASCII case; nothing otherwise.
pub open spec fn language_for_code(code: Seq<char>) -> Option<Language> {
    let lower = ascii_lowered(code);
    if has_prefix(lower, "en"@) {
        Some(Language::English)
    } else if has_prefix(lower, "zh"@) {
        if has_infix(lower, "tw"@) || has_infix(lower, "hk"@) || has_infix(lower, "mo"@)
            || has_infix(lower, "hant"@) {
            Some(Language::TraditionalChinese)
        } else {
            Some(Language::SimplifiedChinese)
        }
    } else {
        None
    }
}

impl Language {
    /// Every supported language, in bundle order.
    pub fn all() -> (languages: [Language; 3])
        ensures
            languages@ == seq![
                Language::SimplifiedChinese,
                Language::TraditionalChinese,
                Language::English,
            ],
    {
        [Language::SimplifiedChinese, Language::TraditionalChinese, Language::English]
    }

    /// Position in the bundle order.
    pub fn index(self) -> (i: usize)
        ensures
            i == language_index(self),
    {
        match self {
            Language::SimplifiedChinese => 0,
            Language::TraditionalChinese => 1,
            Language::English => 2,
        }
    }

    /// The language at a position of the bundle order.
    pub fn from_index(i: usize) -> (language: Language)
        requires
            i < 3,
        ensures
            language_index(language) == i,
    {
        if i == 0 {
            Language::SimplifiedChinese
        } else if i == 1 {
            Language::TraditionalChinese
        } else {
            Language::English
        }
    }

    /// The BCP-47 code the config file stores.
    pub fn code(self) -> (code: &'static str)
        ensures
            code@ == language_code(self),
    {
        match self {
            Language::SimplifiedChinese => "zh-CN",
            Language::TraditionalChinese => "zh-TW",
            Language::English => "en",
        }
    }

    /// The language's own name, for the settings picker.
    pub fn label(self) -> (label: &'static str)
        ensures
            label@ == match self {
                Language::SimplifiedChinese => "简体中文"@,
                Language::TraditionalChinese => "繁體中文"@,
                Language::English => "English"@,
            },
    {
        match self {
            Language::SimplifiedChinese => "简体中文",
            Language::TraditionalChinese => "繁體中文",
            Language::English => "English",
        }
    }

    /// Maps a BCP-47-ish locale name to a supported language.
    pub fn from_code(code: &str) -> (language: Option<Language>)
        ensures
            language == language_for_code(code@),
    {
        let raw = chars_of(code);
        let lower = to_ascii_lower(raw.as_slice());
        let en = chars_of("en");
        let zh = chars_of("zh");
        proof {
            reveal_strlit("en");
            reveal_strlit("zh");
        }
        if starts_with(lower.as_slice(), en.as_slice()) {
            return Some(Language::English);
        }
        if starts_with(lower.as_slice(), zh.as_slice()) {
            let tw = chars_of("tw");
            let hk = chars_of("hk");
            let mo = chars_of("mo");
            let hant = chars_of("hant");
            let traditional = contains(lower.as_slice(), tw.as_slice()) || contains(
                lower.as_slice(),
                hk.as_slice(),
            ) || contains(lower.as_slice(), mo.as_slice()) || contains(
                lower.as_slice(),
                hant.as_slice(),
            );
            return Some(
                if traditional {
                    Language::TraditionalChinese
                } else {
                    Language::SimplifiedChinese
                },
            );
        }
        None
    }

    /// The best supported language for the OS locale, if one could be read:
    /// Simplified Chinese for locales that are not shipped.
    pub fn from_os(locale: Option<&str>) -> (language: Language)
        ensures
            language == (match locale {
                Some(code) => match language_for_code(code@) {
                    Some(l) => l,
                    None => Language::SimplifiedChinese,
                },
                None => Language::SimplifiedChinese,
            }),
    {
        match locale {
            Some(code) => match Language::from_code(code) {
                Some(l) => l,
                None => Language::SimplifiedChinese,
            },
            None => Language::SimplifiedChinese,
        }
    }
}

/// Every language's code maps back to the language.
pub proof fn lemma_code_round_trip(language: Language)
    ensures
        language_for_code(language_code(language)) == Some(language),
{
    reveal_strlit("zh-CN");
    reveal_strlit("zh-TW");
    reveal_strlit("en");
    reveal_strlit("zh");
    reveal_strlit("tw");
    reveal_strlit("hk");
    reveal_strlit("mo");
    reveal_strlit("hant");
    let lower = ascii_lowered(language_code(language));
    match language {
        Language::SimplifiedChinese => {
            assert(lower =~= seq!['z', 'h', '-', 'c', 'n']);
            assert(lower.take(2) =~= "zh"@);
            assert(lower.take(2)[0] != "en"@[0]);
            assert(!has_infix(lower, "tw"@)) by {
                assert forall|i: int| !crate::text::occurs_at(lower, "tw"@, i) by {
                    if 0 <= i && i + 2 <= 5 {
                        assert(lower.subrange(i, i + 2)[0] == lower[i]);
                        assert(lower.subrange(i, i + 2)[1] == lower[i + 1]);
                    }
                }
            }
            assert(!has_infix(lower, "hk"@)) by {
                assert forall|i: int| !crate::text::occurs_at(lower, "hk"@, i) by {
                    if 0 <= i && i + 2 <= 5 {
                        assert(lower.subrange(i, i + 2)[0] == lower[i]);
                        assert(lower.subrange(i, i + 2)[1] == lower[i + 1]);
                    }
                }
            }
            assert(!has_infix(lower, "mo"@)) by {
                assert forall|i: int| !crate::text::occurs_at(lower, "mo"@, i) by {
                    if 0 <= i && i + 2 <= 5 {
                        assert(lower.subrange(i, i + 2)[0] == lower[i]);
                        assert(lower.subrange(i, i + 2)[1] == lower[i + 1]);
                    }
                }
            }
            assert(!has_infix(lower, "hant"@)) by {
                assert forall|i: int| !crate::text::occurs_at(lower, "hant"@, i) by {
                    if 0 <= i && i + 4 <= 5 {
                        assert(lower.subrange(i, i + 4)[0] == lower[i]);
                        assert(lower.subrange(i, i + 4)[1] == lower[i + 1]);
                    }
                }
            }
        },
        Language::TraditionalChinese => {
            assert(lower =~= seq!['z', 'h', '-', 't', 'w']);
            assert(lower.take(2) =~= "zh"@);
            assert(lower.take(2)[0] != "en"@[0]);
            assert(crate::text::occurs_at(lower, "tw"@, 3)) by {
                assert(lower.subrange(3, 5) =~= "tw"@);
            }
        },
        Language::English => {
            assert(lower =~= seq!['e', 'n']);
            assert(lower.take(2) =~= "en"@);
        },
    }
}

/// Whether `marker` (lower case) stands in `code` at `at`, compared without
/// regard to ASCII case.
pub open spec fn mentions_at(code: Seq<char>, marker: Seq<char>, at: int) -> bool {
    &&& 0 <= at
    &&& at + marker.len() <= code.len()
    &&& forall|k: int| 0 <= k < marker.len() ==> ascii_lower(#[trigger] code[at + k]) == marker[k]
}

/// The markers of a Traditional Chinese locale name.
pub open spec fn traditional_marker(marker: Seq<char>) -> bool {
    marker == seq!['t', 'w'] || marker == seq!['h', 'k'] || marker == seq!['m', 'o'] || marker
        == seq!['h', 'a', 'n', 't']
}

proof fn lemma_mention_occurs(code: Seq<char>, marker: Seq<char>, at: int)
    requires
        mentions_at(code, marker, at),
    ensures
        crate::text::occurs_at(ascii_lowered(code), marker, at),
{
    let lower = ascii_lowered(code);
    assert forall|k: int| 0 <= k < marker.len() implies lower.subrange(at, at + marker.len())[k]
        == marker[k] by {
        assert(lower.subrange(at, at + marker.len())[k] == lower[at + k]);
        assert(ascii_lower(code[at + k]) == marker[k]);
    }
    assert(lower.subrange(at, at + marker.len()) =~= marker);
}

proof fn lemma_occurs_mention(code: Seq<char>, marker: Seq<char>, at: int)
    requires
        crate::text::occurs_at(ascii_lowered(code), marker, at),
    ensures
        mentions_at(code, marker, at),
{
    let lower = ascii_lowered(code);
    assert forall|k: int| 0 <= k < marker.len() implies ascii_lower(#[trigger] code[at + k]) == marker[k] by {
        assert(lower.subrange(at, at + marker.len())[k] == lower[at + k]);
    }
}

/// A Chinese locale name (one beginning with `zh`, in any ASCII case) that
/// mentions `tw`, `hk`, `mo` or `hant` anywhere, in any ASCII case, maps to
/// Traditional Chinese; one that mentions none of them maps to Simplified
/// Chinese. A name beginning with `en` maps to English, and a name that
/// begins with neither maps to no language.
pub proof fn lemma_locale_languages(code: Seq<char>)
    ensures
        mentions_at(code, seq!['e', 'n'], 0) ==> language_for_code(code) == Some(Language::English),
        mentions_at(code, seq!['z', 'h'], 0) ==> language_for_code(code) == Some(
            if exists|marker: Seq<char>, at: int|
                traditional_marker(marker) && #[trigger] mentions_at(code, marker, at) {
                Language::TraditionalChinese
            } else {
                Language::SimplifiedChinese
            },
        ),
        !mentions_at(code, seq!['e', 'n'], 0) && !mentions_at(code, seq!['z', 'h'], 0)
            ==> language_for_code(code) is None,
{
    reveal_strlit("en");
    reveal_strlit("zh");
    reveal_strlit("tw");
    reveal_strlit("hk");
    reveal_strlit("mo");
    reveal_strlit("hant");
    assert("en"@ =~= seq!['e', 'n']);
    assert("zh"@ =~= seq!['z', 'h']);
    assert("tw"@ =~= seq!['t', 'w']);
    assert("hk"@ =~= seq!['h', 'k']);
    assert("mo"@ =~= seq!['m', 'o']);
    assert("hant"@ =~= seq!['h', 'a', 'n', 't']);
    let lower = ascii_lowered(code);
    if mentions_at(code, seq!['e', 'n'], 0) {
        lemma_mention_occurs(code, seq!['e', 'n'], 0);
        assert(lower.subrange(0, 2) =~= lower.take(2));
    } else if crate::text::has_prefix(lower, "en"@) {
        assert(lower.subrange(0, 2) =~= lower.take(2));
        lemma_occurs_mention(code, seq!['e', 'n'], 0);
    }
    if mentions_at(code, seq!['z', 'h'], 0) {
        lemma_mention_occurs(code, seq!['z', 'h'], 0);
        assert(lower.subrange(0, 2) =~= lower.take(2));
        assert(lower.take(2)[0] != "en"@[0]);
        if exists|marker: Seq<char>, at: int|
            traditional_marker(marker) && #[trigger] mentions_at(code, marker, at) {
            let (marker, at) = choose|marker: Seq<char>, at: int|
                traditional_marker(marker) && #[trigger] mentions_at(code, marker, at);
            lemma_mention_occurs(code, marker, at);
        } else {
            assert forall|i: int| !crate::text::occurs_at(lower, "tw"@, i) by {
                if crate::text::occurs_at(lower, "tw"@, i) {
                    lemma_occurs_mention(code, "tw"@, i);
                    assert(traditional_marker("tw"@));
                }
            }
            assert forall|i: int| !crate::text::occurs_at(lower, "hk"@, i) by {
                if crate::text::occurs_at(lower, "hk"@, i) {
                    lemma_occurs_mention(code, "hk"@, i);
                    assert(traditional_marker("hk"@));
                }
            }
            assert forall|i: int| !crate::text::occurs_at(lower, "mo"@, i) by {
                if crate::text::occurs_at(lower, "mo"@, i) {
                    lemma_occurs_mention(code, "mo"@, i);
                    assert(traditional_marker("mo"@));
                }
            }
            assert forall|i: int| !crate::text::occurs_at(lower, "hant"@, i) by {
                if crate::text::occurs_at(lower, "hant"@, i) {
                    lemma_occurs_mention(code, "hant"@, i);
                    assert(traditional_marker("hant"@));
                }
            }
        }
    } else if crate::text::has_prefix(lower, "zh"@) {
        assert(lower.subrange(0, 2) =~= lower.take(2));
        lemma_occurs_mention(code, seq!['z', 'h'], 0);
    }
}

/// Most `{` and `(` characters an FTL source may hold. The Fluent parser
/// descends one level of recursion for every placeable (`{`) and every
/// call-argument list (`(`) it enters, with no depth limit of its own, so
/// bounding how many of these characters a source holds bounds how deep the
/// parser and the formatter can go.
pub const MAX_OPEN_MARKS: usize = 256;

/// Whether `c` opens a placeable or a call-argument list in FTL.
pub open spec fn is_open_mark(c: char) -> bool {
    c == '{' || c == '('
}

/// How many `{` and `(` characters `s` holds.
pub open spec fn open_marks(s: Seq<char>) -> nat
    decreases s.len(),
{
    if s.len() == 0 {
        0
    } else {
        open_marks(s.drop_last()) + if is_open_mark(s.last()) { 1nat } else { 0nat }
    }
}

/// Whether an FTL source is shallow enough to hand to the Fluent parser.
pub open spec fn shallow(source: Seq<char>) -> bool {
    open_marks(source) <= MAX_OPEN_MARKS
}

/// Whether an FTL source holds at most [`MAX_OPEN_MARKS`] `{` and `(`
/// characters.
pub fn is_shallow(source: &str) -> (ok: bool)
    ensures
        ok == shallow(source@),
{
    let chars = chars_of(source);
    let mut count: usize = 0;
    let mut i: usize = 0;
    while i < chars.len()
        invariant
            i <= chars@.len(),
            chars@ == source@,
            count == open_marks(chars@.take(i as int)),
            count <= MAX_OPEN_MARKS,
        decreases chars@.len() - i,
    {
        assert(chars@.take(i + 1).drop_last() == chars@.take(i as int));
        if chars[i] == '{' || chars[i] == '(' {
            if count == MAX_OPEN_MARKS {
                proof {
                    lemma_open_marks_prefix(chars@, i + 1);
                }
                return false;
            }
            count = count + 1;
        }
        i = i + 1;
    }
    assert(chars@.take(chars@.len() as int) == chars@);
    true
}

/// A prefix holds no more `{` and `(` characters than the whole text.
proof fn lemma_open_marks_prefix(s: Seq<char>, n: int)
    requires
        0 <= n <= s.len(),
    ensures
        open_marks(s.take(n)) <= open_marks(s),
    decreases s.len() - n,
{
    if n < s.len() {
        lemma_open_marks_prefix(s, n + 1);
        assert(s.take(n + 1).drop_last() == s.take(n));
    } else {
        assert(s.take(n) == s);
    }
}

/// Whether `c` may stand between the tokens of a placeable: the parser
/// skips spaces and line ends there (a lone `\r` is counted too).
pub open spec fn is_blank(c: char) -> bool {
    c == ' ' || c == '\n' || c == '\r'
}

/// Whether `c` is an ASCII decimal digit.
pub open spec fn is_digit(c: char) -> bool {
    48 <= (c as u32) <= 57
}

/// Whether `c` is an ASCII hexadecimal digit.
pub open spec fn is_hex(c: char) -> bool {
    is_digit(c) || (65 <= (c as u32) <= 70) || (97 <= (c as u32) <= 102)
}

/// The first position at or after `i` that does not hold a blank.
pub open spec fn skip_blanks(s: Seq<char>, i: int) -> int
    decreases s.len() - i,
{
    if 0 <= i < s.len() && is_blank(s[i]) {
        skip_blanks(s, i + 1)
    } else {
        i
    }
}

/// Where a string literal whose text starts at `i` ends: just past its
/// closing `"`, a backslash taking the character after it along; the end of
/// `s` when no closing quote follows.
pub open spec fn string_end(s: Seq<char>, i: int) -> int
    decreases s.len() - i,
{
    if i < 0 || i >= s.len() {
        s.len() as int
    } else if s[i] == '\\' {
        if i + 1 < s.len() {
            string_end(s, i + 2)
        } else {
            s.len() as int
        }
    } else if s[i] == '"' {
        i + 1
    } else {
        string_end(s, i + 1)
    }
}

/// The end of the run of digits and `.` that starts at `i`.
pub open spec fn digits_end(s: Seq<char>, i: int) -> int
    decreases s.len() - i,
{
    if 0 <= i < s.len() && (is_digit(s[i]) || s[i] == '.') {
        digits_end(s, i + 1)
    } else {
        i
    }
}

/// Where the string or number literal that starts at `j` ends, if one
/// starts there.
pub open spec fn literal_end(s: Seq<char>, j: int) -> Option<int> {
    if j < 0 || j >= s.len() {
        None
    } else if s[j] == '"' {
        Some(string_end(s, j + 1))
    } else if is_digit(s[j]) {
        Some(digits_end(s, j))
    } else if s[j] == '-' && j + 1 < s.len() && is_digit(s[j + 1]) {
        Some(digits_end(s, j + 1))
    } else {
        None
    }
}

/// Whether a select arrow `->` stands at `k`.
pub open spec fn arrow_at(s: Seq<char>, k: int) -> bool {
    0 <= k && k + 1 < s.len() && s[k] == '-' && s[k + 1] == '>'
}

/// Whether the placeable opened by the `{` at `p` neither opens another
/// placeable straight away nor selects on a literal: the first token after
/// the brace is not `{`, and when it is a string or number literal, no `->`
/// follows it.
pub open spec fn plain_placeable(s: Seq<char>, p: int) -> bool {
    let j = skip_blanks(s, p + 1);
    &&& !(0 <= j < s.len() && s[j] == '{')
    &&& match literal_end(s, j) {
        Some(e) => !arrow_at(s, skip_blanks(s, e)),
        None => true,
    }
}

/// Whether `n` hexadecimal digits stand from `a` on.
pub open spec fn hex_run(s: Seq<char>, a: int, n: int) -> bool {
    &&& 0 <= a
    &&& a + n <= s.len()
    &&& forall|k: int| a <= k < a + n ==> is_hex(#[trigger] s[k])
}

/// Whether a `\u` or `\U` escape at `i`, if one stands there, carries its
/// four or six hexadecimal digits.
pub open spec fn escape_complete(s: Seq<char>, i: int) -> bool {
    (0 <= i && i + 1 < s.len() && s[i] == '\\') ==> {
        &&& (s[i + 1] == 'u' ==> hex_run(s, i + 2, 4))
        &&& (s[i + 1] == 'U' ==> hex_run(s, i + 2, 6))
    }
}

/// What position `i` of an FTL source must satisfy: a `{` there opens a
/// plain placeable, and a Unicode escape there is complete.
pub open spec fn tame_at(s: Seq<char>, i: int) -> bool {
    &&& (s[i] == '{' ==> plain_placeable(s, i))
    &&& escape_complete(s, i)
}

/// Whether an FTL source stays within what this library hands to Fluent:
/// at most [`MAX_OPEN_MARKS`] `{` and `(`, no placeable that opens with
/// another placeable, no select on a string or number literal, and no
/// incomplete `\u`/`\U` escape.
///
/// The Fluent parser slices the source one byte past an incomplete Unicode
/// escape, which can split a character; and once a message resolves more
/// placeables than Fluent's own limit, the formatter writes an error text
/// for each enclosing placeable, which it cannot do for a nested placeable
/// or a literal selector. These sources are refused up front.
pub open spec fn tame(source: Seq<char>) -> bool {
    &&& shallow(source)
    &&& forall|i: int| 0 <= i < source.len() ==> tame_at(source, i)
}

fn is_blank_char(c: char) -> (b: bool)
    ensures
        b == is_blank(c),
{
    c == ' ' || c == '\n' || c == '\r'
}

fn is_digit_char(c: char) -> (b: bool)
    ensures
        b == is_digit(c),
{
    let v = c as u32;
    48 <= v && v <= 57
}

fn is_hex_char(c: char) -> (b: bool)
    ensures
        b == is_hex(c),
{
    let v = c as u32;
    (48 <= v && v <= 57) || (65 <= v && v <= 70) || (97 <= v && v <= 102)
}

fn skip_blanks_from(chars: &Vec<char>, i: usize) -> (j: usize)
    requires
        i <= chars@.len(),
    ensures
        j as int == skip_blanks(chars@, i as int),
        j <= chars@.len(),
{
    let mut k = i;
    while k < chars.len() && is_blank_char(chars[k])
        invariant
            i <= k <= chars@.len(),
            skip_blanks(chars@, k as int) == skip_blanks(chars@, i as int),
        decreases chars@.len() - k,
    {
        k = k + 1;
    }
    k
}

fn string_end_from(chars: &Vec<char>, i: usize) -> (e: usize)
    requires
        i <= chars@.len(),
    ensures
        e as int == string_end(chars@, i as int),
        e <= chars@.len(),
{
    let mut k = i;
    while k < chars.len()
        invariant
            i <= k <= chars@.len(),
            string_end(chars@, k as int) == string_end(chars@, i as int),
        decreases chars@.len() - k,
    {
        if chars[k] == '\\' {
            if k + 1 < chars.len() {
                k = k + 2;
            } else {
                return chars.len();
            }
        } else if chars[k] == '"' {
            return k + 1;
        } else {
            k = k + 1;
        }
    }
    chars.len()
}

fn digits_end_from(chars: &Vec<char>, i: usize) -> (e: usize)
    requires
        i <= chars@.len(),
    ensures
        e as int == digits_end(chars@, i as int),
        e <= chars@.len(),
{
    let mut k = i;
    while k < chars.len() && (is_digit_char(chars[k]) || chars[k] == '.')
        invariant
            i <= k <= chars@.len(),
            digits_end(chars@, k as int) == digits_end(chars@, i as int),
        decreases chars@.len() - k,
    {
        k = k + 1;
    }
    k
}

fn literal_end_from(chars: &Vec<char>, j: usize) -> (e: Option<usize>)
    requires
        j <= chars@.len(),
    ensures
        match e {
            Some(e) => literal_end(chars@, j as int) == Some(e as int) && e <= chars@.len(),
            None => literal_end(chars@, j as int) is None,
        },
{
    if j >= chars.len() {
        None
    } else if chars[j] == '"' {
        Some(string_end_from(chars, j + 1))
    } else if is_digit_char(chars[j]) {
        Some(digits_end_from(chars, j))
    } else if chars[j] == '-' && j + 1 < chars.len() && is_digit_char(chars[j + 1]) {
        Some(digits_end_from(chars, j + 1))
    } else {
        None
    }
}

fn is_plain_placeable(chars: &Vec<char>, p: usize) -> (ok: bool)
    requires
        p < chars@.len(),
    ensures
        ok == plain_placeable(chars@, p as int),
{
    let len = chars.len();
    let j = skip_blanks_from(chars, p + 1);
    if j < len && chars[j] == '{' {
        return false;
    }
    match literal_end_from(chars, j) {
        Some(e) => {
            let k = skip_blanks_from(chars, e);
            !(k < len && k + 1 < len && chars[k] == '-' && chars[k + 1] == '>')
        },
        None => true,
    }
}

fn is_hex_run(chars: &Vec<char>, a: usize, n: usize) -> (ok: bool)
    requires
        a <= chars@.len(),
        n <= 6,
    ensures
        ok == hex_run(chars@, a as int, n as int),
{
    let len = chars.len();
    if n > len - a {
        return false;
    }
    let mut k: usize = 0;
    while k < n
        invariant
            k <= n,
            len == chars@.len(),
            a + n <= chars@.len(),
            forall|m: int| a <= m < a + k ==> is_hex(#[trigger] chars@[m]),
        decreases n - k,
    {
        if !is_hex_char(chars[a + k]) {
            return false;
        }
        k = k + 1;
    }
    true
}

fn is_escape_complete(chars: &Vec<char>, i: usize) -> (ok: bool)
    requires
        i < chars@.len(),
    ensures
        ok == escape_complete(chars@, i as int),
{
    let len = chars.len();
    if i + 1 < len && chars[i] == '\\' {
        if chars[i + 1] == 'u' {
            return is_hex_run(chars, i + 2, 4);
        }
        if chars[i + 1] == 'U' {
            return is_hex_run(chars, i + 2, 6);
        }
    }
    true
}

/// Whether an FTL source is [`tame`]: few enough `{` and `(`, only plain
/// placeables, and only complete Unicode escapes.
pub fn is_tame(source: &str) -> (ok: bool)
    ensures
        ok == tame(source@),
{
    if !is_shallow(source) {
        return false;
    }
    let chars = chars_of(source);
    let mut i: usize = 0;
    while i < chars.len()
        invariant
            i <= chars@.len(),
            chars@ == source@,
            forall|p: int| 0 <= p < i ==> tame_at(source@, p),
        decreases chars@.len() - i,
    {
        if chars[i] == '{' && !is_plain_placeable(&chars, i) {
            assert(!tame_at(source@, i as int));
            return false;
        }
        if !is_escape_complete(&chars, i) {
            assert(!tame_at(source@, i as int));
            return false;
        }
        i = i + 1;
    }
    true
}

/// The text Fluent formats for message `id` from the FTL `source`, in a
/// bundle for `locale`, with the optional `{ $key }` argument; nothing when
/// the source has no such message or the message has no value. It names the
/// outcome of the whole chain of Fluent calls that `fluent_format` makes
/// (parse, bundle, lookup, format), not of a single function.
pub uninterp spec fn fluent_text(
    source: Seq<char>,
    locale: Seq<char>,
    id: Seq<char>,
    arg: Option<(Seq<char>, Seq<char>)>,
) -> Option<Seq<char>>;

/// The view of an optional message argument.
pub open spec fn arg_view(arg: Option<(&str, &str)>) -> Option<(Seq<char>, Seq<char>)> {
    match arg {
        Some(a) => Some((a.0@, a.1@)),
        None => None,
    }
}

/// The view of an optional string.
pub open spec fn opt_view(text: Option<String>) -> Option<Seq<char>> {
    match text {
        Some(t) => Some(t@),
        None => None,
    }
}

/// Whether the FTL `source` parses and loads into a bundle without errors.
pub uninterp spec fn fluent_loads(source: Seq<char>) -> bool;

/// Formats one message with Fluent.
///
/// Trusted: builds a concurrent `FluentBundle` for `locale` holding
/// `FluentResource::try_new(source)` (whatever part of the source parsed),
/// then `get_message(id)`, `FluentMessage::value` and `format_pattern` with
/// the argument, if any. The contract only claims that the text is the named
/// function of the four inputs; what Fluent makes of them is not stated. A
/// locale that does not parse as a language tag falls back to the default
/// (undetermined) tag. Only [`tame`] sources are handed over: on others the
/// parser or the formatter can panic or exhaust the stack.
#[verifier::external_body]
fn fluent_format(source: &str, locale: &str, id: &str, arg: Option<(&str, &str)>) -> (text: Option<String>)
    requires
        tame(source@),
    ensures
        match text {
            Some(t) => fluent_text(source@, locale@, id@, arg_view(arg))
                == Some(t@),
            None => fluent_text(source@, locale@, id@, arg_view(arg)) is None,
        },
{
    let resource = FluentResource::try_new(source.to_string()).unwrap_or_else(|(partial, _)| partial);
    let mut bundle = FluentBundle::new_concurrent(vec![locale.parse().unwrap_or_default()]);
    let _ = bundle.add_resource(resource);
    let args = arg.map(|(key, value)| {
        let mut args = FluentArgs::new();
        args.set(key, value);
        args
    });
    let pattern = bundle.get_message(id)?.value()?;
    Some(bundle.format_pattern(pattern, args.as_ref(), &mut Vec::new()).into_owned())
}

/// Checks that an FTL source loads cleanly.
///
/// Trusted: true exactly when `FluentResource::try_new(source)` reports no
/// parse error and `FluentBundle::add_resource` reports no error (such as a
/// message defined twice). The contract only ties the answer to the named
/// predicate.
/// Only [`tame`] sources are handed over, for the reason given at
/// `fluent_format`.
#[verifier::external_body]
fn fluent_check(source: &str) -> (ok: bool)
    requires
        tame(source@),
    ensures
        ok == fluent_loads(source@),
{
    match FluentResource::try_new(source.to_string()) {
        Ok(resource) => FluentBundle::new_concurrent(Vec::new()).add_resource(resource).is_ok(),
        Err(_) => false,
    }
}

/// A formatted message, unless it is missing or formats to nothing.
pub open spec fn usable(text: Option<Seq<char>>) -> Option<Seq<char>> {
    match text {
        Some(t) => if t.len() > 0 { Some(t) } else { None },
        None => None,
    }
}

/// The text shown for a message: the selected language's, else English's,
/// else the id itself.
pub open spec fn resolved(primary: Option<Seq<char>>, fallback: Option<Seq<char>>, id: Seq<char>) -> Seq<char> {
    match usable(primary) {
        Some(t) => t,
        None => match usable(fallback) {
            Some(t) => t,
            None => id,
        },
    }
}


/// A missing or empty message can never blank the UI: the text shown for a
/// non-empty id is never empty, and it is the selected language's text
/// whenever that is usable.
pub proof fn lemma_text_never_blank(primary: Option<Seq<char>>, fallback: Option<Seq<char>>, id: Seq<char>)
    requires
        id.len() > 0,
    ensures
        resolved(primary, fallback, id).len() > 0,
        usable(primary) matches Some(t) ==> resolved(primary, fallback, id) == t,
{
}

/// Picks the text shown for message `id` from its lookup in the selected
/// language and in English.
pub fn resolve_text(primary: Option<String>, fallback: Option<String>, id: &str) -> (text: String)
    ensures
        text@ == resolved(
            opt_view(primary),
            opt_view(fallback),
            id@,
        ),
{
    match primary {
        Some(t) => {
            if t.as_str().is_empty() {
                match fallback {
                    Some(f) => {
                        if f.as_str().is_empty() {
                            String::from_str(id)
                        } else {
                            f
                        }
                    },
                    None => String::from_str(id),
                }
            } else {
                t
            }
        },
        None => match fallback {
            Some(f) => {
                if f.as_str().is_empty() {
                    String::from_str(id)
                } else {
                    f
                }
            },
            None => String::from_str(id),
        },
    }
}

/// The message catalogs and the selected display language.
pub struct Localizer {
    current: Language,
    sources: Vec<String>,
}

impl View for Localizer {
    type V = (Language, Seq<Seq<char>>);

    closed spec fn view(&self) -> (Language, Seq<Seq<char>>) {
        (self.current, self.sources@.map_values(|s: String| s@))
    }
}

impl Localizer {
    /// Well-formed: one FTL source per language, in bundle order, each
    /// [`tame`].
    pub closed spec fn wf(&self) -> bool {
        &&& self.sources@.len() == 3
        &&& forall|i: int| 0 <= i < 3 ==> tame(#[trigger] self.sources@[i]@)
    }

    /// The selected language.
    pub open spec fn selected(&self) -> Language {
        self@.0
    }

    /// The FTL source of a language.
    pub open spec fn source_of(&self, language: Language) -> Seq<char> {
        self@.1[language_index(language)]
    }

    /// The text `tr_arg` gives for `id` with an optional argument.
    pub open spec fn text_for(&self, id: Seq<char>, arg: Option<(Seq<char>, Seq<char>)>) -> Seq<char> {
        resolved(
            fluent_text(self.source_of(self.selected()), language_code(self.selected()), id, arg),
            fluent_text(self.source_of(Language::English), language_code(Language::English), id, arg),
            id,
        )
    }

    /// Builds the catalogs from the FTL sources, given in bundle order
    /// (Simplified Chinese, Traditional Chinese, English), and selects
    /// `language`. Fails with the first language whose source is not
    /// [`tame`] or does not load.
    pub fn init(language: Language, sources: Vec<String>) -> (result: Result<Localizer, Language>)
        requires
            sources@.len() == 3,
        ensures
            match result {
                Ok(l) => {
                    &&& l.wf()
                    &&& l.selected() == language
                    &&& l@.1 == sources@.map_values(|s: String| s@)
                    &&& forall|i: int|
                        0 <= i < 3 ==> tame(#[trigger] sources@[i]@) && fluent_loads(sources@[i]@)
                },
                Err(bad) => {
                    &&& !(tame(sources@[language_index(bad)]@) && fluent_loads(sources@[language_index(bad)]@))
                    &&& forall|i: int|
                        0 <= i < language_index(bad) ==> tame(#[trigger] sources@[i]@) && fluent_loads(
                            sources@[i]@,
                        )
                },
            },
    {
        let mut i: usize = 0;
        while i < 3
            invariant
                i <= 3,
                sources@.len() == 3,
                forall|j: int| 0 <= j < i ==> tame(#[trigger] sources@[j]@) && fluent_loads(sources@[j]@),
            decreases 3 - i,
        {
            if !is_tame(sources[i].as_str()) || !fluent_check(sources[i].as_str()) {
                return Err(Language::from_index(i));
            }
            i = i + 1;
        }
        Ok(Localizer { current: language, sources })
    }

    /// Switches the display language.
    pub fn set(&mut self, language: Language)
        requires
            old(self).wf(),
        ensures
            final(self).wf(),
            final(self).selected() == language,
            final(self)@.1 == old(self)@.1,
    {
        self.current = language;
    }

    /// The selected display language.
    pub fn current(&self) -> (language: Language)
        ensures
            language == self.selected(),
    {
        self.current
    }

    fn lookup(&self, language: Language, id: &str, arg: Option<(&str, &str)>) -> (text: Option<String>)
        requires
            self.wf(),
        ensures
            opt_view(text) == fluent_text(
                self.source_of(language),
                language_code(language),
                id@,
                arg_view(arg),
            ),
    {
        let text = fluent_format(self.sources[language.index()].as_str(), language.code(), id, arg);
        proof {
            assert(self.sources@[language_index(language)]@ == self.source_of(language));
        }
        text
    }

    /// The message `id` in the selected language, falling back to English
    /// and then to the id itself.
    pub fn tr(&self, id: &str) -> (text: String)
        requires
            self.wf(),
        ensures
            text@ == self.text_for(id@, None),
    {
        let primary = self.lookup(self.current, id, None);
        let fallback = self.lookup(Language::English, id, None);
        resolve_text(primary, fallback, id)
    }

    /// Like [`Localizer::tr`], with one `{ $key }` argument filled in.
    pub fn tr_arg(&self, id: &str, key: &str, value: &str) -> (text: String)
        requires
            self.wf(),
        ensures
            text@ == self.text_for(id@, Some((key@, value@))),
    {
        let primary = self.lookup(self.current, id, Some((key, value)));
        let fallback = self.lookup(Language::English, id, Some((key, value)));
        resolve_text(primary, fallback, id)
    }
}

} // verus!
