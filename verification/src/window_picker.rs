//! Which top-level windows are offered as capture targets, how they are
//! labelled, and the picker panel's state.

use vstd::prelude::*;
use vstd::string::StringExecFns;

use crate::text::{ascii_lowered, chars_of, ends_with, has_suffix, string_of_range, to_ascii_lower};
use crate::videos::{push_signed_decimal, signed_decimal};

verus! {

/// Windows narrower than this are skipped: launchers, login prompts and
/// patcher dialogs rather than the game viewport.
pub const MIN_WINDOW_WIDTH: i32 = 800;

/// Executables that may be captured, each with its display alias. Keys are
/// lower case and compared without regard to ASCII case.
pub open spec fn process_aliases() -> Seq<(Seq<char>, Seq<char>)> {
    seq![
        ("maplestory.exe"@, "冒险岛正式服"@),
        ("maplestoryt.exe"@, "冒险岛测试服"@),
        ("maplestoryta.exe"@, "冒险岛测试服"@),
        ("maplestorym.exe"@, "冒险岛M"@),
        ("maplestoryn.exe"@, "冒险岛N"@),
        ("maplestory_classic.exe"@, "冒险岛怀旧服"@),
        ("msw.exe"@, "冒险岛世界"@),
    ]
}

/// The alias of the first allow-listed executable whose name equals
/// `exe_name` ignoring ASCII case.
pub open spec fn alias_in(table: Seq<(Seq<char>, Seq<char>)>, exe_name: Seq<char>) -> Option<Seq<char>>
    decreases table.len(),
{
    if table.len() == 0 {
        None
    } else if ascii_lowered(exe_name) == table[0].0 {
        Some(table[0].1)
    } else {
        alias_in(table.drop_first(), exe_name)
    }
}

/// Looks up the display alias for an executable name.
pub fn alias_for(exe_name: &str) -> (alias: Option<&'static str>)
    ensures
        match alias {
            Some(a) => alias_in(process_aliases(), exe_name@) == Some(a@),
            None => alias_in(process_aliases(), exe_name@) is None,
        },
{
    let lower = to_ascii_lower(chars_of(exe_name).as_slice());
    let ghost table = process_aliases();
    let keys: [&'static str; 7] = [
        "maplestory.exe",
        "maplestoryt.exe",
        "maplestoryta.exe",
        "maplestorym.exe",
        "maplestoryn.exe",
        "maplestory_classic.exe",
        "msw.exe",
    ];
    let aliases: [&'static str; 7] = [
        "冒险岛正式服",
        "冒险岛测试服",
        "冒险岛测试服",
        "冒险岛M",
        "冒险岛N",
        "冒险岛怀旧服",
        "冒险岛世界",
    ];
    let mut i: usize = 0;
    assert(table.len() == 7);
    assert(table.skip(0) == table);
    while i < 7
        invariant
            i <= 7,
            table == process_aliases(),
            table.len() == 7,
            lower@ == ascii_lowered(exe_name@),
            forall|j: int| 0 <= j < 7 ==> (#[trigger] keys@[j])@ == table[j].0 && aliases@[j]@ == table[j].1,
            alias_in(table, exe_name@) == alias_in(table.skip(i as int), exe_name@),
        decreases 7 - i,
    {
        let key = chars_of(keys[i]);
        let ghost rest = table.skip(i as int);
        assert(rest[0] == table[i as int]);
        assert(rest.drop_first() == table.skip(i + 1));
        if lower.len() == key.len() && crate::text::starts_with(lower.as_slice(), key.as_slice()) {
            assert(lower@ =~= key@);
            return Some(aliases[i]);
        }
        assert(lower@.take(lower@.len() as int) == lower@);
        assert(lower@ != key@);
        i = i + 1;
    }
    None
}

/// `name` without a `.exe` or `.EXE` suffix.
pub open spec fn without_exe(name: Seq<char>) -> Seq<char> {
    if has_suffix(name, ".exe"@) || has_suffix(name, ".EXE"@) {
        name.take(name.len() - 4)
    } else {
        name
    }
}

/// Executable name without the ".exe" suffix, e.g. "MapleStory".
pub fn strip_exe(name: &str) -> (stem: String)
    ensures
        stem@ == without_exe(name@),
{
    let chars = chars_of(name);
    let lower_ext = chars_of(".exe");
    let upper_ext = chars_of(".EXE");
    proof {
        reveal_strlit(".exe");
        reveal_strlit(".EXE");
    }
    if ends_with(chars.as_slice(), lower_ext.as_slice()) || ends_with(chars.as_slice(), upper_ext.as_slice()) {
        string_of_range(chars.as_slice(), 0, chars.len() - 4)
    } else {
        String::from_str(name)
    }
}

/// The file-name component of a process image path: whatever follows the
/// last `\\` or `/`, when that is not empty.
pub open spec fn image_name(path: Seq<char>) -> Option<Seq<char>>
    decreases path.len(),
{
    if path.len() == 0 {
        None
    } else if path.last() == '\\' || path.last() == '/' {
        None
    } else {
        match image_name(path.drop_last()) {
            Some(name) => Some(name.push(path.last())),
            None => Some(seq![path.last()]),
        }
    }
}

/// The executable file name at the end of a process image path, e.g.
/// "MapleStory.exe".
pub fn image_file_name(path: &str) -> (name: Option<String>)
    ensures
        match name {
            Some(n) => image_name(path@) == Some(n@),
            None => image_name(path@) is None,
        },
{
    let chars = chars_of(path);
    let mut start: usize = chars.len();
    while start > 0 && chars[start - 1] != '\\' && chars[start - 1] != '/'
        invariant
            start <= chars@.len(),
            chars@ == path@,
            forall|j: int| start <= j < chars@.len() ==> chars@[j] != '\\' && chars@[j] != '/',
        decreases start,
    {
        start = start - 1;
    }
    proof {
        lemma_image_name(chars@, start as int);
    }
    if start == chars.len() {
        None
    } else {
        Some(string_of_range(chars.as_slice(), start, chars.len()))
    }
}

proof fn lemma_image_name(path: Seq<char>, start: int)
    requires
        0 <= start <= path.len(),
        forall|j: int| start <= j < path.len() ==> path[j] != '\\' && path[j] != '/',
        start == 0 || path[start - 1] == '\\' || path[start - 1] == '/',
    ensures
        image_name(path) == (if start == path.len() {
            None
        } else {
            Some(path.subrange(start, path.len() as int))
        }),
    decreases path.len(),
{
    if path.len() > 0 && start < path.len() {
        let t = path.drop_last();
        lemma_image_name(t, start);
        if start < t.len() {
            assert(path.subrange(start, path.len() as int) =~= t.subrange(start, t.len() as int).push(
                path.last(),
            ));
        } else {
            assert(path.subrange(start, path.len() as int) =~= seq![path.last()]);
        }
    }
}

/// The label a window gets in the list, or `None` when it is not listed:
/// allow-listed executables get their alias, any other executable is
/// listed under its name without `.exe` only when other windows are
/// included.
pub open spec fn listing_label(process: Seq<char>, include_others: bool) -> Option<Seq<char>> {
    match alias_in(process_aliases(), process) {
        Some(alias) => Some(alias),
        None => if include_others {
            Some(without_exe(process))
        } else {
            None
        },
    }
}

/// An allow-listed executable is always listed under its alias, whether or
/// not other windows are included; including other windows only adds the
/// executables that are not allow-listed, under their names without `.exe`,
/// and never drops or relabels a window that was listed without them.
pub proof fn lemma_alias_wins(process: Seq<char>)
    ensures
        alias_in(process_aliases(), process) matches Some(a) ==> {
            &&& listing_label(process, false) == Some(a)
            &&& listing_label(process, true) == Some(a)
        },
        alias_in(process_aliases(), process) is None ==> {
            &&& listing_label(process, false) is None
            &&& listing_label(process, true) == Some(without_exe(process))
        },
        listing_label(process, false) is Some ==> listing_label(process, true) == listing_label(
            process,
            false,
        ),
{
}

/// The label a window owned by `process` is listed under, if it is listed.
pub fn listing_alias(process: &str, include_others: bool) -> (label: Option<String>)
    ensures
        match label {
            Some(l) => listing_label(process@, include_others) == Some(l@),
            None => listing_label(process@, include_others) is None,
        },
{
    match alias_for(process) {
        Some(alias) => Some(String::from_str(alias)),
        None => {
            if include_others {
                Some(strip_exe(process))
            } else {
                None
            }
        },
    }
}

/// Whether a window of this width is wide enough to be a game viewport.
pub fn wide_enough(width: i32) -> (r: bool)
    ensures
        r == (width >= MIN_WINDOW_WIDTH),
{
    width >= MIN_WINDOW_WIDTH
}

/// A window that can be picked as a capture target.
#[derive(Debug)]
pub struct WindowEntry {
    /// Raw window handle value, used by the capture backend.
    pub hwnd: isize,
    pub title: String,
    /// Size in physical pixels, for display in the list.
    pub width: i32,
    pub height: i32,
    /// Whether the window is currently minimised.
    pub minimized: bool,
    /// Owning executable name, e.g. "MapleStory.exe".
    pub process: String,
    /// Display label: the allow-listed alias when known, otherwise the
    /// process name without its extension.
    pub alias: String,
}

/// The abstract content of a window entry.
pub struct WindowEntryView {
    pub hwnd: isize,
    pub title: Seq<char>,
    pub width: i32,
    pub height: i32,
    pub minimized: bool,
    pub process: Seq<char>,
    pub alias: Seq<char>,
}

impl View for WindowEntry {
    type V = WindowEntryView;

    open spec fn view(&self) -> WindowEntryView {
        WindowEntryView {
            hwnd: self.hwnd,
            title: self.title@,
            width: self.width,
            height: self.height,
            minimized: self.minimized,
            process: self.process@,
            alias: self.alias@,
        }
    }
}

/// Short "1920×1080" style description of a window's size.
pub open spec fn dimensions_text(w: WindowEntryView) -> Seq<char> {
    if w.minimized {
        "已最小化"@
    } else {
        signed_decimal(w.width as int) + "\u{00D7}"@ + signed_decimal(w.height as int)
    }
}

impl WindowEntry {
    /// A copy of this entry.
    pub fn duplicate(&self) -> (copy: WindowEntry)
        ensures
            copy@ == self@,
    {
        WindowEntry {
            hwnd: self.hwnd,
            title: self.title.clone(),
            width: self.width,
            height: self.height,
            minimized: self.minimized,
            process: self.process.clone(),
            alias: self.alias.clone(),
        }
    }

    /// Short "1920×1080" style description.
    pub fn dimensions(&self) -> (text: String)
        ensures
            text@ == dimensions_text(self@),
    {
        if self.minimized {
            String::from_str("已最小化")
        } else {
            let mut text = String::new();
            push_signed_decimal(&mut text, self.width as i64);
            text.append("\u{00D7}");
            push_signed_decimal(&mut text, self.height as i64);
            text
        }
    }

    /// Executable name without the ".exe" suffix.
    pub fn process_label(&self) -> (label: String)
        ensures
            label@ == without_exe(self.process@),
    {
        strip_exe(self.process.as_str())
    }

    /// Secondary line: "MapleStoryTA · 1920×1080".
    pub fn detail(&self) -> (text: String)
        ensures
            text@ == without_exe(self.process@) + " \u{00B7} "@ + dimensions_text(self@),
    {
        let mut text = self.process_label();
        text.append(" \u{00B7} ");
        text.append(self.dimensions().as_str());
        text
    }
}

/// The windows of a list as views.
pub open spec fn entry_views(list: Seq<WindowEntry>) -> Seq<WindowEntryView> {
    list.map_values(|w: WindowEntry| w@)
}

/// The first window of a list with the given handle.
pub open spec fn first_with_handle(list: Seq<WindowEntryView>, hwnd: isize) -> Option<WindowEntryView>
    decreases list.len(),
{
    if list.len() == 0 {
        None
    } else if list[0].hwnd == hwnd {
        Some(list[0])
    } else {
        first_with_handle(list.drop_first(), hwnd)
    }
}

/// A copy of the first window of the list with handle `hwnd`.
fn find_by_handle(windows: &Vec<WindowEntry>, hwnd: isize) -> (found: Option<WindowEntry>)
    ensures
        match found {
            Some(w) => first_with_handle(entry_views(windows@), hwnd) == Some(w@),
            None => first_with_handle(entry_views(windows@), hwnd) is None,
        },
{
    let ghost list = entry_views(windows@);
    let mut i: usize = 0;
    assert(list.skip(0) == list);
    while i < windows.len()
        invariant
            i <= windows.len(),
            list == entry_views(windows@),
            first_with_handle(list, hwnd) == first_with_handle(list.skip(i as int), hwnd),
        decreases windows.len() - i,
    {
        assert(list.skip(i as int)[0] == list[i as int]);
        assert(list.skip(i as int).drop_first() == list.skip(i + 1));
        if windows[i].hwnd == hwnd {
            return Some(windows[i].duplicate());
        }
        i = i + 1;
    }
    assert(list.skip(i as int).len() == 0);
    None
}


/// The lower-case form of `s` as `str::to_lowercase` produces it (Unicode
/// lower-casing, which can change the length).
pub uninterp spec fn lowercase(s: Seq<char>) -> Seq<char>;

/// `str::to_lowercase`.
#[verifier::external_body]
fn lowercased(s: &str) -> (lower: String)
    ensures
        lower@ == lowercase(s@),
{
    s.to_lowercase()
}

/// Whether `a` sorts before `b` as strings compare: character by character
/// by code point, a proper prefix first. (UTF-8 keeps code-point order, so
/// this is the byte order `String`'s `Ord` uses.)
pub open spec fn text_less(a: Seq<char>, b: Seq<char>) -> bool
    decreases a.len(),
{
    if a.len() == 0 {
        b.len() > 0
    } else if b.len() == 0 {
        false
    } else if a[0] != b[0] {
        a[0] < b[0]
    } else {
        text_less(a.drop_first(), b.drop_first())
    }
}

proof fn lemma_text_less_trans(a: Seq<char>, b: Seq<char>, c: Seq<char>)
    requires
        text_less(a, b),
        text_less(b, c),
    ensures
        text_less(a, c),
    decreases a.len(),
{
    if a.len() > 0 && b.len() > 0 && c.len() > 0 && a[0] == b[0] && b[0] == c[0] {
        lemma_text_less_trans(a.drop_first(), b.drop_first(), c.drop_first());
    }
}

proof fn lemma_text_less_irreflexive(a: Seq<char>)
    ensures
        !text_less(a, a),
    decreases a.len(),
{
    if a.len() > 0 {
        lemma_text_less_irreflexive(a.drop_first());
    }
}

/// Compares two texts as strings compare.
fn chars_less(a: &[char], b: &[char]) -> (less: bool)
    ensures
        less == text_less(a@, b@),
{
    let mut i: usize = 0;
    assert(a@.skip(0) =~= a@);
    assert(b@.skip(0) =~= b@);
    while i < a.len() && i < b.len()
        invariant
            i <= a@.len(),
            i <= b@.len(),
            text_less(a@, b@) == text_less(a@.skip(i as int), b@.skip(i as int)),
        decreases a@.len() - i,
    {
        if a[i] != b[i] {
            assert(a@.skip(i as int)[0] == a@[i as int]);
            assert(b@.skip(i as int)[0] == b@[i as int]);
            return a[i] < b[i];
        }
        assert(a@.skip(i as int).drop_first() =~= a@.skip(i + 1));
        assert(b@.skip(i as int).drop_first() =~= b@.skip(i + 1));
        i = i + 1;
    }
    i < b.len()
}

/// Whether two texts are equal.
fn chars_equal(a: &[char], b: &[char]) -> (same: bool)
    ensures
        same == (a@ == b@),
{
    if a.len() != b.len() {
        return false;
    }
    let mut i: usize = 0;
    while i < a.len()
        invariant
            i <= a@.len(),
            a@.len() == b@.len(),
            forall|k: int| 0 <= k < i ==> a@[k] == b@[k],
        decreases a@.len() - i,
    {
        if a[i] != b[i] {
            return false;
        }
        i = i + 1;
    }
    assert(a@ =~= b@);
    true
}

/// The key windows are listed by: the title, lower-cased.
pub open spec fn title_key(w: WindowEntryView) -> Seq<char> {
    lowercase(w.title)
}

/// Where a window goes in a list ordered by title: before the first window
/// whose title sorts after it, so that equal titles keep their order.
pub open spec fn title_slot(list: Seq<WindowEntryView>, item: WindowEntryView) -> int
    decreases list.len(),
{
    if list.len() == 0 {
        0
    } else if text_less(title_key(item), title_key(list[0])) {
        0
    } else {
        1 + title_slot(list.drop_first(), item)
    }
}

/// The windows ordered by lower-cased title; equal titles keep their order.
pub open spec fn by_title(list: Seq<WindowEntryView>) -> Seq<WindowEntryView>
    decreases list.len(),
{
    if list.len() == 0 {
        Seq::empty()
    } else {
        let rest = by_title(list.drop_last());
        rest.insert(title_slot(rest, list.last()), list.last())
    }
}

proof fn lemma_title_slot(list: Seq<WindowEntryView>, item: WindowEntryView, p: int)
    requires
        0 <= p <= list.len(),
        forall|k: int| 0 <= k < p ==> !text_less(title_key(item), #[trigger] title_key(list[k])),
        p < list.len() ==> text_less(title_key(item), title_key(list[p])),
    ensures
        title_slot(list, item) == p,
    decreases list.len(),
{
    if list.len() > 0 && p > 0 {
        let tail = list.drop_first();
        assert forall|k: int| 0 <= k < p - 1 implies !text_less(title_key(item), #[trigger] title_key(tail[k])) by {
            assert(tail[k] == list[k + 1]);
        }
        if p - 1 < tail.len() {
            assert(tail[p - 1] == list[p]);
        }
        lemma_title_slot(tail, item, p - 1);
    }
}

proof fn lemma_title_slot_spec(list: Seq<WindowEntryView>, item: WindowEntryView)
    ensures
        0 <= title_slot(list, item) <= list.len(),
        forall|k: int| 0 <= k < title_slot(list, item) ==> !text_less(title_key(item), #[trigger] title_key(list[k])),
        title_slot(list, item) < list.len() ==> text_less(title_key(item), title_key(list[title_slot(list, item)])),
    decreases list.len(),
{
    if list.len() > 0 && !text_less(title_key(item), title_key(list[0])) {
        let tail = list.drop_first();
        lemma_title_slot_spec(tail, item);
        assert forall|k: int| 0 <= k < title_slot(list, item) implies !text_less(title_key(item), #[trigger] title_key(list[k])) by {
            if k > 0 {
                assert(list[k] == tail[k - 1]);
            }
        }
        if title_slot(list, item) < list.len() {
            assert(list[title_slot(list, item)] == tail[title_slot(tail, item)]);
        }
    }
}

/// No window of `list` has a title that sorts before an earlier one's.
pub open spec fn is_by_title(list: Seq<WindowEntryView>) -> bool {
    forall|i: int, j: int| 0 <= i < j < list.len() ==> !text_less(#[trigger] title_key(list[j]), #[trigger] title_key(list[i]))
}

proof fn lemma_title_insert_keeps_order(rest: Seq<WindowEntryView>, x: WindowEntryView)
    requires
        is_by_title(rest),
    ensures
        is_by_title(rest.insert(title_slot(rest, x), x)),
{
    let p = title_slot(rest, x);
    lemma_title_slot_spec(rest, x);
    let r = rest.insert(p, x);
    assert forall|i: int, j: int| 0 <= i < j < r.len() implies !text_less(#[trigger] title_key(r[j]), #[trigger] title_key(r[i])) by {
        if i < p && j < p {
            assert(r[i] == rest[i] && r[j] == rest[j]);
        } else if i < p && j == p {
            assert(r[i] == rest[i]);
        } else if i < p {
            assert(r[i] == rest[i] && r[j] == rest[j - 1]);
        } else if i == p {
            assert(r[j] == rest[j - 1]);
            if text_less(title_key(rest[j - 1]), title_key(x)) {
                lemma_text_less_trans(title_key(rest[j - 1]), title_key(x), title_key(rest[p]));
                if j - 1 == p {
                    lemma_text_less_irreflexive(title_key(rest[p]));
                }
            }
        } else {
            assert(r[i] == rest[i - 1] && r[j] == rest[j - 1]);
        }
    }
}

/// The picker lists windows in title order.
pub proof fn lemma_by_title_sorted(list: Seq<WindowEntryView>)
    ensures
        is_by_title(by_title(list)),
    decreases list.len(),
{
    if list.len() > 0 {
        lemma_by_title_sorted(list.drop_last());
        lemma_title_insert_keeps_order(by_title(list.drop_last()), list.last());
    }
}

/// Ordering the windows neither loses nor duplicates one.
pub proof fn lemma_by_title_keeps_windows(list: Seq<WindowEntryView>)
    ensures
        by_title(list).to_multiset() == list.to_multiset(),
    decreases list.len(),
{
    broadcast use vstd::seq_lib::group_to_multiset_ensures;

    if list.len() > 0 {
        let rest = by_title(list.drop_last());
        lemma_by_title_keeps_windows(list.drop_last());
        lemma_title_slot_spec(rest, list.last());
        assert(list.drop_last().push(list.last()) =~= list);
    }
}

/// Orders the enumerated windows by title, ignoring case; windows with equal
/// titles keep their order.
pub fn sort_by_title(windows: Vec<WindowEntry>) -> (sorted: Vec<WindowEntry>)
    ensures
        entry_views(sorted@) == by_title(entry_views(windows@)),
{
    let ghost input = entry_views(windows@);
    let mut rest = windows;
    let mut sorted: Vec<WindowEntry> = Vec::new();
    let mut keys: Vec<Vec<char>> = Vec::new();
    let ghost mut taken: int = 0;
    assert(input.take(0) =~= Seq::<WindowEntryView>::empty());
    while rest.len() > 0
        invariant
            0 <= taken <= input.len(),
            entry_views(rest@) == input.skip(taken),
            entry_views(sorted@) == by_title(input.take(taken)),
            keys@.len() == sorted@.len(),
            forall|k: int| 0 <= k < keys@.len() ==> #[trigger] keys@[k]@ == title_key(sorted@[k]@),
        decreases rest@.len(),
    {
        let ghost pre = rest@;
        proof {
            assert(entry_views(pre).len() == pre.len());
            assert(taken < input.len());
            assert(entry_views(pre)[0] == pre[0]@);
            assert(input.skip(taken)[0] == input[taken]);
        }
        let item = rest.remove(0);
        proof {
            assert(entry_views(rest@) =~= input.skip(taken + 1)) by {
                assert forall|k: int| 0 <= k < rest@.len() implies #[trigger] entry_views(rest@)[k] == input.skip(taken + 1)[k] by {
                    assert(rest@[k] == pre[k + 1]);
                    assert(entry_views(pre)[k + 1] == pre[k + 1]@);
                    assert(input.skip(taken)[k + 1] == input[taken + k + 1]);
                }
            }
            assert(item@ == input[taken]);
        }
        let key = chars_of(lowercased(item.title.as_str()).as_str());
        let mut p: usize = 0;
        while p < sorted.len()
            invariant
                p <= sorted@.len(),
                keys@.len() == sorted@.len(),
                forall|k: int| 0 <= k < keys@.len() ==> #[trigger] keys@[k]@ == title_key(sorted@[k]@),
                key@ == title_key(item@),
                forall|k: int| 0 <= k < p ==> !text_less(title_key(item@), #[trigger] title_key(entry_views(sorted@)[k])),
            ensures
                p <= sorted@.len(),
                forall|k: int| 0 <= k < p ==> !text_less(title_key(item@), #[trigger] title_key(entry_views(sorted@)[k])),
                p < sorted@.len() ==> text_less(title_key(item@), title_key(entry_views(sorted@)[p as int])),
            decreases sorted@.len() - p,
        {
            let after = chars_less(key.as_slice(), keys[p].as_slice());
            proof {
                assert(entry_views(sorted@)[p as int] == sorted@[p as int]@);
            }
            if after {
                break;
            }
            p = p + 1;
        }
        let ghost before = entry_views(sorted@);
        let ghost before_keys = keys@;
        proof {
            lemma_title_slot(before, item@, p as int);
            let grown = input.take(taken + 1);
            assert(grown.drop_last() =~= input.take(taken));
            assert(grown.last() == item@);
        }
        let ghost item_view = item@;
        sorted.insert(p, item);
        keys.insert(p, key);
        proof {
            assert(entry_views(sorted@) =~= before.insert(p as int, item_view));
            assert forall|k: int| 0 <= k < keys@.len() implies #[trigger] keys@[k]@ == title_key(sorted@[k]@) by {
                if k < p {
                    assert(keys@[k] == before_keys[k]);
                } else if k > p {
                    assert(keys@[k] == before_keys[k - 1]);
                }
            }
            taken = taken + 1;
        }
    }
    assert(input.take(taken) =~= input);
    sorted
}

/// For each window, the index of the first window owned by the same
/// executable, ignoring case: a window whose entry is its own index has its
/// icon decoded, the others share that one's.
pub fn icon_owners(processes: &Vec<String>) -> (owners: Vec<usize>)
    ensures
        owners@.len() == processes@.len(),
        forall|i: int| 0 <= i < owners@.len() ==> {
            let j = #[trigger] owners@[i] as int;
            &&& 0 <= j <= i
            &&& lowercase(processes@[j]@) == lowercase(processes@[i]@)
            &&& forall|k: int| 0 <= k < j ==> lowercase(#[trigger] processes@[k]@) != lowercase(processes@[i]@)
        },
{
    let mut keys: Vec<Vec<char>> = Vec::new();
    let mut owners: Vec<usize> = Vec::new();
    let mut i: usize = 0;
    while i < processes.len()
        invariant
            i <= processes@.len(),
            keys@.len() == i,
            owners@.len() == i,
            forall|k: int| 0 <= k < i ==> #[trigger] keys@[k]@ == lowercase(processes@[k]@),
            forall|m: int| 0 <= m < i ==> {
                let j = #[trigger] owners@[m] as int;
                &&& 0 <= j <= m
                &&& lowercase(processes@[j]@) == lowercase(processes@[m]@)
                &&& forall|k: int| 0 <= k < j ==> lowercase(#[trigger] processes@[k]@) != lowercase(processes@[m]@)
            },
        decreases processes@.len() - i,
    {
        let key = chars_of(lowercased(processes[i].as_str()).as_str());
        let mut j: usize = 0;
        while j < i
            invariant
                j <= i,
                i < processes@.len(),
                keys@.len() == i,
                forall|k: int| 0 <= k < i ==> #[trigger] keys@[k]@ == lowercase(processes@[k]@),
                key@ == lowercase(processes@[i as int]@),
                forall|k: int| 0 <= k < j ==> lowercase(#[trigger] processes@[k]@) != lowercase(processes@[i as int]@),
            ensures
                j <= i,
                forall|k: int| 0 <= k < j ==> lowercase(#[trigger] processes@[k]@) != lowercase(processes@[i as int]@),
                j < i ==> lowercase(processes@[j as int]@) == lowercase(processes@[i as int]@),
            decreases i - j,
        {
            let same = chars_equal(keys[j].as_slice(), key.as_slice());
            if same {
                break;
            }
            j = j + 1;
        }
        keys.push(key);
        owners.push(j);
        i = i + 1;
    }
    owners
}

/// `WS_EX_TOOLWINDOW`.
pub const WS_EX_TOOLWINDOW: u32 = 0x0000_0080;

/// Whether a top-level window is worth offering: visible, its own root, not
/// a tool window, and not cloaked by DWM (`cloaked` is the attribute when it
/// could be read).
pub open spec fn is_capturable(visible: bool, is_root: bool, ex_style: u32, cloaked: Option<u32>) -> bool {
    &&& visible
    &&& is_root
    &&& ex_style & WS_EX_TOOLWINDOW == 0
    &&& !(cloaked matches Some(c) && c != 0)
}

/// Filters out the noise window enumeration reports: invisible windows,
/// child windows, tool windows and DWM-cloaked shells.
pub fn capturable(visible: bool, is_root: bool, ex_style: u32, cloaked: Option<u32>) -> (keep: bool)
    ensures
        keep == is_capturable(visible, is_root, ex_style, cloaked),
{
    if !visible || !is_root {
        return false;
    }
    if ex_style & WS_EX_TOOLWINDOW != 0 {
        return false;
    }
    match cloaked {
        Some(c) => c == 0,
        None => true,
    }
}

/// A window title as listed: trimmed, and absent when nothing is left.
pub fn listed_title(raw: &str) -> (title: Option<String>)
    ensures
        match title {
            Some(t) => crate::text::trimmed(raw@).len() > 0 && t@ == crate::text::trimmed(raw@),
            None => crate::text::trimmed(raw@).len() == 0,
        },
{
    let chars = chars_of(raw);
    let t = crate::text::trim_chars(chars.as_slice());
    if t.len() == 0 {
        None
    } else {
        Some(crate::text::string_of(t.as_slice()))
    }
}

/// State of the window picker panel.
#[derive(Debug)]
pub struct WindowPickerState {
    /// Whether the picker panel is currently expanded.
    pub is_open: bool,
    /// Currently selected capture target.
    pub selected: Option<WindowEntry>,
    /// Cached list of enumerated windows.
    pub windows: Vec<WindowEntry>,
    /// Whether windows from processes outside the allow-list are listed too.
    pub include_others: bool,
}

/// The abstract content of the picker state.
pub struct PickerView {
    pub is_open: bool,
    pub selected: Option<WindowEntryView>,
    pub windows: Seq<WindowEntryView>,
    pub include_others: bool,
}

impl View for WindowPickerState {
    type V = PickerView;

    open spec fn view(&self) -> PickerView {
        PickerView {
            is_open: self.is_open,
            selected: match self.selected {
                Some(w) => Some(w@),
                None => None,
            },
            windows: entry_views(self.windows@),
            include_others: self.include_others,
        }
    }
}

/// The selection kept after the list is re-enumerated: the fresh entry of
/// the same window when it is still listed, nothing otherwise.
pub open spec fn kept_selection(selected: Option<WindowEntryView>, list: Seq<WindowEntryView>) -> Option<WindowEntryView> {
    match selected {
        Some(s) => first_with_handle(list, s.hwnd),
        None => None,
    }
}

impl WindowPickerState {
    /// A closed picker with nothing listed or selected.
    pub fn new() -> (state: WindowPickerState)
        ensures
            state@ == (PickerView { is_open: false, selected: None, windows: Seq::empty(), include_others: false }),
    {
        let state = WindowPickerState { is_open: false, selected: None, windows: Vec::new(), include_others: false };
        assert(state@.windows =~= Seq::<WindowEntryView>::empty());
        state
    }

    /// Expands or collapses the panel. Returns whether the list must be
    /// re-enumerated, which is the case when the panel opens.
    pub fn toggle(&mut self) -> (refresh: bool)
        ensures
            final(self)@ == (PickerView { is_open: !old(self)@.is_open, ..old(self)@ }),
            refresh == !old(self)@.is_open,
    {
        self.is_open = !self.is_open;
        self.is_open
    }

    /// Confirms a selection and collapses the panel.
    pub fn select(&mut self, info: WindowEntry)
        ensures
            final(self)@ == (PickerView { is_open: false, selected: Some(info@), ..old(self)@ }),
    {
        self.selected = Some(info);
        self.is_open = false;
    }

    /// Takes a freshly enumerated list: a stale selection whose window has
    /// gone away is dropped, one that is still present takes its fresh entry.
    pub fn refreshed(&mut self, windows: Vec<WindowEntry>)
        ensures
            final(self)@ == (PickerView {
                windows: entry_views(windows@),
                selected: kept_selection(old(self)@.selected, entry_views(windows@)),
                ..old(self)@
            }),
    {
        let kept = match &self.selected {
            Some(selected) => find_by_handle(&windows, selected.hwnd),
            None => None,
        };
        self.selected = kept;
        self.windows = windows;
    }

    /// Label shown on the toolbar button: the alias once a window is picked.
    pub fn button_label(&self) -> (label: String)
        ensures
            label@ == match self@.selected {
                Some(w) => w.alias,
                None => "选择窗口"@,
            },
    {
        match &self.selected {
            Some(info) => info.alias.clone(),
            None => String::from_str("选择窗口"),
        }
    }
}

} // verus!
