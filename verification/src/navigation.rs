//! Keyboard-driven navigation: modal states, hint labels, focus and shell
//! prompt markers, and the rules that read them off the screen text.

use vstd::prelude::*;
use crate::error::TermTestError;
use crate::scan::{str_chars, string_from_chars, text_lines, text_lines_of};
use vstd::arithmetic::div_mod::lemma_add_mod_noop;
use crate::screen::{occurs_in, seq_contains, Rect};

verus! {

/// Navigation mode of a modal TUI application.
#[derive(Debug, Clone, Copy, PartialEq, Eq, Structural)]
pub enum NavMode {
    /// Normal mode - default navigation and command input.
    Normal,
    /// Hints mode - Vimium-style label-based selection.
    Hints,
    /// Visual mode - text selection and visual manipulation.
    Visual,
    /// Insert mode - direct text input.
    Insert,
    /// Search mode - search input and navigation.
    Search,
    /// Command mode - command palette or command line.
    Command,
}

impl Default for NavMode {
    fn default() -> (m: NavMode)
        ensures
            m == NavMode::Normal,
    {
        NavMode::Normal
    }
}

/// The human-readable name of a mode.
pub open spec fn mode_name(m: NavMode) -> Seq<char> {
    match m {
        NavMode::Normal => "Normal"@,
        NavMode::Hints => "Hints"@,
        NavMode::Visual => "Visual"@,
        NavMode::Insert => "Insert"@,
        NavMode::Search => "Search"@,
        NavMode::Command => "Command"@,
    }
}

impl NavMode {
    /// The human-readable name of the mode.
    pub fn as_str(&self) -> (r: &'static str)
        ensures
            r@ == mode_name(*self),
    {
        match self {
            NavMode::Normal => "Normal",
            NavMode::Hints => "Hints",
            NavMode::Visual => "Visual",
            NavMode::Insert => "Insert",
            NavMode::Search => "Search",
            NavMode::Command => "Command",
        }
    }
}

/// Kind of element a hint label points at.
#[derive(Debug, Clone, Copy, PartialEq, Eq, Structural)]
pub enum HintElementType {
    /// Clickable URL or hyperlink.
    Url,
    /// File system path.
    FilePath,
    /// Email address.
    Email,
    /// Git commit hash.
    GitHash,
    /// IP address (IPv4 or IPv6).
    IpAddress,
    /// Custom or application-specific element.
    Custom,
}

/// A hint label shown in hint mode.
#[derive(Debug, PartialEq)]
pub struct HintLabel {
    /// The hint label text (e.g., "a", "aa", "ab").
    pub label: String,
    /// Position on screen as (col, row), 0-indexed.
    pub position: (u16, u16),
    /// Target URL if this is a link hint.
    pub target_url: Option<String>,
    /// Type of element this hint targets.
    pub element_type: HintElementType,
}

impl Clone for HintLabel {
    fn clone(&self) -> (r: HintLabel)
        ensures
            r.label@ == self.label@,
            r.position == self.position,
            r.target_url is Some <==> self.target_url is Some,
            r.target_url matches Some(u) ==> u@ == self.target_url->Some_0@,
            r.element_type == self.element_type,
    {
        HintLabel {
            label: self.label.clone(),
            position: (self.position.0, self.position.1),
            target_url: match &self.target_url {
                Some(u) => Some(u.clone()),
                None => None,
            },
            element_type: self.element_type,
        }
    }
}

/// The focused UI element.
#[derive(Debug, Clone, PartialEq, Eq)]
pub struct FocusInfo {
    /// Visual boundaries of the focused element.
    pub bounds: Rect,
    /// Optional identifier (e.g., widget ID, element name).
    pub id: Option<String>,
    /// Type or category of the element (e.g., "Button", "Input", "List").
    pub element_type: String,
    /// Tab order index if applicable.
    pub tab_index: Option<u16>,
}

/// Phase marked by an OSC 133 shell-integration sequence.
#[derive(Debug, Clone, Copy, PartialEq, Eq, Structural)]
pub enum PromptMarkerType {
    /// OSC 133 ; A - Start of prompt.
    PromptStart,
    /// OSC 133 ; B - Start of command input.
    CommandStart,
    /// OSC 133 ; C - Command executed (start of output).
    CommandExecuted,
    /// OSC 133 ; D - Command finished (with exit code).
    CommandFinished,
}

/// A shell prompt marker.
#[derive(Debug, Clone, PartialEq, Eq)]
pub struct PromptMarker {
    /// Line number where the marker was detected (0-indexed).
    pub line: usize,
    /// Type of prompt marker.
    pub marker_type: PromptMarkerType,
    /// Command text if this is a CommandStart marker.
    pub command: Option<String>,
}

/// Navigation testing operations that a test harness offers: modes, hint
/// labels, focus movement and shell prompts.
pub trait NavigationTestExt {
    /// Enters hint mode (the `f` key) and waits for hint labels.
    fn enter_hint_mode(&mut self) -> Result<(), TermTestError>;

    /// Returns to normal mode (the Escape key).
    fn exit_to_normal(&mut self) -> Result<(), TermTestError>;

    /// The mode the screen shows.
    fn current_mode(&self) -> NavMode;

    /// Waits until the screen shows `mode`, or fails after `timeout`.
    fn wait_for_mode(&mut self, mode: NavMode, timeout: std::time::Duration) -> Result<(), TermTestError>;

    /// The hint labels on screen.
    fn visible_hints(&self) -> Vec<HintLabel>;

    /// The hint label at a screen position.
    fn hint_at(&self, col: u16, row: u16) -> Option<HintLabel>;

    /// Types the characters of a hint label.
    fn activate_hint(&mut self, label: &str) -> Result<(), TermTestError>;

    /// The focused element, if the screen shows one.
    fn focused_element(&self) -> Option<FocusInfo>;

    /// Moves focus forward (Tab).
    fn focus_next(&mut self) -> Result<(), TermTestError>;

    /// Moves focus backward (Shift+Tab).
    fn focus_prev(&mut self) -> Result<(), TermTestError>;

    /// The shell prompt markers seen.
    fn prompt_markers(&self) -> Vec<PromptMarker>;

    /// Jumps to the prompt with the given index.
    fn jump_to_prompt(&mut self, index: usize) -> Result<(), TermTestError>;

    /// The index of the prompt the cursor is at.
    fn current_prompt_index(&self) -> Option<usize>;
}

/// A lowercase ASCII letter.
pub open spec fn is_lower(c: char) -> bool {
    'a' <= c && c <= 'z'
}

/// A hint label starts at index `i`: `[`, one or two lowercase ASCII letters, `]`.
pub open spec fn hint_label_at(t: Seq<char>, i: int) -> bool {
    &&& 0 <= i
    &&& i + 2 < t.len()
    &&& t[i] == '['
    &&& is_lower(t[i + 1])
    &&& (t[i + 2] == ']' || (i + 3 < t.len() && is_lower(t[i + 2]) && t[i + 3] == ']'))
}

/// Some hint label occurs in `t`.
pub open spec fn has_hint_label(t: Seq<char>) -> bool {
    exists|i: int| hint_label_at(t, i)
}

/// The regular expression of a hint label.
pub open spec fn hint_label_pattern() -> Seq<char> {
    "\\[([a-z]{1,2})\\]"@
}

/// What `regex::Regex::new(pattern)` followed by `is_match(text)` gives:
/// `None` where the pattern does not compile.
pub uninterp spec fn regex_search(pattern: Seq<char>, text: Seq<char>) -> Option<bool>;

/// Compiles `pattern` with `regex::Regex::new` and asks `Regex::is_match`
/// whether it matches anywhere in `text`. Trusted: the result is named by
/// `regex_search`; for the hint-label pattern the regex crate's syntax
/// (`\[` and `\]` are literal brackets, `[a-z]{1,2}` is one or two ASCII
/// lowercase letters, greedy) gives the exact meaning stated.
#[verifier::external_body]
fn regex_is_match(pattern: &str, text: &str) -> (r: Option<bool>)
    ensures
        r == regex_search(pattern@, text@),
        pattern@ == hint_label_pattern() ==> r == Some(has_hint_label(text@)),
{
    match regex::Regex::new(pattern) {
        Ok(re) => Some(re.is_match(text)),
        Err(_) => None,
    }
}

/// Whether the text holds a hint label such as `[a]` or `[ab]`.
pub fn contains_hint_labels(contents: &str) -> (r: bool)
    ensures
        r == has_hint_label(contents@),
{
    match regex_is_match("\\[([a-z]{1,2})\\]", contents) {
        Some(b) => b,
        None => false,
    }
}

/// What `str::to_lowercase` gives (Unicode lowercase mapping).
pub uninterp spec fn lowercase(s: Seq<char>) -> Seq<char>;

/// `str::to_lowercase`. Trusted: its result is named by `lowercase`.
#[verifier::external_body]
fn to_lowercase(s: &str) -> (r: String)
    ensures
        r@ == lowercase(s@),
{
    s.to_lowercase()
}

/// The mode that a lowercased status text announces.
pub open spec fn status_mode(lower: Seq<char>) -> NavMode {
    if occurs_in(lower, "-- visual --"@) || occurs_in(lower, "visual mode"@) {
        NavMode::Visual
    } else if occurs_in(lower, "-- insert --"@) || occurs_in(lower, "insert mode"@) {
        NavMode::Insert
    } else if occurs_in(lower, "-- search --"@) || occurs_in(lower, "search:"@) || occurs_in(
        lower,
        "search mode"@,
    ) {
        NavMode::Search
    } else if occurs_in(lower, "-- command --"@) || occurs_in(lower, "command:"@) || occurs_in(
        lower,
        "command mode"@,
    ) {
        NavMode::Command
    } else {
        NavMode::Normal
    }
}

/// The mode a mode word alone announces (`visual`, `insert`, `search`, `command`).
pub open spec fn word_mode(lower: Seq<char>) -> NavMode {
    if occurs_in(lower, "visual"@) {
        NavMode::Visual
    } else if occurs_in(lower, "insert"@) {
        NavMode::Insert
    } else if occurs_in(lower, "search"@) {
        NavMode::Search
    } else if occurs_in(lower, "command"@) {
        NavMode::Command
    } else {
        NavMode::Normal
    }
}

/// The mode of a screen text: hint labels first, then what the lowercased
/// text announces.
pub open spec fn mode_of(has_hints: bool, lower: Seq<char>) -> NavMode {
    if has_hints {
        NavMode::Hints
    } else {
        status_mode(lower)
    }
}

/// Whether `needle` occurs in `hay`.
fn text_has(hay: &Vec<char>, needle: &str) -> (r: bool)
    ensures
        r == occurs_in(hay@, needle@),
{
    let n = str_chars(needle);
    seq_contains(hay, &n)
}

/// The mode that a lowercased status text announces: `-- visual --` or
/// `visual mode`, then insert, search (also `search:`), command (also
/// `command:`), else normal.
pub fn status_mode_of(lower: &str) -> (m: NavMode)
    ensures
        m == status_mode(lower@),
{
    let t = str_chars(lower);
    if text_has(&t, "-- visual --") || text_has(&t, "visual mode") {
        NavMode::Visual
    } else if text_has(&t, "-- insert --") || text_has(&t, "insert mode") {
        NavMode::Insert
    } else if text_has(&t, "-- search --") || text_has(&t, "search:") || text_has(&t, "search mode") {
        NavMode::Search
    } else if text_has(&t, "-- command --") || text_has(&t, "command:") || text_has(&t, "command mode") {
        NavMode::Command
    } else {
        NavMode::Normal
    }
}

/// The mode that a mode word in a lowercased text announces.
pub fn word_mode_of(lower: &str) -> (m: NavMode)
    ensures
        m == word_mode(lower@),
{
    let t = str_chars(lower);
    if text_has(&t, "visual") {
        NavMode::Visual
    } else if text_has(&t, "insert") {
        NavMode::Insert
    } else if text_has(&t, "search") {
        NavMode::Search
    } else if text_has(&t, "command") {
        NavMode::Command
    } else {
        NavMode::Normal
    }
}

/// What a lowercased top line announces by a mode word alone: `visual`,
/// else `insert`, else `search`, else `command`, else Normal.
pub proof fn law_mode_words(l: Seq<char>)
    ensures
        occurs_in(l, "visual"@) ==> word_mode(l) == NavMode::Visual,
        !occurs_in(l, "visual"@) && occurs_in(l, "insert"@) ==> word_mode(l) == NavMode::Insert,
        !occurs_in(l, "visual"@) && !occurs_in(l, "insert"@) && occurs_in(l, "search"@) ==> word_mode(l)
            == NavMode::Search,
        !occurs_in(l, "visual"@) && !occurs_in(l, "insert"@) && !occurs_in(l, "search"@) && occurs_in(
            l,
            "command"@,
        ) ==> word_mode(l) == NavMode::Command,
        !occurs_in(l, "visual"@) && !occurs_in(l, "insert"@) && !occurs_in(l, "search"@) && !occurs_in(
            l,
            "command"@,
        ) ==> word_mode(l) == NavMode::Normal,
{
}

/// What a lowercased status text announces: `-- visual --` or `visual mode`
/// is Visual; else `-- insert --` or `insert mode` is Insert; else
/// `-- search --`, `search:` or `search mode` is Search; else
/// `-- command --`, `command:` or `command mode` is Command; else Normal.
pub proof fn law_status_announcements(l: Seq<char>)
    ensures
        occurs_in(l, "-- visual --"@) || occurs_in(l, "visual mode"@) ==> status_mode(l) == NavMode::Visual,
        !occurs_in(l, "-- visual --"@) && !occurs_in(l, "visual mode"@) && (occurs_in(l, "-- insert --"@)
            || occurs_in(l, "insert mode"@)) ==> status_mode(l) == NavMode::Insert,
        !occurs_in(l, "-- visual --"@) && !occurs_in(l, "visual mode"@) && !occurs_in(l, "-- insert --"@)
            && !occurs_in(l, "insert mode"@) && (occurs_in(l, "-- search --"@) || occurs_in(l, "search:"@)
            || occurs_in(l, "search mode"@)) ==> status_mode(l) == NavMode::Search,
        !occurs_in(l, "-- visual --"@) && !occurs_in(l, "visual mode"@) && !occurs_in(l, "-- insert --"@)
            && !occurs_in(l, "insert mode"@) && !occurs_in(l, "-- search --"@) && !occurs_in(l, "search:"@)
            && !occurs_in(l, "search mode"@) && (occurs_in(l, "-- command --"@) || occurs_in(l, "command:"@)
            || occurs_in(l, "command mode"@)) ==> status_mode(l) == NavMode::Command,
        status_mode(l) == NavMode::Normal <== !occurs_in(l, "-- visual --"@) && !occurs_in(l, "visual mode"@)
            && !occurs_in(l, "-- insert --"@) && !occurs_in(l, "insert mode"@) && !occurs_in(l, "-- search --"@)
            && !occurs_in(l, "search:"@) && !occurs_in(l, "search mode"@) && !occurs_in(l, "-- command --"@)
            && !occurs_in(l, "command:"@) && !occurs_in(l, "command mode"@),
        mode_of(false, l) == status_mode(l),
{
}

/// The navigation mode of a screen text: `Hints` when a hint label shows,
/// else the mode the lowercased text announces.
pub fn detect_mode(contents: &str) -> (m: NavMode)
    ensures
        m == mode_of(has_hint_label(contents@), lowercase(contents@)),
{
    if contains_hint_labels(contents) {
        return NavMode::Hints;
    }
    let lower = to_lowercase(contents);
    status_mode_of(lower.as_str())
}

/// The mode a screen shows: `Hints` when a hint label shows; else what the
/// last line announces (lowercased, as in `status_mode`); else the mode word
/// of the first line; else `Normal`.
pub open spec fn screen_mode(c: Seq<char>) -> NavMode {
    let ls = text_lines(c);
    if has_hint_label(c) {
        NavMode::Hints
    } else if ls.len() > 0 && status_mode(lowercase(ls.last())) != NavMode::Normal {
        status_mode(lowercase(ls.last()))
    } else if ls.len() > 0 && word_mode(lowercase(ls[0])) != NavMode::Normal {
        word_mode(lowercase(ls[0]))
    } else {
        NavMode::Normal
    }
}

/// The mode a screen text shows, reading the status line at the bottom and
/// then the top line.
pub fn current_mode_of(contents: &str) -> (m: NavMode)
    ensures
        m == screen_mode(contents@),
{
    if contains_hint_labels(contents) {
        return NavMode::Hints;
    }
    let lines = text_lines_of(contents);
    let ghost ls = text_lines(contents@);
    assert(lines@.map_values(|l: Vec<char>| l@) == ls);
    if lines.len() > 0 {
        let last = string_from_chars(&lines[lines.len() - 1]);
        assert(lines@[lines@.len() - 1]@ == ls.last());
        let lower = to_lowercase(last.as_str());
        let m = status_mode_of(lower.as_str());
        if m != NavMode::Normal {
            return m;
        }
        let first = string_from_chars(&lines[0]);
        assert(lines@[0]@ == ls[0]);
        let lower = to_lowercase(first.as_str());
        let m = word_mode_of(lower.as_str());
        if m != NavMode::Normal {
            return m;
        }
    }
    NavMode::Normal
}

/// The bytes of a character in UTF-8.
pub open spec fn utf8_width(c: char) -> nat {
    if (c as u32) < 0x80 {
        1
    } else if (c as u32) < 0x800 {
        2
    } else if (c as u32) < 0x10000 {
        3
    } else {
        4
    }
}

/// The bytes of a text in UTF-8.
pub open spec fn utf8_len(s: Seq<char>) -> nat
    decreases s.len(),
{
    if s.len() == 0 {
        0
    } else {
        utf8_len(s.drop_last()) + utf8_width(s.last())
    }
}

/// The first index at or after `i` of `c` in `l`.
pub open spec fn index_from(l: Seq<char>, c: char, i: int) -> Option<int>
    decreases l.len() - i,
{
    if i < 0 || i >= l.len() {
        None
    } else if l[i] == c {
        Some(i)
    } else {
        index_from(l, c, i + 1)
    }
}

/// The first index of `c` in `l`.
pub open spec fn first_index(l: Seq<char>, c: char) -> Option<int> {
    index_from(l, c, 0)
}

/// Whether a line holds a focus border.
pub open spec fn has_border(l: Seq<char>) -> bool {
    first_index(l, '┃') is Some || first_index(l, '║') is Some
}

/// The first line at or after `r` that holds a focus border.
pub open spec fn border_row_from(ls: Seq<Seq<char>>, r: int) -> Option<int>
    decreases ls.len() - r,
{
    if r < 0 || r >= ls.len() {
        None
    } else if has_border(ls[r]) {
        Some(r)
    } else {
        border_row_from(ls, r + 1)
    }
}

/// The first line that holds a focus border.
pub open spec fn focus_row(ls: Seq<Seq<char>>) -> Option<int> {
    border_row_from(ls, 0)
}

/// The byte column of the focus border in a line: the first `┃`, else the first `║`.
pub open spec fn border_column(l: Seq<char>) -> nat {
    match first_index(l, '┃') {
        Some(i) => utf8_len(l.subrange(0, i)),
        None => match first_index(l, '║') {
            Some(i) => utf8_len(l.subrange(0, i)),
            None => 0,
        },
    }
}

/// The focus a screen shows: the first line with a focus border gives a
/// widget of 20 by 3 at the border's byte column; else a cursor on one of
/// the lines gives an input of 10 by 1 there. The second component tells a
/// widget from an input.
pub open spec fn focus_of(c: Seq<char>, cursor: (u16, u16)) -> Option<(Rect, bool)> {
    let ls = text_lines(c);
    match focus_row(ls) {
        Some(r) => Some(
            (Rect { x: (border_column(ls[r]) % 65536) as u16, y: (r % 65536) as u16, width: 20, height: 3 }, true),
        ),
        None => if cursor.0 < ((ls.len() % 65536) as u16) {
            Some((Rect { x: cursor.1, y: cursor.0, width: 10, height: 1 }, false))
        } else {
            None
        },
    }
}

/// The first index of `c` in `l`, if any.
fn find_in(l: &Vec<char>, c: char) -> (r: Option<usize>)
    ensures
        r matches Some(i) ==> first_index(l@, c) == Some(i as int) && i < l@.len(),
        r is None ==> first_index(l@, c) is None,
{
    let mut i: usize = 0;
    while i < l.len()
        invariant
            i <= l@.len(),
            index_from(l@, c, 0) == index_from(l@, c, i as int),
        decreases l@.len() - i,
    {
        if l[i] == c {
            return Some(i);
        }
        i = i + 1;
    }
    None
}

/// The UTF-8 length of `l[0..n]`, modulo 2^16 (the column a 16-bit cast keeps).
fn utf8_len16(l: &Vec<char>, n: usize) -> (r: u16)
    requires
        n <= l@.len(),
    ensures
        r == utf8_len(l@.subrange(0, n as int)) % 65536,
{
    let mut acc: u32 = 0;
    let mut i: usize = 0;
    while i < n
        invariant
            i <= n <= l@.len(),
            acc == utf8_len(l@.subrange(0, i as int)) % 65536,
        decreases n - i,
    {
        let c = l[i];
        let w: u32 = if (c as u32) < 0x80 {
            1
        } else if (c as u32) < 0x800 {
            2
        } else if (c as u32) < 0x10000 {
            3
        } else {
            4
        };
        assert(l@.subrange(0, i + 1).drop_last() =~= l@.subrange(0, i as int));
        proof {
            lemma_add_mod_noop(utf8_len(l@.subrange(0, i as int)) as int, w as int, 65536);
        }
        acc = (acc + w) % 65536;
        i = i + 1;
    }
    acc as u16
}

/// The focused element a screen shows, given the screen text and the
/// cursor (row, col).
pub fn focus_from(contents: &str, cursor: (u16, u16)) -> (r: Option<FocusInfo>)
    ensures
        match focus_of(contents@, cursor) {
            None => r is None,
            Some((rect, widget)) => r matches Some(f) && f.bounds == rect && f.id is None && f.tab_index is None
                && f.element_type@ == if widget {
                "Widget"@
            } else {
                "Input"@
            },
        },
{
    let lines = text_lines_of(contents);
    let ghost ls = text_lines(contents@);
    assert(lines@.map_values(|l: Vec<char>| l@) == ls);
    let mut r: usize = 0;
    while r < lines.len()
        invariant
            r <= lines@.len(),
            lines@.len() == ls.len(),
            ls == text_lines(contents@),
            forall|k: int| 0 <= k < ls.len() ==> (#[trigger] lines@[k])@ == ls[k],
            border_row_from(ls, 0) == border_row_from(ls, r as int),
        decreases lines@.len() - r,
    {
        let line = &lines[r];
        assert(lines@[r as int]@ == ls[r as int]);
        let heavy = find_in(line, '┃');
        let double = find_in(line, '║');
        if heavy.is_some() || double.is_some() {
            let col: u16 = match heavy {
                Some(i) => utf8_len16(line, i),
                None => match double {
                    Some(i) => utf8_len16(line, i),
                    None => 0,
                },
            };
            return Some(
                FocusInfo {
                    bounds: Rect::new(col, (r % 65536) as u16, 20, 3),
                    id: None,
                    element_type: String::from_str("Widget"),
                    tab_index: None,
                },
            );
        }
        r = r + 1;
    }
    let n: u16 = (lines.len() % 65536) as u16;
    if cursor.0 < n {
        return Some(
            FocusInfo {
                bounds: Rect::new(cursor.1, cursor.0, 10, 1),
                id: None,
                element_type: String::from_str("Input"),
                tab_index: None,
            },
        );
    }
    None
}

/// What `regex::Regex::new(pattern)` then `captures_iter(text)` give: for
/// each match in order, the byte offsets where it starts and ends and the
/// text of group 1 (`None` where that group took no part); `None` where the
/// pattern does not compile.
pub uninterp spec fn regex_captures(pattern: Seq<char>, text: Seq<char>) -> Option<
    Seq<(usize, usize, Option<Seq<char>>)>,
>;

/// Captures as values.
pub open spec fn captures_view(v: Seq<(usize, usize, Option<String>)>) -> Seq<(usize, usize, Option<Seq<char>>)> {
    v.map_values(
        |m: (usize, usize, Option<String>)|
            (
                m.0,
                m.1,
                match m.2 {
                    Some(g) => Some(g@),
                    None => None,
                },
            ),
    )
}

/// Compiles `pattern` with `regex::Regex::new` and lists the matches of
/// `Regex::captures_iter` over `text`. Trusted: the result is named by
/// `regex_captures`; the hint-label pattern compiles and its group always
/// takes part in a match (it is not optional).
#[verifier::external_body]
fn regex_capture_list(pattern: &str, text: &str) -> (r: Option<Vec<(usize, usize, Option<String>)>>)
    ensures
        r is Some <==> regex_captures(pattern@, text@) is Some,
        r matches Some(v) ==> captures_view(v@) == regex_captures(pattern@, text@)->Some_0,
        pattern@ == hint_label_pattern() ==> r is Some,
        pattern@ == hint_label_pattern() ==> (r matches Some(v) ==> forall|i: int|
            0 <= i < v@.len() ==> (#[trigger] v@[i]).2 is Some),
{
    regex::Regex::new(pattern).ok().map(|re| re.captures_iter(text).map(|c| {
        let m = c.get_match();
        (m.start(), m.end(), c.get(1).map(|g| g.as_str().to_string()))
    }).collect())
}

/// An ASCII hexadecimal digit.
pub open spec fn is_hex(c: char) -> bool {
    ('0' <= c && c <= '9') || ('a' <= c && c <= 'f') || ('A' <= c && c <= 'F')
}

/// Every character is an ASCII hexadecimal digit.
pub open spec fn all_hex(s: Seq<char>) -> bool {
    forall|i: int| 0 <= i < s.len() ==> #[trigger] is_hex(s[i])
}

/// At most the first seven characters.
pub open spec fn first7(s: Seq<char>) -> Seq<char> {
    if s.len() <= 7 {
        s
    } else {
        s.subrange(0, 7)
    }
}

/// The first index at or after `k` where the UTF-8 bytes before it reach `b`.
pub open spec fn index_of_byte_from(l: Seq<char>, b: nat, k: int) -> int
    decreases l.len() - k,
{
    if k >= l.len() || k < 0 || utf8_len(l.subrange(0, k)) >= b {
        k
    } else {
        index_of_byte_from(l, b, k + 1)
    }
}

/// The characters from byte offset `b` on.
pub open spec fn rest_from_byte(l: Seq<char>, b: nat) -> Seq<char> {
    let k = index_of_byte_from(l, b, 0);
    if 0 <= k <= l.len() {
        l.subrange(k, l.len() as int)
    } else {
        Seq::empty()
    }
}

/// The kind of element a hint on `line` points at, its match ending at
/// byte offset `end`: a URL, a path (a slash and a dot), an e-mail address,
/// a git hash (the seven characters after the label are hexadecimal), or
/// a custom element.
pub open spec fn hint_kind(line: Seq<char>, end: usize) -> HintElementType {
    if occurs_in(line, "http://"@) || occurs_in(line, "https://"@) {
        HintElementType::Url
    } else if line.contains('/') && line.contains('.') {
        HintElementType::FilePath
    } else if line.contains('@') {
        HintElementType::Email
    } else if utf8_len(line) >= 7 && all_hex(first7(rest_from_byte(line, end as nat))) {
        HintElementType::GitHash
    } else {
        HintElementType::Custom
    }
}

/// A hint as a value: label, position (col, row), kind.
pub open spec fn hint_view(h: HintLabel) -> (Seq<char>, (u16, u16), HintElementType) {
    (h.label@, h.position, h.element_type)
}

/// The hint of one match on line `row`.
pub open spec fn hint_of(line: Seq<char>, row: int, m: (usize, usize, Option<Seq<char>>)) -> (
    Seq<char>,
    (u16, u16),
    HintElementType,
) {
    (
        match m.2 {
            Some(g) => g,
            None => Seq::empty(),
        },
        ((m.0 % 65536) as u16, (row % 65536) as u16),
        hint_kind(line, m.1),
    )
}

/// The hints of one line.
pub open spec fn line_hints(line: Seq<char>, row: int) -> Seq<(Seq<char>, (u16, u16), HintElementType)> {
    match regex_captures(hint_label_pattern(), line) {
        Some(caps) => caps.map_values(|m: (usize, usize, Option<Seq<char>>)| hint_of(line, row, m)),
        None => Seq::empty(),
    }
}

/// The hints of the lines, in order.
pub open spec fn lines_hints(ls: Seq<Seq<char>>) -> Seq<(Seq<char>, (u16, u16), HintElementType)>
    decreases ls.len(),
{
    if ls.len() == 0 {
        Seq::empty()
    } else {
        lines_hints(ls.drop_last()) + line_hints(ls.last(), ls.len() - 1)
    }
}

/// The hint labels a screen text shows, line by line.
pub open spec fn screen_hints(c: Seq<char>) -> Seq<(Seq<char>, (u16, u16), HintElementType)> {
    lines_hints(text_lines(c))
}

/// Whether `t` occurs in `l`.
fn chars_have(l: &Vec<char>, t: &str) -> (r: bool)
    ensures
        r == occurs_in(l@, t@),
{
    let v = str_chars(t);
    seq_contains(l, &v)
}

/// Whether `l` holds `c`.
fn has_char(l: &Vec<char>, c: char) -> (r: bool)
    ensures
        r == l@.contains(c),
{
    match find_in(l, c) {
        Some(i) => {
            proof {
                lemma_index_from_found(l@, c, 0);
            }
            true
        },
        None => {
            proof {
                lemma_index_from_none(l@, c, 0);
            }
            false
        },
    }
}

/// A found index holds the character.
proof fn lemma_index_from_found(l: Seq<char>, c: char, i: int)
    ensures
        index_from(l, c, i) matches Some(k) ==> 0 <= k < l.len() && l[k] == c,
    decreases l.len() - i,
{
    if !(i < 0 || i >= l.len()) && l[i] != c {
        lemma_index_from_found(l, c, i + 1);
    }
}

/// No index found from `i` means no occurrence from `i` on.
proof fn lemma_index_from_none(l: Seq<char>, c: char, i: int)
    requires
        0 <= i,
        index_from(l, c, i) is None,
    ensures
        forall|k: int| i <= k < l.len() ==> l[k] != c,
    decreases l.len() - i,
{
    if i < l.len() {
        lemma_index_from_none(l, c, i + 1);
    }
}

/// The UTF-8 width of a character.
fn char_width(c: char) -> (w: u32)
    ensures
        w == utf8_width(c),
{
    if (c as u32) < 0x80 {
        1
    } else if (c as u32) < 0x800 {
        2
    } else if (c as u32) < 0x10000 {
        3
    } else {
        4
    }
}

/// Whether the text takes at least seven bytes in UTF-8.
fn utf8_at_least7(l: &Vec<char>) -> (r: bool)
    ensures
        r == (utf8_len(l@) >= 7),
{
    let mut acc: u32 = 0;
    let mut i: usize = 0;
    while i < l.len()
        invariant
            i <= l@.len(),
            acc == utf8_len(l@.subrange(0, i as int)),
            acc < 7,
        decreases l@.len() - i,
    {
        assert(l@.subrange(0, i + 1).drop_last() =~= l@.subrange(0, i as int));
        acc = acc + char_width(l[i]);
        i = i + 1;
        if acc >= 7 {
            proof {
                lemma_utf8_len_prefix(l@, i as int);
            }
            return true;
        }
    }
    assert(l@.subrange(0, l@.len() as int) =~= l@);
    false
}

/// The UTF-8 length of a prefix is no more than that of the whole.
proof fn lemma_utf8_len_prefix(l: Seq<char>, n: int)
    requires
        0 <= n <= l.len(),
    ensures
        utf8_len(l.subrange(0, n)) <= utf8_len(l),
    decreases l.len() - n,
{
    if n < l.len() {
        assert(l.subrange(0, n + 1).drop_last() =~= l.subrange(0, n));
        lemma_utf8_len_prefix(l, n + 1);
    } else {
        assert(l.subrange(0, n) =~= l);
    }
}

/// The index of the first character at or after byte offset `b`.
fn index_of_byte(l: &Vec<char>, b: usize) -> (k: usize)
    ensures
        k == index_of_byte_from(l@, b as nat, 0),
        k <= l@.len(),
{
    let mut acc: u128 = 0;
    let mut k: usize = 0;
    while k < l.len() && acc < b as u128
        invariant
            k <= l@.len(),
            acc == utf8_len(l@.subrange(0, k as int)),
            index_of_byte_from(l@, b as nat, 0) == index_of_byte_from(l@, b as nat, k as int),
            k > 0 ==> acc <= b + 4,
        decreases l@.len() - k,
    {
        assert(l@.subrange(0, k + 1).drop_last() =~= l@.subrange(0, k as int));
        acc = acc + char_width(l[k]) as u128;
        k = k + 1;
    }
    k
}

/// Whether the first seven characters from index `k` on are hexadecimal.
fn hex7_from(l: &Vec<char>, k: usize) -> (r: bool)
    requires
        k <= l@.len(),
    ensures
        r == all_hex(first7(l@.subrange(k as int, l@.len() as int))),
{
    let ghost rest = l@.subrange(k as int, l@.len() as int);
    let ghost f = first7(rest);
    let n: usize = if l.len() - k <= 7 { l.len() - k } else { 7 };
    assert(f.len() == n);
    let mut i: usize = 0;
    while i < n
        invariant
            k + n <= l@.len(),
            l@.len() == l.len(),
            n == f.len(),
            f == first7(l@.subrange(k as int, l@.len() as int)),
            i <= n,
            forall|j: int| 0 <= j < i ==> #[trigger] is_hex(f[j]),
        decreases n - i,
    {
        let c = l[k + i];
        assert(f[i as int] == c);
        if !(('0' <= c && c <= '9') || ('a' <= c && c <= 'f') || ('A' <= c && c <= 'F')) {
            assert(!is_hex(f[i as int]));
            return false;
        }
        i = i + 1;
    }
    true
}

/// The kind of element a hint on `line` points at, its match ending at byte `end`.
pub fn hint_kind_of(line: &Vec<char>, end: usize) -> (k: HintElementType)
    ensures
        k == hint_kind(line@, end),
{
    if chars_have(line, "http://") || chars_have(line, "https://") {
        HintElementType::Url
    } else if has_char(line, '/') && has_char(line, '.') {
        HintElementType::FilePath
    } else if has_char(line, '@') {
        HintElementType::Email
    } else if utf8_at_least7(line) && hex7_from(line, index_of_byte(line, end)) {
        HintElementType::GitHash
    } else {
        HintElementType::Custom
    }
}

/// The hint labels of line `row` (its text `line`) from the matches of the
/// hint-label pattern on it: label, position (match start, row) and the
/// kind of element the line points at.
pub fn hints_from_captures(line: &Vec<char>, row: usize, caps: &Vec<(usize, usize, Option<String>)>) -> (r: Vec<
    HintLabel,
>)
    ensures
        r@.map_values(|h: HintLabel| hint_view(h)) == captures_view(caps@).map_values(
            |m: (usize, usize, Option<Seq<char>>)| hint_of(line@, row as int, m),
        ),
        forall|i: int| 0 <= i < r@.len() ==> (#[trigger] r@[i]).target_url is None,
{
    let ghost hv = |h: HintLabel| hint_view(h);
    let ghost cv = captures_view(caps@);
    let ghost f = |m: (usize, usize, Option<Seq<char>>)| hint_of(line@, row as int, m);
    let mut out: Vec<HintLabel> = Vec::new();
    let mut j: usize = 0;
    while j < caps.len()
        invariant
            j <= caps@.len(),
            cv == captures_view(caps@),
            hv == (|h: HintLabel| hint_view(h)),
            f == (|m: (usize, usize, Option<Seq<char>>)| hint_of(line@, row as int, m)),
            out@.map_values(hv) == cv.subrange(0, j as int).map_values(f),
            forall|i: int| 0 <= i < out@.len() ==> (#[trigger] out@[i]).target_url is None,
        decreases caps@.len() - j,
    {
        let (start, end, group) = &caps[j];
        let label = match group {
            Some(g) => g.clone(),
            None => String::new(),
        };
        let kind = hint_kind_of(line, *end);
        let h = HintLabel {
            label,
            position: ((*start % 65536) as u16, (row % 65536) as u16),
            target_url: None,
            element_type: kind,
        };
        let ghost old_out = out@;
        assert(hv(h) == f(cv[j as int]));
        out.push(h);
        proof {
            old_out.lemma_push_map_commute(hv, h);
            assert(cv.subrange(0, j + 1) =~= cv.subrange(0, j as int).push(cv[j as int]));
            cv.subrange(0, j as int).lemma_push_map_commute(f, cv[j as int]);
        }
        j = j + 1;
    }
    assert(cv.subrange(0, cv.len() as int) =~= cv);
    out
}

/// The hint labels a screen text shows (`[a]`, `[ab]`, ...), line by line,
/// with their positions (byte column, row) and the kind of element their
/// line points at.
pub fn hints_in(contents: &str) -> (r: Vec<HintLabel>)
    ensures
        r@.map_values(|h: HintLabel| hint_view(h)) == screen_hints(contents@),
        forall|i: int| 0 <= i < r@.len() ==> (#[trigger] r@[i]).target_url is None,
{
    let lines = text_lines_of(contents);
    let ghost ls = text_lines(contents@);
    let ghost hv = |h: HintLabel| hint_view(h);
    assert(lines@.map_values(|l: Vec<char>| l@) == ls);
    let mut out: Vec<HintLabel> = Vec::new();
    let mut row: usize = 0;
    while row < lines.len()
        invariant
            row <= lines@.len(),
            lines@.len() == ls.len(),
            ls == text_lines(contents@),
            hv == (|h: HintLabel| hint_view(h)),
            forall|k: int| 0 <= k < ls.len() ==> (#[trigger] lines@[k])@ == ls[k],
            out@.map_values(hv) == lines_hints(ls.subrange(0, row as int)),
            forall|i: int| 0 <= i < out@.len() ==> (#[trigger] out@[i]).target_url is None,
        decreases lines@.len() - row,
    {
        let line = &lines[row];
        assert(lines@[row as int]@ == ls[row as int]);
        assert(ls.subrange(0, row + 1).drop_last() =~= ls.subrange(0, row as int));
        let text = string_from_chars(line);
        let caps = regex_capture_list("\\[([a-z]{1,2})\\]", text.as_str());
        if let Some(caps) = caps {
            let mut found = hints_from_captures(line, row, &caps);
            let ghost a = out@;
            let ghost b = found@;
            out.append(&mut found);
            assert(out@ == a + b);
            assert((a + b).map_values(hv) =~= a.map_values(hv) + b.map_values(hv));
        }
        row = row + 1;
    }
    assert(ls.subrange(0, ls.len() as int) =~= ls);
    out
}

/// The first hint label shown at (col, row), if any.
pub fn hint_at_in(contents: &str, col: u16, row: u16) -> (r: Option<HintLabel>)
    ensures
        r is None <==> forall|i: int| 0 <= i < screen_hints(contents@).len() ==> (#[trigger] screen_hints(contents@)[i]).1 != (col, row),
        r matches Some(h) ==> exists|i: int|
            0 <= i < screen_hints(contents@).len() && hint_view(h) == #[trigger] screen_hints(contents@)[i]
                && hint_view(h).1 == (col, row) && forall|k: int| 0 <= k < i ==> (#[trigger] screen_hints(contents@)[k]).1 != (col, row),
{
    let hints = hints_in(contents);
    let ghost hs = screen_hints(contents@);
    let mut i: usize = 0;
    while i < hints.len()
        invariant
            i <= hints@.len(),
            hs == screen_hints(contents@),
            hints@.map_values(|h: HintLabel| hint_view(h)) == hs,
            forall|k: int| 0 <= k < i ==> (#[trigger] hs[k]).1 != (col, row),
        decreases hints@.len() - i,
    {
        assert(hs[i as int] == hint_view(hints@[i as int]));
        if hints[i].position.0 == col && hints[i].position.1 == row {
            return Some(hints[i].clone());
        }
        i = i + 1;
    }
    None
}

} // verus!
