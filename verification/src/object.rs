//! The snapshot model (session, windows, panes) and its extraction from the
//! multiplexer's listing lines.

use vstd::prelude::*;
use vstd::string::StringExecFns;
use crate::text::{
    alphanumeric, chars, chars_at, chars_of, chars_of_glyphs, decimal, digits_at, digits_of,
    find_char, find_from, find_glyph, glyph_of, glyphs, glyphs_of, is_digit,
    lemma_find_from_bounds, lemma_find_from_is, lemma_split_glyphs_of_join,
    lemma_split_glyphs_without, lemma_text_end_above, lemma_text_start_is,
    lemma_trim_end_markers_of_join, parse_u8, parse_u8_at, parse_u8_of_decimal,
    parse_u8_refuses_non_digits, split_glyphs, split_once, string_of, text_of, trim, trim_at,
    known_classes, text_end, trim_end_markers, trim_end_markers_at, whitespace, Glyph,
};

verus! {

/// Why a listing line could not be read: the field that did not have the
/// expected shape.
#[derive(Debug, Clone, Copy, PartialEq, Eq, Structural)]
pub enum ParseError {
    /// The line holds no `:` to part its head from the rest.
    Delimiter,
    /// A session line whose window count is missing or is no small number.
    WindowCount,
    /// A window line whose head holds no small number.
    WindowId,
    /// A window line without a name token after the `:`.
    WindowName,
    /// A pane line whose head holds no small number.
    PaneId,
}

impl ParseError {
    /// What the error says to the operator, as a mathematical value.
    pub open spec fn spec_message(&self) -> Seq<char> {
        match self {
            ParseError::Delimiter => "could not part the line at a ':'"@,
            ParseError::WindowCount => "could not parse window count"@,
            ParseError::WindowId => "could not parse window id"@,
            ParseError::WindowName => "could not parse window name"@,
            ParseError::PaneId => "could not parse pane id"@,
        }
    }

    /// What the error says to the operator.
    pub fn message(&self) -> (r: String)
        ensures
            r@ == self.spec_message(),
    {
        match self {
            ParseError::Delimiter => "could not part the line at a ':'".to_owned(),
            ParseError::WindowCount => "could not parse window count".to_owned(),
            ParseError::WindowId => "could not parse window id".to_owned(),
            ParseError::WindowName => "could not parse window name".to_owned(),
            ParseError::PaneId => "could not parse pane id".to_owned(),
        }
    }
}

/// One pane of a window.
#[derive(Debug, Clone, PartialEq, Eq)]
pub struct Pane {
    /// The pane's index within its window.
    pub id: u8,
}

/// One window of a session.
#[derive(Debug, Clone, PartialEq, Eq)]
pub struct Window {
    /// The multiplexer's index of the window.
    pub id: u8,
    /// The display name, without the marker glyphs at its end.
    pub name: String,
    /// The layout descriptor, handed back to the multiplexer as it is.
    pub layout: String,
    /// How many panes the multiplexer listed for the window.
    pub pane_count: usize,
    /// The panes, where their listing could be read.
    pub panes: Option<Vec<Pane>>,
}

/// A session with its windows in the multiplexer's order.
#[derive(Debug, Clone, PartialEq, Eq)]
pub struct Session {
    /// The session's name.
    pub name: String,
    /// The number of windows that the session line declares.
    pub window_count: u8,
    /// The windows, where their listing could be read.
    pub windows: Option<Vec<Window>>,
}

/// One line of a window listing together with the lines of the pane listing
/// of that window.
#[derive(Debug, Clone, PartialEq, Eq)]
pub struct WindowListing {
    /// The window's line.
    pub line: String,
    /// The lines that the multiplexer printed for the window's panes.
    pub panes: Vec<String>,
}

/// A [`Window`] as a mathematical value.
pub struct WindowView {
    pub id: u8,
    pub name: Seq<char>,
    pub layout: Seq<char>,
    pub pane_count: usize,
    pub panes: Option<Seq<Pane>>,
}

/// A [`Session`] as a mathematical value.
pub struct SessionView {
    pub name: Seq<char>,
    pub window_count: u8,
    pub windows: Option<Seq<WindowView>>,
}

/// A [`WindowListing`] as a mathematical value.
pub struct WindowListingView {
    pub line: Seq<char>,
    pub panes: Seq<Seq<char>>,
}

/// The windows of `ws` as mathematical values, in order.
pub open spec fn window_views(ws: Seq<Window>) -> Seq<WindowView> {
    Seq::new(ws.len(), |i: int| ws[i]@)
}

/// The listings of `ls` as mathematical values, in order.
pub open spec fn listing_views(ls: Seq<WindowListing>) -> Seq<WindowListingView> {
    Seq::new(ls.len(), |i: int| ls[i]@)
}

impl View for Window {
    type V = WindowView;

    open spec fn view(&self) -> WindowView {
        WindowView {
            id: self.id,
            name: self.name@,
            layout: self.layout@,
            pane_count: self.pane_count,
            panes: match self.panes {
                Some(p) => Some(p@),
                None => None,
            },
        }
    }
}

impl View for Session {
    type V = SessionView;

    open spec fn view(&self) -> SessionView {
        SessionView {
            name: self.name@,
            window_count: self.window_count,
            windows: match self.windows {
                Some(ws) => Some(window_views(ws@)),
                None => None,
            },
        }
    }
}

impl View for WindowListing {
    type V = WindowListingView;

    open spec fn view(&self) -> WindowListingView {
        WindowListingView { line: self.line@, panes: self.panes.deep_view() }
    }
}

/// Whether a layout token opens at `i` with its keyword: a `[` there,
/// directly followed by an `l`, as in `[layout `.
pub open spec fn opens_at(s: Seq<char>, i: int) -> bool {
    0 <= i && i + 1 < s.len() && s[i] == '[' && s[i + 1] == 'l'
}

/// The first index at or after `from` at which a layout token opens with
/// its keyword; `s.len()` where there is none.
pub open spec fn find_open(s: Seq<char>, from: int) -> int
    decreases s.len() - from,
{
    if from < 0 || from >= s.len() {
        s.len() as int
    } else if opens_at(s, from) {
        from
    } else {
        find_open(s, from + 1)
    }
}

/// Whether a layout token can end at `j`: a `]` there, followed by a space
/// or by the end of the line.
pub open spec fn closes_at(s: Seq<char>, j: int) -> bool {
    0 <= j < s.len() && s[j] == ']' && (j + 1 == s.len() || s[j + 1] == ' ')
}

/// The first index at or after `from` at which a layout token can end;
/// `s.len()` where there is none.
pub open spec fn find_close(s: Seq<char>, from: int) -> int
    decreases s.len() - from,
{
    if from < 0 || from >= s.len() {
        s.len() as int
    } else if closes_at(s, from) {
        from
    } else {
        find_close(s, from + 1)
    }
}

/// The layout in the token that opens with its keyword at `open`: the
/// keyword is passed over through the first space behind the `[`, and the
/// layout runs from there to the first `]` that a space or the end of the
/// line follows. Empty where no space follows the `[` or the token is never
/// closed.
pub open spec fn keyword_layout(s: Seq<char>, open: int) -> Seq<char> {
    let space = find_from(s, ' ', open + 1);
    let close = find_close(s, space + 1);
    if close < s.len() {
        s.subrange(space + 1, close)
    } else {
        Seq::empty()
    }
}

/// The layout in a token without keyword that closes the line: what stands
/// between the first `[` and the first `]` after it that a space or the end
/// of the line follows, where that `]` is the last character of the line.
/// Empty otherwise: a bracketed token in the middle of a line is no layout.
pub open spec fn bare_layout(s: Seq<char>) -> Seq<char> {
    let open = find_from(s, '[', 0);
    let close = find_close(s, open + 1);
    if close + 1 == s.len() {
        s.subrange(open + 1, close)
    } else {
        Seq::empty()
    }
}

/// The layout descriptor in a window line. Where a token opens with the
/// keyword (`[l`, as in `[layout `), the layout is what the first such token
/// holds behind its keyword. A line without such a token may still end in a
/// bare bracketed token, which then holds the layout. Every other line has
/// the empty layout.
pub open spec fn layout_of(s: Seq<char>) -> Seq<char> {
    let open = find_open(s, 0);
    if open < s.len() {
        keyword_layout(s, open)
    } else {
        bare_layout(s)
    }
}

/// Where the scan for the layout token stands.
#[derive(Debug, Clone, Copy, PartialEq, Eq, Structural)]
pub enum Scan {
    /// No opening was seen yet.
    Scanning,
    /// The token is open and its keyword is being passed over.
    Keyword,
    /// The characters of the layout are being collected.
    InsideLayout,
    /// The token was closed.
    Closed,
}

/// The layout of a line that ends in a bare bracketed token, by one pass
/// over its characters.
fn bare_layout_at(v: &Vec<char>) -> (layout: String)
    ensures
        layout@ == bare_layout(v@),
{
    let n: usize = v.len();
    let mut layout = String::new();
    let mut state = Scan::Scanning;
    let ghost mut open: int = 0;
    let mut i: usize = 0;
    while i < n && state != Scan::Closed
        invariant
            n == v.len(),
            i <= n,
            state != Scan::Keyword,
            state == Scan::Scanning ==> find_from(v@, '[', 0) == find_from(v@, '[', i as int)
                && layout@.len() == 0,
            state != Scan::Scanning ==> open == find_from(v@, '[', 0) && 0 <= open < i,
            state == Scan::InsideLayout ==> find_close(v@, open + 1) == find_close(v@, i as int)
                && layout@ == v@.subrange(open + 1, i as int),
            state == Scan::Closed ==> i - 1 == find_close(v@, open + 1) && layout@
                == v@.subrange(open + 1, i - 1),
        decreases n - i,
    {
        match state {
            Scan::Scanning => {
                if v[i] == '[' {
                    proof {
                        open = i as int;
                    }
                    state = Scan::InsideLayout;
                    assert(layout@ =~= v@.subrange(open + 1, i + 1));
                }
            },
            Scan::InsideLayout => {
                if v[i] == ']' && (i + 1 == n || v[i + 1] == ' ') {
                    state = Scan::Closed;
                } else {
                    layout.push(v[i]);
                    assert(layout@ =~= v@.subrange(open + 1, i + 1));
                }
            },
            _ => {},
        }
        i += 1;
    }
    if state == Scan::Closed && i == n {
        layout
    } else {
        proof {
            if state == Scan::Scanning {
                assert(find_from(v@, '[', 0) == n);
            }
        }
        String::new()
    }
}

/// The layout descriptor of a window line, by one pass over its characters
/// for the token with the keyword, and a second one for a bare token where
/// the line holds no keyword. A line without a layout token gives the empty
/// string.
pub fn extract_layout(window: &str) -> (layout: String)
    ensures
        layout@ == layout_of(window@),
{
    let v = chars_of(window);
    let n: usize = v.len();
    let mut layout = String::new();
    let mut state = Scan::Scanning;
    let ghost mut open: int = 0;
    let ghost mut space: int = 0;
    let mut i: usize = 0;
    while i < n && state != Scan::Closed
        invariant
            n == v.len(),
            i <= n,
            state == Scan::Scanning ==> find_open(v@, 0) == find_open(v@, i as int)
                && layout@.len() == 0,
            state != Scan::Scanning ==> open == find_open(v@, 0) && 0 <= open < i,
            state == Scan::Keyword ==> find_from(v@, ' ', open + 1) == find_from(v@, ' ', i as int)
                && layout@.len() == 0,
            state == Scan::InsideLayout || state == Scan::Closed ==> space == find_from(
                v@,
                ' ',
                open + 1,
            ) && 0 <= space < i,
            state == Scan::InsideLayout ==> find_close(v@, space + 1) == find_close(v@, i as int)
                && layout@ == v@.subrange(space + 1, i as int),
            state == Scan::Closed ==> i - 1 == find_close(v@, space + 1) && layout@
                == v@.subrange(space + 1, i - 1),
        decreases n - i,
    {
        match state {
            Scan::Scanning => {
                if v[i] == '[' && i + 1 < n && v[i + 1] == 'l' {
                    proof {
                        open = i as int;
                    }
                    state = Scan::Keyword;
                }
            },
            Scan::Keyword => {
                if v[i] == ' ' {
                    proof {
                        space = i as int;
                    }
                    state = Scan::InsideLayout;
                    assert(layout@ =~= v@.subrange(space + 1, i + 1));
                }
            },
            Scan::InsideLayout => {
                if v[i] == ']' && (i + 1 == n || v[i + 1] == ' ') {
                    state = Scan::Closed;
                } else {
                    layout.push(v[i]);
                    assert(layout@ =~= v@.subrange(space + 1, i + 1));
                }
            },
            Scan::Closed => {},
        }
        i += 1;
    }
    match state {
        Scan::Closed => layout,
        Scan::Scanning => bare_layout_at(&v),
        _ => String::new(),
    }
}

/// A line cut at its first `:`: the head and the rest.
pub open spec fn raw_tuple_of(line: Seq<char>) -> Result<(Seq<char>, Seq<char>), ParseError> {
    match split_once(line, ':') {
        Some(parts) => Ok(parts),
        None => Err(ParseError::Delimiter),
    }
}

/// The first token of what follows the `:` of a line: the rest is trimmed
/// and cut at its first space. `None` where the line has no `:`, or the
/// trimmed rest no space.
pub open spec fn leading_token(line: Seq<Glyph>) -> Option<Seq<Glyph>> {
    match split_glyphs(line, ':') {
        Some((_, rest)) => match split_glyphs(trim(rest), ' ') {
            Some((token, _)) => Some(token),
            None => None,
        },
        None => None,
    }
}

/// The small number in the head of a line: the numeric characters before
/// the first `:`, read in base ten. `missing` is the error where they write
/// no number up to 255.
pub open spec fn head_number_of(line: Seq<Glyph>, missing: ParseError) -> Result<u8, ParseError> {
    match split_glyphs(line, ':') {
        None => Err(ParseError::Delimiter),
        Some((head, _)) => match parse_u8(digits_of(head)) {
            Some(id) => Ok(id),
            None => Err(missing),
        },
    }
}

/// The name and the declared window count of a session line.
pub open spec fn session_header_of(line: Seq<Glyph>) -> Result<(Seq<char>, u8), ParseError> {
    match split_glyphs(line, ':') {
        None => Err(ParseError::Delimiter),
        Some((head, _)) => match leading_token(line) {
            None => Err(ParseError::WindowCount),
            Some(token) => match parse_u8(chars(token)) {
                None => Err(ParseError::WindowCount),
                Some(count) => Ok((chars(trim_end_markers(head)), count)),
            },
        },
    }
}

/// The index of the window that a window line describes.
pub open spec fn window_id_of(line: Seq<Glyph>) -> Result<u8, ParseError> {
    head_number_of(line, ParseError::WindowId)
}

/// The display name in a window line, without the markers at its end.
pub open spec fn window_name_of(line: Seq<Glyph>) -> Result<Seq<char>, ParseError> {
    match split_glyphs(line, ':') {
        None => Err(ParseError::Delimiter),
        Some(_) => match leading_token(line) {
            None => Err(ParseError::WindowName),
            Some(token) => Ok(chars(trim_end_markers(trim(token)))),
        },
    }
}

/// The index of the pane that a pane line describes.
pub open spec fn pane_id_of(line: Seq<Glyph>) -> Result<u8, ParseError> {
    head_number_of(line, ParseError::PaneId)
}

/// The panes that the first `n` lines of a pane listing describe, or the
/// error of the first line among them that cannot be read.
pub open spec fn panes_upto(lines: Seq<Seq<char>>, n: int) -> Result<Seq<Pane>, ParseError>
    decreases n,
{
    if n <= 0 || n > lines.len() {
        Ok(Seq::empty())
    } else {
        match panes_upto(lines, n - 1) {
            Err(e) => Err(e),
            Ok(panes) => match pane_id_of(glyphs(lines[n - 1])) {
                Err(e) => Err(e),
                Ok(id) => Ok(panes.push(Pane { id })),
            },
        }
    }
}

/// The panes that a pane listing describes.
pub open spec fn panes_of(lines: Seq<Seq<char>>) -> Result<Seq<Pane>, ParseError> {
    panes_upto(lines, lines.len() as int)
}

/// The window that a window line and the window's pane listing describe. An
/// unreadable pane listing leaves the panes absent and is no error.
pub open spec fn window_of(listing: WindowListingView) -> Result<WindowView, ParseError> {
    match window_id_of(glyphs(listing.line)) {
        Err(e) => Err(e),
        Ok(id) => match window_name_of(glyphs(listing.line)) {
            Err(e) => Err(e),
            Ok(name) => Ok(
                WindowView {
                    id,
                    name,
                    layout: layout_of(listing.line),
                    pane_count: listing.panes.len() as usize,
                    panes: match panes_of(listing.panes) {
                        Ok(panes) => Some(panes),
                        Err(_) => None,
                    },
                },
            ),
        },
    }
}

/// The windows that the first `n` listings describe, or the error of the
/// first among them that cannot be read.
pub open spec fn windows_upto(listings: Seq<WindowListingView>, n: int) -> Result<
    Seq<WindowView>,
    ParseError,
>
    decreases n,
{
    if n <= 0 || n > listings.len() {
        Ok(Seq::empty())
    } else {
        match windows_upto(listings, n - 1) {
            Err(e) => Err(e),
            Ok(windows) => match window_of(listings[n - 1]) {
                Err(e) => Err(e),
                Ok(w) => Ok(windows.push(w)),
            },
        }
    }
}

/// The windows that a window listing describes, in its order.
pub open spec fn windows_of(listings: Seq<WindowListingView>) -> Result<
    Seq<WindowView>,
    ParseError,
> {
    windows_upto(listings, listings.len() as int)
}

/// The session that a session line and the listing of its windows describe.
/// An unreadable window listing leaves the windows absent and is no error.
pub open spec fn session_of(line: Seq<char>, listings: Seq<WindowListingView>) -> Result<
    SessionView,
    ParseError,
> {
    match session_header_of(glyphs(line)) {
        Err(e) => Err(e),
        Ok((name, window_count)) => Ok(
            SessionView {
                name,
                window_count,
                windows: match windows_of(listings) {
                    Ok(windows) => Some(windows),
                    Err(_) => None,
                },
            },
        ),
    }
}

/// Where the first `:` of `v` stands.
fn delimiter_at(v: &Vec<char>) -> (r: Option<usize>)
    ensures
        match r {
            Some(i) => i < v.len() && split_once(v@, ':') == Some(
                (v@.subrange(0, i as int), v@.subrange(i + 1, v.len() as int)),
            ),
            None => split_once(v@, ':') is None,
        },
{
    let n: usize = v.len();
    assert(v@.subrange(0, n as int) =~= v@);
    let i: usize = find_char(v, ':', 0, n);
    if i < n {
        assert(v@.take(i as int) =~= v@.subrange(0, i as int));
        assert(v@.skip(i + 1) =~= v@.subrange(i + 1, n as int));
        Some(i)
    } else {
        None
    }
}

/// Where the first `:` of the glyphs `v` stands.
fn colon_at(v: &Vec<Glyph>) -> (r: Option<usize>)
    ensures
        match r {
            Some(i) => i < v.len() && split_glyphs(v@, ':') == Some(
                (v@.subrange(0, i as int), v@.subrange(i + 1, v.len() as int)),
            ),
            None => split_glyphs(v@, ':') is None,
        },
{
    let n: usize = v.len();
    assert(v@.subrange(0, n as int) =~= v@);
    let i: usize = find_glyph(v, ':', 0, n);
    if i < n {
        assert(v@.take(i as int) =~= v@.subrange(0, i as int));
        assert(v@.skip(i + 1) =~= v@.subrange(i + 1, n as int));
        Some(i)
    } else {
        None
    }
}

/// The bounds in `v` of the first token after the `:` at `colon`.
fn leading_token_at(v: &Vec<Glyph>, colon: usize) -> (r: Option<(usize, usize)>)
    requires
        colon < v.len(),
        split_glyphs(v@, ':') == Some(
            (v@.subrange(0, colon as int), v@.subrange(colon + 1, v.len() as int)),
        ),
    ensures
        match r {
            Some((a, b)) => a <= b <= v.len() && leading_token(v@) == Some(
                v@.subrange(a as int, b as int),
            ),
            None => leading_token(v@) is None,
        },
{
    let n: usize = v.len();
    let (a, b) = trim_at(v, colon + 1, n);
    let j: usize = find_glyph(v, ' ', a, b);
    if j < b {
        assert(v@.subrange(a as int, b as int).take(j - a) =~= v@.subrange(a as int, j as int));
        Some((a, j))
    } else {
        None
    }
}

/// The small number that the numeric characters before the `:` at `colon`
/// write.
fn head_number_at(v: &Vec<Glyph>, colon: usize) -> (r: Option<u8>)
    requires
        colon < v.len(),
    ensures
        r == parse_u8(digits_of(v@.subrange(0, colon as int))),
{
    let d = digits_at(v, 0, colon);
    assert(d@.subrange(0, d.len() as int) =~= d@);
    parse_u8_at(&d, 0, d.len())
}

/// Cuts a line at its first `:` into its head and the rest.
pub fn parse_raw_string_tuple(input: &str) -> (r: Result<(String, String), ParseError>)
    ensures
        match raw_tuple_of(input@) {
            Ok((head, rest)) => r is Ok && r->Ok_0.0@ == head && r->Ok_0.1@ == rest,
            Err(e) => r == Err::<(String, String), ParseError>(e),
        },
{
    let v = chars_of(input);
    match delimiter_at(&v) {
        None => Err(ParseError::Delimiter),
        Some(i) => Ok((string_of(&v, 0, i), string_of(&v, i + 1, v.len()))),
    }
}

impl Pane {
    /// Reads one line of a pane listing from its glyphs.
    pub fn read(line: &Vec<Glyph>) -> (r: Result<Pane, ParseError>)
        ensures
            match pane_id_of(line@) {
                Ok(id) => r == Ok::<Pane, ParseError>(Pane { id }),
                Err(e) => r == Err::<Pane, ParseError>(e),
            },
    {
        match colon_at(line) {
            None => Err(ParseError::Delimiter),
            Some(colon) => match head_number_at(line, colon) {
                Some(id) => Ok(Pane { id }),
                None => Err(ParseError::PaneId),
            },
        }
    }

    /// Reads one line of a pane listing.
    pub fn extract_pane(line: &str) -> (r: Result<Pane, ParseError>)
        ensures
            known_classes(line@),
            match pane_id_of(glyphs(line@)) {
                Ok(id) => r == Ok::<Pane, ParseError>(Pane { id }),
                Err(e) => r == Err::<Pane, ParseError>(e),
            },
    {
        Pane::read(&glyphs_of(line))
    }

    /// Reads the pane listing of one window, line by line and in order. The
    /// first line that cannot be read gives its error.
    pub fn extract_panes(raw_panes: &Vec<String>) -> (r: Result<Vec<Pane>, ParseError>)
        ensures
            match panes_of(raw_panes.deep_view()) {
                Ok(panes) => r is Ok && r->Ok_0@ == panes,
                Err(e) => r == Err::<Vec<Pane>, ParseError>(e),
            },
    {
        let ghost lines = raw_panes.deep_view();
        let mut pane_vec: Vec<Pane> = Vec::new();
        let mut i: usize = 0;
        while i < raw_panes.len()
            invariant
                i <= raw_panes.len(),
                lines == raw_panes.deep_view(),
                panes_upto(lines, i as int) == Ok::<Seq<Pane>, ParseError>(pane_vec@),
            decreases raw_panes.len() - i,
        {
            assert(lines[i as int] == raw_panes[i as int]@);
            match Pane::extract_pane(raw_panes[i].as_str()) {
                Err(e) => {
                    proof {
                        lemma_panes_error_stays(lines, i + 1, lines.len() as int);
                    }
                    return Err(e);
                },
                Ok(pane) => {
                    pane_vec.push(pane);
                },
            }
            i += 1;
        }
        Ok(pane_vec)
    }
}

/// An error among the first `n` lines of a pane listing is the error of
/// every longer part of it.
pub proof fn lemma_panes_error_stays(lines: Seq<Seq<char>>, n: int, m: int)
    requires
        0 <= n <= m <= lines.len(),
        panes_upto(lines, n) is Err,
    ensures
        panes_upto(lines, m) == panes_upto(lines, n),
    decreases m,
{
    if m > n {
        lemma_panes_error_stays(lines, n, m - 1);
    }
}

/// An error among the first `n` listings is the error of every longer part
/// of the window listing.
pub proof fn lemma_windows_error_stays(listings: Seq<WindowListingView>, n: int, m: int)
    requires
        0 <= n <= m <= listings.len(),
        windows_upto(listings, n) is Err,
    ensures
        windows_upto(listings, m) == windows_upto(listings, n),
    decreases m,
{
    if m > n {
        lemma_windows_error_stays(listings, n, m - 1);
    }
}

impl Window {
    /// The index of the window that the glyphs of a window line describe.
    pub fn read_id(line: &Vec<Glyph>) -> (r: Result<u8, ParseError>)
        ensures
            r == window_id_of(line@),
    {
        match colon_at(line) {
            None => Err(ParseError::Delimiter),
            Some(colon) => match head_number_at(line, colon) {
                Some(id) => Ok(id),
                None => Err(ParseError::WindowId),
            },
        }
    }

    /// The display name that the glyphs of a window line hold: the first
    /// token behind the `:`, without the markers at its end.
    pub fn read_name(line: &Vec<Glyph>) -> (r: Result<String, ParseError>)
        ensures
            match window_name_of(line@) {
                Ok(name) => r is Ok && r->Ok_0@ == name,
                Err(e) => r is Err && r->Err_0 == e,
            },
    {
        let colon: usize = match colon_at(line) {
            None => {
                return Err(ParseError::Delimiter);
            },
            Some(colon) => colon,
        };
        let (a, b) = match leading_token_at(line, colon) {
            None => {
                return Err(ParseError::WindowName);
            },
            Some(bounds) => bounds,
        };
        let (c, d) = trim_at(line, a, b);
        let end: usize = trim_end_markers_at(line, c, d);
        Ok(text_of(line, c, end))
    }

    /// The index of the window that a window line describes: what the pane
    /// listing of that window is asked for by.
    pub fn extract_id(line: &str) -> (r: Result<u8, ParseError>)
        ensures
            known_classes(line@),
            r == window_id_of(glyphs(line@)),
    {
        Window::read_id(&glyphs_of(line))
    }

    /// Reads one window from its line and its pane listing. The pane count
    /// is the number of lines of that listing; where the listing cannot be
    /// read the panes stay absent.
    pub fn extract_window(listing: &WindowListing) -> (r: Result<Window, ParseError>)
        ensures
            known_classes(listing.line@),
            match window_of(listing@) {
                Ok(w) => r is Ok && r->Ok_0@ == w,
                Err(e) => r is Err && r->Err_0 == e,
            },
    {
        let layout = extract_layout(listing.line.as_str());
        let line = glyphs_of(listing.line.as_str());
        let id: u8 = match Window::read_id(&line) {
            Err(e) => {
                return Err(e);
            },
            Ok(id) => id,
        };
        let pane_count: usize = listing.panes.len();
        let name = match Window::read_name(&line) {
            Err(e) => {
                return Err(e);
            },
            Ok(name) => name,
        };
        let panes = match Pane::extract_panes(&listing.panes) {
            Ok(panes) => Some(panes),
            Err(_) => None,
        };
        Ok(Window { name, id, panes, pane_count, layout })
    }

    /// Reads the windows of a session from their listings, in order. The
    /// first listing whose window line cannot be read gives its error.
    pub fn extract_windows(listings: &Vec<WindowListing>) -> (r: Result<Vec<Window>, ParseError>)
        ensures
            match windows_of(listing_views(listings@)) {
                Ok(ws) => r is Ok && window_views(r->Ok_0@) == ws,
                Err(e) => r is Err && r->Err_0 == e,
            },
    {
        let ghost ls = listing_views(listings@);
        let mut windows: Vec<Window> = Vec::new();
        assert(window_views(windows@) =~= Seq::<WindowView>::empty());
        let mut i: usize = 0;
        while i < listings.len()
            invariant
                i <= listings.len(),
                ls == listing_views(listings@),
                windows_upto(ls, i as int) == Ok::<Seq<WindowView>, ParseError>(
                    window_views(windows@),
                ),
            decreases listings.len() - i,
        {
            assert(ls[i as int] == listings[i as int]@);
            match Window::extract_window(&listings[i]) {
                Err(e) => {
                    proof {
                        lemma_windows_error_stays(ls, i + 1, ls.len() as int);
                    }
                    return Err(e);
                },
                Ok(w) => {
                    let ghost before = window_views(windows@);
                    windows.push(w);
                    assert(window_views(windows@) =~= before.push(w@));
                },
            }
            i += 1;
        }
        Ok(windows)
    }
}

impl Session {
    /// The name of the file that holds the snapshot of this session: the
    /// session's name with the ending `.yaml`.
    pub fn file_name(&self) -> (r: String)
        ensures
            r@ == self.name@ + ".yaml"@,
    {
        let mut r = self.name.clone();
        r.append(".yaml");
        r
    }

    /// The name and the declared window count that the glyphs of a session
    /// line hold.
    pub fn read_header(line: &Vec<Glyph>) -> (r: Result<(String, u8), ParseError>)
        ensures
            match session_header_of(line@) {
                Ok((name, count)) => r is Ok && r->Ok_0.0@ == name && r->Ok_0.1 == count,
                Err(e) => r is Err && r->Err_0 == e,
            },
    {
        let colon: usize = match colon_at(line) {
            None => {
                return Err(ParseError::Delimiter);
            },
            Some(colon) => colon,
        };
        let end: usize = trim_end_markers_at(line, 0, colon);
        let name = text_of(line, 0, end);
        let (a, b) = match leading_token_at(line, colon) {
            None => {
                return Err(ParseError::WindowCount);
            },
            Some(bounds) => bounds,
        };
        let token = chars_at(line, a, b);
        assert(token@.subrange(0, token.len() as int) =~= token@);
        match parse_u8_at(&token, 0, token.len()) {
            None => Err(ParseError::WindowCount),
            Some(window_count) => Ok((name, window_count)),
        }
    }

    /// The name and the declared window count of a session line: what the
    /// window listing of that session is asked for by.
    pub fn extract_header(input: &str) -> (r: Result<(String, u8), ParseError>)
        ensures
            known_classes(input@),
            match session_header_of(glyphs(input@)) {
                Ok((name, count)) => r is Ok && r->Ok_0.0@ == name && r->Ok_0.1 == count,
                Err(e) => r is Err && r->Err_0 == e,
            },
    {
        Session::read_header(&glyphs_of(input))
    }

    /// Reads a session from its line and the listings of its windows. A
    /// window listing that cannot be read leaves the windows absent; only
    /// the session line itself can make the extraction fail.
    pub fn extract_session(input: &str, listings: &Vec<WindowListing>) -> (r: Result<
        Session,
        ParseError,
    >)
        ensures
            known_classes(input@),
            match session_of(input@, listing_views(listings@)) {
                Ok(s) => r is Ok && r->Ok_0@ == s,
                Err(e) => r is Err && r->Err_0 == e,
            },
    {
        let (name, window_count) = match Session::extract_header(input) {
            Err(e) => {
                return Err(e);
            },
            Ok(header) => header,
        };
        let windows = match Window::extract_windows(listings) {
            Ok(windows) => Some(windows),
            Err(_) => None,
        };
        Ok(Session { name, window_count, windows })
    }
}

/// The first place at or after `from` where a layout token can end is `i`,
/// where none lies between the two and `i` is one or the end of the line.
pub proof fn lemma_find_close_is(s: Seq<char>, from: int, i: int)
    requires
        0 <= from <= i <= s.len(),
        forall|j: int| from <= j < i ==> !closes_at(s, j),
        i == s.len() || closes_at(s, i),
    ensures
        find_close(s, from) == i,
    decreases i - from,
{
    if from < i {
        lemma_find_close_is(s, from + 1, i);
    }
}

/// Where `find_close` finds a place, a layout token can end there.
pub proof fn lemma_find_close_found(s: Seq<char>, from: int)
    ensures
        find_close(s, from) <= s.len(),
        find_close(s, from) < s.len() ==> closes_at(s, find_close(s, from)),
    decreases s.len() - from,
{
    if 0 <= from < s.len() && !closes_at(s, from) {
        lemma_find_close_found(s, from + 1);
    }
}

/// The first keyword opening at or after `from` is at `i`, where none lies
/// between the two and `i` is one or the end of the line.
pub proof fn lemma_find_open_is(s: Seq<char>, from: int, i: int)
    requires
        0 <= from <= i <= s.len(),
        forall|j: int| from <= j < i ==> !opens_at(s, j),
        i == s.len() || opens_at(s, i),
    ensures
        find_open(s, from) == i,
    decreases i - from,
{
    if from < i {
        lemma_find_open_is(s, from + 1, i);
    }
}

/// A line that holds a layout token with its keyword gives exactly the
/// layout: nothing of what stands before the token, of the keyword, of the
/// closing bracket or of what follows, and every character of the layout.
/// The line is `before`, `[l`, the rest of the keyword, a space, the
/// layout, `]`, `after`. No `[l` stands in `before`, no space in the
/// keyword, no `]` before a space in the layout, and `after` is empty or
/// starts with a space. `before` may hold other bracketed tokens.
pub proof fn layout_of_token(
    before: Seq<char>,
    keyword: Seq<char>,
    content: Seq<char>,
    after: Seq<char>,
)
    requires
        forall|j: int|
            0 <= j < before.len() - 1 ==> !(#[trigger] before[j] == '[' && before[j + 1] == 'l'),
        forall|j: int| 0 <= j < keyword.len() ==> keyword[j] != ' ',
        forall|j: int|
            0 <= j < content.len() - 1 ==> !(#[trigger] content[j] == ']' && content[j + 1] == ' '),
        after.len() == 0 || after[0] == ' ',
    ensures
        layout_of(
            before + seq!['[', 'l'] + keyword + seq![' '] + content + seq![']'] + after,
        ) == content,
{
    let s = before + seq!['[', 'l'] + keyword + seq![' '] + content + seq![']'] + after;
    let open = before.len() as int;
    let space = open + 2 + keyword.len();
    let close = space + 1 + content.len();
    assert(s[open] == '[' && s[open + 1] == 'l');
    assert forall|j: int| 0 <= j < open implies !opens_at(s, j) by {
        assert(s[j] == before[j]);
        if j + 1 < open {
            assert(s[j + 1] == before[j + 1]);
        }
    }
    lemma_find_open_is(s, 0, open);
    assert forall|j: int| open + 1 <= j < space implies s[j] != ' ' by {
        if j > open + 1 {
            assert(s[j] == keyword[j - open - 2]);
        }
    }
    assert(s[space] == ' ');
    lemma_find_from_is(s, ' ', open + 1, space);
    assert forall|j: int| space + 1 <= j < close implies !closes_at(s, j) by {
        assert(s[j] == content[j - space - 1]);
        if j + 1 < close {
            assert(s[j + 1] == content[j - space]);
        } else {
            assert(s[j + 1] == ']');
        }
    }
    assert(s[close] == ']');
    if after.len() > 0 {
        assert(s[close + 1] == after[0]);
    }
    lemma_find_close_is(s, space + 1, close);
    assert(s.subrange(space + 1, close) =~= content);
}

/// A line without a keyword token that ends in a bare bracketed token gives
/// exactly what the brackets hold. Nothing before the token opens a
/// bracket, and no `]` inside it stands before a space.
pub proof fn layout_of_bare_token(before: Seq<char>, content: Seq<char>)
    requires
        forall|j: int| 0 <= j < before.len() ==> before[j] != '[',
        forall|j: int|
            0 <= j < content.len() - 1 ==> !(#[trigger] content[j] == ']' && content[j + 1] == ' '),
        forall|j: int| !opens_at(before + seq!['['] + content + seq![']'], j),
    ensures
        layout_of(before + seq!['['] + content + seq![']']) == content,
{
    let s = before + seq!['['] + content + seq![']'];
    let open = before.len() as int;
    let close = open + 1 + content.len();
    lemma_find_open_is(s, 0, s.len() as int);
    lemma_find_from_is(s, '[', 0, open);
    assert forall|j: int| open + 1 <= j < close implies !closes_at(s, j) by {
        assert(s[j] == content[j - open - 1]);
        if j + 1 < close {
            assert(s[j + 1] == content[j - open]);
        } else {
            assert(s[j + 1] == ']');
        }
    }
    assert(s[close] == ']');
    lemma_find_close_is(s, open + 1, close);
    assert(s.subrange(open + 1, close) =~= content);
}

/// A line without a layout token has the empty layout: one in which no `[l`
/// opens a token and which does not end in `]`. A size token such as
/// `[150x40]` in the middle of the line is no layout.
pub proof fn layout_of_line_without_token(s: Seq<char>)
    requires
        forall|j: int| !opens_at(s, j),
        s.len() == 0 || s.last() != ']',
    ensures
        layout_of(s) == Seq::<char>::empty(),
{
    lemma_find_open_is(s, 0, s.len() as int);
    lemma_find_close_found(s, find_from(s, '[', 0) + 1);
}

/// A line in which no `]` stands before a space or at the end has the empty
/// layout: a token that is never closed holds none.
pub proof fn layout_of_line_without_close(s: Seq<char>)
    requires
        forall|j: int| 0 <= j < s.len() ==> !closes_at(s, j),
    ensures
        layout_of(s) == Seq::<char>::empty(),
{
    let open = find_open(s, 0);
    lemma_find_close_found(s, find_from(s, ' ', open + 1) + 1);
    lemma_find_close_found(s, find_from(s, '[', 0) + 1);
}

/// A line whose keyword token holds no space has the empty layout: the
/// keyword never ends.
pub proof fn layout_of_keyword_without_space(s: Seq<char>)
    requires
        find_open(s, 0) < s.len(),
        forall|j: int| find_open(s, 0) < j < s.len() ==> s[j] != ' ',
    ensures
        layout_of(s) == Seq::<char>::empty(),
{
    let open = find_open(s, 0);
    lemma_find_open_found(s, 0);
    lemma_find_from_is(s, ' ', open + 1, s.len() as int);
}

/// Where `find_open` finds a place at or after `from`, a keyword token
/// opens there.
pub proof fn lemma_find_open_found(s: Seq<char>, from: int)
    requires
        0 <= from,
    ensures
        from <= find_open(s, from) || find_open(s, from) == s.len(),
        find_open(s, from) <= s.len(),
        find_open(s, from) < s.len() ==> opens_at(s, find_open(s, from)),
    decreases s.len() - from,
{
    if from < s.len() && !opens_at(s, from) {
        lemma_find_open_found(s, from + 1);
    }
}

/// A session line of the form name, markers, `:`, then a rest whose first
/// token is the count: the extraction gives the name without the markers
/// and the number that the token writes, and fails on the count where the
/// token writes none. The name is empty or ends in an alphanumeric
/// glyph, the markers are not alphanumeric, neither holds a `:`, and the
/// token is what the trimmed rest holds before its first space.
pub proof fn session_header_of_line(
    name: Seq<Glyph>,
    markers: Seq<Glyph>,
    colon: Glyph,
    rest: Seq<Glyph>,
    token: Seq<Glyph>,
    space: Glyph,
    tail: Seq<Glyph>,
)
    requires
        colon.c == ':',
        space.c == ' ',
        name.len() == 0 || name.last().alphanumeric,
        forall|j: int| 0 <= j < name.len() ==> name[j].c != ':',
        forall|j: int| 0 <= j < markers.len() ==> !markers[j].alphanumeric && markers[j].c != ':',
        trim(rest) == token + seq![space] + tail,
        forall|j: int| 0 <= j < token.len() ==> token[j].c != ' ',
    ensures
        session_header_of(name + markers + seq![colon] + rest) == match parse_u8(chars(token)) {
            Some(count) => Ok::<(Seq<char>, u8), ParseError>((chars(name), count)),
            None => Err::<(Seq<char>, u8), ParseError>(ParseError::WindowCount),
        },
{
    let head = name + markers;
    lemma_split_glyphs_of_join(head, colon, rest);
    lemma_split_glyphs_of_join(token, space, tail);
    lemma_trim_end_markers_of_join(name, markers);
}

/// A session line whose trimmed rest holds no space has no count token, and
/// the extraction fails on the count.
pub proof fn session_header_of_line_without_count(head: Seq<Glyph>, colon: Glyph, rest: Seq<Glyph>)
    requires
        colon.c == ':',
        forall|j: int| 0 <= j < head.len() ==> head[j].c != ':',
        forall|j: int| 0 <= j < trim(rest).len() ==> trim(rest)[j].c != ' ',
    ensures
        session_header_of(head + seq![colon] + rest) == Err::<(Seq<char>, u8), ParseError>(
            ParseError::WindowCount,
        ),
{
    lemma_split_glyphs_of_join(head, colon, rest);
    lemma_split_glyphs_without(trim(rest), ' ');
}

/// What follows the count in a session line: a space and the word
/// `windows`.
pub open spec fn windows_word() -> Seq<char> {
    seq![' ', 'w', 'i', 'n', 'd', 'o', 'w', 's']
}

/// The text of a session line: the head, `: `, the count token, ` windows`,
/// and what follows.
pub open spec fn session_line(head: Seq<char>, token: Seq<char>, rest: Seq<char>) -> Seq<char> {
    head + seq![':', ' '] + token + windows_word() + rest
}

/// In the text of a session line the head is what stands before the `:`,
/// and the count token is found behind it: the head holds no `:`, the token
/// is not empty and holds no whitespace.
pub proof fn lemma_session_line_parts(head: Seq<char>, token: Seq<char>, rest: Seq<char>)
    requires
        forall|j: int| 0 <= j < head.len() ==> head[j] != ':',
        token.len() > 0,
        forall|j: int| 0 <= j < token.len() ==> !whitespace(token[j]),
    ensures
        split_glyphs(glyphs(session_line(head, token, rest)), ':') is Some,
        split_glyphs(glyphs(session_line(head, token, rest)), ':')->Some_0.0 == glyphs(head),
        leading_token(glyphs(session_line(head, token, rest))) == Some(glyphs(token)),
{
    let line = session_line(head, token, rest);
    let behind = seq![' '] + token + windows_word() + rest;
    let colon = glyph_of(':');
    let space = glyph_of(' ');
    let g = glyphs(behind);
    let d = token.len() as int;
    assert(glyphs(line) =~= glyphs(head) + seq![colon] + g);
    lemma_split_glyphs_of_join(glyphs(head), colon, g);
    assert(g[0] == space);
    assert(g[1] == glyph_of(token[0]));
    lemma_text_start_is(g, 0, 1);
    assert(g[d + 8] == glyph_of('s'));
    lemma_text_end_above(g, d + 8, g.len() as int);
    let e = text_end(g, g.len() as int);
    let tail = g.subrange(d + 2, e);
    assert(g[d + 1] == space);
    assert(trim(g) =~= glyphs(token) + seq![space] + tail) by {
        assert forall|j: int| 0 <= j < d implies g[j + 1] == glyphs(token)[j] by {
            assert(behind[j + 1] == token[j]);
        }
    }
    assert forall|j: int| 0 <= j < d implies glyphs(token)[j].c != ' ' by {
        assert(!whitespace(token[j]));
    }
    lemma_split_glyphs_of_join(glyphs(token), space, tail);
}

/// A session line `<name><markers>: <count> windows ...` gives the name
/// without its markers and the count, whatever follows and whatever the
/// windows of the session are. The name is not empty, holds no `:` and ends
/// in an alphanumeric character; the markers hold no `:` and no
/// alphanumeric character; the count is written in base ten.
pub proof fn session_of_line(
    name: Seq<char>,
    markers: Seq<char>,
    count: u8,
    rest: Seq<char>,
    listings: Seq<WindowListingView>,
)
    requires
        name.len() > 0,
        alphanumeric(name.last()),
        forall|j: int| 0 <= j < name.len() ==> name[j] != ':',
        forall|j: int| 0 <= j < markers.len() ==> !alphanumeric(markers[j]) && markers[j] != ':',
    ensures
        session_header_of(glyphs(session_line(name + markers, decimal(count), rest))) == Ok::<
            (Seq<char>, u8),
            ParseError,
        >((name, count)),
        session_of(session_line(name + markers, decimal(count), rest), listings) is Ok,
        session_of(session_line(name + markers, decimal(count), rest), listings)->Ok_0.name
            == name,
        session_of(
            session_line(name + markers, decimal(count), rest),
            listings,
        )->Ok_0.window_count == count,
{
    let head = name + markers;
    lemma_session_line_parts(head, decimal(count), rest);
    assert(glyphs(head) =~= glyphs(name) + glyphs(markers));
    lemma_trim_end_markers_of_join(glyphs(name), glyphs(markers));
    chars_of_glyphs(name);
    chars_of_glyphs(decimal(count));
    parse_u8_of_decimal(count);
}

/// A session line whose count token writes no number fails on the window
/// count, and no session is read, whatever the head of the line and the
/// windows are. The token is not empty, holds no whitespace, and holds at
/// `i` a character that is neither a decimal digit nor a `+`.
pub proof fn session_of_line_with_malformed_count(
    head: Seq<char>,
    token: Seq<char>,
    i: int,
    rest: Seq<char>,
    listings: Seq<WindowListingView>,
)
    requires
        forall|j: int| 0 <= j < head.len() ==> head[j] != ':',
        forall|j: int| 0 <= j < token.len() ==> !whitespace(token[j]),
        0 <= i < token.len(),
        !is_digit(token[i]),
        token[i] != '+',
    ensures
        session_header_of(glyphs(session_line(head, token, rest))) == Err::<
            (Seq<char>, u8),
            ParseError,
        >(ParseError::WindowCount),
        session_of(session_line(head, token, rest), listings) == Err::<SessionView, ParseError>(
            ParseError::WindowCount,
        ),
{
    lemma_session_line_parts(head, token, rest);
    chars_of_glyphs(token);
    parse_u8_refuses_non_digits(token, i);
}

/// What a pane listing gives, line by line: where every line can be read,
/// one pane for each line, in the order of the lines; else the error of the
/// first line that cannot be read.
pub proof fn panes_of_each_line(lines: Seq<Seq<char>>, n: int)
    requires
        0 <= n <= lines.len(),
    ensures
        match panes_upto(lines, n) {
            Ok(panes) => panes.len() == n && forall|i: int|
                0 <= i < n ==> pane_id_of(glyphs(#[trigger] lines[i])) == Ok::<u8, ParseError>(
                    panes[i].id,
                ),
            Err(e) => exists|i: int|
                0 <= i < n && pane_id_of(glyphs(#[trigger] lines[i])) == Err::<u8, ParseError>(e)
                    && forall|j: int| 0 <= j < i ==> pane_id_of(glyphs(#[trigger] lines[j])) is Ok,
        },
    decreases n,
{
    if n > 0 {
        panes_of_each_line(lines, n - 1);
        match panes_upto(lines, n - 1) {
            Ok(panes) => {
                if pane_id_of(glyphs(lines[n - 1])) is Err {
                    assert(pane_id_of(glyphs(lines[n - 1])) == Err::<u8, ParseError>(
                        panes_upto(lines, n)->Err_0,
                    ));
                }
            },
            Err(e) => {},
        }
    }
}

/// What a window listing gives, window by window: where every window line
/// can be read, one window for each listing, in their order; else the error
/// of the first window that cannot be read.
pub proof fn windows_of_each_listing(listings: Seq<WindowListingView>, n: int)
    requires
        0 <= n <= listings.len(),
    ensures
        match windows_upto(listings, n) {
            Ok(windows) => windows.len() == n && forall|i: int|
                0 <= i < n ==> window_of(#[trigger] listings[i]) == Ok::<WindowView, ParseError>(
                    windows[i],
                ),
            Err(e) => exists|i: int|
                0 <= i < n && window_of(#[trigger] listings[i]) == Err::<WindowView, ParseError>(e)
                    && forall|j: int| 0 <= j < i ==> window_of(#[trigger] listings[j]) is Ok,
        },
    decreases n,
{
    if n > 0 {
        windows_of_each_listing(listings, n - 1);
        match windows_upto(listings, n - 1) {
            Ok(windows) => {
                if window_of(listings[n - 1]) is Err {
                    assert(window_of(listings[n - 1]) == Err::<WindowView, ParseError>(
                        windows_upto(listings, n)->Err_0,
                    ));
                }
            },
            Err(e) => {},
        }
    }
}

/// Children that cannot be read do not take their parent with them: a
/// window is read whenever its own line can be, with its panes absent where
/// their listing cannot; a session is read whenever its own line can be,
/// with its windows absent where their listing cannot.
pub proof fn unreadable_children_are_absent(
    line: Seq<char>,
    listings: Seq<WindowListingView>,
    listing: WindowListingView,
)
    ensures
        session_of(line, listings) is Ok <==> session_header_of(glyphs(line)) is Ok,
        session_of(line, listings) is Ok ==> (session_of(line, listings)->Ok_0.windows is None
            <==> windows_of(listings) is Err),
        window_of(listing) is Ok <==> window_id_of(glyphs(listing.line)) is Ok && window_name_of(
            glyphs(listing.line),
        ) is Ok,
        window_of(listing) is Ok ==> (window_of(listing)->Ok_0.panes is None <==> panes_of(
            listing.panes,
        ) is Err),
        window_of(listing) is Ok ==> window_of(listing)->Ok_0.pane_count
            == listing.panes.len() as usize,
{
}

} // verus!
