//! Character-level text operations, stated over sequences of characters
//! and of glyphs: characters with their Unicode classes.

use vstd::prelude::*;

verus! {

/// Whether a character is alphabetic or numeric in Unicode's sense.
pub uninterp spec fn alphanumeric(c: char) -> bool;

/// Whether a character is numeric in Unicode's sense: a decimal digit, a
/// letter-like number or another numeric character.
pub uninterp spec fn numeric(c: char) -> bool;

/// Whether a character has Unicode's `White_Space` property: the controls
/// from tab to carriage return, the space, next line, the no-break space,
/// the ogham space mark, the spaces from en quad to hair space, the line and
/// paragraph separators, the narrow no-break space, the medium mathematical
/// space and the ideographic space.
pub open spec fn whitespace(c: char) -> bool {
    ||| '\u{9}' <= c <= '\u{d}'
    ||| c == ' '
    ||| c == '\u{85}'
    ||| c == '\u{a0}'
    ||| c == '\u{1680}'
    ||| '\u{2000}' <= c <= '\u{200a}'
    ||| c == '\u{2028}'
    ||| c == '\u{2029}'
    ||| c == '\u{202f}'
    ||| c == '\u{205f}'
    ||| c == '\u{3000}'
}

/// Whether `c` is a letter or a decimal digit of ASCII.
pub open spec fn ascii_alphanumeric(c: char) -> bool {
    'a' <= c <= 'z' || 'A' <= c <= 'Z' || '0' <= c <= '9'
}

/// What is known of the classes of `c` where it is an ASCII character: it
/// is alphanumeric exactly where it is a letter or a digit, and numeric
/// exactly where it is a digit.
pub open spec fn ascii_classes(c: char) -> bool {
    c <= '\u{7f}' ==> alphanumeric(c) == ascii_alphanumeric(c) && numeric(c) == is_digit(c)
}

/// Whether the classes of the ASCII characters of `s` are known.
pub open spec fn known_classes(s: Seq<char>) -> bool {
    forall|i: int| 0 <= i < s.len() ==> ascii_classes(#[trigger] s[i])
}

/// `char::is_alphanumeric` of std: the answer depends on the character
/// alone, and is what [`alphanumeric`] names. Of the ASCII characters the
/// letters and the digits are alphanumeric, and no other.
pub assume_specification[ char::is_alphanumeric ](c: char) -> (r: bool)
    ensures
        r == alphanumeric(c),
        c <= '\u{7f}' ==> r == ascii_alphanumeric(c),
;

/// `char::is_numeric` of std: the answer depends on the character alone, and
/// is what [`numeric`] names. Of the ASCII characters the ten digits are
/// numeric, and no other.
pub assume_specification[ char::is_numeric ](c: char) -> (r: bool)
    ensures
        r == numeric(c),
        c <= '\u{7f}' ==> r == is_digit(c),
;

/// `char::is_whitespace` of std: whether the character has the `White_Space`
/// property, which [`whitespace`] writes out.
pub assume_specification[ char::is_whitespace ](c: char) -> (r: bool)
    ensures
        r == whitespace(c),
;

/// `String::push` of std: appends one character at the end.
pub assume_specification[ String::push ](s: &mut String, c: char)
    ensures
        final(s)@ == old(s)@.push(c),
;

/// The characters of a string slice, in order.
pub fn chars_of(s: &str) -> (v: Vec<char>)
    ensures
        v@ == s@,
{
    let mut v: Vec<char> = Vec::new();
    for c in it: s.chars()
        invariant
            v@ == it.seq().take(it.index() as int),
            it.seq() == s@,
    {
        v.push(c);
    }
    v
}

/// The string made of the characters `v[from..to]`.
pub fn string_of(v: &Vec<char>, from: usize, to: usize) -> (s: String)
    requires
        from <= to <= v.len(),
    ensures
        s@ == v@.subrange(from as int, to as int),
{
    let mut s = String::new();
    let mut i: usize = from;
    while i < to
        invariant
            from <= i <= to <= v.len(),
            s@ == v@.subrange(from as int, i as int),
        decreases to - i,
    {
        s.push(v[i]);
        i += 1;
    }
    s
}

/// A copy of some lines.
pub fn copy_lines(lines: &Vec<String>) -> (r: Vec<String>)
    ensures
        r.deep_view() == lines.deep_view(),
{
    let mut r: Vec<String> = Vec::new();
    let mut i: usize = 0;
    while i < lines.len()
        invariant
            i <= lines.len(),
            r.len() == i,
            forall|j: int| 0 <= j < i ==> r[j]@ == lines[j]@,
        decreases lines.len() - i,
    {
        r.push(lines[i].clone());
        i += 1;
    }
    assert(r.deep_view() =~= lines.deep_view());
    r
}

/// A character together with the classes that Unicode puts it in. The text
/// operations read the classes from here, so that what they compute is a
/// function of the glyphs alone.
#[derive(Debug, Clone, Copy, PartialEq, Eq, Structural)]
pub struct Glyph {
    /// The character.
    pub c: char,
    /// Whether it is alphabetic or numeric.
    pub alphanumeric: bool,
    /// Whether it is numeric.
    pub numeric: bool,
    /// Whether it is whitespace.
    pub whitespace: bool,
}

/// The glyph of a character: the character with its classes.
pub open spec fn glyph_of(c: char) -> Glyph {
    Glyph { c, alphanumeric: alphanumeric(c), numeric: numeric(c), whitespace: whitespace(c) }
}

/// The glyphs of a text, character by character.
pub open spec fn glyphs(s: Seq<char>) -> Seq<Glyph> {
    Seq::new(s.len(), |i: int| glyph_of(s[i]))
}

/// The characters of a sequence of glyphs.
pub open spec fn chars(g: Seq<Glyph>) -> Seq<char> {
    Seq::new(g.len(), |i: int| g[i].c)
}

/// The glyph of a character.
pub fn classify(c: char) -> (g: Glyph)
    ensures
        g == glyph_of(c),
        ascii_classes(c),
{
    Glyph {
        c,
        alphanumeric: c.is_alphanumeric(),
        numeric: c.is_numeric(),
        whitespace: c.is_whitespace(),
    }
}

/// The glyphs of a string slice, in order. The call also tells the classes
/// of the ASCII characters of the slice.
pub fn glyphs_of(s: &str) -> (v: Vec<Glyph>)
    ensures
        v@ == glyphs(s@),
        known_classes(s@),
{
    let cs = chars_of(s);
    let mut v: Vec<Glyph> = Vec::new();
    let mut i: usize = 0;
    while i < cs.len()
        invariant
            i <= cs.len(),
            v.len() == i,
            forall|j: int| 0 <= j < i ==> v[j] == glyph_of(cs[j]),
            forall|j: int| 0 <= j < i ==> ascii_classes(#[trigger] cs[j]),
        decreases cs.len() - i,
    {
        v.push(classify(cs[i]));
        i += 1;
    }
    assert(v@ =~= glyphs(cs@));
    v
}

/// The characters of the glyphs `v[from..to]`.
pub fn chars_at(v: &Vec<Glyph>, from: usize, to: usize) -> (d: Vec<char>)
    requires
        from <= to <= v.len(),
    ensures
        d@ == chars(v@.subrange(from as int, to as int)),
{
    let mut d: Vec<char> = Vec::new();
    let mut i: usize = from;
    while i < to
        invariant
            from <= i <= to <= v.len(),
            d@ == chars(v@.subrange(from as int, i as int)),
        decreases to - i,
    {
        d.push(v[i].c);
        assert(d@ =~= chars(v@.subrange(from as int, i + 1)));
        i += 1;
    }
    d
}

/// The string made of the characters of the glyphs `v[from..to]`.
pub fn text_of(v: &Vec<Glyph>, from: usize, to: usize) -> (s: String)
    requires
        from <= to <= v.len(),
    ensures
        s@ == chars(v@.subrange(from as int, to as int)),
{
    let d = chars_at(v, from, to);
    assert(d@.subrange(0, d.len() as int) =~= d@);
    string_of(&d, 0, d.len())
}

/// The index of the first `c` in `s` at or after `from`; `s.len()` where
/// there is none.
pub open spec fn find_from(s: Seq<char>, c: char, from: int) -> int
    decreases s.len() - from,
{
    if from < 0 || from >= s.len() {
        s.len() as int
    } else if s[from] == c {
        from
    } else {
        find_from(s, c, from + 1)
    }
}

/// `s` cut at its first `c`: what stands before it and what stands after
/// it. `None` where `s` holds no `c`.
pub open spec fn split_once(s: Seq<char>, c: char) -> Option<(Seq<char>, Seq<char>)> {
    let i = find_from(s, c, 0);
    if i < s.len() {
        Some((s.take(i), s.skip(i + 1)))
    } else {
        None
    }
}

/// The glyphs `g` cut at the first whose character is `c`: those before it
/// and those after it. `None` where no glyph holds `c`.
pub open spec fn split_glyphs(g: Seq<Glyph>, c: char) -> Option<(Seq<Glyph>, Seq<Glyph>)> {
    let i = find_from(chars(g), c, 0);
    if i < g.len() {
        Some((g.take(i), g.skip(i + 1)))
    } else {
        None
    }
}

/// The length of `s.take(end)` once the non-alphanumeric characters at its
/// end are taken off.
pub open spec fn marked_len(s: Seq<Glyph>, end: int) -> int
    decreases end,
{
    if end <= 0 || end > s.len() {
        0
    } else if s[end - 1].alphanumeric {
        end
    } else {
        marked_len(s, end - 1)
    }
}

/// `s` without the non-alphanumeric characters at its end.
pub open spec fn trim_end_markers(s: Seq<Glyph>) -> Seq<Glyph> {
    s.take(marked_len(s, s.len() as int))
}

/// The index of the first character of `s` at or after `from` that is no
/// whitespace; `s.len()` where there is none.
pub open spec fn text_start(s: Seq<Glyph>, from: int) -> int
    decreases s.len() - from,
{
    if from < 0 || from >= s.len() {
        s.len() as int
    } else if !s[from].whitespace {
        from
    } else {
        text_start(s, from + 1)
    }
}

/// The length of `s.take(end)` once the whitespace at its end is taken off.
pub open spec fn text_end(s: Seq<Glyph>, end: int) -> int
    decreases end,
{
    if end <= 0 || end > s.len() {
        0
    } else if !s[end - 1].whitespace {
        end
    } else {
        text_end(s, end - 1)
    }
}

/// `s` without the whitespace at its start and at its end.
pub open spec fn trim(s: Seq<Glyph>) -> Seq<Glyph> {
    let a = text_start(s, 0);
    let b = text_end(s, s.len() as int);
    if a < b {
        s.subrange(a, b)
    } else {
        Seq::empty()
    }
}

/// The numeric characters among the first `end` of `s`, in order.
pub open spec fn numeric_chars(s: Seq<Glyph>, end: int) -> Seq<char>
    decreases end,
{
    if end <= 0 || end > s.len() {
        Seq::empty()
    } else if s[end - 1].numeric {
        numeric_chars(s, end - 1).push(s[end - 1].c)
    } else {
        numeric_chars(s, end - 1)
    }
}

/// The numeric characters of `s`, in order.
pub open spec fn digits_of(s: Seq<Glyph>) -> Seq<char> {
    numeric_chars(s, s.len() as int)
}

/// Whether `c` is one of the ten decimal digits of ASCII.
pub open spec fn is_digit(c: char) -> bool {
    '0' <= c <= '9'
}

/// The number that the first `end` characters of `s` write in base ten,
/// where they are decimal digits.
pub open spec fn decimal_value(s: Seq<char>, end: int) -> int
    decreases end,
{
    if end <= 0 || end > s.len() {
        0
    } else {
        decimal_value(s, end - 1) * 10 + (s[end - 1] as int - '0' as int)
    }
}

/// Whether `s` holds decimal digits only.
pub open spec fn all_digits(s: Seq<char>) -> bool {
    forall|i: int| 0 <= i < s.len() ==> is_digit(#[trigger] s[i])
}

/// `s` without the `+` that may stand at its start.
pub open spec fn unsigned_part(s: Seq<char>) -> Seq<char> {
    if s.len() > 0 && s[0] == '+' {
        s.skip(1)
    } else {
        s
    }
}

/// The number that `s` writes, as `str::parse::<u8>` reads it: an optional
/// `+`, then at least one decimal digit, the value at most 255.
pub open spec fn parse_u8(s: Seq<char>) -> Option<u8> {
    let body = unsigned_part(s);
    if body.len() > 0 && all_digits(body) && decimal_value(body, body.len() as int) <= 255 {
        Some(decimal_value(body, body.len() as int) as u8)
    } else {
        None
    }
}

/// The first index of `c` in `v[from..to]`, or `to`.
pub fn find_char(v: &Vec<char>, c: char, from: usize, to: usize) -> (i: usize)
    requires
        from <= to <= v.len(),
    ensures
        from <= i <= to,
        i - from == find_from(v@.subrange(from as int, to as int), c, 0),
{
    let ghost s = v@.subrange(from as int, to as int);
    let mut i: usize = from;
    while i < to
        invariant
            from <= i <= to <= v.len(),
            s == v@.subrange(from as int, to as int),
            find_from(s, c, 0) == find_from(s, c, i - from),
        decreases to - i,
    {
        assert(s[i - from] == v@[i as int]);
        if v[i] == c {
            return i;
        }
        i += 1;
    }
    i
}

/// The first index in `v[from..to]` of a glyph whose character is `c`, or
/// `to`.
pub fn find_glyph(v: &Vec<Glyph>, c: char, from: usize, to: usize) -> (i: usize)
    requires
        from <= to <= v.len(),
    ensures
        from <= i <= to,
        i - from == find_from(chars(v@.subrange(from as int, to as int)), c, 0),
{
    let ghost s = chars(v@.subrange(from as int, to as int));
    let mut i: usize = from;
    while i < to
        invariant
            from <= i <= to <= v.len(),
            s == chars(v@.subrange(from as int, to as int)),
            find_from(s, c, 0) == find_from(s, c, i - from),
        decreases to - i,
    {
        assert(s[i - from] == v@[i as int].c);
        if v[i].c == c {
            return i;
        }
        i += 1;
    }
    i
}

/// Where `v[from..to]` ends once the non-alphanumeric characters at its end
/// are taken off.
pub fn trim_end_markers_at(v: &Vec<Glyph>, from: usize, to: usize) -> (end: usize)
    requires
        from <= to <= v.len(),
    ensures
        from <= end <= to,
        v@.subrange(from as int, end as int) == trim_end_markers(
            v@.subrange(from as int, to as int),
        ),
{
    let ghost s = v@.subrange(from as int, to as int);
    let mut end: usize = to;
    while end > from && !v[end - 1].alphanumeric
        invariant
            from <= end <= to <= v.len(),
            s == v@.subrange(from as int, to as int),
            marked_len(s, s.len() as int) == marked_len(s, end - from),
        decreases end,
    {
        assert(s[end - from - 1] == v@[end - 1]);
        end -= 1;
    }
    proof {
        if end > from {
            assert(s[end - from - 1] == v@[end - 1]);
        }
        assert(v@.subrange(from as int, end as int) =~= s.take(end - from));
    }
    end
}

/// The bounds of `v[from..to]` without the whitespace at its start and at
/// its end.
pub fn trim_at(v: &Vec<Glyph>, from: usize, to: usize) -> (r: (usize, usize))
    requires
        from <= to <= v.len(),
    ensures
        from <= r.0 <= r.1 <= to,
        v@.subrange(r.0 as int, r.1 as int) == trim(v@.subrange(from as int, to as int)),
{
    let ghost s = v@.subrange(from as int, to as int);
    let mut a: usize = from;
    while a < to && v[a].whitespace
        invariant
            from <= a <= to <= v.len(),
            s == v@.subrange(from as int, to as int),
            text_start(s, 0) == text_start(s, a - from),
        decreases to - a,
    {
        assert(s[a - from] == v@[a as int]);
        a += 1;
    }
    let mut b: usize = to;
    while b > a && v[b - 1].whitespace
        invariant
            from <= a <= b <= to <= v.len(),
            s == v@.subrange(from as int, to as int),
            a < to ==> a < b && !v@[a as int].whitespace,
            text_end(s, s.len() as int) == text_end(s, b - from),
        decreases b,
    {
        assert(s[b - from - 1] == v@[b - 1]);
        b -= 1;
    }
    proof {
        lemma_text_end_bound(s, b - from);
        if a < to {
            assert(s[a - from] == v@[a as int]);
            assert(s[b - from - 1] == v@[b - 1]);
            assert(v@.subrange(a as int, b as int) =~= s.subrange(a - from, b - from));
        } else {
            assert(v@.subrange(a as int, b as int) =~= Seq::<Glyph>::empty());
        }
    }
    (a, b)
}

/// The text of `s` starts at `i` where everything between `from` and `i` is
/// whitespace and `i` holds none or is the end of `s`.
pub proof fn lemma_text_start_is(s: Seq<Glyph>, from: int, i: int)
    requires
        0 <= from <= i <= s.len(),
        forall|j: int| from <= j < i ==> s[j].whitespace,
        i == s.len() || !s[i].whitespace,
    ensures
        text_start(s, from) == i,
    decreases i - from,
{
    if from < i {
        lemma_text_start_is(s, from + 1, i);
    }
}

/// The whitespace taken off the end of `s.take(end)` stops above every
/// glyph that is none.
pub proof fn lemma_text_end_above(s: Seq<Glyph>, j: int, end: int)
    requires
        0 <= j < end <= s.len(),
        !s[j].whitespace,
    ensures
        j < text_end(s, end) <= end,
    decreases end,
{
    if s[end - 1].whitespace {
        lemma_text_end_above(s, j, end - 1);
    }
}

/// `text_end` is never negative and never exceeds the bound it starts from.
pub proof fn lemma_text_end_bound(s: Seq<Glyph>, end: int)
    ensures
        0 <= text_end(s, end),
        text_end(s, end) <= end || end < 0,
    decreases end,
{
    if end > 0 && end <= s.len() && s[end - 1].whitespace {
        lemma_text_end_bound(s, end - 1);
    }
}

/// The numeric characters of `v[from..to]`, in order.
pub fn digits_at(v: &Vec<Glyph>, from: usize, to: usize) -> (d: Vec<char>)
    requires
        from <= to <= v.len(),
    ensures
        d@ == digits_of(v@.subrange(from as int, to as int)),
{
    let ghost s = v@.subrange(from as int, to as int);
    let mut d: Vec<char> = Vec::new();
    let mut i: usize = from;
    while i < to
        invariant
            from <= i <= to <= v.len(),
            s == v@.subrange(from as int, to as int),
            d@ == numeric_chars(s, i - from),
        decreases to - i,
    {
        assert(s[i - from] == v@[i as int]);
        if v[i].numeric {
            d.push(v[i].c);
        }
        i += 1;
    }
    d
}

/// Over decimal digits the value only grows as more of them are read.
pub proof fn lemma_decimal_grows(s: Seq<char>, k: int, end: int)
    requires
        0 <= k <= end <= s.len(),
        all_digits(s),
    ensures
        0 <= decimal_value(s, k) <= decimal_value(s, end),
    decreases end,
{
    if end > k {
        lemma_decimal_grows(s, k, end - 1);
    } else if k > 0 {
        lemma_decimal_grows(s, k - 1, k - 1);
    }
}

/// The number that `v[from..to]` writes, read as `str::parse::<u8>` reads
/// it.
#[verifier::loop_isolation(false)]
pub fn parse_u8_at(v: &Vec<char>, from: usize, to: usize) -> (r: Option<u8>)
    requires
        from <= to <= v.len(),
    ensures
        r == parse_u8(v@.subrange(from as int, to as int)),
{
    let ghost s = v@.subrange(from as int, to as int);
    let start: usize = if from < to && v[from] == '+' {
        from + 1
    } else {
        from
    };
    let ghost body = v@.subrange(start as int, to as int);
    proof {
        if from < to {
            assert(s[0] == v@[from as int]);
        }
        if start == from {
            assert(body =~= s);
        } else {
            assert(body =~= s.skip(1));
        }
    }
    if start == to {
        return None;
    }
    let mut acc: u32 = 0;
    let mut i: usize = start;
    while i < to
        invariant
            start <= i <= to <= v.len(),
            body == v@.subrange(start as int, to as int),
            forall|j: int| 0 <= j < i - start ==> is_digit(#[trigger] body[j]),
            acc == decimal_value(body, i - start),
            acc <= 255,
        decreases to - i,
    {
        let c = v[i];
        assert(body[i - start] == c);
        if c < '0' || c > '9' {
            assert(!is_digit(body[i - start]));
            return None;
        }
        let d: u32 = c as u32 - '0' as u32;
        acc = acc * 10 + d;
        if acc > 255 {
            proof {
                if all_digits(body) {
                    lemma_decimal_grows(body, i - start + 1, body.len() as int);
                }
            }
            return None;
        }
        i += 1;
    }
    Some(acc as u8)
}

/// The character that writes the digit `d`.
pub open spec fn digit_char(d: int) -> char {
    if d == 0 {
        '0'
    } else if d == 1 {
        '1'
    } else if d == 2 {
        '2'
    } else if d == 3 {
        '3'
    } else if d == 4 {
        '4'
    } else if d == 5 {
        '5'
    } else if d == 6 {
        '6'
    } else if d == 7 {
        '7'
    } else if d == 8 {
        '8'
    } else {
        '9'
    }
}

/// `n` written in base ten, without leading zeros.
pub open spec fn decimal(n: u8) -> Seq<char> {
    if n < 10 {
        seq![digit_char(n as int)]
    } else if n < 100 {
        seq![digit_char(n as int / 10), digit_char(n as int % 10)]
    } else {
        seq![digit_char(n as int / 100), digit_char(n as int / 10 % 10), digit_char(n as int % 10)]
    }
}

/// The character that writes the digit `d`.
pub fn digit_to_char(d: u8) -> (c: char)
    requires
        d < 10,
    ensures
        c == digit_char(d as int),
{
    match d {
        0 => '0',
        1 => '1',
        2 => '2',
        3 => '3',
        4 => '4',
        5 => '5',
        6 => '6',
        7 => '7',
        8 => '8',
        _ => '9',
    }
}

/// Appends `n`, written in base ten, to `s`.
pub fn push_decimal(s: &mut String, n: u8)
    ensures
        final(s)@ == old(s)@ + decimal(n),
{
    if n >= 100 {
        s.push(digit_to_char(n / 100));
    }
    if n >= 10 {
        s.push(digit_to_char(n / 10 % 10));
    }
    s.push(digit_to_char(n % 10));
    assert(s@ =~= old(s)@ + decimal(n));
}

/// Where the last segment of the path `s.take(end)` starts: behind its last
/// `/`, or at 0 where it holds none.
pub open spec fn segment_start(s: Seq<char>, end: int) -> int
    decreases end,
{
    if end <= 0 || end > s.len() {
        0
    } else if s[end - 1] == '/' {
        end
    } else {
        segment_start(s, end - 1)
    }
}

/// What follows the last `/` of `s`; all of `s` where it holds none.
pub open spec fn last_segment(s: Seq<char>) -> Seq<char> {
    s.skip(segment_start(s, s.len() as int))
}

/// Where the last segment of the path `v` starts.
pub fn last_segment_at(v: &Vec<char>) -> (start: usize)
    ensures
        start <= v.len(),
        v@.subrange(start as int, v.len() as int) == last_segment(v@),
{
    let mut start: usize = v.len();
    while start > 0 && v[start - 1] != '/'
        invariant
            start <= v.len(),
            segment_start(v@, v.len() as int) == segment_start(v@, start as int),
        decreases start,
    {
        start -= 1;
    }
    assert(v@.subrange(start as int, v.len() as int) =~= v@.skip(start as int));
    start
}

/// The first `c` of `s` at or after `from` lies between `from` and the end
/// of `s`.
pub proof fn lemma_find_from_bounds(s: Seq<char>, c: char, from: int)
    requires
        0 <= from <= s.len(),
    ensures
        from <= find_from(s, c, from) <= s.len(),
    decreases s.len() - from,
{
    if from < s.len() && s[from] != c {
        lemma_find_from_bounds(s, c, from + 1);
    }
}

/// The first `c` of `s` at or after `from` is at `i` where no `c` stands
/// between the two and `i` holds one or is the end of `s`.
pub proof fn lemma_find_from_is(s: Seq<char>, c: char, from: int, i: int)
    requires
        0 <= from <= i <= s.len(),
        forall|j: int| from <= j < i ==> s[j] != c,
        i == s.len() || s[i] == c,
    ensures
        find_from(s, c, from) == i,
    decreases i - from,
{
    if from < i {
        lemma_find_from_is(s, c, from + 1, i);
    }
}

/// The characters of the glyphs of a text are the text.
pub proof fn chars_of_glyphs(s: Seq<char>)
    ensures
        chars(glyphs(s)) == s,
{
    assert(chars(glyphs(s)) =~= s);
}

/// Cutting the glyphs of a text is cutting the text: the glyphs of a text
/// are cut where the text is, into the glyphs of its two parts.
pub proof fn split_glyphs_of_text(s: Seq<char>, c: char)
    ensures
        split_glyphs(glyphs(s), c) == match split_once(s, c) {
            Some((head, rest)) => Some((glyphs(head), glyphs(rest))),
            None => None,
        },
{
    chars_of_glyphs(s);
    let i = find_from(s, c, 0);
    lemma_find_from_bounds(s, c, 0);
    if i < s.len() {
        assert(glyphs(s).take(i) =~= glyphs(s.take(i)));
        assert(glyphs(s).skip(i + 1) =~= glyphs(s.skip(i + 1)));
    }
}

/// Cutting glyphs at the first `c` undoes joining with a glyph of `c`,
/// where no glyph before it holds `c`.
pub proof fn lemma_split_glyphs_of_join(head: Seq<Glyph>, mark: Glyph, rest: Seq<Glyph>)
    requires
        forall|j: int| 0 <= j < head.len() ==> head[j].c != mark.c,
    ensures
        split_glyphs(head + seq![mark] + rest, mark.c) == Some((head, rest)),
{
    let g = head + seq![mark] + rest;
    lemma_find_from_is(chars(g), mark.c, 0, head.len() as int);
    assert(g.take(head.len() as int) =~= head);
    assert(g.skip(head.len() as int + 1) =~= rest);
}

/// Glyphs of which none holds `c` cannot be cut at one.
pub proof fn lemma_split_glyphs_without(g: Seq<Glyph>, c: char)
    requires
        forall|j: int| 0 <= j < g.len() ==> g[j].c != c,
    ensures
        split_glyphs(g, c) is None,
{
    lemma_find_from_is(chars(g), c, 0, g.len() as int);
}

/// Markers behind a name are taken off again: where `name` is empty or ends
/// in an alphanumeric glyph and `markers` holds none, `trim_end_markers`
/// gives `name` back.
pub proof fn lemma_trim_end_markers_of_join(name: Seq<Glyph>, markers: Seq<Glyph>)
    requires
        name.len() == 0 || name.last().alphanumeric,
        forall|j: int| 0 <= j < markers.len() ==> !markers[j].alphanumeric,
    ensures
        trim_end_markers(name + markers) == name,
{
    let s = name + markers;
    lemma_marked_len_stops(s, name.len() as int, s.len() as int);
    assert(s.take(name.len() as int) =~= name);
}

/// Taking markers off stops at `keep` where everything between `keep` and
/// `end` is a marker and `keep` is 0 or stands behind an alphanumeric
/// glyph.
pub proof fn lemma_marked_len_stops(s: Seq<Glyph>, keep: int, end: int)
    requires
        0 <= keep <= end <= s.len(),
        forall|j: int| keep <= j < end ==> !s[j].alphanumeric,
        keep == 0 || s[keep - 1].alphanumeric,
    ensures
        marked_len(s, end) == keep,
    decreases end - keep,
{
    if keep < end {
        lemma_marked_len_stops(s, keep, end - 1);
    }
}

/// A text that holds a character which is neither a decimal digit nor a
/// `+` at its start writes no number.
pub proof fn parse_u8_refuses_non_digits(s: Seq<char>, i: int)
    requires
        0 <= i < s.len(),
        !is_digit(s[i]),
        i > 0 || s[0] != '+',
    ensures
        parse_u8(s) is None,
{
    let body = unsigned_part(s);
    if s[0] == '+' {
        assert(body[i - 1] == s[i]);
    } else {
        assert(body[i] == s[i]);
    }
}

/// What `decimal` writes, `parse_u8` reads back.
pub proof fn parse_u8_of_decimal(n: u8)
    ensures
        parse_u8(decimal(n)) == Some(n),
{
    let s = decimal(n);
    assert(unsigned_part(s) == s);
    assert(all_digits(s));
    reveal_with_fuel(decimal_value, 4);
    assert(decimal_value(s, s.len() as int) == n);
}

} // verus!
