//! Text as the screens need it: building it, measuring it, cutting it to fit,
//! and writing numbers into it.
//!
//! The model of a string is the sequence of its characters.

use vstd::prelude::*;

verus! {

// ---------------------------------------------------------------------------
// Operations of the standard library
// ---------------------------------------------------------------------------

/// `String::push` appends one character to the end of the string.
pub assume_specification[ String::push ](s: &mut String, ch: char)
    ensures
        final(s)@ == old(s)@.push(ch),
;

/// `String::pop` removes the last character and returns it, and leaves an
/// empty string empty.
pub assume_specification[ String::pop ](s: &mut String) -> (r: Option<char>)
    ensures
        old(s)@.len() == 0 ==> r is None && final(s)@ == old(s)@,
        old(s)@.len() > 0 ==> r == Some(old(s)@.last()) && final(s)@ == old(s)@.drop_last(),
;

/// `String::clear` removes every character.
pub assume_specification[ String::clear ](s: &mut String)
    ensures
        final(s)@ == Seq::<char>::empty(),
;

/// Whether a string holds ASCII characters alone.
pub open spec fn is_ascii(s: Seq<char>) -> bool {
    forall|i: int| 0 <= i < s.len() ==> #[trigger] s[i] <= '\u{7f}'
}

/// The lower-case form of a string that is not ASCII, as `str::to_lowercase`
/// computes it.
pub uninterp spec fn lowercase_beyond_ascii(s: Seq<char>) -> Seq<char>;

/// The lower-case form of a string. In ASCII, the letters A to Z are made small.
pub open spec fn lowercase(s: Seq<char>) -> Seq<char> {
    if is_ascii(s) {
        s.map_values(|c: char| ascii_small(c))
    } else {
        lowercase_beyond_ascii(s)
    }
}

/// `str::to_lowercase` maps a string to its lower-case form. In ASCII that is
/// the string with the letters A to Z made small; otherwise it depends on the
/// string alone.
#[verifier::external_body]
pub(crate) fn to_lowercase(s: &str) -> (r: String)
    ensures
        r@ == (if is_ascii(s@) {
            lowercase(s@)
        } else {
            lowercase_beyond_ascii(s@)
        }),
{
    s.to_lowercase()
}

/// The upper-case form of a string that is not ASCII, as `str::to_uppercase`
/// computes it.
pub uninterp spec fn uppercase_beyond_ascii(s: Seq<char>) -> Seq<char>;

/// The upper-case form of a string. In ASCII, the letters a to z are made large.
pub open spec fn uppercase(s: Seq<char>) -> Seq<char> {
    if is_ascii(s) {
        s.map_values(|c: char| ascii_large(c))
    } else {
        uppercase_beyond_ascii(s)
    }
}

/// `str::to_uppercase` maps a string to its upper-case form. In ASCII that is
/// the string with the letters a to z made large; otherwise it depends on the
/// string alone.
#[verifier::external_body]
pub(crate) fn to_uppercase(s: &str) -> (r: String)
    ensures
        r@ == (if is_ascii(s@) {
            uppercase(s@)
        } else {
            uppercase_beyond_ascii(s@)
        }),
{
    s.to_uppercase()
}

/// Whether a character has the Unicode property `White_Space`.
pub open spec fn white_space(c: char) -> bool {
    ('\u{9}' <= c <= '\u{d}') || c == ' ' || c == '\u{85}' || c == '\u{a0}' || c == '\u{1680}' || (
    '\u{2000}' <= c <= '\u{200a}') || c == '\u{2028}' || c == '\u{2029}' || c == '\u{202f}' || c
        == '\u{205f}' || c == '\u{3000}'
}

/// A string without its leading white space.
pub open spec fn trimmed_start(s: Seq<char>) -> Seq<char>
    decreases s.len(),
{
    if s.len() > 0 && white_space(s[0]) {
        trimmed_start(s.drop_first())
    } else {
        s
    }
}

/// A string without its trailing white space.
pub open spec fn trimmed_end(s: Seq<char>) -> Seq<char>
    decreases s.len(),
{
    if s.len() > 0 && white_space(s.last()) {
        trimmed_end(s.drop_last())
    } else {
        s
    }
}

/// A string without its leading and trailing white space.
pub open spec fn trimmed(s: Seq<char>) -> Seq<char> {
    trimmed_end(trimmed_start(s))
}

/// `char::is_whitespace` decides whether a character has the Unicode property
/// `White_Space`.
#[verifier::external_body]
fn is_white_space(c: char) -> (r: bool)
    ensures
        r == white_space(c),
{
    c.is_whitespace()
}

/// A string without its leading and trailing white space.
pub fn trim(s: &str) -> (r: &str)
    ensures
        r@ == trimmed(s@),
{
    let x: Vec<char> = chars_of(s);
    let mut from: usize = 0;
    proof {
        assert(s@.skip(0) =~= s@);
    }
    while from < x.len() && is_white_space(x[from])
        invariant
            x@ == s@,
            from <= x.len(),
            trimmed_start(s@) == trimmed_start(s@.skip(from as int)),
        decreases x.len() - from,
    {
        proof {
            assert(s@.skip(from as int).drop_first() =~= s@.skip(from as int + 1));
        }
        from = from + 1;
    }
    let mut to: usize = x.len();
    proof {
        assert(s@.subrange(from as int, to as int) =~= s@.skip(from as int));
        assert(trimmed_start(s@) == s@.skip(from as int));
    }
    while to > from && is_white_space(x[to - 1])
        invariant
            x@ == s@,
            from <= to <= x.len(),
            trimmed(s@) == trimmed_end(s@.subrange(from as int, to as int)),
        decreases to,
    {
        proof {
            assert(s@.subrange(from as int, to as int).drop_last() =~= s@.subrange(
                from as int,
                to - 1,
            ));
        }
        to = to - 1;
    }
    s.substring_char(from, to)
}

// ---------------------------------------------------------------------------
// Joining
// ---------------------------------------------------------------------------

/// The concatenation of some strings.
pub open spec fn joined(parts: Seq<Seq<char>>) -> Seq<char>
    decreases parts.len(),
{
    if parts.len() == 0 {
        Seq::empty()
    } else {
        joined(parts.drop_last()) + parts.last()
    }
}

/// The concatenation of some strings with a separator between neighbours.
pub open spec fn separated(parts: Seq<Seq<char>>, sep: Seq<char>) -> Seq<char>
    decreases parts.len(),
{
    if parts.len() == 0 {
        Seq::empty()
    } else if parts.len() == 1 {
        parts[0]
    } else {
        separated(parts.drop_last(), sep) + sep + parts.last()
    }
}

/// Two strings, one after the other.
pub fn cat2(a: &str, b: &str) -> (r: String)
    ensures
        r@ == a@ + b@,
{
    let mut s: String = a.to_owned();
    s.append(b);
    s
}

/// Three strings, one after the other.
pub fn cat3(a: &str, b: &str, c: &str) -> (r: String)
    ensures
        r@ == a@ + b@ + c@,
{
    let mut s: String = cat2(a, b);
    s.append(c);
    s
}

/// Four strings, one after the other.
pub fn cat4(a: &str, b: &str, c: &str, d: &str) -> (r: String)
    ensures
        r@ == a@ + b@ + c@ + d@,
{
    let mut s: String = cat3(a, b, c);
    s.append(d);
    s
}

/// Five strings, one after the other.
pub fn cat5(a: &str, b: &str, c: &str, d: &str, e: &str) -> (r: String)
    ensures
        r@ == a@ + b@ + c@ + d@ + e@,
{
    let mut s: String = cat4(a, b, c, d);
    s.append(e);
    s
}

/// Joins strings with a separator between neighbours.
pub fn join(parts: &Vec<String>, sep: &str) -> (r: String)
    ensures
        r@ == separated(parts.deep_view(), sep@),
{
    let mut s: String = String::new();
    let ghost views = parts.deep_view();
    for i in 0..parts.len()
        invariant
            views == parts.deep_view(),
            s@ == separated(views.take(i as int), sep@),
    {
        if i > 0 {
            s.append(sep);
        }
        s.append(parts[i].as_str());
        proof {
            let t = views.take(i as int + 1);
            assert(t.drop_last() =~= views.take(i as int));
            assert(t.last() == parts[i as int]@);
            if i == 0 {
                assert(s@ =~= parts[0]@);
            }
        }
    }
    proof {
        assert(views.take(parts.len() as int) =~= views);
    }
    s
}

// ---------------------------------------------------------------------------
// Numbers
// ---------------------------------------------------------------------------

/// The character of one decimal digit.
pub open spec fn digit(d: nat) -> char {
    if d == 0 {
        '0'
    } else if d == 1 {
        '1'
    } else if d == 2 {
        '2'
    } else if d == 3 {
        '3'
    } else if d == 4 {
        '4'
    } else if d == 5 {
        '5'
    } else if d == 6 {
        '6'
    } else if d == 7 {
        '7'
    } else if d == 8 {
        '8'
    } else {
        '9'
    }
}

/// A natural number in decimal, without leading zeros.
pub open spec fn decimal(n: nat) -> Seq<char>
    decreases n,
{
    if n < 10 {
        seq![digit(n)]
    } else {
        decimal(n / 10).push(digit(n % 10))
    }
}

/// An integer in decimal, with a minus sign where it is negative.
pub open spec fn signed_decimal(n: int) -> Seq<char> {
    if n < 0 {
        seq!['-'] + decimal((-n) as nat)
    } else {
        decimal(n as nat)
    }
}

/// The character of one decimal digit.
fn digit_char(d: u128) -> (c: char)
    requires
        d < 10,
    ensures
        c == digit(d as nat),
{
    match d {
        0 => '0',
        1 => '1',
        2 => '2',
        3 => '3',
        4 => '4',
        5 => '5',
        6 => '6',
        7 => '7',
        8 => '8',
        _ => '9',
    }
}

/// Writes a number in decimal.
pub fn dec(n: u128) -> (r: String)
    ensures
        r@ == decimal(n as nat),
    decreases n,
{
    if n < 10 {
        let mut s: String = String::new();
        s.push(digit_char(n));
        s
    } else {
        let mut s: String = dec(n / 10);
        s.push(digit_char(n % 10));
        s
    }
}

/// Writes a number of things in decimal.
pub fn count(n: usize) -> (r: String)
    ensures
        r@ == decimal(n as nat),
{
    dec(n as u128)
}

/// Writes a place as people count, from one on.
pub fn place(i: usize) -> (r: String)
    ensures
        r@ == decimal((i + 1) as nat),
{
    dec(i as u128 + 1)
}

/// Writes a signed number in decimal.
pub fn signed(n: i64) -> (r: String)
    ensures
        r@ == signed_decimal(n as int),
{
    if n < 0 {
        let m: u128 = ((-(n + 1)) as u128) + 1;
        let mut s: String = String::new();
        s.push('-');
        s.append(dec(m).as_str());
        s
    } else {
        dec(n as u128)
    }
}

/// A number with at least two digits.
pub open spec fn two_digits(n: nat) -> Seq<char> {
    if n < 10 {
        seq!['0', digit(n)]
    } else {
        decimal(n)
    }
}

/// Writes a number with at least two digits.
pub fn two(n: u128) -> (r: String)
    ensures
        r@ == two_digits(n as nat),
{
    if n < 10 {
        let mut s: String = String::new();
        s.push('0');
        s.push(digit_char(n));
        proof {
            assert(s@ =~= seq!['0', digit(n as nat)]);
        }
        s
    } else {
        dec(n)
    }
}

/// A length of time as minutes and seconds. Time below zero has its minus sign
/// on each part that is not zero.
pub open spec fn minutes_and_seconds(ms: int) -> Seq<char> {
    let seconds: int = if ms < 0 {
        (-ms) / 1000
    } else {
        ms / 1000
    };
    let m = (seconds / 60) as nat;
    let s = (seconds % 60) as nat;
    if ms >= 0 {
        decimal(m) + ":"@ + two_digits(s)
    } else {
        signed_decimal(-m) + ":"@ + (if s == 0 {
            two_digits(0)
        } else {
            signed_decimal(-s)
        })
    }
}

/// Writes a length of time in milliseconds as minutes and seconds.
pub fn clock(ms: i64) -> (r: String)
    ensures
        r@ == minutes_and_seconds(ms as int),
{
    if ms >= 0 {
        let seconds: u64 = (ms as u64) / 1000;
        cat3(
            dec((seconds / 60) as u128).as_str(),
            ":",
            two((seconds % 60) as u128).as_str(),
        )
    } else {
        let past: u64 = ((-(ms + 1)) as u64) + 1;
        let seconds: u64 = past / 1000;
        let m: i64 = -((seconds / 60) as i64);
        let s: i64 = -((seconds % 60) as i64);
        if s == 0 {
            cat3(signed(m).as_str(), ":", two(0).as_str())
        } else {
            cat3(signed(m).as_str(), ":", signed(s).as_str())
        }
    }
}

// ---------------------------------------------------------------------------
// Width
// ---------------------------------------------------------------------------

/// Some blanks.
pub open spec fn blanks(n: nat) -> Seq<char> {
    Seq::new(n, |i: int| ' ')
}

/// A character some times over.
pub open spec fn repeated(c: char, n: nat) -> Seq<char> {
    Seq::new(n, |i: int| c)
}

/// Writes a character some times over.
pub fn repeat(c: char, n: usize) -> (r: String)
    ensures
        r@ == repeated(c, n as nat),
{
    let mut s: String = String::new();
    for i in 0..n
        invariant
            s@ == repeated(c, i as nat),
    {
        s.push(c);
        proof {
            assert(repeated(c, i as nat).push(c) =~= repeated(c, (i + 1) as nat));
        }
    }
    s
}

/// A string filled up with blanks on the right to a width. A longer string
/// stays as it is.
pub open spec fn padded(s: Seq<char>, width: nat) -> Seq<char> {
    if s.len() < width {
        s + blanks((width - s.len()) as nat)
    } else {
        s
    }
}

/// Fills a string up with blanks on the right to a width in characters.
pub fn pad(s: &str, width: usize) -> (r: String)
    ensures
        r@ == padded(s@, width as nat),
{
    let n: usize = s.unicode_len();
    let mut t: String = s.to_owned();
    let mut i: usize = n;
    while i < width
        invariant
            n == s@.len(),
            n <= i,
            i <= width || i == n,
            t@ == s@ + blanks((i - n) as nat),
        decreases width - i,
    {
        t.push(' ');
        proof {
            assert(blanks((i - n) as nat).push(' ') =~= blanks((i + 1 - n) as nat));
            assert((s@ + blanks((i - n) as nat)).push(' ') =~= s@ + blanks((i - n) as nat).push(
                ' ',
            ));
        }
        i = i + 1;
    }
    proof {
        assert(s@ + blanks(0) =~= s@);
    }
    t
}

/// A string in the middle of a width, with the odd blank on the right. A longer
/// string stays as it is.
pub open spec fn centered(s: Seq<char>, width: nat) -> Seq<char> {
    if s.len() < width {
        let left = (width - s.len()) / 2;
        blanks(left as nat) + s + blanks((width - s.len() - left) as nat)
    } else {
        s
    }
}

/// Puts a string in the middle of a width in characters.
pub fn center(s: &str, width: usize) -> (r: String)
    ensures
        r@ == centered(s@, width as nat),
{
    let n: usize = s.unicode_len();
    if n < width {
        let left: usize = (width - n) / 2;
        cat3(repeat(' ', left).as_str(), s, repeat(' ', width - n - left).as_str())
    } else {
        s.to_owned()
    }
}

/// A string filled up with blanks on the left to a width. A longer string stays
/// as it is.
pub open spec fn padded_left(s: Seq<char>, width: nat) -> Seq<char> {
    if s.len() < width {
        blanks((width - s.len()) as nat) + s
    } else {
        s
    }
}

/// Fills a string up with blanks on the left to a width in characters.
pub fn pad_left(s: &str, width: usize) -> (r: String)
    ensures
        r@ == padded_left(s@, width as nat),
{
    let n: usize = s.unicode_len();
    if n >= width {
        return s.to_owned();
    }
    let mut t: String = pad("", width - n);
    proof {
        reveal_strlit("");
        assert(""@ =~= Seq::<char>::empty());
        assert(Seq::<char>::empty() + blanks((width - n) as nat) =~= blanks((width - n) as nat));
    }
    t.append(s);
    t
}

/// A string cut to a width: where it is too long, what remains of its start is
/// closed by three dots, if there is room for them.
pub open spec fn dotted(s: Seq<char>, width: nat) -> Seq<char> {
    if s.len() <= width {
        s
    } else if width <= 3 {
        s.take(width as int)
    } else {
        s.take(width - 3) + "..."@
    }
}

/// Cuts a string to a width in characters, closing it by three dots.
pub fn truncate_for_width(s: &str, width: usize) -> (r: String)
    ensures
        r@ == dotted(s@, width as nat),
{
    let n: usize = s.unicode_len();
    if n <= width {
        s.to_owned()
    } else if width <= 3 {
        s.substring_char(0, width).to_owned()
    } else {
        let mut t: String = s.substring_char(0, width - 3).to_owned();
        t.append("...");
        t
    }
}

/// A string cut to a width: where it is too long, what remains of its start
/// is closed by an ellipsis.
pub open spec fn cut_right(s: Seq<char>, width: nat) -> Seq<char> {
    if s.len() <= width {
        s
    } else if width == 0 {
        Seq::empty()
    } else {
        s.take(width - 1).push('…')
    }
}

/// A string cut to a width: where it is too long, what remains of its end
/// is opened by an ellipsis.
pub open spec fn cut_left(s: Seq<char>, width: nat) -> Seq<char> {
    if s.len() <= width {
        s
    } else if width == 0 {
        Seq::empty()
    } else {
        seq!['…'] + s.skip(s.len() - width + 1)
    }
}

/// Cuts a string to a width in characters, keeping its start.
pub fn truncate_right(s: &str, width: usize) -> (r: String)
    ensures
        r@ == cut_right(s@, width as nat),
{
    let n: usize = s.unicode_len();
    if n <= width {
        s.to_owned()
    } else if width == 0 {
        String::new()
    } else {
        let mut t: String = s.substring_char(0, width - 1).to_owned();
        t.push('…');
        t
    }
}

/// Cuts a string to a width in characters, keeping its end.
pub fn truncate_left(s: &str, width: usize) -> (r: String)
    ensures
        r@ == cut_left(s@, width as nat),
{
    let n: usize = s.unicode_len();
    if n <= width {
        s.to_owned()
    } else if width == 0 {
        String::new()
    } else {
        let mut t: String = String::new();
        t.push('…');
        t.append(s.substring_char(n - width + 1, n));
        proof {
            assert(s@.subrange(n - width + 1, n as int) =~= s@.skip(s@.len() - width + 1));
            assert(Seq::<char>::empty().push('…') =~= seq!['…']);
        }
        t
    }
}

/// A cut string fits the width it was cut to.
pub proof fn law_cut_fits(s: Seq<char>, width: nat)
    ensures
        cut_right(s, width).len() <= width,
        cut_left(s, width).len() <= width,
        dotted(s, width).len() <= width,
        s.len() <= width ==> cut_right(s, width) == s && cut_left(s, width) == s,
{
    reveal_strlit("...");
}

// ---------------------------------------------------------------------------
// Comparing and searching
// ---------------------------------------------------------------------------

/// The characters of a string, one by one.
pub fn chars_of(s: &str) -> (r: Vec<char>)
    ensures
        r@ == s@,
{
    let mut v: Vec<char> = Vec::new();
    for c in it: s.chars()
        invariant
            v@ == it.seq().take(it.index() as int),
            it.seq() == s@,
    {
        v.push(c);
        proof {
            assert(it.seq().take(it.index() as int + 1) =~= it.seq().take(it.index() as int).push(
                it.seq()[it.index() as int],
            ));
        }
    }
    proof {
        assert(s@.take(s@.len() as int) =~= s@);
    }
    v
}

/// Whether two strings have the same content.
pub fn same(a: &str, b: &str) -> (r: bool)
    ensures
        r == (a@ == b@),
{
    let x: Vec<char> = chars_of(a);
    let y: Vec<char> = chars_of(b);
    if x.len() != y.len() {
        return false;
    }
    let mut i: usize = 0;
    while i < x.len()
        invariant
            x@ == a@,
            y@ == b@,
            i <= x.len() == y.len(),
            forall|k: int| 0 <= k < i ==> x[k] == y[k],
        decreases x.len() - i,
    {
        if x[i] != y[i] {
            return false;
        }
        i = i + 1;
    }
    proof {
        assert(x@ =~= y@);
    }
    true
}

/// Whether one string comes before another in the order of code points, the
/// first difference deciding and a prefix coming first.
pub open spec fn text_before(a: Seq<char>, b: Seq<char>) -> bool
    decreases a.len(),
{
    if b.len() == 0 {
        false
    } else if a.len() == 0 {
        true
    } else if a[0] != b[0] {
        a[0] < b[0]
    } else {
        text_before(a.drop_first(), b.drop_first())
    }
}

/// Whether one string comes before another in the order of code points.
pub fn comes_before(a: &str, b: &str) -> (r: bool)
    ensures
        r == text_before(a@, b@),
{
    let x: Vec<char> = chars_of(a);
    let y: Vec<char> = chars_of(b);
    let mut i: usize = 0;
    proof {
        assert(a@.skip(0) =~= a@);
        assert(b@.skip(0) =~= b@);
    }
    while i < x.len() && i < y.len() && x[i] == y[i]
        invariant
            x@ == a@,
            y@ == b@,
            i <= x.len(),
            i <= y.len(),
            text_before(a@, b@) == text_before(a@.skip(i as int), b@.skip(i as int)),
        decreases x.len() - i,
    {
        proof {
            assert(a@.skip(i as int).drop_first() =~= a@.skip(i as int + 1));
            assert(b@.skip(i as int).drop_first() =~= b@.skip(i as int + 1));
        }
        i = i + 1;
    }
    if i >= y.len() {
        false
    } else if i >= x.len() {
        true
    } else {
        x[i] < y[i]
    }
}

/// The order of strings is strict: no string comes before itself.
pub proof fn law_text_before_irreflexive(a: Seq<char>)
    ensures
        !text_before(a, a),
    decreases a.len(),
{
    if a.len() > 0 {
        law_text_before_irreflexive(a.drop_first());
    }
}

/// The order of strings is transitive.
pub proof fn law_text_before_transitive(a: Seq<char>, b: Seq<char>, c: Seq<char>)
    requires
        text_before(a, b),
        text_before(b, c),
    ensures
        text_before(a, c),
    decreases a.len(),
{
    if a.len() > 0 && b.len() > 0 && c.len() > 0 && a[0] == b[0] && b[0] == c[0] {
        law_text_before_transitive(a.drop_first(), b.drop_first(), c.drop_first());
    }
}

/// The order of strings is total: of two different strings one comes first.
pub proof fn law_text_before_total(a: Seq<char>, b: Seq<char>)
    ensures
        a == b || text_before(a, b) || text_before(b, a),
    decreases a.len(),
{
    if a.len() > 0 && b.len() > 0 {
        if a[0] == b[0] {
            law_text_before_total(a.drop_first(), b.drop_first());
            if a.drop_first() == b.drop_first() {
                assert(a =~= seq![a[0]] + a.drop_first());
                assert(b =~= seq![b[0]] + b.drop_first());
            }
        }
    } else if a.len() == 0 && b.len() == 0 {
        assert(a =~= b);
    }
}

/// Whether a string holds another one as a stretch of neighbouring characters.
pub open spec fn holds(s: Seq<char>, part: Seq<char>) -> bool {
    exists|i: int| 0 <= i <= s.len() - part.len() && #[trigger] s.subrange(i, i + part.len()) == part
}

/// Whether `part` stands in `s` at a place.
fn stands_at(s: &Vec<char>, part: &Vec<char>, at: usize) -> (r: bool)
    requires
        at + part.len() <= s.len(),
    ensures
        r == (s@.subrange(at as int, at + part.len()) == part@),
{
    let mut k: usize = 0;
    while k < part.len()
        invariant
            at + part.len() <= s.len(),
            k <= part.len(),
            forall|j: int| 0 <= j < k ==> s@[at + j] == part@[j],
        decreases part.len() - k,
    {
        if s[at + k] != part[k] {
            proof {
                assert(s@.subrange(at as int, at + part.len())[k as int] != part@[k as int]);
            }
            return false;
        }
        k = k + 1;
    }
    proof {
        assert(s@.subrange(at as int, at + part.len()) =~= part@);
    }
    true
}

/// Whether a string holds another one as a stretch of neighbouring characters.
pub fn contains(s: &str, part: &str) -> (r: bool)
    ensures
        r == holds(s@, part@),
{
    let x: Vec<char> = chars_of(s);
    let y: Vec<char> = chars_of(part);
    if y.len() > x.len() {
        return false;
    }
    let last: usize = x.len() - y.len();
    let mut i: usize = 0;
    while i <= last
        invariant
            x@ == s@,
            y@ == part@,
            last == x.len() - y.len(),
            i <= last + 1,
            last < usize::MAX || i <= last,
            forall|j: int| 0 <= j < i ==> #[trigger] s@.subrange(j, j + part@.len()) != part@,
        decreases last + 1 - i,
    {
        if stands_at(&x, &y, i) {
            return true;
        }
        if i == last {
            return false;
        }
        i = i + 1;
    }
    false
}

/// Whether a string begins with another one.
pub open spec fn begins_with(s: Seq<char>, start: Seq<char>) -> bool {
    start.len() <= s.len() && s.take(start.len() as int) == start
}

/// Whether a string begins with another one.
pub fn starts_with(s: &str, start: &str) -> (r: bool)
    ensures
        r == begins_with(s@, start@),
{
    let x: Vec<char> = chars_of(s);
    let y: Vec<char> = chars_of(start);
    if y.len() > x.len() {
        return false;
    }
    proof {
        assert(s@.subrange(0, start@.len() as int) =~= s@.take(start@.len() as int));
    }
    stands_at(&x, &y, 0)
}

/// A character with the letters A to Z made small.
pub open spec fn ascii_small(c: char) -> char {
    if 'A' <= c <= 'Z' {
        ((c as u8) + 32) as u8 as char
    } else {
        c
    }
}

/// A character with the letters a to z made large.
pub open spec fn ascii_large(c: char) -> char {
    if 'a' <= c <= 'z' {
        ((c as u8) - 32) as u8 as char
    } else {
        c
    }
}

/// A character with the letters A to Z made small.
pub fn small(c: char) -> (r: char)
    ensures
        r == ascii_small(c),
{
    if 'A' <= c && c <= 'Z' {
        ((c as u8) + 32) as char
    } else {
        c
    }
}

/// Whether two strings are the same but for the case of the letters A to Z.
pub open spec fn same_but_case(a: Seq<char>, b: Seq<char>) -> bool {
    a.len() == b.len() && forall|i: int|
        0 <= i < a.len() ==> ascii_small(#[trigger] a[i]) == ascii_small(b[i])
}

/// Whether two strings are the same but for the case of the letters A to Z.
pub fn equal_but_case(a: &str, b: &str) -> (r: bool)
    ensures
        r == same_but_case(a@, b@),
{
    let x: Vec<char> = chars_of(a);
    let y: Vec<char> = chars_of(b);
    if x.len() != y.len() {
        return false;
    }
    let mut i: usize = 0;
    while i < x.len()
        invariant
            x@ == a@,
            y@ == b@,
            x.len() == y.len(),
            i <= x.len(),
            forall|j: int| 0 <= j < i ==> ascii_small(#[trigger] a@[j]) == ascii_small(b@[j]),
        decreases x.len() - i,
    {
        if small(x[i]) != small(y[i]) {
            return false;
        }
        i = i + 1;
    }
    true
}

// ---------------------------------------------------------------------------
// Copies
// ---------------------------------------------------------------------------

/// Whether a string is among some strings.
pub fn among(v: &Vec<String>, s: &str) -> (r: bool)
    ensures
        r == v.deep_view().contains(s@),
{
    let mut i: usize = 0;
    while i < v.len()
        invariant
            i <= v.len(),
            forall|j: int| 0 <= j < i ==> (#[trigger] v.deep_view()[j]) != s@,
        decreases v.len() - i,
    {
        if same(v[i].as_str(), s) {
            proof {
                assert(v.deep_view()[i as int] == s@);
            }
            return true;
        }
        i = i + 1;
    }
    false
}

// ---------------------------------------------------------------------------
// Laws
// ---------------------------------------------------------------------------

/// Trimming takes white space off the ends and nothing else: what is left stands
/// inside the text, only white space stands around it, and it neither starts nor
/// ends with white space.
pub proof fn law_trimmed_is_inside(s: Seq<char>)
    ensures
        exists|a: int|
            0 <= a && a + trimmed(s).len() <= s.len() && #[trigger] s.subrange(
                a,
                a + trimmed(s).len(),
            ) == trimmed(s) && (forall|k: int| 0 <= k < a ==> white_space(#[trigger] s[k])) && (
            forall|k: int|
                a + trimmed(s).len() <= k < s.len() ==> white_space(#[trigger] s[k])),
        trimmed(s).len() > 0 ==> !white_space(trimmed(s)[0]) && !white_space(trimmed(s).last()),
{
    lemma_trimmed_start(s);
    let m = trimmed_start(s);
    lemma_trimmed_end(m);
    let r = trimmed(s);
    let a = (s.len() - m.len()) as int;
    assert(s.subrange(a, a + r.len()) =~= r) by {
        assert(m =~= s.skip(a));
        assert(r =~= m.take(r.len() as int));
    }
    assert forall|k: int| a + r.len() <= k < s.len() implies white_space(#[trigger] s[k]) by {
        assert(m[k - a] == s[k]);
    }
    if r.len() > 0 {
        assert(r[0] == m[0]);
    }
}

proof fn lemma_trimmed_start(s: Seq<char>)
    ensures
        trimmed_start(s).len() <= s.len(),
        trimmed_start(s) == s.skip(s.len() - trimmed_start(s).len()),
        forall|k: int|
            0 <= k < s.len() - trimmed_start(s).len() ==> white_space(#[trigger] s[k]),
        trimmed_start(s).len() > 0 ==> !white_space(trimmed_start(s)[0]),
    decreases s.len(),
{
    if s.len() > 0 && white_space(s[0]) {
        let t = s.drop_first();
        lemma_trimmed_start(t);
        assert(s.skip(s.len() - trimmed_start(s).len()) =~= t.skip(
            t.len() - trimmed_start(t).len(),
        ));
        assert forall|k: int| 0 <= k < s.len() - trimmed_start(s).len() implies white_space(
            #[trigger] s[k],
        ) by {
            if k > 0 {
                assert(t[k - 1] == s[k]);
            }
        }
    } else {
        assert(s.skip(0) =~= s);
    }
}

proof fn lemma_trimmed_end(s: Seq<char>)
    ensures
        trimmed_end(s).len() <= s.len(),
        trimmed_end(s) == s.take(trimmed_end(s).len() as int),
        forall|k: int| trimmed_end(s).len() <= k < s.len() ==> white_space(#[trigger] s[k]),
        trimmed_end(s).len() > 0 ==> !white_space(trimmed_end(s).last()),
    decreases s.len(),
{
    if s.len() > 0 && white_space(s.last()) {
        let t = s.drop_last();
        lemma_trimmed_end(t);
        assert(s.take(trimmed_end(s).len() as int) =~= t.take(trimmed_end(t).len() as int));
        assert forall|k: int| trimmed_end(s).len() <= k < s.len() implies white_space(
            #[trigger] s[k],
        ) by {
            if k < t.len() {
                assert(t[k] == s[k]);
            }
        }
    } else {
        assert(s.take(s.len() as int) =~= s);
    }
}

/// The number that a text of digits stands for.
pub open spec fn number_in(s: Seq<char>) -> int
    decreases s.len(),
{
    if s.len() == 0 {
        0
    } else {
        10 * number_in(s.drop_last()) + (s.last() as int - '0' as int)
    }
}

/// A decimal is made of digits, stands for its number, and has no idle zero in
/// front.
pub proof fn law_decimal_is_its_number(n: nat)
    ensures
        number_in(decimal(n)) == n,
        decimal(n).len() > 0,
        forall|i: int| 0 <= i < decimal(n).len() ==> '0' <= #[trigger] decimal(n)[i] <= '9',
        n > 0 ==> decimal(n)[0] != '0',
        n < 10 ==> decimal(n).len() == 1,
    decreases n,
{
    if n < 10 {
        assert(decimal(n).drop_last() =~= Seq::<char>::empty());
        assert(number_in(Seq::<char>::empty()) == 0);
    } else {
        law_decimal_is_its_number(n / 10);
        assert(decimal(n).drop_last() =~= decimal(n / 10));
    }
}

/// A length of time shows its full minutes and, in two digits, the seconds that
/// are left.
pub proof fn law_clock_shows_minutes_and_seconds(ms: int)
    requires
        ms >= 0,
    ensures
        exists|m: nat, t: nat, u: nat|
            #![trigger decimal(m), digit(t), digit(u)]
            t < 6 && u < 10 && (60 * m + 10 * t + u) * 1000 <= ms < (60 * m + 10 * t + u + 1) * 1000
                && minutes_and_seconds(ms) == decimal(m) + ":"@ + seq![digit(t), digit(u)],
{
    let seconds: int = ms / 1000;
    let m = (seconds / 60) as nat;
    let s = (seconds % 60) as nat;
    let t = s / 10;
    let u = s % 10;
    assert(two_digits(s) =~= seq![digit(t), digit(u)]) by {
        if s >= 10 {
            assert(decimal(s) == decimal(t).push(digit(u)));
            assert(decimal(t) == seq![digit(t)]);
        }
    }
    assert(decimal(m) == decimal(m) && digit(t) == digit(t) && digit(u) == digit(u));
}

/// A padded text is the text and blanks, as wide as asked for; a text that is
/// wider stays as it is.
pub proof fn law_padding_adds_blanks(s: Seq<char>, width: nat)
    ensures
        s.len() >= width ==> padded(s, width) == s && padded_left(s, width) == s && centered(
            s,
            width,
        ) == s,
        s.len() < width ==> padded(s, width).len() == width && padded_left(s, width).len() == width
            && centered(s, width).len() == width,
        padded(s, width).take(s.len() as int) == s,
        forall|i: int| s.len() <= i < padded(s, width).len() ==> padded(s, width)[i] == ' ',
        padded_left(s, width).skip(padded_left(s, width).len() - s.len()) == s,
        forall|i: int|
            0 <= i < padded_left(s, width).len() - s.len() ==> padded_left(s, width)[i] == ' ',
        s.len() < width ==> ({
            let left = (width - s.len()) / 2;
            &&& centered(s, width).subrange(left, left + s.len()) == s
            &&& forall|i: int|
                0 <= i < width && (i < left || left + s.len() <= i) ==> #[trigger] centered(
                    s,
                    width,
                )[i] == ' '
        }),
{
    assert(padded(s, width).take(s.len() as int) =~= s);
    assert(padded_left(s, width).skip(padded_left(s, width).len() - s.len()) =~= s);
    if s.len() < width {
        let left = (width - s.len()) / 2;
        assert(centered(s, width).subrange(left, left + s.len()) =~= s);
    }
}

/// A text that does not fit is as wide as asked for, keeps its beginning or its
/// end, and says by dots on which side it was cut.
pub proof fn law_cut_text_keeps_one_end(s: Seq<char>, width: nat)
    requires
        0 < width < s.len(),
    ensures
        cut_right(s, width).len() == width,
        cut_right(s, width).last() == '…',
        cut_right(s, width).take(width - 1) == s.take(width - 1),
        cut_left(s, width).len() == width,
        cut_left(s, width)[0] == '…',
        cut_left(s, width).skip(1) == s.skip(s.len() - (width - 1)),
        dotted(s, width).len() == width,
        width <= 3 ==> dotted(s, width) == s.take(width as int),
        width > 3 ==> dotted(s, width).take(width - 3) == s.take(width - 3) && dotted(
            s,
            width,
        ).skip(width - 3) == seq!['.', '.', '.'],
{
    reveal_strlit("...");
    assert(cut_right(s, width).take(width - 1) =~= s.take(width - 1));
    assert(cut_left(s, width).skip(1) =~= s.skip(s.len() - (width - 1)));
    if width > 3 {
        assert(dotted(s, width).take(width - 3) =~= s.take(width - 3));
        assert(dotted(s, width).skip(width - 3) =~= seq!['.', '.', '.']);
    }
}

/// Whether two texts agree up to a place, and the first is the lesser one there:
/// it ends, or has the smaller character.
pub open spec fn parts_at(a: Seq<char>, b: Seq<char>, k: int) -> bool {
    &&& 0 <= k <= a.len()
    &&& k < b.len()
    &&& forall|i: int| 0 <= i < k ==> #[trigger] a[i] == b[i]
    &&& k == a.len() || a[k] < b[k]
}

/// One text comes before another by the first place where they differ.
pub proof fn law_text_before_by_first_difference(a: Seq<char>, b: Seq<char>)
    ensures
        text_before(a, b) <==> exists|k: int| parts_at(a, b, k),
    decreases a.len(),
{
    if b.len() > 0 {
        if a.len() == 0 {
            assert(parts_at(a, b, 0));
        } else if a[0] != b[0] {
            if text_before(a, b) {
                assert(parts_at(a, b, 0));
            }
            if exists|k: int| parts_at(a, b, k) {
                let k = choose|k: int| parts_at(a, b, k);
                if k > 0 {
                    assert(a[0] == b[0]);
                }
            }
        } else {
            let c = a.drop_first();
            let d = b.drop_first();
            law_text_before_by_first_difference(c, d);
            if text_before(a, b) {
                let k = choose|k: int| parts_at(c, d, k);
                assert forall|i: int| 0 <= i < k + 1 implies #[trigger] a[i] == b[i] by {
                    if i > 0 {
                        assert(c[i - 1] == d[i - 1]);
                    }
                }
                assert(parts_at(a, b, k + 1));
            }
            if exists|k: int| parts_at(a, b, k) {
                let k = choose|k: int| parts_at(a, b, k);
                assert(k > 0);
                assert forall|i: int| 0 <= i < k - 1 implies #[trigger] c[i] == d[i] by {
                    assert(a[i + 1] == b[i + 1]);
                }
                assert(parts_at(c, d, k - 1));
            }
        }
    }
}

/// Small letters stand 32 behind their large ones; no other character is changed.
pub proof fn law_letters_change_case(c: char)
    ensures
        'A' <= c <= 'Z' ==> ascii_small(c) as int == c as int + 32 && ascii_large(ascii_small(c))
            == c,
        !('A' <= c <= 'Z') ==> ascii_small(c) == c,
        'a' <= c <= 'z' ==> ascii_large(c) as int == c as int - 32 && ascii_small(ascii_large(c))
            == c,
        !('a' <= c <= 'z') ==> ascii_large(c) == c,
{
}

/// An ASCII text is put into small or large letters one by one.
pub proof fn law_ascii_changes_case_in_place(s: Seq<char>, i: int)
    requires
        is_ascii(s),
        0 <= i < s.len(),
    ensures
        lowercase(s).len() == s.len(),
        uppercase(s).len() == s.len(),
        'A' <= s[i] <= 'Z' ==> lowercase(s)[i] as int == s[i] as int + 32,
        !('A' <= s[i] <= 'Z') ==> lowercase(s)[i] == s[i],
        'a' <= s[i] <= 'z' ==> uppercase(s)[i] as int == s[i] as int - 32,
        !('a' <= s[i] <= 'z') ==> uppercase(s)[i] == s[i],
{
}

/// Texts are set side by side in turn, with the separator between any two and
/// nowhere else.
pub proof fn law_separated_in_turn(a: Seq<Seq<char>>, b: Seq<Seq<char>>, sep: Seq<char>)
    requires
        a.len() > 0,
        b.len() > 0,
    ensures
        separated(a + b, sep) == separated(a, sep) + sep + separated(b, sep),
        a.len() == 1 ==> separated(a, sep) == a[0],
        separated(Seq::empty(), sep) == Seq::<char>::empty(),
    decreases b.len(),
{
    let all = a + b;
    assert(all.drop_last() =~= a + b.drop_last());
    if b.len() == 1 {
        assert(all.drop_last() =~= a);
    } else {
        law_separated_in_turn(a, b.drop_last(), sep);
    }
    assert(separated(all, sep) =~= separated(a, sep) + sep + separated(b, sep));
}

/// Texts are joined in turn.
pub proof fn law_joined_in_turn(a: Seq<Seq<char>>, b: Seq<Seq<char>>)
    ensures
        joined(a + b) == joined(a) + joined(b),
        a.len() == 1 ==> joined(a) == a[0],
    decreases b.len(),
{
    if b.len() == 0 {
        assert(a + b =~= a);
    } else {
        assert((a + b).drop_last() =~= a + b.drop_last());
        law_joined_in_turn(a, b.drop_last());
    }
    if a.len() == 1 {
        assert(joined(a.drop_last()) =~= Seq::<char>::empty());
    }
    assert(joined(a + b) =~= joined(a) + joined(b));
}

} // verus!
