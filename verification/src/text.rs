//! Text as sequences of characters: splitting, trimming, comparing, and the few std
//! conversions that are taken on trust.

use vstd::prelude::*;
use vstd::utf8::*;

verus! {

/// `char::from_u32`: the character with that scalar value; surrogates and values above
/// `0x10ffff` have none.
pub assume_specification[ char::from_u32 ](i: u32) -> (r: Option<char>)
    ensures
        r == (if is_scalar(i) { Some(i as char) } else { None }),
;

/// `String::push`: appends one character.
pub assume_specification[ String::push ](s: &mut String, ch: char)
    ensures
        final(s)@ == old(s)@.push(ch),
;

/// What `char::is_lowercase` says of a character: Unicode's `Lowercase` property.
pub uninterp spec fn char_lowercase(c: char) -> bool;

/// The characters that `char::to_uppercase` gives.
pub uninterp spec fn char_upper(c: char) -> Seq<char>;

/// What `String::from_utf8_lossy` makes of bytes.
pub uninterp spec fn lossy_text(bytes: Seq<u8>) -> Seq<char>;

/// `char::is_lowercase`; its result is a function of the character.
#[verifier::external_body]
pub(crate) fn is_lowercase(c: char) -> (r: bool)
    ensures
        r == char_lowercase(c),
{
    c.is_lowercase()
}

/// The characters with Unicode's `White_Space` property.
pub open spec fn white_space(c: char) -> bool {
    ||| '\t' <= c <= '\r'
    ||| c == ' '
    ||| c == '\u{85}'
    ||| c == '\u{a0}'
    ||| c == '\u{1680}'
    ||| '\u{2000}' <= c <= '\u{200a}'
    ||| c == '\u{2028}'
    ||| c == '\u{2029}'
    ||| c == '\u{202f}'
    ||| c == '\u{205f}'
    ||| c == '\u{3000}'
}

/// `char::is_whitespace`: whether the character has the `White_Space` property.
#[verifier::external_body]
pub(crate) fn is_whitespace(c: char) -> (r: bool)
    ensures
        r == white_space(c),
{
    c.is_whitespace()
}

/// `char::to_uppercase`, as a text: one or more characters, which are a function of the
/// character.
#[verifier::external_body]
pub(crate) fn uppercase(c: char) -> (r: String)
    ensures
        r@ == char_upper(c),
        r@.len() >= 1,
{
    c.to_uppercase().collect()
}

/// The first character of the capital of a character.
pub fn first_upper(c: char) -> (r: char)
    ensures
        r == char_upper(c)[0],
{
    let upper = uppercase(c);
    let chars = chars_of(upper.as_str());
    chars[0]
}

/// `String::from_utf8_lossy`: valid UTF-8 is decoded; of other bytes the text is named and
/// left open.
#[verifier::external_body]
pub(crate) fn from_utf8_lossy(bytes: &[u8]) -> (r: String)
    ensures
        r@ == lossy_text(bytes@),
        valid_utf8(bytes@) ==> r@ == decode_utf8(bytes@),
{
    String::from_utf8_lossy(bytes).into_owned()
}

/// `String::from_utf8`: succeeds exactly on valid UTF-8, and decodes it.
#[verifier::external_body]
pub(crate) fn from_utf8(bytes: Vec<u8>) -> (r: Option<String>)
    ensures
        r is Some <==> valid_utf8(bytes@),
        r matches Some(s) ==> s@ == decode_utf8(bytes@),
{
    String::from_utf8(bytes).ok()
}

/// The texts of a sequence of strings.
pub open spec fn texts(v: Seq<String>) -> Seq<Seq<char>> {
    Seq::new(v.len(), |i: int| v[i]@)
}

/// The text of an optional string.
pub open spec fn opt_text(o: Option<String>) -> Option<Seq<char>> {
    match o {
        Some(s) => Some(s@),
        None => None,
    }
}

/// ASCII letters and digits.
pub open spec fn ascii_alnum(c: char) -> bool {
    ('0' <= c && c <= '9') || ('a' <= c && c <= 'z') || ('A' <= c && c <= 'Z')
}

/// The printable ASCII characters other than the space.
pub open spec fn ascii_graphic(c: char) -> bool {
    '!' <= c && c <= '~'
}

/// An ASCII capital becomes its small letter; other characters stay.
pub open spec fn ascii_lower(c: char) -> char {
    if 'A' <= c && c <= 'Z' { (c as u32 + 32) as char } else { c }
}

/// An ASCII small letter becomes its capital; other characters stay.
pub open spec fn ascii_upper(c: char) -> char {
    if 'a' <= c && c <= 'z' { (c as u32 - 32) as char } else { c }
}

pub fn is_ascii_alnum(c: char) -> (r: bool)
    ensures
        r == ascii_alnum(c),
{
    ('0' <= c && c <= '9') || ('a' <= c && c <= 'z') || ('A' <= c && c <= 'Z')
}

pub fn is_ascii_graphic(c: char) -> (r: bool)
    ensures
        r == ascii_graphic(c),
{
    '!' <= c && c <= '~'
}

pub fn to_ascii_lower(c: char) -> (r: char)
    ensures
        r == ascii_lower(c),
{
    if 'A' <= c && c <= 'Z' {
        (c as u8 + 32) as char
    } else {
        c
    }
}

pub fn to_ascii_upper(c: char) -> (r: char)
    ensures
        r == ascii_upper(c),
{
    if 'a' <= c && c <= 'z' {
        (c as u8 - 32) as char
    } else {
        c
    }
}

/// A control character: Unicode's general category `Cc`.
pub open spec fn control(c: char) -> bool {
    (c as u32) < 0x20 || 0x7f <= (c as u32) <= 0x9f
}

pub fn is_control(c: char) -> (r: bool)
    ensures
        r == control(c),
{
    let u: u32 = c as u32;
    u < 0x20 || (0x7f <= u && u <= 0x9f)
}

/// The characters of a string.
pub fn chars_of(s: &str) -> (r: Vec<char>)
    ensures
        r@ == s@,
{
    let mut out: Vec<char> = Vec::new();
    for c in it: s.chars()
        invariant
            it.seq() == s@,
            out@ == s@.take(it.index() as int),
    {
        out.push(c);
    }
    out
}

/// The string with these characters.
pub fn string_of(chars: &[char]) -> (r: String)
    ensures
        r@ == chars@,
{
    let mut out = String::new();
    let mut i: usize = 0;
    while i < chars.len()
        invariant
            i <= chars@.len(),
            out@ == chars@.take(i as int),
        decreases chars@.len() - i,
    {
        out.push(chars[i]);
        i += 1;
    }
    assert(chars@.take(i as int) == chars@);
    out
}

/// Two strings hold the same characters.
pub fn same_text(a: &str, b: &str) -> (r: bool)
    ensures
        r == (a@ == b@),
{
    a.to_owned() == b.to_owned()
}

/// A string is this one character.
pub fn is_char(s: &str, c: char) -> (r: bool)
    ensures
        r == (s@ == seq![c]),
{
    let v = chars_of(s);
    let same = v.len() == 1 && v[0] == c;
    proof {
        if same {
            assert(s@ =~= seq![c]);
        }
    }
    same
}

/// A copy of `s[from..to]`.
pub fn sub_chars(s: &[char], from: usize, to: usize) -> (r: Vec<char>)
    requires
        from <= to <= s@.len(),
    ensures
        r@ == s@.subrange(from as int, to as int),
{
    let mut out: Vec<char> = Vec::new();
    let mut i: usize = from;
    while i < to
        invariant
            from <= i <= to <= s@.len(),
            out@ == s@.subrange(from as int, i as int),
        decreases to - i,
    {
        out.push(s[i]);
        i += 1;
    }
    out
}

/// Appends characters.
pub fn push_all(out: &mut Vec<char>, more: &[char])
    ensures
        final(out)@ == old(out)@ + more@,
{
    let mut i: usize = 0;
    assert(out@ =~= old(out)@ + more@.take(0));
    while i < more.len()
        invariant
            i <= more@.len(),
            out@ == old(out)@ + more@.take(i as int),
        decreases more@.len() - i,
    {
        out.push(more[i]);
        assert(out@ =~= old(out)@ + more@.take(i + 1));
        i += 1;
    }
    assert(more@.take(i as int) =~= more@);
}

/// The texts of a sequence of character vectors.
pub open spec fn rows(v: Seq<Vec<char>>) -> Seq<Seq<char>> {
    Seq::new(v.len(), |i: int| v[i]@)
}

/// The position of the first `c` at or after `from`, or the length where there is none.
pub open spec fn first_at(s: Seq<char>, c: char, from: int) -> int
    decreases s.len() - from,
{
    if from >= s.len() || from < 0 {
        s.len() as int
    } else if s[from] == c {
        from
    } else {
        first_at(s, c, from + 1)
    }
}

/// The position of the first `c` at or after `from`, or the length where there is none.
pub fn find(s: &[char], c: char, from: usize) -> (r: usize)
    requires
        from <= s@.len(),
    ensures
        r == first_at(s@, c, from as int),
        from <= r <= s@.len(),
        r < s@.len() ==> s@[r as int] == c,
        forall|i: int| from <= i < r ==> s@[i] != c,
{
    let mut i: usize = from;
    while i < s.len() && s[i] != c
        invariant
            from <= i <= s@.len(),
            first_at(s@, c, from as int) == first_at(s@, c, i as int),
            forall|j: int| from <= j < i ==> s@[j] != c,
        decreases s@.len() - i,
    {
        i += 1;
    }
    i
}

/// A line without the carriage return before its line feed.
pub open spec fn without_cr(line: Seq<char>) -> Seq<char> {
    if line.len() > 0 && line.last() == '\r' { line.drop_last() } else { line }
}

/// The lines of a text, as `str::lines` gives them: each ends in a line feed, with or without
/// a carriage return before it, and the last one may end without.
pub open spec fn lines(s: Seq<char>) -> Seq<Seq<char>>
    decreases s.len(),
{
    if s.len() == 0 {
        Seq::empty()
    } else {
        let i = first_at(s, '\n', 0);
        if i >= s.len() || i < 0 {
            seq![s]
        } else {
            seq![without_cr(s.take(i))] + lines(s.skip(i + 1))
        }
    }
}

/// A search from `from` is a search of the rest, shifted.
proof fn first_at_of_rest(s: Seq<char>, c: char, from: int, k: int)
    requires
        0 <= from <= s.len(),
        0 <= k <= s.len() - from,
    ensures
        first_at(s, c, from + k) == from + first_at(s.skip(from), c, k),
    decreases s.len() - from - k,
{
    if from + k < s.len() && s[from + k] != c {
        first_at_of_rest(s, c, from, k + 1);
    }
}

/// The lines of a text.
pub fn lines_of(s: &[char]) -> (r: Vec<Vec<char>>)
    ensures
        rows(r@) == lines(s@),
{
    let mut out: Vec<Vec<char>> = Vec::new();
    let mut start: usize = 0;
    assert(s@.skip(0) =~= s@);
    assert(rows(out@) + lines(s@) =~= lines(s@));
    while start < s.len()
        invariant
            start <= s@.len(),
            rows(out@) + lines(s@.skip(start as int)) == lines(s@),
        decreases s@.len() - start,
    {
        let end: usize = find(s, '\n', start);
        let ghost rest = s@.skip(start as int);
        let ghost before = out@;
        proof {
            first_at_of_rest(s@, '\n', start as int, 0);
        }
        if end == s.len() {
            let line = sub_chars(s, start, end);
            assert(line@ =~= rest);
            out.push(line);
            assert(rows(out@) =~= rows(before).push(rest));
            assert(lines(s@.skip(s@.len() as int)) =~= Seq::empty());
            assert(rows(out@) + lines(s@.skip(s@.len() as int)) =~= rows(before) + lines(rest));
            start = end;
        } else {
            let stop: usize = if end > start && s[end - 1] == '\r' {
                end - 1
            } else {
                end
            };
            let line = sub_chars(s, start, stop);
            assert(line@ =~= without_cr(rest.take(end - start)));
            assert(rest.skip(end - start + 1) =~= s@.skip(end + 1));
            out.push(line);
            assert(rows(out@) =~= rows(before).push(line@));
            assert(rows(out@) + lines(s@.skip(end + 1)) =~= rows(before) + lines(rest));
            start = end + 1;
        }
    }
    assert(lines(s@.skip(start as int)) =~= Seq::empty());
    assert(rows(out@) =~= lines(s@));
    out
}

/// The text without leading white space.
pub open spec fn trimmed_start(s: Seq<char>) -> Seq<char>
    decreases s.len(),
{
    if s.len() > 0 && white_space(s[0]) { trimmed_start(s.skip(1)) } else { s }
}

/// The text without trailing white space.
pub open spec fn trimmed_end(s: Seq<char>) -> Seq<char>
    decreases s.len(),
{
    if s.len() > 0 && white_space(s.last()) { trimmed_end(s.drop_last()) } else { s }
}

/// The text without white space at either end.
pub open spec fn trimmed(s: Seq<char>) -> Seq<char> {
    trimmed_end(trimmed_start(s))
}

/// The text without white space at either end.
pub fn trim(s: &[char]) -> (r: Vec<char>)
    ensures
        r@ == trimmed(s@),
{
    let mut from: usize = 0;
    assert(s@.skip(0) =~= s@);
    while from < s.len() && is_whitespace(s[from])
        invariant
            from <= s@.len(),
            trimmed_start(s@.skip(from as int)) == trimmed_start(s@),
        decreases s@.len() - from,
    {
        assert(s@.skip(from as int).skip(1) =~= s@.skip(from + 1));
        from += 1;
    }
    assert(trimmed_start(s@) =~= s@.skip(from as int));
    let mut to: usize = s.len();
    assert(s@.subrange(from as int, to as int) =~= s@.skip(from as int));
    while to > from && is_whitespace(s[to - 1])
        invariant
            from <= to <= s@.len(),
            trimmed_end(s@.subrange(from as int, to as int)) == trimmed(s@),
        decreases to,
    {
        assert(s@.subrange(from as int, to as int).drop_last() =~= s@.subrange(
            from as int,
            to - 1,
        ));
        to -= 1;
    }
    sub_chars(s, from, to)
}

/// Two texts are equal when ASCII capitals count as small letters.
pub open spec fn same_ignoring_ascii_case(a: Seq<char>, b: Seq<char>) -> bool {
    a.len() == b.len() && forall|i: int|
        0 <= i < a.len() ==> ascii_lower(#[trigger] a[i]) == ascii_lower(b[i])
}

pub fn eq_ignore_ascii_case(a: &[char], b: &[char]) -> (r: bool)
    ensures
        r == same_ignoring_ascii_case(a@, b@),
{
    if a.len() != b.len() {
        return false;
    }
    let mut i: usize = 0;
    while i < a.len()
        invariant
            i <= a@.len() == b@.len(),
            forall|j: int| 0 <= j < i ==> ascii_lower(#[trigger] a@[j]) == ascii_lower(b@[j]),
        decreases a@.len() - i,
    {
        if to_ascii_lower(a[i]) != to_ascii_lower(b[i]) {
            return false;
        }
        i += 1;
    }
    true
}

/// The text begins with `prefix`.
pub fn starts_with(s: &[char], prefix: &str) -> (r: bool)
    ensures
        r == prefix@.is_prefix_of(s@),
{
    let p = chars_of(prefix);
    if p.len() > s.len() {
        return false;
    }
    let mut i: usize = 0;
    while i < p.len()
        invariant
            i <= p@.len() <= s@.len(),
            p@ == prefix@,
            p@.take(i as int) == s@.take(i as int),
        decreases p@.len() - i,
    {
        if p[i] != s[i] {
            assert(p@.take(i + 1)[i as int] != s@.take(i + 1)[i as int]);
            assert(!prefix@.is_prefix_of(s@)) by {
                if prefix@.is_prefix_of(s@) {
                    assert(s@.subrange(0, p@.len() as int)[i as int] == p@[i as int]);
                }
            }
            return false;
        }
        assert(p@.take(i + 1) =~= p@.take(i as int).push(p@[i as int]));
        assert(s@.take(i + 1) =~= s@.take(i as int).push(s@[i as int]));
        i += 1;
    }
    assert(p@.take(i as int) =~= p@);
    assert(s@.take(i as int) =~= s@.subrange(0, p@.len() as int));
    true
}

/// The parts of a text between separators; a text without one is its only part.
pub open spec fn split(s: Seq<char>, c: char) -> Seq<Seq<char>>
    decreases s.len(),
{
    let i = first_at(s, c, 0);
    if i >= s.len() || i < 0 {
        seq![s]
    } else {
        seq![s.take(i)] + split(s.skip(i + 1), c)
    }
}

/// The parts of a text between separators.
pub fn split_at(s: &[char], c: char) -> (r: Vec<Vec<char>>)
    ensures
        rows(r@) == split(s@, c),
{
    let mut out: Vec<Vec<char>> = Vec::new();
    let mut start: usize = 0;
    let mut end: usize = find(s, c, 0);
    assert(s@.skip(0) =~= s@);
    assert(rows(out@) + split(s@, c) =~= split(s@, c));
    while end < s.len()
        invariant
            start <= end <= s@.len(),
            end == first_at(s@, c, start as int),
            rows(out@) + split(s@.skip(start as int), c) == split(s@, c),
        decreases s@.len() - start,
    {
        let ghost rest = s@.skip(start as int);
        let ghost before = out@;
        proof {
            first_at_of_rest(s@, c, start as int, 0);
        }
        let part = sub_chars(s, start, end);
        assert(part@ =~= rest.take(end - start));
        assert(rest.skip(end - start + 1) =~= s@.skip(end + 1));
        out.push(part);
        assert(rows(out@) =~= rows(before).push(part@));
        assert(rows(out@) + split(s@.skip(end + 1), c) =~= rows(before) + split(rest, c));
        start = end + 1;
        end = find(s, c, start);
    }
    let ghost rest = s@.skip(start as int);
    let ghost before = out@;
    proof {
        first_at_of_rest(s@, c, start as int, 0);
    }
    let part = sub_chars(s, start, s.len());
    assert(part@ =~= rest);
    out.push(part);
    assert(rows(out@) =~= rows(before).push(part@));
    assert(rows(out@) =~= rows(before) + split(rest, c));
    out
}

/// `part` stands somewhere in the text.
pub open spec fn has_part(s: Seq<char>, part: Seq<char>) -> bool {
    exists|i: int|
        0 <= i && i + part.len() <= s.len() && #[trigger] s.subrange(i, i + part.len()) == part
}

/// Two character sequences are equal.
pub fn same_chars(a: &[char], b: &[char]) -> (r: bool)
    ensures
        r == (a@ == b@),
{
    if a.len() != b.len() {
        return false;
    }
    let mut i: usize = 0;
    while i < a.len()
        invariant
            i <= a@.len() == b@.len(),
            forall|j: int| 0 <= j < i ==> a@[j] == b@[j],
        decreases a@.len() - i,
    {
        if a[i] != b[i] {
            return false;
        }
        i += 1;
    }
    assert(a@ =~= b@);
    true
}

/// `part` stands somewhere in the text.
pub fn contains(s: &[char], part: &str) -> (r: bool)
    ensures
        r == has_part(s@, part@),
{
    let p = chars_of(part);
    if p.len() > s.len() {
        return false;
    }
    let len: usize = s.len();
    let size: usize = p.len();
    let last: usize = len - size;
    let mut i: usize = 0;
    loop
        invariant
            i <= last,
            len == s@.len(),
            size == p@.len(),
            last == len - size,
            p@ == part@,
            forall|j: int| 0 <= j < i ==> #[trigger] s@.subrange(j, j + part@.len()) != part@,
        decreases last - i,
    {
        let here = sub_chars(s, i, i + size);
        if same_chars(&here, &p) {
            assert(s@.subrange(i as int, i + part@.len()) == part@);
            return true;
        }
        if i == last {
            return false;
        }
        i += 1;
    }
}

/// The text ends with `suffix`.
pub fn ends_with(s: &[char], suffix: &str) -> (r: bool)
    ensures
        r == suffix@.is_suffix_of(s@),
{
    let p = chars_of(suffix);
    if p.len() > s.len() {
        return false;
    }
    let tail = sub_chars(s, s.len() - p.len(), s.len());
    same_chars(&tail, &p)
}

/// Every ASCII capital becomes its small letter.
pub open spec fn lowered(s: Seq<char>) -> Seq<char> {
    Seq::new(s.len(), |i: int| ascii_lower(s[i]))
}

/// Every ASCII capital becomes its small letter.
pub fn lower_all(s: &[char]) -> (r: Vec<char>)
    ensures
        r@ == lowered(s@),
{
    let mut out: Vec<char> = Vec::new();
    let mut i: usize = 0;
    while i < s.len()
        invariant
            i <= s@.len(),
            out@ == lowered(s@).take(i as int),
        decreases s@.len() - i,
    {
        out.push(to_ascii_lower(s[i]));
        assert(out@ =~= lowered(s@).take(i + 1));
        i += 1;
    }
    assert(lowered(s@).take(i as int) =~= lowered(s@));
    out
}

/// A digit as a character.
pub open spec fn digit(d: int) -> char {
    (('0' as u32) + d) as char
}

/// A number in decimal digits.
pub open spec fn decimal(n: int) -> Seq<char>
    decreases n,
{
    if n < 10 {
        seq![digit(n)]
    } else {
        decimal(n / 10).push(digit(n % 10))
    }
}

/// A number in decimal digits.
pub fn decimal_of(n: usize) -> (r: Vec<char>)
    ensures
        r@ == decimal(n as int),
    decreases n,
{
    let d: u32 = (n % 10) as u32;
    let c: char = match char::from_u32('0' as u32 + d) {
        Some(c) => c,
        None => '0',
    };
    if n < 10 {
        let mut out: Vec<char> = Vec::new();
        out.push(c);
        assert(out@ =~= decimal(n as int));
        return out;
    }
    let mut out = decimal_of(n / 10);
    out.push(c);
    out
}

/// Different numbers have different digits.
pub proof fn decimals_differ(a: int, b: int)
    requires
        0 <= a,
        0 <= b,
        a != b,
    ensures
        decimal(a) != decimal(b),
    decreases a,
{
    decimal_is_digits(a / 10);
    decimal_is_digits(b / 10);
    assert(decimal(a).last() == digit(a % 10));
    assert(decimal(b).last() == digit(b % 10));
    if a % 10 == b % 10 {
        if a >= 10 && b >= 10 {
            decimals_differ(a / 10, b / 10);
            assert(decimal(a).drop_last() =~= decimal(a / 10));
            assert(decimal(b).drop_last() =~= decimal(b / 10));
        } else if a >= 10 {
            assert(decimal(a).len() >= 2 && decimal(b).len() == 1);
        } else if b >= 10 {
            assert(decimal(b).len() >= 2 && decimal(a).len() == 1);
        }
    }
}

/// A number has at least one digit, and nothing but digits.
pub proof fn decimal_is_digits(n: int)
    requires
        0 <= n,
    ensures
        decimal(n).len() >= 1,
        forall|i: int| 0 <= i < decimal(n).len() ==> '0' <= #[trigger] decimal(n)[i] <= '9',
    decreases n,
{
    if n >= 10 {
        decimal_is_digits(n / 10);
    }
}

/// A search stops at the character it looks for and passes over every other.
pub proof fn the_first_is_found(s: Seq<char>, c: char, from: int, at: int)
    requires
        0 <= from <= at <= s.len(),
        forall|i: int| from <= i < at ==> s[i] != c,
        at < s.len() ==> s[at] == c,
    ensures
        first_at(s, c, from) == at,
    decreases at - from,
{
    if from < at {
        the_first_is_found(s, c, from + 1, at);
    }
}

/// Lines one after the other, each with its line feed, and with a carriage return before it where
/// `crlf` says so.
pub open spec fn joined_lines(parts: Seq<Seq<char>>, crlf: bool) -> Seq<char>
    decreases parts.len(),
{
    if parts.len() == 0 {
        Seq::empty()
    } else {
        parts[0] + (if crlf { seq!['\r', '\n'] } else { seq!['\n'] }) + joined_lines(
            parts.skip(1),
            crlf,
        )
    }
}

/// Lines read back as they were written, whichever way they end, and so does a last line that
/// does not end.
pub proof fn lines_read_back(parts: Seq<Seq<char>>, crlf: bool, last: Seq<char>)
    requires
        forall|i: int| 0 <= i < parts.len() ==> !(#[trigger] parts[i]).contains('\n'),
        forall|i: int|
            0 <= i < parts.len() && !crlf && (#[trigger] parts[i]).len() > 0 ==> parts[i].last()
                != '\r',
        !last.contains('\n'),
    ensures
        lines(joined_lines(parts, crlf) + last) == (if last.len() == 0 {
            parts
        } else {
            parts.push(last)
        }),
    decreases parts.len(),
{
    let whole = joined_lines(parts, crlf) + last;
    if parts.len() == 0 {
        assert(whole =~= last);
        if last.len() > 0 {
            assert forall|i: int| 0 <= i < last.len() implies last[i] != '\n' by {
                if last[i] == '\n' {
                    assert(last.contains('\n'));
                }
            }
            the_first_is_found(last, '\n', 0, last.len() as int);
            assert(lines(whole) =~= parts.push(last));
        } else {
            assert(lines(whole) =~= parts);
        }
    } else {
        let rest = parts.skip(1);
        assert forall|i: int| 0 <= i < rest.len() implies !(#[trigger] rest[i]).contains('\n') && (
        !crlf && rest[i].len() > 0 ==> rest[i].last() != '\r') by {
            assert(rest[i] == parts[i + 1]);
        }
        lines_read_back(rest, crlf, last);
        let end = if crlf { seq!['\r', '\n'] } else { seq!['\n'] };
        let tail = joined_lines(rest, crlf) + last;
        assert(whole =~= parts[0] + end + tail);
        let at = parts[0].len() + end.len() - 1;
        assert forall|i: int| 0 <= i < at implies whole[i] != '\n' by {
            if i < parts[0].len() {
                assert(whole[i] == parts[0][i]);
                if parts[0][i] == '\n' {
                    assert(parts[0].contains('\n'));
                }
            }
        }
        assert(whole[at] == '\n');
        the_first_is_found(whole, '\n', 0, at);
        assert(whole.skip(at + 1) =~= tail);
        if crlf {
            assert(whole.take(at) =~= parts[0].push('\r'));
            assert(whole.take(at).drop_last() =~= parts[0]);
        } else {
            assert(whole.take(at) =~= parts[0]);
        }
        assert(without_cr(whole.take(at)) == parts[0]);
        assert(lines(whole) == seq![parts[0]] + lines(tail));
        assert(parts =~= seq![parts[0]] + rest);
        assert(parts.push(last) =~= seq![parts[0]] + rest.push(last));
    }
}

/// Parts with a separator between each two.
pub open spec fn joined(parts: Seq<Seq<char>>, c: char) -> Seq<char>
    decreases parts.len(),
{
    if parts.len() == 0 {
        Seq::empty()
    } else if parts.len() == 1 {
        parts[0]
    } else {
        parts[0] + seq![c] + joined(parts.skip(1), c)
    }
}

/// Splitting undoes joining, for parts that do not hold the separator.
pub proof fn splitting_undoes_joining(parts: Seq<Seq<char>>, c: char)
    requires
        parts.len() > 0,
        forall|i: int| 0 <= i < parts.len() ==> !(#[trigger] parts[i]).contains(c),
    ensures
        split(joined(parts, c), c) == parts,
    decreases parts.len(),
{
    let whole = joined(parts, c);
    let n = parts[0].len() as int;
    assert forall|i: int| 0 <= i < n implies whole[i] != c by {
        assert(whole[i] == parts[0][i]);
        if parts[0][i] == c {
            assert(parts[0].contains(c));
        }
    }
    the_first_is_found(whole, c, 0, n);
    if parts.len() == 1 {
        assert(split(whole, c) =~= parts);
    } else {
        let rest = parts.skip(1);
        assert forall|i: int| 0 <= i < rest.len() implies !(#[trigger] rest[i]).contains(c) by {
            assert(rest[i] == parts[i + 1]);
        }
        splitting_undoes_joining(rest, c);
        assert(whole[n] == c);
        assert(whole.take(n) =~= parts[0]);
        assert(whole.skip(n + 1) =~= joined(rest, c));
        assert(parts =~= seq![parts[0]] + rest);
    }
}

/// Trimming takes away the white space around a text and nothing else.
pub proof fn trimming_takes_the_space_around(before: Seq<char>, s: Seq<char>, after: Seq<char>)
    requires
        forall|i: int| 0 <= i < before.len() ==> white_space(#[trigger] before[i]),
        forall|i: int| 0 <= i < after.len() ==> white_space(#[trigger] after[i]),
        s.len() > 0 ==> !white_space(s[0]) && !white_space(s.last()),
    ensures
        trimmed(before + s + after) == s,
    decreases before.len() + after.len(),
{
    let whole = before + s + after;
    if before.len() > 0 {
        assert(whole[0] == before[0]);
        assert(whole.skip(1) =~= before.skip(1) + s + after);
        trimming_takes_the_space_around(before.skip(1), s, after);
    } else if s.len() == 0 {
        if after.len() > 0 {
            assert(whole[0] == after[0]);
            assert(whole.skip(1) =~= before + s + after.skip(1));
            trimming_takes_the_space_around(before, s, after.skip(1));
        } else {
            assert(whole =~= s);
        }
    } else {
        assert(whole[0] == s[0]);
        assert(trimmed_start(whole) == whole);
        trimming_the_end(s, after);
        assert(whole =~= s + after);
    }
}

proof fn trimming_the_end(s: Seq<char>, after: Seq<char>)
    requires
        s.len() > 0,
        !white_space(s.last()),
        forall|i: int| 0 <= i < after.len() ==> white_space(#[trigger] after[i]),
    ensures
        trimmed_end(s + after) == s,
    decreases after.len(),
{
    let whole = s + after;
    if after.len() > 0 {
        assert(whole.last() == after[after.len() - 1]);
        assert(whole.drop_last() =~= s + after.drop_last());
        trimming_the_end(s, after.drop_last());
    } else {
        assert(whole =~= s);
    }
}

/// The capitals and small letters of ASCII stand in the same order, thirty-two apart; going from
/// one to the other and back changes nothing, and nothing but a letter changes.
pub proof fn letters_have_two_cases(c: char)
    ensures
        'a' <= ascii_lower(c) <= 'z' <==> 'a' <= c <= 'z' || 'A' <= c <= 'Z',
        'A' <= ascii_upper(c) <= 'Z' <==> 'a' <= c <= 'z' || 'A' <= c <= 'Z',
        'A' <= c <= 'Z' ==> ascii_lower(c) as u32 - 'a' as u32 == c as u32 - 'A' as u32
            && ascii_upper(ascii_lower(c)) == c && ascii_upper(c) == c,
        'a' <= c <= 'z' ==> ascii_upper(c) as u32 - 'A' as u32 == c as u32 - 'a' as u32
            && ascii_lower(ascii_upper(c)) == c && ascii_lower(c) == c,
        !('a' <= c <= 'z' || 'A' <= c <= 'Z') ==> ascii_lower(c) == c && ascii_upper(c) == c,
{
}

/// Texts are the same without regard to case when each two characters are the same or the two
/// cases of one ASCII letter.
pub proof fn case_is_all_that_is_ignored(a: Seq<char>, b: Seq<char>)
    ensures
        same_ignoring_ascii_case(a, b) <==> a.len() == b.len() && forall|i: int|
            0 <= i < a.len() ==> #[trigger] a[i] == b[i] || ('a' <= a[i] <= 'z' && b[i] as u32 + 32
                == a[i] as u32) || ('A' <= a[i] <= 'Z' && a[i] as u32 + 32 == b[i] as u32),
        same_ignoring_ascii_case(a, b) == same_ignoring_ascii_case(b, a),
        same_ignoring_ascii_case(a, b) <==> lowered(a) == lowered(b),
{
    if same_ignoring_ascii_case(a, b) {
        assert(lowered(a) =~= lowered(b));
        assert forall|i: int| 0 <= i < a.len() implies #[trigger] a[i] == b[i] || ('a' <= a[i]
            <= 'z' && b[i] as u32 + 32 == a[i] as u32) || ('A' <= a[i] <= 'Z' && a[i] as u32 + 32
            == b[i] as u32) by {
            assert(ascii_lower(a[i]) == ascii_lower(b[i]));
        }
    }
    if lowered(a) == lowered(b) {
        assert(lowered(a).len() == lowered(b).len());
        assert forall|i: int| 0 <= i < a.len() implies ascii_lower(#[trigger] a[i]) == ascii_lower(
            b[i],
        ) by {
            assert(lowered(a)[i] == lowered(b)[i]);
        }
    }
    if a.len() == b.len() && forall|i: int|
        0 <= i < a.len() ==> #[trigger] a[i] == b[i] || ('a' <= a[i] <= 'z' && b[i] as u32 + 32
            == a[i] as u32) || ('A' <= a[i] <= 'Z' && a[i] as u32 + 32 == b[i] as u32) {
        assert forall|i: int| 0 <= i < a.len() implies ascii_lower(#[trigger] a[i]) == ascii_lower(
            b[i],
        ) by {
            if a[i] != b[i] {
                if 'a' <= a[i] <= 'z' {
                    assert('A' <= b[i] <= 'Z');
                }
            }
        }
    }
}

/// A text stands in every text that is put together around it.
pub proof fn parts_are_found(before: Seq<char>, part: Seq<char>, after: Seq<char>)
    ensures
        has_part(before + part + after, part),
{
    let whole = before + part + after;
    let n = before.len() as int;
    assert(whole.subrange(n, n + part.len()) =~= part);
}

/// The value of a text of digits.
pub open spec fn value_of(s: Seq<char>) -> int
    decreases s.len(),
{
    if s.len() == 0 {
        0
    } else {
        10 * value_of(s.drop_last()) + (s.last() as u32 - '0' as u32)
    }
}

/// A number is the value of its digits, and is written without leading zeros.
pub proof fn digits_have_the_value(n: int)
    requires
        0 <= n,
    ensures
        value_of(decimal(n)) == n,
        n > 0 ==> decimal(n)[0] != '0',
    decreases n,
{
    decimal_is_digits(n);
    if n >= 10 {
        digits_have_the_value(n / 10);
        decimal_is_digits(n / 10);
        assert(decimal(n).drop_last() =~= decimal(n / 10));
    } else {
        let s = decimal(n);
        assert(s.last() == digit(n));
        assert(s.drop_last() =~= Seq::<char>::empty());
        assert(value_of(s.drop_last()) == 0);
        assert(value_of(s) == 10 * value_of(s.drop_last()) + (s.last() as u32 - '0' as u32));
    }
}

/// The characters that can be seen: letters and digits are among them, and neither the space nor a
/// control character is.
pub proof fn seen_characters(c: char)
    ensures
        ascii_alnum(c) ==> ascii_graphic(c),
        ascii_graphic(c) ==> !white_space(c) && !control(c),
        ascii_graphic(c) <==> 0x20 < c as u32 && (c as u32) < 0x7f,
        control(c) && (c as u32) < 0x80 <==> (c as u32) < 0x80 && c != ' ' && !ascii_graphic(c),
        ascii_alnum(c) <==> (48 <= c as u32 <= 57) || (65 <= ascii_upper(c) as u32 <= 90),
        0x80 <= c as u32 <= 0x9f ==> control(c),
        c as u32 >= 0xa0 ==> !control(c),
{
}

/// A text that stands in another has something before it and something behind it there, and no
/// more is needed.
pub proof fn parts_stand_in_the_text(s: Seq<char>, part: Seq<char>)
    requires
        has_part(s, part),
    ensures
        exists|before: Seq<char>, after: Seq<char>| s == #[trigger] (before + part + after),
{
    let i = choose|i: int|
        0 <= i && i + part.len() <= s.len() && #[trigger] s.subrange(i, i + part.len()) == part;
    assert(s =~= s.take(i) + part + s.skip(i + part.len()));
}

} // verus!
