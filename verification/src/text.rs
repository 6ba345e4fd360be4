//! Text as a sequence of characters: searching, splitting, trimming, joining
//! and reading or writing decimal numbers.
//!
//! Each executable function is stated against a specification over
//! `Seq<char>`, the view of `str` and `String`.

use vstd::prelude::*;
use vstd::utf8::{decode_utf8, valid_utf8};

verus! {

/// `String::push` appends one character and changes nothing else.
pub assume_specification[ String::push ](s: &mut String, c: char)
    ensures
        final(s)@ == old(s)@.push(c),
;

/// `std::str::from_utf8`: the text that the bytes encode, where they are valid
/// UTF-8, and nothing where they are not.
#[verifier::external_body]
pub(crate) fn utf8_text<'a>(bytes: &'a [u8]) -> (r: Option<&'a str>)
    ensures
        r is Some <==> valid_utf8(bytes@),
        r matches Some(t) ==> t@ == decode_utf8(bytes@),
{
    std::str::from_utf8(bytes).ok()
}

/// The text that bytes stand for where whatever is no UTF-8 in them is
/// replaced.
pub uninterp spec fn lossy_text(bytes: Seq<u8>) -> Seq<char>;

/// `String::from_utf8_lossy`: the text that the bytes encode, where they are
/// valid UTF-8. Of other bytes the contract says only that the result depends
/// on nothing else, not where the replacement characters stand.
#[verifier::external_body]
pub(crate) fn utf8_text_lossy(bytes: &[u8]) -> (r: String)
    ensures
        r@ == lossy_text(bytes@),
        valid_utf8(bytes@) ==> r@ == decode_utf8(bytes@),
{
    String::from_utf8_lossy(bytes).into_owned()
}

/// The characters with the Unicode property `White_Space`.
pub open spec fn is_white_space(c: char) -> bool {
    ||| 0x09 <= c as u32 <= 0x0d
    ||| c as u32 == 0x20
    ||| c as u32 == 0x85
    ||| c as u32 == 0xa0
    ||| c as u32 == 0x1680
    ||| 0x2000 <= c as u32 <= 0x200a
    ||| 0x2028 <= c as u32 <= 0x2029
    ||| c as u32 == 0x202f
    ||| c as u32 == 0x205f
    ||| c as u32 == 0x3000
}

/// Every character of `s` from `from` up to `to` is white space.
pub open spec fn blank_between(s: Seq<char>, from: int, to: int) -> bool {
    forall|k: int| from <= k < to ==> is_white_space(#[trigger] s[k])
}

/// `s` without the white space that it starts with.
pub open spec fn trimmed_start(s: Seq<char>) -> Seq<char>
    decreases s.len(),
{
    if s.len() > 0 && is_white_space(s[0]) {
        trimmed_start(s.drop_first())
    } else {
        s
    }
}

/// `s` without the white space that it ends with.
pub open spec fn trimmed_end(s: Seq<char>) -> Seq<char>
    decreases s.len(),
{
    if s.len() > 0 && is_white_space(s.last()) {
        trimmed_end(s.drop_last())
    } else {
        s
    }
}

/// `s` without the white space at either end.
pub open spec fn trimmed(s: Seq<char>) -> Seq<char> {
    trimmed_end(trimmed_start(s))
}

/// `part` stands in `s` at position `i`.
pub open spec fn occurs_at(s: Seq<char>, part: Seq<char>, i: int) -> bool {
    &&& 0 <= i
    &&& i + part.len() <= s.len()
    &&& s.subrange(i, i + part.len()) == part
}

/// `part` stands somewhere in `s`.
pub open spec fn has_part(s: Seq<char>, part: Seq<char>) -> bool {
    exists|i: int| occurs_at(s, part, i)
}

/// The first position from `i` on at which `part` stands in `s`.
pub open spec fn first_occurrence(s: Seq<char>, part: Seq<char>, i: int) -> Option<int>
    decreases s.len() - i,
{
    if i < 0 || i + part.len() > s.len() {
        None
    } else if occurs_at(s, part, i) {
        Some(i)
    } else if i >= s.len() {
        None
    } else {
        first_occurrence(s, part, i + 1)
    }
}

/// The pieces of `s` between the occurrences of a separator, read from the
/// left without overlap.
pub open spec fn pieces(s: Seq<char>, separator: Seq<char>) -> Seq<Seq<char>>
    decreases s.len(),
{
    match first_occurrence(s, separator, 0) {
        Some(i) if separator.len() > 0 && 0 <= i && i + separator.len() <= s.len() => {
            seq![s.take(i)] + pieces(s.skip(i + separator.len()), separator)
        },
        _ => seq![s],
    }
}

/// The parts, one after the other, with a separator between neighbours.
pub open spec fn joined(parts: Seq<Seq<char>>, separator: Seq<char>) -> Seq<char>
    decreases parts.len(),
{
    if parts.len() == 0 {
        Seq::empty()
    } else if parts.len() == 1 {
        parts[0]
    } else {
        joined(parts.drop_last(), separator) + separator + parts.last()
    }
}

/// `s` with every occurrence of `from` replaced by `to`.
pub open spec fn replaced(s: Seq<char>, from: Seq<char>, to: Seq<char>) -> Seq<char> {
    joined(pieces(s, from), to)
}

/// The position of the first line feed from `i` on, or the length.
pub open spec fn line_end(s: Seq<char>, i: int) -> int
    decreases s.len() - i,
{
    if 0 <= i < s.len() && s[i] != '\n' {
        line_end(s, i + 1)
    } else {
        i
    }
}

/// A line without the carriage return that stands before its line feed.
pub open spec fn without_return(line: Seq<char>) -> Seq<char> {
    if line.len() > 0 && line.last() == '\r' {
        line.drop_last()
    } else {
        line
    }
}

/// The lines of a text. A line ends at a line feed, or at a carriage return
/// and a line feed; the line ending is no part of it, and the last line may
/// lack one.
pub open spec fn lines_of(s: Seq<char>) -> Seq<Seq<char>>
    decreases s.len(),
{
    if s.len() == 0 {
        Seq::empty()
    } else if 0 <= line_end(s, 0) < s.len() {
        seq![without_return(s.take(line_end(s, 0)))] + lines_of(s.skip(line_end(s, 0) + 1))
    } else {
        seq![s]
    }
}

/// An ASCII digit.
pub open spec fn is_digit(c: char) -> bool {
    '0' <= c <= '9'
}

/// The number that a run of decimal digits stands for.
pub open spec fn digits_value(s: Seq<char>) -> nat
    decreases s.len(),
{
    if s.len() == 0 {
        0
    } else {
        digits_value(s.drop_last()) * 10 + (s.last() as nat - '0' as nat) as nat
    }
}

/// `s` without one leading plus sign.
pub open spec fn without_plus(s: Seq<char>) -> Seq<char> {
    if s.len() > 0 && s[0] == '+' {
        s.drop_first()
    } else {
        s
    }
}

/// The number that `s` writes: an optional plus sign and at least one decimal
/// digit, with a value that fits in 32 bits.
pub open spec fn parsed_u32(s: Seq<char>) -> Option<u32> {
    let digits = without_plus(s);
    if digits.len() > 0 && (forall|i: int| 0 <= i < digits.len() ==> is_digit(#[trigger] digits[i]))
        && digits_value(digits) <= u32::MAX {
        Some(digits_value(digits) as u32)
    } else {
        None
    }
}

/// The character of a decimal digit.
pub open spec fn digit_char(d: nat) -> char {
    if d == 0 {
        '0'
    } else if d == 1 {
        '1'
    } else if d == 2 {
        '2'
    } else if d == 3 {
        '3'
    } else if d == 4 {
        '4'
    } else if d == 5 {
        '5'
    } else if d == 6 {
        '6'
    } else if d == 7 {
        '7'
    } else if d == 8 {
        '8'
    } else {
        '9'
    }
}

/// A natural number in decimal notation.
pub open spec fn decimal(n: nat) -> Seq<char>
    decreases n,
{
    if n < 10 {
        seq![digit_char(n)]
    } else {
        decimal(n / 10).push(digit_char(n % 10))
    }
}

/// An integer in decimal notation, with a minus sign where it is negative.
pub open spec fn signed_decimal(n: int) -> Seq<char> {
    if n < 0 {
        seq!['-'] + decimal((-n) as nat)
    } else {
        decimal(n as nat)
    }
}

/// An optional text, borrowed.
pub fn borrowed(text: &Option<String>) -> (r: Option<&str>)
    ensures
        r.deep_view() == text.deep_view(),
{
    match text {
        Some(t) => Some(t.as_str()),
        None => None,
    }
}

/// An optional text, owned.
pub fn owned(text: Option<&str>) -> (r: Option<String>)
    ensures
        r.deep_view() == text.deep_view(),
{
    match text {
        Some(t) => Some(t.to_string()),
        None => None,
    }
}

/// Whether `c` is white space.
pub fn white_space(c: char) -> (r: bool)
    ensures
        r == is_white_space(c),
{
    let n: u32 = c as u32;
    (0x09 <= n && n <= 0x0d) || n == 0x20 || n == 0x85 || n == 0xa0 || n == 0x1680 || (0x2000 <= n
        && n <= 0x200a) || (0x2028 <= n && n <= 0x2029) || n == 0x202f || n == 0x205f || n == 0x3000
}

/// The characters of a text.
pub fn chars_of(s: &str) -> (r: Vec<char>)
    ensures
        r@ == s@,
{
    let mut v: Vec<char> = Vec::new();
    for c in it: s.chars()
        invariant
            it.seq() == s@,
            v@ == s@.take(it.index()),
    {
        v.push(c);
    }
    v
}

/// The text that a range of characters makes.
pub fn text_between(v: &Vec<char>, from: usize, to: usize) -> (r: String)
    requires
        from <= to <= v@.len(),
    ensures
        r@ == v@.subrange(from as int, to as int),
{
    let mut out: String = String::new();
    let mut i: usize = from;
    while i < to
        invariant
            from <= i <= to <= v@.len(),
            out@ == v@.subrange(from as int, i as int),
        decreases to - i,
    {
        out.push(v[i]);
        i = i + 1;
        assert(v@.subrange(from as int, i as int) =~= v@.subrange(from as int, i - 1).push(
            v@[i - 1],
        ));
    }
    out
}

/// Appends a text to another.
pub fn push_text(out: &mut String, s: &str)
    ensures
        final(out)@ == old(out)@ + s@,
{
    let ghost before = out@;
    for c in it: s.chars()
        invariant
            it.seq() == s@,
            out@ == before + s@.take(it.index()),
    {
        out.push(c);
    }
}

/// Whether two texts are the same.
pub fn same_text(a: &str, b: &str) -> (r: bool)
    ensures
        r == (a@ == b@),
{
    a.to_string() == b.to_string()
}

/// Whether `part` stands in `v` at position `i`.
fn matches_at(v: &Vec<char>, part: &Vec<char>, i: usize) -> (r: bool)
    requires
        i <= v@.len(),
    ensures
        r == occurs_at(v@, part@, i as int),
{
    let n: usize = v.len();
    if part.len() > n - i {
        return false;
    }
    let mut k: usize = 0;
    while k < part.len()
        invariant
            k <= part@.len(),
            i + part@.len() <= n == v@.len(),
            forall|j: int| 0 <= j < k ==> v@[i + j] == part@[j],
        decreases part@.len() - k,
    {
        if v[i + k] != part[k] {
            assert(v@.subrange(i as int, i + part@.len())[k as int] == v@[i + k]);
            return false;
        }
        k = k + 1;
    }
    assert(v@.subrange(i as int, i + part@.len()) =~= part@);
    true
}

/// The first position from `from` on at which `part` stands in `v`.
pub fn find_from(v: &Vec<char>, part: &Vec<char>, from: usize) -> (r: Option<usize>)
    requires
        from <= v@.len(),
    ensures
        match r {
            Some(i) => first_occurrence(v@, part@, from as int) == Some(i as int) && occurs_at(
                v@,
                part@,
                i as int,
            ) && from <= i,
            None => first_occurrence(v@, part@, from as int) is None,
        },
{
    let mut i: usize = from;
    loop
        invariant
            from <= i <= v@.len(),
            first_occurrence(v@, part@, from as int) == first_occurrence(v@, part@, i as int),
        decreases v@.len() - i,
    {
        if matches_at(v, part, i) {
            return Some(i);
        }
        if i == v.len() {
            return None;
        }
        i = i + 1;
    }
}

/// A first occurrence is one, and none comes before it.
pub proof fn lemma_first_occurrence(s: Seq<char>, part: Seq<char>, i: int)
    requires
        0 <= i <= s.len(),
    ensures
        match first_occurrence(s, part, i) {
            Some(p) => i <= p && occurs_at(s, part, p) && forall|k: int|
                i <= k < p ==> !occurs_at(s, part, k),
            None => forall|k: int| i <= k ==> !occurs_at(s, part, k),
        },
    decreases s.len() - i,
{
    if i + part.len() > s.len() {
    } else if occurs_at(s, part, i) {
    } else if i < s.len() {
        lemma_first_occurrence(s, part, i + 1);
    }
}

/// Whether `part` stands somewhere in `s`.
pub fn contains(s: &str, part: &str) -> (r: bool)
    ensures
        r == has_part(s@, part@),
{
    let v = chars_of(s);
    let p = chars_of(part);
    let r = find_from(&v, &p, 0);
    proof {
        lemma_first_occurrence(s@, part@, 0);
    }
    r.is_some()
}

/// Whether `s` starts with `part`.
pub fn starts_with(s: &str, part: &str) -> (r: bool)
    ensures
        r == part@.is_prefix_of(s@),
{
    let v = chars_of(s);
    let p = chars_of(part);
    matches_at(&v, &p, 0)
}

/// Whether `s` ends with `part`.
pub fn ends_with(s: &str, part: &str) -> (r: bool)
    ensures
        r == part@.is_suffix_of(s@),
{
    let v = chars_of(s);
    let p = chars_of(part);
    if p.len() > v.len() {
        return false;
    }
    matches_at(&v, &p, v.len() - p.len())
}

/// The text without the white space at either end.
pub fn trim(s: &str) -> (r: String)
    ensures
        r@ == trimmed(s@),
{
    let v = chars_of(s);
    let mut i: usize = 0;
    assert(v@.skip(0) =~= v@);
    while i < v.len() && white_space(v[i])
        invariant
            i <= v@.len(),
            trimmed_start(v@) == trimmed_start(v@.skip(i as int)),
        decreases v@.len() - i,
    {
        assert(v@.skip(i as int).drop_first() =~= v@.skip(i + 1));
        i = i + 1;
    }
    let ghost rest = v@.skip(i as int);
    assert(trimmed_start(v@) == rest);
    let mut j: usize = v.len();
    assert(v@.subrange(i as int, j as int) =~= rest);
    while j > i && white_space(v[j - 1])
        invariant
            i <= j <= v@.len(),
            trimmed_end(rest) == trimmed_end(v@.subrange(i as int, j as int)),
        decreases j,
    {
        assert(v@.subrange(i as int, j as int).drop_last() =~= v@.subrange(i as int, j - 1));
        j = j - 1;
    }
    text_between(&v, i, j)
}

/// The pieces of `s` between the occurrences of `separator`.
pub fn split(s: &str, separator: &str) -> (r: Vec<String>)
    requires
        separator@.len() > 0,
    ensures
        r.deep_view() == pieces(s@, separator@),
        r@.len() > 0,
{
    let v = chars_of(s);
    let p = chars_of(separator);
    let n: usize = v.len();
    let mut out: Vec<String> = Vec::new();
    let mut from: usize = 0;
    assert(out.deep_view() + pieces(v@.skip(0), p@) =~= pieces(s@, separator@)) by {
        assert(v@.skip(0) =~= s@);
    }
    loop
        invariant
            from <= n == v@.len(),
            p@ == separator@,
            p@.len() > 0,
            out.deep_view() + pieces(v@.skip(from as int), p@) == pieces(s@, separator@),
        decreases v@.len() - from,
    {
        let ghost before = out.deep_view();
        let ghost rest = v@.skip(from as int);
        let found = find_from(&v, &p, from);
        proof {
            lemma_first_occurrence_skip(v@, p@, from as int, from as int);
        }
        match found {
            Some(i) => {
                let piece = text_between(&v, from, i);
                out.push(piece);
                proof {
                    assert(rest.take(i - from) =~= piece@);
                    assert(rest.skip(i - from + p@.len()) =~= v@.skip(i + p@.len()));
                    assert(out.deep_view() =~= before.push(piece@));
                    assert(out.deep_view() + pieces(v@.skip(i + p@.len()), p@) =~= before + (
                    seq![piece@] + pieces(v@.skip(i + p@.len()), p@)));
                }
                from = i + p.len();
            },
            None => {
                let piece = text_between(&v, from, n);
                out.push(piece);
                proof {
                    assert(piece@ =~= rest);
                    assert(out.deep_view() =~= before + seq![rest]);
                }
                return out;
            },
        }
    }
}

/// Searching from `from` on is searching the rest of the text.
proof fn lemma_first_occurrence_skip(s: Seq<char>, part: Seq<char>, from: int, i: int)
    requires
        0 <= from <= i <= s.len(),
    ensures
        first_occurrence(s.skip(from), part, i - from) == match first_occurrence(s, part, i) {
            Some(p) => Some(p - from),
            None => None,
        },
    decreases s.len() - i,
{
    let rest = s.skip(from);
    if i + part.len() <= s.len() {
        assert(rest.subrange(i - from, i - from + part.len()) =~= s.subrange(i, i + part.len()));
        if !occurs_at(s, part, i) && i < s.len() {
            lemma_first_occurrence_skip(s, part, from, i + 1);
        }
    }
}

/// The parts joined with a separator between neighbours.
pub fn join(parts: &Vec<String>, separator: &str) -> (r: String)
    ensures
        r@ == joined(parts.deep_view(), separator@),
{
    let mut out: String = String::new();
    let mut i: usize = 0;
    let ghost all = parts.deep_view();
    while i < parts.len()
        invariant
            i <= parts@.len(),
            all == parts.deep_view(),
            out@ == joined(all.take(i as int), separator@),
        decreases parts@.len() - i,
    {
        if i > 0 {
            push_text(&mut out, separator);
        }
        push_text(&mut out, parts[i].as_str());
        i = i + 1;
        assert(all.take(i as int).drop_last() =~= all.take(i - 1));
    }
    assert(all.take(i as int) =~= all);
    out
}

/// The text with every occurrence of `from` replaced by `to`.
pub fn replace(s: &str, from: &str, to: &str) -> (r: String)
    requires
        from@.len() > 0,
    ensures
        r@ == replaced(s@, from@, to@),
{
    let parts = split(s, from);
    join(&parts, to)
}

/// The lines of a text.
pub fn lines(s: &str) -> (r: Vec<String>)
    ensures
        r.deep_view() == lines_of(s@),
{
    let v = chars_of(s);
    let mut out: Vec<String> = Vec::new();
    let mut from: usize = 0;
    assert(out.deep_view() + lines_of(v@.skip(0)) =~= lines_of(s@)) by {
        assert(v@.skip(0) =~= s@);
    }
    while from < v.len()
        invariant
            from <= v@.len(),
            out.deep_view() + lines_of(v@.skip(from as int)) == lines_of(s@),
        decreases v@.len() - from,
    {
        let ghost before = out.deep_view();
        let ghost rest = v@.skip(from as int);
        let mut end: usize = from;
        while end < v.len() && v[end] != '\n'
            invariant
                from <= end <= v@.len(),
                rest == v@.skip(from as int),
                line_end(rest, 0) == line_end(rest, end - from),
            decreases v@.len() - end,
        {
            end = end + 1;
        }
        if end == v.len() {
            let line = text_between(&v, from, end);
            out.push(line);
            from = end;
            proof {
                assert(line@ =~= rest);
                assert(out.deep_view() =~= before + seq![rest]);
                assert(out.deep_view() + lines_of(v@.skip(from as int)) =~= out.deep_view());
            }
        } else {
            let stop: usize = if end > from && v[end - 1] == '\r' {
                end - 1
            } else {
                end
            };
            let line = text_between(&v, from, stop);
            out.push(line);
            from = end + 1;
            proof {
                assert(without_return(rest.take(line_end(rest, 0))) =~= line@);
                assert(rest.skip(line_end(rest, 0) + 1) =~= v@.skip(from as int));
                assert(out.deep_view() =~= before.push(line@));
                assert(out.deep_view() + lines_of(v@.skip(from as int)) =~= before + (seq![line@]
                    + lines_of(v@.skip(from as int))));
            }
        }
    }
    assert(out.deep_view() + lines_of(v@.skip(from as int)) =~= out.deep_view());
    out
}

/// Reads a decimal number of at most 32 bits, with an optional plus sign.
pub fn parse_u32(s: &str) -> (r: Option<u32>)
    ensures
        r == parsed_u32(s@),
{
    let v = chars_of(s);
    let start: usize = if v.len() > 0 && v[0] == '+' {
        1
    } else {
        0
    };
    let ghost digits = without_plus(s@);
    assert(digits =~= v@.skip(start as int));
    let mut value: u64 = 0;
    let mut i: usize = start;
    while i < v.len()
        invariant
            start <= i <= v@.len(),
            digits == without_plus(s@),
            digits == v@.skip(start as int),
            value == digits_value(digits.take(i - start)),
            value <= u32::MAX,
            forall|k: int| 0 <= k < i - start ==> is_digit(#[trigger] digits[k]),
        decreases v@.len() - i,
    {
        let c: char = v[i];
        assert(digits[i - start] == c);
        if c < '0' || c > '9' {
            assert(!is_digit(digits[i - start]));
            return None;
        }
        value = value * 10 + (c as u64 - '0' as u64);
        i = i + 1;
        assert(digits.take(i - start).drop_last() =~= digits.take(i - start - 1));
        if value > u32::MAX as u64 {
            proof {
                lemma_digits_value_grows(digits, i - start);
            }
            return None;
        }
    }
    assert(digits.take(i - start) =~= digits);
    if i == start {
        return None;
    }
    Some(value as u32)
}

/// Further digits do not make a number smaller.
proof fn lemma_digits_value_grows(s: Seq<char>, i: int)
    requires
        0 <= i <= s.len(),
    ensures
        digits_value(s.take(i)) <= digits_value(s),
    decreases s.len() - i,
{
    if i < s.len() {
        assert(s.take(i + 1).drop_last() =~= s.take(i));
        lemma_digits_value_grows(s, i + 1);
    } else {
        assert(s.take(i) =~= s);
    }
}

/// The character of a decimal digit.
fn digit(d: u64) -> (r: char)
    requires
        d < 10,
    ensures
        r == digit_char(d as nat),
{
    match d {
        0 => '0',
        1 => '1',
        2 => '2',
        3 => '3',
        4 => '4',
        5 => '5',
        6 => '6',
        7 => '7',
        8 => '8',
        _ => '9',
    }
}

/// Writes a number in decimal notation.
pub fn number_text(n: u64) -> (r: String)
    ensures
        r@ == decimal(n as nat),
    decreases n,
{
    let mut out: String = if n < 10 {
        String::new()
    } else {
        number_text(n / 10)
    };
    out.push(digit(n % 10));
    out
}

/// Writes a signed number in decimal notation.
pub fn signed_number_text(n: i32) -> (r: String)
    ensures
        r@ == signed_decimal(n as int),
{
    if n < 0 {
        let mut out: String = String::new();
        out.push('-');
        let magnitude: u64 = (-(n as i64)) as u64;
        push_text(&mut out, number_text(magnitude).as_str());
        assert(out@ =~= seq!['-'] + decimal(magnitude as nat));
        out
    } else {
        number_text(n as u64)
    }
}

/// Joining puts the first part in front of the rest.
proof fn lemma_joined_first(parts: Seq<Seq<char>>, separator: Seq<char>)
    requires
        parts.len() >= 2,
    ensures
        joined(parts, separator) == parts[0] + separator + joined(parts.drop_first(), separator),
    decreases parts.len(),
{
    let rest = parts.drop_first();
    if parts.len() == 2 {
        assert(parts.drop_last()[0] == parts[0]);
        assert(joined(parts.drop_last(), separator) == parts[0]);
        assert(joined(rest, separator) == parts[1]);
    } else {
        lemma_joined_first(parts.drop_last(), separator);
        assert(parts.drop_last().drop_first() =~= rest.drop_last());
        assert(joined(rest, separator) == joined(rest.drop_last(), separator) + separator
            + rest.last());
        assert(joined(parts, separator) =~= parts[0] + separator + joined(rest, separator));
    }
}

/// Joining the pieces of a text gives the text again.
pub proof fn law_join_undoes_split(s: Seq<char>, separator: Seq<char>)
    requires
        separator.len() > 0,
    ensures
        joined(pieces(s, separator), separator) == s,
    decreases s.len(),
{
    lemma_first_occurrence(s, separator, 0);
    let parts = pieces(s, separator);
    if let Some(i) = first_occurrence(s, separator, 0) {
        let rest = s.skip(i + separator.len());
        law_join_undoes_split(rest, separator);
        assert(parts.drop_first() =~= pieces(rest, separator));
        lemma_pieces_not_empty(rest, separator);
        lemma_joined_first(parts, separator);
        assert(s =~= s.take(i) + separator + rest);
    } else {
        assert(parts[0] == s);
    }
}

/// A text has a piece at least.
proof fn lemma_pieces_not_empty(s: Seq<char>, separator: Seq<char>)
    ensures
        pieces(s, separator).len() > 0,
{
}

/// The separator that follows a part is the first one from the start of the part
/// on.
pub open spec fn ends_at_separator(part: Seq<char>, separator: Seq<char>) -> bool {
    forall|i: int| 0 <= i < part.len() ==> !#[trigger] occurs_at(part + separator, separator, i)
}

/// Splitting what was joined gives the parts again, where no part brings in a
/// separator of its own.
pub proof fn law_split_undoes_join(parts: Seq<Seq<char>>, separator: Seq<char>)
    requires
        separator.len() > 0,
        parts.len() > 0,
        forall|k: int|
            0 <= k < parts.len() - 1 ==> ends_at_separator(#[trigger] parts[k], separator),
        !has_part(parts.last(), separator),
    ensures
        pieces(joined(parts, separator), separator) == parts,
    decreases parts.len(),
{
    let s = joined(parts, separator);
    lemma_first_occurrence(s, separator, 0);
    if parts.len() == 1 {
        if let Some(i) = first_occurrence(s, separator, 0) {
            assert(occurs_at(parts.last(), separator, i));
        }
        assert(pieces(s, separator) =~= parts);
    } else {
        let rest = parts.drop_first();
        let n = parts[0].len() as int;
        lemma_joined_first(parts, separator);
        assert forall|k: int| 0 <= k < rest.len() - 1 implies ends_at_separator(
            #[trigger] rest[k],
            separator,
        ) by {
            assert(rest[k] == parts[k + 1]);
        }
        law_split_undoes_join(rest, separator);
        assert(s.subrange(n, n + separator.len()) =~= separator);
        assert(occurs_at(s, separator, n));
        assert forall|i: int| 0 <= i < n implies !occurs_at(s, separator, i) by {
            assert(ends_at_separator(parts[0], separator));
            assert(!occurs_at(parts[0] + separator, separator, i));
            assert(s.subrange(i, i + separator.len()) =~= (parts[0] + separator).subrange(
                i,
                i + separator.len(),
            ));
        }
        assert(first_occurrence(s, separator, 0) == Some(n));
        assert(s.take(n) =~= parts[0]);
        assert(s.skip(n + separator.len()) =~= joined(rest, separator));
        assert(pieces(s, separator) =~= parts);
    }
}

/// The start of a text passes over white space only.
pub(crate) proof fn lemma_trimmed_start(s: Seq<char>) -> (n: int)
    ensures
        0 <= n <= s.len(),
        trimmed_start(s) == s.skip(n),
        blank_between(s, 0, n),
        n < s.len() ==> !is_white_space(s[n]),
    decreases s.len(),
{
    if s.len() > 0 && is_white_space(s[0]) {
        let m = lemma_trimmed_start(s.drop_first());
        assert(s.drop_first().skip(m) =~= s.skip(m + 1));
        assert forall|k: int| 0 <= k < m + 1 implies is_white_space(#[trigger] s[k]) by {
            if k > 0 {
                assert(s.drop_first()[k - 1] == s[k]);
            }
        }
        m + 1
    } else {
        assert(s.skip(0) =~= s);
        0
    }
}

/// White space up to a character that is none is what `trimmed_start` passes
/// over.
pub(crate) proof fn lemma_trimmed_start_at(s: Seq<char>, n: int)
    requires
        0 <= n <= s.len(),
        blank_between(s, 0, n),
        n < s.len() ==> !is_white_space(s[n]),
    ensures
        trimmed_start(s) == s.skip(n),
{
    let m = lemma_trimmed_start(s);
    if m < n {
        assert(is_white_space(s[m]));
    }
}

/// White space at the end does not change what trimming leaves.
pub(crate) proof fn lemma_trimmed_append_blank(s: Seq<char>, blank: Seq<char>)
    requires
        blank_between(blank, 0, blank.len() as int),
    ensures
        trimmed(s + blank) == trimmed(s),
{
    let n = lemma_trimmed_start(s);
    let whole = s + blank;
    if n < s.len() {
        assert forall|k: int| 0 <= k < n implies is_white_space(#[trigger] whole[k]) by {
            assert(s[k] == whole[k]);
        }
        lemma_trimmed_start_at(whole, n);
        assert(whole.skip(n) =~= s.skip(n) + blank);
        lemma_trimmed_end_append_blank(s.skip(n), blank);
    } else {
        assert forall|k: int| 0 <= k < whole.len() implies is_white_space(#[trigger] whole[k]) by {
            if k < s.len() {
                assert(s[k] == whole[k]);
            } else {
                assert(blank[k - s.len()] == whole[k]);
            }
        }
        lemma_trimmed_start_at(whole, whole.len() as int);
        assert(whole.skip(whole.len() as int) =~= s.skip(n));
    }
}

proof fn lemma_trimmed_end_append_blank(s: Seq<char>, blank: Seq<char>)
    requires
        blank_between(blank, 0, blank.len() as int),
    ensures
        trimmed_end(s + blank) == trimmed_end(s),
    decreases blank.len(),
{
    if blank.len() == 0 {
        assert(s + blank =~= s);
    } else {
        assert(is_white_space(blank[blank.len() - 1]));
        assert((s + blank).drop_last() =~= s + blank.drop_last());
        assert forall|k: int| 0 <= k < blank.len() - 1 implies is_white_space(
            #[trigger] blank.drop_last()[k],
        ) by {
            assert(blank[k] == blank.drop_last()[k]);
        }
        lemma_trimmed_end_append_blank(s, blank.drop_last());
    }
}

/// The end of a text passes over white space only.
proof fn lemma_trimmed_end(s: Seq<char>) -> (n: int)
    ensures
        0 <= n <= s.len(),
        trimmed_end(s) == s.take(n),
        blank_between(s, n, s.len() as int),
        n > 0 ==> !is_white_space(s[n - 1]),
    decreases s.len(),
{
    if s.len() > 0 && is_white_space(s.last()) {
        let front = s.drop_last();
        let m = lemma_trimmed_end(front);
        assert(front.take(m) =~= s.take(m));
        assert forall|k: int| m <= k < s.len() implies is_white_space(#[trigger] s[k]) by {
            if k < front.len() {
                assert(front[k] == s[k]);
            }
        }
        if m > 0 {
            assert(front[m - 1] == s[m - 1]);
        }
        m
    } else {
        assert(s.take(s.len() as int) =~= s);
        s.len() as int
    }
}

/// White space is what Unicode gives that property.
pub proof fn law_white_space_is_that_of_unicode(c: char)
    ensures
        is_white_space(c) <==> {
            ||| c == '\t' || c == '\n' || c == '\u{b}' || c == '\u{c}' || c == '\r' || c == ' '
            ||| c == '\u{85}' || c == '\u{a0}' || c == '\u{1680}' || c == '\u{2000}'
            ||| c == '\u{2001}' || c == '\u{2002}' || c == '\u{2003}' || c == '\u{2004}'
            ||| c == '\u{2005}' || c == '\u{2006}' || c == '\u{2007}' || c == '\u{2008}'
            ||| c == '\u{2009}' || c == '\u{200a}' || c == '\u{2028}' || c == '\u{2029}'
            ||| c == '\u{202f}' || c == '\u{205f}' || c == '\u{3000}'
        },
{
}

/// Trimming takes a run out of the text: white space only stands around it, and
/// it neither starts nor ends with any.
pub proof fn law_trimming_takes_white_space_only(s: Seq<char>)
    ensures
        exists|from: int, to: int|
            0 <= from <= to <= s.len() && trimmed(s) == #[trigger] s.subrange(from, to) && (
            forall|k: int|
                (0 <= k < from || to <= k < s.len()) ==> is_white_space(#[trigger] s[k])) && (from
                < to ==> !is_white_space(s[from]) && !is_white_space(s[to - 1])),
{
    let from = lemma_trimmed_start(s);
    let rest = s.skip(from);
    let n = lemma_trimmed_end(rest);
    let to = from + n;
    assert(rest.take(n) =~= s.subrange(from, to));
    assert forall|k: int| (0 <= k < from || to <= k < s.len()) implies is_white_space(
        #[trigger] s[k],
    ) by {
        if k >= to {
            assert(rest[k - from] == s[k]);
        }
    }
    if from < to {
        assert(rest[n - 1] == s[to - 1]);
    }
}

/// A text that neither starts nor ends with white space is what trimming leaves
/// of it, whatever white space stands around it.
pub proof fn law_a_text_in_white_space_is_trimmed_to_itself(
    before: Seq<char>,
    text: Seq<char>,
    after: Seq<char>,
)
    requires
        forall|k: int| 0 <= k < before.len() ==> is_white_space(#[trigger] before[k]),
        forall|k: int| 0 <= k < after.len() ==> is_white_space(#[trigger] after[k]),
        text.len() > 0 ==> !is_white_space(text[0]) && !is_white_space(text.last()),
    ensures
        trimmed(before + text + after) == text,
{
    let s = before + text + after;
    law_trimming_takes_white_space_only(s);
    let (from, to) = choose|from: int, to: int|
        0 <= from <= to <= s.len() && trimmed(s) == #[trigger] s.subrange(from, to) && (forall|
            k: int,
        |
            (0 <= k < from || to <= k < s.len()) ==> is_white_space(#[trigger] s[k])) && (from < to
            ==> !is_white_space(s[from]) && !is_white_space(s[to - 1]));
    let first = before.len() as int;
    let last = first + text.len();
    assert forall|k: int| 0 <= k < first implies is_white_space(#[trigger] s[k]) by {
        assert(before[k] == s[k]);
    }
    assert forall|k: int| last <= k < s.len() implies is_white_space(#[trigger] s[k]) by {
        assert(after[k - last] == s[k]);
    }
    if text.len() > 0 {
        assert(s[first] == text[0]);
        assert(s[last - 1] == text.last());
        assert(from == first && to == last);
    } else if from < to {
        assert(false);
    }
    assert(s.subrange(from, to) =~= text);
}

/// A text holds a part exactly where it is the part with something before it and
/// something behind it.
pub proof fn law_a_part_stands_between_two_others(s: Seq<char>, part: Seq<char>)
    ensures
        has_part(s, part) <==> exists|before: Seq<char>, after: Seq<char>|
            s == #[trigger] (before + part + after),
{
    if has_part(s, part) {
        let i = choose|i: int| occurs_at(s, part, i);
        let before = s.take(i);
        let after = s.skip(i + part.len());
        assert(s =~= before + part + after);
    }
    if exists|before: Seq<char>, after: Seq<char>| s == #[trigger] (before + part + after) {
        let (before, after) = choose|before: Seq<char>, after: Seq<char>|
            s == #[trigger] (before + part + after);
        let i = before.len() as int;
        assert(s.subrange(i, i + part.len()) =~= part);
        assert(occurs_at(s, part, i));
    }
}

/// No piece of a text holds the separator.
pub proof fn law_no_piece_holds_the_separator(s: Seq<char>, separator: Seq<char>)
    requires
        separator.len() > 0,
    ensures
        forall|k: int|
            0 <= k < pieces(s, separator).len() ==> !has_part(
                #[trigger] pieces(s, separator)[k],
                separator,
            ),
    decreases s.len(),
{
    lemma_first_occurrence(s, separator, 0);
    let parts = pieces(s, separator);
    match first_occurrence(s, separator, 0) {
        Some(i) => {
            let rest = s.skip(i + separator.len());
            law_no_piece_holds_the_separator(rest, separator);
            assert forall|k: int| 0 <= k < parts.len() implies !has_part(
                #[trigger] parts[k],
                separator,
            ) by {
                if k == 0 {
                    if has_part(parts[0], separator) {
                        let j = choose|j: int| occurs_at(parts[0], separator, j);
                        assert(s.subrange(j, j + separator.len()) =~= parts[0].subrange(
                            j,
                            j + separator.len(),
                        ));
                        assert(occurs_at(s, separator, j));
                    }
                } else {
                    assert(parts[k] == pieces(rest, separator)[k - 1]);
                }
            }
        },
        None => {
            assert forall|k: int| 0 <= k < parts.len() implies !has_part(
                #[trigger] parts[k],
                separator,
            ) by {
                if has_part(s, separator) {
                    let j = choose|j: int| occurs_at(s, separator, j);
                }
            }
        },
    }
}

/// Joining writes the parts one after the other, with the separator before each
/// but the first.
pub proof fn law_joining_puts_the_separator_between(
    parts: Seq<Seq<char>>,
    part: Seq<char>,
    separator: Seq<char>,
)
    ensures
        joined(Seq::<Seq<char>>::empty(), separator) == Seq::<char>::empty(),
        joined(seq![part], separator) == part,
        parts.len() > 0 ==> joined(parts.push(part), separator) == joined(parts, separator)
            + separator + part,
{
    assert(parts.push(part).drop_last() =~= parts);
}

/// Joined with nothing between them, the parts stand next to each other.
pub proof fn law_joining_with_nothing_between_is_putting_together(parts: Seq<Seq<char>>)
    ensures
        joined(parts, Seq::<char>::empty()) == parts.flatten(),
    decreases parts.len(),
{
    if parts.len() == 0 {
        assert(parts.flatten() =~= Seq::<char>::empty());
    } else {
        let front = parts.drop_last();
        law_joining_with_nothing_between_is_putting_together(front);
        parts.lemma_flatten_and_flatten_alt_are_equivalent();
        front.lemma_flatten_and_flatten_alt_are_equivalent();
        if parts.len() == 1 {
            assert(front =~= Seq::<Seq<char>>::empty());
            assert(parts.flatten_alt() =~= front.flatten_alt() + parts.last());
            assert(parts.flatten() =~= parts[0]);
        } else {
            assert(joined(parts, Seq::<char>::empty()) =~= parts.flatten());
        }
    }
}

/// A text without a part stays as it is when the part is replaced. Otherwise the
/// first occurrence is replaced, and then all in the rest.
pub proof fn law_replacing_goes_from_left_to_right(
    before: Seq<char>,
    from: Seq<char>,
    after: Seq<char>,
    to: Seq<char>,
)
    requires
        from.len() > 0,
    ensures
        !has_part(before, from) ==> replaced(before, from, to) == before,
        ends_at_separator(before, from) ==> replaced(before + from + after, from, to) == before + to
            + replaced(after, from, to),
{
    if !has_part(before, from) {
        lemma_first_occurrence(before, from, 0);
        if let Some(i) = first_occurrence(before, from, 0) {
            assert(occurs_at(before, from, i));
        }
        assert(pieces(before, from) =~= seq![before]);
    }
    if ends_at_separator(before, from) {
        let s = before + from + after;
        let n = before.len() as int;
        lemma_first_occurrence(s, from, 0);
        assert(s.subrange(n, n + from.len()) =~= from);
        assert(occurs_at(s, from, n));
        assert forall|i: int| 0 <= i < n implies !occurs_at(s, from, i) by {
            assert(!occurs_at(before + from, from, i));
            assert(s.subrange(i, i + from.len()) =~= (before + from).subrange(i, i + from.len()));
        }
        assert(first_occurrence(s, from, 0) == Some(n));
        assert(s.take(n) =~= before);
        assert(s.skip(n + from.len()) =~= after);
        let parts = pieces(s, from);
        assert(parts.drop_first() =~= pieces(after, from));
        lemma_pieces_not_empty(after, from);
        lemma_joined_first(parts, to);
    }
}

/// A line goes up to a line feed. A carriage return before the line feed is no
/// part of it; the last line may lack the line feed.
pub proof fn law_lines_end_at_line_feeds(line: Seq<char>, rest: Seq<char>)
    requires
        !line.contains('\n'),
    ensures
        lines_of(line + seq!['\n'] + rest) == seq![
            if line.len() > 0 && line.last() == '\r' {
                line.drop_last()
            } else {
                line
            },
        ] + lines_of(rest),
        lines_of(line) == if line.len() > 0 {
            seq![line]
        } else {
            Seq::empty()
        },
{
    let s = line + seq!['\n'] + rest;
    let n = line.len() as int;
    assert forall|k: int| 0 <= k < n implies line[k] != '\n' by {
        assert(line.contains(line[k]));
    }
    lemma_line_end_at(s, 0, n);
    assert(s.take(n) =~= line);
    assert(s.skip(n + 1) =~= rest);
    lemma_line_end_at(line, 0, n);
}

/// The first line feed ends the line.
proof fn lemma_line_end_at(s: Seq<char>, i: int, end: int)
    requires
        0 <= i <= end <= s.len(),
        forall|k: int| i <= k < end ==> s[k] != '\n',
        end < s.len() ==> s[end] == '\n',
    ensures
        line_end(s, i) == end,
    decreases end - i,
{
    if i < end {
        lemma_line_end_at(s, i + 1, end);
    }
}

/// A number is read digit by digit. A digit more makes it ten times as large,
/// and adds its value, as long as the number fits in 32 bits. A plus sign in
/// front changes nothing.
pub proof fn law_numbers_are_read_digit_by_digit(digits: Seq<char>, c: char)
    requires
        forall|k: int| 0 <= k < digits.len() ==> '0' <= #[trigger] digits[k] <= '9',
        '0' <= c <= '9',
    ensures
        parsed_u32(Seq::empty()) is None,
        parsed_u32(seq![c]) == Some((c as int - '0' as int) as u32),
        digits.len() > 0 ==> parsed_u32(digits.push(c)) == match parsed_u32(digits) {
            Some(n) => if n * 10 + (c as int - '0' as int) <= u32::MAX {
                Some((n * 10 + (c as int - '0' as int)) as u32)
            } else {
                None
            },
            None => None,
        },
        parsed_u32(seq!['+'] + digits) == parsed_u32(digits),
{
    let one = seq![c];
    let more = digits.push(c);
    assert(one.drop_last() =~= Seq::<char>::empty());
    assert(without_plus(one) == one);
    assert(is_digit(one[0]));
    assert(digits_value(Seq::<char>::empty()) == 0);
    assert(digits_value(one) == c as nat - '0' as nat);
    assert(more.drop_last() =~= digits);
    assert forall|k: int| 0 <= k < more.len() implies is_digit(#[trigger] more[k]) by {
        if k < digits.len() {
            assert(more[k] == digits[k]);
        }
    }
    assert(forall|k: int| 0 <= k < digits.len() ==> is_digit(#[trigger] digits[k]));
    if digits.len() > 0 {
        assert(is_digit(digits[0]));
        assert(is_digit(more[0]));
        assert(without_plus(digits) == digits);
        assert(without_plus(more) == more);
        assert(digits_value(more) == digits_value(digits) * 10 + (c as nat - '0' as nat) as nat);
    }
    assert((seq!['+'] + digits).drop_first() =~= digits);
}

/// Only digits make a number, with one plus sign at most in front of them.
pub proof fn law_only_digits_make_a_number(s: Seq<char>)
    requires
        parsed_u32(s) is Some,
    ensures
        s.len() > 0,
        s.len() == 1 ==> s[0] != '+',
        forall|k: int|
            0 <= k < s.len() ==> '0' <= #[trigger] s[k] <= '9' || (k == 0 && s[k] == '+'),
{
    let digits = without_plus(s);
    assert forall|k: int| 0 <= k < s.len() implies '0' <= #[trigger] s[k] <= '9' || (k == 0 && s[k]
        == '+') by {
        if s[0] == '+' {
            if k > 0 {
                assert(is_digit(digits[k - 1]));
            }
        } else {
            assert(is_digit(digits[k]));
        }
    }
}

/// A number is written digit by digit: the last digit of a number behind those
/// of its tenth part. A negative number has a minus sign in front.
pub proof fn law_numbers_are_written_digit_by_digit(n: nat, d: nat)
    requires
        d < 10,
    ensures
        decimal(d) == seq![('0' as int + d) as char],
        n > 0 ==> decimal(n * 10 + d) == decimal(n).push(('0' as int + d) as char),
        signed_decimal(n as int) == decimal(n),
        n > 0 ==> signed_decimal(-(n as int)) == seq!['-'] + decimal(n),
{
    assert((n * 10 + d) / 10 == n);
    assert((n * 10 + d) % 10 == d);
    assert(digit_char(d) == ('0' as int + d) as char);
}

/// Each part stands in what is joined.
pub proof fn law_each_part_stands_in_what_is_joined(
    parts: Seq<Seq<char>>,
    separator: Seq<char>,
    k: int,
)
    requires
        0 <= k < parts.len(),
    ensures
        has_part(joined(parts, separator), parts[k]),
    decreases parts.len(),
{
    let whole = joined(parts, separator);
    let none = Seq::<char>::empty();
    if parts.len() == 1 {
        assert(whole =~= none + parts[k] + none);
    } else if k == parts.len() - 1 {
        let before = joined(parts.drop_last(), separator) + separator;
        assert(whole =~= before + parts[k] + none);
    } else {
        let front = parts.drop_last();
        law_each_part_stands_in_what_is_joined(front, separator, k);
        law_a_part_stands_between_two_others(joined(front, separator), parts[k]);
        let (before, after) = choose|before: Seq<char>, after: Seq<char>|
            joined(front, separator) == #[trigger] (before + parts[k] + after);
        assert(whole =~= before + parts[k] + (after + separator + parts.last()));
    }
    law_a_part_stands_between_two_others(whole, parts[k]);
}

} // verus!
