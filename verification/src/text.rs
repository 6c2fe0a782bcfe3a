//! Character-level helpers for the text that system tools print.

use vstd::prelude::*;
use vstd::string::*;
use crate::error::IntErrorKind;

verus! {

/// The characters of `s`, in order.
pub fn chars_of(s: &str) -> (v: Vec<char>)
    ensures
        v@ == s@,
{
    let mut v: Vec<char> = Vec::new();
    for c in it: s.chars()
        invariant
            it.seq() == s@,
            v@ == s@.take(it.index() as int),
    {
        v.push(c);
    }
    v
}

/// Whether `s` begins with the characters of `p`.
pub fn str_starts_with(s: &str, p: &str) -> (b: bool)
    ensures
        b == p@.is_prefix_of(s@),
{
    let n: usize = s.unicode_len();
    let m: usize = p.unicode_len();
    if m > n {
        return false;
    }
    let mut i: usize = 0;
    while i < m
        invariant
            i <= m,
            m <= n,
            n == s@.len(),
            m == p@.len(),
            forall|j: int| 0 <= j < i ==> s@[j] == p@[j],
        decreases m - i,
    {
        if s.get_char(i) != p.get_char(i) {
            return false;
        }
        i += 1;
    }
    assert(s@.subrange(0, m as int) =~= p@);
    true
}

/// Whether `a` and `b` hold the same characters.
pub fn str_equals(a: &str, b: &str) -> (r: bool)
    ensures
        r == (a@ == b@),
{
    let same_start = str_starts_with(a, b);
    let r = same_start && a.unicode_len() == b.unicode_len();
    assert(r ==> a@ =~= b@);
    r
}

/// A decimal digit.
pub open spec fn is_digit(c: char) -> bool {
    '0' <= c <= '9'
}

/// The number that a decimal digit stands for.
pub open spec fn digit_value(c: char) -> nat {
    (c as u32 - '0' as u32) as nat
}

/// The number that a run of digits denotes, read from the left: the error
/// of the first character that is no digit or that takes the number above
/// `max`, whichever comes first.
pub open spec fn parse_digits(s: Seq<char>, max: nat) -> Result<nat, IntErrorKind>
    decreases s.len(),
{
    if s.len() == 0 {
        Ok(0)
    } else {
        match parse_digits(s.drop_last(), max) {
            Err(e) => Err(e),
            Ok(front) => if !is_digit(s.last()) {
                Err(IntErrorKind::InvalidDigit)
            } else if front * 10 + digit_value(s.last()) > max {
                Err(IntErrorKind::PosOverflow)
            } else {
                Ok(front * 10 + digit_value(s.last()))
            },
        }
    }
}

/// The unsigned number no greater than `max` that a text denotes in decimal
/// notation: digits, after one optional plus sign. An empty text, a lone
/// sign, any other character and a number above `max` are errors.
pub open spec fn parse_unsigned(s: Seq<char>, max: nat) -> Result<nat, IntErrorKind> {
    if s.len() == 0 {
        Err(IntErrorKind::Empty)
    } else if s.len() == 1 && (s[0] == '+' || s[0] == '-') {
        Err(IntErrorKind::InvalidDigit)
    } else if s[0] == '+' {
        parse_digits(s.drop_first(), max)
    } else {
        parse_digits(s, max)
    }
}

/// Whether an executable result is the given mathematical one.
pub open spec fn same_number(r: Result<u64, IntErrorKind>, want: Result<nat, IntErrorKind>) -> bool {
    match (r, want) {
        (Ok(v), Ok(n)) => v == n,
        (Err(e), Err(f)) => e == f,
        _ => false,
    }
}

/// The number that the characters from `from` up to `to` denote.
pub fn parse_unsigned_in(s: &Vec<char>, from: usize, to: usize, max: u64) -> (r: Result<
    u64,
    IntErrorKind,
>)
    requires
        from <= to <= s@.len(),
    ensures
        same_number(r, parse_unsigned(s@.subrange(from as int, to as int), max as nat)),
{
    let ghost text = s@.subrange(from as int, to as int);
    if from == to {
        return Err(IntErrorKind::Empty);
    }
    let first: char = s[from];
    assert(first == text[0]);
    if to - from == 1 && (first == '+' || first == '-') {
        return Err(IntErrorKind::InvalidDigit);
    }
    let start: usize = if first == '+' { from + 1 } else { from };
    let ghost body = s@.subrange(start as int, to as int);
    assert(first == '+' ==> body =~= text.drop_first());
    assert(first != '+' ==> body =~= text);
    assert(parse_unsigned(text, max as nat) == parse_digits(body, max as nat));
    assert(body.take(0) =~= Seq::<char>::empty());
    let mut acc: u64 = 0;
    let mut i: usize = start;
    while i < to
        invariant
            start <= i <= to,
            to <= s@.len(),
            text == s@.subrange(from as int, to as int),
            body == s@.subrange(start as int, to as int),
            parse_unsigned(text, max as nat) == parse_digits(body, max as nat),
            parse_digits(body.take(i - start), max as nat) == Ok::<nat, IntErrorKind>(acc as nat),
        decreases to - i,
    {
        let c: char = s[i];
        let ghost upto = body.take(i - start + 1);
        proof {
            assert(upto.drop_last() =~= body.take(i - start));
            assert(upto.last() == c);
            assert(body.take(body.len() as int) =~= body);
        }
        if !(c >= '0' && c <= '9') {
            proof {
                lemma_parse_digits_error_stays(body, max as nat, i - start + 1, body.len() as int);
            }
            return Err(IntErrorKind::InvalidDigit);
        }
        let d: u64 = (c as u32 - '0' as u32) as u64;
        let next: u128 = acc as u128 * 10 + d as u128;
        if next > max as u128 {
            proof {
                lemma_parse_digits_error_stays(body, max as nat, i - start + 1, body.len() as int);
            }
            return Err(IntErrorKind::PosOverflow);
        }
        acc = next as u64;
        i += 1;
    }
    assert(body.take(to - start) =~= body);
    Ok(acc)
}

/// Once a beginning of the digits is in error, every longer beginning is
/// in the same error.
pub proof fn lemma_parse_digits_error_stays(s: Seq<char>, max: nat, i: int, k: int)
    requires
        0 <= i <= k <= s.len(),
        parse_digits(s.take(i), max) is Err,
    ensures
        parse_digits(s.take(k), max) == parse_digits(s.take(i), max),
    decreases k - i,
{
    if i < k {
        lemma_parse_digits_error_stays(s, max, i, k - 1);
        assert(s.take(k).drop_last() =~= s.take(k - 1));
    }
}

/// The length of the longest beginning of `s` in which `c` does not occur.
pub open spec fn until(s: Seq<char>, c: char) -> nat
    decreases s.len(),
{
    if s.len() == 0 || s[0] == c {
        0
    } else {
        1 + until(s.drop_first(), c)
    }
}

/// `until` stops at the first occurrence or at the end.
pub proof fn lemma_until(s: Seq<char>, c: char)
    ensures
        until(s, c) <= s.len(),
        forall|i: int| 0 <= i < until(s, c) ==> s[i] != c,
        until(s, c) < s.len() ==> s[until(s, c) as int] == c,
    decreases s.len(),
{
    if s.len() > 0 && s[0] != c {
        let rest = s.drop_first();
        lemma_until(rest, c);
        assert forall|i: int| 0 <= i < until(s, c) implies s[i] != c by {
            if i > 0 {
                assert(rest[i - 1] == s[i]);
            }
        }
        if until(s, c) < s.len() {
            assert(rest[until(rest, c) as int] == s[until(s, c) as int]);
        }
    }
}

/// A position from a start on before which `c` does not occur, and at which
/// it does or the text ends, is where `until` stops.
pub proof fn lemma_until_is(s: Seq<char>, c: char, n: int)
    requires
        0 <= n <= s.len(),
        forall|i: int| 0 <= i < n ==> s[i] != c,
        n < s.len() ==> s[n] == c,
    ensures
        until(s, c) == n,
    decreases s.len(),
{
    if s.len() > 0 && s[0] != c {
        let rest = s.drop_first();
        assert forall|i: int| 0 <= i < n - 1 implies rest[i] != c by {
            assert(rest[i] == s[i + 1]);
        }
        if n - 1 < rest.len() {
            assert(rest[n - 1] == s[n]);
        }
        lemma_until_is(rest, c, n - 1);
    }
}

/// The first position from `from` on at which `c` stands, or the length of
/// the text.
pub fn find_char(s: &Vec<char>, from: usize, c: char) -> (r: usize)
    requires
        from <= s@.len(),
    ensures
        from <= r <= s@.len(),
        r == from + until(s@.skip(from as int), c),
{
    let n: usize = s.len();
    let mut i: usize = from;
    while i < n && s[i] != c
        invariant
            from <= i <= n,
            n == s@.len(),
            forall|k: int| from <= k < i ==> s@[k] != c,
        decreases n - i,
    {
        i += 1;
    }
    proof {
        lemma_until_is(s@.skip(from as int), c, i - from);
    }
    i
}

/// The `k`-th piece of `s` when it is cut at every newline, counted from 0;
/// none where `s` has fewer pieces. A text without newline is one piece.
pub open spec fn field(s: Seq<char>, k: nat) -> Option<Seq<char>>
    decreases k,
{
    let n = until(s, '\n');
    if k == 0 {
        Some(s.take(n as int))
    } else if n >= s.len() {
        None
    } else {
        field(s.skip(n as int + 1), (k - 1) as nat)
    }
}

/// Where the `k`-th piece of `s` stands: its first position and the
/// position after its last.
pub fn field_range(s: &Vec<char>, k: usize) -> (r: Option<(usize, usize)>)
    ensures
        match r {
            Some((from, to)) => from <= to <= s@.len() && field(s@, k as nat) == Some(
                s@.subrange(from as int, to as int),
            ),
            None => field(s@, k as nat) is None,
        },
{
    let n: usize = s.len();
    let mut from: usize = 0;
    let mut left: usize = k;
    assert(s@.skip(0) =~= s@);
    loop
        invariant
            from <= n,
            n == s@.len(),
            left <= k,
            field(s@, k as nat) == field(s@.skip(from as int), left as nat),
        decreases left,
    {
        let to: usize = find_char(s, from, '\n');
        if left == 0 {
            assert(s@.skip(from as int).take(to - from) =~= s@.subrange(from as int, to as int));
            return Some((from, to));
        }
        if to >= n {
            return None;
        }
        assert(s@.skip(from as int).skip(to - from + 1) =~= s@.skip(to + 1));
        from = to + 1;
        left = left - 1;
    }
}

/// White space as Unicode defines it.
pub open spec fn is_whitespace(c: char) -> bool {
    let n = c as u32;
    n == 0x20 || (0x09 <= n <= 0x0d) || n == 0x85 || n == 0xa0 || n == 0x1680 || (0x2000 <= n
        <= 0x200a) || n == 0x2028 || n == 0x2029 || n == 0x202f || n == 0x205f || n == 0x3000
}

/// Whether the character is white space.
pub fn char_is_whitespace(c: char) -> (r: bool)
    ensures
        r == is_whitespace(c),
{
    let n: u32 = c as u32;
    n == 0x20 || (0x09 <= n && n <= 0x0d) || n == 0x85 || n == 0xa0 || n == 0x1680 || (0x2000 <= n
        && n <= 0x200a) || n == 0x2028 || n == 0x2029 || n == 0x202f || n == 0x205f || n == 0x3000
}

/// The number of characters at the beginning of `s` that meet `p`.
pub open spec fn span(s: Seq<char>, p: spec_fn(char) -> bool) -> nat
    decreases s.len(),
{
    if s.len() > 0 && p(s[0]) {
        1 + span(s.drop_first(), p)
    } else {
        0
    }
}

/// The number of characters at the end of `s` that meet `p`.
pub open spec fn span_back(s: Seq<char>, p: spec_fn(char) -> bool) -> nat
    decreases s.len(),
{
    if s.len() > 0 && p(s.last()) {
        1 + span_back(s.drop_last(), p)
    } else {
        0
    }
}

/// A beginning whose characters all meet `p`, followed by one that does not
/// or by the end, is the span.
pub proof fn lemma_span_is(s: Seq<char>, p: spec_fn(char) -> bool, n: int)
    requires
        0 <= n <= s.len(),
        forall|i: int| 0 <= i < n ==> p(s[i]),
        n < s.len() ==> !p(s[n]),
    ensures
        span(s, p) == n,
    decreases s.len(),
{
    if n > 0 {
        let rest = s.drop_first();
        assert(p(s[0]));
        assert forall|i: int| 0 <= i < n - 1 implies p(rest[i]) by {
            assert(rest[i] == s[i + 1]);
        }
        if n - 1 < rest.len() {
            assert(rest[n - 1] == s[n]);
        }
        lemma_span_is(rest, p, n - 1);
    }
}

/// An end whose characters all meet `p`, preceded by one that does not or
/// by the beginning, is the span at the back.
pub proof fn lemma_span_back_is(s: Seq<char>, p: spec_fn(char) -> bool, n: int)
    requires
        0 <= n <= s.len(),
        forall|i: int| s.len() - n <= i < s.len() ==> p(s[i]),
        n < s.len() ==> !p(s[s.len() - n - 1]),
    ensures
        span_back(s, p) == n,
    decreases s.len(),
{
    if n > 0 {
        let rest = s.drop_last();
        assert(p(s[s.len() - 1]));
        assert forall|i: int| rest.len() - (n - 1) <= i < rest.len() implies p(rest[i]) by {
            assert(rest[i] == s[i]);
        }
        if n - 1 < rest.len() {
            assert(rest[rest.len() - (n - 1) - 1] == s[s.len() - n - 1]);
        }
        lemma_span_back_is(rest, p, n - 1);
    }
}

/// The text without the white space at its beginning.
pub open spec fn trim_start(s: Seq<char>) -> Seq<char> {
    s.skip(span(s, |c: char| is_whitespace(c)) as int)
}

/// The text without the white space at its end.
pub open spec fn trim_end(s: Seq<char>) -> Seq<char> {
    s.take(s.len() - span_back(s, |c: char| is_whitespace(c)))
}

/// The text without the white space at its beginning and at its end.
pub open spec fn trim(s: Seq<char>) -> Seq<char> {
    trim_end(trim_start(s))
}

/// The test for being the character `c`.
pub open spec fn is_char(c: char) -> spec_fn(char) -> bool {
    |x: char| x == c
}

/// The text without the characters `c` at its end.
pub open spec fn trim_end_of(s: Seq<char>, c: char) -> Seq<char> {
    s.take(s.len() - span_back(s, is_char(c)))
}

/// The first position from `from` up to `to` that holds no white space; `to`
/// where there is none.
pub fn skip_whitespace(s: &Vec<char>, from: usize, to: usize) -> (r: usize)
    requires
        from <= to <= s@.len(),
    ensures
        from <= r <= to,
        s@.subrange(r as int, to as int) == trim_start(s@.subrange(from as int, to as int)),
{
    let ghost text = s@.subrange(from as int, to as int);
    let mut i: usize = from;
    while i < to && char_is_whitespace(s[i])
        invariant
            from <= i <= to,
            to <= s@.len(),
            text == s@.subrange(from as int, to as int),
            forall|k: int| 0 <= k < i - from ==> is_whitespace(text[k]),
        decreases to - i,
    {
        i += 1;
    }
    proof {
        if i < to {
            assert(text[i - from] == s@[i as int]);
        }
        lemma_span_is(text, |c: char| is_whitespace(c), i - from);
        assert(text.skip(i - from) =~= s@.subrange(i as int, to as int));
    }
    i
}

/// The position after the last character from `from` up to `to` that is no
/// white space; `from` where there is none.
pub fn skip_whitespace_back(s: &Vec<char>, from: usize, to: usize) -> (r: usize)
    requires
        from <= to <= s@.len(),
    ensures
        from <= r <= to,
        s@.subrange(from as int, r as int) == trim_end(s@.subrange(from as int, to as int)),
{
    let ghost text = s@.subrange(from as int, to as int);
    let mut i: usize = to;
    while i > from && char_is_whitespace(s[i - 1])
        invariant
            from <= i <= to,
            to <= s@.len(),
            text == s@.subrange(from as int, to as int),
            forall|k: int| i - from <= k < text.len() ==> is_whitespace(text[k]),
        decreases i - from,
    {
        i -= 1;
    }
    proof {
        if i > from {
            assert(text[i - from - 1] == s@[i - 1]);
        }
        lemma_span_back_is(text, |c: char| is_whitespace(c), to - i);
        assert(text.take(i - from) =~= s@.subrange(from as int, i as int));
    }
    i
}

/// The position after the last character from `from` up to `to` that is
/// not `c`; `from` where there is none.
pub fn skip_char_back(s: &Vec<char>, from: usize, to: usize, c: char) -> (r: usize)
    requires
        from <= to <= s@.len(),
    ensures
        from <= r <= to,
        s@.subrange(from as int, r as int) == trim_end_of(s@.subrange(from as int, to as int), c),
{
    let ghost text = s@.subrange(from as int, to as int);
    let mut i: usize = to;
    while i > from && s[i - 1] == c
        invariant
            from <= i <= to,
            to <= s@.len(),
            text == s@.subrange(from as int, to as int),
            forall|k: int| i - from <= k < text.len() ==> text[k] == c,
        decreases i - from,
    {
        i -= 1;
    }
    proof {
        if i > from {
            assert(text[i - from - 1] == s@[i - 1]);
        }
        lemma_span_back_is(text, is_char(c), to - i);
        assert(text.take(i - from) =~= s@.subrange(from as int, i as int));
    }
    i
}

/// Whether the characters from `from` up to `to` begin with those of `p`.
pub fn range_starts_with(s: &Vec<char>, from: usize, to: usize, p: &Vec<char>) -> (r: bool)
    requires
        from <= to <= s@.len(),
    ensures
        r == p@.is_prefix_of(s@.subrange(from as int, to as int)),
{
    let m: usize = p.len();
    if m > to - from {
        return false;
    }
    let ghost text = s@.subrange(from as int, to as int);
    let mut i: usize = 0;
    while i < m
        invariant
            i <= m,
            m == p@.len(),
            m <= to - from,
            from <= to <= s@.len(),
            text == s@.subrange(from as int, to as int),
            forall|k: int| 0 <= k < i ==> text[k] == p@[k],
        decreases m - i,
    {
        if s[from + i] != p[i] {
            assert(text[i as int] != p@[i as int]);
            assert(text.subrange(0, m as int)[i as int] == text[i as int]);
            return false;
        }
        i += 1;
    }
    assert(text.subrange(0, m as int) =~= p@);
    true
}

/// Whether the characters from `from` up to `to` are those of `p`.
pub fn range_equals(s: &Vec<char>, from: usize, to: usize, p: &Vec<char>) -> (r: bool)
    requires
        from <= to <= s@.len(),
    ensures
        r == (s@.subrange(from as int, to as int) == p@),
{
    let starts = range_starts_with(s, from, to, p);
    let r = starts && to - from == p.len();
    assert(r ==> s@.subrange(from as int, to as int) =~= p@);
    r
}

/// The position after the last occurrence of `sep` that ends at or before
/// `end`; 0 where there is none.
pub open spec fn after_last(s: Seq<char>, sep: Seq<char>, end: int) -> int
    decreases end,
{
    if end < sep.len() || end > s.len() || sep.len() == 0 {
        0
    } else if s.subrange(end - sep.len(), end) == sep {
        end
    } else {
        after_last(s, sep, end - 1)
    }
}

/// What follows the last occurrence of `sep` in `s`; all of `s` where
/// `sep` does not occur.
pub open spec fn last_piece(s: Seq<char>, sep: Seq<char>) -> Seq<char> {
    s.skip(after_last(s, sep, s.len() as int))
}

/// Where the last piece of the characters from `from` up to `to` begins,
/// when they are cut at every occurrence of `sep`.
pub fn last_piece_start(s: &Vec<char>, from: usize, to: usize, sep: &Vec<char>) -> (r: usize)
    requires
        from <= to <= s@.len(),
        sep@.len() > 0,
    ensures
        from <= r <= to,
        s@.subrange(r as int, to as int) == last_piece(s@.subrange(from as int, to as int), sep@),
{
    let ghost text = s@.subrange(from as int, to as int);
    let m: usize = sep.len();
    let mut end: usize = to;
    while end - from >= m
        invariant
            from <= end <= to,
            to <= s@.len(),
            m == sep@.len(),
            m > 0,
            text == s@.subrange(from as int, to as int),
            after_last(text, sep@, text.len() as int) == after_last(text, sep@, end - from),
        decreases end - from,
    {
        assert(text.subrange(end - from - m, end - from) =~= s@.subrange(end - m, end as int));
        if range_equals(s, end - m, end, sep) {
            assert(text.skip(end - from) =~= s@.subrange(end as int, to as int));
            return end;
        }
        end -= 1;
    }
    assert(text.skip(0) =~= s@.subrange(from as int, to as int));
    from
}

/// A piece of text as a line: a piece that a newline ended loses one
/// carriage return at its end.
pub open spec fn as_line(piece: Seq<char>, ended: bool) -> Seq<char> {
    if ended && piece.len() > 0 && piece.last() == '\r' {
        piece.drop_last()
    } else {
        piece
    }
}

/// The line that begins at `from`: the position after its last character,
/// and the position of the newline that ends it, or the length of the text
/// where none does.
pub fn line_at(chars: &Vec<char>, from: usize) -> (r: (usize, usize))
    requires
        from <= chars@.len(),
    ensures
        from <= r.0 <= r.1 <= chars@.len(),
        r.1 == from + until(chars@.skip(from as int), '\n'),
        chars@.subrange(from as int, r.0 as int) == as_line(
            chars@.skip(from as int).take(r.1 - from),
            r.1 < chars@.len(),
        ),
{
    let stop: usize = find_char(chars, from, '\n');
    let ended: bool = stop < chars.len();
    let end: usize = if ended && stop > from && chars[stop - 1] == '\r' {
        stop - 1
    } else {
        stop
    };
    proof {
        let piece = chars@.skip(from as int).take(stop - from);
        assert(piece =~= chars@.subrange(from as int, stop as int));
        if stop > from {
            assert(piece.last() == chars@[stop - 1]);
        }
        assert(as_line(piece, ended) =~= chars@.subrange(from as int, end as int));
    }
    (end, stop)
}

/// Whether the characters from `from` up to `to` end with those of `p`.
pub fn range_ends_with(s: &Vec<char>, from: usize, to: usize, p: &Vec<char>) -> (r: bool)
    requires
        from <= to <= s@.len(),
    ensures
        r == p@.is_suffix_of(s@.subrange(from as int, to as int)),
{
    let m: usize = p.len();
    if m > to - from {
        return false;
    }
    let ghost text = s@.subrange(from as int, to as int);
    assert(text.subrange(text.len() - m, text.len() as int) =~= s@.subrange(to - m, to as int));
    range_equals(s, to - m, to, p)
}

/// The character of a digit.
pub open spec fn digit_char(d: nat) -> char
    recommends
        d < 10,
{
    if d == 0 {
        '0'
    } else if d == 1 {
        '1'
    } else if d == 2 {
        '2'
    } else if d == 3 {
        '3'
    } else if d == 4 {
        '4'
    } else if d == 5 {
        '5'
    } else if d == 6 {
        '6'
    } else if d == 7 {
        '7'
    } else if d == 8 {
        '8'
    } else {
        '9'
    }
}

/// A number in decimal notation, without sign and without leading zeros.
pub open spec fn decimal(n: nat) -> Seq<char>
    decreases n,
{
    if n < 10 {
        seq![digit_char(n)]
    } else {
        decimal(n / 10).push(digit_char(n % 10))
    }
}

/// Decimal notation reads back as the number it was written for.
pub proof fn lemma_decimal_round_trip(n: nat, max: nat)
    requires
        n <= max,
    ensures
        parse_digits(decimal(n), max) == Ok::<nat, IntErrorKind>(n),
        parse_unsigned(decimal(n), max) == Ok::<nat, IntErrorKind>(n),
        decimal(n).len() > 0,
        decimal(n)[0] != '+',
        decimal(n)[0] != '-',
    decreases n,
{
    let text = decimal(n);
    if n < 10 {
        assert(text.drop_last() =~= Seq::<char>::empty());
        assert(text.last() == digit_char(n));
        assert(is_digit(digit_char(n)));
        assert(digit_value(digit_char(n)) == n);
        assert(parse_digits(text.drop_last(), max) == Ok::<nat, IntErrorKind>(0));
        assert(parse_digits(text, max) == Ok::<nat, IntErrorKind>(n));
    } else {
        lemma_decimal_round_trip(n / 10, max);
        assert(text.drop_last() =~= decimal(n / 10));
        assert(text.last() == digit_char(n % 10));
        assert(is_digit(digit_char(n % 10)));
        assert(digit_value(digit_char(n % 10)) == n % 10);
        assert(text[0] == decimal(n / 10)[0]);
        assert(parse_digits(text.drop_last(), max) == Ok::<nat, IntErrorKind>(n / 10));
        assert((n / 10) * 10 + n % 10 == n);
        assert(parse_digits(text, max) == Ok::<nat, IntErrorKind>(n));
    }
}

/// The text of one digit.
fn digit_text(d: u64) -> (r: &'static str)
    requires
        d < 10,
    ensures
        r@ == seq![digit_char(d as nat)],
{
    proof {
        reveal_strlit("0");
        reveal_strlit("1");
        reveal_strlit("2");
        reveal_strlit("3");
        reveal_strlit("4");
        reveal_strlit("5");
        reveal_strlit("6");
        reveal_strlit("7");
        reveal_strlit("8");
        reveal_strlit("9");
    }
    let r = if d == 0 {
        "0"
    } else if d == 1 {
        "1"
    } else if d == 2 {
        "2"
    } else if d == 3 {
        "3"
    } else if d == 4 {
        "4"
    } else if d == 5 {
        "5"
    } else if d == 6 {
        "6"
    } else if d == 7 {
        "7"
    } else if d == 8 {
        "8"
    } else {
        "9"
    };
    assert(r@ =~= seq![digit_char(d as nat)]);
    r
}

/// Appends a number in decimal notation to a text.
pub fn push_decimal(text: &mut String, n: u64)
    ensures
        final(text)@ == old(text)@ + decimal(n as nat),
    decreases n,
{
    if n >= 10 {
        push_decimal(text, n / 10);
    }
    text.append(digit_text(n % 10));
    proof {
        if n >= 10 {
            assert(old(text)@ + decimal(n as nat / 10) + seq![digit_char(n as nat % 10)] =~= old(
                text,
            )@ + decimal(n as nat));
        } else {
            assert(old(text)@ + seq![digit_char(n as nat)] =~= old(text)@ + decimal(n as nat));
        }
    }
}

/// A number in decimal notation.
pub fn decimal_of(n: u64) -> (r: String)
    ensures
        r@ == decimal(n as nat),
{
    let mut r = String::new();
    push_decimal(&mut r, n);
    assert(Seq::<char>::empty() + decimal(n as nat) =~= decimal(n as nat));
    r
}

} // verus!
