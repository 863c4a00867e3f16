//! Scanning of text held as a vector of characters: whitespace, trimming,
//! splitting on a separator and decimal numerals.
//!
//! Every executable function works on a range `lo..hi` of a `Vec<char>` and
//! is specified against a function on `Seq<char>`.

use vstd::prelude::*;

verus! {

/// Whether `c` has the Unicode property `White_Space`.
pub open spec fn whitespace(c: char) -> bool {
    let n = c as u32;
    ||| 0x09 <= n <= 0x0D
    ||| n == 0x20
    ||| n == 0x85
    ||| n == 0xA0
    ||| n == 0x1680
    ||| 0x2000 <= n <= 0x200A
    ||| n == 0x2028
    ||| n == 0x2029
    ||| n == 0x202F
    ||| n == 0x205F
    ||| n == 0x3000
}

/// Whether `c` is one of the ten ASCII digits.
pub open spec fn digit(c: char) -> bool {
    0x30 <= c as u32 <= 0x39
}

/// The number that the ASCII digit `c` stands for.
pub open spec fn digit_value(c: char) -> int {
    c as u32 - 0x30
}

/// Whether `s` holds ASCII digits only. The empty text does.
pub open spec fn digits(s: Seq<char>) -> bool {
    forall|i: int| 0 <= i < s.len() ==> digit(#[trigger] s[i])
}

/// The number that a text of ASCII digits denotes in base ten; 0 for the
/// empty text.
pub open spec fn decimal_value(s: Seq<char>) -> int
    decreases s.len(),
{
    if s.len() == 0 {
        0
    } else {
        10 * decimal_value(s.drop_last()) + digit_value(s.last())
    }
}

/// The ASCII digit that stands for `d`, a number from 0 to 9.
pub open spec fn digit_char(d: int) -> char
    recommends
        0 <= d <= 9,
{
    (0x30 + d) as u8 as char
}

/// The numeral of `n` in base ten, without leading zeros: `"0"` for 0.
pub open spec fn decimal_text(n: nat) -> Seq<char>
    decreases n,
{
    if n < 10 {
        seq![digit_char(n as int)]
    } else {
        decimal_text(n / 10).push(digit_char(n as int % 10))
    }
}

/// What a non-negative integer literal denotes: an optional `+`, then one or
/// more ASCII digits. `None` for any other text.
pub open spec fn unsigned_value(s: Seq<char>) -> Option<int> {
    let body = if s.len() > 0 && s[0] == '+' {
        s.drop_first()
    } else {
        s
    };
    if body.len() > 0 && digits(body) {
        Some(decimal_value(body))
    } else {
        None
    }
}

/// `s` without its leading whitespace.
pub open spec fn trim_start(s: Seq<char>) -> Seq<char>
    decreases s.len(),
{
    if s.len() > 0 && whitespace(s.first()) {
        trim_start(s.drop_first())
    } else {
        s
    }
}

/// `s` without its trailing whitespace.
pub open spec fn trim_end(s: Seq<char>) -> Seq<char>
    decreases s.len(),
{
    if s.len() > 0 && whitespace(s.last()) {
        trim_end(s.drop_last())
    } else {
        s
    }
}

/// `s` without its leading and trailing whitespace.
pub open spec fn trim(s: Seq<char>) -> Seq<char> {
    trim_end(trim_start(s))
}

/// The index of the first `c` in `s`, or `s.len()` where `s` holds none.
pub open spec fn position(s: Seq<char>, c: char) -> nat
    decreases s.len(),
{
    if s.len() == 0 || s.first() == c {
        0
    } else {
        1 + position(s.drop_first(), c)
    }
}

/// The pieces of `s` between occurrences of `sep`, in order. A text without
/// `sep` is one piece, the empty text included; `n` separators give `n + 1`
/// pieces, some of which may be empty.
pub open spec fn split(s: Seq<char>, sep: char) -> Seq<Seq<char>>
    decreases s.len(),
{
    let p = position(s, sep);
    if p >= s.len() {
        seq![s]
    } else {
        seq![s.take(p as int)] + split(s.skip(p as int + 1), sep)
    }
}

/// `position` lies within the text, marks a `c` unless it is the length, and
/// no `c` stands before it.
pub proof fn lemma_position(s: Seq<char>, c: char)
    ensures
        0 <= position(s, c) <= s.len(),
        position(s, c) < s.len() ==> s[position(s, c) as int] == c,
        forall|i: int| 0 <= i < position(s, c) ==> s[i] != c,
    decreases s.len(),
{
    if s.len() == 0 || s.first() == c {
    } else {
        let rest = s.drop_first();
        lemma_position(rest, c);
        assert forall|i: int| 0 <= i < position(s, c) implies s[i] != c by {
            if i > 0 {
                assert(s[i] == rest[i - 1]);
            }
        }
    }
}

/// The first index `p` that holds `c` after a run without `c` is the
/// position of `c`.
pub proof fn lemma_position_is(s: Seq<char>, c: char, p: int)
    requires
        0 <= p <= s.len(),
        p < s.len() ==> s[p] == c,
        forall|i: int| 0 <= i < p ==> s[i] != c,
    ensures
        position(s, c) == p,
{
    lemma_position(s, c);
}

/// A text of digits denotes a natural number, and a longer prefix of it
/// denotes no less than a shorter one.
pub proof fn lemma_decimal_prefix(s: Seq<char>, k: int)
    requires
        digits(s),
        0 <= k <= s.len(),
    ensures
        0 <= decimal_value(s.take(k)) <= decimal_value(s),
    decreases s.len() - k,
{
    lemma_decimal_nonnegative(s.take(k));
    if k == s.len() {
        assert(s.take(k) =~= s);
    } else {
        lemma_decimal_prefix(s, k + 1);
        assert(s.take(k + 1).drop_last() =~= s.take(k));
    }
}

/// A text of digits denotes a natural number.
pub proof fn lemma_decimal_nonnegative(s: Seq<char>)
    requires
        digits(s),
    ensures
        0 <= decimal_value(s),
    decreases s.len(),
{
    if s.len() > 0 {
        lemma_decimal_nonnegative(s.drop_last());
    }
}

/// The numeral of `n` is a non-empty text of digits that denotes `n`.
pub proof fn lemma_decimal_text(n: nat)
    ensures
        decimal_text(n).len() >= 1,
        digits(decimal_text(n)),
        decimal_value(decimal_text(n)) == n,
    decreases n,
{
    if n < 10 {
        assert(decimal_value(decimal_text(n).drop_last()) == 0);
    } else {
        lemma_decimal_text(n / 10);
        assert(decimal_text(n).drop_last() =~= decimal_text(n / 10));
    }
}

/// Collects the characters of `s`.
pub fn chars_of(s: &str) -> (v: Vec<char>)
    ensures
        v@ == s@,
{
    let mut v: Vec<char> = Vec::new();
    for c in it: s.chars()
        invariant
            v@ == it.seq().take(it.index() as int),
            it.seq() == s@,
    {
        v.push(c);
    }
    v
}

/// What is taken on trust of `String::push` from the standard library: the
/// call appends `c` to the end of the string and leaves the characters that
/// were there as they were.
pub assume_specification[ String::push ](text: &mut String, c: char)
    ensures
        final(text)@ == old(text)@.push(c),
;

/// The string of the characters in the range `lo..hi` of `v`.
pub fn text_of(v: &Vec<char>, lo: usize, hi: usize) -> (text: String)
    requires
        lo <= hi <= v.len(),
    ensures
        text@ == v@.subrange(lo as int, hi as int),
{
    let mut text = String::new();
    let mut i: usize = lo;
    while i < hi
        invariant
            lo <= i <= hi <= v.len(),
            text@ == v@.subrange(lo as int, i as int),
        decreases hi - i,
    {
        text.push(v[i]);
        i += 1;
    }
    text
}

/// Tests `c` for the Unicode property `White_Space`.
pub fn is_whitespace(c: char) -> (r: bool)
    ensures
        r == whitespace(c),
{
    let n: u32 = c as u32;
    (0x09 <= n && n <= 0x0D) || n == 0x20 || n == 0x85 || n == 0xA0 || n == 0x1680 || (0x2000 <= n
        && n <= 0x200A) || n == 0x2028 || n == 0x2029 || n == 0x202F || n == 0x205F || n == 0x3000
}

/// Tests `c` for an ASCII digit.
pub fn is_digit(c: char) -> (r: bool)
    ensures
        r == digit(c),
{
    let n: u32 = c as u32;
    0x30 <= n && n <= 0x39
}

/// Finds where the range `lo..hi` of `v` stands once the whitespace at both
/// of its ends is left out.
pub fn trim_bounds(v: &Vec<char>, lo: usize, hi: usize) -> (r: (usize, usize))
    requires
        lo <= hi <= v.len(),
    ensures
        lo <= r.0 <= r.1 <= hi,
        v@.subrange(r.0 as int, r.1 as int) == trim(v@.subrange(lo as int, hi as int)),
{
    let mut a: usize = lo;
    while a < hi && is_whitespace(v[a])
        invariant
            lo <= a <= hi <= v.len(),
            trim_start(v@.subrange(lo as int, hi as int)) == trim_start(
                v@.subrange(a as int, hi as int),
            ),
        decreases hi - a,
    {
        assert(v@.subrange(a as int, hi as int).drop_first() =~= v@.subrange(a + 1, hi as int));
        a += 1;
    }
    let mut b: usize = hi;
    while a < b && is_whitespace(v[b - 1])
        invariant
            a <= b <= hi <= v.len(),
            trim_end(v@.subrange(a as int, hi as int)) == trim_end(v@.subrange(a as int, b as int)),
        decreases b - a,
    {
        assert(v@.subrange(a as int, b as int).drop_last() =~= v@.subrange(a as int, b - 1));
        b -= 1;
    }
    (a, b)
}

/// Finds the first `c` in the range `lo..hi` of `v`; `hi` where there is
/// none.
pub fn find(v: &Vec<char>, lo: usize, hi: usize, c: char) -> (p: usize)
    requires
        lo <= hi <= v.len(),
    ensures
        p == lo + position(v@.subrange(lo as int, hi as int), c),
        lo <= p <= hi,
{
    let mut p: usize = lo;
    while p < hi && v[p] != c
        invariant
            lo <= p <= hi <= v.len(),
            forall|i: int| lo <= i < p ==> v@[i] != c,
        decreases hi - p,
    {
        p += 1;
    }
    proof {
        lemma_position_is(v@.subrange(lo as int, hi as int), c, p - lo);
    }
    p
}

/// Cuts the range `lo..hi` of `v` at each `sep` and returns the ranges of
/// the pieces, in order.
pub fn split_ranges(v: &Vec<char>, lo: usize, hi: usize, sep: char) -> (pieces: Vec<
    (usize, usize),
>)
    requires
        lo <= hi <= v.len(),
    ensures
        pieces@.len() == split(v@.subrange(lo as int, hi as int), sep).len(),
        forall|i: int|
            0 <= i < pieces@.len() ==> lo <= (#[trigger] pieces@[i]).0 <= pieces@[i].1 <= hi,
        forall|i: int|
            0 <= i < pieces@.len() ==> v@.subrange(
                (#[trigger] pieces@[i]).0 as int,
                pieces@[i].1 as int,
            ) == split(v@.subrange(lo as int, hi as int), sep)[i],
{
    let ghost whole = split(v@.subrange(lo as int, hi as int), sep);
    let mut pieces: Vec<(usize, usize)> = Vec::new();
    let mut start: usize = lo;
    loop
        invariant_except_break
            lo <= start <= hi <= v.len(),
            whole == split(v@.subrange(lo as int, hi as int), sep),
            whole == pieces@.map_values(|r: (usize, usize)| v@.subrange(r.0 as int, r.1 as int))
                + split(v@.subrange(start as int, hi as int), sep),
            forall|i: int|
                0 <= i < pieces@.len() ==> lo <= (#[trigger] pieces@[i]).0 <= pieces@[i].1 <= hi,
        ensures
            lo <= hi <= v.len(),
            whole == pieces@.map_values(|r: (usize, usize)| v@.subrange(r.0 as int, r.1 as int)),
            forall|i: int|
                0 <= i < pieces@.len() ==> lo <= (#[trigger] pieces@[i]).0 <= pieces@[i].1 <= hi,
        decreases hi - start,
    {
        let ghost rest = v@.subrange(start as int, hi as int);
        let p = find(v, start, hi, sep);
        pieces.push((start, p));
        assert(rest.take(p - start) =~= v@.subrange(start as int, p as int));
        if p == hi {
            break ;
        }
        assert(rest.skip(p - start + 1) =~= v@.subrange(p + 1, hi as int));
        start = p + 1;
    }
    pieces
}

/// Reads the range `lo..hi` of `v` as a run of ASCII digits of value at most
/// `max`. `None` where the range is empty, holds another character, or
/// denotes more than `max`.
pub fn parse_digits(v: &Vec<char>, lo: usize, hi: usize, max: u64) -> (r: Option<u64>)
    requires
        lo <= hi <= v.len(),
    ensures
        r is Some <==> lo < hi && digits(v@.subrange(lo as int, hi as int)) && decimal_value(
            v@.subrange(lo as int, hi as int),
        ) <= max,
        r is Some ==> r->0 == decimal_value(v@.subrange(lo as int, hi as int)),
{
    if lo == hi {
        return None;
    }
    let ghost s = v@.subrange(lo as int, hi as int);
    let mut n: u64 = 0;
    let mut i: usize = lo;
    while i < hi
        invariant
            lo <= i <= hi <= v.len(),
            s == v@.subrange(lo as int, hi as int),
            digits(s.take(i - lo)),
            n == decimal_value(s.take(i - lo)),
            n <= max,
        decreases hi - i,
    {
        let c = v[i];
        if !is_digit(c) {
            assert(!digit(s[i - lo]));
            return None;
        }
        let code: u32 = c as u32;
        let d: u64 = (code - 0x30) as u64;
        assert(s.take(i - lo + 1).drop_last() =~= s.take(i - lo));
        if d > max || n > (max - d) / 10 {
            proof {
                if digits(s) {
                    lemma_decimal_prefix(s, i - lo + 1);
                }
            }
            return None;
        }
        n = n * 10 + d;
        i += 1;
    }
    assert(s.take(hi - lo) =~= s);
    Some(n)
}

/// Reads the range `lo..hi` of `v` as a non-negative integer literal of value
/// at most `max`: an optional `+`, then one or more ASCII digits.
pub fn parse_unsigned(v: &Vec<char>, lo: usize, hi: usize, max: u64) -> (r: Option<u64>)
    requires
        lo <= hi <= v.len(),
    ensures
        r is Some <==> unsigned_value(v@.subrange(lo as int, hi as int)) is Some && unsigned_value(
            v@.subrange(lo as int, hi as int),
        )->0 <= max,
        r is Some ==> r->0 == unsigned_value(v@.subrange(lo as int, hi as int))->0,
{
    let ghost s = v@.subrange(lo as int, hi as int);
    if lo < hi && v[lo] == '+' {
        assert(s.drop_first() =~= v@.subrange(lo + 1, hi as int));
        parse_digits(v, lo + 1, hi, max)
    } else {
        parse_digits(v, lo, hi, max)
    }
}

} // verus!
