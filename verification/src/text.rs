//! Character-level text primitives shared by the parsers and validators.
//!
//! Every string of the library is reasoned about through its view, a
//! `Seq<char>`. This module holds the spec vocabulary over such sequences and
//! the executable functions that realise it.

use vstd::prelude::*;

verus! {

/// `String::push` appends exactly one character to the end of the string.
pub assume_specification[ String::push ](s: &mut String, ch: char)
    ensures
        final(s)@ == old(s)@.push(ch),
;

// ---------------------------------------------------------------------------
// Character classes
// ---------------------------------------------------------------------------

/// ASCII control character: U+0000..=U+001F or U+007F.
pub open spec fn is_ascii_control(c: char) -> bool {
    (c as u32) < 0x20 || c as u32 == 0x7f
}

/// ASCII whitespace: space, tab, line feed, form feed or carriage return.
pub open spec fn is_ascii_whitespace(c: char) -> bool {
    c == ' ' || c == '\t' || c == '\n' || c == '\x0c' || c == '\r'
}

/// ASCII letter or decimal digit.
pub open spec fn is_ascii_alphanumeric(c: char) -> bool {
    ('a' <= c && c <= 'z') || ('A' <= c && c <= 'Z') || ('0' <= c && c <= '9')
}

/// Character with the Unicode `White_Space` property.
pub open spec fn is_whitespace(c: char) -> bool {
    let n = c as u32;
    (0x09 <= n && n <= 0x0d) || n == 0x20 || n == 0x85 || n == 0xa0 || n == 0x1680 || (0x2000 <= n
        && n <= 0x200a) || n == 0x2028 || n == 0x2029 || n == 0x202f || n == 0x205f || n == 0x3000
}

/// ASCII upper-case letters mapped to lower case, every other character kept.
pub open spec fn to_ascii_lower(c: char) -> char {
    if 'A' <= c && c <= 'Z' {
        ((c as u32) + 32) as char
    } else {
        c
    }
}

/// ASCII lower-case letters mapped to upper case, every other character kept.
pub open spec fn to_ascii_upper(c: char) -> char {
    if 'a' <= c && c <= 'z' {
        ((c as u32) - 32) as char
    } else {
        c
    }
}

/// The sequence with every character passed through `to_ascii_lower`.
pub open spec fn ascii_lower(s: Seq<char>) -> Seq<char> {
    Seq::new(s.len(), |i: int| to_ascii_lower(s[i]))
}

/// The sequence with every character passed through `to_ascii_upper`.
pub open spec fn ascii_upper(s: Seq<char>) -> Seq<char> {
    Seq::new(s.len(), |i: int| to_ascii_upper(s[i]))
}

/// Equality up to ASCII letter case.
pub open spec fn eq_ignore_ascii_case(a: Seq<char>, b: Seq<char>) -> bool {
    ascii_lower(a) == ascii_lower(b)
}

/// Some character of `s` is an ASCII control character.
pub open spec fn has_ascii_control(s: Seq<char>) -> bool {
    exists|i: int| 0 <= i < s.len() && is_ascii_control(#[trigger] s[i])
}

/// `pat` occurs in `s` starting at index `i`.
pub open spec fn occurs_at(s: Seq<char>, pat: Seq<char>, i: int) -> bool {
    0 <= i && i + pat.len() <= s.len() && s.subrange(i, i + pat.len()) == pat
}

/// `pat` occurs somewhere in `s`.
pub open spec fn contains_seq(s: Seq<char>, pat: Seq<char>) -> bool {
    exists|i: int| occurs_at(s, pat, i)
}

/// `s` begins with `p`.
pub open spec fn starts_with(s: Seq<char>, p: Seq<char>) -> bool {
    p.len() <= s.len() && s.subrange(0, p.len() as int) == p
}

/// `s` ends with `p`.
pub open spec fn ends_with(s: Seq<char>, p: Seq<char>) -> bool {
    p.len() <= s.len() && s.subrange(s.len() - p.len(), s.len() as int) == p
}

/// The class of characters with the Unicode `White_Space` property.
pub open spec fn whitespace_class() -> spec_fn(char) -> bool {
    |c: char| is_whitespace(c)
}

/// The class that holds the character `c` alone.
pub open spec fn only(c: char) -> spec_fn(char) -> bool {
    |x: char| x == c
}

/// Number of leading characters of `s` that satisfy `strip`.
pub open spec fn leading(s: Seq<char>, strip: spec_fn(char) -> bool) -> int
    decreases s.len(),
{
    if s.len() > 0 && strip(s[0]) {
        1 + leading(s.drop_first(), strip)
    } else {
        0
    }
}

/// Number of trailing characters of `s` that satisfy `strip`.
pub open spec fn trailing(s: Seq<char>, strip: spec_fn(char) -> bool) -> int
    decreases s.len(),
{
    if s.len() > 0 && strip(s.last()) {
        1 + trailing(s.drop_last(), strip)
    } else {
        0
    }
}

/// `s` without its longest prefix and its longest suffix of characters that
/// satisfy `strip`.
pub open spec fn trimmed(s: Seq<char>, strip: spec_fn(char) -> bool) -> Seq<char> {
    let a = leading(s, strip);
    let rest = s.subrange(a, s.len() as int);
    rest.subrange(0, rest.len() - trailing(rest, strip))
}

/// Index of the first occurrence of `c` in `s`, or `s.len()` if there is none.
pub open spec fn first_index(s: Seq<char>, c: char) -> int
    decreases s.len(),
{
    if s.len() == 0 || s[0] == c {
        0
    } else {
        1 + first_index(s.drop_first(), c)
    }
}

/// Index of the last occurrence of `c` in `s`, or `-1` if there is none.
pub open spec fn last_index(s: Seq<char>, c: char) -> int
    decreases s.len(),
{
    if s.len() == 0 {
        -1
    } else if s.last() == c {
        s.len() - 1
    } else {
        last_index(s.drop_last(), c)
    }
}

/// `c` does not occur in `s`.
pub open spec fn free_of(s: Seq<char>, c: char) -> bool {
    forall|i: int| 0 <= i < s.len() ==> s[i] != c
}

pub proof fn lemma_leading_bounds(s: Seq<char>, strip: spec_fn(char) -> bool)
    ensures
        0 <= leading(s, strip) <= s.len(),
        forall|i: int| 0 <= i < leading(s, strip) ==> strip(#[trigger] s[i]),
        leading(s, strip) < s.len() ==> !strip(s[leading(s, strip)]),
    decreases s.len(),
{
    if s.len() > 0 && strip(s[0]) {
        lemma_leading_bounds(s.drop_first(), strip);
        assert forall|i: int| 0 <= i < leading(s, strip) implies strip(#[trigger] s[i]) by {
            if i > 0 {
                assert(s[i] == s.drop_first()[i - 1]);
            }
        }
    }
}

pub proof fn lemma_trailing_bounds(s: Seq<char>, strip: spec_fn(char) -> bool)
    ensures
        0 <= trailing(s, strip) <= s.len(),
        forall|i: int| s.len() - trailing(s, strip) <= i < s.len() ==> strip(#[trigger] s[i]),
        trailing(s, strip) < s.len() ==> !strip(s[s.len() - trailing(s, strip) - 1]),
    decreases s.len(),
{
    if s.len() > 0 && strip(s.last()) {
        lemma_trailing_bounds(s.drop_last(), strip);
        assert forall|i: int| s.len() - trailing(s, strip) <= i < s.len() implies strip(
            #[trigger] s[i],
        ) by {
            if i < s.len() - 1 {
                assert(s[i] == s.drop_last()[i]);
            }
        }
    }
}

/// A count `k` of leading characters that all satisfy `strip`, followed by one
/// that does not (or by the end), is the leading count.
pub proof fn lemma_leading_unique(s: Seq<char>, strip: spec_fn(char) -> bool, k: int)
    requires
        0 <= k <= s.len(),
        forall|i: int| 0 <= i < k ==> strip(#[trigger] s[i]),
        k < s.len() ==> !strip(s[k]),
    ensures
        leading(s, strip) == k,
    decreases s.len(),
{
    if k > 0 {
        assert(strip(s[0]));
        let t = s.drop_first();
        assert forall|i: int| 0 <= i < k - 1 implies strip(#[trigger] t[i]) by {
            assert(t[i] == s[i + 1]);
        }
        lemma_leading_unique(t, strip, k - 1);
    }
}

/// Counterpart of `lemma_leading_unique` for the end of the sequence.
pub proof fn lemma_trailing_unique(s: Seq<char>, strip: spec_fn(char) -> bool, k: int)
    requires
        0 <= k <= s.len(),
        forall|i: int| s.len() - k <= i < s.len() ==> strip(#[trigger] s[i]),
        k < s.len() ==> !strip(s[s.len() - k - 1]),
    ensures
        trailing(s, strip) == k,
    decreases s.len(),
{
    if k > 0 {
        assert(strip(s[s.len() - 1]));
        let t = s.drop_last();
        assert forall|i: int| t.len() - (k - 1) <= i < t.len() implies strip(#[trigger] t[i]) by {
            assert(t[i] == s[i]);
        }
        lemma_trailing_unique(t, strip, k - 1);
    }
}

pub proof fn lemma_first_index(s: Seq<char>, c: char)
    ensures
        0 <= first_index(s, c) <= s.len(),
        first_index(s, c) < s.len() ==> s[first_index(s, c)] == c,
        forall|i: int| 0 <= i < first_index(s, c) ==> s[i] != c,
    decreases s.len(),
{
    if s.len() == 0 || s[0] == c {
    } else {
        let t = s.drop_first();
        lemma_first_index(t, c);
        assert forall|i: int| 0 <= i < first_index(s, c) implies s[i] != c by {
            if i > 0 {
                assert(s[i] == t[i - 1]);
            }
        }
    }
}

/// An index `k` that holds `c` (or is the length) with no `c` before it is the
/// first index of `c`.
pub proof fn lemma_first_index_unique(s: Seq<char>, c: char, k: int)
    requires
        0 <= k <= s.len(),
        k < s.len() ==> s[k] == c,
        forall|i: int| 0 <= i < k ==> s[i] != c,
    ensures
        first_index(s, c) == k,
    decreases s.len(),
{
    if k > 0 {
        let t = s.drop_first();
        assert(s[0] != c);
        assert forall|i: int| 0 <= i < k - 1 implies t[i] != c by {
            assert(t[i] == s[i + 1]);
        }
        lemma_first_index_unique(t, c, k - 1);
    }
}

pub proof fn lemma_last_index(s: Seq<char>, c: char)
    ensures
        -1 <= last_index(s, c) < s.len(),
        last_index(s, c) >= 0 ==> s[last_index(s, c)] == c,
        forall|i: int| last_index(s, c) < i < s.len() ==> s[i] != c,
    decreases s.len(),
{
    if s.len() == 0 || s.last() == c {
    } else {
        let t = s.drop_last();
        lemma_last_index(t, c);
        assert forall|i: int| last_index(s, c) < i < s.len() implies s[i] != c by {
            if i < s.len() - 1 {
                assert(s[i] == t[i]);
            }
        }
    }
}

/// An index `k` that holds `c` (or is `-1`) with no `c` after it is the last
/// index of `c`.
pub proof fn lemma_last_index_unique(s: Seq<char>, c: char, k: int)
    requires
        -1 <= k < s.len(),
        k >= 0 ==> s[k] == c,
        forall|i: int| k < i < s.len() ==> s[i] != c,
    ensures
        last_index(s, c) == k,
    decreases s.len(),
{
    if s.len() > 0 && k < s.len() - 1 {
        let t = s.drop_last();
        assert(s.last() != c);
        assert forall|i: int| k < i < t.len() implies t[i] != c by {
            assert(t[i] == s[i]);
        }
        lemma_last_index_unique(t, c, k);
    }
}

// ---------------------------------------------------------------------------
// Decimal numerals
// ---------------------------------------------------------------------------

/// The character of the decimal digit `d`.
pub open spec fn digit_char(d: nat) -> char
    recommends
        d < 10,
{
    ((d + 48) as u8) as char
}

/// `c` is one of `0` to `9`.
pub open spec fn is_digit(c: char) -> bool {
    '0' <= c && c <= '9'
}

/// The value of the decimal digit `c`.
pub open spec fn digit_value(c: char) -> nat
    recommends
        is_digit(c),
{
    ((c as u32) - 48) as nat
}

/// The shortest decimal numeral of `n`.
pub open spec fn decimal(n: nat) -> Seq<char>
    decreases n,
{
    if n < 10 {
        seq![digit_char(n)]
    } else {
        decimal(n / 10).push(digit_char(n % 10))
    }
}

/// Every character of `s` is a decimal digit.
pub open spec fn all_digits(s: Seq<char>) -> bool {
    forall|i: int| 0 <= i < s.len() ==> is_digit(#[trigger] s[i])
}

/// The number that the digit string `s` denotes, most significant digit first.
pub open spec fn decimal_value(s: Seq<char>) -> nat
    decreases s.len(),
{
    if s.len() == 0 {
        0
    } else {
        decimal_value(s.drop_last()) * 10 + digit_value(s.last())
    }
}

/// The digits of an unsigned numeral: `s` without one leading `+`.
pub open spec fn unsigned_digits(s: Seq<char>) -> Seq<char> {
    if s.len() > 0 && s[0] == '+' {
        s.subrange(1, s.len() as int)
    } else {
        s
    }
}

/// What an unsigned numeral denotes within `0..=max`: an optional `+`, then one
/// or more decimal digits (leading zeros allowed) whose value is at most `max`.
pub open spec fn parse_unsigned(s: Seq<char>, max: nat) -> Option<nat> {
    let body = unsigned_digits(s);
    if body.len() > 0 && all_digits(body) && decimal_value(body) <= max {
        Some(decimal_value(body))
    } else {
        None
    }
}

pub proof fn lemma_decimal_digits(n: nat)
    ensures
        decimal(n).len() > 0,
        all_digits(decimal(n)),
        decimal(n)[0] != '+',
        free_of(decimal(n), ':'),
        decimal_value(decimal(n)) == n,
    decreases n,
{
    if n < 10 {
        let s = decimal(n);
        assert(s.drop_last() =~= Seq::<char>::empty());
        assert(decimal_value(s.drop_last()) == 0);
    } else {
        lemma_decimal_digits(n / 10);
        let p = decimal(n / 10);
        let s = decimal(n);
        assert(s.drop_last() =~= p);
        assert(s[0] == p[0]);
        assert forall|i: int| 0 <= i < s.len() implies is_digit(#[trigger] s[i]) by {
            if i < p.len() {
                assert(s[i] == p[i]);
            }
        }
        assert forall|i: int| 0 <= i < s.len() implies s[i] != ':' by {
            if i < p.len() {
                assert(s[i] == p[i]);
            }
        }
    }
}

/// The value of a digit string is at least the value of each of its prefixes.
pub proof fn lemma_decimal_value_prefix(s: Seq<char>, k: int)
    requires
        0 <= k <= s.len(),
    ensures
        decimal_value(s.take(k)) <= decimal_value(s),
    decreases s.len() - k,
{
    if k == s.len() {
        assert(s.take(k) =~= s);
    } else {
        lemma_decimal_value_prefix(s, k + 1);
        assert(s.take(k + 1).drop_last() =~= s.take(k));
    }
}

/// What the shortest decimal numeral `s` denotes within `0..=max`. A text
/// is read only if it is the numeral that `decimal` writes: digits alone,
/// without sign and without leading zeros.
pub open spec fn parse_shortest(s: Seq<char>, max: nat) -> Option<nat> {
    if s == decimal(decimal_value(s)) && decimal_value(s) <= max {
        Some(decimal_value(s))
    } else {
        None
    }
}

/// The shortest numeral of a number begins with `0` only if it is `0`.
pub proof fn lemma_decimal_leading(n: nat)
    ensures
        n >= 1 ==> decimal(n)[0] != '0',
        n >= 10 ==> decimal(n).len() >= 2,
        n < 10 ==> decimal(n).len() == 1,
    decreases n,
{
    if n >= 10 {
        lemma_decimal_leading(n / 10);
        lemma_decimal_digits(n / 10);
        assert(decimal(n)[0] == decimal(n / 10)[0]);
    }
}

/// A digit string without leading zeros is the shortest numeral of its
/// value.
pub proof fn lemma_shortest(s: Seq<char>)
    requires
        s.len() > 0,
        all_digits(s),
        s.len() == 1 || s[0] != '0',
    ensures
        decimal(decimal_value(s)) == s,
    decreases s.len(),
{
    let t = s.drop_last();
    let d = digit_value(s.last());
    assert(is_digit(s[s.len() - 1]));
    assert(digit_char(d) == s.last());
    if s.len() == 1 {
        assert(t =~= Seq::<char>::empty());
        assert(decimal_value(t) == 0);
        assert(decimal(d) =~= s);
    } else {
        assert(t[0] == s[0]);
        assert forall|i: int| 0 <= i < t.len() implies is_digit(#[trigger] t[i]) by {
            assert(t[i] == s[i]);
        }
        lemma_shortest(t);
        lemma_decimal_value_prefix(t, 1);
        let first = t.take(1);
        assert(first.drop_last() =~= Seq::<char>::empty());
        assert(decimal_value(first.drop_last()) == 0);
        assert(first.last() == t[0]);
        assert(is_digit(t[0]));
        assert(decimal_value(first) >= 1);
        let n = decimal_value(s);
        assert(n == decimal_value(t) * 10 + d);
        assert(n / 10 == decimal_value(t) && n % 10 == d) by (nonlinear_arith)
            requires
                n == decimal_value(t) * 10 + d,
                d < 10,
        ;
        assert(decimal(n) =~= s);
    }
}

/// Reading the shortest numeral of `n` gives `n` back.
pub proof fn lemma_parse_shortest(n: nat, max: nat)
    requires
        n <= max,
    ensures
        parse_shortest(decimal(n), max) == Some(n),
{
    lemma_decimal_digits(n);
}

// ---------------------------------------------------------------------------
// Executable counterparts
// ---------------------------------------------------------------------------

pub fn char_is_ascii_control(c: char) -> (b: bool)
    ensures
        b == is_ascii_control(c),
{
    c <= '\u{1f}' || c == '\u{7f}'
}

pub fn char_is_ascii_whitespace(c: char) -> (b: bool)
    ensures
        b == is_ascii_whitespace(c),
{
    c == ' ' || c == '\t' || c == '\n' || c == '\x0c' || c == '\r'
}

pub fn char_is_ascii_alphanumeric(c: char) -> (b: bool)
    ensures
        b == is_ascii_alphanumeric(c),
{
    ('a' <= c && c <= 'z') || ('A' <= c && c <= 'Z') || ('0' <= c && c <= '9')
}

pub fn char_is_whitespace(c: char) -> (b: bool)
    ensures
        b == is_whitespace(c),
{
    ('\u{9}' <= c && c <= '\u{d}') || c == '\u{20}' || c == '\u{85}' || c == '\u{a0}' || c
        == '\u{1680}' || ('\u{2000}' <= c && c <= '\u{200a}') || c == '\u{2028}' || c == '\u{2029}'
        || c == '\u{202f}' || c == '\u{205f}' || c == '\u{3000}'
}

pub fn char_to_ascii_lower(c: char) -> (r: char)
    ensures
        r == to_ascii_lower(c),
{
    if 'A' <= c && c <= 'Z' {
        let n: u8 = c as u8;
        (n + 32) as char
    } else {
        c
    }
}

pub fn char_to_ascii_upper(c: char) -> (r: char)
    ensures
        r == to_ascii_upper(c),
{
    if 'a' <= c && c <= 'z' {
        let n: u8 = c as u8;
        (n - 32) as char
    } else {
        c
    }
}

/// The characters of `s`, in order.
pub fn chars_of(s: &str) -> (v: Vec<char>)
    ensures
        v@ == s@,
{
    broadcast use vstd::string::group_string_axioms;

    let mut v: Vec<char> = Vec::new();
    for c in it: s.chars()
        invariant
            it.seq() == s@,
            v@ == s@.take(it.index() as int),
    {
        v.push(c);
    }
    v
}

/// The string made of `v[from..to]`.
pub fn string_of(v: &Vec<char>, from: usize, to: usize) -> (s: String)
    requires
        from <= to <= v.len(),
    ensures
        s@ == v@.subrange(from as int, to as int),
{
    let mut s = String::new();
    let mut i: usize = from;
    while i < to
        invariant
            from <= i <= to <= v.len(),
            s@ == v@.subrange(from as int, i as int),
        decreases to - i,
    {
        s.push(v[i]);
        i += 1;
        assert(v@.subrange(from as int, i as int) == v@.subrange(from as int, i - 1).push(
            v@[i - 1],
        ));
    }
    s
}

/// Whether two string slices hold the same characters.
pub fn str_eq(a: &str, b: &str) -> (r: bool)
    ensures
        r == (a@ == b@),
{
    let x = a.to_owned();
    let y = b.to_owned();
    x == y
}

/// Whether `v[from..to]` spells `pat`.
pub fn slice_is(v: &Vec<char>, from: usize, to: usize, pat: &str) -> (r: bool)
    requires
        from <= to <= v.len(),
    ensures
        r == (v@.subrange(from as int, to as int) == pat@),
{
    let p = chars_of(pat);
    if p.len() != to - from {
        return false;
    }
    let mut i: usize = 0;
    while i < p.len()
        invariant
            from <= to <= v.len(),
            p.len() == to - from,
            i <= p.len(),
            p@ == pat@,
            forall|j: int| 0 <= j < i ==> v@[from + j] == p@[j],
        decreases p.len() - i,
    {
        if v[from + i] != p[i] {
            assert(v@.subrange(from as int, to as int)[i as int] != pat@[i as int]);
            return false;
        }
        i += 1;
    }
    assert(v@.subrange(from as int, to as int) =~= pat@);
    true
}

/// `s` with ASCII letters in lower case.
pub fn to_ascii_lowercase(s: &str) -> (r: String)
    ensures
        r@ == ascii_lower(s@),
{
    let v = chars_of(s);
    let mut r = String::new();
    let mut i: usize = 0;
    while i < v.len()
        invariant
            i <= v.len(),
            v@ == s@,
            r@ == ascii_lower(s@).take(i as int),
        decreases v.len() - i,
    {
        r.push(char_to_ascii_lower(v[i]));
        i += 1;
        assert(ascii_lower(s@).take(i as int) == ascii_lower(s@).take(i - 1).push(
            ascii_lower(s@)[i - 1],
        ));
    }
    assert(ascii_lower(s@).take(v.len() as int) == ascii_lower(s@));
    r
}

/// `s` with ASCII letters in upper case.
pub fn to_ascii_uppercase(s: &str) -> (r: String)
    ensures
        r@ == ascii_upper(s@),
{
    let v = chars_of(s);
    let mut r = String::new();
    let mut i: usize = 0;
    while i < v.len()
        invariant
            i <= v.len(),
            v@ == s@,
            r@ == ascii_upper(s@).take(i as int),
        decreases v.len() - i,
    {
        r.push(char_to_ascii_upper(v[i]));
        i += 1;
        assert(ascii_upper(s@).take(i as int) == ascii_upper(s@).take(i - 1).push(
            ascii_upper(s@)[i - 1],
        ));
    }
    assert(ascii_upper(s@).take(v.len() as int) == ascii_upper(s@));
    r
}

/// Whether `a` and `b` are equal up to ASCII letter case.
pub fn str_eq_ignore_ascii_case(a: &str, b: &str) -> (r: bool)
    ensures
        r == eq_ignore_ascii_case(a@, b@),
{
    let x = to_ascii_lowercase(a);
    let y = to_ascii_lowercase(b);
    x == y
}

/// Whether some character of `s` is an ASCII control character.
pub fn str_has_ascii_control(s: &str) -> (r: bool)
    ensures
        r == has_ascii_control(s@),
{
    let v = chars_of(s);
    let mut i: usize = 0;
    while i < v.len()
        invariant
            i <= v.len(),
            v@ == s@,
            forall|j: int| 0 <= j < i ==> !is_ascii_control(#[trigger] s@[j]),
        decreases v.len() - i,
    {
        if char_is_ascii_control(v[i]) {
            return true;
        }
        i += 1;
    }
    false
}

/// Whether `pat` occurs in `hay`.
pub fn str_contains(hay: &str, pat: &str) -> (r: bool)
    ensures
        r == contains_seq(hay@, pat@),
{
    let h = chars_of(hay);
    let p = chars_of(pat);
    if p.len() > h.len() {
        assert forall|i: int| !occurs_at(hay@, pat@, i) by {}
        return false;
    }
    let last: usize = h.len() - p.len();
    let mut i: usize = 0;
    while i <= last
        invariant
            h@ == hay@,
            p@ == pat@,
            last == h.len() - p.len(),
            i <= last + 1,
            forall|j: int| 0 <= j < i ==> !occurs_at(hay@, pat@, j),
        decreases last + 1 - i,
    {
        let mut k: usize = 0;
        while k < p.len() && h[i + k] == p[k]
            invariant
                h@ == hay@,
                p@ == pat@,
                last == h.len() - p.len(),
                i <= last,
                k <= p.len(),
                forall|j: int| 0 <= j < k ==> h@[i + j] == p@[j],
            decreases p.len() - k,
        {
            k += 1;
        }
        if k == p.len() {
            assert(hay@.subrange(i as int, i + pat@.len()) =~= pat@);
            assert(occurs_at(hay@, pat@, i as int));
            return true;
        }
        assert(hay@.subrange(i as int, i + pat@.len())[k as int] != pat@[k as int]);
        i += 1;
    }
    assert forall|j: int| !occurs_at(hay@, pat@, j) by {}
    false
}

/// Index of the first `c` in `v[from..to]`, counted from `from`; `to - from` if
/// there is none.
pub fn find_first(v: &Vec<char>, from: usize, to: usize, c: char) -> (k: usize)
    requires
        from <= to <= v.len(),
    ensures
        k == first_index(v@.subrange(from as int, to as int), c),
        k <= to - from,
{
    let ghost s = v@.subrange(from as int, to as int);
    let mut k: usize = 0;
    while from + k < to && v[from + k] != c
        invariant
            from <= to <= v.len(),
            k <= to - from,
            s == v@.subrange(from as int, to as int),
            forall|i: int| 0 <= i < k ==> s[i] != c,
        decreases to - from - k,
    {
        k += 1;
    }
    proof {
        lemma_first_index_unique(s, c, k as int);
    }
    k
}

/// Index of the last `c` in `v[from..to]`, counted from `from`, if there is one.
pub fn find_last(v: &Vec<char>, from: usize, to: usize, c: char) -> (r: Option<usize>)
    requires
        from <= to <= v.len(),
    ensures
        match r {
            Some(k) => k == last_index(v@.subrange(from as int, to as int), c) && k < to - from,
            None => last_index(v@.subrange(from as int, to as int), c) == -1,
        },
{
    let ghost s = v@.subrange(from as int, to as int);
    let mut k: usize = to - from;
    while k > 0 && v[from + k - 1] != c
        invariant
            from <= to <= v.len(),
            k <= to - from,
            s == v@.subrange(from as int, to as int),
            forall|i: int| k <= i < s.len() ==> s[i] != c,
        decreases k,
    {
        k -= 1;
    }
    proof {
        lemma_last_index_unique(s, c, k as int - 1);
    }
    if k == 0 {
        None
    } else {
        Some(k - 1)
    }
}

/// Appends the decimal numeral of `n` to `out`.
pub fn push_decimal(out: &mut String, n: u64)
    ensures
        final(out)@ == old(out)@ + decimal(n as nat),
    decreases n,
{
    if n >= 10 {
        push_decimal(out, n / 10);
    }
    let d: u8 = (n % 10) as u8;
    out.push((d + 48) as char);
    assert(final(out)@ =~= old(out)@ + decimal(n as nat));
}

/// Reads `v[from..to]` as an unsigned numeral whose value is at most `max`.
pub fn parse_bounded(v: &Vec<char>, from: usize, to: usize, max: u64) -> (r: Option<u64>)
    requires
        from <= to <= v.len(),
    ensures
        match r {
            Some(n) => parse_unsigned(v@.subrange(from as int, to as int), max as nat) == Some(
                n as nat,
            ),
            None => parse_unsigned(v@.subrange(from as int, to as int), max as nat).is_none(),
        },
{
    let ghost s = v@.subrange(from as int, to as int);
    let start: usize = if from < to && v[from] == '+' {
        from + 1
    } else {
        from
    };
    let ghost body = unsigned_digits(s);
    assert(body =~= v@.subrange(start as int, to as int));
    if start == to {
        return None;
    }
    let mut acc: u64 = 0;
    let mut i: usize = start;
    while i < to
        invariant
            from <= start <= i <= to <= v.len(),
            start < to,
            body == v@.subrange(start as int, to as int),
            body == unsigned_digits(v@.subrange(from as int, to as int)),
            all_digits(body.take(i - start)),
            acc == decimal_value(body.take(i - start)),
            acc <= max,
        decreases to - i,
    {
        let c = v[i];
        if !('0' <= c && c <= '9') {
            assert(!is_digit(body[i - start]));
            return None;
        }
        let d: u8 = c as u8 - 48;
        let next: u128 = acc as u128 * 10 + d as u128;
        proof {
            let p = body.take(i - start + 1);
            assert(p.drop_last() =~= body.take(i - start));
            assert(p.last() == c);
            assert(decimal_value(p) == next);
            assert forall|j: int| 0 <= j < p.len() implies is_digit(#[trigger] p[j]) by {
                if j < p.len() - 1 {
                    assert(p[j] == body.take(i - start)[j]);
                }
            }
            lemma_decimal_value_prefix(body, i - start + 1);
        }
        if next > max as u128 {
            return None;
        }
        acc = next as u64;
        i += 1;
    }
    assert(body.take(to - start) =~= body);
    Some(acc)
}

/// Reads `v[from..to]` as the shortest numeral of a `u32`: a sign or a
/// leading zero is not read.
pub fn parse_u32(v: &Vec<char>, from: usize, to: usize) -> (r: Option<u32>)
    requires
        from <= to <= v.len(),
    ensures
        match r {
            Some(n) => parse_shortest(v@.subrange(from as int, to as int), u32::MAX as nat)
                == Some(n as nat),
            None => parse_shortest(v@.subrange(from as int, to as int), u32::MAX as nat).is_none(),
        },
{
    let ghost s = v@.subrange(from as int, to as int);
    proof {
        lemma_decimal_digits(decimal_value(s));
        lemma_decimal_leading(decimal_value(s));
    }
    if to == from {
        return None;
    }
    let first = v[from];
    assert(first == s[0]);
    if first == '+' {
        return None;
    }
    if first == '0' && to - from > 1 {
        proof {
            if decimal_value(s) < 1 {
                assert(decimal(decimal_value(s)).len() == 1);
            }
        }
        return None;
    }
    match parse_bounded(v, from, to, 0xffff_ffff) {
        Some(n) => {
            proof {
                lemma_shortest(s);
            }
            Some(n as u32)
        },
        None => None,
    }
}

/// Reads `s` as an unsigned numeral whose value is at most `max`.
pub fn parse_number(s: &str, max: u64) -> (r: Option<u64>)
    ensures
        match r {
            Some(n) => parse_unsigned(s@, max as nat) == Some(n as nat),
            None => parse_unsigned(s@, max as nat).is_none(),
        },
{
    let v = chars_of(s);
    assert(v@.subrange(0, v.len() as int) =~= s@);
    parse_bounded(&v, 0, v.len(), max)
}

/// `a` comes before `b` in the order of strings: character by character, a
/// proper prefix first.
pub open spec fn lex_lt(a: Seq<char>, b: Seq<char>) -> bool
    decreases a.len(),
{
    if b.len() == 0 {
        false
    } else if a.len() == 0 {
        true
    } else if a[0] != b[0] {
        a[0] < b[0]
    } else {
        lex_lt(a.drop_first(), b.drop_first())
    }
}

/// Whether `a` comes before `b` in the order of strings.
pub fn str_lt(a: &str, b: &str) -> (r: bool)
    ensures
        r == lex_lt(a@, b@),
{
    let x = chars_of(a);
    let y = chars_of(b);
    let mut i: usize = 0;
    assert(a@.skip(0) =~= a@ && b@.skip(0) =~= b@);
    while i < x.len() && i < y.len() && x[i] == y[i]
        invariant
            i <= x.len(),
            i <= y.len(),
            x@ == a@,
            y@ == b@,
            lex_lt(a@, b@) == lex_lt(a@.skip(i as int), b@.skip(i as int)),
        decreases x.len() - i,
    {
        proof {
            assert(a@.skip(i as int).drop_first() =~= a@.skip(i + 1));
            assert(b@.skip(i as int).drop_first() =~= b@.skip(i + 1));
        }
        i += 1;
    }
    if i >= y.len() {
        false
    } else if i >= x.len() {
        true
    } else {
        x[i] < y[i]
    }
}

/// `s` without leading and trailing characters with the Unicode `White_Space`
/// property.
pub fn trim(s: &str) -> (r: String)
    ensures
        r@ == trimmed(s@, whitespace_class()),
{
    let v = chars_of(s);
    let ghost strip = whitespace_class();
    let mut a: usize = 0;
    while a < v.len() && char_is_whitespace(v[a])
        invariant
            a <= v.len(),
            strip == whitespace_class(),
            forall|i: int| 0 <= i < a ==> strip(#[trigger] v@[i]),
        decreases v.len() - a,
    {
        a += 1;
    }
    proof {
        lemma_leading_unique(v@, strip, a as int);
    }
    let ghost rest = v@.subrange(a as int, v.len() as int);
    let mut b: usize = v.len();
    while b > a && char_is_whitespace(v[b - 1])
        invariant
            a <= b <= v.len(),
            strip == whitespace_class(),
            rest == v@.subrange(a as int, v.len() as int),
            forall|i: int| b - a <= i < rest.len() ==> strip(#[trigger] rest[i]),
        decreases b,
    {
        b -= 1;
    }
    proof {
        lemma_trailing_unique(rest, strip, v.len() - b);
        assert(rest.subrange(0, rest.len() - (v.len() - b)) =~= v@.subrange(a as int, b as int));
    }
    string_of(&v, a, b)
}

/// `s` without leading and trailing occurrences of `c`.
pub fn trim_char(s: &str, c: char) -> (r: String)
    ensures
        r@ == trimmed(s@, only(c)),
{
    let v = chars_of(s);
    let ghost strip = only(c);
    let mut a: usize = 0;
    while a < v.len() && v[a] == c
        invariant
            a <= v.len(),
            strip == only(c),
            forall|i: int| 0 <= i < a ==> strip(#[trigger] v@[i]),
        decreases v.len() - a,
    {
        a += 1;
    }
    proof {
        lemma_leading_unique(v@, strip, a as int);
    }
    let ghost rest = v@.subrange(a as int, v.len() as int);
    let mut b: usize = v.len();
    while b > a && v[b - 1] == c
        invariant
            a <= b <= v.len(),
            strip == only(c),
            rest == v@.subrange(a as int, v.len() as int),
            forall|i: int| b - a <= i < rest.len() ==> strip(#[trigger] rest[i]),
        decreases b,
    {
        b -= 1;
    }
    proof {
        lemma_trailing_unique(rest, strip, v.len() - b);
        assert(rest.subrange(0, rest.len() - (v.len() - b)) =~= v@.subrange(a as int, b as int));
    }
    string_of(&v, a, b)
}

/// Length of the UTF-8 form of `s`, in bytes.
pub open spec fn utf8_len(s: Seq<char>) -> nat {
    vstd::utf8::encode_utf8(s).len()
}

/// Length of `s` in bytes.
pub fn byte_len(s: &str) -> (n: usize)
    ensures
        n == utf8_len(s@),
{
    s.as_bytes().len()
}

/// A fresh string with the characters of `a` followed by those of `b`.
pub fn concat2(a: &str, b: &str) -> (r: String)
    ensures
        r@ == a@ + b@,
{
    let mut r = a.to_owned();
    r.append(b);
    r
}

/// A fresh string with the characters of `a`, `b` and `c`, in that order.
pub fn concat3(a: &str, b: &str, c: &str) -> (r: String)
    ensures
        r@ == a@ + b@ + c@,
{
    let mut r = a.to_owned();
    r.append(b);
    r.append(c);
    r
}

} // verus!
