//! Character-level helpers: searching, slicing and decimal numbers.
//!
//! Specifications speak of text as `Seq<char>`; the executable helpers work on
//! a `Vec<char>` obtained once from the string being examined.

use vstd::prelude::*;
use vstd::utf8::{decode_utf8, valid_utf8};

verus! {

/// `String::push` appends the character `c` at the end of the string and
/// leaves the characters before it as they were.
pub assume_specification[ String::push ](s: &mut String, c: char)
    ensures
        final(s)@ == old(s)@.push(c),
;

/// Index of the first occurrence of `c` in `s`, or `s.len()` if there is none.
pub open spec fn position(s: Seq<char>, c: char) -> int
    decreases s.len(),
{
    if s.len() == 0 {
        0
    } else if s[0] == c {
        0
    } else {
        1 + position(s.drop_first(), c)
    }
}

/// `position` stays within bounds, points at `c` when it points at anything,
/// and nothing before it is `c`.
pub proof fn lemma_position(s: Seq<char>, c: char)
    ensures
        0 <= position(s, c) <= s.len(),
        position(s, c) < s.len() ==> s[position(s, c)] == c,
        forall|i: int| 0 <= i < position(s, c) ==> s[i] != c,
    decreases s.len(),
{
    if s.len() > 0 && s[0] != c {
        let t = s.drop_first();
        lemma_position(t, c);
        assert forall|i: int| 0 <= i < position(s, c) implies s[i] != c by {
            if i > 0 {
                assert(s[i] == t[i - 1]);
            }
        }
    }
}

/// Any index with the properties of `lemma_position` is `position`.
pub proof fn lemma_position_is(s: Seq<char>, c: char, k: int)
    requires
        0 <= k <= s.len(),
        k < s.len() ==> s[k] == c,
        forall|i: int| 0 <= i < k ==> s[i] != c,
    ensures
        position(s, c) == k,
{
    lemma_position(s, c);
    let p = position(s, c);
    if p < k {
        assert(s[p] != c);
    }
}

/// True when `s` holds the character `c` somewhere.
pub open spec fn has_char(s: Seq<char>, c: char) -> bool {
    position(s, c) < s.len()
}

/// `has_char` says what it should: some index holds `c`.
pub proof fn lemma_has_char(s: Seq<char>, c: char)
    ensures
        has_char(s, c) <==> exists|i: int| 0 <= i < s.len() && s[i] == c,
{
    lemma_position(s, c);
    if has_char(s, c) {
        assert(s[position(s, c)] == c);
    }
}

/// The characters of `s`, in order.
pub fn chars_of(s: &str) -> (v: Vec<char>)
    ensures
        v@ == s@,
{
    let mut v: Vec<char> = Vec::new();
    for c in it: s.chars()
        invariant
            it.seq() == s@,
            v@ == it.seq().take(it.index()),
    {
        v.push(c);
    }
    assert(v@ == s@);
    v
}

/// The string made of `v[lo..hi]`.
pub(crate) fn text_of(v: &Vec<char>, lo: usize, hi: usize) -> (s: String)
    requires
        lo <= hi <= v.len(),
    ensures
        s@ == v@.subrange(lo as int, hi as int),
{
    let mut s = String::new();
    let mut i: usize = lo;
    while i < hi
        invariant
            lo <= i <= hi <= v.len(),
            s@ == v@.subrange(lo as int, i as int),
        decreases hi - i,
    {
        s.push(v[i]);
        i += 1;
    }
    s
}

/// Finds the first `c` in `v[lo..hi]`; returns `hi` if there is none.
pub(crate) fn find_char(v: &Vec<char>, lo: usize, hi: usize, c: char) -> (k: usize)
    requires
        lo <= hi <= v.len(),
    ensures
        lo <= k <= hi,
        k - lo == position(v@.subrange(lo as int, hi as int), c),
{
    let ghost window = v@.subrange(lo as int, hi as int);
    let mut k: usize = lo;
    while k < hi && v[k] != c
        invariant
            lo <= k <= hi <= v.len(),
            window == v@.subrange(lo as int, hi as int),
            forall|i: int| 0 <= i < k - lo ==> window[i] != c,
        decreases hi - k,
    {
        k += 1;
    }
    proof {
        lemma_position_is(window, c, k - lo);
    }
    k
}

/// True when `v[lo..hi]` and `w` hold the same characters.
pub(crate) fn range_equals(v: &Vec<char>, lo: usize, hi: usize, w: &Vec<char>) -> (same: bool)
    requires
        lo <= hi <= v.len(),
    ensures
        same == (v@.subrange(lo as int, hi as int) == w@),
{
    if hi - lo != w.len() {
        return false;
    }
    let ghost window = v@.subrange(lo as int, hi as int);
    let mut i: usize = 0;
    while i < w.len()
        invariant
            lo <= hi <= v.len(),
            hi - lo == w.len(),
            i <= w.len(),
            window == v@.subrange(lo as int, hi as int),
            forall|j: int| 0 <= j < i ==> window[j] == w@[j],
        decreases w.len() - i,
    {
        if v[lo + i] != w[i] {
            assert(window[i as int] != w@[i as int]);
            return false;
        }
        i += 1;
    }
    assert(window =~= w@);
    true
}

/// True when the text `s` begins with the text `p`.
pub fn starts_with(s: &Vec<char>, p: &Vec<char>) -> (yes: bool)
    ensures
        yes == p@.is_prefix_of(s@),
{
    if p.len() > s.len() {
        return false;
    }
    range_equals(s, 0, p.len(), p)
}

/// Index of the first `": "` (a colon followed by a space) in `s`, or
/// `s.len()` if there is none.
pub open spec fn separator(s: Seq<char>) -> int
    decreases s.len(),
{
    if s.len() < 2 {
        s.len() as int
    } else if s[0] == ':' && s[1] == ' ' {
        0
    } else {
        1 + separator(s.drop_first())
    }
}

/// True when a colon followed by a space stands at index `i` of `s`.
pub open spec fn separator_at(s: Seq<char>, i: int) -> bool {
    0 <= i && i + 1 < s.len() && s[i] == ':' && s[i + 1] == ' '
}

/// `separator` stays within bounds, points at a `": "` when it points at
/// anything, and no `": "` starts before it.
pub proof fn lemma_separator(s: Seq<char>)
    ensures
        0 <= separator(s) <= s.len(),
        separator(s) < s.len() ==> separator_at(s, separator(s)),
        forall|i: int| 0 <= i < separator(s) ==> !separator_at(s, i),
    decreases s.len(),
{
    if s.len() >= 2 && !(s[0] == ':' && s[1] == ' ') {
        let t = s.drop_first();
        lemma_separator(t);
        assert(separator(t) < t.len() ==> separator_at(t, separator(t)));
        assert forall|i: int| 0 <= i < separator(s) implies !separator_at(s, i) by {
            if i > 0 {
                assert(!separator_at(t, i - 1));
            }
        }
    }
}

/// Any index with the properties of `lemma_separator` is `separator`.
pub proof fn lemma_separator_is(s: Seq<char>, k: int)
    requires
        0 <= k <= s.len(),
        k < s.len() ==> separator_at(s, k),
        forall|i: int| 0 <= i < k ==> !separator_at(s, i),
    ensures
        separator(s) == k,
{
    lemma_separator(s);
    let p = separator(s);
    if p < k {
        assert(!separator_at(s, p));
    } else if k < p {
        assert(!separator_at(s, k));
    }
}

/// Finds the first `": "` in `v[lo..hi]`; returns `hi` if there is none.
pub(crate) fn find_separator(v: &Vec<char>, lo: usize, hi: usize) -> (k: usize)
    requires
        lo <= hi <= v.len(),
    ensures
        lo <= k <= hi,
        k - lo == separator(v@.subrange(lo as int, hi as int)),
{
    let ghost window = v@.subrange(lo as int, hi as int);
    let mut k: usize = lo;
    while k < hi
        invariant
            lo <= k <= hi <= v.len(),
            window == v@.subrange(lo as int, hi as int),
            forall|i: int| 0 <= i < k - lo ==> !separator_at(window, i),
        decreases hi - k,
    {
        if v[k] == ':' && k + 1 < hi && v[k + 1] == ' ' {
            proof {
                assert(separator_at(window, k - lo));
                lemma_separator_is(window, k - lo);
            }
            return k;
        }
        assert(!separator_at(window, k - lo));
        k += 1;
    }
    proof {
        lemma_separator_is(window, k - lo);
    }
    k
}

/// True for the ten decimal digits.
pub open spec fn is_digit(c: char) -> bool {
    '0' <= c <= '9'
}

/// The value of a decimal digit; 0 for any other character.
pub open spec fn digit_value(c: char) -> nat {
    if is_digit(c) {
        (c as u32 - '0' as u32) as nat
    } else {
        0
    }
}

/// True when every character of `s` is a decimal digit.
pub open spec fn all_digits(s: Seq<char>) -> bool {
    forall|i: int| 0 <= i < s.len() ==> is_digit(#[trigger] s[i])
}

/// The number whose decimal digits are `s`, most significant first.
pub open spec fn decimal_value(s: Seq<char>) -> nat
    decreases s.len(),
{
    if s.len() == 0 {
        0
    } else {
        decimal_value(s.drop_last()) * 10 + digit_value(s.last())
    }
}

/// The number a text denotes: an optional `+`, then one or more decimal
/// digits whose value fits a `usize`. Any other text denotes none.
pub open spec fn parse_decimal(s: Seq<char>) -> Option<usize> {
    let digits = if s.len() > 0 && s[0] == '+' {
        s.drop_first()
    } else {
        s
    };
    if digits.len() > 0 && all_digits(digits) && decimal_value(digits) <= usize::MAX {
        Some(decimal_value(digits) as usize)
    } else {
        None
    }
}

/// A number never shrinks when more digits follow.
pub proof fn lemma_decimal_value_grows(s: Seq<char>, k: int)
    requires
        0 <= k <= s.len(),
    ensures
        decimal_value(s.take(k)) <= decimal_value(s),
    decreases s.len() - k,
{
    if k < s.len() {
        lemma_decimal_value_grows(s.drop_last(), k);
        assert(s.drop_last().take(k) =~= s.take(k));
    } else {
        assert(s.take(k) =~= s);
    }
}

/// Reads the number that `s` denotes.
pub fn parse_usize(s: &str) -> (n: Option<usize>)
    ensures
        n == parse_decimal(s@),
{
    let v = chars_of(s);
    let start: usize = if v.len() > 0 && v[0] == '+' {
        1
    } else {
        0
    };
    let ghost digits = v@.skip(start as int);
    assert(digits =~= if s@.len() > 0 && s@[0] == '+' {
        s@.drop_first()
    } else {
        s@
    });
    if start == v.len() {
        return None;
    }
    let mut value: usize = 0;
    let mut i: usize = start;
    while i < v.len()
        invariant
            start <= i <= v.len(),
            start < v.len(),
            digits == v@.skip(start as int),
            digits == if s@.len() > 0 && s@[0] == '+' {
                s@.drop_first()
            } else {
                s@
            },
            forall|j: int| 0 <= j < i - start ==> is_digit(#[trigger] digits[j]),
            value == decimal_value(digits.take(i - start)),
        decreases v.len() - i,
    {
        let c = v[i];
        if !('0' <= c && c <= '9') {
            assert(!is_digit(digits[i - start]));
            return None;
        }
        let d: usize = (c as u32 - '0' as u32) as usize;
        proof {
            let upto = digits.take(i - start + 1);
            assert(upto.drop_last() =~= digits.take(i - start));
            assert(upto.last() == c);
            assert(decimal_value(upto) == value * 10 + d);
            lemma_decimal_value_grows(digits, i - start + 1);
        }
        if value > (usize::MAX - d) / 10 {
            assert(decimal_value(digits) > usize::MAX);
            return None;
        }
        value = value * 10 + d;
        i += 1;
    }
    assert(digits.take(i - start) =~= digits);
    Some(value)
}

/// The character that writes the digit `d`.
pub open spec fn digit_char(d: nat) -> char
    recommends
        d < 10,
{
    (('0' as u32 + d) as u32) as char
}

/// The decimal digits of `n`, most significant first, with no leading zero
/// (and the single digit `0` for zero).
pub open spec fn decimal(n: nat) -> Seq<char>
    decreases n,
{
    if n < 10 {
        seq![digit_char(n)]
    } else {
        decimal(n / 10).push(digit_char(n % 10))
    }
}

/// Appends the decimal digits of `n` to `s`.
pub fn push_decimal(s: &mut String, n: usize)
    ensures
        final(s)@ == old(s)@ + decimal(n as nat),
    decreases n,
{
    if n >= 10 {
        push_decimal(s, n / 10);
    }
    let d: u8 = (n % 10) as u8;
    let c: char = (48u8 + d) as char;
    assert(c == digit_char((n % 10) as nat));
    s.push(c);
    assert(final(s)@ =~= old(s)@ + decimal(n as nat));
}

/// What `decimal` writes, `parse_decimal` reads back.
pub proof fn lemma_decimal_round_trip(n: nat)
    requires
        n <= usize::MAX,
    ensures
        parse_decimal(decimal(n)) == Some(n as usize),
{
    lemma_decimal_digits(n);
}

/// `decimal(n)` is a non-empty run of digits whose value is `n`.
pub proof fn lemma_decimal_digits(n: nat)
    ensures
        decimal(n).len() > 0,
        all_digits(decimal(n)),
        decimal_value(decimal(n)) == n,
    decreases n,
{
    let s = decimal(n);
    if n < 10 {
        assert(s.drop_last() =~= Seq::<char>::empty());
        assert(decimal_value(s.drop_last()) == 0);
        assert(s.last() == digit_char(n));
        assert(is_digit(digit_char(n)));
        assert(digit_value(digit_char(n)) == n);
    } else {
        lemma_decimal_digits(n / 10);
        assert(s.drop_last() =~= decimal(n / 10));
        assert(s.last() == digit_char(n % 10));
        assert(is_digit(digit_char(n % 10)));
        assert(digit_value(digit_char(n % 10)) == n % 10);
        assert(decimal_value(s) == (n / 10) * 10 + n % 10);
    }
}

/// `String::from_utf8` turns bytes into a string when, and only when, they
/// are well-formed UTF-8; the string then holds the characters they encode.
#[verifier::external_body]
pub(crate) fn decode(bytes: Vec<u8>) -> (text: Option<String>)
    ensures
        text is Some <==> valid_utf8(bytes@),
        text matches Some(s) ==> s@ == decode_utf8(bytes@),
{
    String::from_utf8(bytes).ok()
}

} // verus!
