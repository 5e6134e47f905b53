//! Character-level building blocks: decimal numerals and whitespace.
//!
//! Everything here is stated over `Seq<char>`, the view of a string, so that
//! the parsers and formatters built on top can be specified exactly.

use vstd::prelude::*;

verus! {

/// The characters of `s`, in order, as a vector that can be indexed in
/// constant time.
pub fn chars_of(s: &str) -> (v: Vec<char>)
    ensures
        v@ == s@,
{
    let mut v: Vec<char> = Vec::new();
    for c in it: s.chars()
        invariant
            v@ == it.seq().take(it.index() as int),
            it.seq() == s@,
    {
        v.push(c);
    }
    v
}

/// `c` is one of the ten ASCII decimal digits.
pub open spec fn is_digit(c: char) -> bool {
    '0' <= c <= '9'
}

/// The number a decimal digit stands for.
pub open spec fn digit_value(c: char) -> nat
    recommends
        is_digit(c),
{
    (c as int - '0' as int) as nat
}

/// The decimal digit that stands for `d`.
pub open spec fn digit_char(d: nat) -> char
    recommends
        d < 10,
{
    ('0' as int + d) as char
}

/// Every character of `s` is a decimal digit.
pub open spec fn all_digits(s: Seq<char>) -> bool {
    forall|i: int| 0 <= i < s.len() ==> is_digit(#[trigger] s[i])
}

/// The number that the digit string `s` denotes in base ten; leading zeros
/// do not change it, and the empty string denotes zero.
pub open spec fn decimal_value(s: Seq<char>) -> nat
    decreases s.len(),
{
    if s.len() == 0 {
        0
    } else {
        decimal_value(s.drop_last()) * 10 + digit_value(s.last())
    }
}

/// The shortest digit string that denotes `n`: no leading zero, except that
/// zero itself is written `0`.
pub open spec fn decimal_digits(n: nat) -> Seq<char>
    decreases n,
{
    if n < 10 {
        seq![digit_char(n)]
    } else {
        decimal_digits(n / 10).push(digit_char(n % 10))
    }
}

/// The 32-bit number that a non-empty digit string denotes, if it fits.
pub open spec fn digits_number(digits: Seq<char>) -> Option<u32> {
    if digits.len() > 0 && all_digits(digits) && decimal_value(digits) <= u32::MAX {
        Some(decimal_value(digits) as u32)
    } else {
        None
    }
}

/// What an unsigned 32-bit number is read from: an optional `+`, then one or
/// more decimal digits whose value fits in 32 bits. Anything else, the empty
/// string included, is no number.
pub open spec fn parse_number(s: Seq<char>) -> Option<u32> {
    if s.len() > 0 && s[0] == '+' {
        digits_number(s.skip(1))
    } else {
        digits_number(s)
    }
}

/// A digit string denotes at least what any of its prefixes denotes.
pub proof fn lemma_decimal_value_prefix(s: Seq<char>, k: int)
    requires
        0 <= k <= s.len(),
    ensures
        decimal_value(s.take(k)) <= decimal_value(s),
    decreases s.len(),
{
    if k == s.len() {
        assert(s.take(k) =~= s);
    } else {
        lemma_decimal_value_prefix(s.drop_last(), k);
        assert(s.drop_last().take(k) =~= s.take(k));
    }
}

/// Writing a number out and reading it back gives the number: the canonical
/// digits of `n` are a non-empty digit string that denotes `n`.
pub proof fn lemma_decimal_digits_value(n: nat)
    ensures
        decimal_digits(n).len() > 0,
        all_digits(decimal_digits(n)),
        decimal_value(decimal_digits(n)) == n,
    decreases n,
{
    if n < 10 {
        let s = decimal_digits(n);
        assert(s.drop_last() =~= Seq::<char>::empty());
        assert(decimal_value(s.drop_last()) == 0);
    } else {
        lemma_decimal_digits_value(n / 10);
        let s = decimal_digits(n);
        assert(s.drop_last() =~= decimal_digits(n / 10));
    }
}

/// The canonical digits of a number carry no leading zero, unless the number
/// is zero and its digits are the single character `0`.
pub proof fn lemma_decimal_digits_canonical(n: nat)
    ensures
        n == 0 ==> decimal_digits(n) == seq!['0'],
        n > 0 ==> decimal_digits(n)[0] != '0',
    decreases n,
{
    if n >= 10 {
        lemma_decimal_digits_canonical(n / 10);
        lemma_decimal_digits_value(n / 10);
    }
}

/// Reads the characters of `chars` from `from` up to `to` as a number.
pub(crate) fn read_number(chars: &Vec<char>, from: usize, to: usize) -> (r: Option<u32>)
    requires
        from <= to <= chars.len(),
    ensures
        r == parse_number(chars@.subrange(from as int, to as int)),
{
    let ghost s = chars@.subrange(from as int, to as int);
    let mut i: usize = from;
    if i < to && chars[i] == '+' {
        i = i + 1;
    }
    let start: usize = i;
    let ghost digits = chars@.subrange(start as int, to as int);
    proof {
        if start > from {
            assert(s.skip(1) =~= digits);
        } else {
            assert(s =~= digits);
            if s.len() > 0 {
                assert(s[0] == chars@[from as int]);
            }
        }
    }
    if start == to {
        return None;
    }
    let mut acc: u64 = 0;
    while i < to
        invariant
            start <= i <= to <= chars.len(),
            digits == chars@.subrange(start as int, to as int),
            parse_number(chars@.subrange(from as int, to as int)) == digits_number(digits),
            all_digits(digits.take(i - start)),
            acc == decimal_value(digits.take(i - start)),
            acc <= u32::MAX,
        decreases to - i,
    {
        let c = chars[i];
        if !('0' <= c && c <= '9') {
            proof {
                assert(digits[i - start] == c);
            }
            return None;
        }
        let d: u64 = (c as u32 - '0' as u32) as u64;
        let next: u64 = acc * 10 + d;
        proof {
            let t = digits.take(i - start + 1);
            assert(t.drop_last() =~= digits.take(i - start));
            assert(t.last() == c);
            assert(decimal_value(t) == next);
            assert forall|j: int| 0 <= j < t.len() implies is_digit(#[trigger] t[j]) by {
                if j < t.len() - 1 {
                    assert(t[j] == digits.take(i - start)[j]);
                }
            }
        }
        if next > 0xffff_ffff {
            proof {
                lemma_decimal_value_prefix(digits, i - start + 1);
            }
            return None;
        }
        acc = next;
        i = i + 1;
    }
    proof {
        assert(digits.take(i - start) =~= digits);
    }
    Some(acc as u32)
}

/// Appends the canonical decimal digits of `n` to `out`.
pub fn push_decimal(out: &mut String, n: u32)
    ensures
        final(out)@ == old(out)@ + decimal_digits(n as nat),
    decreases n,
{
    if n >= 10 {
        push_decimal(out, n / 10);
    }
    let digits = "0123456789";
    let d: usize = (n % 10) as usize;
    proof {
        reveal_strlit("0123456789");
    }
    let digit = digits.substring_ascii(d, d + 1);
    assert(digit@ =~= seq![digit_char(d as nat)]);
    out.append(digit);
    assert(out@ =~= old(out)@ + decimal_digits(n as nat));
}

/// `c` is white space as Unicode defines it: the characters with the
/// property `White_Space`.
pub open spec fn is_whitespace(c: char) -> bool {
    let u = c as u32;
    ||| 0x09 <= u <= 0x0d
    ||| u == 0x20
    ||| u == 0x85
    ||| u == 0xa0
    ||| u == 0x1680
    ||| 0x2000 <= u <= 0x200a
    ||| u == 0x2028
    ||| u == 0x2029
    ||| u == 0x202f
    ||| u == 0x205f
    ||| u == 0x3000
}

/// Whether `c` is white space.
pub fn is_space(c: char) -> (r: bool)
    ensures
        r == is_whitespace(c),
{
    let u: u32 = c as u32;
    (0x09 <= u && u <= 0x0d) || u == 0x20 || u == 0x85 || u == 0xa0 || u == 0x1680 || (0x2000 <= u
        && u <= 0x200a) || u == 0x2028 || u == 0x2029 || u == 0x202f || u == 0x205f || u == 0x3000
}

/// The position of the first `c` in `s`, or the length of `s` if it holds
/// none.
pub open spec fn first_index(s: Seq<char>, c: char) -> int
    decreases s.len(),
{
    if s.len() == 0 || s[0] == c {
        0
    } else {
        1 + first_index(s.skip(1), c)
    }
}

/// How many characters at the start of `s` are white space.
pub open spec fn leading_whitespace(s: Seq<char>) -> int
    decreases s.len(),
{
    if s.len() > 0 && is_whitespace(s[0]) {
        1 + leading_whitespace(s.skip(1))
    } else {
        0
    }
}

/// How many characters at the start of `s` are not white space.
pub open spec fn leading_word(s: Seq<char>) -> int
    decreases s.len(),
{
    if s.len() > 0 && !is_whitespace(s[0]) {
        1 + leading_word(s.skip(1))
    } else {
        0
    }
}

/// How many characters at the end of `s` are white space.
pub open spec fn trailing_whitespace(s: Seq<char>) -> int
    decreases s.len(),
{
    if s.len() > 0 && is_whitespace(s.last()) {
        1 + trailing_whitespace(s.drop_last())
    } else {
        0
    }
}

/// `s` without the white space at its start and at its end.
pub open spec fn trim(s: Seq<char>) -> Seq<char> {
    let t = s.skip(leading_whitespace(s));
    t.take(t.len() - trailing_whitespace(t))
}

/// The word of `s` that `n` words precede, where words are the maximal runs
/// of characters that are not white space; `None` if `s` has no more than
/// `n` words.
pub open spec fn nth_word(s: Seq<char>, n: nat) -> Option<Seq<char>>
    decreases n,
{
    let t = s.skip(leading_whitespace(s));
    if t.len() == 0 {
        None
    } else if n == 0 {
        Some(t.take(leading_word(t)))
    } else {
        nth_word(t.skip(leading_word(t)), (n - 1) as nat)
    }
}

/// The counts of leading characters stay within the text.
pub proof fn lemma_leading_bounds(s: Seq<char>)
    ensures
        0 <= leading_whitespace(s) <= s.len(),
        0 <= leading_word(s) <= s.len(),
        0 <= first_index(s, '\n') <= s.len(),
        s.len() > 0 && !is_whitespace(s[0]) ==> leading_word(s) > 0,
    decreases s.len(),
{
    if s.len() > 0 {
        lemma_leading_bounds(s.skip(1));
    }
}

/// The position of the first `c` of `chars` at or after `from` and before
/// `to`, or `to` if there is none.
pub(crate) fn find_char(chars: &Vec<char>, from: usize, to: usize, c: char) -> (r: usize)
    requires
        from <= to <= chars.len(),
    ensures
        from <= r <= to,
        r - from == first_index(chars@.subrange(from as int, to as int), c),
{
    let mut i: usize = from;
    while i < to && chars[i] != c
        invariant
            from <= i <= to <= chars.len(),
            first_index(chars@.subrange(from as int, to as int), c) == (i - from) + first_index(
                chars@.subrange(i as int, to as int),
                c,
            ),
        decreases to - i,
    {
        proof {
            let t = chars@.subrange(i as int, to as int);
            assert(t[0] == chars@[i as int]);
            assert(t.skip(1) =~= chars@.subrange(i + 1, to as int));
        }
        i = i + 1;
    }
    proof {
        let t = chars@.subrange(i as int, to as int);
        if i < to {
            assert(t[0] == chars@[i as int]);
        }
    }
    i
}

/// The position of the first character of `chars` at or after `from` and
/// before `to` that is not white space, or `to` if there is none.
pub(crate) fn skip_whitespace(chars: &Vec<char>, from: usize, to: usize) -> (r: usize)
    requires
        from <= to <= chars.len(),
    ensures
        from <= r <= to,
        r - from == leading_whitespace(chars@.subrange(from as int, to as int)),
{
    let mut i: usize = from;
    while i < to && is_space(chars[i])
        invariant
            from <= i <= to <= chars.len(),
            leading_whitespace(chars@.subrange(from as int, to as int)) == (i - from)
                + leading_whitespace(chars@.subrange(i as int, to as int)),
        decreases to - i,
    {
        proof {
            let t = chars@.subrange(i as int, to as int);
            assert(t[0] == chars@[i as int]);
            assert(t.skip(1) =~= chars@.subrange(i + 1, to as int));
        }
        i = i + 1;
    }
    proof {
        let t = chars@.subrange(i as int, to as int);
        if i < to {
            assert(t[0] == chars@[i as int]);
        }
    }
    i
}

/// The position of the first white space of `chars` at or after `from` and
/// before `to`, or `to` if there is none.
pub(crate) fn skip_word(chars: &Vec<char>, from: usize, to: usize) -> (r: usize)
    requires
        from <= to <= chars.len(),
    ensures
        from <= r <= to,
        r - from == leading_word(chars@.subrange(from as int, to as int)),
{
    let mut i: usize = from;
    while i < to && !is_space(chars[i])
        invariant
            from <= i <= to <= chars.len(),
            leading_word(chars@.subrange(from as int, to as int)) == (i - from) + leading_word(
                chars@.subrange(i as int, to as int),
            ),
        decreases to - i,
    {
        proof {
            let t = chars@.subrange(i as int, to as int);
            assert(t[0] == chars@[i as int]);
            assert(t.skip(1) =~= chars@.subrange(i + 1, to as int));
        }
        i = i + 1;
    }
    proof {
        let t = chars@.subrange(i as int, to as int);
        if i < to {
            assert(t[0] == chars@[i as int]);
        }
    }
    i
}

/// Where the word of `chars[from..to]` that `n` words precede begins and
/// ends, if there is one.
pub(crate) fn find_word(chars: &Vec<char>, from: usize, to: usize, n: usize) -> (r: Option<
    (usize, usize),
>)
    requires
        from <= to <= chars.len(),
    ensures
        match r {
            Some((a, b)) => from <= a < b <= to && nth_word(
                chars@.subrange(from as int, to as int),
                n as nat,
            ) == Some(chars@.subrange(a as int, b as int)),
            None => nth_word(chars@.subrange(from as int, to as int), n as nat) is None,
        },
{
    let mut pos: usize = from;
    let mut left: usize = n;
    loop
        invariant
            from <= pos <= to <= chars.len(),
            nth_word(chars@.subrange(from as int, to as int), n as nat) == nth_word(
                chars@.subrange(pos as int, to as int),
                left as nat,
            ),
        decreases left,
    {
        let ghost s = chars@.subrange(pos as int, to as int);
        let start = skip_whitespace(chars, pos, to);
        let ghost t = chars@.subrange(start as int, to as int);
        proof {
            assert(s.skip(start - pos) =~= t);
        }
        if start == to {
            return None;
        }
        let end = skip_word(chars, start, to);
        proof {
            lemma_leading_stops(s);
            assert(t[0] == s[start - pos]);
            lemma_leading_bounds(t);
            assert(t.take(end - start) =~= chars@.subrange(start as int, end as int));
            assert(t.skip(end - start) =~= chars@.subrange(end as int, to as int));
        }
        if left == 0 {
            return Some((start, end));
        }
        pos = end;
        left = left - 1;
    }
}

/// The character just behind the leading white space, if there is one, is
/// not white space.
pub proof fn lemma_leading_stops(s: Seq<char>)
    ensures
        leading_whitespace(s) < s.len() ==> !is_whitespace(s[leading_whitespace(s)]),
        leading_word(s) < s.len() ==> is_whitespace(s[leading_word(s)]),
    decreases s.len(),
{
    if s.len() > 0 {
        lemma_leading_stops(s.skip(1));
        lemma_leading_bounds(s.skip(1));
    }
}

/// The leading word holds no white space.
pub proof fn lemma_leading_word_is_solid(s: Seq<char>)
    ensures
        forall|i: int| 0 <= i < leading_word(s) ==> !is_whitespace(#[trigger] s[i]),
    decreases s.len(),
{
    if s.len() > 0 && !is_whitespace(s[0]) {
        lemma_leading_word_is_solid(s.skip(1));
        lemma_leading_bounds(s.skip(1));
        assert forall|i: int| 0 <= i < leading_word(s) implies !is_whitespace(#[trigger] s[i]) by {
            if i > 0 {
                assert(s[i] == s.skip(1)[i - 1]);
            }
        }
    }
}

/// A word is not empty and holds no white space.
pub proof fn lemma_word_is_solid(s: Seq<char>, n: nat)
    requires
        nth_word(s, n) is Some,
    ensures
        nth_word(s, n).unwrap().len() > 0,
        forall|i: int|
            0 <= i < nth_word(s, n).unwrap().len() ==> !is_whitespace(
                #[trigger] nth_word(s, n).unwrap()[i],
            ),
    decreases n,
{
    lemma_leading_bounds(s);
    lemma_leading_stops(s);
    let t = s.skip(leading_whitespace(s));
    lemma_leading_bounds(t);
    if n == 0 {
        assert(t[0] == s[leading_whitespace(s)]);
        lemma_leading_word_is_solid(t);
    } else {
        lemma_word_is_solid(t.skip(leading_word(t)), (n - 1) as nat);
    }
}

/// `s` without the white space at its start and at its end.
pub fn trimmed(s: &str) -> (r: String)
    ensures
        r@ == trim(s@),
{
    let chars = chars_of(s);
    let n: usize = chars.len();
    assert(chars@.subrange(0, n as int) =~= chars@);
    let start = skip_whitespace(&chars, 0, n);
    let ghost t = chars@.skip(start as int);
    let mut end: usize = n;
    assert(t.take(t.len() as int) =~= t);
    while end > start && is_space(chars[end - 1])
        invariant
            start <= end <= n == chars.len(),
            t == chars@.skip(start as int),
            trailing_whitespace(t) == (n - end) + trailing_whitespace(t.take(end - start)),
        decreases end - start,
    {
        proof {
            let u = t.take(end - start);
            assert(u.last() == chars@[end - 1]);
            assert(u.drop_last() =~= t.take(end - start - 1));
        }
        end = end - 1;
    }
    proof {
        let u = t.take(end - start);
        if end > start {
            assert(u.last() == chars@[end - 1]);
        }
        assert(trailing_whitespace(u) == 0);
        assert(u =~= s@.subrange(start as int, end as int));
        assert(trim(s@) == u);
    }
    String::from_str(s.substring_char(start, end))
}

} // verus!
