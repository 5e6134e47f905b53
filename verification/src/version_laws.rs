//! What holds of every version and of every text read as one.

use crate::text::{
    decimal_digits, digits_number, is_digit, lemma_decimal_digits_canonical,
    lemma_decimal_digits_value, parse_number,
};
use crate::version::{
    ends_with_zip, first_dot, parse_components, parse_version, strip_prefix_v, strip_suffix_zip,
    zip_suffix, Version,
};
use vstd::prelude::*;

verus! {

/// Of two versions exactly one holds: the first comes before the second, they
/// are the same, or the second comes before the first.
pub proof fn lemma_order_total(a: Version, b: Version)
    ensures
        a.lt(b) || a == b || b.lt(a),
        !(a.lt(b) && b.lt(a)),
        !(a.lt(b) && a == b),
{
}

/// The order of versions is transitive.
pub proof fn lemma_order_transitive(a: Version, b: Version, c: Version)
    requires
        a.lt(b),
        b.lt(c),
    ensures
        a.lt(c),
{
}

/// Stepping a version forward gives a strictly later version.
pub proof fn lemma_increment_increases(v: Version)
    requires
        v.can_increment(),
    ensures
        v.lt(v.next()),
{
}

/// A carry resets what lies below it: the step out of a full patch leaves
/// patch 0, and the step out of a full patch and a full minor leaves both 0.
pub proof fn lemma_increment_carries(v: Version)
    requires
        v.can_increment(),
    ensures
        v.patch < 99 ==> v.next() == (Version { patch: (v.patch + 1) as u32, ..v }),
        v.patch >= 99 && v.minor < 99 ==> v.next() == (Version {
            major: v.major,
            minor: (v.minor + 1) as u32,
            patch: 0,
        }),
        v.patch >= 99 && v.minor >= 99 ==> v.next() == (Version {
            major: (v.major + 1) as u32,
            minor: 0,
            patch: 0,
        }),
{
}

/// The number of dots in `s`.
pub open spec fn dots(s: Seq<char>) -> nat
    decreases s.len(),
{
    if s.len() == 0 {
        0
    } else {
        dots(s.drop_last()) + if s.last() == '.' {
            1nat
        } else {
            0nat
        }
    }
}

/// `s` holds no dot.
pub open spec fn dot_free(s: Seq<char>) -> bool {
    forall|i: int| 0 <= i < s.len() ==> #[trigger] s[i] != '.'
}

/// `a`, `b` and `c` joined by two dots.
pub open spec fn dotted(a: Seq<char>, b: Seq<char>, c: Seq<char>) -> Seq<char> {
    a + seq!['.'] + b + seq!['.'] + c
}

proof fn lemma_dots_concat(x: Seq<char>, y: Seq<char>)
    ensures
        dots(x + y) == dots(x) + dots(y),
    decreases y.len(),
{
    if y.len() == 0 {
        assert(x + y =~= x);
    } else {
        lemma_dots_concat(x, y.drop_last());
        assert((x + y).drop_last() =~= x + y.drop_last());
    }
}

proof fn lemma_dot_free_has_no_dots(s: Seq<char>)
    requires
        dot_free(s),
    ensures
        dots(s) == 0,
    decreases s.len(),
{
    if s.len() > 0 {
        assert(s.last() == s[s.len() - 1]);
        lemma_dot_free_has_no_dots(s.drop_last());
    }
}

proof fn lemma_first_dot(s: Seq<char>)
    ensures
        0 <= first_dot(s) <= s.len(),
        first_dot(s) < s.len() ==> s[first_dot(s)] == '.',
        dot_free(s.take(first_dot(s))),
    decreases s.len(),
{
    if s.len() == 0 || s[0] == '.' {
    } else {
        lemma_first_dot(s.skip(1));
        assert(first_dot(s) == 1 + first_dot(s.skip(1)));
        let k = first_dot(s.skip(1));
        assert forall|i: int| 0 <= i < s.take(k + 1).len() implies #[trigger] s.take(k + 1)[i]
            != '.' by {
            if i > 0 {
                assert(s.take(k + 1)[i] == s.skip(1).take(k)[i - 1]);
            }
        }
    }
}

proof fn lemma_first_dot_after(a: Seq<char>, rest: Seq<char>)
    requires
        dot_free(a),
    ensures
        first_dot(a + seq!['.'] + rest) == a.len(),
    decreases a.len(),
{
    let s = a + seq!['.'] + rest;
    if a.len() == 0 {
        assert(s[0] == '.');
    } else {
        assert(s[0] == a[0]);
        assert(s.skip(1) =~= a.skip(1) + seq!['.'] + rest);
        assert forall|i: int| 0 <= i < a.skip(1).len() implies #[trigger] a.skip(1)[i] != '.' by {
            assert(a.skip(1)[i] == a[i + 1]);
        }
        lemma_first_dot_after(a.skip(1), rest);
    }
}

/// Text that reads as a number is not empty and holds no dot.
pub proof fn lemma_number_has_no_dot(s: Seq<char>)
    requires
        parse_number(s) is Some,
    ensures
        s.len() > 0,
        dot_free(s),
{
    if s.len() > 0 && s[0] == '+' {
        let d = s.skip(1);
        assert forall|i: int| 0 <= i < s.len() implies #[trigger] s[i] != '.' by {
            if i > 0 {
                assert(is_digit(d[i - 1]));
            }
        }
    } else {
        assert forall|i: int| 0 <= i < s.len() implies #[trigger] s[i] != '.' by {
            assert(is_digit(s[i]));
        }
    }
}

/// Three numbers joined by two dots read as the version of those numbers.
pub proof fn lemma_components_of_dotted(a: Seq<char>, b: Seq<char>, c: Seq<char>)
    requires
        parse_number(a) is Some,
        parse_number(b) is Some,
        parse_number(c) is Some,
    ensures
        parse_components(dotted(a, b, c)) == Some(
            Version {
                major: parse_number(a).unwrap(),
                minor: parse_number(b).unwrap(),
                patch: parse_number(c).unwrap(),
            },
        ),
{
    let body = dotted(a, b, c);
    lemma_number_has_no_dot(a);
    lemma_number_has_no_dot(b);
    lemma_number_has_no_dot(c);
    assert(body =~= a + seq!['.'] + (b + seq!['.'] + c));
    lemma_first_dot_after(a, b + seq!['.'] + c);
    let rest = body.skip(a.len() as int + 1);
    assert(rest =~= b + seq!['.'] + c);
    lemma_first_dot_after(b, c);
    assert(body.take(a.len() as int) =~= a);
    assert(rest.take(b.len() as int) =~= b);
    assert(rest.skip(b.len() as int + 1) =~= c);
}

/// Text that reads as a version is, once one leading `v` and one trailing
/// `.zip` are set aside, three numbers joined by two dots; the parts are
/// returned.
pub proof fn lemma_parsed_is_dotted(s: Seq<char>) -> (parts: (Seq<char>, Seq<char>, Seq<char>))
    requires
        parse_version(s) is Some,
    ensures
        strip_suffix_zip(strip_prefix_v(s)) == dotted(parts.0, parts.1, parts.2),
        parse_number(parts.0) == Some(parse_version(s).unwrap().major),
        parse_number(parts.1) == Some(parse_version(s).unwrap().minor),
        parse_number(parts.2) == Some(parse_version(s).unwrap().patch),
{
    let body = strip_suffix_zip(strip_prefix_v(s));
    let i = first_dot(body);
    let rest = body.skip(i + 1);
    let j = first_dot(rest);
    lemma_first_dot(body);
    lemma_first_dot(rest);
    let a = body.take(i);
    let b = rest.take(j);
    let c = rest.skip(j + 1);
    assert(body =~= dotted(a, b, c));
    (a, b, c)
}

/// The empty text is no version.
pub proof fn lemma_rejects_empty()
    ensures
        parse_version(Seq::<char>::empty()) is None,
{
    let e = Seq::<char>::empty();
    assert(strip_prefix_v(e) == e);
    assert(strip_suffix_zip(e) == e);
}

/// Text with fewer or more than three components is no version: what is
/// left once one `v` and one `.zip` are set aside must hold exactly two dots.
pub proof fn lemma_rejects_wrong_component_count(s: Seq<char>)
    requires
        dots(strip_suffix_zip(strip_prefix_v(s))) != 2,
    ensures
        parse_version(s) is None,
{
    if parse_version(s) is Some {
        let (a, b, c) = lemma_parsed_is_dotted(s);
        lemma_number_has_no_dot(a);
        lemma_number_has_no_dot(b);
        lemma_number_has_no_dot(c);
        lemma_dot_free_has_no_dots(a);
        lemma_dot_free_has_no_dots(b);
        lemma_dot_free_has_no_dots(c);
        let dot = seq!['.'];
        assert(dots(dot) == 1) by {
            assert(dot.drop_last() =~= Seq::<char>::empty());
            assert(dots(dot.drop_last()) == 0);
        }
        lemma_dots_concat(a, dot);
        lemma_dots_concat(a + dot, b);
        lemma_dots_concat(a + dot + b, dot);
        lemma_dots_concat(a + dot + b + dot, c);
    }
}

/// Text with a component that is not a number is no version: beside the two
/// dots, only digits and `+` occur in what is left once one `v` and one
/// `.zip` are set aside.
pub proof fn lemma_rejects_non_numeric(s: Seq<char>, i: int)
    requires
        0 <= i < strip_suffix_zip(strip_prefix_v(s)).len(),
        !is_digit(strip_suffix_zip(strip_prefix_v(s))[i]),
        strip_suffix_zip(strip_prefix_v(s))[i] != '.',
        strip_suffix_zip(strip_prefix_v(s))[i] != '+',
    ensures
        parse_version(s) is None,
{
    if parse_version(s) is Some {
        let (a, b, c) = lemma_parsed_is_dotted(s);
        let body = strip_suffix_zip(strip_prefix_v(s));
        lemma_number_chars(a);
        lemma_number_chars(b);
        lemma_number_chars(c);
        if i < a.len() {
            assert(body[i] == a[i]);
        } else if i == a.len() {
        } else if i < a.len() + 1 + b.len() {
            assert(body[i] == b[i - a.len() - 1]);
        } else if i == a.len() + 1 + b.len() {
        } else {
            assert(body[i] == c[i - a.len() - b.len() - 2]);
        }
    }
}

/// Only one leading `v` is set aside: text that begins with two is no
/// version.
pub proof fn lemma_rejects_repeated_prefix(s: Seq<char>)
    requires
        s.len() >= 2,
        s[0] == 'v',
        s[1] == 'v',
    ensures
        parse_version(s) is None,
{
    let rest = strip_prefix_v(s);
    assert(rest[0] == 'v');
    let body = strip_suffix_zip(rest);
    if ends_with_zip(rest) {
        assert(rest.skip(rest.len() - 4)[0] == '.');
        assert(rest.len() > 4);
    }
    assert(body[0] == 'v');
    lemma_rejects_non_numeric(s, 0);
}

/// Only one trailing `.zip` is set aside: text that ends with two is no
/// version.
pub proof fn lemma_rejects_repeated_suffix(s: Seq<char>)
    requires
        ends_with_zip(s),
        ends_with_zip(s.take(s.len() - 4)),
    ensures
        parse_version(s) is None,
{
    let rest = strip_prefix_v(s);
    let n = rest.len();
    let inner = s.take(s.len() - 4);
    assert(s.len() >= 8);
    assert forall|i: int| 0 <= i < 4 implies s[s.len() - 4 + i] == zip_suffix()[i] by {
        assert(s.skip(s.len() - 4)[i] == s[s.len() - 4 + i]);
    }
    assert forall|i: int| 0 <= i < 4 implies s[s.len() - 8 + i] == zip_suffix()[i] by {
        assert(inner.skip(inner.len() - 4)[i] == inner[inner.len() - 4 + i]);
        assert(inner[inner.len() - 4 + i] == s[s.len() - 8 + i]);
    }
    assert(rest.skip(n - 4) =~= zip_suffix()) by {
        assert forall|i: int| 0 <= i < 4 implies rest.skip(n - 4)[i] == zip_suffix()[i] by {
            assert(rest.skip(n - 4)[i] == s[s.len() - 4 + i]);
        }
    }
    let body = strip_suffix_zip(rest);
    assert(body == rest.take(n - 4));
    assert(body[body.len() - 1] == s[s.len() - 5]);
    assert(s[s.len() - 5] == 'p');
    lemma_rejects_non_numeric(s, body.len() - 1);
}

proof fn lemma_number_chars(s: Seq<char>)
    requires
        parse_number(s) is Some,
    ensures
        forall|i: int| 0 <= i < s.len() ==> is_digit(#[trigger] s[i]) || s[i] == '+',
{
    if s.len() > 0 && s[0] == '+' {
        let d = s.skip(1);
        assert forall|i: int| 0 <= i < s.len() implies is_digit(#[trigger] s[i]) || s[i]
            == '+' by {
            if i > 0 {
                assert(is_digit(d[i - 1]));
            }
        }
    }
}

proof fn lemma_strip_v_once(s: Seq<char>)
    ensures
        strip_prefix_v(seq!['v'] + s) == s,
{
    let t = seq!['v'] + s;
    assert(t[0] == 'v');
    assert(t.skip(1) =~= s);
}

proof fn lemma_strip_zip_once(s: Seq<char>)
    ensures
        strip_suffix_zip(s + zip_suffix()) == s,
        s.len() > 0 && s.last() != 'p' ==> strip_suffix_zip(s) == s,
{
    let t = s + zip_suffix();
    if s.len() >= 4 {
        assert(s.skip(s.len() - 4)[3] == s.last());
        assert(zip_suffix()[3] == 'p');
    }
    assert(t.skip(t.len() - 4) =~= zip_suffix());
    assert(t.take(t.len() - 4) =~= s);
}

/// Every well-formed tag or archive name reads as the version of its three
/// numbers: `v`, three non-empty digit strings that fit in 32 bits, joined by
/// dots, with or without `.zip` behind them. Leading zeros are accepted.
pub proof fn lemma_reads_well_formed(a: Seq<char>, b: Seq<char>, c: Seq<char>, zipped: bool)
    requires
        digits_number(a) is Some,
        digits_number(b) is Some,
        digits_number(c) is Some,
    ensures
        parse_version(
            seq!['v'] + dotted(a, b, c) + if zipped {
                zip_suffix()
            } else {
                Seq::<char>::empty()
            },
        ) == Some(
            Version {
                major: digits_number(a).unwrap(),
                minor: digits_number(b).unwrap(),
                patch: digits_number(c).unwrap(),
            },
        ),
{
    let body = dotted(a, b, c);
    assert(is_digit(a[0]));
    assert(is_digit(b[0]));
    assert(is_digit(c[0]));
    assert(is_digit(c[c.len() - 1]));
    assert(body[0] == a[0]);
    assert(body.last() == c[c.len() - 1]);
    lemma_strip_zip_once(body);
    if zipped {
        let t = body + zip_suffix();
        lemma_strip_v_once(t);
        assert(seq!['v'] + body + zip_suffix() =~= seq!['v'] + t);
    } else {
        lemma_strip_v_once(body);
        assert(seq!['v'] + body + Seq::<char>::empty() =~= seq!['v'] + body);
    }
    lemma_components_of_dotted(a, b, c);
}

/// Writing a version and reading it back gives the version, for the tag and
/// for the archive name alike.
pub proof fn lemma_round_trip(v: Version)
    ensures
        parse_version(v.tag()) == Some(v),
        parse_version(v.archive()) == Some(v),
{
    let a = decimal_digits(v.major as nat);
    let b = decimal_digits(v.minor as nat);
    let c = decimal_digits(v.patch as nat);
    lemma_decimal_digits_value(v.major as nat);
    lemma_decimal_digits_value(v.minor as nat);
    lemma_decimal_digits_value(v.patch as nat);
    lemma_reads_well_formed(a, b, c, false);
    lemma_reads_well_formed(a, b, c, true);
    assert(v.tag() =~= seq!['v'] + dotted(a, b, c) + Seq::<char>::empty());
    assert(v.archive() =~= seq!['v'] + dotted(a, b, c) + zip_suffix());
}

/// What is written is canonical: each component of a tag has no leading zero
/// (zero itself is written `0`), and only the archive name ends in `.zip`.
pub proof fn lemma_written_is_canonical(v: Version)
    ensures
        v.tag() == seq!['v'] + dotted(
            decimal_digits(v.major as nat),
            decimal_digits(v.minor as nat),
            decimal_digits(v.patch as nat),
        ),
        forall|n: nat| n > 0 ==> (#[trigger] decimal_digits(n))[0] != '0',
        decimal_digits(0) == seq!['0'],
        !ends_with_zip(v.tag()),
        ends_with_zip(v.archive()),
        v.archive() == v.tag() + zip_suffix(),
{
    assert forall|n: nat| n > 0 implies (#[trigger] decimal_digits(n))[0] != '0' by {
        lemma_decimal_digits_canonical(n);
    }
    lemma_decimal_digits_canonical(0);
    let c = decimal_digits(v.patch as nat);
    lemma_decimal_digits_value(v.patch as nat);
    let t = v.tag();
    assert(v.tag() =~= seq!['v'] + dotted(
        decimal_digits(v.major as nat),
        decimal_digits(v.minor as nat),
        decimal_digits(v.patch as nat),
    ));
    assert(t.last() == c[c.len() - 1]);
    assert(is_digit(c[c.len() - 1]));
    if t.len() >= 4 {
        assert(t.skip(t.len() - 4)[3] == t.last());
        assert(zip_suffix()[3] == 'p');
    }
    let z = v.archive();
    assert(z.skip(z.len() - 4) =~= zip_suffix());
}

/// Reading any well-formed text and writing the result gives the canonical
/// form of that text's version, which reads as the same version again.
pub proof fn lemma_read_then_write(s: Seq<char>)
    requires
        parse_version(s) is Some,
    ensures
        parse_version(parse_version(s).unwrap().tag()) == parse_version(s),
        parse_version(parse_version(s).unwrap().archive()) == parse_version(s),
{
    lemma_round_trip(parse_version(s).unwrap());
}

} // verus!
