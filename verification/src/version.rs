//! Semantic versions of deployed archives: reading, writing, ordering and
//! stepping to the next version.

use crate::text::{
    chars_of, decimal_digits, find_char, first_index, parse_number, push_decimal, read_number,
};
use core::cmp::Ordering;
use vstd::prelude::*;

verus! {

/// A semantic version `major.minor.patch`.
///
/// Versions are ordered by major, then minor, then patch.
#[derive(Clone, Copy, Debug, PartialEq, Eq, Structural)]
pub struct Version {
    pub major: u32,
    pub minor: u32,
    pub patch: u32,
}

/// The largest value that a patch or minor component takes before the next
/// step carries into the component above it.
pub const CARRY_AT: u32 = 99;

/// The suffix that turns a version tag into an archive name.
pub open spec fn zip_suffix() -> Seq<char> {
    seq!['.', 'z', 'i', 'p']
}

/// `s` without the one `v` at its start, if it starts with one.
pub open spec fn strip_prefix_v(s: Seq<char>) -> Seq<char> {
    if s.len() > 0 && s[0] == 'v' {
        s.skip(1)
    } else {
        s
    }
}

/// `s` ends with `.zip`.
pub open spec fn ends_with_zip(s: Seq<char>) -> bool {
    s.len() >= 4 && s.skip(s.len() - 4) == zip_suffix()
}

/// `s` without the one `.zip` at its end, if it ends with one.
pub open spec fn strip_suffix_zip(s: Seq<char>) -> Seq<char> {
    if ends_with_zip(s) {
        s.take(s.len() - 4)
    } else {
        s
    }
}

/// The position of the first `.` in `s`, or the length of `s` if it has none.
pub open spec fn first_dot(s: Seq<char>) -> int {
    first_index(s, '.')
}

/// The version that the three dot-separated components of `body` denote, if
/// `body` has exactly three components and each of them is a number.
pub open spec fn parse_components(body: Seq<char>) -> Option<Version> {
    let i = first_dot(body);
    if i >= body.len() {
        None
    } else {
        let rest = body.skip(i + 1);
        let j = first_dot(rest);
        if j >= rest.len() {
            None
        } else {
            match (
                parse_number(body.take(i)),
                parse_number(rest.take(j)),
                parse_number(rest.skip(j + 1)),
            ) {
                (Some(major), Some(minor), Some(patch)) => Some(Version { major, minor, patch }),
                _ => None,
            }
        }
    }
}

/// The version that a tag or archive name denotes.
///
/// One leading `v` and one trailing `.zip` are set aside, where they are
/// there; what is left must be three numbers separated by two dots. Nothing
/// else is forgiven: a second `v` or a second `.zip` stays in its component,
/// which is then no number, and a fourth component makes the third one
/// contain a dot, which no number does.
pub open spec fn parse_version(s: Seq<char>) -> Option<Version> {
    parse_components(strip_suffix_zip(strip_prefix_v(s)))
}

impl Version {
    /// The tag of this version: `v`, then the three components in canonical
    /// decimal form, separated by dots.
    pub open spec fn tag(self) -> Seq<char> {
        seq!['v'] + decimal_digits(self.major as nat) + seq!['.'] + decimal_digits(
            self.minor as nat,
        ) + seq!['.'] + decimal_digits(self.patch as nat)
    }

    /// The name of the archive that holds this version: its tag followed by
    /// `.zip`.
    pub open spec fn archive(self) -> Seq<char> {
        self.tag() + zip_suffix()
    }

    /// `self` comes strictly before `other`.
    pub open spec fn lt(self, other: Version) -> bool {
        self.major < other.major || (self.major == other.major && (self.minor < other.minor || (
        self.minor == other.minor && self.patch < other.patch)))
    }

    /// `self` comes before `other` or equals it.
    pub open spec fn le(self, other: Version) -> bool {
        self.lt(other) || self == other
    }

    /// Stepping this version forward stays within 32 bits: the step does not
    /// have to carry out of the largest major number.
    pub open spec fn can_increment(self) -> bool {
        !(self.patch >= CARRY_AT && self.minor >= CARRY_AT && self.major == u32::MAX)
    }

    /// The next version: one more patch; a patch past 99 starts again at 0
    /// and adds one to minor; a minor past 99 starts again at 0 and adds one
    /// to major.
    pub open spec fn next(self) -> Version
        recommends
            self.can_increment(),
    {
        if self.patch < CARRY_AT {
            Version { major: self.major, minor: self.minor, patch: (self.patch + 1) as u32 }
        } else if self.minor < CARRY_AT {
            Version { major: self.major, minor: (self.minor + 1) as u32, patch: 0 }
        } else {
            Version { major: (self.major + 1) as u32, minor: 0, patch: 0 }
        }
    }

    /// Builds a version from its three components.
    pub fn new(major: u32, minor: u32, patch: u32) -> (v: Version)
        ensures
            v == (Version { major, minor, patch }),
    {
        Version { major, minor, patch }
    }

    /// Reads a version from a tag (`v1.2.3`) or an archive name
    /// (`v1.2.3.zip`). Malformed text gives `None`.
    pub fn from_str(s: &str) -> (r: Option<Version>)
        ensures
            r == parse_version(s@),
    {
        let chars = chars_of(s);
        let (lo, hi) = strip_bounds(&chars);
        read_components(&chars, lo, hi)
    }

    /// The tag of this version, such as `v1.2.3`.
    pub fn to_string(&self) -> (s: String)
        ensures
            s@ == self.tag(),
    {
        let mut out = String::new();
        proof {
            reveal_strlit("v");
            reveal_strlit(".");
        }
        out.append("v");
        push_decimal(&mut out, self.major);
        out.append(".");
        push_decimal(&mut out, self.minor);
        out.append(".");
        push_decimal(&mut out, self.patch);
        assert(out@ =~= self.tag());
        out
    }

    /// The name of the archive that holds this version, such as
    /// `v1.2.3.zip`.
    pub fn archive_name(&self) -> (s: String)
        ensures
            s@ == self.archive(),
    {
        let mut out = self.to_string();
        proof {
            reveal_strlit(".zip");
        }
        out.append(".zip");
        assert(out@ =~= self.archive());
        out
    }

    /// Whether [`Version::increment`] may be called on this version.
    pub fn has_next(&self) -> (r: bool)
        ensures
            r == self.can_increment(),
    {
        !(self.patch >= CARRY_AT && self.minor >= CARRY_AT && self.major == u32::MAX)
    }

    /// The next version, with carries from patch into minor and from minor
    /// into major. It comes strictly after this one.
    pub fn increment(&self) -> (r: Version)
        requires
            self.can_increment(),
        ensures
            r == self.next(),
            self.lt(r),
    {
        if self.patch < CARRY_AT {
            Version { major: self.major, minor: self.minor, patch: self.patch + 1 }
        } else if self.minor < CARRY_AT {
            Version { major: self.major, minor: self.minor + 1, patch: 0 }
        } else {
            Version { major: self.major + 1, minor: 0, patch: 0 }
        }
    }

    /// The next version, or `None` where the step would carry out of the
    /// largest major number.
    pub fn checked_increment(&self) -> (r: Option<Version>)
        ensures
            r == (if self.can_increment() {
                Some(self.next())
            } else {
                None
            }),
    {
        if self.has_next() {
            Some(self.increment())
        } else {
            None
        }
    }

    /// Whether this version comes strictly before `other`.
    pub fn precedes(&self, other: &Version) -> (r: bool)
        ensures
            r == self.lt(*other),
    {
        self.major < other.major || (self.major == other.major && (self.minor < other.minor || (
        self.minor == other.minor && self.patch < other.patch)))
    }

    /// How this version stands to `other` in the order of versions.
    pub fn compare(&self, other: &Version) -> (r: Ordering)
        ensures
            r == Ordering::Less <==> self.lt(*other),
            r == Ordering::Equal <==> *self == *other,
            r == Ordering::Greater <==> other.lt(*self),
    {
        if self.precedes(other) {
            Ordering::Less
        } else if other.precedes(self) {
            Ordering::Greater
        } else {
            Ordering::Equal
        }
    }
}

/// Where the text begins and ends once one `v` at its start and one `.zip`
/// at its end are set aside.
fn strip_bounds(chars: &Vec<char>) -> (r: (usize, usize))
    ensures
        r.0 <= r.1 <= chars.len(),
        chars@.subrange(r.0 as int, r.1 as int) == strip_suffix_zip(strip_prefix_v(chars@)),
{
    let n: usize = chars.len();
    let lo: usize = if n > 0 && chars[0] == 'v' {
        1
    } else {
        0
    };
    let ghost rest = chars@.subrange(lo as int, n as int);
    let zipped = n - lo >= 4 && chars[n - 4] == '.' && chars[n - 3] == 'z' && chars[n - 2] == 'i'
        && chars[n - 1] == 'p';
    let hi: usize = if zipped {
        n - 4
    } else {
        n
    };
    proof {
        assert(strip_prefix_v(chars@) =~= rest);
        if rest.len() >= 4 {
            let tail = rest.skip(rest.len() - 4);
            assert(tail[0] == chars@[n - 4]);
            assert(tail[1] == chars@[n - 3]);
            assert(tail[2] == chars@[n - 2]);
            assert(tail[3] == chars@[n - 1]);
            assert(zip_suffix()[0] == '.' && zip_suffix()[1] == 'z' && zip_suffix()[2] == 'i'
                && zip_suffix()[3] == 'p');
            if zipped {
                assert(tail =~= zip_suffix());
            }
        }
        assert(zipped == ends_with_zip(rest));
        assert(strip_suffix_zip(rest) =~= chars@.subrange(lo as int, hi as int));
    }
    (lo, hi)
}

/// Reads the three dot-separated numbers of `chars[lo..hi]`.
fn read_components(chars: &Vec<char>, lo: usize, hi: usize) -> (r: Option<Version>)
    requires
        lo <= hi <= chars.len(),
    ensures
        r == parse_components(chars@.subrange(lo as int, hi as int)),
{
    let ghost body = chars@.subrange(lo as int, hi as int);
    let d1 = find_char(chars, lo, hi, '.');
    if d1 >= hi {
        return None;
    }
    let ghost rest = body.skip(d1 - lo + 1);
    proof {
        assert(rest =~= chars@.subrange(d1 + 1, hi as int));
    }
    let d2 = find_char(chars, d1 + 1, hi, '.');
    if d2 >= hi {
        return None;
    }
    proof {
        assert(body.take(d1 - lo) =~= chars@.subrange(lo as int, d1 as int));
        assert(rest.take(d2 - d1 - 1) =~= chars@.subrange(d1 + 1, d2 as int));
        assert(rest.skip(d2 - d1) =~= chars@.subrange(d2 + 1, hi as int));
    }
    let major = read_number(chars, lo, d1);
    let minor = read_number(chars, d1 + 1, d2);
    let patch = read_number(chars, d2 + 1, hi);
    match (major, minor, patch) {
        (Some(major), Some(minor), Some(patch)) => Some(Version { major, minor, patch }),
        _ => None,
    }
}

/// Whether `version` is a well-formed version tag or archive name.
pub fn validate_version(version: &str) -> (r: bool)
    ensures
        r == parse_version(version@).is_some(),
{
    Version::from_str(version).is_some()
}

} // verus!
