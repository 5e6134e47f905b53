//! The history store: the archives that were shipped before, as the listing
//! of the remote history directory shows them.

use crate::text::{
    chars_of, find_char, find_word, first_index, is_whitespace, lemma_leading_bounds,
    lemma_word_is_solid, nth_word,
};
use crate::version::{parse_version, Version};
use vstd::prelude::*;

verus! {

/// How many words of a listing line precede the file name.
pub const NAME_COLUMN: usize = 8;

/// The command that lists the history directory `path`, one long-format line
/// per archive.
pub open spec fn listing_command(path: Seq<char>) -> Seq<char> {
    "cd "@ + path + " && ls -l"@
}

/// The file name on one line of a long-format listing: its ninth word. A
/// line with fewer words names no file.
pub open spec fn listing_name(line: Seq<char>) -> Option<Seq<char>> {
    nth_word(line, NAME_COLUMN as nat)
}

/// The file names of a long-format listing, in the order of its lines. Lines
/// end at a line feed; a line that names no file contributes nothing.
pub open spec fn listing_entries(output: Seq<char>) -> Seq<Seq<char>>
    decreases output.len(),
{
    let i = first_index(output, '\n');
    let head = match listing_name(output.take(i)) {
        Some(name) => seq![name],
        None => Seq::empty(),
    };
    if 0 <= i < output.len() {
        head + listing_entries(output.skip(i + 1))
    } else {
        head
    }
}

/// Every entry of a listing is a file name as the listing shows it: not
/// empty and without white space.
pub proof fn lemma_entries_are_words(output: Seq<char>, i: int)
    requires
        0 <= i < listing_entries(output).len(),
    ensures
        listing_entries(output)[i].len() > 0,
        forall|j: int|
            0 <= j < listing_entries(output)[i].len() ==> !is_whitespace(
                #[trigger] listing_entries(output)[i][j],
            ),
    decreases output.len(),
{
    let end = first_index(output, '\n');
    let line = output.take(end);
    let head: Seq<Seq<char>> = match listing_name(line) {
        Some(name) => seq![name],
        None => Seq::empty(),
    };
    if i < head.len() {
        lemma_word_is_solid(line, NAME_COLUMN as nat);
    } else {
        lemma_entries_are_words(output.skip(end + 1), i - head.len());
    }
}

/// The later of the latest version so far and the version that `entry`
/// denotes, if it denotes one.
pub open spec fn later_of(so_far: Option<Version>, entry: Seq<char>) -> Option<Version> {
    match (so_far, parse_version(entry)) {
        (_, None) => so_far,
        (None, Some(v)) => Some(v),
        (Some(m), Some(v)) => if m.lt(v) {
            Some(v)
        } else {
            Some(m)
        },
    }
}

/// The latest version among the entries of `history` that denote one; entries
/// that denote none are passed over.
pub open spec fn latest_version(history: Seq<Seq<char>>) -> Option<Version>
    decreases history.len(),
{
    if history.len() == 0 {
        None
    } else {
        later_of(latest_version(history.drop_last()), history.last())
    }
}

/// `latest` is the greatest version of `history`: some entry denotes it and
/// no entry denotes a later one; or it is `None` and no entry denotes a
/// version at all.
pub open spec fn is_greatest(history: Seq<Seq<char>>, latest: Option<Version>) -> bool {
    match latest {
        Some(m) => {
            &&& exists|i: int|
                0 <= i < history.len() && parse_version(#[trigger] history[i]) == Some(m)
            &&& forall|i: int|
                0 <= i < history.len() ==> match parse_version(#[trigger] history[i]) {
                    Some(v) => v.le(m),
                    None => true,
                }
        },
        None => forall|i: int|
            0 <= i < history.len() ==> parse_version(#[trigger] history[i]) is None,
    }
}

/// The latest version is the greatest version.
pub proof fn lemma_latest_is_greatest(history: Seq<Seq<char>>)
    ensures
        is_greatest(history, latest_version(history)),
    decreases history.len(),
{
    if history.len() > 0 {
        let before = history.drop_last();
        lemma_latest_is_greatest(before);
        let n = history.len() - 1;
        assert(forall|i: int| 0 <= i < n ==> before[i] == history[i]);
        match latest_version(history) {
            Some(m) => {
                if latest_version(before) == Some(m) {
                    let w = choose|i: int|
                        0 <= i < before.len() && parse_version(#[trigger] before[i]) == Some(m);
                    assert(parse_version(history[w]) == Some(m));
                } else {
                    assert(parse_version(history[n]) == Some(m));
                }
                assert forall|i: int| 0 <= i < history.len() implies match parse_version(
                    #[trigger] history[i],
                ) {
                    Some(v) => v.le(m),
                    None => true,
                } by {
                    if i < n {
                        assert(before[i] == history[i]);
                    }
                }
            },
            None => {
                assert forall|i: int| 0 <= i < history.len() implies parse_version(
                    #[trigger] history[i],
                ) is None by {
                    if i < n {
                        assert(before[i] == history[i]);
                    }
                }
            },
        }
    }
}

/// A history has one greatest version and no other.
pub proof fn lemma_greatest_is_unique(
    history: Seq<Seq<char>>,
    a: Option<Version>,
    b: Option<Version>,
)
    requires
        is_greatest(history, a),
        is_greatest(history, b),
    ensures
        a == b,
{
    match (a, b) {
        (Some(x), Some(y)) => {
            let i = choose|i: int|
                0 <= i < history.len() && parse_version(#[trigger] history[i]) == Some(x);
            let j = choose|j: int|
                0 <= j < history.len() && parse_version(#[trigger] history[j]) == Some(y);
            assert(x.le(y));
            assert(y.le(x));
        },
        (Some(x), None) => {
            let i = choose|i: int|
                0 <= i < history.len() && parse_version(#[trigger] history[i]) == Some(x);
            assert(parse_version(history[i]) is None);
        },
        (None, Some(y)) => {
            let j = choose|j: int|
                0 <= j < history.len() && parse_version(#[trigger] history[j]) == Some(y);
            assert(parse_version(history[j]) is None);
        },
        (None, None) => {},
    }
}

/// The command that lists the history directory `path`.
pub fn history_command(path: &str) -> (command: String)
    ensures
        command@ == listing_command(path@),
{
    let mut command = String::from_str("cd ");
    command.append(path);
    command.append(" && ls -l");
    command
}

/// The archive names that the output of the listing command shows, in the
/// order in which it shows them.
pub fn get_history(output: &str) -> (entries: Vec<String>)
    ensures
        entries.deep_view() == listing_entries(output@),
{
    let chars = chars_of(output);
    let n: usize = chars.len();
    let mut entries: Vec<String> = Vec::new();
    let mut pos: usize = 0;
    assert(chars@.skip(0) =~= chars@);
    assert(entries.deep_view() =~= Seq::<Seq<char>>::empty());
    loop
        invariant_except_break
            listing_entries(chars@) == entries.deep_view() + listing_entries(
                chars@.skip(pos as int),
            ),
        invariant
            pos <= n == chars.len(),
            chars@ == output@,
        ensures
            entries.deep_view() == listing_entries(chars@),
        decreases n - pos,
    {
        let ghost rest = chars@.skip(pos as int);
        let ghost before = entries.deep_view();
        let end = find_char(&chars, pos, n, '\n');
        proof {
            assert(rest =~= chars@.subrange(pos as int, n as int));
            lemma_leading_bounds(rest);
            assert(rest.take(end - pos) =~= chars@.subrange(pos as int, end as int));
        }
        match find_word(&chars, pos, end, NAME_COLUMN) {
            Some((a, b)) => {
                let name = String::from_str(output.substring_char(a, b));
                entries.push(name);
                proof {
                    assert(entries.deep_view() =~= before + seq![chars@.subrange(a as int, b as int)]);
                }
            },
            None => {},
        }
        if end >= n {
            proof {
                assert(entries.deep_view() + Seq::<Seq<char>>::empty() =~= entries.deep_view());
            }
            break ;
        }
        proof {
            assert(rest.skip(end - pos + 1) =~= chars@.skip(end + 1));
            let head = match listing_name(rest.take(end - pos)) {
                Some(name) => seq![name],
                None => Seq::empty(),
            };
            assert(listing_entries(rest) == head + listing_entries(chars@.skip(end + 1)));
            assert(before + (head + listing_entries(chars@.skip(end + 1))) =~= (before + head)
                + listing_entries(chars@.skip(end + 1)));
        }
        pos = end + 1;
    }
    entries
}

/// The latest version among the entries of `history`; entries that are no
/// version are passed over, and `None` means that no entry is one.
pub fn get_latest_version(history: &[String]) -> (latest: Option<Version>)
    ensures
        latest == latest_version(history.deep_view()),
        is_greatest(history.deep_view(), latest),
{
    let mut latest: Option<Version> = None;
    let mut i: usize = 0;
    assert(history.deep_view().take(0) =~= Seq::<Seq<char>>::empty());
    while i < history.len()
        invariant
            i <= history.len(),
            latest == latest_version(history.deep_view().take(i as int)),
        decreases history.len() - i,
    {
        proof {
            let done = history.deep_view().take(i + 1);
            assert(done.drop_last() =~= history.deep_view().take(i as int));
            assert(done.last() == history[i as int]@);
        }
        match Version::from_str(history[i].as_str()) {
            Some(v) => {
                latest = match latest {
                    Some(m) => if m.precedes(&v) {
                        Some(v)
                    } else {
                        Some(m)
                    },
                    None => Some(v),
                };
            },
            None => {},
        }
        i = i + 1;
    }
    proof {
        assert(history.deep_view().take(i as int) =~= history.deep_view());
        lemma_latest_is_greatest(history.deep_view());
    }
    latest
}

} // verus!
