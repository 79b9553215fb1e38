//! The optional list of files that are expected to be unchanged.
//!
//! The list comes as lines of text, one path each. It plays no part in the
//! score: it only asks how many of its files match in each commit.

use crate::snapshot::views_of;
use crate::text::{replace_char, with_replaced};
use vstd::prelude::*;

verus! {

/// `text` without the whitespace at its two ends, as `str::trim` gives it.
pub uninterp spec fn trimmed(text: Seq<char>) -> Seq<char>;

/// `text` without the whitespace at its two ends.
///
/// Trusted: `str::trim`. The result is named, not described.
#[verifier::external_body]
fn trim(text: &str) -> (r: &str)
    ensures
        r@ == trimmed(text@),
{
    text.trim()
}

/// Whether a line holds nothing but whitespace.
pub open spec fn is_blank(line: Seq<char>) -> bool {
    trimmed(line).len() == 0
}

/// The hint that a line that is not blank stands for: the line as it is, with
/// slashes as separators.
pub open spec fn hint_of(line: Seq<char>) -> Seq<char> {
    with_replaced(line, '\\', '/')
}

/// The hints that the lines of a list stand for, in the order of the lines.
pub open spec fn hints_of(lines: Seq<Seq<char>>) -> Seq<Seq<char>> {
    lines.filter(|line: Seq<char>| !is_blank(line)).map_values(|line: Seq<char>| hint_of(line))
}

/// The hint that a line stands for, given the line as it is and without the
/// whitespace at its ends: none where nothing is left of it.
pub fn hint_from_trimmed(line: &str, without_ends: &str) -> (r: Option<String>)
    ensures
        match r {
            Some(hint) => without_ends@.len() != 0 && hint@ == hint_of(line@),
            None => without_ends@.len() == 0,
        },
{
    if without_ends.is_empty() {
        None
    } else {
        Some(replace_char(line, '\\', '/'))
    }
}

/// The hint that a line stands for: none for a blank line.
pub fn hint_from_line(line: &str) -> (r: Option<String>)
    ensures
        match r {
            Some(hint) => !is_blank(line@) && hint@ == hint_of(line@),
            None => is_blank(line@),
        },
{
    hint_from_trimmed(line, trim(line))
}

/// Reads a hint list from its lines: blank lines are passed over, and every
/// other line is one hint.
pub fn parse_hint_list(lines: &Vec<String>) -> (hint_list: Vec<String>)
    ensures
        views_of(hint_list@) == hints_of(views_of(lines@)),
{
    let ghost all = views_of(lines@);
    let ghost kept = |line: Seq<char>| !is_blank(line);
    let ghost to_hint = |line: Seq<char>| hint_of(line);
    let mut hint_list: Vec<String> = Vec::new();
    let mut i: usize = 0;
    proof {
        reveal(Seq::filter);
        assert(all.take(0) =~= Seq::<Seq<char>>::empty());
        assert(views_of(hint_list@) =~= all.take(0).filter(kept).map_values(to_hint));
    }
    while i < lines.len()
        invariant
            i <= lines.len(),
            all == views_of(lines@),
            kept == |line: Seq<char>| !is_blank(line),
            to_hint == |line: Seq<char>| hint_of(line),
            views_of(hint_list@) == all.take(i as int).filter(kept).map_values(to_hint),
        decreases lines.len() - i,
    {
        let ghost before = views_of(hint_list@);
        proof {
            reveal(Seq::filter);
            assert(all.take(i + 1).drop_last() =~= all.take(i as int));
            assert(all.take(i + 1).last() == lines[i as int]@);
        }
        match hint_from_line(lines[i].as_str()) {
            Some(hint) => {
                hint_list.push(hint);
                proof {
                    assert(views_of(hint_list@) =~= before.push(hint@));
                    assert(all.take(i + 1).filter(kept).map_values(to_hint) =~= all.take(
                        i as int,
                    ).filter(kept).map_values(to_hint).push(hint@));
                }
            },
            None => {},
        }
        i += 1;
    }
    proof {
        assert(all.take(i as int) =~= all);
    }
    hint_list
}

} // verus!
