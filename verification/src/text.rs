//! Small string utilities over the character view of `str` and `String`.

use vstd::prelude::*;

verus! {

/// The text that an optional string holds.
pub open spec fn optional_text(s: Option<String>) -> Option<Seq<char>> {
    match s {
        Some(text) => Some(text@),
        None => None,
    }
}

/// Appends one character to a string.
///
/// Trusted: `String::push`, which appends the given `char` to the end of the string.
#[verifier::external_body]
pub(crate) fn push_char(s: &mut String, c: char)
    ensures
        final(s)@ == old(s)@.push(c),
{
    s.push(c)
}

/// The characters of `s`, in order.
pub fn chars_of(s: &str) -> (r: Vec<char>)
    ensures
        r@ == s@,
{
    let mut out: Vec<char> = Vec::new();
    for c in it: s.chars()
        invariant
            out@ == it.seq().take(it.index() as int),
            it.seq() == s@,
    {
        out.push(c);
    }
    out
}

/// Whether `text` reads `word` from position `at` on.
pub open spec fn reads(text: Seq<char>, at: int, word: Seq<char>) -> bool {
    0 <= at && at + word.len() <= text.len() && text.subrange(at, at + word.len()) == word
}

/// Whether `needle` occurs in `haystack` as a run of consecutive characters.
pub open spec fn occurs_in(needle: Seq<char>, haystack: Seq<char>) -> bool {
    exists|at: int| #[trigger] reads(haystack, at, needle)
}

/// `text` with every `from` replaced by `to`.
pub open spec fn with_replaced(text: Seq<char>, from: char, to: char) -> Seq<char> {
    text.map_values(
        |c: char|
            if c == from {
                to
            } else {
                c
            },
    )
}

/// Whether `prefix` is what `text` begins with.
pub fn begins_with(text: &Vec<char>, prefix: &Vec<char>) -> (r: bool)
    ensures
        r == prefix@.is_prefix_of(text@),
{
    if prefix.len() > text.len() {
        return false;
    }
    let mut i: usize = 0;
    while i < prefix.len()
        invariant
            i <= prefix.len() <= text.len(),
            prefix@.take(i as int) == text@.take(i as int),
        decreases prefix.len() - i,
    {
        if prefix[i] != text[i] {
            assert(prefix@[i as int] != text@.subrange(0, prefix@.len() as int)[i as int]);
            return false;
        }
        assert(prefix@.take(i as int + 1) =~= prefix@.take(i as int).push(prefix@[i as int]));
        assert(text@.take(i as int + 1) =~= text@.take(i as int).push(text@[i as int]));
        i += 1;
    }
    assert(prefix@.take(i as int) =~= prefix@);
    assert(text@.take(i as int) =~= text@.subrange(0, prefix@.len() as int));
    true
}

/// Whether the two strings hold the same text.
pub fn same_text(a: &str, b: &str) -> (r: bool)
    ensures
        r == (a@ == b@),
{
    let left = chars_of(a);
    let right = chars_of(b);
    let same = left.len() == right.len() && begins_with(&left, &right);
    proof {
        if same {
            assert(right@.subrange(0, right@.len() as int) =~= right@);
            assert(left@.subrange(0, right@.len() as int) =~= left@);
        }
        if a@ == b@ {
            assert(left@.subrange(0, right@.len() as int) =~= right@);
        }
    }
    same
}

/// Whether `text` at position `at` reads `word`.
fn reads_at(text: &Vec<char>, at: usize, word: &Vec<char>) -> (r: bool)
    requires
        at + word.len() <= text.len(),
    ensures
        r == (text@.subrange(at as int, at + word.len()) == word@),
{
    let mut k: usize = 0;
    while k < word.len()
        invariant
            k <= word.len(),
            at + word.len() <= text.len(),
            text@.subrange(at as int, at + k) == word@.take(k as int),
        decreases word.len() - k,
    {
        if text[at + k] != word[k] {
            assert(text@.subrange(at as int, at + word.len())[k as int] != word@[k as int]);
            return false;
        }
        assert(text@.subrange(at as int, at + k + 1) =~= text@.subrange(at as int, at + k).push(
            text@[at + k],
        ));
        assert(word@.take(k as int + 1) =~= word@.take(k as int).push(word@[k as int]));
        k += 1;
    }
    assert(word@.take(k as int) =~= word@);
    true
}

/// Whether `needle` occurs in `haystack`.
pub fn contains_text(haystack: &str, needle: &str) -> (r: bool)
    ensures
        r == occurs_in(needle@, haystack@),
{
    let text = chars_of(haystack);
    let word = chars_of(needle);
    let mut i: usize = 0;
    while i <= text.len() && text.len() - i >= word.len()
        invariant
            text@ == haystack@,
            word@ == needle@,
            forall|j: int| j < i ==> !#[trigger] reads(text@, j, word@),
        decreases text.len() + 1 - i,
    {
        if reads_at(&text, i, &word) {
            assert(reads(text@, i as int, word@));
            return true;
        }
        assert(word.len() > 0) by {
            assert(text@.subrange(i as int, i + 0) =~= Seq::<char>::empty());
            if word.len() == 0 {
                assert(word@ =~= Seq::<char>::empty());
            }
        }
        i += 1;
    }
    false
}

/// A copy of `text` in which every `from` is replaced by `to`.
pub fn replace_char(text: &str, from: char, to: char) -> (r: String)
    ensures
        r@ == with_replaced(text@, from, to),
{
    let mut out = String::new();
    for c in it: text.chars()
        invariant
            it.seq() == text@,
            out@ == with_replaced(text@.take(it.index() as int), from, to),
    {
        proof {
            assert(text@.take(it.index() + 1) =~= text@.take(it.index() as int).push(c));
        }
        push_char(
            &mut out,
            if c == from {
                to
            } else {
                c
            },
        );
        assert(out@ =~= with_replaced(text@.take(it.index() + 1), from, to));
    }
    assert(text@.take(text@.len() as int) =~= text@);
    out
}

} // verus!
