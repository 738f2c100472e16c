//! Character-level helpers: finding a separator, and moving between
//! strings and their characters.

use vstd::prelude::*;
use vstd::string::StrSliceExecFns;

verus! {

/// `at` is the place of the first `mark` in `text`.
pub open spec fn is_first(text: Seq<char>, mark: char, at: int) -> bool {
    &&& 0 <= at < text.len()
    &&& text[at] == mark
    &&& forall|j: int| 0 <= j < at ==> text[j] != mark
}

/// The place of the first `mark` in `text`, if it holds one.
pub open spec fn first_at(text: Seq<char>, mark: char) -> Option<int> {
    if exists|at: int| is_first(text, mark, at) {
        Some(choose|at: int| is_first(text, mark, at))
    } else {
        None
    }
}

/// A text has its first `mark` in one place only.
pub proof fn lemma_first_is(text: Seq<char>, mark: char, at: int)
    requires
        is_first(text, mark, at),
    ensures
        first_at(text, mark) == Some(at),
{
    let other = choose|other: int| is_first(text, mark, other);
    assert(other == at) by {
        if other < at {
            assert(text[other] != mark);
        }
        if at < other {
            assert(text[at] != mark);
        }
    }
}

/// Where `first_at` finds a place, it is the first of the mark.
pub proof fn lemma_first_at_found(text: Seq<char>, mark: char)
    ensures
        first_at(text, mark) matches Some(at) ==> is_first(text, mark, at),
{
}

/// Finds the first `mark` of `line`, counted in characters.
pub fn find_first(line: &str, mark: char) -> (r: Option<usize>)
    ensures
        match r {
            Some(at) => first_at(line@, mark) == Some(at as int),
            None => first_at(line@, mark) is None,
        },
{
    let len: usize = line.unicode_len();
    let mut at: usize = 0;
    for c in it: line.chars()
        invariant
            at == it.index(),
            it.seq() == line@,
            len == line@.len(),
            forall|j: int| 0 <= j < at ==> line@[j] != mark,
    {
        if c == mark {
            proof {
                lemma_first_is(line@, mark, at as int);
            }
            return Some(at);
        }
        at = at + 1;
    }
    None
}

/// Finds the first `mark` among `chars[start..]`; the length where there is
/// none.
pub fn find_from(chars: &Vec<char>, start: usize, mark: char) -> (at: usize)
    requires
        start <= chars.len(),
    ensures
        start <= at <= chars.len(),
        at < chars.len() ==> first_at(chars@.skip(start as int), mark) == Some(at - start),
        at == chars.len() ==> first_at(chars@.skip(start as int), mark) is None,
{
    let mut at: usize = start;
    while at < chars.len()
        invariant
            start <= at <= chars.len(),
            forall|j: int| start <= j < at ==> chars@[j] != mark,
        decreases chars.len() - at,
    {
        if chars[at] == mark {
            proof {
                let rest = chars@.skip(start as int);
                assert(is_first(rest, mark, at - start));
                lemma_first_is(rest, mark, at - start);
            }
            return at;
        }
        at = at + 1;
    }
    proof {
        let rest = chars@.skip(start as int);
        assert forall|k: int| !is_first(rest, mark, k) by {
            if 0 <= k < rest.len() {
                assert(rest[k] == chars@[start + k]);
            }
        }
    }
    at
}

/// The characters of a text, one by one.
pub fn chars_of(text: &str) -> (chars: Vec<char>)
    ensures
        chars@ == text@,
{
    let mut chars: Vec<char> = Vec::new();
    for c in it: text.chars()
        invariant
            it.seq() == text@,
            chars@ == text@.take(it.index()),
    {
        chars.push(c);
        assert(chars@ =~= text@.take(it.index() + 1));
    }
    assert(chars@ =~= text@);
    chars
}

/// Appends one character with `String::push`.
///
/// Trusted: the string afterwards is the string before, followed by `c`.
#[verifier::external_body]
fn push_char(text: &mut String, c: char)
    ensures
        final(text)@ == old(text)@.push(c),
{
    text.push(c);
}

/// The string of `chars[from..to]`.
pub fn string_of(chars: &Vec<char>, from: usize, to: usize) -> (text: String)
    requires
        from <= to <= chars.len(),
    ensures
        text@ == chars@.subrange(from as int, to as int),
{
    let mut text = String::new();
    let mut at: usize = from;
    while at < to
        invariant
            from <= at <= to <= chars.len(),
            text@ == chars@.subrange(from as int, at as int),
        decreases to - at,
    {
        push_char(&mut text, chars[at]);
        at = at + 1;
        assert(text@ =~= chars@.subrange(from as int, at as int));
    }
    text
}

} // verus!
