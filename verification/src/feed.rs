//! The body of a feed: its lines, and the entries they stand for.

use crate::entry::{parse_line, Entry, EntryView};
use crate::text::{chars_of, find_from, first_at, is_first, lemma_first_at_found, lemma_first_is, string_of};
use vstd::prelude::*;

verus! {

/// A line without the carriage return that may close it.
pub open spec fn strip_cr(line: Seq<char>) -> Seq<char> {
    if line.len() > 0 && line.last() == '\r' {
        line.drop_last()
    } else {
        line
    }
}

/// The first line of a body that is not empty. Up to the first line feed it
/// is a line of its own, less a carriage return before the line feed; a
/// body without a line feed is one line as it stands.
pub open spec fn first_line(body: Seq<char>) -> Seq<char> {
    match first_at(body, '\n') {
        Some(at) => strip_cr(body.take(at)),
        None => body,
    }
}

/// What follows the first line of a body.
pub open spec fn after_first_line(body: Seq<char>) -> Seq<char> {
    match first_at(body, '\n') {
        Some(at) => body.skip(at + 1),
        None => Seq::<char>::empty(),
    }
}

/// The entries of one line under a label: the entry it stands for, or none.
pub open spec fn line_entries(line: Seq<char>, label: Seq<char>) -> Seq<EntryView> {
    match parse_line(line, Some(label)) {
        Some(entry) => seq![entry],
        None => Seq::<EntryView>::empty(),
    }
}

/// The entries of a body under a label, in the order of its lines. Lines
/// that stand for no entry leave no trace.
pub open spec fn decode(body: Seq<char>, label: Seq<char>) -> Seq<EntryView>
    decreases body.len(),
    via decode_terminates
{
    if body.len() == 0 {
        Seq::<EntryView>::empty()
    } else {
        line_entries(first_line(body), label) + decode(after_first_line(body), label)
    }
}

#[via_fn]
proof fn decode_terminates(body: Seq<char>, label: Seq<char>) {
    if body.len() > 0 {
        lemma_rest_is_shorter(body);
    }
}

/// The views of a run of entries.
pub open spec fn views(entries: Seq<Entry>) -> Seq<EntryView> {
    entries.map_values(|entry: Entry| entry@)
}

/// What follows the first line is shorter than the body.
pub proof fn lemma_rest_is_shorter(body: Seq<char>)
    requires
        body.len() > 0,
    ensures
        after_first_line(body).len() < body.len(),
{
    lemma_first_at_found(body, '\n');
}

/// A body of one record, a line closed by a line feed, holds what that line
/// stands for and nothing else, provided the line has no line feed of its
/// own and does not end in a carriage return.
pub proof fn lemma_decode_record(line: Seq<char>, label: Seq<char>)
    requires
        forall|i: int| 0 <= i < line.len() ==> line[i] != '\n',
        line.len() > 0 ==> line.last() != '\r',
    ensures
        decode(line.push('\n'), label) == line_entries(line, label),
{
    let body = line.push('\n');
    let at = line.len() as int;
    assert(is_first(body, '\n', at));
    lemma_first_is(body, '\n', at);
    assert(body.take(at) =~= line);
    assert(body.skip(at + 1) =~= Seq::<char>::empty());
    assert(decode(Seq::<char>::empty(), label) =~= Seq::<EntryView>::empty());
    assert(decode(body, label) =~= line_entries(line, label));
}

/// Every entry of a feed is shown under the label the feed was read with,
/// whatever its lines hold.
pub proof fn lemma_decode_labels(body: Seq<char>, label: Seq<char>, i: int)
    requires
        0 <= i < decode(body, label).len(),
    ensures
        decode(body, label)[i].author == Some(label),
    decreases body.len(),
{
    lemma_rest_is_shorter(body);
    let first = line_entries(first_line(body), label);
    if i >= first.len() {
        lemma_decode_labels(after_first_line(body), label, i - first.len());
    }
}

/// Reads the entries of a feed's body, each shown under `nick`.
///
/// Every line that stands for an entry gives one, in the order of the
/// lines; the others are passed over.
pub fn decode_feed(body: &str, nick: &str) -> (entries: Vec<Entry>)
    ensures
        views(entries@) == decode(body@, nick@),
        forall|i: int|
            0 <= i < entries.len() ==> (#[trigger] entries[i]).wf()
                && entries[i].timestamp.four_digit_year(),
{
    let chars = chars_of(body);
    let mut entries: Vec<Entry> = Vec::new();
    let mut start: usize = 0;
    assert(chars@.skip(0) =~= chars@);
    assert(views(entries@) =~= Seq::<EntryView>::empty());
    while start < chars.len()
        invariant
            start <= chars.len(),
            chars@ == body@,
            views(entries@) + decode(chars@.skip(start as int), nick@) == decode(body@, nick@),
            forall|i: int|
                0 <= i < entries.len() ==> (#[trigger] entries[i]).wf()
                    && entries[i].timestamp.four_digit_year(),
        decreases chars.len() - start,
    {
        let ghost rest = chars@.skip(start as int);
        let ghost before = entries@;
        let end = find_from(&chars, start, '\n');
        let closed = end < chars.len();
        let stop = if closed && end > start && chars[end - 1] == '\r' {
            end - 1
        } else {
            end
        };
        let next = if closed {
            end + 1
        } else {
            end
        };
        let line = string_of(&chars, start, stop);
        proof {
            lemma_rest_is_shorter(rest);
            if closed {
                assert(rest.take(end - start) =~= chars@.subrange(start as int, end as int));
                assert(line@ =~= first_line(rest));
                assert(rest.skip(end - start + 1) =~= chars@.skip(next as int));
            } else {
                assert(line@ =~= rest);
                assert(chars@.skip(next as int) =~= Seq::<char>::empty());
            }
            assert(after_first_line(rest) == chars@.skip(next as int));
        }
        match Entry::parse(line.as_str(), Some(nick)) {
            Ok(entry) => {
                entries.push(entry);
                assert(views(entries@) =~= views(before) + line_entries(line@, nick@));
            },
            Err(_) => {
                assert(views(entries@) =~= views(before) + line_entries(line@, nick@));
            },
        }
        assert(views(entries@) + decode(chars@.skip(next as int), nick@) =~= views(before)
            + decode(rest, nick@));
        start = next;
    }
    assert(decode(chars@.skip(start as int), nick@) =~= Seq::<EntryView>::empty());
    assert(views(entries@) =~= decode(body@, nick@));
    entries
}

} // verus!
