//! One post of a feed: its record on a line, and how it is shown.

use crate::duration::{duration_text, format_seconds, Duration};
use crate::feed::{decode, lemma_decode_record};
use crate::text::{find_first, first_at, is_first, lemma_first_is};
use crate::timestamp::{
    elapsed_seconds, format_rfc3339, local_now, parse_rfc3339, rfc3339_parse, rfc3339_text,
    seconds_between, single_field, Timestamp,
};
use vstd::prelude::*;
use vstd::string::{StrSliceExecFns, StringExecFns};

verus! {

/// One post: when it was written, under whose name it is shown, and what
/// it says.
#[derive(Clone, Debug, PartialEq, Eq)]
pub struct Entry {
    pub timestamp: Timestamp,
    pub author: Option<String>,
    pub content: String,
}

/// An entry as a value of characters.
pub struct EntryView {
    pub timestamp: Timestamp,
    pub author: Option<Seq<char>>,
    pub content: Seq<char>,
}

/// The characters of a name that may be absent.
pub open spec fn name_view(name: Option<String>) -> Option<Seq<char>> {
    match name {
        Some(text) => Some(text@),
        None => None,
    }
}

/// The characters of a borrowed name that may be absent.
pub open spec fn label_view(name: Option<&str>) -> Option<Seq<char>> {
    match name {
        Some(text) => Some(text@),
        None => None,
    }
}

impl View for Entry {
    type V = EntryView;

    open spec fn view(&self) -> EntryView {
        EntryView {
            timestamp: self.timestamp,
            author: name_view(self.author),
            content: self.content@,
        }
    }
}

/// The entry that a line stands for: the text before the first tab read as
/// a timestamp, everything after that tab as the content, untouched. A line
/// without a tab, or whose first field is no timestamp, stands for none.
pub open spec fn parse_line(line: Seq<char>, author: Option<Seq<char>>) -> Option<EntryView> {
    match first_at(line, '\t') {
        None => None,
        Some(at) => match rfc3339_parse(line.take(at)) {
            None => None,
            Some(timestamp) => Some(EntryView { timestamp, author, content: line.skip(at + 1) }),
        },
    }
}

/// The line of an entry: its timestamp, a tab, its content.
pub open spec fn twtxt_line(entry: EntryView) -> Seq<char> {
    rfc3339_text(entry.timestamp) + seq!['\t'] + entry.content
}

/// The record of an entry in a feed: its line, closed by a line feed.
pub open spec fn twtxt_record(entry: EntryView) -> Seq<char> {
    twtxt_line(entry).push('\n')
}

/// A content that a record holds on one line and a reader takes as it is: it
/// has no line feed, and does not end in a carriage return.
pub open spec fn one_line(content: Seq<char>) -> bool {
    &&& forall|i: int| 0 <= i < content.len() ==> content[i] != '\n'
    &&& content.len() > 0 ==> content.last() != '\r'
}

/// The time field of a shown entry: the timestamp under the offset of `now`
/// where `absolute` is set, else the time elapsed until `now` in words.
pub open spec fn time_field(timestamp: Timestamp, now: Timestamp, absolute: bool) -> Seq<char> {
    if absolute {
        rfc3339_text(timestamp.at_offset(now.offset))
    } else {
        duration_text(elapsed_seconds(now, timestamp))
    }
}

/// An entry as shown: `@`, the author or nothing, a space and the time
/// field on the first line, the content on the next.
pub open spec fn display_text(entry: EntryView, now: Timestamp, absolute: bool) -> Seq<char> {
    let author = match entry.author {
        Some(name) => name,
        None => Seq::<char>::empty(),
    };
    seq!['@'] + author + seq![' '] + time_field(entry.timestamp, now, absolute) + seq!['\n']
        + entry.content
}

/// A line made of a timestamp's text, a tab and a content is read back as
/// that timestamp and that content, provided the text holds no tab itself.
proof fn lemma_line_reads_back(stamp_text: Seq<char>, entry: EntryView)
    requires
        single_field(stamp_text),
        rfc3339_parse(stamp_text) == Some(entry.timestamp),
    ensures
        parse_line(stamp_text + seq!['\t'] + entry.content, entry.author) == Some(entry),
{
    let line = stamp_text + seq!['\t'] + entry.content;
    let at = stamp_text.len() as int;
    assert(is_first(line, '\t', at));
    lemma_first_is(line, '\t', at);
    assert(line.take(at) =~= stamp_text);
    assert(line.skip(at + 1) =~= entry.content);
}

impl Entry {
    /// The timestamp is one that can be printed and compared.
    pub open spec fn wf(&self) -> bool {
        self.timestamp.wf()
    }

    /// A new entry written now.
    pub fn new(content: String, author: Option<String>) -> (entry: Entry)
        ensures
            entry.wf(),
            entry.author == author,
            entry.content == content,
    {
        Entry::at(local_now(), content, author)
    }

    /// An entry written at `timestamp`.
    pub fn at(timestamp: Timestamp, content: String, author: Option<String>) -> (entry: Entry)
        ensures
            entry == (Entry { timestamp, author, content }),
    {
        Entry { timestamp, author, content }
    }

    /// Reads one line of a feed, and shows the entry under `author`.
    ///
    /// Fails where the line has no tab, and where the text before its first
    /// tab is no RFC 3339 date and time with an offset.
    pub fn parse(line: &str, author: Option<&str>) -> (r: Result<Entry, ()>)
        ensures
            match parse_line(line@, label_view(author)) {
                Some(read) => r matches Ok(entry) && entry@ == read && entry.wf()
                    && entry.timestamp.four_digit_year(),
                None => r is Err,
            },
    {
        let at = match find_first(line, '\t') {
            Some(at) => at,
            None => {
                return Err(());
            },
        };
        let len = line.unicode_len();
        let timestamp = match parse_rfc3339(line.substring_char(0, at)) {
            Some(timestamp) => timestamp,
            None => {
                return Err(());
            },
        };
        let content = line.substring_char(at + 1, len).to_owned();
        let author = match author {
            Some(name) => Some(name.to_owned()),
            None => None,
        };
        Ok(Entry { timestamp, author, content })
    }

    /// The record of this entry as a feed holds it.
    ///
    /// For an entry whose timestamp its text holds in full, the line of the
    /// record reads back as the entry itself; and where its content is
    /// `one_line` too, a feed of this record alone, read under the entry's
    /// author, holds this entry and no other.
    pub fn to_twtxt(&self) -> (record: String)
        requires
            self.wf(),
            self.timestamp.local_at(self.timestamp.offset),
        ensures
            record@ == twtxt_record(self@),
            self.timestamp.survives_text() ==> parse_line(twtxt_line(self@), self@.author) == Some(
                self@,
            ),
            self.timestamp.survives_text() && one_line(self.content@) ==> (self@.author matches Some(
                name,
            ) ==> decode(record@, name) == seq![self@]),
    {
        let mut record = format_rfc3339(&self.timestamp);
        proof {
            reveal_strlit("\t");
            reveal_strlit("\n");
            if self.timestamp.survives_text() {
                lemma_line_reads_back(record@, self@);
                if one_line(self.content@) && self@.author is Some {
                    let line = twtxt_line(self@);
                    assert(line.len() > 0 && (line.last() == '\t' || line.last()
                        == self.content@.last()));
                    lemma_decode_record(line, self@.author->0);
                }
            }
        }
        record.append("\t");
        record.append(self.content.as_str());
        record.append("\n");
        assert(record@ =~= twtxt_record(self@));
        record
    }

    /// Tells a span of time in words.
    pub fn format_duration(duration: Duration) -> (text: String)
        ensures
            text@ == duration_text(duration.secs as int),
    {
        format_seconds(duration.secs)
    }

    /// Shows the entry to a reader at `now`, with the time of writing under
    /// the reader's offset where `absolute` is set, else the time elapsed.
    pub fn render(&self, now: &Timestamp, absolute: bool) -> (shown: String)
        requires
            self.wf(),
            now.wf(),
            absolute ==> self.timestamp.local_at(now.offset),
        ensures
            shown@ == display_text(self@, *now, absolute),
    {
        proof {
            reveal_strlit("@");
            reveal_strlit(" ");
            reveal_strlit("\n");
        }
        let mut shown = String::from_str("@");
        match &self.author {
            Some(name) => {
                shown.append(name.as_str());
            },
            None => {},
        }
        shown.append(" ");
        if absolute {
            let local = Timestamp {
                secs: self.timestamp.secs,
                nanos: self.timestamp.nanos,
                offset: now.offset,
            };
            let field = format_rfc3339(&local);
            shown.append(field.as_str());
        } else {
            let field = format_seconds(seconds_between(now, &self.timestamp));
            shown.append(field.as_str());
        }
        shown.append("\n");
        shown.append(self.content.as_str());
        assert(shown@ =~= display_text(self@, *now, absolute));
        shown
    }
}

} // verus!
