use twixter::entry::Entry;
use twixter::feed::decode_feed;
use twixter::text::{chars_of, find_first, find_from, string_of};
use twixter::timestamp::Timestamp;

fn stamp(secs: i64, offset: i32) -> Timestamp {
    Timestamp::new(secs, 0, offset).unwrap()
}

#[test]
fn a_feed_gives_its_entries_in_the_order_of_its_lines() {
    let body = "2016-02-04T12:30:01Z\tfirst\n2016-02-03T12:30:01+01:00\tsecond\n";
    assert_eq!(
        decode_feed(body, "alice"),
        vec![
            Entry::at(stamp(1454589001, 0), "first".to_string(), Some("alice".to_string())),
            Entry::at(
                stamp(1454589001 - 86_400 - 3_600, 3_600),
                "second".to_string(),
                Some("alice".to_string())
            ),
        ]
    );
}

#[test]
fn a_feed_passes_over_lines_that_are_no_entries() {
    let body = "# a comment\n\nno tab here\nnot-a-timestamp\tcontent\n2016-02-04T12:30:01Z\tkept\n2016-02-04T12:30:01\tnaive\n";
    let entries = decode_feed(body, "bob");
    assert_eq!(entries.len(), 1);
    assert_eq!(entries[0].content, "kept");
    assert_eq!(entries[0].author, Some("bob".to_string()));
}

#[test]
fn a_feed_without_valid_lines_gives_no_entries() {
    assert_eq!(decode_feed("", "x"), vec![]);
    assert_eq!(decode_feed("\n\n\n", "x"), vec![]);
    assert_eq!(decode_feed("<html>404</html>", "x"), vec![]);
}

#[test]
fn the_last_line_needs_no_line_feed() {
    let entries = decode_feed("2016-02-04T12:30:01Z\tone\n2016-02-04T12:30:02Z\ttwo", "x");
    assert_eq!(entries.len(), 2);
    assert_eq!(entries[1].content, "two");
}

#[test]
fn a_carriage_return_before_the_line_feed_is_no_content() {
    let entries = decode_feed("2016-02-04T12:30:01Z\tone\r\n2016-02-04T12:30:02Z\ttwo\r", "x");
    assert_eq!(entries.len(), 2);
    assert_eq!(entries[0].content, "one");
    assert_eq!(entries[1].content, "two\r");
}

#[test]
fn only_one_carriage_return_is_taken_off() {
    let entries = decode_feed("2016-02-04T12:30:01Z\tone\r\r\n", "x");
    assert_eq!(entries.len(), 1);
    assert_eq!(entries[0].content, "one\r");
}

#[test]
fn a_record_decodes_to_its_entry() {
    let entry = Entry::at(stamp(1454589001, -7_200), "round\ttrip".to_string(), Some("me".to_string()));
    assert_eq!(decode_feed(&entry.to_twtxt(), "me"), vec![entry]);
}

#[test]
fn records_appended_to_a_feed_decode_in_order() {
    let first = Entry::at(stamp(100, 0), "a".to_string(), Some("me".to_string()));
    let second = Entry::at(stamp(50, 3_600), "b".to_string(), Some("me".to_string()));
    let mut body = first.to_twtxt();
    body.push_str(&second.to_twtxt());
    assert_eq!(decode_feed(&body, "me"), vec![first, second]);
}

#[test]
fn the_first_mark_is_found_by_characters() {
    assert_eq!(find_first("ab\tcd\t", '\t'), Some(2));
    assert_eq!(find_first("\t", '\t'), Some(0));
    assert_eq!(find_first("abc", '\t'), None);
    assert_eq!(find_first("", '\t'), None);
    assert_eq!(find_first("éé\tx", '\t'), Some(2));
}

#[test]
fn a_mark_is_found_from_a_place_on() {
    let chars: Vec<char> = "a\nbc\nd".chars().collect();
    assert_eq!(find_from(&chars, 0, '\n'), 1);
    assert_eq!(find_from(&chars, 1, '\n'), 1);
    assert_eq!(find_from(&chars, 2, '\n'), 4);
    assert_eq!(find_from(&chars, 5, '\n'), 6);
    assert_eq!(find_from(&chars, 6, '\n'), 6);
}

#[test]
fn texts_and_characters_convert_both_ways() {
    let chars = chars_of("héllo\t!");
    assert_eq!(chars, vec!['h', 'é', 'l', 'l', 'o', '\t', '!']);
    assert_eq!(string_of(&chars, 0, 7), "héllo\t!");
    assert_eq!(string_of(&chars, 1, 3), "él");
    assert_eq!(string_of(&chars, 4, 4), "");
}
