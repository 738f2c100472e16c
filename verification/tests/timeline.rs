use twixter::config::Config;
use twixter::entry::Entry;
use twixter::heap::EntryHeap;
use twixter::timeline::{merge, read_feeds, render_all, timeline, Feed};
use twixter::timestamp::Timestamp;

fn stamp(secs: i64) -> Timestamp {
    Timestamp::new(secs, 0, 0).unwrap()
}

fn entry(secs: i64, nick: &str) -> Entry {
    Entry::at(stamp(secs), format!("at {}", secs), Some(nick.to_string()))
}

fn config(limit: i32, absolute: bool) -> Config {
    Config {
        nick: "me".to_string(),
        twtfile: "/tmp/twtxt.txt".to_string(),
        twturl: "http://example.org/me.txt".to_string(),
        pre_tweet_hook: String::new(),
        post_tweet_hook: String::new(),
        limit_timeline: limit,
        use_abs_time: absolute,
        following: vec![],
    }
}

fn seconds(entries: &Vec<Entry>) -> Vec<i64> {
    entries.iter().map(|entry| entry.timestamp.secs).collect()
}

#[test]
fn merge_takes_the_newest_of_two_feeds() {
    let a = vec![entry(10, "a"), entry(50, "a"), entry(30, "a")];
    let b = vec![entry(40, "b"), entry(20, "b")];
    let newest = merge(vec![a, b], 4);
    assert_eq!(seconds(&newest), vec![50, 40, 30, 20]);
    assert_eq!(newest[0].author, Some("a".to_string()));
    assert_eq!(newest[1].author, Some("b".to_string()));
    assert_eq!(newest[1].content, "at 40");
}

#[test]
fn merge_with_limit_zero_gives_nothing() {
    let a = vec![entry(10, "a"), entry(50, "a")];
    assert_eq!(merge(vec![a, vec![entry(5, "b")]], 0), vec![]);
    assert_eq!(merge(vec![], 0), vec![]);
}

#[test]
fn merge_with_a_wide_limit_gives_everything() {
    let a = vec![entry(10, "a"), entry(50, "a"), entry(30, "a")];
    let b = vec![entry(40, "b"), entry(20, "b")];
    let newest = merge(vec![a, vec![], b], 100);
    assert_eq!(
        newest,
        vec![entry(50, "a"), entry(40, "b"), entry(30, "a"), entry(20, "b"), entry(10, "a")]
    );
    assert_eq!(merge(vec![vec![entry(1, "x")]], usize::MAX), vec![entry(1, "x")]);
}

#[test]
fn merge_of_nothing_gives_nothing() {
    assert_eq!(merge(vec![], 10), vec![]);
    assert_eq!(merge(vec![vec![], vec![]], 10), vec![]);
}

#[test]
fn merge_keeps_entries_with_equal_timestamps() {
    let a = vec![entry(10, "a"), entry(10, "a")];
    let b = vec![entry(10, "b"), entry(20, "b")];
    let newest = merge(vec![a, b], 3);
    assert_eq!(seconds(&newest), vec![20, 10, 10]);
    let all = merge(vec![vec![entry(10, "a"), entry(10, "a")], vec![entry(10, "b")]], 5);
    let mut names: Vec<String> = all.iter().map(|entry| entry.author.clone().unwrap()).collect();
    names.sort();
    assert_eq!(names, vec!["a", "a", "b"]);
}

#[test]
fn merge_gives_the_same_order_every_time() {
    let feeds = || vec![vec![entry(10, "a"), entry(10, "b"), entry(10, "c")], vec![entry(10, "d")]];
    assert_eq!(merge(feeds(), 4), merge(feeds(), 4));
}

#[test]
fn merge_orders_by_the_fraction_of_a_second_too() {
    let early = Entry::at(Timestamp::new(10, 1, 0).unwrap(), "early".to_string(), None);
    let late = Entry::at(Timestamp::new(10, 2, 3_600).unwrap(), "late".to_string(), None);
    let newest = merge(vec![vec![early.clone()], vec![late.clone()]], 2);
    assert_eq!(newest, vec![late, early]);
}

#[test]
fn merge_of_many_entries_is_sorted() {
    let mut feed = vec![];
    let mut seed: i64 = 12345;
    for _ in 0..500 {
        seed = (seed * 1_103_515_245 + 12_345) % 2_147_483_648;
        feed.push(entry(seed % 1_000, "r"));
    }
    let mut expected = seconds(&feed);
    expected.sort();
    expected.reverse();
    expected.truncate(200);
    assert_eq!(seconds(&merge(vec![feed], 200)), expected);
}

#[test]
fn a_heap_hands_out_the_newest_first() {
    let mut heap = EntryHeap::new();
    assert!(heap.is_empty());
    assert_eq!(heap.pop(), None);
    for secs in [5, 1, 9, 3, 7, 9, 2] {
        heap.push(entry(secs, "h"));
    }
    assert_eq!(heap.len(), 7);
    let mut out = vec![];
    while let Some(entry) = heap.pop() {
        out.push(entry.timestamp.secs);
    }
    assert_eq!(out, vec![9, 9, 7, 5, 3, 2, 1]);
    assert_eq!(heap.len(), 0);
}

#[test]
fn a_failed_fetch_leaves_the_other_feeds_in_the_timeline() {
    let feeds = vec![
        Feed { nick: "gone".to_string(), body: None },
        Feed {
            nick: "here".to_string(),
            body: Some("2016-02-04T12:30:01Z\tstill here\n".to_string()),
        },
    ];
    let now = Timestamp::new(1454589001 + 3_600, 0, 0).unwrap();
    assert_eq!(timeline(&config(10, false), &feeds, &now), vec!["@here 1 hour ago\nstill here"]);
    let none = vec![Feed { nick: "gone".to_string(), body: None }];
    assert_eq!(timeline(&config(10, false), &none, &now), Vec::<String>::new());
}

#[test]
fn the_own_feed_is_shown_under_the_own_name() {
    let own = config(5, true);
    let sources = own.sources();
    assert_eq!(sources.len(), 1);
    let feeds = vec![Feed {
        nick: sources[0].nick.clone(),
        body: Some("2016-02-04T12:30:01Z\tmine\n".to_string()),
    }];
    let now = Timestamp::new(1_500_000_000, 0, 3_600).unwrap();
    assert_eq!(timeline(&own, &feeds, &now), vec!["@me 2016-02-04T13:30:01+01:00\nmine"]);
}

#[test]
fn the_timeline_shows_the_newest_up_to_the_limit() {
    let feeds = vec![
        Feed {
            nick: "a".to_string(),
            body: Some(
                "2016-02-04T12:00:00Z\ta1\nbroken\n2016-02-04T12:00:30Z\ta2\n2016-02-04T11:00:00Z\ta3\n"
                    .to_string(),
            ),
        },
        Feed {
            nick: "b".to_string(),
            body: Some("2016-02-04T12:00:10Z\tb1\r\n2016-02-04T10:00:00Z\tb2".to_string()),
        },
    ];
    let now = Timestamp::new(1454587230, 0, 0).unwrap();
    assert_eq!(
        timeline(&config(4, false), &feeds, &now),
        vec![
            "@a just now\na2",
            "@b just now\nb1",
            "@a just now\na1",
            "@a 1 hour ago\na3",
        ]
    );
    assert_eq!(timeline(&config(0, false), &feeds, &now), Vec::<String>::new());
    assert_eq!(timeline(&config(-3, false), &feeds, &now), Vec::<String>::new());
    assert_eq!(timeline(&config(i32::MAX, true), &feeds, &now).len(), 5);
}

#[test]
fn feeds_are_read_source_by_source() {
    let feeds = vec![
        Feed { nick: "a".to_string(), body: Some("2016-02-04T12:00:00Z\ta1\n".to_string()) },
        Feed { nick: "b".to_string(), body: None },
        Feed { nick: "c".to_string(), body: Some("nothing".to_string()) },
    ];
    let read = read_feeds(&feeds);
    assert_eq!(read.len(), 3);
    assert_eq!(read[0], vec![Entry::at(stamp(1454587200), "a1".to_string(), Some("a".to_string()))]);
    assert_eq!(read[1], vec![]);
    assert_eq!(read[2], vec![]);
}

#[test]
fn entries_are_shown_one_for_one() {
    let entries = vec![entry(100, "a"), entry(40, "b")];
    let now = stamp(160);
    assert_eq!(
        render_all(&entries, &now, false),
        vec!["@a 1 minute ago\nat 100", "@b 2 minutes ago\nat 40"]
    );
    assert_eq!(
        render_all(&entries, &now, true),
        vec!["@a 1970-01-01T00:01:40Z\nat 100", "@b 1970-01-01T00:00:40Z\nat 40"]
    );
}
