use twixter::duration::{append_decimal, bucket_of, format_seconds, Duration, Unit};
use twixter::entry::Entry;

#[test]
fn elapsed_time_falls_into_its_bucket() {
    assert_eq!(format_seconds(30), "just now");
    assert_eq!(format_seconds(60), "1 minute ago");
    assert_eq!(format_seconds(5 * 60), "5 minutes ago");
    assert_eq!(format_seconds(3_600), "1 hour ago");
    assert_eq!(format_seconds(23 * 3_600), "23 hours ago");
    assert_eq!(format_seconds(86_400), "1 day ago");
    assert_eq!(format_seconds(4 * 86_400), "4 days ago");
    assert_eq!(format_seconds(7 * 86_400), "1 week ago");
    assert_eq!(format_seconds(28 * 86_400), "4 weeks ago");
    assert_eq!(format_seconds(30 * 86_400), "1 month ago");
    assert_eq!(format_seconds(90 * 86_400), "3 months ago");
    assert_eq!(format_seconds(365 * 86_400), "1 year ago");
    assert_eq!(format_seconds(730 * 86_400), "2 years ago");
}

#[test]
fn buckets_change_at_their_edges() {
    assert_eq!(format_seconds(0), "just now");
    assert_eq!(format_seconds(59), "just now");
    assert_eq!(format_seconds(119), "1 minute ago");
    assert_eq!(format_seconds(120), "2 minutes ago");
    assert_eq!(format_seconds(3_599), "59 minutes ago");
    assert_eq!(format_seconds(86_399), "23 hours ago");
    assert_eq!(format_seconds(6 * 86_400 + 86_399), "6 days ago");
    assert_eq!(format_seconds(29 * 86_400 + 86_399), "4 weeks ago");
    assert_eq!(format_seconds(364 * 86_400 + 86_399), "12 months ago");
    assert_eq!(format_seconds(729 * 86_400 + 86_399), "1 year ago");
}

#[test]
fn a_span_that_runs_backwards_is_just_now() {
    assert_eq!(format_seconds(-1), "just now");
    assert_eq!(format_seconds(-86_400 * 400), "just now");
    assert_eq!(format_seconds(i64::MIN), "just now");
    assert_eq!(Entry::format_duration(Duration::days(-3)), "just now");
}

#[test]
fn the_longest_span_is_told_in_years() {
    assert_eq!(format_seconds(i64::MAX), "292471208677 years ago");
}

#[test]
fn bucket_of_gives_count_and_unit() {
    assert_eq!(bucket_of(59), None);
    assert_eq!(bucket_of(60), Some((1, Unit::Minute)));
    assert_eq!(bucket_of(7_200), Some((2, Unit::Hour)));
    assert_eq!(bucket_of(2 * 86_400), Some((2, Unit::Day)));
    assert_eq!(bucket_of(15 * 86_400), Some((2, Unit::Week)));
    assert_eq!(bucket_of(100 * 86_400), Some((3, Unit::Month)));
    assert_eq!(bucket_of(1_000 * 86_400), Some((2, Unit::Year)));
}

#[test]
fn units_have_their_length_and_label() {
    assert_eq!(Unit::Year.length(), 365 * 86_400);
    assert_eq!(Unit::Month.length(), 30 * 86_400);
    assert_eq!(Unit::Week.length(), 7 * 86_400);
    assert_eq!(Unit::Day.length(), 86_400);
    assert_eq!(Unit::Hour.length(), 3_600);
    assert_eq!(Unit::Minute.length(), 60);
    assert_eq!(Unit::Year.label(), "year");
    assert_eq!(Unit::Month.label(), "month");
    assert_eq!(Unit::Week.label(), "week");
    assert_eq!(Unit::Day.label(), "day");
    assert_eq!(Unit::Hour.label(), "hour");
    assert_eq!(Unit::Minute.label(), "minute");
}

#[test]
fn numbers_are_written_in_decimal() {
    let mut text = String::from("n=");
    append_decimal(&mut text, 0);
    append_decimal(&mut text, 7);
    append_decimal(&mut text, 10);
    append_decimal(&mut text, 1_234_567_890);
    assert_eq!(text, "n=07101234567890");
    let mut most = String::new();
    append_decimal(&mut most, u64::MAX);
    assert_eq!(most, "18446744073709551615");
}

#[test]
fn spans_are_built_from_their_units() {
    assert_eq!(Duration::seconds(-5).secs, -5);
    assert_eq!(Duration::minutes(2).secs, 120);
    assert_eq!(Duration::hours(2).secs, 7_200);
    assert_eq!(Duration::days(2).secs, 172_800);
    assert_eq!(Duration::weeks(2).secs, 1_209_600);
}
