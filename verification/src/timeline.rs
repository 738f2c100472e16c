//! The timeline: the newest entries of all feeds, newest first.

use crate::config::Config;
use crate::entry::{display_text, Entry, EntryView};
use crate::feed::{decode, decode_feed, views};
use crate::heap::{not_older, EntryHeap};
use crate::timestamp::Timestamp;
use vstd::multiset::Multiset;
use vstd::prelude::*;

verus! {

/// All the entries of a run of feeds, without their order.
pub open spec fn pooled(feeds: Seq<Seq<EntryView>>) -> Multiset<EntryView>
    decreases feeds.len(),
{
    if feeds.len() == 0 {
        Multiset::empty()
    } else {
        pooled(feeds.drop_last()).add(feeds.last().to_multiset())
    }
}

/// The entries of each feed as values of characters.
pub open spec fn feed_views(feeds: Seq<Vec<Entry>>) -> Seq<Seq<EntryView>> {
    feeds.map_values(|feed: Vec<Entry>| views(feed@))
}

/// No entry is followed by a newer one.
pub open spec fn newest_first(entries: Seq<EntryView>) -> bool {
    forall|i: int, j: int|
        0 <= i < j < entries.len() ==> not_older(
            (#[trigger] entries[i]).timestamp,
            (#[trigger] entries[j]).timestamp,
        )
}

/// The number of entries to show of a pool under a limit.
pub open spec fn shown_count(pool: Multiset<EntryView>, limit: nat) -> nat {
    if limit <= pool.len() {
        limit
    } else {
        pool.len()
    }
}

/// `chosen` is a timeline of `pool` under `limit`: as many entries of the
/// pool as the limit allows, each as often as the pool holds it at most,
/// newest first, and none of those left behind newer than one chosen.
pub open spec fn is_timeline(pool: Multiset<EntryView>, limit: nat, chosen: Seq<EntryView>) -> bool {
    &&& chosen.len() == shown_count(pool, limit)
    &&& chosen.to_multiset().subset_of(pool)
    &&& newest_first(chosen)
    &&& forall|left: EntryView, i: int|
        pool.sub(chosen.to_multiset()).count(left) > 0 && 0 <= i < chosen.len() ==> not_older(
            (#[trigger] chosen[i]).timestamp,
            #[trigger] left.timestamp,
        )
}

/// Under a limit of zero the timeline is empty, whatever the feeds hold.
pub proof fn lemma_zero_limit_shows_nothing(pool: Multiset<EntryView>, chosen: Seq<EntryView>)
    requires
        is_timeline(pool, 0, chosen),
    ensures
        chosen == Seq::<EntryView>::empty(),
{
    assert(chosen =~= Seq::<EntryView>::empty());
}

/// Under a limit that the pool does not reach, the timeline holds every
/// entry of the pool, each as often as the pool does, and nothing else.
pub proof fn lemma_wide_limit_shows_all(
    pool: Multiset<EntryView>,
    limit: nat,
    chosen: Seq<EntryView>,
)
    requires
        is_timeline(pool, limit, chosen),
        limit >= pool.len(),
    ensures
        chosen.to_multiset() == pool,
{
    broadcast use {
        vstd::multiset::group_multiset_axioms,
        vstd::multiset::group_multiset_properties,
    };

    let taken = chosen.to_multiset();
    vstd::seq_lib::to_multiset_len(chosen);
    let left = pool.sub(taken);
    assert(left.len() == 0);
    vstd::multiset::lemma_multiset_empty_len(left);
    assert forall|entry: EntryView| taken.count(entry) == pool.count(entry) by {
        assert(left.count(entry) == 0);
    }
    assert(taken =~= pool);
}

/// Every entry of a timeline is an entry of the pool.
pub proof fn lemma_timeline_from_pool(
    pool: Multiset<EntryView>,
    limit: nat,
    chosen: Seq<EntryView>,
    i: int,
)
    requires
        is_timeline(pool, limit, chosen),
        0 <= i < chosen.len(),
    ensures
        pool.count(chosen[i]) > 0,
{
    vstd::seq_lib::to_multiset_contains(chosen, chosen[i]);
    assert(chosen.contains(chosen[i]));
}

/// Pours the entries of all feeds into one queue.
fn pour(feeds: Vec<Vec<Entry>>) -> (heap: EntryHeap)
    ensures
        heap.wf(),
        heap@ == pooled(feed_views(feeds@)),
{
    broadcast use vstd::multiset::group_multiset_axioms;

    let ghost pool = pooled(feed_views(feeds@));
    let mut heap = EntryHeap::new();
    let mut feeds = feeds;
    while feeds.len() > 0
        invariant
            heap.wf(),
            heap@.add(pooled(feed_views(feeds@))) == pool,
        decreases feeds.len(),
    {
        let ghost waiting = feeds@;
        let mut feed = feeds.pop().unwrap();
        proof {
            assert(feed_views(feeds@) =~= feed_views(waiting).drop_last());
            assert(feed_views(waiting).last() == views(feed@));
        }
        while feed.len() > 0
            invariant
                heap.wf(),
                heap@.add(views(feed@).to_multiset()).add(pooled(feed_views(feeds@))) =~= pool,
            decreases feed.len(),
        {
            let ghost rest = views(feed@);
            let ghost held = heap@;
            let entry = feed.pop().unwrap();
            proof {
                assert(views(feed@) =~= rest.drop_last());
                assert(rest =~= views(feed@).push(entry@));
                vstd::seq_lib::to_multiset_build(views(feed@), entry@);
            }
            heap.push(entry);
            assert(heap@.add(views(feed@).to_multiset()) =~= held.add(rest.to_multiset()));
        }
        proof {
            vstd::seq_lib::to_multiset_len(views(feed@));
            vstd::multiset::lemma_multiset_empty_len(views(feed@).to_multiset());
            assert(heap@.add(views(feed@).to_multiset()) =~= heap@);
        }
    }
    assert(heap@.add(pooled(feed_views(feeds@))) =~= heap@);
    heap
}

/// Merges the entries of all feeds into one timeline of at most `limit`
/// entries, newest first.
pub fn merge(feeds: Vec<Vec<Entry>>, limit: usize) -> (newest: Vec<Entry>)
    ensures
        is_timeline(pooled(feed_views(feeds@)), limit as nat, views(newest@)),
{
    broadcast use vstd::multiset::group_multiset_axioms;

    let ghost pool = pooled(feed_views(feeds@));
    let mut heap = pour(feeds);
    let mut newest: Vec<Entry> = Vec::new();
    proof {
        vstd::seq_lib::to_multiset_len(views(newest@));
        vstd::multiset::lemma_multiset_empty_len(views(newest@).to_multiset());
        assert(views(newest@).to_multiset().add(heap@) =~= pool);
    }
    while newest.len() < limit
        invariant
            heap.wf(),
            newest.len() <= limit,
            views(newest@).to_multiset().add(heap@) == pool,
            newest_first(views(newest@)),
            forall|left: EntryView, i: int|
                heap@.count(left) > 0 && 0 <= i < newest.len() ==> not_older(
                    (#[trigger] views(newest@)[i]).timestamp,
                    #[trigger] left.timestamp,
                ),
        ensures
            newest.len() <= limit,
            newest.len() < limit ==> heap@.len() == 0,
            views(newest@).to_multiset().add(heap@) == pool,
            newest_first(views(newest@)),
            forall|left: EntryView, i: int|
                heap@.count(left) > 0 && 0 <= i < newest.len() ==> not_older(
                    (#[trigger] views(newest@)[i]).timestamp,
                    #[trigger] left.timestamp,
                ),
        decreases limit - newest.len(),
    {
        let ghost shown = views(newest@);
        let ghost waiting = heap@;
        match heap.pop() {
            Some(entry) => {
                newest.push(entry);
                proof {
                    let now_shown = views(newest@);
                    assert(now_shown =~= shown.push(entry@));
                    vstd::seq_lib::to_multiset_build(shown, entry@);
                    assert(now_shown.to_multiset().add(heap@) =~= shown.to_multiset().add(
                        waiting,
                    ));
                    assert(waiting.count(entry@) > 0);
                    assert forall|i: int, j: int| 0 <= i < j < now_shown.len() implies not_older(
                        (#[trigger] now_shown[i]).timestamp,
                        (#[trigger] now_shown[j]).timestamp,
                    ) by {
                        if j == shown.len() {
                            assert(now_shown[i] == shown[i]);
                        } else {
                            assert(now_shown[i] == shown[i] && now_shown[j] == shown[j]);
                        }
                    }
                    assert forall|left: EntryView, i: int|
                        heap@.count(left) > 0 && 0 <= i < now_shown.len() implies not_older(
                        (#[trigger] now_shown[i]).timestamp,
                        #[trigger] left.timestamp,
                    ) by {
                        assert(waiting.count(left) > 0);
                        if i < shown.len() {
                            assert(now_shown[i] == shown[i]);
                        }
                    }
                }
            },
            None => {
                break ;
            },
        }
    }
    proof {
        let shown = views(newest@);
        vstd::seq_lib::to_multiset_len(shown);
        assert(pool.len() == shown.len() + heap@.len());
        assert(pool.sub(shown.to_multiset()) =~= heap@);
        assert(shown.to_multiset().subset_of(pool));
    }
    newest
}

/// What was fetched of one source: the name its entries are shown under,
/// and the body of its feed, or `None` where fetching it failed.
#[derive(Clone, Debug, PartialEq, Eq)]
pub struct Feed {
    pub nick: String,
    pub body: Option<String>,
}

/// The entries of what was fetched of one source. A failed fetch gives none.
pub open spec fn feed_entries(feed: Feed) -> Seq<EntryView> {
    match feed.body {
        Some(body) => decode(body@, feed.nick@),
        None => Seq::<EntryView>::empty(),
    }
}

/// The entries of what was fetched, source by source.
pub open spec fn fetched(feeds: Seq<Feed>) -> Seq<Seq<EntryView>> {
    feeds.map_values(|feed: Feed| feed_entries(feed))
}

/// The number of entries that a configured limit allows: none below zero.
pub open spec fn limit_of(limit: i32) -> nat {
    if limit < 0 {
        0
    } else {
        limit as nat
    }
}

/// `lines` shows the entries of `chosen`, one for one and in their order.
pub open spec fn shows(
    lines: Seq<String>,
    chosen: Seq<EntryView>,
    now: Timestamp,
    absolute: bool,
) -> bool {
    &&& lines.len() == chosen.len()
    &&& forall|i: int|
        0 <= i < lines.len() ==> (#[trigger] lines[i])@ == display_text(chosen[i], now, absolute)
}

/// An entry that was read from a feed: one that `chrono` can hold, in a
/// year of four digits.
pub open spec fn readable(entry: EntryView) -> bool {
    entry.timestamp.wf() && entry.timestamp.four_digit_year()
}

/// Every entry of every feed is `readable`.
pub open spec fn all_readable(feeds: Seq<Seq<EntryView>>) -> bool {
    forall|k: int, i: int|
        0 <= k < feeds.len() && 0 <= i < feeds[k].len() ==> readable(#[trigger] feeds[k][i])
}

/// An entry of the pool is an entry of one of the feeds.
pub proof fn lemma_pooled_from_feed(feeds: Seq<Seq<EntryView>>, entry: EntryView)
    requires
        pooled(feeds).count(entry) > 0,
    ensures
        exists|k: int, i: int| 0 <= k < feeds.len() && 0 <= i < feeds[k].len() && feeds[k][i] == entry,
    decreases feeds.len(),
{
    broadcast use vstd::multiset::group_multiset_axioms;

    if feeds.len() > 0 {
        let k = feeds.len() - 1;
        if feeds.last().to_multiset().count(entry) > 0 {
            vstd::seq_lib::to_multiset_contains(feeds.last(), entry);
            let i = choose|i: int| 0 <= i < feeds.last().len() && feeds.last()[i] == entry;
            assert(feeds[k][i] == entry);
        } else {
            lemma_pooled_from_feed(feeds.drop_last(), entry);
            let (k, i) = choose|k: int, i: int|
                0 <= k < feeds.drop_last().len() && 0 <= i < feeds.drop_last()[k].len()
                    && feeds.drop_last()[k][i] == entry;
            assert(feeds[k][i] == entry);
        }
    }
}

/// A source whose fetch failed changes nothing: the pool is that of the
/// other sources.
pub proof fn lemma_failed_fetch_adds_nothing(feeds: Seq<Feed>, failed: int)
    requires
        0 <= failed < feeds.len(),
        feeds[failed].body is None,
    ensures
        pooled(fetched(feeds)) == pooled(fetched(feeds.remove(failed))),
    decreases feeds.len(),
{
    broadcast use vstd::multiset::group_multiset_axioms;

    let last = feeds.len() - 1;
    if failed == last {
        assert(fetched(feeds).drop_last() =~= fetched(feeds.remove(failed)));
        assert(fetched(feeds).last() =~= Seq::<EntryView>::empty());
        vstd::seq_lib::to_multiset_len(fetched(feeds).last());
        vstd::multiset::lemma_multiset_empty_len(fetched(feeds).last().to_multiset());
        assert(pooled(fetched(feeds)) =~= pooled(fetched(feeds).drop_last()));
    } else {
        lemma_failed_fetch_adds_nothing(feeds.drop_last(), failed);
        assert(fetched(feeds).drop_last() =~= fetched(feeds.drop_last()));
        assert(fetched(feeds.remove(failed)).drop_last() =~= fetched(
            feeds.drop_last().remove(failed),
        ));
        assert(fetched(feeds.remove(failed)).last() == fetched(feeds).last());
    }
}

/// Reads the entries of what was fetched, source by source.
pub fn read_feeds(feeds: &Vec<Feed>) -> (entries: Vec<Vec<Entry>>)
    ensures
        feed_views(entries@) == fetched(feeds@),
        all_readable(fetched(feeds@)),
{
    let mut entries: Vec<Vec<Entry>> = Vec::new();
    let mut at: usize = 0;
    while at < feeds.len()
        invariant
            at <= feeds.len(),
            feed_views(entries@) == fetched(feeds@).take(at as int),
            all_readable(feed_views(entries@)),
        decreases feeds.len() - at,
    {
        let ghost before = feed_views(entries@);
        let feed = &feeds[at];
        let read = match &feed.body {
            Some(body) => decode_feed(body.as_str(), feed.nick.as_str()),
            None => Vec::new(),
        };
        proof {
            assert(views(read@) =~= feed_entries(feeds@[at as int]));
            assert forall|i: int| 0 <= i < read.len() implies readable(
                #[trigger] views(read@)[i],
            ) by {
                assert(read[i].wf());
            }
        }
        let ghost read_view = views(read@);
        entries.push(read);
        at = at + 1;
        proof {
            assert(feed_views(entries@) =~= before.push(read_view));
            assert(feed_views(entries@) =~= fetched(feeds@).take(at as int));
            assert forall|k: int, i: int|
                0 <= k < feed_views(entries@).len() && 0 <= i < feed_views(
                    entries@,
                )[k].len() implies readable(#[trigger] feed_views(entries@)[k][i]) by {
                if k < before.len() {
                    assert(feed_views(entries@)[k] == before[k]);
                    assert(readable(before[k][i]));
                } else {
                    assert(feed_views(entries@)[k] == read_view);
                    assert(readable(read_view[i]));
                }
            }
        }
    }
    assert(fetched(feeds@).take(at as int) =~= fetched(feeds@));
    entries
}

/// Shows each entry to a reader at `now`.
pub fn render_all(entries: &Vec<Entry>, now: &Timestamp, absolute: bool) -> (lines: Vec<String>)
    requires
        now.wf(),
        forall|i: int| 0 <= i < entries.len() ==> readable(#[trigger] views(entries@)[i]),
    ensures
        shows(lines@, views(entries@), *now, absolute),
{
    let mut lines: Vec<String> = Vec::new();
    let mut at: usize = 0;
    while at < entries.len()
        invariant
            at <= entries.len(),
            now.wf(),
            forall|i: int| 0 <= i < entries.len() ==> readable(#[trigger] views(entries@)[i]),
            lines.len() == at,
            forall|i: int|
                0 <= i < at ==> (#[trigger] lines[i])@ == display_text(
                    views(entries@)[i],
                    *now,
                    absolute,
                ),
        decreases entries.len() - at,
    {
        let entry = &entries[at];
        assert(readable(views(entries@)[at as int]));
        assert(views(entries@)[at as int] == entry@);
        let line = entry.render(now, absolute);
        lines.push(line);
        at = at + 1;
    }
    lines
}

/// The timeline of a user: the newest entries of everything fetched, as
/// many as the configured limit allows, newest first, each as it is shown
/// to a reader at `now`.
pub fn timeline(config: &Config, feeds: &Vec<Feed>, now: &Timestamp) -> (lines: Vec<String>)
    requires
        now.wf(),
    ensures
        exists|chosen: Seq<EntryView>|
            #![auto]
            is_timeline(pooled(fetched(feeds@)), limit_of(config.limit_timeline), chosen) && shows(
                lines@,
                chosen,
                *now,
                config.use_abs_time,
            ),
{
    let entries = read_feeds(feeds);
    let limit: usize = if config.limit_timeline < 0 {
        0
    } else {
        config.limit_timeline as usize
    };
    let newest = merge(entries, limit);
    proof {
        let pool = pooled(fetched(feeds@));
        let chosen = views(newest@);
        assert forall|i: int| 0 <= i < newest.len() implies readable(#[trigger] chosen[i]) by {
            lemma_timeline_from_pool(pool, limit as nat, chosen, i);
            lemma_pooled_from_feed(fetched(feeds@), chosen[i]);
        }
    }
    let lines = render_all(&newest, now, config.use_abs_time);
    assert(is_timeline(pooled(fetched(feeds@)), limit_of(config.limit_timeline), views(newest@)));
    lines
}

} // verus!
