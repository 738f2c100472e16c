//! Posting: what to run and what to write for a new entry.

use crate::config::Config;
use crate::entry::{twtxt_record, Entry, EntryView};
use crate::timestamp::{local_now, Timestamp};
use vstd::prelude::*;
use vstd::string::StringExecFns;

verus! {

/// The steps of posting one entry, in the order they are taken: run the
/// first hook, append the record to the file, run the second hook.
#[derive(Clone, Debug, PartialEq, Eq)]
pub struct Post {
    pub pre_tweet_hook: String,
    pub twtfile: String,
    pub record: String,
    pub post_tweet_hook: String,
}

/// Why nothing is posted.
#[derive(Clone, Copy, Debug, PartialEq, Eq, Structural)]
pub enum TweetError {
    /// The words make an empty post.
    Empty,
    /// The clock shows a time too close to the end of what can be
    /// written down under the local offset.
    Clock,
}

/// The steps of posting as a value of characters.
pub struct PostView {
    pub pre_tweet_hook: Seq<char>,
    pub twtfile: Seq<char>,
    pub record: Seq<char>,
    pub post_tweet_hook: Seq<char>,
}

impl View for Post {
    type V = PostView;

    open spec fn view(&self) -> PostView {
        PostView {
            pre_tweet_hook: self.pre_tweet_hook@,
            twtfile: self.twtfile@,
            record: self.record@,
            post_tweet_hook: self.post_tweet_hook@,
        }
    }
}

/// Words put together, one space between each two.
pub open spec fn joined(words: Seq<Seq<char>>) -> Seq<char>
    decreases words.len(),
{
    if words.len() == 0 {
        Seq::<char>::empty()
    } else if words.len() == 1 {
        words[0]
    } else {
        joined(words.drop_last()) + seq![' '] + words.last()
    }
}

/// The characters of each word.
pub open spec fn word_views(words: Seq<String>) -> Seq<Seq<char>> {
    words.map_values(|word: String| word@)
}

/// The record of a post written at `now` by the user themselves.
pub open spec fn composed(content: Seq<char>, now: Timestamp) -> Seq<char> {
    twtxt_record(EntryView { timestamp: now, author: None, content })
}

/// What posting `words` at `now` comes to: the steps to take, or why none.
pub open spec fn post_of(config: Config, words: Seq<Seq<char>>, now: Timestamp) -> Result<
    PostView,
    TweetError,
> {
    if joined(words).len() == 0 {
        Err(TweetError::Empty)
    } else if !now.local_at(now.offset) {
        Err(TweetError::Clock)
    } else {
        Ok(
            PostView {
                pre_tweet_hook: config.pre_tweet_hook@,
                twtfile: config.twtfile@,
                record: composed(joined(words), now),
                post_tweet_hook: config.post_tweet_hook@,
            },
        )
    }
}

/// Puts words together, one space between each two.
pub fn join_words(words: &Vec<String>) -> (content: String)
    ensures
        content@ == joined(word_views(words@)),
{
    let mut content = String::new();
    let mut at: usize = 0;
    assert(word_views(words@).take(0) =~= Seq::<Seq<char>>::empty());
    while at < words.len()
        invariant
            at <= words.len(),
            content@ == joined(word_views(words@).take(at as int)),
        decreases words.len() - at,
    {
        let ghost before = word_views(words@).take(at as int);
        proof {
            reveal_strlit(" ");
        }
        if at > 0 {
            content.append(" ");
        }
        content.append(words[at].as_str());
        at = at + 1;
        proof {
            let now = word_views(words@).take(at as int);
            assert(now.drop_last() =~= before);
            assert(now.last() == words@[at - 1]@);
            if at == 1 {
                assert(content@ =~= now[0]);
            } else {
                assert(content@ =~= joined(before) + seq![' '] + now.last());
            }
        }
    }
    assert(word_views(words@).take(at as int) =~= word_views(words@));
    content
}

/// The record of a post written at `now` by the user themselves.
pub fn compose(content: String, now: &Timestamp) -> (record: String)
    requires
        now.wf(),
        now.local_at(now.offset),
    ensures
        record@ == composed(content@, *now),
{
    Entry::at(*now, content, None).to_twtxt()
}

/// The steps of posting `words` as one entry written at `now`.
///
/// Fails where the words make an empty post, and where `now` cannot be
/// written down under its offset.
pub fn tweet_at(config: &Config, words: &Vec<String>, now: &Timestamp) -> (r: Result<
    Post,
    TweetError,
>)
    requires
        now.wf(),
    ensures
        match r {
            Ok(post) => post_of(*config, word_views(words@), *now) == Ok::<PostView, TweetError>(
                post@,
            ),
            Err(error) => post_of(*config, word_views(words@), *now) == Err::<
                PostView,
                TweetError,
            >(error),
        },
{
    let content = join_words(words);
    if content.as_str().is_empty() {
        return Err(TweetError::Empty);
    }
    if !now.is_local_at(now.offset) {
        return Err(TweetError::Clock);
    }
    Ok(
        Post {
            pre_tweet_hook: config.pre_tweet_hook.clone(),
            twtfile: config.twtfile.clone(),
            record: compose(content, now),
            post_tweet_hook: config.post_tweet_hook.clone(),
        },
    )
}

/// The steps of posting `words` as one entry written now.
///
/// What comes back is what `tweet_at` gives for the time the clock showed.
pub fn tweet(config: &Config, words: &Vec<String>) -> (r: Result<Post, TweetError>)
    ensures
        joined(word_views(words@)).len() == 0 ==> r == Err::<Post, TweetError>(TweetError::Empty),
        exists|now: Timestamp|
            #![auto]
            now.wf() && match r {
                Ok(post) => post_of(*config, word_views(words@), now) == Ok::<
                    PostView,
                    TweetError,
                >(post@),
                Err(error) => post_of(*config, word_views(words@), now) == Err::<
                    PostView,
                    TweetError,
                >(error),
            },
{
    let now = local_now();
    tweet_at(config, words, &now)
}

} // verus!
