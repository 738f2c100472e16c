//! The settings of a user: who they are, where their feed lies, whom they
//! follow, and how the timeline is shown.

use std::collections::HashMap;
use strfmt::FmtError;
use crate::number::{bool_of, i32_of, parse_bool, parse_i32};
use vstd::prelude::*;

verus! {

#[verifier::external_type_specification]
#[verifier::external_body]
pub struct ExFmtError(FmtError);

/// One line of a section: a key and what it is set to.
#[derive(Clone, Debug, PartialEq, Eq)]
pub struct Setting {
    pub key: String,
    pub value: String,
}

/// A feed to read: the name its entries are shown under, and where it lies.
#[derive(Clone, Debug, PartialEq, Eq)]
pub struct Source {
    pub nick: String,
    pub url: String,
}

/// The keys that the section `twtxt` must set.
#[derive(Clone, Copy, Debug, PartialEq, Eq, Structural)]
pub enum Field {
    PreTweetHook,
    PostTweetHook,
    Nick,
    TwtFile,
    TwtUrl,
    LimitTimeline,
    UseAbsTime,
}

/// Why settings make no configuration.
#[derive(Clone, Copy, Debug, PartialEq, Eq, Structural)]
pub enum ConfigError {
    /// There is no section `twtxt`.
    NoTwtxt,
    /// There is no section `following`.
    NoFollowing,
    /// The section `twtxt` does not set this key.
    Missing(Field),
    /// This hook is no well-formed template, or names a key that is not set.
    Hook(Field),
    /// The limit of the timeline is no 32-bit number.
    Limit,
    /// The choice of absolute time is neither `true` nor `false`.
    Flag,
}

/// The settings of a user.
#[derive(Clone, Debug, PartialEq, Eq)]
pub struct Config {
    pub nick: String,
    pub twtfile: String,
    pub twturl: String,
    pub pre_tweet_hook: String,
    pub post_tweet_hook: String,
    pub limit_timeline: i32,
    pub use_abs_time: bool,
    pub following: Vec<Source>,
}

/// A configuration as a value of characters.
pub struct ConfigView {
    pub nick: Seq<char>,
    pub twtfile: Seq<char>,
    pub twturl: Seq<char>,
    pub pre_tweet_hook: Seq<char>,
    pub post_tweet_hook: Seq<char>,
    pub limit_timeline: i32,
    pub use_abs_time: bool,
    pub following: Seq<(Seq<char>, Seq<char>)>,
}

/// What `strfmt::strfmt` makes of a template over the variables that a run
/// of settings gives, a later setting of a key replacing an earlier one:
/// the expanded text, or `None` where it reports an error.
pub uninterp spec fn strfmt_text(template: Seq<char>, vars: Seq<(Seq<char>, Seq<char>)>) -> Option<
    Seq<char>,
>;

/// Settings as pairs of key and value.
pub open spec fn setting_views(settings: Seq<Setting>) -> Seq<(Seq<char>, Seq<char>)> {
    settings.map_values(|setting: Setting| (setting.key@, setting.value@))
}

/// Sources as pairs of name and place.
pub open spec fn source_views(sources: Seq<Source>) -> Seq<(Seq<char>, Seq<char>)> {
    sources.map_values(|source: Source| (source.nick@, source.url@))
}

/// What a key is set to: the value of the last setting of that key.
pub open spec fn lookup(settings: Seq<(Seq<char>, Seq<char>)>, key: Seq<char>) -> Option<
    Seq<char>,
>
    decreases settings.len(),
{
    if settings.len() == 0 {
        None
    } else if settings.last().0 == key {
        Some(settings.last().1)
    } else {
        lookup(settings.drop_last(), key)
    }
}

impl Field {
    /// The key as the section writes it.
    pub open spec fn name(self) -> Seq<char> {
        match self {
            Field::PreTweetHook => "pre_tweet_hook"@,
            Field::PostTweetHook => "post_tweet_hook"@,
            Field::Nick => "nick"@,
            Field::TwtFile => "twtfile"@,
            Field::TwtUrl => "twturl"@,
            Field::LimitTimeline => "limit_timeline"@,
            Field::UseAbsTime => "use_abs_time"@,
        }
    }

    /// The key as the section writes it.
    pub fn key(self) -> (name: &'static str)
        ensures
            name@ == self.name(),
    {
        match self {
            Field::PreTweetHook => "pre_tweet_hook",
            Field::PostTweetHook => "post_tweet_hook",
            Field::Nick => "nick",
            Field::TwtFile => "twtfile",
            Field::TwtUrl => "twturl",
            Field::LimitTimeline => "limit_timeline",
            Field::UseAbsTime => "use_abs_time",
        }
    }
}

/// What a required key is set to.
pub open spec fn required(settings: Seq<(Seq<char>, Seq<char>)>, field: Field) -> Result<
    Seq<char>,
    ConfigError,
> {
    match lookup(settings, field.name()) {
        Some(value) => Ok(value),
        None => Err(ConfigError::Missing(field)),
    }
}

/// The command of a hook: what the key is set to, expanded over the
/// settings of the section.
pub open spec fn hook_command(settings: Seq<(Seq<char>, Seq<char>)>, field: Field) -> Result<
    Seq<char>,
    ConfigError,
> {
    match required(settings, field) {
        Ok(template) => match strfmt_text(template, settings) {
            Some(command) => Ok(command),
            None => Err(ConfigError::Hook(field)),
        },
        Err(error) => Err(error),
    }
}

/// The limit of the timeline that the settings give.
pub open spec fn limit_setting(settings: Seq<(Seq<char>, Seq<char>)>) -> Result<i32, ConfigError> {
    match required(settings, Field::LimitTimeline) {
        Ok(text) => match i32_of(text) {
            Some(limit) => Ok(limit),
            None => Err(ConfigError::Limit),
        },
        Err(error) => Err(error),
    }
}

/// The choice of absolute time that the settings give.
pub open spec fn flag_setting(settings: Seq<(Seq<char>, Seq<char>)>) -> Result<bool, ConfigError> {
    match required(settings, Field::UseAbsTime) {
        Ok(text) => match bool_of(text) {
            Some(flag) => Ok(flag),
            None => Err(ConfigError::Flag),
        },
        Err(error) => Err(error),
    }
}

/// The first thing amiss in the section `twtxt`, in the order in which the
/// keys are read: the two hooks, the name, the file, the address, the
/// limit, the choice of absolute time.
pub open spec fn first_error(settings: Seq<(Seq<char>, Seq<char>)>) -> Option<ConfigError> {
    if hook_command(settings, Field::PreTweetHook) is Err {
        Some(hook_command(settings, Field::PreTweetHook)->Err_0)
    } else if hook_command(settings, Field::PostTweetHook) is Err {
        Some(hook_command(settings, Field::PostTweetHook)->Err_0)
    } else if required(settings, Field::Nick) is Err {
        Some(ConfigError::Missing(Field::Nick))
    } else if required(settings, Field::TwtFile) is Err {
        Some(ConfigError::Missing(Field::TwtFile))
    } else if required(settings, Field::TwtUrl) is Err {
        Some(ConfigError::Missing(Field::TwtUrl))
    } else if limit_setting(settings) is Err {
        Some(limit_setting(settings)->Err_0)
    } else if flag_setting(settings) is Err {
        Some(flag_setting(settings)->Err_0)
    } else {
        None
    }
}

/// The configuration that two sections make, or the first thing amiss.
pub open spec fn config_of(
    twtxt: Option<Seq<(Seq<char>, Seq<char>)>>,
    following: Option<Seq<(Seq<char>, Seq<char>)>>,
) -> Result<ConfigView, ConfigError> {
    match (twtxt, following) {
        (None, _) => Err(ConfigError::NoTwtxt),
        (Some(_), None) => Err(ConfigError::NoFollowing),
        (Some(settings), Some(followed)) => match first_error(settings) {
            Some(error) => Err(error),
            None => Ok(
                ConfigView {
                    nick: required(settings, Field::Nick)->Ok_0,
                    twtfile: required(settings, Field::TwtFile)->Ok_0,
                    twturl: required(settings, Field::TwtUrl)->Ok_0,
                    pre_tweet_hook: hook_command(settings, Field::PreTweetHook)->Ok_0,
                    post_tweet_hook: hook_command(settings, Field::PostTweetHook)->Ok_0,
                    limit_timeline: limit_setting(settings)->Ok_0,
                    use_abs_time: flag_setting(settings)->Ok_0,
                    following: followed,
                },
            ),
        },
    }
}

/// The sources of a timeline: everyone followed, in the order given, then
/// the user's own feed under the user's own name.
pub open spec fn sources_of(config: ConfigView) -> Seq<(Seq<char>, Seq<char>)> {
    config.following.push((config.nick, config.twturl))
}

/// Expands a template with `strfmt::strfmt` over the settings of a section.
///
/// Trusted: the result is what `strfmt` returns for the template and the
/// map made of the settings.
#[verifier::external_body]
fn expand(template: &str, settings: &Vec<Setting>) -> (r: Result<String, FmtError>)
    ensures
        match r {
            Ok(text) => strfmt_text(template@, setting_views(settings@)) == Some(text@),
            Err(_) => strfmt_text(template@, setting_views(settings@)) is None,
        },
{
    let vars: HashMap<String, String> = settings.iter().map(
        |setting| (setting.key.clone(), setting.value.clone()),
    ).collect();
    strfmt::strfmt(template, &vars)
}

/// Looks a key up among the settings of a section.
pub fn find<'a>(settings: &'a Vec<Setting>, key: &str) -> (r: Option<&'a String>)
    ensures
        match r {
            Some(value) => lookup(setting_views(settings@), key@) == Some(value@),
            None => lookup(setting_views(settings@), key@) is None,
        },
{
    let wanted = key.to_owned();
    let ghost all = setting_views(settings@);
    let mut left: usize = settings.len();
    assert(all.take(left as int) =~= all);
    while left > 0
        invariant
            left <= settings.len(),
            all == setting_views(settings@),
            wanted@ == key@,
            lookup(all, key@) == lookup(all.take(left as int), key@),
        decreases left,
    {
        left = left - 1;
        proof {
            assert(all.take(left + 1).drop_last() =~= all.take(left as int));
            assert(all.take(left + 1).last() == all[left as int]);
        }
        if settings[left].key == wanted {
            return Some(&settings[left].value);
        }
    }
    None
}

/// What a required key is set to.
fn require<'a>(settings: &'a Vec<Setting>, field: Field) -> (r: Result<&'a String, ConfigError>)
    ensures
        match r {
            Ok(value) => required(setting_views(settings@), field) == Ok::<
                Seq<char>,
                ConfigError,
            >(value@),
            Err(error) => required(setting_views(settings@), field) == Err::<
                Seq<char>,
                ConfigError,
            >(error),
        },
{
    match find(settings, field.key()) {
        Some(value) => Ok(value),
        None => Err(ConfigError::Missing(field)),
    }
}

/// The command of a hook, expanded over the settings of the section.
fn hook(settings: &Vec<Setting>, field: Field) -> (r: Result<String, ConfigError>)
    ensures
        match r {
            Ok(command) => hook_command(setting_views(settings@), field) == Ok::<
                Seq<char>,
                ConfigError,
            >(command@),
            Err(error) => hook_command(setting_views(settings@), field) == Err::<
                Seq<char>,
                ConfigError,
            >(error),
        },
{
    let template = match require(settings, field) {
        Ok(template) => template,
        Err(error) => {
            return Err(error);
        },
    };
    match expand(template.as_str(), settings) {
        Ok(command) => Ok(command),
        Err(_) => Err(ConfigError::Hook(field)),
    }
}

impl View for Config {
    type V = ConfigView;

    open spec fn view(&self) -> ConfigView {
        ConfigView {
            nick: self.nick@,
            twtfile: self.twtfile@,
            twturl: self.twturl@,
            pre_tweet_hook: self.pre_tweet_hook@,
            post_tweet_hook: self.post_tweet_hook@,
            limit_timeline: self.limit_timeline,
            use_abs_time: self.use_abs_time,
            following: source_views(self.following@),
        }
    }
}

/// The pairs of a section that may be absent.
pub open spec fn section_view(section: Option<&Vec<Setting>>) -> Option<
    Seq<(Seq<char>, Seq<char>)>,
> {
    match section {
        Some(settings) => Some(setting_views(settings@)),
        None => None,
    }
}

/// The pairs of a list of sources that may be absent.
pub open spec fn followed_view(section: Option<Vec<Source>>) -> Option<
    Seq<(Seq<char>, Seq<char>)>,
> {
    match section {
        Some(sources) => Some(source_views(sources@)),
        None => None,
    }
}

impl Config {
    /// Makes a configuration of the sections `twtxt` and `following`.
    ///
    /// Both sections must be there, and `twtxt` must set every key of
    /// `Field`; the error names the first thing amiss.
    pub fn new(twtxt: Option<&Vec<Setting>>, following: Option<Vec<Source>>) -> (r: Result<
        Config,
        ConfigError,
    >)
        ensures
            match r {
                Ok(config) => config_of(section_view(twtxt), followed_view(following)) == Ok::<
                    ConfigView,
                    ConfigError,
                >(config@),
                Err(error) => config_of(section_view(twtxt), followed_view(following)) == Err::<
                    ConfigView,
                    ConfigError,
                >(error),
            },
    {
        let settings = match twtxt {
            Some(settings) => settings,
            None => {
                return Err(ConfigError::NoTwtxt);
            },
        };
        let following = match following {
            Some(following) => following,
            None => {
                return Err(ConfigError::NoFollowing);
            },
        };
        let pre_tweet_hook = match hook(settings, Field::PreTweetHook) {
            Ok(command) => command,
            Err(error) => {
                return Err(error);
            },
        };
        let post_tweet_hook = match hook(settings, Field::PostTweetHook) {
            Ok(command) => command,
            Err(error) => {
                return Err(error);
            },
        };
        let nick = match require(settings, Field::Nick) {
            Ok(value) => value.clone(),
            Err(error) => {
                return Err(error);
            },
        };
        let twtfile = match require(settings, Field::TwtFile) {
            Ok(value) => value.clone(),
            Err(error) => {
                return Err(error);
            },
        };
        let twturl = match require(settings, Field::TwtUrl) {
            Ok(value) => value.clone(),
            Err(error) => {
                return Err(error);
            },
        };
        let limit_timeline = match require(settings, Field::LimitTimeline) {
            Ok(value) => match parse_i32(value.as_str()) {
                Some(limit) => limit,
                None => {
                    return Err(ConfigError::Limit);
                },
            },
            Err(error) => {
                return Err(error);
            },
        };
        let use_abs_time = match require(settings, Field::UseAbsTime) {
            Ok(value) => match parse_bool(value.as_str()) {
                Some(flag) => flag,
                None => {
                    return Err(ConfigError::Flag);
                },
            },
            Err(error) => {
                return Err(error);
            },
        };
        Ok(
            Config {
                nick,
                twtfile,
                twturl,
                pre_tweet_hook,
                post_tweet_hook,
                limit_timeline,
                use_abs_time,
                following,
            },
        )
    }

    /// The sources of the timeline: everyone followed, then the user's own
    /// feed under the user's own name.
    pub fn sources(&self) -> (sources: Vec<Source>)
        ensures
            source_views(sources@) == sources_of(self@),
    {
        let mut sources: Vec<Source> = Vec::new();
        let mut at: usize = 0;
        while at < self.following.len()
            invariant
                at <= self.following.len(),
                source_views(sources@) == source_views(self.following@).take(at as int),
            decreases self.following.len() - at,
        {
            let ghost before = source_views(sources@);
            let source = &self.following[at];
            let copy = Source { nick: source.nick.clone(), url: source.url.clone() };
            assert(copy.nick@ == self.following@[at as int].nick@);
            assert(copy.url@ == self.following@[at as int].url@);
            sources.push(copy);
            at = at + 1;
            assert(source_views(sources@) =~= before.push((copy.nick@, copy.url@)));
            assert(source_views(sources@) =~= source_views(self.following@).take(at as int));
        }
        let ghost before = source_views(sources@);
        let own = Source { nick: self.nick.clone(), url: self.twturl.clone() };
        assert(own.nick@ == self.nick@ && own.url@ == self.twturl@);
        sources.push(own);
        assert(before =~= source_views(self.following@));
        assert(source_views(sources@) =~= before.push((own.nick@, own.url@)));
        sources
    }
}

} // verus!
