//! The download configuration that the command line selects for each app.

use chrono::{Datelike, Timelike};
use vstd::prelude::*;

use crate::args::{clone_strings, strings_view, Matches};
use crate::text::{trim, trim_str};

verus! {

/// Environment variable that holds a Sakurazaka46 web access token.
pub const S_ACCESS_TOKEN_ENV: &'static str = "COLMSG_S_ACCESS_TOKEN";

/// Environment variable that holds a Hinatazaka46 web access token.
pub const H_ACCESS_TOKEN_ENV: &'static str = "COLMSG_H_ACCESS_TOKEN";

/// Environment variable that holds a Nogizaka46 web access token.
pub const N_ACCESS_TOKEN_ENV: &'static str = "COLMSG_N_ACCESS_TOKEN";

/// The format of the `--from` option.
pub const FROM_FORMAT: &'static str = "%Y/%m/%d %H:%M:%S";

/// A kind of message.
#[derive(Clone, Copy, Debug, PartialEq, Eq, Structural)]
pub enum Kind {
    Text,
    Picture,
    Video,
    Voice,
    Link,
}

/// A calendar date and time of day without a time zone.
#[derive(Clone, Copy, Debug, PartialEq, Eq, Structural)]
pub struct DateTimeParts {
    pub year: i32,
    pub month: u32,
    pub day: u32,
    pub hour: u32,
    pub minute: u32,
    pub second: u32,
    pub nanosecond: u32,
}

/// Where the access token for the downloads comes from.
#[derive(Clone, Debug, PartialEq, Eq)]
pub enum AccessTokenSource {
    /// A web access token given in the environment, used as it is.
    Environment(String),
    /// A refresh token, to be exchanged for an access token.
    RefreshToken(String),
}

/// What the command line asks for, before the download directory is created
/// and the access token obtained.
pub struct ConfigPlan {
    /// Member names to download, trimmed; empty for all members.
    pub name: Vec<String>,
    /// Download only messages sent after this time.
    pub from: Option<DateTimeParts>,
    /// Kinds of messages to download.
    pub kind: Vec<Kind>,
    /// The download directory given on the command line; `None` for the
    /// default one.
    pub dir: Option<String>,
    /// The credential to use; `None` where neither an access token nor a
    /// refresh token was given.
    pub token: Option<AccessTokenSource>,
}

/// Why a configuration cannot be built.
#[derive(Clone, Debug, PartialEq, Eq)]
pub enum ConfigError {
    /// `--from` is not a date and time in `FROM_FORMAT`; the text is the
    /// parser's message.
    InvalidFrom(String),
    /// No access token and no refresh token was given.
    RefreshTokenNotSet,
}

/// The text that reports a configuration error.
pub open spec fn config_message(e: ConfigError) -> Seq<char> {
    match e {
        ConfigError::InvalidFrom(m) => m@,
        ConfigError::RefreshTokenNotSet => "refresh token is not set"@,
    }
}

impl ConfigError {
    /// The text that reports this error.
    pub fn message(&self) -> (r: String)
        ensures
            r@ == config_message(*self),
    {
        match self {
            ConfigError::InvalidFrom(m) => m.clone(),
            ConfigError::RefreshTokenNotSet => String::from_str("refresh token is not set"),
        }
    }
}

/// The command line of one run.
pub struct App {
    pub matches: Matches,
}

/// The result of `chrono::NaiveDateTime::parse_from_str(text, fmt)`: the
/// date and time it reads, or the text of the `ParseError` it fails with.
pub uninterp spec fn naive_datetime_parse(text: Seq<char>, fmt: Seq<char>) -> Result<
    DateTimeParts,
    Seq<char>,
>;

/// Calls `chrono::NaiveDateTime::parse_from_str`. Trusted: the result is the
/// date and time, or the error's text, that `naive_datetime_parse` names.
#[verifier::external_body]
fn parse_naive_datetime(text: &str, fmt: &str) -> (r: Result<DateTimeParts, String>)
    ensures
        match r {
            Ok(t) => naive_datetime_parse(text@, fmt@) == Ok::<DateTimeParts, Seq<char>>(t),
            Err(m) => naive_datetime_parse(text@, fmt@) == Err::<DateTimeParts, Seq<char>>(m@),
        },
{
    match chrono::NaiveDateTime::parse_from_str(text, fmt) {
        Ok(t) => Ok(
            DateTimeParts {
                year: t.year(),
                month: t.month(),
                day: t.day(),
                hour: t.hour(),
                minute: t.minute(),
                second: t.second(),
                nanosecond: t.nanosecond(),
            },
        ),
        Err(e) => Err(e.to_string()),
    }
}

/// The kind that a `--kind` value names; anything else counts as a link.
pub open spec fn kind_named(v: Seq<char>) -> Kind {
    if v == "text"@ {
        Kind::Text
    } else if v == "picture"@ {
        Kind::Picture
    } else if v == "video"@ {
        Kind::Video
    } else if v == "voice"@ {
        Kind::Voice
    } else {
        Kind::Link
    }
}

/// The kind that a `--kind` value names.
pub fn kind_from_str(v: &str) -> (k: Kind)
    ensures
        k == kind_named(v@),
{
    let s = String::from_str(v);
    if s == String::from_str("text") {
        Kind::Text
    } else if s == String::from_str("picture") {
        Kind::Picture
    } else if s == String::from_str("video") {
        Kind::Video
    } else if s == String::from_str("voice") {
        Kind::Voice
    } else {
        Kind::Link
    }
}

/// Every kind, in the order in which they are numbered.
pub open spec fn all_kinds() -> Seq<Kind> {
    seq![Kind::Text, Kind::Picture, Kind::Video, Kind::Voice, Kind::Link]
}

/// The access token that an environment variable with value `value` gives:
/// the value itself, unless it is only white space.
pub open spec fn env_access_token(value: Option<Seq<char>>) -> Option<Seq<char>> {
    match value {
        Some(v) => if trim(v).len() > 0 {
            Some(v)
        } else {
            None
        },
        None => None,
    }
}

/// The access token that an environment variable holding `value` gives.
pub fn access_token_from_env(value: Option<&str>) -> (r: Option<String>)
    ensures
        match r {
            Some(t) => env_access_token(opt_view(value)) == Some(t@),
            None => env_access_token(opt_view(value)) is None,
        },
{
    match value {
        Some(v) => {
            let trimmed = trim_str(v);
            if trimmed.as_str().is_empty() {
                None
            } else {
                Some(v.to_owned())
            }
        },
        None => None,
    }
}

/// The view of an optional string slice.
pub open spec fn opt_view(value: Option<&str>) -> Option<Seq<char>> {
    match value {
        Some(v) => Some(v@),
        None => None,
    }
}

/// The source of a credential, as `(from the environment, text)`.
pub open spec fn token_view(t: Option<AccessTokenSource>) -> Option<(bool, Seq<char>)> {
    match t {
        Some(AccessTokenSource::Environment(s)) => Some((true, s@)),
        Some(AccessTokenSource::RefreshToken(s)) => Some((false, s@)),
        None => None,
    }
}

impl App {
    /// The member names to download: each `--name` value trimmed.
    pub open spec fn names_spec(&self) -> Seq<Seq<char>> {
        match self.matches.values_spec("name"@) {
            Some(vs) => vs.map_values(|v: Seq<char>| trim(v)),
            None => Seq::empty(),
        }
    }

    /// The kinds to download: those of the `--kind` values, or all kinds.
    pub open spec fn kinds_spec(&self) -> Seq<Kind> {
        match self.matches.values_spec("kind"@) {
            Some(vs) => vs.map_values(|v: Seq<char>| kind_named(v)),
            None => all_kinds(),
        }
    }

    /// The credential to use: a usable access token from the environment
    /// first, else the refresh token option named `refresh_key`.
    pub open spec fn token_spec(&self, refresh_key: Seq<char>, env_value: Option<Seq<char>>) -> Option<
        (bool, Seq<char>),
    > {
        match env_access_token(env_value) {
            Some(t) => Some((true, t)),
            None => match self.matches.value_spec(refresh_key) {
                Some(r) => Some((false, r)),
                None => None,
            },
        }
    }

    /// `plan` is what the command line asks for, with `from` as the time
    /// given by `--from`.
    pub open spec fn plan_spec(
        &self,
        refresh_key: Seq<char>,
        env_value: Option<Seq<char>>,
        from: Option<DateTimeParts>,
        plan: ConfigPlan,
    ) -> bool {
        &&& strings_view(plan.name@) == self.names_spec()
        &&& plan.from == from
        &&& plan.kind@ == self.kinds_spec()
        &&& opt_string_view(plan.dir) == self.matches.value_spec("dir"@)
        &&& token_view(plan.token) == self.token_spec(refresh_key, env_value)
    }

    /// Whether credentials were given: a refresh token for option
    /// `refresh_key` or a usable access token in the environment.
    pub open spec fn has_credentials_spec(&self, refresh_key: Seq<char>, env_value: Option<Seq<char>>) -> bool {
        self.matches.value_spec(refresh_key) is Some || env_access_token(env_value) is Some
    }

    /// The command line `matches`.
    pub fn new(matches: Matches) -> (app: App)
        ensures
            app.matches == matches,
    {
        App { matches }
    }

    /// The configuration for Sakurazaka46; `env_value` is the value of
    /// `S_ACCESS_TOKEN_ENV`.
    pub fn sakurazaka_config(&self, env_value: Option<&str>) -> (r: Result<ConfigPlan, ConfigError>)
        ensures
            self.config_post("s_refresh_token"@, opt_view(env_value), r),
    {
        self.config("s_refresh_token", env_value)
    }

    /// The configuration for Hinatazaka46; `env_value` is the value of
    /// `H_ACCESS_TOKEN_ENV`.
    pub fn hinatazaka_config(&self, env_value: Option<&str>) -> (r: Result<ConfigPlan, ConfigError>)
        ensures
            self.config_post("h_refresh_token"@, opt_view(env_value), r),
    {
        self.config("h_refresh_token", env_value)
    }

    /// The configuration for Nogizaka46; `env_value` is the value of
    /// `N_ACCESS_TOKEN_ENV`.
    pub fn nogizaka_config(&self, env_value: Option<&str>) -> (r: Result<ConfigPlan, ConfigError>)
        ensures
            self.config_post("n_refresh_token"@, opt_view(env_value), r),
    {
        self.config("n_refresh_token", env_value)
    }

    /// The configuration for Asuka Saito, which takes a refresh token only.
    pub fn asukasaito_config(&self) -> (r: Result<ConfigPlan, ConfigError>)
        ensures
            self.config_post("a_refresh_token"@, None, r),
    {
        self.config("a_refresh_token", None)
    }

    /// The configuration for Mai Shiraishi, which takes a refresh token only.
    pub fn maishiraishi_config(&self) -> (r: Result<ConfigPlan, ConfigError>)
        ensures
            self.config_post("m_refresh_token"@, None, r),
    {
        self.config("m_refresh_token", None)
    }

    /// The configuration for yodel, which takes a refresh token only.
    pub fn yodel_config(&self) -> (r: Result<ConfigPlan, ConfigError>)
        ensures
            self.config_post("y_refresh_token"@, None, r),
    {
        self.config("y_refresh_token", None)
    }

    /// Whether a refresh token for option `refresh_token` or a usable access
    /// token (`env_value`, the value of the access-token variable) was given.
    pub fn has_credentials(&self, refresh_token: &str, env_value: Option<&str>) -> (b: bool)
        ensures
            b == self.has_credentials_spec(refresh_token@, opt_view(env_value)),
    {
        self.matches.value_of(refresh_token).is_some() || access_token_from_env(env_value).is_some()
    }

    /// Whether `env_value`, the value of an access-token variable, holds a
    /// usable access token.
    pub fn has_access_token(&self, env_value: Option<&str>) -> (b: bool)
        ensures
            b == (env_access_token(opt_view(env_value)) is Some),
    {
        access_token_from_env(env_value).is_some()
    }

    /// What `config` returns: an error where `--from` cannot be read, and
    /// otherwise the plan that the command line asks for.
    pub open spec fn config_post(
        &self,
        refresh_key: Seq<char>,
        env_value: Option<Seq<char>>,
        r: Result<ConfigPlan, ConfigError>,
    ) -> bool {
        match self.matches.value_spec("from"@) {
            None => r matches Ok(plan) && self.plan_spec(refresh_key, env_value, None, plan),
            Some(text) => match naive_datetime_parse(text, FROM_FORMAT@) {
                Err(m) => r matches Err(ConfigError::InvalidFrom(e)) && e@ == m,
                Ok(t) => r matches Ok(plan) && self.plan_spec(refresh_key, env_value, Some(t), plan),
            },
        }
    }

    /// The configuration that the command line asks for, with the refresh
    /// token of option `refresh_token_key` and `env_value`, the value of the
    /// access-token variable where the app has one.
    pub fn config(&self, refresh_token_key: &str, env_value: Option<&str>) -> (r: Result<
        ConfigPlan,
        ConfigError,
    >)
        ensures
            self.config_post(refresh_token_key@, opt_view(env_value), r),
    {
        let from = match self.matches.value_of("from") {
            Some(text) => Some(parse_naive_datetime(text.as_str(), FROM_FORMAT)),
            None => None,
        };
        self.build_config(refresh_token_key, env_value, from)
    }

    /// The configuration, given `from`, the result of reading the `--from`
    /// option where it was given.
    pub fn build_config(
        &self,
        refresh_token_key: &str,
        env_value: Option<&str>,
        from: Option<Result<DateTimeParts, String>>,
    ) -> (r: Result<ConfigPlan, ConfigError>)
        ensures
            match from {
                Some(Err(e)) => r == Err::<ConfigPlan, ConfigError>(ConfigError::InvalidFrom(e)),
                Some(Ok(t)) => r matches Ok(plan) && self.plan_spec(
                    refresh_token_key@,
                    opt_view(env_value),
                    Some(t),
                    plan,
                ),
                None => r matches Ok(plan) && self.plan_spec(
                    refresh_token_key@,
                    opt_view(env_value),
                    None,
                    plan,
                ),
            },
    {
        let name = self.names();
        let from = match from {
            Some(Ok(t)) => Some(t),
            Some(Err(e)) => return Err(ConfigError::InvalidFrom(e)),
            None => None,
        };
        let kind = self.kinds();
        let dir = self.matches.value_of("dir");
        let token = match access_token_from_env(env_value) {
            Some(t) => Some(AccessTokenSource::Environment(t)),
            None => match self.matches.value_of(refresh_token_key) {
                Some(rt) => Some(AccessTokenSource::RefreshToken(rt)),
                None => None,
            },
        };
        Ok(ConfigPlan { name, from, kind, dir, token })
    }

    /// The trimmed `--name` values.
    fn names(&self) -> (r: Vec<String>)
        ensures
            strings_view(r@) == self.names_spec(),
    {
        match self.matches.values_of("name") {
            Some(names) => {
                let mut r: Vec<String> = Vec::new();
                let n = names.len();
                let mut i: usize = 0;
                while i < n
                    invariant
                        n == names@.len(),
                        i <= n,
                        r@.len() == i,
                        forall|j: int| 0 <= j < i ==> #[trigger] r@[j]@ == trim(names@[j]@),
                    decreases n - i,
                {
                    r.push(trim_str(names[i].as_str()));
                    i = i + 1;
                }
                assert(strings_view(r@) =~= strings_view(names@).map_values(
                    |v: Seq<char>| trim(v),
                ));
                r
            },
            None => {
                let r: Vec<String> = Vec::new();
                assert(strings_view(r@) =~= Seq::<Seq<char>>::empty());
                r
            },
        }
    }

    /// The kinds of the `--kind` values, or all kinds.
    fn kinds(&self) -> (r: Vec<Kind>)
        ensures
            r@ == self.kinds_spec(),
    {
        match self.matches.values_of("kind") {
            Some(values) => {
                let mut r: Vec<Kind> = Vec::new();
                let n = values.len();
                let mut i: usize = 0;
                while i < n
                    invariant
                        n == values@.len(),
                        i <= n,
                        r@.len() == i,
                        forall|j: int| 0 <= j < i ==> #[trigger] r@[j] == kind_named(values@[j]@),
                    decreases n - i,
                {
                    r.push(kind_from_str(values[i].as_str()));
                    i = i + 1;
                }
                assert(r@ =~= strings_view(values@).map_values(|v: Seq<char>| kind_named(v)));
                r
            },
            None => {
                let r = vec![Kind::Text, Kind::Picture, Kind::Video, Kind::Voice, Kind::Link];
                assert(r@ =~= all_kinds());
                r
            },
        }
    }
}

/// The view of an optional string.
pub open spec fn opt_string_view(value: Option<String>) -> Option<Seq<char>> {
    match value {
        Some(v) => Some(v@),
        None => None,
    }
}

impl ConfigPlan {
    /// The credential to use, or the error that none was given.
    pub fn token_source(&self) -> (r: Result<AccessTokenSource, ConfigError>)
        ensures
            match self.token {
                Some(t) => r == Ok::<AccessTokenSource, ConfigError>(t),
                None => r == Err::<AccessTokenSource, ConfigError>(ConfigError::RefreshTokenNotSet),
            },
    {
        match &self.token {
            Some(AccessTokenSource::Environment(s)) => Ok(AccessTokenSource::Environment(s.clone())),
            Some(AccessTokenSource::RefreshToken(s)) => Ok(AccessTokenSource::RefreshToken(s.clone())),
            None => Err(ConfigError::RefreshTokenNotSet),
        }
    }
}


/// The configuration has a credential exactly where credentials were given:
/// where `has_credentials` is false, the download fails for want of a
/// refresh token.
pub proof fn law_token_present_iff_credentials(
    app: App,
    refresh_key: Seq<char>,
    env_value: Option<Seq<char>>,
    from: Option<DateTimeParts>,
    plan: ConfigPlan,
)
    requires
        app.plan_spec(refresh_key, env_value, from, plan),
    ensures
        plan.token is Some <==> app.has_credentials_spec(refresh_key, env_value),
{
}

/// An access token in the environment that is not blank is used as it is,
/// whatever refresh token the command line gives; a blank one is ignored.
pub proof fn law_environment_token_first(app: App, refresh_key: Seq<char>, token: Seq<char>)
    ensures
        trim(token).len() > 0 ==> app.token_spec(refresh_key, Some(token)) == Some((true, token)),
        trim(token).len() == 0 ==> app.token_spec(refresh_key, Some(token)) == app.token_spec(
            refresh_key,
            None,
        ),
{
}

/// An access token in the environment counts as credentials for every app.
pub proof fn law_access_token_is_credential(
    app: App,
    refresh_key: Seq<char>,
    env_value: Option<Seq<char>>,
)
    ensures
        env_access_token(env_value) is Some ==> app.has_credentials_spec(refresh_key, env_value),
{
}

/// Each `--kind` value asks for exactly one kind, in the order given: the
/// plan has as many kinds as values, the named kind for each of the five
/// names and a link for anything else; with no `--kind` it has all five
/// kinds, each once.
pub proof fn law_kinds_follow_the_values(
    app: App,
    refresh_key: Seq<char>,
    env_value: Option<Seq<char>>,
    from: Option<DateTimeParts>,
    plan: ConfigPlan,
)
    requires
        app.plan_spec(refresh_key, env_value, from, plan),
    ensures
        app.matches.values_spec("kind"@) matches Some(vs) ==> {
            &&& plan.kind@.len() == vs.len()
            &&& forall|i: int| 0 <= i < vs.len() ==> (#[trigger] plan.kind@[i] == Kind::Text <==> vs[i] == "text"@)
            &&& forall|i: int| 0 <= i < vs.len() ==> (#[trigger] plan.kind@[i] == Kind::Picture <==> vs[i] == "picture"@)
            &&& forall|i: int| 0 <= i < vs.len() ==> (#[trigger] plan.kind@[i] == Kind::Video <==> vs[i] == "video"@)
            &&& forall|i: int| 0 <= i < vs.len() ==> (#[trigger] plan.kind@[i] == Kind::Voice <==> vs[i] == "voice"@)
            &&& forall|i: int| 0 <= i < vs.len() ==> (#[trigger] plan.kind@[i] == Kind::Link <==> (
                vs[i] != "text"@ && vs[i] != "picture"@ && vs[i] != "video"@ && vs[i] != "voice"@))
        },
        app.matches.values_spec("kind"@) is None ==> {
            &&& plan.kind@.len() == 5
            &&& forall|k: Kind| #[trigger] plan.kind@.contains(k)
            &&& plan.kind@.no_duplicates()
        },
{
    reveal_strlit("text");
    reveal_strlit("picture");
    reveal_strlit("video");
    reveal_strlit("voice");
    assert("text"@.len() != "picture"@.len());
    assert("text"@.len() != "video"@.len());
    assert("text"@[0] != "voice"@[0]);
    assert("picture"@.len() != "video"@.len());
    assert("picture"@.len() != "voice"@.len());
    assert("video"@[2] != "voice"@[2]);
    if app.matches.values_spec("kind"@) is None {
        let ks = plan.kind@;
        assert(ks =~= all_kinds());
        assert forall|k: Kind| #[trigger] ks.contains(k) by {
            match k {
                Kind::Text => assert(ks[0] == k),
                Kind::Picture => assert(ks[1] == k),
                Kind::Video => assert(ks[2] == k),
                Kind::Voice => assert(ks[3] == k),
                Kind::Link => assert(ks[4] == k),
            }
        }
    }
}

} // verus!
