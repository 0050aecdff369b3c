//! The decisions of the web-client login: which service the command line
//! selects, how Chrome is started and watched, and how an access token is
//! found among the network events that Chrome DevTools reports.

use vstd::prelude::*;

use crate::app::{opt_string_view, opt_view, H_ACCESS_TOKEN_ENV, N_ACCESS_TOKEN_ENV, S_ACCESS_TOKEN_ENV};
use crate::args::{strings_view, Matches};
use crate::json::{Json, JsonMember};
use crate::text::{
    decimal_string, decimal_text, law_first_line_before_line_feed, law_parse_reads_decimal_text,
    eq_ignore_ascii_case, eq_ignore_ascii_case_str, first_line, first_line_str, parse_u16,
    parse_u16_str, strip_prefix, strip_prefix_str,
};

verus! {

/// Seconds to wait for an authenticated API request.
pub const LOGIN_TIMEOUT_SECS: u64 = 300;

/// Seconds to wait for Chrome to report its DevTools port.
pub const DEVTOOLS_TIMEOUT_SECS: u64 = 15;

/// Seconds to wait for a page target of Chrome DevTools.
pub const PAGE_TARGET_TIMEOUT_SECS: u64 = 10;

/// Milliseconds between two polls of Chrome.
pub const POLL_INTERVAL_MILLIS: u64 = 100;

/// A message service that has an official web client.
#[derive(Clone, Copy, Debug, PartialEq, Eq, Structural)]
pub enum Service {
    Sakurazaka,
    Hinatazaka,
    Nogizaka,
}

/// Why the web login fails.
#[derive(Clone, Debug, PartialEq, Eq)]
pub enum LoginError {
    /// Not exactly one `--group` was given.
    GroupCount,
    /// The `--group` names a service without a web client.
    UnsupportedGroup,
    /// Chrome could not be started; the last error, if any candidate was tried.
    ChromeLaunch(Option<String>),
    /// Chrome exited, with this status, before it reported its DevTools port.
    ChromeExitedEarly(String),
    /// Chrome did not report its DevTools port in time.
    ChromeStartTimeout,
    /// No page target of Chrome DevTools appeared in time.
    DevtoolsUnreachable,
    /// The DevTools connection failed for this reason.
    ConnectionFailed(String),
    /// A DevTools command could not be sent for this reason.
    CommandFailed(String),
    /// No authenticated API request was seen in time.
    TokenTimeout,
    /// Chrome, run for the setup, exited with this unsuccessful status.
    ChromeExited(String),
    /// A file, process or HTTP-client operation failed with this error.
    Io(String),
}

/// The service that a `--group` value names.
pub open spec fn service_named(name: Seq<char>) -> Option<Service> {
    if name == "sakurazaka"@ {
        Some(Service::Sakurazaka)
    } else if name == "hinatazaka"@ {
        Some(Service::Hinatazaka)
    } else if name == "nogizaka"@ {
        Some(Service::Nogizaka)
    } else {
        None
    }
}

/// The `--group` value that names `s`.
pub open spec fn group_name(s: Service) -> Seq<char> {
    match s {
        Service::Sakurazaka => "sakurazaka"@,
        Service::Hinatazaka => "hinatazaka"@,
        Service::Nogizaka => "nogizaka"@,
    }
}

/// The service that the command line selects for the web login.
pub open spec fn service_from_matches(m: Matches) -> Result<Service, LoginError> {
    let groups = match m.values_spec("group"@) {
        Some(g) => g,
        None => Seq::empty(),
    };
    if groups.len() != 1 {
        Err(LoginError::GroupCount)
    } else {
        match service_named(groups[0]) {
            Some(s) => Ok(s),
            None => Err(LoginError::UnsupportedGroup),
        }
    }
}

/// The address of the web client of `s`.
pub open spec fn site_spec(s: Service) -> Seq<char> {
    match s {
        Service::Sakurazaka => "https://message.sakurazaka46.com/"@,
        Service::Hinatazaka => "https://message.hinatazaka46.com/"@,
        Service::Nogizaka => "https://message.nogizaka46.com/"@,
    }
}

/// The hosts of the API of `s`.
pub open spec fn api_hosts_spec(s: Service) -> (Seq<char>, Seq<char>) {
    match s {
        Service::Sakurazaka => ("api.message.sakurazaka46.com"@, "api.s46.glastonr.net"@),
        Service::Hinatazaka => ("api.message.hinatazaka46.com"@, "api.kh.glastonr.net"@),
        Service::Nogizaka => ("api.message.nogizaka46.com"@, "api.n46.glastonr.net"@),
    }
}

/// The environment variable through which an access token of `s` is handed on.
pub open spec fn token_env_spec(s: Service) -> Seq<char> {
    match s {
        Service::Sakurazaka => S_ACCESS_TOKEN_ENV@,
        Service::Hinatazaka => H_ACCESS_TOKEN_ENV@,
        Service::Nogizaka => N_ACCESS_TOKEN_ENV@,
    }
}

/// Whether `host` is one of the API hosts of `s`.
pub open spec fn is_api_host(s: Service, host: Option<Seq<char>>) -> bool {
    match host {
        Some(h) => h == api_hosts_spec(s).0 || h == api_hosts_spec(s).1,
        None => false,
    }
}

impl Service {
    /// The service that the `--group` option selects.
    pub fn from_matches(matches: &Matches) -> (r: Result<Service, LoginError>)
        ensures
            r == service_from_matches(*matches),
    {
        let groups = match matches.values_of("group") {
            Some(g) => g,
            None => Vec::new(),
        };
        if groups.len() != 1 {
            return Err(LoginError::GroupCount);
        }
        let g = &groups[0];
        if *g == String::from_str("sakurazaka") {
            Ok(Service::Sakurazaka)
        } else if *g == String::from_str("hinatazaka") {
            Ok(Service::Hinatazaka)
        } else if *g == String::from_str("nogizaka") {
            Ok(Service::Nogizaka)
        } else {
            Err(LoginError::UnsupportedGroup)
        }
    }

    /// The address of the web client.
    pub fn site(self) -> (r: &'static str)
        ensures
            r@ == site_spec(self),
    {
        match self {
            Service::Sakurazaka => "https://message.sakurazaka46.com/",
            Service::Hinatazaka => "https://message.hinatazaka46.com/",
            Service::Nogizaka => "https://message.nogizaka46.com/",
        }
    }

    /// The hosts of the API.
    pub fn api_hosts(self) -> (r: [&'static str; 2])
        ensures
            r@[0]@ == api_hosts_spec(self).0,
            r@[1]@ == api_hosts_spec(self).1,
    {
        match self {
            Service::Sakurazaka => ["api.message.sakurazaka46.com", "api.s46.glastonr.net"],
            Service::Hinatazaka => ["api.message.hinatazaka46.com", "api.kh.glastonr.net"],
            Service::Nogizaka => ["api.message.nogizaka46.com", "api.n46.glastonr.net"],
        }
    }

    /// The environment variable for an access token of this service.
    pub fn token_env(self) -> (r: &'static str)
        ensures
            r@ == token_env_spec(self),
    {
        match self {
            Service::Sakurazaka => S_ACCESS_TOKEN_ENV,
            Service::Hinatazaka => H_ACCESS_TOKEN_ENV,
            Service::Nogizaka => N_ACCESS_TOKEN_ENV,
        }
    }
}

/// The host of `text` read as a URL by `url::Url::parse` and `Url::host_str`;
/// `None` where it is no URL or has no host.
pub uninterp spec fn url_host(text: Seq<char>) -> Option<Seq<char>>;

/// Calls `url::Url::parse` and `Url::host_str`. Trusted: the result is the
/// host that `url_host` names for `text`.
#[verifier::external_body]
fn parse_url_host(text: &str) -> (r: Option<String>)
    ensures
        opt_string_view(r) == url_host(text@),
{
    match url::Url::parse(text) {
        Ok(u) => u.host_str().map(String::from),
        Err(_) => None,
    }
}

/// Whether `host`, the host of a requested URL, is an API host of `service`.
pub fn host_is_api_host(host: Option<&str>, service: Service) -> (r: bool)
    ensures
        r == is_api_host(service, opt_view(host)),
{
    match host {
        Some(h) => {
            let hosts = service.api_hosts();
            let h = String::from_str(h);
            h == String::from_str(hosts[0]) || h == String::from_str(hosts[1])
        },
        None => false,
    }
}

/// Whether `value` is a URL on an API host of `service`.
pub fn is_relevant_url(value: &str, service: Service) -> (r: bool)
    ensures
        r == is_api_host(service, url_host(value@)),
{
    let host = parse_url_host(value);
    match host {
        Some(h) => host_is_api_host(Some(h.as_str()), service),
        None => host_is_api_host(None, service),
    }
}

/// The bearer token of the first `Authorization` header (any case) in
/// `members` that holds one.
pub open spec fn bearer_in(members: Seq<JsonMember>) -> Option<Seq<char>>
    decreases members.len(),
{
    if members.len() == 0 {
        None
    } else {
        let found = if eq_ignore_ascii_case(members[0].name@, "authorization"@) {
            match members[0].value.str_spec() {
                Some(v) => strip_prefix(v, "Bearer "@),
                None => None,
            }
        } else {
            None
        };
        if found is Some {
            found
        } else {
            bearer_in(members.drop_first())
        }
    }
}

/// The bearer token that a headers object carries.
pub open spec fn bearer_spec(headers: Json) -> Option<Seq<char>> {
    match headers.members_spec() {
        Some(members) => bearer_in(members),
        None => None,
    }
}

/// The bearer token that `headers` carries.
pub fn bearer_token(headers: &Json) -> (r: Option<String>)
    ensures
        opt_string_view(r) == bearer_spec(*headers),
{
    let members = match headers.as_object() {
        Some(m) => m,
        None => return None,
    };
    let n = members.len();
    let mut i: usize = 0;
    assert(members@.subrange(0, n as int) =~= members@);
    while i < n
        invariant
            n == members@.len(),
            i <= n,
            bearer_spec(*headers) == bearer_in(members@.subrange(i as int, n as int)),
        decreases n - i,
    {
        let ghost rest = members@.subrange(i as int, n as int);
        assert(rest.drop_first() =~= members@.subrange(i + 1, n as int));
        assert(rest[0] == members@[i as int]);
        let m = &members[i];
        if eq_ignore_ascii_case_str(m.name.as_str(), "authorization") {
            match m.value.as_str() {
                Some(v) => {
                    let stripped = strip_prefix_str(v, "Bearer ");
                    if stripped.is_some() {
                        return stripped;
                    }
                },
                None => {},
            }
        }
        i = i + 1;
    }
    None
}


/// What one DevTools event gives: the token it yields, if any, and the
/// relevant requests and early tokens known after it.
pub open spec fn event_step(
    event: Json,
    service: Service,
    relevant: Set<Seq<char>>,
    early: Map<Seq<char>, Seq<char>>,
) -> (Option<Seq<char>>, Set<Seq<char>>, Map<Seq<char>, Seq<char>>) {
    let unchanged = (None, relevant, early);
    match (event.get_str_spec("method"@), event.get_spec("params"@)) {
        (Some(method), Some(params)) => match params.get_str_spec("requestId"@) {
            None => unchanged,
            Some(id) => if method == "Network.requestWillBeSent"@ {
                match params.get_spec("request"@) {
                    None => unchanged,
                    Some(request) => match request.get_str_spec("url"@) {
                        None => unchanged,
                        Some(url) => if !is_api_host(service, url_host(url)) {
                            unchanged
                        } else {
                            let relevant2 = relevant.insert(id);
                            match request.get_spec("headers"@) {
                                None => (None, relevant2, early),
                                Some(headers) => match bearer_spec(headers) {
                                    Some(t) => (Some(t), relevant2, early),
                                    None => if early.contains_key(id) {
                                        (Some(early[id]), relevant2, early.remove(id))
                                    } else {
                                        (None, relevant2, early)
                                    },
                                },
                            }
                        },
                    },
                }
            } else if method == "Network.requestWillBeSentExtraInfo"@ {
                match params.get_spec("headers"@) {
                    None => unchanged,
                    Some(headers) => match bearer_spec(headers) {
                        None => unchanged,
                        Some(t) => if relevant.contains(id) {
                            (Some(t), relevant, early)
                        } else {
                            (None, relevant, early.insert(id, t))
                        },
                    },
                }
            } else {
                unchanged
            },
        },
        _ => unchanged,
    }
}

/// An authorization token seen for a request before the request itself.
pub struct EarlyToken {
    pub request_id: String,
    pub token: String,
}

/// Whether no two entries of `s` are for the same request.
pub open spec fn distinct_ids(s: Seq<EarlyToken>) -> bool {
    forall|i: int, j: int|
        0 <= i < s.len() && 0 <= j < s.len() && i != j ==> #[trigger] s[i].request_id@
            != #[trigger] s[j].request_id@
}

/// Whether `s` has an entry for request `id`.
pub open spec fn has_id(s: Seq<EarlyToken>, id: Seq<char>) -> bool {
    exists|i: int| 0 <= i < s.len() && #[trigger] s[i].request_id@ == id
}

/// The tokens of `s` by request.
pub open spec fn early_map(s: Seq<EarlyToken>) -> Map<Seq<char>, Seq<char>> {
    Map::new(
        |id: Seq<char>| has_id(s, id),
        |id: Seq<char>|
            s[choose|i: int| 0 <= i < s.len() && #[trigger] s[i].request_id@ == id].token@,
    )
}

proof fn lemma_early_map_at(s: Seq<EarlyToken>, i: int)
    requires
        distinct_ids(s),
        0 <= i < s.len(),
    ensures
        early_map(s).contains_key(s[i].request_id@),
        early_map(s)[s[i].request_id@] == s[i].token@,
{
    let id = s[i].request_id@;
    assert(has_id(s, id));
    let j = choose|j: int| 0 <= j < s.len() && #[trigger] s[j].request_id@ == id;
    assert(s[j].request_id@ == id);
    if j != i {
        assert(s[i].request_id@ != s[j].request_id@);
    }
}

/// The requests and tokens that the DevTools event stream has shown so far.
/// They are kept in vectors: the specifications of `HashSet` and `HashMap`
/// give nothing for `String` keys, not even that an inserted key is found.
pub struct TokenWatcher {
    relevant_requests: Vec<String>,
    early_tokens: Vec<EarlyToken>,
}

impl TokenWatcher {
    /// The requests seen to go to an API host of the service.
    pub closed spec fn relevant(&self) -> Set<Seq<char>> {
        Set::new(
            |id: Seq<char>|
                exists|i: int|
                    0 <= i < self.relevant_requests@.len() && #[trigger] self.relevant_requests@[i]@
                        == id,
        )
    }

    /// Tokens seen for requests that were not yet known to be relevant.
    pub closed spec fn early(&self) -> Map<Seq<char>, Seq<char>> {
        early_map(self.early_tokens@)
    }

    /// The internal invariant: no request has two early tokens.
    pub closed spec fn wf(&self) -> bool {
        distinct_ids(self.early_tokens@)
    }

    /// A watcher that has seen nothing.
    pub fn new() -> (w: TokenWatcher)
        ensures
            w.wf(),
            w.relevant() == Set::<Seq<char>>::empty(),
            w.early() == Map::<Seq<char>, Seq<char>>::empty(),
    {
        let w = TokenWatcher { relevant_requests: Vec::new(), early_tokens: Vec::new() };
        assert(w.relevant() =~= Set::<Seq<char>>::empty());
        assert(w.early() =~= Map::<Seq<char>, Seq<char>>::empty());
        w
    }

    /// Whether request `id` is known to be relevant.
    fn is_relevant(&self, id: &String) -> (r: bool)
        ensures
            r == self.relevant().contains(id@),
    {
        let n = self.relevant_requests.len();
        let mut i: usize = 0;
        while i < n
            invariant
                n == self.relevant_requests@.len(),
                i <= n,
                forall|j: int| 0 <= j < i ==> #[trigger] self.relevant_requests@[j]@ != id@,
            decreases n - i,
        {
            if self.relevant_requests[i] == *id {
                assert(self.relevant_requests@[i as int]@ == id@);
                return true;
            }
            i = i + 1;
        }
        false
    }

    /// Records request `id` as relevant.
    fn mark_relevant(&mut self, id: String)
        requires
            old(self).wf(),
        ensures
            final(self).wf(),
            final(self).relevant() == old(self).relevant().insert(id@),
            final(self).early() == old(self).early(),
    {
        if !self.is_relevant(&id) {
            let ghost before = self.relevant_requests@;
            self.relevant_requests.push(id);
            proof {
                assert forall|k: Seq<char>|
                    self.relevant().contains(k) == old(self).relevant().insert(id@).contains(
                        k,
                    ) by {
                    if old(self).relevant().contains(k) {
                        let i = choose|i: int|
                            0 <= i < before.len() && #[trigger] before[i]@ == k;
                        assert(self.relevant_requests@[i]@ == k);
                    }
                    if self.relevant().contains(k) {
                        let i = choose|i: int|
                            0 <= i < self.relevant_requests@.len()
                                && #[trigger] self.relevant_requests@[i]@ == k;
                        if i < before.len() {
                            assert(before[i]@ == k);
                        }
                    }
                    assert(self.relevant_requests@[before.len() as int]@ == id@);
                }
                assert(self.relevant() =~= old(self).relevant().insert(id@));
            }
        } else {
            assert(old(self).relevant().insert(id@) =~= old(self).relevant());
        }
    }

    /// Index of the early token for request `id`.
    fn find_early(&self, id: &String) -> (r: Option<usize>)
        requires
            self.wf(),
        ensures
            match r {
                Some(i) => i < self.early_tokens@.len() && self.early_tokens@[i as int].request_id@
                    == id@,
                None => !self.early().contains_key(id@),
            },
    {
        let n = self.early_tokens.len();
        let mut i: usize = 0;
        while i < n
            invariant
                n == self.early_tokens@.len(),
                i <= n,
                forall|j: int| 0 <= j < i ==> #[trigger] self.early_tokens@[j].request_id@ != id@,
            decreases n - i,
        {
            if self.early_tokens[i].request_id == *id {
                return Some(i);
            }
            i = i + 1;
        }
        None
    }

    /// Removes the early token for request `id` and returns it.
    fn take_early(&mut self, id: &String) -> (r: Option<String>)
        requires
            old(self).wf(),
        ensures
            final(self).wf(),
            final(self).relevant() == old(self).relevant(),
            opt_string_view(r) == old(self).early().get(id@),
            final(self).early() == old(self).early().remove(id@),
    {
        match self.find_early(id) {
            Some(i) => {
                let ghost before = self.early_tokens@;
                proof {
                    lemma_early_map_at(before, i as int);
                }
                let e = self.early_tokens.remove(i);
                proof {
                    let after = self.early_tokens@;
                    assert(after =~= before.remove(i as int));
                    assert forall|a: int, b: int|
                        0 <= a < after.len() && 0 <= b < after.len() && a != b implies #[trigger] after[a].request_id@
                        != #[trigger] after[b].request_id@ by {
                        let a0 = if a < i { a } else { a + 1 };
                        let b0 = if b < i { b } else { b + 1 };
                        assert(after[a] == before[a0]);
                        assert(after[b] == before[b0]);
                    }
                    assert forall|k: Seq<char>|
                        #[trigger] early_map(after).contains_key(k) == early_map(before).remove(
                            id@,
                        ).contains_key(k) by {
                        if has_id(after, k) {
                            let a = choose|a: int| 0 <= a < after.len() && #[trigger] after[a].request_id@ == k;
                            let a0 = if a < i { a } else { a + 1 };
                            assert(after[a] == before[a0]);
                            assert(before[a0].request_id@ == k);
                            assert(a0 != i);
                        }
                        if has_id(before, k) && k != id@ {
                            let b = choose|b: int| 0 <= b < before.len() && #[trigger] before[b].request_id@ == k;
                            assert(b != i);
                            let a = if b < i { b } else { b - 1 };
                            assert(after[a] == before[b]);
                        }
                    }
                    assert forall|k: Seq<char>| #[trigger] early_map(after).contains_key(k) implies early_map(after)[k]
                        == early_map(before).remove(id@)[k] by {
                        let a = choose|a: int| 0 <= a < after.len() && #[trigger] after[a].request_id@ == k;
                        let a0 = if a < i { a } else { a + 1 };
                        assert(after[a] == before[a0]);
                        lemma_early_map_at(after, a);
                        lemma_early_map_at(before, a0);
                    }
                    assert(early_map(after) =~= early_map(before).remove(id@));
                }
                Some(e.token)
            },
            None => {
                assert(self.early().remove(id@) =~= self.early());
                None
            },
        }
    }

    /// Takes one DevTools event into account and returns the access token
    /// that it shows, if any.
    pub fn token_from_event(&mut self, event: &Json, service: Service) -> (r: Option<String>)
        requires
            old(self).wf(),
        ensures
            final(self).wf(),
            (opt_string_view(r), final(self).relevant(), final(self).early()) == event_step(
                *event,
                service,
                old(self).relevant(),
                old(self).early(),
            ),
    {
        let method = match event.get_str("method") {
            Some(m) => m,
            None => return None,
        };
        let params = match event.get("params") {
            Some(p) => p,
            None => return None,
        };
        let request_id = match params.get_str("requestId") {
            Some(id) => id.to_owned(),
            None => return None,
        };
        let method = String::from_str(method);
        if method == String::from_str("Network.requestWillBeSent") {
            let request = match params.get("request") {
                Some(r) => r,
                None => return None,
            };
            let url = match request.get_str("url") {
                Some(u) => u,
                None => return None,
            };
            if !is_relevant_url(url, service) {
                return None;
            }
            self.mark_relevant(request_id.clone());
            let headers = match request.get("headers") {
                Some(h) => h,
                None => return None,
            };
            match bearer_token(headers) {
                Some(t) => Some(t),
                None => self.take_early(&request_id),
            }
        } else if method == String::from_str("Network.requestWillBeSentExtraInfo") {
            let headers = match params.get("headers") {
                Some(h) => h,
                None => return None,
            };
            let token = match bearer_token(headers) {
                Some(t) => t,
                None => return None,
            };
            if self.is_relevant(&request_id) {
                Some(token)
            } else {
                self.stash_early(request_id, token);
                None
            }
        } else {
            None
        }
    }

    /// Keeps `token` as the early token of request `id`.
    fn stash_early(&mut self, id: String, token: String)
        requires
            old(self).wf(),
        ensures
            final(self).wf(),
            final(self).relevant() == old(self).relevant(),
            final(self).early() == old(self).early().insert(id@, token@),
    {
        let ghost id_view = id@;
        let _ = self.take_early(&id);
        let ghost before = self.early_tokens@;
        self.early_tokens.push(EarlyToken { request_id: id, token });
        proof {
            let after = self.early_tokens@;
            assert(!has_id(before, id_view)) by {
                if has_id(before, id_view) {
                    assert(early_map(before).contains_key(id_view));
                }
            }
            assert forall|a: int, b: int|
                0 <= a < after.len() && 0 <= b < after.len() && a != b implies #[trigger] after[a].request_id@
                != #[trigger] after[b].request_id@ by {
                if a < before.len() && b < before.len() {
                    assert(after[a] == before[a]);
                    assert(after[b] == before[b]);
                } else if a < before.len() {
                    assert(after[a] == before[a]);
                    assert(before[a].request_id@ != id_view);
                } else if b < before.len() {
                    assert(after[b] == before[b]);
                    assert(before[b].request_id@ != id_view);
                }
            }
            let last = before.len() as int;
            assert(after[last].request_id@ == id_view);
            lemma_early_map_at(after, last);
            assert forall|k: Seq<char>|
                #[trigger] early_map(after).contains_key(k) == early_map(before).insert(
                    id_view,
                    token@,
                ).contains_key(k) by {
                if has_id(after, k) {
                    let a = choose|a: int| 0 <= a < after.len() && #[trigger] after[a].request_id@ == k;
                    if a < last {
                        assert(after[a] == before[a]);
                    }
                }
                if has_id(before, k) {
                    let b = choose|b: int| 0 <= b < before.len() && #[trigger] before[b].request_id@ == k;
                    assert(after[b] == before[b]);
                }
            }
            assert forall|k: Seq<char>| #[trigger] early_map(after).contains_key(k) implies early_map(after)[k]
                == early_map(before).insert(id_view, token@)[k] by {
                let a = choose|a: int| 0 <= a < after.len() && #[trigger] after[a].request_id@ == k;
                lemma_early_map_at(after, a);
                if a < last {
                    assert(after[a] == before[a]);
                    lemma_early_map_at(before, a);
                }
            }
            assert(early_map(after) =~= early_map(before).insert(id_view, token@));
        }
    }
}


/// The text of a login error.
pub open spec fn login_message(e: LoginError) -> Seq<char> {
    match e {
        LoginError::GroupCount => "web login requires exactly one --group"@,
        LoginError::UnsupportedGroup => "--web-login supports sakurazaka, hinatazaka, and nogizaka"@,
        LoginError::ChromeLaunch(last) => "could not start Google Chrome; set COLMSG_CHROME to its path ("@
            + match last {
            Some(m) => m@,
            None => "not found"@,
        } + ")"@,
        LoginError::ChromeExitedEarly(status) => "Google Chrome exited before startup ("@ + status@
            + ")"@,
        LoginError::ChromeStartTimeout => "timed out waiting for Google Chrome to start"@,
        LoginError::DevtoolsUnreachable => "could not connect to Google Chrome DevTools"@,
        LoginError::ConnectionFailed(m) => "Chrome DevTools connection failed: "@ + m@,
        LoginError::CommandFailed(m) => "Chrome DevTools error: "@ + m@,
        LoginError::TokenTimeout => "timed out waiting for an authenticated API request"@,
        LoginError::ChromeExited(status) => "Google Chrome exited with "@ + status@,
        LoginError::Io(m) => m@,
    }
}

impl LoginError {
    /// The text that reports this error.
    pub fn message(&self) -> (r: String)
        ensures
            r@ == login_message(*self),
    {
        match self {
            LoginError::GroupCount => String::from_str("web login requires exactly one --group"),
            LoginError::UnsupportedGroup => String::from_str(
                "--web-login supports sakurazaka, hinatazaka, and nogizaka",
            ),
            LoginError::ChromeLaunch(last) => {
                let head = String::from_str(
                    "could not start Google Chrome; set COLMSG_CHROME to its path (",
                );
                let body = match last {
                    Some(m) => head.concat(m.as_str()),
                    None => head.concat("not found"),
                };
                body.concat(")")
            },
            LoginError::ChromeExitedEarly(status) => String::from_str(
                "Google Chrome exited before startup (",
            ).concat(status.as_str()).concat(")"),
            LoginError::ChromeStartTimeout => String::from_str(
                "timed out waiting for Google Chrome to start",
            ),
            LoginError::DevtoolsUnreachable => String::from_str(
                "could not connect to Google Chrome DevTools",
            ),
            LoginError::ConnectionFailed(m) => String::from_str(
                "Chrome DevTools connection failed: ",
            ).concat(m.as_str()),
            LoginError::CommandFailed(m) => String::from_str("Chrome DevTools error: ").concat(
                m.as_str(),
            ),
            LoginError::TokenTimeout => String::from_str(
                "timed out waiting for an authenticated API request",
            ),
            LoginError::ChromeExited(status) => String::from_str(
                "Google Chrome exited with ",
            ).concat(status.as_str()),
            LoginError::Io(m) => m.clone(),
        }
    }
}

/// What the DevTools connection delivered next.
pub enum Incoming {
    /// A text message that holds this JSON event.
    Event(Json),
    /// A ping with this payload.
    Ping(Vec<u8>),
    /// Nothing to act on: another kind of message, text that is no JSON, or
    /// a read that timed out.
    Ignored,
    /// The connection failed for this reason.
    Failed(String),
    /// The time for waiting on an authenticated API request is over.
    DeadlinePassed,
}

/// What to do after a delivery of the DevTools connection.
#[derive(Debug, PartialEq, Eq)]
pub enum ListenAction {
    /// Keep reading.
    Continue,
    /// Answer with a pong that carries this payload, then keep reading.
    Pong(Vec<u8>),
    /// The access token was found.
    Token(String),
    /// Give up with this error.
    Fail(LoginError),
}

impl TokenWatcher {
    /// Decides what to do with the next delivery of the DevTools connection.
    pub fn on_incoming(&mut self, incoming: Incoming, service: Service) -> (a: ListenAction)
        requires
            old(self).wf(),
        ensures
            final(self).wf(),
            match incoming {
                Incoming::Event(e) => {
                    let step = event_step(e, service, old(self).relevant(), old(self).early());
                    &&& final(self).relevant() == step.1
                    &&& final(self).early() == step.2
                    &&& match step.0 {
                        Some(t) => a matches ListenAction::Token(tok) && tok@ == t,
                        None => a == ListenAction::Continue,
                    }
                },
                Incoming::Ping(payload) => {
                    &&& a == ListenAction::Pong(payload)
                    &&& final(self).relevant() == old(self).relevant()
                    &&& final(self).early() == old(self).early()
                },
                Incoming::Ignored => {
                    &&& a == ListenAction::Continue
                    &&& final(self).relevant() == old(self).relevant()
                    &&& final(self).early() == old(self).early()
                },
                Incoming::Failed(m) => {
                    &&& a == ListenAction::Fail(LoginError::ConnectionFailed(m))
                    &&& final(self).relevant() == old(self).relevant()
                    &&& final(self).early() == old(self).early()
                },
                Incoming::DeadlinePassed => {
                    &&& a == ListenAction::Fail(LoginError::TokenTimeout)
                    &&& final(self).relevant() == old(self).relevant()
                    &&& final(self).early() == old(self).early()
                },
            },
    {
        match incoming {
            Incoming::Event(e) => match self.token_from_event(&e, service) {
                Some(t) => ListenAction::Token(t),
                None => ListenAction::Continue,
            },
            Incoming::Ping(payload) => ListenAction::Pong(payload),
            Incoming::Ignored => ListenAction::Continue,
            Incoming::Failed(m) => ListenAction::Fail(LoginError::ConnectionFailed(m)),
            Incoming::DeadlinePassed => ListenAction::Fail(LoginError::TokenTimeout),
        }
    }
}

/// The DevTools port written in the first line of Chrome's
/// `DevToolsActivePort` file with contents `content`.
pub open spec fn devtools_port_spec(content: Seq<char>) -> Option<u16> {
    match first_line(content) {
        Some(line) => parse_u16(line),
        None => None,
    }
}

/// The DevTools port that the `DevToolsActivePort` file `content` gives.
pub fn devtools_port(content: &str) -> (r: Option<u16>)
    ensures
        r == devtools_port_spec(content@),
{
    match first_line_str(content) {
        Some(line) => parse_u16_str(line.as_str()),
        None => None,
    }
}

/// What to do while waiting for Chrome to report its DevTools port.
#[derive(Debug, PartialEq, Eq)]
pub enum DevtoolsPoll {
    /// Chrome listens on this port.
    Ready(u16),
    /// Give up with this error.
    Failed(LoginError),
    /// Look again after the poll interval.
    Wait,
}

/// One look at Chrome while it starts: `content` is what the port file
/// holds, if it could be read; `exit_status` is how Chrome exited, if it has;
/// `timed_out` says whether the start timeout has passed.
pub fn devtools_poll(content: Option<&str>, exit_status: Option<String>, timed_out: bool) -> (r:
    DevtoolsPoll)
    ensures
        r == match opt_view(content) {
            Some(c) if devtools_port_spec(c) is Some => DevtoolsPoll::Ready(
                devtools_port_spec(c)->0,
            ),
            _ => match exit_status {
                Some(status) => DevtoolsPoll::Failed(LoginError::ChromeExitedEarly(status)),
                None => if timed_out {
                    DevtoolsPoll::Failed(LoginError::ChromeStartTimeout)
                } else {
                    DevtoolsPoll::Wait
                },
            },
        },
{
    if let Some(c) = content {
        if let Some(port) = devtools_port(c) {
            return DevtoolsPoll::Ready(port);
        }
    }
    match exit_status {
        Some(status) => DevtoolsPoll::Failed(LoginError::ChromeExitedEarly(status)),
        None => if timed_out {
            DevtoolsPoll::Failed(LoginError::ChromeStartTimeout)
        } else {
            DevtoolsPoll::Wait
        },
    }
}

/// A target that Chrome DevTools lists.
pub struct Target {
    /// The kind of target (`type`).
    pub kind: String,
    /// The address for debugging it over a WebSocket (`webSocketDebuggerUrl`).
    pub web_socket_url: Option<String>,
}

/// Whether `t` is a page that can be debugged.
pub open spec fn is_page_target(t: Target) -> bool {
    t.kind@ == "page"@ && t.web_socket_url is Some
}

/// The index of the first debuggable page among `targets`.
pub fn find_page_target(targets: &Vec<Target>) -> (r: Option<usize>)
    ensures
        match r {
            Some(i) => i < targets@.len() && is_page_target(targets@[i as int]) && forall|j: int|
                0 <= j < i ==> !is_page_target(#[trigger] targets@[j]),
            None => forall|j: int| 0 <= j < targets@.len() ==> !is_page_target(#[trigger] targets@[j]),
        },
{
    let page = String::from_str("page");
    let n = targets.len();
    let mut i: usize = 0;
    while i < n
        invariant
            n == targets@.len(),
            i <= n,
            page@ == "page"@,
            forall|j: int| 0 <= j < i ==> !is_page_target(#[trigger] targets@[j]),
        decreases n - i,
    {
        if targets[i].kind == page && targets[i].web_socket_url.is_some() {
            return Some(i);
        }
        i = i + 1;
    }
    None
}

/// What to do while waiting for a page target.
#[derive(Debug, PartialEq, Eq)]
pub enum TargetPoll {
    /// A page can be debugged over the WebSocket at this address.
    Found(String),
    /// Give up with this error.
    Failed(LoginError),
    /// Look again after the poll interval.
    Wait,
}

/// One look at the DevTools target list: `targets` is the list, if it could
/// be fetched; `timed_out` says whether the timeout has passed.
pub fn page_target_poll(targets: Option<Vec<Target>>, timed_out: bool) -> (r: TargetPoll)
    ensures
        match targets {
            Some(ts) if exists|j: int| 0 <= j < ts@.len() && is_page_target(#[trigger] ts@[j]) => {
                r matches TargetPoll::Found(url) && exists|i: int|
                    0 <= i < ts@.len() && is_page_target(#[trigger] ts@[i]) && (forall|j: int|
                        0 <= j < i ==> !is_page_target(#[trigger] ts@[j]))
                        && ts@[i].web_socket_url == Some(url)
            },
            _ => r == if timed_out {
                TargetPoll::Failed(LoginError::DevtoolsUnreachable)
            } else {
                TargetPoll::Wait
            },
        },
{
    if let Some(ts) = targets {
        if let Some(i) = find_page_target(&ts) {
            match &ts[i].web_socket_url {
                Some(url) => return TargetPoll::Found(url.clone()),
                None => {},
            }
        }
    }
    if timed_out {
        TargetPoll::Failed(LoginError::DevtoolsUnreachable)
    } else {
        TargetPoll::Wait
    }
}

/// The arguments with which Chrome is started on `page`, with the profile in
/// `profile_dir`, and with DevTools reachable where `remote_debugging`.
pub open spec fn chrome_args_spec(profile_dir: Seq<char>, page: Seq<char>, remote_debugging: bool) -> Seq<
    Seq<char>,
> {
    (if remote_debugging {
        seq![
            "--remote-debugging-address=127.0.0.1"@,
            "--remote-debugging-port=0"@,
            "--remote-allow-origins=*"@,
        ]
    } else {
        Seq::empty()
    }) + seq!["--user-data-dir="@ + profile_dir, "--no-first-run"@, "--no-default-browser-check"@, page]
}

/// The arguments with which Chrome is started.
pub fn chrome_args(profile_dir: &str, page: &str, remote_debugging: bool) -> (r: Vec<String>)
    ensures
        strings_view(r@) == chrome_args_spec(profile_dir@, page@, remote_debugging),
{
    let mut r: Vec<String> = Vec::new();
    if remote_debugging {
        r.push(String::from_str("--remote-debugging-address=127.0.0.1"));
        r.push(String::from_str("--remote-debugging-port=0"));
        r.push(String::from_str("--remote-allow-origins=*"));
    }
    r.push(String::from_str("--user-data-dir=").concat(profile_dir));
    r.push(String::from_str("--no-first-run"));
    r.push(String::from_str("--no-default-browser-check"));
    r.push(String::from_str(page));
    assert(strings_view(r@) =~= chrome_args_spec(profile_dir@, page@, remote_debugging));
    r
}

/// The Chrome executables tried on Linux and other Unix systems.
pub fn unix_chrome_candidates() -> (r: Vec<String>)
    ensures
        strings_view(r@) == seq![
            "google-chrome"@,
            "google-chrome-stable"@,
            "chromium"@,
            "chromium-browser"@,
        ],
{
    let r = vec![
        String::from_str("google-chrome"),
        String::from_str("google-chrome-stable"),
        String::from_str("chromium"),
        String::from_str("chromium-browser"),
    ];
    assert(strings_view(r@) =~= seq![
        "google-chrome"@,
        "google-chrome-stable"@,
        "chromium"@,
        "chromium-browser"@,
    ]);
    r
}

/// The Chrome executable tried on macOS.
pub fn macos_chrome_candidates() -> (r: Vec<String>)
    ensures
        strings_view(r@) == seq!["/Applications/Google Chrome.app/Contents/MacOS/Google Chrome"@],
{
    let r = vec![String::from_str("/Applications/Google Chrome.app/Contents/MacOS/Google Chrome")];
    assert(strings_view(r@) =~= seq![
        "/Applications/Google Chrome.app/Contents/MacOS/Google Chrome"@,
    ]);
    r
}

/// The environment variables whose directories hold Chrome on Windows.
pub fn windows_chrome_roots() -> (r: Vec<String>)
    ensures
        strings_view(r@) == seq!["PROGRAMFILES"@, "PROGRAMFILES(X86)"@, "LOCALAPPDATA"@],
{
    let r = vec![
        String::from_str("PROGRAMFILES"),
        String::from_str("PROGRAMFILES(X86)"),
        String::from_str("LOCALAPPDATA"),
    ];
    assert(strings_view(r@) =~= seq!["PROGRAMFILES"@, "PROGRAMFILES(X86)"@, "LOCALAPPDATA"@]);
    r
}

/// The path of Chrome below each Windows root.
pub const WINDOWS_CHROME_EXE: &'static str = "Google/Chrome/Application/chrome.exe";

/// A DevTools command: its id, its method and, for a navigation, the page.
#[derive(Debug, PartialEq, Eq)]
pub struct DevtoolsCommand {
    pub id: u64,
    pub method: String,
    pub url: Option<String>,
}

/// `j` is the JSON message of `c`: an object with the members `id` and
/// `method`, and for a navigation `params` holding the `url`.
pub open spec fn is_command_json(c: DevtoolsCommand, j: Json) -> bool {
    &&& j matches Json::Object(members)
    &&& members@.len() == if c.url is Some {
        3int
    } else {
        2int
    }
    &&& members@[0].name@ == "id"@
    &&& members@[0].value matches Json::Number(n) && n@ == decimal_text(c.id as nat)
    &&& members@[1].name@ == "method"@
    &&& members@[1].value matches Json::Str(m) && m@ == c.method@
    &&& c.url matches Some(url) ==> {
        &&& members@[2].name@ == "params"@
        &&& members@[2].value matches Json::Object(params)
        &&& params@.len() == 1
        &&& params@[0].name@ == "url"@
        &&& params@[0].value matches Json::Str(u) && u@ == url@
    }
}

impl DevtoolsCommand {
    /// The JSON message that sends this command.
    pub fn to_json(&self) -> (j: Json)
        ensures
            is_command_json(*self, j),
    {
        let mut members: Vec<JsonMember> = Vec::new();
        members.push(
            JsonMember { name: String::from_str("id"), value: Json::Number(decimal_string(self.id)) },
        );
        members.push(
            JsonMember { name: String::from_str("method"), value: Json::Str(self.method.clone()) },
        );
        match &self.url {
            Some(url) => {
                let mut params: Vec<JsonMember> = Vec::new();
                params.push(JsonMember { name: String::from_str("url"), value: Json::Str(url.clone()) });
                members.push(JsonMember { name: String::from_str("params"), value: Json::Object(params) });
            },
            None => {},
        }
        Json::Object(members)
    }
}

/// The address at which DevTools on `port` lists its targets.
pub fn devtools_list_endpoint(port: u16) -> (s: String)
    ensures
        s@ == "http://127.0.0.1:"@ + decimal_text(port as nat) + "/json/list"@,
{
    String::from_str("http://127.0.0.1:").concat(decimal_string(port as u64).as_str()).concat(
        "/json/list",
    )
}

/// The command that makes DevTools report network events.
pub fn network_enable_command() -> (c: DevtoolsCommand)
    ensures
        c.id == 1,
        c.method@ == "Network.enable"@,
        c.url is None,
{
    DevtoolsCommand { id: 1, method: String::from_str("Network.enable"), url: None }
}

/// The command that opens the web client of `service`.
pub fn navigate_command(service: Service) -> (c: DevtoolsCommand)
    ensures
        c.id == 2,
        c.method@ == "Page.navigate"@,
        opt_string_view(c.url) == Some(site_spec(service)),
{
    DevtoolsCommand {
        id: 2,
        method: String::from_str("Page.navigate"),
        url: Some(String::from_str(service.site())),
    }
}

/// The command that closes the browser.
pub fn browser_close_command() -> (c: DevtoolsCommand)
    ensures
        c.id == 3,
        c.method@ == "Browser.close"@,
        c.url is None,
{
    DevtoolsCommand { id: 3, method: String::from_str("Browser.close"), url: None }
}

/// The outcome of the setup, after Chrome exited with `status`, which was a
/// success where `success`.
pub fn setup_outcome(success: bool, status: String) -> (r: Result<(), LoginError>)
    ensures
        r == if success {
            Ok::<(), LoginError>(())
        } else {
            Err(LoginError::ChromeExited(status))
        },
{
    if success {
        Ok(())
    } else {
        Err(LoginError::ChromeExited(status))
    }
}


/// `e` reports that request `id` is sent to `url` with the headers `headers`.
pub open spec fn is_request_event(e: Json, id: Seq<char>, url: Seq<char>, headers: Json) -> bool {
    &&& e.get_str_spec("method"@) == Some("Network.requestWillBeSent"@)
    &&& e.get_spec("params"@) matches Some(params)
    &&& params.get_str_spec("requestId"@) == Some(id)
    &&& params.get_spec("request"@) matches Some(request)
    &&& request.get_str_spec("url"@) == Some(url)
    &&& request.get_spec("headers"@) == Some(headers)
}

/// `e` reports the headers `headers` that request `id` is sent with.
pub open spec fn is_extra_info_event(e: Json, id: Seq<char>, headers: Json) -> bool {
    &&& e.get_str_spec("method"@) == Some("Network.requestWillBeSentExtraInfo"@)
    &&& e.get_spec("params"@) matches Some(params)
    &&& params.get_str_spec("requestId"@) == Some(id)
    &&& params.get_spec("headers"@) == Some(headers)
}

proof fn lemma_method_names_differ()
    ensures
        "Network.requestWillBeSent"@ != "Network.requestWillBeSentExtraInfo"@,
{
    reveal_strlit("Network.requestWillBeSent");
    reveal_strlit("Network.requestWillBeSentExtraInfo");
    assert("Network.requestWillBeSent"@.len() != "Network.requestWillBeSentExtraInfo"@.len());
}

/// A request to the API whose token Chrome reports separately, in an
/// extra-info event, yields that token once both events are seen, whichever
/// comes first: when the request comes first, the extra-info event yields the
/// token; when the extra-info event comes first, it yields nothing and the
/// request then yields the token and forgets it.
pub proof fn law_token_in_either_order(
    request: Json,
    extra: Json,
    service: Service,
    id: Seq<char>,
    url: Seq<char>,
    request_headers: Json,
    extra_headers: Json,
    token: Seq<char>,
    relevant: Set<Seq<char>>,
    early: Map<Seq<char>, Seq<char>>,
)
    requires
        is_request_event(request, id, url, request_headers),
        is_extra_info_event(extra, id, extra_headers),
        is_api_host(service, url_host(url)),
        bearer_spec(request_headers) is None,
        bearer_spec(extra_headers) == Some(token),
        !relevant.contains(id),
        !early.contains_key(id),
    ensures
        ({
            let first = event_step(request, service, relevant, early);
            let second = event_step(extra, service, first.1, first.2);
            first.0 is None && second.0 == Some(token)
        }),
        ({
            let first = event_step(extra, service, relevant, early);
            let second = event_step(request, service, first.1, first.2);
            &&& first.0 is None
            &&& second.0 == Some(token)
            &&& second.1 == relevant.insert(id)
            &&& second.2 == early
        }),
{
    lemma_method_names_differ();
    let first = event_step(extra, service, relevant, early);
    assert(first.2 == early.insert(id, token));
    assert(early.insert(id, token).remove(id) =~= early);
}

/// A request to a host that is not an API host of the service leaves the
/// watcher as it was and yields no token.
pub proof fn law_other_hosts_ignored(
    request: Json,
    service: Service,
    id: Seq<char>,
    url: Seq<char>,
    headers: Json,
    relevant: Set<Seq<char>>,
    early: Map<Seq<char>, Seq<char>>,
)
    requires
        is_request_event(request, id, url, headers),
        !is_api_host(service, url_host(url)),
    ensures
        event_step(request, service, relevant, early) == (
            None::<Seq<char>>,
            relevant,
            early,
        ),
{
}

/// The requests known to be relevant are never forgotten, and a token is
/// only ever yielded for a request that is known to go to the API.
pub proof fn law_tokens_only_from_api_requests(
    event: Json,
    service: Service,
    relevant: Set<Seq<char>>,
    early: Map<Seq<char>, Seq<char>>,
)
    ensures
        ({
            let step = event_step(event, service, relevant, early);
            &&& relevant.subset_of(step.1)
            &&& step.0 is Some ==> (event.get_spec("params"@) matches Some(params)
                && params.get_str_spec("requestId"@) matches Some(id) && step.1.contains(id))
        }),
{
    lemma_method_names_differ();
}

/// Every service is named by its `--group` value, and a command line whose
/// only `--group` is that name selects it.
pub proof fn law_group_names_select_services(s: Service, m: Matches)
    requires
        m.values_spec("group"@) == Some(seq![group_name(s)]),
    ensures
        service_named(group_name(s)) == Some(s),
        service_from_matches(m) == Ok::<Service, LoginError>(s),
{
    reveal_strlit("sakurazaka");
    reveal_strlit("hinatazaka");
    reveal_strlit("nogizaka");
    assert("sakurazaka"@[0] != "hinatazaka"@[0]);
    assert("sakurazaka"@[0] != "nogizaka"@[0]);
    assert("hinatazaka"@[0] != "nogizaka"@[0]);
    assert(seq![group_name(s)][0] == group_name(s));
}

/// Different services have different web clients, different API hosts and
/// different access-token variables.
pub proof fn law_services_distinct(s1: Service, s2: Service)
    requires
        s1 != s2,
    ensures
        site_spec(s1) != site_spec(s2),
        token_env_spec(s1) != token_env_spec(s2),
        forall|h: Option<Seq<char>>| !(is_api_host(s1, h) && is_api_host(s2, h)),
{
    reveal_strlit("https://message.sakurazaka46.com/");
    reveal_strlit("https://message.hinatazaka46.com/");
    reveal_strlit("https://message.nogizaka46.com/");
    reveal_strlit("COLMSG_S_ACCESS_TOKEN");
    reveal_strlit("COLMSG_H_ACCESS_TOKEN");
    reveal_strlit("COLMSG_N_ACCESS_TOKEN");
    reveal_strlit("api.message.sakurazaka46.com");
    reveal_strlit("api.s46.glastonr.net");
    reveal_strlit("api.message.hinatazaka46.com");
    reveal_strlit("api.kh.glastonr.net");
    reveal_strlit("api.message.nogizaka46.com");
    reveal_strlit("api.n46.glastonr.net");
    assert("https://message.sakurazaka46.com/"@[16] != "https://message.hinatazaka46.com/"@[16]);
    assert("https://message.sakurazaka46.com/"@[16] != "https://message.nogizaka46.com/"@[16]);
    assert("https://message.hinatazaka46.com/"@[16] != "https://message.nogizaka46.com/"@[16]);
    assert("COLMSG_S_ACCESS_TOKEN"@[7] != "COLMSG_H_ACCESS_TOKEN"@[7]);
    assert("COLMSG_S_ACCESS_TOKEN"@[7] != "COLMSG_N_ACCESS_TOKEN"@[7]);
    assert("COLMSG_H_ACCESS_TOKEN"@[7] != "COLMSG_N_ACCESS_TOKEN"@[7]);
    assert forall|h: Option<Seq<char>>| !(is_api_host(s1, h) && is_api_host(s2, h)) by {
        if let Some(x) = h {
            if is_api_host(s1, h) && is_api_host(s2, h) {
                assert("api.message.sakurazaka46.com"@[12] != "api.message.hinatazaka46.com"@[12]);
                assert("api.message.sakurazaka46.com"@[12] != "api.message.nogizaka46.com"@[12]);
                assert("api.message.hinatazaka46.com"@[12] != "api.message.nogizaka46.com"@[12]);
                assert("api.s46.glastonr.net"@[4] != "api.kh.glastonr.net"@[4]);
                assert("api.s46.glastonr.net"@[4] != "api.n46.glastonr.net"@[4]);
                assert("api.kh.glastonr.net"@[4] != "api.n46.glastonr.net"@[4]);
                assert("api.message.sakurazaka46.com"@.len() != "api.s46.glastonr.net"@.len());
                assert("api.message.sakurazaka46.com"@.len() != "api.kh.glastonr.net"@.len());
                assert("api.message.sakurazaka46.com"@.len() != "api.n46.glastonr.net"@.len());
                assert("api.message.hinatazaka46.com"@.len() != "api.s46.glastonr.net"@.len());
                assert("api.message.hinatazaka46.com"@.len() != "api.kh.glastonr.net"@.len());
                assert("api.message.hinatazaka46.com"@.len() != "api.n46.glastonr.net"@.len());
                assert("api.message.nogizaka46.com"@.len() != "api.s46.glastonr.net"@.len());
                assert("api.message.nogizaka46.com"@.len() != "api.kh.glastonr.net"@.len());
                assert("api.message.nogizaka46.com"@.len() != "api.n46.glastonr.net"@.len());
            }
        }
    }
}

/// `m` is an `Authorization` header (any ASCII case) whose value is
/// `"Bearer "` followed by `token`.
pub open spec fn is_bearer_header(m: JsonMember, token: Seq<char>) -> bool {
    &&& eq_ignore_ascii_case(m.name@, "authorization"@)
    &&& m.value.str_spec() == Some("Bearer "@ + token)
}

/// `m` is an `Authorization` header (any ASCII case) whose value begins with
/// `"Bearer "`.
pub open spec fn has_bearer_value(m: JsonMember) -> bool {
    &&& eq_ignore_ascii_case(m.name@, "authorization"@)
    &&& m.value.str_spec() matches Some(v)
    &&& "Bearer "@.len() <= v.len()
    &&& v.subrange(0, "Bearer "@.len() as int) == "Bearer "@
}

proof fn lemma_bearer_prefix(token: Seq<char>)
    ensures
        strip_prefix("Bearer "@ + token, "Bearer "@) == Some(token),
{
    let v = "Bearer "@ + token;
    let n = "Bearer "@.len() as int;
    assert(v.subrange(0, n) =~= "Bearer "@);
    assert(v.subrange(n, v.len() as int) =~= token);
}

proof fn lemma_bearer_in_skips(others: Seq<JsonMember>, tail: Seq<JsonMember>)
    requires
        forall|i: int| 0 <= i < others.len() ==> !has_bearer_value(#[trigger] others[i]),
    ensures
        bearer_in(others + tail) == bearer_in(tail),
    decreases others.len(),
{
    if others.len() > 0 {
        let all = others + tail;
        assert(all[0] == others[0]);
        assert(!has_bearer_value(others[0]));
        assert(all.drop_first() =~= others.drop_first() + tail);
        assert forall|i: int| 0 <= i < others.drop_first().len() implies !has_bearer_value(
            #[trigger] others.drop_first()[i],
        ) by {
            assert(others.drop_first()[i] == others[i + 1]);
        }
        lemma_bearer_in_skips(others.drop_first(), tail);
    } else {
        assert(others + tail =~= tail);
    }
}

/// The bearer token is found whatever headers come before its
/// `Authorization` header, as long as none of them is itself an
/// `Authorization` header with a bearer value: headers that are not
/// `Authorization` never stop the search.
pub proof fn law_bearer_found_after_other_headers(
    headers: Json,
    others: Seq<JsonMember>,
    auth: JsonMember,
    rest: Seq<JsonMember>,
    token: Seq<char>,
)
    requires
        headers.members_spec() == Some(others + seq![auth] + rest),
        is_bearer_header(auth, token),
        forall|i: int| 0 <= i < others.len() ==> !has_bearer_value(#[trigger] others[i]),
    ensures
        bearer_spec(headers) == Some(token),
{
    let tail = seq![auth] + rest;
    assert(others + seq![auth] + rest =~= others + tail);
    lemma_bearer_in_skips(others, tail);
    assert(tail[0] == auth);
    lemma_bearer_prefix(token);
}

/// A bearer token is only ever taken from an `Authorization` header whose
/// value is `"Bearer "` followed by that token, and from the first such one.
pub proof fn law_bearer_comes_from_an_authorization_header(headers: Json, token: Seq<char>)
    requires
        bearer_spec(headers) == Some(token),
    ensures
        headers.members_spec() matches Some(members) && exists|i: int|
            0 <= i < members.len() && is_bearer_header(#[trigger] members[i], token) && forall|j: int|
                0 <= j < i ==> !has_bearer_value(#[trigger] members[j]),
{
    let members = headers.members_spec()->0;
    lemma_bearer_in_source(members, token);
}

proof fn lemma_bearer_in_source(members: Seq<JsonMember>, token: Seq<char>)
    requires
        bearer_in(members) == Some(token),
    ensures
        exists|i: int|
            0 <= i < members.len() && is_bearer_header(#[trigger] members[i], token) && forall|j: int|
                0 <= j < i ==> !has_bearer_value(#[trigger] members[j]),
    decreases members.len(),
{
    let m = members[0];
    let found = if eq_ignore_ascii_case(m.name@, "authorization"@) {
        match m.value.str_spec() {
            Some(v) => strip_prefix(v, "Bearer "@),
            None => None,
        }
    } else {
        None
    };
    if found is Some {
        let v = m.value.str_spec()->0;
        let n = "Bearer "@.len() as int;
        assert(v =~= "Bearer "@ + v.subrange(n, v.len() as int));
        assert(is_bearer_header(members[0], token));
    } else {
        assert(!has_bearer_value(m));
        lemma_bearer_in_source(members.drop_first(), token);
        let k = choose|i: int|
            0 <= i < members.drop_first().len() && is_bearer_header(
                #[trigger] members.drop_first()[i],
                token,
            ) && forall|j: int| 0 <= j < i ==> !has_bearer_value(#[trigger] members.drop_first()[j]);
        assert(members[k + 1] == members.drop_first()[k]);
        assert forall|j: int| 0 <= j < k + 1 implies !has_bearer_value(#[trigger] members[j]) by {
            if j > 0 {
                assert(members[j] == members.drop_first()[j - 1]);
            }
        }
    }
}

/// Each of the two API hosts of a service is recognised as one, and no
/// other host is.
pub proof fn law_api_hosts_recognised(s: Service, host: Option<Seq<char>>)
    ensures
        is_api_host(s, Some(api_hosts_spec(s).0)),
        is_api_host(s, Some(api_hosts_spec(s).1)),
        is_api_host(s, host) <==> (host == Some(api_hosts_spec(s).0) || host == Some(
            api_hosts_spec(s).1,
        )),
        is_api_host(Service::Sakurazaka, Some("api.message.sakurazaka46.com"@)),
        is_api_host(Service::Sakurazaka, Some("api.s46.glastonr.net"@)),
        is_api_host(Service::Hinatazaka, Some("api.message.hinatazaka46.com"@)),
        is_api_host(Service::Hinatazaka, Some("api.kh.glastonr.net"@)),
        is_api_host(Service::Nogizaka, Some("api.message.nogizaka46.com"@)),
        is_api_host(Service::Nogizaka, Some("api.n46.glastonr.net"@)),
{
}

/// Whatever port Chrome writes on the first line of `DevToolsActivePort`,
/// the whole `u16` range included, is the port that is read, whether the
/// line ends in a line feed or in a carriage return and line feed.
pub proof fn law_devtools_port_read_back(port: u16, rest: Seq<char>, crlf: bool)
    ensures
        devtools_port_spec(
            decimal_text(port as nat) + (if crlf {
                seq!['\r', '\n']
            } else {
                seq!['\n']
            }) + rest,
        ) == Some(port),
        devtools_port_spec(decimal_text(port as nat)) == Some(port),
{
    law_parse_reads_decimal_text(port);
    let line = decimal_text(port as nat);
    assert forall|i: int| 0 <= i < line.len() implies #[trigger] line[i] != '\n' && line[i] != '\r' by {
        lemma_decimal_text_line(port as nat, i);
    }
    law_first_line_before_line_feed(line, rest, crlf);
    assert(!(exists|k: int| 0 <= k < line.len() && line[k] == '\n'));
}

proof fn lemma_decimal_text_line(n: nat, i: int)
    requires
        0 <= i < decimal_text(n).len(),
    ensures
        decimal_text(n)[i] != '\n' && decimal_text(n)[i] != '\r',
    decreases n,
{
    if n >= 10 {
        let t = decimal_text(n / 10);
        if i < t.len() {
            assert(decimal_text(n)[i] == t[i]);
            lemma_decimal_text_line(n / 10, i);
        }
    }
}

/// Chrome gets the profile directory exactly as given, after
/// `--user-data-dir=`, and the page as the last argument; the debugging
/// switches come first and only where asked for.
pub proof fn law_chrome_args_profile_and_page(
    profile_dir: Seq<char>,
    page: Seq<char>,
    remote_debugging: bool,
)
    ensures
        ({
            let args = chrome_args_spec(profile_dir, page, remote_debugging);
            let k: int = if remote_debugging {
                3
            } else {
                0
            };
            let arg = args[k];
            &&& args.len() == k + 4
            &&& arg.len() == 16 + profile_dir.len()
            &&& arg.subrange(0, 16) == "--user-data-dir="@
            &&& arg.subrange(16, arg.len() as int) == profile_dir
            &&& args.last() == page
        }),
{
    reveal_strlit("--user-data-dir=");
    let args = chrome_args_spec(profile_dir, page, remote_debugging);
    let k: int = if remote_debugging {
        3
    } else {
        0
    };
    let arg = args[k];
    assert(arg == "--user-data-dir="@ + profile_dir);
    assert(arg.subrange(0, 16) =~= "--user-data-dir="@);
    assert(arg.subrange(16, arg.len() as int) =~= profile_dir);
}

} // verus!
