use colmsg::args::Matches;
use colmsg::json::{Json, JsonMember};
use colmsg::web_login::{
    bearer_token, browser_close_command, chrome_args, devtools_list_endpoint, devtools_poll,
    devtools_port,
    find_page_target, host_is_api_host, is_relevant_url, macos_chrome_candidates,
    navigate_command, network_enable_command, page_target_poll, setup_outcome,
    unix_chrome_candidates, windows_chrome_roots, DevtoolsPoll, Incoming, ListenAction,
    LoginError, Service, Target, TargetPoll, TokenWatcher, LOGIN_TIMEOUT_SECS,
    WINDOWS_CHROME_EXE,
};

fn s(v: &str) -> Json {
    Json::Str(v.to_string())
}

fn obj(members: Vec<(&str, Json)>) -> Json {
    Json::Object(
        members
            .into_iter()
            .map(|(name, value)| JsonMember { name: name.to_string(), value })
            .collect(),
    )
}

fn headers(pairs: &[(&str, &str)]) -> Json {
    obj(pairs.iter().map(|(n, v)| (*n, s(v))).collect())
}

fn request_event(id: &str, url: &str, hdrs: Json) -> Json {
    obj(vec![
        ("method", s("Network.requestWillBeSent")),
        (
            "params",
            obj(vec![
                ("requestId", s(id)),
                ("request", obj(vec![("url", s(url)), ("headers", hdrs)])),
            ]),
        ),
    ])
}

fn extra_info_event(id: &str, hdrs: Json) -> Json {
    obj(vec![
        ("method", s("Network.requestWillBeSentExtraInfo")),
        ("params", obj(vec![("requestId", s(id)), ("headers", hdrs)])),
    ])
}

fn group(values: &[&str]) -> Matches {
    let mut m = Matches::empty();
    m.push("group".to_string(), values.iter().map(|v| v.to_string()).collect());
    m
}

#[test]
fn group_selects_the_service() {
    assert_eq!(Service::from_matches(&group(&["sakurazaka"])), Ok(Service::Sakurazaka));
    assert_eq!(Service::from_matches(&group(&["hinatazaka"])), Ok(Service::Hinatazaka));
    assert_eq!(Service::from_matches(&group(&["nogizaka"])), Ok(Service::Nogizaka));
}

#[test]
fn group_errors() {
    assert_eq!(Service::from_matches(&Matches::empty()), Err(LoginError::GroupCount));
    assert_eq!(
        Service::from_matches(&group(&["nogizaka", "sakurazaka"])),
        Err(LoginError::GroupCount)
    );
    assert_eq!(Service::from_matches(&group(&["yodel"])), Err(LoginError::UnsupportedGroup));
    assert_eq!(
        LoginError::GroupCount.message(),
        "web login requires exactly one --group"
    );
    assert_eq!(
        LoginError::UnsupportedGroup.message(),
        "--web-login supports sakurazaka, hinatazaka, and nogizaka"
    );
}

#[test]
fn services_have_their_addresses() {
    assert_eq!(Service::Sakurazaka.site(), "https://message.sakurazaka46.com/");
    assert_eq!(Service::Hinatazaka.site(), "https://message.hinatazaka46.com/");
    assert_eq!(Service::Nogizaka.site(), "https://message.nogizaka46.com/");
    assert_eq!(
        Service::Sakurazaka.api_hosts(),
        ["api.message.sakurazaka46.com", "api.s46.glastonr.net"]
    );
    assert_eq!(
        Service::Hinatazaka.api_hosts(),
        ["api.message.hinatazaka46.com", "api.kh.glastonr.net"]
    );
    assert_eq!(
        Service::Nogizaka.api_hosts(),
        ["api.message.nogizaka46.com", "api.n46.glastonr.net"]
    );
    assert_eq!(Service::Sakurazaka.token_env(), "COLMSG_S_ACCESS_TOKEN");
    assert_eq!(Service::Hinatazaka.token_env(), "COLMSG_H_ACCESS_TOKEN");
    assert_eq!(Service::Nogizaka.token_env(), "COLMSG_N_ACCESS_TOKEN");
}

#[test]
fn services_are_distinct() {
    let all = [Service::Sakurazaka, Service::Hinatazaka, Service::Nogizaka];
    for a in all {
        for b in all {
            if a != b {
                assert_ne!(a.site(), b.site());
                assert_ne!(a.token_env(), b.token_env());
                for h in a.api_hosts() {
                    assert!(!b.api_hosts().contains(&h));
                }
            }
        }
    }
}

#[test]
fn relevant_urls_are_on_api_hosts() {
    assert!(is_relevant_url("https://api.n46.glastonr.net/v2/groups", Service::Nogizaka));
    assert!(is_relevant_url("https://API.Message.Nogizaka46.com/x?y=1", Service::Nogizaka));
    assert!(!is_relevant_url("https://api.n46.glastonr.net/v2", Service::Sakurazaka));
    assert!(!is_relevant_url("https://message.nogizaka46.com/", Service::Nogizaka));
    assert!(!is_relevant_url("not a url", Service::Nogizaka));
    assert!(!is_relevant_url("data:text/plain,hi", Service::Nogizaka));
    assert!(host_is_api_host(Some("api.kh.glastonr.net"), Service::Hinatazaka));
    assert!(!host_is_api_host(Some("API.kh.glastonr.net"), Service::Hinatazaka));
    assert!(!host_is_api_host(None, Service::Hinatazaka));
}

#[test]
fn bearer_token_from_headers() {
    assert_eq!(bearer_token(&headers(&[("Authorization", "Bearer abc")])), Some("abc".into()));
    assert_eq!(bearer_token(&headers(&[("authorization", "Bearer xyz")])), Some("xyz".into()));
    assert_eq!(bearer_token(&headers(&[("Authorization", "Basic abc")])), None);
    assert_eq!(bearer_token(&headers(&[("X-Token", "Bearer abc")])), None);
    assert_eq!(bearer_token(&s("Bearer abc")), None);
    assert_eq!(
        bearer_token(&obj(vec![
            ("AUTHORIZATION", Json::Number("1".into())),
            ("authorization", s("Bearer second")),
        ])),
        Some("second".into())
    );
}

#[test]
fn token_in_request_headers() {
    let mut w = TokenWatcher::new();
    let e = request_event(
        "1",
        "https://api.s46.glastonr.net/v2/timeline",
        headers(&[("Authorization", "Bearer tok")]),
    );
    assert_eq!(w.token_from_event(&e, Service::Sakurazaka), Some("tok".into()));
}

#[test]
fn token_in_either_order() {
    let url = "https://api.message.hinatazaka46.com/v2/groups";
    let req = request_event("7", url, headers(&[("Accept", "*/*")]));
    let extra = extra_info_event("7", headers(&[("authorization", "Bearer late")]));

    let mut w = TokenWatcher::new();
    assert_eq!(w.token_from_event(&req, Service::Hinatazaka), None);
    assert_eq!(w.token_from_event(&extra, Service::Hinatazaka), Some("late".into()));

    let mut w = TokenWatcher::new();
    assert_eq!(w.token_from_event(&extra, Service::Hinatazaka), None);
    assert_eq!(w.token_from_event(&req, Service::Hinatazaka), Some("late".into()));
    // the early token has been used up
    assert_eq!(w.token_from_event(&req, Service::Hinatazaka), None);
}

#[test]
fn other_hosts_are_ignored() {
    let mut w = TokenWatcher::new();
    let req = request_event(
        "3",
        "https://www.google.com/",
        headers(&[("Authorization", "Bearer google")]),
    );
    assert_eq!(w.token_from_event(&req, Service::Nogizaka), None);
    let extra = extra_info_event("3", headers(&[("Authorization", "Bearer google")]));
    assert_eq!(w.token_from_event(&extra, Service::Nogizaka), None);
}

#[test]
fn request_without_headers_yields_nothing_but_is_relevant() {
    let mut w = TokenWatcher::new();
    let req = obj(vec![
        ("method", s("Network.requestWillBeSent")),
        (
            "params",
            obj(vec![
                ("requestId", s("9")),
                ("request", obj(vec![("url", s("https://api.n46.glastonr.net/"))])),
            ]),
        ),
    ]);
    assert_eq!(w.token_from_event(&req, Service::Nogizaka), None);
    let extra = extra_info_event("9", headers(&[("Authorization", "Bearer now")]));
    assert_eq!(w.token_from_event(&extra, Service::Nogizaka), Some("now".into()));
}

#[test]
fn malformed_events_yield_nothing() {
    let mut w = TokenWatcher::new();
    for e in [
        Json::Null,
        obj(vec![("method", s("Network.requestWillBeSent"))]),
        obj(vec![("method", Json::Bool(true)), ("params", obj(vec![("requestId", s("1"))]))]),
        obj(vec![("method", s("Page.loadEventFired")), ("params", obj(vec![("requestId", s("1"))]))]),
        obj(vec![
            ("method", s("Network.requestWillBeSentExtraInfo")),
            ("params", obj(vec![("requestId", Json::Number("1".into()))])),
        ]),
    ] {
        assert_eq!(w.token_from_event(&e, Service::Sakurazaka), None);
    }
}

#[test]
fn listen_actions() {
    let mut w = TokenWatcher::new();
    assert_eq!(w.on_incoming(Incoming::Ignored, Service::Nogizaka), ListenAction::Continue);
    assert_eq!(
        w.on_incoming(Incoming::Ping(vec![1, 2]), Service::Nogizaka),
        ListenAction::Pong(vec![1, 2])
    );
    assert_eq!(
        w.on_incoming(Incoming::Failed("reset".into()), Service::Nogizaka),
        ListenAction::Fail(LoginError::ConnectionFailed("reset".into()))
    );
    let e = request_event(
        "1",
        "https://api.n46.glastonr.net/",
        headers(&[("Authorization", "Bearer t")]),
    );
    assert_eq!(
        w.on_incoming(Incoming::Event(e), Service::Nogizaka),
        ListenAction::Token("t".into())
    );
    assert_eq!(LOGIN_TIMEOUT_SECS, 300);
}

#[test]
fn login_error_messages() {
    assert_eq!(
        LoginError::ConnectionFailed("x".into()).message(),
        "Chrome DevTools connection failed: x"
    );
    assert_eq!(LoginError::CommandFailed("y".into()).message(), "Chrome DevTools error: y");
    assert_eq!(
        LoginError::TokenTimeout.message(),
        "timed out waiting for an authenticated API request"
    );
    assert_eq!(
        LoginError::ChromeLaunch(None).message(),
        "could not start Google Chrome; set COLMSG_CHROME to its path (not found)"
    );
    assert_eq!(
        LoginError::ChromeLaunch(Some("No such file".into())).message(),
        "could not start Google Chrome; set COLMSG_CHROME to its path (No such file)"
    );
    assert_eq!(
        LoginError::ChromeExitedEarly("exit status: 1".into()).message(),
        "Google Chrome exited before startup (exit status: 1)"
    );
    assert_eq!(
        LoginError::ChromeStartTimeout.message(),
        "timed out waiting for Google Chrome to start"
    );
    assert_eq!(
        LoginError::DevtoolsUnreachable.message(),
        "could not connect to Google Chrome DevTools"
    );
    assert_eq!(
        LoginError::ChromeExited("exit status: 2".into()).message(),
        "Google Chrome exited with exit status: 2"
    );
}

#[test]
fn devtools_port_file() {
    assert_eq!(devtools_port("9222\n/devtools/browser/abc"), Some(9222));
    assert_eq!(devtools_port("9222\r\n/devtools/browser/abc"), Some(9222));
    assert_eq!(devtools_port("9222"), Some(9222));
    assert_eq!(devtools_port(""), None);
    assert_eq!(devtools_port("\n9222"), None);
    assert_eq!(devtools_port("port\n"), None);
}

#[test]
fn devtools_poll_steps() {
    assert_eq!(devtools_poll(Some("41234\nx"), Some("exit".into()), true), DevtoolsPoll::Ready(41234));
    assert_eq!(
        devtools_poll(None, Some("exit status: 1".into()), true),
        DevtoolsPoll::Failed(LoginError::ChromeExitedEarly("exit status: 1".into()))
    );
    assert_eq!(
        devtools_poll(Some(""), None, true),
        DevtoolsPoll::Failed(LoginError::ChromeStartTimeout)
    );
    assert_eq!(devtools_poll(None, None, false), DevtoolsPoll::Wait);
}

fn target(kind: &str, url: Option<&str>) -> Target {
    Target { kind: kind.to_string(), web_socket_url: url.map(String::from) }
}

#[test]
fn page_targets() {
    let ts = vec![
        target("service_worker", Some("ws://a")),
        target("page", None),
        target("page", Some("ws://page1")),
        target("page", Some("ws://page2")),
    ];
    assert_eq!(find_page_target(&ts), Some(2));
    assert_eq!(find_page_target(&vec![target("iframe", Some("ws://x"))]), None);
    assert_eq!(page_target_poll(Some(ts), true), TargetPoll::Found("ws://page1".into()));
    assert_eq!(page_target_poll(Some(vec![]), false), TargetPoll::Wait);
    assert_eq!(
        page_target_poll(None, true),
        TargetPoll::Failed(LoginError::DevtoolsUnreachable)
    );
}

#[test]
fn chrome_arguments() {
    assert_eq!(
        chrome_args("/home/u/.config/colmsg/web-profile", "about:blank", true),
        vec![
            "--remote-debugging-address=127.0.0.1",
            "--remote-debugging-port=0",
            "--remote-allow-origins=*",
            "--user-data-dir=/home/u/.config/colmsg/web-profile",
            "--no-first-run",
            "--no-default-browser-check",
            "about:blank",
        ]
    );
    assert_eq!(
        chrome_args("p", "https://message.nogizaka46.com/", false),
        vec![
            "--user-data-dir=p",
            "--no-first-run",
            "--no-default-browser-check",
            "https://message.nogizaka46.com/",
        ]
    );
}

#[test]
fn chrome_candidates() {
    assert_eq!(
        unix_chrome_candidates(),
        vec!["google-chrome", "google-chrome-stable", "chromium", "chromium-browser"]
    );
    assert_eq!(
        macos_chrome_candidates(),
        vec!["/Applications/Google Chrome.app/Contents/MacOS/Google Chrome"]
    );
    assert_eq!(windows_chrome_roots(), vec!["PROGRAMFILES", "PROGRAMFILES(X86)", "LOCALAPPDATA"]);
    assert_eq!(WINDOWS_CHROME_EXE, "Google/Chrome/Application/chrome.exe");
}

#[test]
fn devtools_commands() {
    let c = network_enable_command();
    assert_eq!((c.id, c.method.as_str(), c.url), (1, "Network.enable", None));
    let c = navigate_command(Service::Sakurazaka);
    assert_eq!(
        (c.id, c.method.as_str(), c.url.as_deref()),
        (2, "Page.navigate", Some("https://message.sakurazaka46.com/"))
    );
    let c = browser_close_command();
    assert_eq!((c.id, c.method.as_str(), c.url), (3, "Browser.close", None));
}

#[test]
fn setup_outcomes() {
    assert_eq!(setup_outcome(true, "exit status: 0".into()), Ok(()));
    assert_eq!(
        setup_outcome(false, "exit status: 1".into()),
        Err(LoginError::ChromeExited("exit status: 1".into()))
    );
}

#[test]
fn deadline_ends_listening() {
    let mut w = TokenWatcher::new();
    assert_eq!(
        w.on_incoming(Incoming::DeadlinePassed, Service::Sakurazaka),
        ListenAction::Fail(LoginError::TokenTimeout)
    );
}

#[test]
fn io_errors_are_reported_as_they_are() {
    assert_eq!(LoginError::Io("Permission denied (os error 13)".into()).message(), "Permission denied (os error 13)");
}

#[test]
fn devtools_endpoint() {
    assert_eq!(devtools_list_endpoint(9222), "http://127.0.0.1:9222/json/list");
    assert_eq!(devtools_list_endpoint(0), "http://127.0.0.1:0/json/list");
    assert_eq!(devtools_list_endpoint(65535), "http://127.0.0.1:65535/json/list");
}

fn json_text(j: &Json) -> String {
    match j {
        Json::Null => "null".into(),
        Json::Bool(b) => b.to_string(),
        Json::Number(n) => n.clone(),
        Json::Str(s) => format!("{:?}", s),
        Json::Array(items) => format!("[{}]", items.iter().map(json_text).collect::<Vec<_>>().join(",")),
        Json::Object(ms) => format!(
            "{{{}}}",
            ms.iter().map(|m| format!("{:?}:{}", m.name, json_text(&m.value))).collect::<Vec<_>>().join(",")
        ),
    }
}

#[test]
fn devtools_command_messages() {
    assert_eq!(json_text(&network_enable_command().to_json()), r#"{"id":1,"method":"Network.enable"}"#);
    assert_eq!(
        json_text(&navigate_command(Service::Hinatazaka).to_json()),
        r#"{"id":2,"method":"Page.navigate","params":{"url":"https://message.hinatazaka46.com/"}}"#
    );
    assert_eq!(json_text(&browser_close_command().to_json()), r#"{"id":3,"method":"Browser.close"}"#);
}
