use colmsg::app::{
    access_token_from_env, kind_from_str, AccessTokenSource, App, ConfigError, DateTimeParts,
    Kind, FROM_FORMAT, H_ACCESS_TOKEN_ENV, N_ACCESS_TOKEN_ENV, S_ACCESS_TOKEN_ENV,
};
use colmsg::args::Matches;
use chrono::{Datelike, Timelike};

fn strings(v: &[&str]) -> Vec<String> {
    v.iter().map(|s| s.to_string()).collect()
}

fn app(options: &[(&str, &[&str])]) -> App {
    let mut m = Matches::empty();
    for (name, values) in options {
        m.push(name.to_string(), strings(values));
    }
    App::new(m)
}

#[test]
fn access_token_variable_names() {
    assert_eq!(S_ACCESS_TOKEN_ENV, "COLMSG_S_ACCESS_TOKEN");
    assert_eq!(H_ACCESS_TOKEN_ENV, "COLMSG_H_ACCESS_TOKEN");
    assert_eq!(N_ACCESS_TOKEN_ENV, "COLMSG_N_ACCESS_TOKEN");
    assert_eq!(FROM_FORMAT, "%Y/%m/%d %H:%M:%S");
}

#[test]
fn defaults_without_options() {
    let a = app(&[]);
    let plan = a.sakurazaka_config(None).unwrap();
    assert!(plan.name.is_empty());
    assert_eq!(plan.from, None);
    assert_eq!(plan.kind, vec![Kind::Text, Kind::Picture, Kind::Video, Kind::Voice, Kind::Link]);
    assert_eq!(plan.dir, None);
    assert_eq!(plan.token, None);
    assert_eq!(plan.token_source(), Err(ConfigError::RefreshTokenNotSet));
}

#[test]
fn refresh_token_of_the_app_is_used() {
    let a = app(&[("s_refresh_token", &["s-token"]), ("h_refresh_token", &["h-token"])]);
    let plan = a.hinatazaka_config(None).unwrap();
    assert_eq!(plan.token, Some(AccessTokenSource::RefreshToken("h-token".to_string())));
    assert_eq!(
        plan.token_source(),
        Ok(AccessTokenSource::RefreshToken("h-token".to_string()))
    );
    assert_eq!(a.nogizaka_config(None).unwrap().token, None);
}

#[test]
fn environment_token_comes_first() {
    let a = app(&[("n_refresh_token", &["refresh"])]);
    let plan = a.nogizaka_config(Some(" web-token ")).unwrap();
    assert_eq!(plan.token, Some(AccessTokenSource::Environment(" web-token ".to_string())));
}

#[test]
fn blank_environment_token_is_ignored() {
    let a = app(&[("s_refresh_token", &["refresh"])]);
    let plan = a.sakurazaka_config(Some(" \t\n")).unwrap();
    assert_eq!(plan.token, Some(AccessTokenSource::RefreshToken("refresh".to_string())));
    let plan = app(&[]).sakurazaka_config(Some("")).unwrap();
    assert_eq!(plan.token, None);
}

#[test]
fn refresh_token_only_apps() {
    let a = app(&[
        ("a_refresh_token", &["a"]),
        ("m_refresh_token", &["m"]),
        ("y_refresh_token", &["y"]),
    ]);
    assert_eq!(
        a.asukasaito_config().unwrap().token,
        Some(AccessTokenSource::RefreshToken("a".to_string()))
    );
    assert_eq!(
        a.maishiraishi_config().unwrap().token,
        Some(AccessTokenSource::RefreshToken("m".to_string()))
    );
    assert_eq!(
        a.yodel_config().unwrap().token,
        Some(AccessTokenSource::RefreshToken("y".to_string()))
    );
}

#[test]
fn names_are_trimmed_and_dir_kept() {
    let a = app(&[("name", &[" 菅井友香 ", "佐々木久美\u{3000}"]), ("dir", &["/tmp/colmsg", "/x"])]);
    let plan = a.yodel_config().unwrap();
    assert_eq!(plan.name, strings(&["菅井友香", "佐々木久美"]));
    assert_eq!(plan.dir, Some("/tmp/colmsg".to_string()));
}

#[test]
fn kinds_are_read() {
    let a = app(&[("kind", &["picture", "video", "voice", "text", "link", "other"])]);
    let plan = a.asukasaito_config().unwrap();
    assert_eq!(
        plan.kind,
        vec![Kind::Picture, Kind::Video, Kind::Voice, Kind::Text, Kind::Link, Kind::Link]
    );
    assert_eq!(kind_from_str("Picture"), Kind::Link);
}

#[test]
fn from_is_read_in_its_format() {
    let a = app(&[("from", &["2020/01/01 00:00:00"])]);
    let plan = a.maishiraishi_config().unwrap();
    assert_eq!(
        plan.from,
        Some(DateTimeParts {
            year: 2020,
            month: 1,
            day: 1,
            hour: 0,
            minute: 0,
            second: 0,
            nanosecond: 0
        })
    );
    let a = app(&[("from", &["2019/12/31 23:59:59"])]);
    let t = a.yodel_config().unwrap().from.unwrap();
    assert_eq!((t.year, t.month, t.day, t.hour, t.minute, t.second), (2019, 12, 31, 23, 59, 59));
}

#[test]
fn from_agrees_with_chrono() {
    for text in ["2016/12/31 23:59:60", "2020/2/3 4:05:06", "2020/02/30 00:00:00", "+12020/01/01 00:00:00"] {
        let ours = app(&[("from", &[text])]).yodel_config();
        match chrono::NaiveDateTime::parse_from_str(text, "%Y/%m/%d %H:%M:%S") {
            Ok(t) => {
                let p = ours.unwrap().from.unwrap();
                assert_eq!(
                    (p.year, p.month, p.day, p.hour, p.minute, p.second, p.nanosecond),
                    (t.year(), t.month(), t.day(), t.hour(), t.minute(), t.second(), t.nanosecond())
                );
            }
            Err(e) => assert_eq!(ours.err(), Some(ConfigError::InvalidFrom(e.to_string()))),
        }
    }
}

#[test]
fn unreadable_from_is_an_error() {
    let a = app(&[("from", &["2020-01-01 00:00:00"]), ("s_refresh_token", &["r"])]);
    assert!(matches!(a.sakurazaka_config(None), Err(ConfigError::InvalidFrom(_))));
    let a = app(&[("from", &["2020/13/01 00:00:00"])]);
    assert!(matches!(a.yodel_config(), Err(ConfigError::InvalidFrom(_))));
}

#[test]
fn build_config_passes_on_the_from_error() {
    let a = app(&[("s_refresh_token", &["r"])]);
    let r = a.build_config("s_refresh_token", None, Some(Err("bad".to_string())));
    assert_eq!(r.err(), Some(ConfigError::InvalidFrom("bad".to_string())));
    let t = DateTimeParts { year: 2021, month: 5, day: 6, hour: 7, minute: 8, second: 9, nanosecond: 0 };
    let plan = a.build_config("s_refresh_token", None, Some(Ok(t))).unwrap();
    assert_eq!(plan.from, Some(t));
    assert_eq!(plan.token, Some(AccessTokenSource::RefreshToken("r".to_string())));
}

#[test]
fn credentials_decide_the_token() {
    let with_refresh = app(&[("s_refresh_token", &["r"])]);
    let without = app(&[]);
    assert!(with_refresh.has_credentials("s_refresh_token", None));
    assert!(!without.has_credentials("s_refresh_token", None));
    assert!(without.has_credentials("s_refresh_token", Some("tok")));
    assert!(!without.has_credentials("s_refresh_token", Some("  ")));
    assert!(!with_refresh.has_credentials("h_refresh_token", None));
    for (a, env) in [(&with_refresh, None), (&without, None), (&without, Some("tok")), (&without, Some(" "))] {
        let plan = a.sakurazaka_config(env).unwrap();
        assert_eq!(plan.token.is_some(), a.has_credentials("s_refresh_token", env));
    }
}

#[test]
fn has_access_token_reads_the_variable() {
    let a = app(&[]);
    assert!(a.has_access_token(Some("abc")));
    assert!(!a.has_access_token(Some("\t")));
    assert!(!a.has_access_token(None));
    assert_eq!(access_token_from_env(Some(" abc ")), Some(" abc ".to_string()));
    assert_eq!(access_token_from_env(Some("")), None);
}

#[test]
fn matches_take_the_first_value() {
    let mut m = Matches::empty();
    m.push("group".to_string(), strings(&["a", "b"]));
    m.push("group".to_string(), strings(&["c"]));
    m.push("none".to_string(), Vec::new());
    assert_eq!(m.values_of("group"), Some(strings(&["a", "b"])));
    assert_eq!(m.value_of("group"), Some("a".to_string()));
    assert_eq!(m.value_of("none"), None);
    assert_eq!(m.values_of("none"), Some(Vec::new()));
    assert_eq!(m.values_of("missing"), None);
}

#[test]
fn config_error_messages() {
    assert_eq!(ConfigError::RefreshTokenNotSet.message(), "refresh token is not set");
    assert_eq!(
        ConfigError::InvalidFrom("input contains invalid characters".into()).message(),
        "input contains invalid characters"
    );
}
