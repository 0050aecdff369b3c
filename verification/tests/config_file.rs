use colmsg::config_file::{args_from_config, line_args_str, split_lines_str, words_str};

fn strings(v: &[&str]) -> Vec<String> {
    v.iter().map(|s| s.to_string()).collect()
}

#[test]
fn readme_configuration_example() {
    let content = "# Sakurazaka46 refresh token\n--s_refresh_token s_refresh_token\n\n# Hinatazaka46 refresh token\n--h_refresh_token h_refresh_token\n\n# Download media files only\n-k picture -k video -k voice\n";
    assert_eq!(
        args_from_config(content),
        strings(&[
            "--s_refresh_token",
            "s_refresh_token",
            "--h_refresh_token",
            "h_refresh_token",
            "-k",
            "picture",
            "-k",
            "video",
            "-k",
            "voice",
        ])
    );
}

#[test]
fn comments_and_blank_lines_give_nothing() {
    assert!(args_from_config("").is_empty());
    assert!(args_from_config("\n\n  \t\n").is_empty());
    assert!(args_from_config("   # indented comment\n#-k text").is_empty());
    assert_eq!(args_from_config("-k text # not a comment"), strings(&["-k", "text", "#", "not", "a", "comment"]));
    assert_eq!(args_from_config("-d\r\n/tmp/x\r\n"), strings(&["-d", "/tmp/x"]));
}

#[test]
fn lines_and_words_agree_with_std() {
    for s in ["", "a", "a\nb", "a\n", "\n", "a\r\nb\n\nc"] {
        assert_eq!(split_lines_str(s), s.split('\n').map(String::from).collect::<Vec<_>>());
    }
    for s in ["", " ", "a", " a  b\tc\u{3000}d ", "x\u{a0}y"] {
        assert_eq!(words_str(s), s.split_whitespace().map(String::from).collect::<Vec<_>>());
    }
    assert_eq!(line_args_str("  -n 菅井友香  "), strings(&["-n", "菅井友香"]));
}
