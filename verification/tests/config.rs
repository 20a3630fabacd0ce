use gator::config::{
    choose_shell, config_path_for_app_from_env, default_existing_path_from_env, expand_path,
    parse_args, parse_hex, Config,
};
use std::path::PathBuf;

#[test]
fn defaults_match_legacy_constants() {
    let c = Config::default();
    assert_eq!(c.scrollback, 10_000);
    assert_eq!(f32::from_bits(c.font.size_bits), 18.0);
    assert_eq!(c.colors.foreground.0, 0xDDE6B8);
    assert_eq!(c.colors.background.0, 0x08110B);
    assert_eq!((c.window.width, c.window.height), (960, 600));
    assert!(c.chrome.titlebar_icon);
    assert!(c.shell.is_none());
}

#[test]
fn line_height_default() {
    let c = Config::default();
    assert_eq!(f32::from_bits(c.font.line_height_bits), 1.3);
    assert!(c.font.path.is_none());
    assert!(c.chrome.visual_bell);
    assert_eq!(c.chrome.padding, 0);
    assert!(c.colors.bold_is_bright);
    assert!(!c.effects.any());
}

#[test]
fn short_hex_expands() {
    assert_eq!(parse_hex("#abc"), Some(0xAABBCC));
    assert_eq!(parse_hex("#ff8800"), Some(0xFF8800));
    assert_eq!(parse_hex("bad"), None);
    assert_eq!(parse_hex("#12"), None);
}

#[test]
fn odd_hex_strings() {
    assert_eq!(parse_hex("#FfAa09"), Some(0xFFAA09));
    assert_eq!(parse_hex("#ggg"), None);
    assert_eq!(parse_hex("#12345g"), None);
    assert_eq!(parse_hex(""), None);
    assert_eq!(parse_hex("#"), None);
    assert_eq!(parse_hex("#+12345"), None);
    assert_eq!(parse_hex("#+ab"), None);
    assert_eq!(parse_hex("#-12345"), None);
    assert_eq!(parse_hex("#abcd"), None);
    assert_eq!(parse_hex("#ffffff"), Some(0xFFFFFF));
    assert_eq!(parse_hex("#\u{e9}\u{e9}\u{e9}"), None);
    assert_eq!(parse_hex("#abc").unwrap(), parse_hex("#aabbcc").unwrap());
}

#[test]
fn session_block_defaults_off() {
    let c = Config::default();
    assert!(c.session.raw_log.is_empty());
    assert!(c.session.text_log.is_empty());
    assert_eq!(c.session.restore_lines, 0);
}

#[test]
fn app_config_paths_use_current_and_legacy_names() {
    assert_eq!(
        PathBuf::from(config_path_for_app_from_env("gator", None, Some("/tmp/home")).unwrap()),
        PathBuf::from("/tmp/home/.config/gator/config.toml")
    );
    assert_eq!(
        PathBuf::from(config_path_for_app_from_env("gaterminal", None, Some("/tmp/home")).unwrap()),
        PathBuf::from("/tmp/home/.config/gaterminal/config.toml")
    );
    assert_eq!(
        PathBuf::from(
            config_path_for_app_from_env("gator", Some("/tmp/xdg"), Some("/tmp/home")).unwrap()
        ),
        PathBuf::from("/tmp/xdg/gator/config.toml")
    );
}

#[test]
fn paths_join_as_the_platform_joins_them() {
    for (app, xdg, home) in [
        ("gator", Some("/x/"), None),
        ("gator", Some("rel"), None),
        ("/abs", Some("/x"), None),
        ("gator", Some(""), Some("/h/")),
        ("gator", None, Some("")),
    ] {
        let expected = match xdg {
            Some(x) if !x.is_empty() => PathBuf::from(x).join(app).join("config.toml"),
            _ => PathBuf::from(home.unwrap()).join(".config").join(app).join("config.toml"),
        };
        let got = config_path_for_app_from_env(app, xdg, home).unwrap();
        assert_eq!(got, expected.to_str().unwrap());
    }
    assert!(config_path_for_app_from_env("gator", None, None).is_none());
}

#[test]
fn legacy_file_is_the_fallback() {
    let pick = |current, legacy| default_existing_path_from_env(None, Some("/h"), current, legacy);
    assert_eq!(pick(true, true).unwrap(), "/h/.config/gator/config.toml");
    assert_eq!(pick(false, true).unwrap(), "/h/.config/gaterminal/config.toml");
    assert!(pick(false, false).is_none());
    assert!(default_existing_path_from_env(None, None, true, true).is_none());
}

#[test]
fn expand_path_substitutes_home_and_ts() {
    let p = expand_path("~/sub/{ts}.log", "/tmp/h", 1700000000);
    assert!(p.starts_with("/tmp/h/sub/"));
    assert!(p.ends_with(".log"));
    // {ts} replaced by digits.
    let body = &p["/tmp/h/sub/".len()..p.len() - ".log".len()];
    assert!(body.chars().all(|c| c.is_ascii_digit()));
    assert_eq!(body, "1700000000");
}

#[test]
fn other_paths_expand_to_themselves() {
    assert_eq!(expand_path("", "/h", 1), "");
    assert_eq!(expand_path("~", "/h", 1), "/h");
    assert_eq!(expand_path("~x/y", "/h", 1), "~x/y");
    assert_eq!(expand_path("/var/log", "/h", 1), "/var/log");
    assert_eq!(expand_path("{ts}{ts}{t", "/h", 0), "00{t");
    assert_eq!(expand_path("~/a", "", 1), "/a");
}

#[test]
fn command_line_and_shell() {
    let args = |list: &[&str]| {
        let v: Vec<String> = list.iter().map(|s| s.to_string()).collect();
        parse_args(&v)
    };
    let a = args(&["gator", "--config", "x.toml", "--tui"]);
    assert_eq!(a.config.as_deref(), Some("x.toml"));
    assert!(a.tui);
    let a = args(&["gator", "--tui", "--config"]);
    assert!(a.config.is_none() && a.tui);
    let a = args(&["gator"]);
    assert!(a.config.is_none() && !a.tui);
    assert_eq!(choose_shell(Some("/a".into()), Some("/b".into())), "/a");
    assert_eq!(choose_shell(None, Some("/b".into())), "/b");
    assert_eq!(choose_shell(None, None), "/bin/sh");
}
