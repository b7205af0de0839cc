//! Configuration: bundled defaults, user overrides, themes and icons.

use lsc_utils::config::icons::{parse_glyph_map, IconKind, Icons};
use lsc_utils::config::merge::overlay;
use lsc_utils::config::theme::{parse_color, ActiveTheme, ColorMode, Rgb, Theme};
use lsc_utils::config::{Config, ConfigError, UserConfig, YamlMap};
use lsc_utils::term::TermEnv;

fn map(pairs: &[(&str, &str)]) -> YamlMap {
    let mut m = YamlMap::new();
    for (k, v) in pairs {
        m.insert(k.to_string(), v.to_string());
    }
    m
}

fn get<'a>(m: &'a YamlMap, k: &str) -> Option<&'a str> {
    m.get(k).map(String::as_str)
}

fn icons() -> Icons {
    let cfg = Config::load(None).unwrap();
    Icons::from_config(&cfg).unwrap()
}

fn theme() -> Theme {
    let cfg = Config::load(None).unwrap();
    Theme::from_config(&cfg, ActiveTheme::Dark).unwrap()
}

// ---- merge ----

#[test]
fn overlay_replaces_existing_keys() {
    let mut base = map(&[("dir", "blue"), ("file", "yellow")]);
    overlay(&mut base, map(&[("dir", "hotpink")]));
    assert_eq!(get(&base, "dir"), Some("hotpink"));
    assert_eq!(get(&base, "file"), Some("yellow"));
}

#[test]
fn overlay_adds_new_keys() {
    let mut base = map(&[("dir", "blue")]);
    overlay(&mut base, map(&[("git_branch", "green")]));
    assert_eq!(base.len(), 2);
    assert_eq!(get(&base, "git_branch"), Some("green"));
}

#[test]
fn empty_overrides_is_noop() {
    let mut base = map(&[("dir", "blue")]);
    let before = base.clone();
    overlay(&mut base, YamlMap::new());
    assert_eq!(base, before);
}

#[test]
fn empty_base_takes_full_overlay() {
    let mut base = YamlMap::new();
    overlay(&mut base, map(&[("a", "1"), ("b", "2")]));
    assert_eq!(base.len(), 2);
}

#[test]
fn overlay_keeps_keys_in_order() {
    let mut base = map(&[("m", "1"), ("c", "2")]);
    overlay(&mut base, map(&[("z", "3"), ("a", "4")]));
    let keys: Vec<&str> = (0..base.len()).map(|i| base.key_at(i).as_str()).collect();
    assert_eq!(keys, vec!["a", "c", "m", "z"]);
}

// ---- loading ----

#[test]
fn bundled_defaults_load_non_empty() {
    let cfg = Config::load(None).expect("load defaults");
    assert!(!cfg.dark_colors.is_empty(), "dark_colors empty");
    assert!(!cfg.light_colors.is_empty(), "light_colors empty");
    assert!(!cfg.files.is_empty(), "files empty");
    assert!(!cfg.folders.is_empty(), "folders empty");
    assert!(!cfg.file_aliases.is_empty(), "file_aliases empty");
    assert!(!cfg.folder_aliases.is_empty(), "folder_aliases empty");
}

#[test]
fn dark_theme_includes_canonical_keys() {
    let cfg = Config::load(None).unwrap();
    assert_eq!(get(&cfg.dark_colors, "dir"), Some("dodgerblue"));
    assert_eq!(get(&cfg.dark_colors, "recognized_file"), Some("yellow"));
    assert_eq!(get(&cfg.dark_colors, "addition"), Some("chartreuse"));
}

#[test]
fn user_dir_missing_is_ok() {
    let cfg = Config::load(Some(&UserConfig::none())).expect("no user files tolerated");
    assert!(!cfg.dark_colors.is_empty());
}

#[test]
fn user_overlay_replaces_specific_keys_only() {
    let mut user = UserConfig::none();
    user.dark_colors = Some("dir: hotpink\nbrand_new: tomato\n".to_string());
    let cfg = Config::load(Some(&user)).unwrap();
    assert_eq!(get(&cfg.dark_colors, "dir"), Some("hotpink"));
    assert_eq!(get(&cfg.dark_colors, "brand_new"), Some("tomato"));
    // unrelated keys preserved from bundled defaults
    assert_eq!(get(&cfg.dark_colors, "recognized_file"), Some("yellow"));
}

#[test]
fn wrong_shape_user_yaml_surfaces_path_in_error() {
    let mut user = UserConfig::none();
    user.files = Some("- a\n- b\n".to_string());
    let err = Config::load(Some(&user)).unwrap_err();
    assert!(matches!(err, ConfigError::UserParse { .. }));
    let msg = err.message();
    assert!(msg.contains("files.yaml"), "error missing path: {msg}");
}

#[test]
fn xdg_config_home_takes_precedence() {
    let dir = Config::user_dir_from(
        Some("/tmp/xdg-test-xyz".to_string()),
        Some("/tmp/home-test-xyz".to_string()),
    )
    .unwrap();
    assert_eq!(dir, "/tmp/xdg-test-xyz/lsc-utils");
    let dir = Config::user_dir_from(None, Some("/tmp/home-test-xyz".to_string())).unwrap();
    assert_eq!(dir, "/tmp/home-test-xyz/.config/lsc-utils");
}

#[test]
fn empty_xdg_falls_back_to_home_and_nothing_without_home() {
    let dir = Config::user_dir_from(Some(String::new()), Some("/home/u/".to_string())).unwrap();
    assert_eq!(dir, "/home/u/.config/lsc-utils");
    assert_eq!(Config::user_dir_from(None, None), None);
}

// ---- icons ----

#[test]
fn directory_direct_match() {
    let i = icons();
    let r = i.for_directory(".git");
    assert_eq!(r.kind, IconKind::Folder);
    assert_eq!(r.key, ".git");
}

#[test]
fn directory_alias_chain() {
    // `bin -> config` per folder_aliases.yaml.
    let i = icons();
    let r = i.for_directory("bin");
    assert_eq!(r.kind, IconKind::Folder);
    assert_eq!(r.key, "config");
    let direct = i.for_directory("config");
    assert_eq!(r.glyph, direct.glyph);
}

#[test]
fn directory_unknown_falls_back() {
    let i = icons();
    let r = i.for_directory("some_random_name");
    assert_eq!(r.kind, IconKind::DefaultFolder);
    assert_eq!(r.key, "folder");
}

#[test]
fn directory_match_is_case_insensitive() {
    let i = icons();
    let lo = i.for_directory(".git");
    let mixed = i.for_directory(".GIT");
    assert_eq!(lo.glyph, mixed.glyph);
}

#[test]
fn file_direct_extension_match() {
    let i = icons();
    let r = i.for_file("script.py");
    assert_eq!(r.kind, IconKind::File);
    assert_eq!(r.key, "py");
}

#[test]
fn file_alias_chain() {
    // `tsx -> jsx` per file_aliases.yaml.
    let i = icons();
    let r = i.for_file("Component.tsx");
    assert_eq!(r.kind, IconKind::File);
    assert_eq!(r.key, "jsx");
}

#[test]
fn file_no_extension_falls_back() {
    let i = icons();
    let r = i.for_file("Gemfile");
    // Only extensions are matched: `Gemfile` has none, so the default file
    // glyph applies although an alias entry exists.
    assert_eq!(r.kind, IconKind::DefaultFile);
    assert_eq!(r.key, "file");
}

#[test]
fn file_unknown_extension_falls_back() {
    let i = icons();
    let r = i.for_file("data.qwertyuiop");
    assert_eq!(r.kind, IconKind::DefaultFile);
}

#[test]
fn file_extension_match_is_case_insensitive() {
    let i = icons();
    let a = i.for_file("photo.JPG");
    let b = i.for_file("photo.jpg");
    assert_eq!(a.glyph, b.glyph);
}

#[test]
fn glyphs_are_single_char_or_load_fails() {
    let mut bad = YamlMap::new();
    bad.insert("oops".into(), "ab".into());
    let err = parse_glyph_map(&bad, "test.yaml").unwrap_err();
    assert!(err.message().contains("single codepoint"));
}

#[test]
fn empty_glyph_is_rejected() {
    let mut bad = YamlMap::new();
    bad.insert("blank".into(), "".into());
    let err = parse_glyph_map(&bad, "test.yaml").unwrap_err();
    assert_eq!(
        err,
        ConfigError::EmptyGlyph { source: "test.yaml".into(), key: "blank".into() }
    );
    assert_eq!(err.message(), "test.yaml: empty glyph for `blank`");
}

#[test]
fn missing_default_file_glyph_fails_icon_load() {
    let mut cfg = Config::load(None).unwrap();
    cfg.files = map(&[("py", "x")]);
    let err = Icons::from_config(&cfg).unwrap_err();
    assert_eq!(
        err,
        ConfigError::MissingDefaultGlyph { file: "files.yaml".into(), key: "file".into() }
    );
}

// ---- theme ----

#[test]
fn parse_named_css_color() {
    assert_eq!(parse_color("dodgerblue").unwrap(), Rgb(30, 144, 255));
    assert_eq!(parse_color("gold").unwrap(), Rgb(255, 215, 0));
}

#[test]
fn parse_hex_color() {
    assert_eq!(parse_color("#fafafa").unwrap(), Rgb(0xfa, 0xfa, 0xfa));
    assert_eq!(parse_color("#000").unwrap(), Rgb(0, 0, 0));
}

#[test]
fn parse_rejects_garbage() {
    assert!(parse_color("not-a-color").is_err());
    assert!(parse_color("").is_err());
}

#[test]
fn parse_navyblue_x11_alias() {
    // colorls's light theme uses `navyblue`; CSS only knows `navy`.
    assert_eq!(parse_color("navyblue").unwrap(), Rgb(0, 0, 128));
}

#[test]
fn parse_trims_surrounding_whitespace() {
    assert_eq!(parse_color("  gold \t").unwrap(), Rgb(255, 215, 0));
    assert!(parse_color("   ").is_err());
}

#[test]
fn light_palette_loads_with_all_aliases_resolved() {
    let cfg = Config::load(None).unwrap();
    let t = Theme::from_config(&cfg, ActiveTheme::Light).expect("light palette parses");
    // `dir` is `navyblue` in the light theme; aliased to navy.
    assert_eq!(t.style("dir").fg, Rgb(0, 0, 128));
}

#[test]
fn theme_loads_dark_with_canonical_styles() {
    let t = theme();
    assert_eq!(t.style("dir").fg, Rgb(30, 144, 255)); // dodgerblue
    assert_eq!(t.style("recognized_file").fg, Rgb(255, 255, 0)); // yellow
}

#[test]
fn missing_key_returns_fallback() {
    let t = theme();
    assert_eq!(t.style("totally_not_a_key").fg, Rgb(255, 255, 255));
}

#[test]
fn paint_emits_sgr_when_enabled() {
    let t = theme();
    let painted = t.paint("dir", "x", ColorMode::Always, &TermEnv::plain());
    assert_eq!(painted, "\x1b[38;2;30;144;255mx\x1b[0m");
}

#[test]
fn paint_passthrough_when_never() {
    let t = theme();
    assert_eq!(t.paint("dir", "x", ColorMode::Never, &TermEnv::plain()), "x");
}

#[test]
fn no_color_env_disables_auto() {
    let mut env = TermEnv::plain();
    env.stdout_is_terminal = true;
    assert!(ColorMode::Auto.enabled(&env));
    env.no_color = Some("1".to_string());
    assert!(!ColorMode::Auto.enabled(&env));
}

#[test]
fn auto_color_follows_terminal_and_clicolor() {
    let mut env = TermEnv::plain();
    assert!(!ColorMode::Auto.enabled(&env));
    env.clicolor_force = Some("1".to_string());
    assert!(ColorMode::Auto.enabled(&env));
    env.clicolor_force = Some("0".to_string());
    env.stdout_is_terminal = true;
    env.term = Some("dumb".to_string());
    assert!(!ColorMode::Auto.enabled(&env));
    env.term = Some("xterm".to_string());
    env.clicolor = Some("0".to_string());
    assert!(!ColorMode::Auto.enabled(&env));
}

#[test]
fn invalid_user_color_fails_theme_load() {
    let mut user = UserConfig::none();
    user.dark_colors = Some("dir: not-a-color\n".to_string());
    let cfg = Config::load(Some(&user)).unwrap();
    let err = Theme::from_config(&cfg, ActiveTheme::Dark).unwrap_err();
    match &err {
        ConfigError::InvalidColor { source, key, value, .. } => {
            assert_eq!(source, "dark_colors.yaml");
            assert_eq!(key, "dir");
            assert_eq!(value, "not-a-color");
        }
        other => panic!("unexpected error {other:?}"),
    }
    assert!(err.message().starts_with("dark_colors.yaml: invalid color value for `dir`: `not-a-color`: "));
}
