//! Flag resolution. Each `Args` value is what the command line in the
//! comment parses to.

use lsc_utils::cli::{Args, CliError, ColorArg, FormatArg};
use lsc_utils::config::theme::{ActiveTheme, ColorMode};
use lsc_utils::options::{
    Group, HyperlinkMode, IndicatorStyle, LayoutMode, RunOptions, SortKey,
};
use lsc_utils::util::report::ReportKind;
use lsc_utils::util::time_fmt::TimeStyle;

fn resolve(a: Args) -> RunOptions {
    a.resolve(false).unwrap()
}

fn strings(v: &[&str]) -> Vec<String> {
    v.iter().map(|s| s.to_string()).collect()
}

// `lsc`
#[test]
fn defaults_resolve_to_auto_color_dark_theme() {
    let opts = resolve(Args::default());
    assert_eq!(opts.color_mode, ColorMode::Auto);
    assert_eq!(opts.theme, ActiveTheme::Dark);
    assert!(opts.show_icons);
    assert_eq!(opts.paths, strings(&["."]));
}

// `lsc foo bar`
#[test]
fn explicit_paths_passed_through() {
    let mut a = Args::default();
    a.paths = strings(&["foo", "bar"]);
    let opts = resolve(a);
    assert_eq!(opts.paths, strings(&["foo", "bar"]));
}

// `lsc -1`
#[test]
fn one_per_line_flag() {
    let mut a = Args::default();
    a.one_per_line = true;
    assert_eq!(resolve(a).layout, LayoutMode::OnePerLine);
}

// `lsc -x`
#[test]
fn horizontal_flag() {
    let mut a = Args::default();
    a.horizontal = true;
    assert_eq!(resolve(a).layout, LayoutMode::Horizontal);
}

// `lsc -C`
#[test]
fn vertical_flag() {
    let mut a = Args::default();
    a.vertical = true;
    assert_eq!(resolve(a).layout, LayoutMode::Vertical);
}

// `lsc --format=across`
#[test]
fn format_across_aliases_horizontal() {
    let mut a = Args::default();
    a.format = Some(FormatArg::Across);
    assert_eq!(resolve(a).layout, LayoutMode::Horizontal);
}

// `lsc -l`
#[test]
fn long_flag_resolves() {
    let mut a = Args::default();
    a.long = true;
    assert_eq!(resolve(a).layout, LayoutMode::Long);
}

// `lsc --format=long`
#[test]
fn format_long_resolves() {
    let mut a = Args::default();
    a.format = Some(FormatArg::Long);
    assert_eq!(resolve(a).layout, LayoutMode::Long);
}

// `lsc -l -g -G`
#[test]
fn no_owner_no_group_flags_propagate() {
    let mut a = Args::default();
    a.long = true;
    a.no_owner = true;
    a.no_group = true;
    let opts = resolve(a);
    assert!(!opts.long.show_owner);
    assert!(!opts.long.show_group);
}

// `lsc -l -i`
#[test]
fn inode_flag() {
    let mut a = Args::default();
    a.long = true;
    a.inode = true;
    assert!(resolve(a).long.show_inode);
}

// `lsc -l --non-human-readable`
#[test]
fn non_human_readable_flag() {
    let mut a = Args::default();
    a.long = true;
    a.non_human_readable = true;
    assert!(!resolve(a).long.human_readable);
}

// `lsc -l --time-style=+%F %T`
#[test]
fn time_style_plus_prefix() {
    let mut a = Args::default();
    a.long = true;
    a.time_style = Some("+%F %T".to_string());
    match resolve(a).long.time_style {
        TimeStyle::Custom(s) => assert_eq!(s, "%F %T"),
        _ => panic!("expected Custom"),
    }
}

// `lsc --report`
#[test]
fn report_short_default_when_bare() {
    let mut a = Args::default();
    a.report = Some("short".to_string());
    assert_eq!(resolve(a).report, Some(ReportKind::Short));
}

// `lsc --report=long`
#[test]
fn report_long_explicit() {
    let mut a = Args::default();
    a.report = Some("long".to_string());
    assert_eq!(resolve(a).report, Some(ReportKind::Long));
}

// `lsc --report=garbage`
#[test]
fn report_invalid_value_errors() {
    let mut a = Args::default();
    a.report = Some("garbage".to_string());
    assert!(a.resolve(false).is_err());
}

// `lsc --indicator-style=none`
#[test]
fn indicator_style_none() {
    let mut a = Args::default();
    a.indicator_style = Some("none".to_string());
    assert_eq!(resolve(a).indicator, IndicatorStyle::NoIndicator);
}

// `lsc --light`
#[test]
fn light_flag_swaps_theme() {
    let mut a = Args::default();
    a.light = true;
    assert_eq!(resolve(a).theme, ActiveTheme::Light);
}

// `lsc --color=never`
#[test]
fn color_never_resolved() {
    let mut a = Args::default();
    a.color = Some(ColorArg::Never);
    assert_eq!(resolve(a).color_mode, ColorMode::Never);
}

// `lsc --color` (a bare flag means `always`)
#[test]
fn color_bare_defaults_to_always() {
    let mut a = Args::default();
    a.color = Some(ColorArg::Always);
    assert_eq!(resolve(a).color_mode, ColorMode::Always);
}

// `lsc --without-icons`
#[test]
fn without_icons_flag() {
    let mut a = Args::default();
    a.without_icons = true;
    assert!(!resolve(a).show_icons);
}

// `lsc -a -d`
#[test]
fn filter_flags_collected() {
    let mut a = Args::default();
    a.all = true;
    a.dirs = true;
    let opts = resolve(a);
    assert!(opts.filter.all);
    assert!(opts.filter.only_dirs);
    assert!(!opts.filter.almost_all);
}

// `lsc --sort=bogus`
#[test]
fn sort_invalid_word_errors_with_message() {
    let mut a = Args::default();
    a.sort = Some("bogus".to_string());
    let err = a.resolve(false).unwrap_err();
    assert_eq!(err, CliError::InvalidSort("bogus".to_string()));
    assert_eq!(
        err.message(),
        "--sort: expected name|size|time|extension|none, got `bogus`"
    );
}

// `lsc --indicator-style=dots`
#[test]
fn indicator_invalid_word_errors() {
    let mut a = Args::default();
    a.indicator_style = Some("dots".to_string());
    let err = a.resolve(false).unwrap_err();
    assert_eq!(err, CliError::InvalidIndicatorStyle("dots".to_string()));
}

// `lsc --hyperlink=sometimes`
#[test]
fn hyperlink_invalid_word_errors() {
    let mut a = Args::default();
    a.hyperlink = Some("sometimes".to_string());
    let err = a.resolve(false).unwrap_err();
    assert_eq!(err, CliError::InvalidHyperlink("sometimes".to_string()));
    assert!(err.message().contains("sometimes"));
}

// `lsc --sort=size --report=garbage`: the sort word is fine, the report word is not.
#[test]
fn first_bad_word_in_order_is_reported() {
    let mut a = Args::default();
    a.sort = Some("nope".to_string());
    a.report = Some("garbage".to_string());
    assert_eq!(
        a.resolve(false).unwrap_err(),
        CliError::InvalidSort("nope".to_string())
    );
}

// `lsc -S -r --sd`
#[test]
fn sort_flags_resolve() {
    let mut a = Args::default();
    a.sort_size = true;
    a.reverse = true;
    a.sort_dirs = true;
    let opts = resolve(a);
    assert_eq!(opts.sort.key, SortKey::Size);
    assert!(opts.sort.reverse);
    assert_eq!(opts.sort.group, Group::DirsFirst);
}

// `lsc -U` and `lsc --sort=none`
#[test]
fn unsorted_from_flag_and_word() {
    let mut a = Args::default();
    a.sort_none = true;
    assert_eq!(resolve(a).sort.key, SortKey::Unsorted);
    let mut b = Args::default();
    b.sort = Some("none".to_string());
    assert_eq!(resolve(b).sort.key, SortKey::Unsorted);
}

// `lsc --hyperlink` (a bare flag means `always`)
#[test]
fn hyperlink_always_resolves() {
    let mut a = Args::default();
    a.hyperlink = Some("always".to_string());
    assert_eq!(resolve(a).hyperlink, HyperlinkMode::Always);
}

// `lsc --tree=2`
#[test]
fn tree_depth_resolves() {
    let mut a = Args::default();
    a.tree = Some(2);
    match resolve(a).layout {
        LayoutMode::Tree { depth } => assert_eq!(depth, Some(2)),
        other => panic!("expected Tree, got {other:?}"),
    }
}

// `lsc -l -1`
#[test]
fn long_flag_conflicts_with_one_per_line() {
    let mut a = Args::default();
    a.long = true;
    a.one_per_line = true;
    assert!(a.check_conflicts().is_err());
}

// `lsc --dark --light`
#[test]
fn dark_and_light_conflict() {
    let mut a = Args::default();
    a.dark = true;
    a.light = true;
    let res = a.check_conflicts();
    assert!(res.is_err());
}

// `lsc -1 -x`
#[test]
fn one_and_horizontal_conflict() {
    let mut a = Args::default();
    a.one_per_line = true;
    a.horizontal = true;
    let res = a.check_conflicts();
    assert!(res.is_err());
}

// `lsc -t --sort=size`, `lsc --sd --sf`, and a clean `lsc -l -S --sd`
#[test]
fn conflicts_name_the_first_pair() {
    let mut a = Args::default();
    a.sort_time = true;
    a.sort = Some("size".to_string());
    let err = a.check_conflicts().unwrap_err();
    assert_eq!(err, CliError::Conflict { first: "-t".into(), second: "--sort".into() });
    assert_eq!(err.message(), "the argument `-t` cannot be used with `--sort`");
    let mut b = Args::default();
    b.sort_dirs = true;
    b.sort_files = true;
    assert_eq!(
        b.check_conflicts().unwrap_err(),
        CliError::Conflict { first: "--sd".into(), second: "--sf".into() }
    );
    let mut c = Args::default();
    c.long = true;
    c.sort_size = true;
    c.sort_dirs = true;
    c.inode = true;
    assert!(c.check_conflicts().is_ok());
}
