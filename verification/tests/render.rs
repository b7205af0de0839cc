//! Rendering: cells, grids, one per line, widths, hyperlinks, long
//! listings and trees.

use lsc_utils::config::icons::Icons;
use lsc_utils::config::theme::{ActiveTheme, ColorMode, Theme};
use lsc_utils::config::Config;
use lsc_utils::fs::entry::{classify, EntryMeta, FileEntry};
use lsc_utils::options::{HyperlinkMode, LongOptions, SortSpec};
use lsc_utils::render::cell::{build_cells, Cell, CellBuilder};
use lsc_utils::render::grid::{fit_columns, render_grid, GridKind};
use lsc_utils::render::hyperlink::{path_to_file_uri, wrap};
use lsc_utils::render::long::{render as render_long, render_report, render_rows, RowFacts};
use lsc_utils::render::one_per_line;
use lsc_utils::render::tree::{preprint, TreeStep, TreeWalk};
use lsc_utils::render::width::{char_display_width, display_width, is_nerd_font_pua};
use lsc_utils::util::owner::NameCache;
use lsc_utils::util::report::ReportKind;
use lsc_utils::util::time_fmt::{SysTime, TimeFormatError, TimeStyle};
use lsc_utils::term::TermEnv;

const S_IFREG: u32 = 0o100000;
const S_IFDIR: u32 = 0o040000;
const S_IFLNK: u32 = 0o120000;

fn ctx() -> (Theme, Icons) {
    let cfg = Config::load(None).unwrap();
    (
        Theme::from_config(&cfg, ActiveTheme::Dark).unwrap(),
        Icons::from_config(&cfg).unwrap(),
    )
}

fn entry_at(dirpath: &str, name: &str, mode: u32, size: u64, ino: u64) -> FileEntry {
    FileEntry {
        name: name.to_string(),
        path: format!("{dirpath}/{name}"),
        kind: classify(mode),
        meta: EntryMeta {
            mode,
            nlink: 1,
            uid: 0,
            gid: 0,
            size,
            ino,
            dev: 7,
            mtime: Some(SysTime { secs: 1_700_000_000, nanos: 0 }),
        },
        link_target: None,
        link_alive: false,
    }
}

fn file(name: &str) -> FileEntry {
    entry_at("/tmp/t", name, S_IFREG | 0o644, 0, 1)
}

fn dir(name: &str) -> FileEntry {
    entry_at("/tmp/t", name, S_IFDIR | 0o755, 4096, 2)
}

fn plain_cells(names: &[&str]) -> Vec<Cell> {
    names.iter().map(|n| Cell { text: n.to_string(), width: n.chars().count() }).collect()
}

// ---- cells ----

#[test]
fn file_cell_has_icon_when_enabled() {
    let (theme, icons) = ctx();
    let env = TermEnv::plain();
    let b = CellBuilder { theme: &theme, icons: &icons, color_mode: ColorMode::Never, show_icons: true, env: &env };
    let cell = b.build(&file("script.py"));
    assert!(cell.text.contains("script.py"));
    // Width = 2 (glyph) + 2 (gap) + 9 (script.py)
    assert_eq!(cell.width, 13);
}

#[test]
fn file_cell_without_icon() {
    let (theme, icons) = ctx();
    let env = TermEnv::plain();
    let b = CellBuilder { theme: &theme, icons: &icons, color_mode: ColorMode::Never, show_icons: false, env: &env };
    let cell = b.build(&file("script.py"));
    assert_eq!(cell.text, "script.py");
    assert_eq!(cell.width, 9);
}

#[test]
fn directory_uses_dir_color() {
    let (theme, icons) = ctx();
    let env = TermEnv::plain();
    let b = CellBuilder { theme: &theme, icons: &icons, color_mode: ColorMode::Always, show_icons: false, env: &env };
    let cell = b.build(&dir("subdir"));
    // dodgerblue (30,144,255)
    assert!(cell.text.contains("\x1b[38;2;30;144;255m"));
}

#[test]
fn unknown_extension_uses_unrecognized_file_color() {
    let (theme, icons) = ctx();
    let env = TermEnv::plain();
    let b = CellBuilder { theme: &theme, icons: &icons, color_mode: ColorMode::Always, show_icons: false, env: &env };
    let cell = b.build(&file("data.qwertyuiop"));
    // gold (255,215,0)
    assert!(cell.text.contains("\x1b[38;2;255;215;0m"));
}

#[test]
fn live_symlink_uses_link_color() {
    let (theme, icons) = ctx();
    let env = TermEnv::plain();
    let mut e = entry_at("/tmp/t", "broken", S_IFLNK | 0o777, 0, 3);
    e.link_target = Some("/no/such/target".to_string());
    let b = CellBuilder { theme: &theme, icons: &icons, color_mode: ColorMode::Always, show_icons: false, env: &env };
    let cell = b.build(&e);
    // cyan (0,255,255) is `link`
    assert!(cell.text.contains("\x1b[38;2;0;255;255m"));
}

#[test]
fn icon_cell_layout_is_glyph_two_spaces_name() {
    let (theme, icons) = ctx();
    let env = TermEnv::plain();
    let b = CellBuilder { theme: &theme, icons: &icons, color_mode: ColorMode::Never, show_icons: true, env: &env };
    let cells = build_cells(&vec![file("a.rs"), dir("src")], &b);
    let glyph_rs = icons.for_file("a.rs").glyph;
    let glyph_dir = icons.for_directory("src").glyph;
    assert_eq!(cells[0].text, format!("{glyph_rs}  a.rs"));
    assert_eq!(cells[1].text, format!("{glyph_dir}  src"));
    assert_eq!(cells[1].width, 7);
}

// ---- grid ----

#[test]
fn horizontal_three_per_row_in_30_cols() {
    let c = plain_cells(&["aa", "bb", "cc", "dd", "ee"]);
    let out = render_grid(&c, 30, GridKind::Horizontal);
    let lines: Vec<&str> = out.trim_end().split('\n').collect();
    assert!(!lines.is_empty());
    assert!(lines[0].contains("aa"));
    assert!(lines[0].contains("cc"));
}

#[test]
fn vertical_top_to_bottom_ordering() {
    let c = plain_cells(&["a", "b", "c", "d", "e", "f"]);
    let out = render_grid(&c, 8, GridKind::Vertical);
    // 8 columns / (1 + 2 per cell) -> 2 columns -> 3 rows, column-major.
    let lines: Vec<&str> = out.trim_end().split('\n').collect();
    assert_eq!(lines.len(), 3);
    assert!(lines[0].starts_with('a') && lines[0].contains('d'));
    assert!(lines[1].starts_with('b') && lines[1].contains('e'));
    assert!(lines[2].starts_with('c') && lines[2].contains('f'));
}

#[test]
fn grid_empty_input_emits_nothing() {
    assert_eq!(render_grid(&vec![], 80, GridKind::Vertical), "");
    assert_eq!(render_grid(&vec![], 80, GridKind::Horizontal), "");
}

#[test]
fn single_cell_one_line() {
    let c = plain_cells(&["only"]);
    assert_eq!(render_grid(&c, 80, GridKind::Vertical), "only\n");
}

#[test]
fn narrow_width_falls_back_to_one_column() {
    let c = plain_cells(&["alpha", "beta", "gamma"]);
    let out = render_grid(&c, 3, GridKind::Vertical);
    let lines: Vec<&str> = out.trim_end().split('\n').collect();
    assert_eq!(lines.len(), 3);
}

#[test]
fn horizontal_pads_short_cells_to_column_width() {
    let c = plain_cells(&["a", "bbb", "c", "d"]);
    let out = render_grid(&c, 20, GridKind::Horizontal);
    let first = out.lines().next().unwrap();
    let a_pos = first.find('a').unwrap();
    let b_pos = first.find('b').unwrap();
    assert!(b_pos - a_pos >= 3);
}

#[test]
fn vertical_grid_exact_text() {
    let c = plain_cells(&["aa", "bb", "cc", "dd", "ee", "ff"]);
    // all six fit on one row of 80 columns
    assert_eq!(render_grid(&c, 80, GridKind::Vertical), "aa  bb  cc  dd  ee  ff\n");
    // 10 columns: 2 columns of 3 rows
    assert_eq!(render_grid(&c, 10, GridKind::Vertical), "aa  dd\nbb  ee\ncc  ff\n");
}

#[test]
fn horizontal_grid_exact_text() {
    let c = plain_cells(&["a", "bbb", "c", "d"]);
    assert_eq!(render_grid(&c, 10, GridKind::Horizontal), "a  bbb\nc  d\n");
}

#[test]
fn fit_columns_reports_rows_and_widths() {
    let (rows, widths) = fit_columns(&vec![4, 4, 4, 4, 4, 4], 10, GridKind::Vertical);
    assert_eq!(rows, 3);
    assert_eq!(widths, vec![4, 4]);
    let (cols, widths) = fit_columns(&vec![3, 5, 3, 3], 12, GridKind::Horizontal);
    assert_eq!(cols, 3);
    assert_eq!(widths, vec![3, 5, 3]);
    assert_eq!(fit_columns(&vec![], 80, GridKind::Vertical), (0, vec![]));
}

// ---- one per line ----

#[test]
fn writes_one_per_line() {
    let cells = vec![Cell { text: "a".into(), width: 1 }, Cell { text: "b".into(), width: 1 }];
    assert_eq!(one_per_line::render(&cells), "a\nb\n");
}

#[test]
fn one_per_line_empty_input_emits_nothing() {
    assert!(one_per_line::render(&vec![]).is_empty());
}

// ---- width ----

#[test]
fn ascii_widths() {
    assert_eq!(display_width("hello"), 5);
    assert_eq!(display_width(""), 0);
}

#[test]
fn cjk_double_width() {
    assert_eq!(display_width("漢字"), 4);
}

#[test]
fn pua_glyph_counted_as_two() {
    // U+E74E (a file-type icon) is in the BMP private use area.
    assert_eq!(char_display_width('\u{e74e}'), 2);
    // Outside the PUA, a BMP char stays width 1.
    assert_eq!(char_display_width('a'), 1);
}

#[test]
fn control_chars_zero_width() {
    assert_eq!(display_width("\x07\x08"), 0);
}

#[test]
fn supplementary_pua_double_width() {
    // U+F0000 is the start of Supplementary PUA-A.
    assert_eq!(char_display_width('\u{F0000}'), 2);
}

#[test]
fn pua_ranges() {
    assert!(is_nerd_font_pua('\u{E000}'));
    assert!(is_nerd_font_pua('\u{F8FF}'));
    assert!(!is_nerd_font_pua('\u{F900}'));
    assert!(is_nerd_font_pua('\u{10FFFD}'));
    assert!(!is_nerd_font_pua('\u{10FFFE}'));
    assert_eq!(display_width("a\u{e74e}b"), 4);
}

// ---- hyperlinks ----

#[test]
fn off_returns_text_unchanged() {
    assert_eq!(wrap("hello", "/tmp/x", HyperlinkMode::Off, &TermEnv::plain()), "hello");
}

#[test]
fn never_returns_text_unchanged() {
    assert_eq!(wrap("hello", "/tmp/x", HyperlinkMode::Never, &TermEnv::plain()), "hello");
}

#[test]
fn always_wraps_in_osc8() {
    let s = wrap("hello", "/tmp/x", HyperlinkMode::Always, &TermEnv::plain());
    assert!(s.starts_with("\x1b]8;;file:///"));
    assert!(s.ends_with("hello\x1b]8;;\x1b\\"));
    assert_eq!(s, "\x1b]8;;file:///tmp/x\x1b\\hello\x1b]8;;\x1b\\");
}

#[test]
fn auto_wraps_only_on_a_capable_terminal() {
    let mut env = TermEnv::plain();
    assert_eq!(wrap("t", "/x", HyperlinkMode::Auto, &env), "t");
    env.stdout_is_terminal = true;
    assert_eq!(wrap("t", "/x", HyperlinkMode::Auto, &env), "\x1b]8;;file:///x\x1b\\t\x1b]8;;\x1b\\");
    env.term = Some("dumb".to_string());
    assert_eq!(wrap("t", "/x", HyperlinkMode::Auto, &env), "t");
}

#[test]
fn percent_encodes_spaces_and_specials() {
    let uri = path_to_file_uri("/tmp/has space/x@y");
    assert!(uri.contains("%20"));
    assert!(uri.contains("%40"));
    assert_eq!(uri, "file:///tmp/has%20space/x%40y");
}

#[test]
fn ascii_alnum_path_unencoded() {
    assert_eq!(path_to_file_uri("/usr/local/bin"), "file:///usr/local/bin");
}

#[test]
fn non_ascii_path_encodes_utf8_bytes() {
    assert_eq!(path_to_file_uri("/é"), "file:///%C3%A9");
}

// ---- long listing ----

fn long_default() -> LongOptions {
    LongOptions {
        time_style: TimeStyle::Asctime,
        show_owner: true,
        show_group: true,
        show_hardlinks: true,
        show_inode: false,
        human_readable: true,
    }
}

fn now() -> SysTime {
    SysTime { secs: 1_700_000_100, nanos: 0 }
}

#[test]
fn renders_a_row_with_expected_columns() {
    let (theme, icons) = ctx();
    let entry = entry_at("/tmp/t", "script.py", S_IFREG | 0o644, 11, 10);
    let (s, counts, _) = render_long(
        &vec![entry],
        &theme,
        &icons,
        ColorMode::Never,
        true,
        &long_default(),
        now(),
        &TermEnv::plain(),
        &mut NameCache::new(),
    );
    assert!(s.contains("script.py"), "missing name in: {s:?}");
    assert!(s.contains(" B"), "missing size unit");
    assert!(s.contains("rw"), "missing mode bits");
    assert_eq!(counts.recognized_files, 1);
    assert_eq!(counts.folders, 0);
}

#[test]
fn report_counts_track_by_icon_kind() {
    let (theme, icons) = ctx();
    let entries = vec![file("a.py"), file("b.qwerty"), dir("d")];
    let (_, counts, _) = render_long(
        &entries,
        &theme,
        &icons,
        ColorMode::Never,
        false,
        &long_default(),
        now(),
        &TermEnv::plain(),
        &mut NameCache::new(),
    );
    assert_eq!(counts.folders, 1);
    assert_eq!(counts.recognized_files, 1);
    assert_eq!(counts.unrecognized_files, 1);
}

#[test]
fn symlink_renders_arrow_target() {
    let (theme, icons) = ctx();
    let mut e = entry_at("/tmp/t", "alias", S_IFLNK | 0o777, 0, 11);
    e.link_target = Some("/tmp/t/real.txt".to_string());
    e.link_alive = true;
    let (s, _, _) = render_long(&vec![e], &theme, &icons, ColorMode::Never, false, &long_default(), now(), &TermEnv::plain(), &mut NameCache::new());
    assert!(s.contains("\u{21d2}"), "expected ⇒ in: {s:?}");
    assert!(s.contains("real.txt"));
    assert!(!s.contains("[Dead link]"));
}

#[test]
fn dead_symlink_marked() {
    let (theme, icons) = ctx();
    let mut e = entry_at("/tmp/t", "broken", S_IFLNK | 0o777, 0, 12);
    e.link_target = Some("/no/such/target/zzzz".to_string());
    e.link_alive = false;
    let (s, _, _) = render_long(&vec![e], &theme, &icons, ColorMode::Never, false, &long_default(), now(), &TermEnv::plain(), &mut NameCache::new());
    assert!(s.contains("[Dead link]"), "expected dead-link marker in: {s:?}");
}

#[test]
fn non_human_readable_uses_raw_byte_width() {
    let (theme, icons) = ctx();
    let e = entry_at("/tmp/t", "a", S_IFREG | 0o644, 1500, 13);
    let mut long = long_default();
    long.human_readable = false;
    let (s, _, widths) = render_long(&vec![e], &theme, &icons, ColorMode::Never, false, &long, now(), &TermEnv::plain(), &mut NameCache::new());
    assert!(s.contains("1500"), "expected raw byte count: {s:?}");
    assert!(!s.contains("KiB"), "should not include KiB unit");
    assert_eq!(widths.size_num, 4);
}

fn facts(user: &str, group: &str, mtime: &str) -> RowFacts {
    RowFacts { user: user.to_string(), group: group.to_string(), mtime: Ok(mtime.to_string()) }
}

#[test]
fn long_row_exact_layout() {
    let (theme, icons) = ctx();
    let mut a = entry_at("/tmp/t", "a.rs", S_IFREG | 0o755, 1536, 20);
    a.meta.nlink = 12;
    let b = entry_at("/tmp/t", "b", S_IFREG | 0o4644, 5, 21);
    let rows = vec![facts("alice", "staff", "Tue Nov 14 22:13:20 2023"), facts("bo", "wheel", "Tue Nov 14 22:13:20 2023")];
    let (s, counts, widths) = render_rows(
        &vec![a, b],
        &rows,
        &theme,
        &icons,
        ColorMode::Never,
        false,
        &long_default(),
        now(),
        &TermEnv::plain(),
    );
    assert_eq!(widths.link, 2);
    assert_eq!(widths.user, 5);
    assert_eq!(widths.group, 5);
    assert_eq!(widths.size_num, 4);
    assert_eq!(counts.unrecognized_files, 1);
    assert_eq!(counts.recognized_files, 1);
    let expected = "rwxr-xr-x   12   alice   staff   1.50 KiB   Tue Nov 14 22:13:20 2023 a.rs\n\
                    rwSr--r--    1   bo      wheel      5 B     Tue Nov 14 22:13:20 2023 b\n";
    assert_eq!(s, expected);
}

#[test]
fn long_row_inode_and_failed_time() {
    let (theme, icons) = ctx();
    let e = entry_at("/tmp/t", "x", S_IFREG | 0o600, 0, 4242);
    let mut long = long_default();
    long.show_inode = true;
    long.show_owner = false;
    long.show_group = false;
    long.show_hardlinks = false;
    long.human_readable = false;
    let rows = vec![RowFacts { user: String::new(), group: String::new(), mtime: Err(TimeFormatError::BeforeEpoch) }];
    let (s, _, widths) = render_rows(&vec![e], &rows, &theme, &icons, ColorMode::Never, false, &long, now(), &TermEnv::plain());
    assert_eq!(widths.user, 0);
    assert_eq!(s, "      4242   rw-------      0   invalid mtime            x\n");
}

#[test]
fn long_size_column_widens_for_large_raw_sizes() {
    let (theme, icons) = ctx();
    let e1 = entry_at("/tmp/t", "big", S_IFREG | 0o644, 1234567, 30);
    let e2 = entry_at("/tmp/t", "small", S_IFREG | 0o644, 7, 31);
    let mut long = long_default();
    long.human_readable = false;
    long.show_owner = false;
    long.show_group = false;
    long.show_hardlinks = false;
    let rows = vec![facts("", "", "T"), facts("", "", "T")];
    let (s, _, widths) = render_rows(&vec![e1, e2], &rows, &theme, &icons, ColorMode::Never, false, &long, now(), &TermEnv::plain());
    assert_eq!(widths.size_num, 7);
    assert_eq!(s, "rw-r--r--   1234567   T big\nrw-r--r--         7   T small\n");
}

#[test]
fn report_is_painted() {
    let (theme, _) = ctx();
    let counts = lsc_utils::util::report::ReportCounts { folders: 1, recognized_files: 2, unrecognized_files: 0 };
    let s = render_report(&counts, ReportKind::Short, &theme, ColorMode::Never, &TermEnv::plain());
    assert_eq!(s, "\n    Folders: 1, Files: 2.\n");
}

// ---- tree ----

/// Walks a tree whose directories are listed in `listings` (by path).
fn walk(root: &str, depth: Option<usize>, listings: &[(&str, Vec<FileEntry>)]) -> String {
    let (theme, icons) = ctx();
    let env = TermEnv::plain();
    let builder = CellBuilder { theme: &theme, icons: &icons, color_mode: ColorMode::Never, show_icons: false, env: &env };
    let mut w = TreeWalk::new(root, depth, SortSpec::default());
    let mut out = String::new();
    let mut steps = 0;
    loop {
        steps += 1;
        assert!(steps < 10_000, "walk does not end");
        match w.next(&builder, &theme, ColorMode::Never, &env) {
            TreeStep::Line(l) => out.push_str(&l),
            TreeStep::Scan { path } => {
                let listing = listings
                    .iter()
                    .find(|(p, _)| *p == path)
                    .map(|(_, v)| v.clone())
                    .unwrap_or_default();
                w.listed(listing);
            }
            TreeStep::Done => break,
        }
    }
    out
}

fn tdir(parent: &str, name: &str, ino: u64) -> FileEntry {
    entry_at(parent, name, S_IFDIR | 0o755, 0, ino)
}

fn tfile(parent: &str, name: &str) -> FileEntry {
    entry_at(parent, name, S_IFREG | 0o644, 0, 1)
}

#[test]
fn empty_dir_emits_nothing() {
    assert_eq!(walk("/r", None, &[("/r", vec![])]), "");
}

#[test]
fn flat_dir_uses_branch_connectors() {
    let s = walk("/r", None, &[("/r", vec![tfile("/r", "c"), tfile("/r", "a"), tfile("/r", "b")])]);
    let lines: Vec<&str> = s.lines().collect();
    assert_eq!(lines.len(), 3);
    assert!(lines[0].contains("\u{251c}\u{2500}\u{2500}"));
    assert!(lines[1].contains("\u{251c}\u{2500}\u{2500}"));
    assert!(lines[2].contains("\u{2514}\u{2500}\u{2500}"));
    assert!(lines[0].contains(" a"));
    assert!(lines[2].contains(" c"));
}

#[test]
fn nested_dir_descends_with_pipe_prefix() {
    let s = walk("/r", None, &[("/r", vec![tdir("/r", "d", 100)]), ("/r/d", vec![tfile("/r/d", "inner")])]);
    let lines: Vec<&str> = s.lines().collect();
    assert_eq!(lines.len(), 2);
    assert!(lines[0].contains(" d"), "line0={:?}", lines[0]);
    assert!(lines[1].contains("\u{2502}"), "expected │, line1={:?}", lines[1]);
    assert!(lines[1].contains(" inner"), "line1={:?}", lines[1]);
    assert_eq!(s, " \u{2514}\u{2500}\u{2500} d\n \u{2502}  \u{2514}\u{2500}\u{2500}\u{2500}\u{2500} inner\n");
}

fn deep() -> Vec<(&'static str, Vec<FileEntry>)> {
    vec![
        ("/r", vec![tdir("/r", "a", 101)]),
        ("/r/a", vec![tdir("/r/a", "b", 102)]),
        ("/r/a/b", vec![tdir("/r/a/b", "c", 103)]),
        ("/r/a/b/c", vec![tfile("/r/a/b/c", "leaf")]),
    ]
}

#[test]
fn depth_limit_truncates() {
    let s = walk("/r", Some(2), &deep());
    assert!(s.contains(" a"));
    assert!(s.contains(" b"));
    assert!(!s.contains(" c"), "depth limit failed: {s:?}");
    assert!(!s.contains(" leaf"));
}

#[test]
fn depth_zero_treated_as_unbounded_via_caller() {
    // depth Some(0): the top level is printed, nothing is descended into
    let s = walk("/r", Some(0), &[("/r", vec![tdir("/r", "d", 100)]), ("/r/d", vec![tfile("/r/d", "inner")])]);
    assert!(s.contains(" d"));
    assert!(!s.contains(" inner"));
}

#[test]
fn unbounded_walk_reaches_the_leaf() {
    let s = walk("/r", None, &deep());
    assert!(s.contains(" leaf"));
    assert_eq!(s.lines().count(), 4);
}

#[test]
fn cycle_guard_descends_once() {
    // `/r/loop` has the same device and inode as `/r/a`: it is printed but
    // not entered.
    let s = walk(
        "/r",
        None,
        &[
            ("/r", vec![tdir("/r", "a", 200), tdir("/r", "loop", 200)]),
            ("/r/a", vec![tfile("/r/a", "x")]),
            ("/r/loop", vec![tfile("/r/loop", "y")]),
        ],
    );
    assert!(s.contains(" x"));
    assert!(s.contains(" loop"));
    assert!(!s.contains(" y"));
}

#[test]
fn preprint_prefix_shapes() {
    assert_eq!(preprint(0, " X"), " X");
    assert_eq!(preprint(4, " X"), " \u{2502}  \u{2502}  X\u{2500}\u{2500}");
}

#[test]
fn column_search_takes_the_largest_count_that_fits() {
    // two columns need 3 + 12 = 15 > 12; one column needs 12
    assert_eq!(fit_columns(&vec![3, 12], 12, GridKind::Horizontal), (1, vec![12]));
    let c = plain_cells(&["a", "bbbbbbbbbb"]);
    assert_eq!(render_grid(&c, 12, GridKind::Horizontal), "a\nbbbbbbbbbb\n");
    // three columns fit where two do not: [10,1,1 | 10,1,1]
    let (cols, widths) = fit_columns(&vec![10, 1, 1, 10, 1, 1], 12, GridKind::Horizontal);
    assert_eq!(cols, 3);
    assert_eq!(widths, vec![10, 1, 1]);
}

#[test]
fn long_render_names_come_from_the_cache() {
    let (theme, icons) = ctx();
    let mut e = entry_at("/tmp/t", "x", S_IFREG | 0o644, 0, 40);
    e.meta.uid = 4_000_000_000;
    e.meta.gid = 3_999_999_999;
    let mut names = NameCache::new();
    let (s, _, widths) = render_long(&vec![e], &theme, &icons, ColorMode::Never, false, &long_default(), now(), &TermEnv::plain(), &mut names);
    assert!(s.contains("4000000000   3999999999"), "got {s:?}");
    assert_eq!(widths.user, 10);
    // the cache remembers what the listing looked up
    assert_eq!(names.user_name(4_000_000_000), "4000000000");
}

#[test]
fn width_of_ascii_and_controls() {
    assert_eq!(display_width("abc xyz~"), 8);
    assert_eq!(display_width("\u{1b}\u{7f}\u{85}"), 0);
    assert_eq!(char_display_width('\u{9f}'), 0);
}
