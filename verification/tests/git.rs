//! Git status column.

use lsc_utils::config::theme::{ActiveTheme, ColorMode, Theme};
use lsc_utils::config::Config;
use lsc_utils::git::{
    map_status, render_status, GitContext, GitFlags, INDEX_DELETED, INDEX_MODIFIED, INDEX_NEW,
    INDEX_RENAMED, INDEX_TYPECHANGE, WT_DELETED, WT_MODIFIED, WT_NEW, WT_RENAMED, WT_TYPECHANGE,
};
use lsc_utils::term::TermEnv;

fn theme() -> Theme {
    let cfg = Config::load(None).unwrap();
    Theme::from_config(&cfg, ActiveTheme::Dark).unwrap()
}

fn ctx(workdir: &str, entries: &[(&str, u32)]) -> GitContext {
    let v: Vec<(String, u32)> = entries.iter().map(|(p, s)| (p.to_string(), *s)).collect();
    GitContext::from_statuses(workdir, &v)
}

#[test]
fn render_clean_is_check_mark() {
    let s = render_status(GitFlags::empty(), &theme(), ColorMode::Never, &TermEnv::plain());
    assert_eq!(s, "  \u{2713} ");
}

#[test]
fn render_modified_letter_in_4_char_field() {
    let s = render_status(GitFlags::MODIFIED(), &theme(), ColorMode::Never, &TermEnv::plain());
    assert_eq!(s, "  M ", "got: {s:?}");
}

#[test]
fn render_multiple_flags() {
    let s = render_status(
        GitFlags::NEW().union(GitFlags::MODIFIED()),
        &theme(),
        ColorMode::Never,
        &TermEnv::plain(),
    );
    // characters in flag order: ? then M -> " ?M "
    assert_eq!(s, " ?M ", "got: {s:?}");
}

#[test]
fn render_all_flags_overflows_field() {
    let all = GitFlags::NEW()
        .union(GitFlags::ADDED())
        .union(GitFlags::MODIFIED())
        .union(GitFlags::DELETED())
        .union(GitFlags::RENAMED());
    let s = render_status(all, &theme(), ColorMode::Never, &TermEnv::plain());
    assert_eq!(s, "?AMDR");
}

#[test]
fn render_colors_each_letter() {
    let s = render_status(GitFlags::ADDED(), &theme(), ColorMode::Always, &TermEnv::plain());
    // `addition` is chartreuse (127, 255, 0) in the dark theme
    assert_eq!(s, "  \x1b[38;2;127;255;0mA\x1b[0m ");
}

#[test]
fn status_bits_map_to_flags() {
    assert_eq!(map_status(WT_NEW), GitFlags::NEW());
    assert_eq!(map_status(INDEX_NEW), GitFlags::ADDED());
    for s in [WT_MODIFIED, INDEX_MODIFIED, WT_TYPECHANGE, INDEX_TYPECHANGE] {
        assert_eq!(map_status(s), GitFlags::MODIFIED());
    }
    for s in [WT_DELETED, INDEX_DELETED] {
        assert_eq!(map_status(s), GitFlags::DELETED());
    }
    for s in [WT_RENAMED, INDEX_RENAMED] {
        assert_eq!(map_status(s), GitFlags::RENAMED());
    }
    assert!(map_status(0).is_empty());
    // ignored (1 << 14) surfaces nothing
    assert!(map_status(1 << 14).is_empty());
    assert_eq!(map_status(INDEX_NEW | WT_MODIFIED), GitFlags::ADDED().union(GitFlags::MODIFIED()));
}

#[test]
fn untracked_file_flagged_new() {
    let c = ctx("/repo", &[("hello.txt", WT_NEW)]);
    let flags = c.flags_for("/repo/hello.txt");
    assert!(flags.contains(GitFlags::NEW()), "expected NEW, got {flags:?}");
}

#[test]
fn modified_file_flagged_modified() {
    let c = ctx("/repo", &[("a.txt", WT_MODIFIED)]);
    let flags = c.flags_for("/repo/a.txt");
    assert!(flags.contains(GitFlags::MODIFIED()), "expected MODIFIED, got {flags:?}");
}

#[test]
fn directory_aggregates_descendant_flags() {
    let c = ctx("/repo", &[("sub/inner.txt", WT_NEW), ("sub/deep/x", INDEX_DELETED), ("other", WT_MODIFIED)]);
    let flags = c.flags_for("/repo/sub");
    assert!(flags.contains(GitFlags::NEW()), "directory should inherit child NEW, got {flags:?}");
    assert!(flags.contains(GitFlags::DELETED()));
    assert!(!flags.contains(GitFlags::MODIFIED()));
}

#[test]
fn paths_outside_the_work_tree_are_clean() {
    let c = ctx("/repo", &[("a.txt", WT_NEW)]);
    assert!(c.flags_for("/elsewhere/a.txt").is_empty());
    assert!(c.flags_for("/repository/a.txt").is_empty());
    // the work tree itself is not an entry of the status list
    assert!(c.flags_for("/repo").is_empty());
}

#[test]
fn sibling_with_common_prefix_is_not_a_descendant() {
    let c = ctx("/repo", &[("subdir/x", WT_NEW)]);
    assert!(c.flags_for("/repo/sub").is_empty());
    assert!(c.flags_for("/repo/subdir").contains(GitFlags::NEW()));
}

#[test]
fn directory_flags_hold_every_entry_flags() {
    let c = ctx("/repo", &[("sub/a.txt", WT_MODIFIED), ("sub/b/c.txt", WT_NEW), ("top.txt", WT_DELETED)]);
    let sub = c.flags_for("/repo/sub");
    let b = c.flags_for("/repo/sub/b");
    let a = c.flags_for("/repo/sub/a.txt");
    let inner = c.flags_for("/repo/sub/b/c.txt");
    for (dir, child) in [(sub, a), (sub, b), (b, inner)] {
        assert_eq!(dir.bits & child.bits, child.bits);
    }
    assert!(b.contains(GitFlags::NEW()));
    assert!(!b.contains(GitFlags::MODIFIED()));
    assert!(!sub.contains(GitFlags::DELETED()));
}
