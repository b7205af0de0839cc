//! Entries: classification, filtering and ordering.

use lsc_utils::fs::entry::{
    classify, filter_entries, with_dot_entries, DotEntryError, EntryKind, EntryMeta, FileEntry,
};
use lsc_utils::fs::sort::{compare, sort};
use std::cmp::Ordering;
use lsc_utils::options::{Filter, Group, SortKey, SortSpec};
use lsc_utils::util::time_fmt::SysTime;

const S_IFREG: u32 = 0o100000;
const S_IFDIR: u32 = 0o040000;
const S_IFLNK: u32 = 0o120000;

fn meta(mode: u32, size: u64, mtime: Option<SysTime>) -> EntryMeta {
    EntryMeta { mode, nlink: 1, uid: 0, gid: 0, size, ino: 1, dev: 1, mtime }
}

fn entry(name: &str, mode: u32, size: u64, mtime: Option<SysTime>) -> FileEntry {
    FileEntry {
        name: name.to_string(),
        path: format!("/tmp/t/{name}"),
        kind: classify(mode),
        meta: meta(mode, size, mtime),
        link_target: None,
        link_alive: false,
    }
}

fn file(name: &str) -> FileEntry {
    entry(name, S_IFREG | 0o644, 0, None)
}

fn sized(name: &str, size: u64) -> FileEntry {
    entry(name, S_IFREG | 0o644, size, None)
}

fn aged(name: &str, secs_ago: i64) -> FileEntry {
    let now = 1_700_000_000i64;
    entry(name, S_IFREG | 0o644, 0, Some(SysTime { secs: now - secs_ago, nanos: 0 }))
}

fn dir(name: &str) -> FileEntry {
    entry(name, S_IFDIR | 0o755, 4096, None)
}

fn names(v: &[FileEntry]) -> Vec<String> {
    v.iter().map(|e| e.name_lossy().to_string()).collect()
}

fn spec(key: SortKey, reverse: bool, group: Group) -> SortSpec {
    SortSpec { key, reverse, group }
}

// ---- classification ----

#[test]
fn classifies_regular_file() {
    let e = file("a.txt");
    assert_eq!(e.kind, EntryKind::File);
    assert!(!e.is_dir());
}

#[test]
fn classifies_directory() {
    let e = dir("sub");
    assert_eq!(e.kind, EntryKind::Directory);
    assert!(e.is_dir());
}

#[test]
fn classifies_symlink_without_following() {
    let mut e = entry("link", S_IFLNK | 0o777, 0, None);
    e.link_target = Some("/tmp/t/real.txt".to_string());
    assert_eq!(e.kind, EntryKind::Symlink);
    assert_eq!(e.link_target.as_deref(), Some("/tmp/t/real.txt"));
}

#[test]
fn classifies_special_files() {
    assert_eq!(classify(0o010644), EntryKind::Fifo);
    assert_eq!(classify(0o140755), EntryKind::Socket);
    assert_eq!(classify(0o060660), EntryKind::BlockDevice);
    assert_eq!(classify(0o020620), EntryKind::CharDevice);
}

#[test]
fn detects_hidden() {
    assert!(file(".hidden").is_hidden());
    assert!(!file("visible").is_hidden());
}

#[test]
fn executable_bit_on_any_triplet() {
    assert!(entry("x", S_IFREG | 0o001, 0, None).is_executable());
    assert!(entry("x", S_IFREG | 0o100, 0, None).is_executable());
    assert!(!entry("x", S_IFREG | 0o644, 0, None).is_executable());
}

// ---- filtering ----

fn fixture() -> Vec<FileEntry> {
    vec![file("visible.txt"), file(".hidden"), dir("subdir"), dir(".dotdir")]
}

/// A scan of the fixture directory, whose own entry and parent both read.
fn scan(f: &Filter) -> Vec<String> {
    names(&with_dot_entries(fixture(), Some(dir("t")), Some(Some(dir("tmp"))), f).unwrap())
}

#[test]
fn default_filter_hides_dotfiles() {
    let n = scan(&Filter::default());
    assert!(n.contains(&"visible.txt".to_string()));
    assert!(n.contains(&"subdir".to_string()));
    assert!(!n.contains(&".hidden".to_string()));
    assert!(!n.contains(&".dotdir".to_string()));
}

#[test]
fn almost_all_shows_dotfiles_but_not_dot_dotdot() {
    let f = Filter { almost_all: true, ..Filter::default() };
    let n = scan(&f);
    assert!(n.contains(&".hidden".to_string()));
    assert!(n.contains(&".dotdir".to_string()));
    assert!(!n.contains(&".".to_string()));
    assert!(!n.contains(&"..".to_string()));
}

#[test]
fn all_includes_dot_and_dotdot() {
    let f = Filter { all: true, ..Filter::default() };
    let n = scan(&f);
    assert!(n.contains(&".".to_string()));
    assert!(n.contains(&"..".to_string()));
    assert!(n.contains(&".hidden".to_string()));
}

#[test]
fn only_dirs_filters_files() {
    let f = Filter { only_dirs: true, ..Filter::default() };
    let n = scan(&f);
    assert!(n.contains(&"subdir".to_string()));
    assert!(!n.contains(&"visible.txt".to_string()));
}

#[test]
fn only_files_filters_dirs() {
    let f = Filter { only_files: true, ..Filter::default() };
    let n = scan(&f);
    assert!(n.contains(&"visible.txt".to_string()));
    assert!(!n.contains(&"subdir".to_string()));
}

#[test]
fn dirs_and_files_together_keep_both() {
    let f = Filter { only_dirs: true, only_files: true, ..Filter::default() };
    assert_eq!(names(&filter_entries(fixture(), &f)), vec!["visible.txt", "subdir"]);
}

#[test]
fn filter_keeps_input_order() {
    let f = Filter { almost_all: true, ..Filter::default() };
    assert_eq!(
        names(&filter_entries(fixture(), &f)),
        vec!["visible.txt", ".hidden", "subdir", ".dotdir"]
    );
}

#[test]
fn dot_entries_follow_the_listing() {
    let f = Filter { all: true, ..Filter::default() };
    let v = with_dot_entries(fixture(), Some(dir("t")), Some(Some(dir("tmp"))), &f).unwrap();
    assert_eq!(names(&v), vec!["visible.txt", ".hidden", "subdir", ".dotdir", ".", ".."]);
    assert_eq!(v[4].path, ".");
    assert_eq!(v[5].path, "..");
    assert_eq!(v[4].kind, EntryKind::Directory);
}

#[test]
fn no_parent_adds_only_dot() {
    let f = Filter { all: true, ..Filter::default() };
    let v = with_dot_entries(vec![file("a")], Some(dir("/")), None, &f).unwrap();
    assert_eq!(names(&v), vec!["a", "."]);
}

#[test]
fn unreadable_dot_is_an_error_with_all() {
    let f = Filter { all: true, ..Filter::default() };
    assert_eq!(with_dot_entries(fixture(), None, None, &f).err(), Some(DotEntryError::Dot));
}

#[test]
fn unreadable_parent_is_an_error_with_all() {
    let f = Filter { all: true, ..Filter::default() };
    let r = with_dot_entries(fixture(), Some(dir("t")), Some(None), &f);
    assert_eq!(r.err(), Some(DotEntryError::DotDot));
}

#[test]
fn without_all_dot_entries_are_not_read() {
    let f = Filter { almost_all: true, only_dirs: true, ..Filter::default() };
    let v = with_dot_entries(fixture(), None, Some(None), &f).unwrap();
    assert_eq!(names(&v), vec!["subdir", ".dotdir"]);
}

#[test]
fn dot_entries_obey_only_files() {
    let f = Filter { all: true, only_files: true, ..Filter::default() };
    let v = with_dot_entries(fixture(), Some(dir("t")), Some(Some(dir("tmp"))), &f).unwrap();
    assert_eq!(names(&v), vec!["visible.txt", ".hidden"]);
}

// ---- sorting ----

#[test]
fn name_ascending() {
    let mut v = vec![file("c"), file("a"), file("b")];
    sort(&mut v, spec(SortKey::Name, false, Group::Mixed));
    assert_eq!(names(&v), vec!["a", "b", "c"]);
}

#[test]
fn size_largest_first() {
    let mut v = vec![sized("small", 10), sized("big", 1000), sized("mid", 100)];
    sort(&mut v, spec(SortKey::Size, false, Group::Mixed));
    assert_eq!(names(&v), vec!["big", "mid", "small"]);
}

#[test]
fn time_newest_first() {
    let mut v = vec![aged("old", 86_400), aged("new", 60), aged("ancient", 86_400 * 30)];
    sort(&mut v, spec(SortKey::Time, false, Group::Mixed));
    assert_eq!(names(&v), vec!["new", "old", "ancient"]);
}

#[test]
fn extension_then_name() {
    let mut v = vec![file("z.rs"), file("a.txt"), file("a.rs"), file("noext")];
    sort(&mut v, spec(SortKey::Extension, false, Group::Mixed));
    // Empty extension sorts first (noext), then "rs" (a.rs, z.rs), then "txt" (a.txt).
    assert_eq!(names(&v), vec!["noext", "a.rs", "z.rs", "a.txt"]);
}

#[test]
fn none_preserves_order() {
    let mut v = vec![file("c"), file("a"), file("b")];
    sort(&mut v, spec(SortKey::Unsorted, false, Group::Mixed));
    assert_eq!(names(&v), vec!["c", "a", "b"]);
}

#[test]
fn reverse_flips() {
    let mut v = vec![file("a"), file("b"), file("c")];
    sort(&mut v, spec(SortKey::Name, true, Group::Mixed));
    assert_eq!(names(&v), vec!["c", "b", "a"]);
}

#[test]
fn dirs_first_partitions() {
    let mut v = vec![file("file_a"), dir("dir_z"), file("file_b"), dir("dir_a")];
    sort(&mut v, spec(SortKey::Name, false, Group::DirsFirst));
    // Within each group the inner sort (name ascending) is preserved.
    assert_eq!(names(&v), vec!["dir_a", "dir_z", "file_a", "file_b"]);
}

#[test]
fn files_first_partitions() {
    let mut v = vec![file("f"), dir("d")];
    sort(&mut v, spec(SortKey::Name, false, Group::FilesFirst));
    assert_eq!(v[0].name_lossy(), "f");
    assert_eq!(v[1].name_lossy(), "d");
}

#[test]
fn name_sort_is_total_and_idempotent() {
    let raw = ["b_3", "B_1", "a_0", "_9", "Z_2", "a0_4", "b_3x", "0_5"];
    let mut entries: Vec<FileEntry> = raw.iter().map(|n| file(n)).collect();
    let s = spec(SortKey::Name, false, Group::Mixed);
    sort(&mut entries, s);
    let after_first = names(&entries);
    sort(&mut entries, s);
    assert_eq!(after_first, names(&entries));
    // code point order: digits < upper case < `_` < lower case
    assert_eq!(after_first, vec!["0_5", "B_1", "Z_2", "_9", "a0_4", "a_0", "b_3", "b_3x"]);
}

#[test]
fn size_sort_descending_invariant() {
    let sizes = [5u64, 9999, 0, 42, 42, 7, 10_000, 1];
    let mut v: Vec<FileEntry> =
        sizes.iter().enumerate().map(|(i, s)| sized(&format!("f_{i}"), *s)).collect();
    sort(&mut v, spec(SortKey::Size, false, Group::Mixed));
    for w in v.windows(2) {
        assert!(w[0].meta.size >= w[1].meta.size);
    }
    // equal sizes fall back to the name
    assert_eq!(names(&v)[2..4], ["f_3".to_string(), "f_4".to_string()]);
}

#[test]
fn equal_times_fall_back_to_name() {
    let mut v = vec![sized("b", 1), sized("a", 1)];
    v[0].meta.mtime = Some(SysTime { secs: 5, nanos: 0 });
    v[1].meta.mtime = Some(SysTime { secs: 5, nanos: 0 });
    sort(&mut v, spec(SortKey::Time, false, Group::Mixed));
    assert_eq!(names(&v), vec!["a", "b"]);
}

#[test]
fn equal_ranks_keep_input_order() {
    // `b.x` and `b.x` tie on extension and stem: their input order stays.
    let mut first = file("b.x");
    first.path = "/one/b.x".to_string();
    let mut second = file("b.x");
    second.path = "/two/b.x".to_string();
    let mut v = vec![first, file("a.x"), second];
    sort(&mut v, spec(SortKey::Extension, false, Group::Mixed));
    let paths: Vec<&str> = v.iter().map(|e| e.path.as_str()).collect();
    assert_eq!(paths, vec!["/tmp/t/a.x", "/one/b.x", "/two/b.x"]);
}

#[test]
fn extension_ties_break_by_whole_name() {
    // same extension `rs`: "a.b.rs" < "a.rs" by name
    assert_eq!(compare(&file("a.rs"), &file("a.b.rs"), SortKey::Extension), Ordering::Greater);
    let mut v = vec![file("a.rs"), file("a.b.rs"), file("b"), file("a.txt")];
    sort(&mut v, spec(SortKey::Extension, false, Group::Mixed));
    assert_eq!(names(&v), vec!["b", "a.b.rs", "a.rs", "a.txt"]);
}

#[test]
fn grouping_keeps_key_order_within_each_part() {
    let mut v = vec![file("c"), dir("z"), file("a"), dir("m"), file("b")];
    sort(&mut v, spec(SortKey::Name, true, Group::FilesFirst));
    assert_eq!(names(&v), vec!["c", "b", "a", "z", "m"]);
}
