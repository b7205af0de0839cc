//! Filesystem entry: a single item produced by directory scanning.
//!
//! Holds the plain data the renderers need (name, kind, `lstat` metadata,
//! optional symlink target). Icon and color resolution happen at render
//! time.

use vstd::prelude::*;

use crate::options::Filter;
use crate::text::{chars_of, owned};
use crate::util::time_fmt::SysTime;

verus! {

/// The file type of an entry.
#[derive(Debug, Clone, Copy, PartialEq, Eq, Structural)]
pub enum EntryKind {
    Directory,
    File,
    Symlink,
    Fifo,
    Socket,
    BlockDevice,
    CharDevice,
}

/// The `lstat` fields the listing reads.
#[derive(Debug, Clone, Copy, PartialEq, Eq, Structural)]
pub struct EntryMeta {
    /// `st_mode`: file type and permission bits.
    pub mode: u32,
    pub nlink: u64,
    pub uid: u32,
    pub gid: u32,
    pub size: u64,
    pub ino: u64,
    pub dev: u64,
    /// Modification time, when the platform reports one.
    pub mtime: Option<SysTime>,
}

/// One listed entry.
#[derive(Debug, Clone)]
pub struct FileEntry {
    /// The file name (lossily converted to UTF-8).
    pub name: String,
    /// The path it was read from.
    pub path: String,
    pub kind: EntryKind,
    pub meta: EntryMeta,
    /// Target of a symlink, if `readlink` succeeded; `None` otherwise.
    pub link_target: Option<String>,
    /// Whether the symlink target can be `stat`ed (false for non-symlinks
    /// and dead links).
    pub link_alive: bool,
}

/// `S_IFMT` file-type field of `st_mode`.
pub open spec fn file_type_bits(mode: u32) -> u32 {
    mode & 0o170000
}

/// The kind a `st_mode` denotes: symlink, directory, FIFO, socket, block
/// device, character device, and otherwise regular file.
pub open spec fn kind_of_mode(mode: u32) -> EntryKind {
    let t = file_type_bits(mode);
    if t == 0o120000 {
        EntryKind::Symlink
    } else if t == 0o040000 {
        EntryKind::Directory
    } else if t == 0o010000 {
        EntryKind::Fifo
    } else if t == 0o140000 {
        EntryKind::Socket
    } else if t == 0o060000 {
        EntryKind::BlockDevice
    } else if t == 0o020000 {
        EntryKind::CharDevice
    } else {
        EntryKind::File
    }
}

/// Classifies an entry by the file-type bits of its `st_mode`.
pub fn classify(mode: u32) -> (r: EntryKind)
    ensures
        r == kind_of_mode(mode),
{
    let t = mode & 0o170000;
    if t == 0o120000 {
        EntryKind::Symlink
    } else if t == 0o040000 {
        EntryKind::Directory
    } else if t == 0o010000 {
        EntryKind::Fifo
    } else if t == 0o140000 {
        EntryKind::Socket
    } else if t == 0o060000 {
        EntryKind::BlockDevice
    } else if t == 0o020000 {
        EntryKind::CharDevice
    } else {
        EntryKind::File
    }
}

/// A name starting with `.` is hidden.
pub open spec fn hidden_name(name: Seq<char>) -> bool {
    name.len() > 0 && name[0] == '.'
}

impl FileEntry {
    /// Whether the entry is a directory.
    pub fn is_dir(&self) -> (r: bool)
        ensures
            r == (self.kind == EntryKind::Directory),
    {
        self.kind == EntryKind::Directory
    }

    /// Whether the name starts with `.`.
    pub fn is_hidden(&self) -> (r: bool)
        ensures
            r == hidden_name(self.name@),
    {
        let cs = chars_of(self.name.as_str());
        cs.len() > 0 && cs[0] == '.'
    }

    /// `true` if the executable bit is set on any of u/g/o.
    pub fn is_executable(&self) -> (r: bool)
        ensures
            r == (self.meta.mode & 0o111 != 0),
    {
        self.meta.mode & 0o111 != 0
    }

    /// The name as text.
    pub fn name_lossy(&self) -> (r: &str)
        ensures
            r@ == self.name@,
    {
        self.name.as_str()
    }
}

/// Whether `filter` keeps `e`: dotfiles only with `-a`/`-A`; with exactly
/// one of `-d`/`-f`, only directories or only non-directories.
pub open spec fn keeps(filter: Filter, e: FileEntry) -> bool {
    &&& (filter.all || filter.almost_all || !hidden_name(e.name@))
    &&& (filter.only_dirs && !filter.only_files ==> e.kind == EntryKind::Directory)
    &&& (filter.only_files && !filter.only_dirs ==> e.kind != EntryKind::Directory)
}

/// `keeps` as a predicate.
pub open spec fn keep_pred(filter: Filter) -> spec_fn(FileEntry) -> bool {
    |e: FileEntry| keeps(filter, e)
}

/// Keeps the entries `filter` selects, in order (`with_dot_entries` adds
/// `.` and `..` first when `-a` asks for them).
pub fn filter_entries(entries: Vec<FileEntry>, filter: &Filter) -> (r: Vec<FileEntry>)
    ensures
        r@ == entries@.filter(keep_pred(*filter)),
{
    let ghost pred = keep_pred(*filter);
    let mut out: Vec<FileEntry> = Vec::new();
    let mut rest = entries;
    let ghost all = rest@;
    // Walk from the back so each entry can be moved out with `pop`.
    let mut kept_rev: Vec<FileEntry> = Vec::new();
    let n = rest.len();
    let mut i: usize = n;
    while i > 0
        invariant
            rest@ == all.take(i as int),
            pred == keep_pred(*filter),
            i <= n,
            n == all.len(),
            kept_rev@.reverse() == all.skip(i as int).filter(pred),
        decreases i,
    {
        let ghost rest_before = rest@;
        let e = rest.pop().unwrap();
        assert(e == all[i - 1]);
        let keep = (filter.all || filter.almost_all || !e.is_hidden()) && (!(filter.only_dirs
            && !filter.only_files) || e.is_dir()) && (!(filter.only_files && !filter.only_dirs)
            || !e.is_dir());
        proof {
            let s = all.skip(i - 1);
            assert(s.drop_first() =~= all.skip(i as int));
            assert(s =~= seq![e] + all.skip(i as int));
            lemma_filter_cons(e, all.skip(i as int), pred);
        }
        if keep {
            kept_rev.push(e);
        }
        i = i - 1;
        assert(rest@ =~= all.take(i as int));
        assert(keep == keeps(*filter, e));
        assert(pred(e) == keeps(*filter, e));
        assert(all[i as int] == e);
        assert(keep == pred(all[i as int]));
        proof {
            if keep {
                assert(kept_rev@.reverse() =~= seq![all[i as int]] + all.skip(i + 1).filter(pred));
            }
        }
    }
    assert(all.skip(0) =~= all);
    let m = kept_rev.len();
    assert(all.filter(pred).skip(0) =~= all.filter(pred));
    assert(kept_rev@.reverse().len() == m);
    let mut j: usize = m;
    while j > 0
        invariant
            j <= m,
            all.filter(pred).len() == m,
            kept_rev@.reverse() == all.filter(pred).skip((m - j) as int),
            kept_rev@.len() == j,
            out@ == all.filter(pred).take((m - j) as int),
        decreases j,
    {
        let ghost before = kept_rev@;
        let e = kept_rev.pop().unwrap();
        proof {
            let f = all.filter(pred);
            assert(e == before[before.len() - 1]);
            assert(before.reverse().len() == j);
            assert(f.len() == m);
            assert(before.reverse()[0] == before[before.len() - 1]);
            assert(f.skip((m - j) as int)[0] == f[(m - j) as int]);
            assert(before.reverse()[0] == e);
            assert(f[(m - j) as int] == e);
            assert(kept_rev@ =~= before.drop_last());
            assert(kept_rev@.reverse() =~= before.reverse().drop_first());
            assert(kept_rev@.reverse() =~= f.skip((m - j + 1) as int));
        }
        out.push(e);
        j = j - 1;
        assert(out@ =~= all.filter(pred).take((m - j) as int));
    }
    assert(all.filter(pred).take(m as int) =~= all.filter(pred));
    out
}

/// Filtering drops only what the flags ask to drop: an entry is kept
/// exactly when it is visible (it does not start with `.`, or `-a`/`-A` is
/// given) and, with `-d` alone, it is a directory, or, with `-f` alone, it
/// is anything but a directory (files, links, FIFOs, sockets, devices).
/// Every kept entry is one of the input's, in the input's order.
pub proof fn lemma_filter_keeps_what_the_flags_allow(entries: Seq<FileEntry>, filter: Filter)
    ensures
        forall|i: int|
            0 <= i < entries.len() && (filter.all || filter.almost_all || !hidden_name(
                entries[i].name@,
            )) && (filter.only_dirs && !filter.only_files ==> entries[i].kind
                == EntryKind::Directory) && (filter.only_files && !filter.only_dirs ==> entries[i].kind
                != EntryKind::Directory) ==> #[trigger] entries.filter(keep_pred(filter)).contains(
                entries[i],
            ),
        forall|j: int|
            0 <= j < entries.filter(keep_pred(filter)).len() ==> {
                let e = #[trigger] entries.filter(keep_pred(filter))[j];
                &&& entries.contains(e)
                &&& filter.all || filter.almost_all || !(e.name@.len() > 0 && e.name@[0] == '.')
                &&& filter.only_dirs && !filter.only_files ==> e.kind == EntryKind::Directory
                &&& filter.only_files && !filter.only_dirs ==> e.kind != EntryKind::Directory
            },
        entries.filter(keep_pred(filter)).len() <= entries.len(),
{
    broadcast use vstd::seq_lib::group_filter_ensures;

    let f = entries.filter(keep_pred(filter));
    assert forall|i: int|
        0 <= i < entries.len() && (filter.all || filter.almost_all || !hidden_name(
            entries[i].name@,
        )) && (filter.only_dirs && !filter.only_files ==> entries[i].kind == EntryKind::Directory)
            && (filter.only_files && !filter.only_dirs ==> entries[i].kind
            != EntryKind::Directory) implies #[trigger] f.contains(entries[i]) by {
        assert(keep_pred(filter)(entries[i]));
    }
    assert forall|j: int| 0 <= j < f.len() implies {
        let e = #[trigger] f[j];
        &&& entries.contains(e)
        &&& filter.all || filter.almost_all || !(e.name@.len() > 0 && e.name@[0] == '.')
        &&& filter.only_dirs && !filter.only_files ==> e.kind == EntryKind::Directory
        &&& filter.only_files && !filter.only_dirs ==> e.kind != EntryKind::Directory
    } by {
        assert(keep_pred(filter)(f[j]));
        lemma_filter_within(entries, keep_pred(filter), j);
    }
}

/// Every element of a filtered sequence is an element of the sequence.
proof fn lemma_filter_within<A>(s: Seq<A>, p: spec_fn(A) -> bool, j: int)
    requires
        0 <= j < s.filter(p).len(),
    ensures
        s.contains(s.filter(p)[j]),
    decreases s.len(),
{
    broadcast use vstd::seq_lib::group_filter_ensures;

    reveal_with_fuel(Seq::filter, 1);
    if s.len() > 0 {
        let d = s.drop_last();
        if j < d.filter(p).len() {
            lemma_filter_within(d, p, j);
            let k = choose|k: int| 0 <= k < d.len() && d[k] == d.filter(p)[j];
            assert(s[k] == d[k]);
        } else {
            assert(s[s.len() - 1] == s.filter(p)[j]);
        }
    }
}

/// Which of the added entries `-a` could not read.
#[derive(Debug, Clone, Copy, PartialEq, Eq, Structural)]
pub enum DotEntryError {
    /// The listed directory itself (`.`).
    Dot,
    /// Its parent (`..`).
    DotDot,
}

/// `b` is `a` shown under `name`: its name and its path both read `name`,
/// every other field is unchanged.
pub open spec fn listed_as(a: FileEntry, b: FileEntry, name: Seq<char>) -> bool {
    &&& b.name@ == name
    &&& b.path@ == name
    &&& b.kind == a.kind
    &&& b.meta == a.meta
    &&& b.link_target == a.link_target
    &&& b.link_alive == a.link_alive
}

/// The parent's entry, when the directory has a parent and it was read.
pub open spec fn parent_entry(dotdot: Option<Option<FileEntry>>) -> Option<FileEntry> {
    match dotdot {
        Some(Some(p)) => Some(p),
        _ => None,
    }
}

/// `w` is a scan of `entries` before filtering: with `-a`, `entries`
/// followed by the directory itself as `.` and then, when there is one, its
/// parent as `..`; without `-a`, `entries` alone.
pub open spec fn with_dots(
    entries: Seq<FileEntry>,
    dot: FileEntry,
    parent: Option<FileEntry>,
    all: bool,
    w: Seq<FileEntry>,
) -> bool {
    if !all {
        w == entries
    } else {
        &&& w.len() == entries.len() + 1 + (if parent is Some { 1int } else { 0int })
        &&& w.take(entries.len() as int) == entries
        &&& listed_as(dot, w[entries.len() as int], "."@)
        &&& (parent matches Some(p) ==> listed_as(p, w[entries.len() + 1int], ".."@))
    }
}

/// `e` renamed to `name`, path included.
fn listed_under(e: FileEntry, name: &str) -> (r: FileEntry)
    ensures
        listed_as(e, r, name@),
{
    let mut r = e;
    r.name = owned(name);
    r.path = owned(name);
    r
}

/// Completes a directory scan. `entries` are the directory's own entries;
/// `dot` is the directory itself as `lstat` read it (`None` when that
/// failed); `dotdot` is `None` when the directory has no parent, else the
/// parent as read (`Some(None)` when that failed). With `-a`, `.` and then
/// `..` (only when there is a parent) are added so that they are sorted and
/// rendered with the rest; a failed read of either is then an error. The
/// result is filtered as `filter_entries` does.
pub fn with_dot_entries(
    entries: Vec<FileEntry>,
    dot: Option<FileEntry>,
    dotdot: Option<Option<FileEntry>>,
    filter: &Filter,
) -> (r: Result<Vec<FileEntry>, DotEntryError>)
    ensures
        (r matches Err(DotEntryError::Dot)) <==> (filter.all && dot is None),
        (r matches Err(DotEntryError::DotDot)) <==> (filter.all && dot is Some && dotdot
            == Some(None::<FileEntry>)),
        r matches Ok(v) ==> exists|w: Seq<FileEntry>|
            #[trigger] with_dots(entries@, dot.unwrap(), parent_entry(dotdot), filter.all, w)
                && v@ == w.filter(keep_pred(*filter)),
{
    let mut all = entries;
    let ghost orig = all@;
    if filter.all {
        let d = match dot {
            Some(d) => d,
            None => {
                return Err(DotEntryError::Dot);
            },
        };
        let ghost dot_v = d;
        match dotdot {
            Some(None) => {
                return Err(DotEntryError::DotDot);
            },
            Some(Some(p)) => {
                all.push(listed_under(d, "."));
                all.push(listed_under(p, ".."));
                assert(all@.take(orig.len() as int) =~= orig);
            },
            None => {
                all.push(listed_under(d, "."));
                assert(all@.take(orig.len() as int) =~= orig);
            },
        }
    }
    let ghost w = all@;
    let v = filter_entries(all, filter);
    assert(with_dots(orig, dot.unwrap(), parent_entry(dotdot), filter.all, w));
    Ok(v)
}

proof fn lemma_filter_cons<A>(x: A, s: Seq<A>, p: spec_fn(A) -> bool)
    ensures
        (seq![x] + s).filter(p) == if p(x) {
            seq![x] + s.filter(p)
        } else {
            s.filter(p)
        },
    decreases s.len(),
{
    broadcast use vstd::seq_lib::group_filter_ensures;

    reveal_with_fuel(Seq::filter, 1);
    let t = seq![x] + s;
    if s.len() == 0 {
        assert(t.drop_last() =~= Seq::<A>::empty());
        assert(s.filter(p) =~= Seq::<A>::empty());
    } else {
        lemma_filter_cons(x, s.drop_last(), p);
        assert(t.drop_last() =~= seq![x] + s.drop_last());
        assert(t.last() == s.last());
        if p(x) {
            assert((seq![x] + s.drop_last().filter(p)).push(s.last()) =~= seq![x] + s.drop_last().filter(p).push(s.last()));
        }
    }
}

} // verus!
