//! Long-listing renderer.
//!
//! Output shape per row (columns joined by 3 spaces, as colorls's
//! `line_array.join('   ')`):
//!
//! ```text
//! [inode] mode [hardlinks] [user] [group] size mtime icon name [⇒ target]
//! ```

use vstd::prelude::*;
use vstd::utf8::encode_utf8;

use crate::config::icons::{IconKind, Icons};
use crate::config::theme::{ColorMode, Theme};
use crate::fs::entry::{EntryKind, FileEntry};
use crate::options::LongOptions;
use crate::render::cell::entry_style;
use crate::term::TermEnv;
use crate::util::owner::NameCache;
use crate::util::time_fmt::{format_mtime, jiff_timestamp_valid};
use crate::text::{
    decimal, decimal_digits, decimal_len, decimal_string, owned, pad_left, pad_right, padded_left, padded_right, push_char,
    push_str,
};
use crate::util::human::{bucket, bucket_of, pretty, pretty_spec, SizeBucket};
use crate::util::mode::{color_key_for_char, color_key_spec, format_mode, mode_string};
use crate::util::report::{long_report, short_report, ReportCounts, ReportKind};
use crate::util::time_fmt::{
    age_bucket, bucket_for, elapsed_secs, AgeBucket, SysTime, TimeFormatError,
};

verus! {

/// Narrowest size column, in characters.
pub const MIN_SIZE_CHARS: usize = 4;

/// Widths of the padded columns, shared by every row of one listing.
#[derive(Debug, Clone, Copy, PartialEq, Eq, Structural)]
pub struct ColumnWidths {
    pub link: usize,
    pub user: usize,
    pub group: usize,
    pub size_num: usize,
}

impl Default for ColumnWidths {
    fn default() -> (r: Self)
        ensures
            r.link == 0 && r.user == 0 && r.group == 0 && r.size_num == 0,
    {
        ColumnWidths { link: 0, user: 0, group: 0, size_num: 0 }
    }
}

/// What a row takes from outside its entry: the owner and group names
/// (unused when the column is hidden) and the formatted modification time.
#[derive(Debug)]
pub struct RowFacts {
    pub user: String,
    pub group: String,
    pub mtime: Result<String, TimeFormatError>,
}

/// What `str::len` reports for a text: the length of its UTF-8 encoding.
pub open spec fn byte_len(s: Seq<char>) -> usize {
    encode_utf8(s).len() as usize
}

/// The theme key of the size column.
pub open spec fn size_key(bytes: nat) -> Seq<char> {
    match bucket_of(bytes) {
        SizeBucket::Large => "file_large"@,
        SizeBucket::Medium => "file_medium"@,
        SizeBucket::Small => "file_small"@,
    }
}

/// The size column before painting: `"<n> <unit>"` with the number
/// right-aligned in `width` and the unit left-aligned in 3, or the raw byte
/// count right-aligned in `width`.
pub open spec fn size_text(bytes: nat, human: bool, width: nat) -> Seq<char> {
    if human {
        pad_left(pretty_spec(bytes).0, width) + " "@ + pad_right(pretty_spec(bytes).1, 3)
    } else {
        pad_left(decimal(bytes), width)
    }
}

/// The theme key of the time column.
pub open spec fn age_key(b: AgeBucket) -> Seq<char> {
    match b {
        AgeBucket::HourOld => "hour_old"@,
        AgeBucket::DayOld => "day_old"@,
        AgeBucket::Old => "no_modifier"@,
    }
}

/// The time column's text: the formatted time, or a placeholder of the
/// same width when it could not be formatted.
pub open spec fn mtime_text(m: Result<String, TimeFormatError>) -> Seq<char> {
    match m {
        Ok(s) => s@,
        Err(_) => "invalid mtime           "@,
    }
}

/// The entry's modification time, or `now` when it has none.
pub open spec fn mtime_or_now(e: FileEntry, now: SysTime) -> SysTime {
    match e.meta.mtime {
        Some(t) => t,
        None => now,
    }
}

/// The first `k` characters of a mode string, each painted in its color.
pub open spec fn painted_mode(theme: Theme, s: Seq<char>, k: int, mode: ColorMode, env: TermEnv) -> Seq<char>
    decreases k,
{
    if k <= 0 {
        Seq::empty()
    } else {
        painted_mode(theme, s, k - 1, mode, env) + theme.paint_spec(
            color_key_spec(s[k - 1]),
            seq![s[k - 1]],
            mode,
            env,
        )
    }
}

/// The mode column of an entry with permission bits `m`.
pub open spec fn mode_column(theme: Theme, m: u32, mode: ColorMode, env: TermEnv) -> Seq<char> {
    painted_mode(theme, mode_string(m), mode_string(m).len() as int, mode, env)
}

/// The size column.
pub open spec fn size_column(theme: Theme, bytes: nat, human: bool, width: nat, mode: ColorMode, env: TermEnv) -> Seq<char> {
    theme.paint_spec(size_key(bytes), size_text(bytes, human, width), mode, env)
}

/// The time column.
pub open spec fn mtime_column(
    theme: Theme,
    mtime: SysTime,
    now: SysTime,
    text: Result<String, TimeFormatError>,
    mode: ColorMode,
    env: TermEnv,
) -> Seq<char> {
    theme.paint_spec(age_key(bucket_for(elapsed_secs(mtime, now))), mtime_text(text), mode, env)
}

/// The icon (when shown, followed by a space) and the name, both painted in
/// the entry's color.
pub open spec fn name_column(theme: Theme, icons: Icons, e: FileEntry, show_icons: bool, mode: ColorMode, env: TermEnv) -> Seq<char> {
    let (glyph, key) = entry_style(icons, e);
    (if show_icons {
        theme.paint_spec(key, seq![glyph], mode, env) + " "@
    } else {
        Seq::empty()
    }) + theme.paint_spec(key, e.name@, mode, env)
}

/// How the icon of an entry was found.
pub open spec fn icon_kind(icons: Icons, e: FileEntry) -> IconKind {
    if e.kind == EntryKind::Directory {
        icons.directory_icon(e.name@).1
    } else {
        icons.file_icon(e.name@).1
    }
}

/// The ` ⇒ target` suffix of a symlink, marked `[Dead link]` in the dead
/// link color when the target is unknown or cannot be reached; nothing for
/// other entries.
pub open spec fn link_suffix(theme: Theme, e: FileEntry, mode: ColorMode, env: TermEnv) -> Seq<char> {
    if e.kind != EntryKind::Symlink {
        Seq::empty()
    } else {
        let target = match e.link_target {
            Some(t) => t@,
            None => "..."@,
        };
        let info = " \u{21d2} "@ + target;
        if e.link_target is None || !e.link_alive {
            theme.paint_spec("dead_link"@, info + " [Dead link]"@, mode, env)
        } else {
            theme.paint_spec("link"@, info, mode, env)
        }
    }
}

/// `parts` joined by `sep`.
pub open spec fn joined(parts: Seq<Seq<char>>, sep: Seq<char>) -> Seq<char>
    decreases parts.len(),
{
    if parts.len() == 0 {
        Seq::empty()
    } else if parts.len() == 1 {
        parts[0]
    } else {
        joined(parts.drop_last(), sep) + sep + parts.last()
    }
}

/// The inode column.
pub open spec fn inode_column(theme: Theme, e: FileEntry, mode: ColorMode, env: TermEnv) -> Seq<char> {
    theme.paint_spec("inode"@, pad_left(decimal(e.meta.ino as nat), 10), mode, env)
}

/// The hard-link count column.
pub open spec fn link_column(theme: Theme, e: FileEntry, w: ColumnWidths, mode: ColorMode, env: TermEnv) -> Seq<char> {
    theme.paint_spec("normal"@, pad_left(decimal(e.meta.nlink as nat), w.link as nat), mode, env)
}

/// The owner column.
pub open spec fn user_column(theme: Theme, f: RowFacts, w: ColumnWidths, mode: ColorMode, env: TermEnv) -> Seq<char> {
    theme.paint_spec("user"@, pad_right(f.user@, w.user as nat), mode, env)
}

/// The group column.
pub open spec fn group_column(theme: Theme, f: RowFacts, w: ColumnWidths, mode: ColorMode, env: TermEnv) -> Seq<char> {
    theme.paint_spec("normal"@, pad_right(f.group@, w.group as nat), mode, env)
}

/// One optional column: present only when `show`.
pub open spec fn optional(show: bool, column: Seq<char>) -> Seq<Seq<char>> {
    if show {
        seq![column]
    } else {
        Seq::empty()
    }
}

/// The columns before the name, in order.
pub open spec fn row_parts(
    theme: Theme,
    e: FileEntry,
    f: RowFacts,
    long: LongOptions,
    w: ColumnWidths,
    now: SysTime,
    mode: ColorMode,
    env: TermEnv,
) -> Seq<Seq<char>> {
    optional(long.show_inode, inode_column(theme, e, mode, env)).push(
        mode_column(theme, e.meta.mode, mode, env),
    ) + optional(long.show_hardlinks, link_column(theme, e, w, mode, env)) + optional(
        long.show_owner,
        user_column(theme, f, w, mode, env),
    ) + optional(long.show_group, group_column(theme, f, w, mode, env)) + seq![
        size_column(theme, e.meta.size as nat, long.human_readable, w.size_num as nat, mode, env),
        mtime_column(theme, mtime_or_now(e, now), now, f.mtime, mode, env),
    ]
}

/// One row of the long listing (without its line break).
pub open spec fn row_text(
    theme: Theme,
    icons: Icons,
    e: FileEntry,
    f: RowFacts,
    long: LongOptions,
    w: ColumnWidths,
    now: SysTime,
    show_icons: bool,
    mode: ColorMode,
    env: TermEnv,
) -> Seq<char> {
    joined(row_parts(theme, e, f, long, w, now, mode, env), "   "@) + " "@ + name_column(
        theme,
        icons,
        e,
        show_icons,
        mode,
        env,
    ) + link_suffix(theme, e, mode, env)
}

/// The mode column: each permission character painted in its color.
fn format_mode_colored(mode_bits: u32, theme: &Theme, color: ColorMode, env: &TermEnv) -> (r: String)
    requires
        theme.wf(),
    ensures
        r@ == mode_column(*theme, mode_bits, color, *env),
{
    let raw = crate::text::chars_of(format_mode(mode_bits).as_str());
    let mut buf = String::new();
    let mut i: usize = 0;
    while i < raw.len()
        invariant
            theme.wf(),
            i <= raw.len(),
            raw@ == mode_string(mode_bits),
            buf@ == painted_mode(*theme, raw@, i as int, color, *env),
        decreases raw.len() - i,
    {
        let c = raw[i];
        let key = color_key_for_char(c);
        let mut one = String::new();
        push_char(&mut one, c);
        assert(one@ =~= seq![c]);
        push_str(&mut buf, theme.paint(key, one.as_str(), color, env).as_str());
        i = i + 1;
    }
    buf
}

/// The size column: human-readable or raw, right-aligned in `width`,
/// painted by size bucket.
fn format_size_colored(
    bytes: u64,
    human: bool,
    width: usize,
    theme: &Theme,
    color: ColorMode,
    env: &TermEnv,
) -> (r: String)
    requires
        theme.wf(),
    ensures
        r@ == size_column(*theme, bytes as nat, human, width as nat, color, *env),
{
    let key = match bucket(bytes) {
        SizeBucket::Large => "file_large",
        SizeBucket::Medium => "file_medium",
        SizeBucket::Small => "file_small",
    };
    proof {
        reveal_strlit("file_large");
        reveal_strlit("file_medium");
        reveal_strlit("file_small");
        reveal_strlit(" ");
    }
    let rendered = if human {
        let (n, u) = pretty(bytes);
        let mut t = padded_left(n.as_str(), width);
        push_str(&mut t, " ");
        push_str(&mut t, padded_right(u, 3).as_str());
        t
    } else {
        padded_left(decimal_string(bytes).as_str(), width)
    };
    theme.paint(key, rendered.as_str(), color, env)
}

/// The time column: the formatted time (or a placeholder when formatting
/// failed), painted by age.
fn format_mtime_colored(
    mtime: SysTime,
    now: SysTime,
    formatted: &Result<String, TimeFormatError>,
    theme: &Theme,
    color: ColorMode,
    env: &TermEnv,
) -> (r: String)
    requires
        theme.wf(),
        mtime.wf(),
        now.wf(),
    ensures
        r@ == mtime_column(*theme, mtime, now, *formatted, color, *env),
{
    let key = match age_bucket(mtime, now) {
        AgeBucket::HourOld => "hour_old",
        AgeBucket::DayOld => "day_old",
        AgeBucket::Old => "no_modifier",
    };
    proof {
        reveal_strlit("hour_old");
        reveal_strlit("day_old");
        reveal_strlit("no_modifier");
    }
    match formatted {
        Ok(s) => theme.paint(key, s.as_str(), color, env),
        Err(_) => theme.paint(key, "invalid mtime           ", color, env),
    }
}

/// The painted icon (empty when icons are off), the painted name, and how
/// the icon was found.
pub fn build_icon_and_name(
    entry: &FileEntry,
    theme: &Theme,
    icons: &Icons,
    color: ColorMode,
    show_icons: bool,
    env: &TermEnv,
) -> (r: (String, String, IconKind))
    requires
        theme.wf(),
        icons.wf(),
    ensures
        r.0@ == (if show_icons {
            theme.paint_spec(entry_style(*icons, *entry).1, seq![entry_style(*icons, *entry).0], color, *env)
        } else {
            Seq::<char>::empty()
        }),
        r.1@ == theme.paint_spec(entry_style(*icons, *entry).1, entry.name@, color, *env),
        r.2 == icon_kind(*icons, *entry),
{
    let name = entry.name_lossy();
    let (glyph, color_key, kind) = match entry.kind {
        EntryKind::Directory => {
            let r = icons.for_directory(name);
            (r.glyph, "dir", r.kind)
        },
        EntryKind::Symlink => {
            let r = icons.for_file(name);
            let key = if entry.link_target.is_none() {
                "dead_link"
            } else {
                "link"
            };
            (r.glyph, key, r.kind)
        },
        EntryKind::Fifo | EntryKind::Socket => {
            let r = icons.for_file(name);
            (r.glyph, "socket", r.kind)
        },
        EntryKind::BlockDevice => {
            let r = icons.for_file(name);
            (r.glyph, "blockdev", r.kind)
        },
        EntryKind::CharDevice => {
            let r = icons.for_file(name);
            (r.glyph, "chardev", r.kind)
        },
        EntryKind::File => {
            let r = icons.for_file(name);
            let key = if entry.is_executable() {
                "executable_file"
            } else if r.kind == IconKind::File {
                "recognized_file"
            } else {
                "unrecognized_file"
            };
            (r.glyph, key, r.kind)
        },
    };
    proof {
        reveal_strlit("dir");
        reveal_strlit("dead_link");
        reveal_strlit("link");
        reveal_strlit("socket");
        reveal_strlit("blockdev");
        reveal_strlit("chardev");
        reveal_strlit("executable_file");
        reveal_strlit("recognized_file");
        reveal_strlit("unrecognized_file");
    }
    assert((glyph, color_key@) == entry_style(*icons, *entry));
    let icon_text = if show_icons {
        let mut g = String::new();
        push_char(&mut g, glyph);
        assert(g@ =~= seq![glyph]);
        theme.paint(color_key, g.as_str(), color, env)
    } else {
        String::new()
    };
    let name_text = theme.paint(color_key, name, color, env);
    (icon_text, name_text, kind)
}

/// The ` ⇒ target` suffix of a symlink; `None` for other entries.
fn symlink_suffix(entry: &FileEntry, theme: &Theme, color: ColorMode, env: &TermEnv) -> (r: Option<String>)
    requires
        theme.wf(),
    ensures
        r is None <==> entry.kind != EntryKind::Symlink,
        r matches Some(s) ==> s@ == link_suffix(*theme, *entry, color, *env),
{
    if entry.kind != EntryKind::Symlink {
        return None;
    }
    proof {
        reveal_strlit("...");
        reveal_strlit(" \u{21d2} ");
        reveal_strlit(" [Dead link]");
    }
    let target = match &entry.link_target {
        Some(p) => p.clone(),
        None => owned("..."),
    };
    let dead = match &entry.link_target {
        Some(_) => !entry.link_alive,
        None => true,
    };
    let mut info = owned(" \u{21d2} ");
    push_str(&mut info, target.as_str());
    Some(
        if dead {
            push_str(&mut info, " [Dead link]");
            theme.paint("dead_link", info.as_str(), color, env)
        } else {
            theme.paint("link", info.as_str(), color, env)
        },
    )
}

/// The views of `parts`.
pub open spec fn texts(parts: Seq<String>) -> Seq<Seq<char>> {
    parts.map_values(|s: String| s@)
}

/// `parts` joined by three spaces.
fn join_columns(parts: &Vec<String>) -> (r: String)
    ensures
        r@ == joined(texts(parts@), "   "@),
{
    let mut out = String::new();
    let mut i: usize = 0;
    proof {
        reveal_strlit("   ");
    }
    while i < parts.len()
        invariant
            i <= parts.len(),
            out@ == joined(texts(parts@).take(i as int), "   "@),
        decreases parts.len() - i,
    {
        let ghost before = texts(parts@).take(i as int);
        assert(texts(parts@).take(i + 1).drop_last() =~= before);
        if i > 0 {
            push_str(&mut out, "   ");
        } else {
            assert(texts(parts@).take(1) =~= seq![parts@[0]@]);
        }
        push_str(&mut out, parts[i].as_str());
        i = i + 1;
    }
    assert(texts(parts@).take(parts@.len() as int) =~= texts(parts@));
    out
}

/// Directories count as folders in the report.
pub open spec fn folder_kind(k: IconKind) -> bool {
    k is Folder || k is DefaultFolder
}

/// Appends `column` to `parts` when `show`.
fn push_optional(parts: &mut Vec<String>, show: bool, column: String)
    ensures
        texts(final(parts)@) == texts(old(parts)@) + optional(show, column@),
{
    let ghost before = texts(parts@);
    if show {
        parts.push(column);
    }
    assert(texts(parts@) =~= before + optional(show, column@));
}

/// Appends `column` to `parts`.
fn push_column(parts: &mut Vec<String>, column: String)
    ensures
        texts(final(parts)@) == texts(old(parts)@).push(column@),
{
    let ghost before = texts(parts@);
    parts.push(column);
    assert(texts(parts@) =~= before.push(column@));
}

/// The columns before the name, painted.
#[verifier::spinoff_prover]
fn row_columns(
    entry: &FileEntry,
    facts: &RowFacts,
    theme: &Theme,
    color_mode: ColorMode,
    long: &LongOptions,
    widths: &ColumnWidths,
    now: SysTime,
    env: &TermEnv,
) -> (r: Vec<String>)
    requires
        theme.wf(),
        now.wf(),
        mtime_or_now(*entry, now).wf(),
    ensures
        texts(r@) == row_parts(*theme, *entry, *facts, *long, *widths, now, color_mode, *env),
{
    proof {
        reveal_strlit("inode");
        reveal_strlit("normal");
        reveal_strlit("user");
    }
    let mut parts: Vec<String> = Vec::new();
    let inode = padded_left(decimal_string(entry.meta.ino).as_str(), 10);
    let inode = theme.paint("inode", inode.as_str(), color_mode, env);
    push_optional(&mut parts, long.show_inode, inode);
    push_column(&mut parts, format_mode_colored(entry.meta.mode, theme, color_mode, env));
    let nlink = padded_left(decimal_string(entry.meta.nlink).as_str(), widths.link);
    let nlink = theme.paint("normal", nlink.as_str(), color_mode, env);
    push_optional(&mut parts, long.show_hardlinks, nlink);
    let uname = padded_right(facts.user.as_str(), widths.user);
    let uname = theme.paint("user", uname.as_str(), color_mode, env);
    push_optional(&mut parts, long.show_owner, uname);
    let gname = padded_right(facts.group.as_str(), widths.group);
    let gname = theme.paint("normal", gname.as_str(), color_mode, env);
    push_optional(&mut parts, long.show_group, gname);
    let size = format_size_colored(entry.meta.size, long.human_readable, widths.size_num, theme, color_mode, env);
    push_column(&mut parts, size);
    let mtime = match entry.meta.mtime {
        Some(t) => t,
        None => now,
    };
    let mt = format_mtime_colored(mtime, now, &facts.mtime, theme, color_mode, env);
    push_column(&mut parts, mt);
    let ghost th = *theme;
    let ghost e = *entry;
    assert(texts(parts@) =~= optional(long.show_inode, inode_column(th, e, color_mode, *env)).push(
        mode_column(th, e.meta.mode, color_mode, *env),
    ) + optional(long.show_hardlinks, link_column(th, e, *widths, color_mode, *env)) + optional(
        long.show_owner,
        user_column(th, *facts, *widths, color_mode, *env),
    ) + optional(long.show_group, group_column(th, *facts, *widths, color_mode, *env)) + seq![size@, mt@]);
    parts
}

/// One row of the long listing (without its line break); counts the entry
/// in `counts` by how its icon was found.
fn build_row(
    entry: &FileEntry,
    facts: &RowFacts,
    theme: &Theme,
    icons: &Icons,
    color_mode: ColorMode,
    show_icons: bool,
    long: &LongOptions,
    widths: &ColumnWidths,
    now: SysTime,
    env: &TermEnv,
    counts: &mut ReportCounts,
) -> (r: String)
    requires
        theme.wf(),
        icons.wf(),
        now.wf(),
        mtime_or_now(*entry, now).wf(),
        folder_kind(icon_kind(*icons, *entry)) ==> old(counts).folders < u64::MAX,
        icon_kind(*icons, *entry) is File ==> old(counts).recognized_files < u64::MAX,
        icon_kind(*icons, *entry) is DefaultFile ==> old(counts).unrecognized_files < u64::MAX,
    ensures
        r@ == row_text(*theme, *icons, *entry, *facts, *long, *widths, now, show_icons, color_mode, *env),
        final(counts).folders == old(counts).folders + if folder_kind(icon_kind(*icons, *entry)) {
            1int
        } else {
            0int
        },
        final(counts).recognized_files == old(counts).recognized_files + if icon_kind(
            *icons,
            *entry,
        ) is File {
            1int
        } else {
            0int
        },
        final(counts).unrecognized_files == old(counts).unrecognized_files + if icon_kind(
            *icons,
            *entry,
        ) is DefaultFile {
            1int
        } else {
            0int
        },
{
    let parts = row_columns(entry, facts, theme, color_mode, long, widths, now, env);
    let mut row = join_columns(&parts);
    let (icon_text, name_text, kind) = build_icon_and_name(entry, theme, icons, color_mode, show_icons, env);
    counts.record(kind);
    push_char(&mut row, ' ');
    if show_icons {
        push_str(&mut row, icon_text.as_str());
        push_char(&mut row, ' ');
    }
    push_str(&mut row, name_text.as_str());
    match symlink_suffix(entry, theme, color_mode, env) {
        Some(target) => push_str(&mut row, target.as_str()),
        None => {},
    }
    proof {
        reveal_strlit(" ");
    }
    assert(row@ =~= row_text(*theme, *icons, *entry, *facts, *long, *widths, now, show_icons, color_mode, *env));
    row
}

/// The larger of two numbers.
pub open spec fn max_nat(a: nat, b: nat) -> nat {
    if a >= b {
        a
    } else {
        b
    }
}

/// The most digits among the link counts of the first `k` entries.
pub open spec fn link_width(entries: Seq<FileEntry>, k: int) -> nat
    decreases k,
{
    if k <= 0 {
        0
    } else {
        max_nat(link_width(entries, k - 1), decimal_len(entries[k - 1].meta.nlink as nat))
    }
}

/// The longest owner name (in bytes) among the first `k` rows.
pub open spec fn user_width(facts: Seq<RowFacts>, k: int) -> nat
    decreases k,
{
    if k <= 0 {
        0
    } else {
        max_nat(user_width(facts, k - 1), byte_len(facts[k - 1].user@) as nat)
    }
}

/// The longest group name (in bytes) among the first `k` rows.
pub open spec fn group_width(facts: Seq<RowFacts>, k: int) -> nat
    decreases k,
{
    if k <= 0 {
        0
    } else {
        max_nat(group_width(facts, k - 1), byte_len(facts[k - 1].group@) as nat)
    }
}

/// The largest size among the first `k` entries.
pub open spec fn max_size(entries: Seq<FileEntry>, k: int) -> nat
    decreases k,
{
    if k <= 0 {
        0
    } else {
        max_nat(max_size(entries, k - 1), entries[k - 1].meta.size as nat)
    }
}

/// The column widths of a listing: link counts, owner and group names at
/// their widest (names only when shown), and the size column at least
/// `MIN_SIZE_CHARS` wide (exactly that when sizes are human-readable).
pub open spec fn widths_spec(entries: Seq<FileEntry>, facts: Seq<RowFacts>, long: LongOptions) -> ColumnWidths {
    let n = entries.len() as int;
    ColumnWidths {
        link: link_width(entries, n) as usize,
        user: if long.show_owner {
            user_width(facts, n) as usize
        } else {
            0
        },
        group: if long.show_group {
            group_width(facts, n) as usize
        } else {
            0
        },
        size_num: if long.human_readable {
            MIN_SIZE_CHARS
        } else {
            max_nat(decimal_len(max_size(entries, n)), MIN_SIZE_CHARS as nat) as usize
        },
    }
}

/// The column widths for `entries` and their row facts.
fn compute_widths(entries: &Vec<FileEntry>, facts: &Vec<RowFacts>, long: &LongOptions) -> (r: ColumnWidths)
    requires
        entries.len() == facts.len(),
    ensures
        r == widths_spec(entries@, facts@, *long),
{
    let mut w = ColumnWidths::default();
    let mut max: u64 = 0;
    let mut i: usize = 0;
    while i < entries.len()
        invariant
            i <= entries.len(),
            entries.len() == facts.len(),
            w.link == link_width(entries@, i as int),
            w.user == (if long.show_owner { user_width(facts@, i as int) } else { 0 }),
            w.group == (if long.show_group { group_width(facts@, i as int) } else { 0 }),
            max == max_size(entries@, i as int),
            w.size_num == 0,
        decreases entries.len() - i,
    {
        let e = &entries[i];
        let nlink_digits = decimal_digits(e.meta.nlink);
        if nlink_digits > w.link {
            w.link = nlink_digits;
        }
        if long.show_owner {
            let u = facts[i].user.as_str().len();
            if u > w.user {
                w.user = u;
            }
        }
        if long.show_group {
            let g = facts[i].group.as_str().len();
            if g > w.group {
                w.group = g;
            }
        }
        if e.meta.size > max {
            max = e.meta.size;
        }
        i = i + 1;
    }
    w.size_num = if long.human_readable {
        MIN_SIZE_CHARS
    } else {
        let needed = decimal_digits(max);
        if needed > MIN_SIZE_CHARS {
            needed
        } else {
            MIN_SIZE_CHARS
        }
    };
    w
}

/// How many of the first `k` entries are folders, recognized files and
/// unrecognized files, by how their icons were found.
pub open spec fn kind_counts(icons: Icons, entries: Seq<FileEntry>, k: int) -> (nat, nat, nat)
    decreases k,
{
    if k <= 0 {
        (0, 0, 0)
    } else {
        let (f, r, u) = kind_counts(icons, entries, k - 1);
        let kind = icon_kind(icons, entries[k - 1]);
        (
            f + if folder_kind(kind) { 1nat } else { 0nat },
            r + if kind is File { 1nat } else { 0nat },
            u + if kind is DefaultFile { 1nat } else { 0nat },
        )
    }
}

/// Every listed entry is counted exactly once in the report.
pub proof fn lemma_kind_counts_total(icons: Icons, entries: Seq<FileEntry>, k: int)
    requires
        k >= 0,
    ensures
        kind_counts(icons, entries, k).0 + kind_counts(icons, entries, k).1 + kind_counts(
            icons,
            entries,
            k,
        ).2 == k,
    decreases k,
{
    if k > 0 {
        lemma_kind_counts_total(icons, entries, k - 1);
    }
}

/// How many of the first `k` entries are directories, other entries whose
/// extension has an icon, and other entries without one.
pub open spec fn entry_counts(icons: Icons, entries: Seq<FileEntry>, k: int) -> (nat, nat, nat)
    decreases k,
{
    if k <= 0 {
        (0, 0, 0)
    } else {
        let (d, r, u) = entry_counts(icons, entries, k - 1);
        let e = entries[k - 1];
        let dir = e.kind == EntryKind::Directory;
        let known = icons.file_icon(e.name@).1 == IconKind::File;
        (
            d + if dir { 1nat } else { 0nat },
            r + if !dir && known { 1nat } else { 0nat },
            u + if !dir && !known { 1nat } else { 0nat },
        )
    }
}

/// The report counts folders as the directories listed, recognized files
/// as the other entries whose extension has an icon, and unrecognized
/// files as the rest.
pub proof fn lemma_counts_by_entry(icons: Icons, entries: Seq<FileEntry>, k: int)
    ensures
        kind_counts(icons, entries, k) == entry_counts(icons, entries, k),
    decreases k,
{
    if k > 0 {
        lemma_counts_by_entry(icons, entries, k - 1);
        let e = entries[k - 1];
        let dk = icons.directory_icon(e.name@).1;
        let fk = icons.file_icon(e.name@).1;
        assert(dk is Folder || dk is DefaultFolder);
        assert(fk is File || fk is DefaultFile);
    }
}

/// The first `k` rows, each followed by a line break.
pub open spec fn rows_text(
    theme: Theme,
    icons: Icons,
    entries: Seq<FileEntry>,
    facts: Seq<RowFacts>,
    long: LongOptions,
    w: ColumnWidths,
    now: SysTime,
    show_icons: bool,
    mode: ColorMode,
    env: TermEnv,
    k: int,
) -> Seq<char>
    decreases k,
{
    if k <= 0 {
        Seq::empty()
    } else {
        rows_text(theme, icons, entries, facts, long, w, now, show_icons, mode, env, k - 1)
            + row_text(theme, icons, entries[k - 1], facts[k - 1], long, w, now, show_icons, mode, env)
            + seq!['\n']
    }
}

/// The modification time (or `now`) of every entry is a valid time.
pub open spec fn times_wf(entries: Seq<FileEntry>, now: SysTime) -> bool {
    forall|i: int| 0 <= i < entries.len() ==> (#[trigger] mtime_or_now(entries[i], now)).wf()
}

/// The long listing of `entries` with the given row facts: every row with
/// its line break, the report counts, and the column widths used.
pub fn render_rows(
    entries: &Vec<FileEntry>,
    facts: &Vec<RowFacts>,
    theme: &Theme,
    icons: &Icons,
    color_mode: ColorMode,
    show_icons: bool,
    long: &LongOptions,
    now: SysTime,
    env: &TermEnv,
) -> (r: (String, ReportCounts, ColumnWidths))
    requires
        entries.len() == facts.len(),
        theme.wf(),
        icons.wf(),
        now.wf(),
        times_wf(entries@, now),
    ensures
        r.2 == widths_spec(entries@, facts@, *long),
        r.0@ == rows_text(
            *theme,
            *icons,
            entries@,
            facts@,
            *long,
            r.2,
            now,
            show_icons,
            color_mode,
            *env,
            entries@.len() as int,
        ),
        r.1.folders == kind_counts(*icons, entries@, entries@.len() as int).0,
        r.1.recognized_files == kind_counts(*icons, entries@, entries@.len() as int).1,
        r.1.unrecognized_files == kind_counts(*icons, entries@, entries@.len() as int).2,
{
    let widths = compute_widths(entries, facts, long);
    let mut counts = ReportCounts::default();
    let mut out = String::new();
    let mut i: usize = 0;
    while i < entries.len()
        invariant
            i <= entries.len(),
            entries.len() == facts.len(),
            theme.wf(),
            icons.wf(),
            now.wf(),
            times_wf(entries@, now),
            widths == widths_spec(entries@, facts@, *long),
            out@ == rows_text(*theme, *icons, entries@, facts@, *long, widths, now, show_icons, color_mode, *env, i as int),
            counts.folders == kind_counts(*icons, entries@, i as int).0,
            counts.recognized_files == kind_counts(*icons, entries@, i as int).1,
            counts.unrecognized_files == kind_counts(*icons, entries@, i as int).2,
        decreases entries.len() - i,
    {
        proof {
            lemma_kind_counts_total(*icons, entries@, i as int);
            assert(mtime_or_now(entries@[i as int], now).wf());
        }
        let line = build_row(
            &entries[i],
            &facts[i],
            theme,
            icons,
            color_mode,
            show_icons,
            long,
            &widths,
            now,
            env,
            &mut counts,
        );
        push_str(&mut out, line.as_str());
        push_char(&mut out, '\n');
        i = i + 1;
    }
    (out, counts, widths)
}

/// What is known of the facts gathered for a listing: one per entry; the
/// owner text of each row is the name `users` holds for the entry's uid and
/// the group text the name `groups` holds for its gid (empty for a hidden
/// column); and each modification time (the entry's, or `now`) formatted as
/// `format_mtime` promises with the listing's time style (the text of a
/// formatted time depends on the machine's time zone and is not stated).
pub open spec fn facts_fit(
    entries: Seq<FileEntry>,
    facts: Seq<RowFacts>,
    long: LongOptions,
    now: SysTime,
    users: Map<u32, Seq<char>>,
    groups: Map<u32, Seq<char>>,
) -> bool {
    &&& facts.len() == entries.len()
    &&& forall|i: int|
        #![trigger facts[i]]
        0 <= i < facts.len() ==> {
            let t = mtime_or_now(entries[i], now);
            let uid = entries[i].meta.uid;
            let gid = entries[i].meta.gid;
            &&& long.show_owner ==> users.contains_key(uid) && facts[i].user@ == users[uid]
            &&& !long.show_owner ==> facts[i].user@.len() == 0
            &&& long.show_group ==> groups.contains_key(gid) && facts[i].group@ == groups[gid]
            &&& !long.show_group ==> facts[i].group@.len() == 0
            &&& t.secs < 0 ==> facts[i].mtime == Err::<String, TimeFormatError>(
                TimeFormatError::BeforeEpoch,
            )
            &&& t.secs >= 0 && !jiff_timestamp_valid(t.secs, t.nanos as i32) ==> facts[i].mtime
                == Err::<String, TimeFormatError>(TimeFormatError::OutOfRange)
            &&& t.secs >= 0 && jiff_timestamp_valid(t.secs, t.nanos as i32) ==> (facts[i].mtime matches Err(
                e,
            ) ==> e == TimeFormatError::Unformattable)
        }
}

/// Renders the long listing of `entries`: looks up owner and group names
/// through `names` (which remembers them, so each distinct id is looked up
/// once), formats modification times with the listing's time style, then
/// lays out the rows as `render_rows` does. Returns the text, the report
/// counts and the column widths.
pub fn render(
    entries: &Vec<FileEntry>,
    theme: &Theme,
    icons: &Icons,
    color_mode: ColorMode,
    show_icons: bool,
    long: &LongOptions,
    now: SysTime,
    env: &TermEnv,
    names: &mut NameCache,
) -> (r: (String, ReportCounts, ColumnWidths))
    requires
        theme.wf(),
        icons.wf(),
        now.wf(),
        times_wf(entries@, now),
    ensures
        r.1.folders == kind_counts(*icons, entries@, entries@.len() as int).0,
        r.1.recognized_files == kind_counts(*icons, entries@, entries@.len() as int).1,
        r.1.unrecognized_files == kind_counts(*icons, entries@, entries@.len() as int).2,
        (r.1.folders as nat, r.1.recognized_files as nat, r.1.unrecognized_files as nat)
            == entry_counts(*icons, entries@, entries@.len() as int),
        old(names).users_view().submap_of(final(names).users_view()),
        old(names).groups_view().submap_of(final(names).groups_view()),
        !long.show_owner ==> final(names).users_view() == old(names).users_view(),
        !long.show_group ==> final(names).groups_view() == old(names).groups_view(),
        exists|facts: Seq<RowFacts>|
            {
                &&& #[trigger] facts_fit(
                    entries@,
                    facts,
                    *long,
                    now,
                    final(names).users_view(),
                    final(names).groups_view(),
                )
                &&& r.2 == widths_spec(entries@, facts, *long)
                &&& r.0@ == rows_text(
                    *theme,
                    *icons,
                    entries@,
                    facts,
                    *long,
                    r.2,
                    now,
                    show_icons,
                    color_mode,
                    *env,
                    entries@.len() as int,
                )
            },
{
    let mut facts: Vec<RowFacts> = Vec::new();
    let mut i: usize = 0;
    while i < entries.len()
        invariant
            i <= entries.len(),
            times_wf(entries@, now),
            facts_fit(entries@.take(i as int), facts@, *long, now, names.users_view(), names.groups_view()),
            old(names).users_view().submap_of(names.users_view()),
            old(names).groups_view().submap_of(names.groups_view()),
            !long.show_owner ==> names.users_view() == old(names).users_view(),
            !long.show_group ==> names.groups_view() == old(names).groups_view(),
        decreases entries.len() - i,
    {
        let e = &entries[i];
        let ghost u0 = names.users_view();
        let ghost g0 = names.groups_view();
        let user = if long.show_owner {
            names.user_name(e.meta.uid)
        } else {
            String::new()
        };
        let ghost u1 = names.users_view();
        let group = if long.show_group {
            names.group_name(e.meta.gid)
        } else {
            String::new()
        };
        let ghost g1 = names.groups_view();
        proof {
            assert(u0.submap_of(u1));
            assert(g0.submap_of(g1));
            assert(u1 == names.users_view());
            assert forall|k: u32| #[trigger] old(names).groups_view().dom().contains(k) implies g1.dom().contains(
                k,
            ) && old(names).groups_view()[k] == g1[k] by {
                assert(g0.dom().contains(k));
            }
            assert forall|k: u32| #[trigger] old(names).users_view().dom().contains(k) implies u1.dom().contains(
                k,
            ) && old(names).users_view()[k] == u1[k] by {
                assert(u0.dom().contains(k));
            }
        }
        let t = match e.meta.mtime {
            Some(t) => t,
            None => now,
        };
        proof {
            assert(mtime_or_now(entries@[i as int], now).wf());
        }
        let mtime = format_mtime(t, &long.time_style);
        let ghost before = facts@;
        facts.push(RowFacts { user, group, mtime });
        i = i + 1;
        proof {
            let ep = entries@.take(i as int);
            assert(entries@.take(i as int).drop_last() =~= entries@.take(i - 1));
            assert forall|j: int| 0 <= j < i implies entries@.take(i as int)[j] == entries@[j] by {}
            assert forall|j: int| 0 <= j < i - 1 implies facts@[j] == before[j] by {}
            assert(facts_fit(ep, facts@, *long, now, names.users_view(), names.groups_view())) by {
                assert forall|j: int| 0 <= j < facts@.len() implies {
                    let t = mtime_or_now(ep[j], now);
                    let uid = ep[j].meta.uid;
                    let gid = ep[j].meta.gid;
                    &&& long.show_owner ==> names.users_view().contains_key(uid) && (
                    #[trigger] facts@[j]).user@ == names.users_view()[uid]
                    &&& !long.show_owner ==> facts@[j].user@.len() == 0
                    &&& long.show_group ==> names.groups_view().contains_key(gid)
                        && facts@[j].group@ == names.groups_view()[gid]
                    &&& !long.show_group ==> facts@[j].group@.len() == 0
                    &&& t.secs < 0 ==> facts@[j].mtime == Err::<String, TimeFormatError>(
                        TimeFormatError::BeforeEpoch,
                    )
                    &&& t.secs >= 0 && !jiff_timestamp_valid(t.secs, t.nanos as i32)
                        ==> facts@[j].mtime == Err::<String, TimeFormatError>(
                        TimeFormatError::OutOfRange,
                    )
                    &&& t.secs >= 0 && jiff_timestamp_valid(t.secs, t.nanos as i32) ==> (
                    facts@[j].mtime matches Err(e) ==> e == TimeFormatError::Unformattable)
                } by {
                    if j < i - 1 {
                        assert(facts@[j] == before[j]);
                        assert(ep[j] == entries@.take(i - 1)[j]);
                        assert(before[j] == facts@[j]);
                        let uid = ep[j].meta.uid;
                        let gid = ep[j].meta.gid;
                        if long.show_owner {
                            assert(u0.contains_key(uid));
                            assert(u0.dom().contains(uid));
                        }
                        if long.show_group {
                            assert(g0.dom().contains(gid));
                        }
                    }
                }
            }
        }
    }
    assert(entries@.take(entries@.len() as int) =~= entries@);
    let r = render_rows(entries, &facts, theme, icons, color_mode, show_icons, long, now, env);
    assert(facts_fit(entries@, facts@, *long, now, names.users_view(), names.groups_view()));
    proof {
        lemma_counts_by_entry(*icons, entries@, entries@.len() as int);
    }
    r
}

/// The report block, painted in the `report` color.
pub fn render_report(counts: &ReportCounts, kind: ReportKind, theme: &Theme, color: ColorMode, env: &TermEnv) -> (r: String)
    requires
        theme.wf(),
        counts.folders + counts.recognized_files + counts.unrecognized_files <= u64::MAX,
    ensures
        kind is Short ==> r@ == theme.paint_spec(
            "report"@,
            short_report(
                counts.folders as nat,
                (counts.recognized_files + counts.unrecognized_files) as nat,
            ),
            color,
            *env,
        ),
        kind is Long ==> r@ == theme.paint_spec(
            "report"@,
            long_report(
                counts.folders as nat,
                counts.recognized_files as nat,
                counts.unrecognized_files as nat,
            ),
            color,
            *env,
        ),
{
    proof {
        reveal_strlit("report");
    }
    theme.paint("report", counts.render(kind).as_str(), color, env)
}

} // verus!
