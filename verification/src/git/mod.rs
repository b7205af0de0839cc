//! Git status column, following colorls's `git.rb`:
//! - Per-file status: ?/A/M/D/R for untracked/added/modified/deleted/renamed.
//! - Per-directory status: the union of every descendant's flags.
//! - Unchanged: `  ✓ ` in the `unchanged` color.
//! - The column is 4 characters: right-aligned in 3, then left-aligned in 4.
//!
//! Reading the repository happens in the program; it hands the statuses
//! (path relative to the work tree, libgit2 status bits) to `GitContext`.

use vstd::prelude::*;

use crate::config::theme::{ColorMode, Theme};
use crate::path::{path_components, path_components_of, plain_name};
use crate::term::TermEnv;
use crate::text::{pad_left, pad_right, push_char, push_str, str_eq, string_of};

verus! {

/// The states surfaced in the status column, as bits.
#[derive(Debug, Clone, Copy, PartialEq, Eq, Structural)]
pub struct GitFlags {
    pub bits: u8,
}

impl GitFlags {
    /// `?` untracked
    #[allow(non_snake_case)]
    pub fn NEW() -> (r: GitFlags)
        ensures
            r.bits == 1,
    {
        GitFlags { bits: 0b00001 }
    }

    /// `A` added to the index
    #[allow(non_snake_case)]
    pub fn ADDED() -> (r: GitFlags)
        ensures
            r.bits == 2,
    {
        GitFlags { bits: 0b00010 }
    }

    /// `M` modified (work tree or index)
    #[allow(non_snake_case)]
    pub fn MODIFIED() -> (r: GitFlags)
        ensures
            r.bits == 4,
    {
        GitFlags { bits: 0b00100 }
    }

    /// `D` deleted
    #[allow(non_snake_case)]
    pub fn DELETED() -> (r: GitFlags)
        ensures
            r.bits == 8,
    {
        GitFlags { bits: 0b01000 }
    }

    /// `R` renamed
    #[allow(non_snake_case)]
    pub fn RENAMED() -> (r: GitFlags)
        ensures
            r.bits == 16,
    {
        GitFlags { bits: 0b10000 }
    }

    /// No flags.
    pub fn empty() -> (r: Self)
        ensures
            r.bits == 0,
    {
        GitFlags { bits: 0 }
    }

    /// Whether no flag is set.
    pub fn is_empty(&self) -> (r: bool)
        ensures
            r == (self.bits == 0),
    {
        self.bits == 0
    }

    /// Whether every flag of `other` is set.
    pub fn contains(&self, other: GitFlags) -> (r: bool)
        ensures
            r == (self.bits & other.bits == other.bits),
    {
        self.bits & other.bits == other.bits
    }

    /// The flags set in either.
    pub fn union(self, other: GitFlags) -> (r: GitFlags)
        ensures
            r.bits == self.bits | other.bits,
    {
        GitFlags { bits: self.bits | other.bits }
    }
}

/// libgit2 status bits (`GIT_STATUS_*`).
pub const INDEX_NEW: u32 = 1;
pub const INDEX_MODIFIED: u32 = 2;
pub const INDEX_DELETED: u32 = 4;
pub const INDEX_RENAMED: u32 = 8;
pub const INDEX_TYPECHANGE: u32 = 16;
pub const WT_NEW: u32 = 128;
pub const WT_MODIFIED: u32 = 256;
pub const WT_DELETED: u32 = 512;
pub const WT_TYPECHANGE: u32 = 1024;
pub const WT_RENAMED: u32 = 2048;

/// The bit of the surfaced flags that `s` sets when it has any of `mask`.
pub open spec fn bit_if(s: u32, mask: u32, bit: u8) -> u8 {
    if s & mask != 0 {
        bit
    } else {
        0u8
    }
}

/// The flags a libgit2 status maps to: work-tree new is `?`, index new is
/// `A`, any modification or type change is `M`, deletions `D`, renames `R`.
pub open spec fn status_bits(s: u32) -> u8 {
    bit_if(s, WT_NEW, 1) | bit_if(s, INDEX_NEW, 2) | bit_if(
        s,
        WT_MODIFIED | INDEX_MODIFIED | WT_TYPECHANGE | INDEX_TYPECHANGE,
        4,
    ) | bit_if(s, WT_DELETED | INDEX_DELETED, 8) | bit_if(s, WT_RENAMED | INDEX_RENAMED, 16)
}

fn flag_if(s: u32, mask: u32, bit: u8) -> (r: u8)
    ensures
        r == bit_if(s, mask, bit),
{
    if s & mask != 0 {
        bit
    } else {
        0
    }
}

/// Maps a libgit2 status to the surfaced flags.
pub fn map_status(s: u32) -> (r: GitFlags)
    ensures
        r.bits == status_bits(s),
{
    let bits = flag_if(s, WT_NEW, 1) | flag_if(s, INDEX_NEW, 2) | flag_if(
        s,
        WT_MODIFIED | INDEX_MODIFIED | WT_TYPECHANGE | INDEX_TYPECHANGE,
        4,
    ) | flag_if(s, WT_DELETED | INDEX_DELETED, 8) | flag_if(s, WT_RENAMED | INDEX_RENAMED, 16);
    GitFlags { bits }
}

/// `p` is a prefix of `q`.
pub open spec fn is_prefix(p: Seq<Seq<char>>, q: Seq<Seq<char>>) -> bool {
    p.len() <= q.len() && q.take(p.len() as int) == p
}

/// The union of the flags of the entries at `rel` or below it.
pub open spec fn flags_below(entries: Seq<(Seq<Seq<char>>, u8)>, rel: Seq<Seq<char>>) -> u8
    decreases entries.len(),
{
    if entries.len() == 0 {
        0
    } else {
        flags_below(entries.drop_last(), rel) | if rel.len() > 0 && is_prefix(
            rel,
            entries.last().0,
        ) {
            entries.last().1
        } else {
            0u8
        }
    }
}

/// A snapshot of a repository's statuses.
#[derive(Debug, Clone)]
pub struct GitContext {
    workdir: Vec<String>,
    statuses: Vec<(Vec<String>, u8)>,
}

/// Component sequences as text.
pub open spec fn comps_view(v: Seq<String>) -> Seq<Seq<char>> {
    v.map_values(|c: String| c@)
}

/// The flags recorded per path, for the given `(path, status)` pairs: each
/// path's components with its mapped flags, entries with no flags dropped.
pub open spec fn recorded(entries: Seq<(String, u32)>) -> Seq<(Seq<Seq<char>>, u8)>
    decreases entries.len(),
{
    if entries.len() == 0 {
        Seq::empty()
    } else {
        let rest = recorded(entries.drop_last());
        let e = entries.last();
        if status_bits(e.1) == 0 {
            rest
        } else {
            rest.push((path_components_of(e.0@), status_bits(e.1)))
        }
    }
}

impl GitContext {
    /// The work tree's path components.
    pub closed spec fn workdir_view(&self) -> Seq<Seq<char>> {
        comps_view(self.workdir@)
    }

    /// The recorded statuses: path components and flags.
    pub closed spec fn statuses_view(&self) -> Seq<(Seq<Seq<char>>, u8)> {
        self.statuses@.map_values(|e: (Vec<String>, u8)| (comps_view(e.0@), e.1))
    }

    /// The flags `flags_for` reports for a path given by its components.
    pub open spec fn flags_at(&self, comps: Seq<Seq<char>>) -> u8 {
        if is_prefix(self.workdir_view(), comps) {
            flags_below(self.statuses_view(), comps.skip(self.workdir_view().len() as int))
        } else {
            0
        }
    }

    /// A snapshot for the work tree at `workdir` holding `entries`
    /// (path relative to the work tree, libgit2 status bits).
    pub fn from_statuses(workdir: &str, entries: &Vec<(String, u32)>) -> (r: Self)
        ensures
            r.workdir_view() == path_components_of(workdir@),
            r.statuses_view() == recorded(entries@),
    {
        let wd = path_components(workdir);
        let mut statuses: Vec<(Vec<String>, u8)> = Vec::new();
        let mut i: usize = 0;
        while i < entries.len()
            invariant
                i <= entries.len(),
                statuses@.map_values(|e: (Vec<String>, u8)| (comps_view(e.0@), e.1)) == recorded(
                    entries@.take(i as int),
                ),
            decreases entries.len() - i,
        {
            let flags = map_status(entries[i].1);
            let ghost before = statuses@;
            assert(entries@.take(i + 1).drop_last() =~= entries@.take(i as int));
            if !flags.is_empty() {
                let comps = path_components(entries[i].0.as_str());
                statuses.push((comps, flags.bits));
                assert(statuses@.map_values(|e: (Vec<String>, u8)| (comps_view(e.0@), e.1))
                    =~= before.map_values(|e: (Vec<String>, u8)| (comps_view(e.0@), e.1)).push(
                    (comps_view(comps@), flags.bits),
                ));
            }
            i = i + 1;
        }
        assert(entries@.take(entries@.len() as int) =~= entries@);
        GitContext { workdir: wd, statuses }
    }

    /// The aggregated flags for `abs_path`: the union of the flags of every
    /// recorded path at or below it; empty outside the work tree.
    ///
    /// A directory's flags include those of every entry in it: for
    /// `abs_path` written as a directory inside the work tree, `/` and a
    /// plain name, the flags are a subset of the directory's.
    pub fn flags_for(&self, abs_path: &str) -> (r: GitFlags)
        ensures
            r.bits == self.flags_at(path_components_of(abs_path@)),
            forall|dir: Seq<char>, name: Seq<char>|
                dir.len() > 0 && plain_name(name) && abs_path@ == dir + seq!['/'] + name
                    ==> path_components_of(abs_path@) == #[trigger] path_components_of(dir).push(
                    name,
                ),
            forall|dir: Seq<char>, name: Seq<char>|
                dir.len() > 0 && plain_name(name) && abs_path@ == dir + seq!['/'] + name
                    && is_prefix(self.workdir_view(), #[trigger] path_components_of(dir))
                    && path_components_of(dir).len() > self.workdir_view().len() && #[trigger]
                    plain_name(name) ==> self.flags_at(path_components_of(dir)) & r.bits == r.bits,
    {
        let comps = path_components(abs_path);
        let r = self.flags_of_components(&comps);
        proof {
            assert forall|dir: Seq<char>, name: Seq<char>|
                dir.len() > 0 && plain_name(name) && abs_path@ == dir + seq!['/'] + name
                    implies path_components_of(abs_path@) == #[trigger] path_components_of(
                dir,
            ).push(name) by {
                assert(comps_view(comps@) == path_components_of(dir).push(name));
            }
            assert forall|dir: Seq<char>, name: Seq<char>|
                dir.len() > 0 && plain_name(name) && abs_path@ == dir + seq!['/'] + name
                    && is_prefix(self.workdir_view(), #[trigger] path_components_of(dir))
                    && path_components_of(dir).len() > self.workdir_view().len() && #[trigger]
                    plain_name(name) implies self.flags_at(path_components_of(dir)) & r.bits
                == r.bits by {
                assert(comps_view(comps@) == path_components_of(dir).push(name));
                self.lemma_parent_holds_child_flags(path_components_of(dir), name);
            }
        }
        r
    }

    /// The aggregated flags for a path given by its components.
    fn flags_of_components(&self, comps: &Vec<String>) -> (r: GitFlags)
        ensures
            r.bits == self.flags_at(comps_view(comps@)),
    {
        let ghost cv = comps_view(comps@);
        let w = self.workdir.len();
        if w > comps.len() {
            assert(!is_prefix(self.workdir_view(), cv));
            return GitFlags::empty();
        }
        let mut k: usize = 0;
        while k < w
            invariant
                w == self.workdir@.len(),
                w <= comps@.len(),
                k <= w,
                cv == comps_view(comps@),
                forall|j: int| 0 <= j < k ==> cv[j] == self.workdir_view()[j],
            decreases w - k,
        {
            if !str_eq(self.workdir[k].as_str(), comps[k].as_str()) {
                proof {
                    assert(cv[k as int] == comps@[k as int]@);
                    assert(self.workdir_view()[k as int] == self.workdir@[k as int]@);
                    assert(cv.take(w as int)[k as int] != self.workdir_view()[k as int]);
                    assert(!is_prefix(self.workdir_view(), cv));
                }
                return GitFlags::empty();
            }
            k = k + 1;
        }
        assert(cv.take(w as int) =~= self.workdir_view());
        let ghost rel = cv.skip(w as int);
        let mut acc: u8 = 0;
        let mut i: usize = 0;
        let ghost sv = self.statuses_view();
        while i < self.statuses.len()
            invariant
                i <= self.statuses@.len(),
                sv == self.statuses_view(),
                w <= comps@.len(),
                cv == comps_view(comps@),
                rel == cv.skip(w as int),
                acc == flags_below(sv.take(i as int), rel),
            decreases self.statuses.len() - i,
        {
            let entry = &self.statuses[i];
            assert(sv.take(i + 1).drop_last() =~= sv.take(i as int));
            let below = covers(&comps, w, &entry.0);
            proof {
                assert(sv[i as int].0 == comps_view(entry.0@));
            }
            if below {
                acc = acc | entry.1;
            } else {
                acc = acc | 0u8;
            }
            i = i + 1;
        }
        assert(sv.take(sv.len() as int) =~= sv);
        GitFlags { bits: acc }
    }
}

/// Whether `comps[w..]` is non-empty and a prefix of `path`.
fn covers(comps: &Vec<String>, w: usize, path: &Vec<String>) -> (r: bool)
    requires
        w <= comps@.len(),
    ensures
        r == (comps_view(comps@).skip(w as int).len() > 0 && is_prefix(
            comps_view(comps@).skip(w as int),
            comps_view(path@),
        )),
{
    let ghost rel = comps_view(comps@).skip(w as int);
    let ghost pv = comps_view(path@);
    let n = comps.len() - w;
    if n == 0 || n > path.len() {
        return false;
    }
    let mut j: usize = 0;
    while j < n
        invariant
            n == comps@.len() - w,
            w + n == comps@.len(),
            w + n <= usize::MAX,
            n <= path@.len(),
            j <= n,
            rel == comps_view(comps@).skip(w as int),
            pv == comps_view(path@),
            forall|t: int| 0 <= t < j ==> rel[t] == pv[t],
        decreases n - j,
    {
        assert(w + j < comps@.len());
        let at = w + j;
        if !str_eq(comps[at].as_str(), path[j].as_str()) {
            proof {
                assert(pv.take(n as int)[j as int] != rel[j as int]);
            }
            return false;
        }
        j = j + 1;
    }
    assert(pv.take(n as int) =~= rel);
    true
}

/// The status letters for `bits`, in the order `?AMDR`.
pub open spec fn letters(bits: u8) -> Seq<char> {
    (if bits & 1 == 1 { seq!['?'] } else { Seq::empty() }) + (if bits & 2 == 2 {
        seq!['A']
    } else {
        Seq::empty()
    }) + (if bits & 4 == 4 { seq!['M'] } else { Seq::empty() }) + (if bits & 8 == 8 {
        seq!['D']
    } else {
        Seq::empty()
    }) + (if bits & 16 == 16 { seq!['R'] } else { Seq::empty() })
}

/// The text a character of the status field becomes: `?`, `A`, `M`, `D`
/// painted in their colors; other characters (including `R`) unchanged.
pub open spec fn status_char_text(theme: Theme, c: char, mode: ColorMode, env: TermEnv) -> Seq<char> {
    if c == '?' {
        theme.paint_spec("untracked"@, seq!['?'], mode, env)
    } else if c == 'A' {
        theme.paint_spec("addition"@, seq!['A'], mode, env)
    } else if c == 'M' {
        theme.paint_spec("modification"@, seq!['M'], mode, env)
    } else if c == 'D' {
        theme.paint_spec("deletion"@, seq!['D'], mode, env)
    } else {
        seq![c]
    }
}

/// The first `k` characters of `field`, each turned into its text.
pub open spec fn painted_field(theme: Theme, field: Seq<char>, k: int, mode: ColorMode, env: TermEnv) -> Seq<
    char,
>
    decreases k,
{
    if k <= 0 {
        Seq::empty()
    } else {
        painted_field(theme, field, k - 1, mode, env) + status_char_text(
            theme,
            field[k - 1],
            mode,
            env,
        )
    }
}

/// The text of one character of the status field.
fn status_char(c: char, theme: &Theme, color: ColorMode, env: &TermEnv) -> (r: String)
    requires
        theme.wf(),
    ensures
        r@ == status_char_text(*theme, c, color, *env),
{
    proof {
        reveal_strlit("?");
        reveal_strlit("A");
        reveal_strlit("M");
        reveal_strlit("D");
    }
    if c == '?' {
        theme.paint("untracked", "?", color, env)
    } else if c == 'A' {
        theme.paint("addition", "A", color, env)
    } else if c == 'M' {
        theme.paint("modification", "M", color, env)
    } else if c == 'D' {
        theme.paint("deletion", "D", color, env)
    } else {
        let mut s = String::new();
        push_char(&mut s, c);
        s
    }
}

/// The 4-character status field before painting.
pub open spec fn status_field(bits: u8) -> Seq<char> {
    pad_right(pad_left(letters(bits), 3), 4)
}

/// The status column for `flags`: a check mark in the `unchanged` color for
/// clean entries, otherwise the letters right-aligned in 3 columns and
/// left-aligned in 4, each letter painted.
pub fn render_status(flags: GitFlags, theme: &Theme, color: ColorMode, env: &TermEnv) -> (r: String)
    requires
        theme.wf(),
    ensures
        flags.bits == 0 ==> r@ == theme.paint_spec("unchanged"@, "  \u{2713} "@, color, *env),
        flags.bits != 0 ==> r@ == painted_field(
            *theme,
            status_field(flags.bits),
            status_field(flags.bits).len() as int,
            color,
            *env,
        ),
{
    if flags.is_empty() {
        return theme.paint("unchanged", "  \u{2713} ", color, env);
    }
    let mut chars: Vec<char> = Vec::new();
    if flags.contains(GitFlags::NEW()) {
        chars.push('?');
    }
    if flags.contains(GitFlags::ADDED()) {
        chars.push('A');
    }
    if flags.contains(GitFlags::MODIFIED()) {
        chars.push('M');
    }
    if flags.contains(GitFlags::DELETED()) {
        chars.push('D');
    }
    if flags.contains(GitFlags::RENAMED()) {
        chars.push('R');
    }
    assert(chars@ =~= letters(flags.bits));
    let raw = string_of(chars.as_slice());
    let padded = crate::text::padded_right(crate::text::padded_left(raw.as_str(), 3).as_str(), 4);
    let field = crate::text::chars_of(padded.as_str());
    let mut out = String::new();
    let mut i: usize = 0;
    while i < field.len()
        invariant
            theme.wf(),
            i <= field.len(),
            field@ == status_field(flags.bits),
            out@ == painted_field(*theme, field@, i as int, color, *env),
        decreases field.len() - i,
    {
        let piece = status_char(field[i], theme, color, env);
        push_str(&mut out, piece.as_str());
        i = i + 1;
    }
    out
}

/// A directory's flags hold the flags of every recorded path at or below
/// it.
pub proof fn lemma_flags_below_hold_descendant(entries: Seq<(Seq<Seq<char>>, u8)>, rel: Seq<Seq<char>>, i: int)
    requires
        0 <= i < entries.len(),
        rel.len() > 0,
        is_prefix(rel, entries[i].0),
    ensures
        flags_below(entries, rel) & entries[i].1 == entries[i].1,
    decreases entries.len(),
{
    let rest = flags_below(entries.drop_last(), rel);
    let b = entries[i].1;
    if i == entries.len() - 1 {
        assert((rest | b) & b == b) by (bit_vector);
    } else {
        assert(entries.drop_last()[i] == entries[i]);
        lemma_flags_below_hold_descendant(entries.drop_last(), rel, i);
        let last = if rel.len() > 0 && is_prefix(rel, entries.last().0) {
            entries.last().1
        } else {
            0u8
        };
        assert(rest & b == b ==> (rest | last) & b == b) by (bit_vector);
    }
}

impl GitContext {
    /// The status of a path inside the work tree holds the flags of every
    /// recorded path at or below it: a directory shows what changed
    /// anywhere beneath it.
    pub proof fn lemma_flags_cover_descendants(&self, comps: Seq<Seq<char>>, i: int)
        requires
            is_prefix(self.workdir_view(), comps),
            comps.len() > self.workdir_view().len(),
            0 <= i < self.statuses_view().len(),
            is_prefix(comps.skip(self.workdir_view().len() as int), self.statuses_view()[i].0),
        ensures
            self.flags_at(comps) & self.statuses_view()[i].1 == self.statuses_view()[i].1,
    {
        lemma_flags_below_hold_descendant(
            self.statuses_view(),
            comps.skip(self.workdir_view().len() as int),
            i,
        );
    }

    /// Paths outside the work tree have no flags.
    pub proof fn lemma_outside_is_clean(&self, comps: Seq<Seq<char>>)
        requires
            !is_prefix(self.workdir_view(), comps),
        ensures
            self.flags_at(comps) == 0,
    {
    }
}

/// A shorter path's flags hold the flags of a longer one below it.
pub proof fn lemma_flags_below_monotone(
    entries: Seq<(Seq<Seq<char>>, u8)>,
    r1: Seq<Seq<char>>,
    r2: Seq<Seq<char>>,
)
    requires
        r1.len() > 0,
        is_prefix(r1, r2),
    ensures
        flags_below(entries, r1) & flags_below(entries, r2) == flags_below(entries, r2),
    decreases entries.len(),
{
    if entries.len() > 0 {
        lemma_flags_below_monotone(entries.drop_last(), r1, r2);
        let a1 = flags_below(entries.drop_last(), r1);
        let b1 = flags_below(entries.drop_last(), r2);
        let e = entries.last();
        let x1 = if r1.len() > 0 && is_prefix(r1, e.0) {
            e.1
        } else {
            0u8
        };
        let x2 = if r2.len() > 0 && is_prefix(r2, e.0) {
            e.1
        } else {
            0u8
        };
        if r2.len() > 0 && is_prefix(r2, e.0) {
            assert(e.0.take(r1.len() as int) =~= r2.take(r1.len() as int));
            assert(is_prefix(r1, e.0));
        }
        assert(x2 == 0 || x1 == x2);
        assert((a1 & b1 == b1) && (x2 == 0 || x1 == x2) ==> (a1 | x1) & (b1 | x2) == (b1 | x2))
            by (bit_vector);
        assert(flags_below(entries, r1) == a1 | x1);
        assert(flags_below(entries, r2) == b1 | x2);
    } else {
        assert(0u8 & 0u8 == 0u8) by (bit_vector);
    }
}

impl GitContext {
    /// A directory's flags include those of every entry in it: for a path
    /// inside the work tree (not the work tree itself) and any child name,
    /// the child's flags are a subset of the directory's.
    pub proof fn lemma_parent_holds_child_flags(&self, dir: Seq<Seq<char>>, child: Seq<char>)
        requires
            is_prefix(self.workdir_view(), dir),
            dir.len() > self.workdir_view().len(),
        ensures
            self.flags_at(dir) & self.flags_at(dir.push(child)) == self.flags_at(dir.push(child)),
    {
        let w = self.workdir_view().len() as int;
        let c = dir.push(child);
        assert(c.take(w) =~= dir.take(w));
        assert(is_prefix(self.workdir_view(), c));
        let r1 = dir.skip(w);
        let r2 = c.skip(w);
        assert(r2.take(r1.len() as int) =~= r1);
        lemma_flags_below_monotone(self.statuses_view(), r1, r2);
    }
}

} // verus!
