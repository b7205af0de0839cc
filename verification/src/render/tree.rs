//! Tree view, following colorls's `tree_traverse`/`tree_branch_preprint`:
//! - indent = 2 characters per nesting level.
//! - connectors: ` ├──` for non-last entries, ` └──` for the last entry and
//!   for directories (a colorls quirk kept for parity).
//! - prefix per ancestor level: ` │ ` repeated `prespace / INDENT` times,
//!   then the connector, then `─` repeated `INDENT` times.
//!
//! Cycle guard: the walk remembers the (device, inode) of every directory
//! it descends into and never descends into one twice, and it never goes
//! below `HARD_DEPTH_CEILING` levels.
//!
//! Reading a directory is the program's part: `TreeWalk` asks for a listing
//! (`TreeStep::Scan`), is handed it (`listed`), and hands back one line at a
//! time (`TreeStep::Line`) until the walk is over (`TreeStep::Done`).

use vstd::prelude::*;

use crate::config::theme::{ColorMode, Theme};
use crate::fs::entry::{EntryKind, FileEntry};
use crate::fs::sort::{sort, sorted_by_spec};
use crate::options::SortSpec;
use crate::render::cell::CellBuilder;
use crate::term::TermEnv;
use crate::text::{owned, push_char, push_repeated, push_str, repeat};

verus! {

/// Indentation per nesting level.
pub const INDENT: usize = 2;

/// Deepest level the walk descends to, bounding recursion on pathological
/// inputs.
pub const HARD_DEPTH_CEILING: usize = 256;

/// Whether the walk may go below `depth` under `depth_limit`.
pub fn keep_going(depth: usize, depth_limit: Option<usize>) -> (r: bool)
    ensures
        r == match depth_limit {
            None => true,
            Some(n) => depth < n,
        },
{
    match depth_limit {
        None => true,
        Some(n) => depth < n,
    }
}

/// The connector for an entry: ` └──` for the last entry and for
/// directories, ` ├──` otherwise.
pub open spec fn connector_spec(is_last: bool, is_dir: bool) -> Seq<char> {
    if is_last || is_dir {
        " \u{2514}\u{2500}\u{2500}"@
    } else {
        " \u{251c}\u{2500}\u{2500}"@
    }
}

/// The connector for an entry.
pub fn connector(is_last: bool, is_dir: bool) -> (r: &'static str)
    ensures
        r@ == connector_spec(is_last, is_dir),
{
    if is_last || is_dir {
        " \u{2514}\u{2500}\u{2500}"
    } else {
        " \u{251c}\u{2500}\u{2500}"
    }
}

/// The branch prefix for an entry at indentation `prespace`.
pub open spec fn preprint_spec(prespace: nat, connector: Seq<char>) -> Seq<char> {
    if prespace == 0 {
        connector
    } else {
        repeat(" \u{2502} "@, prespace / 2) + connector + repeat("\u{2500}"@, 2)
    }
}

/// Builds the branch prefix for an entry at indentation `prespace`.
pub fn preprint(prespace: usize, connector: &str) -> (r: String)
    ensures
        r@ == preprint_spec(prespace as nat, connector@),
{
    if prespace == 0 {
        return owned(connector);
    }
    let mut s = String::new();
    push_repeated(&mut s, " \u{2502} ", prespace / INDENT);
    push_str(&mut s, connector);
    push_repeated(&mut s, "\u{2500}", INDENT);
    assert(s@ =~= preprint_spec(prespace as nat, connector@));
    s
}

/// One line of the tree: the painted prefix, a space, the cell text.
pub fn tree_row(
    prespace: usize,
    is_last: bool,
    is_dir: bool,
    cell_text: &str,
    theme: &Theme,
    color_mode: ColorMode,
    env: &TermEnv,
) -> (r: String)
    requires
        theme.wf(),
    ensures
        r@ == theme.paint_spec(
            "tree"@,
            preprint_spec(prespace as nat, connector_spec(is_last, is_dir)),
            color_mode,
            *env,
        ) + " "@ + cell_text@ + "\n"@,
{
    let prefix = preprint(prespace, connector(is_last, is_dir));
    let mut out = theme.paint("tree", prefix.as_str(), color_mode, env);
    push_char(&mut out, ' ');
    push_str(&mut out, cell_text);
    push_char(&mut out, '\n');
    proof {
        reveal_strlit(" ");
        reveal_strlit("\n");
    }
    assert(out@ =~= theme.paint_spec(
        "tree"@,
        preprint_spec(prespace as nat, connector_spec(is_last, is_dir)),
        color_mode,
        *env,
    ) + " "@ + cell_text@ + "\n"@);
    out
}

/// Whether the walk may go below `depth` under `depth_limit`.
pub open spec fn within_limit(depth: nat, depth_limit: Option<usize>) -> bool {
    match depth_limit {
        None => true,
        Some(n) => depth < n,
    }
}

/// The line `tree_row` builds.
pub open spec fn tree_line(
    theme: Theme,
    prespace: nat,
    is_last: bool,
    is_dir: bool,
    cell_text: Seq<char>,
    mode: ColorMode,
    env: TermEnv,
) -> Seq<char> {
    theme.paint_spec("tree"@, preprint_spec(prespace, connector_spec(is_last, is_dir)), mode, env)
        + " "@ + cell_text + "\n"@
}

/// A directory being listed: its sorted entries, how many have been
/// printed, its indentation and its depth.
pub type FrameView = (Seq<FileEntry>, nat, nat, nat);

/// Every entry of the frame has been printed.
pub open spec fn exhausted(f: FrameView) -> bool {
    f.1 >= f.0.len()
}

/// The frames left once finished directories are closed.
pub open spec fn trim(frames: Seq<FrameView>) -> Seq<FrameView>
    decreases frames.len(),
{
    if frames.len() > 0 && exhausted(frames.last()) {
        trim(frames.drop_last())
    } else {
        frames
    }
}

/// What the walk asks of the program next.
#[derive(Debug)]
pub enum TreeStep {
    /// Print this line.
    Line(String),
    /// List the directory at `path` (the walk continues with `listed`).
    Scan { path: String },
    /// The walk is over.
    Done,
}

/// The state of a tree walk.
#[derive(Debug)]
pub struct TreeWalk {
    frames: Vec<(Vec<FileEntry>, usize, usize, usize)>,
    visited: Vec<(u64, u64)>,
    pending: Option<(String, usize, usize)>,
    awaiting: Option<(usize, usize)>,
    depth_limit: Option<usize>,
    sort_spec: SortSpec,
}

impl TreeWalk {
    /// The open directories, outermost first.
    pub closed spec fn frames(&self) -> Seq<FrameView> {
        self.frames@.map_values(
            |f: (Vec<FileEntry>, usize, usize, usize)| (f.0@, f.1 as nat, f.2 as nat, f.3 as nat),
        )
    }

    /// The (device, inode) of every directory descended into.
    pub closed spec fn visited(&self) -> Seq<(u64, u64)> {
        self.visited@
    }

    /// The directory to ask for next, with its indentation and depth.
    pub closed spec fn pending(&self) -> Option<(Seq<char>, nat, nat)> {
        match self.pending {
            Some(p) => Some((p.0@, p.1 as nat, p.2 as nat)),
            None => None,
        }
    }

    /// The indentation and depth of the listing asked for and not yet
    /// handed over.
    pub closed spec fn awaiting(&self) -> Option<(nat, nat)> {
        match self.awaiting {
            Some(a) => Some((a.0 as nat, a.1 as nat)),
            None => None,
        }
    }

    /// The depth limit of the walk.
    pub closed spec fn limit(&self) -> Option<usize> {
        self.depth_limit
    }

    /// The order of each listing.
    pub closed spec fn order(&self) -> SortSpec {
        self.sort_spec
    }

    /// The walk's invariant: the open directories sit one level below each
    /// other, starting at depth 1 with no indentation and indenting by
    /// `INDENT` per level; none is deeper than `HARD_DEPTH_CEILING` or than
    /// the depth limit allows; the walk asks for a listing at most once at
    /// a time, always one level below the innermost open directory; and no
    /// directory is remembered twice.
    pub closed spec fn wf(&self) -> bool {
        let fr = self.frames();
        &&& fr.len() <= HARD_DEPTH_CEILING
        &&& forall|k: int|
            #![trigger fr[k]]
            0 <= k < fr.len() ==> {
                &&& fr[k].3 == k + 1
                &&& fr[k].2 == 2 * k
                &&& fr[k].1 <= fr[k].0.len()
                &&& (k == 0 || within_limit(k as nat, self.depth_limit))
            }
        &&& !(self.pending is Some && self.awaiting is Some)
        &&& (self.pending matches Some(p) ==> p.2 == fr.len() + 1 && p.1 == 2 * fr.len() && p.2
            <= HARD_DEPTH_CEILING && (fr.len() == 0 || within_limit(fr.len() as nat, self.depth_limit)))
        &&& (self.awaiting matches Some(a) ==> a.1 == fr.len() + 1 && a.0 == 2 * fr.len() && a.1
            <= HARD_DEPTH_CEILING && (fr.len() == 0 || within_limit(fr.len() as nat, self.depth_limit)))
        &&& self.visited@.no_duplicates()
    }

    /// A walk of the tree under `root`: it first asks for `root`'s listing.
    pub fn new(root: &str, depth_limit: Option<usize>, sort_spec: SortSpec) -> (r: Self)
        ensures
            r.wf(),
            r.frames() == Seq::<FrameView>::empty(),
            r.visited() == Seq::<(u64, u64)>::empty(),
            r.pending() == Some((root@, 0nat, 1nat)),
            r.awaiting() is None,
            r.limit() == depth_limit,
            r.order() == sort_spec,
    {
        let r = TreeWalk {
            frames: Vec::new(),
            visited: Vec::new(),
            pending: Some((owned(root), 0, 1)),
            awaiting: None,
            depth_limit,
            sort_spec,
        };
        assert(r.frames() =~= Seq::<FrameView>::empty());
        r
    }

    /// Hands over the listing asked for: its entries are sorted and become
    /// the innermost open directory.
    pub fn listed(&mut self, entries: Vec<FileEntry>)
        requires
            old(self).wf(),
            old(self).awaiting() is Some,
        ensures
            final(self).wf(),
            final(self).awaiting() is None,
            final(self).pending() is None,
            final(self).frames().len() == old(self).frames().len() + 1,
            final(self).frames().drop_last() == old(self).frames(),
            sorted_by_spec(entries@, final(self).frames().last().0, old(self).order()),
            final(self).frames().last().1 == 0,
            final(self).frames().last().2 == old(self).awaiting().unwrap().0,
            final(self).frames().last().3 == old(self).awaiting().unwrap().1,
            final(self).visited() == old(self).visited(),
            final(self).limit() == old(self).limit(),
            final(self).order() == old(self).order(),
    {
        let ghost before = self.frames();
        let (prespace, depth) = match self.awaiting {
            Some(a) => a,
            None => (0, 1),
        };
        let mut sorted = entries;
        sort(&mut sorted, self.sort_spec);
        self.awaiting = None;
        self.frames.push((sorted, 0, prespace, depth));
        proof {
            assert(self.frames().drop_last() =~= before);
            let fr = self.frames();
            assert forall|k: int| 0 <= k < fr.len() implies #[trigger] fr[k].3 == k + 1 && fr[k].2 == 2 * k
                && fr[k].1 <= fr[k].0.len() && (k == 0 || within_limit(k as nat, self.depth_limit)) by {
                if k < before.len() {
                    assert(fr[k] == before[k]);
                }
            }
        }
    }
}

/// Whether `key` is in `v`.
fn contains_key(v: &Vec<(u64, u64)>, key: (u64, u64)) -> (r: bool)
    ensures
        r == v@.contains(key),
{
    let mut i: usize = 0;
    while i < v.len()
        invariant
            i <= v.len(),
            forall|j: int| 0 <= j < i ==> v@[j] != key,
        decreases v.len() - i,
    {
        if v[i].0 == key.0 && v[i].1 == key.1 {
            assert(v@[i as int] == key);
            return true;
        }
        i = i + 1;
    }
    false
}

impl TreeWalk {
    /// Says what to do next: ask for the pending listing; else print the
    /// next entry of the innermost unfinished directory (closing finished
    /// ones), remembering a directory to descend into when it is one not
    /// seen before and within the depth limit; else stop.
    pub fn next(&mut self, builder: &CellBuilder<'_>, theme: &Theme, color_mode: ColorMode, env: &TermEnv) -> (r: TreeStep)
        requires
            old(self).wf(),
            old(self).awaiting() is None,
            builder.wf(),
            theme.wf(),
        ensures
            final(self).wf(),
            final(self).limit() == old(self).limit(),
            final(self).order() == old(self).order(),
            old(self).pending() matches Some(p) ==> {
                &&& r matches TreeStep::Scan { path } && path@ == p.0
                &&& final(self).awaiting() == Some((p.1, p.2))
                &&& final(self).pending() is None
                &&& final(self).frames() == old(self).frames()
                &&& final(self).visited() == old(self).visited()
            },
            old(self).pending() is None && trim(old(self).frames()).len() == 0 ==> {
                &&& r is Done
                &&& final(self).frames() == Seq::<FrameView>::empty()
                &&& final(self).visited() == old(self).visited()
                &&& final(self).pending() is None
                &&& final(self).awaiting() is None
            },
            old(self).pending() is None && trim(old(self).frames()).len() > 0 ==> {
                let t = trim(old(self).frames());
                let f = t.last();
                let e = f.0[f.1 as int];
                let is_dir = e.kind == EntryKind::Directory;
                let key = (e.meta.dev, e.meta.ino);
                let descend = is_dir && within_limit(f.3, old(self).limit()) && !old(
                    self,
                ).visited().contains(key);
                &&& r matches TreeStep::Line(line) && line@ == tree_line(
                    *theme,
                    f.2,
                    f.1 + 1 == f.0.len(),
                    is_dir,
                    builder.cell_text(e),
                    color_mode,
                    *env,
                )
                &&& final(self).frames() == t.update(t.len() - 1, (f.0, f.1 + 1, f.2, f.3))
                &&& final(self).visited() == if descend {
                    old(self).visited().push(key)
                } else {
                    old(self).visited()
                }
                &&& final(self).pending() == if descend && f.3 + 1 <= HARD_DEPTH_CEILING {
                    Some((e.path@, f.2 + 2, f.3 + 1))
                } else {
                    None
                }
                &&& final(self).awaiting() is None
            },
    {
        if self.pending.is_some() {
            let (path, prespace, depth) = match self.pending.take() {
                Some(p) => p,
                None => (String::new(), 0, 1),
            };
            self.awaiting = Some((prespace, depth));
            return TreeStep::Scan { path };
        }
        let ghost fr0 = self.frames();
        while self.frames.len() > 0 && self.frames[self.frames.len() - 1].1 >= self.frames[self.frames.len() - 1].0.len()
            invariant
                self.wf(),
                self.pending is None,
                self.awaiting is None,
                trim(self.frames()) == trim(fr0),
                self.visited() == old(self).visited(),
                self.limit() == old(self).limit(),
                self.order() == old(self).order(),
            decreases self.frames.len(),
        {
            let ghost before = self.frames();
            self.frames.pop();
            proof {
                assert(self.frames() =~= before.drop_last());
                assert(exhausted(before.last()));
            }
        }
        let ghost t = self.frames();
        assert(trim(t) == t);
        let n = self.frames.len();
        if n == 0 {
            assert(self.frames() =~= Seq::<FrameView>::empty());
            return TreeStep::Done;
        }
        let (entries, i, prespace, depth) = match self.frames.pop() {
            Some(f) => f,
            None => (Vec::new(), 0, 0, 1),
        };
        proof {
            assert(self.frames() =~= t.drop_last());
        }
        let ghost f = t.last();
        let is_last = i + 1 == entries.len();
        let entry = &entries[i];
        let is_dir = entry.is_dir();
        let cell = builder.build(entry);
        let line = tree_row(prespace, is_last, is_dir, cell.text.as_str(), theme, color_mode, env);
        let key = (entry.meta.dev, entry.meta.ino);
        let mut descend = false;
        if is_dir && keep_going(depth, self.depth_limit) && !contains_key(&self.visited, key) {
            self.visited.push(key);
            descend = true;
        }
        if descend && depth + 1 <= HARD_DEPTH_CEILING {
            self.pending = Some((entry.path.clone(), prespace + INDENT, depth + 1));
        }
        self.frames.push((entries, i + 1, prespace, depth));
        proof {
            assert(self.frames() =~= t.update(t.len() - 1, (f.0, f.1 + 1, f.2, f.3)));
        }
        TreeStep::Line(line)
    }
}

} // verus!
