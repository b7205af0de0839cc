//! Pre-rendered cells (icon + name + ANSI styling) built from entries.

use vstd::prelude::*;

use crate::config::icons::{IconKind, Icons};
use crate::config::theme::{ColorMode, Theme};
use crate::fs::entry::{EntryKind, FileEntry};
use crate::render::width::{display_width, text_width};
use crate::term::TermEnv;
use crate::text::{push_char, push_str, string_of};

verus! {

/// A renderable cell with its measured display width.
#[derive(Debug, Clone)]
pub struct Cell {
    /// ANSI-colored output ready to write to the terminal.
    pub text: String,
    /// Visible width on a Unicode-aware terminal (used for column math).
    pub width: usize,
}

/// What a cell is built with.
#[derive(Debug)]
pub struct CellBuilder<'a> {
    pub theme: &'a Theme,
    pub icons: &'a Icons,
    pub color_mode: ColorMode,
    pub show_icons: bool,
    pub env: &'a TermEnv,
}

/// The glyph and theme key for an entry: directories take the folder icon
/// and the `dir` color; everything else takes the file icon by extension
/// and a color by kind (links live or dead, sockets, devices, executables,
/// recognized or unrecognized files).
pub open spec fn entry_style(icons: Icons, e: FileEntry) -> (char, Seq<char>) {
    match e.kind {
        EntryKind::Directory => (icons.directory_icon(e.name@).0, "dir"@),
        EntryKind::Symlink => (
            icons.file_icon(e.name@).0,
            if e.link_target is None {
                "dead_link"@
            } else {
                "link"@
            },
        ),
        EntryKind::Fifo | EntryKind::Socket => (icons.file_icon(e.name@).0, "socket"@),
        EntryKind::BlockDevice => (icons.file_icon(e.name@).0, "blockdev"@),
        EntryKind::CharDevice => (icons.file_icon(e.name@).0, "chardev"@),
        EntryKind::File => (
            icons.file_icon(e.name@).0,
            if e.meta.mode & 0o111 != 0 {
                "executable_file"@
            } else if icons.file_icon(e.name@).1 == IconKind::File {
                "recognized_file"@
            } else {
                "unrecognized_file"@
            },
        ),
    }
}

/// A regular file with any execute bit set is painted as an executable,
/// whatever icon its extension finds; one without is painted as recognized
/// exactly when its extension has an icon. Only such files take the
/// executable color, and every entry but a directory shows the icon its
/// name finds among the file icons.
pub proof fn lemma_executables_take_the_executable_color(icons: Icons, e: FileEntry)
    ensures
        e.kind == EntryKind::File && e.meta.mode & 0o111 != 0 ==> entry_style(icons, e).1
            == "executable_file"@,
        e.kind == EntryKind::File && e.meta.mode & 0o111 == 0 ==> (entry_style(icons, e).1
            == "recognized_file"@ <==> icons.file_icon(e.name@).1 == IconKind::File),
        entry_style(icons, e).1 == "executable_file"@ ==> e.kind == EntryKind::File && e.meta.mode
            & 0o111 != 0,
        e.kind != EntryKind::Directory ==> entry_style(icons, e).0 == icons.file_icon(e.name@).0,
{
    reveal_strlit("executable_file");
    reveal_strlit("recognized_file");
    reveal_strlit("unrecognized_file");
    reveal_strlit("dir");
    reveal_strlit("dead_link");
    reveal_strlit("link");
    reveal_strlit("socket");
    reveal_strlit("blockdev");
    reveal_strlit("chardev");
    let x = "executable_file"@;
    assert(x[0] != "recognized_file"@[0] && x[0] != "unrecognized_file"@[0] && x[0] != "dir"@[0]
        && x[0] != "dead_link"@[0] && x[0] != "link"@[0] && x[0] != "socket"@[0] && x[0]
        != "blockdev"@[0] && x[0] != "chardev"@[0]);
    assert("recognized_file"@[0] != "unrecognized_file"@[0]);
}

/// `n` saturated to `usize::MAX`.
pub open spec fn saturate(n: nat) -> nat {
    if n <= usize::MAX {
        n
    } else {
        usize::MAX as nat
    }
}

impl<'a> CellBuilder<'a> {
    /// The builder's theme and icons are well-formed.
    pub open spec fn wf(&self) -> bool {
        self.theme.wf() && self.icons.wf()
    }

    /// The cell built for `e`: `"<icon>  <name>"` (icon optional), both
    /// parts painted in the entry's color; its width is the name's width
    /// plus 4 for the icon and gap.
    pub open spec fn cell_text(&self, e: FileEntry) -> Seq<char> {
        let (glyph, key) = entry_style(*self.icons, e);
        let name = self.theme.paint_spec(key, e.name@, self.color_mode, *self.env);
        if self.show_icons {
            self.theme.paint_spec(key, seq![glyph], self.color_mode, *self.env) + "  "@ + name
        } else {
            name
        }
    }

    /// The width of the cell built for `e`.
    pub open spec fn cell_width(&self, e: FileEntry) -> nat {
        if self.show_icons {
            saturate(saturate(text_width(e.name@)) + 4)
        } else {
            saturate(text_width(e.name@))
        }
    }

    /// Builds the cell for `entry`.
    pub fn build(&self, entry: &FileEntry) -> (r: Cell)
        requires
            self.wf(),
        ensures
            r.text@ == self.cell_text(*entry),
            r.width == self.cell_width(*entry),
    {
        let name = entry.name_lossy();
        let (glyph, key) = self.resolve(entry);
        let mut visible_width = display_width(name);
        let mut text = String::new();
        if self.show_icons {
            let mut icon = String::new();
            push_char(&mut icon, glyph);
            push_str(&mut text, self.theme.paint(key.as_str(), icon.as_str(), self.color_mode, self.env).as_str());
            push_str(&mut text, "  ");
            visible_width = visible_width.saturating_add(4);
            proof {
                assert(icon@ =~= seq![glyph]);
            }
        }
        push_str(&mut text, self.theme.paint(key.as_str(), name, self.color_mode, self.env).as_str());
        proof {
            reveal_strlit("  ");
            assert(text@ =~= self.cell_text(*entry));
        }
        Cell { text, width: visible_width }
    }

    /// The glyph and theme key for `entry`.
    fn resolve(&self, entry: &FileEntry) -> (r: (char, String))
        requires
            self.wf(),
        ensures
            (r.0, r.1@) == entry_style(*self.icons, *entry),
    {
        let name = entry.name_lossy();
        let key = match entry.kind {
            EntryKind::Directory => {
                let r = self.icons.for_directory(name);
                return (r.glyph, crate::text::owned("dir"));
            },
            EntryKind::Symlink => {
                if entry.link_target.is_none() {
                    "dead_link"
                } else {
                    "link"
                }
            },
            EntryKind::Fifo | EntryKind::Socket => "socket",
            EntryKind::BlockDevice => "blockdev",
            EntryKind::CharDevice => "chardev",
            EntryKind::File => {
                let r = self.icons.for_file(name);
                let k = if entry.is_executable() {
                    "executable_file"
                } else if r.kind == IconKind::File {
                    "recognized_file"
                } else {
                    "unrecognized_file"
                };
                return (r.glyph, crate::text::owned(k));
            },
        };
        let r = self.icons.for_file(name);
        (r.glyph, crate::text::owned(key))
    }
}

/// Builds cells for many entries, in order.
pub fn build_cells(entries: &Vec<FileEntry>, builder: &CellBuilder<'_>) -> (r: Vec<Cell>)
    requires
        builder.wf(),
    ensures
        r@.len() == entries@.len(),
        forall|i: int|
            0 <= i < r@.len() ==> (#[trigger] r@[i]).text@ == builder.cell_text(entries@[i])
                && r@[i].width == builder.cell_width(entries@[i]),
{
    let mut out: Vec<Cell> = Vec::new();
    let mut i: usize = 0;
    while i < entries.len()
        invariant
            builder.wf(),
            i <= entries.len(),
            out@.len() == i,
            forall|j: int|
                0 <= j < i ==> (#[trigger] out@[j]).text@ == builder.cell_text(entries@[j])
                    && out@[j].width == builder.cell_width(entries@[j]),
        decreases entries.len() - i,
    {
        out.push(builder.build(&entries[i]));
        i = i + 1;
    }
    out
}

} // verus!
