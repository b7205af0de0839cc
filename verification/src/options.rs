//! Canonical run-time options resolved from command-line flags.
//!
//! `cli::Args` is the raw flag surface; `RunOptions` is what the rest of the
//! crate consumes.

use vstd::prelude::*;

use crate::config::theme::{ActiveTheme, ColorMode};
use crate::util::report::ReportKind;
use crate::util::time_fmt::TimeStyle;

verus! {

/// Everything a listing run needs to know.
#[derive(Debug, Clone)]
pub struct RunOptions {
    pub paths: Vec<String>,
    pub layout: LayoutMode,
    pub filter: Filter,
    pub sort: SortSpec,
    pub show_icons: bool,
    pub theme: ActiveTheme,
    pub color_mode: ColorMode,
    pub long: LongOptions,
    pub report: Option<ReportKind>,
    pub indicator: IndicatorStyle,
    pub git_status: bool,
    pub hyperlink: HyperlinkMode,
}

/// The key entries are ordered by.
#[derive(Debug, Clone, Copy, PartialEq, Eq, Structural)]
pub enum SortKey {
    Name,
    Size,
    Time,
    Extension,
    /// `-U`: do not sort; preserve directory order.
    Unsorted,
}

impl Default for SortKey {
    fn default() -> (r: Self)
        ensures
            r == SortKey::Name,
    {
        SortKey::Name
    }
}

/// Whether directories and files are grouped apart.
#[derive(Debug, Clone, Copy, PartialEq, Eq, Structural)]
pub enum Group {
    Mixed,
    DirsFirst,
    FilesFirst,
}

impl Default for Group {
    fn default() -> (r: Self)
        ensures
            r == Group::Mixed,
    {
        Group::Mixed
    }
}

/// Sort key, direction and grouping.
#[derive(Debug, Clone, Copy, PartialEq, Eq, Structural)]
pub struct SortSpec {
    pub key: SortKey,
    pub reverse: bool,
    pub group: Group,
}

impl Default for SortSpec {
    fn default() -> (r: Self)
        ensures
            r == (SortSpec { key: SortKey::Name, reverse: false, group: Group::Mixed }),
    {
        SortSpec { key: SortKey::Name, reverse: false, group: Group::Mixed }
    }
}

/// How entries are laid out.
#[derive(Debug, Clone, Copy, PartialEq, Eq, Structural)]
pub enum LayoutMode {
    /// Multi-column, fills top-to-bottom by column. Terminal default.
    Vertical,
    /// Multi-column, fills row-by-row.
    Horizontal,
    /// One entry per line. Default when stdout is not a terminal.
    OnePerLine,
    /// Long listing (`-l` / `--format=long`).
    Long,
    /// Recursive tree; `None` means unbounded depth.
    Tree { depth: Option<usize> },
}

/// Which entries are listed.
#[derive(Debug, Clone, Copy, PartialEq, Eq, Structural)]
pub struct Filter {
    /// `-a` / `--all`: show . and ..
    pub all: bool,
    /// `-A` / `--almost-all`: show dotfiles, hide . and ..
    pub almost_all: bool,
    /// `-d` / `--dirs`: only directories
    pub only_dirs: bool,
    /// `-f` / `--files`: only files
    pub only_files: bool,
}

impl Default for Filter {
    fn default() -> (r: Self)
        ensures
            !r.all && !r.almost_all && !r.only_dirs && !r.only_files,
    {
        Filter { all: false, almost_all: false, only_dirs: false, only_files: false }
    }
}

/// Columns of the long listing.
#[derive(Debug, Clone)]
pub struct LongOptions {
    pub time_style: TimeStyle,
    /// `-g` hides owner; `-G`/`--no-group` and `-o` hide group.
    pub show_owner: bool,
    pub show_group: bool,
    pub show_hardlinks: bool,
    pub show_inode: bool,
    pub human_readable: bool,
}

impl Default for LongOptions {
    fn default() -> (r: Self)
        ensures
            r.time_style is Asctime,
            r.show_owner,
            r.show_group,
            r.show_hardlinks,
            !r.show_inode,
            r.human_readable,
    {
        LongOptions {
            time_style: TimeStyle::Asctime,
            show_owner: true,
            show_group: true,
            show_hardlinks: true,
            show_inode: false,
            human_readable: true,
        }
    }
}

/// Trailing indicator after directory names.
#[derive(Debug, Clone, Copy, PartialEq, Eq, Structural)]
pub enum IndicatorStyle {
    /// No trailing indicator.
    NoIndicator,
    /// `/` after directories.
    Slash,
}

impl Default for IndicatorStyle {
    fn default() -> (r: Self)
        ensures
            r == IndicatorStyle::Slash,
    {
        IndicatorStyle::Slash
    }
}

/// When OSC-8 hyperlinks are emitted.
#[derive(Debug, Clone, Copy, PartialEq, Eq, Structural)]
pub enum HyperlinkMode {
    /// Flag absent.
    Off,
    Always,
    Auto,
    Never,
}

} // verus!
