//! Command-line flags and their resolution into `RunOptions`.
//!
//! `Args` holds the flags as parsed (the argument parser itself lives with
//! the program); `Args::resolve` turns them into the canonical options,
//! rejecting unknown words for `--sort`, `--report`, `--indicator-style` and
//! `--hyperlink`.

use vstd::prelude::*;

use crate::config::theme::{ActiveTheme, ColorMode};
use crate::options::{
    Filter, Group, HyperlinkMode, IndicatorStyle, LayoutMode, LongOptions, RunOptions, SortKey,
    SortSpec,
};
use crate::text::{owned, push_str, str_eq};
use crate::util::report::ReportKind;
use crate::util::time_fmt::TimeStyle;

verus! {

/// The flags as parsed from the command line.
#[derive(Debug, Clone)]
pub struct Args {
    /// Paths to list. Defaults to the current directory.
    pub paths: Vec<String>,
    /// `-a`: do not ignore entries starting with `.`
    pub all: bool,
    /// `-A`: do not list `.` and `..`
    pub almost_all: bool,
    /// `-d`: show only directories
    pub dirs: bool,
    /// `-f`: show only files
    pub files: bool,
    /// `-1`: one entry per line
    pub one_per_line: bool,
    /// `-x`: entries by lines
    pub horizontal: bool,
    /// `-C`: entries by columns
    pub vertical: bool,
    /// `--format`
    pub format: Option<FormatArg>,
    /// `--color`
    pub color: Option<ColorArg>,
    /// `--dark`
    pub dark: bool,
    /// `--light`
    pub light: bool,
    /// `--without-icons`
    pub without_icons: bool,
    /// `-l`: long listing
    pub long: bool,
    /// `-o`: long listing without group
    pub no_group_o: bool,
    /// `-g`: long listing without owner
    pub no_owner: bool,
    /// `-G` / `--no-group`
    pub no_group: bool,
    /// `--no-hardlinks`
    pub no_hardlinks: bool,
    /// `--non-human-readable`
    pub non_human_readable: bool,
    /// `-i` / `--inode`
    pub inode: bool,
    /// `--time-style`
    pub time_style: Option<String>,
    /// `--report` (bare flag = `short`)
    pub report: Option<String>,
    /// `-p`: append `/` to directories (the default style)
    pub indicator_p: bool,
    /// `--indicator-style` (bare flag = `slash`)
    pub indicator_style: Option<String>,
    /// `-h`: human-readable sizes (the default; accepted for compatibility)
    pub human: bool,
    /// `-t`
    pub sort_time: bool,
    /// `-U`
    pub sort_none: bool,
    /// `-S`
    pub sort_size: bool,
    /// `-X`
    pub sort_extension: bool,
    /// `--sort`
    pub sort: Option<String>,
    /// `-r` / `--reverse`
    pub reverse: bool,
    /// `--sd` / `--group-directories-first`
    pub sort_dirs: bool,
    /// `--sf`
    pub sort_files: bool,
    /// `--gs` / `--git-status`
    pub git_status: bool,
    /// `--tree[=DEPTH]` (bare flag = 0)
    pub tree: Option<usize>,
    /// `-L`
    pub follow_symlinks: bool,
    /// `--hyperlink` (bare flag = `always`)
    pub hyperlink: Option<String>,
}

impl Default for Args {
    /// No paths and no flags: what an empty command line parses to.
    fn default() -> (r: Self)
        ensures
            r.paths@.len() == 0,
            !r.all && !r.almost_all && !r.dirs && !r.files,
            !r.one_per_line && !r.horizontal && !r.vertical,
            r.format is None && r.color is None,
            !r.dark && !r.light && !r.without_icons,
            !r.long && !r.no_group_o && !r.no_owner && !r.no_group && !r.no_hardlinks,
            !r.non_human_readable && !r.inode,
            r.time_style is None && r.report is None,
            !r.indicator_p && r.indicator_style is None && !r.human,
            !r.sort_time && !r.sort_none && !r.sort_size && !r.sort_extension,
            r.sort is None,
            !r.reverse && !r.sort_dirs && !r.sort_files,
            !r.git_status && r.tree is None && !r.follow_symlinks && r.hyperlink is None,
    {
        Args {
            paths: Vec::new(),
            all: false,
            almost_all: false,
            dirs: false,
            files: false,
            one_per_line: false,
            horizontal: false,
            vertical: false,
            format: None,
            color: None,
            dark: false,
            light: false,
            without_icons: false,
            long: false,
            no_group_o: false,
            no_owner: false,
            no_group: false,
            no_hardlinks: false,
            non_human_readable: false,
            inode: false,
            time_style: None,
            report: None,
            indicator_p: false,
            indicator_style: None,
            human: false,
            sort_time: false,
            sort_none: false,
            sort_size: false,
            sort_extension: false,
            sort: None,
            reverse: false,
            sort_dirs: false,
            sort_files: false,
            git_status: false,
            tree: None,
            follow_symlinks: false,
            hyperlink: None,
        }
    }
}

/// `--format` values.
#[derive(Debug, Clone, Copy, PartialEq, Eq, Structural)]
pub enum FormatArg {
    Across,
    Horizontal,
    Long,
    SingleColumn,
    Vertical,
}

/// `--color` values.
#[derive(Debug, Clone, Copy, PartialEq, Eq, Structural)]
pub enum ColorArg {
    Always,
    Auto,
    Never,
}

/// A flag value that is not one of the accepted words.
#[derive(Debug, Clone, PartialEq, Eq)]
pub enum CliError {
    /// `--sort` got something other than name|size|time|extension|none.
    InvalidSort(String),
    /// `--report` got something other than short|long.
    InvalidReport(String),
    /// `--indicator-style` got something other than none|slash.
    InvalidIndicatorStyle(String),
    /// `--hyperlink` got something other than always|auto|never.
    InvalidHyperlink(String),
    /// Two flags that exclude each other were both given.
    Conflict { first: String, second: String },
}

impl CliError {
    /// What the error says.
    pub open spec fn message_spec(&self) -> Seq<char> {
        match self {
            CliError::InvalidSort(w) => "--sort: expected name|size|time|extension|none, got `"@
                + w@ + "`"@,
            CliError::InvalidReport(w) => "--report: expected `short` or `long`, got `"@ + w@
                + "`"@,
            CliError::InvalidIndicatorStyle(w) =>
                "--indicator-style: expected `none` or `slash`, got `"@ + w@ + "`"@,
            CliError::InvalidHyperlink(w) => "--hyperlink: expected always|auto|never, got `"@
                + w@ + "`"@,
            CliError::Conflict { first, second } => "the argument `"@ + first@
                + "` cannot be used with `"@ + second@ + "`"@,
        }
    }

    /// Human-readable description of the error.
    pub fn message(&self) -> (r: String)
        ensures
            r@ == self.message_spec(),
    {
        let (prefix, w, suffix) = match self {
            CliError::InvalidSort(w) => ("--sort: expected name|size|time|extension|none, got `", w, None),
            CliError::InvalidReport(w) => ("--report: expected `short` or `long`, got `", w, None),
            CliError::InvalidIndicatorStyle(w) => (
                "--indicator-style: expected `none` or `slash`, got `",
                w,
                None,
            ),
            CliError::InvalidHyperlink(w) => ("--hyperlink: expected always|auto|never, got `", w, None),
            CliError::Conflict { first, second } => ("the argument `", first, Some(second)),
        };
        let mut s = owned(prefix);
        push_str(&mut s, w.as_str());
        if let Some(second) = suffix {
            push_str(&mut s, "` cannot be used with `");
            push_str(&mut s, second.as_str());
        }
        push_str(&mut s, "`");
        s
    }
}

/// The first pair of flags given together that exclude each other: the
/// layout flags `-1`, `-x`, `-C`, `--format` and `-l` pairwise, `--dark`
/// with `--light`, the sort flags `-t`, `-U`, `-S`, `-X` and `--sort`
/// pairwise, and `--sd` with `--sf`.
pub open spec fn conflict_of(a: Args) -> Option<(Seq<char>, Seq<char>)> {
    let format = a.format is Some;
    let sort = a.sort is Some;
    if a.one_per_line && a.horizontal {
        Some(("-1"@, "-x"@))
    } else if a.one_per_line && a.vertical {
        Some(("-1"@, "-C"@))
    } else if a.one_per_line && format {
        Some(("-1"@, "--format"@))
    } else if a.horizontal && a.vertical {
        Some(("-x"@, "-C"@))
    } else if a.horizontal && format {
        Some(("-x"@, "--format"@))
    } else if a.vertical && format {
        Some(("-C"@, "--format"@))
    } else if a.long && a.one_per_line {
        Some(("-l"@, "-1"@))
    } else if a.long && a.horizontal {
        Some(("-l"@, "-x"@))
    } else if a.long && a.vertical {
        Some(("-l"@, "-C"@))
    } else if a.long && format {
        Some(("-l"@, "--format"@))
    } else if a.dark && a.light {
        Some(("--dark"@, "--light"@))
    } else if a.sort_time && a.sort_none {
        Some(("-t"@, "-U"@))
    } else if a.sort_time && a.sort_size {
        Some(("-t"@, "-S"@))
    } else if a.sort_time && a.sort_extension {
        Some(("-t"@, "-X"@))
    } else if a.sort_time && sort {
        Some(("-t"@, "--sort"@))
    } else if a.sort_none && a.sort_size {
        Some(("-U"@, "-S"@))
    } else if a.sort_none && a.sort_extension {
        Some(("-U"@, "-X"@))
    } else if a.sort_none && sort {
        Some(("-U"@, "--sort"@))
    } else if a.sort_size && a.sort_extension {
        Some(("-S"@, "-X"@))
    } else if a.sort_size && sort {
        Some(("-S"@, "--sort"@))
    } else if a.sort_extension && sort {
        Some(("-X"@, "--sort"@))
    } else if a.sort_dirs && a.sort_files {
        Some(("--sd"@, "--sf"@))
    } else {
        None
    }
}

/// The sort key a `--sort` word names.
pub open spec fn sort_word(w: Seq<char>) -> Option<SortKey> {
    if w == "name"@ {
        Some(SortKey::Name)
    } else if w == "size"@ {
        Some(SortKey::Size)
    } else if w == "time"@ {
        Some(SortKey::Time)
    } else if w == "extension"@ {
        Some(SortKey::Extension)
    } else if w == "none"@ {
        Some(SortKey::Unsorted)
    } else {
        None
    }
}

/// The sort key the flags select (`None` for an unknown `--sort` word):
/// `-t`, `-S`, `-X`, `-U` take precedence over `--sort`; name by default.
pub open spec fn sort_key_of(a: Args) -> Option<SortKey> {
    if a.sort_time {
        Some(SortKey::Time)
    } else if a.sort_size {
        Some(SortKey::Size)
    } else if a.sort_extension {
        Some(SortKey::Extension)
    } else if a.sort_none {
        Some(SortKey::Unsorted)
    } else {
        match a.sort {
            Some(w) => sort_word(w@),
            None => Some(SortKey::Name),
        }
    }
}

/// The grouping the flags select.
pub open spec fn group_of(a: Args) -> Group {
    if a.sort_dirs {
        Group::DirsFirst
    } else if a.sort_files {
        Group::FilesFirst
    } else {
        Group::Mixed
    }
}

/// The layout the flags select; without a layout flag, vertical on a
/// terminal and one per line otherwise.
pub open spec fn layout_of(a: Args, stdout_is_terminal: bool) -> LayoutMode {
    if a.tree is Some {
        LayoutMode::Tree {
            depth: if a.tree->0 == 0 {
                None
            } else {
                Some(a.tree->0)
            },
        }
    } else if a.long {
        LayoutMode::Long
    } else if a.one_per_line {
        LayoutMode::OnePerLine
    } else if a.horizontal {
        LayoutMode::Horizontal
    } else if a.vertical {
        LayoutMode::Vertical
    } else if a.format is Some {
        match a.format->0 {
            FormatArg::Across | FormatArg::Horizontal => LayoutMode::Horizontal,
            FormatArg::Vertical => LayoutMode::Vertical,
            FormatArg::SingleColumn => LayoutMode::OnePerLine,
            FormatArg::Long => LayoutMode::Long,
        }
    } else if stdout_is_terminal {
        LayoutMode::Vertical
    } else {
        LayoutMode::OnePerLine
    }
}

/// The report a `--report` value selects: `Some(None)` when absent, `None`
/// for an unknown word.
pub open spec fn report_of(v: Option<String>) -> Option<Option<ReportKind>> {
    match v {
        None => Some(None),
        Some(w) => if w@ == "short"@ {
            Some(Some(ReportKind::Short))
        } else if w@ == "long"@ {
            Some(Some(ReportKind::Long))
        } else {
            None
        },
    }
}

/// The indicator style an `--indicator-style` value selects (slash when
/// absent), `None` for an unknown word.
pub open spec fn indicator_of(v: Option<String>) -> Option<IndicatorStyle> {
    match v {
        None => Some(IndicatorStyle::Slash),
        Some(w) => if w@ == "slash"@ {
            Some(IndicatorStyle::Slash)
        } else if w@ == "none"@ {
            Some(IndicatorStyle::NoIndicator)
        } else {
            None
        },
    }
}

/// The hyperlink mode a `--hyperlink` value selects (off when absent),
/// `None` for an unknown word.
pub open spec fn hyperlink_of(v: Option<String>) -> Option<HyperlinkMode> {
    match v {
        None => Some(HyperlinkMode::Off),
        Some(w) => if w@ == "always"@ {
            Some(HyperlinkMode::Always)
        } else if w@ == "auto"@ {
            Some(HyperlinkMode::Auto)
        } else if w@ == "never"@ {
            Some(HyperlinkMode::Never)
        } else {
            None
        },
    }
}

/// The color mode a `--color` value selects (auto when absent).
pub open spec fn color_mode_of(c: Option<ColorArg>) -> ColorMode {
    match c {
        None => ColorMode::Auto,
        Some(ColorArg::Auto) => ColorMode::Auto,
        Some(ColorArg::Always) => ColorMode::Always,
        Some(ColorArg::Never) => ColorMode::Never,
    }
}

/// `ts` is what `--time-style` selects: a custom pattern for a value
/// starting with `+` (the rest of the value), asctime otherwise.
pub open spec fn time_style_for(ts: TimeStyle, v: Option<String>) -> bool {
    if v matches Some(w) && w@.len() > 0 && w@[0] == '+' {
        ts matches TimeStyle::Custom(f) && f@ == v->0@.drop_first()
    } else {
        ts is Asctime
    }
}

/// The word carried by an error (the first flag, for a conflict).
pub open spec fn error_word(e: CliError) -> Seq<char> {
    match e {
        CliError::InvalidSort(w) => w@,
        CliError::InvalidReport(w) => w@,
        CliError::InvalidIndicatorStyle(w) => w@,
        CliError::InvalidHyperlink(w) => w@,
        CliError::Conflict { first, .. } => first@,
    }
}

impl Args {
    /// Refuses flags that exclude each other, naming the first such pair.
    pub fn check_conflicts(&self) -> (r: Result<(), CliError>)
        ensures
            r is Ok <==> conflict_of(*self) is None,
            r matches Err(e) ==> (e matches CliError::Conflict { first, second } && conflict_of(
                *self,
            ) == Some((first@, second@))),
    {
        let format = self.format.is_some();
        let sort = self.sort.is_some();
        let pair: Option<(&'static str, &'static str)> = if self.one_per_line && self.horizontal {
            Some(("-1", "-x"))
        } else if self.one_per_line && self.vertical {
            Some(("-1", "-C"))
        } else if self.one_per_line && format {
            Some(("-1", "--format"))
        } else if self.horizontal && self.vertical {
            Some(("-x", "-C"))
        } else if self.horizontal && format {
            Some(("-x", "--format"))
        } else if self.vertical && format {
            Some(("-C", "--format"))
        } else if self.long && self.one_per_line {
            Some(("-l", "-1"))
        } else if self.long && self.horizontal {
            Some(("-l", "-x"))
        } else if self.long && self.vertical {
            Some(("-l", "-C"))
        } else if self.long && format {
            Some(("-l", "--format"))
        } else if self.dark && self.light {
            Some(("--dark", "--light"))
        } else if self.sort_time && self.sort_none {
            Some(("-t", "-U"))
        } else if self.sort_time && self.sort_size {
            Some(("-t", "-S"))
        } else if self.sort_time && self.sort_extension {
            Some(("-t", "-X"))
        } else if self.sort_time && sort {
            Some(("-t", "--sort"))
        } else if self.sort_none && self.sort_size {
            Some(("-U", "-S"))
        } else if self.sort_none && self.sort_extension {
            Some(("-U", "-X"))
        } else if self.sort_none && sort {
            Some(("-U", "--sort"))
        } else if self.sort_size && self.sort_extension {
            Some(("-S", "-X"))
        } else if self.sort_size && sort {
            Some(("-S", "--sort"))
        } else if self.sort_extension && sort {
            Some(("-X", "--sort"))
        } else if self.sort_dirs && self.sort_files {
            Some(("--sd", "--sf"))
        } else {
            None
        };
        match pair {
            Some((first, second)) => Err(CliError::Conflict { first: owned(first), second: owned(second) }),
            None => Ok(()),
        }
    }

    /// Resolve the flags into the canonical `RunOptions`. The first unknown
    /// word, in the order `--sort`, `--report`, `--indicator-style`,
    /// `--hyperlink`, is reported.
    pub fn resolve(self, stdout_is_terminal: bool) -> (r: Result<RunOptions, CliError>)
        ensures
            r is Ok <==> sort_key_of(self) is Some && report_of(self.report) is Some
                && indicator_of(self.indicator_style) is Some && hyperlink_of(self.hyperlink) is Some,
            r matches Err(e) ==> {
                if sort_key_of(self) is None {
                    e is InvalidSort && error_word(e) == self.sort->0@
                } else if report_of(self.report) is None {
                    e is InvalidReport && error_word(e) == self.report->0@
                } else if indicator_of(self.indicator_style) is None {
                    e is InvalidIndicatorStyle && error_word(e) == self.indicator_style->0@
                } else {
                    e is InvalidHyperlink && error_word(e) == self.hyperlink->0@
                }
            },
            r matches Ok(o) ==> {
                &&& self.paths@.len() == 0 ==> o.paths@.len() == 1 && o.paths@[0]@ == "."@
                &&& self.paths@.len() > 0 ==> o.paths@ == self.paths@
                &&& o.layout == layout_of(self, stdout_is_terminal)
                &&& o.filter == (Filter {
                    all: self.all,
                    almost_all: self.almost_all,
                    only_dirs: self.dirs,
                    only_files: self.files,
                })
                &&& o.sort == (SortSpec {
                    key: sort_key_of(self)->0,
                    reverse: self.reverse,
                    group: group_of(self),
                })
                &&& o.show_icons == !self.without_icons
                &&& o.theme == (if self.light {
                    ActiveTheme::Light
                } else {
                    ActiveTheme::Dark
                })
                &&& o.color_mode == color_mode_of(self.color)
                &&& time_style_for(o.long.time_style, self.time_style)
                &&& o.long.show_owner == !self.no_owner
                &&& o.long.show_group == !(self.no_group || self.no_group_o)
                &&& o.long.show_hardlinks == !self.no_hardlinks
                &&& o.long.show_inode == self.inode
                &&& o.long.human_readable == !self.non_human_readable
                &&& o.report == report_of(self.report)->0
                &&& o.indicator == indicator_of(self.indicator_style)->0
                &&& o.git_status == self.git_status
                &&& o.hyperlink == hyperlink_of(self.hyperlink)->0
            },
    {
        let layout = resolve_layout(&self, stdout_is_terminal);
        let theme = if self.light {
            ActiveTheme::Light
        } else {
            ActiveTheme::Dark
        };
        let color_mode = match self.color {
            None => ColorMode::Auto,
            Some(ColorArg::Auto) => ColorMode::Auto,
            Some(ColorArg::Always) => ColorMode::Always,
            Some(ColorArg::Never) => ColorMode::Never,
        };
        let sort = resolve_sort(&self)?;
        let time_style = match &self.time_style {
            Some(t) => TimeStyle::parse(t.as_str()),
            None => TimeStyle::Asctime,
        };
        let long = LongOptions {
            time_style,
            show_owner: !self.no_owner,
            show_group: !(self.no_group || self.no_group_o),
            show_hardlinks: !self.no_hardlinks,
            show_inode: self.inode,
            human_readable: !self.non_human_readable,
        };
        proof {
            reveal_strlit("short");
            reveal_strlit("long");
            reveal_strlit("slash");
            reveal_strlit("none");
            reveal_strlit("always");
            reveal_strlit("auto");
            reveal_strlit("never");
        }
        let report = match &self.report {
            None => None,
            Some(w) => {
                if str_eq(w.as_str(), "short") {
                    Some(ReportKind::Short)
                } else if str_eq(w.as_str(), "long") {
                    Some(ReportKind::Long)
                } else {
                    return Err(CliError::InvalidReport(w.clone()));
                }
            },
        };
        // `-p` is an alias for the default `slash` style.
        let indicator = match &self.indicator_style {
            None => IndicatorStyle::Slash,
            Some(w) => {
                if str_eq(w.as_str(), "slash") {
                    IndicatorStyle::Slash
                } else if str_eq(w.as_str(), "none") {
                    IndicatorStyle::NoIndicator
                } else {
                    return Err(CliError::InvalidIndicatorStyle(w.clone()));
                }
            },
        };
        let hyperlink = match &self.hyperlink {
            None => HyperlinkMode::Off,
            Some(w) => {
                if str_eq(w.as_str(), "always") {
                    HyperlinkMode::Always
                } else if str_eq(w.as_str(), "auto") {
                    HyperlinkMode::Auto
                } else if str_eq(w.as_str(), "never") {
                    HyperlinkMode::Never
                } else {
                    return Err(CliError::InvalidHyperlink(w.clone()));
                }
            },
        };
        let filter = Filter {
            all: self.all,
            almost_all: self.almost_all,
            only_dirs: self.dirs,
            only_files: self.files,
        };
        let show_icons = !self.without_icons;
        let git_status = self.git_status;
        let paths = if self.paths.len() == 0 {
            let mut v: Vec<String> = Vec::new();
            v.push(owned("."));
            proof {
                reveal_strlit(".");
            }
            v
        } else {
            self.paths
        };
        Ok(RunOptions {
            paths,
            layout,
            filter,
            sort,
            show_icons,
            theme,
            color_mode,
            long,
            report,
            indicator,
            git_status,
            hyperlink,
        })
    }
}

/// The sort key, direction and grouping the flags select.
pub fn resolve_sort(a: &Args) -> (r: Result<SortSpec, CliError>)
    ensures
        r is Ok <==> sort_key_of(*a) is Some,
        r matches Ok(s) ==> s == (SortSpec {
            key: sort_key_of(*a)->0,
            reverse: a.reverse,
            group: group_of(*a),
        }),
        r matches Err(e) ==> e is InvalidSort && error_word(e) == a.sort->0@,
{
    proof {
        reveal_strlit("name");
        reveal_strlit("size");
        reveal_strlit("time");
        reveal_strlit("extension");
        reveal_strlit("none");
    }
    let key = if a.sort_time {
        SortKey::Time
    } else if a.sort_size {
        SortKey::Size
    } else if a.sort_extension {
        SortKey::Extension
    } else if a.sort_none {
        SortKey::Unsorted
    } else {
        match &a.sort {
            Some(s) => {
                if str_eq(s.as_str(), "name") {
                    SortKey::Name
                } else if str_eq(s.as_str(), "size") {
                    SortKey::Size
                } else if str_eq(s.as_str(), "time") {
                    SortKey::Time
                } else if str_eq(s.as_str(), "extension") {
                    SortKey::Extension
                } else if str_eq(s.as_str(), "none") {
                    SortKey::Unsorted
                } else {
                    return Err(CliError::InvalidSort(s.clone()));
                }
            },
            None => SortKey::Name,
        }
    };
    let group = if a.sort_dirs {
        Group::DirsFirst
    } else if a.sort_files {
        Group::FilesFirst
    } else {
        Group::Mixed
    };
    Ok(SortSpec { key, reverse: a.reverse, group })
}

/// The layout the flags select; `--tree` (bare, recorded as depth 0) means
/// unbounded depth.
pub fn resolve_layout(a: &Args, stdout_is_terminal: bool) -> (r: LayoutMode)
    ensures
        r == layout_of(*a, stdout_is_terminal),
{
    if let Some(d) = a.tree {
        let depth = if d == 0 {
            None
        } else {
            Some(d)
        };
        return LayoutMode::Tree { depth };
    }
    if a.long {
        return LayoutMode::Long;
    }
    if a.one_per_line {
        return LayoutMode::OnePerLine;
    }
    if a.horizontal {
        return LayoutMode::Horizontal;
    }
    if a.vertical {
        return LayoutMode::Vertical;
    }
    if let Some(fmt) = a.format {
        return match fmt {
            FormatArg::Across | FormatArg::Horizontal => LayoutMode::Horizontal,
            FormatArg::Vertical => LayoutMode::Vertical,
            FormatArg::SingleColumn => LayoutMode::OnePerLine,
            FormatArg::Long => LayoutMode::Long,
        };
    }
    if stdout_is_terminal {
        LayoutMode::Vertical
    } else {
        LayoutMode::OnePerLine
    }
}

/// Each sort option selects the key it names: `-t` modification time, `-S`
/// size, `-X` extension, `-U` directory order; `--sort WORD` the key the
/// word names (`name`, `size`, `time`, `extension`, `none`), any other word
/// being refused; name when none of them is given. `--sd` and `--sf` put
/// directories or files first, and otherwise entries stay mixed.
pub proof fn lemma_sort_options_select_their_key(a: Args)
    ensures
        a.sort_time && !a.sort_size && !a.sort_extension && !a.sort_none ==> sort_key_of(a)
            == Some(SortKey::Time),
        !a.sort_time && a.sort_size && !a.sort_extension && !a.sort_none ==> sort_key_of(a)
            == Some(SortKey::Size),
        !a.sort_time && !a.sort_size && a.sort_extension && !a.sort_none ==> sort_key_of(a)
            == Some(SortKey::Extension),
        !a.sort_time && !a.sort_size && !a.sort_extension && a.sort_none ==> sort_key_of(a)
            == Some(SortKey::Unsorted),
        !a.sort_time && !a.sort_size && !a.sort_extension && !a.sort_none ==> {
            &&& a.sort is None ==> sort_key_of(a) == Some(SortKey::Name)
            &&& a.sort matches Some(w) ==> {
                &&& w@ == "name"@ ==> sort_key_of(a) == Some(SortKey::Name)
                &&& w@ == "size"@ ==> sort_key_of(a) == Some(SortKey::Size)
                &&& w@ == "time"@ ==> sort_key_of(a) == Some(SortKey::Time)
                &&& w@ == "extension"@ ==> sort_key_of(a) == Some(SortKey::Extension)
                &&& w@ == "none"@ ==> sort_key_of(a) == Some(SortKey::Unsorted)
                &&& (w@ != "name"@ && w@ != "size"@ && w@ != "time"@ && w@ != "extension"@
                    && w@ != "none"@) ==> sort_key_of(a) is None
            }
        },
        a.sort_dirs && !a.sort_files ==> group_of(a) == Group::DirsFirst,
        !a.sort_dirs && a.sort_files ==> group_of(a) == Group::FilesFirst,
        !a.sort_dirs && !a.sort_files ==> group_of(a) == Group::Mixed,
{
    reveal_strlit("name");
    reveal_strlit("size");
    reveal_strlit("time");
    reveal_strlit("extension");
    reveal_strlit("none");
    assert("name"@[0] != "size"@[0] && "name"@[0] != "time"@[0] && "name"@[0] != "extension"@[0]);
    assert("name"@[1] != "none"@[1]);
    assert("size"@[0] != "time"@[0] && "size"@[0] != "extension"@[0] && "size"@[0] != "none"@[0]);
    assert("time"@[0] != "extension"@[0] && "time"@[0] != "none"@[0]);
    assert("extension"@[0] != "none"@[0]);
}

} // verus!
