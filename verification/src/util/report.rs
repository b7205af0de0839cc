//! `--report` summary counter.
//!
//! Tallies folder/recognized-file/unrecognized-file counts during rendering
//! and produces either the short or long colorls report block.

use vstd::prelude::*;

use crate::config::icons::IconKind;
use crate::text::{decimal, decimal_string, owned, push_str};

verus! {

/// Which report block is printed.
#[derive(Debug, Clone, Copy, PartialEq, Eq, Structural)]
pub enum ReportKind {
    Short,
    Long,
}

/// Running totals of listed entries by icon kind.
#[derive(Debug, Clone, Copy, PartialEq, Eq, Structural)]
pub struct ReportCounts {
    pub folders: u64,
    pub recognized_files: u64,
    pub unrecognized_files: u64,
}

impl Default for ReportCounts {
    fn default() -> (r: Self)
        ensures
            r.folders == 0 && r.recognized_files == 0 && r.unrecognized_files == 0,
    {
        ReportCounts { folders: 0, recognized_files: 0, unrecognized_files: 0 }
    }
}

/// The short report for the given totals.
pub open spec fn short_report(folders: nat, files: nat) -> Seq<char> {
    "\n    Folders: "@ + decimal(folders) + ", Files: "@ + decimal(files) + ".\n"@
}

/// The long report for the given totals.
pub open spec fn long_report(folders: nat, recognized: nat, unrecognized: nat) -> Seq<char> {
    "\n      Found "@ + decimal(folders + recognized + unrecognized) + " items in total.\n\n"@
        + "\tFolders\t\t\t: "@ + decimal(folders) + "\n"@ + "\tRecognized files\t: "@
        + decimal(recognized) + "\n"@ + "\tUnrecognized files\t: "@ + decimal(unrecognized)
        + "\n"@
}

impl ReportCounts {
    /// Counts one entry of the given icon kind.
    pub fn record(&mut self, kind: IconKind)
        requires
            (kind is Folder || kind is DefaultFolder) ==> old(self).folders < u64::MAX,
            kind is File ==> old(self).recognized_files < u64::MAX,
            kind is DefaultFile ==> old(self).unrecognized_files < u64::MAX,
        ensures
            final(self).folders == old(self).folders + if kind is Folder || kind is DefaultFolder {
                1int
            } else {
                0int
            },
            final(self).recognized_files == old(self).recognized_files + if kind is File {
                1int
            } else {
                0int
            },
            final(self).unrecognized_files == old(self).unrecognized_files + if kind is DefaultFile {
                1int
            } else {
                0int
            },
    {
        match kind {
            IconKind::Folder | IconKind::DefaultFolder => self.folders = self.folders + 1,
            IconKind::File => self.recognized_files = self.recognized_files + 1,
            IconKind::DefaultFile => self.unrecognized_files = self.unrecognized_files + 1,
        }
    }

    /// The report block of the requested kind.
    pub fn render(&self, kind: ReportKind) -> (r: String)
        requires
            self.folders + self.recognized_files + self.unrecognized_files <= u64::MAX,
        ensures
            kind is Short ==> r@ == short_report(
                self.folders as nat,
                (self.recognized_files + self.unrecognized_files) as nat,
            ),
            kind is Long ==> r@ == long_report(
                self.folders as nat,
                self.recognized_files as nat,
                self.unrecognized_files as nat,
            ),
    {
        match kind {
            ReportKind::Short => {
                let mut s = owned("\n    Folders: ");
                push_str(&mut s, decimal_string(self.folders).as_str());
                push_str(&mut s, ", Files: ");
                push_str(
                    &mut s,
                    decimal_string(self.recognized_files + self.unrecognized_files).as_str(),
                );
                push_str(&mut s, ".\n");
                s
            },
            ReportKind::Long => {
                let mut s = owned("\n      Found ");
                push_str(
                    &mut s,
                    decimal_string(
                        self.folders + self.recognized_files + self.unrecognized_files,
                    ).as_str(),
                );
                push_str(&mut s, " items in total.\n\n");
                push_str(&mut s, "\tFolders\t\t\t: ");
                push_str(&mut s, decimal_string(self.folders).as_str());
                push_str(&mut s, "\n");
                push_str(&mut s, "\tRecognized files\t: ");
                push_str(&mut s, decimal_string(self.recognized_files).as_str());
                push_str(&mut s, "\n");
                push_str(&mut s, "\tUnrecognized files\t: ");
                push_str(&mut s, decimal_string(self.unrecognized_files).as_str());
                push_str(&mut s, "\n");
                s
            },
        }
    }
}

} // verus!
