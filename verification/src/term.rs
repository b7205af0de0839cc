//! What the process knows about its terminal: the environment variables and
//! the terminal check that decide whether color and hyperlinks are emitted.

use vstd::prelude::*;

verus! {

/// A snapshot of the color-related environment, read once at startup.
#[derive(Debug, Clone)]
pub struct TermEnv {
    /// `NO_COLOR`, if set.
    pub no_color: Option<String>,
    /// `CLICOLOR_FORCE`, if set.
    pub clicolor_force: Option<String>,
    /// `CLICOLOR`, if set.
    pub clicolor: Option<String>,
    /// `TERM`, if set.
    pub term: Option<String>,
    /// Whether standard output is a terminal.
    pub stdout_is_terminal: bool,
}

impl TermEnv {
    /// An environment with no variables set and no terminal attached.
    pub fn plain() -> (r: Self)
        ensures
            r.no_color is None,
            r.clicolor_force is None,
            r.clicolor is None,
            r.term is None,
            !r.stdout_is_terminal,
    {
        TermEnv {
            no_color: None,
            clicolor_force: None,
            clicolor: None,
            term: None,
            stdout_is_terminal: false,
        }
    }

    /// `TERM` is set to `dumb`.
    pub open spec fn term_is_dumb(&self) -> bool {
        self.term matches Some(t) && t@ == "dumb"@
    }

    /// Whether `TERM=dumb`.
    pub fn is_dumb_terminal(&self) -> (r: bool)
        ensures
            r == self.term_is_dumb(),
    {
        match &self.term {
            Some(t) => crate::text::str_eq(t.as_str(), "dumb"),
            None => false,
        }
    }
}

} // verus!
