//! One entry per line. Default for non-terminal stdout and `-1`.

use vstd::prelude::*;

use crate::render::cell::Cell;
use crate::text::{push_char, push_str};

verus! {

/// The first `k` cells, each followed by a newline.
pub open spec fn lines_of(cells: Seq<Cell>, k: int) -> Seq<char>
    decreases k,
{
    if k <= 0 {
        Seq::empty()
    } else {
        lines_of(cells, k - 1) + cells[k - 1].text@ + seq!['\n']
    }
}

/// Every cell's text on a line of its own.
pub fn render(cells: &Vec<Cell>) -> (r: String)
    ensures
        r@ == lines_of(cells@, cells@.len() as int),
{
    let mut out = String::new();
    let mut i: usize = 0;
    while i < cells.len()
        invariant
            i <= cells.len(),
            out@ == lines_of(cells@, i as int),
        decreases cells.len() - i,
    {
        push_str(&mut out, cells[i].text.as_str());
        push_char(&mut out, '\n');
        i = i + 1;
        assert(out@ =~= lines_of(cells@, i as int));
    }
    out
}

} // verus!
