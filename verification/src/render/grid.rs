//! Grid layouts: vertical (top-to-bottom) and horizontal (left-to-right).
//!
//! Following colorls's layout: the largest column count whose summed
//! per-column widths fit `screen_width`, one column when none fits. Every
//! cell is two columns wider than its text (the gap between columns).

use vstd::prelude::*;

use crate::render::cell::Cell;
use crate::text::{push_char, push_spaces, push_str, spaces};

verus! {

/// Which way cells fill the grid.
#[derive(Debug, Clone, Copy, PartialEq, Eq, Structural)]
pub enum GridKind {
    Vertical,
    Horizontal,
}

/// Gap between columns.
pub const COLUMN_GAP: usize = 2;

/// `a / b` rounded up.
pub open spec fn ceil_div(a: nat, b: nat) -> nat {
    if b == 0 {
        0
    } else {
        a / b + if a % b != 0 {
            1nat
        } else {
            0nat
        }
    }
}

/// Largest `w[j]` with `j < upto` and `j % mid == i`; 0 when none.
pub open spec fn residue_max(w: Seq<usize>, mid: nat, i: int, upto: int) -> usize
    decreases upto,
{
    if upto <= 0 || mid == 0 {
        0
    } else {
        let m = residue_max(w, mid, i, upto - 1);
        if (upto - 1) % (mid as int) == i && w[upto - 1] > m {
            w[upto - 1]
        } else {
            m
        }
    }
}

/// Largest of `w[lo..hi]`; 0 when empty.
pub open spec fn range_max(w: Seq<usize>, lo: int, hi: int) -> usize
    decreases hi - lo,
{
    if hi <= lo {
        0
    } else {
        let m = range_max(w, lo, hi - 1);
        if w[hi - 1] > m {
            w[hi - 1]
        } else {
            m
        }
    }
}

/// Horizontal layout with `mid` cells per row: per column, the widest
/// cell in it.
pub open spec fn widths_horizontal(w: Seq<usize>, mid: nat) -> (nat, Seq<usize>) {
    let m = if mid == 0 {
        1nat
    } else {
        mid
    };
    (m, Seq::new(m, |i: int| residue_max(w, m, i, w.len() as int)))
}

/// Vertical layout for `mid` candidate columns: rows per column, and per
/// column the widest cell among its `rows` consecutive cells.
pub open spec fn widths_vertical(w: Seq<usize>, mid: nat) -> (nat, Seq<usize>) {
    let m = if mid == 0 {
        1nat
    } else {
        mid
    };
    let rows = ceil_div(w.len(), m);
    (rows, Seq::new(ceil_div(w.len(), rows), |c: int| vertical_column(w, rows, c)))
}

/// Width of column `c` of a vertical layout with `rows` rows: the widest of
/// cells `c * rows .. (c + 1) * rows`.
pub open spec fn vertical_column(w: Seq<usize>, rows: nat, c: int) -> usize {
    range_max(
        w,
        c * rows,
        if c * rows + rows <= w.len() {
            c * rows + rows
        } else {
            w.len() as int
        },
    )
}

/// Column layout for a candidate count `mid`.
pub open spec fn widths_for(w: Seq<usize>, mid: nat, kind: GridKind) -> (nat, Seq<usize>) {
    match kind {
        GridKind::Horizontal => widths_horizontal(w, mid),
        GridKind::Vertical => widths_vertical(w, mid),
    }
}

/// Sum of a sequence.
pub open spec fn total(s: Seq<usize>) -> int
    decreases s.len(),
{
    if s.len() == 0 {
        0
    } else {
        total(s.drop_last()) + s.last()
    }
}

/// Whether the layout for `k` candidate columns fits `screen`.
pub open spec fn fits(w: Seq<usize>, screen: nat, kind: GridKind, k: nat) -> bool {
    total(widths_for(w, k, kind).1) <= screen
}

/// The largest candidate count in `1..=k` whose layout fits, 1 when none
/// does.
pub open spec fn largest_fitting(w: Seq<usize>, screen: nat, kind: GridKind, k: nat) -> nat
    decreases k,
{
    if k <= 1 {
        1
    } else if fits(w, screen, kind, k) {
        k
    } else {
        largest_fitting(w, screen, kind, (k - 1) as nat)
    }
}

/// Smallest element of a non-empty sequence.
pub open spec fn seq_min(w: Seq<usize>) -> usize
    decreases w.len(),
{
    if w.len() <= 1 {
        w[0]
    } else {
        let m = seq_min(w.drop_last());
        if w.last() < m {
            w.last()
        } else {
            m
        }
    }
}

/// The most candidate columns worth trying: as many as the narrowest cell
/// allows on the screen, at least one and at most one per cell.
pub open spec fn max_columns(w: Seq<usize>, screen: nat) -> nat {
    let mw = if seq_min(w) == 0 {
        1nat
    } else {
        seq_min(w) as nat
    };
    let q = screen / mw;
    if q == 0 {
        1
    } else if q <= w.len() {
        q
    } else {
        w.len()
    }
}

/// The configuration a grid settles on: the layout for the largest
/// candidate count up to `max_columns` whose summed widths fit, one column
/// when none fits.
pub open spec fn fit(w: Seq<usize>, screen: nat, kind: GridKind) -> (nat, Seq<usize>) {
    if w.len() == 0 {
        (0, Seq::empty())
    } else {
        widths_for(w, largest_fitting(w, screen, kind, max_columns(w, screen)), kind)
    }
}

/// `largest_fitting` is the largest count in `1..=k` that fits: every
/// larger count up to `k` does not, and it fits unless it is 1.
proof fn lemma_largest_fitting(w: Seq<usize>, screen: nat, kind: GridKind, k: nat)
    requires
        k >= 1,
    ensures
        1 <= largest_fitting(w, screen, kind, k) <= k,
        largest_fitting(w, screen, kind, k) > 1 ==> fits(
            w,
            screen,
            kind,
            largest_fitting(w, screen, kind, k),
        ),
        forall|j: nat|
            largest_fitting(w, screen, kind, k) < j <= k ==> !#[trigger] fits(w, screen, kind, j),
    decreases k,
{
    if k > 1 && !fits(w, screen, kind, k) {
        lemma_largest_fitting(w, screen, kind, (k - 1) as nat);
    }
}

/// The layout a grid settles on fits the screen whenever it has more than
/// one candidate column, and no larger candidate count up to `max_columns`
/// fits: it is the largest count whose summed widths fit, or one column
/// when none does.
pub proof fn lemma_fit_is_largest_fitting(w: Seq<usize>, screen: nat, kind: GridKind)
    requires
        w.len() > 0,
    ensures
        ({
            let best = largest_fitting(w, screen, kind, max_columns(w, screen));
            &&& fit(w, screen, kind) == widths_for(w, best, kind)
            &&& 1 <= best <= max_columns(w, screen)
            &&& best > 1 ==> total(fit(w, screen, kind).1) <= screen
            &&& forall|j: nat|
                best < j <= max_columns(w, screen) ==> !#[trigger] fits(w, screen, kind, j)
        }),
{
    lemma_largest_fitting(w, screen, kind, max_columns(w, screen));
}

/// Padding after a cell of width `width` in a column of width `col`.
pub open spec fn pad(col: usize, width: usize) -> nat {
    if col > width {
        (col - width) as nat
    } else {
        0
    }
}

/// The first `k` items of a horizontal row of `len` cells starting at
/// `start`: each cell's text, then padding up to its column width unless it
/// ends the row.
pub open spec fn row_items(cells: Seq<Cell>, cw: Seq<usize>, start: int, len: int, k: int) -> Seq<
    char,
>
    decreases k,
{
    if k <= 0 {
        Seq::empty()
    } else {
        row_items(cells, cw, start, len, k - 1) + cells[start + k - 1].text@ + if k < len {
            spaces(pad(cw[k - 1], cells[start + k - 1].width))
        } else {
            Seq::empty()
        }
    }
}

/// The first `r` lines of the horizontal layout with `cols` cells per row.
pub open spec fn horizontal_lines(cells: Seq<Cell>, cols: nat, cw: Seq<usize>, r: int) -> Seq<char>
    decreases r,
{
    if r <= 0 {
        Seq::empty()
    } else {
        let start = (r - 1) * cols;
        let len = if start + cols <= cells.len() {
            cols as int
        } else {
            cells.len() - start
        };
        horizontal_lines(cells, cols, cw, r - 1) + row_items(cells, cw, start, len, len) + seq![
            '\n',
        ]
    }
}

/// The first `c` columns of line `r` of the vertical layout with `rows`
/// rows: cell `c * rows + r` when it exists, padded unless no cell follows
/// it on the line.
pub open spec fn column_items(cells: Seq<Cell>, rows: nat, cw: Seq<usize>, r: int, c: int) -> Seq<
    char,
>
    decreases c,
{
    if c <= 0 {
        Seq::empty()
    } else {
        let idx = (c - 1) * rows + r;
        column_items(cells, rows, cw, r, c - 1) + if idx < cells.len() {
            cells[idx].text@ + if c < cw.len() && c * rows + r < cells.len() {
                spaces(pad(cw[c - 1], cells[idx].width))
            } else {
                Seq::empty()
            }
        } else {
            Seq::empty()
        }
    }
}

/// The first `r` lines of the vertical layout.
pub open spec fn vertical_lines(cells: Seq<Cell>, rows: nat, cw: Seq<usize>, r: int) -> Seq<char>
    decreases r,
{
    if r <= 0 {
        Seq::empty()
    } else {
        vertical_lines(cells, rows, cw, r - 1) + column_items(
            cells,
            rows,
            cw,
            r - 1,
            cw.len() as int,
        ) + seq!['\n']
    }
}

/// Cell widths plus the column gap.
pub open spec fn gap_widths(cells: Seq<Cell>) -> Seq<usize> {
    Seq::new(cells.len(), |i: int| (cells[i].width + 2) as usize)
}

/// The text of the grid.
pub open spec fn grid_text(cells: Seq<Cell>, screen_width: nat, kind: GridKind) -> Seq<char> {
    if cells.len() == 0 {
        Seq::empty()
    } else {
        let (chunk, cw) = fit(gap_widths(cells), if screen_width == 0 {
            1
        } else {
            screen_width
        }, kind);
        match kind {
            GridKind::Horizontal => horizontal_lines(
                cells,
                chunk,
                cw,
                ceil_div(cells.len(), chunk) as int,
            ),
            GridKind::Vertical => vertical_lines(cells, chunk, cw, chunk as int),
        }
    }
}

/// Lays `cells` out in the grid with the most columns whose widths fit
/// `screen_width` (one column when none fits) and returns the text, one
/// line per row.
pub fn render_grid(cells: &Vec<Cell>, screen_width: usize, kind: GridKind) -> (r: String)
    requires
        forall|i: int| 0 <= i < cells@.len() ==> (#[trigger] cells@[i]).width <= usize::MAX - 2,
    ensures
        r@ == grid_text(cells@, screen_width as nat, kind),
{
    if cells.len() == 0 {
        return String::new();
    }
    let mut widths: Vec<usize> = Vec::new();
    let mut i: usize = 0;
    while i < cells.len()
        invariant
            i <= cells.len(),
            forall|j: int| 0 <= j < cells@.len() ==> (#[trigger] cells@[j]).width <= usize::MAX - 2,
            widths@ == gap_widths(cells@).take(i as int),
        decreases cells.len() - i,
    {
        widths.push(cells[i].width + COLUMN_GAP);
        i = i + 1;
        assert(widths@ =~= gap_widths(cells@).take(i as int));
    }
    assert(widths@ =~= gap_widths(cells@));
    let screen = if screen_width == 0 {
        1
    } else {
        screen_width
    };
    let (chunk_size, col_widths) = fit_columns(&widths, screen, kind);
    match kind {
        GridKind::Horizontal => write_horizontal(cells, chunk_size, &col_widths),
        GridKind::Vertical => write_vertical(cells, chunk_size, &col_widths),
    }
}

/// Row-major lines with `cols` cells per row.
fn write_horizontal(cells: &Vec<Cell>, cols: usize, col_widths: &Vec<usize>) -> (r: String)
    requires
        cols >= 1,
        col_widths@.len() == cols,
    ensures
        r@ == horizontal_lines(cells@, cols as nat, col_widths@, ceil_div(
            cells@.len(),
            cols as nat,
        ) as int),
{
    let n = cells.len();
    let mut out = String::new();
    let mut start: usize = 0;
    let mut row: usize = 0;
    if n > 0 {
        proof {
            lemma_ceil_div_step(n as nat, cols as nat, 0);
        }
    }
    while start < n
        invariant
            cols >= 1,
            col_widths@.len() == cols,
            n == cells@.len(),
            start <= n,
            start < n ==> start == row * cols && row < ceil_div(n as nat, cols as nat),
            start == n ==> row == ceil_div(n as nat, cols as nat),
            out@ == horizontal_lines(cells@, cols as nat, col_widths@, row as int),
        decreases n - start,
    {
        let len: usize = if n - start >= cols {
            cols
        } else {
            n - start
        };
        let mut k: usize = 0;
        let ghost before = out@;
        while k < len
            invariant
                len <= cols,
                col_widths@.len() == cols,
                n == cells@.len(),
                start + len <= n,
                k <= len,
                out@ == before + row_items(cells@, col_widths@, start as int, len as int, k as int),
            decreases len - k,
        {
            let cell = &cells[start + k];
            push_str(&mut out, cell.text.as_str());
            if k + 1 < len {
                let cw = col_widths[k];
                let p = if cw > cell.width {
                    cw - cell.width
                } else {
                    0
                };
                push_spaces(&mut out, p);
            }
            k = k + 1;
            assert(out@ =~= before + row_items(cells@, col_widths@, start as int, len as int, k as int));
        }
        push_char(&mut out, '\n');
        proof {
            assert(row < n) by (nonlinear_arith)
                requires
                    row * cols < n,
                    cols >= 1,
            ;
            lemma_ceil_div_step(n as nat, cols as nat, row as nat);
            assert(out@ =~= horizontal_lines(cells@, cols as nat, col_widths@, (row + 1) as int));
        }
        row = row + 1;
        start = start + len;
    }
    if n == 0 {
        assert(ceil_div(0, cols as nat) == 0);
    }
    out
}

proof fn lemma_ceil_div_step(n: nat, cols: nat, row: nat)
    requires
        cols >= 1,
        row * cols < n,
    ensures
        row < ceil_div(n, cols),
        (row + 1) * cols >= n ==> row + 1 == ceil_div(n, cols),
        (row + 1) * cols < n ==> row + 1 < ceil_div(n, cols),
        (row + 1) * cols == row * cols + cols,
{
    assert((row + 1) * cols == row * cols + cols) by (nonlinear_arith);
    vstd::arithmetic::div_mod::lemma_fundamental_div_mod(n as int, cols as int);
    let q = n / cols;
    let r = n % cols;
    assert(n == cols * q + r);
    assert(row < ceil_div(n, cols)) by (nonlinear_arith)
        requires
            row * cols < n,
            n == cols * q + r,
            0 <= r < cols,
            ceil_div(n, cols) == q + if r != 0 {
                1nat
            } else {
                0nat
            },
    ;
    if (row + 1) * cols >= n {
        assert(row + 1 == ceil_div(n, cols)) by (nonlinear_arith)
            requires
                row * cols < n,
                (row + 1) * cols >= n,
                n == cols * q + r,
                0 <= r < cols,
                ceil_div(n, cols) == q + if r != 0 {
                    1nat
                } else {
                    0nat
                },
        ;
    } else {
        assert(row + 1 < ceil_div(n, cols)) by (nonlinear_arith)
            requires
                (row + 1) * cols < n,
                n == cols * q + r,
                0 <= r < cols,
                ceil_div(n, cols) == q + if r != 0 {
                    1nat
                } else {
                    0nat
                },
        ;
    }
}

/// Column-major lines: `rows` lines, cell `c * rows + r` in column `c` of
/// line `r`.
fn write_vertical(cells: &Vec<Cell>, rows: usize, col_widths: &Vec<usize>) -> (r: String)
    ensures
        r@ == vertical_lines(cells@, rows as nat, col_widths@, rows as int),
{
    let n = cells.len();
    let cols = col_widths.len();
    let mut out = String::new();
    let mut r: usize = 0;
    while r < rows
        invariant
            r <= rows,
            n == cells@.len(),
            cols == col_widths@.len(),
            out@ == vertical_lines(cells@, rows as nat, col_widths@, r as int),
        decreases rows - r,
    {
        let ghost before = out@;
        let mut c: usize = 0;
        while c < cols
            invariant
                r < rows,
                c <= cols,
                n == cells@.len(),
                cols == col_widths@.len(),
                out@ == before + column_items(cells@, rows as nat, col_widths@, r as int, c as int),
            decreases cols - c,
        {
            let ghost idx_spec = c * rows + r;
            let idx = mul_add_bounded(c, rows, r, n);
            match idx {
                Some(idx) => {
                    let cell = &cells[idx];
                    push_str(&mut out, cell.text.as_str());
                    let next = mul_add_bounded(c + 1, rows, r, n);
                    if c + 1 < cols && next.is_some() {
                        let cw = col_widths[c];
                        let p = if cw > cell.width {
                            cw - cell.width
                        } else {
                            0
                        };
                        push_spaces(&mut out, p);
                    }
                },
                None => {},
            }
            c = c + 1;
            assert(out@ =~= before + column_items(
                cells@,
                rows as nat,
                col_widths@,
                r as int,
                c as int,
            ));
        }
        push_char(&mut out, '\n');
        r = r + 1;
        assert(out@ =~= vertical_lines(cells@, rows as nat, col_widths@, r as int));
    }
    out
}

/// `c * rows + r` when it is below `n`, `None` otherwise.
fn mul_add_bounded(c: usize, rows: usize, r: usize, n: usize) -> (x: Option<usize>)
    ensures
        x matches Some(v) ==> v == c * rows + r && v < n,
        x is None ==> c * rows + r >= n,
{
    match c.checked_mul(rows) {
        Some(m) => match m.checked_add(r) {
            Some(v) => if v < n {
                Some(v)
            } else {
                None
            },
            None => None,
        },
        None => {
            assert(c * rows + r >= n) by (nonlinear_arith)
                requires
                    c * rows > usize::MAX,
                    n <= usize::MAX,
            ;
            None
        },
    }
}

/// Sum of `s` (exact, in a wide integer).
fn sum_widths(s: &Vec<usize>) -> (r: u128)
    requires
        s@.len() <= usize::MAX,
    ensures
        r == total(s@),
{
    let mut acc: u128 = 0;
    let mut i: usize = 0;
    while i < s.len()
        invariant
            i <= s.len(),
            acc == total(s@.take(i as int)),
            acc <= i * 0x1_0000_0000_0000_0000nat,
        decreases s.len() - i,
    {
        assert(s@.take(i + 1).drop_last() =~= s@.take(i as int));
        assert(acc + s[i as int] <= (i + 1) * 0x1_0000_0000_0000_0000nat) by (nonlinear_arith)
            requires
                acc <= i * 0x1_0000_0000_0000_0000nat,
                s[i as int] < 0x1_0000_0000_0000_0000nat,
        ;
        assert((i + 1) * 0x1_0000_0000_0000_0000nat < 0x1_0000_0000_0000_0000_0000_0000_0000_0000nat) by (nonlinear_arith)
            requires
                i < 0xFFFF_FFFF_FFFF_FFFFnat,
        ;
        acc = acc + s[i] as u128;
        i = i + 1;
    }
    assert(s@.take(s.len() as int) =~= s@);
    acc
}

/// The layout for the largest column count whose summed widths fit
/// `screen_width` (one column when none fits). Returns
/// `(chunk_size, per_column_max_widths)` where `chunk_size` is items per
/// row for horizontal and rows for vertical layouts.
pub fn fit_columns(widths: &Vec<usize>, screen_width: usize, kind: GridKind) -> (r: (usize, Vec<usize>))
    ensures
        r.0 == fit(widths@, screen_width as nat, kind).0,
        r.1@ == fit(widths@, screen_width as nat, kind).1,
        widths@.len() > 0 ==> r.0 >= 1,
        widths@.len() > 0 && kind == GridKind::Horizontal ==> r.1@.len() == r.0,
{
    let n = widths.len();
    if n == 0 {
        return (0, Vec::new());
    }
    let mut min_w: usize = widths[0];
    let mut i: usize = 1;
    while i < n
        invariant
            1 <= i <= n,
            n == widths@.len(),
            min_w == seq_min(widths@.take(i as int)),
        decreases n - i,
    {
        assert(widths@.take(i + 1).drop_last() =~= widths@.take(i as int));
        if widths[i] < min_w {
            min_w = widths[i];
        }
        i = i + 1;
    }
    assert(widths@.take(n as int) =~= widths@);
    let mw = if min_w == 0 {
        1
    } else {
        min_w
    };
    let q = screen_width / mw;
    let q1 = if q == 0 {
        1
    } else {
        q
    };
    let mut k: usize = if q1 <= n {
        q1
    } else {
        n
    };
    let ghost target = fit(widths@, screen_width as nat, kind);
    assert(k == max_columns(widths@, screen_width as nat));
    loop
        invariant
            n == widths@.len(),
            n >= 1,
            1 <= k <= n,
            target == fit(widths@, screen_width as nat, kind),
            target == widths_for(
                widths@,
                largest_fitting(widths@, screen_width as nat, kind, k as nat),
                kind,
            ),
        decreases k,
    {
        let candidate = column_widths(widths, k, kind);
        let fits = sum_widths(&candidate.1) <= screen_width as u128;
        if fits || k == 1 {
            return candidate;
        }
        k = k - 1;
    }
}

/// The layout for `mid` candidate columns.
fn column_widths(widths: &Vec<usize>, mid: usize, kind: GridKind) -> (r: (usize, Vec<usize>))
    requires
        widths@.len() >= 1,
        mid <= widths@.len(),
    ensures
        r.0 == widths_for(widths@, mid as nat, kind).0,
        r.1@ == widths_for(widths@, mid as nat, kind).1,
        r.0 >= 1,
        r.1@.len() <= widths@.len(),
{
    match kind {
        GridKind::Horizontal => column_widths_horizontal(widths, mid),
        GridKind::Vertical => column_widths_vertical(widths, mid),
    }
}

/// Horizontal: `mid` items per row, max-of-column across rows.
fn column_widths_horizontal(widths: &Vec<usize>, mid: usize) -> (r: (usize, Vec<usize>))
    requires
        widths@.len() >= 1,
        mid <= widths@.len(),
    ensures
        r.0 == widths_horizontal(widths@, mid as nat).0,
        r.1@ == widths_horizontal(widths@, mid as nat).1,
        r.0 >= 1,
        r.1@.len() <= widths@.len(),
{
    let m = if mid == 0 {
        1
    } else {
        mid
    };
    let n = widths.len();
    let mut cols: Vec<usize> = Vec::new();
    let mut i: usize = 0;
    while i < m
        invariant
            i <= m,
            cols@ == Seq::new(i as nat, |k: int| 0usize),
        decreases m - i,
    {
        cols.push(0);
        i = i + 1;
        assert(cols@ =~= Seq::new(i as nat, |k: int| 0usize));
    }
    let mut j: usize = 0;
    while j < n
        invariant
            m >= 1,
            n == widths@.len(),
            j <= n,
            cols@.len() == m,
            forall|k: int| 0 <= k < m ==> #[trigger] cols@[k] == residue_max(widths@, m as nat, k, j as int),
        decreases n - j,
    {
        let k = j % m;
        if widths[j] > cols[k] {
            cols.set(k, widths[j]);
        }
        j = j + 1;
    }
    assert(cols@ =~= widths_horizontal(widths@, mid as nat).1);
    (m, cols)
}

/// Vertical: `mid` candidate columns give the rows per column; each
/// column's width is the widest of its consecutive `rows` cells.
fn column_widths_vertical(widths: &Vec<usize>, mid: usize) -> (r: (usize, Vec<usize>))
    requires
        widths@.len() >= 1,
        mid <= widths@.len(),
    ensures
        r.0 == widths_vertical(widths@, mid as nat).0,
        r.1@ == widths_vertical(widths@, mid as nat).1,
        r.0 >= 1,
        r.1@.len() <= widths@.len(),
{
    let m = if mid == 0 {
        1
    } else {
        mid
    };
    let n = widths.len();
    proof {
        assert(n % m != 0 ==> n / m < n) by (nonlinear_arith)
            requires
                m >= 1,
                n >= 1,
        ;
    }
    let rows = n / m + if n % m != 0 {
        1
    } else {
        0
    };
    proof {
        lemma_ceil_div_bounds(n as nat, m as nat);
    }
    proof {
        assert(n % rows != 0 ==> n / rows < n) by (nonlinear_arith)
            requires
                rows >= 1,
                n >= 1,
        ;
    }
    let count = n / rows + if n % rows != 0 {
        1
    } else {
        0
    };
    proof {
        lemma_ceil_div_bounds(n as nat, rows as nat);
    }
    let ghost spec_cols = widths_vertical(widths@, mid as nat).1;
    assert(rows == widths_vertical(widths@, mid as nat).0);
    let mut cols: Vec<usize> = Vec::new();
    let mut c: usize = 0;
    let mut lo: usize = 0;
    while c < count
        invariant
            n == widths@.len(),
            rows >= 1,
            rows == ceil_div(n as nat, m as nat),
            count == ceil_div(n as nat, rows as nat),
            spec_cols == widths_vertical(widths@, mid as nat).1,
            rows == widths_vertical(widths@, mid as nat).0,
            spec_cols.len() == count,
            c <= count,
            c < count ==> lo == c * rows && lo < n,
            cols@ == spec_cols.take(c as int),
        decreases count - c,
    {
        let hi = if n - lo >= rows {
            lo + rows
        } else {
            n
        };
        let mut best: usize = 0;
        let mut j: usize = lo;
        let ghost spec_hi = if c * rows + rows <= n {
            c * rows + rows
        } else {
            n as int
        };
        assert(hi == spec_hi);
        assert(spec_cols[c as int] == vertical_column(widths@, rows as nat, c as int));
        assert(spec_cols[c as int] == range_max(widths@, lo as int, hi as int));
        while j < hi
            invariant
                lo <= j <= hi,
                hi <= n,
                n == widths@.len(),
                best == range_max(widths@, lo as int, j as int),
            decreases hi - j,
        {
            if widths[j] > best {
                best = widths[j];
            }
            j = j + 1;
        }
        cols.push(best);
        proof {
            assert((c + 1) * rows == c * rows + rows) by (nonlinear_arith);
            lemma_ceil_div_step(n as nat, rows as nat, c as nat);
            assert(spec_cols[c as int] == best);
        }
        c = c + 1;
        lo = hi;
        assert(cols@ =~= spec_cols.take(c as int));
    }
    assert(cols@ =~= spec_cols);
    (rows, cols)
}

proof fn lemma_ceil_div_bounds(n: nat, m: nat)
    requires
        n >= 1,
        m >= 1,
        m <= n,
    ensures
        1 <= ceil_div(n, m) <= n,
        ceil_div(n, ceil_div(n, m)) <= n,
        ceil_div(n, ceil_div(n, m)) >= 1,
{
    vstd::arithmetic::div_mod::lemma_fundamental_div_mod(n as int, m as int);
    assert(n / m >= 1) by (nonlinear_arith)
        requires
            n >= m,
            m >= 1,
    ;
    assert(n / m <= n) by (nonlinear_arith)
        requires
            m >= 1,
    ;
    let k = ceil_div(n, m);
    assert(k <= n) by (nonlinear_arith)
        requires
            k == n / m + if n % m != 0 {
                1nat
            } else {
                0nat
            },
            n == m * (n / m) + n % m,
            m >= 1,
            n % m < m,
            n >= 1,
    ;
    vstd::arithmetic::div_mod::lemma_fundamental_div_mod(n as int, k as int);
    assert(n / k >= 1) by (nonlinear_arith)
        requires
            n >= k,
            k >= 1,
    ;
    assert(n / k <= n) by (nonlinear_arith)
        requires
            k >= 1,
    ;
    assert(ceil_div(n, k) <= n) by (nonlinear_arith)
        requires
            ceil_div(n, k) == n / k + if n % k != 0 {
                1nat
            } else {
                0nat
            },
            n == k * (n / k) + n % k,
            k >= 1,
            n % k < k,
            n >= 1,
    ;
}

} // verus!
