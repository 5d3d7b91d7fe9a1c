//! The mathematical model of the automaton: cell rows, the five-cell
//! window, the next generation, the scrolling history and its text.

use vstd::prelude::*;

verus! {

use crate::rule::rule_bit;

/// Every value of `s` is a cell value, 0 or 1.
pub open spec fn is_binary(s: Seq<u8>) -> bool {
    forall|k: int| 0 <= k < s.len() ==> #[trigger] s[k] <= 1
}

/// Index, in a cyclic row of length `w`, of the `j`-th cell of the window of
/// cell `i`; the window starts `1 + d` cells to the left of `i`.
pub open spec fn window_index(w: int, d: int, i: int, j: int) -> int {
    (i + j - 1 - d) % w
}

/// Sum of the first `n` cells of the window of cell `i` in `row`.
pub open spec fn window_sum(row: Seq<u8>, d: int, i: int, n: int) -> int
    decreases n,
{
    if n <= 0 {
        0
    } else {
        window_sum(row, d, i, n - 1) + row[window_index(row.len() as int, d, i, n - 1)]
    }
}

/// The generation that follows `row` under rule `order` and direction `d`:
/// cell `i` becomes the rule table's entry for the sum of its five-cell window.
pub open spec fn next_row(row: Seq<u8>, order: u32, d: int) -> Seq<u8> {
    Seq::new(row.len(), |i: int| rule_bit(order, window_sum(row, d, i, 5)))
}

/// The history after a new generation `row` is recorded: every row of
/// `lattice` moves one row down, the last one is dropped, and `row` becomes
/// the first.
pub open spec fn scroll(lattice: Seq<u8>, row: Seq<u8>) -> Seq<u8> {
    Seq::new(
        lattice.len(),
        |k: int|
            if k < row.len() {
                row[k]
            } else {
                lattice[k - row.len()]
            },
    )
}

/// Recording a generation scrolls the history by exactly one row: row `r`
/// of the new history is row `r - 1` of the old one, for every `r` in
/// `1..w`, and row 0 is the recorded generation.
pub proof fn lemma_scroll_rows(lattice: Seq<u8>, row: Seq<u8>, w: int)
    requires
        w > 0,
        row.len() == w,
        lattice.len() == w * w,
    ensures
        forall|c: int| 0 <= c < w ==> #[trigger] scroll(lattice, row)[c] == row[c],
        forall|r: int, c: int|
            1 <= r < w && 0 <= c < w ==> #[trigger] scroll(lattice, row)[r * w + c] == lattice[(r
                - 1) * w + c],
{
    assert(w <= w * w) by (nonlinear_arith)
        requires
            w > 0,
    ;
    assert forall|r: int, c: int| 1 <= r < w && 0 <= c < w implies #[trigger] scroll(
        lattice,
        row,
    )[r * w + c] == lattice[(r - 1) * w + c] by {
        assert((r - 1) * w == r * w - w) by (nonlinear_arith);
        assert(r * w + c < w * w) by (nonlinear_arith)
            requires
                r < w,
                c < w,
                0 <= c,
        ;
        assert(r * w >= w) by (nonlinear_arith)
            requires
                r >= 1,
                w > 0,
        ;
    }
}

/// A row that can start an engine of width `width`: non-empty, of that
/// length, with cell values only.
pub open spec fn valid_row(width: u32, row: Seq<u8>) -> bool {
    width > 0 && row.len() == width && is_binary(row)
}

/// The history of a new engine: `width * width` dead cells.
pub open spec fn zero_lattice(width: u32) -> Seq<u8> {
    Seq::new((width * width) as nat, |k: int| 0u8)
}

/// The history after a reconfiguration: `row` as its first row, dead cells
/// elsewhere.
pub open spec fn seeded_lattice(width: u32, row: Seq<u8>) -> Seq<u8> {
    Seq::new(
        (width * width) as nat,
        |k: int|
            if k < row.len() {
                row[k]
            } else {
                0u8
            },
    )
}

/// The direction that follows `d` in the cycle 0, 1, 2.
pub open spec fn rotated(d: u8) -> u8 {
    ((d + 1) % 3) as u8
}

/// Three rotations bring every direction back to itself; one rotation takes
/// 0 to 1, 1 to 2 and 2 to 0.
pub proof fn lemma_rotation_cycle(d: u8)
    requires
        d <= 2,
    ensures
        rotated(rotated(rotated(d))) == d,
        rotated(0) == 1,
        rotated(1) == 2,
        rotated(2) == 0,
{
}

/// The glyph that shows a cell: a white square for a dead cell, a black one
/// otherwise.
pub open spec fn glyph(v: u8) -> char {
    if v == 0 {
        '\u{25a1}'
    } else {
        '\u{25a0}'
    }
}

/// One line of text: a glyph per cell of `row`, then a line break.
pub open spec fn row_text(row: Seq<u8>) -> Seq<char> {
    row.map_values(|v: u8| glyph(v)).push('\n')
}

/// The first `rows` rows of width `w` of `lattice` as text, one line each.
pub open spec fn grid_text(lattice: Seq<u8>, w: int, rows: int) -> Seq<char>
    decreases rows,
{
    if rows <= 0 {
        Seq::empty()
    } else {
        grid_text(lattice, w, rows - 1) + row_text(lattice.subrange((rows - 1) * w, rows * w))
    }
}

pub(crate) proof fn lemma_window_sum_bounds(row: Seq<u8>, d: int, i: int, n: int)
    requires
        row.len() > 0,
        is_binary(row),
        0 <= n,
    ensures
        0 <= window_sum(row, d, i, n) <= n,
    decreases n,
{
    if n > 0 {
        lemma_window_sum_bounds(row, d, i, n - 1);
        let k = window_index(row.len() as int, d, i, n - 1);
        assert(0 <= k < row.len());
        assert(row[k] <= 1);
    }
}

} // verus!
