//! The engine: its state, its invariant, and the operations on it.

use vstd::prelude::*;

verus! {

use vstd::arithmetic::div_mod::lemma_mod_multiples_vanish;
use crate::model::{
    grid_text, glyph, is_binary, lemma_window_sum_bounds, next_row, rotated, scroll,
    seeded_lattice, valid_row, window_index, window_sum, zero_lattice,
};
use crate::rule::{rule_seq, rule_table};

/// Errors reported when an engine would be put into a state it cannot run in.
#[derive(Debug, Clone, Copy, PartialEq, Eq, Structural)]
pub enum CaError {
    /// The row width is zero.
    InvalidConfiguration,
    /// The scan direction is not in `0..=2`, or not below the width.
    InvalidDirection,
}

/// The mathematical state of an engine.
pub struct UniverseState {
    pub width: u32,
    pub order: u32,
    pub direction: u8,
    pub cells: Seq<u8>,
    pub lattice: Seq<u8>,
}

/// Relies on rand::random::<u32>: a value of the thread-local generator.
/// Nothing is known of it.
#[verifier::external_body]
fn random_word() -> (r: u32) {
    rand::random::<u32>()
}

/// A row of `width` cells, each the low bit of a random word.
fn random_row(width: u32) -> (r: Vec<u8>)
    ensures
        r@.len() == width,
        is_binary(r@),
{
    let mut row: Vec<u8> = Vec::new();
    let mut i: u32 = 0;
    while i < width
        invariant
            i <= width,
            row@.len() == i,
            is_binary(row@),
        decreases width - i,
    {
        let bit = (random_word() % 2) as u8;
        row.push(bit);
        i = i + 1;
    }
    row
}

/// Whether every value of `row` is 0 or 1.
fn all_binary(row: &Vec<u8>) -> (r: bool)
    ensures
        r == is_binary(row@),
{
    let mut i: usize = 0;
    while i < row.len()
        invariant
            i <= row@.len(),
            forall|k: int| 0 <= k < i ==> #[trigger] row@[k] <= 1,
        decreases row@.len() - i,
    {
        if row[i] > 1 {
            return false;
        }
        i = i + 1;
    }
    true
}

/// Two engines that agree on width, rule order, direction and cells agree on
/// the generation that follows.
pub proof fn lemma_tick_deterministic(a: D1caUniverse, b: D1caUniverse)
    requires
        a.wf(),
        b.wf(),
        a@.width == b@.width,
        a@.order == b@.order,
        a@.direction == b@.direction,
        a@.cells == b@.cells,
    ensures
        next_row(a@.cells, a@.order, a@.direction as int) == next_row(
            b@.cells,
            b@.order,
            b@.direction as int,
        ),
{
}

/// Relies on std's `FromIterator<&char>` for `String`: the characters are
/// joined in order.
#[verifier::external_body]
fn text_of(chars: &Vec<char>) -> (r: String)
    ensures
        r@ == chars@,
{
    chars.iter().collect()
}

/// An engine: a cyclic row of cells, its rule order, its scan direction, and
/// a `width` by `width` history of generations, newest first.
pub struct D1caUniverse {
    width: u32,
    order: u32,
    cells: Vec<u8>,
    direction: u8,
    lattice: Vec<u8>,
}

impl View for D1caUniverse {
    type V = UniverseState;

    closed spec fn view(&self) -> UniverseState {
        UniverseState {
            width: self.width,
            order: self.order,
            direction: self.direction,
            cells: self.cells@,
            lattice: self.lattice@,
        }
    }
}

impl D1caUniverse {
    /// The engine's invariant: a non-empty row, a square history of the same
    /// width, a direction in `0..=2`, and only 0 and 1 as values.
    pub open spec fn wf(&self) -> bool {
        &&& self@.width > 0
        &&& self@.direction <= 2
        &&& self@.cells.len() == self@.width
        &&& self@.lattice.len() == self@.width * self@.width
        &&& is_binary(self@.cells)
        &&& is_binary(self@.lattice)
    }

    /// Advances the row by one generation; everything else stays.
    pub fn tick(&mut self)
        requires
            old(self).wf(),
        ensures
            final(self).wf(),
            final(self)@.cells == next_row(old(self)@.cells, old(self)@.order, old(self)@.direction as int),
            final(self)@.width == old(self)@.width,
            final(self)@.order == old(self)@.order,
            final(self)@.direction == old(self)@.direction,
            final(self)@.lattice == old(self)@.lattice,
    {
        let w = self.width;
        let d = self.direction;
        let rule = rule_table(self.order);
        let prev = self.cells.clone();
        assert(prev@ =~= self.cells@);
        let ghost target = next_row(prev@, self.order, d as int);
        let mut i: u32 = 0;
        while i < w
            invariant
                i <= w,
                w == self.width,
                w == old(self).width,
                w > 0,
                d == self.direction,
                d <= 2,
                self.order == old(self).order,
                self.direction == old(self).direction,
                self.lattice@ == old(self).lattice@,
                is_binary(self.lattice@),
                rule@ == rule_seq(self.order),
                prev@ == old(self).cells@,
                prev@.len() == w,
                is_binary(prev@),
                target == next_row(prev@, self.order, d as int),
                self.cells@.len() == w,
                forall|k: int| 0 <= k < i ==> #[trigger] self.cells@[k] == target[k],
                forall|k: int| 0 <= k < w ==> #[trigger] self.cells@[k] <= 1,
            decreases w - i,
        {
            let mut count: u8 = 0;
            let mut j: u32 = 0;
            while j < 5
                invariant
                    j <= 5,
                    i < w,
                    w > 0,
                    d <= 2,
                    prev@.len() == w,
                    is_binary(prev@),
                    count as int == window_sum(prev@, d as int, i as int, j as int),
                    count <= j,
                decreases 5 - j,
            {
                // 3 * w keeps the operand non-negative for every direction,
                // also on rows narrower than the window.
                let idx = ((3 * w as u64 + i as u64 + j as u64 - 1 - d as u64) % (w as u64)) as usize;
                proof {
                    lemma_mod_multiples_vanish(3, i + j - 1 - d, w as int);
                    assert(idx as int == window_index(w as int, d as int, i as int, j as int));
                    assert(prev@[idx as int] <= 1);
                }
                count = count + prev[idx];
                j = j + 1;
            }
            proof {
                lemma_window_sum_bounds(prev@, d as int, i as int, 5);
            }
            let next = rule[count as usize];
            self.cells.set(i as usize, next);
            i = i + 1;
        }
        assert(self.cells@ =~= target);
    }

    /// Advances the row by one generation and records it: the history
    /// scrolls down one row and its first row becomes the new generation.
    pub fn tick_lattice(&mut self)
        requires
            old(self).wf(),
        ensures
            final(self).wf(),
            final(self)@.cells == next_row(old(self)@.cells, old(self)@.order, old(self)@.direction as int),
            final(self)@.lattice == scroll(old(self)@.lattice, final(self)@.cells),
            final(self)@.width == old(self)@.width,
            final(self)@.order == old(self)@.order,
            final(self)@.direction == old(self)@.direction,
    {
        self.tick();
        let w = self.width as usize;
        let n = self.lattice.len();
        let ghost prev = self.lattice@;
        let ghost mid = self@;
        assert(n >= w) by (nonlinear_arith)
            requires
                n == w * w,
                w > 0,
        ;
        let max_idx = n - 1;
        let mut idx: usize = 0;
        while idx < n - w
            invariant
                w == self.width,
                w > 0,
                self.cells@ == mid.cells,
                self.order == mid.order,
                self.direction == mid.direction,
                n == self.lattice@.len(),
                n >= w,
                max_idx == n - 1,
                idx <= n - w,
                prev.len() == n,
                is_binary(prev),
                forall|k: int|
                    0 <= k < n ==> #[trigger] self.lattice@[k] == if k >= n - idx {
                        prev[k - w]
                    } else {
                        prev[k]
                    },
            decreases n - w - idx,
        {
            let v = self.lattice[max_idx - idx - w];
            self.lattice.set(max_idx - idx, v);
            idx = idx + 1;
        }
        let mut c: usize = 0;
        while c < w
            invariant
                w == self.width,
                self.cells@ == mid.cells,
                self.order == mid.order,
                self.direction == mid.direction,
                n == self.lattice@.len(),
                n >= w,
                c <= w,
                prev.len() == n,
                self.cells@.len() == w,
                forall|k: int|
                    0 <= k < n ==> #[trigger] self.lattice@[k] == if k < c {
                        self.cells@[k]
                    } else if k >= w {
                        prev[k - w]
                    } else {
                        prev[k]
                    },
            decreases w - c,
        {
            let v = self.cells[c];
            self.lattice.set(c, v);
            c = c + 1;
        }
        assert(self.lattice@ =~= scroll(prev, self.cells@));
        assert(is_binary(self.lattice@));
    }

    /// An engine of width `width` and rule `order` whose first generation is
    /// `cells`, with an empty history and direction 1. Fails with
    /// `InvalidConfiguration` unless `cells` is a valid row of that width.
    pub fn with_cells(width: u32, order: u32, cells: Vec<u8>) -> (r: Result<D1caUniverse, CaError>)
        requires
            width * width <= usize::MAX,
        ensures
            match r {
                Ok(u) => {
                    &&& valid_row(width, cells@)
                    &&& u.wf()
                    &&& u@.width == width
                    &&& u@.order == order
                    &&& u@.direction == 1
                    &&& u@.cells == cells@
                    &&& u@.lattice == zero_lattice(width)
                },
                Err(e) => !valid_row(width, cells@) && e == CaError::InvalidConfiguration,
            },
    {
        if width == 0 || cells.len() != width as usize || !all_binary(&cells) {
            return Err(CaError::InvalidConfiguration);
        }
        let n = width as usize * width as usize;
        let lattice = vec![0u8; n];
        assert(lattice@ =~= zero_lattice(width));
        Ok(D1caUniverse { width, order, cells, direction: 1, lattice })
    }

    /// A new engine of width `width` and rule `order`: each cell a random
    /// bit, an empty history, direction 1. Fails with `InvalidConfiguration`
    /// exactly when `width` is 0.
    pub fn new(width: u32, order: u32) -> (r: Result<D1caUniverse, CaError>)
        requires
            width * width <= usize::MAX,
        ensures
            match r {
                Ok(u) => {
                    &&& width > 0
                    &&& u.wf()
                    &&& u@.width == width
                    &&& u@.order == order
                    &&& u@.direction == 1
                    &&& u@.lattice == zero_lattice(width)
                },
                Err(e) => width == 0 && e == CaError::InvalidConfiguration,
            },
    {
        if width == 0 {
            return Err(CaError::InvalidConfiguration);
        }
        let cells = random_row(width);
        D1caUniverse::with_cells(width, order, cells)
    }

    /// Reconfigures the engine to width `width` and rule `order` with
    /// `cells` as its generation; the history holds `cells` as its first row
    /// and dead cells elsewhere; the direction stays. Fails with
    /// `InvalidConfiguration`, the engine unchanged, unless `cells` is a
    /// valid row of that width.
    pub fn renew_with_cells(&mut self, width: u32, order: u32, cells: Vec<u8>) -> (r: Result<(), CaError>)
        requires
            old(self).wf(),
            width * width <= usize::MAX,
        ensures
            final(self).wf(),
            match r {
                Ok(_) => {
                    &&& valid_row(width, cells@)
                    &&& final(self)@.width == width
                    &&& final(self)@.order == order
                    &&& final(self)@.direction == old(self)@.direction
                    &&& final(self)@.cells == cells@
                    &&& final(self)@.lattice == seeded_lattice(width, cells@)
                },
                Err(e) => {
                    &&& !valid_row(width, cells@)
                    &&& e == CaError::InvalidConfiguration
                    &&& final(self)@ == old(self)@
                },
            },
    {
        if width == 0 || cells.len() != width as usize || !all_binary(&cells) {
            return Err(CaError::InvalidConfiguration);
        }
        let n = width as usize * width as usize;
        assert(n >= width) by (nonlinear_arith)
            requires
                n == width * width,
                width > 0,
        ;
        let mut lattice = vec![0u8; n];
        let mut i: usize = 0;
        while i < width as usize
            invariant
                n >= width,
                i <= width,
                lattice@.len() == n,
                cells@.len() == width,
                forall|k: int|
                    0 <= k < n ==> #[trigger] lattice@[k] == if k < i {
                        cells@[k]
                    } else {
                        0u8
                    },
            decreases width - i,
        {
            lattice.set(i, cells[i]);
            i = i + 1;
        }
        assert(lattice@ =~= seeded_lattice(width, cells@));
        self.width = width;
        self.order = order;
        self.cells = cells;
        self.lattice = lattice;
        Ok(())
    }

    /// Reconfigures the engine to width `width` and rule `order`, each cell
    /// a random bit, the history seeded with that generation as its first
    /// row; the direction stays. Fails with `InvalidConfiguration`, the
    /// engine unchanged, exactly when `width` is 0.
    pub fn renew(&mut self, width: u32, order: u32) -> (r: Result<(), CaError>)
        requires
            old(self).wf(),
            width * width <= usize::MAX,
        ensures
            final(self).wf(),
            match r {
                Ok(_) => {
                    &&& width > 0
                    &&& final(self)@.width == width
                    &&& final(self)@.order == order
                    &&& final(self)@.direction == old(self)@.direction
                    &&& final(self)@.lattice == seeded_lattice(width, final(self)@.cells)
                },
                Err(e) => width == 0 && e == CaError::InvalidConfiguration && final(self)@ == old(self)@,
            },
    {
        if width == 0 {
            return Err(CaError::InvalidConfiguration);
        }
        let cells = random_row(width);
        self.renew_with_cells(width, order, cells)
    }

    /// Moves the scan direction to the next of 0, 1, 2, cyclically.
    pub fn change_direction(&mut self)
        requires
            old(self).wf(),
        ensures
            final(self).wf(),
            final(self)@.direction == rotated(old(self)@.direction),
            final(self)@.width == old(self)@.width,
            final(self)@.order == old(self)@.order,
            final(self)@.cells == old(self)@.cells,
            final(self)@.lattice == old(self)@.lattice,
    {
        self.direction = (self.direction + 1) % 3;
    }

    /// Sets the scan direction. Fails with `InvalidDirection`, the engine
    /// unchanged, unless `direction` is at most 2 and below the width.
    pub fn set_direction(&mut self, direction: u8) -> (r: Result<(), CaError>)
        requires
            old(self).wf(),
        ensures
            final(self).wf(),
            final(self)@.width == old(self)@.width,
            final(self)@.order == old(self)@.order,
            final(self)@.cells == old(self)@.cells,
            final(self)@.lattice == old(self)@.lattice,
            match r {
                Ok(_) => direction <= 2 && direction < old(self)@.width && final(self)@.direction
                    == direction,
                Err(e) => !(direction <= 2 && direction < old(self)@.width) && e
                    == CaError::InvalidDirection && final(self)@.direction == old(self)@.direction,
            },
    {
        if direction > 2 || direction as u32 >= self.width {
            return Err(CaError::InvalidDirection);
        }
        self.direction = direction;
        Ok(())
    }

    /// The row width.
    pub fn get_width(&self) -> (r: u32)
        ensures
            r == self@.width,
    {
        self.width
    }

    /// The rule order.
    pub fn get_order(&self) -> (r: u32)
        ensures
            r == self@.order,
    {
        self.order
    }

    /// The scan direction.
    pub fn get_direction(&self) -> (r: u8)
        ensures
            r == self@.direction,
    {
        self.direction
    }

    /// The current generation, valid until the next change to the engine.
    pub fn get_cells(&self) -> (r: &[u8])
        ensures
            r@ == self@.cells,
    {
        self.cells.as_slice()
    }

    /// The history, row by row with the newest row first, valid until the
    /// next change to the engine.
    pub fn get_lattice(&self) -> (r: &[u8])
        ensures
            r@ == self@.lattice,
    {
        self.lattice.as_slice()
    }

    /// The history as text: one line per row, newest first, one glyph per
    /// cell.
    pub fn render(&self) -> (r: String)
        requires
            self.wf(),
        ensures
            r@ == grid_text(self@.lattice, self@.width as int, self@.width as int),
    {
        let w = self.width as usize;
        let n = self.lattice.len();
        let ghost lat = self.lattice@;
        let mut out: Vec<char> = Vec::new();
        let mut r: usize = 0;
        while r < w
            invariant
                r <= w,
                w == self.width,
                lat == self.lattice@,
                lat.len() == w * w,
                n == lat.len(),
                out@ == grid_text(lat, w as int, r as int),
            decreases w - r,
        {
            assert((r + 1) * w <= w * w) by (nonlinear_arith)
                requires
                    r < w,
            ;
            assert((r + 1) * w == r * w + w) by (nonlinear_arith);
            assert(r * w + w <= n);
            let base = r * w;
            let mut c: usize = 0;
            while c < w
                invariant
                    r < w,
                    c <= w,
                    base == r * w,
                    base + w <= lat.len(),
                    n == lat.len(),
                    lat == self.lattice@,
                    out@ == grid_text(lat, w as int, r as int) + lat.subrange(
                        base as int,
                        base + c,
                    ).map_values(|v: u8| glyph(v)),
                decreases w - c,
            {
                let v = self.lattice[base + c];
                let g = if v == 0 {
                    '\u{25a1}'
                } else {
                    '\u{25a0}'
                };
                out.push(g);
                assert(lat.subrange(base as int, base + c + 1).map_values(|v: u8| glyph(v))
                    =~= lat.subrange(base as int, base + c).map_values(|v: u8| glyph(v)).push(g));
                c = c + 1;
            }
            out.push('\n');
            assert(out@ =~= grid_text(lat, w as int, r + 1));
            r = r + 1;
        }
        text_of(&out)
    }
}

} // verus!
