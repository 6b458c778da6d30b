//! Conway's Game of Life on a finite rectangular grid.
//!
//! The grid is a flat, row-major vector of single-bit cells (0 = dead,
//! 1 = alive). Neighbour counting uses the Moore neighbourhood on a
//! bounded, non-wrapping board, and one `step` advances the whole grid
//! by the standard B3/S23 rule, reading only the prior generation.

use rand::Rng;
use vstd::prelude::*;
use vstd::string::StringExecFns;

verus! {

#[verifier::external_type_specification]
#[verifier::external_body]
pub struct ExThreadRng(rand::rngs::ThreadRng);

/// Relies on rand::thread_rng: a handle to the thread-local random
/// generator, used only to draw cell values.
#[verifier::external_body]
fn fresh_rng() -> rand::rngs::ThreadRng {
    rand::thread_rng()
}

/// Relies on rand::Rng::gen_range: a sample from the non-empty range
/// 0..2 is 0 or 1; nothing more is assumed of the drawn value.
#[verifier::external_body]
fn random_bit(rng: &mut rand::rngs::ThreadRng) -> (b: u8)
    ensures
        b == 0 || b == 1,
{
    rng.gen_range(0..2)
}

pub struct ConwayGame {
    pub width: usize,
    pub height: usize,
    pub game: Vec<u8>,
}

impl ConwayGame {
    /// A well-formed grid: positive dimensions, a cell for every
    /// (row, column) position, and every cell a single bit.
    pub open spec fn wf(self) -> bool {
        &&& 1 <= self.width
        &&& 1 <= self.height
        &&& self.width * self.height <= usize::MAX
        &&& self.game@.len() == self.width * self.height
        &&& forall|i: int| 0 <= i < self.game@.len() ==> (self.game@[i] == 0 || self.game@[i] == 1)
    }

    pub open spec fn in_bounds(self, line: int, column: int) -> bool {
        &&& 0 <= line < self.height
        &&& 0 <= column < self.width
    }

    /// The cell at (line, column), under row-major flat indexing.
    pub open spec fn cell(self, line: int, column: int) -> u8 {
        self.game@[line * self.width + column]
    }

    /// 1 if (line, column) is a live cell of the grid, 0 otherwise
    /// (positions outside the grid count as dead).
    pub open spec fn live(self, line: int, column: int) -> int {
        if self.in_bounds(line, column) && self.cell(line, column) == 1 {
            1
        } else {
            0
        }
    }

    /// Number of live cells in the Moore neighbourhood of (line, column).
    pub open spec fn spec_neighbour_count(self, line: int, column: int) -> int {
        self.live(line - 1, column - 1) + self.live(line - 1, column) + self.live(
            line - 1,
            column + 1,
        ) + self.live(line, column - 1) + self.live(line, column + 1) + self.live(
            line + 1,
            column - 1,
        ) + self.live(line + 1, column) + self.live(line + 1, column + 1)
    }
}

/// The glyph for one cell: a space for dead, 'S' for alive.
pub open spec fn cell_char(v: u8) -> char {
    if v == 0 {
        ' '
    } else {
        'S'
    }
}

/// The decimal digit for a neighbour count between 0 and 8.
pub open spec fn digit_char(n: int) -> char {
    if n == 0 {
        '0'
    } else if n == 1 {
        '1'
    } else if n == 2 {
        '2'
    } else if n == 3 {
        '3'
    } else if n == 4 {
        '4'
    } else if n == 5 {
        '5'
    } else if n == 6 {
        '6'
    } else if n == 7 {
        '7'
    } else {
        '8'
    }
}

impl ConwayGame {
    /// One rendered row of the live-cell view, '\n'-terminated.
    pub open spec fn spec_cells_row(self, line: int) -> Seq<char> {
        Seq::new(self.width as nat, |c: int| cell_char(self.cell(line, c))).push('\n')
    }

    /// The first `lines` rendered rows of the live-cell view.
    pub open spec fn spec_cells_rows(self, lines: int) -> Seq<char>
        decreases lines,
    {
        if lines <= 0 {
            Seq::empty()
        } else {
            self.spec_cells_rows(lines - 1) + self.spec_cells_row(lines - 1)
        }
    }

    /// The full text rendering of the live-cell state.
    pub open spec fn spec_render_cells(self) -> Seq<char> {
        self.spec_cells_rows(self.height as int)
    }

    /// One rendered row of the neighbour-count view, '\n'-terminated.
    pub open spec fn spec_counts_row(self, line: int) -> Seq<char> {
        Seq::new(self.width as nat, |c: int| digit_char(self.spec_neighbour_count(line, c))).push(
            '\n',
        )
    }

    /// The first `lines` rendered rows of the neighbour-count view.
    pub open spec fn spec_counts_rows(self, lines: int) -> Seq<char>
        decreases lines,
    {
        if lines <= 0 {
            Seq::empty()
        } else {
            self.spec_counts_rows(lines - 1) + self.spec_counts_row(lines - 1)
        }
    }

    /// The full text rendering of the neighbour-count state.
    pub open spec fn spec_render_counts(self) -> Seq<char> {
        self.spec_counts_rows(self.height as int)
    }

    /// The flat indices of those of the eight Moore neighbours of
    /// (line, column) that lie inside the grid, in row-major order.
    pub open spec fn spec_neighbour_indices(self, line: int, column: int) -> Seq<int> {
        let w = self.width as int;
        (if self.in_bounds(line - 1, column - 1) {
            seq![(line - 1) * w + (column - 1)]
        } else {
            Seq::empty()
        }) + (if self.in_bounds(line - 1, column) {
            seq![(line - 1) * w + column]
        } else {
            Seq::empty()
        }) + (if self.in_bounds(line - 1, column + 1) {
            seq![(line - 1) * w + (column + 1)]
        } else {
            Seq::empty()
        }) + (if self.in_bounds(line, column - 1) {
            seq![line * w + (column - 1)]
        } else {
            Seq::empty()
        }) + (if self.in_bounds(line, column + 1) {
            seq![line * w + (column + 1)]
        } else {
            Seq::empty()
        }) + (if self.in_bounds(line + 1, column - 1) {
            seq![(line + 1) * w + (column - 1)]
        } else {
            Seq::empty()
        }) + (if self.in_bounds(line + 1, column) {
            seq![(line + 1) * w + column]
        } else {
            Seq::empty()
        }) + (if self.in_bounds(line + 1, column + 1) {
            seq![(line + 1) * w + (column + 1)]
        } else {
            Seq::empty()
        })
    }
}

/// The B3/S23 update rule: a dead cell with exactly 3 live neighbours is
/// born; a live cell with 2 or 3 live neighbours survives; every other
/// cell is dead in the next generation.
pub open spec fn next_value(v: u8, n: int) -> u8 {
    if v == 0 && n == 3 {
        1
    } else if v == 1 && (n == 2 || n == 3) {
        1
    } else {
        0
    }
}

/// Row-major flat indices stay inside the grid.
proof fn lemma_index_bound(w: int, h: int, line: int, column: int)
    requires
        0 <= line < h,
        0 <= column < w,
    ensures
        0 <= line * w + column < h * w,
{
    assert(0 <= line * w + column < h * w) by (nonlinear_arith)
        requires
            0 <= line < h,
            0 <= column < w,
    ;
}

/// Row-major flat indexing is injective on in-range positions.
proof fn lemma_index_injective(w: int, l1: int, c1: int, l2: int, c2: int)
    requires
        0 <= c1 < w,
        0 <= c2 < w,
        0 <= l1,
        0 <= l2,
        l1 != l2 || c1 != c2,
    ensures
        l1 * w + c1 != l2 * w + c2,
{
    assert(l1 * w + c1 != l2 * w + c2) by (nonlinear_arith)
        requires
            0 <= c1 < w,
            0 <= c2 < w,
            0 <= l1,
            0 <= l2,
            l1 != l2 || c1 != c2,
    ;
}

/// Row-major flat indices respect the lexicographic order on positions.
proof fn lemma_index_lt(w: int, l1: int, c1: int, l2: int, c2: int)
    requires
        0 <= c1 < w,
        0 <= c2,
        0 <= l1,
        l1 < l2 || (l1 == l2 && c1 < c2),
    ensures
        l1 * w + c1 < l2 * w + c2,
{
    assert(l1 * w + c1 < l2 * w + c2) by (nonlinear_arith)
        requires
            0 <= c1 < w,
            0 <= c2,
            0 <= l1,
            l1 < l2 || (l1 == l2 && c1 < c2),
    ;
}

/// A grid with the given dimensions and every cell dead.
///
/// Zero dimensions are a caller-contract violation, excluded by the
/// precondition rather than normalised or reported at run time.
pub fn build_board(width: usize, height: usize) -> (g: ConwayGame)
    requires
        1 <= width,
        1 <= height,
        width * height <= usize::MAX,
    ensures
        g.wf(),
        g.width == width,
        g.height == height,
        forall|line: int, column: int| g.in_bounds(line, column) ==> g.cell(line, column) == 0,
{
    let mut game: Vec<u8> = Vec::new();
    let size: usize = width * height;
    let mut i: usize = 0;
    while i < size
        invariant
            i <= size,
            game@.len() == i,
            forall|k: int| 0 <= k < i ==> game@[k] == 0,
        decreases size - i,
    {
        game.push(0);
        i = i + 1;
    }
    let g = ConwayGame { width, height, game };
    proof {
        assert forall|line: int, column: int| g.in_bounds(line, column) implies g.cell(
            line,
            column,
        ) == 0 by {
            lemma_index_bound(width as int, height as int, line, column);
            assert(height * width == width * height) by (nonlinear_arith);
            assert(g.game@[line * width + column] == 0);
        }
    }
    g
}

impl ConwayGame {
    /// Sets every cell independently to a random single-bit value drawn
    /// from the thread-local generator; the dimensions are unchanged.
    /// Nothing is promised of which cells come out alive.
    pub fn generate_random(&mut self)
        requires
            old(self).wf(),
        ensures
            final(self).wf(),
            final(self).width == old(self).width,
            final(self).height == old(self).height,
    {
        let mut rng = fresh_rng();
        let w: usize = self.width;
        let h: usize = self.height;
        let mut line: usize = 0;
        while line < h
            invariant
                self.wf(),
                self.width == w,
                self.height == h,
            decreases h - line,
        {
            let mut column: usize = 0;
            while column < w
                invariant
                    self.wf(),
                    self.width == w,
                    self.height == h,
                    line < h,
                decreases w - column,
            {
                let b: u8 = random_bit(&mut rng);
                self.set_tile(line, column, b);
                column = column + 1;
            }
            line = line + 1;
        }
    }

    /// The value of the cell at (line, column).
    ///
    /// An out-of-range position is a caller-contract violation, excluded
    /// by the precondition: it can never be confused with a live or dead
    /// cell.
    pub fn get_tile(&self, line: usize, column: usize) -> (v: u8)
        requires
            self.wf(),
            line < self.height,
            column < self.width,
        ensures
            v == self.cell(line as int, column as int),
            v == 0 || v == 1,
    {
        proof {
            lemma_index_bound(self.width as int, self.height as int, line as int, column as int);
        }
        self.game[line * self.width + column]
    }

    /// Writes a single-bit value at (line, column); every other cell is
    /// unchanged.
    pub fn set_tile(&mut self, line: usize, column: usize, value: u8)
        requires
            old(self).wf(),
            line < old(self).height,
            column < old(self).width,
            value == 0 || value == 1,
        ensures
            final(self).wf(),
            final(self).width == old(self).width,
            final(self).height == old(self).height,
            final(self).cell(line as int, column as int) == value,
            forall|l: int, c: int|
                old(self).in_bounds(l, c) && (l != line || c != column) ==> final(self).cell(l, c)
                    == old(self).cell(l, c),
    {
        proof {
            lemma_index_bound(self.width as int, self.height as int, line as int, column as int);
        }
        let i: usize = line * self.width + column;
        self.game.set(i, value);
        proof {
            assert forall|l: int, c: int|
                old(self).in_bounds(l, c) && (l != line || c != column) implies final(self).cell(
                l,
                c,
            ) == old(self).cell(l, c) by {
                lemma_index_bound(self.width as int, self.height as int, l, c);
                lemma_index_injective(self.width as int, l, c, line as int, column as int);
            }
        }
    }

    /// Counts the live cells among the up to eight Moore neighbours of
    /// (line, column); neighbours outside the grid are simply absent.
    pub fn neighbour_count(&self, line: usize, column: usize) -> (count: u8)
        requires
            self.wf(),
            line < self.height,
            column < self.width,
        ensures
            count as int == self.spec_neighbour_count(line as int, column as int),
            count <= 8,
    {
        let mut counter: u8 = 0;

        // Up
        if line > 0 {
            counter = counter + self.get_tile(line - 1, column);
        }
        // Down
        if line < self.height - 1 {
            counter = counter + self.get_tile(line + 1, column);
        }
        // Left
        if column > 0 {
            counter = counter + self.get_tile(line, column - 1);
        }
        // Right
        if column < self.width - 1 {
            counter = counter + self.get_tile(line, column + 1);
        }
        // Up right
        if line > 0 && column < self.width - 1 {
            counter = counter + self.get_tile(line - 1, column + 1);
        }
        // Up left
        if line > 0 && column > 0 {
            counter = counter + self.get_tile(line - 1, column - 1);
        }
        // Down right
        if line < self.height - 1 && column < self.width - 1 {
            counter = counter + self.get_tile(line + 1, column + 1);
        }
        // Down left
        if line < self.height - 1 && column > 0 {
            counter = counter + self.get_tile(line + 1, column - 1);
        }

        counter
    }

    /// The flat indices of the valid Moore neighbours of (line, column),
    /// in row-major order: the single source of truth for spatial queries
    /// about a position, defined by the same bounds predicate as the
    /// neighbour count.
    pub fn get_neighbour_index(&self, line: usize, column: usize) -> (neighbours: Vec<usize>)
        requires
            self.wf(),
            line < self.height,
            column < self.width,
        ensures
            neighbours@.len() == self.spec_neighbour_indices(line as int, column as int).len(),
            forall|k: int|
                0 <= k < neighbours@.len() ==> neighbours@[k] == self.spec_neighbour_indices(
                    line as int,
                    column as int,
                )[k],
            forall|k: int| 0 <= k < neighbours@.len() ==> neighbours@[k] < self.game@.len(),
    {
        let mut neighbours: Vec<usize> = Vec::new();
        proof {
            assert(self.height * self.width == self.width * self.height) by (nonlinear_arith);
        }

        // Up left
        if line > 0 && column > 0 {
            proof {
                lemma_index_bound(
                    self.width as int,
                    self.height as int,
                    line as int - 1,
                    column as int - 1,
                );
            }
            neighbours.push((line - 1) * self.width + (column - 1));
        }
        // Up
        if line > 0 {
            proof {
                lemma_index_bound(
                    self.width as int,
                    self.height as int,
                    line as int - 1,
                    column as int,
                );
            }
            neighbours.push((line - 1) * self.width + column);
        }
        // Up right
        if line > 0 && column < self.width - 1 {
            proof {
                lemma_index_bound(
                    self.width as int,
                    self.height as int,
                    line as int - 1,
                    column as int + 1,
                );
            }
            neighbours.push((line - 1) * self.width + (column + 1));
        }
        // Left
        if column > 0 {
            proof {
                lemma_index_bound(
                    self.width as int,
                    self.height as int,
                    line as int,
                    column as int - 1,
                );
            }
            neighbours.push(line * self.width + (column - 1));
        }
        // Right
        if column < self.width - 1 {
            proof {
                lemma_index_bound(
                    self.width as int,
                    self.height as int,
                    line as int,
                    column as int + 1,
                );
            }
            neighbours.push(line * self.width + (column + 1));
        }
        // Down left
        if line < self.height - 1 && column > 0 {
            proof {
                lemma_index_bound(
                    self.width as int,
                    self.height as int,
                    line as int + 1,
                    column as int - 1,
                );
            }
            neighbours.push((line + 1) * self.width + (column - 1));
        }
        // Down
        if line < self.height - 1 {
            proof {
                lemma_index_bound(
                    self.width as int,
                    self.height as int,
                    line as int + 1,
                    column as int,
                );
            }
            neighbours.push((line + 1) * self.width + column);
        }
        // Down right
        if line < self.height - 1 && column < self.width - 1 {
            proof {
                lemma_index_bound(
                    self.width as int,
                    self.height as int,
                    line as int + 1,
                    column as int + 1,
                );
            }
            neighbours.push((line + 1) * self.width + (column + 1));
        }

        neighbours
    }

    /// The next-generation value of the cell at (line, column), computed
    /// from the current generation only; the grid is not modified.
    pub fn update_tile(&self, line: usize, column: usize) -> (v: u8)
        requires
            self.wf(),
            line < self.height,
            column < self.width,
        ensures
            v == next_value(
                self.cell(line as int, column as int),
                self.spec_neighbour_count(line as int, column as int),
            ),
    {
        let number_of_neighbours: u8 = self.neighbour_count(line, column);
        let tile: u8 = self.get_tile(line, column);

        match (tile, number_of_neighbours) {
            (0, 3) => 1,
            (1, 0 | 1) => 0,
            (1, 2 | 3) => 1,
            (1, _) => 0,
            (_, _) => tile,
        }
    }

    /// Advances the whole grid by one generation. The next generation is
    /// computed into a fresh buffer and committed at once, so every cell's
    /// neighbour counts are read from the prior generation only.
    pub fn step(&mut self)
        requires
            old(self).wf(),
        ensures
            final(self).wf(),
            final(self).width == old(self).width,
            final(self).height == old(self).height,
            forall|l: int, c: int|
                old(self).in_bounds(l, c) ==> final(self).cell(l, c) == next_value(
                    old(self).cell(l, c),
                    old(self).spec_neighbour_count(l, c),
                ),
    {
        let w: usize = self.width;
        let h: usize = self.height;
        let mut next: Vec<u8> = Vec::new();
        let mut line: usize = 0;
        while line < h
            invariant
                self.wf(),
                *self == *old(self),
                w == self.width,
                h == self.height,
                line <= h,
                next@.len() == line * w,
                forall|k: int| 0 <= k < next@.len() ==> (next@[k] == 0 || next@[k] == 1),
                forall|l: int, c: int|
                    0 <= l < line && 0 <= c < w ==> next@[l * w + c] == next_value(
                        self.cell(l, c),
                        self.spec_neighbour_count(l, c),
                    ),
            decreases h - line,
        {
            let mut column: usize = 0;
            while column < w
                invariant
                    self.wf(),
                    *self == *old(self),
                    w == self.width,
                    h == self.height,
                    line < h,
                    column <= w,
                    next@.len() == line * w + column,
                    forall|k: int| 0 <= k < next@.len() ==> (next@[k] == 0 || next@[k] == 1),
                    forall|l: int, c: int|
                        0 <= l < line && 0 <= c < w ==> next@[l * w + c] == next_value(
                            self.cell(l, c),
                            self.spec_neighbour_count(l, c),
                        ),
                    forall|c: int|
                        0 <= c < column ==> next@[line * w + c] == next_value(
                            self.cell(line as int, c),
                            self.spec_neighbour_count(line as int, c),
                        ),
                decreases w - column,
            {
                proof {
                    lemma_index_bound(w as int, h as int, line as int, column as int);
                    assert(h * w == w * h) by (nonlinear_arith);
                }
                let v: u8 = self.update_tile(line, column);
                next.push(v);
                proof {
                    assert forall|l: int, c: int| 0 <= l < line && 0 <= c < w implies next@[l * w
                        + c] == next_value(self.cell(l, c), self.spec_neighbour_count(l, c)) by {
                        lemma_index_lt(w as int, l, c, line as int, column as int);
                    }
                }
                column = column + 1;
            }
            proof {
                assert((line + 1) * w == line * w + w) by (nonlinear_arith);
            }
            line = line + 1;
        }
        proof {
            assert(h * w == w * h) by (nonlinear_arith);
        }
        self.game = next;
        proof {
            assert forall|l: int, c: int| old(self).in_bounds(l, c) implies final(self).cell(l, c)
                == next_value(old(self).cell(l, c), old(self).spec_neighbour_count(l, c)) by {
                lemma_index_bound(w as int, h as int, l, c);
            }
        }
    }

    /// Renders the live-cell state: one '\n'-terminated text row per grid
    /// row, a space for each dead cell and 'S' for each live one. The grid
    /// is not modified.
    pub fn to_string(&self) -> (r: String)
        requires
            self.wf(),
        ensures
            r@ == self.spec_render_cells(),
    {
        let mut game_string = String::new();
        let mut line: usize = 0;
        while line < self.height
            invariant
                self.wf(),
                line <= self.height,
                game_string@ == self.spec_cells_rows(line as int),
            decreases self.height - line,
        {
            let mut column: usize = 0;
            while column < self.width
                invariant
                    self.wf(),
                    line < self.height,
                    column <= self.width,
                    game_string@ == self.spec_cells_rows(line as int) + Seq::new(
                        column as nat,
                        |c: int| cell_char(self.cell(line as int, c)),
                    ),
                decreases self.width - column,
            {
                let current_tile: u8 = self.get_tile(line, column);
                match current_tile {
                    0 => game_string.append(" "),
                    _ => game_string.append("S"),
                }
                proof {
                    reveal_strlit(" ");
                    reveal_strlit("S");
                    assert(game_string@ =~= self.spec_cells_rows(line as int) + Seq::new(
                        (column + 1) as nat,
                        |c: int| cell_char(self.cell(line as int, c)),
                    ));
                }
                column = column + 1;
            }
            game_string.append("\n");
            proof {
                reveal_strlit("\n");
                assert(game_string@ =~= self.spec_cells_rows(line as int + 1));
            }
            line = line + 1;
        }
        game_string
    }

    /// Renders the neighbour-count state: the same layout as the live-cell
    /// rendering, with the decimal digit of each cell's live neighbour
    /// count. The grid is not modified.
    pub fn to_string_neighbour(&self) -> (r: String)
        requires
            self.wf(),
        ensures
            r@ == self.spec_render_counts(),
    {
        let mut neighbour_string = String::new();
        let mut line: usize = 0;
        while line < self.height
            invariant
                self.wf(),
                line <= self.height,
                neighbour_string@ == self.spec_counts_rows(line as int),
            decreases self.height - line,
        {
            let mut column: usize = 0;
            while column < self.width
                invariant
                    self.wf(),
                    line < self.height,
                    column <= self.width,
                    neighbour_string@ == self.spec_counts_rows(line as int) + Seq::new(
                        column as nat,
                        |c: int| digit_char(self.spec_neighbour_count(line as int, c)),
                    ),
                decreases self.width - column,
            {
                let count: u8 = self.neighbour_count(line, column);
                match count {
                    0 => neighbour_string.append("0"),
                    1 => neighbour_string.append("1"),
                    2 => neighbour_string.append("2"),
                    3 => neighbour_string.append("3"),
                    4 => neighbour_string.append("4"),
                    5 => neighbour_string.append("5"),
                    6 => neighbour_string.append("6"),
                    7 => neighbour_string.append("7"),
                    _ => neighbour_string.append("8"),
                }
                proof {
                    reveal_strlit("0");
                    reveal_strlit("1");
                    reveal_strlit("2");
                    reveal_strlit("3");
                    reveal_strlit("4");
                    reveal_strlit("5");
                    reveal_strlit("6");
                    reveal_strlit("7");
                    reveal_strlit("8");
                    assert(neighbour_string@ =~= self.spec_counts_rows(line as int) + Seq::new(
                        (column + 1) as nat,
                        |c: int| digit_char(self.spec_neighbour_count(line as int, c)),
                    ));
                }
                column = column + 1;
            }
            neighbour_string.append("\n");
            proof {
                reveal_strlit("\n");
                assert(neighbour_string@ =~= self.spec_counts_rows(line as int + 1));
            }
            line = line + 1;
        }
        neighbour_string
    }
}

/// Dimension invariant: a well-formed grid holds exactly width * height
/// cells, and every operation of this module keeps it well-formed.
pub proof fn lemma_dimension_invariant(g: ConwayGame)
    requires
        g.wf(),
    ensures
        g.game@.len() == g.width * g.height,
        1 <= g.width,
        1 <= g.height,
{
}

/// A neighbour count is always between 0 and 8, on any grid and at any
/// position.
pub proof fn lemma_neighbour_count_range(g: ConwayGame, line: int, column: int)
    ensures
        0 <= g.spec_neighbour_count(line, column) <= 8,
{
}

/// A corner cell of a grid at least 2 wide and 2 high has at most 3 live
/// neighbours.
pub proof fn lemma_corner_neighbour_bound(g: ConwayGame, line: int, column: int)
    requires
        g.wf(),
        2 <= g.width,
        2 <= g.height,
        line == 0 || line == g.height - 1,
        column == 0 || column == g.width - 1,
    ensures
        g.spec_neighbour_count(line, column) <= 3,
{
}

/// The update rule, row by row of the B3/S23 table: a dead cell is born
/// exactly at 3 live neighbours; a live cell dies of underpopulation at 0
/// or 1, survives at 2 or 3, and dies of overcrowding at 4 or more.
pub proof fn lemma_rule_table()
    ensures
        forall|n: int| #[trigger] next_value(0, n) == if n == 3 { 1u8 } else { 0u8 },
        forall|n: int| 0 <= n <= 1 ==> #[trigger] next_value(1, n) == 0,
        forall|n: int| 2 <= n <= 3 ==> #[trigger] next_value(1, n) == 1,
        forall|n: int| n >= 4 ==> #[trigger] next_value(1, n) == 0,
{
}

/// Still life: a 2 by 2 block of live cells with one live corner at
/// (line, column), strictly inside the grid and surrounded by dead cells,
/// is reproduced exactly by one generation update.
pub proof fn lemma_block_still_life(g: ConwayGame, line: int, column: int)
    requires
        g.wf(),
        4 <= g.width,
        4 <= g.height,
        1 <= line && line + 2 <= g.height - 1,
        1 <= column && column + 2 <= g.width - 1,
        forall|l: int, c: int|
            g.in_bounds(l, c) ==> ((#[trigger] g.cell(l, c) == 1) <==> (line <= l <= line + 1
                && column <= c <= column + 1)),
    ensures
        forall|l: int, c: int|
            g.in_bounds(l, c) ==> next_value(
                #[trigger] g.cell(l, c),
                g.spec_neighbour_count(l, c),
            ) == g.cell(l, c),
{
    assert forall|l: int, c: int| g.in_bounds(l, c) implies next_value(
        #[trigger] g.cell(l, c),
        g.spec_neighbour_count(l, c),
    ) == g.cell(l, c) by {
        lemma_index_bound(g.width as int, g.height as int, l, c);
        assert(g.height * g.width == g.width * g.height) by (nonlinear_arith);
        assert(g.cell(l, c) == 0 || g.cell(l, c) == 1);
    }
}

/// Isolation: a lone live cell, in a grid at least 3 by 3 with every other
/// cell dead, has no live neighbours and dies in one generation update.
pub proof fn lemma_lone_cell_dies(g: ConwayGame, line: int, column: int)
    requires
        g.wf(),
        3 <= g.width,
        3 <= g.height,
        g.in_bounds(line, column),
        g.cell(line, column) == 1,
        forall|l: int, c: int|
            g.in_bounds(l, c) && (l != line || c != column) ==> #[trigger] g.cell(l, c) == 0,
    ensures
        g.spec_neighbour_count(line, column) == 0,
        next_value(g.cell(line, column), g.spec_neighbour_count(line, column)) == 0,
{
}

/// The first `lines` rendered rows hold lines * (width + 1) characters.
proof fn lemma_cells_rows_len(g: ConwayGame, lines: int)
    requires
        0 <= lines,
    ensures
        g.spec_cells_rows(lines).len() == lines * (g.width + 1),
    decreases lines,
{
    if lines == 0 {
        assert(g.spec_cells_rows(0).len() == 0);
        assert(0 * (g.width + 1) == 0) by (nonlinear_arith);
    } else {
        lemma_cells_rows_len(g, lines - 1);
        assert(g.spec_cells_row(lines - 1).len() == g.width + 1);
        assert(g.spec_cells_rows(lines).len() == (lines - 1) * (g.width + 1) + (g.width + 1));
        assert(lines * (g.width + 1) == (lines - 1) * (g.width + 1) + (g.width + 1))
            by (nonlinear_arith);
    }
}

/// Within the first `lines` rendered rows, the character at offset c of
/// row l stands at flat position l * (width + 1) + c.
proof fn lemma_cells_rows_index(g: ConwayGame, lines: int, l: int, c: int)
    requires
        0 <= l < lines,
        0 <= c <= g.width,
    ensures
        g.spec_cells_rows(lines).len() == lines * (g.width + 1),
        g.spec_cells_rows(lines)[l * (g.width + 1) + c] == g.spec_cells_row(l)[c],
    decreases lines,
{
    lemma_cells_rows_len(g, lines);
    lemma_cells_rows_len(g, lines - 1);
    if l == lines - 1 {
        assert(l * (g.width + 1) + c - (lines - 1) * (g.width + 1) == c);
    } else {
        lemma_cells_rows_index(g, lines - 1, l, c);
        lemma_index_lt(g.width as int + 1, l, c, lines - 1, 0);
    }
}

/// Shape of the live-cell rendering: `height` rows of `width` glyphs, each
/// a space or 'S', each row closed by one '\n' — so exactly
/// height * (width + 1) characters in all, row l occupying the flat
/// positions l * (width + 1) up to and including l * (width + 1) + width.
pub proof fn lemma_render_cells_shape(g: ConwayGame, l: int, c: int)
    requires
        g.wf(),
        0 <= l < g.height,
        0 <= c <= g.width,
    ensures
        g.spec_render_cells().len() == g.height * (g.width + 1),
        c < g.width ==> g.spec_render_cells()[l * (g.width + 1) + c] == cell_char(g.cell(l, c)),
        c < g.width ==> (g.spec_render_cells()[l * (g.width + 1) + c] == ' '
            || g.spec_render_cells()[l * (g.width + 1) + c] == 'S'),
        c == g.width ==> g.spec_render_cells()[l * (g.width + 1) + c] == '\n',
{
    lemma_cells_rows_index(g, g.height as int, l, c);
}

} // verus!
