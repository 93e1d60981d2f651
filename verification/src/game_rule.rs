//! The life grid: a fixed-size rectangular field of alive/dead cells advanced
//! one whole generation at a time by Conway-style birth/survival rules over
//! the 8-cell Moore neighborhood, with hard edges (no wraparound).

use vstd::prelude::*;

verus! {

/// True when `g` is a rectangular field of `h` rows, each of width `w`.
pub open spec fn grid_dims(g: Seq<Seq<bool>>, w: int, h: int) -> bool {
    g.len() == h && forall|y: int| 0 <= y < h ==> (#[trigger] g[y]).len() == w
}

/// True when no cell of `g` is alive.
pub open spec fn all_dead(g: Seq<Seq<bool>>) -> bool {
    forall|y: int, x: int|
        0 <= y < g.len() && 0 <= x < g[y].len() ==> !(#[trigger] g[y][x])
}

/// 1 when `(x, y)` lies inside the `w` by `h` field and holds a live cell,
/// 0 otherwise; coordinates outside the field never contribute.
pub open spec fn live_at(g: Seq<Seq<bool>>, w: int, h: int, x: int, y: int) -> int {
    if 0 <= y < h && 0 <= x < w && g[y][x] {
        1
    } else {
        0
    }
}

/// The number of live cells among the 8 grid-adjacent neighbors of `(x, y)`;
/// the cell itself is excluded and the field has hard edges.
pub open spec fn neighbor_count(g: Seq<Seq<bool>>, w: int, h: int, x: int, y: int) -> int {
    live_at(g, w, h, x - 1, y - 1) + live_at(g, w, h, x, y - 1) + live_at(g, w, h, x + 1, y - 1)
        + live_at(g, w, h, x - 1, y) + live_at(g, w, h, x + 1, y)
        + live_at(g, w, h, x - 1, y + 1) + live_at(g, w, h, x, y + 1) + live_at(
        g,
        w,
        h,
        x + 1,
        y + 1,
    )
}

/// The fate of one cell: a live cell survives with 2 or 3 live neighbors and
/// otherwise dies; a dead cell is born with exactly 3 live neighbors and
/// otherwise stays dead.
pub open spec fn next_cell(alive: bool, neighbors: int) -> bool {
    if alive {
        neighbors == 2 || neighbors == 3
    } else {
        neighbors == 3
    }
}

/// The whole next generation of a `w` by `h` field, every cell judged against
/// the same current generation.
pub open spec fn step_spec(g: Seq<Seq<bool>>, w: int, h: int) -> Seq<Seq<bool>> {
    Seq::new(
        h as nat,
        |y: int| Seq::new(w as nat, |x: int| next_cell(g[y][x], neighbor_count(g, w, h, x, y))),
    )
}

/// A life grid with fixed dimensions; all cells start dead.
pub struct GameRule {
    width: usize,
    height: usize,
    cells: Vec<Vec<bool>>,
}

impl View for GameRule {
    type V = Seq<Seq<bool>>;

    closed spec fn view(&self) -> Seq<Seq<bool>> {
        self.cells@.map_values(|row: Vec<bool>| row@)
    }
}

impl GameRule {
    /// The declared width of the grid.
    pub closed spec fn spec_width(&self) -> usize {
        self.width
    }

    /// The declared height of the grid.
    pub closed spec fn spec_height(&self) -> usize {
        self.height
    }

    /// The bounds invariant: the field has exactly `height` rows and every
    /// row has exactly `width` cells.
    pub open spec fn well_formed(&self) -> bool {
        grid_dims(self@, self.spec_width() as int, self.spec_height() as int)
    }

    /// A grid of the given dimensions with every cell dead; either dimension
    /// may be zero, giving a valid grid with no cells.
    pub fn new(width: usize, height: usize) -> (g: GameRule)
        ensures
            g.well_formed(),
            g.spec_width() == width,
            g.spec_height() == height,
            all_dead(g@),
    {
        let mut cells: Vec<Vec<bool>> = Vec::new();
        for y in 0..height
            invariant
                cells@.len() == y,
                forall|j: int| 0 <= j < y ==> (#[trigger] cells@[j])@.len() == width,
                forall|j: int, i: int|
                    0 <= j < y && 0 <= i < width ==> !(#[trigger] cells@[j]@[i]),
        {
            let mut row: Vec<bool> = Vec::new();
            for x in 0..width
                invariant
                    row@.len() == x,
                    forall|i: int| 0 <= i < x ==> !(#[trigger] row@[i]),
            {
                row.push(false);
            }
            cells.push(row);
        }
        let g = GameRule { width, height, cells };
        assert forall|y: int, x: int|
            0 <= y < g@.len() && 0 <= x < g@[y].len() implies !(#[trigger] g@[y][x]) by {
            assert(g@[y] == g.cells@[y]@);
        }
        g
    }

    /// Read access to the width.
    pub fn width(&self) -> (w: usize)
        ensures
            w == self.spec_width(),
    {
        self.width
    }

    /// Read access to the height.
    pub fn height(&self) -> (h: usize)
        ensures
            h == self.spec_height(),
    {
        self.height
    }

    /// Whether the cell at `(x, y)` is alive.
    pub fn is_alive(&self, x: usize, y: usize) -> (b: bool)
        requires
            self.well_formed(),
            x < self.spec_width(),
            y < self.spec_height(),
        ensures
            b == self@[y as int][x as int],
    {
        proof {
            assert(self@[y as int] == self.cells@[y as int]@);
        }
        self.cells[y][x]
    }

    /// Marks the cell at `(x, y)` alive; seeding is idempotent. Coordinates
    /// must lie inside the grid.
    pub fn set_alive(&mut self, x: usize, y: usize)
        requires
            old(self).well_formed(),
            x < old(self).spec_width(),
            y < old(self).spec_height(),
        ensures
            final(self).well_formed(),
            final(self).spec_width() == old(self).spec_width(),
            final(self).spec_height() == old(self).spec_height(),
            final(self)@ == old(self)@.update(
                y as int,
                old(self)@[y as int].update(x as int, true),
            ),
    {
        proof {
            assert(self@[y as int] == self.cells@[y as int]@);
        }
        self.cells[y][x] = true;
        assert(self@ =~= old(self)@.update(
            y as int,
            old(self)@[y as int].update(x as int, true),
        ));
    }

    /// Counts the live cells among the 8 neighbors of `(x, y)`; neighbors
    /// that would fall outside the grid do not exist and are not counted.
    fn count_neighbours(&self, x: usize, y: usize) -> (n: usize)
        requires
            self.well_formed(),
            x < self.spec_width(),
            y < self.spec_height(),
        ensures
            n == neighbor_count(
                self@,
                self.spec_width() as int,
                self.spec_height() as int,
                x as int,
                y as int,
            ),
    {
        proof {
            assert forall|j: int| 0 <= j < self@.len() implies (#[trigger] self.cells@[j])@
                == self@[j] by {}
        }
        let mut count: usize = 0;
        if y > 0 {
            if x > 0 && self.cells[y - 1][x - 1] {
                count += 1;
            }
            if self.cells[y - 1][x] {
                count += 1;
            }
            if x + 1 < self.width && self.cells[y - 1][x + 1] {
                count += 1;
            }
        }
        if x > 0 && self.cells[y][x - 1] {
            count += 1;
        }
        if x + 1 < self.width && self.cells[y][x + 1] {
            count += 1;
        }
        if y + 1 < self.height {
            if x > 0 && self.cells[y + 1][x - 1] {
                count += 1;
            }
            if self.cells[y + 1][x] {
                count += 1;
            }
            if x + 1 < self.width && self.cells[y + 1][x + 1] {
                count += 1;
            }
        }
        count
    }

    /// Computes the next generation of the whole field against the current
    /// one and replaces the field atomically; dimensions never change. On a
    /// grid with a zero dimension this is a no-op.
    pub fn step(&mut self)
        requires
            old(self).well_formed(),
        ensures
            final(self).well_formed(),
            final(self).spec_width() == old(self).spec_width(),
            final(self).spec_height() == old(self).spec_height(),
            final(self)@ == step_spec(
                old(self)@,
                old(self).spec_width() as int,
                old(self).spec_height() as int,
            ),
    {
        let ghost g0 = self@;
        let ghost w = self.spec_width() as int;
        let ghost h = self.spec_height() as int;
        let mut new_cells: Vec<Vec<bool>> = Vec::new();
        for y in 0..self.height
            invariant
                self.well_formed(),
                self@ == g0,
                self.spec_width() == w,
                self.spec_height() == h,
                new_cells@.len() == y,
                forall|j: int| 0 <= j < y ==> (#[trigger] new_cells@[j])@.len() == w,
                forall|j: int, i: int|
                    0 <= j < y && 0 <= i < w ==> #[trigger] new_cells@[j]@[i] == next_cell(
                        g0[j][i],
                        neighbor_count(g0, w, h, i, j),
                    ),
        {
            let mut row: Vec<bool> = Vec::new();
            for x in 0..self.width
                invariant
                    self.well_formed(),
                    self@ == g0,
                    self.spec_width() == w,
                    self.spec_height() == h,
                    y < h,
                    row@.len() == x,
                    forall|i: int|
                        0 <= i < x ==> #[trigger] row@[i] == next_cell(
                            g0[y as int][i],
                            neighbor_count(g0, w, h, i, y as int),
                        ),
            {
                let neighbours = self.count_neighbours(x, y);
                proof {
                    assert(self@[y as int] == self.cells@[y as int]@);
                }
                let alive = self.cells[y][x];
                row.push(next_cell_exec(alive, neighbours));
            }
            new_cells.push(row);
        }
        self.cells = new_cells;
        assert forall|j: int| 0 <= j < h implies (#[trigger] self@[j]) == step_spec(g0, w, h)[j] by {
            assert(self@[j] == self.cells@[j]@);
            assert(self@[j] =~= step_spec(g0, w, h)[j]);
        }
        assert(self@ =~= step_spec(g0, w, h));
    }
}

/// Law: stepping a grid with no live cells yields a grid with no live cells,
/// whatever its size.
pub proof fn lemma_empty_grid_stasis(g: Seq<Seq<bool>>, w: int, h: int)
    requires
        grid_dims(g, w, h),
        all_dead(g),
    ensures
        all_dead(step_spec(g, w, h)),
{
    let s = step_spec(g, w, h);
    assert forall|y: int, x: int|
        0 <= y < s.len() && 0 <= x < s[y].len() implies !(#[trigger] s[y][x]) by {
        assert(neighbor_count(g, w, h, x, y) == 0);
    }
}

/// Law: a single live cell with no live neighbors anywhere in the grid dies
/// after one step, and nothing is born, wherever the cell stands — a corner
/// or edge cell with fewer neighbor slots starves just the same.
pub proof fn lemma_lone_cell_starves(g: Seq<Seq<bool>>, w: int, h: int, cx: int, cy: int)
    requires
        grid_dims(g, w, h),
        0 <= cx < w,
        0 <= cy < h,
        g[cy][cx],
        forall|y: int, x: int|
            0 <= y < h && 0 <= x < w && (y != cy || x != cx) ==> !(#[trigger] g[y][x]),
    ensures
        all_dead(step_spec(g, w, h)),
{
    let s = step_spec(g, w, h);
    assert forall|y: int, x: int|
        0 <= y < s.len() && 0 <= x < s[y].len() implies !(#[trigger] s[y][x]) by {
        assert(neighbor_count(g, w, h, x, y) <= 1);
    }
}

/// Law: the neighbor count at the corner `(0, 0)` of any grid at least 2 wide
/// and 2 high is decided by the three adjacent cells alone — no cell at the
/// far edges, such as `(w - 1, h - 1)`, ever contributes: the grid does not
/// wrap around.
pub proof fn lemma_no_wraparound_at_origin(g: Seq<Seq<bool>>, w: int, h: int)
    requires
        grid_dims(g, w, h),
        w >= 2,
        h >= 2,
    ensures
        neighbor_count(g, w, h, 0, 0) == (if g[0][1] {
            1int
        } else {
            0
        }) + (if g[1][0] {
            1int
        } else {
            0
        }) + (if g[1][1] {
            1int
        } else {
            0
        }),
{
}

/// Law: a 2 by 2 square of live cells whose every other cell is dead is a
/// still life — one step returns the grid unchanged. Each live cell sees
/// exactly 3 live neighbors and survives; every dead cell sees at most 2 and
/// no birth happens.
pub proof fn lemma_block_still_life(g: Seq<Seq<bool>>, w: int, h: int, bx: int, by: int)
    requires
        grid_dims(g, w, h),
        0 <= bx,
        bx + 2 <= w,
        0 <= by,
        by + 2 <= h,
        forall|y: int, x: int|
            0 <= y < h && 0 <= x < w ==> (#[trigger] g[y][x] <==> (by <= y < by + 2 && bx <= x
                < bx + 2)),
    ensures
        step_spec(g, w, h) == g,
{
    let s = step_spec(g, w, h);
    assert forall|y: int| 0 <= y < h implies (#[trigger] s[y]) == g[y] by {
        assert forall|x: int| 0 <= x < w implies s[y][x] == g[y][x] by {
            if by <= y < by + 2 && bx <= x < bx + 2 {
                assert(neighbor_count(g, w, h, x, y) == 3);
            } else {
                assert(neighbor_count(g, w, h, x, y) <= 2);
            }
        }
        assert(s[y] =~= g[y]);
    }
    assert(s =~= g);
}

/// One cell's fate, computed exactly as `next_cell` states it.
fn next_cell_exec(alive: bool, neighbours: usize) -> (b: bool)
    ensures
        b == next_cell(alive, neighbours as int),
{
    match (alive, neighbours) {
        (true, n) if n < 2 => false,
        (true, 2) | (true, 3) => true,
        (true, n) if n > 3 => false,
        (false, 3) => true,
        (otherwise, _) => otherwise,
    }
}

} // verus!

