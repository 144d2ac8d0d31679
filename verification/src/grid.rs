//! Mapping the continuous simulation onto a character grid.
//!
//! Continuous positions round to the nearest cell; an agent shows as a
//! compass glyph chosen from its velocity, a point of interest as `*`, or
//! `o` when selected.  Points of interest are drawn after agents, so they
//! win a shared cell.  Coloring the glyphs is left to the renderer.

use vstd::prelude::*;
use crate::boid::Boid;
use crate::math::{abs_val, div_trunc, div_z, DIM_LIMIT, HALF_SCALE, SCALE};
use crate::poi::POI;

verus! {

/// Largest grid dimension accepted, so cell indices stay well inside
/// `usize` (a terminal reports its size in 16-bit counts).
pub const GRID_LIMIT: usize = 0x8000;

/// The compass glyph for a velocity: the dominant axis wins; on a tie the
/// quadrant picks a diagonal, and a zero velocity shows as stationary.
pub open spec fn direction_symbol_spec(vx: int, vy: int) -> char {
    if abs_val(vx) > abs_val(vy) {
        if vx > 0 {
            '⇒'
        } else {
            '⇐'
        }
    } else if abs_val(vy) > abs_val(vx) {
        if vy > 0 {
            '⇓'
        } else {
            '⇑'
        }
    } else if vx > 0 && vy < 0 {
        '⇗'
    } else if vx < 0 && vy < 0 {
        '⇖'
    } else if vx > 0 && vy > 0 {
        '⇘'
    } else if vx < 0 && vy > 0 {
        '⇙'
    } else {
        '•'
    }
}

/// The compass glyph for a velocity, executable.
pub fn get_direction_symbol(vx: i64, vy: i64) -> (c: char)
    requires
        vx > i64::MIN,
        vy > i64::MIN,
    ensures
        c == direction_symbol_spec(vx as int, vy as int),
{
    let ax: i64 = if vx < 0 {
        -vx
    } else {
        vx
    };
    let ay: i64 = if vy < 0 {
        -vy
    } else {
        vy
    };
    if ax > ay {
        if vx > 0 {
            '⇒'
        } else {
            '⇐'
        }
    } else if ay > ax {
        if vy > 0 {
            '⇓'
        } else {
            '⇑'
        }
    } else if vx > 0 && vy < 0 {
        '⇗'
    } else if vx < 0 && vy < 0 {
        '⇖'
    } else if vx > 0 && vy > 0 {
        '⇘'
    } else if vx < 0 && vy > 0 {
        '⇙'
    } else {
        '•'
    }
}

/// The grid cell of a nonnegative fixed-point coordinate: round to the
/// nearest whole unit.
pub open spec fn cell_of(v: int) -> int {
    div_z(v + HALF_SCALE, SCALE as int)
}

/// A blank frame of `rows * cols` cells, row-major.
pub open spec fn blank_frame(rows: int, cols: int) -> Seq<char> {
    Seq::new((rows * cols) as nat, |i: int| ' ')
}

/// The frame after drawing the first `k` agents, each as its direction
/// glyph at its rounded cell, skipping agents outside the grid.
pub open spec fn place_boids(f: Seq<char>, boids: Seq<Boid>, rows: int, cols: int, k: int) -> Seq<
    char,
>
    decreases k,
{
    if k <= 0 {
        f
    } else {
        let f1 = place_boids(f, boids, rows, cols, k - 1);
        let b = boids[k - 1];
        let cx = cell_of(b.x as int);
        let cy = cell_of(b.y as int);
        if cx < cols && cy < rows {
            f1.update(cy * cols + cx, direction_symbol_spec(b.vx as int, b.vy as int))
        } else {
            f1
        }
    }
}

/// The frame after drawing the first `k` points of interest over the
/// agents: `o` for the selected one, `*` for the rest.
pub open spec fn place_pois(f: Seq<char>, pois: Seq<POI>, selected: int, rows: int, cols: int, k: int) -> Seq<char>
    decreases k,
{
    if k <= 0 {
        f
    } else {
        let f1 = place_pois(f, pois, selected, rows, cols, k - 1);
        let p = pois[k - 1];
        let cx = cell_of(p.x as int);
        let cy = cell_of(p.y as int);
        if cx < cols && cy < rows {
            f1.update(cy * cols + cx, if k - 1 == selected { 'o' } else { '*' })
        } else {
            f1
        }
    }
}

/// A full rendered frame: agents first, points of interest on top.
pub open spec fn frame_spec(
    boids: Seq<Boid>,
    pois: Seq<POI>,
    selected: int,
    rows: int,
    cols: int,
) -> Seq<char> {
    place_pois(
        place_boids(blank_frame(rows, cols), boids, rows, cols, boids.len() as int),
        pois,
        selected,
        rows,
        cols,
        pois.len() as int,
    )
}

/// A character grid sized to the display surface.
pub struct Grid {
    pub rows: usize,
    pub cols: usize,
    pub data: Vec<Vec<char>>,
}

impl Grid {
    /// The stored canvas matches the dimensions and is blank.
    pub open spec fn wf(self) -> bool {
        &&& self.rows <= GRID_LIMIT
        &&& self.cols <= GRID_LIMIT
        &&& self.data@.len() == self.rows
        &&& forall|i: int|
            0 <= i < self.rows ==> {
                &&& (#[trigger] self.data@[i])@.len() == self.cols
                &&& forall|j: int| 0 <= j < self.cols ==> self.data@[i]@[j] == ' '
            }
    }

    /// A blank grid of the given dimensions.
    pub fn new(rows: usize, cols: usize) -> (g: Grid)
        requires
            rows <= GRID_LIMIT,
            cols <= GRID_LIMIT,
        ensures
            g.rows == rows,
            g.cols == cols,
            g.wf(),
    {
        let mut data: Vec<Vec<char>> = Vec::new();
        let mut i: usize = 0;
        while i < rows
            invariant
                0 <= i <= rows,
                data@.len() == i,
                forall|r: int|
                    0 <= r < i ==> {
                        &&& (#[trigger] data@[r])@.len() == cols
                        &&& forall|j: int| 0 <= j < cols ==> data@[r]@[j] == ' '
                    },
            decreases rows - i,
        {
            let mut row: Vec<char> = Vec::new();
            let mut j: usize = 0;
            while j < cols
                invariant
                    0 <= j <= cols,
                    row@.len() == j,
                    forall|c: int| 0 <= c < j ==> row@[c] == ' ',
                decreases cols - j,
            {
                row.push(' ');
                j = j + 1;
            }
            data.push(row);
            i = i + 1;
        }
        Grid { rows, cols, data }
    }

    /// Render one frame of the simulation into a row-major cell buffer:
    /// each agent as its direction glyph, each point of interest as `*`
    /// (the selected one as `o`) drawn on top.
    pub fn compose_frame(&self, boids: &Vec<Boid>, pois: &Vec<POI>, selected: usize) -> (frame: Vec<
        char,
    >)
        requires
            self.wf(),
            forall|i: int|
                0 <= i < boids.len() ==> {
                    &&& 0 <= (#[trigger] boids[i]).x <= DIM_LIMIT
                    &&& 0 <= boids[i].y <= DIM_LIMIT
                    &&& boids[i].vx > i64::MIN
                    &&& boids[i].vy > i64::MIN
                },
            forall|i: int|
                0 <= i < pois.len() ==> {
                    &&& 0 <= (#[trigger] pois[i]).x <= DIM_LIMIT
                    &&& 0 <= pois[i].y <= DIM_LIMIT
                },
        ensures
            frame@ == frame_spec(
                boids@,
                pois@,
                selected as int,
                self.rows as int,
                self.cols as int,
            ),
            frame@.len() == self.rows * self.cols,
    {
        let rows: usize = self.rows;
        let cols: usize = self.cols;
        proof {
            assert(rows * cols <= 0x8000 * 0x8000) by (nonlinear_arith)
                requires
                    rows <= 0x8000,
                    cols <= 0x8000,
            ;
        }
        let total: usize = rows * cols;
        let mut frame: Vec<char> = Vec::new();
        let mut i: usize = 0;
        while i < total
            invariant
                0 <= i <= total,
                frame@.len() == i,
                forall|j: int| 0 <= j < i ==> frame@[j] == ' ',
            decreases total - i,
        {
            frame.push(' ');
            i = i + 1;
        }
        proof {
            assert(frame@ =~= blank_frame(rows as int, cols as int));
        }
        let ghost blank: Seq<char> = frame@;
        let mut k: usize = 0;
        while k < boids.len()
            invariant
                0 <= k <= boids.len(),
                rows <= GRID_LIMIT,
                cols <= GRID_LIMIT,
                total == rows * cols,
                forall|i: int|
                    0 <= i < boids.len() ==> {
                        &&& 0 <= (#[trigger] boids[i]).x <= DIM_LIMIT
                        &&& 0 <= boids[i].y <= DIM_LIMIT
                        &&& boids[i].vx > i64::MIN
                        &&& boids[i].vy > i64::MIN
                    },
                frame@.len() == total,
                frame@ == place_boids(blank, boids@, rows as int, cols as int, k as int),
            decreases boids.len() - k,
        {
            let b: Boid = boids[k];
            proof {
                crate::math::lemma_div_z_basics(b.x + HALF_SCALE, SCALE as int);
                crate::math::lemma_div_z_basics(b.y + HALF_SCALE, SCALE as int);
            }
            let cx: i64 = div_trunc(b.x + HALF_SCALE, SCALE);
            let cy: i64 = div_trunc(b.y + HALF_SCALE, SCALE);
            if (cx as usize) < cols && (cy as usize) < rows {
                let sym: char = get_direction_symbol(b.vx, b.vy);
                proof {
                    assert((cy as usize) * cols + (cx as usize) < total) by (nonlinear_arith)
                        requires
                            (cy as usize) < rows,
                            (cx as usize) < cols,
                            total == rows * cols,
                    ;
                }
                let idx: usize = (cy as usize) * cols + (cx as usize);
                frame[idx] = sym;
            }
            k = k + 1;
        }
        let ghost after_boids: Seq<char> = frame@;
        let mut k2: usize = 0;
        while k2 < pois.len()
            invariant
                0 <= k2 <= pois.len(),
                rows <= GRID_LIMIT,
                cols <= GRID_LIMIT,
                total == rows * cols,
                forall|i: int|
                    0 <= i < pois.len() ==> {
                        &&& 0 <= (#[trigger] pois[i]).x <= DIM_LIMIT
                        &&& 0 <= pois[i].y <= DIM_LIMIT
                    },
                frame@.len() == total,
                frame@ == place_pois(
                    after_boids,
                    pois@,
                    selected as int,
                    rows as int,
                    cols as int,
                    k2 as int,
                ),
            decreases pois.len() - k2,
        {
            let p: POI = pois[k2];
            proof {
                crate::math::lemma_div_z_basics(p.x + HALF_SCALE, SCALE as int);
                crate::math::lemma_div_z_basics(p.y + HALF_SCALE, SCALE as int);
            }
            let cx: i64 = div_trunc(p.x + HALF_SCALE, SCALE);
            let cy: i64 = div_trunc(p.y + HALF_SCALE, SCALE);
            if (cx as usize) < cols && (cy as usize) < rows {
                let sym: char = if k2 == selected {
                    'o'
                } else {
                    '*'
                };
                proof {
                    assert((cy as usize) * cols + (cx as usize) < total) by (nonlinear_arith)
                        requires
                            (cy as usize) < rows,
                            (cx as usize) < cols,
                            total == rows * cols,
                    ;
                }
                let idx: usize = (cy as usize) * cols + (cx as usize);
                frame[idx] = sym;
            }
            k2 = k2 + 1;
        }
        frame
    }
}

} // verus!
