//! The simulation state and its mutation API.
//!
//! A `World` owns the arena dimensions, the agent population, the points
//! of interest and the selection cursor.  External collaborators enqueue
//! one `Command` per tick at most and read the fields back to render; all
//! mutation goes through the methods here.

use vstd::prelude::*;
use crate::boid::{all_valid, speed_sq, update_spec, Boid, MAX_BOIDS, MAX_SPEED};
use crate::math::{div_trunc, div_z, DIM_LIMIT, SCALE};
use crate::poi::{MAX_POIS, POI};

verus! {

/// A cardinal step direction for moving the selected point of interest.
#[derive(Clone, Copy, PartialEq, Eq, Structural, Debug)]
pub enum Direction {
    Left,
    Right,
    Up,
    Down,
}

/// A discrete user command, consumed at most once per tick.
#[derive(Clone, Copy, PartialEq, Eq, Structural, Debug)]
pub enum Command {
    MovePoi(Direction),
    SelectPoi(usize),
    TogglePoi,
    AddPoi,
    RemovePoi,
    SpawnBoid,
    RemoveLastBoid,
}

/// The mathematical model of a `World`.
pub ghost struct WorldView {
    pub width: int,
    pub height: int,
    pub boids: Seq<Boid>,
    pub pois: Seq<POI>,
    pub selected: int,
}

impl WorldView {
    /// Well-formedness: positive in-range dimensions, every agent inside
    /// the arena with a carryable velocity, at most `MAX_POIS` points of
    /// interest, all inside the arena, and a selection cursor that points
    /// at a live point of interest (or zero when there is none).
    pub open spec fn wf(self) -> bool {
        &&& 0 < self.width <= DIM_LIMIT
        &&& 0 < self.height <= DIM_LIMIT
        &&& self.boids.len() <= MAX_BOIDS
        &&& all_valid(self.boids, self.width, self.height)
        &&& self.pois.len() <= MAX_POIS
        &&& (forall|i: int|
            0 <= i < self.pois.len() ==> {
                &&& 0 <= (#[trigger] self.pois[i]).x <= self.width
                &&& 0 <= self.pois[i].y <= self.height
            })
        &&& (if self.pois.len() == 0 {
            self.selected == 0
        } else {
            0 <= self.selected < self.pois.len()
        })
    }
}

/// Effect of the add-POI command: a new attractor at the arena center
/// becomes the selection, unless the population is at `MAX_POIS`.
pub open spec fn spawned_poi(w: WorldView) -> WorldView {
    if w.pois.len() < MAX_POIS {
        WorldView {
            pois: w.pois.push(
                POI {
                    x: div_z(w.width, 2) as i64,
                    y: div_z(w.height, 2) as i64,
                    toggled: true,
                },
            ),
            selected: w.pois.len() as int,
            ..w
        }
    } else {
        w
    }
}

/// Effect of the remove-POI command: the selected point of interest is
/// deleted and the cursor clamps to the last remaining index, or to zero
/// when the set becomes empty.  A no-op on an empty set.
pub open spec fn removed_poi(w: WorldView) -> WorldView {
    if w.pois.len() == 0 {
        w
    } else {
        let rest = w.pois.remove(w.selected);
        WorldView {
            pois: rest,
            selected: if w.selected < rest.len() {
                w.selected
            } else if rest.len() == 0 {
                0
            } else {
                rest.len() - 1
            },
            ..w
        }
    }
}

/// A point of interest shifted one unit in a direction, unless the step
/// would leave `[0, limit)` on that axis.
pub open spec fn stepped_poi(p: POI, dir: Direction, w: int, h: int) -> POI {
    match dir {
        Direction::Left => if p.x - SCALE >= 0 {
            POI { x: (p.x - SCALE) as i64, y: p.y, toggled: p.toggled }
        } else {
            p
        },
        Direction::Right => if p.x + SCALE < w {
            POI { x: (p.x + SCALE) as i64, y: p.y, toggled: p.toggled }
        } else {
            p
        },
        Direction::Up => if p.y - SCALE >= 0 {
            POI { x: p.x, y: (p.y - SCALE) as i64, toggled: p.toggled }
        } else {
            p
        },
        Direction::Down => if p.y + SCALE < h {
            POI { x: p.x, y: (p.y + SCALE) as i64, toggled: p.toggled }
        } else {
            p
        },
    }
}

/// Effect of the move command on the selected point of interest.
pub open spec fn moved_poi(w: WorldView, dir: Direction) -> WorldView {
    if w.pois.len() == 0 {
        w
    } else {
        WorldView {
            pois: w.pois.update(
                w.selected,
                stepped_poi(w.pois[w.selected], dir, w.width, w.height),
            ),
            ..w
        }
    }
}

/// Effect of the toggle command: the selected point of interest flips
/// between attractor and repeller.
pub open spec fn toggled_poi(w: WorldView) -> WorldView {
    if w.pois.len() == 0 {
        w
    } else {
        let p = w.pois[w.selected];
        WorldView {
            pois: w.pois.update(w.selected, POI { x: p.x, y: p.y, toggled: !p.toggled }),
            ..w
        }
    }
}

/// Effect of the select command: the cursor moves only to an index where
/// a point of interest exists.
pub open spec fn selected_poi(w: WorldView, index: int) -> WorldView {
    if index < w.pois.len() {
        WorldView { selected: index, ..w }
    } else {
        w
    }
}

/// Effect of the remove-last-agent command: stack-like removal of the
/// most recent spawn; a no-op on an empty population.
pub open spec fn removed_last_boid(w: WorldView) -> WorldView {
    if w.boids.len() == 0 {
        w
    } else {
        WorldView { boids: w.boids.drop_last(), ..w }
    }
}

/// Relies on rand 0.8's `Rng::gen_range` on `thread_rng`: it returns a
/// value drawn from the given half-open range, and panics only when the
/// range is empty.
#[verifier::external_body]
fn rand_in_range(lo: i64, hi: i64) -> (r: i64)
    requires
        lo < hi,
    ensures
        lo <= r < hi,
{
    rand::Rng::gen_range(&mut rand::thread_rng(), lo..hi)
}

/// The simulation state: arena dimensions, agents, points of interest and
/// the selection cursor.
pub struct World {
    pub width: i64,
    pub height: i64,
    pub boids: Vec<Boid>,
    pub pois: Vec<POI>,
    pub selected: usize,
}

impl View for World {
    type V = WorldView;

    open spec fn view(&self) -> WorldView {
        WorldView {
            width: self.width as int,
            height: self.height as int,
            boids: self.boids@,
            pois: self.pois@,
            selected: self.selected as int,
        }
    }
}

impl World {
    /// An empty world over a `width` by `height` arena.
    pub fn new(width: i64, height: i64) -> (w: World)
        requires
            0 < width <= DIM_LIMIT,
            0 < height <= DIM_LIMIT,
        ensures
            w@.wf(),
            w@.width == width,
            w@.height == height,
            w@.boids.len() == 0,
            w@.pois.len() == 0,
            w@.selected == 0,
    {
        World { width, height, boids: Vec::new(), pois: Vec::new(), selected: 0 }
    }

    /// Add a point of interest at the arena center and select it; a no-op
    /// when `MAX_POIS` already exist, so the population never exceeds the
    /// cap however many adds are issued.
    pub fn spawn_poi(&mut self)
        requires
            old(self)@.wf(),
        ensures
            final(self)@.wf(),
            final(self)@ == spawned_poi(old(self)@),
            final(self)@.pois.len() <= MAX_POIS,
    {
        if self.pois.len() < MAX_POIS {
            let cx: i64 = div_trunc(self.width, 2);
            let cy: i64 = div_trunc(self.height, 2);
            proof {
                crate::math::lemma_div_z_le(self.width as int, 2, self.width as int);
                crate::math::lemma_div_z_basics(self.width as int, 2);
                crate::math::lemma_div_z_le(self.height as int, 2, self.height as int);
                crate::math::lemma_div_z_basics(self.height as int, 2);
            }
            self.pois.push(POI::new(cx, cy));
            self.selected = self.pois.len() - 1;
        }
    }

    /// Remove the selected point of interest; the cursor clamps to the
    /// new last index, or to zero when the set becomes empty.  A no-op on
    /// an empty set.
    pub fn remove_poi(&mut self)
        requires
            old(self)@.wf(),
        ensures
            final(self)@.wf(),
            final(self)@ == removed_poi(old(self)@),
    {
        if self.pois.len() > 0 {
            self.pois.remove(self.selected);
            if self.selected >= self.pois.len() {
                self.selected = if self.pois.len() == 0 {
                    0
                } else {
                    self.pois.len() - 1
                };
            }
        }
    }

    /// Shift the selected point of interest one unit in a direction, only
    /// while the result stays inside `[0, dimension)` on that axis.  A
    /// no-op on an empty set.
    pub fn move_poi(&mut self, dir: Direction)
        requires
            old(self)@.wf(),
        ensures
            final(self)@.wf(),
            final(self)@ == moved_poi(old(self)@, dir),
    {
        if self.pois.len() > 0 {
            let mut p: POI = self.pois[self.selected];
            match dir {
                Direction::Left => if p.x - SCALE >= 0 {
                    p.step(-SCALE, 0);
                },
                Direction::Right => if p.x + SCALE < self.width {
                    p.step(SCALE, 0);
                },
                Direction::Up => if p.y - SCALE >= 0 {
                    p.step(0, -SCALE);
                },
                Direction::Down => if p.y + SCALE < self.height {
                    p.step(0, SCALE);
                },
            }
            self.pois[self.selected] = p;
            proof {
                assert(self@.pois =~= moved_poi(old(self)@, dir).pois);
            }
        }
    }

    /// Flip the selected point of interest between attractor and
    /// repeller.  A no-op on an empty set.
    pub fn toggle_poi(&mut self)
        requires
            old(self)@.wf(),
        ensures
            final(self)@.wf(),
            final(self)@ == toggled_poi(old(self)@),
    {
        if self.pois.len() > 0 {
            let mut p: POI = self.pois[self.selected];
            p.toggle();
            self.pois[self.selected] = p;
            proof {
                assert(self@.pois =~= toggled_poi(old(self)@).pois);
            }
        }
    }

    /// Move the selection cursor to `index`, only if a point of interest
    /// exists there; otherwise the selection keeps its prior value.
    pub fn select_poi(&mut self, index: usize)
        requires
            old(self)@.wf(),
        ensures
            final(self)@.wf(),
            final(self)@ == selected_poi(old(self)@, index as int),
    {
        if index < self.pois.len() {
            self.selected = index;
        }
    }

    /// Spawn an agent with a position uniformly random in the arena and a
    /// velocity uniformly random within ten units per tick on each axis
    /// (a burst beyond `MAX_SPEED`, clamped down on its first update).
    pub fn spawn_boid(&mut self)
        requires
            old(self)@.wf(),
            old(self)@.boids.len() < MAX_BOIDS,
        ensures
            final(self)@.wf(),
            final(self)@.boids.len() == old(self)@.boids.len() + 1,
            forall|i: int|
                0 <= i < old(self)@.boids.len() ==> final(self)@.boids[i] == old(self)@.boids[i],
            0 <= final(self)@.boids.last().x < old(self)@.width,
            0 <= final(self)@.boids.last().y < old(self)@.height,
            -10 * SCALE <= final(self)@.boids.last().vx < 10 * SCALE,
            -10 * SCALE <= final(self)@.boids.last().vy < 10 * SCALE,
            final(self)@.pois == old(self)@.pois,
            final(self)@.selected == old(self)@.selected,
            final(self)@.width == old(self)@.width,
            final(self)@.height == old(self)@.height,
    {
        let x: i64 = rand_in_range(0, self.width);
        let y: i64 = rand_in_range(0, self.height);
        let vx: i64 = rand_in_range(-10 * SCALE, 10 * SCALE);
        let vy: i64 = rand_in_range(-10 * SCALE, 10 * SCALE);
        self.boids.push(Boid::new(x, y, vx, vy));
    }

    /// Remove the most recently spawned agent; a no-op on an empty
    /// population (the size stays zero and nothing faults).
    pub fn remove_last_boid(&mut self)
        requires
            old(self)@.wf(),
        ensures
            final(self)@.wf(),
            final(self)@ == removed_last_boid(old(self)@),
            old(self)@.boids.len() == 0 ==> final(self)@ == old(self)@,
    {
        if self.boids.len() > 0 {
            self.boids.pop();
        }
    }

    /// Dispatch one user command to the mutation API.  A spawn command at
    /// the population cap is a no-op.
    pub fn apply(&mut self, cmd: Command)
        requires
            old(self)@.wf(),
        ensures
            final(self)@.wf(),
            match cmd {
                Command::MovePoi(dir) => final(self)@ == moved_poi(old(self)@, dir),
                Command::SelectPoi(i) => final(self)@ == selected_poi(old(self)@, i as int),
                Command::TogglePoi => final(self)@ == toggled_poi(old(self)@),
                Command::AddPoi => final(self)@ == spawned_poi(old(self)@),
                Command::RemovePoi => final(self)@ == removed_poi(old(self)@),
                Command::SpawnBoid => old(self)@.boids.len() >= MAX_BOIDS ==> final(self)@ == old(
                    self,
                )@,
                Command::RemoveLastBoid => final(self)@ == removed_last_boid(old(self)@),
            },
            cmd is SpawnBoid && old(self)@.boids.len() < MAX_BOIDS ==> {
                &&& final(self)@.boids.len() == old(self)@.boids.len() + 1
                &&& (forall|i: int|
                    0 <= i < old(self)@.boids.len() ==> final(self)@.boids[i] == old(
                        self,
                    )@.boids[i])
                &&& final(self)@.pois == old(self)@.pois
            },
    {
        match cmd {
            Command::MovePoi(dir) => self.move_poi(dir),
            Command::SelectPoi(i) => self.select_poi(i),
            Command::TogglePoi => self.toggle_poi(),
            Command::AddPoi => self.spawn_poi(),
            Command::RemovePoi => self.remove_poi(),
            Command::SpawnBoid => if self.boids.len() < MAX_BOIDS {
                self.spawn_boid();
            },
            Command::RemoveLastBoid => self.remove_last_boid(),
        }
    }

    /// An exact copy of the agent population, used as the pre-tick
    /// snapshot.
    fn snapshot_boids(&self) -> (r: Vec<Boid>)
        ensures
            r@ == self.boids@,
    {
        let mut r: Vec<Boid> = Vec::new();
        let mut i: usize = 0;
        while i < self.boids.len()
            invariant
                0 <= i <= self.boids.len(),
                r@ == self.boids@.subrange(0, i as int),
            decreases self.boids.len() - i,
        {
            r.push(self.boids[i]);
            proof {
                assert(r@ =~= self.boids@.subrange(0, i as int + 1));
            }
            i = i + 1;
        }
        proof {
            assert(r@ =~= self.boids@);
        }
        r
    }

    /// One simulation tick: every agent's next state is computed from the
    /// same pre-tick snapshot (simultaneous, order-independent updates),
    /// then applied.  Afterward every agent is back inside the arena and
    /// its speed is at most one unit per tick, up to the fixed-point
    /// granularity.
    pub fn tick(&mut self)
        requires
            old(self)@.wf(),
        ensures
            final(self)@.wf(),
            final(self)@.width == old(self)@.width,
            final(self)@.height == old(self)@.height,
            final(self)@.pois == old(self)@.pois,
            final(self)@.selected == old(self)@.selected,
            final(self)@.boids.len() == old(self)@.boids.len(),
            forall|i: int|
                0 <= i < old(self)@.boids.len() ==> final(self)@.boids[i] == update_spec(
                    old(self)@.boids[i],
                    old(self)@.boids,
                    i,
                    old(self)@.pois,
                    old(self)@.width,
                    old(self)@.height,
                ),
            forall|i: int|
                0 <= i < final(self)@.boids.len() ==> {
                    &&& 0 <= (#[trigger] final(self)@.boids[i]).x <= old(self)@.width
                    &&& 0 <= final(self)@.boids[i].y <= old(self)@.height
                },
            forall|i: int|
                0 <= i < final(self)@.boids.len() ==> speed_sq(#[trigger] final(self)@.boids[i]) < (
                MAX_SPEED + 1) * (MAX_SPEED + 1),
    {
        let ghost orig: Seq<Boid> = self.boids@;
        let ghost opois: Seq<POI> = self.pois@;
        let ghost w0: int = self.width as int;
        let ghost h0: int = self.height as int;
        let snapshot: Vec<Boid> = self.snapshot_boids();
        let n: usize = self.boids.len();
        let mut i: usize = 0;
        while i < n
            invariant
                0 <= i <= n,
                self.width == w0,
                self.height == h0,
                0 < w0 <= DIM_LIMIT,
                0 < h0 <= DIM_LIMIT,
                snapshot@ == orig,
                self.pois@ == opois,
                opois.len() <= MAX_POIS,
                forall|j: int|
                    0 <= j < opois.len() ==> {
                        &&& 0 <= (#[trigger] opois[j]).x <= w0
                        &&& 0 <= opois[j].y <= h0
                    },
                n == orig.len(),
                orig.len() <= MAX_BOIDS,
                all_valid(orig, w0, h0),
                self.boids@.len() == orig.len(),
                self.selected == old(self).selected,
                forall|j: int|
                    i <= j < orig.len() ==> self.boids@[j] == orig[j],
                forall|j: int|
                    0 <= j < i ==> self.boids@[j] == update_spec(orig[j], orig, j, opois, w0, h0),
                forall|j: int| 0 <= j < i ==> (#[trigger] self.boids@[j]).valid(w0, h0),
                forall|j: int|
                    0 <= j < i ==> speed_sq(#[trigger] self.boids@[j]) < (MAX_SPEED + 1) * (
                    MAX_SPEED + 1),
            decreases n - i,
        {
            proof {
                assert forall|k: int| 0 <= k < opois.len() implies (
                #[trigger] opois[k]).bounded() by {
                    assert(0 <= opois[k].x <= w0 && 0 <= opois[k].y <= h0);
                }
            }
            let mut b: Boid = self.boids[i];
            proof {
                assert(self.boids@[i as int] == orig[i as int]);
                assert(orig[i as int].valid(w0, h0));
            }
            b.update(self.width, self.height, &snapshot, i, &self.pois);
            self.boids[i] = b;
            i = i + 1;
        }
    }

    /// The number of live agents.
    pub fn boid_count(&self) -> (n: usize)
        ensures
            n == self@.boids.len(),
    {
        self.boids.len()
    }

    /// The number of live points of interest.
    pub fn poi_count(&self) -> (n: usize)
        ensures
            n == self@.pois.len(),
    {
        self.pois.len()
    }
}

} // verus!
