//! 3D DDA ray marching: step a ray one cell boundary at a time until it hits
//! an occupied voxel or leaves a bounded radius.
//!
//! The ray direction is an integer fixed-point vector. Per-axis side
//! distances and their increments are held in fixed point too, so the whole
//! march is exact integer arithmetic. The canonical policy: the starting
//! cell is tested before any step is taken, each iteration then steps once
//! and tests the newly entered cell; on an exact tie of side distances axis
//! `x` is preferred over `y`, and `y` over `z`.

use vstd::prelude::*;

use crate::grid::VoxelGrid;

verus! {

/// Largest accepted squared ray radius.
pub const MAX_DIST_SQ_LIMIT: u32 = 0x4000_0000;

/// Largest accepted magnitude of a direction component.
pub const MAX_DIR_COMPONENT: i64 = 0x4000_0000;

/// Largest accepted magnitude of a ray origin coordinate.
pub const MAX_ORIGIN: i32 = 65536;

/// Numerator of a per-axis side-distance increment: an increment is this
/// value divided by the direction component's magnitude.
pub const DELTA_NUM: u64 = 0x100_0000_0000;

/// Outcome of one ray march: the color of the first occupied cell met, or a
/// miss.
#[derive(Clone, Copy, Debug, PartialEq, Eq, Structural)]
pub enum RayHit {
    Hit(u32),
    Miss,
}

/// Per-ray DDA state: the current cell, the accumulated side distance per
/// axis, the fixed per-axis increment, and the step direction per axis.
#[derive(Clone, Copy, Debug, PartialEq, Eq, Structural)]
pub struct RayState {
    pub map_x: i64,
    pub map_y: i64,
    pub map_z: i64,
    pub side_x: u64,
    pub side_y: u64,
    pub side_z: u64,
    pub delta_x: u64,
    pub delta_y: u64,
    pub delta_z: u64,
    pub step_x: i64,
    pub step_y: i64,
    pub step_z: i64,
}

/// A ray march and the number of DDA steps it took.
#[derive(Clone, Copy, Debug, PartialEq, Eq, Structural)]
pub struct MarchOutcome {
    pub hit: RayHit,
    pub steps: u64,
}

pub open spec fn spec_sign(v: int) -> int {
    if v > 0 {
        1
    } else if v < 0 {
        -1
    } else {
        0
    }
}

/// Side-distance increment for one axis: `DELTA_NUM / |v|`, or 0 for a zero
/// component, whose axis is never eligible for stepping.
pub open spec fn spec_delta(v: int) -> int {
    if v > 0 {
        0x100_0000_0000int / v
    } else if v < 0 {
        0x100_0000_0000int / -v
    } else {
        0
    }
}

/// The DDA state a march starts from: the origin cell, zero accumulated
/// side distances, and per-axis increments and step directions derived from
/// the direction vector.
pub open spec fn spec_init_state(dx: int, dy: int, dz: int, ox: int, oy: int, oz: int) -> RayState {
    RayState {
        map_x: ox as i64,
        map_y: oy as i64,
        map_z: oz as i64,
        side_x: 0,
        side_y: 0,
        side_z: 0,
        delta_x: spec_delta(dx) as u64,
        delta_y: spec_delta(dy) as u64,
        delta_z: spec_delta(dz) as u64,
        step_x: spec_sign(dx) as i64,
        step_y: spec_sign(dy) as i64,
        step_z: spec_sign(dz) as i64,
    }
}

/// Squared Euclidean distance of the current cell from the world center.
pub open spec fn spec_dist_sq(st: RayState) -> int {
    st.map_x * st.map_x + st.map_y * st.map_y + st.map_z * st.map_z
}

pub open spec fn spec_sat_add(a: int, b: int) -> int {
    if a + b > u64::MAX {
        u64::MAX as int
    } else {
        a + b
    }
}

/// The axis stepped next: among the eligible axes (nonzero step), the one
/// with the least accumulated side distance, `x` preferred over `y` over `z`
/// on exact ties.
pub open spec fn spec_pick_axis(st: RayState) -> int {
    let ex = st.step_x != 0;
    let ey = st.step_y != 0;
    let ez = st.step_z != 0;
    if ex && (!ey || st.side_x <= st.side_y) && (!ez || st.side_x <= st.side_z) {
        0
    } else if ey && (!ez || st.side_y <= st.side_z) {
        1
    } else {
        2
    }
}

/// One DDA transition: advance the picked axis by its step and accumulate
/// its side distance.
pub open spec fn spec_step_state(st: RayState) -> RayState {
    let axis = spec_pick_axis(st);
    RayState {
        map_x: if axis == 0 {
            (st.map_x + st.step_x) as i64
        } else {
            st.map_x
        },
        map_y: if axis == 1 {
            (st.map_y + st.step_y) as i64
        } else {
            st.map_y
        },
        map_z: if axis == 2 {
            (st.map_z + st.step_z) as i64
        } else {
            st.map_z
        },
        side_x: if axis == 0 {
            spec_sat_add(st.side_x as int, st.delta_x as int) as u64
        } else {
            st.side_x
        },
        side_y: if axis == 1 {
            spec_sat_add(st.side_y as int, st.delta_y as int) as u64
        } else {
            st.side_y
        },
        side_z: if axis == 2 {
            spec_sat_add(st.side_z as int, st.delta_z as int) as u64
        } else {
            st.side_z
        },
        delta_x: st.delta_x,
        delta_y: st.delta_y,
        delta_z: st.delta_z,
        step_x: st.step_x,
        step_y: st.step_y,
        step_z: st.step_z,
    }
}

/// The ray-march state machine, one recursive unfolding per transition:
/// miss once the current cell leaves the radius or the grid, hit on the
/// first occupied cell, otherwise step. `None` stands for exhausted fuel
/// and never occurs for the fuel bound [`march_fuel`].
pub open spec fn spec_march(g: VoxelGrid, st: RayState, d: int, fuel: nat) -> Option<RayHit>
    decreases fuel,
{
    if fuel == 0 {
        None
    } else if spec_dist_sq(st) > d {
        Some(RayHit::Miss)
    } else if !g.spec_valid(st.map_x as int, st.map_y as int, st.map_z as int) {
        Some(RayHit::Miss)
    } else if g.spec_at(st.map_x as int, st.map_y as int, st.map_z as int) != 0 {
        Some(RayHit::Hit(g.spec_at(st.map_x as int, st.map_y as int, st.map_z as int)))
    } else {
        spec_march(g, spec_step_state(st), d, (fuel - 1) as nat)
    }
}

/// Iterations enough for any march of squared radius `d`: each step moves
/// the cell one unit further from the start in L1 distance, and a cell
/// within the radius keeps every coordinate magnitude at most `d`.
pub open spec fn march_fuel(d: int) -> nat {
    (3 * d + 196610) as nat
}

/// Steps already taken along one axis: the cell moves monotonically in the
/// axis' fixed step direction.
pub open spec fn spec_axis_steps(m: int, o: int, s: int) -> int {
    if s == 1 {
        m - o
    } else if s == -1 {
        o - m
    } else {
        0
    }
}

/// A march that hits reports the color of an occupied cell of the grid.
proof fn lemma_march_hit(g: VoxelGrid, st: RayState, d: int, fuel: nat, c: u32)
    requires
        spec_march(g, st, d, fuel) == Some(RayHit::Hit(c)),
    ensures
        exists|x: int, y: int, z: int|
            g.spec_valid(x, y, z) && g.spec_at(x, y, z) == c && c != 0,
    decreases fuel,
{
    let mx = st.map_x as int;
    let my = st.map_y as int;
    let mz = st.map_z as int;
    if fuel == 0 {
    } else if spec_dist_sq(st) > d {
    } else if !g.spec_valid(mx, my, mz) {
    } else if g.spec_at(mx, my, mz) != 0 {
        assert(g.spec_valid(mx, my, mz) && g.spec_at(mx, my, mz) == c && c != 0);
    } else {
        lemma_march_hit(g, spec_step_state(st), d, (fuel - 1) as nat, c);
    }
}

/// An entirely empty grid can only miss: whatever state a march starts
/// from, whatever its direction and radius, it never reports a hit.
pub proof fn lemma_empty_grid_misses(g: VoxelGrid, st: RayState, d: int, fuel: nat)
    requires
        forall|x: int, y: int, z: int| g.spec_valid(x, y, z) ==> g.spec_at(x, y, z) == 0,
    ensures
        forall|c: u32| spec_march(g, st, d, fuel) != Some(RayHit::Hit(c)),
{
    assert forall|c: u32| spec_march(g, st, d, fuel) != Some(RayHit::Hit(c)) by {
        if spec_march(g, st, d, fuel) == Some(RayHit::Hit(c)) {
            lemma_march_hit(g, st, d, fuel, c);
        }
    }
}

fn sat_add64(a: u64, b: u64) -> (r: u64)
    ensures
        r == spec_sat_add(a as int, b as int),
{
    if a > u64::MAX - b {
        u64::MAX
    } else {
        a + b
    }
}

impl RayState {
    /// Builds the starting state for a march from `origin` along `dir`.
    pub fn init(dir: [i64; 3], origin: [i32; 3]) -> (r: RayState)
        requires
            -MAX_DIR_COMPONENT <= dir[0] <= MAX_DIR_COMPONENT,
            -MAX_DIR_COMPONENT <= dir[1] <= MAX_DIR_COMPONENT,
            -MAX_DIR_COMPONENT <= dir[2] <= MAX_DIR_COMPONENT,
        ensures
            r == spec_init_state(
                dir[0] as int,
                dir[1] as int,
                dir[2] as int,
                origin[0] as int,
                origin[1] as int,
                origin[2] as int,
            ),
    {
        let (delta_x, step_x) = axis_setup(dir[0]);
        let (delta_y, step_y) = axis_setup(dir[1]);
        let (delta_z, step_z) = axis_setup(dir[2]);
        RayState {
            map_x: origin[0] as i64,
            map_y: origin[1] as i64,
            map_z: origin[2] as i64,
            side_x: 0,
            side_y: 0,
            side_z: 0,
            delta_x,
            delta_y,
            delta_z,
            step_x,
            step_y,
            step_z,
        }
    }

    /// Performs one DDA transition in place.
    pub fn advance(&mut self)
        requires
            old(self).step_x == -1 || old(self).step_x == 0 || old(self).step_x == 1,
            old(self).step_y == -1 || old(self).step_y == 0 || old(self).step_y == 1,
            old(self).step_z == -1 || old(self).step_z == 0 || old(self).step_z == 1,
            -0x4000_0002 <= old(self).map_x <= 0x4000_0002,
            -0x4000_0002 <= old(self).map_y <= 0x4000_0002,
            -0x4000_0002 <= old(self).map_z <= 0x4000_0002,
        ensures
            *final(self) == spec_step_state(*old(self)),
    {
        let ex = self.step_x != 0;
        let ey = self.step_y != 0;
        let ez = self.step_z != 0;
        if ex && (!ey || self.side_x <= self.side_y) && (!ez || self.side_x <= self.side_z) {
            self.map_x = self.map_x + self.step_x;
            self.side_x = sat_add64(self.side_x, self.delta_x);
        } else if ey && (!ez || self.side_y <= self.side_z) {
            self.map_y = self.map_y + self.step_y;
            self.side_y = sat_add64(self.side_y, self.delta_y);
        } else {
            self.map_z = self.map_z + self.step_z;
            self.side_z = sat_add64(self.side_z, self.delta_z);
        }
    }
}

fn axis_setup(v: i64) -> (r: (u64, i64))
    requires
        -MAX_DIR_COMPONENT <= v <= MAX_DIR_COMPONENT,
    ensures
        r.0 == spec_delta(v as int),
        r.1 == spec_sign(v as int),
{
    if v > 0 {
        (DELTA_NUM / (v as u64), 1)
    } else if v < 0 {
        (DELTA_NUM / ((-v) as u64), -1)
    } else {
        (0, 0)
    }
}

/// Marches a ray from the cell `origin` along the fixed-point direction
/// `dir` until it meets an occupied cell (hit), leaves the squared radius
/// `max_dist_sq` or leaves the grid (miss). Returns the outcome together
/// with the number of DDA steps taken; the outcome is exactly the value of
/// the [`spec_march`] state machine, an all-empty grid can only miss, and
/// the step count is bounded by [`march_fuel`].
pub fn cast_ray(dir: [i64; 3], origin: [i32; 3], max_dist_sq: u32, grid: &VoxelGrid) -> (r:
    MarchOutcome)
    requires
        grid.wf(),
        dir[0] != 0 || dir[1] != 0 || dir[2] != 0,
        -MAX_DIR_COMPONENT <= dir[0] <= MAX_DIR_COMPONENT,
        -MAX_DIR_COMPONENT <= dir[1] <= MAX_DIR_COMPONENT,
        -MAX_DIR_COMPONENT <= dir[2] <= MAX_DIR_COMPONENT,
        1 <= max_dist_sq <= MAX_DIST_SQ_LIMIT,
        -MAX_ORIGIN <= origin[0] <= MAX_ORIGIN,
        -MAX_ORIGIN <= origin[1] <= MAX_ORIGIN,
        -MAX_ORIGIN <= origin[2] <= MAX_ORIGIN,
    ensures
        Some(r.hit) == spec_march(
            *grid,
            spec_init_state(
                dir[0] as int,
                dir[1] as int,
                dir[2] as int,
                origin[0] as int,
                origin[1] as int,
                origin[2] as int,
            ),
            max_dist_sq as int,
            march_fuel(max_dist_sq as int),
        ),
        r.steps <= march_fuel(max_dist_sq as int),
        (forall|x: int, y: int, z: int| grid.spec_valid(x, y, z) ==> grid.spec_at(x, y, z) == 0)
            ==> r.hit == RayHit::Miss,
        r.hit matches RayHit::Hit(c) ==> exists|x: int, y: int, z: int|
            grid.spec_valid(x, y, z) && grid.spec_at(x, y, z) == c && c != 0,
{
    let mut st = RayState::init(dir, origin);
    let ghost st0 = st;
    let mut steps: u64 = 0;
    let d: i64 = max_dist_sq as i64;
    let ghost fuel = march_fuel(max_dist_sq as int);
    let mut hit = RayHit::Miss;
    loop
        invariant_except_break
            grid.wf(),
            dir[0] != 0 || dir[1] != 0 || dir[2] != 0,
            1 <= max_dist_sq <= MAX_DIST_SQ_LIMIT,
            d == max_dist_sq as i64,
            fuel == march_fuel(max_dist_sq as int),
            st0 == spec_init_state(
                dir[0] as int,
                dir[1] as int,
                dir[2] as int,
                origin[0] as int,
                origin[1] as int,
                origin[2] as int,
            ),
            st.step_x == spec_sign(dir[0] as int),
            st.step_y == spec_sign(dir[1] as int),
            st.step_z == spec_sign(dir[2] as int),
            -MAX_ORIGIN <= origin[0] <= MAX_ORIGIN,
            -MAX_ORIGIN <= origin[1] <= MAX_ORIGIN,
            -MAX_ORIGIN <= origin[2] <= MAX_ORIGIN,
            st.step_x == 0 ==> st.map_x == origin[0] as i64,
            st.step_y == 0 ==> st.map_y == origin[1] as i64,
            st.step_z == 0 ==> st.map_z == origin[2] as i64,
            st.step_x == 1 ==> st.map_x >= origin[0] as i64,
            st.step_y == 1 ==> st.map_y >= origin[1] as i64,
            st.step_z == 1 ==> st.map_z >= origin[2] as i64,
            st.step_x == -1 ==> st.map_x <= origin[0] as i64,
            st.step_y == -1 ==> st.map_y <= origin[1] as i64,
            st.step_z == -1 ==> st.map_z <= origin[2] as i64,
            -0x4000_0001 <= st.map_x <= 0x4000_0001,
            -0x4000_0001 <= st.map_y <= 0x4000_0001,
            -0x4000_0001 <= st.map_z <= 0x4000_0001,
            steps == spec_axis_steps(st.map_x as int, origin[0] as int, st.step_x as int)
                + spec_axis_steps(st.map_y as int, origin[1] as int, st.step_y as int)
                + spec_axis_steps(st.map_z as int, origin[2] as int, st.step_z as int),
            steps <= 3 * (max_dist_sq as int + 65536) + 1,
            spec_march(*grid, st, d as int, (fuel - steps) as nat) == spec_march(
                *grid,
                st0,
                d as int,
                fuel,
            ),
        ensures
            Some(hit) == spec_march(*grid, st0, d as int, fuel),
            steps <= fuel,
        decreases fuel - steps,
    {
        proof {
            assert(st.map_x * st.map_x >= 0 && st.map_x * st.map_x <= 0x1000_0001_0000_0001)
                by (nonlinear_arith)
                requires
                    -0x4000_0001 <= st.map_x <= 0x4000_0001,
            ;
            assert(st.map_y * st.map_y >= 0 && st.map_y * st.map_y <= 0x1000_0001_0000_0001)
                by (nonlinear_arith)
                requires
                    -0x4000_0001 <= st.map_y <= 0x4000_0001,
            ;
            assert(st.map_z * st.map_z >= 0 && st.map_z * st.map_z <= 0x1000_0001_0000_0001)
                by (nonlinear_arith)
                requires
                    -0x4000_0001 <= st.map_z <= 0x4000_0001,
            ;
        }
        let dsq: i64 = st.map_x * st.map_x + st.map_y * st.map_y + st.map_z * st.map_z;
        if dsq > d {
            hit = RayHit::Miss;
            break ;
        }
        let cx = st.map_x as i32;
        let cy = st.map_y as i32;
        let cz = st.map_z as i32;
        let cell = grid.get([cx, cy, cz]);
        match cell {
            None => {
                hit = RayHit::Miss;
                break ;
            },
            Some(v) => {
                if v != 0 {
                    hit = RayHit::Hit(v);
                    break ;
                }
            },
        }
        proof {
            assert(-d <= st.map_x <= d && -d <= st.map_y <= d && -d <= st.map_z <= d)
                by (nonlinear_arith)
                requires
                    st.map_x * st.map_x + st.map_y * st.map_y + st.map_z * st.map_z <= d,
                    st.map_x * st.map_x >= 0,
                    st.map_y * st.map_y >= 0,
                    st.map_z * st.map_z >= 0,
                    d >= 1,
            ;
        }
        let ghost prev = st;
        st.advance();
        steps = steps + 1;
        proof {
            if spec_pick_axis(prev) == 2 {
                assert(prev.step_z != 0);
            }
            assert(spec_march(*grid, prev, d as int, (fuel - steps + 1) as nat) == spec_march(
                *grid,
                st,
                d as int,
                (fuel - steps) as nat,
            ));
        }
    }
    proof {
        match hit {
            RayHit::Hit(c) => {
                lemma_march_hit(*grid, st0, d as int, fuel, c);
            },
            RayHit::Miss => {
            },
        }
    }
    MarchOutcome { hit, steps }
}

} // verus!
