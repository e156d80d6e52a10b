//! Dense fixed-extent 3D voxel grid with a bijective coordinate encoding.
//!
//! Cell coordinates are signed integers, each in `[-h, h)` for the grid's
//! half-extent `h`. A cell value is a packed 32-bit color; `0` is the
//! reserved sentinel meaning "empty".

use vstd::arithmetic::div_mod::{
    lemma_fundamental_div_mod_converse_div, lemma_fundamental_div_mod_converse_mod,
};
use vstd::prelude::*;

use crate::EngineError;

verus! {

/// Largest supported half-extent. It keeps every packed color channel below
/// 256 and the flat cell count comfortably inside `usize`.
pub const MAX_HALF_EXTENT: u32 = 63;

pub open spec fn valid_half(h: int) -> bool {
    1 <= h <= MAX_HALF_EXTENT
}

/// Cells along one axis: coordinates run over `[-h, h)`.
pub open spec fn side_len(h: int) -> int {
    2 * h
}

/// Total number of cells in a grid of half-extent `h`.
pub open spec fn capacity(h: int) -> int {
    side_len(h) * side_len(h) * side_len(h)
}

pub open spec fn valid_coord(h: int, x: int, y: int, z: int) -> bool {
    &&& -h <= x < h
    &&& -h <= y < h
    &&& -h <= z < h
}

/// Flat index of a cell: each axis coordinate is shifted by `+h` to an
/// unsigned offset and the offsets are combined with fixed strides, `x`
/// varying fastest.
pub open spec fn encode(h: int, x: int, y: int, z: int) -> int {
    (x + h) + (y + h) * side_len(h) + (z + h) * side_len(h) * side_len(h)
}

pub open spec fn decode_x(h: int, i: int) -> int {
    i % side_len(h) - h
}

pub open spec fn decode_y(h: int, i: int) -> int {
    (i / side_len(h)) % side_len(h) - h
}

pub open spec fn decode_z(h: int, i: int) -> int {
    i / (side_len(h) * side_len(h)) - h
}

/// The coordinate encoding is injective over the valid range: every valid
/// coordinate maps into `[0, capacity)`, and decoding the flat index returns
/// the original coordinate.
pub proof fn lemma_encode_decode(h: int, x: int, y: int, z: int)
    requires
        valid_half(h),
        valid_coord(h, x, y, z),
    ensures
        0 <= encode(h, x, y, z) < capacity(h),
        decode_x(h, encode(h, x, y, z)) == x,
        decode_y(h, encode(h, x, y, z)) == y,
        decode_z(h, encode(h, x, y, z)) == z,
{
    let w: int = side_len(h);
    let xo: int = x + h;
    let yo: int = y + h;
    let zo: int = z + h;
    let i: int = encode(h, x, y, z);
    let q1: int = yo + w * zo;
    assert(i == q1 * w + xo) by (nonlinear_arith)
        requires
            i == xo + yo * w + zo * w * w,
            q1 == yo + w * zo,
    ;
    lemma_fundamental_div_mod_converse_mod(i, w, q1, xo);
    lemma_fundamental_div_mod_converse_div(i, w, q1, xo);
    assert(q1 == zo * w + yo) by (nonlinear_arith)
        requires
            q1 == yo + w * zo,
    ;
    lemma_fundamental_div_mod_converse_mod(q1, w, zo, yo);
    let r2: int = xo + yo * w;
    assert(i == zo * (w * w) + r2 && 0 <= r2 < w * w && w * w != 0) by (nonlinear_arith)
        requires
            i == xo + yo * w + zo * w * w,
            r2 == xo + yo * w,
            0 <= xo < w,
            0 <= yo < w,
            1 <= w,
    ;
    lemma_fundamental_div_mod_converse_div(i, w * w, zo, r2);
    assert(0 <= i < w * w * w) by (nonlinear_arith)
        requires
            i == xo + yo * w + zo * w * w,
            0 <= xo < w,
            0 <= yo < w,
            0 <= zo < w,
    ;
}

/// The encoding is injective: two valid coordinates with the same flat index
/// are the same coordinate.
pub proof fn lemma_encode_injective(h: int, x1: int, y1: int, z1: int, x2: int, y2: int, z2: int)
    requires
        valid_half(h),
        valid_coord(h, x1, y1, z1),
        valid_coord(h, x2, y2, z2),
        encode(h, x1, y1, z1) == encode(h, x2, y2, z2),
    ensures
        x1 == x2 && y1 == y2 && z1 == z2,
{
    lemma_encode_decode(h, x1, y1, z1);
    lemma_encode_decode(h, x2, y2, z2);
}

/// Flat index of the cell at `coord` in a grid of half-extent `half`, or
/// `None` when some axis lies outside `[-half, half)`. The index is the
/// bijective encoding stated by [`encode`].
pub fn make_coord(coord: [i32; 3], half: u32) -> (r: Option<usize>)
    requires
        valid_half(half as int),
    ensures
        r is Some <==> valid_coord(half as int, coord[0] as int, coord[1] as int, coord[2] as int),
        r matches Some(i) ==> i == encode(
            half as int,
            coord[0] as int,
            coord[1] as int,
            coord[2] as int,
        ),
{
    let x = coord[0];
    let y = coord[1];
    let z = coord[2];
    let h = half as i32;
    if x < -h || x >= h || y < -h || y >= h || z < -h || z >= h {
        return None;
    }
    let w: usize = 2 * half as usize;
    let xo: usize = (x + h) as usize;
    let yo: usize = (y + h) as usize;
    let zo: usize = (z + h) as usize;
    proof {
        assert(yo * w <= 15876 && zo * w <= 15876) by (nonlinear_arith)
            requires
                yo <= 126,
                zo <= 126,
                w <= 126,
        ;
        assert(zo * w * w <= 2000376) by (nonlinear_arith)
            requires
                zo * w <= 15876,
                w <= 126,
        ;
    }
    Some(xo + yo * w + zo * w * w)
}

/// Dense voxel storage: one packed 32-bit color per cell, `0` meaning empty.
#[derive(Debug)]
pub struct VoxelGrid {
    half: u32,
    cells: Vec<u32>,
}

impl VoxelGrid {
    /// A well-formed grid has a valid half-extent and exactly one cell per
    /// coordinate in the valid range.
    pub closed spec fn wf(self) -> bool {
        &&& valid_half(self.half as int)
        &&& self.cells@.len() == capacity(self.half as int)
    }

    pub closed spec fn spec_half(self) -> int {
        self.half as int
    }

    pub open spec fn spec_valid(self, x: int, y: int, z: int) -> bool {
        valid_coord(self.spec_half(), x, y, z)
    }

    /// The color stored at a valid coordinate.
    pub closed spec fn spec_at(self, x: int, y: int, z: int) -> u32 {
        self.cells@[encode(self.spec_half(), x, y, z)]
    }

    /// A fresh grid: every cell holds the empty sentinel. Rejects a
    /// half-extent of zero or one above [`MAX_HALF_EXTENT`].
    pub fn new(half: u32) -> (r: Result<VoxelGrid, EngineError>)
        ensures
            r is Ok <==> valid_half(half as int),
            r is Err ==> r == Result::<VoxelGrid, EngineError>::Err(EngineError::BadHalfExtent),
            r matches Ok(g) ==> g.wf() && g.spec_half() == half && (forall|x: int, y: int, z: int|
                g.spec_valid(x, y, z) ==> g.spec_at(x, y, z) == 0u32),
    {
        if half < 1 || half > MAX_HALF_EXTENT {
            return Err(EngineError::BadHalfExtent);
        }
        let w: usize = 2 * half as usize;
        proof {
            assert(w * w <= 15876) by (nonlinear_arith)
                requires
                    w <= 126,
            ;
            assert(w * w * w <= 2000376) by (nonlinear_arith)
                requires
                    w * w <= 15876,
                    w <= 126,
            ;
        }
        let cap: usize = w * w * w;
        let mut cells: Vec<u32> = Vec::new();
        let mut i: usize = 0;
        while i < cap
            invariant
                cells@.len() == i,
                i <= cap,
                forall|j: int| 0 <= j < i ==> cells@[j] == 0u32,
            decreases cap - i,
        {
            cells.push(0u32);
            i = i + 1;
        }
        let g = VoxelGrid { half, cells };
        proof {
            assert forall|x: int, y: int, z: int| g.spec_valid(x, y, z) implies g.spec_at(x, y, z)
                == 0u32 by {
                lemma_encode_decode(half as int, x, y, z);
            }
        }
        Ok(g)
    }

    /// Builds a grid directly from a flat cell vector laid out in encoding
    /// order.
    pub(crate) fn from_cells(half: u32, cells: Vec<u32>) -> (r: VoxelGrid)
        requires
            valid_half(half as int),
            cells@.len() == capacity(half as int),
        ensures
            r.wf(),
            r.spec_half() == half,
            forall|x: int, y: int, z: int| r.spec_valid(x, y, z) ==> r.spec_at(x, y, z)
                == cells@[encode(half as int, x, y, z)],
    {
        VoxelGrid { half, cells }
    }

    pub fn half(&self) -> (r: u32)
        ensures
            r == self.spec_half(),
    {
        self.half
    }

    /// The color at `coord`, or `None` when `coord` lies outside the grid.
    pub fn get(&self, coord: [i32; 3]) -> (r: Option<u32>)
        requires
            self.wf(),
        ensures
            r is Some <==> self.spec_valid(coord[0] as int, coord[1] as int, coord[2] as int),
            r matches Some(v) ==> v == self.spec_at(
                coord[0] as int,
                coord[1] as int,
                coord[2] as int,
            ),
    {
        match make_coord(coord, self.half) {
            None => None,
            Some(i) => {
                proof {
                    lemma_encode_decode(
                        self.half as int,
                        coord[0] as int,
                        coord[1] as int,
                        coord[2] as int,
                    );
                }
                Some(self.cells[i])
            },
        }
    }

    /// Stores `v` at `coord`; rejects a coordinate outside the grid and
    /// leaves every other cell as it was.
    pub fn set(&mut self, coord: [i32; 3], v: u32) -> (r: Result<(), EngineError>)
        requires
            old(self).wf(),
        ensures
            final(self).wf(),
            final(self).spec_half() == old(self).spec_half(),
            r is Ok <==> old(self).spec_valid(coord[0] as int, coord[1] as int, coord[2] as int),
            r is Err ==> r == Result::<(), EngineError>::Err(EngineError::OutOfRange)
                && *final(self) == *old(self),
            r is Ok ==> final(self).spec_at(coord[0] as int, coord[1] as int, coord[2] as int) == v,
            r is Ok ==> forall|x: int, y: int, z: int|
                old(self).spec_valid(x, y, z) && (x != coord[0] as int || y != coord[1] as int || z
                    != coord[2] as int) ==> final(self).spec_at(x, y, z) == old(self).spec_at(
                    x,
                    y,
                    z,
                ),
    {
        match make_coord(coord, self.half) {
            None => Err(EngineError::OutOfRange),
            Some(i) => {
                proof {
                    lemma_encode_decode(
                        self.half as int,
                        coord[0] as int,
                        coord[1] as int,
                        coord[2] as int,
                    );
                }
                self.cells[i] = v;
                proof {
                    let c0: int = coord[0] as int;
                    let c1: int = coord[1] as int;
                    let c2: int = coord[2] as int;
                    assert forall|x: int, y: int, z: int|
                        old(self).spec_valid(x, y, z) && (x != c0 || y != c1 || z
                            != c2) implies self.spec_at(x, y, z) == old(self).spec_at(x, y, z) by {
                        lemma_encode_decode(self.half as int, x, y, z);
                        if encode(self.half as int, x, y, z) == encode(self.half as int, c0, c1, c2) {
                            lemma_encode_injective(self.half as int, x, y, z, c0, c1, c2);
                        }
                    }
                }
                Ok(())
            },
        }
    }
}

} // verus!
