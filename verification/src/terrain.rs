//! Terrain generation: fill a voxel grid from per-column heights.
//!
//! A height belongs to each `(x, y)` column of the grid. Cells from the grid
//! floor up to and including the height are occupied; their color is derived
//! deterministically from the cell coordinate. The heights themselves come
//! from whatever 2D height function the caller uses — for a fixed height
//! slice the generated grid is a pure function of it.

use vstd::prelude::*;

use crate::grid::{
    capacity, decode_x, decode_y, decode_z, encode, lemma_encode_decode, side_len, valid_coord,
    valid_half, VoxelGrid, MAX_HALF_EXTENT,
};
use crate::EngineError;

verus! {

/// Number of `(x, y)` columns in a grid of half-extent `h`.
pub open spec fn col_capacity(h: int) -> int {
    side_len(h) * side_len(h)
}

/// Flat index of the column at `(x, y)`: offsets with fixed strides, `x`
/// varying fastest.
pub open spec fn col_index(h: int, x: int, y: int) -> int {
    (x + h) + (y + h) * side_len(h)
}

/// Packed color of an occupied cell: each axis offset from the grid minimum,
/// doubled, in its own 8-bit channel (`x` high, `z` low), with bit 0 set so
/// that an occupied cell is never the empty sentinel.
pub open spec fn spec_voxel_color(h: int, x: int, y: int, z: int) -> u32 {
    ((x + h) * 2 * 65536 + (y + h) * 2 * 256 + (z + h) * 2 + 1) as u32
}

/// The value generation writes at `(x, y, z)`: the derived color when the
/// cell lies at or below its column's height, the empty sentinel above it.
pub open spec fn spec_terrain_cell(h: int, heights: Seq<i32>, x: int, y: int, z: int) -> u32 {
    if z <= heights[col_index(h, x, y)] {
        spec_voxel_color(h, x, y, z)
    } else {
        0
    }
}

spec fn cell_at_index(h: int, heights: Seq<i32>, j: int) -> u32 {
    spec_terrain_cell(h, heights, decode_x(h, j), decode_y(h, j), decode_z(h, j))
}

/// The color of the occupied cell at `(x, y, z)`; never the empty sentinel.
pub fn voxel_color(x: i32, y: i32, z: i32, half: u32) -> (r: u32)
    requires
        valid_half(half as int),
        valid_coord(half as int, x as int, y as int, z as int),
    ensures
        r == spec_voxel_color(half as int, x as int, y as int, z as int),
        r != 0,
{
    let h = half as i32;
    let xo = (x + h) as u32;
    let yo = (y + h) as u32;
    let zo = (z + h) as u32;
    xo * 2 * 65536 + yo * 2 * 256 + zo * 2 + 1
}

/// Builds the terrain grid for `half` from one height per column, laid out
/// by [`col_index`]. Rejects an invalid half-extent, and a height slice
/// whose length is not exactly the column count; the cells of the grid
/// returned are pinned by [`spec_terrain_cell`], so generation is
/// deterministic in its inputs.
pub fn gen_space(half: u32, heights: &Vec<i32>) -> (r: Result<VoxelGrid, EngineError>)
    ensures
        r is Ok <==> valid_half(half as int) && heights@.len() == col_capacity(half as int),
        r == Result::<VoxelGrid, EngineError>::Err(EngineError::BadHalfExtent) <==> !valid_half(
            half as int,
        ),
        r == Result::<VoxelGrid, EngineError>::Err(EngineError::BadHeights) <==> valid_half(
            half as int,
        ) && heights@.len() != col_capacity(half as int),
        r matches Ok(g) ==> g.wf() && g.spec_half() == half && (forall|x: int, y: int, z: int|
            g.spec_valid(x, y, z) ==> g.spec_at(x, y, z) == spec_terrain_cell(
                half as int,
                heights@,
                x,
                y,
                z,
            )),
{
    if half < 1 || half > MAX_HALF_EXTENT {
        return Err(EngineError::BadHalfExtent);
    }
    let w: usize = 2 * half as usize;
    proof {
        assert(w * w <= 15876) by (nonlinear_arith)
            requires
                w <= 126,
        ;
        assert(w * w * w <= 2000376) by (nonlinear_arith)
            requires
                w * w <= 15876,
                w <= 126,
        ;
    }
    if heights.len() != w * w {
        return Err(EngineError::BadHeights);
    }
    let mut cells: Vec<u32> = Vec::new();
    let mut zo: usize = 0;
    while zo < w
        invariant
            valid_half(half as int),
            w == side_len(half as int),
            w * w <= 15876,
            w * w * w <= 2000376,
            heights@.len() == w * w,
            zo <= w,
            cells@.len() == zo * w * w,
            forall|j: int| 0 <= j < cells@.len() ==> cells@[j] == cell_at_index(
                half as int,
                heights@,
                j,
            ),
        decreases w - zo,
    {
        let mut yo: usize = 0;
        while yo < w
            invariant
                valid_half(half as int),
                w == side_len(half as int),
                w * w <= 15876,
                w * w * w <= 2000376,
                heights@.len() == w * w,
                zo < w,
                yo <= w,
                cells@.len() == zo * w * w + yo * w,
                forall|j: int| 0 <= j < cells@.len() ==> cells@[j] == cell_at_index(
                    half as int,
                    heights@,
                    j,
                ),
            decreases w - yo,
        {
            let mut xo: usize = 0;
            while xo < w
                invariant
                    valid_half(half as int),
                    w == side_len(half as int),
                    w * w <= 15876,
                    w * w * w <= 2000376,
                    heights@.len() == w * w,
                    zo < w,
                    yo < w,
                    xo <= w,
                    cells@.len() == zo * w * w + yo * w + xo,
                    forall|j: int| 0 <= j < cells@.len() ==> cells@[j] == cell_at_index(
                        half as int,
                        heights@,
                        j,
                    ),
                decreases w - xo,
            {
                let h = half as i32;
                let x = xo as i32 - h;
                let y = yo as i32 - h;
                let z = zo as i32 - h;
                proof {
                    assert(yo * w < w * w && zo * w * w < w * w * w && xo + yo * w < w * w)
                        by (nonlinear_arith)
                        requires
                            xo < w,
                            yo < w,
                            zo < w,
                            1 <= w,
                    ;
                }
                let hgt = heights[xo + yo * w];
                let v: u32 = if z <= hgt {
                    voxel_color(x, y, z, half)
                } else {
                    0
                };
                proof {
                    lemma_encode_decode(half as int, x as int, y as int, z as int);
                    assert(encode(half as int, x as int, y as int, z as int) == zo * w * w + yo * w
                        + xo);
                    assert(cell_at_index(half as int, heights@, cells@.len() as int) == v);
                }
                cells.push(v);
                xo = xo + 1;
            }
            proof {
                assert((yo + 1) * w == yo * w + w) by (nonlinear_arith);
            }
            yo = yo + 1;
        }
        proof {
            assert((zo + 1) * (w * w) == zo * (w * w) + w * w) by (nonlinear_arith);
            assert(zo * (w * w) == zo * w * w && (zo + 1) * (w * w) == (zo + 1) * w * w)
                by (nonlinear_arith);
        }
        zo = zo + 1;
    }
    proof {
        assert(cells@.len() == capacity(half as int)) by {
            assert(w * w * w == capacity(half as int));
        }
    }
    let g = VoxelGrid::from_cells(half, cells);
    proof {
        assert forall|x: int, y: int, z: int| g.spec_valid(x, y, z) implies g.spec_at(x, y, z)
            == spec_terrain_cell(half as int, heights@, x, y, z) by {
            lemma_encode_decode(half as int, x, y, z);
        }
    }
    Ok(g)
}

} // verus!
