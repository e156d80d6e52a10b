//! Frame rendering: one ray per pixel across a spherical field of view.
//!
//! For each pixel, the polar and azimuthal angles are interpolated linearly
//! across the viewport in turn units, the ray direction is built from
//! fixed-point sine and cosine, and the ray is marched through the grid; the
//! pixel takes the hit color or the configured background. The buffer is
//! row-major, top row first, and is a pure function of the configuration,
//! the yaw and the grid.

use vstd::prelude::*;

use crate::grid::VoxelGrid;
use crate::march::{
    cast_ray, march_fuel, spec_init_state, spec_march, RayHit, MAX_DIST_SQ_LIMIT, MAX_ORIGIN,
};
use crate::trig::{cos_turn, sin_turn, spec_cos, spec_sin};
use crate::EngineError;

verus! {

/// Largest accepted viewport side.
pub const MAX_VIEWPORT: usize = 32768;

/// Viewport, projection and marching parameters of one renderer.
#[derive(Clone, Copy, Debug)]
pub struct FrameConfig {
    pub width: usize,
    pub height: usize,
    /// Azimuth span mapped across a pixel row, turn units.
    pub fov_x: u16,
    /// Polar span mapped down a pixel column, turn units.
    pub fov_y: u16,
    /// Polar angle at the top pixel row, turn units.
    pub start_phi: u16,
    /// Azimuth at the left pixel column, before the camera yaw, turn units.
    pub start_theta: u16,
    /// Color written on a ray miss.
    pub background: u32,
    /// Cell every ray starts from.
    pub origin: [i32; 3],
    /// Squared marching radius.
    pub max_dist_sq: u32,
}

impl FrameConfig {
    pub open spec fn wf(self) -> bool {
        &&& 1 <= self.width <= MAX_VIEWPORT
        &&& 1 <= self.height <= MAX_VIEWPORT
        &&& 1 <= self.fov_x
        &&& 1 <= self.fov_y
        &&& 1 <= self.max_dist_sq <= MAX_DIST_SQ_LIMIT
        &&& -MAX_ORIGIN <= self.origin[0] <= MAX_ORIGIN
        &&& -MAX_ORIGIN <= self.origin[1] <= MAX_ORIGIN
        &&& -MAX_ORIGIN <= self.origin[2] <= MAX_ORIGIN
    }

    /// Validates a configuration, rejecting each degenerate value: an empty
    /// or oversized viewport, a zero field of view, a zero or oversized
    /// marching radius, an origin out of the supported range.
    pub fn new(
        width: usize,
        height: usize,
        fov_x: u16,
        fov_y: u16,
        start_phi: u16,
        start_theta: u16,
        background: u32,
        origin: [i32; 3],
        max_dist_sq: u32,
    ) -> (r: Result<FrameConfig, EngineError>)
        ensures
            r is Ok <==> (1 <= width <= MAX_VIEWPORT && 1 <= height <= MAX_VIEWPORT && fov_x >= 1
                && fov_y >= 1 && 1 <= max_dist_sq <= MAX_DIST_SQ_LIMIT && -MAX_ORIGIN <= origin[0]
                <= MAX_ORIGIN && -MAX_ORIGIN <= origin[1] <= MAX_ORIGIN && -MAX_ORIGIN <= origin[2]
                <= MAX_ORIGIN),
            r matches Ok(c) ==> c.wf() && c.width == width && c.height == height && c.fov_x == fov_x
                && c.fov_y == fov_y && c.start_phi == start_phi && c.start_theta == start_theta
                && c.background == background && c.origin == origin && c.max_dist_sq == max_dist_sq,
            r == Result::<FrameConfig, EngineError>::Err(EngineError::BadViewport) <==> (width < 1
                || width > MAX_VIEWPORT || height < 1 || height > MAX_VIEWPORT),
            r == Result::<FrameConfig, EngineError>::Err(EngineError::BadFieldOfView) <==> (1
                <= width <= MAX_VIEWPORT && 1 <= height <= MAX_VIEWPORT && (fov_x < 1 || fov_y
                < 1)),
            r == Result::<FrameConfig, EngineError>::Err(EngineError::BadRadius) <==> (1 <= width
                <= MAX_VIEWPORT && 1 <= height <= MAX_VIEWPORT && fov_x >= 1 && fov_y >= 1 && (
            max_dist_sq < 1 || max_dist_sq > MAX_DIST_SQ_LIMIT)),
            r == Result::<FrameConfig, EngineError>::Err(EngineError::BadOrigin) <==> (1 <= width
                <= MAX_VIEWPORT && 1 <= height <= MAX_VIEWPORT && fov_x >= 1 && fov_y >= 1 && 1
                <= max_dist_sq <= MAX_DIST_SQ_LIMIT && (origin[0] < -MAX_ORIGIN || origin[0]
                > MAX_ORIGIN || origin[1] < -MAX_ORIGIN || origin[1] > MAX_ORIGIN || origin[2]
                < -MAX_ORIGIN || origin[2] > MAX_ORIGIN)),
    {
        if width < 1 || width > MAX_VIEWPORT || height < 1 || height > MAX_VIEWPORT {
            return Err(EngineError::BadViewport);
        }
        if fov_x < 1 || fov_y < 1 {
            return Err(EngineError::BadFieldOfView);
        }
        if max_dist_sq < 1 || max_dist_sq > MAX_DIST_SQ_LIMIT {
            return Err(EngineError::BadRadius);
        }
        if origin[0] < -MAX_ORIGIN || origin[0] > MAX_ORIGIN || origin[1] < -MAX_ORIGIN || origin[1]
            > MAX_ORIGIN || origin[2] < -MAX_ORIGIN || origin[2] > MAX_ORIGIN {
            return Err(EngineError::BadOrigin);
        }
        Ok(
            FrameConfig {
                width,
                height,
                fov_x,
                fov_y,
                start_phi,
                start_theta,
                background,
                origin,
                max_dist_sq,
            },
        )
    }
}

/// Polar angle of pixel row `py`, turn units: linear interpolation of the
/// vertical field of view, wrapped to one turn.
pub open spec fn spec_phi(c: FrameConfig, py: int) -> int {
    (c.start_phi + (py * c.fov_y) / (c.height as int)) % 65536
}

/// Azimuthal angle of pixel column `px` for a camera yaw, turn units.
pub open spec fn spec_theta(c: FrameConfig, yaw: int, px: int) -> int {
    (c.start_theta + yaw + (px * c.fov_x) / (c.width as int)) % 65536
}

/// The color of one pixel: the ray direction is built from the pixel's
/// spherical angles, and the ray is marched from the configured origin; a
/// hit gives its color, anything else the background. A direction that
/// degenerates to the zero vector gives the background.
pub open spec fn spec_pixel(c: FrameConfig, yaw: int, g: VoxelGrid, px: int, py: int) -> u32 {
    let phi: int = spec_phi(c, py);
    let theta: int = spec_theta(c, yaw, px);
    let sp: int = spec_sin(phi);
    let cp: int = spec_cos(phi);
    let st: int = spec_sin(theta);
    let ct: int = spec_cos(theta);
    let dx: int = sp * ct;
    let dy: int = sp * st;
    let dz: int = cp * 4096;
    if dx == 0 && dy == 0 && dz == 0 {
        c.background
    } else {
        match spec_march(
            g,
            spec_init_state(dx, dy, dz, c.origin[0] as int, c.origin[1] as int, c.origin[2] as int),
            c.max_dist_sq as int,
            march_fuel(c.max_dist_sq as int),
        ) {
            Some(RayHit::Hit(color)) => color,
            _ => c.background,
        }
    }
}

/// Renders one frame: a row-major buffer of `width * height` packed colors,
/// each pixel the value of [`spec_pixel`]. The buffer is a pure function of
/// the configuration, the yaw and the grid, so rendering the same frame
/// twice gives identical buffers.
pub fn gen_buffer(cfg: &FrameConfig, yaw: u16, grid: &VoxelGrid) -> (r: Vec<u32>)
    requires
        cfg.wf(),
        grid.wf(),
    ensures
        r@.len() == cfg.width * cfg.height,
        forall|px: int, py: int| 0 <= px < cfg.width && 0 <= py < cfg.height ==> r@[py * cfg.width
            + px] == spec_pixel(*cfg, yaw as int, *grid, px, py),
{
    let wdt: usize = cfg.width;
    let hgt: usize = cfg.height;
    let mut buffer: Vec<u32> = Vec::new();
    let mut py: usize = 0;
    proof {
        assert(wdt * hgt <= 1073741824) by (nonlinear_arith)
            requires
                wdt <= 32768,
                hgt <= 32768,
        ;
    }
    while py < hgt
        invariant
            cfg.wf(),
            grid.wf(),
            wdt == cfg.width,
            hgt == cfg.height,
            py <= hgt,
            buffer@.len() == py * wdt,
            wdt * hgt <= 1073741824,
            forall|qx: int, qy: int| 0 <= qx < wdt && 0 <= qy < py ==> buffer@[qy * wdt + qx]
                == spec_pixel(*cfg, yaw as int, *grid, qx, qy),
        decreases hgt - py,
    {
        let mut px: usize = 0;
        proof {
            assert(py * wdt + wdt <= hgt * wdt) by (nonlinear_arith)
                requires
                    py < hgt,
                    0 <= wdt,
            ;
            assert(hgt * wdt <= 1073741824) by (nonlinear_arith)
                requires
                    wdt * hgt <= 1073741824,
            ;
        }
        while px < wdt
            invariant
                cfg.wf(),
                grid.wf(),
                wdt == cfg.width,
                hgt == cfg.height,
                py < hgt,
                px <= wdt,
                buffer@.len() == py * wdt + px,
                py * wdt + wdt <= 1073741824,
                forall|qx: int, qy: int| 0 <= qx < wdt && 0 <= qy < py ==> buffer@[qy * wdt + qx]
                    == spec_pixel(*cfg, yaw as int, *grid, qx, qy),
                forall|qx: int| 0 <= qx < px ==> buffer@[py * wdt + qx] == spec_pixel(
                    *cfg,
                    yaw as int,
                    *grid,
                    qx,
                    py as int,
                ),
            decreases wdt - px,
        {
            proof {
                assert((py as int) * (cfg.fov_y as int) <= 2147483647 && (px as int) * (cfg.fov_x
                    as int) <= 2147483647) by (nonlinear_arith)
                    requires
                        0 <= py <= 32768,
                        0 <= px <= 32768,
                        cfg.fov_x <= 65535,
                        cfg.fov_y <= 65535,
                ;
                assert(((py as int) * (cfg.fov_y as int)) / (hgt as int) <= 65535)
                    by (nonlinear_arith)
                    requires
                        0 <= py,
                        1 <= hgt,
                        cfg.fov_y <= 65535,
                        py < hgt,
                ;
                assert(((px as int) * (cfg.fov_x as int)) / (wdt as int) <= 65535)
                    by (nonlinear_arith)
                    requires
                        0 <= px,
                        1 <= wdt,
                        cfg.fov_x <= 65535,
                        px < wdt,
                ;
            }
            let phi_off: u64 = (py as u64) * (cfg.fov_y as u64) / (hgt as u64);
            let theta_off: u64 = (px as u64) * (cfg.fov_x as u64) / (wdt as u64);
            let phi: u16 = (((cfg.start_phi as u32) + (phi_off as u32)) % 65536) as u16;
            let theta: u16 = (((cfg.start_theta as u32) + (yaw as u32) + (theta_off as u32))
                % 65536) as u16;
            let sp: i32 = sin_turn(phi);
            let cp: i32 = cos_turn(phi);
            let sth: i32 = sin_turn(theta);
            let cth: i32 = cos_turn(theta);
            proof {
                assert(-16777216 <= (sp as int) * (cth as int) <= 16777216 && -16777216 <= (
                sp as int) * (sth as int) <= 16777216) by (nonlinear_arith)
                    requires
                        -4096 <= sp <= 4096,
                        -4096 <= cth <= 4096,
                        -4096 <= sth <= 4096,
                ;
            }
            let dx: i64 = (sp as i64) * (cth as i64);
            let dy: i64 = (sp as i64) * (sth as i64);
            let dz: i64 = (cp as i64) * 4096;
            let color: u32 = if dx == 0 && dy == 0 && dz == 0 {
                cfg.background
            } else {
                let out = cast_ray([dx, dy, dz], cfg.origin, cfg.max_dist_sq, grid);
                match out.hit {
                    RayHit::Hit(c) => c,
                    RayHit::Miss => cfg.background,
                }
            };
            proof {
                assert(color == spec_pixel(*cfg, yaw as int, *grid, px as int, py as int));
            }
            buffer.push(color);
            proof {
                assert forall|qx: int, qy: int| 0 <= qx < wdt && 0 <= qy < py implies buffer@[qy
                    * wdt + qx] == spec_pixel(*cfg, yaw as int, *grid, qx, qy) by {
                    assert(0 <= qy * wdt + qx < py * wdt + px) by (nonlinear_arith)
                        requires
                            0 <= qx < wdt,
                            0 <= qy < py,
                            0 <= px,
                    ;
                }
            }
            px = px + 1;
        }
        proof {
            assert((py + 1) * wdt == py * wdt + wdt) by (nonlinear_arith);
            assert forall|qx: int, qy: int| 0 <= qx < wdt && 0 <= qy < py + 1 implies buffer@[qy
                * wdt + qx] == spec_pixel(*cfg, yaw as int, *grid, qx, qy) by {
                if qy < py {
                    assert(0 <= qy * wdt + qx < py * wdt) by (nonlinear_arith)
                        requires
                            0 <= qx < wdt,
                            0 <= qy < py,
                    ;
                }
            }
        }
        py = py + 1;
    }
    proof {
        assert(hgt * wdt == wdt * hgt) by (nonlinear_arith);
    }
    buffer
}

} // verus!
