use voxel_march::camera::CameraController;
use voxel_march::grid::{make_coord, VoxelGrid, MAX_HALF_EXTENT};
use voxel_march::march::{cast_ray, RayHit};
use voxel_march::render::{gen_buffer, FrameConfig};
use voxel_march::terrain::{gen_space, voxel_color};
use voxel_march::trig::{cos_turn, sin_turn};
use voxel_march::EngineError;

const D: u32 = 0x4000_0000;

fn empty_grid(half: u32) -> VoxelGrid {
    VoxelGrid::new(half).unwrap()
}

fn config(
    width: usize,
    height: usize,
    start_phi: u16,
    start_theta: u16,
    background: u32,
    origin: [i32; 3],
) -> FrameConfig {
    FrameConfig::new(
        width, height, 16384, 16384, start_phi, start_theta, background, origin, D,
    )
    .unwrap()
}

#[test]
fn make_coord_known_values() {
    assert_eq!(make_coord([0, 0, 0], 32), Some(133152));
    assert_eq!(make_coord([-32, -32, -32], 32), Some(0));
    assert_eq!(make_coord([31, 31, 31], 32), Some(262143));
}

#[test]
fn make_coord_rejects_out_of_range() {
    assert_eq!(make_coord([32, 0, 0], 32), None);
    assert_eq!(make_coord([0, -33, 0], 32), None);
    assert_eq!(make_coord([0, 0, 100], 32), None);
}

#[test]
fn make_coord_round_trip_is_injective() {
    // Decoding is exercised indirectly: all valid coordinates of a small
    // grid give pairwise distinct in-range indices.
    let half = 3u32;
    let side = 2 * half as usize;
    let cap = side * side * side;
    let mut seen = vec![false; cap];
    for x in -3i32..3 {
        for y in -3i32..3 {
            for z in -3i32..3 {
                let i = make_coord([x, y, z], half).unwrap();
                assert!(i < cap);
                assert!(!seen[i], "index {} hit twice", i);
                seen[i] = true;
            }
        }
    }
    assert!(seen.iter().all(|&b| b));
}

#[test]
fn grid_new_rejects_degenerate_extent() {
    assert_eq!(VoxelGrid::new(0).unwrap_err(), EngineError::BadHalfExtent);
    assert_eq!(
        VoxelGrid::new(MAX_HALF_EXTENT + 1).unwrap_err(),
        EngineError::BadHalfExtent
    );
    // the largest supported grid is accepted
    assert!(VoxelGrid::new(MAX_HALF_EXTENT).is_ok());
}

#[test]
fn grid_set_get() {
    let mut g = empty_grid(8);
    assert_eq!(g.half(), 8);
    assert_eq!(g.get([1, 2, 3]), Some(0));
    g.set([1, 2, 3], 7).unwrap();
    assert_eq!(g.get([1, 2, 3]), Some(7));
    // every other cell is untouched
    assert_eq!(g.get([1, 2, 4]), Some(0));
    assert_eq!(g.get([-8, -8, -8]), Some(0));
}

#[test]
fn grid_rejects_out_of_range_access() {
    let mut g = empty_grid(8);
    assert_eq!(g.get([8, 0, 0]), None);
    assert_eq!(g.set([0, 9, 0], 1).unwrap_err(), EngineError::OutOfRange);
}

#[test]
fn empty_grid_always_misses() {
    let g = empty_grid(8);
    for dir in [
        [4096i64, 0, 0],
        [-4096, 0, 0],
        [0, 4096, 0],
        [0, 0, -4096],
        [100, 200, 300],
        [-5, 17, -1],
    ] {
        let out = cast_ray(dir, [0, 0, 0], D, &g);
        assert_eq!(out.hit, RayHit::Miss);
    }
}

#[test]
fn empty_grid_miss_within_radius_bound() {
    let g = empty_grid(8);
    let out = cast_ray([4096, 0, 0], [0, 0, 0], 100, &g);
    assert_eq!(out.hit, RayHit::Miss);
    // the ray leaves the grid at x = 8 after exactly 8 steps
    assert_eq!(out.steps, 8);
    let out = cast_ray([100, 200, 300], [1, 2, 3], 50, &g);
    assert_eq!(out.hit, RayHit::Miss);
    assert_eq!(out.steps, 6);
}

#[test]
fn single_voxel_hit_and_step_count() {
    let mut g = empty_grid(8);
    g.set([5, 0, 0], 12345).unwrap();
    let out = cast_ray([4096, 0, 0], [0, 0, 0], D, &g);
    assert_eq!(out.hit, RayHit::Hit(12345));
    assert_eq!(out.steps, 5);
}

#[test]
fn diagonal_hit_alternates_axes_x_first() {
    // On exact side-distance ties the x axis steps before y, so the path to
    // (3, 3, 0) takes 6 alternating steps.
    let mut g = empty_grid(8);
    g.set([3, 3, 0], 777).unwrap();
    let out = cast_ray([4096, 4096, 0], [0, 0, 0], D, &g);
    assert_eq!(out.hit, RayHit::Hit(777));
    assert_eq!(out.steps, 6);
}

#[test]
fn starting_cell_is_tested_first() {
    // the canonical order: the ray's own starting cell is tested before any
    // step is taken
    let mut g = empty_grid(8);
    g.set([0, 0, 0], 42).unwrap();
    let out = cast_ray([4096, 0, 0], [0, 0, 0], D, &g);
    assert_eq!(out.hit, RayHit::Hit(42));
    assert_eq!(out.steps, 0);
}

#[test]
fn zero_component_axis_never_steps() {
    let mut g = empty_grid(8);
    g.set([3, 5, 0], 11).unwrap();
    let out = cast_ray([4096, 0, 0], [0, 5, 0], D, &g);
    assert_eq!(out.hit, RayHit::Hit(11));
    assert_eq!(out.steps, 3);
}

#[test]
fn march_is_deterministic() {
    let mut g = empty_grid(8);
    g.set([2, -3, 1], 99).unwrap();
    let a = cast_ray([300, -450, 150], [0, 0, 0], D, &g);
    let b = cast_ray([300, -450, 150], [0, 0, 0], D, &g);
    assert_eq!(a.hit, b.hit);
    assert_eq!(a.steps, b.steps);
}

#[test]
fn voxel_color_formula() {
    assert_eq!(voxel_color(0, 0, 5, 32), 0x0040404B);
    assert_eq!(voxel_color(1, 2, 3, 4), 658447);
}

#[test]
fn voxel_color_never_sentinel() {
    // the all-minimum corner would pack to 0 without the reserved bit
    assert_eq!(voxel_color(-32, -32, -32, 32), 1);
    assert_ne!(voxel_color(-4, -4, -4, 4), 0);
}

fn p6_heights() -> Vec<i32> {
    // one column at (x=0, y=0) with height 5; every other column empty
    let side = 64usize;
    let mut heights = vec![-33i32; side * side];
    heights[(0 + 32) + (0 + 32) * side] = 5;
    heights
}

#[test]
fn terrain_single_column_scenario() {
    let g = gen_space(32, &p6_heights()).unwrap();
    // straight down the column from above: first occupied cell is z = 5
    let down = cast_ray([0, 0, -4096], [0, 0, 20], D, &g);
    assert_eq!(down.hit, RayHit::Hit(voxel_color(0, 0, 5, 32)));
    assert_eq!(down.hit, RayHit::Hit(0x0040404B));
    assert_eq!(down.steps, 15);
    // aimed away from every occupied cell: a miss
    let away = cast_ray([0, 0, 4096], [0, 0, 20], 2048, &g);
    assert_eq!(away.hit, RayHit::Miss);
}

#[test]
fn terrain_cells_follow_heights() {
    let side = 8usize;
    let mut heights = vec![-5i32; side * side];
    heights[(1 + 4) + (2 + 4) * side] = 2;
    let g = gen_space(4, &heights).unwrap();
    assert_eq!(g.get([1, 2, 2]), Some(658445));
    assert_eq!(g.get([1, 2, 2]), Some(voxel_color(1, 2, 2, 4)));
    assert_eq!(g.get([1, 2, -4]), Some(voxel_color(1, 2, -4, 4)));
    assert_eq!(g.get([1, 2, 3]), Some(0));
    assert_eq!(g.get([0, 0, -4]), Some(0));
}

#[test]
fn terrain_generation_deterministic() {
    let side = 8usize;
    let mut heights = vec![0i32; side * side];
    for (i, h) in heights.iter_mut().enumerate() {
        *h = (i as i32 % 9) - 4;
    }
    let a = gen_space(4, &heights).unwrap();
    let b = gen_space(4, &heights).unwrap();
    for x in -4i32..4 {
        for y in -4i32..4 {
            for z in -4i32..4 {
                assert_eq!(a.get([x, y, z]), b.get([x, y, z]));
            }
        }
    }
}

#[test]
fn terrain_rejects_bad_inputs() {
    let heights = vec![0i32; 64];
    assert_eq!(gen_space(0, &heights).unwrap_err(), EngineError::BadHalfExtent);
    assert_eq!(gen_space(70, &heights).unwrap_err(), EngineError::BadHalfExtent);
    let short = vec![0i32; 63];
    assert_eq!(gen_space(4, &short).unwrap_err(), EngineError::BadHeights);
}

#[test]
fn sine_cosine_known_values() {
    assert_eq!(sin_turn(0), 0);
    assert_eq!(sin_turn(8192), 2891);
    assert_eq!(sin_turn(16384), 4096);
    assert_eq!(sin_turn(32768), 0);
    assert_eq!(sin_turn(49152), -4096);
    assert_eq!(cos_turn(0), 4096);
    assert_eq!(cos_turn(16384), 0);
    assert_eq!(cos_turn(32768), -4096);
}

#[test]
fn camera_advances_and_wraps() {
    let mut cam = CameraController::new(0, 100);
    assert_eq!(cam.current_yaw(), 0);
    cam.advance();
    assert_eq!(cam.current_yaw(), 100);
    let mut cam = CameraController::new(65500, 100);
    cam.advance();
    assert_eq!(cam.current_yaw(), 64);
}

#[test]
fn frame_config_rejects_each_degenerate_value() {
    let ok = [0i32, 0, 20];
    assert_eq!(
        FrameConfig::new(0, 4, 1, 1, 0, 0, 0, ok, 100).unwrap_err(),
        EngineError::BadViewport
    );
    assert_eq!(
        FrameConfig::new(4, 40000, 1, 1, 0, 0, 0, ok, 100).unwrap_err(),
        EngineError::BadViewport
    );
    assert_eq!(
        FrameConfig::new(4, 4, 0, 1, 0, 0, 0, ok, 100).unwrap_err(),
        EngineError::BadFieldOfView
    );
    assert_eq!(
        FrameConfig::new(4, 4, 1, 0, 0, 0, 0, ok, 100).unwrap_err(),
        EngineError::BadFieldOfView
    );
    assert_eq!(
        FrameConfig::new(4, 4, 1, 1, 0, 0, 0, ok, 0).unwrap_err(),
        EngineError::BadRadius
    );
    assert_eq!(
        FrameConfig::new(4, 4, 1, 1, 0, 0, 0, ok, 0x4000_0001).unwrap_err(),
        EngineError::BadRadius
    );
    assert_eq!(
        FrameConfig::new(4, 4, 1, 1, 0, 0, 0, [70000, 0, 0], 100).unwrap_err(),
        EngineError::BadOrigin
    );
    assert!(FrameConfig::new(4, 4, 1, 1, 0, 0, 0, ok, 100).is_ok());
}

#[test]
fn render_empty_grid_is_all_background() {
    let g = empty_grid(8);
    let cfg = config(4, 3, 10923, 8192, 0x00FFAA00, [0, 0, 10]);
    let buf = gen_buffer(&cfg, 0, &g);
    assert_eq!(buf.len(), 12);
    assert!(buf.iter().all(|&p| p == 0x00FFAA00));
}

#[test]
fn render_single_pixel_straight_down() {
    // phi = 32768 gives sin 0, cos -4096: the one ray goes straight down
    // the -z axis onto the occupied column and hits the cell at z = 5.
    let g = gen_space(32, &p6_heights()).unwrap();
    let cfg = config(1, 1, 32768, 0, 0x00FFAA00, [0, 0, 20]);
    let buf = gen_buffer(&cfg, 0, &g);
    assert_eq!(buf, vec![0x0040404B]);
}

#[test]
fn render_same_frame_twice_is_identical() {
    let g = gen_space(32, &p6_heights()).unwrap();
    let cfg = config(8, 6, 10923, 8192, 0x00FFAA00, [0, 0, 20]);
    let a = gen_buffer(&cfg, 1234, &g);
    let b = gen_buffer(&cfg, 1234, &g);
    assert_eq!(a.len(), 48);
    assert_eq!(a, b);
}

#[test]
fn render_reads_the_grid() {
    // the buffer differs between an empty grid and a filled one, so the
    // pixels really come from the march
    let side = 16usize;
    let heights = vec![31i32; side * side];
    let full = gen_space(8, &heights).unwrap();
    let empty = empty_grid(8);
    let cfg = config(4, 4, 10923, 8192, 0x00FFAA00, [0, 0, 0]);
    let a = gen_buffer(&cfg, 0, &full);
    let b = gen_buffer(&cfg, 0, &empty);
    assert!(b.iter().all(|&p| p == 0x00FFAA00));
    assert_ne!(a, b);
}
