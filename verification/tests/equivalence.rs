use flife::grid::Grid;
use flife::rule::GRID_SIZE;
use flife::step::dispatch;
use flife::step::step_cell;

const N: usize = GRID_SIZE;

fn seed_pattern() -> Vec<(usize, usize)> {
    // A glider, a blinker, a block, and cells across the wraparound seams.
    vec![
        (1, 0),
        (2, 1),
        (0, 2),
        (1, 2),
        (2, 2),
        (20, 20),
        (21, 20),
        (22, 20),
        (50, 50),
        (51, 50),
        (50, 51),
        (51, 51),
        (N - 1, 10),
        (0, 10),
        (1, 10),
        (N - 1, N - 1),
        (0, N - 1),
        (N - 1, 0),
    ]
}

#[test]
fn cpu_and_kernel_steppers_match() {
    // Identical seeded generations stepped by the row-major pass and by the
    // data-parallel dispatch stay bit-identical over several generations.
    let mut cpu = Grid::new();
    let mut kernel = Grid::new();
    for &(x, y) in seed_pattern().iter() {
        cpu.set_alive(x, y);
        kernel.set_alive(x, y);
    }
    for generation in 0..6 {
        assert_eq!(
            cpu.alive_cells(),
            kernel.alive_cells(),
            "paths diverged at generation {}",
            generation
        );
        cpu.tick();
        kernel.tick_kernel();
    }
    assert_eq!(cpu.alive_cells(), kernel.alive_cells());
}

#[test]
fn dispatch_matches_per_cell_step() {
    // The flat dispatch output agrees cell by cell with the per-cell step
    // applied to the same snapshot.
    let mut buf = vec![0u32; N * N];
    for &(x, y) in seed_pattern().iter() {
        buf[y * N + x] = 1;
    }
    let out = dispatch(&buf);
    assert_eq!(out.len(), N * N);
    for y in (0..N).step_by(7) {
        for x in (0..N).step_by(7) {
            assert_eq!(out[y * N + x], step_cell(&buf, x, y));
        }
    }
    // And the seeded regions in full.
    for y in 0..4 {
        for x in 0..4 {
            assert_eq!(out[y * N + x], step_cell(&buf, x, y));
        }
    }
}

#[test]
fn dispatch_output_is_canonical_bits() {
    // Every produced cell is exactly 0 or 1, so both strategies produce the
    // same bytes, not merely the same liveness.
    let mut buf = vec![0u32; N * N];
    for &(x, y) in seed_pattern().iter() {
        buf[y * N + x] = 7;
    }
    let out = dispatch(&buf);
    for &v in out.iter() {
        assert!(v == 0 || v == 1);
    }
}
