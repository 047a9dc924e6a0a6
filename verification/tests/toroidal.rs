use flife::grid::Grid;
use flife::rule::GRID_SIZE;
use flife::step::live_neighbors;

const N: usize = GRID_SIZE;

fn buffer_with(cells: &[(usize, usize)]) -> Vec<u32> {
    let mut buf = vec![0u32; N * N];
    for &(x, y) in cells {
        buf[y * N + x] = 1;
    }
    buf
}

#[test]
fn corner_cell_sees_all_eight_wrapped_neighbors() {
    // The eight toroidal neighbors of the corner (0,0).
    let neighbors = [
        (N - 1, N - 1),
        (0, N - 1),
        (1, N - 1),
        (N - 1, 0),
        (1, 0),
        (N - 1, 1),
        (0, 1),
        (1, 1),
    ];
    let buf = buffer_with(&neighbors);
    assert_eq!(live_neighbors(&buf, 0, 0), 8);
    // Each one alone is seen as exactly one live neighbor.
    for &cell in neighbors.iter() {
        let one = buffer_with(&[cell]);
        assert_eq!(live_neighbors(&one, 0, 0), 1, "missed neighbor {:?}", cell);
    }
}

#[test]
fn edge_cell_sees_all_eight_wrapped_neighbors() {
    // The eight toroidal neighbors of the edge cell (0,5).
    let neighbors = [
        (N - 1, 4),
        (0, 4),
        (1, 4),
        (N - 1, 5),
        (1, 5),
        (N - 1, 6),
        (0, 6),
        (1, 6),
    ];
    let buf = buffer_with(&neighbors);
    assert_eq!(live_neighbors(&buf, 0, 5), 8);
    for &cell in neighbors.iter() {
        let one = buffer_with(&[cell]);
        assert_eq!(live_neighbors(&one, 0, 5), 1, "missed neighbor {:?}", cell);
    }
}

#[test]
fn corner_wraparound_birth_forms_block() {
    // Three live cells in the three far corners are all toroidal neighbors
    // of (0,0): the corner cell is born, the three survive, and the four
    // form a still-life block across the grid seam.
    let mut grid = Grid::new();
    grid.set_alive(N - 1, N - 1);
    grid.set_alive(0, N - 1);
    grid.set_alive(N - 1, 0);
    grid.tick();
    let block = vec![(0, 0), (N - 1, 0), (0, N - 1), (N - 1, N - 1)];
    assert_eq!(grid.alive_cells(), block);
    grid.tick();
    assert_eq!(grid.alive_cells(), block);
}

#[test]
fn edge_wraparound_blinker() {
    // A horizontal triple across the left/right seam oscillates like any
    // other blinker: vertical after one tick, back after two.
    let mut grid = Grid::new();
    grid.set_alive(N - 1, 10);
    grid.set_alive(0, 10);
    grid.set_alive(1, 10);
    grid.tick();
    assert_eq!(grid.alive_cells(), vec![(0, 9), (0, 10), (0, 11)]);
    grid.tick();
    assert_eq!(grid.alive_cells(), vec![(0, 10), (1, 10), (N - 1, 10)]);
}
