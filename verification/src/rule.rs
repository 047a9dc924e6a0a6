//! Cell state, the transition rule shared by both execution strategies, and
//! toroidal coordinate wrapping.

use vstd::prelude::*;

verus! {

/// Number of cells along each axis of the square grid.
pub const GRID_SIZE: usize = 200;

/// A cell is alive exactly when its value is positive; zero means dead.
/// Cells are plain integers so that a whole generation can move in bulk as a
/// flat buffer, for a device transfer as much as for a host copy.
pub open spec fn is_alive(v: u32) -> bool {
    v > 0
}

/// The canonical Game-of-Life transition table: a live cell survives with
/// exactly two or three live neighbors, a dead cell is born with exactly
/// three, and every other combination is dead in the next generation.
pub open spec fn rule(alive: bool, count: int) -> bool {
    count == 3 || (alive && count == 2)
}

/// Law (transition table): for every neighbor count, a live cell survives
/// if and only if the count is two or three, and a dead cell is born if and
/// only if the count is exactly three.
pub proof fn lemma_rule_table()
    ensures
        forall|count: int| rule(true, count) <==> (count == 2 || count == 3),
        forall|count: int| rule(false, count) <==> count == 3,
{
}

/// Executable transition rule, identical for both execution strategies.
/// Returns the canonical cell values: 1 for alive, 0 for dead.
pub fn transition(alive: bool, count: u32) -> (next: u32)
    ensures
        next == (if rule(alive, count as int) {
            1u32
        } else {
            0u32
        }),
        is_alive(next) == rule(alive, count as int),
{
    if count == 3 || (alive && count == 2) {
        1
    } else {
        0
    }
}

/// Toroidal reduction of a coordinate that may have stepped one grid length
/// off either edge: negative values wrap to the far edge, values past the
/// grid wrap to the near edge.
pub open spec fn wrap_spec(n: int) -> int {
    if n < 0 {
        n + GRID_SIZE as int
    } else if n >= GRID_SIZE as int {
        n - GRID_SIZE as int
    } else {
        n
    }
}

/// Law (toroidal wraparound): within one grid length of the valid range,
/// the wrapped coordinate is exactly the coordinate modulo the grid size.
pub proof fn lemma_wrap_is_mod(n: int)
    requires
        -(GRID_SIZE as int) <= n < 2 * GRID_SIZE as int,
    ensures
        wrap_spec(n) == n % (GRID_SIZE as int),
{
}

/// Executable toroidal wrap, defined for coordinates at most one grid length
/// out of range — exactly what an offset of minus one or plus one from a
/// valid coordinate can produce.
pub fn wrap(n: isize) -> (r: usize)
    requires
        -(GRID_SIZE as isize) <= n < 2 * GRID_SIZE as isize,
    ensures
        r < GRID_SIZE,
        r as int == wrap_spec(n as int),
        r as int == (n as int) % (GRID_SIZE as int),
{
    if n < 0 {
        (GRID_SIZE as isize + n) as usize
    } else if n as usize >= GRID_SIZE {
        n as usize - GRID_SIZE
    } else {
        n as usize
    }
}

} // verus!
