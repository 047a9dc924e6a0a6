//! One generation step: the mathematical model of a generation as a flat
//! row-major sequence, neighbor counting with toroidal addressing, and the
//! two execution strategies — a row-major pass and a data-parallel map over
//! the flat index space — for the same state-transition function.

use vstd::arithmetic::div_mod::lemma_fundamental_div_mod;
use vstd::arithmetic::div_mod::lemma_fundamental_div_mod_converse;
use vstd::arithmetic::div_mod::lemma_mod_bound;
use vstd::prelude::*;

use crate::rule::GRID_SIZE;
use crate::rule::is_alive;
use crate::rule::lemma_wrap_is_mod;
use crate::rule::rule;
use crate::rule::transition;
use crate::rule::wrap;
use crate::rule::wrap_spec;

verus! {

/// Flat index of coordinate (x, y) in row-major order.
pub open spec fn idx_of(x: int, y: int) -> int {
    y * GRID_SIZE as int + x
}

/// Whether the cell at in-range (x, y) of generation g is alive.
pub open spec fn alive_at(g: Seq<u32>, x: int, y: int) -> bool {
    is_alive(g[idx_of(x, y)])
}

/// 1 when the toroidally wrapped coordinate holds a live cell, else 0.
pub open spec fn alive_wrapped(g: Seq<u32>, x: int, y: int) -> int {
    if alive_at(g, wrap_spec(x), wrap_spec(y)) {
        1
    } else {
        0
    }
}

/// Number of live cells among the eight toroidal neighbors of (x, y):
/// each axis offset by -1, 0 or +1 (excluding the cell itself), wrapped
/// around the grid edges.
pub open spec fn neighbor_count(g: Seq<u32>, x: int, y: int) -> int {
    alive_wrapped(g, x - 1, y - 1) + alive_wrapped(g, x, y - 1) + alive_wrapped(g, x + 1, y - 1)
        + alive_wrapped(g, x - 1, y) + alive_wrapped(g, x + 1, y) + alive_wrapped(g, x - 1, y + 1)
        + alive_wrapped(g, x, y + 1) + alive_wrapped(g, x + 1, y + 1)
}

/// 1 when the cell at the coordinate reduced modulo the grid size is alive.
pub open spec fn alive_mod(g: Seq<u32>, x: int, y: int) -> int {
    if alive_at(g, x % (GRID_SIZE as int), y % (GRID_SIZE as int)) {
        1
    } else {
        0
    }
}

/// Law (toroidal wraparound of the neighborhood): for every in-range cell,
/// the neighbor count reads exactly the eight offset coordinates reduced
/// modulo the grid size, so lookups at edges and corners wrap to the
/// opposite side rather than leaving the grid.
pub proof fn lemma_neighbor_count_wraps(g: Seq<u32>, x: int, y: int)
    requires
        0 <= x < GRID_SIZE as int,
        0 <= y < GRID_SIZE as int,
    ensures
        neighbor_count(g, x, y) == alive_mod(g, x - 1, y - 1) + alive_mod(g, x, y - 1)
            + alive_mod(g, x + 1, y - 1) + alive_mod(g, x - 1, y) + alive_mod(g, x + 1, y)
            + alive_mod(g, x - 1, y + 1) + alive_mod(g, x, y + 1) + alive_mod(g, x + 1, y + 1),
{
    lemma_wrap_is_mod(x - 1);
    lemma_wrap_is_mod(x);
    lemma_wrap_is_mod(x + 1);
    lemma_wrap_is_mod(y - 1);
    lemma_wrap_is_mod(y);
    lemma_wrap_is_mod(y + 1);
}

/// Next value of the cell at (x, y): the transition rule applied to the
/// cell's current state and its live-neighbor count, both read from the one
/// snapshot g.
pub open spec fn next_cell(g: Seq<u32>, x: int, y: int) -> u32 {
    if rule(alive_at(g, x, y), neighbor_count(g, x, y)) {
        1u32
    } else {
        0u32
    }
}

/// The whole next generation: every cell computed purely from the snapshot
/// g, never from a value already written for the new generation.
pub open spec fn next_gen(g: Seq<u32>) -> Seq<u32> {
    Seq::new(
        (GRID_SIZE * GRID_SIZE) as nat,
        |i: int| next_cell(g, i % (GRID_SIZE as int), i / (GRID_SIZE as int)),
    )
}

/// Row-major index arithmetic: a flat index decomposes into in-range
/// coordinates by remainder and division.
pub proof fn lemma_flat_coords(i: int)
    requires
        0 <= i < GRID_SIZE as int * GRID_SIZE as int,
    ensures
        0 <= i % (GRID_SIZE as int) < GRID_SIZE as int,
        0 <= i / (GRID_SIZE as int) < GRID_SIZE as int,
        idx_of(i % (GRID_SIZE as int), i / (GRID_SIZE as int)) == i,
{
    lemma_fundamental_div_mod(i, GRID_SIZE as int);
    lemma_mod_bound(i, GRID_SIZE as int);
}

/// Row-major index arithmetic: the flat index of in-range (x, y) recovers x
/// and y by remainder and division.
pub proof fn lemma_flat_index(x: int, y: int)
    requires
        0 <= x < GRID_SIZE as int,
        0 <= y < GRID_SIZE as int,
    ensures
        0 <= idx_of(x, y) < GRID_SIZE as int * GRID_SIZE as int,
        idx_of(x, y) % (GRID_SIZE as int) == x,
        idx_of(x, y) / (GRID_SIZE as int) == y,
{
    lemma_fundamental_div_mod_converse(idx_of(x, y), GRID_SIZE as int, y, x);
}

/// Whether the cell at in-range (x, y) of the buffer is alive.
pub fn alive_in(buf: &Vec<u32>, x: usize, y: usize) -> (b: bool)
    requires
        buf@.len() == GRID_SIZE * GRID_SIZE,
        x < GRID_SIZE,
        y < GRID_SIZE,
    ensures
        b == alive_at(buf@, x as int, y as int),
{
    0 < buf[y * GRID_SIZE + x]
}

/// Live cells among the eight toroidal neighbors of (x, y), read from the
/// given snapshot only.
pub fn live_neighbors(buf: &Vec<u32>, x: usize, y: usize) -> (count: u32)
    requires
        buf@.len() == GRID_SIZE * GRID_SIZE,
        x < GRID_SIZE,
        y < GRID_SIZE,
    ensures
        count as int == neighbor_count(buf@, x as int, y as int),
        count <= 8,
{
    let xm = wrap(x as isize - 1);
    let xp = wrap(x as isize + 1);
    let ym = wrap(y as isize - 1);
    let yp = wrap(y as isize + 1);
    let mut count: u32 = 0;
    if alive_in(buf, xm, ym) {
        count += 1;
    }
    if alive_in(buf, x, ym) {
        count += 1;
    }
    if alive_in(buf, xp, ym) {
        count += 1;
    }
    if alive_in(buf, xm, y) {
        count += 1;
    }
    if alive_in(buf, xp, y) {
        count += 1;
    }
    if alive_in(buf, xm, yp) {
        count += 1;
    }
    if alive_in(buf, x, yp) {
        count += 1;
    }
    if alive_in(buf, xp, yp) {
        count += 1;
    }
    count
}

/// Next value of the cell at (x, y), computed purely from the snapshot
/// buffer. This per-cell step is the body both execution strategies run
/// once for every cell of the grid.
pub fn step_cell(buf: &Vec<u32>, x: usize, y: usize) -> (v: u32)
    requires
        buf@.len() == GRID_SIZE * GRID_SIZE,
        x < GRID_SIZE,
        y < GRID_SIZE,
    ensures
        v == next_cell(buf@, x as int, y as int),
{
    let alive = alive_in(buf, x, y);
    let count = live_neighbors(buf, x, y);
    transition(alive, count)
}

/// The row-major execution strategy: one sequential pass over every cell,
/// reading only the src snapshot and overwriting every cell of dst with the
/// next generation.
pub fn compute_into(src: &Vec<u32>, dst: &mut Vec<u32>)
    requires
        src@.len() == GRID_SIZE * GRID_SIZE,
        old(dst)@.len() == GRID_SIZE * GRID_SIZE,
    ensures
        final(dst)@ == next_gen(src@),
{
    let mut y: usize = 0;
    while y < GRID_SIZE
        invariant
            src@.len() == GRID_SIZE * GRID_SIZE,
            dst@.len() == GRID_SIZE * GRID_SIZE,
            y <= GRID_SIZE,
            forall|j: int| 0 <= j < y * GRID_SIZE ==> dst@[j] == next_gen(src@)[j],
        decreases GRID_SIZE - y,
    {
        let mut x: usize = 0;
        while x < GRID_SIZE
            invariant
                src@.len() == GRID_SIZE * GRID_SIZE,
                dst@.len() == GRID_SIZE * GRID_SIZE,
                x <= GRID_SIZE,
                y < GRID_SIZE,
                forall|j: int| 0 <= j < y * GRID_SIZE + x ==> dst@[j] == next_gen(src@)[j],
            decreases GRID_SIZE - x,
        {
            let v = step_cell(src, x, y);
            dst.set(y * GRID_SIZE + x, v);
            proof {
                lemma_flat_index(x as int, y as int);
            }
            x += 1;
        }
        y += 1;
    }
    proof {
        assert(dst@ =~= next_gen(src@));
    }
}

/// The data-parallel execution strategy: the per-cell step invoked once per
/// flat index across the whole index space, each invocation reading only the
/// src snapshot and writing only its own output cell — the shape in which a
/// compute kernel runs the step over an N-by-N dispatch.
pub fn dispatch(src: &Vec<u32>) -> (out: Vec<u32>)
    requires
        src@.len() == GRID_SIZE * GRID_SIZE,
    ensures
        out@ == next_gen(src@),
{
    let mut out: Vec<u32> = Vec::new();
    let mut gid: usize = 0;
    while gid < GRID_SIZE * GRID_SIZE
        invariant
            src@.len() == GRID_SIZE * GRID_SIZE,
            out@.len() == gid,
            gid <= GRID_SIZE * GRID_SIZE,
            forall|j: int| 0 <= j < gid ==> out@[j] == next_gen(src@)[j],
        decreases GRID_SIZE * GRID_SIZE - gid,
    {
        proof {
            lemma_flat_coords(gid as int);
        }
        let x = gid % GRID_SIZE;
        let y = gid / GRID_SIZE;
        let v = step_cell(src, x, y);
        out.push(v);
        gid += 1;
    }
    proof {
        assert(out@ =~= next_gen(src@));
    }
    out
}

/// Law (equivalence of execution strategies): the next generation is a
/// function of the snapshot alone, so any two steppers pinned to it — the
/// row-major pass and the data-parallel dispatch — produce bit-identical
/// generations from identical seeded generations.
pub proof fn lemma_steppers_agree(a: Seq<u32>, b: Seq<u32>)
    requires
        a == b,
    ensures
        next_gen(a) == next_gen(b),
{
}

} // verus!
