//! The grid store: two fixed-size buffers of cells (ping and pong) plus an
//! index selecting the front one, with the seeder, the alive-cell enumerator
//! and the two stepping strategies over them.

use vstd::prelude::*;

use crate::rule::GRID_SIZE;
use crate::rule::is_alive;
use crate::step::compute_into;
use crate::step::dispatch;
use crate::step::idx_of;
use crate::step::lemma_flat_coords;
use crate::step::lemma_flat_index;
use crate::step::next_gen;

verus! {

/// Scan of the first k cells of a generation in flat row-major order,
/// keeping the coordinates of the live ones in scan order.
pub open spec fn alive_prefix(g: Seq<u32>, k: int) -> Seq<(usize, usize)>
    decreases k,
{
    if k <= 0 {
        Seq::empty()
    } else if is_alive(g[k - 1]) {
        alive_prefix(g, k - 1).push(
            ((((k - 1) % (GRID_SIZE as int)) as usize, ((k - 1) / (GRID_SIZE as int)) as usize)),
        )
    } else {
        alive_prefix(g, k - 1)
    }
}

/// Coordinates of every live cell of a generation, in row-major scan order.
pub open spec fn alive_coords(g: Seq<u32>) -> Seq<(usize, usize)> {
    alive_prefix(g, GRID_SIZE as int * GRID_SIZE as int)
}

/// The first k cells of the scan list an in-range coordinate exactly when
/// its flat index lies below k and the cell there is alive.
proof fn lemma_alive_prefix_members(g: Seq<u32>, k: int)
    requires
        0 <= k <= GRID_SIZE as int * GRID_SIZE as int,
    ensures
        forall|x: int, y: int|
            0 <= x < GRID_SIZE as int && 0 <= y < GRID_SIZE as int ==> (alive_prefix(g, k).contains(
                ((x as usize, y as usize)),
            ) <==> (idx_of(x, y) < k && is_alive(g[idx_of(x, y)]))),
    decreases k,
{
    if k > 0 {
        lemma_alive_prefix_members(g, k - 1);
        lemma_flat_coords(k - 1);
        let px = ((k - 1) % (GRID_SIZE as int)) as usize;
        let py = ((k - 1) / (GRID_SIZE as int)) as usize;
        assert forall|x: int, y: int|
            0 <= x < GRID_SIZE as int && 0 <= y
                < GRID_SIZE as int implies (alive_prefix(g, k).contains(
            ((x as usize, y as usize)),
        ) <==> (idx_of(x, y) < k && is_alive(g[idx_of(x, y)]))) by {
            lemma_flat_index(x, y);
            let s = alive_prefix(g, k - 1);
            if is_alive(g[k - 1]) {
                assert(alive_prefix(g, k) == s.push((px, py)));
                if x == px as int && y == py as int {
                    assert(s.push((px, py))[s.len() as int] == (px, py));
                    assert(alive_prefix(g, k).contains(((x as usize, y as usize))));
                    assert(idx_of(x, y) == k - 1);
                } else {
                    assert(idx_of(x, y) != k - 1);
                    if s.contains(((x as usize, y as usize))) {
                        let i = choose|i: int|
                            0 <= i < s.len() && s[i] == (x as usize, y as usize);
                        assert(s.push((px, py))[i] == (x as usize, y as usize));
                        assert(alive_prefix(g, k).contains(((x as usize, y as usize))));
                    }
                    if alive_prefix(g, k).contains(((x as usize, y as usize))) {
                        let i = choose|i: int|
                            0 <= i < s.push((px, py)).len() && s.push((px, py))[i] == (
                            x as usize,
                            y as usize,
                            );
                        assert(i < s.len());
                        assert(s[i] == (x as usize, y as usize));
                        assert(s.contains(((x as usize, y as usize))));
                    }
                }
            } else {
                assert(alive_prefix(g, k) == s);
                assert(idx_of(x, y) == k - 1 ==> !is_alive(g[idx_of(x, y)]));
            }
        }
    }
}

/// Law (enumerator soundness and completeness): the enumerator's scan lists
/// an in-range coordinate exactly when the cell there is alive in the
/// generation it scans — a freshly seeded cell appears at once, and nothing
/// else does.
pub proof fn lemma_alive_coords_members(g: Seq<u32>)
    ensures
        forall|x: int, y: int|
            0 <= x < GRID_SIZE as int && 0 <= y < GRID_SIZE as int ==> (alive_coords(g).contains(
                ((x as usize, y as usize)),
            ) <==> is_alive(g[idx_of(x, y)])),
{
    lemma_alive_prefix_members(g, GRID_SIZE as int * GRID_SIZE as int);
    assert forall|x: int, y: int|
        0 <= x < GRID_SIZE as int && 0 <= y < GRID_SIZE as int implies (alive_coords(g).contains(
        ((x as usize, y as usize)),
    ) <==> is_alive(g[idx_of(x, y)])) by {
        lemma_flat_index(x, y);
    }
}

/// The double-buffered grid store. Exactly one buffer is the front
/// (authoritative current generation); the other is the back, the write
/// target of the next step. The buffers are allocated once, all dead.
pub struct Grid {
    buf_a: Vec<u32>,
    buf_b: Vec<u32>,
    current: usize,
}

impl View for Grid {
    type V = Seq<u32>;

    /// The authoritative current generation: the front buffer.
    closed spec fn view(&self) -> Seq<u32> {
        if self.current == 0 {
            self.buf_a@
        } else {
            self.buf_b@
        }
    }
}

impl Grid {
    /// Both buffers hold one cell per grid coordinate, and the front index
    /// selects one of the two.
    pub closed spec fn buffers_ok(&self) -> bool {
        &&& self.buf_a@.len() == GRID_SIZE * GRID_SIZE
        &&& self.buf_b@.len() == GRID_SIZE * GRID_SIZE
        &&& self.current < 2
    }

    /// Well-formed grid: the buffer invariant holds and the front
    /// generation has exactly one cell per grid coordinate.
    pub open spec fn wf(&self) -> bool {
        &&& self.buffers_ok()
        &&& self@.len() == GRID_SIZE * GRID_SIZE
    }

    /// One all-dead buffer, one cell per grid coordinate.
    fn dead_buffer() -> (v: Vec<u32>)
        ensures
            v@.len() == GRID_SIZE * GRID_SIZE,
            forall|i: int| 0 <= i < v@.len() ==> v@[i] == 0u32,
    {
        let mut v: Vec<u32> = Vec::new();
        let mut i: usize = 0;
        while i < GRID_SIZE * GRID_SIZE
            invariant
                v@.len() == i,
                i <= GRID_SIZE * GRID_SIZE,
                forall|j: int| 0 <= j < i ==> v@[j] == 0u32,
            decreases GRID_SIZE * GRID_SIZE - i,
        {
            v.push(0);
            i += 1;
        }
        v
    }

    /// A grid with every cell dead and the front index on the first buffer.
    pub fn new() -> (g: Grid)
        ensures
            g.wf(),
            forall|i: int| 0 <= i < g@.len() ==> g@[i] == 0u32,
            forall|i: int| 0 <= i < g@.len() ==> !is_alive(g@[i]),
    {
        Grid { buf_a: Self::dead_buffer(), buf_b: Self::dead_buffer(), current: 0 }
    }

    /// Marks one cell alive in the front buffer. The change is visible
    /// immediately to the enumerator and to the next step's read of the
    /// front generation; no other cell changes.
    pub fn set_alive(&mut self, x: usize, y: usize)
        requires
            old(self).wf(),
            x < GRID_SIZE,
            y < GRID_SIZE,
        ensures
            final(self).wf(),
            final(self)@ == old(self)@.update(idx_of(x as int, y as int), 1u32),
    {
        let i = y * GRID_SIZE + x;
        if self.current == 0 {
            self.buf_a.set(i, 1);
        } else {
            self.buf_b.set(i, 1);
        }
    }

    /// Advances one generation by the row-major strategy: every cell of the
    /// back buffer is computed from the front snapshot alone, then the two
    /// buffers swap roles. No partially stepped generation is observable.
    pub fn tick(&mut self)
        requires
            old(self).wf(),
        ensures
            final(self).wf(),
            final(self)@ == next_gen(old(self)@),
    {
        if self.current == 0 {
            compute_into(&self.buf_a, &mut self.buf_b);
            self.current = 1;
        } else {
            compute_into(&self.buf_b, &mut self.buf_a);
            self.current = 0;
        }
    }

    /// Advances one generation by the data-parallel strategy: the per-cell
    /// step runs as a map over the flat index space from the front snapshot
    /// — the host-side contract of a compute-kernel dispatch — and the
    /// downloaded result replaces the back buffer before the swap.
    pub fn tick_kernel(&mut self)
        requires
            old(self).wf(),
        ensures
            final(self).wf(),
            final(self)@ == next_gen(old(self)@),
    {
        if self.current == 0 {
            self.buf_b = dispatch(&self.buf_a);
            self.current = 1;
        } else {
            self.buf_a = dispatch(&self.buf_b);
            self.current = 0;
        }
    }

    /// Coordinates of every live cell of the current generation, in a fixed
    /// row-major scan order; the grid itself is not mutated.
    pub fn alive_cells(&self) -> (cells: Vec<(usize, usize)>)
        requires
            self.wf(),
        ensures
            cells@ == alive_coords(self@),
    {
        let buf = if self.current == 0 {
            &self.buf_a
        } else {
            &self.buf_b
        };
        let mut cells: Vec<(usize, usize)> = Vec::new();
        let mut i: usize = 0;
        while i < GRID_SIZE * GRID_SIZE
            invariant
                buf@ == self@,
                buf@.len() == GRID_SIZE * GRID_SIZE,
                i <= GRID_SIZE * GRID_SIZE,
                cells@ == alive_prefix(self@, i as int),
            decreases GRID_SIZE * GRID_SIZE - i,
        {
            if 0 < buf[i] {
                let x = i % GRID_SIZE;
                let y = i / GRID_SIZE;
                cells.push((x, y));
            }
            i += 1;
        }
        cells
    }
}

} // verus!
