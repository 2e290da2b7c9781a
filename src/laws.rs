use crate::engine::{live_neighbours, next_generation};
use crate::grid::{all_dead, height_of, in_bounds, rectangular, state_at, width_of, State};
use vstd::prelude::*;

verus! {

/// A generation step keeps the grid's height and width.
pub proof fn lemma_advance_keeps_bounds(g: Seq<Seq<State>>)
    requires
        rectangular(g),
    ensures
        rectangular(next_generation(g)),
        height_of(next_generation(g)) == height_of(g),
        width_of(next_generation(g)) == width_of(g),
{
    let n = next_generation(g);
    assert forall|r: int| 0 <= r < n.len() implies #[trigger] n[r].len() == n[0].len() by {
        assert(g[r].len() == g[0].len());
    }
}

/// Every position outside `[0, height) x [0, width)` reads as dead.
pub proof fn lemma_outside_is_dead(g: Seq<Seq<State>>, r: int, c: int)
    requires
        rectangular(g),
        !(0 <= r < height_of(g) && 0 <= c < width_of(g)),
    ensures
        state_at(g, r, c) == State::Dead,
{
    if 0 <= r < g.len() {
        assert(g[r].len() == g[0].len());
    }
}

/// A cell with exactly two live neighbours keeps its state.
pub proof fn lemma_two_neighbours_keep(g: Seq<Seq<State>>, r: int, c: int)
    requires
        in_bounds(g, r, c),
        live_neighbours(g, r, c) == 2,
    ensures
        next_generation(g)[r][c] == g[r][c],
{
}

/// A cell with exactly three live neighbours is alive next, whatever it was.
pub proof fn lemma_three_neighbours_live(g: Seq<Seq<State>>, r: int, c: int)
    requires
        in_bounds(g, r, c),
        live_neighbours(g, r, c) == 3,
    ensures
        next_generation(g)[r][c] == State::Alive,
{
}

/// A cell with 0, 1, or 4 or more live neighbours is dead next.
pub proof fn lemma_other_counts_die(g: Seq<Seq<State>>, r: int, c: int)
    requires
        in_bounds(g, r, c),
        live_neighbours(g, r, c) <= 1 || live_neighbours(g, r, c) >= 4,
    ensures
        next_generation(g)[r][c] == State::Dead,
{
}

/// The all-dead grid is its own next generation.
pub proof fn lemma_all_dead_is_fixed(g: Seq<Seq<State>>)
    requires
        rectangular(g),
        all_dead(g),
    ensures
        next_generation(g) == g,
{
    let n = next_generation(g);
    assert forall|r: int| 0 <= r < g.len() implies #[trigger] n[r] =~= g[r] by {
        assert forall|c: int| 0 <= c < g[r].len() implies #[trigger] n[r][c] == g[r][c] by {
            assert(live_neighbours(g, r, c) == 0);
        }
    }
    assert(n =~= g);
}

} // verus!
