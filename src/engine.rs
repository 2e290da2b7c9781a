use crate::grid::{height_of, rectangular, state_at, width_of, Area, Point, State};
use itertools::Itertools;
use vstd::prelude::*;

verus! {

/// 1 for a live cell, 0 for a dead one or a position off the grid.
pub open spec fn live(g: Seq<Seq<State>>, r: int, c: int) -> int {
    if state_at(g, r, c) == State::Alive {
        1
    } else {
        0
    }
}

/// The number of live cells among the eight around `(r, c)`; positions off
/// the grid count as dead, there is no wrap-around.
pub open spec fn live_neighbours(g: Seq<Seq<State>>, r: int, c: int) -> int {
    live(g, r - 1, c - 1) + live(g, r - 1, c) + live(g, r - 1, c + 1) + live(g, r, c - 1) + live(
        g,
        r,
        c + 1,
    ) + live(g, r + 1, c - 1) + live(g, r + 1, c) + live(g, r + 1, c + 1)
}

/// The rule: a cell stays as it is with two live neighbours, is alive with
/// three, and is dead with any other number.
pub open spec fn next_of(current: State, n: int) -> State {
    if n == 3 {
        State::Alive
    } else if n == 2 {
        current
    } else {
        State::Dead
    }
}

/// The next generation: every cell's next state, all read from `g`.
pub open spec fn next_generation(g: Seq<Seq<State>>) -> Seq<Seq<State>> {
    Seq::new(
        g.len(),
        |r: int| Seq::new(g[r].len(), |c: int| next_of(g[r][c], live_neighbours(g, r, c))),
    )
}

/// The sum of `live` over the first `n` positions of `s`.
pub open spec fn live_sum(g: Seq<Seq<State>>, s: Seq<(usize, usize)>, n: int) -> int
    decreases n,
{
    if n <= 0 {
        0
    } else {
        live_sum(g, s, n - 1) + live(g, s[n - 1].0 as int, s[n - 1].1 as int)
    }
}

/// Position `i` of the row-major walk over a window that starts at
/// `(r_lo, c_lo)` and is `nc` columns wide.
pub open spec fn window_at(r_lo: int, c_lo: int, nc: int, i: int) -> (usize, usize) {
    ((r_lo + i / nc) as usize, (c_lo + i % nc) as usize)
}

/// Relies on itertools' `cartesian_product`: every row of `r_lo..=r_hi`
/// paired with every column of `c_lo..=c_hi`, rows outermost, in order.
#[verifier::external_body]
fn window(r_lo: usize, r_hi: usize, c_lo: usize, c_hi: usize) -> (r: Vec<(usize, usize)>)
    requires
        r_lo <= r_hi,
        c_lo <= c_hi,
    ensures
        r@.len() == (r_hi - r_lo + 1) * (c_hi - c_lo + 1),
        forall|i: int|
            0 <= i < r@.len() ==> #[trigger] r@[i] == window_at(
                r_lo as int,
                c_lo as int,
                c_hi - c_lo + 1,
                i,
            ),
{
    (r_lo..=r_hi).cartesian_product(c_lo..=c_hi).collect()
}

/// Walking the clamped 3x3 window around `(row, col)` adds up the cell's own
/// state and its eight neighbours: the rows and columns that the clamp leaves
/// out lie off the grid.
proof fn lemma_window_sum(
    g: Seq<Seq<State>>,
    s: Seq<(usize, usize)>,
    row: usize,
    col: usize,
    r_lo: usize,
    r_hi: usize,
    c_lo: usize,
    c_hi: usize,
)
    requires
        rectangular(g),
        height_of(g) <= usize::MAX,
        width_of(g) <= usize::MAX,
        r_lo == (if row >= 1 { row - 1 } else { 0 }),
        r_hi == (if row < usize::MAX { row + 1 } else { row as int }),
        c_lo == (if col >= 1 { col - 1 } else { 0 }),
        c_hi == (if col < usize::MAX { col + 1 } else { col as int }),
        s.len() == (r_hi - r_lo + 1) * (c_hi - c_lo + 1),
        forall|i: int|
            0 <= i < s.len() ==> #[trigger] s[i] == window_at(
                r_lo as int,
                c_lo as int,
                c_hi - c_lo + 1,
                i,
            ),
    ensures
        live_sum(g, s, s.len() as int) == live_neighbours(g, row as int, col as int) + live(
            g,
            row as int,
            col as int,
        ),
{
    reveal_with_fuel(live_sum, 10);
    let nr = r_hi - r_lo + 1;
    let nc = c_hi - c_lo + 1;
    assert(forall|r: int| 0 <= r < g.len() ==> #[trigger] g[r].len() <= usize::MAX);
    assert(nr == 2 || nr == 3);
    assert(nc == 2 || nc == 3);
    if nr == 3 && nc == 3 {
        assert(nr * nc == 9) by (nonlinear_arith)
            requires
                nr == 3,
                nc == 3,
        ;
    } else if nr == 3 {
        assert(nr * nc == 6) by (nonlinear_arith)
            requires
                nr == 3,
                nc == 2,
        ;
    } else if nc == 3 {
        assert(nr * nc == 6) by (nonlinear_arith)
            requires
                nr == 2,
                nc == 3,
        ;
    } else {
        assert(nr * nc == 4) by (nonlinear_arith)
            requires
                nr == 2,
                nc == 2,
        ;
    }
}

/// The number of live cells among the eight around `point`.
pub fn count_neighbours(point: &Point, area: &Area) -> (r: usize)
    requires
        area.wf(),
    ensures
        r == live_neighbours(area@, point.row as int, point.col as int),
        r <= 8,
{
    let r_lo = if point.row >= 1 {
        point.row - 1
    } else {
        0
    };
    let r_hi = if point.row < usize::MAX {
        point.row + 1
    } else {
        point.row
    };
    let c_lo = if point.col >= 1 {
        point.col - 1
    } else {
        0
    };
    let c_hi = if point.col < usize::MAX {
        point.col + 1
    } else {
        point.col
    };
    let cells = window(r_lo, r_hi, c_lo, c_hi);
    proof {
        let nr = r_hi - r_lo + 1;
        let nc = c_hi - c_lo + 1;
        assert(nr * nc <= 9) by (nonlinear_arith)
            requires
                1 <= nr <= 3,
                1 <= nc <= 3,
        ;
    }
    let mut count: usize = 0;
    let mut i: usize = 0;
    while i < cells.len()
        invariant
            i <= cells@.len(),
            cells@.len() <= 9,
            count <= i,
            count == live_sum(area@, cells@, i as int),
        decreases cells@.len() - i,
    {
        let (row, col) = cells[i];
        if area.get(&Point { row, col }) == State::Alive {
            count = count + 1;
        }
        i = i + 1;
    }
    proof {
        lemma_window_sum(area@, cells@, point.row, point.col, r_lo, r_hi, c_lo, c_hi);
    }
    if area.get(point) == State::Alive {
        count - 1
    } else {
        count
    }
}

/// The state of the cell at `point` in the next generation, read from `area`.
pub fn next_state(point: &Point, area: &Area) -> (r: State)
    requires
        area.wf(),
    ensures
        r == next_of(
            state_at(area@, point.row as int, point.col as int),
            live_neighbours(area@, point.row as int, point.col as int),
        ),
{
    let n = count_neighbours(point, area);
    if n == 2 {
        area.get(point)
    } else if n == 3 {
        State::Alive
    } else {
        State::Dead
    }
}

/// The next generation of `area`, a new grid of the same size; every cell is
/// computed from `area` as it stands, which is left untouched.
pub fn advance(area: &Area) -> (r: Area)
    requires
        area.wf(),
    ensures
        r.wf(),
        r@ == next_generation(area@),
        height_of(r@) == height_of(area@),
        width_of(r@) == width_of(area@),
{
    let height = area.height();
    let width = area.width();
    let ghost g = area@;
    let mut next = Area::new(height, width);
    let mut i: usize = 0;
    while i < height
        invariant
            area@ == g,
            rectangular(g),
            height == g.len(),
            width == g[0].len(),
            i <= height,
            next.wf(),
            height_of(next@) == height,
            width_of(next@) == width,
            forall|r: int, c: int|
                0 <= r < i && 0 <= c < width ==> #[trigger] next@[r][c] == next_generation(g)[r][c],
        decreases height - i,
    {
        let mut j: usize = 0;
        while j < width
            invariant
                area@ == g,
                rectangular(g),
                height == g.len(),
                width == g[0].len(),
                i < height,
                j <= width,
                next.wf(),
                height_of(next@) == height,
                width_of(next@) == width,
                forall|r: int, c: int|
                    (0 <= r < i && 0 <= c < width) || (r == i && 0 <= c < j)
                        ==> #[trigger] next@[r][c] == next_generation(g)[r][c],
            decreases width - j,
        {
            let p = Point { row: i, col: j };
            let s = next_state(&p, area);
            assert(next@[i as int].len() == width);
            next.set(&p, s);
            assert(next@[0].len() == width);
            assert(forall|r: int| 0 <= r < next@.len() ==> #[trigger] next@[r].len() == width);
            j = j + 1;
        }
        i = i + 1;
    }
    assert(next@ =~= next_generation(g)) by {
        assert forall|r: int| 0 <= r < height implies #[trigger] next@[r] =~= next_generation(g)[r] by {
            assert(next@[r].len() == width);
            assert(g[r].len() == width);
        }
    }
    next
}

/// Replaces `area` by its next generation.
pub fn update_grid(area: &mut Area)
    requires
        old(area).wf(),
    ensures
        final(area).wf(),
        final(area)@ == next_generation(old(area)@),
{
    *area = advance(area);
}

} // verus!
