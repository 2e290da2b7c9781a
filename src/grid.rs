use vstd::prelude::*;

verus! {

/// A cell position: row and column, both counted from zero.
#[derive(PartialEq, Eq, Structural, Clone, Copy, Debug, Hash)]
pub struct Point {
    pub row: usize,
    pub col: usize,
}

/// The state of one cell.
#[derive(PartialEq, Eq, Structural, Clone, Copy, Debug, Hash)]
pub enum State {
    Dead,
    Alive,
}

/// Why a grid could not be built.
#[derive(PartialEq, Eq, Structural, Clone, Copy, Debug)]
pub enum GridError {
    /// Ragged rows, a token other than `0` or `1`, or no rows at all.
    MalformedInput,
}

/// A grid of cells as rows of equal, non-zero length, and at least one row.
pub open spec fn rectangular(g: Seq<Seq<State>>) -> bool {
    &&& g.len() >= 1
    &&& g[0].len() >= 1
    &&& forall|r: int| 0 <= r < g.len() ==> #[trigger] g[r].len() == g[0].len()
}

pub open spec fn height_of(g: Seq<Seq<State>>) -> nat {
    g.len()
}

pub open spec fn width_of(g: Seq<Seq<State>>) -> nat {
    if g.len() == 0 {
        0
    } else {
        g[0].len()
    }
}

pub open spec fn in_bounds(g: Seq<Seq<State>>, r: int, c: int) -> bool {
    0 <= r < g.len() && 0 <= c < g[r].len()
}

/// What a bounds-tolerant lookup sees: the stored state inside the grid,
/// `Dead` everywhere else.
pub open spec fn state_at(g: Seq<Seq<State>>, r: int, c: int) -> State {
    if in_bounds(g, r, c) {
        g[r][c]
    } else {
        State::Dead
    }
}

/// Every cell of the grid is dead.
pub open spec fn all_dead(g: Seq<Seq<State>>) -> bool {
    forall|r: int, c: int| in_bounds(g, r, c) ==> #[trigger] g[r][c] == State::Dead
}

/// A rectangular grid of cells; its bounds never change.
pub struct Area {
    cells: Vec<Vec<State>>,
}

impl View for Area {
    type V = Seq<Seq<State>>;

    closed spec fn view(&self) -> Seq<Seq<State>> {
        self.cells@.map_values(|row: Vec<State>| row@)
    }
}

impl Area {
    /// The grid is rectangular and not empty, and its sizes fit a `usize`.
    pub open spec fn wf(&self) -> bool {
        &&& rectangular(self@)
        &&& height_of(self@) <= usize::MAX
        &&& width_of(self@) <= usize::MAX
    }

    /// An all-dead grid of the given size.
    pub fn new(height: usize, width: usize) -> (r: Area)
        requires
            height >= 1,
            width >= 1,
        ensures
            r.wf(),
            height_of(r@) == height,
            width_of(r@) == width,
            all_dead(r@),
    {
        let mut cells: Vec<Vec<State>> = Vec::new();
        let mut i: usize = 0;
        while i < height
            invariant
                i <= height,
                cells@.len() == i,
                forall|k: int| 0 <= k < i ==> #[trigger] cells@[k]@ == Seq::new(width as nat, |c: int| State::Dead),
            decreases height - i,
        {
            let mut row: Vec<State> = Vec::new();
            let mut j: usize = 0;
            while j < width
                invariant
                    j <= width,
                    row@ == Seq::new(j as nat, |c: int| State::Dead),
                decreases width - j,
            {
                row.push(State::Dead);
                j = j + 1;
                assert(row@ =~= Seq::new(j as nat, |c: int| State::Dead));
            }
            cells.push(row);
            i = i + 1;
        }
        let r = Area { cells };
        assert(r@[0] == Seq::new(width as nat, |c: int| State::Dead));
        assert(forall|k: int| 0 <= k < r@.len() ==> #[trigger] r@[k].len() == width);
        r
    }

    /// Builds a grid from rows of cells; the rows must all have the same,
    /// non-zero length, and there must be at least one.
    pub fn from_rows(rows: Vec<Vec<State>>) -> (r: Result<Area, GridError>)
        ensures
            match r {
                Ok(a) => a.wf() && a@ == rows@.map_values(|row: Vec<State>| row@),
                Err(e) => e == GridError::MalformedInput && !rectangular(
                    rows@.map_values(|row: Vec<State>| row@),
                ),
            },
    {
        let ghost g = rows@.map_values(|row: Vec<State>| row@);
        if rows.len() == 0 {
            return Err(GridError::MalformedInput);
        }
        let width = rows[0].len();
        if width == 0 {
            return Err(GridError::MalformedInput);
        }
        let mut i: usize = 0;
        while i < rows.len()
            invariant
                i <= rows@.len(),
                g == rows@.map_values(|row: Vec<State>| row@),
                width == g[0].len(),
                forall|k: int| 0 <= k < i ==> #[trigger] g[k].len() == width,
            decreases rows@.len() - i,
        {
            if rows[i].len() != width {
                assert(g[i as int].len() != g[0].len());
                return Err(GridError::MalformedInput);
            }
            i = i + 1;
        }
        Ok(Area { cells: rows })
    }

    pub fn height(&self) -> (r: usize)
        requires
            self.wf(),
        ensures
            r == height_of(self@),
    {
        self.cells.len()
    }

    pub fn width(&self) -> (r: usize)
        requires
            self.wf(),
        ensures
            r == width_of(self@),
    {
        self.cells[0].len()
    }

    /// The state at `p`; `Dead` for any position outside the grid.
    pub fn get(&self, p: &Point) -> (r: State)
        ensures
            r == state_at(self@, p.row as int, p.col as int),
            !in_bounds(self@, p.row as int, p.col as int) ==> r == State::Dead,
    {
        if p.row < self.cells.len() && p.col < self.cells[p.row].len() {
            self.cells[p.row][p.col]
        } else {
            State::Dead
        }
    }

    /// Overwrites the state at `p`, which must lie inside the grid.
    pub fn set(&mut self, p: &Point, s: State)
        requires
            in_bounds(old(self)@, p.row as int, p.col as int),
        ensures
            final(self)@ == old(self)@.update(
                p.row as int,
                old(self)@[p.row as int].update(p.col as int, s),
            ),
    {
        self.cells[p.row].set(p.col, s);
        assert(self@ =~= old(self)@.update(
            p.row as int,
            old(self)@[p.row as int].update(p.col as int, s),
        ));
    }
}

} // verus!
