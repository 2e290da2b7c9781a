use crate::grid::{Area, Point, State};
use vstd::prelude::*;

verus! {

/// How a cell is drawn: `*` alive, `-` dead.
pub open spec fn glyph(s: State) -> char {
    if s == State::Alive {
        '*'
    } else {
        '-'
    }
}

/// A row as drawn: a line break, then one glyph per cell.
pub open spec fn row_text(row: Seq<State>) -> Seq<char> {
    seq!['\n'] + row.map_values(|s: State| glyph(s))
}

/// A grid as drawn, row after row.
pub open spec fn grid_text(g: Seq<Seq<State>>) -> Seq<char>
    decreases g.len(),
{
    if g.len() == 0 {
        Seq::empty()
    } else {
        grid_text(g.drop_last()) + row_text(g.last())
    }
}

/// The text that draws `area`.
pub fn render(area: &Area) -> (r: Vec<char>)
    requires
        area.wf(),
    ensures
        r@ == grid_text(area@),
{
    let height = area.height();
    let width = area.width();
    let ghost g = area@;
    let mut out: Vec<char> = Vec::new();
    let mut i: usize = 0;
    while i < height
        invariant
            g == area@,
            area.wf(),
            height == g.len(),
            width == g[0].len(),
            i <= height,
            out@ == grid_text(g.take(i as int)),
        decreases height - i,
    {
        let ghost before = out@;
        out.push('\n');
        let mut j: usize = 0;
        while j < width
            invariant
                g == area@,
                area.wf(),
                height == g.len(),
                width == g[0].len(),
                i < height,
                j <= width,
                out@ == before + seq!['\n'] + g[i as int].take(j as int).map_values(
                    |s: State| glyph(s),
                ),
            decreases width - j,
        {
            assert(g[i as int].len() == width);
            let s = area.get(&Point { row: i, col: j });
            if s == State::Alive {
                out.push('*');
            } else {
                out.push('-');
            }
            assert(g[i as int].take(j + 1).map_values(|s: State| glyph(s)) =~= g[
                i as int].take(j as int).map_values(|s: State| glyph(s)).push(glyph(s)));
            j = j + 1;
        }
        proof {
            assert(g[i as int].len() == width);
            assert(g[i as int].take(j as int) =~= g[i as int]);
            assert(g.take(i + 1).drop_last() =~= g.take(i as int));
            assert(out@ =~= before + row_text(g[i as int]));
        }
        i = i + 1;
    }
    assert(g.take(i as int) =~= g);
    out
}

} // verus!
