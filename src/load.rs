use crate::grid::{rectangular, Area, GridError, State};
use vstd::prelude::*;
use vstd::string::StringSliceAdditionalSpecFns;

verus! {

/// `s` cut at every `sep`: the pieces between separators, in order, one more
/// than there are separators.
pub open spec fn split_on(s: Seq<u8>, sep: u8) -> Seq<Seq<u8>>
    decreases s.len(),
{
    if s.len() == 0 {
        seq![Seq::empty()]
    } else {
        let init = split_on(s.drop_last(), sep);
        if s.last() == sep {
            init.push(Seq::empty())
        } else {
            init.update(init.len() - 1, init.last().push(s.last()))
        }
    }
}

/// Splitting always gives at least one piece.
pub proof fn lemma_split_nonempty(s: Seq<u8>, sep: u8)
    ensures
        split_on(s, sep).len() >= 1,
    decreases s.len(),
{
    if s.len() > 0 {
        lemma_split_nonempty(s.drop_last(), sep);
    }
}

/// A line without the carriage return that may end it.
pub open spec fn strip_cr(l: Seq<u8>) -> Seq<u8> {
    if l.len() > 0 && l.last() == 13u8 {
        l.drop_last()
    } else {
        l
    }
}

/// The lines of a text: cut at each line feed, a final line feed ends the
/// last line rather than starting an empty one, and a carriage return before
/// a line feed is dropped. The empty text has no lines.
pub open spec fn lines_of(s: Seq<u8>) -> Seq<Seq<u8>> {
    if s.len() == 0 {
        Seq::empty()
    } else if s.last() == 10u8 {
        split_on(s.drop_last(), 10u8).map_values(|l: Seq<u8>| strip_cr(l))
    } else {
        split_on(s, 10u8).map_values(|l: Seq<u8>| strip_cr(l))
    }
}

/// The comma-separated tokens of each line.
pub open spec fn tokens_of(s: Seq<u8>) -> Seq<Seq<Seq<u8>>> {
    lines_of(s).map_values(|l: Seq<u8>| split_on(l, 44u8))
}

/// A token names a cell state: `0` or `1`.
pub open spec fn is_token(t: Seq<u8>) -> bool {
    t == seq![48u8] || t == seq![49u8]
}

pub open spec fn token_state(t: Seq<u8>) -> State {
    if t == seq![49u8] {
        State::Alive
    } else {
        State::Dead
    }
}

/// Every token of the row names a cell state.
pub open spec fn row_valid(row: Seq<Seq<u8>>) -> bool {
    forall|c: int| 0 <= c < row.len() ==> is_token(#[trigger] row[c])
}

pub open spec fn row_states(row: Seq<Seq<u8>>) -> Seq<State> {
    row.map_values(|t: Seq<u8>| token_state(t))
}

/// The text describes a grid: at least one line, every line holds the same
/// number of tokens, and each token is `0` or `1`.
pub open spec fn valid_grid_text(s: Seq<u8>) -> bool {
    let rows = tokens_of(s);
    &&& rows.len() >= 1
    &&& forall|r: int| 0 <= r < rows.len() ==> #[trigger] rows[r].len() == rows[0].len()
    &&& forall|r: int| 0 <= r < rows.len() ==> row_valid(#[trigger] rows[r])
}

/// The cells that a grid text describes, row by row.
pub open spec fn grid_of_text(s: Seq<u8>) -> Seq<Seq<State>> {
    tokens_of(s).map_values(|row: Seq<Seq<u8>>| row_states(row))
}

/// The pieces of the first `end` bytes of `s`, cut at each `sep`.
fn split_bytes(s: &[u8], end: usize, sep: u8) -> (r: Vec<Vec<u8>>)
    requires
        end <= s@.len(),
    ensures
        r@.map_values(|v: Vec<u8>| v@) == split_on(s@.take(end as int), sep),
{
    let mut pieces: Vec<Vec<u8>> = Vec::new();
    let mut cur: Vec<u8> = Vec::new();
    let mut i: usize = 0;
    while i < end
        invariant
            end <= s@.len(),
            i <= end,
            pieces@.map_values(|v: Vec<u8>| v@).push(cur@) == split_on(s@.take(i as int), sep),
        decreases end - i,
    {
        let b = s[i];
        let ghost before = pieces@.map_values(|v: Vec<u8>| v@);
        let ghost cur_before = cur@;
        proof {
            assert(s@.take(i + 1).drop_last() =~= s@.take(i as int));
        }
        if b == sep {
            pieces.push(cur);
            cur = Vec::new();
            assert(pieces@.map_values(|v: Vec<u8>| v@) =~= before.push(cur_before));
        } else {
            cur.push(b);
            assert(pieces@.map_values(|v: Vec<u8>| v@) == before);
            assert(before.push(cur@) =~= before.push(cur_before).update(
                before.len() as int,
                cur_before.push(b),
            ));
        }
        i = i + 1;
    }
    let ghost before = pieces@.map_values(|v: Vec<u8>| v@);
    pieces.push(cur);
    assert(pieces@.map_values(|v: Vec<u8>| v@) =~= before.push(cur@));
    assert(s@.take(end as int) =~= s@.take(i as int));
    pieces
}

/// The cell states of one line, or `None` where a token is not `0` or `1`.
fn parse_row(line: &Vec<u8>) -> (r: Option<Vec<State>>)
    ensures
        match r {
            Some(row) => row_valid(split_on(strip_cr(line@), 44u8)) && row@ == row_states(
                split_on(strip_cr(line@), 44u8),
            ),
            None => !row_valid(split_on(strip_cr(line@), 44u8)),
        },
{
    let len = line.len();
    let end = if len > 0 && line[len - 1] == 13u8 {
        len - 1
    } else {
        len
    };
    assert(line@.take(end as int) =~= strip_cr(line@));
    let tokens = split_bytes(line.as_slice(), end, 44u8);
    let ghost toks = split_on(strip_cr(line@), 44u8);
    let mut row: Vec<State> = Vec::new();
    let mut i: usize = 0;
    while i < tokens.len()
        invariant
            toks == tokens@.map_values(|v: Vec<u8>| v@),
            toks == split_on(strip_cr(line@), 44u8),
            i <= tokens@.len(),
            row@.len() == i,
            forall|c: int| 0 <= c < i ==> is_token(#[trigger] toks[c]),
            forall|c: int| 0 <= c < i ==> #[trigger] row@[c] == token_state(toks[c]),
        decreases tokens@.len() - i,
    {
        let t = &tokens[i];
        assert(t@ == toks[i as int]);
        if t.len() == 1 && t[0] == 48u8 {
            assert(t@ =~= seq![48u8]);
            row.push(State::Dead);
        } else if t.len() == 1 && t[0] == 49u8 {
            assert(t@ =~= seq![49u8]);
            row.push(State::Alive);
        } else {
            assert(!is_token(toks[i as int])) by {
                if t@.len() == 1 {
                    assert(t@ != seq![48u8] && t@ != seq![49u8]) by {
                        assert(seq![48u8][0] == 48u8);
                        assert(seq![49u8][0] == 49u8);
                    }
                }
            }
            assert(!row_valid(toks));
            return None;
        }
        i = i + 1;
    }
    assert(row@ =~= row_states(toks));
    Some(row)
}

/// Builds a grid from its text: lines of comma-separated `0` (dead) and `1`
/// (alive) tokens, every line with as many tokens as the first. Ragged lines,
/// any other token, or a text without lines give `MalformedInput`, and no grid.
pub fn load_area(data: &str) -> (r: Result<Area, GridError>)
    ensures
        match r {
            Ok(a) => valid_grid_text(data.spec_bytes()) && a.wf() && a@ == grid_of_text(
                data.spec_bytes(),
            ),
            Err(e) => e == GridError::MalformedInput && !valid_grid_text(data.spec_bytes()),
        },
{
    let bytes = data.as_bytes();
    let ghost s = data.spec_bytes();
    let n = bytes.len();
    if n == 0 {
        return Err(GridError::MalformedInput);
    }
    let end = if bytes[n - 1] == 10u8 {
        n - 1
    } else {
        n
    };
    let lines = split_bytes(bytes, end, 10u8);
    proof {
        if s.last() == 10u8 {
            assert(s.take(end as int) =~= s.drop_last());
        } else {
            assert(s.take(end as int) =~= s);
        }
    }
    let ghost toks = tokens_of(s);
    assert(toks.len() == lines@.len());
    let mut rows: Vec<Vec<State>> = Vec::new();
    let mut i: usize = 0;
    while i < lines.len()
        invariant
            s == data.spec_bytes(),
            toks == tokens_of(s),
            toks.len() == lines@.len(),
            forall|k: int|
                0 <= k < lines@.len() ==> #[trigger] toks[k] == split_on(
                    strip_cr(lines@[k]@),
                    44u8,
                ),
            i <= lines@.len(),
            rows@.len() == i,
            forall|k: int| 0 <= k < i ==> row_valid(#[trigger] toks[k]),
            forall|k: int| 0 <= k < i ==> #[trigger] rows@[k]@ == row_states(toks[k]),
        decreases lines@.len() - i,
    {
        match parse_row(&lines[i]) {
            Some(row) => {
                rows.push(row);
            },
            None => {
                assert(!row_valid(toks[i as int]));
                assert(!valid_grid_text(s));
                return Err(GridError::MalformedInput);
            },
        }
        i = i + 1;
    }
    let ghost g = rows@.map_values(|row: Vec<State>| row@);
    assert(g =~= grid_of_text(s));
    proof {
        if toks.len() >= 1 {
            lemma_split_nonempty(strip_cr(lines@[0]@), 44u8);
        }
        assert(forall|r: int| 0 <= r < toks.len() ==> #[trigger] g[r].len() == toks[r].len());
        if rectangular(g) {
            assert forall|r: int| 0 <= r < toks.len() implies #[trigger] toks[r].len()
                == toks[0].len() by {
                assert(g[r].len() == g[0].len());
            }
        }
        if valid_grid_text(s) {
            assert forall|r: int| 0 <= r < g.len() implies #[trigger] g[r].len() == g[0].len() by {
                assert(toks[r].len() == toks[0].len());
            }
        }
        assert(rectangular(g) <==> valid_grid_text(s));
    }
    Area::from_rows(rows)
}

} // verus!
