//! The stage grid and its text format: exactly `STAGE_ROWS` lines, each of
//! exactly `STAGE_COLS` space-separated brick codes.  A code of `0` marks an
//! empty cell and `1..=8` a brick with visual variant `code - 1`; rows run
//! top to bottom.  Malformed dimensions and malformed or out-of-range tokens
//! are rejected with a descriptive error, never truncated or padded.

use vstd::prelude::*;

use crate::breakout::BRICK_MAX;

verus! {

/// Number of rows in a stage grid.
pub const STAGE_ROWS: usize = 20;

/// Number of columns in a stage grid.
pub const STAGE_COLS: usize = 20;

/// Why a stage grid was rejected.
#[derive(Clone, Copy, Debug, PartialEq, Eq, Structural)]
pub enum StageError {
    /// The grid does not have exactly `STAGE_ROWS` rows.
    BadRowCount { found: usize },
    /// A row does not have exactly `STAGE_COLS` cells.
    BadColumnCount { row: usize, found: usize },
    /// A cell is not a decimal number in `0..=BRICK_MAX`.
    BadToken { row: usize, col: usize },
}

/// The rows of a vector of byte vectors, as sequences.
pub open spec fn pieces_view(p: Seq<Vec<u8>>) -> Seq<Seq<u8>> {
    p.map_values(|q: Vec<u8>| q@)
}

/// The rows of a grid vector, as sequences.
pub open spec fn grid_view(b: Seq<Vec<usize>>) -> Seq<Seq<usize>> {
    b.map_values(|row: Vec<usize>| row@)
}

/// The splitter's state after the first `i` bytes: the pieces already closed
/// by a separator, and the piece still open.
pub open spec fn split_fold(s: Seq<u8>, sep: u8, i: int, pieces: Seq<Seq<u8>>, cur: Seq<u8>) -> Seq<
    Seq<u8>,
>
    decreases s.len() - i,
{
    if i < 0 || i >= s.len() {
        pieces.push(cur)
    } else if s[i] == sep {
        split_fold(s, sep, i + 1, pieces.push(cur), Seq::empty())
    } else {
        split_fold(s, sep, i + 1, pieces, cur.push(s[i]))
    }
}

/// The pieces of `s` between occurrences of `sep`: one more piece than there
/// are separators, and an empty input gives one empty piece.
pub open spec fn split_on(s: Seq<u8>, sep: u8) -> Seq<Seq<u8>> {
    split_fold(s, sep, 0, Seq::empty(), Seq::empty())
}

/// The value of the first `i` digits of `t`, read as a decimal number.
pub open spec fn digits_value(t: Seq<u8>, i: int) -> int
    decreases i,
{
    if i <= 0 {
        0
    } else {
        digits_value(t, i - 1) * 10 + (t[i - 1] - 48)
    }
}

/// A valid cell: at least one byte, all decimal digits, value at most
/// `BRICK_MAX`.  Leading zeros are accepted, as an integer parse would.
pub open spec fn token_ok(t: Seq<u8>) -> bool {
    &&& t.len() > 0
    &&& forall|k: int| 0 <= k < t.len() ==> 48 <= #[trigger] t[k] <= 57
    &&& digits_value(t, t.len() as int) <= BRICK_MAX
}

/// The index of the first invalid cell of a row at or after `c`, or `-1`.
pub open spec fn first_bad_token(toks: Seq<Seq<u8>>, c: int) -> int
    decreases toks.len() - c,
{
    if c < 0 || c >= toks.len() {
        -1
    } else if !token_ok(toks[c]) {
        c
    } else {
        first_bad_token(toks, c + 1)
    }
}

/// The index of the first row at or after `r` that does not have exactly
/// `STAGE_COLS` cells, or `-1`.
pub open spec fn first_short_row(grid: Seq<Seq<usize>>, r: int) -> int
    decreases grid.len() - r,
{
    if r < 0 || r >= grid.len() {
        -1
    } else if grid[r].len() != STAGE_COLS {
        r
    } else {
        first_short_row(grid, r + 1)
    }
}

/// The values of a row of valid cells.
pub open spec fn row_values(toks: Seq<Seq<u8>>) -> Seq<usize> {
    Seq::new(toks.len(), |c: int| digits_value(toks[c], toks[c].len() as int) as usize)
}

/// The parse of the rows from `r` on: the first malformed row or cell wins,
/// rows before columns and columns left to right.
pub open spec fn parsed_rows(rows: Seq<Seq<u8>>, r: int) -> Result<Seq<Seq<usize>>, StageError>
    decreases rows.len() - r,
{
    if r < 0 || r >= rows.len() {
        Ok(Seq::empty())
    } else {
        let toks = split_on(rows[r], 32);
        if toks.len() != STAGE_COLS {
            Err(StageError::BadColumnCount { row: r as usize, found: toks.len() as usize })
        } else if first_bad_token(toks, 0) >= 0 {
            Err(StageError::BadToken { row: r as usize, col: first_bad_token(toks, 0) as usize })
        } else {
            match parsed_rows(rows, r + 1) {
                Ok(rest) => Ok(seq![row_values(toks)] + rest),
                Err(e) => Err(e),
            }
        }
    }
}

/// What parsing a stage text yields: the grid of cell values, or the first
/// error in reading order.  Rows are the pieces between newline bytes and
/// cells the pieces between space bytes, so a trailing newline counts as
/// starting one row too many.
pub open spec fn parsed_stage(s: Seq<u8>) -> Result<Seq<Seq<usize>>, StageError> {
    let rows = split_on(s, 10);
    if rows.len() != STAGE_ROWS {
        Err(StageError::BadRowCount { found: rows.len() as usize })
    } else {
        parsed_rows(rows, 0)
    }
}

/// A stage grid: `STAGE_ROWS` rows of `STAGE_COLS` brick codes.
#[derive(Debug, PartialEq, Eq)]
pub struct Stage {
    pub bricks: Vec<Vec<usize>>,
}

impl Stage {
    /// The grid as a sequence of rows of values.
    pub open spec fn grid(self) -> Seq<Seq<usize>> {
        grid_view(self.bricks@)
    }

    /// Exactly `STAGE_ROWS` rows of exactly `STAGE_COLS` cells.
    pub open spec fn wf(self) -> bool {
        &&& self.grid().len() == STAGE_ROWS
        &&& forall|r: int| 0 <= r < self.grid().len() ==> (#[trigger] self.grid()[r]).len()
            == STAGE_COLS
    }

    /// Wraps a grid after checking its dimensions: exactly `STAGE_ROWS` rows
    /// of `STAGE_COLS` cells each, anything else being a dimension error
    /// naming the first offending row.
    #[verifier::loop_isolation(false)]
    pub fn new(b: Vec<Vec<usize>>) -> (r: Result<Stage, StageError>)
        ensures
            r matches Ok(st) ==> st.grid() == grid_view(b@) && st.wf(),
            r is Ok <==> b@.len() == STAGE_ROWS && first_short_row(
                grid_view(b@), 0,
            ) < 0,
            r matches Err(e) ==> e == (if b@.len() != STAGE_ROWS {
                StageError::BadRowCount { found: b@.len() as usize }
            } else {
                let grid = grid_view(b@);
                let j = first_short_row(grid, 0);
                StageError::BadColumnCount { row: j as usize, found: grid[j].len() as usize }
            }),
    {
        let ghost grid = grid_view(b@);
        if b.len() != STAGE_ROWS {
            return Err(StageError::BadRowCount { found: b.len() });
        }
        let mut r: usize = 0;
        while r < b.len()
            invariant
                grid_view(b@) == grid,
                b@.len() == grid.len(),
                r <= b@.len(),
                first_short_row(grid, 0) == first_short_row(grid, r as int),
                forall|k: int| 0 <= k < r ==> (#[trigger] grid[k]).len() == STAGE_COLS,
            decreases b@.len() - r,
        {
            proof {
                assert(grid[r as int] == b@[r as int]@);
            }
            if b[r].len() != STAGE_COLS {
                proof {
                    assert(first_short_row(grid, r as int) == r as int);
                }
                return Err(StageError::BadColumnCount { row: r, found: b[r].len() });
            }
            r = r + 1;
        }
        proof {
            lemma_no_short_row(grid, r as int);
            assert(first_short_row(grid, 0) < 0);
        }
        Ok(Stage { bricks: b })
    }
}

/// Splits a byte string on a separator byte; one more piece than there are
/// separators in the input.
fn split_bytes(s: &Vec<u8>, sep: u8) -> (r: Vec<Vec<u8>>)
    ensures
        r@.map_values(|p: Vec<u8>| p@) == split_on(s@, sep),
        r@.len() >= 1,
{
    let mut pieces: Vec<Vec<u8>> = Vec::new();
    let mut cur: Vec<u8> = Vec::new();
    let mut i: usize = 0;
    proof {
        assert(pieces_view(pieces@) =~= Seq::<Seq<u8>>::empty());
    }
    while i < s.len()
        invariant
            i <= s@.len(),
            split_fold(s@, sep, i as int, pieces_view(pieces@), cur@) == split_on(
                s@, sep,
            ),
        decreases s@.len() - i,
    {
        let b = s[i];
        if b == sep {
            let ghost before = pieces_view(pieces@);
            let ghost closed = cur@;
            pieces.push(cur);
            cur = Vec::new();
            proof {
                assert(pieces_view(pieces@) =~= before.push(closed));
                assert(cur@ =~= Seq::<u8>::empty());
            }
        } else {
            cur.push(b);
        }
        i = i + 1;
    }
    let ghost before = pieces_view(pieces@);
    let ghost closed = cur@;
    pieces.push(cur);
    proof {
        assert(pieces_view(pieces@) =~= before.push(closed));
    }
    pieces
}

/// Reads one cell: all digits and at most `BRICK_MAX`, or nothing.  The
/// accumulator saturates just above `BRICK_MAX`, so overlong digit strings
/// are rejected without overflowing.
fn parse_token(t: &Vec<u8>) -> (r: Option<usize>)
    ensures
        token_ok(t@) ==> r == Some(digits_value(t@, t@.len() as int) as usize),
        !token_ok(t@) ==> r is None,
{
    if t.len() == 0 {
        return None;
    }
    let mut acc: usize = 0;
    let mut i: usize = 0;
    while i < t.len()
        invariant
            i <= t@.len(),
            forall|k: int| 0 <= k < i ==> 48 <= #[trigger] t@[k] <= 57,
            if digits_value(t@, i as int) <= BRICK_MAX {
                acc == digits_value(t@, i as int)
            } else {
                acc == BRICK_MAX + 1
            },
        decreases t@.len() - i,
    {
        let b = t[i];
        if b < 48 || b > 57 {
            return None;
        }
        let d = (b - 48) as usize;
        if acc > BRICK_MAX {
            // stay saturated: the true value only grows with more digits
            acc = BRICK_MAX + 1;
        } else {
            acc = acc * 10 + d;
            if acc > BRICK_MAX {
                acc = BRICK_MAX + 1;
            }
        }
        i = i + 1;
    }
    if acc <= BRICK_MAX {
        Some(acc)
    } else {
        None
    }
}

/// Parses a stage text: `STAGE_ROWS` newline-separated rows of `STAGE_COLS`
/// space-separated brick codes in `0..=BRICK_MAX`.  Returns the stage, or
/// the first error in reading order.
#[verifier::loop_isolation(false)]
pub fn parse_stage(text: &Vec<u8>) -> (r: Result<Stage, StageError>)
    ensures
        r matches Ok(st) ==> parsed_stage(text@) == Ok::<Seq<Seq<usize>>, StageError>(st.grid())
            && st.wf(),
        r matches Err(e) ==> parsed_stage(text@) == Err::<Seq<Seq<usize>>, StageError>(e),
{
    let rows = split_bytes(text, 10);
    let ghost rows_view = pieces_view(rows@);
    if rows.len() != STAGE_ROWS {
        return Err(StageError::BadRowCount { found: rows.len() });
    }
    let mut grid: Vec<Vec<usize>> = Vec::new();
    let mut r: usize = 0;
    proof {
        assert(grid_view(grid@) =~= Seq::<Seq<usize>>::empty());
    }
    while r < rows.len()
        invariant
            pieces_view(rows@) == rows_view,
            rows@.len() == rows_view.len(),
            rows_view.len() == STAGE_ROWS,
            r <= rows@.len(),
            grid@.len() == r as int,
            forall|k: int| 0 <= k < r ==> (#[trigger] grid@[k])@.len() == STAGE_COLS,
            parsed_rows(rows_view, 0) == match parsed_rows(rows_view, r as int) {
                Ok(rest) => Ok::<Seq<Seq<usize>>, StageError>(
                    grid_view(grid@) + rest,
                ),
                Err(e) => Err::<Seq<Seq<usize>>, StageError>(e),
            },
        decreases rows@.len() - r,
    {
        proof {
            assert(rows_view[r as int] == rows@[r as int]@);
        }
        let toks = split_bytes(&rows[r], 32);
        let ghost toks_view = pieces_view(toks@);
        if toks.len() != STAGE_COLS {
            proof {
                assert(parsed_rows(rows_view, r as int) == Err::<Seq<Seq<usize>>, StageError>(
                    StageError::BadColumnCount { row: r, found: toks@.len() as usize },
                ));
            }
            return Err(StageError::BadColumnCount { row: r, found: toks.len() });
        }
        let mut row: Vec<usize> = Vec::new();
        let mut c: usize = 0;
        while c < toks.len()
            invariant
                pieces_view(toks@) == toks_view,
                toks@.len() == toks_view.len(),
                toks_view.len() == STAGE_COLS,
                toks_view == split_on(rows_view[r as int], 32),
                c <= toks@.len(),
                row@.len() == c as int,
                first_bad_token(toks_view, 0) == first_bad_token(toks_view, c as int),
                forall|k: int| 0 <= k < c ==> token_ok(#[trigger] toks_view[k]),
                forall|k: int| 0 <= k < c ==> #[trigger] row@[k] == digits_value(
                    toks_view[k], toks_view[k].len() as int,
                ) as usize,
            decreases toks@.len() - c,
        {
            proof {
                assert(toks_view[c as int] == toks@[c as int]@);
            }
            match parse_token(&toks[c]) {
                Some(v) => {
                    row.push(v);
                },
                None => {
                    proof {
                        assert(!token_ok(toks_view[c as int]));
                        assert(first_bad_token(toks_view, c as int) == c as int);
                        assert(parsed_rows(rows_view, r as int) == Err::<
                            Seq<Seq<usize>>,
                            StageError,
                        >(StageError::BadToken { row: r, col: c }));
                    }
                    return Err(StageError::BadToken { row: r, col: c });
                },
            }
            c = c + 1;
        }
        proof {
            assert(first_bad_token(toks_view, 0) < 0);
            assert(row@ =~= row_values(toks_view));
        }
        let ghost grid_before = grid_view(grid@);
        grid.push(row);
        proof {
            assert(grid_view(grid@) =~= grid_before.push(row_values(
                toks_view,
            )));
            if parsed_rows(rows_view, r + 1) is Ok {
                let rest = parsed_rows(rows_view, r + 1)->Ok_0;
                assert(grid_before.push(row_values(toks_view)) + rest =~= grid_before + (seq![
                    row_values(toks_view),
                ] + rest));
            }
        }
        r = r + 1;
    }
    proof {
        let final_grid = grid_view(grid@);
        assert(final_grid + Seq::<Seq<usize>>::empty() =~= final_grid);
        assert(first_short_row(final_grid, 0) < 0) by {
            lemma_no_short_row(final_grid, 0);
        }
    }
    match Stage::new(grid) {
        Ok(st) => Ok(st),
        Err(e) => Err(e),
    }
}

/// A grid whose rows from `r` on all have `STAGE_COLS` cells has no short
/// row from `r` on.
proof fn lemma_no_short_row(grid: Seq<Seq<usize>>, r: int)
    requires
        0 <= r <= grid.len(),
        forall|k: int| r <= k < grid.len() ==> (#[trigger] grid[k]).len() == STAGE_COLS,
    ensures
        first_short_row(grid, r) < 0,
    decreases grid.len() - r,
{
    if r < grid.len() {
        lemma_no_short_row(grid, r + 1);
    }
}

} // verus!
