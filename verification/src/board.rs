//! Board arithmetic: a sub-board is a row-major 3×3 slice of cells, each empty
//! (`None`) or holding a player's mark (`'x'` or `'o'`).

use vstd::prelude::*;

verus! {

/// A cell of a sub-board: empty, or holding a mark.
pub type Cell = Option<char>;

/// The cells of every sub-board of a board, as a mathematical grid.
pub open spec fn grid_view(board: Seq<Vec<Option<char>>>) -> Seq<Seq<Option<char>>> {
    board.map_values(|row: Vec<Option<char>>| row@)
}

/// The eight lines of a 3×3 grid, in the order in which they are examined:
/// row 0, column 0, row 1, column 1, row 2, column 2, then the two diagonals.
pub open spec fn line(k: int) -> (int, int, int) {
    if k == 0 {
        (0, 1, 2)
    } else if k == 1 {
        (0, 3, 6)
    } else if k == 2 {
        (3, 4, 5)
    } else if k == 3 {
        (1, 4, 7)
    } else if k == 4 {
        (6, 7, 8)
    } else if k == 5 {
        (2, 5, 8)
    } else if k == 6 {
        (0, 4, 8)
    } else {
        (2, 4, 6)
    }
}

/// Line `k` holds three equal marks.
pub open spec fn line_complete(cells: Seq<Option<char>>, k: int) -> bool {
    let (a, b, c) = line(k);
    &&& cells[a].is_some()
    &&& cells[a] == cells[b]
    &&& cells[a] == cells[c]
}

/// The mark of the first complete line among lines `k..8`.
pub open spec fn first_complete_from(cells: Seq<Option<char>>, k: int) -> Option<char>
    decreases 8 - k,
{
    if k < 0 || k >= 8 {
        None
    } else if line_complete(cells, k) {
        cells[line(k).0]
    } else {
        first_complete_from(cells, k + 1)
    }
}

/// The winner of a sub-board: the mark of its first complete line, if any.
pub open spec fn winner_of(cells: Seq<Option<char>>) -> Option<char> {
    first_complete_from(cells, 0)
}

/// Every cell holds a mark.
pub open spec fn all_filled(cells: Seq<Option<char>>) -> bool {
    forall|i: int| 0 <= i < cells.len() ==> (#[trigger] cells[i]).is_some()
}

/// A sub-board is done when it has a winner or no empty cell.
pub open spec fn is_done(cells: Seq<Option<char>>) -> bool {
    winner_of(cells).is_some() || all_filled(cells)
}

/// Every cell of every sub-board holds a mark.
pub open spec fn grid_full(grid: Seq<Seq<Option<char>>>) -> bool {
    forall|b: int| 0 <= b < grid.len() ==> all_filled(#[trigger] grid[b])
}

/// Two cells hold the same content.
pub fn same_cell(a: Option<char>, b: Option<char>) -> (r: bool)
    ensures
        r == (a == b),
{
    match (a, b) {
        (None, None) => true,
        (Some(x), Some(y)) => x == y,
        _ => false,
    }
}

/// What is known of the first complete line from `k` on.
proof fn lemma_first_complete_from(cells: Seq<Option<char>>, k: int)
    requires
        0 <= k <= 8,
    ensures
        first_complete_from(cells, k) matches Some(m) ==> exists|j: int|
            k <= j < 8 && line_complete(cells, j) && cells[line(j).0] == Some(m),
        first_complete_from(cells, k) is None ==> forall|j: int|
            k <= j < 8 ==> !line_complete(cells, j),
    decreases 8 - k,
{
    if k < 8 {
        lemma_first_complete_from(cells, k + 1);
    }
}

/// A sub-board's winner holds a complete line of its mark, and a sub-board
/// without a winner has no complete line.
pub proof fn lemma_winner_holds_line(cells: Seq<Option<char>>)
    ensures
        winner_of(cells) matches Some(m) ==> exists|k: int|
            0 <= k < 8 && line_complete(cells, k) && cells[line(k).0] == Some(m),
        winner_of(cells) is None ==> forall|k: int| 0 <= k < 8 ==> !line_complete(cells, k),
{
    lemma_first_complete_from(cells, 0);
}

/// Checks a row-major 3×3 slice for a winner: rows and columns in turn, then the
/// two diagonals; the first complete line decides.
pub fn check_winner(cells: &[Option<char>]) -> (r: Option<char>)
    requires
        cells@.len() >= 9,
    ensures
        r == winner_of(cells@),
{
    let mut i: usize = 0;
    while i < 3
        invariant
            i <= 3,
            cells@.len() >= 9,
            winner_of(cells@) == first_complete_from(cells@, 2 * i),
        decreases 3 - i,
    {
        assert(line(2 * i) == (3 * i, 3 * i + 1, 3 * i + 2));
        assert(line(2 * i + 1) == (i as int, i + 3, i + 6));
        let r = cells[i * 3];
        if r.is_some() && same_cell(r, cells[i * 3 + 1]) && same_cell(r, cells[i * 3 + 2]) {
            return r;
        }
        assert(first_complete_from(cells@, 2 * i) == first_complete_from(cells@, 2 * i + 1));
        let c = cells[i];
        if c.is_some() && same_cell(c, cells[i + 3]) && same_cell(c, cells[i + 6]) {
            return c;
        }
        assert(first_complete_from(cells@, 2 * i + 1) == first_complete_from(cells@, 2 * i + 2));
        i += 1;
    }
    assert(line(6) == (0int, 4int, 8int));
    assert(line(7) == (2int, 4int, 6int));
    let d1 = cells[0];
    if d1.is_some() && same_cell(d1, cells[4]) && same_cell(d1, cells[8]) {
        return d1;
    }
    assert(first_complete_from(cells@, 6) == first_complete_from(cells@, 7));
    let d2 = cells[2];
    if d2.is_some() && same_cell(d2, cells[4]) && same_cell(d2, cells[6]) {
        return d2;
    }
    assert(first_complete_from(cells@, 7) == first_complete_from(cells@, 8));
    None
}

/// A sub-board is done: it has a winner, or every cell is taken.
pub fn sub_board_done(cells: &[Option<char>]) -> (r: bool)
    requires
        cells@.len() >= 9,
    ensures
        r == is_done(cells@),
{
    if check_winner(cells).is_some() {
        return true;
    }
    let mut i: usize = 0;
    while i < cells.len()
        invariant
            i <= cells@.len(),
            winner_of(cells@) is None,
            forall|j: int| 0 <= j < i ==> (#[trigger] cells@[j]).is_some(),
        decreases cells@.len() - i,
    {
        if cells[i].is_none() {
            assert(!all_filled(cells@));
            return false;
        }
        i += 1;
    }
    true
}

/// Every cell of every sub-board is taken.
pub fn board_is_full(board: &[Vec<Option<char>>]) -> (r: bool)
    ensures
        r == grid_full(grid_view(board@)),
{
    let mut b: usize = 0;
    while b < board.len()
        invariant
            b <= board@.len(),
            forall|k: int| 0 <= k < b ==> all_filled(#[trigger] grid_view(board@)[k]),
        decreases board@.len() - b,
    {
        let sub = &board[b];
        let mut c: usize = 0;
        while c < sub.len()
            invariant
                c <= sub@.len(),
                b < board@.len(),
                sub@ == grid_view(board@)[b as int],
                forall|j: int| 0 <= j < c ==> (#[trigger] sub@[j]).is_some(),
            decreases sub@.len() - c,
        {
            if sub[c].is_none() {
                assert(!all_filled(grid_view(board@)[b as int]));
                assert(!grid_full(grid_view(board@)));
                return false;
            }
            c += 1;
        }
        b += 1;
    }
    true
}

} // verus!
