//! The authoritative game state and the rules that move it on.

use vstd::prelude::*;
use vstd::string::*;
use crate::board::{check_winner, grid_view, is_done, same_cell, sub_board_done, winner_of};
use crate::text::{decimal, push_decimal};
use crate::messages::history_view;

verus! {

// ── Model ────────────────────────────────────────────────────────────────────

/// The position before a move, kept so that the move can be undone.
#[derive(Clone)]
pub struct Snapshot {
    pub board: Vec<Vec<Option<char>>>,
    pub squares_winner: Vec<Option<char>>,
    pub next_board: Option<u8>,
    pub current_turn: String,
}

/// A snapshot as mathematical values.
#[verifier::ext_equal]
pub struct SnapshotView {
    pub board: Seq<Seq<Option<char>>>,
    pub squares_winner: Seq<Option<char>>,
    pub next_board: Option<u8>,
    pub current_turn: Seq<char>,
}

impl View for Snapshot {
    type V = SnapshotView;

    open spec fn view(&self) -> SnapshotView {
        SnapshotView {
            board: grid_view(self.board@),
            squares_winner: self.squares_winner@,
            next_board: self.next_board,
            current_turn: self.current_turn@,
        }
    }
}

/// Authoritative game state stored in the room.
#[derive(Clone)]
pub struct GameState {
    /// 9 sub-boards × 9 cells — empty, 'x' or 'o'
    pub board: Vec<Vec<Option<char>>>,
    /// Winner of each sub-board (empty, 'x' or 'o')
    pub squares_winner: Vec<Option<char>>,
    pub naughts: String,
    pub crosses: String,
    pub current_turn: String,
    /// Which sub-board the current player must play in (None = any available)
    pub next_board: Option<u8>,
    pub history: Vec<Snapshot>,
}

/// A game state as mathematical values.
#[verifier::ext_equal]
pub struct GameView {
    pub board: Seq<Seq<Option<char>>>,
    pub squares_winner: Seq<Option<char>>,
    pub naughts: Seq<char>,
    pub crosses: Seq<char>,
    pub current_turn: Seq<char>,
    pub next_board: Option<u8>,
    pub history: Seq<SnapshotView>,
}

impl View for GameState {
    type V = GameView;

    open spec fn view(&self) -> GameView {
        GameView {
            board: grid_view(self.board@),
            squares_winner: self.squares_winner@,
            naughts: self.naughts@,
            crosses: self.crosses@,
            current_turn: self.current_turn@,
            next_board: self.next_board,
            history: self.history@.map_values(|s: Snapshot| s@),
        }
    }
}

/// A grid of 9 sub-boards of 9 cells each.
pub open spec fn grid_shaped(g: Seq<Seq<Option<char>>>) -> bool {
    &&& g.len() == 9
    &&& forall|b: int| 0 <= b < 9 ==> (#[trigger] g[b]).len() == 9
}

/// A snapshot of a well-shaped position.
pub open spec fn snapshot_wf(s: SnapshotView) -> bool {
    grid_shaped(s.board) && s.squares_winner.len() == 9
}

impl GameView {
    /// The board has 9×9 cells, there are 9 sub-board winners, and so for
    /// every position in the history.
    pub open spec fn wf(self) -> bool {
        &&& grid_shaped(self.board)
        &&& self.squares_winner.len() == 9
        &&& forall|i: int| 0 <= i < self.history.len() ==> snapshot_wf(#[trigger] self.history[i])
    }
}

/// The empty 9×9 grid.
pub open spec fn empty_grid() -> Seq<Seq<Option<char>>> {
    Seq::new(9, |b: int| Seq::new(9, |c: int| None::<char>))
}

/// The state of a game that has just started: naughts moves first, anywhere.
pub open spec fn initial_view(naughts: Seq<char>, crosses: Seq<char>) -> GameView {
    GameView {
        board: empty_grid(),
        squares_winner: Seq::new(9, |i: int| None::<char>),
        naughts,
        crosses,
        current_turn: naughts,
        next_board: None,
        history: Seq::empty(),
    }
}

/// The mark a user plays: crosses `'x'`, naughts `'o'`; the crosses name is
/// looked at first.
pub open spec fn mark_of(s: GameView, user: Seq<char>) -> Option<char> {
    if user == s.crosses {
        Some('x')
    } else if user == s.naughts {
        Some('o')
    } else {
        None
    }
}

/// The boards of the history, oldest first.
pub open spec fn board_history_view(s: GameView) -> Seq<Seq<Seq<Option<char>>>> {
    s.history.map_values(|h: SnapshotView| h.board)
}

/// The current position, as kept before a move.
pub open spec fn snapshot_of(s: GameView) -> SnapshotView {
    SnapshotView {
        board: s.board,
        squares_winner: s.squares_winner,
        next_board: s.next_board,
        current_turn: s.current_turn,
    }
}

// ── Copies ───────────────────────────────────────────────────────────────────

/// Appending a sub-board appends its cells to the grid.
pub proof fn lemma_grid_view_push(r: Seq<Vec<Option<char>>>, x: Vec<Option<char>>)
    ensures
        grid_view(r.push(x)) == grid_view(r).push(x@),
{
    assert(grid_view(r.push(x)) =~= grid_view(r).push(x@));
}

/// A copy of a row of cells.
pub fn copy_cells(v: &Vec<Option<char>>) -> (r: Vec<Option<char>>)
    ensures
        r@ == v@,
{
    let mut r: Vec<Option<char>> = Vec::new();
    let mut i: usize = 0;
    while i < v.len()
        invariant
            i <= v@.len(),
            r@ == v@.take(i as int),
        decreases v@.len() - i,
    {
        r.push(v[i]);
        i += 1;
        assert(r@ == v@.take(i as int));
    }
    assert(v@.take(v@.len() as int) == v@);
    r
}

/// A copy of a board.
pub fn copy_board(b: &Vec<Vec<Option<char>>>) -> (r: Vec<Vec<Option<char>>>)
    ensures
        grid_view(r@) == grid_view(b@),
{
    let mut r: Vec<Vec<Option<char>>> = Vec::new();
    let mut i: usize = 0;
    while i < b.len()
        invariant
            i <= b@.len(),
            grid_view(r@) == grid_view(b@).take(i as int),
        decreases b@.len() - i,
    {
        let row = copy_cells(&b[i]);
        let ghost prev = r@;
        r.push(row);
        proof {
            lemma_grid_view_push(prev, row);
            assert(grid_view(b@).take(i + 1) =~= grid_view(b@).take(i as int).push(b@[i as int]@));
        }
        i += 1;
    }
    assert(grid_view(b@).take(b@.len() as int) == grid_view(b@));
    r
}

fn empty_cells() -> (r: Vec<Option<char>>)
    ensures
        r@ == Seq::new(9, |c: int| None::<char>),
{
    let mut r: Vec<Option<char>> = Vec::new();
    let mut i: usize = 0;
    while i < 9
        invariant
            i <= 9,
            r@ == Seq::new(i as nat, |c: int| None::<char>),
        decreases 9 - i,
    {
        r.push(None);
        i += 1;
        assert(r@ == Seq::new(i as nat, |c: int| None::<char>));
    }
    r
}

fn empty_board() -> (r: Vec<Vec<Option<char>>>)
    ensures
        grid_view(r@) == empty_grid(),
{
    let mut r: Vec<Vec<Option<char>>> = Vec::new();
    let mut i: usize = 0;
    while i < 9
        invariant
            i <= 9,
            grid_view(r@) == empty_grid().take(i as int),
        decreases 9 - i,
    {
        let row = empty_cells();
        let ghost prev = r@;
        r.push(row);
        proof {
            lemma_grid_view_push(prev, row);
            assert(empty_grid().take(i + 1) =~= empty_grid().take(i as int).push(row@));
        }
        i += 1;
    }
    assert(empty_grid().take(9) == empty_grid());
    r
}

/// The board is 9 sub-boards of 9 cells.
fn shaped(b: &Vec<Vec<Option<char>>>) -> (r: bool)
    ensures
        r == grid_shaped(grid_view(b@)),
{
    if b.len() != 9 {
        return false;
    }
    let mut i: usize = 0;
    while i < 9
        invariant
            i <= 9,
            b@.len() == 9,
            forall|j: int| 0 <= j < i ==> (#[trigger] grid_view(b@)[j]).len() == 9,
        decreases 9 - i,
    {
        assert(grid_view(b@)[i as int] == b@[i as int]@);
        if b[i].len() != 9 {
            return false;
        }
        i += 1;
    }
    true
}

impl GameState {
    /// A fresh game between two players; naughts (`'o'`) goes first.
    pub fn new(naughts: String, crosses: String) -> (r: Self)
        ensures
            r@ == initial_view(naughts@, crosses@),
            r@.wf(),
    {
        let current_turn = naughts.clone();
        let r = GameState {
            board: empty_board(),
            squares_winner: empty_cells(),
            naughts,
            crosses,
            current_turn,
            next_board: None,
            history: Vec::new(),
        };
        assert(r@.history =~= Seq::<SnapshotView>::empty());
        r
    }

    /// The board is 9×9, there are 9 sub-board winners, and so for every
    /// position in the history.
    pub fn is_well_formed(&self) -> (r: bool)
        ensures
            r == self@.wf(),
    {
        if !(shaped(&self.board) && self.squares_winner.len() == 9) {
            return false;
        }
        let mut i: usize = 0;
        while i < self.history.len()
            invariant
                i <= self.history@.len(),
                forall|j: int| 0 <= j < i ==> snapshot_wf(#[trigger] self@.history[j]),
            decreases self.history@.len() - i,
        {
            let h = &self.history[i];
            assert(self@.history[i as int] == h@);
            if !(shaped(&h.board) && h.squares_winner.len() == 9) {
                return false;
            }
            i += 1;
        }
        true
    }

    /// `Some('x')` for crosses, `Some('o')` for naughts, `None` for anyone else.
    pub fn player_mark(&self, user_id: &str) -> (r: Option<char>)
        ensures
            r == mark_of(self@, user_id@),
    {
        let user = String::from_str(user_id);
        if user == self.crosses {
            Some('x')
        } else if user == self.naughts {
            Some('o')
        } else {
            None
        }
    }

    /// The board of every position in the history, oldest first.
    pub fn board_history(&self) -> (r: Vec<Vec<Vec<Option<char>>>>)
        ensures
            history_view(r@) == board_history_view(self@),
    {
        let mut r: Vec<Vec<Vec<Option<char>>>> = Vec::new();
        let mut i: usize = 0;
        while i < self.history.len()
            invariant
                i <= self.history@.len(),
                history_view(r@) == board_history_view(self@).take(i as int),
            decreases self.history@.len() - i,
        {
            let b = copy_board(&self.history[i].board);
            let ghost prev = r@;
            r.push(b);
            proof {
                assert(history_view(r@) =~= history_view(prev).push(grid_view(b@)));
                assert(board_history_view(self@).take(i + 1) =~= board_history_view(
                    self@,
                ).take(i as int).push(grid_view(b@)));
            }
            i += 1;
        }
        assert(board_history_view(self@).take(self.history@.len() as int)
            == board_history_view(self@));
        r
    }
}


// ── Checking a move ──────────────────────────────────────────────────────────

/// The verdict on a submitted board.
#[derive(Debug, Clone, Copy, PartialEq, Eq)]
pub enum MoveCheck {
    /// The sender is not the player to move.
    NotYourTurn,
    /// The sender is the player to move but plays neither mark; the message is dropped.
    NotAPlayer,
    /// The submitted board is not 9 sub-boards of 9 cells.
    BadDimensions,
    /// The first offending change overwrites a taken cell.
    Occupied,
    /// The first offending change writes something other than the player's mark.
    WrongMark,
    /// Not exactly one cell changed; the number of changed cells.
    ChangeCount(usize),
    /// The move is outside the required sub-board, which is given.
    WrongSubBoard(u8),
    /// The claimed square is not the cell that changed.
    SquareMismatch,
    /// A legal move: the sub-board and the cell that changed.
    Valid { board: usize, cell: usize },
}

/// Cell `k` of a grid in row-major order over the 81 cells.
pub open spec fn cell_at(g: Seq<Seq<Option<char>>>, k: int) -> Option<char> {
    g[k / 9][k % 9]
}

/// Cell `k` differs between the stored and the submitted board.
pub open spec fn differs_at(o: Seq<Seq<Option<char>>>, n: Seq<Seq<Option<char>>>, k: int) -> bool {
    cell_at(o, k) != cell_at(n, k)
}

/// Cell `k` changed in a way a player with mark `m` may not change it.
pub open spec fn bad_at(
    o: Seq<Seq<Option<char>>>,
    n: Seq<Seq<Option<char>>>,
    m: char,
    k: int,
) -> bool {
    differs_at(o, n, k) && (cell_at(o, k).is_some() || cell_at(n, k) != Some(m))
}

/// Cell `k` is the first bad change in row-major order.
pub open spec fn first_bad_at(
    o: Seq<Seq<Option<char>>>,
    n: Seq<Seq<Option<char>>>,
    m: char,
    k: int,
) -> bool {
    &&& 0 <= k < 81
    &&& bad_at(o, n, m, k)
    &&& forall|j: int| 0 <= j < k ==> !bad_at(o, n, m, j)
}

/// Some change is bad.
pub open spec fn has_bad(o: Seq<Seq<Option<char>>>, n: Seq<Seq<Option<char>>>, m: char) -> bool {
    exists|k: int| 0 <= k < 81 && bad_at(o, n, m, k)
}

/// The number of cells among the first `k` that differ.
pub open spec fn diff_count(o: Seq<Seq<Option<char>>>, n: Seq<Seq<Option<char>>>, k: int) -> nat
    decreases k,
{
    if k <= 0 {
        0
    } else {
        diff_count(o, n, k - 1) + (if differs_at(o, n, k - 1) {
            1nat
        } else {
            0nat
        })
    }
}

/// The verdict on `nb`, submitted by `from` with claimed square `square`.
pub open spec fn move_check(s: GameView, from: Seq<char>, nb: Seq<Seq<Option<char>>>, square: u8) -> MoveCheck {
    let o = s.board;
    if from != s.current_turn {
        MoveCheck::NotYourTurn
    } else if mark_of(s, from) is None {
        MoveCheck::NotAPlayer
    } else if !grid_shaped(nb) {
        MoveCheck::BadDimensions
    } else {
        let m = mark_of(s, from)->0;
        if has_bad(o, nb, m) {
            let k = choose|k: int| first_bad_at(o, nb, m, k);
            if cell_at(o, k).is_some() {
                MoveCheck::Occupied
            } else {
                MoveCheck::WrongMark
            }
        } else if diff_count(o, nb, 81) != 1 {
            MoveCheck::ChangeCount(diff_count(o, nb, 81) as usize)
        } else {
            let k = choose|k: int| 0 <= k < 81 && differs_at(o, nb, k);
            if s.next_board is Some && k / 9 != s.next_board->0 as int {
                MoveCheck::WrongSubBoard(s.next_board->0)
            } else if k % 9 != square as int {
                MoveCheck::SquareMismatch
            } else {
                MoveCheck::Valid { board: (k / 9) as usize, cell: (k % 9) as usize }
            }
        }
    }
}

/// Counting more cells never counts fewer changes.
pub proof fn lemma_diff_count_monotone(o: Seq<Seq<Option<char>>>, n: Seq<Seq<Option<char>>>, a: int, b: int)
    requires
        0 <= a <= b,
    ensures
        diff_count(o, n, a) <= diff_count(o, n, b),
    decreases b - a,
{
    if a < b {
        lemma_diff_count_monotone(o, n, a, b - 1);
    }
}

/// Two differing cells make at least two changes.
pub proof fn lemma_two_diffs(o: Seq<Seq<Option<char>>>, n: Seq<Seq<Option<char>>>, a: int, b: int, k: int)
    requires
        0 <= a < b < k,
        differs_at(o, n, a),
        differs_at(o, n, b),
    ensures
        diff_count(o, n, k) >= 2,
{
    lemma_diff_count_monotone(o, n, 0, a);
    lemma_diff_count_monotone(o, n, a + 1, b);
    lemma_diff_count_monotone(o, n, b + 1, k);
}

/// Checks a submitted board against the stored one.
pub fn check_move(state: &GameState, from: &String, new_board: &Vec<Vec<Option<char>>>, square: u8) -> (r: MoveCheck)
    requires
        state@.wf(),
    ensures
        r == move_check(state@, from@, grid_view(new_board@), square),
{
    if !(state.current_turn == *from) {
        return MoveCheck::NotYourTurn;
    }
    let mark = match state.player_mark(from.as_str()) {
        Some(m) => m,
        None => {
            return MoveCheck::NotAPlayer;
        },
    };
    let ghost o = state@.board;
    let ghost n = grid_view(new_board@);
    if new_board.len() != 9 {
        return MoveCheck::BadDimensions;
    }
    let mut b: usize = 0;
    while b < 9
        invariant
            b <= 9,
            from@ == state@.current_turn,
            mark_of(state@, from@) == Some(mark),
            new_board@.len() == 9,
            n == grid_view(new_board@),
            forall|j: int| 0 <= j < b ==> (#[trigger] n[j]).len() == 9,
        decreases 9 - b,
    {
        assert(n[b as int] == new_board@[b as int]@);
        if new_board[b].len() != 9 {
            assert(!grid_shaped(n));
            return MoveCheck::BadDimensions;
        }
        b += 1;
    }
    assert(grid_shaped(n));
    let mut count: usize = 0;
    let mut first: usize = 0;
    let mut k: usize = 0;
    while k < 81
        invariant
            k <= 81,
            state@.wf(),
            from@ == state@.current_turn,
            mark_of(state@, from@) == Some(mark),
            o == state@.board,
            n == grid_view(new_board@),
            grid_shaped(n),
            count == diff_count(o, n, k as int),
            count <= k,
            forall|j: int| 0 <= j < k ==> !bad_at(o, n, mark, j),
            count == 0 ==> forall|j: int| 0 <= j < k ==> !differs_at(o, n, j),
            count > 0 ==> first < k && differs_at(o, n, first as int) && forall|j: int|
                0 <= j < first ==> !differs_at(o, n, j),
        decreases 81 - k,
    {
        let bi = k / 9;
        let ci = k % 9;
        assert(o[bi as int] == state.board@[bi as int]@ && o[bi as int].len() == 9);
        assert(n[bi as int] == new_board@[bi as int]@ && n[bi as int].len() == 9);
        let old_cell = state.board[bi][ci];
        let new_cell = new_board[bi][ci];
        if !same_cell(old_cell, new_cell) {
            if old_cell.is_some() {
                proof {
                    assert(first_bad_at(o, n, mark, k as int));
                    let kk = choose|kk: int| first_bad_at(o, n, mark, kk);
                    assert(kk == k);
                }
                return MoveCheck::Occupied;
            }
            if !same_cell(new_cell, Some(mark)) {
                proof {
                    assert(first_bad_at(o, n, mark, k as int));
                    let kk = choose|kk: int| first_bad_at(o, n, mark, kk);
                    assert(kk == k);
                }
                return MoveCheck::WrongMark;
            }
            if count == 0 {
                first = k;
            }
            count += 1;
        }
        k += 1;
    }
    assert(!has_bad(o, n, mark));
    if count != 1 {
        return MoveCheck::ChangeCount(count);
    }
    proof {
        assert forall|j: int| 0 <= j < 81 && differs_at(o, n, j) implies j == first by {
            if j < first {
            } else if j > first {
                lemma_two_diffs(o, n, first as int, j, 81);
            }
        }
        let kk = choose|kk: int| 0 <= kk < 81 && differs_at(o, n, kk);
        assert(kk == first);
    }
    let changed_board = first / 9;
    let changed_cell = first % 9;
    if let Some(required) = state.next_board {
        if changed_board as u8 != required {
            return MoveCheck::WrongSubBoard(required);
        }
    }
    if changed_cell as u8 != square {
        return MoveCheck::SquareMismatch;
    }
    MoveCheck::Valid { board: changed_board, cell: changed_cell }
}


// ── Playing and undoing a move ───────────────────────────────────────────────

/// The sub-board winners after a move into sub-board `b`: an undecided
/// sub-board takes the winner of its new cells; a decided one keeps its winner.
pub open spec fn winners_after(sw: Seq<Option<char>>, nb: Seq<Seq<Option<char>>>, b: int) -> Seq<Option<char>> {
    if sw[b] is None {
        sw.update(b, winner_of(nb[b]))
    } else {
        sw
    }
}

/// The sub-board the opponent must play in after a move on `square`: that
/// sub-board, unless it is done, in which case any.
pub open spec fn next_board_after(nb: Seq<Seq<Option<char>>>, square: u8) -> Option<u8> {
    if is_done(nb[square as int]) {
        None
    } else {
        Some(square)
    }
}

/// The player to move after `from` has moved.
pub open spec fn turn_after(s: GameView, from: Seq<char>) -> Seq<char> {
    if from == s.crosses {
        s.naughts
    } else {
        s.crosses
    }
}

/// The state after `from` legally submits `nb`, playing `square` in sub-board `b`.
pub open spec fn after_move(s: GameView, from: Seq<char>, nb: Seq<Seq<Option<char>>>, square: u8, b: int) -> GameView {
    GameView {
        board: nb,
        squares_winner: winners_after(s.squares_winner, nb, b),
        naughts: s.naughts,
        crosses: s.crosses,
        current_turn: turn_after(s, from),
        next_board: next_board_after(nb, square),
        history: s.history.push(snapshot_of(s)),
    }
}

/// The state after the last move is taken back: the last snapshot is restored.
pub open spec fn undo_view(s: GameView) -> GameView {
    let h = s.history.last();
    GameView {
        board: h.board,
        squares_winner: h.squares_winner,
        naughts: s.naughts,
        crosses: s.crosses,
        current_turn: h.current_turn,
        next_board: h.next_board,
        history: s.history.drop_last(),
    }
}

/// Plays a legal move: snapshots the position, stores the new board, settles the
/// winner of the sub-board played in, and hands the turn to the other player.
pub fn apply_move(state: GameState, from: &String, new_board: Vec<Vec<Option<char>>>, square: u8, b: usize) -> (r: GameState)
    requires
        state@.wf(),
        grid_shaped(grid_view(new_board@)),
        b < 9,
        square < 9,
    ensures
        r@ == after_move(state@, from@, grid_view(new_board@), square, b as int),
        r@.wf(),
{
    let ghost s = state@;
    let ghost nb = grid_view(new_board@);
    let GameState { board, squares_winner, naughts, crosses, current_turn, next_board, mut history } =
        state;
    let mut sw = copy_cells(&squares_winner);
    if sw[b].is_none() {
        assert(nb[b as int] == new_board@[b as int]@);
        let w = check_winner(new_board[b].as_slice());
        sw.set(b, w);
    }
    assert(nb[square as int] == new_board@[square as int]@);
    let next = if sub_board_done(new_board[square as usize].as_slice()) {
        None
    } else {
        Some(square)
    };
    let next_turn = if *from == crosses {
        naughts.clone()
    } else {
        crosses.clone()
    };
    let snapshot = Snapshot { board, squares_winner, next_board, current_turn };
    let ghost prev = history@;
    history.push(snapshot);
    let r = GameState {
        board: new_board,
        squares_winner: sw,
        naughts,
        crosses,
        current_turn: next_turn,
        next_board: next,
        history,
    };
    assert(r@.history =~= s.history.push(snapshot_of(s)));
    assert(r@.squares_winner =~= winners_after(s.squares_winner, nb, b as int));
    r
}

/// Takes back the last move: restores the last snapshot and drops it.
pub fn undo_move(state: GameState) -> (r: GameState)
    requires
        state@.history.len() > 0,
    ensures
        r@ == undo_view(state@),
        state@.wf() ==> r@.wf(),
{
    let ghost s = state@;
    let GameState { board, squares_winner, naughts, crosses, current_turn, next_board, mut history } =
        state;
    let snap = history.pop().unwrap();
    proof {
        assert(snap@ == s.history.last());
    }
    let r = GameState {
        board: snap.board,
        squares_winner: snap.squares_winner,
        naughts,
        crosses,
        current_turn: snap.current_turn,
        next_board: snap.next_board,
        history,
    };
    assert(r@.history =~= s.history.drop_last());
    proof {
        if s.wf() {
            assert(snapshot_wf(s.history[s.history.len() - 1]));
        }
    }
    r
}

// ── Rejections ───────────────────────────────────────────────────────────────

/// The reason sent back for a rejected move.
pub open spec fn rejection_text(c: MoveCheck) -> Seq<char> {
    match c {
        MoveCheck::NotYourTurn => "Not your turn"@,
        MoveCheck::BadDimensions => "Invalid board dimensions"@,
        MoveCheck::Occupied => "Cell already occupied"@,
        MoveCheck::WrongMark => "Wrong mark for this player"@,
        MoveCheck::ChangeCount(n) => "Expected exactly 1 change, got "@ + decimal(n as nat),
        MoveCheck::WrongSubBoard(r) => "Must play in sub-board "@ + decimal(r as nat),
        MoveCheck::SquareMismatch => "Claimed square does not match the cell that changed"@,
        _ => Seq::empty(),
    }
}

/// The reason sent back for a rejected move.
pub fn rejection_reason(c: MoveCheck) -> (r: String)
    ensures
        r@ == rejection_text(c),
{
    match c {
        MoveCheck::NotYourTurn => String::from_str("Not your turn"),
        MoveCheck::BadDimensions => String::from_str("Invalid board dimensions"),
        MoveCheck::Occupied => String::from_str("Cell already occupied"),
        MoveCheck::WrongMark => String::from_str("Wrong mark for this player"),
        MoveCheck::ChangeCount(n) => {
            let mut s = String::from_str("Expected exactly 1 change, got ");
            push_decimal(&mut s, n as u64);
            s
        },
        MoveCheck::WrongSubBoard(req) => {
            let mut s = String::from_str("Must play in sub-board ");
            push_decimal(&mut s, req as u64);
            s
        },
        MoveCheck::SquareMismatch => String::from_str(
            "Claimed square does not match the cell that changed",
        ),
        _ => String::new(),
    }
}

} // verus!
