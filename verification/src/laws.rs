//! Properties of the game rules that span several operations.

use vstd::prelude::*;
use crate::board::{is_done, lemma_winner_holds_line, line, line_complete, winner_of};
use crate::game::{
    after_move, bad_at, board_history_view, cell_at, diff_count, differs_at, grid_shaped,
    has_bad, initial_view, lemma_two_diffs, mark_of, move_check, snapshot_of, undo_view, GameView,
    MoveCheck,
};
use crate::handler::{first_other, game_over_events, message_reply, move_reply, undo_reply};
use crate::rooms::rejoin_view;
use crate::messages::{EventView, MessageView, OutgoingView};
use crate::config::{all_digits, digits_value, is_digit, parse_unsigned, unsigned_body};
use crate::text::{decimal, digit_char};

verus! {

/// A legal move keeps the position well shaped.
pub proof fn lemma_after_move_wf(s: GameView, from: Seq<char>, nb: Seq<Seq<Option<char>>>, square: u8)
    requires
        s.wf(),
        move_check(s, from, nb, square) is Valid,
    ensures
        after_move(s, from, nb, square, move_check(s, from, nb, square)->board as int).wf(),
{
    lemma_valid_move_facts(s, from, nb, square);
    let b = move_check(s, from, nb, square)->board as int;
    let s2 = after_move(s, from, nb, square, b);
    assert forall|i: int| 0 <= i < s2.history.len() implies crate::game::snapshot_wf(
        #[trigger] s2.history[i],
    ) by {
        if i < s.history.len() {
            assert(s2.history[i] == s.history[i]);
        }
    }
}

/// Some cell differs when the count of differing cells is positive.
pub proof fn lemma_diff_count_witness(o: Seq<Seq<Option<char>>>, n: Seq<Seq<Option<char>>>, k: int)
    requires
        diff_count(o, n, k) > 0,
    ensures
        exists|j: int| 0 <= j < k && differs_at(o, n, j),
    decreases k,
{
    if k > 0 && !differs_at(o, n, k - 1) {
        lemma_diff_count_witness(o, n, k - 1);
    }
}

/// A legal move names a sub-board and cell in range, the claimed square is that
/// cell, and the submitted board is 9×9.
pub proof fn lemma_valid_move_facts(s: GameView, from: Seq<char>, nb: Seq<Seq<Option<char>>>, square: u8)
    requires
        move_check(s, from, nb, square) is Valid,
    ensures
        grid_shaped(nb),
        move_check(s, from, nb, square)->board < 9,
        move_check(s, from, nb, square)->cell < 9,
        move_check(s, from, nb, square)->cell == square as usize,
        square < 9,
        differs_at(s.board, nb, (move_check(s, from, nb, square)->board * 9 + move_check(s, from, nb, square)->cell) as int),
{
    let o = s.board;
    lemma_diff_count_witness(o, nb, 81);
    let k = choose|k: int| 0 <= k < 81 && differs_at(o, nb, k);
    assert(k == (k / 9) * 9 + k % 9);
}

/// Taking back a move restores exactly the position before it.
pub proof fn lemma_undo_reverts_move(s: GameView, from: Seq<char>, nb: Seq<Seq<Option<char>>>, square: u8, b: int)
    ensures
        undo_view(after_move(s, from, nb, square, b)) == s,
{
    let s2 = after_move(s, from, nb, square, b);
    assert(s2.history.drop_last() =~= s.history);
    assert(undo_view(s2) =~= s);
}

/// A move the server accepts, followed by an accepted undo, leaves the room
/// with the state it had before the move, and the undo announces that position.
pub proof fn lemma_accepted_move_then_undo(
    s: GameView,
    members: Seq<Seq<char>>,
    from: Seq<char>,
    nb: Seq<Seq<Option<char>>>,
    square: u8,
    undoer: Seq<char>,
)
    requires
        s.wf(),
        message_reply(Some(s), members, from, MessageView::Move { board: nb, square }).new_state is Some,
    ensures
        ({
            let s2 = message_reply(Some(s), members, from, MessageView::Move { board: nb, square }).new_state->0;
            let back = message_reply(Some(s2), members, undoer, MessageView::AcceptUndo);
            &&& back.new_state == Some(s)
            &&& back.outgoing == seq![
                OutgoingView::ToAll(
                    EventView::UndoAccepted {
                        updated_board: s.board,
                        squares_winner: s.squares_winner,
                        history: board_history_view(s),
                        next_board: s.next_board,
                    },
                ),
            ]
        }),
{
    let c = move_check(s, from, nb, square);
    assert(c is Valid);
    let s2 = after_move(s, from, nb, square, c->board as int);
    lemma_undo_reverts_move(s, from, nb, square, c->board as int);
    assert(s2.history.len() > 0);
}

/// Only the player to move, playing a mark, can change the state with a move;
/// any other move leaves it untouched.
pub proof fn lemma_only_mover_changes_state(s: GameView, from: Seq<char>, nb: Seq<Seq<Option<char>>>, square: u8)
    ensures
        move_reply(Some(s), from, nb, square).new_state is Some ==> {
            &&& from == s.current_turn
            &&& mark_of(s, from) is Some
            &&& move_check(s, from, nb, square) is Valid
        },
        !(move_check(s, from, nb, square) is Valid) ==> move_reply(Some(s), from, nb, square).new_state
            is None,
{
}

/// Cells of the flat row-major order and of the grid correspond.
proof fn lemma_cell_index(g: Seq<Seq<Option<char>>>, bi: int, ci: int)
    requires
        0 <= bi < 9,
        0 <= ci < 9,
    ensures
        cell_at(g, bi * 9 + ci) == g[bi][ci],
{
    assert((bi * 9 + ci) / 9 == bi);
    assert((bi * 9 + ci) % 9 == ci);
}

/// An accepted move writes the mover's mark into exactly one cell, which was
/// empty, in the required sub-board if there is one, at the claimed square;
/// every other cell is unchanged.
pub proof fn lemma_move_writes_one_mark(s: GameView, from: Seq<char>, nb: Seq<Seq<Option<char>>>, square: u8)
    requires
        s.wf(),
        move_check(s, from, nb, square) is Valid,
    ensures
        ({
            let b = move_check(s, from, nb, square)->board as int;
            let c = move_check(s, from, nb, square)->cell as int;
            let m = mark_of(s, from)->0;
            &&& from == s.current_turn
            &&& mark_of(s, from) is Some
            &&& c == square as int
            &&& s.next_board matches Some(r) ==> b == r as int
            &&& s.board[b][c] is None
            &&& nb == s.board.update(b, s.board[b].update(c, Some(m)))
        }),
{
    lemma_valid_move_facts(s, from, nb, square);
    let o = s.board;
    let b = move_check(s, from, nb, square)->board as int;
    let c = move_check(s, from, nb, square)->cell as int;
    let m = mark_of(s, from)->0;
    let k = b * 9 + c;
    lemma_diff_count_witness(o, nb, 81);
    let kk = choose|kk: int| 0 <= kk < 81 && differs_at(o, nb, kk);
    assert(kk == (kk / 9) * 9 + kk % 9);
    assert(kk == k);
    assert(!has_bad(o, nb, m));
    assert(!bad_at(o, nb, m, k));
    lemma_cell_index(o, b, c);
    lemma_cell_index(nb, b, c);
    let expected = o.update(b, o[b].update(c, Some(m)));
    assert forall|bi: int, ci: int| 0 <= bi < 9 && 0 <= ci < 9 implies nb[bi][ci] == expected[bi][ci] by {
        lemma_cell_index(o, bi, ci);
        lemma_cell_index(nb, bi, ci);
        if bi != b || ci != c {
            let j = bi * 9 + ci;
            if differs_at(o, nb, j) {
                if j < k {
                    lemma_two_diffs(o, nb, j, k, 81);
                } else if j > k {
                    lemma_two_diffs(o, nb, k, j, 81);
                }
                assert(j != k);
            }
        }
    }
    assert forall|bi: int| 0 <= bi < 9 implies nb[bi] =~= expected[bi] by {
        assert forall|ci: int| 0 <= ci < 9 implies nb[bi][ci] == expected[bi][ci] by {}
    }
    assert(nb =~= expected);
}

/// After an accepted move the turn passes to the other player, the players stay
/// who they were, and the history grows by the position before the move.
pub proof fn lemma_move_passes_turn(s: GameView, from: Seq<char>, nb: Seq<Seq<Option<char>>>, square: u8)
    requires
        move_check(s, from, nb, square) is Valid,
        s.naughts != s.crosses,
    ensures
        ({
            let s2 = after_move(s, from, nb, square, move_check(s, from, nb, square)->board as int);
            &&& s2.current_turn != s.current_turn
            &&& s2.current_turn == s.naughts || s2.current_turn == s.crosses
            &&& s2.naughts == s.naughts && s2.crosses == s.crosses
            &&& s2.history == s.history.push(snapshot_of(s))
            &&& board_history_view(s2).len() == s2.history.len()
        }),
{
}

/// A sub-board, once won, keeps its winner; only the sub-board played in can
/// gain one, and only the winner of its new cells.
pub proof fn lemma_decided_sub_boards_stay(s: GameView, from: Seq<char>, nb: Seq<Seq<Option<char>>>, square: u8, b: int)
    requires
        s.wf(),
        0 <= b < 9,
    ensures
        ({
            let w2 = after_move(s, from, nb, square, b).squares_winner;
            &&& w2.len() == 9
            &&& forall|i: int| 0 <= i < 9 && (#[trigger] s.squares_winner[i]) is Some ==> w2[i]
                == s.squares_winner[i]
            &&& forall|i: int| 0 <= i < 9 && i != b ==> #[trigger] w2[i] == s.squares_winner[i]
            &&& (s.squares_winner[b] is None ==> w2[b] == crate::board::winner_of(nb[b]))
        }),
{
}

/// After a move on `square`, the opponent is sent to that sub-board unless it is
/// done, in which case they may play anywhere.
pub proof fn lemma_next_board_rule(s: GameView, from: Seq<char>, nb: Seq<Seq<Option<char>>>, square: u8, b: int)
    ensures
        ({
            let nxt = after_move(s, from, nb, square, b).next_board;
            &&& nxt matches Some(q) ==> q == square && !is_done(nb[square as int])
            &&& nxt is None ==> is_done(nb[square as int])
        }),
{
}

/// A game that has just started has nothing to take back.
pub proof fn lemma_fresh_game_has_no_undo(naughts: Seq<char>, crosses: Seq<char>, from: Seq<char>)
    ensures
        initial_view(naughts, crosses).wf(),
        undo_reply(Some(initial_view(naughts, crosses)), from).new_state is None,
        undo_reply(Some(initial_view(naughts, crosses)), from).outgoing == seq![
            OutgoingView::SendTo(from, EventView::InvalidMove { reason: "No moves to undo"@ }),
        ],
{
}

/// The decimal text of a number is all digits and reads back as that number.
proof fn lemma_decimal_digits(n: nat)
    ensures
        decimal(n).len() > 0,
        all_digits(decimal(n)),
        digits_value(decimal(n)) == n,
    decreases n,
{
    if n >= 10 {
        lemma_decimal_digits(n / 10);
        let t = decimal(n / 10);
        let d = digit_char((n % 10) as int);
        assert(decimal(n) == t.push(d));
        assert(decimal(n).drop_last() =~= t);
        assert(is_digit(d));
        assert((d as u32) - 48 == n % 10);
        assert(decimal(n).last() == d);
        assert(digits_value(decimal(n)) == digits_value(t) * 10 + ((d as u32) - 48) as nat);
        assert((n / 10) * 10 + n % 10 == n);
        assert forall|i: int| 0 <= i < decimal(n).len() implies is_digit(#[trigger] decimal(n)[i]) by {
            if i < t.len() {
                assert(decimal(n)[i] == t[i]);
            }
        }
    } else {
        let d = digit_char(n as int);
        assert(decimal(n) == seq![d]);
        assert(decimal(n).drop_last() =~= Seq::<char>::empty());
        assert((d as u32) - 48 == n);
        assert(decimal(n).last() == d);
        assert(digits_value(decimal(n)) == digits_value(Seq::<char>::empty()) * 10 + ((d as u32) - 48) as nat);
    }
}

/// A number written in decimal (as move rejections write counts and sub-boards)
/// parses back, as the settings parse numbers, to the same number.
pub proof fn lemma_decimal_parses_back(n: nat, max: nat)
    requires
        n <= max,
    ensures
        parse_unsigned(decimal(n), max) == Some(n),
{
    lemma_decimal_digits(n);
    let s = decimal(n);
    assert(is_digit(s[0]));
    assert(s[0] != '+');
    assert(unsigned_body(s) == s);
}

/// Taking back a move keeps the position well shaped.
pub proof fn lemma_undo_wf(s: GameView)
    requires
        s.wf(),
        s.history.len() > 0,
    ensures
        undo_view(s).wf(),
{
    assert(crate::game::snapshot_wf(s.history[s.history.len() - 1]));
    let s2 = undo_view(s);
    assert forall|i: int| 0 <= i < s2.history.len() implies crate::game::snapshot_wf(
        #[trigger] s2.history[i],
    ) by {
        assert(s2.history[i] == s.history[i]);
    }
}

/// Every state the server stores in answer to a message is well shaped, given
/// that the state it started from was.
pub proof fn lemma_replies_keep_wf(s: GameView, members: Seq<Seq<char>>, from: Seq<char>, msg: MessageView)
    requires
        s.wf(),
    ensures
        message_reply(Some(s), members, from, msg).new_state matches Some(s2) ==> s2.wf(),
{
    match msg {
        MessageView::Move { board, square } => {
            if move_check(s, from, board, square) is Valid {
                lemma_after_move_wf(s, from, board, square);
            }
        },
        MessageView::AcceptUndo => {
            if s.history.len() > 0 {
                lemma_undo_wf(s);
            }
        },
        _ => {},
    }
}

/// Turns alternate: once a player's move is accepted, a move from that same
/// player is refused until the other has moved (the two players being distinct).
pub proof fn lemma_turns_alternate(
    s: GameView,
    members: Seq<Seq<char>>,
    from: Seq<char>,
    nb: Seq<Seq<Option<char>>>,
    square: u8,
    nb2: Seq<Seq<Option<char>>>,
    square2: u8,
)
    requires
        s.naughts != s.crosses,
        message_reply(Some(s), members, from, MessageView::Move { board: nb, square }).new_state is Some,
    ensures
        ({
            let s2 = message_reply(Some(s), members, from, MessageView::Move { board: nb, square }).new_state->0;
            let again = message_reply(Some(s2), members, from, MessageView::Move { board: nb2, square: square2 });
            &&& again.new_state is None
            &&& again.outgoing == seq![
                OutgoingView::SendTo(from, EventView::InvalidMove { reason: "Not your turn"@ }),
            ]
        }),
{
    let c = move_check(s, from, nb, square);
    assert(c is Valid);
    let s2 = after_move(s, from, nb, square, c->board as int);
    assert(s2.current_turn != from);
    assert(move_check(s2, from, nb2, square2) == MoveCheck::NotYourTurn);
}

/// A sub-board reflected left to right.
pub open spec fn mirrored(c: Seq<Option<char>>) -> Seq<Option<char>> {
    Seq::new(9, |i: int| c[3 * (i / 3) + 2 - i % 3])
}

/// The line that line `k` becomes when the sub-board is reflected left to right.
spec fn mirror_line(k: int) -> int {
    if k == 1 {
        5
    } else if k == 5 {
        1
    } else if k == 6 {
        7
    } else if k == 7 {
        6
    } else {
        k
    }
}

/// Reflecting a sub-board left to right keeps whether it has a winner, and keeps
/// the winner when every complete line holds the same mark.
pub proof fn lemma_mirror_keeps_winner(c: Seq<Option<char>>)
    requires
        c.len() == 9,
    ensures
        winner_of(mirrored(c)).is_some() == winner_of(c).is_some(),
        (forall|k: int, j: int|
            0 <= k < 8 && 0 <= j < 8 && line_complete(c, k) && line_complete(c, j) ==> c[line(k).0]
                == c[line(j).0]) ==> winner_of(mirrored(c)) == winner_of(c),
{
    let m = mirrored(c);
    assert forall|k: int| 0 <= k < 8 implies (line_complete(m, k) == line_complete(c, mirror_line(k))
        && (line_complete(m, k) ==> m[line(k).0] == c[line(mirror_line(k)).0])) by {
        assert(m[0] == c[2] && m[1] == c[1] && m[2] == c[0]);
        assert(m[3] == c[5] && m[4] == c[4] && m[5] == c[3]);
        assert(m[6] == c[8] && m[7] == c[7] && m[8] == c[6]);
    }
    lemma_winner_holds_line(c);
    lemma_winner_holds_line(m);
    if winner_of(c) is Some {
        let k = choose|k: int| 0 <= k < 8 && line_complete(c, k) && c[line(k).0] == winner_of(c);
        assert(line_complete(m, mirror_line(k)));
        assert(mirror_line(mirror_line(k)) == k);
    }
    if winner_of(m) is Some {
        let k = choose|k: int| 0 <= k < 8 && line_complete(m, k) && m[line(k).0] == winner_of(m);
        assert(line_complete(c, mirror_line(k)));
    }
}

/// The history shows, oldest first, the board of every kept position: one
/// board per snapshot, the `i`-th being that snapshot's board.
pub proof fn lemma_history_boards(s: GameView)
    ensures
        board_history_view(s).len() == s.history.len(),
        forall|i: int| 0 <= i < s.history.len() ==> #[trigger] board_history_view(s)[i] == s.history[i].board,
{
}

/// An accepted move adds exactly the board before the move to the end of the
/// history of boards.
pub proof fn lemma_history_grows_by_old_board(s: GameView, from: Seq<char>, nb: Seq<Seq<Option<char>>>, square: u8, b: int)
    ensures
        board_history_view(after_move(s, from, nb, square, b)) == board_history_view(s).push(s.board),
{
    let s2 = after_move(s, from, nb, square, b);
    assert(board_history_view(s2) =~= board_history_view(s).push(s.board));
}

/// The game ends in a win for the player whose mark the sub-board winners hold
/// in a line: a line of 'o' names the naughts player, a line of 'x' the crosses
/// player, with the reason "<name> wins". With two distinct players, the player
/// named plays the winning mark.
pub proof fn lemma_win_names_the_marks_player(s: GameView)
    ensures
        winner_of(s.squares_winner) == Some('o') ==> game_over_events(s) == seq![
            OutgoingView::ToAll(
                EventView::GameOver { winner: Some(s.naughts), reason: s.naughts + " wins"@ },
            ),
        ],
        winner_of(s.squares_winner) == Some('x') ==> game_over_events(s) == seq![
            OutgoingView::ToAll(
                EventView::GameOver { winner: Some(s.crosses), reason: s.crosses + " wins"@ },
            ),
        ],
        s.naughts != s.crosses ==> forall|name: Seq<char>, reason: Seq<char>|
            game_over_events(s) == seq![
                OutgoingView::ToAll(EventView::GameOver { winner: Some(name), reason }),
            ] && (winner_of(s.squares_winner) == Some('o') || winner_of(s.squares_winner) == Some('x'))
                ==> mark_of(s, name) == winner_of(s.squares_winner),
{
    if s.naughts != s.crosses {
        assert forall|name: Seq<char>, reason: Seq<char>|
            game_over_events(s) == seq![
                OutgoingView::ToAll(EventView::GameOver { winner: Some(name), reason }),
            ] && (winner_of(s.squares_winner) == Some('o') || winner_of(s.squares_winner) == Some('x'))
                implies mark_of(s, name) == winner_of(s.squares_winner) by {
            let e = game_over_events(s);
            assert(e[0] == OutgoingView::ToAll(EventView::GameOver { winner: Some(name), reason }));
            if winner_of(s.squares_winner) == Some('o') {
                assert(name == s.naughts);
            } else {
                assert(name == s.crosses);
            }
        }
    }
}

/// The MoveMade event of an accepted move announces exactly the state that is
/// stored: its board, sub-board winners, history of boards and next sub-board,
/// by the sender, for the claimed square; and it comes first.
pub proof fn lemma_move_made_shows_stored_state(s: GameView, from: Seq<char>, nb: Seq<Seq<Option<char>>>, square: u8)
    requires
        move_reply(Some(s), from, nb, square).new_state is Some,
    ensures
        ({
            let r = move_reply(Some(s), from, nb, square);
            let s2 = r.new_state->0;
            &&& r.outgoing.len() >= 1
            &&& r.outgoing[0] == OutgoingView::ToAll(
                EventView::MoveMade {
                    by: from,
                    square,
                    updated_board: s2.board,
                    squares_winner: s2.squares_winner,
                    history: board_history_view(s2),
                    next_board: s2.next_board,
                },
            )
            &&& s2.board == nb
            &&& board_history_view(s2) == board_history_view(s).push(s.board)
        }),
{
    let c = move_check(s, from, nb, square);
    assert(c is Valid);
    lemma_history_grows_by_old_board(s, from, nb, square, c->board as int);
}

/// The winner of a resignation is a member other than the one resigning: the
/// first such member in order, and there is none only when every member is the
/// one resigning.
pub proof fn lemma_resignation_winner(members: Seq<Seq<char>>, from: Seq<char>)
    ensures
        first_other(members, from) is None <==> forall|i: int| 0 <= i < members.len() ==> #[trigger] members[i]
            == from,
        first_other(members, from) matches Some(x) ==> exists|i: int|
            0 <= i < members.len() && #[trigger] members[i] == x && x != from && forall|j: int|
                0 <= j < i ==> members[j] == from,
    decreases members.len(),
{
    if members.len() > 0 {
        let rest = members.drop_first();
        lemma_resignation_winner(rest, from);
        if members[0] == from {
            assert forall|i: int| 0 <= i < rest.len() implies #[trigger] rest[i] == members[i + 1] by {}
            if first_other(rest, from) is None {
                assert forall|i: int| 0 <= i < members.len() implies #[trigger] members[i] == from by {
                    if i > 0 {
                        assert(members[i] == rest[i - 1]);
                    }
                }
            } else {
                let x = first_other(rest, from)->0;
                let i = choose|i: int|
                    0 <= i < rest.len() && #[trigger] rest[i] == x && x != from && forall|j: int|
                        0 <= j < i ==> rest[j] == from;
                assert(members[i + 1] == x);
                assert forall|j: int| 0 <= j < i + 1 implies members[j] == from by {
                    if j > 0 {
                        assert(members[j] == rest[j - 1]);
                    }
                }
                assert(!(members[i + 1] == from));
            }
        } else {
            assert(members[0] == members[0]);
        }
    }
}

/// A reconnecting player is sent the stored position field for field: the
/// players, the board, the sub-board winners, the boards of the history and the
/// sub-board they must play in; and a move the server then accepts from the
/// player to move lies in that sub-board.
pub proof fn lemma_rejoin_shows_stored_state(s: GameView)
    ensures
        rejoin_view(s) == (EventView::GameRejoined {
            naughts: s.naughts,
            crosses: s.crosses,
            updated_board: s.board,
            squares_winner: s.squares_winner,
            history: s.history.map_values(|h: crate::game::SnapshotView| h.board),
            next_board: s.next_board,
        }),
        s.next_board matches Some(r) ==> forall|nb: Seq<Seq<Option<char>>>, square: u8|
            #[trigger] move_check(s, s.current_turn, nb, square) is Valid ==> move_check(
                s,
                s.current_turn,
                nb,
                square,
            )->board == r as usize,
{
    if let Some(r) = s.next_board {
        assert forall|nb: Seq<Seq<Option<char>>>, square: u8|
            #[trigger] move_check(s, s.current_turn, nb, square) is Valid implies move_check(
                s,
                s.current_turn,
                nb,
                square,
            )->board == r as usize by {
            lemma_valid_move_facts(s, s.current_turn, nb, square);
            lemma_diff_count_witness(s.board, nb, 81);
        }
    }
}

} // verus!
