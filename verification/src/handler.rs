//! What the server answers to each client message: the state to store, if any,
//! and the events to send, in order.

use vstd::prelude::*;
use vstd::string::*;
use crate::board::{board_is_full, check_winner, grid_full, grid_view, winner_of};
use crate::game::{
    after_move, apply_move, board_history_view, check_move, copy_board, copy_cells, move_check, rejection_reason,
    rejection_text, undo_move, undo_view, GameState, GameView, MoveCheck,
};
use crate::messages::{outgoing_view, EventView, GameEvent, GameMessage, MessageView, Outgoing, OutgoingView};

verus! {

/// The server's answer: a new state to store (`None`: leave the stored state as
/// it is) and the events to send, in order.
pub struct Reply {
    pub new_state: Option<GameState>,
    pub outgoing: Vec<Outgoing>,
}

/// A reply as mathematical values.
pub struct ReplyView {
    pub new_state: Option<GameView>,
    pub outgoing: Seq<OutgoingView>,
}

/// An optional game state as mathematical values.
pub open spec fn opt_game_view(s: Option<GameState>) -> Option<GameView> {
    match s {
        Some(g) => Some(g@),
        None => None,
    }
}

impl View for Reply {
    type V = ReplyView;

    open spec fn view(&self) -> ReplyView {
        ReplyView { new_state: opt_game_view(self.new_state), outgoing: outgoing_view(self.outgoing@) }
    }
}

/// Names as character sequences.
pub open spec fn names_view(v: Seq<String>) -> Seq<Seq<char>> {
    v.map_values(|s: String| s@)
}

/// Nothing stored, nothing sent.
pub open spec fn quiet() -> ReplyView {
    ReplyView { new_state: None, outgoing: Seq::empty() }
}

/// A reply that only sends events.
pub open spec fn send_only(events: Seq<OutgoingView>) -> ReplyView {
    ReplyView { new_state: None, outgoing: events }
}

/// The end of the game that a position shows, announced to all: a win when the
/// sub-board winners form a line (named by the winning mark's player), else a
/// draw when every cell is taken, else nothing.
pub open spec fn game_over_events(s: GameView) -> Seq<OutgoingView> {
    match winner_of(s.squares_winner) {
        Some(w) => {
            let name = if w == 'x' {
                s.crosses
            } else {
                s.naughts
            };
            seq![
                OutgoingView::ToAll(
                    EventView::GameOver { winner: Some(name), reason: name + " wins"@ },
                ),
            ]
        },
        None => if grid_full(s.board) {
            seq![
                OutgoingView::ToAll(
                    EventView::GameOver { winner: None, reason: "Draw — board is full"@ },
                ),
            ]
        } else {
            Seq::empty()
        },
    }
}

/// The answer to a move: dropped when there is no game or the sender plays no
/// mark; otherwise a rejection to the sender, or the new position stored and
/// announced to all, followed by the end of the game if it is over.
pub open spec fn move_reply(state: Option<GameView>, from: Seq<char>, nb: Seq<Seq<Option<char>>>, square: u8) -> ReplyView {
    match state {
        None => quiet(),
        Some(s) => {
            let c = move_check(s, from, nb, square);
            match c {
                MoveCheck::NotAPlayer => quiet(),
                MoveCheck::Valid { board, cell } => {
                    let s2 = after_move(s, from, nb, square, board as int);
                    ReplyView {
                        new_state: Some(s2),
                        outgoing: seq![
                            OutgoingView::ToAll(
                                EventView::MoveMade {
                                    by: from,
                                    square,
                                    updated_board: s2.board,
                                    squares_winner: s2.squares_winner,
                                    history: board_history_view(s2),
                                    next_board: s2.next_board,
                                },
                            ),
                        ] + game_over_events(s2),
                    }
                },
                _ => send_only(
                    seq![
                        OutgoingView::SendTo(from, EventView::InvalidMove { reason: rejection_text(c) }),
                    ],
                ),
            }
        },
    }
}

/// The first member other than `from`.
pub open spec fn first_other(members: Seq<Seq<char>>, from: Seq<char>) -> Option<Seq<char>>
    decreases members.len(),
{
    if members.len() == 0 {
        None
    } else if members[0] != from {
        Some(members[0])
    } else {
        first_other(members.drop_first(), from)
    }
}

/// The answer to an accepted undo: dropped when there is no game; a rejection
/// when there is no move to take back; otherwise the previous position stored
/// and announced to all.
pub open spec fn undo_reply(state: Option<GameView>, from: Seq<char>) -> ReplyView {
    match state {
        None => quiet(),
        Some(s) => if s.history.len() == 0 {
            send_only(
                seq![
                    OutgoingView::SendTo(from, EventView::InvalidMove { reason: "No moves to undo"@ }),
                ],
            )
        } else {
            let s2 = undo_view(s);
            ReplyView {
                new_state: Some(s2),
                outgoing: seq![
                    OutgoingView::ToAll(
                        EventView::UndoAccepted {
                            updated_board: s2.board,
                            squares_winner: s2.squares_winner,
                            history: board_history_view(s2),
                            next_board: s2.next_board,
                        },
                    ),
                ],
            }
        },
    }
}

/// The answer to a message from `from`, given the stored state and the room's members.
pub open spec fn message_reply(state: Option<GameView>, members: Seq<Seq<char>>, from: Seq<char>, msg: MessageView) -> ReplyView {
    match msg {
        MessageView::Move { board, square } => move_reply(state, from, board, square),
        MessageView::Resign => send_only(
            seq![
                OutgoingView::ToAll(
                    EventView::GameOver {
                        winner: first_other(members, from),
                        reason: from + " resigned"@,
                    },
                ),
            ],
        ),
        MessageView::OfferDraw => send_only(
            seq![OutgoingView::ToOthers(EventView::DrawOffered { by: from })],
        ),
        MessageView::AcceptDraw => send_only(
            seq![
                OutgoingView::ToAll(
                    EventView::GameOver { winner: None, reason: "Draw by agreement"@ },
                ),
            ],
        ),
        MessageView::RequestUndo => send_only(
            seq![OutgoingView::ToOthers(EventView::UndoRequested { by: from })],
        ),
        MessageView::AcceptUndo => undo_reply(state, from),
    }
}

/// The events that announce the end of the game, if the position shows one.
fn game_over_outgoing(s: &GameState) -> (r: Vec<Outgoing>)
    requires
        s@.wf(),
    ensures
        outgoing_view(r@) == game_over_events(s@),
{
    let mut r: Vec<Outgoing> = Vec::new();
    match check_winner(s.squares_winner.as_slice()) {
        Some(w) => {
            let name = if w == 'x' {
                s.crosses.clone()
            } else {
                s.naughts.clone()
            };
            let reason = name.clone().concat(" wins");
            r.push(Outgoing::ToAll(GameEvent::GameOver { winner: Some(name), reason }));
        },
        None => {
            if board_is_full(s.board.as_slice()) {
                r.push(
                    Outgoing::ToAll(
                        GameEvent::GameOver {
                            winner: None,
                            reason: String::from_str("Draw — board is full"),
                        },
                    ),
                );
            }
        },
    }
    assert(outgoing_view(r@) =~= game_over_events(s@));
    r
}

/// The answer to a move.
fn respond_to_move(state: Option<GameState>, from: String, new_board: Vec<Vec<Option<char>>>, square: u8) -> (r: Reply)
    requires
        state matches Some(s) ==> s@.wf(),
    ensures
        r@ == move_reply(opt_game_view(state), from@, grid_view(new_board@), square),
{
    let s = match state {
        Some(s) => s,
        None => {
            let r = Reply { new_state: None, outgoing: Vec::new() };
            assert(r@.outgoing =~= Seq::<OutgoingView>::empty());
            return r;
        },
    };
    let c = check_move(&s, &from, &new_board, square);
    match c {
        MoveCheck::NotAPlayer => {
            let r = Reply { new_state: None, outgoing: Vec::new() };
            assert(r@.outgoing =~= Seq::<OutgoingView>::empty());
            r
        },
        MoveCheck::Valid { board, cell } => {
            let ghost nb = grid_view(new_board@);
            proof {
                crate::laws::lemma_valid_move_facts(s@, from@, nb, square);
            }
            let s2 = apply_move(s, &from, new_board, square, board);
            let updated_board = copy_board(&s2.board);
            let squares_winner = copy_cells(&s2.squares_winner);
            let history = s2.board_history();
            let next_board = s2.next_board;
            let mut outgoing: Vec<Outgoing> = Vec::new();
            outgoing.push(
                Outgoing::ToAll(
                    GameEvent::MoveMade {
                        by: from,
                        square,
                        updated_board,
                        squares_winner,
                        history,
                        next_board,
                    },
                ),
            );
            let mut over = game_over_outgoing(&s2);
            let ghost first = outgoing_view(outgoing@);
            outgoing.append(&mut over);
            let r = Reply { new_state: Some(s2), outgoing };
            assert(r@.outgoing =~= first + game_over_events(s2@));
            assert(r@.new_state == Some(after_move(s@, from@, nb, square, board as int)));
            assert(first == seq![
                OutgoingView::ToAll(
                    EventView::MoveMade {
                        by: from@,
                        square,
                        updated_board: s2@.board,
                        squares_winner: s2@.squares_winner,
                        history: board_history_view(s2@),
                        next_board: s2@.next_board,
                    },
                ),
            ]);
            r
        },
        _ => {
            let reason = rejection_reason(c);
            let mut outgoing: Vec<Outgoing> = Vec::new();
            outgoing.push(Outgoing::SendTo(from, GameEvent::InvalidMove { reason }));
            let r = Reply { new_state: None, outgoing };
            assert(r@.outgoing =~= seq![
                OutgoingView::SendTo(from@, EventView::InvalidMove { reason: rejection_text(c) }),
            ]);
            r
        },
    }
}

/// The first member other than `from`.
pub fn first_other_member(members: &Vec<String>, from: &String) -> (r: Option<String>)
    ensures
        crate::messages::opt_string_view(r) == first_other(names_view(members@), from@),
{
    let ghost names = names_view(members@);
    assert(names.skip(0) =~= names);
    let mut i: usize = 0;
    while i < members.len()
        invariant
            i <= members@.len(),
            names == names_view(members@),
            first_other(names, from@) == first_other(names.skip(i as int), from@),
        decreases members@.len() - i,
    {
        assert(names.skip(i as int)[0] == members@[i as int]@);
        if !(members[i] == *from) {
            return Some(members[i].clone());
        }
        assert(names.skip(i as int).drop_first() =~= names.skip(i + 1));
        i += 1;
    }
    assert(names.skip(i as int).len() == 0);
    None
}

/// The answer to an accepted undo.
fn respond_to_undo(state: Option<GameState>, from: String) -> (r: Reply)
    requires
        state matches Some(s) ==> s@.wf(),
    ensures
        r@ == undo_reply(opt_game_view(state), from@),
{
    let s = match state {
        Some(s) => s,
        None => {
            let r = Reply { new_state: None, outgoing: Vec::new() };
            assert(r@.outgoing =~= Seq::<OutgoingView>::empty());
            return r;
        },
    };
    if s.history.len() == 0 {
        let mut outgoing: Vec<Outgoing> = Vec::new();
        outgoing.push(
            Outgoing::SendTo(
                from,
                GameEvent::InvalidMove { reason: String::from_str("No moves to undo") },
            ),
        );
        let r = Reply { new_state: None, outgoing };
        assert(r@.outgoing =~= seq![
            OutgoingView::SendTo(from@, EventView::InvalidMove { reason: "No moves to undo"@ }),
        ]);
        return r;
    }
    let s2 = undo_move(s);
    let updated_board = copy_board(&s2.board);
    let squares_winner = copy_cells(&s2.squares_winner);
    let history = s2.board_history();
    let next_board = s2.next_board;
    let mut outgoing: Vec<Outgoing> = Vec::new();
    outgoing.push(
        Outgoing::ToAll(GameEvent::UndoAccepted { updated_board, squares_winner, history, next_board }),
    );
    let r = Reply { new_state: Some(s2), outgoing };
    assert(r@.outgoing =~= seq![
        OutgoingView::ToAll(
            EventView::UndoAccepted {
                updated_board: s2@.board,
                squares_winner: s2@.squares_winner,
                history: board_history_view(s2@),
                next_board: s2@.next_board,
            },
        ),
    ]);
    r
}

/// A reply that sends one event.
fn send_one(o: Outgoing) -> (r: Reply)
    ensures
        r@ == send_only(seq![o@]),
{
    let mut outgoing: Vec<Outgoing> = Vec::new();
    outgoing.push(o);
    let r = Reply { new_state: None, outgoing };
    assert(r@.outgoing =~= seq![o@]);
    r
}

/// Decides what the server does with a message from `from`, given the state
/// stored in the room (if a game has started) and the room's members.
pub fn handle_game_message(state: Option<GameState>, members: Vec<String>, from: String, msg: GameMessage) -> (r: Reply)
    requires
        state matches Some(s) ==> s@.wf(),
    ensures
        r@ == message_reply(opt_game_view(state), names_view(members@), from@, msg@),
        r.new_state matches Some(s) ==> s@.wf(),
{
    match msg {
        GameMessage::Move { board, square } => {
            let ghost sv = opt_game_view(state);
            let ghost fv = from@;
            let ghost bv = grid_view(board@);
            let r = respond_to_move(state, from, board, square);
            proof {
                if let Some(s) = sv {
                    if move_check(s, fv, bv, square) is Valid {
                        crate::laws::lemma_after_move_wf(s, fv, bv, square);
                    }
                }
            }
            r
        },
        GameMessage::Resign => {
            let winner = first_other_member(&members, &from);
            let reason = from.clone().concat(" resigned");
            send_one(Outgoing::ToAll(GameEvent::GameOver { winner, reason }))
        },
        GameMessage::OfferDraw => send_one(Outgoing::ToOthers(GameEvent::DrawOffered { by: from })),
        GameMessage::AcceptDraw => send_one(
            Outgoing::ToAll(
                GameEvent::GameOver { winner: None, reason: String::from_str("Draw by agreement") },
            ),
        ),
        GameMessage::RequestUndo => send_one(
            Outgoing::ToOthers(GameEvent::UndoRequested { by: from }),
        ),
        GameMessage::AcceptUndo => respond_to_undo(state, from),
    }
}

/// Messages are accepted only from a named sender.
pub fn check_sender(from: &str) -> (r: Result<(), String>)
    ensures
        r is Err <==> from@.len() == 0,
        r matches Err(e) ==> e@ == "Invalid sender"@,
{
    if from.unicode_len() == 0 {
        Err(String::from_str("Invalid sender"))
    } else {
        Ok(())
    }
}

} // verus!
