//! The messages clients send to the server and the events the server sends back.

use vstd::prelude::*;
use crate::board::grid_view;

verus! {

/// A board as the wire carries it: 9 sub-boards of 9 cells.
pub type Board = Vec<Vec<Option<char>>>;

/// The boards of a game's history as mathematical grids.
pub open spec fn history_view(h: Seq<Vec<Vec<Option<char>>>>) -> Seq<Seq<Seq<Option<char>>>> {
    h.map_values(|b: Vec<Vec<Option<char>>>| grid_view(b@))
}

/// Messages sent from client to server.
#[derive(Debug, Clone, PartialEq, Eq)]
pub enum GameMessage {
    /// Full board after the player's move, and the square index (0–8) played,
    /// which determines the opponent's next required sub-board.
    Move { board: Vec<Vec<Option<char>>>, square: u8 },
    Resign,
    OfferDraw,
    AcceptDraw,
    RequestUndo,
    AcceptUndo,
}

/// A client message, with its board as a mathematical grid.
pub enum MessageView {
    Move { board: Seq<Seq<Option<char>>>, square: u8 },
    Resign,
    OfferDraw,
    AcceptDraw,
    RequestUndo,
    AcceptUndo,
}

impl View for GameMessage {
    type V = MessageView;

    open spec fn view(&self) -> MessageView {
        match self {
            GameMessage::Move { board, square } => MessageView::Move {
                board: grid_view(board@),
                square: *square,
            },
            GameMessage::Resign => MessageView::Resign,
            GameMessage::OfferDraw => MessageView::OfferDraw,
            GameMessage::AcceptDraw => MessageView::AcceptDraw,
            GameMessage::RequestUndo => MessageView::RequestUndo,
            GameMessage::AcceptUndo => MessageView::AcceptUndo,
        }
    }
}

/// Events sent from server to clients.
#[derive(Debug, Clone, PartialEq, Eq)]
pub enum GameEvent {
    GameStart { naughts: String, crosses: String },
    MoveMade {
        by: String,
        square: u8,
        updated_board: Vec<Vec<Option<char>>>,
        squares_winner: Vec<Option<char>>,
        history: Vec<Vec<Vec<Option<char>>>>,
        /// Which sub-board the next player must play in (None = any available)
        next_board: Option<u8>,
    },
    GameOver { winner: Option<String>, reason: String },
    DrawOffered { by: String },
    UndoRequested { by: String },
    /// Sent after an undo is accepted — same board-state fields as MoveMade
    /// so the client can handle both the same way.
    UndoAccepted {
        updated_board: Vec<Vec<Option<char>>>,
        squares_winner: Vec<Option<char>>,
        history: Vec<Vec<Vec<Option<char>>>>,
        next_board: Option<u8>,
    },
    /// Sent to a player who reconnects to a game in progress.
    GameRejoined {
        naughts: String,
        crosses: String,
        updated_board: Vec<Vec<Option<char>>>,
        squares_winner: Vec<Option<char>>,
        history: Vec<Vec<Vec<Option<char>>>>,
        next_board: Option<u8>,
    },
    PlayerJoined { user_id: String },
    PlayerLeft { user_id: String },
    WaitingForOpponent,
    InvalidMove { reason: String },
}

/// An event with its strings and boards as mathematical values.
pub enum EventView {
    GameStart { naughts: Seq<char>, crosses: Seq<char> },
    MoveMade {
        by: Seq<char>,
        square: u8,
        updated_board: Seq<Seq<Option<char>>>,
        squares_winner: Seq<Option<char>>,
        history: Seq<Seq<Seq<Option<char>>>>,
        next_board: Option<u8>,
    },
    GameOver { winner: Option<Seq<char>>, reason: Seq<char> },
    DrawOffered { by: Seq<char> },
    UndoRequested { by: Seq<char> },
    UndoAccepted {
        updated_board: Seq<Seq<Option<char>>>,
        squares_winner: Seq<Option<char>>,
        history: Seq<Seq<Seq<Option<char>>>>,
        next_board: Option<u8>,
    },
    GameRejoined {
        naughts: Seq<char>,
        crosses: Seq<char>,
        updated_board: Seq<Seq<Option<char>>>,
        squares_winner: Seq<Option<char>>,
        history: Seq<Seq<Seq<Option<char>>>>,
        next_board: Option<u8>,
    },
    PlayerJoined { user_id: Seq<char> },
    PlayerLeft { user_id: Seq<char> },
    WaitingForOpponent,
    InvalidMove { reason: Seq<char> },
}

/// An optional string as an optional character sequence.
pub open spec fn opt_string_view(s: Option<String>) -> Option<Seq<char>> {
    match s {
        Some(x) => Some(x@),
        None => None,
    }
}

impl View for GameEvent {
    type V = EventView;

    open spec fn view(&self) -> EventView {
        match self {
            GameEvent::GameStart { naughts, crosses } => EventView::GameStart {
                naughts: naughts@,
                crosses: crosses@,
            },
            GameEvent::MoveMade {
                by,
                square,
                updated_board,
                squares_winner,
                history,
                next_board,
            } => EventView::MoveMade {
                by: by@,
                square: *square,
                updated_board: grid_view(updated_board@),
                squares_winner: squares_winner@,
                history: history_view(history@),
                next_board: *next_board,
            },
            GameEvent::GameOver { winner, reason } => EventView::GameOver {
                winner: opt_string_view(*winner),
                reason: reason@,
            },
            GameEvent::DrawOffered { by } => EventView::DrawOffered { by: by@ },
            GameEvent::UndoRequested { by } => EventView::UndoRequested { by: by@ },
            GameEvent::UndoAccepted { updated_board, squares_winner, history, next_board } =>
                EventView::UndoAccepted {
                updated_board: grid_view(updated_board@),
                squares_winner: squares_winner@,
                history: history_view(history@),
                next_board: *next_board,
            },
            GameEvent::GameRejoined {
                naughts,
                crosses,
                updated_board,
                squares_winner,
                history,
                next_board,
            } => EventView::GameRejoined {
                naughts: naughts@,
                crosses: crosses@,
                updated_board: grid_view(updated_board@),
                squares_winner: squares_winner@,
                history: history_view(history@),
                next_board: *next_board,
            },
            GameEvent::PlayerJoined { user_id } => EventView::PlayerJoined { user_id: user_id@ },
            GameEvent::PlayerLeft { user_id } => EventView::PlayerLeft { user_id: user_id@ },
            GameEvent::WaitingForOpponent => EventView::WaitingForOpponent,
            GameEvent::InvalidMove { reason } => EventView::InvalidMove { reason: reason@ },
        }
    }
}

/// Where the server sends an event.
#[derive(Debug, Clone, PartialEq, Eq)]
pub enum Outgoing {
    /// To one player.
    SendTo(String, GameEvent),
    /// To everyone in the room.
    ToAll(GameEvent),
    /// To everyone in the room but the player the message came from.
    ToOthers(GameEvent),
}

/// An outgoing event as mathematical values.
pub enum OutgoingView {
    SendTo(Seq<char>, EventView),
    ToAll(EventView),
    ToOthers(EventView),
}

impl View for Outgoing {
    type V = OutgoingView;

    open spec fn view(&self) -> OutgoingView {
        match self {
            Outgoing::SendTo(u, e) => OutgoingView::SendTo(u@, e@),
            Outgoing::ToAll(e) => OutgoingView::ToAll(e@),
            Outgoing::ToOthers(e) => OutgoingView::ToOthers(e@),
        }
    }
}

/// The outgoing events of a list, as mathematical values.
pub open spec fn outgoing_view(v: Seq<Outgoing>) -> Seq<OutgoingView> {
    v.map_values(|o: Outgoing| o@)
}

} // verus!
