//! Server-side rules of Ultimate Tic-Tac-Toe ("ox squared"): the board
//! arithmetic, the authoritative game state and the decisions the server takes
//! on every client message, room event and HTTP request.

pub mod board;
pub mod messages;
pub mod text;
pub mod game;
pub mod handler;
pub mod laws;
pub mod rooms;
pub mod config;
pub mod cors;
pub mod http;
