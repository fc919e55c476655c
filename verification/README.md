# ox_squared_server

The rules of an Ultimate Tic-Tac-Toe game server, verified with Verus.

- `src/board.rs` — sub-board winners, finished sub-boards, a full board.
- `src/game.rs` — the game state, checking a submitted board, playing and undoing a move.
- `src/handler.rs` — the server's answer to each client message: the state to store and the events to send.
- `src/rooms.rs` — room events: joining, leaving, a room filling up (starting or resuming a game).
- `src/messages.rs` — client messages and server events.
- `src/http.rs` — join codes, access tokens, creating and joining games.
- `src/config.rs`, `src/cors.rs` — settings from environment variables and the allowed origins.
- `src/text.rs` — decimal and hexadecimal numerals.
- `src/laws.rs` — properties spanning several operations (an undo reverts a move, only the player to move changes the state, …).
- `app/` — the server itself: it reads the environment, runs the HTTP routes and the room server, and carries out the library's replies.
