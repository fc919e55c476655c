use ox_squared_server::game::{check_move, GameState, MoveCheck};
use ox_squared_server::handler::handle_game_message;
use ox_squared_server::messages::{GameEvent, GameMessage, Outgoing};

fn game() -> GameState {
    GameState::new("nina".to_string(), "carl".to_string())
}

fn members() -> Vec<String> {
    vec!["nina".to_string(), "carl".to_string()]
}

fn with_cell(board: &[Vec<Option<char>>], b: usize, c: usize, mark: char) -> Vec<Vec<Option<char>>> {
    let mut nb = board.to_vec();
    nb[b][c] = Some(mark);
    nb
}

fn play(state: GameState, from: &str, board: Vec<Vec<Option<char>>>, square: u8) -> (Option<GameState>, Vec<Outgoing>) {
    let r = handle_game_message(Some(state), members(), from.to_string(), GameMessage::Move { board, square });
    (r.new_state, r.outgoing)
}

fn rejection(state: GameState, from: &str, board: Vec<Vec<Option<char>>>, square: u8) -> String {
    let (s, out) = play(state, from, board, square);
    assert!(s.is_none());
    assert_eq!(out.len(), 1);
    match &out[0] {
        Outgoing::SendTo(to, GameEvent::InvalidMove { reason }) => {
            assert_eq!(to, from);
            reason.clone()
        }
        other => panic!("unexpected {:?}", other),
    }
}

#[test]
fn new_game_is_empty_and_naughts_first() {
    let g = game();
    assert_eq!(g.board, vec![vec![None; 9]; 9]);
    assert_eq!(g.squares_winner, vec![None; 9]);
    assert_eq!(g.current_turn, "nina");
    assert_eq!(g.next_board, None);
    assert!(g.history.is_empty());
    assert!(g.board_history().is_empty());
}

#[test]
fn marks_of_players() {
    let g = game();
    assert_eq!(g.player_mark("carl"), Some('x'));
    assert_eq!(g.player_mark("nina"), Some('o'));
    assert_eq!(g.player_mark("eve"), None);
    let same = GameState::new("sam".to_string(), "sam".to_string());
    assert_eq!(same.player_mark("sam"), Some('x'));
}

#[test]
fn first_move_is_recorded_and_announced() {
    let g = game();
    let nb = with_cell(&g.board, 4, 2, 'o');
    let (s, out) = play(g.clone(), "nina", nb.clone(), 2);
    let s = s.expect("state stored");
    assert_eq!(s.board, nb);
    assert_eq!(s.current_turn, "carl");
    assert_eq!(s.next_board, Some(2));
    assert_eq!(s.history.len(), 1);
    assert_eq!(s.history[0].board, g.board);
    assert_eq!(s.history[0].current_turn, "nina");
    assert_eq!(
        out,
        vec![Outgoing::ToAll(GameEvent::MoveMade {
            by: "nina".to_string(),
            square: 2,
            updated_board: nb,
            squares_winner: vec![None; 9],
            history: vec![vec![vec![None; 9]; 9]],
            next_board: Some(2),
        })]
    );
}

#[test]
fn move_out_of_turn_is_rejected() {
    let g = game();
    let nb = with_cell(&g.board, 0, 0, 'x');
    assert_eq!(rejection(g, "carl", nb, 0), "Not your turn");
}

#[test]
fn stranger_to_move_is_ignored() {
    let mut g = game();
    g.current_turn = "eve".to_string();
    let nb = with_cell(&g.board, 0, 0, 'o');
    let (s, out) = play(g, "eve", nb, 0);
    assert!(s.is_none());
    assert!(out.is_empty());
}

#[test]
fn bad_dimensions_are_rejected() {
    let g = game();
    let mut nb = g.board.clone();
    nb.pop();
    assert_eq!(rejection(g.clone(), "nina", nb, 0), "Invalid board dimensions");
    let mut nb2 = g.board.clone();
    nb2[3].push(None);
    assert_eq!(rejection(g, "nina", nb2, 0), "Invalid board dimensions");
}

#[test]
fn overwriting_and_wrong_marks_are_rejected() {
    let g = game();
    let nb = with_cell(&g.board, 4, 4, 'o');
    let (s, _) = play(g, "nina", nb.clone(), 4);
    let s = s.unwrap();
    // carl overwrites nina's cell
    let over = with_cell(&nb, 4, 4, 'x');
    assert_eq!(rejection(s.clone(), "carl", over, 4), "Cell already occupied");
    // carl writes an 'o'
    let wrong = with_cell(&nb, 4, 0, 'o');
    assert_eq!(rejection(s.clone(), "carl", wrong, 0), "Wrong mark for this player");
    // the first offending cell decides: a wrong mark before an overwrite
    let mut both = with_cell(&nb, 0, 0, 'o');
    both[4][4] = Some('x');
    assert_eq!(rejection(s, "carl", both, 0), "Wrong mark for this player");
}

#[test]
fn exactly_one_change_is_required() {
    let g = game();
    assert_eq!(rejection(g.clone(), "nina", g.board.clone(), 0), "Expected exactly 1 change, got 0");
    let mut two = with_cell(&g.board, 0, 0, 'o');
    two[1][1] = Some('o');
    assert_eq!(rejection(g, "nina", two, 0), "Expected exactly 1 change, got 2");
}

#[test]
fn required_sub_board_and_claimed_square() {
    let g = game();
    let nb = with_cell(&g.board, 0, 5, 'o');
    let (s, _) = play(g, "nina", nb.clone(), 5);
    let s = s.unwrap();
    assert_eq!(s.next_board, Some(5));
    let elsewhere = with_cell(&nb, 3, 0, 'x');
    assert_eq!(rejection(s.clone(), "carl", elsewhere, 0), "Must play in sub-board 5");
    let misclaimed = with_cell(&nb, 5, 1, 'x');
    assert_eq!(
        rejection(s, "carl", misclaimed, 2),
        "Claimed square does not match the cell that changed"
    );
}

#[test]
fn winning_a_sub_board_and_sending_to_a_done_one() {
    let mut g = game();
    // sub-board 0 has two 'o' in row 0; sub-board 2 is already won by 'x'
    g.board[0][0] = Some('o');
    g.board[0][1] = Some('o');
    g.board[2] = vec![Some('x'), Some('x'), Some('x'), None, None, None, None, None, None];
    g.squares_winner[2] = Some('x');
    let nb = with_cell(&g.board, 0, 2, 'o');
    let (s, _) = play(g, "nina", nb, 2);
    let s = s.unwrap();
    assert_eq!(s.squares_winner[0], Some('o'));
    assert_eq!(s.squares_winner[2], Some('x'));
    // sub-board 2 is done, so the opponent may play anywhere
    assert_eq!(s.next_board, None);
}

#[test]
fn a_won_sub_board_keeps_its_winner() {
    let mut g = game();
    g.board[1] = vec![Some('x'), Some('x'), Some('x'), None, None, None, None, None, None];
    g.squares_winner[1] = Some('x');
    g.board[1][3] = Some('o');
    g.board[1][4] = Some('o');
    let nb = with_cell(&g.board, 1, 5, 'o');
    let (s, _) = play(g, "nina", nb, 5);
    assert_eq!(s.unwrap().squares_winner[1], Some('x'));
}

#[test]
fn winning_the_game() {
    let mut g = game();
    g.squares_winner = vec![Some('x'), Some('x'), None, None, None, None, None, None, None];
    g.current_turn = "carl".to_string();
    g.board[2][0] = Some('x');
    g.board[2][1] = Some('x');
    let nb = with_cell(&g.board, 2, 2, 'x');
    let (s, out) = play(g, "carl", nb, 2);
    let s = s.unwrap();
    assert_eq!(s.squares_winner[2], Some('x'));
    assert_eq!(out.len(), 2);
    assert_eq!(
        out[1],
        Outgoing::ToAll(GameEvent::GameOver {
            winner: Some("carl".to_string()),
            reason: "carl wins".to_string(),
        })
    );
}

#[test]
fn full_board_is_a_draw() {
    let mut g = game();
    let pattern = vec![Some('x'), Some('o'), Some('x'), Some('x'), Some('o'), Some('o'), Some('o'), Some('x'), Some('x')];
    g.board = vec![pattern.clone(); 9];
    g.board[8][8] = None;
    g.current_turn = "carl".to_string();
    let nb = with_cell(&g.board, 8, 8, 'x');
    let (s, out) = play(g, "carl", nb, 8);
    let s = s.unwrap();
    assert_eq!(s.next_board, None);
    assert_eq!(
        out.last().unwrap(),
        &Outgoing::ToAll(GameEvent::GameOver { winner: None, reason: "Draw — board is full".to_string() })
    );
}

#[test]
fn undo_restores_the_previous_position() {
    let g = game();
    let nb = with_cell(&g.board, 6, 3, 'o');
    let (s, _) = play(g.clone(), "nina", nb, 3);
    let s = s.unwrap();
    let r = handle_game_message(Some(s), members(), "carl".to_string(), GameMessage::AcceptUndo);
    let back = r.new_state.unwrap();
    assert_eq!(back.board, g.board);
    assert_eq!(back.squares_winner, g.squares_winner);
    assert_eq!(back.current_turn, g.current_turn);
    assert_eq!(back.next_board, g.next_board);
    assert!(back.history.is_empty());
    assert_eq!(
        r.outgoing,
        vec![Outgoing::ToAll(GameEvent::UndoAccepted {
            updated_board: g.board.clone(),
            squares_winner: g.squares_winner.clone(),
            history: vec![],
            next_board: None,
        })]
    );
}

#[test]
fn nothing_to_undo() {
    let r = handle_game_message(Some(game()), members(), "carl".to_string(), GameMessage::AcceptUndo);
    assert!(r.new_state.is_none());
    assert_eq!(
        r.outgoing,
        vec![Outgoing::SendTo("carl".to_string(), GameEvent::InvalidMove { reason: "No moves to undo".to_string() })]
    );
    let none = handle_game_message(None, members(), "carl".to_string(), GameMessage::AcceptUndo);
    assert!(none.new_state.is_none() && none.outgoing.is_empty());
}

#[test]
fn move_without_a_game_is_ignored() {
    let r = handle_game_message(None, members(), "nina".to_string(), GameMessage::Move { board: vec![], square: 0 });
    assert!(r.new_state.is_none() && r.outgoing.is_empty());
}

#[test]
fn resign_draw_and_undo_requests() {
    let r = handle_game_message(None, members(), "nina".to_string(), GameMessage::Resign);
    assert_eq!(
        r.outgoing,
        vec![Outgoing::ToAll(GameEvent::GameOver { winner: Some("carl".to_string()), reason: "nina resigned".to_string() })]
    );
    let alone = handle_game_message(None, vec!["nina".to_string()], "nina".to_string(), GameMessage::Resign);
    assert_eq!(
        alone.outgoing,
        vec![Outgoing::ToAll(GameEvent::GameOver { winner: None, reason: "nina resigned".to_string() })]
    );
    let offer = handle_game_message(None, members(), "carl".to_string(), GameMessage::OfferDraw);
    assert_eq!(offer.outgoing, vec![Outgoing::ToOthers(GameEvent::DrawOffered { by: "carl".to_string() })]);
    let accept = handle_game_message(None, members(), "nina".to_string(), GameMessage::AcceptDraw);
    assert_eq!(
        accept.outgoing,
        vec![Outgoing::ToAll(GameEvent::GameOver { winner: None, reason: "Draw by agreement".to_string() })]
    );
    let ask = handle_game_message(None, members(), "nina".to_string(), GameMessage::RequestUndo);
    assert_eq!(ask.outgoing, vec![Outgoing::ToOthers(GameEvent::UndoRequested { by: "nina".to_string() })]);
    assert!(ask.new_state.is_none());
}

#[test]
fn check_move_verdicts() {
    let g = game();
    let nb = with_cell(&g.board, 7, 1, 'o');
    assert_eq!(check_move(&g, &"nina".to_string(), &nb, 1), MoveCheck::Valid { board: 7, cell: 1 });
    assert_eq!(check_move(&g, &"carl".to_string(), &nb, 1), MoveCheck::NotYourTurn);
    assert_eq!(check_move(&g, &"nina".to_string(), &g.board, 1), MoveCheck::ChangeCount(0));
}
