use ox_squared_server::game::GameState;
use ox_squared_server::messages::{GameEvent, Outgoing};
use ox_squared_server::rooms::{on_player_joined, on_player_left, on_room_full, start_game};

#[test]
fn full_room_starts_a_game_with_both_members() {
    let members = vec!["ann".to_string(), "bob".to_string()];
    let r = on_room_full(None, members, "bob");
    let s = r.new_state.expect("game started");
    let mut pair = vec![s.naughts.clone(), s.crosses.clone()];
    pair.sort();
    assert_eq!(pair, vec!["ann".to_string(), "bob".to_string()]);
    assert_eq!(s.current_turn, s.naughts);
    assert_eq!(
        r.outgoing,
        vec![Outgoing::ToAll(GameEvent::GameStart { naughts: s.naughts.clone(), crosses: s.crosses.clone() })]
    );
}

#[test]
fn start_game_in_given_order() {
    let r = start_game(vec!["ann".to_string(), "bob".to_string()]);
    let s = r.new_state.unwrap();
    assert_eq!(s.naughts, "ann");
    assert_eq!(s.crosses, "bob");
}

#[test]
fn other_member_counts_do_nothing() {
    let r = on_room_full(None, vec!["ann".to_string()], "ann");
    assert!(r.new_state.is_none() && r.outgoing.is_empty());
    let r3 = on_room_full(None, vec!["a".to_string(), "b".to_string(), "c".to_string()], "a");
    assert!(r3.new_state.is_none() && r3.outgoing.is_empty());
}

#[test]
fn reconnecting_player_gets_the_position() {
    let g = GameState::new("ann".to_string(), "bob".to_string());
    let r = on_room_full(Some(g.clone()), vec!["ann".to_string(), "bob".to_string()], "bob");
    assert!(r.new_state.is_none());
    assert_eq!(
        r.outgoing,
        vec![Outgoing::SendTo(
            "bob".to_string(),
            GameEvent::GameRejoined {
                naughts: "ann".to_string(),
                crosses: "bob".to_string(),
                updated_board: g.board.clone(),
                squares_winner: g.squares_winner.clone(),
                history: vec![],
                next_board: None,
            }
        )]
    );
}

#[test]
fn joining_and_leaving() {
    let alone = on_player_joined("ann", Some(1));
    assert_eq!(
        alone.outgoing,
        vec![
            Outgoing::ToOthers(GameEvent::PlayerJoined { user_id: "ann".to_string() }),
            Outgoing::SendTo("ann".to_string(), GameEvent::WaitingForOpponent),
        ]
    );
    let second = on_player_joined("bob", Some(2));
    assert_eq!(second.outgoing, vec![Outgoing::ToOthers(GameEvent::PlayerJoined { user_id: "bob".to_string() })]);
    let unknown = on_player_joined("bob", None);
    assert_eq!(unknown.outgoing.len(), 1);
    let left = on_player_left("bob");
    assert_eq!(left.outgoing, vec![Outgoing::ToOthers(GameEvent::PlayerLeft { user_id: "bob".to_string() })]);
}
