use ox_squared_server::http::{
    code_from_draws, create_game, first_free_code, token_request, generate_code, join_game, sign_token, CreateGameRequest, HttpError, JoinGameRequest, RoomRegistry,
};

const ALPHABET: &str = "ABCDEFGHJKLMNPQRSTUVWXYZ23456789";

#[test]
fn codes_are_fresh_and_well_formed() {
    let mut rooms = RoomRegistry::new();
    for _ in 0..50 {
        let code = generate_code(&rooms).unwrap();
        assert_eq!(code.chars().count(), 5);
        assert!(code.chars().all(|c| ALPHABET.contains(c)));
        assert!(!rooms.contains(&code));
        rooms.insert(code);
    }
}

#[test]
fn create_then_join() {
    let mut rooms = RoomRegistry::new();
    let created = create_game(&mut rooms, "secret", 60, CreateGameRequest { user_id: "ann".to_string() }).unwrap();
    assert!(rooms.contains(&created.code));
    assert!(!created.token.is_empty());
    let joined = join_game(
        &rooms,
        "secret",
        60,
        JoinGameRequest { user_id: "bob".to_string(), code: created.code.clone() },
    )
    .unwrap();
    assert_eq!(joined.token.split('.').count(), 3);
    let missing = join_game(&rooms, "secret", 60, JoinGameRequest { user_id: "bob".to_string(), code: "ZZZZZ".to_string() });
    if created.code != "ZZZZZ" {
        assert_eq!(missing, Err(HttpError::NotFound));
    }
    rooms.remove(&created.code);
    assert!(!rooms.contains(&created.code));
}

#[test]
fn tokens_are_jwts() {
    let t = sign_token("secret", "ann", "ROOM1", 3600).unwrap();
    assert_eq!(t.split('.').count(), 3);
}

#[test]
fn codes_spelled_from_draws() {
    assert_eq!(code_from_draws(&vec![0, 8, 13, 24, 31]), "AJP29");
    assert_eq!(code_from_draws(&vec![7, 7, 7, 7, 7]), "HHHHH");
}

#[test]
fn tokens_name_the_user_and_room() {
    let t = sign_token("secret", "ann", "ROOM1", 3600).unwrap();
    let claims = tapaculo::JwtAuth::new("secret").verify_access(&t).unwrap();
    assert_eq!(claims.sub, "ann");
    assert_eq!(claims.room, "ROOM1");
    assert_eq!(claims.session_id.len(), 16);
    assert!(claims.session_id.chars().all(|c| c.is_ascii_hexdigit() && !c.is_ascii_uppercase()));
}

#[test]
fn created_and_joined_tokens_are_for_their_rooms() {
    let mut rooms = RoomRegistry::new();
    let created = create_game(&mut rooms, "k", 60, CreateGameRequest { user_id: "ann".to_string() }).unwrap();
    let auth = tapaculo::JwtAuth::new("k");
    let c1 = auth.verify_access(&created.token).unwrap();
    assert_eq!((c1.sub.as_str(), c1.room.as_str()), ("ann", created.code.as_str()));
    let joined = join_game(&rooms, "k", 60, JoinGameRequest { user_id: "bob".to_string(), code: created.code.clone() })
        .unwrap();
    let c2 = auth.verify_access(&joined.token).unwrap();
    assert_eq!((c2.sub.as_str(), c2.room.as_str()), ("bob", created.code.as_str()));
}

#[test]
fn token_requests_carry_their_fields() {
    let r = token_request("s", "ann", "ROOM1", "00000000000000ff".to_string(), 30);
    assert_eq!(r.secret, "s");
    assert_eq!(r.user_id, "ann");
    assert_eq!(r.room_id, "ROOM1");
    assert_eq!(r.session_id, "00000000000000ff");
    assert_eq!(r.ttl_secs, 30);
}

#[test]
fn first_free_candidate_is_chosen() {
    let mut rooms = RoomRegistry::new();
    rooms.insert("AAAAA".to_string());
    let cands = vec![vec![0; 5], vec![1; 5], vec![2; 5]];
    assert_eq!(first_free_code(&rooms, &cands), Some("BBBBB".to_string()));
    rooms.insert("BBBBB".to_string());
    rooms.insert("CCCCC".to_string());
    assert_eq!(first_free_code(&rooms, &cands), None);
    assert_eq!(first_free_code(&rooms, &vec![]), None);
}
