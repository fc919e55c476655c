//! What the server does on room lifecycle events: players joining and leaving,
//! and a room filling up, which starts a game or resumes one.

use vstd::prelude::*;
use vstd::string::*;
use rand::seq::SliceRandom;
use crate::game::{board_history_view, initial_view, GameState, GameView};
use crate::handler::{quiet, send_only, Reply, ReplyView};
use crate::messages::{EventView, GameEvent, Outgoing, OutgoingView};

verus! {

/// Puts the players in a random order.
/// Trusted: rand's `SliceRandom::shuffle` with the thread-local generator. Its
/// source swaps elements (Fisher–Yates), so the same players come back, each as
/// often as before, in an order that is left open.
#[verifier::external_body]
fn shuffle_players(players: &mut Vec<String>)
    ensures
        final(players)@.to_multiset() == old(players)@.to_multiset(),
{
    players.shuffle(&mut rand::thread_rng());
}

/// Two orderings of the same two items are equal or swapped.
proof fn lemma_two_permuted(s: Seq<String>, t: Seq<String>)
    requires
        s.len() == 2,
        s.to_multiset() == t.to_multiset(),
    ensures
        t.len() == 2,
        (t[0] == s[0] && t[1] == s[1]) || (t[0] == s[1] && t[1] == s[0]),
{
    broadcast use vstd::seq_lib::group_to_multiset_ensures;

    assert(t.len() == t.to_multiset().len());
    assert(t.contains(t[0]));
    assert(s.to_multiset().count(t[0]) > 0);
    assert(s.contains(t[0]));
    assert(s.remove(0).to_multiset() == s.to_multiset().remove(s[0]));
    assert(s.remove(1).to_multiset() == s.to_multiset().remove(s[1]));
    assert(t.remove(0).to_multiset() == t.to_multiset().remove(t[0]));
    if t[0] == s[0] {
        assert(s.remove(0).to_multiset() == t.remove(0).to_multiset());
        assert(t.remove(0) =~= seq![t[1]]);
        assert(t.remove(0)[0] == t[1]);
        assert(t.remove(0).contains(t[1]));
        assert(s.remove(0).to_multiset().count(t[1]) > 0);
        assert(s.remove(0).contains(t[1]));
        assert(s.remove(0) =~= seq![s[1]]);
    } else {
        assert(t[0] == s[1]);
        assert(s.remove(1).to_multiset() == t.remove(0).to_multiset());
        assert(t.remove(0) =~= seq![t[1]]);
        assert(t.remove(0)[0] == t[1]);
        assert(t.remove(0).contains(t[1]));
        assert(s.remove(1).to_multiset().count(t[1]) > 0);
        assert(s.remove(1).contains(t[1]));
        assert(s.remove(1) =~= seq![s[0]]);
    }
}

/// The event that brings a reconnecting player up to date.
pub open spec fn rejoin_view(s: GameView) -> EventView {
    EventView::GameRejoined {
        naughts: s.naughts,
        crosses: s.crosses,
        updated_board: s.board,
        squares_winner: s.squares_winner,
        history: board_history_view(s),
        next_board: s.next_board,
    }
}

/// The start of a game between `naughts` (who moves first) and `crosses`:
/// a fresh state stored and the pairing announced to all.
pub open spec fn start_reply(naughts: Seq<char>, crosses: Seq<char>) -> ReplyView {
    ReplyView {
        new_state: Some(initial_view(naughts, crosses)),
        outgoing: seq![OutgoingView::ToAll(EventView::GameStart { naughts, crosses })],
    }
}

/// The event that brings a reconnecting player up to date.
pub fn rejoin_event(s: &GameState) -> (e: GameEvent)
    ensures
        e@ == rejoin_view(s@),
{
    GameEvent::GameRejoined {
        naughts: s.naughts.clone(),
        crosses: s.crosses.clone(),
        updated_board: crate::game::copy_board(&s.board),
        squares_winner: crate::game::copy_cells(&s.squares_winner),
        history: s.board_history(),
        next_board: s.next_board,
    }
}

/// Starts a game: the first player plays naughts and moves first, the second
/// plays crosses.
pub fn start_game(players: Vec<String>) -> (r: Reply)
    requires
        players@.len() == 2,
    ensures
        r@ == start_reply(players@[0]@, players@[1]@),
        r.new_state matches Some(s) ==> s@.wf(),
{
    let naughts = players[0].clone();
    let crosses = players[1].clone();
    let state = GameState::new(naughts.clone(), crosses.clone());
    let mut outgoing: Vec<Outgoing> = Vec::new();
    outgoing.push(Outgoing::ToAll(GameEvent::GameStart { naughts, crosses }));
    let r = Reply { new_state: Some(state), outgoing };
    assert(r@.outgoing =~= start_reply(players@[0]@, players@[1]@).outgoing);
    r
}

/// A room has filled up. A game already stored there is being resumed: the
/// player `user_id` who came back is sent the position. Otherwise, with exactly
/// two members, a game starts with the members in random order; with any other
/// number nothing happens.
pub fn on_room_full(existing: Option<GameState>, members: Vec<String>, user_id: &str) -> (r: Reply)
    ensures
        existing matches Some(s) ==> r@ == send_only(
            seq![OutgoingView::SendTo(user_id@, rejoin_view(s@))],
        ),
        existing is None && members@.len() == 2 ==> {
            let m0 = members@[0]@;
            let m1 = members@[1]@;
            r@ == start_reply(m0, m1) || r@ == start_reply(m1, m0)
        },
        existing is None && members@.len() != 2 ==> r@ == quiet(),
        r.new_state matches Some(s) ==> s@.wf(),
{
    if let Some(s) = existing {
        let e = rejoin_event(&s);
        let mut outgoing: Vec<Outgoing> = Vec::new();
        outgoing.push(Outgoing::SendTo(String::from_str(user_id), e));
        let r = Reply { new_state: None, outgoing };
        assert(r@.outgoing =~= seq![OutgoingView::SendTo(user_id@, rejoin_view(s@))]);
        return r;
    }
    if members.len() != 2 {
        let r = Reply { new_state: None, outgoing: Vec::new() };
        assert(r@.outgoing =~= Seq::<OutgoingView>::empty());
        return r;
    }
    let ghost before = members@;
    let mut players = members;
    shuffle_players(&mut players);
    proof {
        lemma_two_permuted(before, players@);
    }
    start_game(players)
}

/// A player joined: the others are told; a player alone in the room is told to
/// wait for an opponent.
pub fn on_player_joined(user_id: &str, member_count: Option<usize>) -> (r: Reply)
    ensures
        r@ == send_only(
            if member_count == Some(1usize) {
                seq![
                    OutgoingView::ToOthers(EventView::PlayerJoined { user_id: user_id@ }),
                    OutgoingView::SendTo(user_id@, EventView::WaitingForOpponent),
                ]
            } else {
                seq![OutgoingView::ToOthers(EventView::PlayerJoined { user_id: user_id@ })]
            },
        ),
{
    let mut outgoing: Vec<Outgoing> = Vec::new();
    outgoing.push(Outgoing::ToOthers(GameEvent::PlayerJoined { user_id: String::from_str(user_id) }));
    if member_count == Some(1usize) {
        outgoing.push(Outgoing::SendTo(String::from_str(user_id), GameEvent::WaitingForOpponent));
    }
    let r = Reply { new_state: None, outgoing };
    assert(r@.outgoing =~= (if member_count == Some(1usize) {
        seq![
            OutgoingView::ToOthers(EventView::PlayerJoined { user_id: user_id@ }),
            OutgoingView::SendTo(user_id@, EventView::WaitingForOpponent),
        ]
    } else {
        seq![OutgoingView::ToOthers(EventView::PlayerJoined { user_id: user_id@ })]
    }));
    r
}

/// A player left: the others are told.
pub fn on_player_left(user_id: &str) -> (r: Reply)
    ensures
        r@ == send_only(seq![OutgoingView::ToOthers(EventView::PlayerLeft { user_id: user_id@ })]),
{
    let mut outgoing: Vec<Outgoing> = Vec::new();
    outgoing.push(Outgoing::ToOthers(GameEvent::PlayerLeft { user_id: String::from_str(user_id) }));
    let r = Reply { new_state: None, outgoing };
    assert(r@.outgoing =~= seq![OutgoingView::ToOthers(EventView::PlayerLeft { user_id: user_id@ })]);
    r
}

} // verus!
