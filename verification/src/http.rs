//! The HTTP side: creating a game room with a fresh join code, joining one, and
//! signing the access tokens that admit players to a room.

use vstd::prelude::*;
use vstd::string::*;
use vstd::hash_set::StringHashSet;
use rand::Rng;
use crate::text::{hex16, hex16_string, push_char};

verus! {

/// The join codes of the rooms that are open.
pub struct RoomRegistry {
    codes: StringHashSet,
}

impl View for RoomRegistry {
    type V = Set<Seq<char>>;

    closed spec fn view(&self) -> Set<Seq<char>> {
        self.codes@
    }
}

impl RoomRegistry {
    /// No room is open.
    pub fn new() -> (r: Self)
        ensures
            r@ == Set::<Seq<char>>::empty(),
    {
        RoomRegistry { codes: StringHashSet::new() }
    }

    /// The room with this code is open.
    pub fn contains(&self, code: &str) -> (r: bool)
        ensures
            r == self@.contains(code@),
    {
        self.codes.contains(code)
    }

    /// Opens the room with this code.
    pub fn insert(&mut self, code: String)
        ensures
            final(self)@ == old(self)@.insert(code@),
    {
        self.codes.insert(code);
    }

    /// Closes the room with this code.
    pub fn remove(&mut self, code: &str)
        ensures
            final(self)@ == old(self)@.remove(code@),
    {
        self.codes.remove(code);
    }
}

/// Body of a request to create a game.
#[derive(Debug, Clone, PartialEq, Eq)]
pub struct CreateGameRequest {
    pub user_id: String,
}

/// Body of a request to join a game.
#[derive(Debug, Clone, PartialEq, Eq)]
pub struct JoinGameRequest {
    pub user_id: String,
    pub code: String,
}

/// An access token.
#[derive(Debug, Clone, PartialEq, Eq)]
pub struct TokenResponse {
    pub token: String,
}

/// The join code of a new room and the creator's access token.
#[derive(Debug, Clone, PartialEq, Eq)]
pub struct CreateGameResponse {
    pub code: String,
    pub token: String,
}

/// Why an HTTP request failed.
#[derive(Debug, Clone, Copy, PartialEq, Eq)]
pub enum HttpError {
    /// No open room has the code.
    NotFound,
    /// A code or token could not be made.
    Internal,
}

/// The characters of join codes: capitals and digits, without the easily
/// confused I, O, 0 and 1.
pub open spec fn code_alphabet() -> Seq<char> {
    "ABCDEFGHJKLMNPQRSTUVWXYZ23456789"@
}

/// A join code: five characters of the code alphabet.
pub open spec fn is_room_code(c: Seq<char>) -> bool {
    c.len() == 5 && forall|i: int| 0 <= i < 5 ==> code_alphabet().contains(#[trigger] c[i])
}

/// A random number below `n`.
/// Trusted: rand's `Rng::gen_range` on the thread-local generator; it panics on
/// an empty range and otherwise returns a number in the range.
#[verifier::external_body]
fn random_index(n: usize) -> (r: usize)
    requires
        n > 0,
    ensures
        r < n,
{
    rand::thread_rng().gen_range(0..n)
}

/// A random 64-bit number.
/// Trusted: rand's `Rng::gen` on the thread-local generator; nothing is stated
/// of the number.
#[verifier::external_body]
fn random_u64() -> u64 {
    rand::thread_rng().gen::<u64>()
}

#[verifier::external_type_specification]
#[verifier::external_body]
pub struct ExSigningError(anyhow::Error);

/// What a token is signed for: the signing secret, the user, the room, the
/// session identifier and how many seconds it stays valid.
#[derive(Debug, Clone, PartialEq, Eq)]
pub struct TokenRequest {
    pub secret: String,
    pub user_id: String,
    pub room_id: String,
    pub session_id: String,
    pub ttl_secs: usize,
}

/// tapaculo's `JwtAuth::sign_access`, asked to sign with `secret` for user
/// `user`, room `room`, session `session` and lifetime `ttl_secs`, returned the
/// token `Some(t)`, or an error (`None`).
pub uninterp spec fn signing_returned(
    secret: Seq<char>,
    user: Seq<char>,
    room: Seq<char>,
    session: Seq<char>,
    ttl_secs: usize,
    outcome: Option<Seq<char>>,
) -> bool;

/// The request to sign a token for the given user, room, session and lifetime.
pub fn token_request(secret: &str, user_id: &str, room_id: &str, session_id: String, ttl_secs: usize) -> (r: TokenRequest)
    ensures
        r.secret@ == secret@,
        r.user_id@ == user_id@,
        r.room_id@ == room_id@,
        r.session_id@ == session_id@,
        r.ttl_secs == ttl_secs,
{
    TokenRequest {
        secret: String::from_str(secret),
        user_id: String::from_str(user_id),
        room_id: String::from_str(room_id),
        session_id,
        ttl_secs,
    }
}

/// Signs the access token a request asks for.
/// Trusted: tapaculo's `JwtAuth::new(secret).sign_access(user, room, session,
/// ttl)`. The token holds the current time, so it is not a function of the
/// request; what is stated is that the outcome (the token, or an error) is one
/// that signing returned for exactly this request (`signing_returned`). When
/// signing fails is not stated.
#[verifier::external_body]
fn sign_access(req: &TokenRequest) -> (r: Result<String, anyhow::Error>)
    ensures
        signing_returned(
            req.secret@,
            req.user_id@,
            req.room_id@,
            req.session_id@,
            req.ttl_secs,
            match r {
                Ok(t) => Some(t@),
                Err(_) => None,
            },
        ),
{
    tapaculo::JwtAuth::new(&req.secret).sign_access(
        req.user_id.clone(),
        req.room_id.clone(),
        req.session_id.clone(),
        req.ttl_secs,
    )
}

/// A token issued for `user` and `room` with some fresh session identifier:
/// 16 lower-case hexadecimal digits.
pub open spec fn issued_with_session(
    secret: Seq<char>,
    user: Seq<char>,
    room: Seq<char>,
    ttl_secs: usize,
    token: Seq<char>,
) -> bool {
    exists|x: u64| #[trigger] signing_returned(secret, user, room, hex16(x), ttl_secs, Some(token))
}

/// Signing a token for `user` and `room` with some fresh session identifier
/// failed.
pub open spec fn failed_with_session(secret: Seq<char>, user: Seq<char>, room: Seq<char>, ttl_secs: usize) -> bool {
    exists|x: u64| #[trigger] signing_returned(secret, user, room, hex16(x), ttl_secs, None)
}

/// The code spelled by five draws from the code alphabet.
pub open spec fn code_of_draws(draws: Seq<usize>) -> Seq<char> {
    Seq::new(5, |i: int| code_alphabet()[draws[i] as int])
}

/// Spells a join code from five positions in the code alphabet.
pub fn code_from_draws(draws: &Vec<usize>) -> (r: String)
    requires
        draws@.len() == 5,
        forall|i: int| 0 <= i < 5 ==> #[trigger] draws@[i] < 32,
    ensures
        r@ == code_of_draws(draws@),
        is_room_code(r@),
{
    let alphabet = "ABCDEFGHJKLMNPQRSTUVWXYZ23456789";
    proof {
        reveal_strlit("ABCDEFGHJKLMNPQRSTUVWXYZ23456789");
    }
    let mut code = String::new();
    let mut j: usize = 0;
    while j < 5
        invariant
            j <= 5,
            draws@.len() == 5,
            forall|i: int| 0 <= i < 5 ==> #[trigger] draws@[i] < 32,
            alphabet@ == code_alphabet(),
            code_alphabet().len() == 32,
            code@ == code_of_draws(draws@).take(j as int),
        decreases 5 - j,
    {
        assert(draws@[j as int] < 32);
        let c = alphabet.get_char(draws[j]);
        push_char(&mut code, c);
        j += 1;
        assert(code@ =~= code_of_draws(draws@).take(j as int));
    }
    assert(code_of_draws(draws@).take(5) =~= code_of_draws(draws@));
    assert forall|i: int| 0 <= i < 5 implies code_alphabet().contains(#[trigger] code@[i]) by {
        assert(code_alphabet()[draws@[i] as int] == code@[i]);
    }
    code
}

/// The alphabet positions spelling the `i`-th join code: its digits in base 32.
pub open spec fn draws_of_index(i: int) -> Seq<usize> {
    let q1 = i / 32;
    let q2 = q1 / 32;
    let q3 = q2 / 32;
    let q4 = q3 / 32;
    seq![(q4 % 32) as usize, (q3 % 32) as usize, (q2 % 32) as usize, (q1 % 32) as usize, (i % 32) as usize]
}

proof fn lemma_base32_step(a: int, b: int)
    requires
        0 <= a,
        0 <= b < 32,
    ensures
        (a * 32 + b) / 32 == a,
        (a * 32 + b) % 32 == b,
{
    assert((a * 32 + b) / 32 == a && (a * 32 + b) % 32 == b) by (nonlinear_arith)
        requires
            0 <= a,
            0 <= b < 32,
    ;
}

/// Every join code is spelled by some index below `32^5`.
proof fn lemma_code_has_index(c: Seq<char>)
    requires
        is_room_code(c),
    ensures
        exists|i: int| 0 <= i < 33554432 && #[trigger] code_of_draws(draws_of_index(i)) == c,
{
    reveal_strlit("ABCDEFGHJKLMNPQRSTUVWXYZ23456789");
    let a = code_alphabet();
    assert(a.len() == 32);
    let d = Seq::new(5, |k: int| (choose|j: int| 0 <= j < 32 && a[j] == c[k]) as usize);
    assert forall|k: int| 0 <= k < 5 implies d[k] < 32 && a[d[k] as int] == c[k] by {
        assert(a.contains(c[k]));
    }
    let x1 = d[0] * 32 + d[1];
    let x2 = x1 * 32 + d[2];
    let x3 = x2 * 32 + d[3];
    let i = x3 * 32 + d[4];
    lemma_base32_step(x3, d[4] as int);
    lemma_base32_step(x2, d[3] as int);
    lemma_base32_step(x1, d[2] as int);
    lemma_base32_step(d[0] as int, d[1] as int);
    assert(draws_of_index(i) =~= d);
    assert(code_of_draws(d) =~= c);
    assert(0 <= i < 33554432);
}

/// Five positions in the code alphabet.
pub open spec fn valid_draws(d: Seq<usize>) -> bool {
    d.len() == 5 && forall|i: int| 0 <= i < 5 ==> #[trigger] d[i] < 32
}

/// Candidate draws as sequences.
pub open spec fn draws_view(v: Seq<Vec<usize>>) -> Seq<Seq<usize>> {
    v.map_values(|d: Vec<usize>| d@)
}

/// The first candidate, in order, whose code is not among the open rooms.
pub open spec fn first_free(existing: Set<Seq<char>>, candidates: Seq<Seq<usize>>) -> Option<Seq<char>>
    decreases candidates.len(),
{
    if candidates.len() == 0 {
        None
    } else if !existing.contains(code_of_draws(candidates[0])) {
        Some(code_of_draws(candidates[0]))
    } else {
        first_free(existing, candidates.drop_first())
    }
}

/// When no candidate so far is free, a new one is the first free exactly when it is free.
proof fn lemma_first_free_push(existing: Set<Seq<char>>, s: Seq<Seq<usize>>, d: Seq<usize>)
    requires
        first_free(existing, s) is None,
    ensures
        first_free(existing, s.push(d)) == (if !existing.contains(code_of_draws(d)) {
            Some(code_of_draws(d))
        } else {
            None
        }),
    decreases s.len(),
{
    if s.len() == 0 {
        assert(s.push(d) =~= seq![d]);
        assert(s.push(d)[0] == d);
        assert(s.push(d).drop_first() =~= Seq::<Seq<usize>>::empty());
        assert(first_free(existing, Seq::<Seq<usize>>::empty()) is None);
    } else {
        assert(s.push(d)[0] == s[0]);
        assert(existing.contains(code_of_draws(s[0])));
        assert(first_free(existing, s.drop_first()) is None);
        assert(s.push(d).drop_first() =~= s.drop_first().push(d));
        lemma_first_free_push(existing, s.drop_first(), d);
    }
}

/// The code of the first drawn candidate, in order, that no open room has.
pub fn first_free_code(existing: &RoomRegistry, candidates: &Vec<Vec<usize>>) -> (r: Option<String>)
    requires
        forall|i: int| 0 <= i < candidates@.len() ==> valid_draws(#[trigger] candidates@[i]@),
    ensures
        crate::messages::opt_string_view(r) == first_free(existing@, draws_view(candidates@)),
{
    let ghost all = draws_view(candidates@);
    assert(all.skip(0) =~= all);
    let mut i: usize = 0;
    while i < candidates.len()
        invariant
            i <= candidates@.len(),
            all == draws_view(candidates@),
            forall|k: int| 0 <= k < candidates@.len() ==> valid_draws(#[trigger] candidates@[k]@),
            first_free(existing@, all) == first_free(existing@, all.skip(i as int)),
        decreases candidates@.len() - i,
    {
        let d = &candidates[i];
        assert(valid_draws(candidates@[i as int]@));
        assert(all.skip(i as int)[0] == d@);
        let code = code_from_draws(d);
        if !existing.contains(code.as_str()) {
            return Some(code);
        }
        assert(all.skip(i as int).drop_first() =~= all.skip(i + 1));
        i += 1;
    }
    assert(all.skip(i as int).len() == 0);
    None
}

/// A fresh join code, not among the open rooms: candidates of five random
/// positions are drawn until one is free, and that first free candidate is the
/// code. After 2^64 - 1 taken draws every code is tried in turn, and `None`
/// means that every join code is taken.
pub fn generate_code(existing: &RoomRegistry) -> (r: Option<String>)
    ensures
        r matches Some(c) ==> !existing@.contains(c@) && is_room_code(c@),
        r matches Some(c) ==> exists|ds: Seq<Seq<usize>>|
            (forall|k: int| 0 <= k < ds.len() ==> valid_draws(#[trigger] ds[k])) && first_free(
                existing@,
                ds,
            ) == Some(c@),
        r is None ==> forall|c: Seq<char>| is_room_code(c) ==> existing@.contains(c),
{
    let mut drawn: Vec<Vec<usize>> = Vec::new();
    let mut attempts: u64 = 0;
    while attempts < u64::MAX
        invariant
            forall|k: int| 0 <= k < drawn@.len() ==> valid_draws(#[trigger] drawn@[k]@),
            first_free(existing@, draws_view(drawn@)) is None,
        decreases u64::MAX - attempts,
    {
        let mut draws: Vec<usize> = Vec::new();
        let mut j: usize = 0;
        while j < 5
            invariant
                j <= 5,
                draws@.len() == j,
                forall|i: int| 0 <= i < j ==> #[trigger] draws@[i] < 32,
            decreases 5 - j,
        {
            draws.push(random_index(32));
            j += 1;
        }
        let ghost before = draws_view(drawn@);
        let ghost d = draws@;
        drawn.push(draws);
        proof {
            assert(draws_view(drawn@) =~= before.push(d));
            lemma_first_free_push(existing@, before, d);
        }
        let found = first_free_code(existing, &drawn);
        if let Some(code) = found {
            proof {
                lemma_first_free_is_free(existing@, draws_view(drawn@));
            }
            return Some(code);
        }
        attempts += 1;
    }
    let mut i: u32 = 0;
    while i < 33554432
        invariant
            i <= 33554432,
            forall|j: int| 0 <= j < i ==> existing@.contains(#[trigger] code_of_draws(draws_of_index(j))),
        decreases 33554432 - i,
    {
        let q1 = i / 32;
        let q2 = q1 / 32;
        let q3 = q2 / 32;
        let q4 = q3 / 32;
        let mut draws: Vec<usize> = Vec::new();
        draws.push((q4 % 32) as usize);
        draws.push((q3 % 32) as usize);
        draws.push((q2 % 32) as usize);
        draws.push((q1 % 32) as usize);
        draws.push((i % 32) as usize);
        assert(draws@ =~= draws_of_index(i as int));
        let mut single: Vec<Vec<usize>> = Vec::new();
        single.push(draws);
        let found = first_free_code(existing, &single);
        if let Some(code) = found {
            proof {
                lemma_first_free_is_free(existing@, draws_view(single@));
            }
            return Some(code);
        }
        assert(draws_view(single@)[0] == draws_of_index(i as int));
        i += 1;
    }
    proof {
        assert forall|c: Seq<char>| is_room_code(c) implies existing@.contains(c) by {
            lemma_code_has_index(c);
        }
    }
    None
}

/// The first free candidate is free and is a join code.
proof fn lemma_first_free_is_free(existing: Set<Seq<char>>, ds: Seq<Seq<usize>>)
    requires
        forall|k: int| 0 <= k < ds.len() ==> valid_draws(#[trigger] ds[k]),
    ensures
        first_free(existing, ds) matches Some(c) ==> !existing.contains(c) && is_room_code(c),
    decreases ds.len(),
{
    if ds.len() > 0 {
        reveal_strlit("ABCDEFGHJKLMNPQRSTUVWXYZ23456789");
        assert(valid_draws(ds[0]));
        let c = code_of_draws(ds[0]);
        assert forall|i: int| 0 <= i < 5 implies code_alphabet().contains(#[trigger] c[i]) by {
            assert(ds[0][i] < 32);
            assert(code_alphabet()[ds[0][i] as int] == c[i]);
        }
        assert forall|k: int| 0 <= k < ds.drop_first().len() implies valid_draws(
            #[trigger] ds.drop_first()[k],
        ) by {
            assert(ds.drop_first()[k] == ds[k + 1]);
        }
        lemma_first_free_is_free(existing, ds.drop_first());
    }
}

/// The session identifier of a token: 16 lower-case hexadecimal digits of a
/// random number.
pub fn new_session_id() -> (r: String)
    ensures
        exists|x: u64| r@ == hex16(x),
{
    hex16_string(random_u64())
}

/// Signs an access token admitting `user_id` to `room_id`, with a fresh session
/// identifier; the token is what the signing call issued for exactly these, and
/// a failure to sign is an internal error.
pub fn sign_token(secret: &str, user_id: &str, room_id: &str, ttl_secs: usize) -> (r: Result<String, HttpError>)
    ensures
        r matches Ok(t) ==> issued_with_session(secret@, user_id@, room_id@, ttl_secs, t@),
        r matches Err(e) ==> e == HttpError::Internal && failed_with_session(
            secret@,
            user_id@,
            room_id@,
            ttl_secs,
        ),
{
    let session_id = new_session_id();
    let ghost x = choose|x: u64| session_id@ == hex16(x);
    let req = token_request(secret, user_id, room_id, session_id, ttl_secs);
    match sign_access(&req) {
        Ok(token) => {
            assert(signing_returned(secret@, user_id@, room_id@, hex16(x), ttl_secs, Some(token@)));
            Ok(token)
        },
        Err(_) => {
            assert(signing_returned(secret@, user_id@, room_id@, hex16(x), ttl_secs, None));
            Err(HttpError::Internal)
        },
    }
}

/// Opens a room under a fresh join code and signs the creator's token for it.
/// The room stays open even when the token cannot be signed. When every join
/// code is taken, nothing is opened and the request fails.
pub fn create_game(rooms: &mut RoomRegistry, jwt_secret: &str, token_ttl_secs: usize, body: CreateGameRequest) -> (r: Result<CreateGameResponse, HttpError>)
    ensures
        (exists|c: Seq<char>| is_room_code(c) && !old(rooms)@.contains(c)) ==> exists|c: Seq<char>|
            {
                &&& is_room_code(c)
                &&& !old(rooms)@.contains(c)
                &&& final(rooms)@ == old(rooms)@.insert(c)
                &&& r matches Ok(resp) ==> resp.code@ == c
            },
        (forall|c: Seq<char>| is_room_code(c) ==> old(rooms)@.contains(c)) ==> (r == Err::<
            CreateGameResponse,
            HttpError,
        >(HttpError::Internal) && final(rooms)@ == old(rooms)@),
        r matches Ok(resp) ==> {
            &&& is_room_code(resp.code@)
            &&& !old(rooms)@.contains(resp.code@)
            &&& final(rooms)@ == old(rooms)@.insert(resp.code@)
            &&& issued_with_session(jwt_secret@, body.user_id@, resp.code@, token_ttl_secs, resp.token@)
        },
        r matches Err(e) ==> e == HttpError::Internal,
        r is Err ==> (final(rooms)@ == old(rooms)@ && forall|c: Seq<char>|
            is_room_code(c) ==> old(rooms)@.contains(c)) || exists|c: Seq<char>|
            {
                &&& is_room_code(c)
                &&& !old(rooms)@.contains(c)
                &&& final(rooms)@ == old(rooms)@.insert(c)
                &&& failed_with_session(jwt_secret@, body.user_id@, c, token_ttl_secs)
            },
{
    let code = match generate_code(rooms) {
        Some(c) => c,
        None => {
            return Err(HttpError::Internal);
        },
    };
    rooms.insert(code.clone());
    match sign_token(jwt_secret, body.user_id.as_str(), code.as_str(), token_ttl_secs) {
        Ok(token) => Ok(CreateGameResponse { code, token }),
        Err(e) => Err(e),
    }
}

/// Signs a token for joining the open room with the given code; `NotFound`
/// exactly when no open room has it. The token is issued for the user and that
/// code; a failure to sign is an internal error.
pub fn join_game(rooms: &RoomRegistry, jwt_secret: &str, token_ttl_secs: usize, body: JoinGameRequest) -> (r: Result<TokenResponse, HttpError>)
    ensures
        (r == Err::<TokenResponse, HttpError>(HttpError::NotFound)) <==> !rooms@.contains(body.code@),
        r matches Err(e) ==> e == HttpError::NotFound || e == HttpError::Internal,
        r == Err::<TokenResponse, HttpError>(HttpError::Internal) ==> failed_with_session(
            jwt_secret@,
            body.user_id@,
            body.code@,
            token_ttl_secs,
        ),
        r matches Ok(resp) ==> issued_with_session(
            jwt_secret@,
            body.user_id@,
            body.code@,
            token_ttl_secs,
            resp.token@,
        ),
{
    if !rooms.contains(body.code.as_str()) {
        return Err(HttpError::NotFound);
    }
    match sign_token(jwt_secret, body.user_id.as_str(), body.code.as_str(), token_ttl_secs) {
        Ok(token) => Ok(TokenResponse { token }),
        Err(e) => Err(e),
    }
}

} // verus!
