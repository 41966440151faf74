use crate::broadcast::Subscription;
use crate::game::{
    after_join, chat_refusal, default_name, initial_state, next_player, FromBrowser, Game,
    GameError, Player, State as GameState, StateView,
};
use crate::board::{is_team, CELLS};
use rand::distributions::Alphanumeric;
use rand::Rng;
use std::sync::Arc;
use vstd::prelude::*;
use vstd::rwlock::{RwLock, RwLockPredicate};

verus! {

// The registry and every game sit behind vstd's verified reader-writer lock,
// whose predicate is the invariant of what it guards. A game's lock is never
// taken while the registry's is held.

/// The lock predicate of a game: the game is well formed and carries the
/// token it is registered under.
pub ghost struct GameInvariant {
    pub token: Seq<char>,
}

impl RwLockPredicate<Game> for GameInvariant {
    open spec fn inv(self, g: Game) -> bool {
        g.wf() && g.id@ == self.token
    }
}

/// A game shared between the registry and the connections of its players.
pub type SharedGame = Arc<RwLock<Game, GameInvariant>>;

/// The token a shared game is registered under.
pub open spec fn token_of(g: SharedGame) -> Seq<char> {
    g.pred().token
}

/// One row of the registry: a token and its game.
pub struct GameEntry {
    pub token: String,
    pub game: SharedGame,
}

/// No token appears twice in `entries`.
pub open spec fn tokens_unique(entries: Seq<GameEntry>) -> bool {
    forall|i: int, j: int|
        0 <= i < entries.len() && 0 <= j < entries.len() && i != j ==> #[trigger] entries[i].token@
            != #[trigger] entries[j].token@
}

/// The invariant of the registry's rows: tokens are unique, and each game
/// carries the token of its row.
pub open spec fn table_wf(entries: Seq<GameEntry>) -> bool {
    &&& tokens_unique(entries)
    &&& forall|i: int| 0 <= i < entries.len() ==> token_of(#[trigger] entries[i].game) == entries[i].token@
}

/// Some row of `entries` has token `token`.
pub open spec fn has_token(entries: Seq<GameEntry>, token: Seq<char>) -> bool {
    exists|i: int| 0 <= i < entries.len() && #[trigger] entries[i].token@ == token
}

/// Some row of `entries` has token `token` and game `game`.
pub open spec fn has_entry(entries: Seq<GameEntry>, token: Seq<char>, game: SharedGame) -> bool {
    exists|i: int| 0 <= i < entries.len() && #[trigger] entries[i].token@ == token && entries[i].game == game
}

/// `after` is `before` with one more row, holding `token` and `game`, at the end.
pub open spec fn entered(before: Seq<GameEntry>, after: Seq<GameEntry>, token: Seq<char>, game: SharedGame) -> bool {
    &&& after.len() == before.len() + 1
    &&& after.subrange(0, before.len() as int) == before
    &&& after.last().token@ == token
    &&& after.last().game == game
}

/// The lock predicate of the registry: its rows are well formed.
pub struct TableInvariant {}

impl RwLockPredicate<Vec<GameEntry>> for TableInvariant {
    open spec fn inv(self, entries: Vec<GameEntry>) -> bool {
        table_wf(entries@)
    }
}

/// The length of a minted token.
pub const TOKEN_CHARS: usize = 7;

/// How often a token is minted before the registry gives up on finding a free one.
pub const MINT_ATTEMPTS: usize = 8;

/// A character of `[A-Za-z0-9]`.
pub open spec fn is_ascii_alphanumeric(c: char) -> bool {
    ||| ('0' as u32) <= (c as u32) <= ('9' as u32)
    ||| ('A' as u32) <= (c as u32) <= ('Z' as u32)
    ||| ('a' as u32) <= (c as u32) <= ('z' as u32)
}

/// Relies on rand's `Alphanumeric` distribution, drawn from the thread-local
/// generator: each character is drawn from `[A-Za-z0-9]`.
#[verifier::external_body]
fn alphanumeric_string(len: usize) -> (r: String)
    ensures
        r@.len() == len,
        forall|i: int| 0 <= i < r@.len() ==> #[trigger] is_ascii_alphanumeric(r@[i]),
{
    rand::thread_rng().sample_iter(&Alphanumeric).take(len).map(char::from).collect()
}

/// Relies on Arc::clone: a second handle to the same game.
#[verifier::external_body]
fn share(g: &SharedGame) -> (r: SharedGame)
    ensures
        r == *g,
{
    Arc::clone(g)
}

/// A token as the registry mints it: seven characters of `[A-Za-z0-9]`.
pub open spec fn is_minted_token(t: Seq<char>) -> bool {
    &&& t.len() == TOKEN_CHARS
    &&& forall|i: int| 0 <= i < t.len() ==> #[trigger] is_ascii_alphanumeric(t[i])
}

/// A fresh random token.
pub fn random_token() -> (r: String)
    ensures
        r@.len() == TOKEN_CHARS,
        forall|i: int| 0 <= i < r@.len() ==> #[trigger] is_ascii_alphanumeric(r@[i]),
{
    alphanumeric_string(TOKEN_CHARS)
}

/// The row of `entries` with token `token`, if any.
pub fn find_game(entries: &Vec<GameEntry>, token: &String) -> (r: Option<usize>)
    ensures
        match r {
            Some(i) => i < entries@.len() && entries@[i as int].token@ == token@,
            None => !has_token(entries@, token@),
        },
{
    let mut i: usize = 0;
    while i < entries.len()
        invariant
            i <= entries@.len(),
            forall|j: int| 0 <= j < i ==> entries@[j].token@ != token@,
        decreases entries@.len() - i,
    {
        if entries[i].token == *token {
            return Some(i);
        }
        i += 1;
    }
    None
}

/// Removes the row with token `token`, if there is one.
pub fn remove_game(entries: &mut Vec<GameEntry>, token: &String)
    requires
        table_wf(old(entries)@),
    ensures
        table_wf(final(entries)@),
        !has_token(final(entries)@, token@),
        forall|i: int| 0 <= i < old(entries)@.len() && old(entries)@[i].token@ != token@
            ==> final(entries)@.contains(#[trigger] old(entries)@[i]),
        forall|i: int| 0 <= i < final(entries)@.len() ==> old(entries)@.contains(#[trigger] final(entries)@[i]),
{
    match find_game(entries, token) {
        Some(i) => {
            let ghost before = entries@;
            entries.remove(i);
            assert forall|k: int| 0 <= k < before.len() && before[k].token@ != token@
                implies entries@.contains(#[trigger] before[k]) by {
                if k < i {
                    assert(entries@[k] == before[k]);
                } else {
                    assert(entries@[k - 1] == before[k]);
                }
            }
            assert forall|k: int| 0 <= k < entries@.len() implies before.contains(#[trigger] entries@[k]) by {
                if k < i {
                    assert(before[k] == entries@[k]);
                } else {
                    assert(before[k + 1] == entries@[k]);
                }
            }
            assert forall|k: int| 0 <= k < entries@.len() implies token_of(#[trigger] entries@[k].game)
                == entries@[k].token@ by {
                if k < i {
                    assert(entries@[k] == before[k]);
                } else {
                    assert(entries@[k] == before[k + 1]);
                }
            }
            assert forall|k: int| 0 <= k < entries@.len() implies #[trigger] entries@[k].token@ != token@ by {
                if k < i {
                    assert(before[k].token@ != before[i as int].token@);
                } else {
                    assert(before[k + 1].token@ != before[i as int].token@);
                }
            }
        },
        None => {},
    }
}

/// A fresh token that no row of `entries` holds, if one is found within a
/// few draws.
fn mint_token(entries: &Vec<GameEntry>) -> (r: Option<String>)
    ensures
        r matches Some(t) ==> !has_token(entries@, t@) && is_minted_token(t@),
{
    let mut attempt: usize = 0;
    while attempt < MINT_ATTEMPTS
        invariant
            attempt <= MINT_ATTEMPTS,
        decreases MINT_ATTEMPTS - attempt,
    {
        let t = random_token();
        if find_game(entries, &t).is_none() {
            return Some(t);
        }
        attempt += 1;
    }
    None
}

/// The name a player joins under: the one asked for, or the default name.
pub open spec fn joining_name(o: Option<String>) -> Seq<char> {
    match o {
        Some(n) => n@,
        None => default_name(),
    }
}

/// The refusals a move can meet.
pub open spec fn is_move_refusal(e: GameError) -> bool {
    ||| e == GameError::NotEnoughPlayers
    ||| e == GameError::GameOver
    ||| e == GameError::UnknownPlayer
    ||| e == GameError::NotYourTurn
    ||| e == GameError::OutOfRange
    ||| e == GameError::CellOccupied
}

/// One player's seat in one game: the handle to the game, the seated player,
/// and a subscription to the game's published states.
pub struct Connection {
    pub game_id: String,
    pub game: SharedGame,
    pub player: Player,
    pub is_new_game: bool,
    pub game_state: Subscription,
}

impl Connection {
    /// Applies a request of this player to the game under its lock, and
    /// publishes the new state when the request changed it.
    pub fn dispatch(&self, msg: FromBrowser) -> (r: Result<bool, GameError>)
        ensures
            match msg {
                FromBrowser::ChatMsg { text } => match chat_refusal(text@) {
                    Some(e) => r == Err::<bool, GameError>(e),
                    None => r == Ok::<bool, GameError>(true),
                },
                FromBrowser::ChangeName { new_name } => r == Ok::<bool, GameError>(true) || r
                    == Err::<bool, GameError>(GameError::UnknownPlayer),
                FromBrowser::Move { space } => match r {
                    Ok(changed) => changed && space < CELLS,
                    Err(e) => is_move_refusal(e),
                },
                FromBrowser::Rematch => r == Ok::<bool, GameError>(true),
            },
    {
        let (mut g, handle) = self.game.acquire_write();
        let r = g.handle_msg(self.player.id, msg);
        if let Ok(true) = r {
            g.broadcast_state();
        }
        handle.release_write(g);
        r
    }

    /// Takes this player out of the game under its lock with `Game::leave`,
    /// which publishes the new state. It consumes the connection, so it runs at
    /// most once; the owner of the connection runs it when the connection ends,
    /// however it ends.
    pub fn close(self) {
        let (mut g, handle) = self.game.acquire_write();
        g.leave(self.player.id);
        handle.release_write(g);
    }
}

/// The state of a game just opened and joined by a first player named `name`.
pub open spec fn fresh_join_state(name: Seq<char>) -> StateView {
    after_join(initial_state(), next_player(initial_state(), name))
}

/// `c` seats the first player, named `name`, of a game just opened under
/// `token`, and its subscription was made at that game's state.
pub open spec fn is_fresh_seat(c: Connection, token: Seq<char>, name: Seq<char>) -> bool {
    &&& c.is_new_game
    &&& c.game_id@ == token
    &&& token_of(c.game) == token
    &&& c.player@ == next_player(initial_state(), name)
    &&& c.game_state.seen() == fresh_join_state(name)
}

/// What looking a token up in the registry gives.
pub enum Resolved {
    /// The game registered under the token, still to be joined.
    Open(SharedGame),
    /// A game opened for this request, already joined and entered.
    Created(Connection),
}

/// Opens a game under `token`, seats `name` as its first player, publishes
/// that state, and enters the game in `entries`.
/// A fresh game always admits its first player, so this never fails.
fn open_game(entries: &mut Vec<GameEntry>, token: String, name: &String) -> (r: Result<Resolved, GameError>)
    requires
        table_wf(old(entries)@),
        !has_token(old(entries)@, token@),
    ensures
        table_wf(final(entries)@),
        r matches Ok(Resolved::Created(c)) && is_fresh_seat(c, token@, name@)
            && entered(old(entries)@, final(entries)@, token@, c.game),
{
    let (mut g, _first) = Game::new(token.clone());
    let joined = g.join(name.clone());
    let (player, game_state) = match joined {
        Ok(seat) => seat,
        Err(e) => {
            assert(false);
            return Err(e);
        },
    };
    let game = Arc::new(RwLock::new(g, Ghost(GameInvariant { token: token@ })));
    let ghost before = entries@;
    entries.push(GameEntry { token: token.clone(), game: share(&game) });
    assert(entries@.subrange(0, before.len() as int) =~= before);
    assert(table_wf(entries@)) by {
        assert forall|a: int, b: int|
            0 <= a < entries@.len() && 0 <= b < entries@.len() && a != b implies #[trigger] entries@[a].token@
            != #[trigger] entries@[b].token@ by {
            if a == before.len() {
                assert(before[b].token@ != token@);
            } else if b == before.len() {
                assert(before[a].token@ != token@);
            }
        }
        assert forall|k: int| 0 <= k < entries@.len() implies token_of(#[trigger] entries@[k].game)
            == entries@[k].token@ by {
            if k < before.len() {
                assert(entries@[k] == before[k]);
            }
        }
    }
    Ok(Resolved::Created(Connection { game_id: token, game, player, is_new_game: true, game_state }))
}

/// The registry's decision for a request with `token`, made on its rows: a
/// token that names a game gives that game and leaves the rows as they were; a
/// token that names none opens a game under it; no token opens a game under a
/// freshly minted one, unless no free token was found, which leaves the rows
/// as they were.
pub fn resolve_in_table(entries: &mut Vec<GameEntry>, token: Option<String>, name: &String) -> (r: Result<Resolved, GameError>)
    requires
        table_wf(old(entries)@),
    ensures
        table_wf(final(entries)@),
        match token {
            Some(t) => if has_token(old(entries)@, t@) {
                &&& final(entries)@ == old(entries)@
                &&& r matches Ok(Resolved::Open(g)) && has_entry(old(entries)@, t@, g) && token_of(g) == t@
            } else {
                &&& r matches Ok(Resolved::Created(c)) && is_fresh_seat(c, t@, name@)
                    && entered(old(entries)@, final(entries)@, t@, c.game)
            },
            None => match r {
                Ok(Resolved::Created(c)) => {
                    &&& is_minted_token(c.game_id@)
                    &&& !has_token(old(entries)@, c.game_id@)
                    &&& is_fresh_seat(c, c.game_id@, name@)
                    &&& entered(old(entries)@, final(entries)@, c.game_id@, c.game)
                },
                Ok(Resolved::Open(_)) => false,
                Err(e) => e == GameError::TokenUnavailable && final(entries)@ == old(entries)@,
            },
        },
{
    match token {
        Some(t) => match find_game(entries, &t) {
            Some(i) => Ok(Resolved::Open(share(&entries[i].game))),
            None => open_game(entries, t, name),
        },
        None => match mint_token(entries) {
            Some(t) => open_game(entries, t, name),
            None => Err(GameError::TokenUnavailable),
        },
    }
}

/// Seats a player named `name` in the open game `game`, under its lock.
fn join_game(game: SharedGame, name: String) -> (r: Result<Connection, GameError>)
    ensures
        match r {
            Ok(c) => {
                &&& c.player@.name == name@
                &&& c.player@.wins == 0
                &&& is_team(c.player.team)
                &&& !c.is_new_game
                &&& c.game == game
                &&& c.game_id@ == token_of(game)
                &&& c.game_state.seen().players.last() == c.player@
            },
            Err(e) => e == GameError::MatchFull || e == GameError::IdsExhausted,
        },
{
    let (mut g, handle) = game.acquire_write();
    match g.join(name) {
        Ok((player, game_state)) => {
            let game_id = g.id.clone();
            handle.release_write(g);
            Ok(Connection { game_id, game, player, is_new_game: false, game_state })
        },
        Err(e) => {
            handle.release_write(g);
            Err(e)
        },
    }
}

/// Seats a player named `player_name` (the default name if none) in the game
/// with token `token`. The registry's lock is held only for
/// `resolve_in_table`; a game found there is then joined under its own lock
/// with `Game::join`, whose refusal (a full game) is passed on.
pub fn join_or_new_game(
    state: Arc<State>,
    token: Option<String>,
    player_name: Option<String>,
) -> (r: Result<Connection, GameError>)
    ensures
        match r {
            Ok(c) => {
                &&& c.player@.name == joining_name(player_name)
                &&& c.player@.wins == 0
                &&& is_team(c.player.team)
                &&& c.game_id@ == token_of(c.game)
                &&& token matches Some(t) ==> c.game_id@ == t@
                &&& token is None ==> c.is_new_game && is_minted_token(c.game_id@)
                &&& c.is_new_game ==> is_fresh_seat(c, c.game_id@, joining_name(player_name))
                &&& !c.is_new_game ==> c.game_state.seen().players.last() == c.player@
            },
            Err(e) => {
                &&& token is None ==> e == GameError::TokenUnavailable
                &&& token is Some ==> e == GameError::MatchFull || e == GameError::IdsExhausted
            },
        },
{
    let name = match player_name {
        Some(n) => n,
        None => String::from_str("Unnamed Player"),
    };
    let (mut entries, table) = state.games.acquire_write();
    let resolved = resolve_in_table(&mut entries, token, &name);
    table.release_write(entries);
    match resolved {
        Ok(Resolved::Open(game)) => join_game(game, name),
        Ok(Resolved::Created(c)) => Ok(c),
        Err(e) => Err(e),
    }
}

/// Removes the row with token `token` once `latest`, the state its game
/// published last, shows no player; says whether it did.
pub fn retire_in_table(entries: &mut Vec<GameEntry>, token: &String, latest: &GameState) -> (r: bool)
    requires
        table_wf(old(entries)@),
    ensures
        table_wf(final(entries)@),
        r == (latest@.players.len() == 0),
        r ==> !has_token(final(entries)@, token@),
        r ==> forall|i: int| 0 <= i < old(entries)@.len() && old(entries)@[i].token@ != token@
            ==> final(entries)@.contains(#[trigger] old(entries)@[i]),
        r ==> forall|i: int| 0 <= i < final(entries)@.len() ==> old(entries)@.contains(#[trigger] final(entries)@[i]),
        !r ==> final(entries)@ == old(entries)@,
{
    if latest.has_no_players() {
        remove_game(entries, token);
        true
    } else {
        false
    }
}

/// The registry: every open game by its token.
pub struct State {
    pub frontend_url: String,
    pub games: RwLock<Vec<GameEntry>, TableInvariant>,
}

impl State {
    /// An empty registry.
    pub fn new(frontend_url: String) -> (r: State)
        ensures
            r.frontend_url == frontend_url,
    {
        State { frontend_url, games: RwLock::new(Vec::new(), Ghost(TableInvariant {})) }
    }

    /// Removes the game with token `id`; removing one that is gone already does nothing.
    pub fn delete_game(&self, id: &String) {
        let (mut entries, handle) = self.games.acquire_write();
        remove_game(&mut entries, id);
        handle.release_write(entries);
    }

    /// One step of the watcher of the game with token `token`: given the
    /// state published last, removes the game with `retire_in_table` once no
    /// player is seated, and says whether it did so, which ends the watch.
    pub fn retire_if_empty(&self, token: &String, latest: &GameState) -> (r: bool)
        ensures
            r == (latest@.players.len() == 0),
    {
        let (mut entries, handle) = self.games.acquire_write();
        let r = retire_in_table(&mut entries, token, latest);
        handle.release_write(entries);
        r
    }

    /// The number of open games.
    pub fn game_count(&self) -> usize {
        let handle = self.games.acquire_read();
        let n = handle.borrow().len();
        handle.release_read();
        n
    }
}

} // verus!
