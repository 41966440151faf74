use std::sync::Arc;
use tictactoe::game::{FromBrowser, GameError};
use tictactoe::params::{keep_trimmed_field, NewGameParams};
use tictactoe::server::{join_or_new_game, random_token, resolve_in_table, retire_in_table, Resolved, State};

#[test]
fn first_join_opens_a_game_under_the_given_token() {
    let state = Arc::new(State::new("http://front/".to_string()));
    let a = join_or_new_game(state.clone(), Some("room".to_string()), Some("A".to_string())).unwrap();
    assert!(a.is_new_game);
    assert_eq!(a.game_id, "room");
    assert_eq!((a.player.id, a.player.team), (0, 'X'));
    let b = join_or_new_game(state.clone(), Some("room".to_string()), None).unwrap();
    assert!(!b.is_new_game);
    assert_eq!((b.player.id, b.player.team), (1, 'O'));
    assert_eq!(b.player.name, "Unnamed Player");
    assert_eq!(state.game_count(), 1);
    let c = join_or_new_game(state.clone(), Some("room".to_string()), Some("C".to_string()));
    assert_eq!(c.err().unwrap(), GameError::MatchFull);
}

#[test]
fn join_without_token_mints_one() {
    let state = Arc::new(State::new("u".to_string()));
    let a = join_or_new_game(state.clone(), None, Some("A".to_string())).unwrap();
    assert!(a.is_new_game);
    assert_eq!(a.game_id.chars().count(), 7);
    assert!(a.game_id.chars().all(|c| c.is_ascii_alphanumeric()));
    let b = join_or_new_game(state.clone(), Some(a.game_id.clone()), Some("B".to_string())).unwrap();
    assert!(!b.is_new_game);
    assert_eq!(b.game_id, a.game_id);
}

#[test]
fn random_tokens_are_alphanumeric() {
    let t = random_token();
    assert_eq!(t.len(), 7);
    assert!(t.chars().all(|c| c.is_ascii_alphanumeric()));
}

#[test]
fn emptied_game_is_removed_and_token_opens_a_fresh_one() {
    let state = Arc::new(State::new("u".to_string()));
    let a = join_or_new_game(state.clone(), Some("t1".to_string()), Some("A".to_string())).unwrap();
    let b = join_or_new_game(state.clone(), Some("t1".to_string()), Some("B".to_string())).unwrap();
    assert_eq!(a.dispatch(FromBrowser::Move { space: 4 }), Ok(true));
    let watch = a.game_state.receiver.clone();
    a.close();
    assert_eq!(watch.borrow().players.len(), 1);
    assert!(!state.retire_if_empty(&"t1".to_string(), &watch.borrow()));
    assert_eq!(state.game_count(), 1);
    b.close();
    assert_eq!(watch.borrow().players.len(), 0);
    assert!(state.retire_if_empty(&"t1".to_string(), &watch.borrow()));
    assert_eq!(state.game_count(), 0);
    let c = join_or_new_game(state.clone(), Some("t1".to_string()), Some("C".to_string())).unwrap();
    assert!(c.is_new_game);
    assert_eq!((c.player.id, c.player.team), (0, 'X'));
    let fresh = c.game_state.receiver.borrow();
    assert!(fresh.board.iter().all(|&x| x == ' '));
    assert_eq!(fresh.chat.len(), 1);
}

#[test]
fn dispatch_publishes_changes_and_reports_refusals() {
    let state = Arc::new(State::new("u".to_string()));
    let mut a = join_or_new_game(state.clone(), Some("d".to_string()), Some("A".to_string())).unwrap();
    let b = join_or_new_game(state.clone(), Some("d".to_string()), Some("B".to_string())).unwrap();
    assert_eq!(a.dispatch(FromBrowser::Move { space: 0 }), Ok(true));
    assert_eq!(b.dispatch(FromBrowser::Move { space: 0 }), Err(GameError::CellOccupied));
    assert_eq!(b.dispatch(FromBrowser::Move { space: 12 }), Err(GameError::OutOfRange));
    assert_eq!(a.dispatch(FromBrowser::ChatMsg { text: " ".to_string() }), Err(GameError::EmptyMessage));
    assert_eq!(b.dispatch(FromBrowser::ChatMsg { text: "gg".to_string() }), Ok(true));
    let latest = a.game_state.receiver.borrow_and_update().clone();
    assert_eq!(latest.board[0], 'X');
    assert_eq!(latest.chat.last().unwrap().text, "gg");
    assert_eq!(latest.turn, 'O');
}

#[test]
fn delete_game_is_idempotent() {
    let state = Arc::new(State::new("u".to_string()));
    let _a = join_or_new_game(state.clone(), Some("x".to_string()), None).unwrap();
    state.delete_game(&"x".to_string());
    assert_eq!(state.game_count(), 0);
    state.delete_game(&"x".to_string());
    assert_eq!(state.game_count(), 0);
}

#[test]
fn params_are_trimmed_and_blank_fields_dropped() {
    let p = NewGameParams { token: Some("  abc ".to_string()), name: Some("   ".to_string()) };
    let n = p.normalized();
    assert_eq!(n.token.as_deref(), Some("abc"));
    assert_eq!(n.name, None);
    assert!(n.is_valid());
}

#[test]
fn long_tokens_are_invalid() {
    let ok = NewGameParams { token: Some("t".repeat(32)), name: None };
    assert!(ok.is_valid());
    let long = NewGameParams { token: Some("t".repeat(33)), name: None };
    assert!(!long.is_valid());
    let none = NewGameParams { token: None, name: Some("n".to_string()) };
    assert!(none.is_valid());
}

#[test]
fn table_resolution_decides_per_token() {
    let mut entries = Vec::new();
    let name = "A".to_string();
    let made = resolve_in_table(&mut entries, Some("k".to_string()), &name).unwrap();
    let c = match made {
        Resolved::Created(c) => c,
        Resolved::Open(_) => panic!("a new token opens a game"),
    };
    assert_eq!(c.game_id, "k");
    assert_eq!((c.player.id, c.player.team), (0, 'X'));
    assert_eq!(c.game_state.receiver.borrow().chat.len(), 1);
    assert_eq!(entries.len(), 1);
    match resolve_in_table(&mut entries, Some("k".to_string()), &name).unwrap() {
        Resolved::Open(g) => assert!(Arc::ptr_eq(&g, &c.game)),
        Resolved::Created(_) => panic!("a known token names its game"),
    }
    assert_eq!(entries.len(), 1);
    match resolve_in_table(&mut entries, None, &name).unwrap() {
        Resolved::Created(m) => {
            assert_eq!(m.game_id.chars().count(), 7);
            assert_ne!(m.game_id, "k");
        }
        Resolved::Open(_) => panic!("no token opens a game"),
    }
    assert_eq!(entries.len(), 2);
}

#[test]
fn retiring_needs_an_empty_roster() {
    let mut entries = Vec::new();
    let _c = resolve_in_table(&mut entries, Some("r".to_string()), &"A".to_string()).unwrap();
    let (mut g, _sub) = tictactoe::game::Game::new("r".to_string());
    g.join("P".to_string()).unwrap();
    assert!(!retire_in_table(&mut entries, &"r".to_string(), &g.state));
    assert_eq!(entries.len(), 1);
    g.leave(0);
    assert!(retire_in_table(&mut entries, &"r".to_string(), &g.state));
    assert!(entries.is_empty());
}

#[test]
fn trimmed_fields_are_kept_unless_empty() {
    assert_eq!(keep_trimmed_field(""), None);
    assert_eq!(keep_trimmed_field("tok").as_deref(), Some("tok"));
}
