use tictactoe::game::{check_trimmed_chat, name_of_trimmed, ChatMessageSource, EndState, FromBrowser, Game, GameError, Player};

fn new_game() -> Game {
    let (game, _rx) = Game::new("tok".to_string());
    game
}

fn two_player_game() -> (Game, Player, Player) {
    let mut game = new_game();
    let a = game.add_player("A".to_string()).unwrap();
    let b = game.add_player("B".to_string()).unwrap();
    (game, a, b)
}

fn chat_texts(game: &Game) -> Vec<String> {
    game.state.chat.iter().map(|m| m.text.clone()).collect()
}

#[test]
fn first_two_joins_get_ids_and_teams() {
    let (game, a, b) = two_player_game();
    assert_eq!((a.id, a.team, a.wins), (0, 'X', 0));
    assert_eq!((b.id, b.team, b.wins), (1, 'O', 0));
    assert_eq!(game.state.players.len(), 2);
    assert_eq!(chat_texts(&game), vec!["A (X) has joined the game", "B (O) has joined the game"]);
    assert!(matches!(game.state.chat[0].source, ChatMessageSource::System));
}

#[test]
fn third_join_is_refused_as_full() {
    let (mut game, _a, _b) = two_player_game();
    let chat_before = game.state.chat.len();
    assert_eq!(game.add_player("C".to_string()).unwrap_err(), GameError::MatchFull);
    assert_eq!(game.add_player("D".to_string()).unwrap_err(), GameError::MatchFull);
    assert_eq!(game.state.players.len(), 2);
    assert_eq!(game.state.chat.len(), chat_before);
}

#[test]
fn scripted_game_ends_in_win_for_o() {
    let (mut game, a, b) = two_player_game();
    game.take_turn(a.id, 4).unwrap();
    assert_eq!(game.state.board[4], 'X');
    assert_eq!(game.state.turn, 'O');
    game.take_turn(b.id, 0).unwrap();
    assert_eq!(game.state.board[0], 'O');
    assert_eq!(game.state.turn, 'X');
    let x_moves = [1, 2, 8];
    let o_moves = [7, 6, 3];
    for k in 0..3 {
        game.take_turn(a.id, x_moves[k]).unwrap();
        assert!(game.state.winner.is_none());
        game.take_turn(b.id, o_moves[k]).unwrap();
    }
    assert_eq!(game.state.winner, Some(EndState::Win('O')));
    assert_eq!(game.check_for_win(), Some('O'));
    assert_eq!(game.state.players[1].wins, 1);
    assert_eq!(game.state.players[0].wins, 0);
    assert_eq!(chat_texts(&game).last().unwrap(), "B (O) wins!");
}

#[test]
fn full_board_without_line_is_a_draw() {
    let (mut game, a, b) = two_player_game();
    let moves = [(a.id, 0), (b.id, 1), (a.id, 2), (b.id, 4), (a.id, 3), (b.id, 5), (a.id, 7), (b.id, 6), (a.id, 8)];
    for (id, space) in moves {
        assert!(game.state.winner.is_none());
        game.take_turn(id, space).unwrap();
    }
    assert_eq!(game.state.winner, Some(EndState::Draw));
    assert_eq!(game.check_for_win(), None);
    assert!(game.check_for_draw());
    assert_eq!(chat_texts(&game).last().unwrap(), "It's a draw!");
    assert_eq!(game.state.players[0].wins, 0);
    assert_eq!(game.state.players[1].wins, 0);
}

#[test]
fn move_is_logged_with_column_and_row() {
    let (mut game, a, b) = two_player_game();
    game.take_turn(a.id, 4).unwrap();
    game.take_turn(b.id, 5).unwrap();
    let texts = chat_texts(&game);
    assert_eq!(texts[2], "Played X at (2, 2).");
    assert_eq!(texts[3], "Played O at (3, 2).");
    assert!(matches!(game.state.chat[2].source, ChatMessageSource::Player(0)));
}

#[test]
fn turn_passes_to_the_other_team_after_each_move() {
    let (mut game, a, b) = two_player_game();
    game.take_turn(a.id, 0).unwrap();
    assert_eq!(game.state.turn, 'O');
    game.take_turn(b.id, 3).unwrap();
    assert_eq!(game.state.turn, 'X');
    game.take_turn(a.id, 1).unwrap();
    game.take_turn(b.id, 4).unwrap();
    game.take_turn(a.id, 2).unwrap();
    assert_eq!(game.state.winner, Some(EndState::Win('X')));
    assert_eq!(game.state.turn, 'O');
    assert_eq!(game.take_turn(b.id, 5).unwrap_err(), GameError::GameOver);
    assert_eq!(game.state.turn, 'O');
}

#[test]
fn move_refusals_leave_the_game_unchanged() {
    let mut game = new_game();
    let a = game.add_player("A".to_string()).unwrap();
    assert_eq!(game.take_turn(a.id, 0).unwrap_err(), GameError::NotEnoughPlayers);
    let b = game.add_player("B".to_string()).unwrap();
    assert_eq!(game.take_turn(b.id, 0).unwrap_err(), GameError::NotYourTurn);
    assert_eq!(game.take_turn(7, 0).unwrap_err(), GameError::UnknownPlayer);
    assert_eq!(game.take_turn(a.id, 9).unwrap_err(), GameError::OutOfRange);
    game.take_turn(a.id, 0).unwrap();
    assert_eq!(game.take_turn(b.id, 0).unwrap_err(), GameError::CellOccupied);
    assert_eq!(game.state.board[0], 'X');
    assert_eq!(game.state.turn, 'O');
    assert_eq!(game.state.chat.len(), 3);
}

#[test]
fn chat_is_trimmed_and_bounded() {
    let (mut game, a, _b) = two_player_game();
    game.post_chat(a.id, "  hello  ").unwrap();
    assert_eq!(chat_texts(&game).last().unwrap(), "hello");
    assert_eq!(game.post_chat(a.id, "   \t ").unwrap_err(), GameError::EmptyMessage);
    let long = format!("  {}  ", "a".repeat(501));
    assert_eq!(game.post_chat(a.id, &long).unwrap_err(), GameError::MessageTooLong);
    let limit = format!(" {} ", "b".repeat(500));
    game.post_chat(a.id, &limit).unwrap();
    assert_eq!(chat_texts(&game).last().unwrap().chars().count(), 500);
}

#[test]
fn chat_limit_counts_characters() {
    let (mut game, a, _b) = two_player_game();
    let wide = "é".repeat(500);
    game.post_chat(a.id, &wide).unwrap();
    let wider = "é".repeat(501);
    assert_eq!(game.post_chat(a.id, &wider).unwrap_err(), GameError::MessageTooLong);
}

#[test]
fn rename_sanitizes_and_quotes_the_request() {
    let (mut game, a, _b) = two_player_game();
    game.rename_player(a.id, "  Bob  ").unwrap();
    assert_eq!(game.state.players[0].name, "Bob");
    assert_eq!(chat_texts(&game).last().unwrap(), "Now my name is \"  Bob  \"!");
    game.rename_player(a.id, "   ").unwrap();
    assert_eq!(game.state.players[0].name, "Unnamed Player");
    let long = "n".repeat(40);
    game.rename_player(a.id, &long).unwrap();
    assert_eq!(game.state.players[0].name, "n".repeat(32));
    let chat_before = game.state.chat.len();
    assert_eq!(game.rename_player(9, "Zed").unwrap_err(), GameError::UnknownPlayer);
    assert_eq!(game.state.chat.len(), chat_before);
}

#[test]
fn rematch_swaps_teams_and_two_rematches_restore_them() {
    let (mut game, a, b) = two_player_game();
    game.take_turn(a.id, 0).unwrap();
    game.rematch(b.id);
    assert_eq!(game.state.players[0].team, 'O');
    assert_eq!(game.state.players[1].team, 'X');
    assert_eq!(game.state.turn, 'X');
    assert!(game.state.board.iter().all(|&c| c == ' '));
    let texts = chat_texts(&game);
    assert_eq!(texts[texts.len() - 2], "Rematch!");
    assert_eq!(texts[texts.len() - 1], "Players have swapped sides.");
    assert_eq!(game.take_turn(b.id, 4), Ok(()));
    game.rematch(a.id);
    assert_eq!(game.state.players[0].team, 'X');
    assert_eq!(game.state.players[1].team, 'O');
    assert!(game.state.board.iter().all(|&c| c == ' '));
    assert!(game.state.winner.is_none());
}

#[test]
fn chat_ids_are_dense_across_kinds_of_entries() {
    let (mut game, a, b) = two_player_game();
    game.post_chat(a.id, "hi").unwrap();
    game.take_turn(a.id, 4).unwrap();
    game.rename_player(b.id, "Bea").unwrap();
    game.rematch(b.id);
    game.remove_player(a.id);
    for (i, m) in game.state.chat.iter().enumerate() {
        assert_eq!(m.id, i);
    }
    assert_eq!(game.state.chat.len(), 8);
}

#[test]
fn leaving_player_is_removed_and_announced() {
    let (mut game, a, b) = two_player_game();
    game.remove_player(a.id);
    assert_eq!(game.state.players.len(), 1);
    assert_eq!(game.state.players[0].id, b.id);
    assert_eq!(chat_texts(&game).last().unwrap(), "A has left the game");
    let chat_before = game.state.chat.len();
    game.remove_player(a.id);
    assert_eq!(game.state.chat.len(), chat_before);
    let c = game.add_player("C".to_string()).unwrap();
    assert_eq!((c.id, c.team), (2, 'X'));
    game.remove_player(b.id);
    game.remove_player(c.id);
    assert!(game.state.has_no_players());
}

#[test]
fn handle_msg_routes_each_request() {
    let (mut game, a, b) = two_player_game();
    assert_eq!(game.handle_msg(a.id, FromBrowser::ChatMsg { text: " yo ".to_string() }), Ok(true));
    assert_eq!(game.handle_msg(a.id, FromBrowser::ChatMsg { text: "".to_string() }), Err(GameError::EmptyMessage));
    assert_eq!(game.handle_msg(a.id, FromBrowser::Move { space: 4 }), Ok(true));
    assert_eq!(game.handle_msg(a.id, FromBrowser::Move { space: 5 }), Err(GameError::NotYourTurn));
    assert_eq!(game.handle_msg(b.id, FromBrowser::ChangeName { new_name: "Bo".to_string() }), Ok(true));
    assert_eq!(game.handle_msg(b.id, FromBrowser::Rematch), Ok(true));
    assert_eq!(game.state.players[1].name, "Bo");
    assert_eq!(game.state.players[1].team, 'X');
}

#[test]
fn published_state_reaches_subscribers() {
    let (mut game, first) = Game::new("pub".to_string());
    let mut rx = first.receiver;
    assert_eq!(rx.borrow().players.len(), 0);
    let late = game.subscribe().receiver;
    game.add_player("A".to_string()).unwrap();
    game.broadcast_state();
    assert!(rx.has_changed().unwrap());
    assert_eq!(rx.borrow_and_update().players.len(), 1);
    assert_eq!(late.borrow().players[0].name, "A");
    let later = game.subscribe().receiver;
    assert_eq!(later.borrow().chat.len(), 1);
}

#[test]
fn player_label_shows_name_and_team() {
    let (game, _a, b) = two_player_game();
    assert_eq!(game.state.players[1].label(), "B (O)");
    assert_eq!(b.label(), "B (O)");
}

#[test]
fn lookups_by_id_and_team() {
    let (game, a, b) = two_player_game();
    assert_eq!(game.get_player_index(a.id), Some(0));
    assert_eq!(game.get_player_index(b.id), Some(1));
    assert_eq!(game.get_player_index(5), None);
    assert_eq!(game.get_player_index_by_team('O'), Some(1));
    assert_eq!(game.get_player_index_by_team('Z'), None);
}

#[test]
fn snapshot_copies_the_state() {
    let (mut game, a, _b) = two_player_game();
    game.take_turn(a.id, 8).unwrap();
    let snap = game.state.snapshot();
    assert_eq!(snap.board, game.state.board);
    assert_eq!(snap.chat.len(), game.state.chat.len());
    assert_eq!(snap.players[0].name, "A");
    assert_eq!(snap.turn, 'O');
}

#[test]
fn player_handle_writes_into_the_roster() {
    let (mut game, _a, b) = two_player_game();
    {
        let p = game.get_player_mut(b.id).unwrap();
        assert_eq!(p.name, "B");
        p.wins = 3;
    }
    assert_eq!(game.state.players[1].wins, 3);
    assert_eq!(game.state.players[0].wins, 0);
    assert!(game.get_player_mut(42).is_none());
}

#[test]
fn refusals_have_readable_texts() {
    assert_eq!(GameError::MatchFull.message(), "Game is full");
    assert_eq!(GameError::NotEnoughPlayers.message(), "Not enough players");
    assert_eq!(GameError::GameOver.message(), "Game is over");
    assert_eq!(GameError::UnknownPlayer.message(), "Invalid player ID");
    assert_eq!(GameError::NotYourTurn.message(), "Not your turn");
    assert_eq!(GameError::OutOfRange.message(), "Invalid move");
    assert_eq!(GameError::CellOccupied.message(), "Invalid move");
    assert_eq!(GameError::EmptyMessage.message(), "Empty message");
    assert_eq!(GameError::MessageTooLong.message(), "Message too long");
    assert_eq!(GameError::InvalidParameter.message(), "Invalid parameters");
}

#[test]
fn win_counter_grows_over_rematches() {
    let (mut game, a, b) = two_player_game();
    for space in [0, 3, 1, 4, 2] {
        let id = if game.state.turn == game.state.players[0].team { a.id } else { b.id };
        game.take_turn(id, space).unwrap();
    }
    assert_eq!(game.state.players[0].wins, 1);
    game.rematch(a.id);
    assert_eq!(game.state.players[1].team, 'X');
    for space in [0, 3, 1, 4, 2] {
        let id = if game.state.turn == game.state.players[0].team { a.id } else { b.id };
        game.take_turn(id, space).unwrap();
    }
    assert_eq!(game.state.winner, Some(EndState::Win('X')));
    assert_eq!(game.state.players[1].wins, 1);
    assert_eq!(chat_texts(&game).last().unwrap(), "B (X) wins!");
}

#[test]
fn winner_appears_only_with_a_complete_line() {
    let (mut game, a, b) = two_player_game();
    let script = [(a.id, 6), (b.id, 0), (a.id, 4), (b.id, 1), (a.id, 8), (b.id, 5)];
    for (id, space) in script {
        game.take_turn(id, space).unwrap();
        assert_eq!(game.check_for_win(), None);
        assert!(game.state.winner.is_none());
    }
    game.take_turn(a.id, 2).unwrap();
    assert_eq!(game.check_for_win(), Some('X'));
    assert_eq!(game.state.winner, Some(EndState::Win('X')));
    assert_eq!([game.state.board[2], game.state.board[4], game.state.board[6]], ['X', 'X', 'X']);
}

#[test]
fn join_publishes_and_subscribes_at_the_new_state() {
    let (mut game, first) = Game::new("j".to_string());
    let (a, sub) = game.join("A".to_string()).unwrap();
    assert_eq!((a.id, a.team), (0, 'X'));
    assert_eq!(sub.receiver.borrow().players.len(), 1);
    assert_eq!(first.receiver.borrow().players[0].name, "A");
    game.join("B".to_string()).unwrap();
    assert_eq!(game.join("C".to_string()).err().unwrap(), GameError::MatchFull);
    assert_eq!(first.receiver.borrow().players.len(), 2);
    game.leave(a.id);
    assert_eq!(first.receiver.borrow().players.len(), 1);
    assert_eq!(first.receiver.borrow().chat.last().unwrap().text, "A has left the game");
}

#[test]
fn trimmed_text_rules() {
    assert_eq!(check_trimmed_chat(""), Some(GameError::EmptyMessage));
    assert_eq!(check_trimmed_chat(&"x".repeat(500)), None);
    assert_eq!(check_trimmed_chat(&"x".repeat(501)), Some(GameError::MessageTooLong));
    assert_eq!(name_of_trimmed(""), "Unnamed Player");
    assert_eq!(name_of_trimmed("Al"), "Al");
    assert_eq!(name_of_trimmed(&"é".repeat(33)), "é".repeat(32));
}

#[test]
fn unicode_white_space_is_trimmed() {
    let (mut game, a, _b) = two_player_game();
    game.post_chat(a.id, "\u{3000}\u{A0}hi there\u{2028}\n").unwrap();
    assert_eq!(chat_texts(&game).last().unwrap(), "hi there");
    assert_eq!(game.post_chat(a.id, "\u{2003}\u{85}").unwrap_err(), GameError::EmptyMessage);
}
