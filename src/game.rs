use crate::board::{
    board_full, board_wf, empty_board, first_winner_from, holds_line, is_cell, is_team, line, on_line,
    lemma_empty_board, lemma_winner_holds_line, line_cells, line_complete, other_team, winner_of,
    CELLS, EMPTY, LINES,
};
use crate::text::{trim_str, trimmed};
use crate::broadcast::{Publisher, Subscription};
use vstd::prelude::*;

verus! {

pub type PlayerID = i32;

/// How a game ended.
#[derive(Debug, Clone, Copy, PartialEq, Eq, Structural)]
pub enum EndState {
    Win(char),
    Draw,
}

/// Who wrote a chat entry.
#[derive(Debug, Clone, Copy, PartialEq, Eq, Structural)]
pub enum ChatMessageSource {
    Player(PlayerID),
    System,
}

/// Why an operation on a game was refused. Every refusal leaves the game as it was.
#[derive(Debug, Clone, Copy, PartialEq, Eq, Structural)]
pub enum GameError {
    /// Two players are seated already.
    MatchFull,
    /// A move needs two seated players.
    NotEnoughPlayers,
    /// The game has ended; only a rematch restarts it.
    GameOver,
    /// No seated player has the given id.
    UnknownPlayer,
    /// The other team is to move.
    NotYourTurn,
    /// The cell index is not on the board.
    OutOfRange,
    /// The cell is marked already.
    CellOccupied,
    /// The chat text is blank.
    EmptyMessage,
    /// The chat text is longer than the limit.
    MessageTooLong,
    /// A request parameter is malformed (a token that is too long).
    InvalidParameter,
    /// The last seated player holds the largest id, so no next id exists.
    IdsExhausted,
    /// Every freshly minted token was taken by an open game.
    TokenUnavailable,
}

/// The human-readable text of each refusal.
pub open spec fn error_text(e: GameError) -> Seq<char> {
    match e {
        GameError::MatchFull => "Game is full"@,
        GameError::NotEnoughPlayers => "Not enough players"@,
        GameError::GameOver => "Game is over"@,
        GameError::UnknownPlayer => "Invalid player ID"@,
        GameError::NotYourTurn => "Not your turn"@,
        GameError::OutOfRange => "Invalid move"@,
        GameError::CellOccupied => "Invalid move"@,
        GameError::EmptyMessage => "Empty message"@,
        GameError::MessageTooLong => "Message too long"@,
        GameError::InvalidParameter => "Invalid parameters"@,
        GameError::IdsExhausted => "No player id is left"@,
        GameError::TokenUnavailable => "No free game token"@,
    }
}

impl GameError {
    /// The human-readable text of the refusal, as shown to a client.
    pub fn message(&self) -> (r: &'static str)
        ensures
            r@ == error_text(*self),
    {
        match self {
            GameError::MatchFull => "Game is full",
            GameError::NotEnoughPlayers => "Not enough players",
            GameError::GameOver => "Game is over",
            GameError::UnknownPlayer => "Invalid player ID",
            GameError::NotYourTurn => "Not your turn",
            GameError::OutOfRange => "Invalid move",
            GameError::CellOccupied => "Invalid move",
            GameError::EmptyMessage => "Empty message",
            GameError::MessageTooLong => "Message too long",
            GameError::InvalidParameter => "Invalid parameters",
            GameError::IdsExhausted => "No player id is left",
            GameError::TokenUnavailable => "No free game token",
        }
    }
}

/// A seated player.
#[derive(Debug, Clone)]
pub struct Player {
    pub id: PlayerID,
    pub team: char,
    pub name: String,
    pub wins: i32,
}

/// One entry of a game's chat log.
#[derive(Debug, Clone)]
pub struct ChatMessage {
    pub id: usize,
    pub source: ChatMessageSource,
    pub text: String,
}

/// The state of one game: the unit that is published to subscribers.
#[derive(Debug, Clone)]
pub struct State {
    pub turn: char,
    pub winner: Option<EndState>,
    pub players: Vec<Player>,
    pub board: Vec<char>,
    pub chat: Vec<ChatMessage>,
}

/// A player as a mathematical value.
pub ghost struct PlayerView {
    pub id: int,
    pub team: char,
    pub name: Seq<char>,
    pub wins: int,
}

/// A chat entry as a mathematical value.
pub ghost struct ChatView {
    pub id: nat,
    pub source: ChatMessageSource,
    pub text: Seq<char>,
}

/// A game state as a mathematical value.
pub ghost struct StateView {
    pub turn: char,
    pub winner: Option<EndState>,
    pub players: Seq<PlayerView>,
    pub board: Seq<char>,
    pub chat: Seq<ChatView>,
}

impl View for Player {
    type V = PlayerView;

    open spec fn view(&self) -> PlayerView {
        PlayerView { id: self.id as int, team: self.team, name: self.name@, wins: self.wins as int }
    }
}

impl View for ChatMessage {
    type V = ChatView;

    open spec fn view(&self) -> ChatView {
        ChatView { id: self.id as nat, source: self.source, text: self.text@ }
    }
}

impl View for State {
    type V = StateView;

    open spec fn view(&self) -> StateView {
        StateView {
            turn: self.turn,
            winner: self.winner,
            players: self.players@.map_values(|p: Player| p@),
            board: self.board@,
            chat: self.chat@.map_values(|m: ChatMessage| m@),
        }
    }
}

/// The invariant of a game state: a well-formed board, a team to move, an
/// outcome that agrees with the board (a declared winner is the board's
/// winner, and while no outcome is set the board has none), at most two
/// players on distinct teams with increasing ids, and chat ids that count the
/// log from zero.
pub open spec fn state_wf(s: StateView) -> bool {
    &&& board_wf(s.board)
    &&& is_team(s.turn)
    &&& s.winner matches Some(EndState::Win(t)) ==> is_team(t) && winner_of(s.board) == Some(t)
    &&& s.winner is None ==> winner_of(s.board) is None
    &&& s.players.len() <= 2
    &&& forall|i: int| 0 <= i < s.players.len() ==> #[trigger] is_team(s.players[i].team)
    &&& s.players.len() == 2 ==> s.players[0].team != s.players[1].team
    &&& s.players.len() == 2 ==> s.players[0].id < s.players[1].id
    &&& forall|i: int| 0 <= i < s.chat.len() ==> #[trigger] s.chat[i].id == i
}

/// The state of a game that nobody has joined.
pub open spec fn initial_state() -> StateView {
    StateView {
        turn: 'X',
        winner: None,
        players: Seq::empty(),
        board: empty_board(),
        chat: Seq::empty(),
    }
}

/// `s` with one more chat entry, numbered by its position.
pub open spec fn with_chat(s: StateView, source: ChatMessageSource, text: Seq<char>) -> StateView {
    StateView { chat: s.chat.push(ChatView { id: s.chat.len(), source, text }), ..s }
}

/// The one-character text of a mark or digit.
pub open spec fn char_text(c: char) -> Seq<char> {
    seq![c]
}

/// How a player is shown in messages: name, then team in parentheses.
pub open spec fn player_label(p: PlayerView) -> Seq<char> {
    p.name + " ("@ + char_text(p.team) + ")"@
}

/// The announcement of a join.
pub open spec fn joined_text(p: PlayerView) -> Seq<char> {
    player_label(p) + " has joined the game"@
}

/// The player that joins `s` under `name`: the id after the last seated
/// player's (zero in an empty game), and the team that the last seated player
/// does not hold.
pub open spec fn next_player(s: StateView, name: Seq<char>) -> PlayerView {
    PlayerView {
        id: if s.players.len() == 0 { 0 } else { s.players.last().id + 1 },
        team: if s.players.len() > 0 && s.players.last().team == 'X' { 'O' } else { 'X' },
        name,
        wins: 0,
    }
}

/// `s` after `p` has joined.
pub open spec fn after_join(s: StateView, p: PlayerView) -> StateView {
    with_chat(StateView { players: s.players.push(p), ..s }, ChatMessageSource::System, joined_text(p))
}

/// Why `s` admits no further player, if it does not.
pub open spec fn join_refusal(s: StateView) -> Option<GameError> {
    if s.players.len() >= 2 {
        Some(GameError::MatchFull)
    } else if s.players.len() > 0 && s.players.last().id == i32::MAX {
        Some(GameError::IdsExhausted)
    } else {
        None
    }
}

/// A player with id `id` is seated in `s`.
pub open spec fn is_seated(s: StateView, id: int) -> bool {
    exists|i: int| 0 <= i < s.players.len() && s.players[i].id == id
}

/// The position of the seated player with id `id`.
pub open spec fn index_of_id(s: StateView, id: int) -> int
    recommends
        is_seated(s, id),
{
    choose|i: int| 0 <= i < s.players.len() && s.players[i].id == id
}

/// Ids are unique in a well-formed state.
pub proof fn lemma_index_of_id(s: StateView, id: int, i: int)
    requires
        state_wf(s),
        0 <= i < s.players.len(),
        s.players[i].id == id,
    ensures
        is_seated(s, id),
        index_of_id(s, id) == i,
{
}

/// Why player `player_id` may not mark cell `space` in `s`, if they may not.
/// The checks come in this order.
pub open spec fn turn_refusal(s: StateView, player_id: int, space: int) -> Option<GameError> {
    if s.players.len() < 2 {
        Some(GameError::NotEnoughPlayers)
    } else if s.winner is Some {
        Some(GameError::GameOver)
    } else if !is_seated(s, player_id) {
        Some(GameError::UnknownPlayer)
    } else if s.turn != s.players[index_of_id(s, player_id)].team {
        Some(GameError::NotYourTurn)
    } else if space >= CELLS {
        Some(GameError::OutOfRange)
    } else if s.board[space] != EMPTY {
        Some(GameError::CellOccupied)
    } else {
        None
    }
}

/// The digit character of 1, 2 or 3.
pub open spec fn digit_char(d: int) -> char {
    if d == 1 {
        '1'
    } else if d == 2 {
        '2'
    } else {
        '3'
    }
}

/// The chat text of a move: the team, then the cell as (column, row), counted from one.
pub open spec fn move_text(team: char, space: int) -> Seq<char> {
    "Played "@ + char_text(team) + " at ("@ + char_text(digit_char(space % 3 + 1)) + ", "@
        + char_text(digit_char(space / 3 + 1)) + ")."@
}

/// The announcement of a win.
pub open spec fn win_text(p: PlayerView) -> Seq<char> {
    player_label(p) + " wins!"@
}

/// The announcement of a draw.
pub open spec fn draw_text() -> Seq<char> {
    "It's a draw!"@
}

/// `s` after a legal move of `player_id` on `space`: the cell is marked, the
/// turn passes to the other team, and the move is logged.
pub open spec fn after_mark(s: StateView, player_id: int, space: int) -> StateView {
    let team = s.players[index_of_id(s, player_id)].team;
    with_chat(
        StateView { board: s.board.update(space, team), turn: other_team(s.turn), ..s },
        ChatMessageSource::Player(player_id as PlayerID),
        move_text(team, space),
    )
}

/// The position of the player of team `team`.
pub open spec fn index_of_team(s: StateView, team: char) -> int {
    choose|i: int| 0 <= i < s.players.len() && s.players[i].team == team
}

/// A win counter after one more win; it stops at the largest value.
pub open spec fn one_more_win(wins: int) -> int {
    if wins < i32::MAX {
        wins + 1
    } else {
        wins
    }
}

/// `s` once the board has been judged: on a win the winner's counter goes up
/// and the win is set and announced; on a full board without a winner the draw
/// is set and announced; otherwise nothing changes.
pub open spec fn after_outcome(s: StateView) -> StateView {
    match winner_of(s.board) {
        Some(t) => {
            let i = index_of_team(s, t);
            let p = PlayerView { wins: one_more_win(s.players[i].wins), ..s.players[i] };
            with_chat(
                StateView { winner: Some(EndState::Win(t)), players: s.players.update(i, p), ..s },
                ChatMessageSource::System,
                win_text(p),
            )
        },
        None => if board_full(s.board) {
            with_chat(StateView { winner: Some(EndState::Draw), ..s }, ChatMessageSource::System, draw_text())
        } else {
            s
        },
    }
}

/// The announcement of a departure.
pub open spec fn left_text(name: Seq<char>) -> Seq<char> {
    name + " has left the game"@
}

/// `s` after player `id` has left: the departure is logged and the player is
/// taken off the roster. A player who is not seated changes nothing.
pub open spec fn after_leave(s: StateView, id: int) -> StateView {
    if is_seated(s, id) {
        let i = index_of_id(s, id);
        with_chat(
            StateView { players: s.players.remove(i), ..s },
            ChatMessageSource::System,
            left_text(s.players[i].name),
        )
    } else {
        s
    }
}

/// The longest chat text, in characters.
pub const MAX_MESSAGE_CHARS: usize = 500;

/// The longest player name, in characters.
pub const MAX_NAME_CHARS: usize = 32;

/// Why a chat text that is trimmed already is refused, if it is.
pub open spec fn trimmed_chat_refusal(t: Seq<char>) -> Option<GameError> {
    if t.len() == 0 {
        Some(GameError::EmptyMessage)
    } else if t.len() > MAX_MESSAGE_CHARS {
        Some(GameError::MessageTooLong)
    } else {
        None
    }
}

/// Why the chat text `text` is refused, if it is: it is judged trimmed.
pub open spec fn chat_refusal(text: Seq<char>) -> Option<GameError> {
    trimmed_chat_refusal(trimmed(text))
}

/// The name that is given to a player with no name.
pub open spec fn default_name() -> Seq<char> {
    "Unnamed Player"@
}

/// The name that a rename to `requested` gives: trimmed, the default name if
/// that is empty, and cut to its first characters if it is too long.
pub open spec fn sanitized_name(requested: Seq<char>) -> Seq<char> {
    name_from_trimmed(trimmed(requested))
}

/// The name that a trimmed request `t` gives: the default name if it is
/// empty, its first characters if it is too long, else itself.
pub open spec fn name_from_trimmed(t: Seq<char>) -> Seq<char> {
    if t.len() == 0 {
        default_name()
    } else if t.len() > MAX_NAME_CHARS {
        t.subrange(0, MAX_NAME_CHARS as int)
    } else {
        t
    }
}

/// Judges a chat text that is trimmed already.
pub fn check_trimmed_chat(t: &str) -> (r: Option<GameError>)
    ensures
        r == trimmed_chat_refusal(t@),
{
    let n = t.unicode_len();
    if n == 0 {
        Some(GameError::EmptyMessage)
    } else if n > MAX_MESSAGE_CHARS {
        Some(GameError::MessageTooLong)
    } else {
        None
    }
}

/// The name that a trimmed request `t` gives.
pub fn name_of_trimmed(t: &str) -> (r: String)
    ensures
        r@ == name_from_trimmed(t@),
{
    let n = t.unicode_len();
    if n == 0 {
        String::from_str("Unnamed Player")
    } else if n > MAX_NAME_CHARS {
        String::from_str(t.substring_char(0, MAX_NAME_CHARS))
    } else {
        String::from_str(t)
    }
}

/// The chat text of a rename; it quotes the name as requested.
pub open spec fn rename_text(requested: Seq<char>) -> Seq<char> {
    "Now my name is \""@ + requested + "\"!"@
}

/// `s` with the roster replaced by `players`.
pub open spec fn with_players(s: StateView, players: Seq<PlayerView>) -> StateView {
    StateView { players, ..s }
}

/// `s` with seated player `id` named `name`.
pub open spec fn renamed(s: StateView, id: int, name: Seq<char>) -> StateView {
    let i = index_of_id(s, id);
    with_players(s, s.players.update(i, PlayerView { name, ..s.players[i] }))
}

/// `s` after seated player `id` renamed themself to `requested`.
pub open spec fn after_rename(s: StateView, id: int, requested: Seq<char>) -> StateView {
    with_chat(
        renamed(s, id, sanitized_name(requested)),
        ChatMessageSource::Player(id as PlayerID),
        rename_text(requested),
    )
}

/// The team symbols swapped.
pub open spec fn swapped(players: Seq<PlayerView>) -> Seq<PlayerView> {
    players.map_values(|p: PlayerView| PlayerView { team: other_team(p.team), ..p })
}

/// `s` after a rematch asked by `id`: the request and the swap are logged, the
/// board is cleared, X is to move, no outcome is set, and every player's team
/// is swapped.
pub open spec fn after_rematch(s: StateView, id: int) -> StateView {
    let s1 = with_chat(
        with_chat(s, ChatMessageSource::Player(id as PlayerID), "Rematch!"@),
        ChatMessageSource::System,
        "Players have swapped sides."@,
    );
    with_players(cleared(s1), swapped(s1.players))
}

/// `s` with an empty board, X to move and no outcome.
pub open spec fn cleared(s: StateView) -> StateView {
    StateView { board: empty_board(), turn: 'X', winner: None, ..s }
}

/// In every well-formed state, which is every state that a sequence of legal
/// moves reaches, a declared winner holds a whole row, column or diagonal, and
/// while no outcome is set no line is complete.
pub proof fn lemma_outcome_agrees_with_board(s: StateView)
    requires
        state_wf(s),
    ensures
        s.winner matches Some(EndState::Win(t)) ==> exists|k: int|
            0 <= k < LINES && #[trigger] holds_line(s.board, t, k),
        s.winner is None ==> forall|k: int| 0 <= k < LINES ==> !#[trigger] line_complete(s.board, k),
{
    lemma_winner_holds_line(s.board);
}

/// A legal move in a game that has no outcome yet sets a win for a team
/// exactly when that team then holds a whole line; and every complete line
/// then runs through the cell just marked and belongs to the mover's team.
pub proof fn lemma_win_comes_from_move(s: StateView, player_id: int, space: int, t: char)
    requires
        state_wf(s),
        0 <= space,
        turn_refusal(s, player_id, space) is None,
        is_team(t),
    ensures
        ({
            let s2 = after_outcome(after_mark(s, player_id, space));
            s2.winner == Some(EndState::Win(t)) <==> exists|k: int|
                0 <= k < LINES && #[trigger] holds_line(s2.board, t, k)
        }),
        forall|k: int|
            0 <= k < LINES && #[trigger] line_complete(after_outcome(after_mark(s, player_id, space)).board, k)
                ==> on_line(k, space) && after_outcome(after_mark(s, player_id, space)).board[line(k).0]
                == s.players[index_of_id(s, player_id)].team,
{
    let team = s.players[index_of_id(s, player_id)].team;
    let s1 = after_mark(s, player_id, space);
    let s2 = after_outcome(s1);
    let b = s.board;
    let b2 = s1.board;
    assert(s2.board == b2);
    let idx = index_of_id(s, player_id);
    assert(0 <= idx < s.players.len());
    assert(is_team(s.players[idx].team));
    assert(b2.len() == CELLS);
    lemma_winner_holds_line(b);
    assert(board_wf(b2)) by {
        assert forall|i: int| 0 <= i < b2.len() implies #[trigger] is_cell(b2[i]) by {
            if i != space {
                assert(is_cell(b[i]));
            }
        }
    }
    lemma_winner_holds_line(b2);
    assert forall|k: int| 0 <= k < LINES && #[trigger] line_complete(b2, k) implies on_line(k, space)
        && b2[line(k).0] == team by {
        assert(0 <= line(k).0 < CELLS && 0 <= line(k).1 < CELLS && 0 <= line(k).2 < CELLS);
        if !on_line(k, space) {
            assert(line_complete(b, k));
        }
    }
    if exists|k: int| 0 <= k < LINES && #[trigger] holds_line(b2, t, k) {
        let k = choose|k: int| 0 <= k < LINES && #[trigger] holds_line(b2, t, k);
        assert(line_complete(b2, k));
        assert(t == team);
        let w = winner_of(b2)->0;
        let k0 = choose|k0: int| 0 <= k0 < LINES && #[trigger] holds_line(b2, w, k0);
        assert(line_complete(b2, k0));
    }
}

/// A fresh game admits two joins, and the third join is refused because the
/// game is full. In general a state with two players refuses every join, so no
/// game ever seats more than two.
pub proof fn lemma_third_join_refused(first: Seq<char>, second: Seq<char>, s: StateView)
    requires
        state_wf(s),
    ensures
        join_refusal(initial_state()) is None,
        join_refusal(after_join(initial_state(), next_player(initial_state(), first))) is None,
        ({
            let s1 = after_join(initial_state(), next_player(initial_state(), first));
            let s2 = after_join(s1, next_player(s1, second));
            join_refusal(s2) == Some(GameError::MatchFull)
        }),
        s.players.len() <= 2,
        s.players.len() == 2 ==> join_refusal(s) == Some(GameError::MatchFull),
{
    let s1 = after_join(initial_state(), next_player(initial_state(), first));
    assert(s1.players.len() == 1);
}

/// Two rematches in a row give every player back their team, and leave the
/// board empty and the outcome unset.
pub proof fn lemma_rematch_twice(s: StateView, first: int, second: int)
    requires
        state_wf(s),
    ensures
        after_rematch(after_rematch(s, first), second).players == s.players,
        after_rematch(after_rematch(s, first), second).board == empty_board(),
        after_rematch(after_rematch(s, first), second).winner is None,
{
    let s2 = after_rematch(after_rematch(s, first), second);
    assert forall|i: int| 0 <= i < s.players.len() implies #[trigger] s2.players[i] == s.players[i] by {
        assert(is_team(s.players[i].team));
    }
    assert(s2.players =~= s.players);
}

/// In every well-formed state the chat ids are the positions in the log, so
/// they start at zero and rise by one; an appended entry of any kind takes the
/// next id and keeps the state well formed.
pub proof fn lemma_chat_ids_dense(s: StateView, source: ChatMessageSource, text: Seq<char>)
    requires
        state_wf(s),
    ensures
        forall|i: int| 0 <= i < s.chat.len() ==> #[trigger] s.chat[i].id == i,
        forall|i: int, j: int| 0 <= i < j < s.chat.len() ==> s.chat[i].id < s.chat[j].id,
        with_chat(s, source, text).chat.last().id == s.chat.len(),
        state_wf(with_chat(s, source, text)),
{
    assert forall|i: int, j: int| 0 <= i < j < s.chat.len() implies s.chat[i].id < s.chat[j].id by {
        assert(s.chat[i].id == i);
        assert(s.chat[j].id == j);
    }
}

impl State {
    pub fn new() -> (r: State)
        ensures
            r@ == initial_state(),
            state_wf(r@),
    {
        let board: Vec<char> = vec![EMPTY, EMPTY, EMPTY, EMPTY, EMPTY, EMPTY, EMPTY, EMPTY, EMPTY];
        let r = State { turn: 'X', winner: None, players: Vec::new(), board, chat: Vec::new() };
        assert(r@.board =~= initial_state().board);
        assert(r@.players =~= Seq::<PlayerView>::empty());
        assert(r@.chat =~= Seq::<ChatView>::empty());
        proof {
            lemma_empty_board();
        }
        r
    }
}

impl Player {
    /// A copy of the player, field by field.
    pub fn duplicate(&self) -> (r: Player)
        ensures
            r@ == self@,
    {
        Player { id: self.id, team: self.team, name: self.name.clone(), wins: self.wins }
    }
}

impl ChatMessage {
    /// A copy of the entry, field by field.
    pub fn duplicate(&self) -> (r: ChatMessage)
        ensures
            r@ == self@,
    {
        ChatMessage { id: self.id, source: self.source, text: self.text.clone() }
    }
}

impl State {
    /// No player is seated: the game can be closed.
    pub fn has_no_players(&self) -> (r: bool)
        ensures
            r == (self@.players.len() == 0),
    {
        self.players.len() == 0
    }

    /// A copy of the whole state, as handed to subscribers.
    pub fn snapshot(&self) -> (r: State)
        ensures
            r@ == self@,
    {
        let mut players: Vec<Player> = Vec::new();
        let mut i: usize = 0;
        while i < self.players.len()
            invariant
                i <= self.players@.len(),
                players@.len() == i,
                forall|j: int| 0 <= j < i ==> #[trigger] players@[j]@ == self.players@[j]@,
            decreases self.players@.len() - i,
        {
            players.push(self.players[i].duplicate());
            i += 1;
        }
        let mut chat: Vec<ChatMessage> = Vec::new();
        let mut k: usize = 0;
        while k < self.chat.len()
            invariant
                k <= self.chat@.len(),
                chat@.len() == k,
                forall|j: int| 0 <= j < k ==> #[trigger] chat@[j]@ == self.chat@[j]@,
            decreases self.chat@.len() - k,
        {
            chat.push(self.chat[k].duplicate());
            k += 1;
        }
        let mut board: Vec<char> = Vec::new();
        let mut c: usize = 0;
        while c < self.board.len()
            invariant
                c <= self.board@.len(),
                board@ == self.board@.subrange(0, c as int),
            decreases self.board@.len() - c,
        {
            board.push(self.board[c]);
            c += 1;
        }
        let r = State { turn: self.turn, winner: self.winner, players, board, chat };
        assert(r@.players =~= self@.players);
        assert(r@.chat =~= self@.chat);
        assert(r@.board =~= self@.board);
        r
    }
}

/// The one-character text of a team mark.
fn team_text(team: char) -> (r: &'static str)
    requires
        is_team(team),
    ensures
        r@ == char_text(team),
{
    proof {
        reveal_strlit("X");
        reveal_strlit("O");
    }
    if team == 'X' {
        "X"
    } else {
        "O"
    }
}

impl Player {
    /// The player as shown in messages: `name (team)`.
    pub fn label(&self) -> (r: String)
        requires
            is_team(self.team),
        ensures
            r@ == player_label(self@),
    {
        let mut s = self.name.clone();
        s.append(" (");
        s.append(team_text(self.team));
        s.append(")");
        s
    }
}

/// The one-character text of 1, 2 or 3.
fn digit_text(d: usize) -> (r: &'static str)
    requires
        1 <= d <= 3,
    ensures
        r@ == char_text(digit_char(d as int)),
{
    proof {
        reveal_strlit("1");
        reveal_strlit("2");
        reveal_strlit("3");
    }
    if d == 1 {
        "1"
    } else if d == 2 {
        "2"
    } else {
        "3"
    }
}

/// The chat text of a move of `team` on `space`.
fn move_message(team: char, space: usize) -> (r: String)
    requires
        is_team(team),
        space < CELLS,
    ensures
        r@ == move_text(team, space as int),
{
    let mut s = String::from_str("Played ");
    s.append(team_text(team));
    s.append(" at (");
    s.append(digit_text(space % 3 + 1));
    s.append(", ");
    s.append(digit_text(space / 3 + 1));
    s.append(").");
    s
}

/// A request of a client: a chat text, a new name, a move, or a rematch.
pub enum FromBrowser {
    ChatMsg { text: String },
    ChangeName { new_name: String },
    Move { space: usize },
    Rematch,
}

/// A notice to a client.
pub enum ToBrowser {
    JoinedGame { token: String, player_id: PlayerID, state: State },
    GameState(State),
    Error(String),
}

/// `a` and `b` differ at most in their rosters.
pub open spec fn same_but_roster(a: Game, b: Game) -> bool {
    &&& a.id == b.id
    &&& a.state_changes == b.state_changes
    &&& a.state.turn == b.state.turn
    &&& a.state.winner == b.state.winner
    &&& a.state.board == b.state.board
    &&& a.state.chat == b.state.chat
}

/// One game: its token, its state, and the channel that publishes the state.
pub struct Game {
    pub id: String,
    pub state: State,
    pub state_changes: Publisher,
}

impl Game {
    /// The game's invariant.
    pub open spec fn wf(&self) -> bool {
        state_wf(self.state@)
    }

    /// A game nobody has joined yet, with its channel holding that state and a
    /// first subscription to it.
    pub fn new(id: String) -> (r: (Game, Subscription))
        ensures
            r.0.id == id,
            r.0.state@ == initial_state(),
            r.0.wf(),
            r.0.state_changes.latest() == initial_state(),
            r.1.seen() == initial_state(),
    {
        let state = State::new();
        let (tx, rx) = Publisher::new(state.snapshot());
        (Game { id, state, state_changes: tx }, rx)
    }

    /// Appends a chat entry numbered by its position in the log.
    pub fn add_chat_message(&mut self, source: ChatMessageSource, text: String)
        ensures
            final(self).id == old(self).id,
            final(self).state_changes == old(self).state_changes,
            final(self).state@ == with_chat(old(self).state@, source, text@),
            old(self).wf() ==> final(self).wf(),
    {
        let id = self.state.chat.len();
        self.state.chat.push(ChatMessage { id, source, text });
        assert(self.state@.chat =~= old(self).state@.chat.push(ChatView { id: id as nat, source, text: text@ }));
        assert(self.state@.players =~= old(self).state@.players);
    }

    /// Seats a player under `name`, announces it in the chat, and returns the
    /// new player. A game holds at most two players.
    pub fn add_player(&mut self, name: String) -> (r: Result<Player, GameError>)
        requires
            old(self).wf(),
        ensures
            final(self).id == old(self).id,
            final(self).state_changes == old(self).state_changes,
            final(self).wf(),
            match join_refusal(old(self).state@) {
                Some(e) => r == Err::<Player, GameError>(e) && final(self).state@ == old(self).state@,
                None => r matches Ok(p) && p@ == next_player(old(self).state@, name@)
                    && final(self).state@ == after_join(old(self).state@, p@),
            },
    {
        let n = self.state.players.len();
        if n >= 2 {
            return Err(GameError::MatchFull);
        }
        let mut id: PlayerID = 0;
        let mut team: char = 'X';
        if n > 0 {
            let last = &self.state.players[n - 1];
            if last.id == i32::MAX {
                return Err(GameError::IdsExhausted);
            }
            id = last.id + 1;
            if last.team == 'X' {
                team = 'O';
            }
        }
        let player = Player { id, team, name, wins: 0 };
        let text = player.label().concat(" has joined the game");
        let ghost before = self.state@;
        self.state.players.push(player.duplicate());
        assert(self.state@.players =~= before.players.push(player@));
        self.add_chat_message(ChatMessageSource::System, text);
        Ok(player)
    }

    /// The team of the first complete line of the board, if any.
    pub fn check_for_win(&self) -> (r: Option<char>)
        requires
            board_wf(self.state@.board),
        ensures
            r == winner_of(self.state@.board),
    {
        let ghost b = self.state@.board;
        let mut k: usize = 0;
        while k < LINES
            invariant
                k <= LINES,
                b == self.state@.board,
                board_wf(b),
                winner_of(b) == first_winner_from(b, k as int),
            decreases LINES - k,
        {
            let (p, q, r) = line_cells(k);
            let winner = self.state.board[p];
            if winner != EMPTY && self.state.board[q] == winner && self.state.board[r] == winner {
                assert(line_complete(b, k as int));
                return Some(winner);
            }
            k += 1;
        }
        None
    }

    /// Every cell is marked.
    pub fn check_for_draw(&self) -> (r: bool)
        ensures
            r == board_full(self.state@.board),
    {
        let mut i: usize = 0;
        while i < self.state.board.len()
            invariant
                i <= self.state@.board.len(),
                forall|j: int| 0 <= j < i ==> self.state@.board[j] != EMPTY,
            decreases self.state@.board.len() - i,
        {
            if self.state.board[i] == EMPTY {
                return false;
            }
            i += 1;
        }
        true
    }

    /// Plays a move of `player_id` on cell `space`. A refused move changes
    /// nothing. A legal one marks the cell, passes the turn, logs the move, and
    /// then settles a win or a draw.
    pub fn take_turn(&mut self, player_id: PlayerID, space: usize) -> (r: Result<(), GameError>)
        requires
            old(self).wf(),
        ensures
            final(self).id == old(self).id,
            final(self).state_changes == old(self).state_changes,
            final(self).wf(),
            match turn_refusal(old(self).state@, player_id as int, space as int) {
                Some(e) => r == Err::<(), GameError>(e) && final(self).state@ == old(self).state@,
                None => r is Ok && final(self).state@ == after_outcome(
                    after_mark(old(self).state@, player_id as int, space as int),
                ),
            },
            r is Ok ==> final(self).state@.turn == other_team(
                old(self).state@.players[index_of_id(old(self).state@, player_id as int)].team,
            ),
            old(self).state@.winner is Some ==> final(self).state@ == old(self).state@,
    {
        if self.state.players.len() < 2 {
            return Err(GameError::NotEnoughPlayers);
        }
        if self.state.winner.is_some() {
            return Err(GameError::GameOver);
        }
        let idx = match self.get_player_index(player_id) {
            Some(i) => i,
            None => {
                return Err(GameError::UnknownPlayer);
            },
        };
        proof {
            lemma_index_of_id(self.state@, player_id as int, idx as int);
        }
        let team = self.state.players[idx].team;
        if self.state.turn != team {
            return Err(GameError::NotYourTurn);
        }
        if space >= CELLS {
            return Err(GameError::OutOfRange);
        }
        if self.state.board[space] != EMPTY {
            return Err(GameError::CellOccupied);
        }
        let ghost s0 = self.state@;
        assert(is_team(s0.players[idx as int].team));
        self.state.board.set(space, team);
        self.state.turn = if self.state.turn == 'X' {
            'O'
        } else {
            'X'
        };
        let text = move_message(team, space);
        assert(self.state@ == StateView { board: s0.board.update(space as int, team), turn: other_team(s0.turn), ..s0 });
        self.add_chat_message(ChatMessageSource::Player(player_id), text);
        let ghost s1 = self.state@;
        assert(s1 == after_mark(s0, player_id as int, space as int));
        assert(board_wf(s1.board)) by {
            assert forall|i: int| 0 <= i < s1.board.len() implies #[trigger] is_cell(s1.board[i]) by {
                if i != space {
                    assert(is_cell(s0.board[i]));
                }
            }
        }
        if let Some(winning_team) = self.check_for_win() {
            proof {
                lemma_winner_holds_line(s1.board);
                assert(s1.players == s0.players);
                assert(is_team(s0.players[0].team));
                assert(is_team(s0.players[1].team));
                assert(is_team(winning_team));
                assert(s1.players[0].team == winning_team || s1.players[1].team == winning_team);
            }
            self.state.winner = Some(EndState::Win(winning_team));
            assert(self.state@.players == s1.players);
            let winner_idx = match self.get_player_index_by_team(winning_team) {
                Some(i) => i,
                None => {
                    assert(self.state@.players[0].team != winning_team);
                    assert(self.state@.players[1].team != winning_team);
                    assert(false);
                    return Ok(());
                },
            };
            let mut p = self.state.players[winner_idx].duplicate();
            if p.wins < i32::MAX {
                p.wins = p.wins + 1;
            }
            let text = p.label().concat(" wins!");
            self.state.players.set(winner_idx, p);
            proof {
                let i = index_of_team(s1, winning_team);
                assert(i == winner_idx as int);
            }
            assert(self.state@.players =~= s1.players.update(winner_idx as int, p@));
            self.add_chat_message(ChatMessageSource::System, text);
        } else if self.check_for_draw() {
            self.state.winner = Some(EndState::Draw);
            let text = String::from_str("It's a draw!");
            self.add_chat_message(ChatMessageSource::System, text);
        }
        Ok(())
    }

    /// Takes player `id` off the roster and logs the departure; nothing
    /// happens if no such player is seated.
    pub fn remove_player(&mut self, id: PlayerID)
        requires
            old(self).wf(),
        ensures
            final(self).id == old(self).id,
            final(self).state_changes == old(self).state_changes,
            final(self).wf(),
            final(self).state@ == after_leave(old(self).state@, id as int),
    {
        let idx = match self.get_player_index(id) {
            Some(i) => i,
            None => {
                return;
            },
        };
        proof {
            lemma_index_of_id(self.state@, id as int, idx as int);
        }
        let ghost s0 = self.state@;
        let text = self.state.players[idx].name.clone().concat(" has left the game");
        self.add_chat_message(ChatMessageSource::System, text);
        self.state.players.remove(idx);
        assert(self.state@.players =~= s0.players.remove(idx as int));
    }

    /// Gives player `id` the name `name`.
    fn update_player_name(&mut self, id: PlayerID, name: String) -> (r: Result<(), GameError>)
        requires
            old(self).wf(),
        ensures
            final(self).id == old(self).id,
            final(self).state_changes == old(self).state_changes,
            final(self).wf(),
            is_seated(old(self).state@, id as int) ==> r is Ok && final(self).state@ == renamed(
                old(self).state@,
                id as int,
                name@,
            ),
            !is_seated(old(self).state@, id as int) ==> r == Err::<(), GameError>(GameError::UnknownPlayer)
                && final(self).state@ == old(self).state@,
    {
        let idx = match self.get_player_index(id) {
            Some(i) => i,
            None => {
                return Err(GameError::UnknownPlayer);
            },
        };
        proof {
            lemma_index_of_id(self.state@, id as int, idx as int);
        }
        let ghost s0 = self.state@;
        let mut p = self.state.players[idx].duplicate();
        p.name = name;
        self.state.players.set(idx, p);
        assert(self.state@.players =~= s0.players.update(idx as int, PlayerView { name: name@, ..s0.players[idx as int] }));
        Ok(())
    }

    /// Logs `text`, trimmed, as said by player `id`. Blank and over-long texts
    /// are refused.
    pub fn post_chat(&mut self, id: PlayerID, text: &str) -> (r: Result<(), GameError>)
        requires
            old(self).wf(),
        ensures
            final(self).id == old(self).id,
            final(self).state_changes == old(self).state_changes,
            final(self).wf(),
            match chat_refusal(text@) {
                Some(e) => r == Err::<(), GameError>(e) && final(self).state@ == old(self).state@,
                None => r is Ok && final(self).state@ == with_chat(
                    old(self).state@,
                    ChatMessageSource::Player(id),
                    trimmed(text@),
                ),
            },
    {
        let t = trim_str(text);
        if let Some(e) = check_trimmed_chat(t) {
            return Err(e);
        }
        self.add_chat_message(ChatMessageSource::Player(id), String::from_str(t));
        Ok(())
    }

    /// Renames player `id` to `new_name`, trimmed, with the default name for a
    /// blank one and cut to the longest name allowed, and logs the request as
    /// it was made.
    pub fn rename_player(&mut self, id: PlayerID, new_name: &str) -> (r: Result<(), GameError>)
        requires
            old(self).wf(),
        ensures
            final(self).id == old(self).id,
            final(self).state_changes == old(self).state_changes,
            final(self).wf(),
            is_seated(old(self).state@, id as int) ==> r is Ok && final(self).state@ == after_rename(
                old(self).state@,
                id as int,
                new_name@,
            ),
            !is_seated(old(self).state@, id as int) ==> r == Err::<(), GameError>(GameError::UnknownPlayer)
                && final(self).state@ == old(self).state@,
    {
        let name = name_of_trimmed(trim_str(new_name));
        assert(name@ == sanitized_name(new_name@));
        match self.update_player_name(id, name) {
            Ok(()) => {},
            Err(e) => {
                return Err(e);
            },
        }
        let mut text = String::from_str("Now my name is \"");
        text.append(new_name);
        text.append("\"!");
        self.add_chat_message(ChatMessageSource::Player(id), text);
        Ok(())
    }

    /// Clears the board, gives X the turn, and clears the outcome.
    fn reset(&mut self)
        requires
            old(self).wf(),
        ensures
            final(self).id == old(self).id,
            final(self).state_changes == old(self).state_changes,
            final(self).wf(),
            final(self).state@ == cleared(old(self).state@),
    {
        let mut i: usize = 0;
        while i < self.state.board.len()
            invariant
                self.id == old(self).id,
                self.state_changes == old(self).state_changes,
                self.state@ == (StateView { board: self.state@.board, ..old(self).state@ }),
                self.state@.board.len() == CELLS,
                i <= CELLS,
                forall|j: int| 0 <= j < i ==> self.state@.board[j] == EMPTY,
                forall|j: int| i <= j < CELLS ==> self.state@.board[j] == old(self).state@.board[j],
            decreases CELLS - i,
        {
            self.state.board.set(i, EMPTY);
            i += 1;
        }
        self.state.turn = 'X';
        self.state.winner = None;
        assert(self.state@.board =~= empty_board());
        proof {
            lemma_empty_board();
        }
        assert(self.state@ == cleared(old(self).state@));
    }

    /// Gives every player the other team.
    fn swap_teams(&mut self)
        requires
            old(self).wf(),
        ensures
            final(self).id == old(self).id,
            final(self).state_changes == old(self).state_changes,
            final(self).wf(),
            final(self).state@ == with_players(old(self).state@, swapped(old(self).state@.players)),
    {
        let ghost s0 = self.state@;
        let mut i: usize = 0;
        while i < self.state.players.len()
            invariant
                self.id == old(self).id,
                self.state_changes == old(self).state_changes,
                s0 == old(self).state@,
                state_wf(s0),
                self.state@ == with_players(s0, self.state@.players),
                self.state@.players.len() == s0.players.len(),
                i <= s0.players.len(),
                forall|j: int| 0 <= j < i ==> #[trigger] self.state@.players[j] == swapped(s0.players)[j],
                forall|j: int| i <= j < s0.players.len() ==> #[trigger] self.state@.players[j] == s0.players[j],
            decreases s0.players.len() - i,
        {
            let ghost before = self.state@.players;
            assert(self.state@.players[i as int] == s0.players[i as int]);
            let mut p = self.state.players[i].duplicate();
            p.team = if p.team == 'X' {
                'O'
            } else {
                'X'
            };
            assert(p@ == swapped(s0.players)[i as int]);
            self.state.players.set(i, p);
            assert(self.state@.players =~= before.update(i as int, p@));
            i += 1;
        }
        assert(self.state@.players =~= swapped(s0.players));
        proof {
            if s0.players.len() == 2 {
                assert(is_team(s0.players[0].team));
                assert(is_team(s0.players[1].team));
            }
        }
        assert forall|j: int| 0 <= j < self.state@.players.len() implies #[trigger] is_team(self.state@.players[j].team) by {
            assert(is_team(s0.players[j].team));
        }
    }

    /// Starts the game over at the request of player `id`, with the teams swapped.
    pub fn rematch(&mut self, id: PlayerID)
        requires
            old(self).wf(),
        ensures
            final(self).id == old(self).id,
            final(self).state_changes == old(self).state_changes,
            final(self).wf(),
            final(self).state@ == after_rematch(old(self).state@, id as int),
    {
        self.add_chat_message(ChatMessageSource::Player(id), String::from_str("Rematch!"));
        self.add_chat_message(ChatMessageSource::System, String::from_str("Players have swapped sides."));
        self.reset();
        self.swap_teams();
    }

    /// Applies a request of player `id`. Every accepted request changes the
    /// state, so the answer is `Ok(true)`: the caller publishes the new state.
    pub fn handle_msg(&mut self, player_id: PlayerID, msg: FromBrowser) -> (r: Result<bool, GameError>)
        requires
            old(self).wf(),
        ensures
            final(self).id == old(self).id,
            final(self).state_changes == old(self).state_changes,
            final(self).wf(),
            r is Err ==> final(self).state@ == old(self).state@,
            match msg {
                FromBrowser::ChatMsg { text } => match chat_refusal(text@) {
                    Some(e) => r == Err::<bool, GameError>(e),
                    None => r == Ok::<bool, GameError>(true) && final(self).state@ == with_chat(
                        old(self).state@,
                        ChatMessageSource::Player(player_id),
                        trimmed(text@),
                    ),
                },
                FromBrowser::ChangeName { new_name } => if is_seated(old(self).state@, player_id as int) {
                    r == Ok::<bool, GameError>(true) && final(self).state@ == after_rename(
                        old(self).state@,
                        player_id as int,
                        new_name@,
                    )
                } else {
                    r == Err::<bool, GameError>(GameError::UnknownPlayer)
                },
                FromBrowser::Move { space } => match turn_refusal(old(self).state@, player_id as int, space as int) {
                    Some(e) => r == Err::<bool, GameError>(e),
                    None => r == Ok::<bool, GameError>(true) && final(self).state@ == after_outcome(
                        after_mark(old(self).state@, player_id as int, space as int),
                    ),
                },
                FromBrowser::Rematch => r == Ok::<bool, GameError>(true) && final(self).state@ == after_rematch(
                    old(self).state@,
                    player_id as int,
                ),
            },
    {
        match msg {
            FromBrowser::ChatMsg { text } => {
                match self.post_chat(player_id, text.as_str()) {
                    Ok(()) => {},
                    Err(e) => {
                        return Err(e);
                    },
                }
            },
            FromBrowser::ChangeName { new_name } => {
                match self.rename_player(player_id, new_name.as_str()) {
                    Ok(()) => {},
                    Err(e) => {
                        return Err(e);
                    },
                }
            },
            FromBrowser::Move { space } => {
                match self.take_turn(player_id, space) {
                    Ok(()) => {},
                    Err(e) => {
                        return Err(e);
                    },
                }
            },
            FromBrowser::Rematch => {
                self.rematch(player_id);
            },
        }
        Ok(true)
    }

    /// Publishes a copy of the state to every subscriber, replacing the copy
    /// they hold.
    pub fn broadcast_state(&mut self)
        ensures
            final(self).id == old(self).id,
            final(self).state == old(self).state,
            final(self).state_changes.latest() == old(self).state@,
    {
        let snapshot = self.state.snapshot();
        self.state_changes.publish(snapshot);
    }

    /// A new subscription, made at the state published last.
    pub fn subscribe(&self) -> (r: Subscription)
        ensures
            r.seen() == self.state_changes.latest(),
    {
        self.state_changes.subscribe()
    }

    /// Seats a player under `name` as `add_player` does, and on success
    /// publishes the new state and returns a subscription made at it. A refusal
    /// changes nothing, the channel included.
    pub fn join(&mut self, name: String) -> (r: Result<(Player, Subscription), GameError>)
        requires
            old(self).wf(),
        ensures
            final(self).id == old(self).id,
            final(self).wf(),
            match join_refusal(old(self).state@) {
                Some(e) => r matches Err(f) && f == e && final(self).state@ == old(self).state@
                    && final(self).state_changes == old(self).state_changes,
                None => r matches Ok((p, sub)) && p@ == next_player(old(self).state@, name@)
                    && final(self).state@ == after_join(old(self).state@, p@)
                    && final(self).state_changes.latest() == final(self).state@
                    && sub.seen() == final(self).state@,
            },
    {
        match self.add_player(name) {
            Ok(p) => {
                self.broadcast_state();
                let sub = self.subscribe();
                Ok((p, sub))
            },
            Err(e) => Err(e),
        }
    }

    /// Takes player `id` out as `remove_player` does, and publishes the new state.
    pub fn leave(&mut self, id: PlayerID)
        requires
            old(self).wf(),
        ensures
            final(self).id == old(self).id,
            final(self).wf(),
            final(self).state@ == after_leave(old(self).state@, id as int),
            final(self).state_changes.latest() == final(self).state@,
    {
        self.remove_player(id);
        self.broadcast_state();
    }

    /// The position of the player with id `id`, if seated.
    pub fn get_player_index(&self, id: PlayerID) -> (r: Option<usize>)
        ensures
            match r {
                Some(i) => i < self.state@.players.len() && self.state@.players[i as int].id == id
                    && forall|j: int| 0 <= j < i ==> self.state@.players[j].id != id,
                None => !is_seated(self.state@, id as int),
            },
    {
        let mut i: usize = 0;
        while i < self.state.players.len()
            invariant
                i <= self.state@.players.len(),
                forall|j: int| 0 <= j < i ==> self.state@.players[j].id != id,
            decreases self.state@.players.len() - i,
        {
            if self.state.players[i].id == id {
                return Some(i);
            }
            i += 1;
        }
        None
    }

    /// A mutable handle to the seated player with id `id`, if any. Whatever is
    /// written through it lands in that player's place on the roster, and
    /// nothing else changes.
    pub fn get_player_mut(&mut self, id: PlayerID) -> (r: Option<&mut Player>)
        requires
            old(self).wf(),
        ensures
            match r {
                Some(p) => {
                    let i = index_of_id(old(self).state@, id as int);
                    &&& is_seated(old(self).state@, id as int)
                    &&& *p == old(self).state.players@[i]
                    &&& final(self).state.players@ == old(self).state.players@.update(i, *final(p))
                    &&& same_but_roster(*old(self), *final(self))
                },
                None => !is_seated(old(self).state@, id as int) && *final(self) == *old(self),
            },
    {
        match self.get_player_index(id) {
            Some(i) => {
                proof {
                    lemma_index_of_id(self.state@, id as int, i as int);
                }
                Some(&mut self.state.players[i])
            },
            None => None,
        }
    }

    /// The position of the first player of team `team`, if any.
    pub fn get_player_index_by_team(&self, team: char) -> (r: Option<usize>)
        ensures
            match r {
                Some(i) => i < self.state@.players.len() && self.state@.players[i as int].team == team
                    && forall|j: int| 0 <= j < i ==> self.state@.players[j].team != team,
                None => forall|j: int| 0 <= j < self.state@.players.len() ==> self.state@.players[j].team != team,
            },
    {
        let mut i: usize = 0;
        while i < self.state.players.len()
            invariant
                i <= self.state@.players.len(),
                forall|j: int| 0 <= j < i ==> self.state@.players[j].team != team,
            decreases self.state@.players.len() - i,
        {
            if self.state.players[i].team == team {
                return Some(i);
            }
            i += 1;
        }
        None
    }
}

} // verus!
