use vstd::prelude::*;

verus! {

/// The mark of an empty cell.
pub const EMPTY: char = ' ';

/// The number of cells of a board.
pub const CELLS: usize = 9;

/// The team that moves after `team`.
pub open spec fn other_team(team: char) -> char {
    if team == 'X' {
        'O'
    } else {
        'X'
    }
}

/// A team mark: one of the two symbols a player can hold.
pub open spec fn is_team(c: char) -> bool {
    c == 'X' || c == 'O'
}

/// A cell holds nothing or a team mark.
pub open spec fn is_cell(c: char) -> bool {
    c == EMPTY || is_team(c)
}

/// A well-formed board: nine cells, each empty or marked by a team.
pub open spec fn board_wf(b: Seq<char>) -> bool {
    &&& b.len() == CELLS
    &&& forall|i: int| 0 <= i < b.len() ==> #[trigger] is_cell(b[i])
}

/// The eight lines of the grid in the order they are examined: three rows,
/// three columns, then the two diagonals.
pub open spec fn line(k: int) -> (int, int, int) {
    if k == 0 {
        (0, 1, 2)
    } else if k == 1 {
        (3, 4, 5)
    } else if k == 2 {
        (6, 7, 8)
    } else if k == 3 {
        (0, 3, 6)
    } else if k == 4 {
        (1, 4, 7)
    } else if k == 5 {
        (2, 5, 8)
    } else if k == 6 {
        (0, 4, 8)
    } else {
        (2, 4, 6)
    }
}

/// The number of lines.
pub const LINES: usize = 8;

/// Line `k` is held entirely by one team.
pub open spec fn line_complete(b: Seq<char>, k: int) -> bool {
    let (p, q, r) = line(k);
    &&& b[p] != EMPTY
    &&& b[p] == b[q]
    &&& b[q] == b[r]
}

/// Line `k` is held entirely by `team`.
pub open spec fn holds_line(b: Seq<char>, team: char, k: int) -> bool {
    let (p, q, r) = line(k);
    b[p] == team && b[q] == team && b[r] == team
}

/// The team of the first complete line at index `k` or later.
pub open spec fn first_winner_from(b: Seq<char>, k: int) -> Option<char>
    decreases LINES - k,
{
    if k >= LINES {
        None
    } else if line_complete(b, k) {
        Some(b[line(k).0])
    } else {
        first_winner_from(b, k + 1)
    }
}

/// The winner of a board: the team of the first complete line, if any.
pub open spec fn winner_of(b: Seq<char>) -> Option<char> {
    first_winner_from(b, 0)
}

/// Cell `c` is one of the three cells of line `k`.
pub open spec fn on_line(k: int, c: int) -> bool {
    line(k).0 == c || line(k).1 == c || line(k).2 == c
}

/// Every cell is marked.
pub open spec fn board_full(b: Seq<char>) -> bool {
    forall|i: int| 0 <= i < b.len() ==> #[trigger] b[i] != EMPTY
}

/// The board of a fresh game.
pub open spec fn empty_board() -> Seq<char> {
    Seq::new(CELLS as nat, |i: int| EMPTY)
}

/// The cells of line `k`.
pub fn line_cells(k: usize) -> (r: (usize, usize, usize))
    requires
        k < LINES,
    ensures
        r.0 == line(k as int).0,
        r.1 == line(k as int).1,
        r.2 == line(k as int).2,
        r.0 < CELLS && r.1 < CELLS && r.2 < CELLS,
{
    if k == 0 {
        (0, 1, 2)
    } else if k == 1 {
        (3, 4, 5)
    } else if k == 2 {
        (6, 7, 8)
    } else if k == 3 {
        (0, 3, 6)
    } else if k == 4 {
        (1, 4, 7)
    } else if k == 5 {
        (2, 5, 8)
    } else if k == 6 {
        (0, 4, 8)
    } else {
        (2, 4, 6)
    }
}

proof fn lemma_first_winner_from(b: Seq<char>, k: int)
    requires
        board_wf(b),
        0 <= k <= LINES,
    ensures
        first_winner_from(b, k) matches Some(t) ==> is_team(t) && exists|j: int|
            k <= j < LINES && #[trigger] holds_line(b, t, j),
        first_winner_from(b, k) is None <==> forall|j: int|
            k <= j < LINES ==> !#[trigger] line_complete(b, j),
    decreases LINES - k,
{
    if k < LINES {
        lemma_first_winner_from(b, k + 1);
        if line_complete(b, k) {
            assert(0 <= line(k).0 < CELLS);
            assert(is_cell(b[line(k).0]));
            assert(holds_line(b, b[line(k).0], k));
        }
        if first_winner_from(b, k) is None {
            assert forall|j: int| k <= j < LINES implies !#[trigger] line_complete(b, j) by {
                if j > k {
                    assert(!line_complete(b, j));
                }
            }
        }
    }
}

/// A board's winner holds a whole row, column or diagonal; and a board has no
/// winner exactly when no line is complete.
pub proof fn lemma_winner_holds_line(b: Seq<char>)
    requires
        board_wf(b),
    ensures
        winner_of(b) matches Some(t) ==> is_team(t) && exists|k: int|
            0 <= k < LINES && #[trigger] holds_line(b, t, k),
        winner_of(b) is None <==> forall|k: int| 0 <= k < LINES ==> !#[trigger] line_complete(b, k),
{
    lemma_first_winner_from(b, 0);
}

/// An empty board is well formed and has no winner.
pub proof fn lemma_empty_board()
    ensures
        board_wf(empty_board()),
        winner_of(empty_board()) is None,
{
    let b = empty_board();
    assert forall|k: int| 0 <= k < LINES implies !#[trigger] line_complete(b, k) by {
        assert(0 <= line(k).0 < CELLS);
        assert(b[line(k).0] == EMPTY);
    }
    lemma_winner_holds_line(b);
}

} // verus!
