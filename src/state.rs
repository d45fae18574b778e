//! The game state and its one way of changing: applying a move.
use vstd::prelude::*;
use crate::board::{
    adjacent, col_of, count, has_line, lemma_count_update, row_of, Board, Player,
};
use crate::error::GameError;
use crate::move_def::Move;
use crate::referee::Referee;
use crate::text::{decimal, push_char, push_decimal};

verus! {

/// The cells of the board from index 0 up to `n`, each as a comma and its
/// decimal value.
pub open spec fn cells_text(b: Board, n: nat) -> Seq<char>
    decreases n,
{
    if n == 0 {
        Seq::empty()
    } else {
        cells_text(b, (n - 1) as nat) + seq![','] + decimal(
            b[row_of(n - 1)][col_of(n - 1)] as nat,
        )
    }
}

#[derive(Clone, Debug)]
pub struct State {
    /// The player to move next.
    pub turn: Player,
    /// Pieces the first player has still to place.
    pub player_one_remaining: u8,
    /// Pieces the second player has still to place.
    pub player_two_remaining: u8,
    pub board: Board,
    /// Every move applied so far, oldest first.
    pub moves: Vec<Move>,
}

impl State {
    pub open spec fn remaining_of(self, p: Player) -> int {
        match p {
            Player::One => self.player_one_remaining as int,
            Player::Two => self.player_two_remaining as int,
        }
    }

    /// Each player's pieces on the board and pieces still to place add up
    /// to three. Every state reached from `new` by `apply` has this.
    pub open spec fn wf(self) -> bool {
        &&& count(self.board, 1) + self.player_one_remaining == 3
        &&& count(self.board, 2) + self.player_two_remaining == 3
    }

    /// What `apply` answers to the move `m`: the first rule it breaks, or
    /// `Ok` when it is legal for the player whose turn it is.
    pub open spec fn judge(self, m: Move) -> Result<(), GameError> {
        let p = self.turn;
        match m.coords() {
            None => Err(GameError::MalformedCoordinate),
            Some((r, c, nr, nc)) => {
                if m.is_placement() {
                    if self.board[r][c] != 0 {
                        Err(GameError::CellOccupied { row: r as usize, col: c as usize })
                    } else if self.remaining_of(p) == 0 {
                        Err(GameError::NoPiecesRemaining { player: p })
                    } else {
                        Ok(())
                    }
                } else {
                    let nr = nr->0;
                    let nc = nc->0;
                    if self.board[r][c] == 0 {
                        Err(GameError::NoPieceToMove { row: r as usize, col: c as usize })
                    } else if self.board[r][c] != p.piece() {
                        Err(
                            GameError::NotOwnedByPlayer {
                                row: r as usize,
                                col: c as usize,
                                player: p,
                            },
                        )
                    } else if self.remaining_of(p) > 0 {
                        Err(GameError::PiecesStillUnplaced { player: p })
                    } else if self.board[nr][nc] != 0 {
                        Err(GameError::CellOccupied { row: nr as usize, col: nc as usize })
                    } else if !adjacent(r, c, nr, nc) {
                        Err(
                            GameError::NotAdjacent {
                                row: r as usize,
                                col: c as usize,
                                new_row: nr as usize,
                                new_col: nc as usize,
                            },
                        )
                    } else {
                        Ok(())
                    }
                }
            },
        }
    }

    /// The value of cell `(i, j)` once the legal move `m` is applied.
    pub open spec fn cell_after(self, m: Move, i: int, j: int) -> u8 {
        let (r, c, nr, nc) = m.coords()->0;
        if m.is_placement() {
            if i == r && j == c {
                self.turn.piece()
            } else {
                self.board[i][j]
            }
        } else if i == r && j == c {
            0
        } else if i == nr->0 && j == nc->0 {
            self.turn.piece()
        } else {
            self.board[i][j]
        }
    }

    /// The owner of a completed line. The player who moved last, that is
    /// the one whose turn it is not, is named first when both have one.
    pub open spec fn winner(self) -> Option<Player> {
        let last = self.turn.other();
        if has_line(self.board, last.piece()) {
            Some(last)
        } else if has_line(self.board, self.turn.piece()) {
            Some(self.turn)
        } else {
            None
        }
    }

    /// The compact record: turn, both remaining counts, and the nine cells
    /// in row-major order, all comma-separated.
    pub open spec fn compact_text(self) -> Seq<char> {
        decimal(self.turn.piece() as nat) + seq![','] + decimal(self.player_one_remaining as nat)
            + seq![','] + decimal(self.player_two_remaining as nat) + cells_text(self.board, 9)
    }

    /// A fresh game: empty board, three pieces each to place, the first
    /// player to move, no moves yet.
    pub fn new() -> (s: State)
        ensures
            s.turn == Player::One,
            s.player_one_remaining == 3,
            s.player_two_remaining == 3,
            forall|i: int, j: int| 0 <= i < 3 && 0 <= j < 3 ==> s.board[i][j] == 0,
            s.moves@.len() == 0,
            s.wf(),
    {
        State {
            turn: Player::One,
            player_one_remaining: 3,
            player_two_remaining: 3,
            board: [[0u8; 3]; 3],
            moves: Vec::new(),
        }
    }

    /// Pieces that `p` has still to place.
    pub fn remaining(&self, p: Player) -> (n: u8)
        ensures
            n == self.remaining_of(p),
    {
        match p {
            Player::One => self.player_one_remaining,
            Player::Two => self.player_two_remaining,
        }
    }

    /// Checks the move `m` for the player whose turn it is, without
    /// changing anything.
    pub fn validate_move(&self, m: &Move) -> (r: Result<(), GameError>)
        ensures
            r == self.judge(*m),
    {
        let p = self.turn;
        let (row, col) = m.new_as_coord();
        if row == 3 {
            return Err(GameError::MalformedCoordinate);
        }
        if m.new_col.is_none() && m.new_row.is_none() {
            if self.board[row][col] != 0 {
                return Err(GameError::CellOccupied { row, col });
            }
            if self.remaining(p) == 0 {
                return Err(GameError::NoPiecesRemaining { player: p });
            }
            return Ok(());
        }
        let (new_row, new_col) = m.move_as_coord();
        if new_row == 3 {
            return Err(GameError::MalformedCoordinate);
        }
        let source = self.board[row][col];
        if source == 0 {
            return Err(GameError::NoPieceToMove { row, col });
        }
        if source != p.piece() {
            return Err(GameError::NotOwnedByPlayer { row, col, player: p });
        }
        if self.remaining(p) > 0 {
            return Err(GameError::PiecesStillUnplaced { player: p });
        }
        if self.board[new_row][new_col] != 0 {
            return Err(GameError::CellOccupied { row: new_row, col: new_col });
        }
        if !Referee::is_valid_move(row, col, new_row, new_col) {
            return Err(GameError::NotAdjacent { row, col, new_row, new_col });
        }
        Ok(())
    }

    /// Applies the move `m` for the player whose turn it is. A legal move
    /// updates the board and the remaining count, is logged, and passes the
    /// turn; an illegal one changes nothing and says why.
    pub fn apply(&mut self, m: &Move) -> (r: Result<(), GameError>)
        ensures
            r == old(self).judge(*m),
            r is Err ==> *final(self) == *old(self),
            r is Ok ==> {
                &&& final(self).turn == old(self).turn.other()
                &&& forall|i: int, j: int|
                    0 <= i < 3 && 0 <= j < 3 ==> #[trigger] final(self).board[i][j] == old(self).cell_after(
                        *m,
                        i,
                        j,
                    )
                &&& final(self).remaining_of(old(self).turn) == old(self).remaining_of(old(self).turn)
                    - if m.is_placement() {
                    1int
                } else {
                    0int
                }
                &&& final(self).remaining_of(old(self).turn.other()) == old(self).remaining_of(
                    old(self).turn.other(),
                )
                &&& final(self).moves@ == old(self).moves@.push(*m)
            },
            old(self).wf() ==> final(self).wf(),
    {
        let verdict = self.validate_move(m);
        if verdict.is_err() {
            return verdict;
        }
        let (row, col) = m.new_as_coord();
        if m.new_col.is_none() && m.new_row.is_none() {
            self.place_at(row, col);
        } else {
            let (new_row, new_col) = m.move_as_coord();
            self.slide(row, col, new_row, new_col);
        }
        self.moves.push(*m);
        self.turn = self.turn.other();
        Ok(())
    }

    /// Puts a piece of the player to move on the empty cell `(row, col)`.
    fn place_at(&mut self, row: usize, col: usize)
        requires
            row < 3,
            col < 3,
            old(self).board[row as int][col as int] == 0,
            old(self).remaining_of(old(self).turn) > 0,
        ensures
            forall|i: int, j: int|
                0 <= i < 3 && 0 <= j < 3 ==> #[trigger] final(self).board[i][j] == if i == row && j == col {
                    old(self).turn.piece()
                } else {
                    old(self).board[i][j]
                },
            final(self).remaining_of(old(self).turn) == old(self).remaining_of(old(self).turn) - 1,
            final(self).remaining_of(old(self).turn.other()) == old(self).remaining_of(
                old(self).turn.other(),
            ),
            final(self).turn == old(self).turn,
            final(self).moves == old(self).moves,
            old(self).wf() ==> final(self).wf(),
    {
        let ghost before = self.board;
        self.board[row][col] = self.turn.piece();
        match self.turn {
            Player::One => self.player_one_remaining = self.player_one_remaining - 1,
            Player::Two => self.player_two_remaining = self.player_two_remaining - 1,
        }
        proof {
            lemma_count_update(before, self.board, row as int, col as int, 1);
            lemma_count_update(before, self.board, row as int, col as int, 2);
        }
    }

    /// Moves the piece of the player to move from `(row, col)` to the empty
    /// cell `(new_row, new_col)`.
    fn slide(&mut self, row: usize, col: usize, new_row: usize, new_col: usize)
        requires
            row < 3,
            col < 3,
            new_row < 3,
            new_col < 3,
            row != new_row || col != new_col,
            old(self).board[row as int][col as int] == old(self).turn.piece(),
            old(self).board[new_row as int][new_col as int] == 0,
        ensures
            forall|i: int, j: int|
                0 <= i < 3 && 0 <= j < 3 ==> #[trigger] final(self).board[i][j] == if i == row && j == col {
                    0
                } else if i == new_row && j == new_col {
                    old(self).turn.piece()
                } else {
                    old(self).board[i][j]
                },
            final(self).player_one_remaining == old(self).player_one_remaining,
            final(self).player_two_remaining == old(self).player_two_remaining,
            final(self).turn == old(self).turn,
            final(self).moves == old(self).moves,
            old(self).wf() ==> final(self).wf(),
    {
        let ghost before = self.board;
        self.board[row][col] = 0;
        let ghost middle = self.board;
        self.board[new_row][new_col] = self.turn.piece();
        proof {
            lemma_count_update(before, middle, row as int, col as int, 1);
            lemma_count_update(before, middle, row as int, col as int, 2);
            lemma_count_update(middle, self.board, new_row as int, new_col as int, 1);
            lemma_count_update(middle, self.board, new_row as int, new_col as int, 2);
        }
    }

    /// The winner on the current board, if any line is complete.
    pub fn check_win(&self) -> (w: Option<Player>)
        ensures
            w == self.winner(),
    {
        let last = self.turn.other();
        if Referee::has_line_of(&self.board, last.piece()) {
            Some(last)
        } else if Referee::has_line_of(&self.board, self.turn.piece()) {
            Some(self.turn)
        } else {
            None
        }
    }

    /// The compact comma-separated record of the state.
    pub fn get_state(&self) -> (s: String)
        ensures
            s@ == self.compact_text(),
    {
        let mut s = String::new();
        push_decimal(&mut s, self.turn.piece());
        push_char(&mut s, ',');
        push_decimal(&mut s, self.player_one_remaining);
        push_char(&mut s, ',');
        push_decimal(&mut s, self.player_two_remaining);
        let ghost head = s@;
        let mut i: usize = 0;
        while i < 9
            invariant
                i <= 9,
                s@ == head + cells_text(self.board, i as nat),
            decreases 9 - i,
        {
            push_char(&mut s, ',');
            push_decimal(&mut s, self.board[i / 3][i % 3]);
            i = i + 1;
        }
        s
    }
}

} // verus!
