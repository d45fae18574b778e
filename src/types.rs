//! Records that a game service keeps and exchanges: a game in progress with
//! its players' identifiers, a finished game, and request bodies.
use vstd::prelude::*;
use vstd::utf8::encode_utf8;
use crate::board::{col_of, row_of, Board};
pub use crate::move_def::Move;
use crate::state::cells_text;
use crate::text::{decimal, push_all, push_char, push_decimal};

verus! {

/// The nine cells of the board from index 0 up to `n`, as decimal digits
/// with no separator.
pub open spec fn board_digits(b: Board, n: nat) -> Seq<char>
    decreases n,
{
    if n == 0 {
        Seq::empty()
    } else {
        board_digits(b, (n - 1) as nat) + decimal(b[row_of(n - 1)][col_of(n - 1)] as nat)
    }
}

/// A game in progress between two players known by identifier; the player
/// whose identifier is in `whose_turn` moves next.
pub struct OngoingGame {
    pub _id: String,
    pub player_one: String,
    pub player_two: String,
    pub whose_turn: String,
    pub player_one_remaining: u8,
    pub player_two_remaining: u8,
    pub board: Board,
    pub moves: Vec<Move>,
}

/// A finished game: its players, its winner, and its moves.
pub struct GameHistory {
    pub _id: String,
    pub player_one: String,
    pub player_two: String,
    pub winner: String,
    pub moves: Vec<(char, char)>,
}

/// Request body that opens a game for a user.
pub struct NewGamePayload {
    pub user_id: String,
}

/// Request body that submits a move for a user.
pub struct MovePayload {
    pub user_id: String,
    pub move_code: String,
}

impl OngoingGame {
    /// The record of the player to move after the one in `whose_turn`.
    pub open spec fn next_turn(self) -> String {
        if self.whose_turn@ == self.player_one@ {
            self.player_two
        } else {
            self.player_one
        }
    }

    /// A game with no identifiers yet, an empty board and three pieces each
    /// to place.
    pub fn new() -> (g: OngoingGame)
        ensures
            g._id@ == Seq::<char>::empty(),
            g.player_one@ == Seq::<char>::empty(),
            g.player_two@ == Seq::<char>::empty(),
            g.whose_turn@ == Seq::<char>::empty(),
            g.player_one_remaining == 3,
            g.player_two_remaining == 3,
            forall|i: int, j: int| 0 <= i < 3 && 0 <= j < 3 ==> g.board[i][j] == 0,
            g.moves@.len() == 0,
    {
        OngoingGame {
            _id: String::new(),
            player_one: String::new(),
            player_two: String::new(),
            whose_turn: String::new(),
            player_one_remaining: 3,
            player_two_remaining: 3,
            board: [[0u8; 3]; 3],
            moves: Vec::new(),
        }
    }

    /// The nine cells in row-major order, one digit each.
    pub fn flatten_board(&self) -> (s: String)
        ensures
            s@ == board_digits(self.board, 9),
    {
        let mut s = String::new();
        let mut i: usize = 0;
        while i < 9
            invariant
                i <= 9,
                s@ == board_digits(self.board, i as nat),
            decreases 9 - i,
        {
            push_decimal(&mut s, self.board[i / 3][i % 3]);
            i = i + 1;
        }
        s
    }

    pub fn get_id(&self) -> (id: &String)
        ensures
            *id == self._id,
    {
        &self._id
    }

    pub fn get_player_one(&self) -> (id: &String)
        ensures
            *id == self.player_one,
    {
        &self.player_one
    }

    /// Passes the turn to the other player.
    pub fn update_turn(&mut self)
        ensures
            final(self).whose_turn == old(self).next_turn(),
            final(self)._id == old(self)._id,
            final(self).player_one == old(self).player_one,
            final(self).player_two == old(self).player_two,
            final(self).player_one_remaining == old(self).player_one_remaining,
            final(self).player_two_remaining == old(self).player_two_remaining,
            final(self).board == old(self).board,
            final(self).moves == old(self).moves,
    {
        if self.whose_turn == self.player_one {
            self.whose_turn = self.player_two.clone();
        } else {
            self.whose_turn = self.player_one.clone();
        }
    }

    /// The compact comma-separated record: whose turn, both remaining
    /// counts, then the nine cells in row-major order.
    pub fn get_state(&self) -> (s: String)
        ensures
            s@ == self.whose_turn@ + seq![','] + decimal(self.player_one_remaining as nat) + seq![
                ',',
            ] + decimal(self.player_two_remaining as nat) + cells_text(self.board, 9),
    {
        let mut s = String::new();
        push_all(&mut s, &self.whose_turn);
        push_char(&mut s, ',');
        push_decimal(&mut s, self.player_one_remaining);
        push_char(&mut s, ',');
        push_decimal(&mut s, self.player_two_remaining);
        let ghost head = s@;
        let mut i: usize = 0;
        while i < 9
            invariant
                i <= 9,
                s@ == head + cells_text(self.board, i as nat),
            decreases 9 - i,
        {
            push_char(&mut s, ',');
            push_decimal(&mut s, self.board[i / 3][i % 3]);
            i = i + 1;
        }
        s
    }
}

impl MovePayload {
    /// A move request; the move code must be 2 to 4 bytes long.
    pub fn new(user_id: String, move_code: String) -> (r: Result<MovePayload, &'static str>)
        ensures
            r is Ok <==> 2 <= encode_utf8(move_code@).len() as usize <= 4,
            r matches Ok(p) ==> p.user_id == user_id && p.move_code == move_code,
            r matches Err(e) ==> e@ == "move_code must be 2 to 4 characters long"@,
    {
        let n = move_code.as_str().len();
        if n < 2 || n > 4 {
            return Err("move_code must be 2 to 4 characters long");
        }
        Ok(MovePayload { user_id, move_code })
    }
}

} // verus!
