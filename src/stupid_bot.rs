//! The baseline automated opponent: it plays a legal move picked at random,
//! with no look-ahead.
use vstd::prelude::*;
use rand::seq::SliceRandom;
use crate::board::{adjacent, col_of, gather, in_range, lemma_gather_contains, row_of, Board, Player};
use crate::error::GameError;
use crate::move_def::Move;
use crate::referee::Referee;
use crate::state::State;
use crate::types::OngoingGame;

verus! {

pub open spec fn open_cell_at(b: Board, i: int) -> Option<(usize, usize)> {
    if b[row_of(i)][col_of(i)] == 0 {
        Some((row_of(i) as usize, col_of(i) as usize))
    } else {
        None
    }
}

/// The empty cells among the first `n` in row-major order.
pub open spec fn open_cells_upto(b: Board, n: nat) -> Seq<(usize, usize)> {
    gather(n, |i: int| open_cell_at(b, i))
}

/// `(row, col, new_row, new_col)` slides a piece of value `v` to an empty
/// cell linked to it.
pub open spec fn is_slide(b: Board, v: u8, t: (usize, usize, usize, usize)) -> bool {
    &&& adjacent(t.0 as int, t.1 as int, t.2 as int, t.3 as int)
    &&& b[t.0 as int][t.1 as int] == v
    &&& b[t.2 as int][t.3 as int] == 0
}

pub open spec fn slide_at(b: Board, v: u8, r: int, c: int, j: int) -> Option<
    (usize, usize, usize, usize),
> {
    let t = (r as usize, c as usize, row_of(j) as usize, col_of(j) as usize);
    if is_slide(b, v, t) {
        Some(t)
    } else {
        None
    }
}

/// The slides from `(r, c)` to the first `n` cells in row-major order.
pub open spec fn slides_from_upto(b: Board, v: u8, r: int, c: int, n: nat) -> Seq<
    (usize, usize, usize, usize),
> {
    gather(n, |j: int| slide_at(b, v, r, c, j))
}

/// The slides of value `v` for the first `n` (source, target) pairs, source
/// major, each cell in row-major order.
pub open spec fn all_slides_upto(b: Board, v: u8, n: nat) -> Seq<(usize, usize, usize, usize)> {
    gather(n, |k: int| slide_at(b, v, row_of(k / 9), col_of(k / 9), k % 9))
}

pub open spec fn linked_piece_at(b: Board, v: u8, r: int, c: int, i: int) -> Option<(usize, usize)> {
    if b[row_of(i)][col_of(i)] == v && adjacent(row_of(i), col_of(i), r, c) {
        Some((row_of(i) as usize, col_of(i) as usize))
    } else {
        None
    }
}

/// The cells among the first `n` that hold `v` and are linked to `(r, c)`.
pub open spec fn linked_pieces_upto(b: Board, v: u8, r: int, c: int, n: nat) -> Seq<(usize, usize)> {
    gather(n, |i: int| linked_piece_at(b, v, r, c, i))
}

/// `p` has a legal move in `s`: an empty cell while it still has pieces to
/// place, a slide of one of its pieces after.
pub open spec fn has_legal_move(s: State, p: Player) -> bool {
    if s.remaining_of(p) > 0 {
        exists|r: int, c: int| in_range(r, c) && s.board[r][c] == 0
    } else {
        exists|t: (usize, usize, usize, usize)| is_slide(s.board, p.piece(), t)
    }
}

/// `m` is a legal move of `p` in `s`.
pub open spec fn is_legal_for(s: State, p: Player, m: Move) -> bool {
    if s.remaining_of(p) > 0 {
        exists|r: int, c: int|
            in_range(r, c) && s.board[r][c] == 0 && m == Move::placement_at(r, c)
    } else {
        exists|t: (usize, usize, usize, usize)|
            is_slide(s.board, p.piece(), t) && m == Move::relocation_of(
                t.0 as int,
                t.1 as int,
                t.2 as int,
                t.3 as int,
            )
    }
}

/// A move that is legal for the player to move, as every move that
/// `choose_move` returns for that player is, is accepted by `apply`.
pub proof fn lemma_legal_move_accepted(s: State, m: Move)
    requires
        is_legal_for(s, s.turn, m),
    ensures
        s.judge(m) == Ok::<(), GameError>(()),
{
    if s.remaining_of(s.turn) > 0 {
        let (r, c) = choose|r: int, c: int|
            in_range(r, c) && s.board[r][c] == 0 && m == Move::placement_at(r, c);
        assert(m.coords() == Some((r, c, None::<int>, None::<int>)));
    } else {
        let t = choose|t: (usize, usize, usize, usize)|
            is_slide(s.board, s.turn.piece(), t) && m == Move::relocation_of(
                t.0 as int,
                t.1 as int,
                t.2 as int,
                t.3 as int,
            );
        assert(m.coords() == Some(
            (t.0 as int, t.1 as int, Some(t.2 as int), Some(t.3 as int)),
        ));
    }
}

/// When `apply` would accept some move of the player to move, that player
/// has a legal move, so `choose_move` does not fail for it.
pub proof fn lemma_accepted_move_is_available(s: State, m: Move)
    requires
        s.judge(m) is Ok,
    ensures
        has_legal_move(s, s.turn),
{
    let (r, c, nr, nc) = m.coords()->0;
    if m.is_placement() {
        assert(in_range(r, c) && s.board[r][c] == 0);
    } else {
        let t = (r as usize, c as usize, nr->0 as usize, nc->0 as usize);
        assert(is_slide(s.board, s.turn.piece(), t));
    }
}

/// Relies on rand's `SliceRandom::choose` over the thread-local generator:
/// `None` for an empty list, otherwise one of its elements, picked
/// uniformly.
#[verifier::external_body]
fn pick_one<T: Copy>(items: &Vec<T>) -> (r: Option<T>)
    ensures
        r is None <==> items@.len() == 0,
        r matches Some(x) ==> items@.contains(x),
{
    items.as_slice().choose(&mut rand::thread_rng()).copied()
}

/// The empty cells of the board, in row-major order.
pub fn open_cells(board: &Board) -> (v: Vec<(usize, usize)>)
    ensures
        v@ == open_cells_upto(*board, 9),
        forall|p: (usize, usize)|
            v@.contains(p) <==> in_range(p.0 as int, p.1 as int) && board[p.0 as int][p.1 as int]
                == 0,
{
    let mut v: Vec<(usize, usize)> = Vec::new();
    let mut i: usize = 0;
    while i < 9
        invariant
            i <= 9,
            v@ == open_cells_upto(*board, i as nat),
        decreases 9 - i,
    {
        if board[i / 3][i % 3] == 0 {
            v.push((i / 3, i % 3));
        }
        i = i + 1;
    }
    proof {
        assert forall|p: (usize, usize)|
            v@.contains(p) <==> in_range(p.0 as int, p.1 as int) && board[p.0 as int][p.1 as int]
                == 0 by {
            let f = |i: int| open_cell_at(*board, i);
            lemma_gather_contains(9, f, p);
            if in_range(p.0 as int, p.1 as int) && board[p.0 as int][p.1 as int] == 0 {
                assert(f(p.0 * 3 + p.1) == Some(p));
            }
        }
    }
    v
}

/// The slides of the piece of value `v` on `(row, col)`, targets in
/// row-major order.
pub fn slides_from(board: &Board, v: u8, row: usize, col: usize) -> (s: Vec<
    (usize, usize, usize, usize),
>)
    requires
        row < 3,
        col < 3,
    ensures
        s@ == slides_from_upto(*board, v, row as int, col as int, 9),
        forall|t: (usize, usize, usize, usize)|
            s@.contains(t) <==> is_slide(*board, v, t) && t.0 == row && t.1 == col,
{
    let mut s: Vec<(usize, usize, usize, usize)> = Vec::new();
    let mut j: usize = 0;
    while j < 9
        invariant
            row < 3,
            col < 3,
            j <= 9,
            s@ == slides_from_upto(*board, v, row as int, col as int, j as nat),
        decreases 9 - j,
    {
        if board[row][col] == v && board[j / 3][j % 3] == 0 && Referee::is_valid_move(
            row,
            col,
            j / 3,
            j % 3,
        ) {
            s.push((row, col, j / 3, j % 3));
        }
        j = j + 1;
    }
    proof {
        assert forall|t: (usize, usize, usize, usize)|
            s@.contains(t) <==> is_slide(*board, v, t) && t.0 == row && t.1 == col by {
            let f = |j: int| slide_at(*board, v, row as int, col as int, j);
            lemma_gather_contains(9, f, t);
            if is_slide(*board, v, t) && t.0 == row && t.1 == col {
                assert(f(t.2 * 3 + t.3) == Some(t));
            }
        }
    }
    s
}

/// Every slide of a piece of value `v`, sources in row-major order.
pub fn all_slides(board: &Board, v: u8) -> (s: Vec<(usize, usize, usize, usize)>)
    ensures
        s@ == all_slides_upto(*board, v, 81),
        forall|t: (usize, usize, usize, usize)| s@.contains(t) <==> is_slide(*board, v, t),
{
    let mut s: Vec<(usize, usize, usize, usize)> = Vec::new();
    let mut k: usize = 0;
    while k < 81
        invariant
            k <= 81,
            s@ == all_slides_upto(*board, v, k as nat),
        decreases 81 - k,
    {
        let from = k / 9;
        let to = k % 9;
        if board[from / 3][from % 3] == v && board[to / 3][to % 3] == 0 && Referee::is_valid_move(
            from / 3,
            from % 3,
            to / 3,
            to % 3,
        ) {
            s.push((from / 3, from % 3, to / 3, to % 3));
        }
        k = k + 1;
    }
    proof {
        assert forall|t: (usize, usize, usize, usize)| s@.contains(t) <==> is_slide(*board, v, t) by {
            let f = |k: int| slide_at(*board, v, row_of(k / 9), col_of(k / 9), k % 9);
            lemma_gather_contains(81, f, t);
            if is_slide(*board, v, t) {
                let k = (t.0 * 3 + t.1) * 9 + t.2 * 3 + t.3;
                assert(k / 9 == t.0 * 3 + t.1 && k % 9 == t.2 * 3 + t.3);
                assert(f(k) == Some(t));
            }
        }
    }
    s
}

pub struct StupidBot {
    player_id: String,
}

impl View for StupidBot {
    type V = Seq<char>;

    /// The bot's player identifier.
    closed spec fn view(&self) -> Seq<char> {
        self.player_id@
    }
}

impl StupidBot {
    /// Value of the bot's pieces in `g`: 1 when it is the first player.
    pub open spec fn piece_in(&self, g: OngoingGame) -> u8 {
        if g.player_one@ == self@ {
            1
        } else {
            2
        }
    }

    /// Pieces of value `v` still to place in `g`.
    pub open spec fn remaining_in(g: OngoingGame, v: u8) -> int {
        if v == 1 {
            g.player_one_remaining as int
        } else {
            g.player_two_remaining as int
        }
    }

    /// The bot may place a piece in `g`: it is its turn, it plays in `g`,
    /// it has a piece left and the board an empty cell.
    pub open spec fn may_place(&self, g: OngoingGame) -> bool {
        &&& g.whose_turn@ == self@
        &&& g.player_one@ == self@ || g.player_two@ == self@
        &&& StupidBot::remaining_in(g, self.piece_in(g)) > 0
        &&& exists|r: int, c: int| in_range(r, c) && g.board[r][c] == 0
    }

    /// A bot that plays under the identifier `player_id`.
    pub fn new(player_id: String) -> (b: StupidBot)
        ensures
            b@ == player_id@,
    {
        StupidBot { player_id }
    }

    pub fn get_id(&self) -> (id: String)
        ensures
            id@ == self@,
    {
        self.player_id.clone()
    }

    /// Value of the bot's pieces in `state`.
    pub fn determine_piece(&self, state: &OngoingGame) -> (p: u8)
        ensures
            p == self.piece_in(*state),
    {
        if state.player_one == self.player_id {
            1
        } else {
            2
        }
    }

    /// Places a bot piece on an empty cell picked at random, then logs the
    /// move and passes the turn. Fails, changing nothing, when the bot may
    /// not place.
    pub fn place_random_new_piece(&self, state: &mut OngoingGame) -> (r: Result<(), ()>)
        ensures
            r is Ok <==> self.may_place(*old(state)),
            r is Err ==> *final(state) == *old(state),
            r is Ok ==> {
                let v = self.piece_in(*old(state));
                &&& final(state).whose_turn == old(state).next_turn()
                &&& final(state)._id == old(state)._id
                &&& final(state).player_one == old(state).player_one
                &&& final(state).player_two == old(state).player_two
                &&& StupidBot::remaining_in(*final(state), v) == StupidBot::remaining_in(
                    *old(state),
                    v,
                ) - 1
                &&& StupidBot::remaining_in(*final(state), (3 - v) as u8) == StupidBot::remaining_in(
                    *old(state),
                    (3 - v) as u8,
                )
                &&& exists|row: int, col: int|
                    {
                        &&& in_range(row, col)
                        &&& old(state).board[row][col] == 0
                        &&& forall|i: int, j: int|
                            in_range(i, j) ==> #[trigger] final(state).board[i][j] == if i == row
                                && j == col {
                                v
                            } else {
                                old(state).board[i][j]
                            }
                        &&& final(state).moves@ == old(state).moves@.push(
                            Move::placement_at(row, col),
                        )
                    }
            },
    {
        if state.whose_turn != self.player_id {
            return Err(());
        }
        if state.player_one != self.player_id && state.player_two != self.player_id {
            return Err(());
        }
        let bot_piece = self.determine_piece(state);
        if (bot_piece == 1 && state.player_one_remaining == 0) || (bot_piece == 2
            && state.player_two_remaining == 0) {
            return Err(());
        }
        let cells = open_cells(&state.board);
        let picked = pick_one(&cells);
        let (row, col) = match picked {
            Some(rc) => rc,
            None => {
                assert forall|r: int, c: int| in_range(r, c) implies state.board[r][c] != 0 by {
                    if state.board[r][c] == 0 {
                        assert(cells@.contains((r as usize, c as usize)));
                    }
                }
                return Err(());
            },
        };
        let new_move = Move::place_new_piece(&row, &col);
        let ghost before = *state;
        state.update_turn();
        if bot_piece == 1 {
            state.player_one_remaining = state.player_one_remaining - 1;
        } else {
            state.player_two_remaining = state.player_two_remaining - 1;
        }
        state.board[row][col] = bot_piece;
        state.moves.push(new_move);
        assert(in_range(row as int, col as int) && before.board[row as int][col as int] == 0);
        Ok(())
    }

    /// The slides of the bot's piece on `(old_row, old_col)`. Fails when the
    /// cell does not hold a bot piece or the piece cannot move.
    pub fn get_all_valid_moves(&self, old_row: &usize, old_col: &usize, state: &OngoingGame) -> (r:
        Result<Vec<(usize, usize, usize, usize)>, ()>)
        requires
            *old_row < 3,
            *old_col < 3,
        ensures
            r is Ok <==> state.board[*old_row as int][*old_col as int] == self.piece_in(*state)
                && slides_from_upto(
                state.board,
                self.piece_in(*state),
                *old_row as int,
                *old_col as int,
                9,
            ).len() > 0,
            r matches Ok(v) ==> v@ == slides_from_upto(
                state.board,
                self.piece_in(*state),
                *old_row as int,
                *old_col as int,
                9,
            ),
    {
        let piece = self.determine_piece(state);
        if state.board[*old_row][*old_col] != piece {
            return Err(());
        }
        let new_moves = slides_from(&state.board, piece, *old_row, *old_col);
        if new_moves.len() == 0 {
            return Err(());
        }
        Ok(new_moves)
    }

    /// The cells holding `player`'s pieces that are linked to `(row, col)`,
    /// in row-major order.
    pub fn get_valid_moves_to_position(player: u8, row: usize, col: usize, state: &OngoingGame) -> (v:
        Vec<(usize, usize)>)
        ensures
            v@ == linked_pieces_upto(state.board, player, row as int, col as int, 9),
            forall|p: (usize, usize)|
                v@.contains(p) <==> state.board[p.0 as int][p.1 as int] == player && adjacent(
                    p.0 as int,
                    p.1 as int,
                    row as int,
                    col as int,
                ),
    {
        let mut v: Vec<(usize, usize)> = Vec::new();
        let mut i: usize = 0;
        while i < 9
            invariant
                i <= 9,
                v@ == linked_pieces_upto(state.board, player, row as int, col as int, i as nat),
            decreases 9 - i,
        {
            if state.board[i / 3][i % 3] == player && Referee::is_valid_move(i / 3, i % 3, row, col) {
                v.push((i / 3, i % 3));
            }
            i = i + 1;
        }
        proof {
            assert forall|p: (usize, usize)|
                v@.contains(p) <==> state.board[p.0 as int][p.1 as int] == player && adjacent(
                    p.0 as int,
                    p.1 as int,
                    row as int,
                    col as int,
                ) by {
                let f = |i: int| linked_piece_at(state.board, player, row as int, col as int, i);
                lemma_gather_contains(9, f, p);
                if state.board[p.0 as int][p.1 as int] == player && adjacent(
                    p.0 as int,
                    p.1 as int,
                    row as int,
                    col as int,
                ) {
                    assert(f(p.0 * 3 + p.1) == Some(p));
                }
            }
        }
        v
    }

    /// A slide of one of the bot's pieces, picked at random; fails when no
    /// bot piece can move.
    pub fn get_random_valid_move(&self, state: &OngoingGame) -> (r: Result<
        (usize, usize, usize, usize),
        (),
    >)
        ensures
            r is Err <==> !exists|t: (usize, usize, usize, usize)|
                is_slide(state.board, self.piece_in(*state), t),
            r matches Ok(t) ==> is_slide(state.board, self.piece_in(*state), t),
    {
        let piece = self.determine_piece(state);
        let all_moves = all_slides(&state.board, piece);
        match pick_one(&all_moves) {
            Some(t) => Ok(t),
            None => {
                assert forall|t: (usize, usize, usize, usize)|
                    !is_slide(state.board, piece, t) by {
                    if is_slide(state.board, piece, t) {
                        assert(all_moves@.contains(t));
                    }
                }
                Err(())
            },
        }
    }

    /// A legal move for `player` in `state`, picked uniformly at random
    /// among all of them: a placement on an empty cell while `player` has
    /// pieces to place, a slide of one of its pieces after. Fails with
    /// `NoLegalMove` when there is none.
    pub fn choose_move(&self, state: &State, player: Player) -> (r: Result<Move, GameError>)
        ensures
            r is Err <==> !has_legal_move(*state, player),
            r is Err ==> r == Err::<Move, GameError>(GameError::NoLegalMove),
            r matches Ok(m) ==> is_legal_for(*state, player, m),
    {
        if state.remaining(player) > 0 {
            let cells = open_cells(&state.board);
            match pick_one(&cells) {
                Some((row, col)) => {
                    let m = Move::place_new_piece(&row, &col);
                    assert(in_range(row as int, col as int) && state.board[row as int][col as int]
                        == 0 && m == Move::placement_at(row as int, col as int));
                    Ok(m)
                },
                None => {
                    assert forall|r: int, c: int| in_range(r, c) implies state.board[r][c] != 0 by {
                        if state.board[r][c] == 0 {
                            assert(cells@.contains((r as usize, c as usize)));
                        }
                    }
                    Err(GameError::NoLegalMove)
                },
            }
        } else {
            let slides = all_slides(&state.board, player.piece());
            match pick_one(&slides) {
                Some(t) => {
                    let m = Move::move_piece(&t.0, &t.1, &t.2, &t.3);
                    assert(is_slide(state.board, player.piece(), t));
                    Ok(m)
                },
                None => {
                    assert forall|t: (usize, usize, usize, usize)|
                        !is_slide(state.board, player.piece(), t) by {
                        if is_slide(state.board, player.piece(), t) {
                            assert(slides@.contains(t));
                        }
                    }
                    Err(GameError::NoLegalMove)
                },
            }
        }
    }
}

} // verus!
