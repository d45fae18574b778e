//! The board model: players, cells, the lines that win, and the drawn links
//! between cells along which a piece may slide.
use vstd::prelude::*;

verus! {

/// The 3x3 grid, indexed `[row][col]`: 0 is an empty cell, 1 a piece of the
/// first player, 2 a piece of the second.
pub type Board = [[u8; 3]; 3];

#[derive(Clone, Copy, Debug, PartialEq, Eq, Structural)]
pub enum Player {
    One,
    Two,
}

impl Player {
    /// The value that marks this player's pieces on a `Board`.
    pub open spec fn piece_spec(self) -> u8 {
        match self {
            Player::One => 1,
            Player::Two => 2,
        }
    }

    pub open spec fn other_spec(self) -> Player {
        match self {
            Player::One => Player::Two,
            Player::Two => Player::One,
        }
    }

    #[verifier::when_used_as_spec(piece_spec)]
    pub fn piece(self) -> (v: u8)
        ensures
            v == self.piece_spec(),
    {
        match self {
            Player::One => 1,
            Player::Two => 2,
        }
    }

    #[verifier::when_used_as_spec(other_spec)]
    pub fn other(self) -> (p: Player)
        ensures
            p == self.other_spec(),
    {
        match self {
            Player::One => Player::Two,
            Player::Two => Player::One,
        }
    }
}

pub open spec fn in_range(r: int, c: int) -> bool {
    0 <= r < 3 && 0 <= c < 3
}

/// Row and column of the cell with row-major index `i` (`i` in `0..9`).
pub open spec fn row_of(i: int) -> int {
    i / 3
}

pub open spec fn col_of(i: int) -> int {
    i % 3
}

/// The items that `f` yields for the indices `0..n`, in index order.
pub open spec fn gather<T>(n: nat, f: spec_fn(int) -> Option<T>) -> Seq<T>
    decreases n,
{
    if n == 0 {
        Seq::empty()
    } else {
        let rest = gather((n - 1) as nat, f);
        match f(n - 1) {
            Some(x) => rest.push(x),
            None => rest,
        }
    }
}

/// An item is gathered exactly when some index below `n` yields it.
pub proof fn lemma_gather_contains<T>(n: nat, f: spec_fn(int) -> Option<T>, x: T)
    ensures
        gather(n, f).contains(x) <==> exists|i: int| 0 <= i < n && #[trigger] f(i) == Some(x),
    decreases n,
{
    if n > 0 {
        let rest = gather((n - 1) as nat, f);
        lemma_gather_contains((n - 1) as nat, f, x);
        match f(n - 1) {
            Some(y) => {
                if x == y {
                    assert(gather(n, f)[rest.len() as int] == x);
                }
                if gather(n, f).contains(x) && x != y {
                    let j = choose|j: int| 0 <= j < gather(n, f).len() && gather(n, f)[j] == x;
                    assert(rest[j] == x);
                }
                if rest.contains(x) {
                    let j = choose|j: int| 0 <= j < rest.len() && rest[j] == x;
                    assert(gather(n, f)[j] == x);
                }
            },
            None => {},
        }
    }
}

pub open spec fn dist(a: int, b: int) -> int {
    if a >= b {
        a - b
    } else {
        b - a
    }
}

/// The four pairs of cells that are diagonal neighbours on the grid but have
/// no line drawn between them.
pub open spec fn undrawn_diagonal(r1: int, c1: int, r2: int, c2: int) -> bool {
    ||| (r1 == 0 && c1 == 1 && r2 == 1 && c2 == 0)
    ||| (r1 == 0 && c1 == 1 && r2 == 1 && c2 == 2)
    ||| (r1 == 1 && c1 == 0 && r2 == 2 && c2 == 1)
    ||| (r1 == 2 && c1 == 1 && r2 == 1 && c2 == 2)
}

/// Two cells joined by a drawn line: Chebyshev distance exactly 1, minus the
/// undrawn diagonals, taken in either order.
pub open spec fn adjacent(r1: int, c1: int, r2: int, c2: int) -> bool {
    &&& in_range(r1, c1)
    &&& in_range(r2, c2)
    &&& dist(r1, r2) <= 1
    &&& dist(c1, c2) <= 1
    &&& (dist(r1, r2) == 1 || dist(c1, c2) == 1)
    &&& !undrawn_diagonal(r1, c1, r2, c2)
    &&& !undrawn_diagonal(r2, c2, r1, c1)
}

/// Adjacency does not depend on the order of the two cells.
pub proof fn lemma_adjacent_symmetric(r1: int, c1: int, r2: int, c2: int)
    ensures
        adjacent(r1, c1, r2, c2) == adjacent(r2, c2, r1, c1),
{
}

/// Adjacency never links a cell to itself.
pub proof fn lemma_adjacent_irreflexive(r: int, c: int)
    ensures
        !adjacent(r, c, r, c),
{
}

/// The cell at position `i` (`i` in `0..3`) of line `k` (`k` in `0..8`):
/// lines 0-2 are the rows, 3-5 the columns, 6 the main diagonal and 7 the
/// anti-diagonal.
pub open spec fn line_row(k: int, i: int) -> int {
    if k < 3 {
        k
    } else {
        i
    }
}

pub open spec fn line_col(k: int, i: int) -> int {
    if k < 3 {
        i
    } else if k < 6 {
        k - 3
    } else if k == 6 {
        i
    } else {
        2 - i
    }
}

pub open spec fn on_line(k: int, r: int, c: int) -> bool {
    &&& in_range(r, c)
    &&& if k < 3 {
        r == k
    } else if k < 6 {
        c == k - 3
    } else if k == 6 {
        r == c
    } else {
        r + c == 2
    }
}

pub open spec fn cell_is(b: Board, r: int, c: int, v: u8) -> int {
    if b[r][c] == v {
        1
    } else {
        0
    }
}

/// How many cells of line `k` hold the value `v`.
pub open spec fn line_count(b: Board, k: int, v: u8) -> int {
    cell_is(b, line_row(k, 0), line_col(k, 0), v) + cell_is(b, line_row(k, 1), line_col(k, 1), v)
        + cell_is(b, line_row(k, 2), line_col(k, 2), v)
}

/// Some line is filled by pieces of value `v`.
pub open spec fn has_line(b: Board, v: u8) -> bool {
    exists|k: int| 0 <= k < 8 && line_count(b, k, v) == 3
}

/// The empty cell `(r, c)` closes a line in which `p` already holds the two
/// other cells.
pub open spec fn is_threat(b: Board, p: Player, r: int, c: int) -> bool {
    &&& in_range(r, c)
    &&& b[r][c] == 0
    &&& exists|k: int| 0 <= k < 8 && on_line(k, r, c) && line_count(b, k, p.piece()) == 2
}

/// Index `i` in `0..18` stands for the first player at cell `i` below 9, and
/// for the second player at cell `i - 9` above.
pub open spec fn threat_at(b: Board, i: int) -> Option<(Player, usize, usize)> {
    let p = if i < 9 {
        Player::One
    } else {
        Player::Two
    };
    let j = if i < 9 {
        i
    } else {
        i - 9
    };
    if is_threat(b, p, row_of(j), col_of(j)) {
        Some((p, row_of(j) as usize, col_of(j) as usize))
    } else {
        None
    }
}

/// Every threat on the board, the first player's before the second's, each
/// in row-major order.
pub open spec fn threats_upto(b: Board, n: nat) -> Seq<(Player, usize, usize)> {
    gather(n, |i: int| threat_at(b, i))
}

pub open spec fn threats(b: Board) -> Seq<(Player, usize, usize)> {
    threats_upto(b, 18)
}

/// Number of cells of the board that hold `v`.
pub open spec fn row_total(b: Board, r: int, v: u8) -> int {
    cell_is(b, r, 0, v) + cell_is(b, r, 1, v) + cell_is(b, r, 2, v)
}

pub open spec fn count(b: Board, v: u8) -> int {
    row_total(b, 0, v) + row_total(b, 1, v) + row_total(b, 2, v)
}

/// Changing one cell changes each count by what that cell held and holds.
pub proof fn lemma_count_update(b1: Board, b2: Board, r: int, c: int, x: u8)
    requires
        in_range(r, c),
        forall|i: int, j: int|
            in_range(i, j) && !(i == r && j == c) ==> #[trigger] b2[i][j] == b1[i][j],
    ensures
        count(b2, x) == count(b1, x) - cell_is(b1, r, c, x) + cell_is(b2, r, c, x),
{
    assert(b2[0][0] == b1[0][0] || (r == 0 && c == 0));
    assert(b2[0][1] == b1[0][1] || (r == 0 && c == 1));
    assert(b2[0][2] == b1[0][2] || (r == 0 && c == 2));
    assert(b2[1][0] == b1[1][0] || (r == 1 && c == 0));
    assert(b2[1][1] == b1[1][1] || (r == 1 && c == 1));
    assert(b2[1][2] == b1[1][2] || (r == 1 && c == 2));
    assert(b2[2][0] == b1[2][0] || (r == 2 && c == 0));
    assert(b2[2][1] == b1[2][1] || (r == 2 && c == 1));
    assert(b2[2][2] == b1[2][2] || (r == 2 && c == 2));
}

} // verus!
