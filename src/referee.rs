//! Board topology and the threat scan: which cells are linked, and which
//! empty cells would complete a line.
use vstd::prelude::*;
use crate::board::{
    adjacent, cell_is, gather, in_range, is_threat, lemma_gather_contains, line_col, line_count,
    line_row, on_line, row_of, col_of, threat_at, threats, threats_upto, has_line, Board, Player,
};

verus! {

/// Cells linked to `(r, c)`, in row-major order up to index `n`.
pub open spec fn neighbors_upto(r: int, c: int, n: nat) -> Seq<(usize, usize)> {
    gather(
        n,
        |i: int|
            if adjacent(r, c, row_of(i), col_of(i)) {
                Some((row_of(i) as usize, col_of(i) as usize))
            } else {
                None
            },
    )
}

pub struct Referee {}

/// Row and column of the cell at position `i` of line `k`.
fn line_cell(k: usize, i: usize) -> (rc: (usize, usize))
    requires
        k < 8,
        i < 3,
    ensures
        rc.0 == line_row(k as int, i as int),
        rc.1 == line_col(k as int, i as int),
        in_range(rc.0 as int, rc.1 as int),
{
    if k < 3 {
        (k, i)
    } else if k < 6 {
        (i, k - 3)
    } else if k == 6 {
        (i, i)
    } else {
        (i, 2 - i)
    }
}

fn cell_on_line(k: usize, r: usize, c: usize) -> (b: bool)
    ensures
        b == on_line(k as int, r as int, c as int),
{
    if r >= 3 || c >= 3 {
        false
    } else if k < 3 {
        r == k
    } else if k < 6 {
        c + 3 == k
    } else if k == 6 {
        r == c
    } else {
        r + c == 2
    }
}

/// Number of cells of line `k` that hold `v`.
fn count_on_line(b: &Board, k: usize, v: u8) -> (n: usize)
    requires
        k < 8,
    ensures
        n == line_count(*b, k as int, v),
        n <= 3,
{
    let mut n: usize = 0;
    let mut i: usize = 0;
    while i < 3
        invariant
            k < 8,
            i <= 3,
            n <= i,
            n == (if i > 0 { cell_is(*b, line_row(k as int, 0), line_col(k as int, 0), v) } else { 0 })
                + (if i > 1 { cell_is(*b, line_row(k as int, 1), line_col(k as int, 1), v) } else { 0 })
                + (if i > 2 { cell_is(*b, line_row(k as int, 2), line_col(k as int, 2), v) } else { 0 }),
        decreases 3 - i,
    {
        let (r, c) = line_cell(k, i);
        if b[r][c] == v {
            n = n + 1;
        }
        i = i + 1;
    }
    n
}

/// Whether the cell `(r, c)` is a threat of the player whose pieces are `p`.
fn closes_line(b: &Board, p: Player, r: usize, c: usize) -> (t: bool)
    requires
        r < 3,
        c < 3,
    ensures
        t == is_threat(*b, p, r as int, c as int),
{
    if b[r][c] != 0 {
        return false;
    }
    let v = p.piece();
    let mut k: usize = 0;
    while k < 8
        invariant
            k <= 8,
            r < 3,
            c < 3,
            v == p.piece(),
            b[r as int][c as int] == 0,
            forall|j: int|
                0 <= j < k ==> !(on_line(j, r as int, c as int) && #[trigger] line_count(*b, j, v) == 2),
        decreases 8 - k,
    {
        if cell_on_line(k, r, c) && count_on_line(b, k, v) == 2 {
            assert(on_line(k as int, r as int, c as int) && line_count(*b, k as int, v) == 2);
            return true;
        }
        k = k + 1;
    }
    false
}

impl Referee {
    /// Whether a piece may slide from `(old_row, old_col)` to
    /// `(new_row, new_col)`: the two cells are linked by a drawn line.
    pub fn is_valid_move(old_row: usize, old_col: usize, new_row: usize, new_col: usize) -> (r: bool)
        ensures
            r == adjacent(old_row as int, old_col as int, new_row as int, new_col as int),
    {
        if old_row >= 3 || old_col >= 3 || new_row >= 3 || new_col >= 3 {
            return false;
        }
        let undrawn = (old_row == 0 && old_col == 1 && new_row == 1 && new_col == 0)
            || (old_row == 0 && old_col == 1 && new_row == 1 && new_col == 2)
            || (old_row == 1 && old_col == 0 && new_row == 2 && new_col == 1)
            || (old_row == 2 && old_col == 1 && new_row == 1 && new_col == 2);
        let undrawn_rev = (new_row == 0 && new_col == 1 && old_row == 1 && old_col == 0)
            || (new_row == 0 && new_col == 1 && old_row == 1 && old_col == 2)
            || (new_row == 1 && new_col == 0 && old_row == 2 && old_col == 1)
            || (new_row == 2 && new_col == 1 && old_row == 1 && old_col == 2);
        if undrawn || undrawn_rev {
            return false;
        }
        let row_diff = if old_row >= new_row {
            old_row - new_row
        } else {
            new_row - old_row
        };
        let col_diff = if old_col >= new_col {
            old_col - new_col
        } else {
            new_col - old_col
        };
        row_diff <= 1 && col_diff <= 1 && (row_diff == 1 || col_diff == 1)
    }

    /// All cells linked to `(row, col)`, in row-major order; none when the
    /// cell is off the board.
    pub fn neighbors(row: usize, col: usize) -> (v: Vec<(usize, usize)>)
        ensures
            v@ == neighbors_upto(row as int, col as int, 9),
            forall|p: (usize, usize)|
                v@.contains(p) <==> adjacent(row as int, col as int, p.0 as int, p.1 as int),
    {
        let mut v: Vec<(usize, usize)> = Vec::new();
        let mut i: usize = 0;
        while i < 9
            invariant
                i <= 9,
                v@ == neighbors_upto(row as int, col as int, i as nat),
            decreases 9 - i,
        {
            if Referee::is_valid_move(row, col, i / 3, i % 3) {
                v.push((i / 3, i % 3));
            }
            i = i + 1;
        }
        proof {
            assert forall|p: (usize, usize)|
                v@.contains(p) <==> adjacent(row as int, col as int, p.0 as int, p.1 as int) by {
                let f = |i: int|
                    if adjacent(row as int, col as int, row_of(i), col_of(i)) {
                        Some((row_of(i) as usize, col_of(i) as usize))
                    } else {
                        None
                    };
                lemma_gather_contains(9, f, p);
                if adjacent(row as int, col as int, p.0 as int, p.1 as int) {
                    assert(f(p.0 * 3 + p.1) == Some(p));
                }
            }
        }
        v
    }

    /// Every threat on the board: each `(player, row, col)` whose empty cell
    /// would complete a line of that player. The first player's threats come
    /// first, each player's in row-major order, each cell once.
    pub fn get_checkmate_positions(board: &Board) -> (v: Vec<(Player, usize, usize)>)
        ensures
            v@ == threats(*board),
            forall|t: (Player, usize, usize)|
                v@.contains(t) <==> is_threat(*board, t.0, t.1 as int, t.2 as int),
    {
        let mut v: Vec<(Player, usize, usize)> = Vec::new();
        let mut i: usize = 0;
        while i < 18
            invariant
                i <= 18,
                v@ == threats_upto(*board, i as nat),
            decreases 18 - i,
        {
            let p = if i < 9 {
                Player::One
            } else {
                Player::Two
            };
            let j = if i < 9 {
                i
            } else {
                i - 9
            };
            if closes_line(board, p, j / 3, j % 3) {
                v.push((p, j / 3, j % 3));
            }
            i = i + 1;
        }
        proof {
            assert forall|t: (Player, usize, usize)|
                v@.contains(t) <==> is_threat(*board, t.0, t.1 as int, t.2 as int) by {
                let f = |i: int| threat_at(*board, i);
                lemma_gather_contains(18, f, t);
                if v@.contains(t) {
                    let i = choose|i: int| 0 <= i < 18 && threat_at(*board, i) == Some(t);
                    let j = if i < 9 {
                        i
                    } else {
                        i - 9
                    };
                    assert(0 <= row_of(j) < 3 && 0 <= col_of(j) < 3);
                }
                if is_threat(*board, t.0, t.1 as int, t.2 as int) {
                    let j: int = t.1 * 3 + t.2;
                    assert(row_of(j) == t.1 && col_of(j) == t.2);
                    if t.0 == Player::One {
                        assert(f(j) == Some(t));
                    } else {
                        assert(f(j + 9) == Some(t));
                    }
                }
            }
        }
        v
    }
}

} // verus!

verus! {

impl Referee {
    /// Whether some line is filled with pieces of value `v`.
    pub fn has_line_of(board: &Board, v: u8) -> (b: bool)
        ensures
            b == has_line(*board, v),
    {
        let mut k: usize = 0;
        while k < 8
            invariant
                k <= 8,
                forall|j: int| 0 <= j < k ==> #[trigger] line_count(*board, j, v) != 3,
            decreases 8 - k,
        {
            if count_on_line(board, k, v) == 3 {
                return true;
            }
            k = k + 1;
        }
        false
    }
}

} // verus!
