//! A move in human coordinates: a column letter `a`-`c` and a row digit
//! `1`-`3` for the cell played, and a second such pair for the destination of
//! a relocation.
use vstd::prelude::*;
use crate::error::GameError;
use crate::text::{decimal, push_char, push_decimal};

verus! {

/// Zero-based column of a column letter, either case; -1 for any other char.
pub open spec fn col_index(c: char) -> int {
    if c == 'a' || c == 'A' {
        0
    } else if c == 'b' || c == 'B' {
        1
    } else if c == 'c' || c == 'C' {
        2
    } else {
        -1
    }
}

/// Zero-based row of a row digit; -1 for any other char.
pub open spec fn row_index(c: char) -> int {
    if c == '1' {
        0
    } else if c == '2' {
        1
    } else if c == '3' {
        2
    } else {
        -1
    }
}

/// The lower-case letter of a zero-based column.
pub open spec fn col_letter(i: int) -> char {
    if i == 0 {
        'a'
    } else if i == 1 {
        'b'
    } else {
        'c'
    }
}

pub open spec fn valid_row(r: u8) -> bool {
    1 <= r <= 3
}

#[derive(Clone, Copy, Debug, PartialEq, Eq, Structural)]
pub struct Move {
    pub col: char,
    pub row: u8,
    pub new_col: Option<char>,
    pub new_row: Option<u8>,
}

/// The move that a text of one or two coordinates spells, letters kept in
/// the case written.
pub open spec fn parse(s: Seq<char>) -> Option<Move> {
    if s.len() == 2 && col_index(s[0]) >= 0 && row_index(s[1]) >= 0 {
        Some(Move { col: s[0], row: (row_index(s[1]) + 1) as u8, new_col: None, new_row: None })
    } else if s.len() == 4 && col_index(s[0]) >= 0 && row_index(s[1]) >= 0 && col_index(s[2]) >= 0
        && row_index(s[3]) >= 0 {
        Some(
            Move {
                col: s[0],
                row: (row_index(s[1]) + 1) as u8,
                new_col: Some(s[2]),
                new_row: Some((row_index(s[3]) + 1) as u8),
            },
        )
    } else {
        None
    }
}

fn col_char_index(c: char) -> (r: Option<usize>)
    ensures
        r == (if col_index(c) >= 0 {
            Some(col_index(c) as usize)
        } else {
            None::<usize>
        }),
{
    match c {
        'a' | 'A' => Some(0),
        'b' | 'B' => Some(1),
        'c' | 'C' => Some(2),
        _ => None,
    }
}

fn row_char_index(c: char) -> (r: Option<usize>)
    ensures
        r == (if row_index(c) >= 0 {
            Some(row_index(c) as usize)
        } else {
            None::<usize>
        }),
{
    match c {
        '1' => Some(0),
        '2' => Some(1),
        '3' => Some(2),
        _ => None,
    }
}

fn letter(i: usize) -> (c: char)
    ensures
        c == col_letter(i as int),
{
    if i == 0 {
        'a'
    } else if i == 1 {
        'b'
    } else {
        'c'
    }
}

fn chars_of(s: &String) -> (v: Vec<char>)
    ensures
        v@ == s@,
{
    let mut v: Vec<char> = Vec::new();
    for ch in it: s.as_str().chars()
        invariant
            it.seq() == s@,
            v@ == s@.take(it.index()),
    {
        v.push(ch);
    }
    v
}

impl Move {
    pub open spec fn is_placement(self) -> bool {
        self.new_col is None && self.new_row is None
    }

    pub open spec fn is_relocation(self) -> bool {
        self.new_col is Some && self.new_row is Some
    }

    /// A syntactically valid move: a valid cell, and for a relocation a
    /// valid destination.
    pub open spec fn wf(self) -> bool {
        &&& col_index(self.col) >= 0
        &&& valid_row(self.row)
        &&& self.is_placement() || {
            &&& self.is_relocation()
            &&& col_index(self.new_col->0) >= 0
            &&& valid_row(self.new_row->0)
        }
    }

    /// Zero-based `(row, col, new_row, new_col)` of a valid move.
    pub open spec fn coords(self) -> Option<(int, int, Option<int>, Option<int>)> {
        if !self.wf() {
            None
        } else if self.is_placement() {
            Some((self.row - 1, col_index(self.col), None, None))
        } else {
            Some(
                (
                    self.row - 1,
                    col_index(self.col),
                    Some(self.new_row->0 - 1),
                    Some(col_index(self.new_col->0)),
                ),
            )
        }
    }

    pub open spec fn placement_at(r: int, c: int) -> Move {
        Move { col: col_letter(c), row: (r + 1) as u8, new_col: None, new_row: None }
    }

    pub open spec fn relocation_of(r: int, c: int, nr: int, nc: int) -> Move {
        Move {
            col: col_letter(c),
            row: (r + 1) as u8,
            new_col: Some(col_letter(nc)),
            new_row: Some((nr + 1) as u8),
        }
    }

    /// The text of the move: letter and row number of the cell, then those
    /// of the destination for a relocation.
    pub open spec fn text(self) -> Seq<char> {
        seq![self.col] + decimal(self.row as nat) + match (self.new_col, self.new_row) {
            (Some(c), Some(r)) => seq![c] + decimal(r as nat),
            _ => Seq::empty(),
        }
    }

    /// A placeholder move that names no cell.
    pub fn new() -> (m: Move)
        ensures
            m == (Move { col: 'a', row: 0, new_col: None, new_row: None }),
    {
        Move { col: 'a', row: 0, new_col: None, new_row: None }
    }

    /// Reads a move from its text: one coordinate for a placement, two
    /// run together for a relocation.
    pub fn string_to_move(str_move: &String) -> (r: Result<Move, GameError>)
        ensures
            r == (match parse(str_move@) {
                Some(m) => Ok::<Move, GameError>(m),
                None => Err(GameError::MalformedCoordinate),
            }),
    {
        let chars = chars_of(str_move);
        if chars.len() != 2 && chars.len() != 4 {
            return Err(GameError::MalformedCoordinate);
        }
        let col = col_char_index(chars[0]);
        let row = row_char_index(chars[1]);
        if col.is_none() || row.is_none() {
            return Err(GameError::MalformedCoordinate);
        }
        let row_number = (row.unwrap() + 1) as u8;
        if chars.len() == 2 {
            return Ok(Move { col: chars[0], row: row_number, new_col: None, new_row: None });
        }
        let new_col = col_char_index(chars[2]);
        let new_row = row_char_index(chars[3]);
        if new_col.is_none() || new_row.is_none() {
            return Err(GameError::MalformedCoordinate);
        }
        Ok(
            Move {
                col: chars[0],
                row: row_number,
                new_col: Some(chars[2]),
                new_row: Some((new_row.unwrap() + 1) as u8),
            },
        )
    }

    /// The placement on the zero-based cell `(row, col)`.
    pub fn place_new_piece(row: &usize, col: &usize) -> (m: Move)
        requires
            *row < 3,
            *col < 3,
        ensures
            m == Move::placement_at(*row as int, *col as int),
    {
        Move { col: letter(*col), row: (*row + 1) as u8, new_col: None, new_row: None }
    }

    /// The relocation from the zero-based cell `(row, col)` to
    /// `(new_row, new_col)`.
    pub fn move_piece(row: &usize, col: &usize, new_row: &usize, new_col: &usize) -> (m: Move)
        requires
            *row < 3,
            *col < 3,
            *new_row < 3,
            *new_col < 3,
        ensures
            m == Move::relocation_of(*row as int, *col as int, *new_row as int, *new_col as int),
    {
        Move {
            col: letter(*col),
            row: (*row + 1) as u8,
            new_col: Some(letter(*new_col)),
            new_row: Some((*new_row + 1) as u8),
        }
    }

    /// The placement on `(row, col)`, when that cell is on the board.
    pub fn coord_to_new_move(row: &usize, col: &usize) -> (r: Result<Move, ()>)
        ensures
            r == (if *row < 3 && *col < 3 {
                Ok::<Move, ()>(Move::placement_at(*row as int, *col as int))
            } else {
                Err(())
            }),
    {
        if *row > 2 || *col > 2 {
            return Err(());
        }
        Ok(Move::place_new_piece(row, col))
    }

    /// The relocation from `(old_row, old_col)` to `(new_row, new_col)`,
    /// when both cells are on the board.
    pub fn coord_to_move(old_row: &usize, old_col: &usize, new_row: &usize, new_col: &usize) -> (r:
        Result<Move, ()>)
        ensures
            r == (if *old_row < 3 && *old_col < 3 && *new_row < 3 && *new_col < 3 {
                Ok::<Move, ()>(
                    Move::relocation_of(*old_row as int, *old_col as int, *new_row as int, *new_col as int),
                )
            } else {
                Err(())
            }),
    {
        if *old_row > 2 || *old_col > 2 || *new_row > 2 || *new_col > 2 {
            return Err(());
        }
        Ok(Move::move_piece(old_row, old_col, new_row, new_col))
    }

    /// Whether the move places a new piece (it names no destination row).
    pub fn is_new_move(&self) -> (b: bool)
        ensures
            b == (self.new_row is None),
    {
        self.new_row.is_none()
    }

    /// Zero-based `(row, col)` of the cell the move starts from; `(3, 3)`
    /// when that cell is not a valid coordinate.
    pub fn new_as_coord(&self) -> (rc: (usize, usize))
        ensures
            rc == (if col_index(self.col) >= 0 && valid_row(self.row) {
                ((self.row - 1) as usize, col_index(self.col) as usize)
            } else {
                (3usize, 3usize)
            }),
    {
        match col_char_index(self.col) {
            Some(c) => {
                if self.row >= 1 && self.row <= 3 {
                    ((self.row - 1) as usize, c)
                } else {
                    (3, 3)
                }
            },
            None => (3, 3),
        }
    }

    /// Zero-based `(row, col)` of the destination of a relocation; `(3, 3)`
    /// for a placement or an invalid destination.
    pub fn move_as_coord(&self) -> (rc: (usize, usize))
        ensures
            rc == (match (self.new_col, self.new_row) {
                (Some(c), Some(r)) => if col_index(c) >= 0 && valid_row(r) {
                    ((r - 1) as usize, col_index(c) as usize)
                } else {
                    (3usize, 3usize)
                },
                _ => (3usize, 3usize),
            }),
    {
        match (self.new_col, self.new_row) {
            (Some(c), Some(r)) => {
                match col_char_index(c) {
                    Some(ci) => {
                        if r >= 1 && r <= 3 {
                            ((r - 1) as usize, ci)
                        } else {
                            (3, 3)
                        }
                    },
                    None => (3, 3),
                }
            },
            _ => (3, 3),
        }
    }

    /// Zero-based `(row, col, new_row, new_col)`; the destination is `None`
    /// for a placement. Fails on a move that is not valid.
    pub fn as_coord(&self) -> (r: Result<(usize, usize, Option<usize>, Option<usize>), ()>)
        ensures
            match self.coords() {
                Some((a, b, c, d)) => r matches Ok((ra, rb, rc, rd)) && ra == a && rb == b && (
                match c {
                    Some(x) => rc == Some(x as usize),
                    None => rc is None,
                }) && (match d {
                    Some(x) => rd == Some(x as usize),
                    None => rd is None,
                }),
                None => r is Err,
            },
    {
        let (row, col) = self.new_as_coord();
        if row == 3 {
            return Err(());
        }
        if self.new_col.is_none() && self.new_row.is_none() {
            return Ok((row, col, None, None));
        }
        let (new_row, new_col) = self.move_as_coord();
        if new_row == 3 || self.new_col.is_none() || self.new_row.is_none() {
            return Err(());
        }
        Ok((row, col, Some(new_row), Some(new_col)))
    }

    /// The text of the move, as `string_to_move` reads it.
    pub fn print(&self) -> (s: String)
        ensures
            s@ == self.text(),
    {
        let mut output = String::new();
        push_char(&mut output, self.col);
        push_decimal(&mut output, self.row);
        match (self.new_col, self.new_row) {
            (Some(c), Some(r)) => {
                push_char(&mut output, c);
                push_decimal(&mut output, r);
            },
            _ => {},
        }
        assert(output@ =~= self.text());
        output
    }
}

/// Reading the text of a valid move gives the move back.
pub proof fn lemma_parse_text(m: Move)
    requires
        m.wf(),
    ensures
        parse(m.text()) == Some(m),
{
    assert(decimal(m.row as nat) == seq![crate::text::digit_char(m.row as int)]);
    if m.is_relocation() {
        let r = m.new_row->0;
        assert(decimal(r as nat) == seq![crate::text::digit_char(r as int)]);
    }
    let t = m.text();
    assert(t[0] == m.col);
}

} // verus!
