//! Cell states, player marks and the glyph configuration used when rendering.

use vstd::prelude::*;

verus! {

/// One of the two players.
#[derive(Debug, Clone, Copy, PartialEq, Eq, Structural)]
pub enum Player {
    P1,
    P2,
}

impl Player {
    /// The player whose turn follows this one's.
    pub open spec fn next_spec(self) -> Player {
        match self {
            Player::P1 => Player::P2,
            Player::P2 => Player::P1,
        }
    }

    /// Alternates the turn: player one hands over to player two and back.
    pub fn next(self) -> (r: Self)
        ensures
            r == self.next_spec(),
    {
        match self {
            Self::P1 => Self::P2,
            Self::P2 => Self::P1,
        }
    }
}

/// A piece on its way onto the board, marked with the player that drops it.
#[derive(Debug, Clone, Copy, PartialEq, Eq, Structural)]
pub enum Piece {
    Reg(Player),
}

/// One grid position: empty, or occupied by the player that dropped there.
///
/// A cell only ever moves from `Empty` to `Occupied`; it never clears and
/// never changes owner.
#[derive(Debug, Clone, Copy, PartialEq, Eq, Structural)]
pub enum Cell {
    Empty,
    Occupied(Player),
}

/// The display strings chosen for each cell state.
///
/// The strings are arbitrary (they may hold styling escape sequences); the
/// renderer passes them through verbatim.
#[derive(Debug, Clone, Copy, PartialEq, Eq)]
pub struct PieceDef {
    pub p1: &'static str,
    pub p2: &'static str,
    pub empty: &'static str,
}

impl PieceDef {
    /// Bundles the three display strings into a glyph configuration.
    pub fn new(p1: &'static str, p2: &'static str, empty: &'static str) -> (r: Self)
        ensures
            r.p1@ == p1@,
            r.p2@ == p2@,
            r.empty@ == empty@,
    {
        Self { p1, p2, empty }
    }
}

/// The cell a dropped piece settles into.
pub open spec fn cell_of(pc: Piece) -> Cell {
    match pc {
        Piece::Reg(p) => Cell::Occupied(p),
    }
}

/// The display string configured for a player's mark.
pub open spec fn player_glyph(p: Player, def: PieceDef) -> Seq<char> {
    match p {
        Player::P1 => def.p1@,
        Player::P2 => def.p2@,
    }
}

/// The display string configured for a piece.
pub open spec fn piece_glyph(pc: Piece, def: PieceDef) -> Seq<char> {
    match pc {
        Piece::Reg(p) => player_glyph(p, def),
    }
}

/// The display string configured for a cell state.
pub open spec fn cell_glyph(c: Cell, def: PieceDef) -> Seq<char> {
    match c {
        Cell::Empty => def.empty@,
        Cell::Occupied(p) => player_glyph(p, def),
    }
}

impl Piece {
    /// The glyph that renders this piece, as configured in `def`.
    pub fn write(&self, def: PieceDef) -> (r: String)
        ensures
            r@ == piece_glyph(*self, def),
    {
        match self {
            Self::Reg(Player::P1) => def.p1.to_owned(),
            Self::Reg(Player::P2) => def.p2.to_owned(),
        }
    }
}

impl Cell {
    /// The glyph that renders this cell, as configured in `def`.
    pub fn write(&self, def: PieceDef) -> (r: String)
        ensures
            r@ == cell_glyph(*self, def),
    {
        match self {
            Self::Empty => def.empty.to_owned(),
            Self::Occupied(p) => Piece::Reg(*p).write(def),
        }
    }

    /// Whether the cell holds no piece.
    pub fn is_empty(&self) -> (r: bool)
        ensures
            r <==> (*self is Empty),
    {
        match self {
            Self::Empty => true,
            Self::Occupied(_) => false,
        }
    }
}

} // verus!
