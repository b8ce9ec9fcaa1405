//! Chess positions and moves as plain values, and the position's text in
//! Forsyth-Edwards notation.
use vstd::prelude::*;

verus! {

#[derive(Clone, Copy, PartialEq, Eq, Debug)]
pub enum Piece {
    Pawn,
    Knight,
    Bishop,
    Rook,
    Queen,
    King,
}

#[derive(Clone, Copy, PartialEq, Eq, Debug)]
pub enum Color {
    White,
    Black,
}

/// The pieces in the order of their places.
pub const PIECES: [Piece; 6] = [
    Piece::Pawn,
    Piece::Knight,
    Piece::Bishop,
    Piece::Rook,
    Piece::Queen,
    Piece::King,
];

impl Piece {
    /// The piece's place in the order pawn, knight, bishop, rook, queen, king.
    pub open spec fn index(self) -> int {
        match self {
            Piece::Pawn => 0,
            Piece::Knight => 1,
            Piece::Bishop => 2,
            Piece::Rook => 3,
            Piece::Queen => 4,
            Piece::King => 5,
        }
    }

    pub fn to_index(self) -> (i: usize)
        ensures
            i == self.index(),
    {
        match self {
            Piece::Pawn => 0,
            Piece::Knight => 1,
            Piece::Bishop => 2,
            Piece::Rook => 3,
            Piece::Queen => 4,
            Piece::King => 5,
        }
    }

    pub fn same(self, other: Piece) -> (r: bool)
        ensures
            r == (self == other),
    {
        self.to_index() == other.to_index()
    }
}

impl Color {
    pub open spec fn index(self) -> int {
        match self {
            Color::White => 0,
            Color::Black => 1,
        }
    }

    pub fn to_index(self) -> (i: usize)
        ensures
            i == self.index(),
    {
        match self {
            Color::White => 0,
            Color::Black => 1,
        }
    }

    pub open spec fn opponent(self) -> Color {
        match self {
            Color::White => Color::Black,
            Color::Black => Color::White,
        }
    }

    pub fn other(self) -> (c: Color)
        ensures
            c == self.opponent(),
    {
        match self {
            Color::White => Color::Black,
            Color::Black => Color::White,
        }
    }

    pub fn same(self, other: Color) -> (r: bool)
        ensures
            r == (self == other),
    {
        self.to_index() == other.to_index()
    }
}

/// A move: the squares it leaves and reaches, counted from a1 = 0 along the
/// first rank to h8 = 63, and the piece a pawn becomes, if it promotes.
#[derive(Clone, Copy, PartialEq, Eq, Debug)]
pub struct Move {
    pub from: u8,
    pub to: u8,
    pub promotion: Option<Piece>,
}

impl Move {
    /// Both squares are on the board.
    pub open spec fn wf(self) -> bool {
        self.from < 64 && self.to < 64
    }

    pub fn new(from: u8, to: u8, promotion: Option<Piece>) -> (m: Move)
        ensures
            m == (Move { from, to, promotion }),
    {
        Move { from, to, promotion }
    }

    /// The same squares in the other direction, without promotion.
    pub open spec fn reversed(self) -> Move {
        Move { from: self.to, to: self.from, promotion: None }
    }
}

/// Whether bit `i` of `board` is set.
pub open spec fn bit(board: u64, i: u8) -> bool {
    (board >> i) & 1 == 1
}

pub fn test_bit(board: u64, i: u8) -> (r: bool)
    requires
        i < 64,
    ensures
        r == bit(board, i),
{
    (board >> i) & 1 == 1
}

/// A position: where the men stand, whose turn it is, who may still castle
/// and which pawn can be taken in passing.
#[derive(Clone, Copy, PartialEq, Eq, Debug)]
pub struct Position {
    /// One board per piece, in the order of `Piece::index`; bit `s` is set
    /// iff a man of that kind stands on square `s`.
    pub pieces: [u64; 6],
    /// The squares that hold a white man, then those that hold a black one.
    pub colors: [u64; 2],
    /// 0 if White is to move, 1 if Black is.
    pub side: u8,
    /// For White, then Black: bit 0 is set while castling on the king's side
    /// is still allowed, bit 1 for the queen's side.
    pub castling: [u8; 2],
    /// The square of the pawn that has just advanced two ranks and can be
    /// taken in passing.
    pub en_passant: Option<u8>,
}

impl Position {
    /// The kind of man on `sq`.
    pub open spec fn piece_at(self, sq: u8) -> Option<Piece> {
        if bit(self.pieces[0], sq) {
            Some(Piece::Pawn)
        } else if bit(self.pieces[1], sq) {
            Some(Piece::Knight)
        } else if bit(self.pieces[2], sq) {
            Some(Piece::Bishop)
        } else if bit(self.pieces[3], sq) {
            Some(Piece::Rook)
        } else if bit(self.pieces[4], sq) {
            Some(Piece::Queen)
        } else if bit(self.pieces[5], sq) {
            Some(Piece::King)
        } else {
            None
        }
    }

    /// The colour of the man on `sq`.
    pub open spec fn color_at(self, sq: u8) -> Option<Color> {
        if bit(self.colors[0], sq) {
            Some(Color::White)
        } else if bit(self.colors[1], sq) {
            Some(Color::Black)
        } else {
            None
        }
    }

    /// The man on `sq`: its kind and colour, where the position records both.
    pub open spec fn man_at(self, sq: u8) -> Option<(Piece, Color)> {
        match (self.piece_at(sq), self.color_at(sq)) {
            (Some(p), Some(c)) => Some((p, c)),
            _ => None,
        }
    }

    /// Whether a man stands on `sq`.
    pub open spec fn occupied(self, sq: u8) -> bool {
        self.man_at(sq) is Some
    }

    pub open spec fn mover(self) -> Color {
        if self.side == 0 {
            Color::White
        } else {
            Color::Black
        }
    }

    pub fn piece_on(&self, sq: u8) -> (r: Option<Piece>)
        requires
            sq < 64,
        ensures
            r == self.piece_at(sq),
    {
        if test_bit(self.pieces[0], sq) {
            Some(Piece::Pawn)
        } else if test_bit(self.pieces[1], sq) {
            Some(Piece::Knight)
        } else if test_bit(self.pieces[2], sq) {
            Some(Piece::Bishop)
        } else if test_bit(self.pieces[3], sq) {
            Some(Piece::Rook)
        } else if test_bit(self.pieces[4], sq) {
            Some(Piece::Queen)
        } else if test_bit(self.pieces[5], sq) {
            Some(Piece::King)
        } else {
            None
        }
    }

    pub fn color_on(&self, sq: u8) -> (r: Option<Color>)
        requires
            sq < 64,
        ensures
            r == self.color_at(sq),
    {
        if test_bit(self.colors[0], sq) {
            Some(Color::White)
        } else if test_bit(self.colors[1], sq) {
            Some(Color::Black)
        } else {
            None
        }
    }

    pub fn man_on(&self, sq: u8) -> (r: Option<(Piece, Color)>)
        requires
            sq < 64,
        ensures
            r == self.man_at(sq),
    {
        match (self.piece_on(sq), self.color_on(sq)) {
            (Some(p), Some(c)) => Some((p, c)),
            _ => None,
        }
    }

    pub fn side_to_move(&self) -> (c: Color)
        ensures
            c == self.mover(),
    {
        if self.side == 0 {
            Color::White
        } else {
            Color::Black
        }
    }

    /// The position from which every game starts.
    pub open spec fn start() -> Position {
        Position {
            pieces: [
                0x00ff_0000_0000_ff00u64,
                0x4200_0000_0000_0042u64,
                0x2400_0000_0000_0024u64,
                0x8100_0000_0000_0081u64,
                0x0800_0000_0000_0008u64,
                0x1000_0000_0000_0010u64,
            ],
            colors: [0x0000_0000_0000_ffffu64, 0xffff_0000_0000_0000u64],
            side: 0,
            castling: [3u8, 3u8],
            en_passant: None,
        }
    }

    /// The position from which every game starts.
    pub fn startpos() -> (p: Position)
        ensures
            p == Position::start(),
    {
        let p = Position {
            pieces: [
                0x00ff_0000_0000_ff00,
                0x4200_0000_0000_0042,
                0x2400_0000_0000_0024,
                0x8100_0000_0000_0081,
                0x0800_0000_0000_0008,
                0x1000_0000_0000_0010,
            ],
            colors: [0x0000_0000_0000_ffff, 0xffff_0000_0000_0000],
            side: 0,
            castling: [3, 3],
            en_passant: None,
        };
        assert(p.pieces =~= Position::start().pieces);
        assert(p.colors =~= Position::start().colors);
        assert(p.castling =~= Position::start().castling);
        p
    }

    /// Whether two positions are the same in every part.
    pub fn equals(&self, other: &Position) -> (r: bool)
        ensures
            r == (*self == *other),
    {
        let mut same_pieces = true;
        let mut i: usize = 0;
        while i < 6
            invariant
                i <= 6,
                same_pieces == (forall|j: int| 0 <= j < i ==> self.pieces[j] == other.pieces[j]),
            decreases 6 - i,
        {
            if self.pieces[i] != other.pieces[i] {
                same_pieces = false;
            }
            i += 1;
        }
        let same_passant = match (self.en_passant, other.en_passant) {
            (Some(a), Some(b)) => a == b,
            (None, None) => true,
            _ => false,
        };
        let same_rest = self.colors[0] == other.colors[0] && self.colors[1] == other.colors[1]
            && self.side == other.side && self.castling[0] == other.castling[0]
            && self.castling[1] == other.castling[1];
        assert(same_pieces ==> self.pieces =~= other.pieces);
        assert(same_rest ==> self.colors =~= other.colors && self.castling =~= other.castling);
        same_pieces && same_passant && same_rest
    }
}

} // verus!
