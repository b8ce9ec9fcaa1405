//! The sixteen keys of the keypad.
use crate::position::Piece;
use vstd::prelude::*;

verus! {

/// A key, named by what is printed on it.
#[derive(Clone, Copy, PartialEq, Eq, Debug)]
pub enum MM2Button {
    CL,
    POS,
    MEM,
    INFO,
    LEV,
    ENT,
    RightWhite0,
    LeftBlack9,
    E5Queen,
    F6King,
    G7,
    A1Pawn,
    H8,
    B2Knight,
    C3Bishop,
    D4Rook,
}

impl MM2Button {
    /// The key's place in the keypad matrix: the first row holds 0 to 7, the
    /// second 8 to 15.
    pub open spec fn code(self) -> u8 {
        match self {
            MM2Button::CL => 0,
            MM2Button::POS => 1,
            MM2Button::MEM => 2,
            MM2Button::INFO => 3,
            MM2Button::LEV => 4,
            MM2Button::ENT => 5,
            MM2Button::RightWhite0 => 6,
            MM2Button::LeftBlack9 => 7,
            MM2Button::E5Queen => 8,
            MM2Button::F6King => 9,
            MM2Button::G7 => 10,
            MM2Button::A1Pawn => 11,
            MM2Button::H8 => 12,
            MM2Button::B2Knight => 13,
            MM2Button::C3Bishop => 14,
            MM2Button::D4Rook => 15,
        }
    }

    pub fn to_code(self) -> (k: u8)
        ensures
            k == self.code(),
            k < 16,
    {
        match self {
            MM2Button::CL => 0,
            MM2Button::POS => 1,
            MM2Button::MEM => 2,
            MM2Button::INFO => 3,
            MM2Button::LEV => 4,
            MM2Button::ENT => 5,
            MM2Button::RightWhite0 => 6,
            MM2Button::LeftBlack9 => 7,
            MM2Button::E5Queen => 8,
            MM2Button::F6King => 9,
            MM2Button::G7 => 10,
            MM2Button::A1Pawn => 11,
            MM2Button::H8 => 12,
            MM2Button::B2Knight => 13,
            MM2Button::C3Bishop => 14,
            MM2Button::D4Rook => 15,
        }
    }

    /// The key that names a kind of man.
    pub open spec fn of_piece(piece: Piece) -> MM2Button {
        match piece {
            Piece::Pawn => MM2Button::A1Pawn,
            Piece::Knight => MM2Button::B2Knight,
            Piece::Bishop => MM2Button::C3Bishop,
            Piece::Rook => MM2Button::D4Rook,
            Piece::Queen => MM2Button::E5Queen,
            Piece::King => MM2Button::F6King,
        }
    }

    pub fn for_piece(piece: Piece) -> (b: MM2Button)
        ensures
            b == MM2Button::of_piece(piece),
    {
        match piece {
            Piece::Pawn => MM2Button::A1Pawn,
            Piece::Knight => MM2Button::B2Knight,
            Piece::Bishop => MM2Button::C3Bishop,
            Piece::Rook => MM2Button::D4Rook,
            Piece::Queen => MM2Button::E5Queen,
            Piece::King => MM2Button::F6King,
        }
    }

    /// The key that chooses a playing level, the levels counted from 1.
    pub open spec fn of_level(level: int) -> MM2Button {
        if level <= 1 {
            MM2Button::A1Pawn
        } else if level == 2 {
            MM2Button::B2Knight
        } else if level == 3 {
            MM2Button::C3Bishop
        } else if level == 4 {
            MM2Button::D4Rook
        } else if level == 5 {
            MM2Button::E5Queen
        } else if level == 6 {
            MM2Button::F6King
        } else if level == 7 {
            MM2Button::G7
        } else if level == 8 {
            MM2Button::H8
        } else if level == 9 {
            MM2Button::LeftBlack9
        } else {
            MM2Button::RightWhite0
        }
    }

    pub fn for_level(level: u8) -> (b: MM2Button)
        ensures
            b == MM2Button::of_level(level as int),
    {
        if level <= 1 {
            MM2Button::A1Pawn
        } else if level == 2 {
            MM2Button::B2Knight
        } else if level == 3 {
            MM2Button::C3Bishop
        } else if level == 4 {
            MM2Button::D4Rook
        } else if level == 5 {
            MM2Button::E5Queen
        } else if level == 6 {
            MM2Button::F6King
        } else if level == 7 {
            MM2Button::G7
        } else if level == 8 {
            MM2Button::H8
        } else if level == 9 {
            MM2Button::LeftBlack9
        } else {
            MM2Button::RightWhite0
        }
    }
}

} // verus!
