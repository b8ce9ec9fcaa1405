//! The rules of chess, which the `chess` crate knows: which text is a
//! position, which moves a position allows and what they lead to.
use crate::fen::fen_text;
use crate::fen::has_mover_king;
use crate::fen::has_few_mover_men;
use crate::fen::names_few_men;
use crate::fen::names_mover_king;
use crate::position::Move;
use crate::position::PIECES;
use crate::position::Position;
use chess::ALL_COLORS;
use chess::ALL_PIECES;
use chess::ALL_SQUARES;
use chess::Board;
use chess::ChessMove;
use std::str::FromStr;
use vstd::prelude::*;

verus! {

/// The position that a text in Forsyth-Edwards notation describes, if it
/// describes one.
pub uninterp spec fn chess_position(fen: Seq<char>) -> Option<Position>;

/// Whether `fen` describes a position in which `m` is a legal move.
pub uninterp spec fn chess_legal(fen: Seq<char>, m: Move) -> bool;

/// The position that the legal move `m` leads to from the one that `fen`
/// describes.
pub uninterp spec fn chess_after(fen: Seq<char>, m: Move) -> Position;

/// `Board::from_str`: reads a position from its text. The crate accepts a
/// text or refuses it; the parts of an accepted board are handed back as the
/// crate holds them (its piece and colour boards, the indices of the side to
/// move and of each side's castling rights, the square of the en-passant
/// pawn). Nothing is claimed of which texts it accepts. The crate looks for
/// the king of the side to move before it checks the board, so the text must
/// give that side a king.
#[verifier::external_body]
fn board_from_fen(fen: &str) -> (r: Option<Position>)
    requires
        names_mover_king(fen@),
    ensures
        r == chess_position(fen@),
{
    let b = Board::from_str(fen).ok()?;
    Some(
        Position {
            pieces: ALL_PIECES.map(|p| b.pieces(p).0),
            colors: ALL_COLORS.map(|c| b.color_combined(c).0),
            side: b.side_to_move().to_index() as u8,
            castling: ALL_COLORS.map(|c| b.castle_rights(c).to_index() as u8),
            en_passant: b.en_passant().map(|s| s.to_int()),
        },
    )
}

/// `Board::legal`: whether the move is among the legal moves of the board
/// that the text describes. A text that the crate refuses allows no move.
/// The crate lists the moves man by man in a list that has room for
/// eighteen, two of them for captures in passing, and does not look whether
/// there is room; so the text must give the side to move no more than
/// sixteen men.
#[verifier::external_body]
fn board_legal(fen: &str, m: Move) -> (r: bool)
    requires
        m.wf(),
        names_mover_king(fen@),
        names_few_men(fen@),
    ensures
        r == chess_legal(fen@, m),
{
    let from = ALL_SQUARES[m.from as usize];
    let to = ALL_SQUARES[m.to as usize];
    let promotion = m.promotion.map(|p| ALL_PIECES[p as usize]);
    match Board::from_str(fen) {
        Ok(b) => b.legal(ChessMove::new(from, to, promotion)),
        Err(_) => false,
    }
}

/// `Board::make_move_new`: the board after a move that `Board::legal`
/// accepts, its parts handed back as by `board_from_fen`.
#[verifier::external_body]
fn board_after(fen: &str, m: Move) -> (r: Position)
    requires
        m.wf(),
        names_mover_king(fen@),
        names_few_men(fen@),
        chess_legal(fen@, m),
    ensures
        r == chess_after(fen@, m),
{
    let from = ALL_SQUARES[m.from as usize];
    let to = ALL_SQUARES[m.to as usize];
    let promotion = m.promotion.map(|p| ALL_PIECES[p as usize]);
    let b = Board::from_str(fen).unwrap().make_move_new(ChessMove::new(from, to, promotion));
    Position {
        pieces: ALL_PIECES.map(|p| b.pieces(p).0),
        colors: ALL_COLORS.map(|c| b.color_combined(c).0),
        side: b.side_to_move().to_index() as u8,
        castling: ALL_COLORS.map(|c| b.castle_rights(c).to_index() as u8),
        en_passant: b.en_passant().map(|s| s.to_int()),
    }
}

/// The file that a letter names.
pub open spec fn file_named(c: char) -> Option<u8> {
    if c == 'a' {
        Some(0u8)
    } else if c == 'b' {
        Some(1u8)
    } else if c == 'c' {
        Some(2u8)
    } else if c == 'd' {
        Some(3u8)
    } else if c == 'e' {
        Some(4u8)
    } else if c == 'f' {
        Some(5u8)
    } else if c == 'g' {
        Some(6u8)
    } else if c == 'h' {
        Some(7u8)
    } else {
        None
    }
}

/// The rank that a digit names.
pub open spec fn rank_named(c: char) -> Option<u8> {
    if c == '1' {
        Some(0u8)
    } else if c == '2' {
        Some(1u8)
    } else if c == '3' {
        Some(2u8)
    } else if c == '4' {
        Some(3u8)
    } else if c == '5' {
        Some(4u8)
    } else if c == '6' {
        Some(5u8)
    } else if c == '7' {
        Some(6u8)
    } else if c == '8' {
        Some(7u8)
    } else {
        None
    }
}

/// The square that a file letter and a rank digit name.
pub open spec fn square_named(file: char, rank: char) -> Option<u8> {
    match (file_named(file), rank_named(rank)) {
        (Some(f), Some(r)) => Some((r * 8 + f) as u8),
        _ => None,
    }
}

/// The move that four characters name: the square it leaves, then the
/// square it reaches.
pub open spec fn move_named(text: Seq<char>) -> Option<Move> {
    match (square_named(text[0], text[1]), square_named(text[2], text[3])) {
        (Some(from), Some(to)) => Some(Move { from, to, promotion: None }),
        _ => None,
    }
}

/// `ChessMove::from_str`: reads a move from its text. Of four characters
/// the crate reads two squares, each a file letter from a to h and a rank
/// digit from 1 to 8, and no promotion; it refuses every other four.
#[verifier::external_body]
pub(crate) fn move_from_text(text: &[char; 4]) -> (r: Option<Move>)
    ensures
        r == move_named(text@),
{
    let s: String = text.iter().collect();
    let m = ChessMove::from_str(&s).ok()?;
    Some(
        Move {
            from: m.get_source().to_int(),
            to: m.get_dest().to_int(),
            promotion: m.get_promotion().map(|p| PIECES[p.to_index()]),
        },
    )
}

impl Position {
    /// The position that `fen` describes, if it describes one.
    pub open spec fn read(fen: Seq<char>) -> Option<Position> {
        if names_mover_king(fen) {
            chess_position(fen)
        } else {
            None
        }
    }

    /// Whether the rules can be asked about this position: its side to
    /// move has a king and no more than sixteen men.
    pub open spec fn playable(self) -> bool {
        names_mover_king(fen_text(self)) && names_few_men(fen_text(self))
    }

    /// Whether `m` is a legal move in this position. A position that the
    /// rules cannot be asked about allows no move.
    pub open spec fn allows(self, m: Move) -> bool {
        m.wf() && self.playable() && chess_legal(fen_text(self), m)
    }

    /// The position after the move `m`.
    pub open spec fn after(self, m: Move) -> Position {
        chess_after(fen_text(self), m)
    }

    /// The position after the moves of `moves` in turn.
    pub open spec fn after_all(self, moves: Seq<Move>) -> Position
        decreases moves.len(),
    {
        if moves.len() == 0 {
            self
        } else {
            self.after_all(moves.drop_last()).after(moves.last())
        }
    }

    /// Whether each of `moves` is legal where the ones before it lead.
    pub open spec fn allows_all(self, moves: Seq<Move>) -> bool
        decreases moves.len(),
    {
        moves.len() > 0 ==> self.allows_all(moves.drop_last()) && self.after_all(
            moves.drop_last(),
        ).allows(moves.last())
    }

    /// Whether a man of the side that is not to move stands on `sq`.
    pub open spec fn holds_opponent(self, sq: u8) -> bool {
        match self.color_at(sq) {
            Some(c) => c != self.mover(),
            None => false,
        }
    }

    /// The legal move between two squares: from the first to the second if
    /// that is one, else from the second to the first if that is one.
    pub open spec fn move_between(self, first: u8, second: u8) -> Option<Move> {
        let forward = Move { from: first, to: second, promotion: None };
        if self.allows(forward) {
            Some(forward)
        } else if self.allows(forward.reversed()) {
            Some(forward.reversed())
        } else {
            None
        }
    }

    /// Whether a man of the side that is not to move stands on `sq`.
    pub fn opponent_on(&self, sq: u8) -> (r: bool)
        requires
            sq < 64,
        ensures
            r == self.holds_opponent(sq),
    {
        let mover = self.side_to_move();
        match self.color_on(sq) {
            Some(c) => !c.same(mover),
            None => false,
        }
    }

    /// The legal move between two squares: from the first to the second if
    /// that is one, else from the second to the first if that is one.
    pub fn find_move_between(&self, first: u8, second: u8) -> (r: Option<Move>)
        ensures
            r == self.move_between(first, second),
            r matches Some(m) ==> self.allows(m) && m.promotion is None,
    {
        let forward = Move::new(first, second, None);
        let backward = Move::new(second, first, None);
        if self.legal(forward) {
            Some(forward)
        } else if self.legal(backward) {
            Some(backward)
        } else {
            None
        }
    }

    /// The position that `fen` describes, if it describes one.
    pub fn from_fen(fen: &str) -> (r: Option<Position>)
        ensures
            r == Position::read(fen@),
    {
        if has_mover_king(fen) {
            board_from_fen(fen)
        } else {
            None
        }
    }

    /// Whether `m` is a legal move in this position.
    pub fn legal(&self, m: Move) -> (r: bool)
        ensures
            r == self.allows(m),
    {
        if m.from < 64 && m.to < 64 {
            let fen = self.to_fen();
            has_mover_king(fen.as_str()) && has_few_mover_men(fen.as_str()) && board_legal(
                fen.as_str(),
                m,
            )
        } else {
            false
        }
    }

    /// The position after the legal move `m`.
    pub fn make_move(&self, m: Move) -> (r: Position)
        requires
            self.allows(m),
        ensures
            r == self.after(m),
    {
        let fen = self.to_fen();
        board_after(fen.as_str(), m)
    }

    /// The position after `m`, if `m` is legal.
    pub fn try_move(&self, m: Move) -> (r: Option<Position>)
        ensures
            r == if self.allows(m) {
                Some(self.after(m))
            } else {
                None::<Position>
            },
    {
        if self.legal(m) {
            Some(self.make_move(m))
        } else {
            None
        }
    }

    /// The position after the moves of `moves` in turn, if each is legal
    /// where the ones before it lead.
    pub fn try_moves(&self, moves: &Vec<Move>) -> (r: Option<Position>)
        ensures
            r == if self.allows_all(moves@) {
                Some(self.after_all(moves@))
            } else {
                None::<Position>
            },
    {
        let mut p = *self;
        let mut i: usize = 0;
        while i < moves.len()
            invariant
                i <= moves.len(),
                self.allows_all(moves@.take(i as int)),
                p == self.after_all(moves@.take(i as int)),
            decreases moves.len() - i,
        {
            proof {
                let next = moves@.take(i + 1);
                assert(next.drop_last() =~= moves@.take(i as int));
                assert(next.last() == moves@[i as int]);
                if self.allows_all(moves@) {
                    lemma_allows_all_prefix(*self, moves@, i + 1);
                }
            }
            match p.try_move(moves[i]) {
                Some(q) => {
                    p = q;
                },
                None => {
                    return None;
                },
            }
            i += 1;
        }
        assert(moves@.take(i as int) =~= moves@);
        Some(p)
    }
}

/// Where all of `moves` are legal in turn, so are the first `n` of them.
pub proof fn lemma_allows_all_prefix(p: Position, moves: Seq<Move>, n: int)
    requires
        0 <= n <= moves.len(),
        p.allows_all(moves),
    ensures
        p.allows_all(moves.take(n)),
    decreases moves.len(),
{
    if n < moves.len() {
        lemma_allows_all_prefix(p, moves.drop_last(), n);
        assert(moves.drop_last().take(n) =~= moves.take(n));
    } else {
        assert(moves.take(n) =~= moves);
    }
}

} // verus!
