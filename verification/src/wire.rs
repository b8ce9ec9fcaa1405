//! The lines that the engine sends, as the `vampirc_uci` crate writes them.
use crate::fen::file_letter;
use crate::position::Move;
use crate::position::Piece;
use crate::uci::OptionKind;
use chess::ALL_PIECES;
use chess::ALL_SQUARES;
use chess::ChessMove;
use vampirc_uci::UciInfoAttribute;
use vampirc_uci::UciMessage;
use vampirc_uci::UciOptionConfig;
use vstd::prelude::*;

verus! {

/// The character of a decimal digit.
pub open spec fn digit_char(d: int) -> char {
    if d <= 0 {
        '0'
    } else if d == 1 {
        '1'
    } else if d == 2 {
        '2'
    } else if d == 3 {
        '3'
    } else if d == 4 {
        '4'
    } else if d == 5 {
        '5'
    } else if d == 6 {
        '6'
    } else if d == 7 {
        '7'
    } else if d == 8 {
        '8'
    } else {
        '9'
    }
}

/// A natural number in decimal digits, without leading zeros.
pub open spec fn natural_text(n: nat) -> Seq<char>
    decreases n,
{
    if n < 10 {
        seq![digit_char(n as int)]
    } else {
        natural_text(n / 10).push(digit_char((n % 10) as int))
    }
}

/// An integer in decimal digits, with a minus sign if it is negative.
pub open spec fn integer_text(i: int) -> Seq<char> {
    if i < 0 {
        seq!['-'] + natural_text((-i) as nat)
    } else {
        natural_text(i as nat)
    }
}

pub open spec fn bool_text(b: bool) -> Seq<char> {
    if b {
        "true"@
    } else {
        "false"@
    }
}

/// A square by its file letter and rank digit.
pub open spec fn square_text(sq: u8) -> Seq<char> {
    seq![file_letter(sq % 8), digit_char(sq / 8 + 1)]
}

/// The letter of the piece that a pawn becomes.
pub open spec fn promotion_letter(piece: Piece) -> char {
    match piece {
        Piece::Pawn => 'p',
        Piece::Knight => 'n',
        Piece::Bishop => 'b',
        Piece::Rook => 'r',
        Piece::Queen => 'q',
        Piece::King => 'k',
    }
}

/// A move by the square it leaves, the square it reaches and, if it
/// promotes, the letter of the piece.
pub open spec fn move_text(m: Move) -> Seq<char> {
    square_text(m.from) + square_text(m.to) + match m.promotion {
        Some(piece) => seq![promotion_letter(piece)],
        None => Seq::empty(),
    }
}

/// The line that names the engine.
pub open spec fn id_name_line(name: Seq<char>) -> Seq<char> {
    "id name "@ + name
}

/// The line that names the engine's authors.
pub open spec fn id_author_line(author: Seq<char>) -> Seq<char> {
    "id author "@ + author
}

/// The line that announces an option.
pub open spec fn option_line(name: Seq<char>, kind: OptionKind) -> Seq<char> {
    "option name "@ + name + " type "@ + match kind {
        OptionKind::Spin { default, min, max } => "spin default "@ + integer_text(default as int)
            + " min "@ + integer_text(min as int) + " max "@ + integer_text(max as int),
        OptionKind::Check { on } => "check default "@ + bool_text(on),
    }
}

/// The line that announces mate in `n` moves.
pub open spec fn mate_line(n: i8) -> Seq<char> {
    "info score mate "@ + integer_text(n as int)
}

/// The line that tells the score in hundredths of a pawn and the depth of
/// the search.
pub open spec fn score_line(cp: i32, depth: u8) -> Seq<char> {
    "info score cp "@ + integer_text(cp as int) + " depth "@ + integer_text(depth as int)
}

/// The line that tells the engine's move and the move it expects in
/// return.
pub open spec fn bestmove_line(best: Move, ponder: Option<Move>) -> Seq<char> {
    "bestmove "@ + move_text(best) + match ponder {
        Some(p) => " ponder "@ + move_text(p),
        None => Seq::empty(),
    }
}

/// `UciMessage::to_string` of an `Id` with a name: the words `id name` and
/// the name.
#[verifier::external_body]
pub(crate) fn id_name_text(name: &str) -> (r: String)
    ensures
        r@ == id_name_line(name@),
{
    UciMessage::Id { name: Some(name.to_string()), author: None }.to_string()
}

/// `UciMessage::to_string` of an `Id` with an author and no name: the words
/// `id author` and the author.
#[verifier::external_body]
pub(crate) fn id_author_text(author: &str) -> (r: String)
    ensures
        r@ == id_author_line(author@),
{
    UciMessage::Id { name: None, author: Some(author.to_string()) }.to_string()
}

/// `UciMessage::to_string` of an `Option`: the words `option name`, the
/// name, the word `type` and the kind; for a spin its default and bounds,
/// each behind its word; for a check its default as `true` or `false`.
#[verifier::external_body]
pub(crate) fn option_text(name: &str, kind: OptionKind) -> (r: String)
    ensures
        r@ == option_line(name@, kind),
{
    let name = name.to_string();
    let config = match kind {
        OptionKind::Spin { default, min, max } => {
            UciOptionConfig::Spin { name, default: Some(default), min: Some(min), max: Some(max) }
        },
        OptionKind::Check { on } => UciOptionConfig::Check { name, default: Some(on) },
    };
    UciMessage::Option(config).to_string()
}

/// `UciMessage::to_string` of `UciOk`: the word `uciok`.
#[verifier::external_body]
pub(crate) fn uciok_text() -> (r: String)
    ensures
        r@ == "uciok"@,
{
    UciMessage::UciOk.to_string()
}

/// `UciMessage::to_string` of `ReadyOk`: the word `readyok`.
#[verifier::external_body]
pub(crate) fn readyok_text() -> (r: String)
    ensures
        r@ == "readyok"@,
{
    UciMessage::ReadyOk.to_string()
}

/// `UciMessage::to_string` of an `Info` with a score that is a mate: the
/// words `info score mate` and the number of moves.
#[verifier::external_body]
pub(crate) fn mate_text(n: i8) -> (r: String)
    ensures
        r@ == mate_line(n),
{
    let score =
        UciInfoAttribute::Score { cp: None, mate: Some(n), lower_bound: None, upper_bound: None };
    UciMessage::Info(vec![score]).to_string()
}

/// `UciMessage::to_string` of an `Info` with a score in centipawns and a
/// depth: the words `info score cp`, the score, the word `depth` and the
/// depth.
#[verifier::external_body]
pub(crate) fn score_text(cp: i32, depth: u8) -> (r: String)
    ensures
        r@ == score_line(cp, depth),
{
    let score =
        UciInfoAttribute::Score { cp: Some(cp), mate: None, lower_bound: None, upper_bound: None };
    UciMessage::Info(vec![score, UciInfoAttribute::Depth(depth)]).to_string()
}

/// `UciMessage::to_string` of a `BestMove`: the word `bestmove` and the
/// move, then the word `ponder` and the expected move if there is one. The
/// `chess` crate writes a move as its two squares and the small letter of
/// the promotion piece.
#[verifier::external_body]
pub(crate) fn bestmove_text(best: Move, ponder: Option<Move>) -> (r: String)
    requires
        best.wf(),
        ponder matches Some(p) ==> p.wf(),
    ensures
        r@ == bestmove_line(best, ponder),
{
    let convert = |m: Move| {
        let promotion = m.promotion.map(|p| ALL_PIECES[p as usize]);
        ChessMove::new(ALL_SQUARES[m.from as usize], ALL_SQUARES[m.to as usize], promotion)
    };
    UciMessage::BestMove { best_move: convert(best), ponder: ponder.map(convert) }.to_string()
}

} // verus!
