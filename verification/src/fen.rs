//! A position written out in Forsyth-Edwards notation.
use crate::position::bit;
use crate::position::test_bit;
use crate::position::Color;
use crate::position::Piece;
use crate::position::Position;
use vstd::prelude::*;

verus! {

/// `String::push`: appends one character to the end of the string.
#[verifier::external_body]
fn push_char(text: &mut String, c: char)
    ensures
        final(text)@ == old(text)@.push(c),
{
    text.push(c);
}

/// The letter that stands for a man: upper case for White, lower for Black.
pub open spec fn man_letter(piece: Piece, color: Color) -> char {
    match (color, piece) {
        (Color::White, Piece::Pawn) => 'P',
        (Color::White, Piece::Knight) => 'N',
        (Color::White, Piece::Bishop) => 'B',
        (Color::White, Piece::Rook) => 'R',
        (Color::White, Piece::Queen) => 'Q',
        (Color::White, Piece::King) => 'K',
        (Color::Black, Piece::Pawn) => 'p',
        (Color::Black, Piece::Knight) => 'n',
        (Color::Black, Piece::Bishop) => 'b',
        (Color::Black, Piece::Rook) => 'r',
        (Color::Black, Piece::Queen) => 'q',
        (Color::Black, Piece::King) => 'k',
    }
}

/// The digit that stands for a run of `n` empty squares.
pub open spec fn run_digit(n: int) -> char {
    if n <= 1 {
        '1'
    } else if n == 2 {
        '2'
    } else if n == 3 {
        '3'
    } else if n == 4 {
        '4'
    } else if n == 5 {
        '5'
    } else if n == 6 {
        '6'
    } else if n == 7 {
        '7'
    } else {
        '8'
    }
}

/// The letter of a file, 0 being the a-file.
pub open spec fn file_letter(file: u8) -> char {
    if file == 0 {
        'a'
    } else if file == 1 {
        'b'
    } else if file == 2 {
        'c'
    } else if file == 3 {
        'd'
    } else if file == 4 {
        'e'
    } else if file == 5 {
        'f'
    } else if file == 6 {
        'g'
    } else {
        'h'
    }
}

/// A pending run of empty squares, written out: nothing for an empty run.
pub open spec fn run_text(run: int) -> Seq<char> {
    if run > 0 {
        seq![run_digit(run)]
    } else {
        Seq::empty()
    }
}

/// The rest of rank `rank` from file `file` on, after `run` empty squares
/// that are not yet written.
pub open spec fn rank_text(p: Position, rank: u8, file: u8, run: int) -> Seq<char>
    decreases 8 - file,
{
    if file >= 8 {
        run_text(run)
    } else {
        match p.man_at((rank * 8 + file) as u8) {
            Some((piece, color)) => run_text(run) + seq![man_letter(piece, color)] + rank_text(
                p,
                rank,
                (file + 1) as u8,
                0,
            ),
            None => rank_text(p, rank, (file + 1) as u8, run + 1),
        }
    }
}

/// What separates a rank from the one below it: nothing below the first.
pub open spec fn rank_break(rank: int) -> Seq<char> {
    if rank > 0 {
        seq!['/']
    } else {
        Seq::empty()
    }
}

/// The lowest `n` ranks, the highest of them first.
pub open spec fn ranks_text(p: Position, n: nat) -> Seq<char>
    decreases n,
{
    if n == 0 {
        Seq::empty()
    } else {
        rank_text(p, (n - 1) as u8, 0, 0) + rank_break(n - 1) + ranks_text(p, (n - 1) as nat)
    }
}

pub open spec fn side_letter(p: Position) -> char {
    if p.side == 0 {
        'w'
    } else {
        'b'
    }
}

/// One castling right: its letter if the bit `mask` of `rights` is set.
pub open spec fn right_text(rights: u8, mask: u8, letter: char) -> Seq<char> {
    if rights & mask != 0 {
        seq![letter]
    } else {
        Seq::empty()
    }
}

pub open spec fn rights_text(p: Position) -> Seq<char> {
    right_text(p.castling[0], 1, 'K') + right_text(p.castling[0], 2, 'Q') + right_text(
        p.castling[1],
        1,
        'k',
    ) + right_text(p.castling[1], 2, 'q')
}

pub open spec fn castling_text(p: Position) -> Seq<char> {
    if rights_text(p).len() == 0 {
        seq!['-']
    } else {
        rights_text(p)
    }
}

/// The square behind the pawn that can be taken in passing: on the sixth
/// rank when White is to move, on the third when Black is.
pub open spec fn passant_text(p: Position) -> Seq<char> {
    match p.en_passant {
        Some(sq) => seq![
            file_letter(sq % 8),
            if p.side == 0 {
                '6'
            } else {
                '3'
            },
        ],
        None => seq!['-'],
    }
}

/// The position in Forsyth-Edwards notation. The two move counters, which a
/// position does not hold, are written as 0 and 1.
pub open spec fn fen_text(p: Position) -> Seq<char> {
    ranks_text(p, 8) + seq![' ', side_letter(p), ' '] + castling_text(p) + seq![' ']
        + passant_text(p) + seq![' ', '0', ' ', '1']
}

fn letter_of(piece: Piece, color: Color) -> (c: char)
    ensures
        c == man_letter(piece, color),
{
    match (color, piece) {
        (Color::White, Piece::Pawn) => 'P',
        (Color::White, Piece::Knight) => 'N',
        (Color::White, Piece::Bishop) => 'B',
        (Color::White, Piece::Rook) => 'R',
        (Color::White, Piece::Queen) => 'Q',
        (Color::White, Piece::King) => 'K',
        (Color::Black, Piece::Pawn) => 'p',
        (Color::Black, Piece::Knight) => 'n',
        (Color::Black, Piece::Bishop) => 'b',
        (Color::Black, Piece::Rook) => 'r',
        (Color::Black, Piece::Queen) => 'q',
        (Color::Black, Piece::King) => 'k',
    }
}

fn digit_of(n: u8) -> (c: char)
    ensures
        c == run_digit(n as int),
{
    if n <= 1 {
        '1'
    } else if n == 2 {
        '2'
    } else if n == 3 {
        '3'
    } else if n == 4 {
        '4'
    } else if n == 5 {
        '5'
    } else if n == 6 {
        '6'
    } else if n == 7 {
        '7'
    } else {
        '8'
    }
}

fn file_letter_of(file: u8) -> (c: char)
    ensures
        c == file_letter(file),
{
    if file == 0 {
        'a'
    } else if file == 1 {
        'b'
    } else if file == 2 {
        'c'
    } else if file == 3 {
        'd'
    } else if file == 4 {
        'e'
    } else if file == 5 {
        'f'
    } else if file == 6 {
        'g'
    } else {
        'h'
    }
}

fn push_run(text: &mut String, run: u8)
    ensures
        final(text)@ == old(text)@ + run_text(run as int),
{
    if run > 0 {
        push_char(text, digit_of(run));
    }
    assert(text@ =~= old(text)@ + run_text(run as int));
}

fn push_right(text: &mut String, rights: u8, mask: u8, letter: char)
    ensures
        final(text)@ == old(text)@ + right_text(rights, mask, letter),
{
    if rights & mask != 0 {
        push_char(text, letter);
    }
    assert(text@ =~= old(text)@ + right_text(rights, mask, letter));
}

/// Appends one rank of the board.
fn push_rank(text: &mut String, p: &Position, rank: u8)
    requires
        rank < 8,
    ensures
        final(text)@ == old(text)@ + rank_text(*p, rank, 0, 0),
{
    let mut file: u8 = 0;
    let mut run: u8 = 0;
    while file < 8
        invariant
            rank < 8,
            file <= 8,
            run <= file,
            text@ + rank_text(*p, rank, file, run as int) == old(text)@ + rank_text(*p, rank, 0, 0),
        decreases 8 - file,
    {
        let ghost before = text@;
        match p.man_on(rank * 8 + file) {
            Some((piece, color)) => {
                push_run(text, run);
                push_char(text, letter_of(piece, color));
                assert(text@ + rank_text(*p, rank, (file + 1) as u8, 0) =~= before + rank_text(
                    *p,
                    rank,
                    file,
                    run as int,
                ));
                run = 0;
            },
            None => {
                run = run + 1;
            },
        }
        file = file + 1;
    }
    let ghost before = text@;
    push_run(text, run);
    assert(text@ =~= before + rank_text(*p, rank, 8, run as int));
}

/// Appends the eight ranks, the eighth first.
fn push_board(text: &mut String, p: &Position)
    ensures
        final(text)@ == old(text)@ + ranks_text(*p, 8),
{
    let mut n: u8 = 8;
    while n > 0
        invariant
            n <= 8,
            text@ + ranks_text(*p, n as nat) == old(text)@ + ranks_text(*p, 8),
        decreases n,
    {
        let ghost before = text@;
        push_rank(text, p, n - 1);
        if n > 1 {
            push_char(text, '/');
        }
        assert(text@ =~= before + rank_text(*p, (n - 1) as u8, 0, 0) + rank_break(n - 1));
        assert(text@ + ranks_text(*p, (n - 1) as nat) =~= before + ranks_text(*p, n as nat));
        n = n - 1;
    }
    assert(text@ =~= text@ + ranks_text(*p, 0));
}

/// Appends who may still castle.
fn push_castling(text: &mut String, p: &Position)
    ensures
        final(text)@ == old(text)@ + castling_text(*p),
{
    push_right(text, p.castling[0], 1, 'K');
    push_right(text, p.castling[0], 2, 'Q');
    push_right(text, p.castling[1], 1, 'k');
    push_right(text, p.castling[1], 2, 'q');
    assert(text@ =~= old(text)@ + rights_text(*p));
    let w = p.castling[0];
    let b = p.castling[1];
    if w & 3 == 0 && b & 3 == 0 {
        assert(w & 3 == 0 ==> w & 1 == 0 && w & 2 == 0) by (bit_vector);
        assert(b & 3 == 0 ==> b & 1 == 0 && b & 2 == 0) by (bit_vector);
        assert(rights_text(*p).len() == 0);
        push_char(text, '-');
    } else {
        assert(w & 3 != 0 ==> w & 1 != 0 || w & 2 != 0) by (bit_vector);
        assert(b & 3 != 0 ==> b & 1 != 0 || b & 2 != 0) by (bit_vector);
        assert(rights_text(*p).len() > 0);
    }
    assert(text@ =~= old(text)@ + castling_text(*p));
}

/// Appends the square behind the pawn that can be taken in passing.
fn push_passant(text: &mut String, p: &Position)
    ensures
        final(text)@ == old(text)@ + passant_text(*p),
{
    match p.en_passant {
        Some(sq) => {
            push_char(text, file_letter_of(sq % 8));
            push_char(
                text,
                if p.side == 0 {
                    '6'
                } else {
                    '3'
                },
            );
        },
        None => {
            push_char(text, '-');
        },
    }
    assert(text@ =~= old(text)@ + passant_text(*p));
}

impl Position {
    /// Writes the position out in Forsyth-Edwards notation.
    pub fn to_fen(&self) -> (text: String)
        ensures
            text@ == fen_text(*self),
    {
        let mut text = String::new();
        push_board(&mut text, self);
        push_char(&mut text, ' ');
        push_char(
            &mut text,
            if self.side == 0 {
                'w'
            } else {
                'b'
            },
        );
        push_char(&mut text, ' ');
        let ghost head = text@;
        assert(head =~= ranks_text(*self, 8) + seq![' ', side_letter(*self), ' ']);
        push_castling(&mut text, self);
        push_char(&mut text, ' ');
        push_passant(&mut text, self);
        let ghost body = text@;
        assert(body =~= head + castling_text(*self) + seq![' '] + passant_text(*self));
        push_char(&mut text, ' ');
        push_char(&mut text, '0');
        push_char(&mut text, ' ');
        push_char(&mut text, '1');
        assert(text@ =~= body + seq![' ', '0', ' ', '1']);
        text
    }
}

/// How far a reading of a position's text has come: through the board, at
/// the letter of the side to move, behind that letter, or past it; or into
/// something that no position's text holds.
#[derive(Clone, Copy, PartialEq, Eq, Debug)]
pub enum Stage {
    Board,
    Side,
    SideRead,
    Rest,
    Refused,
}

/// The most men of one side that a position may have.
pub const MOST_MEN: u32 = 16;

/// How many of the lowest `n` bits of `board` are set.
pub open spec fn bits_set(board: u64, n: nat) -> nat
    decreases n,
{
    if n == 0 {
        0
    } else if bit(board, (n - 1) as u8) {
        bits_set(board, (n - 1) as nat) + 1
    } else {
        bits_set(board, (n - 1) as nat)
    }
}

/// Counts the bits of `board` that are set.
pub fn count_bits(board: u64) -> (count: u32)
    ensures
        count == bits_set(board, 64),
{
    let mut count: u32 = 0;
    let mut i: u8 = 0;
    while i < 64
        invariant
            i <= 64,
            count <= i,
            count == bits_set(board, i as nat),
        decreases 64 - i,
    {
        if test_bit(board, i) {
            count = count + 1;
        }
        i = i + 1;
    }
    count
}

/// What a reading of the start of a position's text has found: where on the
/// board it stands, the squares on which it has last put a man of each side
/// and each king, and who is to move.
#[derive(Clone, Copy, Debug)]
pub struct Scan {
    pub stage: Stage,
    pub rank: u8,
    pub file: u8,
    pub white_men: u64,
    pub black_men: u64,
    pub white_king: u64,
    pub black_king: u64,
    pub black_to_move: bool,
}

impl Scan {
    pub open spec fn wf(self) -> bool {
        self.rank < 8 && self.file < 8
    }

    /// Before the first character: at a8, no man seen.
    pub open spec fn start() -> Scan {
        Scan {
            stage: Stage::Board,
            rank: 7,
            file: 0,
            white_men: 0,
            black_men: 0,
            white_king: 0,
            black_king: 0,
            black_to_move: false,
        }
    }

    /// The square the reading stands on, as a one-bit board.
    pub open spec fn here(self) -> u64 {
        1u64 << ((self.rank * 8 + self.file) as u8)
    }

    /// A man is put on the square, white or black, king or not: it
    /// displaces what was there, and the reading moves one file on, from
    /// the h-file back to a.
    pub open spec fn put(self, white: bool, king: bool) -> Scan {
        Scan {
            white_men: if white {
                self.white_men | self.here()
            } else {
                self.white_men & !self.here()
            },
            black_men: if !white {
                self.black_men | self.here()
            } else {
                self.black_men & !self.here()
            },
            white_king: if white && king {
                self.white_king | self.here()
            } else {
                self.white_king & !self.here()
            },
            black_king: if !white && king {
                self.black_king | self.here()
            } else {
                self.black_king & !self.here()
            },
            file: ((self.file + 1) % 8) as u8,
            ..self
        }
    }

    /// `n` squares are passed over, from the h-file back to a.
    pub open spec fn skip(self, n: u8) -> Scan {
        Scan { file: ((self.file + n) % 8) as u8, ..self }
    }

    /// The reading goes to the start of the rank below, from the first rank
    /// back to the eighth.
    pub open spec fn down(self) -> Scan {
        Scan {
            rank: if self.rank == 0 {
                7
            } else {
                (self.rank - 1) as u8
            },
            file: 0,
            ..self
        }
    }

    pub open spec fn staged(self, stage: Stage) -> Scan {
        Scan { stage, ..self }
    }

    /// The reading after one more character of the board.
    pub open spec fn board_step(self, c: char) -> Scan {
        if c == ' ' {
            self.staged(Stage::Side)
        } else if c == '/' {
            self.down()
        } else if c == '1' {
            self.skip(1)
        } else if c == '2' {
            self.skip(2)
        } else if c == '3' {
            self.skip(3)
        } else if c == '4' {
            self.skip(4)
        } else if c == '5' {
            self.skip(5)
        } else if c == '6' {
            self.skip(6)
        } else if c == '7' {
            self.skip(7)
        } else if c == '8' {
            self.skip(8)
        } else if c == 'K' {
            self.put(true, true)
        } else if c == 'k' {
            self.put(false, true)
        } else if c == 'P' || c == 'N' || c == 'B' || c == 'R' || c == 'Q' {
            self.put(true, false)
        } else if c == 'p' || c == 'n' || c == 'b' || c == 'r' || c == 'q' {
            self.put(false, false)
        } else {
            self.staged(Stage::Refused)
        }
    }

    /// The reading after one more character.
    pub open spec fn step(self, c: char) -> Scan {
        match self.stage {
            Stage::Board => self.board_step(c),
            Stage::Side => if c == 'w' || c == 'W' {
                Scan { stage: Stage::SideRead, black_to_move: false, ..self }
            } else if c == 'b' || c == 'B' {
                Scan { stage: Stage::SideRead, black_to_move: true, ..self }
            } else {
                self.staged(Stage::Refused)
            },
            Stage::SideRead => if c == ' ' {
                self.staged(Stage::Rest)
            } else {
                self.staged(Stage::Refused)
            },
            Stage::Rest => self,
            Stage::Refused => self,
        }
    }

    /// The reading after all of `text`.
    pub open spec fn of(text: Seq<char>) -> Scan
        decreases text.len(),
    {
        if text.len() == 0 {
            Scan::start()
        } else {
            Scan::of(text.drop_last()).step(text.last())
        }
    }

    /// The reading has come past the side to move, and has seen a king of
    /// that side that nothing has displaced.
    pub open spec fn mover_has_king(self) -> bool {
        &&& self.stage == Stage::Rest
        &&& if self.black_to_move {
            self.black_king != 0
        } else {
            self.white_king != 0
        }
    }

    /// The men of the side to move.
    pub open spec fn mover_men(self) -> u64 {
        if self.black_to_move {
            self.black_men
        } else {
            self.white_men
        }
    }

    /// The reading has come past the side to move, and has seen no more
    /// than sixteen men of that side that nothing has displaced.
    pub open spec fn mover_has_few_men(self) -> bool {
        self.stage == Stage::Rest && bits_set(self.mover_men(), 64) <= MOST_MEN
    }

    fn begin() -> (s: Scan)
        ensures
            s == Scan::start(),
    {
        Scan {
            stage: Stage::Board,
            rank: 7,
            file: 0,
            white_men: 0,
            black_men: 0,
            white_king: 0,
            black_king: 0,
            black_to_move: false,
        }
    }

    fn advance_board(self, c: char) -> (s: Scan)
        requires
            self.wf(),
        ensures
            s == self.board_step(c),
            s.wf(),
    {
        if c == ' ' {
            Scan { stage: Stage::Side, ..self }
        } else if c == '/' {
            Scan {
                rank: if self.rank == 0 {
                    7
                } else {
                    self.rank - 1
                },
                file: 0,
                ..self
            }
        } else if c == '1' {
            Scan { file: (self.file + 1) % 8, ..self }
        } else if c == '2' {
            Scan { file: (self.file + 2) % 8, ..self }
        } else if c == '3' {
            Scan { file: (self.file + 3) % 8, ..self }
        } else if c == '4' {
            Scan { file: (self.file + 4) % 8, ..self }
        } else if c == '5' {
            Scan { file: (self.file + 5) % 8, ..self }
        } else if c == '6' {
            Scan { file: (self.file + 6) % 8, ..self }
        } else if c == '7' {
            Scan { file: (self.file + 7) % 8, ..self }
        } else if c == '8' {
            Scan { file: (self.file + 8) % 8, ..self }
        } else if c == 'K' || c == 'k' || c == 'P' || c == 'N' || c == 'B' || c == 'R' || c == 'Q'
            || c == 'p' || c == 'n' || c == 'b' || c == 'r' || c == 'q' {
            let here: u64 = 1u64 << (self.rank * 8 + self.file);
            let white = c == 'K' || c == 'P' || c == 'N' || c == 'B' || c == 'R' || c == 'Q';
            Scan {
                white_men: if white {
                    self.white_men | here
                } else {
                    self.white_men & !here
                },
                black_men: if !white {
                    self.black_men | here
                } else {
                    self.black_men & !here
                },
                white_king: if c == 'K' {
                    self.white_king | here
                } else {
                    self.white_king & !here
                },
                black_king: if c == 'k' {
                    self.black_king | here
                } else {
                    self.black_king & !here
                },
                file: (self.file + 1) % 8,
                ..self
            }
        } else {
            Scan { stage: Stage::Refused, ..self }
        }
    }

    fn advance(self, c: char) -> (s: Scan)
        requires
            self.wf(),
        ensures
            s == self.step(c),
            s.wf(),
    {
        match self.stage {
            Stage::Board => self.advance_board(c),
            Stage::Side => if c == 'w' || c == 'W' {
                Scan { stage: Stage::SideRead, black_to_move: false, ..self }
            } else if c == 'b' || c == 'B' {
                Scan { stage: Stage::SideRead, black_to_move: true, ..self }
            } else {
                Scan { stage: Stage::Refused, ..self }
            },
            Stage::SideRead => if c == ' ' {
                Scan { stage: Stage::Rest, ..self }
            } else {
                Scan { stage: Stage::Refused, ..self }
            },
            Stage::Rest => self,
            Stage::Refused => self,
        }
    }
}

/// Whether `text` goes as a position's text does up to the side to move, and
/// gives that side a king.
pub open spec fn names_mover_king(text: Seq<char>) -> bool {
    Scan::of(text).mover_has_king()
}

/// Whether `text` goes as a position's text does up to the side to move, and
/// gives that side no more than sixteen men.
pub open spec fn names_few_men(text: Seq<char>) -> bool {
    Scan::of(text).mover_has_few_men()
}

/// Reads `text` as the start of a position's text.
pub fn scan_text(text: &str) -> (s: Scan)
    ensures
        s == Scan::of(text@),
{
    let mut s = Scan::begin();
    for c in iter: text.chars()
        invariant
            s.wf(),
            iter.seq() == text@,
            s == Scan::of(text@.take(iter.index() as int)),
    {
        proof {
            let next = text@.take(iter.index() + 1);
            assert(next.drop_last() =~= text@.take(iter.index() as int));
        }
        s = s.advance(c);
    }
    assert(text@.take(text@.len() as int) =~= text@);
    s
}

/// Whether `text` goes as a position's text does up to the side to move, and
/// gives that side a king.
pub fn has_mover_king(text: &str) -> (r: bool)
    ensures
        r == names_mover_king(text@),
{
    let s = scan_text(text);
    let king = if s.black_to_move {
        s.black_king != 0
    } else {
        s.white_king != 0
    };
    match s.stage {
        Stage::Rest => king,
        _ => false,
    }
}

/// Whether `text` goes as a position's text does up to the side to move, and
/// gives that side no more than sixteen men.
pub fn has_few_mover_men(text: &str) -> (r: bool)
    ensures
        r == names_few_men(text@),
{
    let s = scan_text(text);
    let men = if s.black_to_move {
        s.black_men
    } else {
        s.white_men
    };
    match s.stage {
        Stage::Rest => count_bits(men) <= MOST_MEN,
        _ => false,
    }
}

/// A reading that has been refused stays refused, whatever follows.
pub proof fn lemma_refused_stays(text: Seq<char>, k: int)
    requires
        0 <= k <= text.len(),
        Scan::of(text.take(k)).stage == Stage::Refused,
    ensures
        Scan::of(text).stage == Stage::Refused,
    decreases text.len() - k,
{
    if k < text.len() {
        assert(text.take(k + 1).drop_last() =~= text.take(k));
        lemma_refused_stays(text, k + 1);
    } else {
        assert(text.take(k) =~= text);
    }
}

/// The word `startpos` is no position's text.
pub proof fn lemma_startpos_is_no_text()
    ensures
        !names_mover_king("startpos"@),
{
    reveal_strlit("startpos");
    let text = "startpos"@;
    assert(text.take(1).drop_last() =~= Seq::<char>::empty());
    assert(text.take(1).last() == 's');
    assert(Scan::of(Seq::<char>::empty()) == Scan::start());
    assert(Scan::of(text.take(1)) == Scan::start().step('s'));
    lemma_refused_stays(text, 1);
}

} // verus!
