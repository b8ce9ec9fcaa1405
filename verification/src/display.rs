//! What the firmware says on its display: the four glyphs read as an
//! announcement, a prompt, a move or a number.
use crate::lcd::BLANK;
use crate::lcd::decimal_point;
use crate::lcd::glyph;
use crate::lcd::LcdMap;
use crate::lcd::listed;
use crate::lcd::segment_table;
use crate::position::Move;
use crate::position::Piece;
use crate::rules::move_from_text;
use crate::rules::move_named;
use crate::script::Detail;
use crate::script::Reply;
use vstd::prelude::*;

verus! {

/// What the four glyphs of the display say.
#[derive(Clone, Copy, PartialEq, Eq, Debug)]
pub enum LcdCommand {
    /// A digit shows a pattern that is no glyph: the display is being
    /// rewritten.
    Unsettled,
    /// Mate is announced in so many moves.
    Mate(i8),
    /// Mate is announced, but the number of moves is no digit.
    BadMate,
    /// A pawn is to become this piece.
    Promotion(Piece),
    /// A promotion is announced, but to no piece that the display names.
    BadPromotion,
    /// The firmware waits for the ENT key.
    Play,
    /// The side to move has no move.
    NoMove,
    /// The firmware's move.
    Move(Move),
    /// Anything else.
    Other,
}

/// The glyphs of the four display bytes.
pub open spec fn glyphs_of(display: Seq<u8>) -> Seq<char> {
    seq![glyph(display[0]), glyph(display[1]), glyph(display[2]), glyph(display[3])]
}

/// The value of a decimal digit.
pub open spec fn digit_value(c: char) -> Option<u8> {
    if c == '0' {
        Some(0u8)
    } else if c == '1' {
        Some(1u8)
    } else if c == '2' {
        Some(2u8)
    } else if c == '3' {
        Some(3u8)
    } else if c == '4' {
        Some(4u8)
    } else if c == '5' {
        Some(5u8)
    } else if c == '6' {
        Some(6u8)
    } else if c == '7' {
        Some(7u8)
    } else if c == '8' {
        Some(8u8)
    } else if c == '9' {
        Some(9u8)
    } else {
        None
    }
}

/// The piece that the last glyph of a promotion prompt names: D the queen,
/// T the rook, 5 the knight, L the bishop.
pub open spec fn promotion_named(c: char) -> Option<Piece> {
    if c == 'D' {
        Some(Piece::Queen)
    } else if c == 'T' {
        Some(Piece::Rook)
    } else if c == '5' {
        Some(Piece::Knight)
    } else if c == 'L' {
        Some(Piece::Bishop)
    } else {
        None
    }
}

/// A capital letter from A to Z as its small letter; any other character
/// as itself.
pub open spec fn lowered(c: char) -> char {
    if 'A' <= c <= 'Z' {
        ((c as u8) + 32) as char
    } else {
        c
    }
}

/// The four glyphs in small letters.
pub open spec fn lowered_text(text: Seq<char>) -> Seq<char> {
    seq![lowered(text[0]), lowered(text[1]), lowered(text[2]), lowered(text[3])]
}

/// Whether one of the four glyphs is the blank.
pub open spec fn unsettled(text: Seq<char>) -> bool {
    text[0] == BLANK || text[1] == BLANK || text[2] == BLANK || text[3] == BLANK
}

/// What four glyphs say.
pub open spec fn command_of(text: Seq<char>) -> LcdCommand {
    if unsettled(text) {
        LcdCommand::Unsettled
    } else if text[0] == ' ' && text[1] == 'N' && text[2] == ' ' {
        match digit_value(text[3]) {
            Some(n) => LcdCommand::Mate(n as i8),
            None => LcdCommand::BadMate,
        }
    } else if text[0] == 'P' && text[1] == 'r' {
        match promotion_named(text[3]) {
            Some(piece) => LcdCommand::Promotion(piece),
            None => LcdCommand::BadPromotion,
        }
    } else if text[0] == 'P' && text[1] == 'L' && text[2] == 'A' && text[3] == 'Y' {
        LcdCommand::Play
    } else if text[0] == 'N' && text[1] == 'A' && text[2] == 'T' && text[3] == ' ' {
        LcdCommand::NoMove
    } else {
        match move_named(lowered_text(text)) {
            Some(m) => LcdCommand::Move(m),
            None => LcdCommand::Other,
        }
    }
}

/// Reads the four display bytes as glyphs: each is the blank, or a
/// character that the segment table lists with a pattern drawing its byte.
pub fn read_glyphs(map: &LcdMap, display: &[u8; 4]) -> (text: [char; 4])
    ensures
        text@ == glyphs_of(display@),
        forall|i: int|
            0 <= i < 4 ==> #[trigger] text[i] == BLANK || listed(
                segment_table(),
                display[i],
                text[i],
            ),
{
    let text = [
        map.decode(display[0]),
        map.decode(display[1]),
        map.decode(display[2]),
        map.decode(display[3]),
    ];
    assert(text@ =~= glyphs_of(display@));
    text
}

pub(crate) fn digit_of(c: char) -> (r: Option<u8>)
    ensures
        r == digit_value(c),
        r matches Some(d) ==> d <= 9,
{
    if c == '0' {
        Some(0)
    } else if c == '1' {
        Some(1)
    } else if c == '2' {
        Some(2)
    } else if c == '3' {
        Some(3)
    } else if c == '4' {
        Some(4)
    } else if c == '5' {
        Some(5)
    } else if c == '6' {
        Some(6)
    } else if c == '7' {
        Some(7)
    } else if c == '8' {
        Some(8)
    } else if c == '9' {
        Some(9)
    } else {
        None
    }
}

fn promotion_of(c: char) -> (r: Option<Piece>)
    ensures
        r == promotion_named(c),
{
    if c == 'D' {
        Some(Piece::Queen)
    } else if c == 'T' {
        Some(Piece::Rook)
    } else if c == '5' {
        Some(Piece::Knight)
    } else if c == 'L' {
        Some(Piece::Bishop)
    } else {
        None
    }
}

fn lower(c: char) -> (r: char)
    ensures
        r == lowered(c),
{
    if 'A' <= c && c <= 'Z' {
        ((c as u8) + 32) as char
    } else {
        c
    }
}

/// Reads four glyphs in small letters as a move.
pub fn read_move(text: &[char; 4]) -> (r: Option<Move>)
    ensures
        r == move_named(lowered_text(text@)),
        r matches Some(m) ==> m.wf(),
{
    let small = [lower(text[0]), lower(text[1]), lower(text[2]), lower(text[3])];
    assert(small@ =~= lowered_text(text@));
    move_from_text(&small)
}

/// Reads what four glyphs say.
pub fn read_command(text: &[char; 4]) -> (r: LcdCommand)
    ensures
        r == command_of(text@),
        r matches LcdCommand::Move(m) ==> m.wf(),
{
    if text[0] == BLANK || text[1] == BLANK || text[2] == BLANK || text[3] == BLANK {
        LcdCommand::Unsettled
    } else if text[0] == ' ' && text[1] == 'N' && text[2] == ' ' {
        match digit_of(text[3]) {
            Some(n) => LcdCommand::Mate(n as i8),
            None => LcdCommand::BadMate,
        }
    } else if text[0] == 'P' && text[1] == 'r' {
        match promotion_of(text[3]) {
            Some(piece) => LcdCommand::Promotion(piece),
            None => LcdCommand::BadPromotion,
        }
    } else if text[0] == 'P' && text[1] == 'L' && text[2] == 'A' && text[3] == 'Y' {
        LcdCommand::Play
    } else if text[0] == 'N' && text[1] == 'A' && text[2] == 'T' && text[3] == ' ' {
        LcdCommand::NoMove
    } else {
        match read_move(text) {
            Some(m) => LcdCommand::Move(m),
            None => LcdCommand::Other,
        }
    }
}

/// Ten to the power `n`.
pub open spec fn pow10(n: nat) -> nat
    decreases n,
{
    if n == 0 {
        1
    } else {
        10 * pow10((n - 1) as nat)
    }
}

/// How far a reading of a decimal number has come.
#[derive(Clone, Copy, PartialEq, Eq, Debug)]
pub enum NumberStage {
    /// Nothing but spaces so far.
    Leading,
    /// Behind the sign.
    Sign,
    /// In the digits before the point.
    Whole,
    /// Behind the point.
    Fraction,
    /// In the spaces behind the number.
    Trailing,
    /// Into something that no number holds.
    Failed,
}

/// A decimal number as far as it has been read: an optional minus sign,
/// digits, and at most one point among them; spaces before and behind.
#[derive(Clone, Copy, Debug)]
pub struct Decimal {
    pub stage: NumberStage,
    pub negative: bool,
    /// The digits before the point, as a number.
    pub whole: u32,
    /// How many digits that number has been read from.
    pub whole_digits: u8,
    /// The first two digits behind the point, as hundredths.
    pub hundredths: u32,
    /// How many digits behind the point have been read, up to two.
    pub places: u8,
    /// Whether any digit has been read.
    pub digits: bool,
}

impl Decimal {
    pub open spec fn wf(self) -> bool {
        &&& self.whole < pow10(self.whole_digits as nat)
        &&& self.hundredths < 100
        &&& self.places <= 2
    }

    pub open spec fn start() -> Decimal {
        Decimal {
            stage: NumberStage::Leading,
            negative: false,
            whole: 0,
            whole_digits: 0,
            hundredths: 0,
            places: 0,
            digits: false,
        }
    }

    pub open spec fn staged(self, stage: NumberStage) -> Decimal {
        Decimal { stage, ..self }
    }

    /// One more digit before the point.
    pub open spec fn whole_digit(self, d: u8) -> Decimal {
        Decimal {
            stage: NumberStage::Whole,
            whole: (self.whole * 10 + d) as u32,
            whole_digits: (self.whole_digits + 1) as u8,
            digits: true,
            ..self
        }
    }

    /// One more digit behind the point: the first counts tenths, the
    /// second hundredths, the others are dropped.
    pub open spec fn fraction_digit(self, d: u8) -> Decimal {
        if self.places == 0 {
            Decimal { hundredths: (d * 10) as u32, places: 1, digits: true, ..self }
        } else if self.places == 1 {
            Decimal { hundredths: (self.hundredths + d) as u32, places: 2, digits: true, ..self }
        } else {
            Decimal { digits: true, ..self }
        }
    }

    /// The reading after one more character.
    pub open spec fn step(self, c: char) -> Decimal {
        match self.stage {
            NumberStage::Leading => if c == ' ' {
                self
            } else if c == '-' {
                Decimal { stage: NumberStage::Sign, negative: true, ..self }
            } else if c == '.' {
                self.staged(NumberStage::Fraction)
            } else {
                match digit_value(c) {
                    Some(d) => self.whole_digit(d),
                    None => self.staged(NumberStage::Failed),
                }
            },
            NumberStage::Sign => if c == '.' {
                self.staged(NumberStage::Fraction)
            } else {
                match digit_value(c) {
                    Some(d) => self.whole_digit(d),
                    None => self.staged(NumberStage::Failed),
                }
            },
            NumberStage::Whole => if c == ' ' {
                self.staged(NumberStage::Trailing)
            } else if c == '.' {
                self.staged(NumberStage::Fraction)
            } else {
                match digit_value(c) {
                    Some(d) => self.whole_digit(d),
                    None => self.staged(NumberStage::Failed),
                }
            },
            NumberStage::Fraction => if c == ' ' {
                self.staged(NumberStage::Trailing)
            } else {
                match digit_value(c) {
                    Some(d) => self.fraction_digit(d),
                    None => self.staged(NumberStage::Failed),
                }
            },
            NumberStage::Trailing => if c == ' ' {
                self
            } else {
                self.staged(NumberStage::Failed)
            },
            NumberStage::Failed => self,
        }
    }

    /// The reading after one more display digit: its glyph, and a point
    /// behind it if its decimal point is lit.
    pub open spec fn digit_step(self, byte: u8) -> Decimal {
        if decimal_point(byte) {
            self.step(glyph(byte)).step('.')
        } else {
            self.step(glyph(byte))
        }
    }

    /// The reading after the first `n` display digits.
    pub open spec fn of(display: Seq<u8>, n: nat) -> Decimal
        decreases n,
    {
        if n == 0 {
            Decimal::start()
        } else {
            Decimal::of(display, (n - 1) as nat).digit_step(display[n - 1])
        }
    }

    /// The number read, in hundredths, digits behind the second place
    /// dropped; none if what was read is no number.
    pub open spec fn hundredths_read(self) -> Option<int> {
        if self.stage == NumberStage::Failed || !self.digits {
            None
        } else if self.negative {
            Some(-(self.whole * 100 + self.hundredths))
        } else {
            Some(self.whole * 100 + self.hundredths)
        }
    }

    fn begin() -> (s: Decimal)
        ensures
            s == Decimal::start(),
            s.wf(),
            s.whole_digits == 0,
    {
        Decimal {
            stage: NumberStage::Leading,
            negative: false,
            whole: 0,
            whole_digits: 0,
            hundredths: 0,
            places: 0,
            digits: false,
        }
    }

    fn add_whole(self, d: u8) -> (s: Decimal)
        requires
            self.wf(),
            self.whole_digits < 8,
            d <= 9,
        ensures
            s == self.whole_digit(d),
            s.wf(),
            s.whole_digits == self.whole_digits + 1,
    {
        proof {
            reveal_with_fuel(pow10, 10);
        }
        Decimal {
            stage: NumberStage::Whole,
            whole: self.whole * 10 + d as u32,
            whole_digits: self.whole_digits + 1,
            digits: true,
            ..self
        }
    }

    fn add_fraction(self, d: u8) -> (s: Decimal)
        requires
            self.wf(),
            d <= 9,
            self.places == 1 ==> self.hundredths % 10 == 0,
        ensures
            s == self.fraction_digit(d),
            s.wf(),
            s.whole_digits == self.whole_digits,
            s.places == 1 ==> s.hundredths % 10 == 0,
    {
        if self.places == 0 {
            Decimal { hundredths: d as u32 * 10, places: 1, digits: true, ..self }
        } else if self.places == 1 {
            Decimal { hundredths: self.hundredths + d as u32, places: 2, digits: true, ..self }
        } else {
            Decimal { digits: true, ..self }
        }
    }

    fn advance(self, c: char) -> (s: Decimal)
        requires
            self.wf(),
            self.whole_digits < 8,
            self.places == 1 ==> self.hundredths % 10 == 0,
        ensures
            s == self.step(c),
            s.wf(),
            s.whole_digits <= self.whole_digits + 1,
            s.places == 1 ==> s.hundredths % 10 == 0,
    {
        match self.stage {
            NumberStage::Leading => if c == ' ' {
                self
            } else if c == '-' {
                Decimal { stage: NumberStage::Sign, negative: true, ..self }
            } else if c == '.' {
                Decimal { stage: NumberStage::Fraction, ..self }
            } else {
                match digit_of(c) {
                    Some(d) => self.add_whole(d),
                    None => Decimal { stage: NumberStage::Failed, ..self },
                }
            },
            NumberStage::Sign => if c == '.' {
                Decimal { stage: NumberStage::Fraction, ..self }
            } else {
                match digit_of(c) {
                    Some(d) => self.add_whole(d),
                    None => Decimal { stage: NumberStage::Failed, ..self },
                }
            },
            NumberStage::Whole => if c == ' ' {
                Decimal { stage: NumberStage::Trailing, ..self }
            } else if c == '.' {
                Decimal { stage: NumberStage::Fraction, ..self }
            } else {
                match digit_of(c) {
                    Some(d) => self.add_whole(d),
                    None => Decimal { stage: NumberStage::Failed, ..self },
                }
            },
            NumberStage::Fraction => if c == ' ' {
                Decimal { stage: NumberStage::Trailing, ..self }
            } else {
                match digit_of(c) {
                    Some(d) => self.add_fraction(d),
                    None => Decimal { stage: NumberStage::Failed, ..self },
                }
            },
            NumberStage::Trailing => if c == ' ' {
                self
            } else {
                Decimal { stage: NumberStage::Failed, ..self }
            },
            NumberStage::Failed => self,
        }
    }
}

/// The score that the display shows, in hundredths of a pawn: the display
/// read as a decimal number and multiplied by 100, or 0 if it shows no
/// number.
pub open spec fn score_shown(display: Seq<u8>) -> int {
    match Decimal::of(display, 4).hundredths_read() {
        Some(v) => v,
        None => 0,
    }
}

/// The score that the display shows, in hundredths of a pawn, if it shows
/// a number.
pub open spec fn score_found(display: Seq<u8>) -> Option<i32> {
    match Decimal::of(display, 4).hundredths_read() {
        Some(v) => Some(v as i32),
        None => None,
    }
}

/// Reads the score that the display shows, in hundredths of a pawn, if it
/// shows a number.
pub fn find_score(map: &LcdMap, display: &[u8; 4]) -> (score: Option<i32>)
    ensures
        score == score_found(display@),
        score matches Some(v) ==> v == score_shown(display@),
        score is None ==> score_shown(display@) == 0,
{
    let mut s = Decimal::begin();
    let mut i: usize = 0;
    while i < 4
        invariant
            i <= 4,
            s.wf(),
            s.whole_digits <= i,
            s.places == 1 ==> s.hundredths % 10 == 0,
            s == Decimal::of(display@, i as nat),
        decreases 4 - i,
    {
        let byte = display[i];
        s = s.advance(map.decode(byte));
        if byte & 0x80 == 0 {
            let whole_digits = s.whole_digits;
            s = s.advance('.');
            assert(s.whole_digits == whole_digits);
        }
        i = i + 1;
    }
    proof {
        reveal_with_fuel(pow10, 5);
    }
    let failed = match s.stage {
        NumberStage::Failed => true,
        _ => false,
    };
    if failed || !s.digits {
        None
    } else {
        let cents: i32 = (s.whole * 100 + s.hundredths) as i32;
        if s.negative {
            Some(-cents)
        } else {
            Some(cents)
        }
    }
}

/// Reads the score that the display shows, in hundredths of a pawn: 0 if it
/// shows no number.
pub fn read_score(map: &LcdMap, display: &[u8; 4]) -> (score: i32)
    ensures
        score == score_shown(display@),
{
    match find_score(map, display) {
        Some(v) => v,
        None => 0,
    }
}

/// Which of the pieces that single spaces part the text into a reading
/// is in.
#[derive(Clone, Copy, PartialEq, Eq, Debug)]
pub enum Piecewise {
    First,
    Second,
    Later,
}

/// The second of the pieces that single spaces part a text into, as far as
/// it has been read as a whole number: an optional plus sign, then digits.
#[derive(Clone, Copy, Debug)]
pub struct Depth {
    pub piece: Piecewise,
    pub signed: bool,
    pub value: u32,
    /// How many digits the value has been read from.
    pub digits: u8,
    /// Whether the piece holds something that no number holds.
    pub bad: bool,
}

impl Depth {
    pub open spec fn wf(self) -> bool {
        self.value < pow10(self.digits as nat)
    }

    pub open spec fn start() -> Depth {
        Depth { piece: Piecewise::First, signed: false, value: 0, digits: 0, bad: false }
    }

    /// The reading after one more character.
    pub open spec fn step(self, c: char) -> Depth {
        match self.piece {
            Piecewise::First => if c == ' ' {
                Depth { piece: Piecewise::Second, ..self }
            } else {
                self
            },
            Piecewise::Second => if c == ' ' {
                Depth { piece: Piecewise::Later, ..self }
            } else if c == '+' {
                if !self.signed && self.digits == 0 {
                    Depth { signed: true, ..self }
                } else {
                    Depth { bad: true, ..self }
                }
            } else {
                match digit_value(c) {
                    Some(d) => Depth {
                        value: (self.value * 10 + d) as u32,
                        digits: (self.digits + 1) as u8,
                        ..self
                    },
                    None => Depth { bad: true, ..self },
                }
            },
            Piecewise::Later => self,
        }
    }

    /// The reading after the first `n` characters of `text`.
    pub open spec fn of(text: Seq<char>, n: nat) -> Depth
        decreases n,
    {
        if n == 0 {
            Depth::start()
        } else {
            Depth::of(text, (n - 1) as nat).step(text[n - 1])
        }
    }

    /// The depth read: the number in the second piece if it is one and no
    /// more than 255, else 0. A text of one piece reads as 0.
    pub open spec fn depth_read(self) -> int {
        if self.piece == Piecewise::First || self.bad || self.digits == 0 || self.value > 255 {
            0
        } else {
            self.value as int
        }
    }

    fn advance(self, c: char) -> (s: Depth)
        requires
            self.wf(),
            self.digits < 8,
        ensures
            s == self.step(c),
            s.wf(),
            s.digits <= self.digits + 1,
    {
        proof {
            reveal_with_fuel(pow10, 10);
        }
        match self.piece {
            Piecewise::First => if c == ' ' {
                Depth { piece: Piecewise::Second, ..self }
            } else {
                self
            },
            Piecewise::Second => if c == ' ' {
                Depth { piece: Piecewise::Later, ..self }
            } else if c == '+' {
                if !self.signed && self.digits == 0 {
                    Depth { signed: true, ..self }
                } else {
                    Depth { bad: true, ..self }
                }
            } else {
                match digit_of(c) {
                    Some(d) => Depth {
                        value: self.value * 10 + d as u32,
                        digits: self.digits + 1,
                        ..self
                    },
                    None => Depth { bad: true, ..self },
                }
            },
            Piecewise::Later => self,
        }
    }
}

/// The search depth that four glyphs show.
pub open spec fn depth_shown(text: Seq<char>) -> int {
    Depth::of(text, 4).depth_read()
}

/// The search depth that four glyphs show, if they show one: a text of one
/// piece shows 0; a second piece that is no number up to 255 shows none.
pub open spec fn depth_found(text: Seq<char>) -> Option<u8> {
    let s = Depth::of(text, 4);
    if s.piece == Piecewise::First {
        Some(0u8)
    } else if s.bad || s.digits == 0 || s.value > 255 {
        None
    } else {
        Some(s.value as u8)
    }
}

/// Reads the search depth that four glyphs show: 0 if they show none.
pub fn read_depth(text: &[char; 4]) -> (depth: u8)
    ensures
        depth == depth_shown(text@),
{
    match find_depth(text) {
        Some(v) => v,
        None => 0,
    }
}

/// Reads the search depth that four glyphs show, if they show one.
pub fn find_depth(text: &[char; 4]) -> (depth: Option<u8>)
    ensures
        depth == depth_found(text@),
        depth matches Some(v) ==> v == depth_shown(text@),
        depth is None ==> depth_shown(text@) == 0,
{
    let mut s = Depth { piece: Piecewise::First, signed: false, value: 0, digits: 0, bad: false };
    let mut i: usize = 0;
    while i < 4
        invariant
            i <= 4,
            s.wf(),
            s.digits <= i,
            s == Depth::of(text@, i as nat),
        decreases 4 - i,
    {
        s = s.advance(text[i]);
        i = i + 1;
    }
    let first = match s.piece {
        Piecewise::First => true,
        _ => false,
    };
    if first {
        Some(0)
    } else if s.bad || s.digits == 0 || s.value > 255 {
        None
    } else {
        Some(s.value as u8)
    }
}

/// The answer that a move makes together with what the display showed when
/// the firmware was asked for the move it expects, for its score and for
/// the depth of its search.
pub open spec fn search_reply_of(
    best_move: Move,
    expected: Seq<u8>,
    score: Seq<u8>,
    depth: Seq<u8>,
) -> Reply {
    Reply {
        best_move,
        ponder: move_named(lowered_text(glyphs_of(expected))),
        detail: Detail::Search {
            cp: score_found(score),
            depth: depth_found(glyphs_of(depth)),
        },
    }
}

/// Puts the answer together from a move and three readings of the display.
pub fn search_reply(
    map: &LcdMap,
    best_move: Move,
    expected: &[u8; 4],
    score: &[u8; 4],
    depth: &[u8; 4],
) -> (reply: Reply)
    ensures
        reply == search_reply_of(best_move, expected@, score@, depth@),
        reply.ponder matches Some(p) ==> p.wf(),
{
    let ponder = read_move(&read_glyphs(map, expected));
    let cp = find_score(map, score);
    let depth = find_depth(&read_glyphs(map, depth));
    Reply { best_move, ponder, detail: Detail::Search { cp, depth } }
}

} // verus!
