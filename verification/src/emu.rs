//! The driver: it works the board's keys and sensors as a player would,
//! lets the firmware run, and keeps a chess position of its own that
//! mirrors the one the firmware holds.
use crate::bus::BusView;
use crate::bus::LATCH_TONE;
use crate::bus::lemma_run_keeps;
use crate::bus::lemma_runs_to_write;
use crate::bus::MM2;
use crate::cpu::adds;
use crate::cpu::find_stacked_status;
use crate::cpu::is_difference;
use crate::cpu::is_sum;
use crate::cpu::keep_decimal;
use crate::cpu::registers;
use crate::cpu::Regs;
use crate::cpu::step;
use crate::cpu::subtracts;
use crate::decimal::P_D;
use crate::display::LcdCommand;
use crate::display::read_command;
use crate::display::read_glyphs;
use crate::display::search_reply;
use crate::display::search_reply_of;
use crate::keys::MM2Button;
use crate::lcd::LcdMap;
use crate::position::Color;
use crate::position::Move;
use crate::position::Piece;
use crate::position::Position;
use crate::script::asks_again;
use crate::script::baseline;
use crate::script::baseline_text;
use crate::script::Detail;
use crate::script::DriverView;
use crate::script::Input;
use crate::script::last_put;
use crate::script::lemma_follows_press;
use crate::script::lemma_follows_self;
use crate::script::lemma_follows_step;
use crate::script::lemma_follows_toggle;
use crate::script::lemma_played_all_board;
use crate::script::lemma_played_follows;
use crate::script::mirror_answers;
use crate::script::placing_square;
use crate::script::position_of;
use crate::script::Reply;
use crate::script::shown_by;
use crate::script::text_of;
use crate::script::with_move;
use vstd::prelude::*;
use w65c02s::W65C02S;

verus! {

/// Interrupt requests in one second of the firmware's time.
pub const QUANTA_PER_SECOND: u32 = 500;

/// Instructions between two interrupt requests.
pub const STEPS_PER_QUANTUM: u32 = 2000;

/// Why the driver could not do what it was asked.
#[derive(Clone, Copy, PartialEq, Eq, Debug)]
pub enum EmuError {
    /// The playing level is not one of 1 to 10.
    InvalidDifficulty,
    /// The move is not legal in the mirrored position.
    IllegalMove,
    /// The display asks for a promotion to a piece it does not name.
    UnknownPromotionChar,
    /// The display announces a mate without a readable number of moves.
    UnreadableMate,
    /// The firmware has shown nothing that answers the request.
    NoAnswer,
}

/// The answer that an announced mate in `n` brings, once the LEDs have
/// pointed at `from` and then at `to`: the legal move between the two, or a
/// refusal if there is none.
pub open spec fn mate_answer(board: Position, n: i8, from: u8, to: u8) -> Result<
    Option<Reply>,
    EmuError,
> {
    match board.move_between(from, to) {
        Some(m) => Ok(Some(Reply { best_move: m, ponder: None, detail: Detail::Mate(n) })),
        None => Err(EmuError::IllegalMove),
    }
}

/// Whether `after` and `answer` are what following an announced mate in
/// `n` leads to from `before`, given that the LEDs pointed at `first`, then
/// at `from`, and `waits` seconds later at `to`. If they still pointed at
/// `from` when the driver's patience of so many seconds was at an end,
/// there is no answer.
pub open spec fn mate_followed(
    before: DriverView,
    after: DriverView,
    answer: Result<Option<Reply>, EmuError>,
    patience: nat,
    n: i8,
    first: u8,
    from: u8,
    waits: nat,
    to: u8,
) -> bool {
    &&& first < 64 && from < 64 && to < 64
    &&& waits <= patience
    &&& if to == from {
        waits == patience && answer == Err::<Option<Reply>, EmuError>(EmuError::NoAnswer) && after
            == before.mate_given_up(first, from, waits)
    } else {
        answer == mate_answer(before.board, n, from, to) && after == before.mate_made(
            first,
            from,
            waits,
            to,
        )
    }
}

/// Whether `after` and `answer` are what following a prompt for a
/// promotion to `piece` leads to from `before`, given that the LEDs pointed
/// at `from` and, once the man there was lifted, at `to`: the man is put
/// down there and the piece is told by its key. The mirror is left as it
/// was.
pub open spec fn promotion_followed(
    before: DriverView,
    after: DriverView,
    answer: Result<Option<Reply>, EmuError>,
    piece: Piece,
    from: u8,
    to: u8,
) -> bool {
    &&& from < 64 && to < 64
    &&& answer == Ok::<Option<Reply>, EmuError>(
        Some(
            Reply {
                best_move: Move { from, to, promotion: Some(piece) },
                ponder: None,
                detail: Detail::Promotion,
            },
        ),
    )
    &&& after == before.promotion_made(piece, from, to)
}

/// Whether `after` and `answer` are what following a shown move leads to
/// from `before`, given what the display held after each of the three
/// questions about the move. A move that is not legal in the mirror is
/// refused, and nothing changes.
pub open spec fn move_followed(
    before: DriverView,
    after: DriverView,
    answer: Result<Option<Reply>, EmuError>,
    mov: Move,
    expected: [u8; 4],
    score: [u8; 4],
    depth: [u8; 4],
) -> bool {
    if before.board.allows(mov) {
        answer == Ok::<Option<Reply>, EmuError>(
            Some(search_reply_of(mov, expected@, score@, depth@)),
        ) && after == before.played(mov).asked_about(expected, score, depth)
    } else {
        answer == Err::<Option<Reply>, EmuError>(EmuError::IllegalMove) && after == before
    }
}

/// Whether `after` and `answer` are what the driver comes to from `before`
/// when the display says `shown` and that ends the asking.
pub open spec fn round_ended(
    before: DriverView,
    after: DriverView,
    answer: Result<Option<Reply>, EmuError>,
    patience: nat,
    shown: LcdCommand,
) -> bool {
    match shown {
        LcdCommand::NoMove => answer == Ok::<Option<Reply>, EmuError>(None) && after == before,
        LcdCommand::BadMate => answer == Err::<Option<Reply>, EmuError>(EmuError::UnreadableMate)
            && after == before,
        LcdCommand::BadPromotion => answer == Err::<Option<Reply>, EmuError>(
            EmuError::UnknownPromotionChar,
        ) && after == before,
        LcdCommand::Mate(n) => exists|first: u8, from: u8, waits: nat, to: u8| #[trigger]
            mate_followed(before, after, answer, patience, n, first, from, waits, to),
        LcdCommand::Promotion(piece) => exists|from: u8, to: u8| #[trigger]
            promotion_followed(before, after, answer, piece, from, to),
        LcdCommand::Move(mov) => exists|expected: [u8; 4], score: [u8; 4], depth: [u8; 4]|
            #[trigger] move_followed(before, after, answer, mov, expected, score, depth),
        _ => false,
    }
}

/// Whether `after` and `answer` are what the driver comes to from `before`
/// when the display says `shown`: the asking ends with `Some` answer as
/// `round_ended` says; or it goes on, and the ENT key is pressed if the
/// display asks for it.
pub open spec fn followed(
    before: DriverView,
    after: DriverView,
    answer: Option<Result<Option<Reply>, EmuError>>,
    patience: nat,
    shown: LcdCommand,
) -> bool {
    if asks_again(shown) {
        answer is None && after == (if shown is Play {
            before.pressed(MM2Button::ENT)
        } else {
            before
        })
    } else {
        answer matches Some(a) && round_ended(before, after, a, patience, shown)
    }
}

/// Whether `after` and `answer` are what asking the firmware for its move
/// leads to from `before`, given what the display was read as in each
/// round: `readings` in the rounds after which the firmware was asked
/// again, `last` in the round that ended the asking. After as many rounds
/// without an answer as the driver has patience for, there is none. Each
/// reading stands in the journal of `after`.
pub open spec fn consulted(
    before: DriverView,
    after: DriverView,
    answer: Result<Option<Reply>, EmuError>,
    patience: nat,
    readings: Seq<[u8; 4]>,
    last: [u8; 4],
) -> bool {
    &&& readings.len() <= patience
    &&& forall|i: int| 0 <= i < readings.len() ==> asks_again(shown_by(#[trigger] readings[i]))
    &&& if readings.len() == patience {
        answer == Err::<Option<Reply>, EmuError>(EmuError::NoAnswer) && after == before.idled(
            readings,
        )
    } else {
        round_ended(before.idled(readings).polled(last), after, answer, patience, shown_by(last))
    }
}

/// The tone counter after the processor has left the board as each of
/// `boards` in turn, one instruction each: it has gone up by one for each
/// with the tone gate open, as long as it could still count.
pub open spec fn tone_over(count: nat, boards: Seq<BusView>) -> nat
    decreases boards.len(),
{
    if boards.len() == 0 {
        count
    } else {
        let so_far = tone_over(count, boards.drop_last());
        so_far + MM2Emu::tone_heard(boards.last(), so_far)
    }
}

/// Whether the machine has run on from where its history was `h0` and its
/// tone counter `t0` to where they are `h1` and `t1`: the history has grown
/// by the board after each instruction, and the tone counter has counted
/// over these boards.
pub open spec fn ran_on(h0: Seq<BusView>, t0: nat, h1: Seq<BusView>, t1: nat) -> bool {
    &&& h0.len() <= h1.len()
    &&& h1.take(h0.len() as int) == h0
    &&& t1 == tone_over(t0, h1.skip(h0.len() as int))
}

/// The tone counter counts over two runs of boards as over the one and then
/// the other.
pub proof fn lemma_tone_over_both(count: nat, first: Seq<BusView>, second: Seq<BusView>)
    ensures
        tone_over(count, first + second) == tone_over(tone_over(count, first), second),
    decreases second.len(),
{
    if second.len() == 0 {
        assert(first + second =~= first);
    } else {
        lemma_tone_over_both(count, first, second.drop_last());
        assert((first + second).drop_last() =~= first + second.drop_last());
        assert((first + second).last() == second.last());
    }
}

/// Whether the tone gate is shut on each of `boards`.
pub open spec fn tone_shut(boards: Seq<BusView>) -> bool {
    forall|i: int| 0 <= i < boards.len() ==> !(#[trigger] boards[i]).outlatch[LATCH_TONE as int]
}

/// Whether the tone gate is open on each of `boards`.
pub open spec fn tone_open(boards: Seq<BusView>) -> bool {
    forall|i: int| 0 <= i < boards.len() ==> (#[trigger] boards[i]).outlatch[LATCH_TONE as int]
}

/// Over boards whose tone gate is shut the tone counter stays where it was.
pub proof fn lemma_tone_over_shut(count: nat, boards: Seq<BusView>)
    requires
        tone_shut(boards),
    ensures
        tone_over(count, boards) == count,
    decreases boards.len(),
{
    if boards.len() > 0 {
        let rest = boards.drop_last();
        assert forall|i: int| 0 <= i < rest.len() implies !(
        #[trigger] rest[i]).outlatch[LATCH_TONE as int] by {
            assert(rest[i] == boards[i]);
        }
        lemma_tone_over_shut(count, rest);
    }
}

/// Over boards whose tone gate is open the tone counter goes up by one for
/// each, as long as it can count.
pub proof fn lemma_tone_over_open(count: nat, boards: Seq<BusView>)
    requires
        tone_open(boards),
        count + boards.len() <= u64::MAX,
    ensures
        tone_over(count, boards) == count + boards.len(),
    decreases boards.len(),
{
    if boards.len() > 0 {
        let rest = boards.drop_last();
        assert forall|i: int| 0 <= i < rest.len() implies (
        #[trigger] rest[i]).outlatch[LATCH_TONE as int] by {
            assert(rest[i] == boards[i]);
        }
        lemma_tone_over_open(count, rest);
    }
}

/// A machine that has not run has run on from where it was.
pub proof fn lemma_ran_on_self(h: Seq<BusView>, t: nat)
    ensures
        ran_on(h, t, h, t),
{
    assert(h.take(h.len() as int) =~= h);
    assert(h.skip(h.len() as int) =~= Seq::<BusView>::empty());
}

/// A machine that has run on, and on from there, has run on from where it
/// was first.
pub proof fn lemma_ran_on_further(
    h0: Seq<BusView>,
    t0: nat,
    h1: Seq<BusView>,
    t1: nat,
    h2: Seq<BusView>,
    t2: nat,
)
    requires
        ran_on(h0, t0, h1, t1),
        ran_on(h1, t1, h2, t2),
    ensures
        ran_on(h0, t0, h2, t2),
{
    let n0 = h0.len() as int;
    let n1 = h1.len() as int;
    assert(h2.take(n0) =~= h2.take(n1).take(n0));
    assert(h2.skip(n0) =~= h1.skip(n0) + h2.skip(n1)) by {
        assert forall|i: int| 0 <= i < h1.len() - n0 implies h2.skip(n0)[i] == h1.skip(n0)[i] by {
            assert(h2.take(n1)[i + n0] == h1[i + n0]);
        }
    }
    lemma_tone_over_both(t0, h1.skip(n0), h2.skip(n1));
}

/// A chess computer behind a driver: what each model can be asked to do.
pub trait MephistoEmu: Sized {
    /// The machine is fit for use.
    spec fn ready(&self) -> bool;

    /// The position that the driver believes the machine to hold.
    spec fn mirror(&self) -> Position;

    /// Sets the playing level, if one is given, and enters the level that
    /// is set. A level outside 1 to 10 is refused, and nothing changes.
    fn set_difficulty(&mut self, new_difficulty: Option<u8>) -> (r: Result<(), EmuError>)
        requires
            old(self).ready(),
        ensures
            final(self).ready(),
            final(self).mirror() == old(self).mirror(),
            r is Err <==> (new_difficulty matches Some(d) && !(1 <= d <= 10)),
            r is Err ==> r == Err::<(), EmuError>(EmuError::InvalidDifficulty),
            r is Err ==> *final(self) == *old(self),
    ;

    /// Brings board and mirror to where `movs` lead from the starting
    /// position, if `startpos` is set or no text is given, and else from
    /// the position that `fen` sets.
    fn set_position(&mut self, startpos: bool, fen: Option<String>, movs: Vec<Move>)
        requires
            old(self).ready(),
            baseline(startpos, text_of(fen)).allows_all(movs@),
        ensures
            final(self).ready(),
            final(self).mirror() == baseline(startpos, text_of(fen)).after_all(
                movs@,
            ),
    ;

    /// Sets board and mirror to the position that `fen` describes; to the
    /// starting position if `fen` is the word `startpos` or describes none.
    fn set_fen(&mut self, fen: &str)
        requires
            old(self).ready(),
        ensures
            final(self).ready(),
            final(self).mirror() == position_of(fen@),
    ;

    /// Puts the firmware into the mode in which it takes moves as given,
    /// and makes the moves of `movs` in turn.
    fn force_moves(&mut self, movs: Vec<Move>)
        requires
            old(self).ready(),
            old(self).mirror().allows_all(movs@),
        ensures
            final(self).ready(),
            final(self).mirror() == old(self).mirror().after_all(movs@),
    ;

    /// Makes the legal move `mov` on the board and in the mirror.
    fn play_move(&mut self, mov: Move)
        requires
            old(self).ready(),
            old(self).mirror().allows(mov),
        ensures
            final(self).ready(),
            final(self).mirror() == old(self).mirror().after(mov),
    ;

    /// Asks the firmware for its move and waits for the answer: a move, or
    /// none if the side to move has none.
    fn gen_move(&mut self) -> (r: Result<Option<Reply>, EmuError>)
        requires
            old(self).ready(),
        ensures
            final(self).ready(),
            mirror_answers(old(self).mirror(), final(self).mirror(), r),
    ;
}

/// The emulated machine together with its driver.
pub struct MM2Emu {
    cpu: W65C02S,
    regs: Regs,
    pub system: MM2,
    pub cur_board: Position,
    interrupt_count: u32,
    gave_up: bool,
    history: Ghost<Seq<BusView>>,
    difficulty: u8,
    tone_count: u64,
    last_move_forced: bool,
    patience: u64,
    lcd_map: LcdMap,
    journal: Vec<Input>,
}

impl View for MM2Emu {
    type V = DriverView;

    closed spec fn view(&self) -> DriverView {
        DriverView {
            rom: self.system@.rom,
            book: self.system@.book,
            sensors: self.system@.sensors,
            keys: self.system@.keys,
            board: self.cur_board,
            level: self.difficulty as int,
            forced: self.last_move_forced,
            patience: self.patience as nat,
            journal: self.journal@,
        }
    }
}

impl MM2Emu {
    /// The count of instructions during which the tone gate was open.
    pub closed spec fn tone(&self) -> nat {
        self.tone_count as nat
    }

    /// The count of interrupts since the last second of the firmware's time
    /// began.
    pub closed spec fn interrupts(&self) -> nat {
        self.interrupt_count as nat
    }

    /// The board as the processor has left it after each instruction that
    /// it has run, the first first.
    pub closed spec fn history(&self) -> Seq<BusView> {
        self.history@
    }

    /// Whether the firmware has acknowledged the last interrupt request.
    pub closed spec fn acknowledged(&self) -> bool {
        self.system@.acked
    }

    /// Whether the driver has ever given up on an interrupt request: the
    /// firmware had not acknowledged it after as many instructions as can
    /// be counted.
    pub closed spec fn has_given_up(&self) -> bool {
        self.gave_up
    }

    /// The four bytes that the display holds.
    pub closed spec fn shown(&self) -> Seq<u8> {
        self.system@.display
    }

    /// The square that the board LEDs point at.
    pub closed spec fn pointed(&self) -> int {
        self.system@.led_square
    }

    /// The keypad with `button` held down and every other key up.
    pub open spec fn keys_holding(button: MM2Button) -> Seq<bool> {
        Seq::new(16, |k: int| k == button.code())
    }

    /// The machine can run: its fabric is well-formed and the level is one
    /// of the ten.
    pub closed spec fn sound(&self) -> bool {
        &&& self.system@.wf()
        &&& self.difficulty < 10
    }

    /// The machine is fit for use: it can run, no key is held down, and
    /// the firmware has acknowledged the last interrupt request, unless the
    /// driver has given up on one.
    pub closed spec fn wf(&self) -> bool {
        &&& self.sound()
        &&& self.system@.keys_idle()
        &&& (self.acknowledged() || self.has_given_up())
    }

    /// The view of a machine that is fit for use is well-formed, its keypad
    /// has every key up, and the firmware has acknowledged the last
    /// interrupt request unless the driver has given up on one.
    pub proof fn lemma_wf_view(&self)
        requires
            self.wf(),
        ensures
            self.sound(),
            self@.wf(),
            self@.keys == Seq::new(16, |k: int| false),
            self.acknowledged() || self.has_given_up(),
    {
        assert(self@.keys =~= Seq::new(16, |k: int| false));
    }

    /// A machine with the given book and program, before its first
    /// instruction: the mirror holds the starting position, no sensor
    /// reports a man, the level is the lowest, nothing has been done yet.
    pub fn new(book: [u8; 0x4000], rom: [u8; 0x8000]) -> (emu: MM2Emu)
        ensures
            emu.wf(),
            emu@.wf(),
            emu.tone() == 0,
            emu.interrupts() == 0,
            emu.history() == Seq::<BusView>::empty(),
            emu.acknowledged(),
            !emu.has_given_up(),
            emu@.patience == u64::MAX,
            emu@.rom == rom@,
            emu@.book == book@,
            emu@.sensors == Seq::new(8, |i: int| 0u8),
            emu@.keys == Seq::new(16, |i: int| false),
            emu@.board == Position::start(),
            emu@.level == 0,
            !emu@.forced,
            emu@.journal == Seq::<Input>::empty(),
    {
        let cpu = W65C02S::new();
        let regs = registers(&cpu);
        MM2Emu {
            cpu,
            regs,
            system: MM2::new(book, rom),
            cur_board: Position::startpos(),
            interrupt_count: 0,
            gave_up: false,
            history: Ghost(Seq::empty()),
            difficulty: 0,
            tone_count: 0,
            last_move_forced: false,
            patience: u64::MAX,
            lcd_map: LcdMap::new(),
            journal: Vec::new(),
        }
    }

    /// What the driver has done to the board's inputs, the first first.
    pub fn journal(&self) -> (inputs: &Vec<Input>)
        ensures
            inputs@ == self@.journal,
    {
        &self.journal
    }

    /// Forgets what the driver has done so far.
    pub fn clear_journal(&mut self)
        ensures
            old(self).wf() ==> final(self).wf(),
            final(self).tone() == old(self).tone(),
            final(self).interrupts() == old(self).interrupts(),
            final(self)@ == (DriverView { journal: Seq::empty(), ..old(self)@ }),
    {
        self.journal = Vec::new();
    }

    /// Sets for how many rounds the driver asks the firmware for its move
    /// without an answer, and for how many seconds it waits for the LEDs to
    /// move on, before it gives up.
    pub fn set_patience(&mut self, patience: u64)
        ensures
            old(self).wf() ==> final(self).wf(),
            final(self).tone() == old(self).tone(),
            final(self).interrupts() == old(self).interrupts(),
            final(self)@ == (DriverView { patience: patience as nat, ..old(self)@ }),
    {
        self.patience = patience;
    }

    /// For how many rounds the driver asks the firmware for its move without
    /// an answer, and for how many seconds it waits for the LEDs to move on,
    /// before it gives up.
    pub fn patience(&self) -> (patience: u64)
        ensures
            patience == self@.patience,
    {
        self.patience
    }

    /// Whether the driver has ever given up on an interrupt request.
    pub fn gave_up(&self) -> (r: bool)
        ensures
            r == self.has_given_up(),
    {
        self.gave_up
    }

    /// The count of interrupts since the last second of the firmware's time
    /// began: 500 once it is over.
    pub fn interrupt_count(&self) -> (count: u32)
        ensures
            count == self.interrupts(),
    {
        self.interrupt_count
    }

    /// The count of instructions during which the tone gate was open since
    /// the driver last made a move.
    pub fn tone_count(&self) -> (count: u64)
        ensures
            count == self.tone(),
    {
        self.tone_count
    }

    /// The playing level, from 1 to 10.
    pub fn level(&self) -> (level: u8)
        requires
            self.wf(),
        ensures
            level == self@.level + 1,
    {
        self.difficulty + 1
    }

    /// Whether the last moves were dictated to the firmware.
    pub fn last_move_forced(&self) -> (forced: bool)
        ensures
            forced == self@.forced,
    {
        self.last_move_forced
    }

    /// Whether each sensor reports a man exactly if the mirror has one on
    /// its square.
    pub fn sensors_show_mirror(&self) -> (r: bool)
        requires
            self.wf(),
        ensures
            r == forall|sq: u8| sq < 64 ==> #[trigger] self@.in_step(sq),
    {
        let rows = self.system.sensors();
        let mut sq: u8 = 0;
        while sq < 64
            invariant
                sq <= 64,
                rows@ == self@.sensors,
                forall|s: u8| s < sq ==> #[trigger] self@.in_step(s),
            decreases 64 - sq,
        {
            let reports = (rows[(sq / 8) as usize] >> (sq % 8)) & 1 == 1;
            if reports != self.cur_board.man_on(sq).is_some() {
                assert(!self@.in_step(sq));
                return false;
            }
            sq = sq + 1;
        }
        true
    }

    /// The processor stands in decimal mode before an instruction that adds
    /// or subtracts, which it cannot be handed. It is handed the
    /// instruction in binary mode; then the driver works out the operand
    /// from the binary result and puts the decimal result and its flags in
    /// place. Where the processor has taken an interrupt instead, the status
    /// byte that it has stacked gets its decimal flag back; where it is not
    /// running and has done nothing, the register does.
    fn step_decimal(&mut self, ahead: u8)
        requires
            old(self).sound(),
            ahead == old(self).system@.read(old(self).regs.pc),
            adds(ahead) || subtracts(ahead),
        ensures
            final(self).sound(),
            final(self)@ == old(self)@,
            old(self).system@.runs_to(final(self).system@),
            final(self).tone() == old(self).tone(),
            final(self).interrupts() == old(self).interrupts(),
            final(self).history() == old(self).history(),
            final(self).has_given_up() == old(self).has_given_up(),
    {
        let ghost board = self.system@;
        let before = self.regs;
        let status: u8 = before.p;
        let binary: u8 = status & !P_D;
        assert(binary & P_D == 0) by (bit_vector)
            requires
                binary == status & !P_D,
        ;
        step(&mut self.cpu, Regs { p: binary, ..before }, &mut self.system);
        let after = registers(&self.cpu);
        proof {
            let writes = choose|writes: Seq<(u16, u8)>|
                self.system@ == #[trigger] board.write_all(writes);
            lemma_run_keeps(board, writes);
        }
        if let Some(addr) = find_stacked_status(before, after) {
            let stacked = self.system.read(addr);
            let ghost run = self.system@;
            self.system.write(addr, stacked | P_D);
            proof {
                lemma_runs_to_write(board, run, addr, stacked | P_D);
                crate::bus::lemma_write_keeps(run, addr, stacked | P_D);
            }
        }
        self.regs = keep_decimal(before, after, ahead);
    }

    /// By how much the tone counter goes up after an instruction that has
    /// left the board as `board`: by one if the tone gate is open and the
    /// counter can still count.
    pub open spec fn tone_heard(board: BusView, count: nat) -> nat {
        if board.outlatch[LATCH_TONE as int] && count < u64::MAX {
            1
        } else {
            0
        }
    }

    /// The processor runs one instruction, which leaves the board as some
    /// writes make it; the tone counter goes up by one if the tone gate is
    /// open afterwards, until it can count no further.
    fn run_step(&mut self)
        requires
            old(self).sound(),
        ensures
            final(self).sound(),
            final(self)@ == old(self)@,
            old(self).system@.runs_to(final(self).system@),
            final(self).tone() == old(self).tone() + MM2Emu::tone_heard(
                final(self).system@,
                old(self).tone(),
            ),
            final(self).tone() >= old(self).tone(),
            final(self).interrupts() == old(self).interrupts(),
            final(self).history() == old(self).history().push(final(self).system@),
            final(self).has_given_up() == old(self).has_given_up(),
            ran_on(
                old(self).history(),
                old(self).tone(),
                final(self).history(),
                final(self).tone(),
            ),
    {
        let ghost board = self.system@;
        let ahead = self.system.read(self.regs.pc);
        if self.regs.p & P_D != 0 && (is_sum(ahead) || is_difference(ahead)) {
            self.step_decimal(ahead);
        } else {
            step(&mut self.cpu, self.regs, &mut self.system);
            self.regs = registers(&self.cpu);
        }
        proof {
            let writes = choose|writes: Seq<(u16, u8)>|
                self.system@ == #[trigger] board.write_all(writes);
            lemma_run_keeps(board, writes);
        }
        if self.system.tone_on() && self.tone_count < u64::MAX {
            self.tone_count = self.tone_count + 1;
        }
        self.history = Ghost(self.history@.push(self.system@));
        proof {
            let h0 = old(self).history();
            let h1 = self.history();
            assert(h1.take(h0.len() as int) =~= h0);
            let one = h1.skip(h0.len() as int);
            assert(one =~= seq![self.system@]);
            assert(one.drop_last() =~= Seq::<BusView>::empty());
            assert(one.last() == self.system@);
            assert(tone_over(old(self).tone(), one.drop_last()) == old(self).tone());
            assert(tone_over(old(self).tone(), one) == old(self).tone() + MM2Emu::tone_heard(
                self.system@,
                old(self).tone(),
            ));
        }
    }

    /// One quantum: the processor runs its share of instructions, the
    /// interrupt is requested, and the processor runs on while the firmware
    /// has not acknowledged it. A firmware that never acknowledges is given
    /// up on after as many instructions as can be counted, and that is
    /// remembered.
    fn await_interrupt(&mut self)
        requires
            old(self).sound(),
            old(self).interrupts() < QUANTA_PER_SECOND,
        ensures
            final(self).sound(),
            final(self)@ == old(self)@,
            final(self).tone() >= old(self).tone(),
            final(self).interrupts() == old(self).interrupts() + 1,
            ran_on(
                old(self).history(),
                old(self).tone(),
                final(self).history(),
                final(self).tone(),
            ),
            final(self).history().len() >= old(self).history().len() + STEPS_PER_QUANTUM,
            forall|i: int|
                old(self).history().len() + STEPS_PER_QUANTUM <= i < final(self).history().len() - 1
                    ==> !(#[trigger] final(self).history()[i]).acked,
            final(self).acknowledged() || final(self).history().len() == old(self).history().len()
                + STEPS_PER_QUANTUM + u64::MAX,
            final(self).has_given_up() == (old(self).has_given_up() || !final(self).acknowledged()),
    {
        let ghost h0 = self.history();
        let ghost t0 = self.tone();
        proof {
            lemma_ran_on_self(h0, t0);
        }
        let mut done: u32 = 0;
        while done < STEPS_PER_QUANTUM
            invariant
                done <= STEPS_PER_QUANTUM,
                self.sound(),
                self@ == old(self)@,
                h0 == old(self).history(),
                t0 == old(self).tone(),
                self.tone() >= t0,
                self.interrupts() == old(self).interrupts(),
                self.has_given_up() == old(self).has_given_up(),
                ran_on(h0, t0, self.history(), self.tone()),
                self.history().len() == h0.len() + done,
            decreases STEPS_PER_QUANTUM - done,
        {
            let ghost h = self.history();
            let ghost t = self.tone();
            self.run_step();
            proof {
                lemma_ran_on_further(h0, t0, h, t, self.history(), self.tone());
            }
            done = done + 1;
        }
        self.interrupt_count = self.interrupt_count + 1;
        self.cpu.set_irq(true);
        self.system.request_ack();
        let mut spent: u64 = 0;
        while !self.system.acked() && spent < u64::MAX
            invariant
                self.sound(),
                self@ == old(self)@,
                h0 == old(self).history(),
                t0 == old(self).tone(),
                self.tone() >= t0,
                self.interrupts() == old(self).interrupts() + 1,
                self.has_given_up() == old(self).has_given_up(),
                ran_on(h0, t0, self.history(), self.tone()),
                self.history().len() == h0.len() + STEPS_PER_QUANTUM + spent,
                forall|i: int|
                    h0.len() + STEPS_PER_QUANTUM <= i < self.history().len() - 1 ==> !(
                    #[trigger] self.history()[i]).acked,
                spent > 0 ==> self.history().last().acked == self.acknowledged(),
            decreases u64::MAX - spent,
        {
            let ghost h = self.history();
            let ghost t = self.tone();
            self.run_step();
            proof {
                lemma_ran_on_further(h0, t0, h, t, self.history(), self.tone());
                assert forall|i: int|
                    h0.len() + STEPS_PER_QUANTUM <= i < self.history().len() - 1 implies !(
                #[trigger] self.history()[i]).acked by {
                    assert(self.history()[i] == h[i]);
                }
            }
            spent = spent + 1;
        }
        if !self.system.acked() {
            self.gave_up = true;
        }
    }

    /// The firmware runs for a second, which is 500 interrupts, and the
    /// second is recorded.
    pub fn wait_1sec(&mut self)
        requires
            old(self).wf(),
        ensures
            final(self).wf(),
            final(self)@ == old(self)@.waited(),
            final(self).interrupts() == QUANTA_PER_SECOND,
            final(self).tone() >= old(self).tone(),
            final(self)@.keeps_following(old(self)@),
            final(self).seconded(old(self)),
    {
        let ghost before = old(self)@;
        assert forall|b: DriverView| before.follows(b) implies #[trigger] before.waited().follows(
            b,
        ) by {
            crate::script::lemma_follows_wait(before, b);
        }
        self.run_second();
        self.journal.push(Input::Wait);
    }

    /// What a second of the firmware's time has done when the machine has
    /// come from `before`: the processor has run 2000 instructions and more
    /// for each of 500 interrupts; the tone counter has counted over the
    /// boards that it left; and the firmware has acknowledged the last
    /// interrupt unless the driver has given up on one, now or before.
    pub open spec fn seconded(&self, before: &MM2Emu) -> bool {
        &&& ran_on(before.history(), before.tone(), self.history(), self.tone())
        &&& self.history().len() >= before.history().len() + QUANTA_PER_SECOND * STEPS_PER_QUANTUM
        &&& before.has_given_up() ==> self.has_given_up()
        &&& self.acknowledged() || self.has_given_up()
    }

    /// One second of the firmware's time: 500 interrupts.
    fn run_second(&mut self)
        requires
            old(self).sound(),
        ensures
            final(self).sound(),
            final(self)@ == old(self)@,
            final(self).interrupts() == QUANTA_PER_SECOND,
            final(self).tone() >= old(self).tone(),
            final(self).seconded(old(self)),
    {
        let ghost h0 = self.history();
        let ghost t0 = self.tone();
        proof {
            lemma_ran_on_self(h0, t0);
        }
        self.interrupt_count = 0;
        while self.interrupt_count < QUANTA_PER_SECOND
            invariant
                self.sound(),
                self@ == old(self)@,
                h0 == old(self).history(),
                t0 == old(self).tone(),
                self.interrupts() <= QUANTA_PER_SECOND,
                self.tone() >= t0,
                ran_on(h0, t0, self.history(), self.tone()),
                self.history().len() >= h0.len() + self.interrupts() * STEPS_PER_QUANTUM,
                old(self).has_given_up() ==> self.has_given_up(),
                self.interrupts() > 0 ==> self.acknowledged() || self.has_given_up(),
            decreases QUANTA_PER_SECOND - self.interrupt_count,
        {
            let ghost h = self.history();
            let ghost t = self.tone();
            self.await_interrupt();
            proof {
                lemma_ran_on_further(h0, t0, h, t, self.history(), self.tone());
            }
        }
    }

    /// Resets the processor and lets the firmware start up for two
    /// seconds. Nothing else that the driver determines changes.
    pub fn init(&mut self)
        requires
            old(self).wf(),
        ensures
            final(self).wf(),
            final(self)@ == old(self)@.started(),
            final(self).interrupts() == QUANTA_PER_SECOND,
            final(self).acknowledged() || final(self).has_given_up(),
            old(self).has_given_up() ==> final(self).has_given_up(),
    {
        self.cpu.reset();
        self.regs = registers(&self.cpu);
        self.system.rearm_display();
        self.journal.push(Input::Reset);
        self.wait_1sec();
        self.wait_1sec();
    }

    /// Holds `button` down: its cell of the keypad, and no other, reads as
    /// pressed from now on.
    pub fn hold_key(&mut self, button: MM2Button)
        requires
            old(self).wf(),
        ensures
            final(self).sound(),
            final(self)@ == (DriverView { keys: MM2Emu::keys_holding(button), ..old(self)@ }),
            final(self).tone() == old(self).tone(),
            final(self).acknowledged() == old(self).acknowledged(),
            final(self).has_given_up() == old(self).has_given_up(),
            final(self).history() == old(self).history(),
    {
        self.system.set_key(button.to_code(), true);
        assert(self@.keys =~= MM2Emu::keys_holding(button));
    }

    /// The firmware runs for a second against the keypad with `button`
    /// held down, and the second is recorded under the button.
    pub fn run_held_second(&mut self, button: MM2Button)
        requires
            old(self).sound(),
            old(self)@.keys == MM2Emu::keys_holding(button),
        ensures
            final(self).sound(),
            final(self)@ == old(self)@.step(Input::Key(button)),
            final(self).interrupts() == QUANTA_PER_SECOND,
            final(self).tone() >= old(self).tone(),
            final(self).seconded(old(self)),
    {
        self.run_second();
        self.journal.push(Input::Key(button));
    }

    /// Lets `button` go: every key is up again. The machine is fit for use
    /// again if the firmware has acknowledged the last interrupt request or
    /// the driver has given up on one.
    pub fn release_key(&mut self, button: MM2Button)
        requires
            old(self).sound(),
            old(self)@.keys == MM2Emu::keys_holding(button),
        ensures
            final(self).sound(),
            old(self).acknowledged() || old(self).has_given_up() ==> final(self).wf(),
            final(self)@ == (DriverView { keys: Seq::new(16, |k: int| false), ..old(self)@ }),
            final(self).tone() == old(self).tone(),
            final(self).interrupts() == old(self).interrupts(),
            final(self).acknowledged() == old(self).acknowledged(),
            final(self).has_given_up() == old(self).has_given_up(),
            final(self).history() == old(self).history(),
    {
        self.system.set_key(button.to_code(), false);
        assert(self@.keys =~= Seq::new(16, |k: int| false));
    }

    /// Presses `button`: a second at rest, a second with the button's cell
    /// of the keypad held down, a second at rest. The keypad is afterwards
    /// as it was.
    pub fn press_key(&mut self, button: MM2Button)
        requires
            old(self).wf(),
        ensures
            final(self).wf(),
            final(self)@ == old(self)@.pressed(button),
            final(self)@.keys == old(self)@.keys,
            final(self).interrupts() == QUANTA_PER_SECOND,
            final(self).tone() >= old(self).tone(),
            final(self)@.keeps_following(old(self)@),
            final(self).acknowledged() || final(self).has_given_up(),
            old(self).has_given_up() ==> final(self).has_given_up(),
    {
        let ghost before = old(self)@;
        assert forall|b: DriverView| before.follows(b) implies #[trigger] before.pressed(
            button,
        ).follows(b) by {
            lemma_follows_press(before, b, button);
        }
        proof {
            self.lemma_wf_view();
        }
        self.wait_1sec();
        proof {
            self.lemma_wf_view();
        }
        self.hold_key(button);
        self.run_held_second(button);
        self.release_key(button);
        self.wait_1sec();
    }

    /// Lifts a man from `sq` or puts one there, with a second at rest
    /// before and after.
    pub fn make_half_move(&mut self, sq: u8)
        requires
            old(self).wf(),
            sq < 64,
        ensures
            final(self).wf(),
            final(self)@ == old(self)@.toggled(sq),
            final(self).interrupts() == QUANTA_PER_SECOND,
            final(self).tone() >= old(self).tone(),
            final(self)@.keeps_following(old(self)@),
            final(self).acknowledged() || final(self).has_given_up(),
            old(self).has_given_up() ==> final(self).has_given_up(),
    {
        let ghost before = old(self)@;
        assert forall|b: DriverView| before.follows(b) implies #[trigger] before.toggled(
            sq,
        ).follows(b) by {
            lemma_follows_toggle(before, b, sq);
        }
        self.wait_1sec();
        self.system.toggle_sensor(sq);
        self.journal.push(Input::Square(sq));
        self.wait_1sec();
    }

    /// Sets board and mirror to the starting position, starts the firmware
    /// anew and enters the level again.
    fn set_default_pos(&mut self)
        requires
            old(self).wf(),
        ensures
            final(self).wf(),
            final(self)@ == old(self)@.defaulted(),
    {
        self.system.set_sensors([0, 0, 0xff, 0xff, 0xff, 0xff, 0, 0]);
        self.cur_board = Position::startpos();
        assert(self@.sensors =~= crate::script::start_sensors());
        self.init();
        let entered = self.set_difficulty(None);
        assert(entered is Ok);
    }

    /// Tells the firmware the kind and colour of the next man to be put
    /// down, unless it is the same as the last.
    fn choose_man(&mut self, last: Option<(Piece, Color)>, piece: Piece, color: Color)
        requires
            old(self).wf(),
        ensures
            final(self).wf(),
            final(self)@ == old(self)@.man_chosen(last, piece, color),
    {
        let same = match last {
            Some((p, c)) => p.same(piece) && c.same(color),
            None => false,
        };
        if !same {
            self.press_key(MM2Button::for_piece(piece));
            match color {
                Color::Black => {
                    self.press_key(MM2Button::for_piece(piece));
                },
                Color::White => {},
            }
        }
    }

    /// Puts the men of `board` on the empty board, file by file.
    fn place_men(&mut self, board: &Position)
        requires
            old(self).wf(),
        ensures
            final(self).wf(),
            final(self)@ == old(self)@.men_placed(*board, 64),
    {
        let mut last: Option<(Piece, Color)> = None;
        let mut file: u8 = 0;
        while file < 8
            invariant
                file <= 8,
                self.wf(),
                self@ == old(self)@.men_placed(*board, (file * 8) as nat),
                last == last_put(*board, (file * 8) as nat),
            decreases 8 - file,
        {
            let mut rank: u8 = 0;
            while rank < 8
                invariant
                    file < 8,
                    rank <= 8,
                    self.wf(),
                    self@ == old(self)@.men_placed(*board, (file * 8 + rank) as nat),
                    last == last_put(*board, (file * 8 + rank) as nat),
                decreases 8 - rank,
            {
                let sq: u8 = rank * 8 + file;
                assert(sq == placing_square(file * 8 + rank));
                if let Some((piece, color)) = board.man_on(sq) {
                    self.choose_man(last, piece, color);
                    last = Some((piece, color));
                    self.make_half_move(sq);
                    self.wait_1sec();
                }
                rank = rank + 1;
            }
            file = file + 1;
        }
    }

    /// The position from which the moves of a request are counted.
    fn baseline_of(startpos: bool, fen: &Option<String>) -> (p: Position)
        ensures
            p == baseline(startpos, text_of(*fen)),
    {
        match fen {
            Some(text) => {
                if startpos {
                    Position::startpos()
                } else {
                    match Position::from_fen(text.as_str()) {
                        Some(p) => p,
                        None => Position::startpos(),
                    }
                }
            },
            None => Position::startpos(),
        }
    }

    /// Brings board and mirror to where `movs` lead from the baseline, if
    /// each of them is legal where the ones before it lead; refuses them,
    /// and changes nothing, if one is not.
    pub fn try_set_position(&mut self, startpos: bool, fen: Option<String>, movs: Vec<Move>) -> (r:
        Result<(), EmuError>)
        requires
            old(self).wf(),
        ensures
            final(self).wf(),
            baseline(startpos, text_of(fen)).allows_all(movs@) ==> r is Ok
                && final(self)@ == old(self)@.positioned(
                startpos,
                text_of(fen),
                movs@,
            ),
            !baseline(startpos, text_of(fen)).allows_all(movs@) ==> r == Err::<
                (),
                EmuError,
            >(EmuError::IllegalMove) && *final(self) == *old(self),
    {
        let base = MM2Emu::baseline_of(startpos, &fen);
        if base.try_moves(&movs).is_some() {
            self.set_position(startpos, fen, movs);
            Ok(())
        } else {
            Err(EmuError::IllegalMove)
        }
    }

    /// Reads the display and records what it holds.
    pub fn read_display(&mut self) -> (reading: [u8; 4])
        requires
            old(self).wf(),
        ensures
            final(self).wf(),
            reading@ == old(self).shown(),
            final(self).shown() == old(self).shown(),
            final(self).pointed() == old(self).pointed(),
            final(self)@ == old(self)@.step(Input::Shown(reading)),
            final(self).tone() == old(self).tone(),
            final(self)@.keeps_following(old(self)@),
    {
        let ghost before = old(self)@;
        let reading = self.system.display();
        assert forall|b: DriverView| before.follows(b) implies #[trigger] before.step(
            Input::Shown(reading),
        ).follows(b) by {
            lemma_follows_step(before, b, Input::Shown(reading));
        }
        self.journal.push(Input::Shown(reading));
        reading
    }

    /// Reads the square that the board LEDs point at and records it.
    pub fn read_led(&mut self) -> (sq: u8)
        requires
            old(self).wf(),
        ensures
            final(self).wf(),
            sq < 64,
            sq == old(self).pointed(),
            final(self).pointed() == old(self).pointed(),
            final(self).shown() == old(self).shown(),
            final(self)@ == old(self)@.step(Input::Led(sq)),
            final(self).tone() == old(self).tone(),
            final(self)@.keeps_following(old(self)@),
    {
        let ghost before = old(self)@;
        let sq = self.system.led_square();
        assert forall|b: DriverView| before.follows(b) implies #[trigger] before.step(
            Input::Led(sq),
        ).follows(b) by {
            lemma_follows_step(before, b, Input::Led(sq));
        }
        self.journal.push(Input::Led(sq));
        sq
    }

    /// What the display says when it holds `reading`.
    pub fn read_shown(&self, reading: &[u8; 4]) -> (shown: LcdCommand)
        ensures
            shown == shown_by(*reading),
    {
        read_command(&read_glyphs(&self.lcd_map, reading))
    }

    /// Tells the firmware to go, if it has just been dictated moves or the
    /// game has not begun; waits two seconds; reads the display.
    pub fn poll(&mut self) -> (reading: [u8; 4])
        requires
            old(self).wf(),
        ensures
            final(self).wf(),
            final(self)@.keeps_following(old(self)@),
            final(self)@.board == old(self)@.board,
            !final(self)@.forced,
            final(self)@ == old(self)@.polled(reading),
            reading@ == final(self).shown(),
    {
        proof {
            lemma_follows_self(old(self)@);
        }
        let start = Position::startpos();
        if self.last_move_forced || self.cur_board.equals(&start) {
            self.last_move_forced = false;
            proof {
                crate::script::lemma_marks_keep_following(old(self)@, self@);
            }
            self.press_key(MM2Button::ENT);
        } else {
            proof {
                crate::script::lemma_marks_keep_following(old(self)@, self@);
            }
        }
        self.wait_1sec();
        self.wait_1sec();
        self.read_display()
    }

    /// Follows an announcement of mate: the LEDs point at the square the
    /// move leaves, then at the square it reaches. A man of the other side
    /// on the first square is taken off first. If the move so read is not
    /// legal, the two squares are taken the other way round. The driver
    /// waits for the LEDs to move on for as many seconds as it has patience
    /// for. Each reading of the LEDs is recorded.
    pub fn take_mate(&mut self, n: i8) -> (r: Result<Reply, EmuError>)
        requires
            old(self).wf(),
            !old(self)@.forced,
        ensures
            final(self).wf(),
            final(self)@.keeps_following(old(self)@),
            !final(self)@.forced,
            mirror_answers(old(self)@.board, final(self)@.board, with_move(r)),
            exists|first: u8, from: u8, waits: nat, to: u8| #[trigger]
                mate_followed(
                    old(self)@,
                    final(self)@,
                    with_move(r),
                    old(self)@.patience,
                    n,
                    first,
                    from,
                    waits,
                    to,
                ),
    {
        proof {
            lemma_follows_self(old(self)@);
        }
        let ghost before = old(self)@;
        let ghost patience = before.patience;
        let first = self.read_led();
        if self.cur_board.opponent_on(first) {
            self.make_half_move(first);
        }
        let start = self.read_led();
        self.make_half_move(start);
        let ghost lifted = self@;
        let mut waited: u64 = 0;
        let mut dest = self.read_led();
        while dest == start && waited < self.patience
            invariant
                self.wf(),
                before == old(self)@,
                patience == before.patience,
                self@.keeps_following(before),
                self@ == lifted.watched(start, waited as nat).step(Input::Led(dest)),
                self@.board == before.board,
                self@.patience == patience,
                waited <= patience,
                !self@.forced,
                start < 64,
                dest < 64,
            decreases patience - waited,
        {
            self.wait_1sec();
            waited = waited + 1;
            dest = self.read_led();
        }
        let ghost waits = waited as nat;
        assert(lifted.watched(start, waits) == before.mate_lifted(first, start, waits));
        if dest == start {
            let ghost answer = Err::<Option<Reply>, EmuError>(EmuError::NoAnswer);
            assert(mate_followed(before, self@, answer, patience, n, first, start, waits, dest));
            return Err(EmuError::NoAnswer);
        }
        self.make_half_move(dest);
        let best_move = match self.cur_board.find_move_between(start, dest) {
            Some(m) => m,
            None => {
                let ghost answer = Err::<Option<Reply>, EmuError>(EmuError::IllegalMove);
                assert(mate_followed(
                    before,
                    self@,
                    answer,
                    patience,
                    n,
                    first,
                    start,
                    waits,
                    dest,
                ));
                return Err(EmuError::IllegalMove);
            },
        };
        let ghost driven = self@;
        self.cur_board = self.cur_board.make_move(best_move);
        proof {
            crate::script::lemma_marks_keep_following(driven, self@);
        }
        let reply = Reply { best_move, ponder: None, detail: Detail::Mate(n) };
        let ghost answer = Ok::<Option<Reply>, EmuError>(Some(reply));
        assert(mate_followed(before, self@, answer, patience, n, first, start, waits, dest));
        Ok(reply)
    }

    /// Follows a promotion prompt: the man on the square that the LEDs
    /// point at is lifted, the man is put on the square that they point at
    /// then, and the piece is told by its key. Each reading of the LEDs is
    /// recorded.
    pub fn take_promotion(&mut self, piece: Piece) -> (reply: Reply)
        requires
            old(self).wf(),
            !old(self)@.forced,
        ensures
            final(self).wf(),
            final(self)@.keeps_following(old(self)@),
            !final(self)@.forced,
            final(self)@.board == old(self)@.board,
            promotion_followed(
                old(self)@,
                final(self)@,
                Ok::<Option<Reply>, EmuError>(Some(reply)),
                piece,
                reply.best_move.from,
                reply.best_move.to,
            ),
    {
        proof {
            lemma_follows_self(old(self)@);
        }
        let start = self.read_led();
        self.make_half_move(start);
        let dest = self.read_led();
        self.make_half_move(dest);
        self.press_key(MM2Button::for_piece(piece));
        Reply {
            best_move: Move::new(start, dest, Some(piece)),
            ponder: None,
            detail: Detail::Promotion,
        }
    }

    /// Follows a move that the display shows: the move is made on the
    /// board, and the firmware is asked for the move it expects in return,
    /// for its score and for the depth of its search. Each reading of the
    /// display is recorded.
    pub fn take_move(&mut self, mov: Move) -> (r: Result<Reply, EmuError>)
        requires
            old(self).wf(),
            !old(self)@.forced,
        ensures
            final(self).wf(),
            final(self)@.keeps_following(old(self)@),
            !final(self)@.forced,
            r is Err ==> *final(self) == *old(self),
            mirror_answers(old(self)@.board, final(self)@.board, with_move(r)),
            exists|expected: [u8; 4], score: [u8; 4], depth: [u8; 4]| #[trigger]
                move_followed(old(self)@, final(self)@, with_move(r), mov, expected, score, depth),
    {
        proof {
            lemma_follows_self(old(self)@);
            lemma_played_follows(old(self)@, old(self)@, mov);
        }
        if !self.cur_board.legal(mov) {
            let ghost answer = Err::<Option<Reply>, EmuError>(EmuError::IllegalMove);
            let ghost none: [u8; 4] = [0u8, 0u8, 0u8, 0u8];
            assert(move_followed(old(self)@, self@, answer, mov, none, none, none));
            return Err(EmuError::IllegalMove);
        }
        self.play_move(mov);
        self.press_key(MM2Button::INFO);
        let expected = self.read_display();
        self.press_key(MM2Button::A1Pawn);
        let score = self.read_display();
        self.press_key(MM2Button::C3Bishop);
        let depth = self.read_display();
        self.press_key(MM2Button::CL);
        let reply = search_reply(&self.lcd_map, mov, &expected, &score, &depth);
        let ghost answer = Ok::<Option<Reply>, EmuError>(Some(reply));
        assert(move_followed(old(self)@, self@, answer, mov, expected, score, depth));
        Ok(reply)
    }

    /// Does what the display asks for when it says `shown`. Where that
    /// ends the asking, the answer is handed back; where the firmware is to
    /// be asked again, there is none yet.
    pub fn follow(&mut self, shown: LcdCommand) -> (r: Option<Result<Option<Reply>, EmuError>>)
        requires
            old(self).wf(),
            !old(self)@.forced,
        ensures
            final(self).wf(),
            final(self)@.keeps_following(old(self)@),
            !final(self)@.forced,
            followed(old(self)@, final(self)@, r, old(self)@.patience, shown),
            r matches Some(answer) ==> mirror_answers(
                old(self)@.board,
                final(self)@.board,
                answer,
            ),
            r is None ==> final(self)@.board == old(self)@.board,
    {
        proof {
            lemma_follows_self(old(self)@);
        }
        match shown {
            LcdCommand::Unsettled => None,
            LcdCommand::Other => None,
            LcdCommand::Play => {
                self.press_key(MM2Button::ENT);
                None
            },
            LcdCommand::NoMove => Some(Ok(None)),
            LcdCommand::BadMate => Some(Err(EmuError::UnreadableMate)),
            LcdCommand::BadPromotion => Some(Err(EmuError::UnknownPromotionChar)),
            LcdCommand::Mate(n) => {
                let answer = self.take_mate(n);
                match answer {
                    Ok(reply) => Some(Ok(Some(reply))),
                    Err(e) => Some(Err(e)),
                }
            },
            LcdCommand::Promotion(piece) => {
                let reply = self.take_promotion(piece);
                Some(Ok(Some(reply)))
            },
            LcdCommand::Move(mov) => {
                let answer = self.take_move(mov);
                match answer {
                    Ok(reply) => Some(Ok(Some(reply))),
                    Err(e) => Some(Err(e)),
                }
            },
        }
    }

    /// Brings the sensors into step with the move that has led from
    /// `before` to the mirror, where the sensors stood at `origin` before
    /// it: with `lifting`, men that the move has taken off and that are
    /// still reported are lifted; without, men that it has put somewhere
    /// and that are not reported yet are put down.
    fn settle(&mut self, origin: &[u8; 8], before: &Position, lifting: bool)
        requires
            old(self).wf(),
        ensures
            final(self).wf(),
            final(self)@ == old(self)@.settled(origin@, *before, lifting, 64),
            final(self)@.journal.len() >= old(self)@.journal.len(),
            final(self)@.journal.len() == old(self)@.journal.len() ==> final(self).tone()
                == old(self).tone(),
    {
        let mut sq: u8 = 0;
        while sq < 64
            invariant
                sq <= 64,
                self.wf(),
                self@ == old(self)@.settled(origin@, *before, lifting, sq as nat),
                self@.board == old(self)@.board,
                self@.journal.len() >= old(self)@.journal.len(),
                self@.journal.len() == old(self)@.journal.len() ==> self.tone() == old(self).tone(),
            decreases 64 - sq,
        {
            let rows = self.system.sensors();
            let reports = (rows[(sq / 8) as usize] >> (sq % 8)) & 1 == 1;
            let reported = (origin[(sq / 8) as usize] >> (sq % 8)) & 1 == 1;
            let was = before.man_on(sq).is_some();
            let is = self.cur_board.man_on(sq).is_some();
            if ((reports != reported) != (was != is)) && is != lifting {
                self.make_half_move(sq);
            }
            sq = sq + 1;
        }
    }

    /// Makes `mov` if it is legal in the mirror; refuses it, and changes
    /// nothing, if it is not.
    pub fn try_play_move(&mut self, mov: Move) -> (r: Result<(), EmuError>)
        requires
            old(self).wf(),
        ensures
            final(self).wf(),
            old(self)@.board.allows(mov) ==> r is Ok && final(self)@ == old(self)@.played(mov),
            !old(self)@.board.allows(mov) ==> r == Err::<(), EmuError>(EmuError::IllegalMove)
                && *final(self) == *old(self),
    {
        if self.cur_board.legal(mov) {
            self.play_move(mov);
            Ok(())
        } else {
            Err(EmuError::IllegalMove)
        }
    }

    /// Dictates the moves of `movs` if each is legal where the ones before
    /// it lead; refuses them, and changes nothing, if one is not.
    pub fn try_force_moves(&mut self, movs: Vec<Move>) -> (r: Result<(), EmuError>)
        requires
            old(self).wf(),
        ensures
            final(self).wf(),
            old(self)@.board.allows_all(movs@) ==> r is Ok,
            r is Ok ==> final(self)@ == old(self)@.forced_through(movs@),
            !old(self)@.board.allows_all(movs@) ==> r == Err::<(), EmuError>(EmuError::IllegalMove)
                && *final(self) == *old(self),
    {
        if self.cur_board.try_moves(&movs).is_some() {
            self.force_moves(movs);
            Ok(())
        } else {
            Err(EmuError::IllegalMove)
        }
    }
}

impl MephistoEmu for MM2Emu {
    open spec fn ready(&self) -> bool {
        self.wf()
    }

    open spec fn mirror(&self) -> Position {
        self@.board
    }

    fn set_difficulty(&mut self, new_difficulty: Option<u8>) -> (r: Result<(), EmuError>)
        ensures
            r is Ok ==> final(self)@ == (match new_difficulty {
                Some(d) => old(self)@.at_level(d - 1),
                None => old(self)@,
            }).level_entered(),
    {
        if let Some(diff) = new_difficulty {
            if diff < 1 || diff > 10 {
                return Err(EmuError::InvalidDifficulty);
            }
            self.difficulty = diff - 1;
        }
        self.press_key(MM2Button::LEV);
        self.press_key(MM2Button::for_level(self.difficulty + 1));
        self.press_key(MM2Button::ENT);
        Ok(())
    }

    fn set_position(&mut self, startpos: bool, fen: Option<String>, movs: Vec<Move>)
        ensures
            final(self)@ == old(self)@.positioned(startpos, text_of(fen), movs@),
    {
        let ghost text = text_of(fen);
        proof {
            crate::script::lemma_positioned_board(old(self)@, startpos, text, movs@);
        }
        if startpos && movs.len() == 0 {
            self.set_default_pos();
            return ;
        } else if startpos && movs.len() == 1 {
            self.set_default_pos();
            assert(movs@.drop_last() =~= Seq::<Move>::empty());
            self.play_move(movs[0]);
            return ;
        }
        let base = MM2Emu::baseline_of(startpos, &fen);
        if movs.len() > 0 {
            let last = movs[movs.len() - 1];
            if self.cur_board.legal(last) {
                let ahead = self.cur_board.make_move(last);
                let wanted = base.try_moves(&movs);
                let there = match wanted {
                    Some(end) => ahead.equals(&end),
                    None => false,
                };
                if there {
                    self.play_move(last);
                    return ;
                }
            }
        }
        match &fen {
            Some(given) => {
                if startpos {
                    self.set_fen("startpos");
                } else {
                    self.set_fen(given.as_str());
                }
            },
            None => {
                self.set_fen("startpos");
            },
        }
        proof {
            crate::script::lemma_fen_set_board(old(self)@, baseline_text(startpos, text));
            crate::fen::lemma_startpos_is_no_text();
        }
        self.force_moves(movs);
    }

    fn set_fen(&mut self, fen: &str)
        ensures
            final(self)@ == old(self)@.fen_set(fen@),
            Position::read(fen@) is Some ==> forall|sq: u8|
                sq < 64 ==> #[trigger] final(self)@.senses(sq) == final(self)@.board.occupied(sq),
    {
        proof {
            crate::script::lemma_fen_set_board(old(self)@, fen@);
            if Position::read(fen@) is Some {
                crate::script::lemma_fen_set_matches(old(self)@, fen@);
            }
        }
        let word: String = "startpos".to_owned();
        let given: String = fen.to_owned();
        if given == word {
            self.set_default_pos();
            return ;
        }
        let board = match Position::from_fen(fen) {
            Some(b) => b,
            None => Position::startpos(),
        };
        self.system.set_sensors([0, 0, 0, 0, 0, 0, 0, 0]);
        self.cur_board = board;
        assert(self@.sensors =~= crate::script::no_sensors());
        self.init();
        self.press_key(MM2Button::POS);
        self.press_key(MM2Button::ENT);
        self.wait_1sec();
        self.place_men(&board);
        self.press_key(MM2Button::CL);
        if board.side != 0 {
            self.press_key(MM2Button::POS);
            self.press_key(MM2Button::LeftBlack9);
            self.press_key(MM2Button::CL);
        }
    }

    fn force_moves(&mut self, movs: Vec<Move>)
        ensures
            final(self)@ == old(self)@.forced_through(movs@),
    {
        self.press_key(MM2Button::LEV);
        self.press_key(MM2Button::MEM);
        self.press_key(MM2Button::ENT);
        let ghost entered = self@;
        let mut i: usize = 0;
        while i < movs.len()
            invariant
                i <= movs.len(),
                self.wf(),
                entered.board.allows_all(movs@),
                self@ == entered.played_all(movs@.take(i as int)),
            decreases movs.len() - i,
        {
            proof {
                let done = movs@.take(i as int);
                let next = movs@.take(i + 1);
                assert(next.drop_last() =~= done);
                assert(next.last() == movs@[i as int]);
                lemma_played_all_board(entered, done);
                crate::rules::lemma_allows_all_prefix(entered.board, movs@, i + 1);
            }
            self.play_move(movs[i]);
            i = i + 1;
        }
        assert(movs@.take(i as int) =~= movs@);
        self.last_move_forced = true;
        proof {
            lemma_played_all_board(entered, movs@);
        }
    }

    fn play_move(&mut self, mov: Move)
        ensures
            final(self)@ == old(self)@.played(mov),
            final(self)@ == old(self)@.moved(mov) ==> final(self).tone() == 0,
            forall|sq: u8|
                sq < 64 ==> (#[trigger] final(self)@.senses(sq) != old(self)@.senses(sq))
                    == (old(self)@.board.occupied(sq) != final(self)@.board.occupied(sq)),
            forall|sq: u8|
                sq < 64 ==> #[trigger] final(self)@.in_step(sq) == old(self)@.in_step(sq),
            final(self)@.keeps_following(old(self)@),
    {
        let ghost before = old(self)@;
        let ghost after = before.played(mov);
        proof {
            self.lemma_wf_view();
            crate::script::lemma_played_board(before, mov);
        }
        assert forall|b: DriverView| before.follows(b) implies #[trigger] after.follows(b) by {
            lemma_played_follows(before, b, mov);
        }
        assert forall|sq: u8| sq < 64 implies (#[trigger] after.senses(sq) != before.senses(sq))
            == (before.board.occupied(sq) != after.board.occupied(sq)) by {
            crate::script::lemma_played_senses(before, mov, sq);
        }
        assert forall|sq: u8| sq < 64 implies #[trigger] after.in_step(sq) == before.in_step(
            sq,
        ) by {
            crate::script::lemma_played_keeps_step(before, mov, sq);
        }
        let origin = self.system.sensors();
        let position = self.cur_board;
        if self.cur_board.man_on(mov.to).is_some() {
            self.make_half_move(mov.to);
        }
        self.cur_board = self.cur_board.make_move(mov);
        self.make_half_move(mov.from);
        self.make_half_move(mov.to);
        self.tone_count = 0;
        assert(self@ == before.moved(mov));
        self.settle(&origin, &position, true);
        self.settle(&origin, &position, false);
        if let Some(piece) = mov.promotion {
            self.press_key(MM2Button::for_piece(piece));
        }
    }

    fn gen_move(&mut self) -> (r: Result<Option<Reply>, EmuError>)
        ensures
            final(self)@.follows(old(self)@),
            old(self)@.patience > 0 ==> !final(self)@.forced,
            exists|readings: Seq<[u8; 4]>, last: [u8; 4]| #[trigger]
                consulted(old(self)@, final(self)@, r, old(self)@.patience, readings, last),
    {
        proof {
            lemma_follows_self(old(self)@);
        }
        let ghost before = old(self)@;
        let ghost patience = before.patience;
        let ghost mut readings: Seq<[u8; 4]> = Seq::empty();
        let mut rounds: u64 = 0;
        while rounds < self.patience
            invariant
                self.wf(),
                before == old(self)@,
                patience == before.patience,
                self@.follows(before),
                self@.board == before.board,
                rounds > 0 ==> !self@.forced,
                readings.len() == rounds,
                rounds <= self@.patience,
                forall|i: int|
                    0 <= i < readings.len() ==> asks_again(shown_by(#[trigger] readings[i])),
                self@ == before.idled(readings),
            decreases self@.patience - rounds,
        {
            let reading = self.poll();
            let shown = self.read_shown(&reading);
            match self.follow(shown) {
                Some(answer) => {
                    assert(consulted(before, self@, answer, patience, readings, reading));
                    return answer;
                },
                None => {
                    proof {
                        assert(readings.push(reading).drop_last() =~= readings);
                        readings = readings.push(reading);
                    }
                },
            }
            rounds = rounds + 1;
        }
        let ghost none: [u8; 4] = [0u8, 0u8, 0u8, 0u8];
        assert(consulted(before, self@, Err(EmuError::NoAnswer), patience, readings, none));
        Err(EmuError::NoAnswer)
    }
}

} // verus!
