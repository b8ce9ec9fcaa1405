//! What the driver does to the board for each request, as mathematics: the
//! keys it presses and the men it lifts and puts down, in their order.
use crate::bus::lemma_toggle_row;
use crate::bus::lemma_toggle_twice;
use crate::bus::sensed;
use crate::bus::toggled_row;
use crate::display::command_of;
use crate::display::glyphs_of;
use crate::display::LcdCommand;
use crate::keys::MM2Button;
use crate::position::Color;
use crate::position::Move;
use crate::position::Piece;
use crate::position::Position;
use vstd::prelude::*;

verus! {

/// A step in the driver's dealings with the machine.
#[derive(Clone, Copy, PartialEq, Eq, Debug)]
pub enum Input {
    /// The processor was reset.
    Reset,
    /// The firmware ran for a second with the inputs at rest.
    Wait,
    /// The firmware ran for a second with the key held down.
    Key(MM2Button),
    /// A man was lifted from the square, or put on it.
    Square(u8),
    /// The display was read and held these four bytes.
    Shown([u8; 4]),
    /// The board LEDs were read and pointed at this square.
    Led(u8),
}

/// What the firmware's answer to a request for a move came with.
#[derive(Clone, Copy, PartialEq, Eq, Debug)]
pub enum Detail {
    /// An announcement of mate in so many moves.
    Mate(i8),
    /// A prompt for the piece that a pawn becomes.
    Promotion,
    /// The score in hundredths of a pawn, and the depth of the search;
    /// none where the display showed no number for it.
    Search { cp: Option<i32>, depth: Option<u8> },
}

/// The firmware's answer to a request for a move.
#[derive(Clone, Copy, PartialEq, Eq, Debug)]
pub struct Reply {
    pub best_move: Move,
    /// The move that the firmware expects in return, if it has shown one.
    pub ponder: Option<Move>,
    pub detail: Detail,
}

/// How the mirror stands to an answer: a move that came with a promotion
/// prompt is not made in the mirror; any other move is legal in the mirror
/// as it was and has been made in it; without a move the mirror is as it
/// was. The moves of an answer stay on the board.
pub open spec fn mirror_answers<E>(
    before: Position,
    after: Position,
    answer: Result<Option<Reply>, E>,
) -> bool {
    match answer {
        Ok(Some(reply)) => {
            &&& reply.best_move.wf()
            &&& reply.ponder matches Some(p) ==> p.wf()
            &&& match reply.detail {
                Detail::Promotion => after == before && reply.best_move.promotion is Some
                    && reply.ponder is None,
                Detail::Mate(_) => before.allows(reply.best_move) && after == before.after(
                    reply.best_move,
                ) && reply.ponder is None,
                Detail::Search { .. } => before.allows(reply.best_move) && after == before.after(
                    reply.best_move,
                ),
            }
        },
        Ok(None) => after == before,
        Err(_) => after == before,
    }
}

/// An answer that, where it is one, holds a move.
pub open spec fn with_move<E>(answer: Result<Reply, E>) -> Result<Option<Reply>, E> {
    match answer {
        Ok(reply) => Ok(Some(reply)),
        Err(e) => Err(e),
    }
}

/// What the sensors are set to for the starting position: the four middle
/// ranks report, the ranks on which the men stand do not.
pub open spec fn start_sensors() -> Seq<u8> {
    seq![0u8, 0u8, 0xffu8, 0xffu8, 0xffu8, 0xffu8, 0u8, 0u8]
}

/// No sensor reports.
pub open spec fn no_sensors() -> Seq<u8> {
    seq![0u8, 0u8, 0u8, 0u8, 0u8, 0u8, 0u8, 0u8]
}

/// What the driver determines: the board's inputs, the mirrored position,
/// and the record of what it has done.
#[verifier::ext_equal]
pub struct DriverView {
    pub rom: Seq<u8>,
    pub book: Seq<u8>,
    pub sensors: Seq<u8>,
    pub keys: Seq<bool>,
    pub board: Position,
    /// The playing level, counted from 0.
    pub level: int,
    /// Whether the last moves were dictated to the firmware.
    pub forced: bool,
    /// For how many rounds the driver asks the firmware for its move
    /// without an answer, and for how many seconds it waits for the LEDs to
    /// move on, before it gives up.
    pub patience: nat,
    pub journal: Seq<Input>,
}

/// The sensors after one step: a square toggles its sensor, nothing else
/// changes any.
pub open spec fn stepped(sensors: Seq<u8>, input: Input) -> Seq<u8> {
    match input {
        Input::Square(sq) => toggled_row(sensors, sq),
        _ => sensors,
    }
}

/// The sensors after the steps of `inputs` in turn.
pub open spec fn replayed(sensors: Seq<u8>, inputs: Seq<Input>) -> Seq<u8>
    decreases inputs.len(),
{
    if inputs.len() == 0 {
        sensors
    } else {
        stepped(replayed(sensors, inputs.drop_last()), inputs.last())
    }
}

/// Whether the sensor under `sq` is out of step with a move: its report
/// has changed, from `origin` to `sensors`, where the move has left the
/// square as it was, or has not changed where the move has emptied or
/// filled the square.
pub open spec fn owes(
    origin: Seq<u8>,
    sensors: Seq<u8>,
    before: Position,
    after: Position,
    sq: u8,
) -> bool {
    (sensed(sensors, sq) != sensed(origin, sq)) != (before.occupied(sq) != after.occupied(sq))
}

/// What the display says when it holds the four bytes of `reading`.
pub open spec fn shown_by(reading: [u8; 4]) -> LcdCommand {
    command_of(glyphs_of(reading@))
}

/// Whether what the display says leaves the firmware to be asked again:
/// it is being rewritten, says nothing that the driver knows, or asks for
/// the ENT key.
pub open spec fn asks_again(shown: LcdCommand) -> bool {
    shown is Unsettled || shown is Other || shown is Play
}

impl DriverView {
    pub open spec fn wf(self) -> bool {
        &&& self.sensors.len() == 8
        &&& self.keys.len() == 16
        &&& 0 <= self.level < 10
    }

    /// Whether the sensor under `sq` reports a man.
    pub open spec fn senses(self, sq: u8) -> bool {
        sensed(self.sensors, sq)
    }

    /// After one more step: it is recorded, and the sensors are what it
    /// makes them.
    pub open spec fn step(self, input: Input) -> DriverView {
        DriverView {
            sensors: stepped(self.sensors, input),
            journal: self.journal.push(input),
            ..self
        }
    }

    /// After a second in which the inputs were at rest.
    pub open spec fn waited(self) -> DriverView {
        self.step(Input::Wait)
    }

    /// After the processor has been reset and the firmware has had two
    /// seconds to start up.
    pub open spec fn started(self) -> DriverView {
        self.step(Input::Reset).waited().waited()
    }

    /// After a press of `button`: a second at rest, a second with the key
    /// held down, a second at rest.
    pub open spec fn pressed(self, button: MM2Button) -> DriverView {
        self.waited().step(Input::Key(button)).waited()
    }

    /// After a man has been lifted from `sq` or put on it: a second at
    /// rest, the change, a second at rest.
    pub open spec fn toggled(self, sq: u8) -> DriverView {
        self.waited().step(Input::Square(sq)).waited()
    }

    /// After the firmware has been told to go, if it has just been dictated
    /// moves or the game has not begun, has had two seconds to answer, and
    /// the display has been read as `reading`.
    pub open spec fn polled(self, reading: [u8; 4]) -> DriverView {
        let told = if self.forced || self.board == Position::start() {
            DriverView { forced: false, ..self }.pressed(MM2Button::ENT)
        } else {
            DriverView { forced: false, ..self }
        };
        told.waited().waited().step(Input::Shown(reading))
    }

    /// After a round in which the display, read as `reading`, left the
    /// firmware to be asked again: where it asked for the ENT key, it got
    /// it.
    pub open spec fn asked_again(self, reading: [u8; 4]) -> DriverView {
        if shown_by(reading) is Play {
            self.polled(reading).pressed(MM2Button::ENT)
        } else {
            self.polled(reading)
        }
    }

    /// After the rounds in which the display was read as each of
    /// `readings` in turn and left the firmware to be asked again.
    pub open spec fn idled(self, readings: Seq<[u8; 4]>) -> DriverView
        decreases readings.len(),
    {
        if readings.len() == 0 {
            self
        } else {
            self.idled(readings.drop_last()).asked_again(readings.last())
        }
    }

    /// After the firmware has been asked about the move it has just shown:
    /// for the move it expects in return, for its score, and for the depth
    /// of its search, the display read after each question.
    pub open spec fn asked_about(
        self,
        expected: [u8; 4],
        score: [u8; 4],
        depth: [u8; 4],
    ) -> DriverView {
        self.pressed(MM2Button::INFO).step(Input::Shown(expected)).pressed(MM2Button::A1Pawn).step(
            Input::Shown(score),
        ).pressed(MM2Button::C3Bishop).step(Input::Shown(depth)).pressed(MM2Button::CL)
    }

    /// After the LEDs have been watched for so many seconds and still
    /// pointed at `at` before each of them.
    pub open spec fn watched(self, at: u8, seconds: nat) -> DriverView
        decreases seconds,
    {
        if seconds == 0 {
            self
        } else {
            self.watched(at, (seconds - 1) as nat).step(Input::Led(at)).waited()
        }
    }

    /// After the first half of following an announced mate. The LEDs
    /// pointed at `first`: a man of the side that is not to move is lifted
    /// from it. Then they pointed at `from`: the man there is lifted. Then
    /// they still pointed at `from` for `waits` seconds.
    pub open spec fn mate_lifted(self, first: u8, from: u8, waits: nat) -> DriverView {
        let read = self.step(Input::Led(first));
        (if self.board.holds_opponent(first) {
            read.toggled(first)
        } else {
            read
        }).step(Input::Led(from)).toggled(from).watched(from, waits)
    }

    /// After the driver has given up on an announced mate: the LEDs
    /// pointed at `from` to the last.
    pub open spec fn mate_given_up(self, first: u8, from: u8, waits: nat) -> DriverView {
        self.mate_lifted(first, from, waits).step(Input::Led(from))
    }

    /// After an announced mate has been followed to its end. After the
    /// first half the LEDs pointed at `to`: the man is put down there, and
    /// the mirror makes the legal move between `from` and `to`, if there is
    /// one.
    pub open spec fn mate_made(self, first: u8, from: u8, waits: nat, to: u8) -> DriverView {
        let put = self.mate_lifted(first, from, waits).step(Input::Led(to)).toggled(to);
        match self.board.move_between(from, to) {
            Some(m) => DriverView { board: self.board.after(m), ..put },
            None => put,
        }
    }

    /// After a promotion prompt has been followed: the LEDs pointed at
    /// `from`, where the man is lifted, then at `to`, where it is put down,
    /// and the piece is told by its key.
    pub open spec fn promotion_made(self, piece: Piece, from: u8, to: u8) -> DriverView {
        self.step(Input::Led(from)).toggled(from).step(Input::Led(to)).toggled(to).pressed(
            MM2Button::of_piece(piece),
        )
    }

    /// After the level has been set to `level`, counted from 0.
    pub open spec fn at_level(self, level: int) -> DriverView {
        DriverView { level, ..self }
    }

    /// After the level that is set has been entered at the keypad.
    pub open spec fn level_entered(self) -> DriverView {
        self.pressed(MM2Button::LEV).pressed(MM2Button::of_level(self.level + 1)).pressed(
            MM2Button::ENT,
        )
    }

    /// After the board has been set to the starting position: the sensors
    /// are set as that position sets them, the mirror holds it, the
    /// firmware is started anew and the level is entered again.
    pub open spec fn defaulted(self) -> DriverView {
        DriverView {
            sensors: start_sensors(),
            board: Position::start(),
            ..self
        }.started().level_entered()
    }

    /// After the man on `sq`, if there is one, has been lifted to make room.
    pub open spec fn cleared_for(self, sq: u8) -> DriverView {
        if self.board.occupied(sq) {
            self.toggled(sq)
        } else {
            self
        }
    }

    /// After the firmware has been told which piece a pawn becomes.
    pub open spec fn promoted(self, m: Move) -> DriverView {
        match m.promotion {
            Some(piece) => self.pressed(MM2Button::of_piece(piece)),
            None => self,
        }
    }

    /// After the mover's part of the move `m`: a man on the square it
    /// reaches is lifted, the mirror makes the move, and the mover is
    /// lifted and put down.
    pub open spec fn moved(self, m: Move) -> DriverView {
        DriverView { board: self.board.after(m), ..self.cleared_for(m.to) }.toggled(
            m.from,
        ).toggled(m.to)
    }

    /// After the sensors under the first `n` squares have been brought into
    /// step with a move that led from `before` to the mirror, where the
    /// sensors stood at `origin` before it. With `lifting`, the men are
    /// lifted that the move has taken off and that are still reported;
    /// without, the men are put down that it has put there and that are not
    /// reported yet.
    pub open spec fn settled(
        self,
        origin: Seq<u8>,
        before: Position,
        lifting: bool,
        n: nat,
    ) -> DriverView
        decreases n,
    {
        if n == 0 {
            self
        } else {
            let so_far = self.settled(origin, before, lifting, (n - 1) as nat);
            let sq = (n - 1) as u8;
            if owes(origin, so_far.sensors, before, self.board, sq) && self.board.occupied(sq)
                != lifting {
                so_far.toggled(sq)
            } else {
                so_far
            }
        }
    }

    /// After the move `m` has been made on the board and in the mirror:
    /// the mover's part; then every other man that the move has taken off
    /// is lifted, and every other man that it has put somewhere is put
    /// down, in the order of the squares; then a promotion is told by its
    /// key. By the rules of chess the other men are the rook of a castling
    /// move and the pawn that is taken in passing.
    pub open spec fn played(self, m: Move) -> DriverView {
        self.moved(m).settled(self.sensors, self.board, true, 64).settled(
            self.sensors,
            self.board,
            false,
            64,
        ).promoted(m)
    }

    /// After the moves of `moves` have been made in turn.
    pub open spec fn played_all(self, moves: Seq<Move>) -> DriverView
        decreases moves.len(),
    {
        if moves.len() == 0 {
            self
        } else {
            self.played_all(moves.drop_last()).played(moves.last())
        }
    }

    /// After the firmware has been put into the mode in which it takes
    /// moves as given, and the moves of `moves` have been made.
    pub open spec fn forced_through(self, moves: Seq<Move>) -> DriverView {
        DriverView {
            forced: true,
            ..self.pressed(MM2Button::LEV).pressed(MM2Button::MEM).pressed(
                MM2Button::ENT,
            ).played_all(moves)
        }
    }

    /// Whether `self` has come from `before` by presses and toggles alone:
    /// the ROMs, the keypad, the level and the patience are the same, the
    /// journal has grown, and the sensors are what its new entries make
    /// them.
    pub open spec fn follows(self, before: DriverView) -> bool {
        &&& self.rom == before.rom
        &&& self.book == before.book
        &&& self.keys == before.keys
        &&& self.level == before.level
        &&& self.patience == before.patience
        &&& self.journal.len() >= before.journal.len()
        &&& self.journal.take(before.journal.len() as int) == before.journal
        &&& self.sensors == replayed(
            before.sensors,
            self.journal.skip(before.journal.len() as int),
        )
    }

    /// `self` has come from `before` by presses and toggles and by changes
    /// to the mirror alone: whatever `before` follows, `self` follows too.
    pub open spec fn keeps_following(self, before: DriverView) -> bool {
        forall|b: DriverView| #[trigger] before.follows(b) ==> self.follows(b)
    }
}

/// A view follows itself.
pub proof fn lemma_follows_self(v: DriverView)
    ensures
        v.follows(v),
{
    assert(v.journal.take(v.journal.len() as int) =~= v.journal);
    assert(v.journal.skip(v.journal.len() as int) =~= Seq::<Input>::empty());
}

/// One more step keeps a view following what it followed.
pub proof fn lemma_follows_step(v: DriverView, before: DriverView, input: Input)
    requires
        v.follows(before),
    ensures
        v.step(input).follows(before),
{
    let n = before.journal.len() as int;
    let w = v.step(input);
    assert(w.journal.take(n) =~= v.journal.take(n));
    assert(w.journal.skip(n).drop_last() =~= v.journal.skip(n));
    assert(w.journal.skip(n).last() == input);
}

/// A second at rest keeps a view following what it followed.
pub proof fn lemma_follows_wait(v: DriverView, before: DriverView)
    requires
        v.follows(before),
    ensures
        v.waited().follows(before),
{
    lemma_follows_step(v, before, Input::Wait);
}

/// A press keeps a view following what it followed.
pub proof fn lemma_follows_press(v: DriverView, before: DriverView, button: MM2Button)
    requires
        v.follows(before),
    ensures
        v.pressed(button).follows(before),
{
    lemma_follows_wait(v, before);
    lemma_follows_step(v.waited(), before, Input::Key(button));
    lemma_follows_wait(v.waited().step(Input::Key(button)), before);
}

/// A toggle keeps a view following what it followed.
pub proof fn lemma_follows_toggle(v: DriverView, before: DriverView, sq: u8)
    requires
        v.follows(before),
    ensures
        v.toggled(sq).follows(before),
{
    lemma_follows_wait(v, before);
    lemma_follows_step(v.waited(), before, Input::Square(sq));
    lemma_follows_wait(v.waited().step(Input::Square(sq)), before);
}

/// A change of the mirror or of the forced mark keeps a view following
/// what it followed.
pub proof fn lemma_follows_board(v: DriverView, before: DriverView, board: Position, forced: bool)
    requires
        v.follows(before),
    ensures
        (DriverView { board, forced, ..v }).follows(before),
{
}

/// A view that differs from another in the mirror and the forced mark alone
/// follows whatever the other follows.
pub proof fn lemma_marks_keep_following(before: DriverView, after: DriverView)
    requires
        after == (DriverView { board: after.board, forced: after.forced, ..before }),
    ensures
        after.keeps_following(before),
{
    assert forall|b: DriverView| #[trigger] before.follows(b) implies after.follows(b) by {
        lemma_follows_board(before, b, after.board, after.forced);
    }
}

/// Bringing sensors into step with a move keeps a view following what it
/// followed, and leaves mirror and marks as they were.
pub proof fn lemma_settled_follows(
    v: DriverView,
    b: DriverView,
    origin: Seq<u8>,
    before: Position,
    lifting: bool,
    n: nat,
)
    requires
        v.follows(b),
    ensures
        v.settled(origin, before, lifting, n).follows(b),
        v.settled(origin, before, lifting, n).board == v.board,
        v.settled(origin, before, lifting, n).forced == v.forced,
    decreases n,
{
    if n > 0 {
        lemma_settled_follows(v, b, origin, before, lifting, (n - 1) as nat);
        let so_far = v.settled(origin, before, lifting, (n - 1) as nat);
        lemma_follows_toggle(so_far, b, (n - 1) as u8);
    }
}

/// A move made on the board keeps a view following what it followed, and
/// puts the mirror where the move leads.
pub proof fn lemma_played_follows(v: DriverView, before: DriverView, m: Move)
    requires
        v.follows(before),
    ensures
        v.played(m).follows(before),
        v.played(m).board == v.board.after(m),
        v.played(m).forced == v.forced,
{
    let a = v.cleared_for(m.to);
    if v.board.occupied(m.to) {
        lemma_follows_toggle(v, before, m.to);
    }
    let b = DriverView { board: v.board.after(m), ..a };
    lemma_follows_board(a, before, v.board.after(m), a.forced);
    assert(b == DriverView { board: v.board.after(m), forced: a.forced, ..a });
    lemma_follows_toggle(b, before, m.from);
    let c = b.toggled(m.from);
    lemma_follows_toggle(c, before, m.to);
    let d = c.toggled(m.to);
    lemma_settled_follows(d, before, v.sensors, v.board, true, 64);
    let e = d.settled(v.sensors, v.board, true, 64);
    lemma_settled_follows(e, before, v.sensors, v.board, false, 64);
    let f = e.settled(v.sensors, v.board, false, 64);
    match m.promotion {
        Some(piece) => {
            lemma_follows_press(f, before, MM2Button::of_piece(piece));
        },
        None => {},
    }
}

/// Moves made in turn put the mirror where they lead in turn.
pub proof fn lemma_played_all_board(v: DriverView, moves: Seq<Move>)
    ensures
        v.played_all(moves).board == v.board.after_all(moves),
        v.played_all(moves).forced == v.forced,
        v.played_all(moves).follows(v),
    decreases moves.len(),
{
    if moves.len() > 0 {
        lemma_played_all_board(v, moves.drop_last());
        lemma_played_follows(v.played_all(moves.drop_last()), v, moves.last());
    } else {
        lemma_follows_self(v);
    }
}

/// The `k`-th square in the order in which men are put on the board: file
/// by file from the a-file, each file from the first rank up.
pub open spec fn placing_square(k: int) -> u8 {
    ((k % 8) * 8 + k / 8) as u8
}

/// The place of `sq` in that order.
pub open spec fn placing_turn(sq: u8) -> int {
    (sq % 8) * 8 + sq / 8
}

/// The man put down last among the first `n` squares of that order.
pub open spec fn last_put(board: Position, n: nat) -> Option<(Piece, Color)>
    decreases n,
{
    if n == 0 {
        None
    } else {
        match board.man_at(placing_square(n - 1)) {
            Some(man) => Some(man),
            None => last_put(board, (n - 1) as nat),
        }
    }
}

/// The position that a text sets: the one it describes, or the starting
/// position if it describes none.
pub open spec fn position_of(fen: Seq<char>) -> Position {
    match Position::read(fen) {
        Some(p) => p,
        None => Position::start(),
    }
}

impl DriverView {
    /// After the firmware has been told the kind and colour of the next man
    /// to be put down: nothing if it is the same as the last, else the key
    /// of its kind, once for a white man and twice for a black one.
    pub open spec fn man_chosen(
        self,
        last: Option<(Piece, Color)>,
        piece: Piece,
        color: Color,
    ) -> DriverView {
        if last == Some((piece, color)) {
            self
        } else if color == Color::Black {
            self.pressed(MM2Button::of_piece(piece)).pressed(MM2Button::of_piece(piece))
        } else {
            self.pressed(MM2Button::of_piece(piece))
        }
    }

    /// After the men of `board` on the first `n` squares of the placing
    /// order have been put down.
    pub open spec fn men_placed(self, board: Position, n: nat) -> DriverView
        decreases n,
    {
        if n == 0 {
            self
        } else {
            let before = self.men_placed(board, (n - 1) as nat);
            match board.man_at(placing_square(n - 1)) {
                Some((piece, color)) => before.man_chosen(
                    last_put(board, (n - 1) as nat),
                    piece,
                    color,
                ).toggled(placing_square(n - 1)).waited(),
                None => before,
            }
        }
    }

    /// After the side to move has been told, which is needed for Black
    /// only.
    pub open spec fn mover_told(self, board: Position) -> DriverView {
        if board.side != 0 {
            self.pressed(MM2Button::POS).pressed(MM2Button::LeftBlack9).pressed(MM2Button::CL)
        } else {
            self
        }
    }

    /// After the firmware has been started anew on an empty board and put
    /// into the mode in which men are set up.
    pub open spec fn set_up_begun(self, board: Position) -> DriverView {
        DriverView { sensors: no_sensors(), board, ..self }.started().pressed(
            MM2Button::POS,
        ).pressed(MM2Button::ENT).waited()
    }

    /// After `board` has been set up man by man on an empty board.
    pub open spec fn set_up(self, board: Position) -> DriverView {
        self.set_up_begun(board).men_placed(board, 64).pressed(MM2Button::CL).mover_told(board)
    }

    /// After the position that `fen` names has been set: the starting
    /// position by its short way if `fen` is the word for it, else the
    /// position of the text man by man.
    pub open spec fn fen_set(self, fen: Seq<char>) -> DriverView {
        if fen == "startpos"@ {
            self.defaulted()
        } else {
            self.set_up(position_of(fen))
        }
    }
}

/// Two toggles of one square leave every sensor as it was.
pub proof fn lemma_toggle_twice_is_identity(v: DriverView, sq: u8)
    requires
        v.wf(),
        sq < 64,
    ensures
        v.toggled(sq).toggled(sq).sensors == v.sensors,
{
    lemma_toggle_twice(v.sensors, sq);
}

/// While men are put down on an empty board, a sensor reports a man exactly
/// if its square has had its turn and holds one.
pub proof fn lemma_men_placed_senses(v: DriverView, board: Position, n: nat, sq: u8)
    requires
        v.sensors == no_sensors(),
        n <= 64,
        sq < 64,
    ensures
        v.men_placed(board, n).sensors.len() == 8,
        v.men_placed(board, n).board == v.board,
        v.men_placed(board, n).senses(sq) == (placing_turn(sq) < n && board.occupied(sq)),
    decreases n,
{
    if n == 0 {
        let row = no_sensors()[sq as int / 8];
        let f: u8 = sq % 8;
        assert((0u8 >> f) & 1 != 1) by (bit_vector);
    } else {
        lemma_men_placed_senses(v, board, (n - 1) as nat, sq);
        let before = v.men_placed(board, (n - 1) as nat);
        let here = placing_square(n - 1);
        assert(placing_turn(here) == n - 1);
        assert(placing_square(placing_turn(sq)) == sq);
        match board.man_at(here) {
            Some((piece, color)) => {
                let chosen = before.man_chosen(last_put(board, (n - 1) as nat), piece, color);
                assert(chosen.sensors == before.sensors);
                lemma_toggle_row(chosen.sensors, here, sq);
            },
            None => {},
        }
    }
}

/// After a position has been set up man by man, the mirror holds it, and
/// each sensor reports a man exactly if the position has one on its square.
pub proof fn lemma_set_up_matches(v: DriverView, board: Position, sq: u8)
    requires
        sq < 64,
    ensures
        v.set_up(board).board == board,
        v.set_up(board).senses(sq) == board.occupied(sq),
{
    lemma_men_placed_senses(v.set_up_begun(board), board, 64, sq);
}

/// After the text of a position has been set, the mirror holds that
/// position, and each sensor reports a man exactly if the position has one
/// on its square.
pub proof fn lemma_fen_set_matches(v: DriverView, fen: Seq<char>)
    requires
        Position::read(fen) is Some,
    ensures
        v.fen_set(fen).board == Position::read(fen)->0,
        forall|sq: u8|
            sq < 64 ==> #[trigger] v.fen_set(fen).senses(sq) == v.fen_set(fen).board.occupied(sq),
{
    crate::fen::lemma_startpos_is_no_text();
    assert forall|sq: u8| sq < 64 implies #[trigger] v.fen_set(fen).senses(sq) == v.fen_set(
        fen,
    ).board.occupied(sq) by {
        lemma_set_up_matches(v, position_of(fen), sq);
    }
    lemma_set_up_matches(v, position_of(fen), 0);
}

/// The characters of a text that may be missing.
pub open spec fn text_of(fen: Option<String>) -> Option<Seq<char>> {
    match fen {
        Some(text) => Some(text@),
        None => None,
    }
}

/// The position from which the moves of a request are counted: the
/// starting position if the request says so or names no text, else the
/// position of its text.
pub open spec fn baseline(startpos: bool, fen: Option<Seq<char>>) -> Position {
    match fen {
        Some(text) => if startpos {
            Position::start()
        } else {
            position_of(text)
        },
        None => Position::start(),
    }
}

/// The text that sets that position.
pub open spec fn baseline_text(startpos: bool, fen: Option<Seq<char>>) -> Seq<char> {
    match fen {
        Some(text) => if startpos {
            "startpos"@
        } else {
            text
        },
        None => "startpos"@,
    }
}

impl DriverView {
    /// Whether the board stands one move before the end of `moves` played
    /// from `base`: the last of them is legal in the mirror and leads to
    /// where all of them lead from `base`.
    pub open spec fn resumes(self, base: Position, moves: Seq<Move>) -> bool {
        &&& moves.len() > 0
        &&& self.board.allows(moves.last())
        &&& self.board.after(moves.last()) == base.after_all(moves)
    }

    /// After the board has been brought to where `moves` lead from the
    /// baseline: by the short way if that is the starting position itself
    /// or one move from it, by the last move alone if the board stands one
    /// move short, and else by setting the baseline and dictating the moves.
    pub open spec fn positioned(
        self,
        startpos: bool,
        fen: Option<Seq<char>>,
        moves: Seq<Move>,
    ) -> DriverView {
        if startpos && moves.len() == 0 {
            self.defaulted()
        } else if startpos && moves.len() == 1 {
            self.defaulted().played(moves[0])
        } else if self.resumes(baseline(startpos, fen), moves) {
            self.played(moves.last())
        } else {
            self.fen_set(baseline_text(startpos, fen)).forced_through(moves)
        }
    }
}

/// Setting a text puts the mirror on the position that the text sets; the
/// word for the starting position sets the starting position.
pub proof fn lemma_fen_set_board(v: DriverView, fen: Seq<char>)
    ensures
        v.fen_set(fen).board == position_of(fen),
{
    if fen == "startpos"@ {
        crate::fen::lemma_startpos_is_no_text();
    } else {
        lemma_set_up_matches(v, position_of(fen), 0);
    }
}

/// Dictated moves put the mirror where they lead in turn.
pub proof fn lemma_forced_through_board(v: DriverView, moves: Seq<Move>)
    ensures
        v.forced_through(moves).board == v.board.after_all(moves),
{
    let entered = v.pressed(MM2Button::LEV).pressed(MM2Button::MEM).pressed(MM2Button::ENT);
    lemma_played_all_board(entered, moves);
}

/// One move played puts the mirror where it leads.
pub proof fn lemma_played_board(v: DriverView, m: Move)
    ensures
        v.played(m).board == v.board.after(m),
{
    lemma_follows_self(v);
    lemma_played_follows(v, v, m);
}

/// However the board is brought there, the mirror ends where the moves
/// lead from the baseline.
pub proof fn lemma_positioned_board(
    v: DriverView,
    startpos: bool,
    fen: Option<Seq<char>>,
    moves: Seq<Move>,
)
    ensures
        v.positioned(startpos, fen, moves).board == baseline(startpos, fen).after_all(moves),
{
    let base = baseline(startpos, fen);
    if startpos && moves.len() == 0 {
    } else if startpos && moves.len() == 1 {
        lemma_played_board(v.defaulted(), moves[0]);
        assert(moves.drop_last() =~= Seq::<Move>::empty());
        assert(base.after_all(moves.drop_last()) == base);
    } else if v.resumes(base, moves) {
        lemma_played_board(v, moves.last());
    } else {
        let text = baseline_text(startpos, fen);
        lemma_fen_set_board(v, text);
        crate::fen::lemma_startpos_is_no_text();
        lemma_forced_through_board(v.fen_set(text), moves);
    }
}

impl DriverView {
    /// Whether the sensor under `sq` reports what the mirror holds there.
    pub open spec fn in_step(self, sq: u8) -> bool {
        self.senses(sq) == self.board.occupied(sq)
    }
}

/// A press leaves keypad, sensors and mirror as they were.
pub proof fn lemma_press_leaves_inputs(v: DriverView, button: MM2Button)
    ensures
        v.pressed(button).keys == v.keys,
        v.pressed(button).sensors == v.sensors,
        v.pressed(button).board == v.board,
{
}

/// One pass of bringing sensors into step with a move leaves the sensors
/// under the squares it has not come to, and those of the other kind, as
/// they were; the others are in step with the move.
pub proof fn lemma_settled_senses(
    v: DriverView,
    origin: Seq<u8>,
    before: Position,
    lifting: bool,
    n: nat,
    sq: u8,
)
    requires
        v.sensors.len() == 8,
        n <= 64,
        sq < 64,
    ensures
        v.settled(origin, before, lifting, n).sensors.len() == 8,
        v.settled(origin, before, lifting, n).board == v.board,
        v.settled(origin, before, lifting, n).keys == v.keys,
        v.settled(origin, before, lifting, n).level == v.level,
        sq < n && v.board.occupied(sq) != lifting ==> !owes(
            origin,
            v.settled(origin, before, lifting, n).sensors,
            before,
            v.board,
            sq,
        ),
        sq >= n || v.board.occupied(sq) == lifting ==> sensed(
            v.settled(origin, before, lifting, n).sensors,
            sq,
        ) == sensed(v.sensors, sq),
    decreases n,
{
    if n > 0 {
        lemma_settled_senses(v, origin, before, lifting, (n - 1) as nat, sq);
        let so_far = v.settled(origin, before, lifting, (n - 1) as nat);
        let here = (n - 1) as u8;
        if owes(origin, so_far.sensors, before, v.board, here) && v.board.occupied(here)
            != lifting {
            lemma_toggle_row(so_far.sensors, here, sq);
        }
    }
}

/// After a move has been made on the board, the report of each sensor has
/// changed exactly if the move has emptied or filled its square.
pub proof fn lemma_played_senses(v: DriverView, m: Move, sq: u8)
    requires
        v.wf(),
        m.wf(),
        sq < 64,
    ensures
        v.played(m).wf(),
        (v.played(m).senses(sq) != v.senses(sq)) == (v.board.occupied(sq) != v.board.after(
            m,
        ).occupied(sq)),
{
    lemma_toggle_row(v.sensors, m.to, sq);
    let a = DriverView { board: v.board.after(m), ..v.cleared_for(m.to) };
    lemma_toggle_row(a.sensors, m.from, sq);
    lemma_toggle_row(a.toggled(m.from).sensors, m.to, sq);
    let d = v.moved(m);
    lemma_settled_senses(d, v.sensors, v.board, true, 64, sq);
    let e = d.settled(v.sensors, v.board, true, 64);
    lemma_settled_senses(e, v.sensors, v.board, false, 64, sq);
}

/// A move made on the board keeps each sensor in step with the mirror, or
/// out of step, as it was.
pub proof fn lemma_played_keeps_step(v: DriverView, m: Move, sq: u8)
    requires
        v.wf(),
        m.wf(),
        sq < 64,
    ensures
        v.played(m).in_step(sq) == v.in_step(sq),
{
    lemma_played_senses(v, m, sq);
    lemma_played_board(v, m);
}

/// After a text has been set and a move made, the mirror is where the move
/// leads from the position that the text sets.
pub proof fn lemma_set_then_played(v: DriverView, fen: Seq<char>, m: Move)
    ensures
        v.fen_set(fen).played(m).board == position_of(fen).after(m),
{
    lemma_fen_set_board(v, fen);
    lemma_played_board(v.fen_set(fen), m);
}

} // verus!
