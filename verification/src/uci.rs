//! The engine behind the chess interface: what it announces of itself,
//! what the reader of its input passes on, and what each command does.
use crate::display::lowered;
use crate::emu::consulted;
use crate::emu::EmuError;
use crate::emu::MephistoEmu;
use crate::emu::MM2Emu;
use crate::position::Move;
use crate::position::Position;
use crate::script::baseline;
use crate::script::Detail;
use crate::script::mirror_answers;
use crate::script::Reply;
use crate::script::text_of;
use crate::wire::bestmove_text;
use crate::wire::id_author_text;
use crate::wire::id_name_text;
use crate::wire::mate_text;
use crate::wire::option_text;
use crate::wire::readyok_text;
use crate::wire::score_text;
use crate::wire::uciok_text;
use vstd::prelude::*;

verus! {

/// The name under which the engine announces itself.
pub fn engine_name() -> (name: &'static str)
    ensures
        name@ == "Mephisto MM2"@,
{
    "Mephisto MM2"
}

/// The authors that the engine names.
pub fn engine_author() -> (author: &'static str)
    ensures
        author@ == "Ulf Rathsman, Emulator by: Lukas N\u{f6}llemeyer"@,
{
    "Ulf Rathsman, Emulator by: Lukas N\u{f6}llemeyer"
}

/// The lowest playing level.
pub const MIN_LEVEL: u8 = 1;

/// The highest playing level.
pub const MAX_LEVEL: u8 = 10;

/// An option that the engine announces.
#[derive(Clone, Copy, PartialEq, Eq, Debug)]
pub enum EngineOption {
    /// The playing level: a number from 1 to 10, 1 unless set.
    Difficulty,
    /// Whether the firmware's opening book is used: on unless set.
    OwnBook,
    /// Whether the reader echoes what it receives: off unless set.
    Debug,
}

/// What kind of value an option takes.
#[derive(Clone, Copy, PartialEq, Eq, Debug)]
pub enum OptionKind {
    Spin { default: i64, min: i64, max: i64 },
    Check { on: bool },
}

impl EngineOption {
    pub open spec fn spec_name(self) -> Seq<char> {
        match self {
            EngineOption::Difficulty => "Difficulty"@,
            EngineOption::OwnBook => "OwnBook"@,
            EngineOption::Debug => "Debug"@,
        }
    }

    pub open spec fn spec_kind(self) -> OptionKind {
        match self {
            EngineOption::Difficulty => OptionKind::Spin { default: 1, min: 1, max: 10 },
            EngineOption::OwnBook => OptionKind::Check { on: true },
            EngineOption::Debug => OptionKind::Check { on: false },
        }
    }

    /// The option's name as it is announced and set.
    pub fn name(self) -> (name: &'static str)
        ensures
            name@ == self.spec_name(),
    {
        match self {
            EngineOption::Difficulty => "Difficulty",
            EngineOption::OwnBook => "OwnBook",
            EngineOption::Debug => "Debug",
        }
    }

    /// The kind of value the option takes, with its default and bounds.
    pub fn kind(self) -> (kind: OptionKind)
        ensures
            kind == self.spec_kind(),
    {
        match self {
            EngineOption::Difficulty => OptionKind::Spin {
                default: MIN_LEVEL as i64,
                min: MIN_LEVEL as i64,
                max: MAX_LEVEL as i64,
            },
            EngineOption::OwnBook => OptionKind::Check { on: true },
            EngineOption::Debug => OptionKind::Check { on: false },
        }
    }
}

/// The options that the engine announces, in the order in which it
/// announces them.
pub fn advertised_options() -> (options: [EngineOption; 3])
    ensures
        options@ == seq![EngineOption::Difficulty, EngineOption::OwnBook, EngineOption::Debug],
{
    let options = [EngineOption::Difficulty, EngineOption::OwnBook, EngineOption::Debug];
    assert(options@ =~= seq![
        EngineOption::Difficulty,
        EngineOption::OwnBook,
        EngineOption::Debug,
    ]);
    options
}

/// A command as the engine receives it.
#[derive(PartialEq, Eq, Debug)]
pub enum Command {
    Uci,
    IsReady,
    SetOption { name: String, value: Option<String> },
    Position { startpos: bool, fen: Option<String>, moves: Vec<Move> },
    Go,
    UciNewGame,
    Quit,
    /// A command that the engine knows but does not act on.
    Other,
    /// Input that is no command.
    Unknown,
}

/// Whether `text` is `word`.
fn is_word(text: &str, word: &str) -> (r: bool)
    ensures
        r == (text@ == word@),
{
    let a: String = text.to_owned();
    let b: String = word.to_owned();
    a == b
}

/// Whether `text` is the word `true`, in small or capital letters.
pub open spec fn says_true(text: Seq<char>) -> bool {
    &&& text.len() == 4
    &&& lowered(text[0]) == 't'
    &&& lowered(text[1]) == 'r'
    &&& lowered(text[2]) == 'u'
    &&& lowered(text[3]) == 'e'
}

/// The `i`-th letter of the word `true`.
pub open spec fn true_letter(i: int) -> char {
    if i == 0 {
        't'
    } else if i == 1 {
        'r'
    } else if i == 2 {
        'u'
    } else {
        'e'
    }
}

fn lower(c: char) -> (r: char)
    ensures
        r == lowered(c),
{
    if 'A' <= c && c <= 'Z' {
        ((c as u8) + 32) as char
    } else {
        c
    }
}

/// Whether `text` is the word `true`, in small or capital letters.
pub fn is_true(text: &str) -> (r: bool)
    ensures
        r == says_true(text@),
{
    let mut matched: usize = 0;
    let mut ok = true;
    for c in iter: text.chars()
        invariant
            iter.seq() == text@,
            ok ==> matched == iter.index() && matched <= 4,
            ok == (iter.index() <= 4 && forall|j: int|
                0 <= j < iter.index() ==> lowered(#[trigger] text@[j]) == true_letter(j)),
    {
        let want = if matched == 0 {
            't'
        } else if matched == 1 {
            'r'
        } else if matched == 2 {
            'u'
        } else {
            'e'
        };
        if ok && matched < 4 && lower(c) == want {
            matched = matched + 1;
        } else {
            ok = false;
        }
    }
    ok && matched == 4
}

/// A whole number as far as it has been read: an optional plus sign, then
/// digits, the number no more than 255.
#[derive(Clone, Copy, Debug)]
pub struct Count {
    pub signed: bool,
    pub value: u8,
    /// Whether a digit has been read.
    pub digits: bool,
    /// Whether something has been read that no such number holds.
    pub bad: bool,
}

impl Count {
    pub open spec fn start() -> Count {
        Count { signed: false, value: 0, digits: false, bad: false }
    }

    /// The reading after one more character.
    pub open spec fn step(self, c: char) -> Count {
        if self.bad {
            self
        } else if c == '+' {
            if self.signed || self.digits {
                Count { bad: true, ..self }
            } else {
                Count { signed: true, ..self }
            }
        } else {
            match crate::display::digit_value(c) {
                Some(d) => if self.value * 10 + d > 255 {
                    Count { bad: true, ..self }
                } else {
                    Count { value: (self.value * 10 + d) as u8, digits: true, ..self }
                },
                None => Count { bad: true, ..self },
            }
        }
    }

    /// The reading after all of `text`.
    pub open spec fn of(text: Seq<char>) -> Count
        decreases text.len(),
    {
        if text.len() == 0 {
            Count::start()
        } else {
            Count::of(text.drop_last()).step(text.last())
        }
    }

    /// The number read, if what was read is one.
    pub open spec fn read(self) -> Option<u8> {
        if self.bad || !self.digits {
            None
        } else {
            Some(self.value)
        }
    }

    fn advance(self, c: char) -> (s: Count)
        ensures
            s == self.step(c),
    {
        if self.bad {
            self
        } else if c == '+' {
            if self.signed || self.digits {
                Count { bad: true, ..self }
            } else {
                Count { signed: true, ..self }
            }
        } else {
            match crate::display::digit_of(c) {
                Some(d) => if self.value as u32 * 10 + d as u32 > 255 {
                    Count { bad: true, ..self }
                } else {
                    Count { value: self.value * 10 + d, digits: true, ..self }
                },
                None => Count { bad: true, ..self },
            }
        }
    }
}

/// The number that `text` writes, if it writes one from 0 to 255.
pub open spec fn count_named(text: Seq<char>) -> Option<u8> {
    Count::of(text).read()
}

/// Reads the number that `text` writes, if it writes one from 0 to 255.
pub fn read_count(text: &str) -> (r: Option<u8>)
    ensures
        r == count_named(text@),
{
    let mut s = Count { signed: false, value: 0, digits: false, bad: false };
    for c in iter: text.chars()
        invariant
            iter.seq() == text@,
            s == Count::of(text@.take(iter.index() as int)),
    {
        proof {
            let next = text@.take(iter.index() + 1);
            assert(next.drop_last() =~= text@.take(iter.index() as int));
        }
        s = s.advance(c);
    }
    assert(text@.take(text@.len() as int) =~= text@);
    if s.bad || !s.digits {
        None
    } else {
        Some(s.value)
    }
}

/// What the reader of the engine's input does with a command.
#[derive(Clone, Copy, PartialEq, Eq, Debug)]
pub enum Passage {
    /// It is dropped.
    Drop,
    /// It is passed on to the engine.
    Forward,
    /// The reader answers it itself, with `readyok`.
    AnswerReady,
}

/// What the reader does with a command, and whether it echoes it first.
#[derive(Clone, Copy, PartialEq, Eq, Debug)]
pub struct Verdict {
    pub echo: bool,
    pub passage: Passage,
}

/// The reader of the engine's input: it drops what is no command, echoes
/// commands while the `Debug` option is on, passes the first `isready` on
/// to the engine and answers each later one itself.
#[derive(Clone, Copy, PartialEq, Eq, Debug)]
pub struct Reader {
    /// Whether an `isready` has been passed on.
    pub ready_seen: bool,
    /// Whether commands are echoed.
    pub debug: bool,
}

impl Reader {
    pub fn new() -> (reader: Reader)
        ensures
            reader == (Reader { ready_seen: false, debug: false }),
    {
        Reader { ready_seen: false, debug: false }
    }

    /// The reader after it has heard `command`.
    pub open spec fn after(self, command: Command) -> Reader {
        match command {
            Command::Unknown => self,
            Command::IsReady => Reader { ready_seen: true, ..self },
            Command::SetOption { name, value } => match value {
                Some(text) => if name@ == "Debug"@ {
                    Reader { debug: says_true(text@), ..self }
                } else {
                    self
                },
                None => self,
            },
            _ => self,
        }
    }

    /// What the reader does with `command`.
    pub open spec fn verdict(self, command: Command) -> Verdict {
        match command {
            Command::Unknown => Verdict { echo: false, passage: Passage::Drop },
            Command::IsReady => Verdict {
                echo: self.debug,
                passage: if self.ready_seen {
                    Passage::AnswerReady
                } else {
                    Passage::Forward
                },
            },
            _ => Verdict { echo: self.debug, passage: Passage::Forward },
        }
    }

    /// Hears one command.
    pub fn hear(&mut self, command: &Command) -> (v: Verdict)
        ensures
            v == old(self).verdict(*command),
            *final(self) == old(self).after(*command),
    {
        let echo = self.debug;
        match command {
            Command::Unknown => Verdict { echo: false, passage: Passage::Drop },
            Command::IsReady => {
                if self.ready_seen {
                    Verdict { echo, passage: Passage::AnswerReady }
                } else {
                    self.ready_seen = true;
                    Verdict { echo, passage: Passage::Forward }
                }
            },
            Command::SetOption { name, value } => {
                match value {
                    Some(text) => {
                        if is_word(name.as_str(), "Debug") {
                            self.debug = is_true(text.as_str());
                        }
                    },
                    None => {},
                }
                Verdict { echo, passage: Passage::Forward }
            },
            _ => Verdict { echo, passage: Passage::Forward },
        }
    }
}

/// What the engine answers to a command.
#[derive(Clone, Copy, PartialEq, Eq, Debug)]
pub enum Response {
    /// Its name, its authors, its options, and `uciok`.
    Intro,
    ReadyOk,
    /// The position was set, but from the starting position: the text
    /// given for it describes none.
    InvalidFen,
    BestMove(Reply),
    /// The side to move has no move.
    NoMove,
    /// The command could not be carried out.
    Refused(EmuError),
    /// The option is none of the engine's.
    UnknownOption,
    /// The command is not acted on.
    Unhandled,
    Nothing,
    Quit,
}

/// The engine: the machine with its driver, and what has been asked of it
/// before it was first made ready.
pub struct Session {
    pub emu: MM2Emu,
    /// Whether the machine has been started and its level entered.
    pub inited: bool,
    /// The level that is entered when the machine is made ready.
    pub set_diff: u8,
}

impl Session {
    /// An engine around a machine that has not been started: the level to
    /// enter is the lowest.
    pub fn new(emu: MM2Emu) -> (s: Session)
        ensures
            s.emu == emu,
            !s.inited,
            s.set_diff == MIN_LEVEL,
    {
        Session { emu, inited: false, set_diff: MIN_LEVEL }
    }

    /// Whether `level` is one of the playing levels.
    pub open spec fn is_level(level: u8) -> bool {
        MIN_LEVEL <= level <= MAX_LEVEL
    }

    /// What making the machine ready does: nothing if it is ready; else
    /// the machine is started and the level that has been set is entered,
    /// unless that is no level, which is refused.
    pub open spec fn made_ready(before: Session, after: Session, r: Response) -> bool {
        &&& after.set_diff == before.set_diff
        &&& if before.inited {
            r == Response::ReadyOk && after.inited && after.emu@ == before.emu@
        } else if Session::is_level(before.set_diff) {
            r == Response::ReadyOk && after.inited && after.emu@ == before.emu@.started().at_level(
                before.set_diff - 1,
            ).level_entered()
        } else {
            r == Response::Refused(EmuError::InvalidDifficulty) && !after.inited && after.emu@
                == before.emu@.started()
        }
    }

    /// What setting an option does. The level is kept for when the machine
    /// is made ready; a level that is no number from 0 to 255 is refused.
    /// `Debug` is the reader's to act on and `OwnBook` changes nothing. Any
    /// other option is unknown.
    pub open spec fn option_set(
        before: Session,
        after: Session,
        name: Seq<char>,
        value: Option<Seq<char>>,
        r: Response,
    ) -> bool {
        &&& after.emu == before.emu
        &&& after.inited == before.inited
        &&& if name == "Difficulty"@ {
            match value {
                Some(text) => match count_named(text) {
                    Some(level) => r == Response::Nothing && after.set_diff == level,
                    None => r == Response::Refused(EmuError::InvalidDifficulty) && after.set_diff
                        == before.set_diff,
                },
                None => r == Response::Refused(EmuError::InvalidDifficulty) && after.set_diff
                    == before.set_diff,
            }
        } else {
            after.set_diff == before.set_diff && r == (if name == "Debug"@ || name == "OwnBook"@ {
                Response::Nothing
            } else {
                Response::UnknownOption
            })
        }
    }

    /// Whether a position command names its position by a text that
    /// describes none: the starting position is taken in its place, and the
    /// engine says so.
    pub open spec fn text_refused(startpos: bool, fen: Option<Seq<char>>) -> bool {
        &&& !startpos
        &&& fen matches Some(text)
        &&& text != "startpos"@
        &&& Position::read(text) is None
    }

    /// What a position command does: the board is brought to where the
    /// moves lead from the baseline if they are legal in turn; the command
    /// is refused, and nothing changes, if they are not.
    pub open spec fn position_set(
        before: Session,
        after: Session,
        startpos: bool,
        fen: Option<Seq<char>>,
        moves: Seq<Move>,
        r: Response,
    ) -> bool {
        &&& after.inited == before.inited
        &&& after.set_diff == before.set_diff
        &&& if baseline(startpos, fen).allows_all(moves) {
            r == (if Session::text_refused(startpos, fen) {
                Response::InvalidFen
            } else {
                Response::Nothing
            }) && after.emu@ == before.emu@.positioned(startpos, fen, moves)
        } else {
            r == Response::Refused(EmuError::IllegalMove) && after.emu == before.emu
        }
    }

    /// The machine's answer that a response to `go` brings.
    pub open spec fn answer_of(r: Response) -> Result<Option<Reply>, EmuError> {
        match r {
            Response::BestMove(reply) => Ok(Some(reply)),
            Response::Refused(e) => Err(e),
            _ => Ok(None),
        }
    }

    /// What a request for a move does: the answer is a move, none, or a
    /// refusal; the board has changed by presses and toggles alone; the
    /// mirror stands to the answer as `mirror_answers` says; and answer and
    /// machine are what the readings of the display lead to, as `consulted`
    /// says.
    pub open spec fn went(before: Session, after: Session, r: Response) -> bool {
        &&& after.inited == before.inited
        &&& after.set_diff == before.set_diff
        &&& after.emu@.follows(before.emu@)
        &&& (r is BestMove || r is NoMove || r is Refused)
        &&& mirror_answers(before.emu@.board, after.emu@.board, Session::answer_of(r))
        &&& exists|readings: Seq<[u8; 4]>, last: [u8; 4]| #[trigger]
            consulted(
                before.emu@,
                after.emu@,
                Session::answer_of(r),
                before.emu@.patience,
                readings,
                last,
            )
    }

    /// What a command does.
    pub open spec fn handled(
        before: Session,
        after: Session,
        command: Command,
        r: Response,
    ) -> bool {
        match command {
            Command::Uci => r == Response::Intro && after == before,
            Command::IsReady => Session::made_ready(before, after, r),
            Command::SetOption { name, value } => Session::option_set(
                before,
                after,
                name@,
                text_of(value),
                r,
            ),
            Command::Position { startpos, fen, moves } => Session::position_set(
                before,
                after,
                startpos,
                text_of(fen),
                moves@,
                r,
            ),
            Command::Go => Session::went(before, after, r),
            Command::UciNewGame => r == Response::Nothing && after == before,
            Command::Quit => r == Response::Quit && after == before,
            Command::Other => r == Response::Unhandled && after == before,
            Command::Unknown => r == Response::Unhandled && after == before,
        }
    }

    /// Makes the machine ready.
    pub fn make_ready(&mut self) -> (r: Response)
        requires
            old(self).emu.wf(),
        ensures
            final(self).emu.wf(),
            Session::made_ready(*old(self), *final(self), r),
    {
        if !self.inited {
            self.emu.init();
            match self.emu.set_difficulty(Some(self.set_diff)) {
                Ok(()) => {
                    self.inited = true;
                },
                Err(e) => {
                    return Response::Refused(e);
                },
            }
        }
        Response::ReadyOk
    }

    /// Sets an option.
    pub fn set_option(&mut self, name: &str, value: &Option<String>) -> (r: Response)
        ensures
            Session::option_set(*old(self), *final(self), name@, text_of(*value), r),
    {
        if is_word(name, "Difficulty") {
            let level = match value {
                Some(text) => read_count(text.as_str()),
                None => None,
            };
            match level {
                Some(n) => {
                    self.set_diff = n;
                    Response::Nothing
                },
                None => Response::Refused(EmuError::InvalidDifficulty),
            }
        } else if is_word(name, "Debug") || is_word(name, "OwnBook") {
            Response::Nothing
        } else {
            Response::UnknownOption
        }
    }

    /// Brings the board to the position of a position command.
    pub fn set_position(&mut self, startpos: bool, fen: Option<String>, moves: Vec<Move>) -> (r:
        Response)
        requires
            old(self).emu.wf(),
        ensures
            final(self).emu.wf(),
            Session::position_set(*old(self), *final(self), startpos, text_of(fen), moves@, r),
    {
        let refused = !startpos && match &fen {
            Some(text) => !is_word(text.as_str(), "startpos") && Position::from_fen(
                text.as_str(),
            ).is_none(),
            None => false,
        };
        match self.emu.try_set_position(startpos, fen, moves) {
            Ok(()) => if refused {
                Response::InvalidFen
            } else {
                Response::Nothing
            },
            Err(e) => Response::Refused(e),
        }
    }

    /// Asks the machine for its move.
    pub fn go(&mut self) -> (r: Response)
        requires
            old(self).emu.wf(),
        ensures
            final(self).emu.wf(),
            Session::went(*old(self), *final(self), r),
    {
        match self.emu.gen_move() {
            Ok(Some(reply)) => Response::BestMove(reply),
            Ok(None) => Response::NoMove,
            Err(e) => Response::Refused(e),
        }
    }

    /// Carries out one command.
    pub fn handle(&mut self, command: Command) -> (r: Response)
        requires
            old(self).emu.wf(),
        ensures
            final(self).emu.wf(),
            Session::handled(*old(self), *final(self), command, r),
    {
        match command {
            Command::Uci => Response::Intro,
            Command::IsReady => self.make_ready(),
            Command::SetOption { name, value } => self.set_option(name.as_str(), &value),
            Command::Position { startpos, fen, moves } => self.set_position(startpos, fen, moves),
            Command::Go => self.go(),
            Command::UciNewGame => Response::Nothing,
            Command::Quit => Response::Quit,
            Command::Other => Response::Unhandled,
            Command::Unknown => Response::Unhandled,
        }
    }

    /// Carries out one command and writes the response out in the lines
    /// that it is sent as.
    pub fn answer(&mut self, command: Command) -> (r: (Response, Vec<String>))
        requires
            old(self).emu.wf(),
        ensures
            final(self).emu.wf(),
            Session::handled(*old(self), *final(self), command, r.0),
            texts_of(r.1@) == response_texts(r.0),
    {
        let response = self.handle(command);
        let lines = response_lines(&response);
        (response, lines)
    }
}

/// The lines with which the engine announces itself: its name, its
/// authors, its options, and `uciok`.
pub open spec fn intro_texts() -> Seq<Seq<char>> {
    seq![
        crate::wire::id_name_line("Mephisto MM2"@),
        crate::wire::id_author_line("Ulf Rathsman, Emulator by: Lukas N\u{f6}llemeyer"@),
        crate::wire::option_line(
            EngineOption::Difficulty.spec_name(),
            EngineOption::Difficulty.spec_kind(),
        ),
        crate::wire::option_line(
            EngineOption::OwnBook.spec_name(),
            EngineOption::OwnBook.spec_kind(),
        ),
        crate::wire::option_line(EngineOption::Debug.spec_name(), EngineOption::Debug.spec_kind()),
        "uciok"@,
    ]
}

/// The lines that tell of a reply: what came with the move, unless that
/// was a promotion prompt, then the move. A score or depth that the display
/// did not show is told as 0.
pub open spec fn reply_texts(reply: Reply) -> Seq<Seq<char>> {
    match reply.detail {
        Detail::Mate(n) => seq![
            crate::wire::mate_line(n),
            crate::wire::bestmove_line(reply.best_move, reply.ponder),
        ],
        Detail::Search { cp, depth } => seq![
            crate::wire::score_line(
                match cp {
                    Some(v) => v,
                    None => 0i32,
                },
                match depth {
                    Some(v) => v,
                    None => 0u8,
                },
            ),
            crate::wire::bestmove_line(reply.best_move, reply.ponder),
        ],
        Detail::Promotion => seq![crate::wire::bestmove_line(reply.best_move, reply.ponder)],
    }
}

/// The lines that a response is sent as. What is refused, unknown or not
/// acted on is sent as nothing.
pub open spec fn response_texts(response: Response) -> Seq<Seq<char>> {
    match response {
        Response::Intro => intro_texts(),
        Response::ReadyOk => seq!["readyok"@],
        Response::BestMove(reply) => reply_texts(reply),
        _ => Seq::empty(),
    }
}

/// The characters of each of `lines`.
pub open spec fn texts_of(lines: Seq<String>) -> Seq<Seq<char>> {
    Seq::new(lines.len(), |i: int| lines[i]@)
}

/// Whether a response can be sent: the moves of a reply stay on the board.
pub open spec fn sendable(response: Response) -> bool {
    response matches Response::BestMove(reply) ==> {
        &&& reply.best_move.wf()
        &&& reply.ponder matches Some(p) ==> p.wf()
    }
}

/// The lines with which the engine announces itself.
pub fn intro_lines() -> (lines: Vec<String>)
    ensures
        texts_of(lines@) == intro_texts(),
{
    let mut lines: Vec<String> = Vec::new();
    lines.push(id_name_text(engine_name()));
    lines.push(id_author_text(engine_author()));
    let options = advertised_options();
    let mut i: usize = 0;
    while i < 3
        invariant
            i <= 3,
            options@ == seq![EngineOption::Difficulty, EngineOption::OwnBook, EngineOption::Debug],
            lines@.len() == 2 + i,
            forall|j: int| 0 <= j < 2 + i ==> (#[trigger] lines@[j])@ == intro_texts()[j],
        decreases 3 - i,
    {
        lines.push(option_text(options[i].name(), options[i].kind()));
        i = i + 1;
    }
    lines.push(uciok_text());
    assert(texts_of(lines@) =~= intro_texts());
    lines
}

/// The lines that tell of a reply.
pub fn reply_lines(reply: &Reply) -> (lines: Vec<String>)
    requires
        sendable(Response::BestMove(*reply)),
    ensures
        texts_of(lines@) == reply_texts(*reply),
{
    let mut lines: Vec<String> = Vec::new();
    match reply.detail {
        Detail::Mate(n) => {
            lines.push(mate_text(n));
        },
        Detail::Search { cp, depth } => {
            let cp = match cp {
                Some(v) => v,
                None => 0,
            };
            let depth = match depth {
                Some(v) => v,
                None => 0,
            };
            lines.push(score_text(cp, depth));
        },
        Detail::Promotion => {},
    }
    lines.push(bestmove_text(reply.best_move, reply.ponder));
    assert(texts_of(lines@) =~= reply_texts(*reply));
    lines
}

/// The lines that a response is sent as.
pub fn response_lines(response: &Response) -> (lines: Vec<String>)
    requires
        sendable(*response),
    ensures
        texts_of(lines@) == response_texts(*response),
{
    let lines = match response {
        Response::Intro => intro_lines(),
        Response::ReadyOk => {
            let mut lines: Vec<String> = Vec::new();
            lines.push(readyok_text());
            lines
        },
        Response::BestMove(reply) => reply_lines(reply),
        _ => Vec::new(),
    };
    assert(texts_of(lines@) =~= response_texts(*response));
    lines
}

} // verus!
