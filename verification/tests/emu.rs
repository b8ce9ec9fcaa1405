use mephisto_emu::display::LcdCommand;
use mephisto_emu::emu::{EmuError, MM2Emu, MephistoEmu};
use mephisto_emu::keys::MM2Button;
use mephisto_emu::position::{Move, Piece, Position};
use mephisto_emu::script::{Detail, Input, Reply};

/// The segment byte of a glyph, the decimal point dark.
fn seg(c: char) -> u8 {
    match c {
        ' ' => 0xff,
        '1' => 0b1111_1001,
        '2' => 0b1010_0100,
        '4' => 0b1001_1001,
        '5' => 0b1001_0010,
        '6' => 0b1000_0010,
        '8' => 0b1000_0000,
        'A' => 0b1000_1000,
        'D' => 0b1010_0001,
        'E' => 0b1000_0110,
        'L' => 0b1100_0111,
        'N' => 0b1100_1000,
        'P' => 0b1000_1100,
        'T' => 0b1100_1110,
        'Y' => 0b1001_0001,
        'b' => 0b1000_0011,
        'c' => 0b1010_0111,
        'r' => 0b1010_1111,
        _ => panic!("no segment byte for {:?}", c),
    }
}

fn sq(name: &str) -> u8 {
    let b = name.as_bytes();
    (b[1] - b'1') * 8 + (b[0] - b'a')
}

/// A program that idles and acknowledges each interrupt. As it does, it
/// points the board LEDs at `first` while the sensor there reports
/// nothing, then at `second` while the sensor there reports nothing, then
/// at `first` again, and writes `shown` to the display.
fn rom(shown: &str, first: &str, second: &str) -> [u8; 0x8000] {
    let (a, b) = (sq(first), sq(second));
    let mut code: Vec<u8> = vec![
        0x58, // 8000 CLI
        0x4c, 0x01, 0x80, // 8001 JMP $8001
        0xa9, !(1u8 << (a / 8)), // 8004 LDA #row of first
        0x8d, 0x00, 0x38, // 8006 STA $3800
        0xad, 0x00, 0x20, // 8009 LDA $2000
        0x29, 1u8 << (a % 8), // 800c AND #file of first
        0xf0, 0x16, // 800e BEQ $8026
        0xa9, !(1u8 << (b / 8)), // 8010 LDA #row of second
        0x8d, 0x00, 0x38, // 8012 STA $3800
        0xad, 0x00, 0x20, // 8015 LDA $2000
        0x29, 1u8 << (b % 8), // 8018 AND #file of second
        0xd0, 0x08, // 801a BNE $8024
        0xa9, 1u8 << (b % 8), // 801c LDA #file of second
        0x8d, 0x00, 0x30, // 801e STA $3000
        0x4c, 0x30, 0x80, // 8021 JMP $8030
        0xea, 0xea, // 8024 NOP NOP
        0xa9, !(1u8 << (a / 8)), // 8026 LDA #row of first
        0x8d, 0x00, 0x38, // 8028 STA $3800
        0xa9, 1u8 << (a % 8), // 802b LDA #file of first
        0x8d, 0x00, 0x30, // 802d STA $3000
    ];
    assert_eq!(code.len(), 0x30);
    let glyphs: Vec<char> = shown.chars().collect();
    assert_eq!(glyphs.len(), 4);
    for c in glyphs.iter().rev() {
        code.extend_from_slice(&[0xa9, !seg(*c), 0x8d, 0x00, 0x28]); // LDA #digit, STA $2800
    }
    code.push(0x40); // RTI
    let mut image = [0xeau8; 0x8000];
    image[..code.len()].copy_from_slice(&code);
    image[0x7ffa] = 0x03;
    image[0x7ffb] = 0x80;
    image[0x7ffc] = 0x00;
    image[0x7ffd] = 0x80;
    image[0x7ffe] = 0x04;
    image[0x7fff] = 0x80;
    image
}

/// A program from `code`, which starts at $8000 and has its interrupt
/// handler at $8004.
fn image(code: &[u8]) -> [u8; 0x8000] {
    let mut image = [0xeau8; 0x8000];
    image[..code.len()].copy_from_slice(code);
    image[0x7ffa] = 0x03;
    image[0x7ffb] = 0x80;
    image[0x7ffc] = 0x00;
    image[0x7ffd] = 0x80;
    image[0x7ffe] = 0x04;
    image[0x7fff] = 0x80;
    image
}

fn idle() -> MM2Emu {
    MM2Emu::new([0u8; 0x4000], rom("    ", "a1", "a1"))
}

fn showing(shown: &str, first: &str, second: &str) -> MM2Emu {
    MM2Emu::new([0u8; 0x4000], rom(shown, first, second))
}

fn mv(text: &str) -> Move {
    let promotion = match text.as_bytes().get(4) {
        Some(b'q') => Some(Piece::Queen),
        Some(b'r') => Some(Piece::Rook),
        Some(b'b') => Some(Piece::Bishop),
        Some(b'n') => Some(Piece::Knight),
        _ => None,
    };
    Move::new(sq(&text[0..2]), sq(&text[2..4]), promotion)
}

fn after(p: Position, moves: &[&str]) -> Position {
    let mut p = p;
    for m in moves {
        assert!(p.legal(mv(m)));
        p = p.make_move(mv(m));
    }
    p
}

fn sensed(emu: &MM2Emu, square: u8) -> bool {
    (emu.system.sensors()[(square / 8) as usize] >> (square % 8)) & 1 == 1
}

fn keys(emu: &MM2Emu) -> Vec<MM2Button> {
    emu.journal()
        .iter()
        .filter_map(|i| match i {
            Input::Key(b) => Some(*b),
            _ => None,
        })
        .collect()
}

fn squares(emu: &MM2Emu) -> Vec<u8> {
    emu.journal()
        .iter()
        .filter_map(|i| match i {
            Input::Square(s) => Some(*s),
            _ => None,
        })
        .collect()
}

fn no_key_is_down(emu: &MM2Emu) -> bool {
    (0..16).all(|k| !emu.system.key_is_down(k))
}

/// Whether each sensor reports a man exactly where the mirror has one.
fn sensors_show_the_mirror(emu: &MM2Emu) -> bool {
    let shown = (0..64).all(|s| sensed(emu, s) == emu.cur_board.man_on(s).is_some());
    assert_eq!(emu.sensors_show_mirror(), shown);
    shown
}

#[test]
fn a_new_machine_is_at_the_start() {
    let emu = idle();
    assert_eq!(emu.cur_board, Position::startpos());
    assert_eq!(emu.system.sensors(), [0u8; 8]);
    assert_eq!(emu.level(), 1);
    assert_eq!(emu.tone_count(), 0);
    assert_eq!(emu.interrupt_count(), 0);
    assert_eq!(emu.patience(), u64::MAX);
    assert!(!emu.last_move_forced());
    assert!(emu.journal().is_empty());
    assert!(no_key_is_down(&emu));
}

#[test]
fn init_starts_the_firmware() {
    let mut emu = idle();
    emu.init();
    assert_eq!(emu.interrupt_count(), 500);
    assert_eq!(emu.journal().as_slice(), &[Input::Reset, Input::Wait, Input::Wait]);
    assert_eq!(emu.cur_board, Position::startpos());
    assert_eq!(emu.system.sensors(), [0u8; 8]);
    assert!(emu.system.acked());
    assert_eq!(emu.system.display(), [0xff; 4]);
}

#[test]
fn a_press_leaves_the_keypad_as_it_was() {
    let mut emu = idle();
    emu.init();
    emu.clear_journal();
    emu.press_key(MM2Button::D4Rook);
    assert_eq!(emu.interrupt_count(), 500);
    assert!(no_key_is_down(&emu));
    assert_eq!(
        emu.journal().as_slice(),
        &[Input::Wait, Input::Key(MM2Button::D4Rook), Input::Wait]
    );
    assert_eq!(emu.system.sensors(), [0u8; 8]);
}

#[test]
fn two_toggles_of_a_square_restore_the_sensors() {
    let mut emu = idle();
    emu.init();
    emu.clear_journal();
    emu.make_half_move(sq("c3"));
    assert_eq!(emu.system.sensors(), [0, 0, 0b100, 0, 0, 0, 0, 0]);
    assert_eq!(emu.journal().as_slice(), &[Input::Wait, Input::Square(18), Input::Wait]);
    emu.make_half_move(sq("c3"));
    assert_eq!(emu.system.sensors(), [0u8; 8]);
}

#[test]
fn a_key_is_held_for_five_hundred_interrupts() {
    let counting = [
        0x58, // 8000 CLI
        0x4c, 0x01, 0x80, // 8001 JMP $8001
        0xad, 0x05, 0x18, // 8004 LDA $1805
        0xc9, 0x7f, // 8007 CMP #$7f
        0xd0, 0x03, // 8009 BNE $800e
        0xee, 0x00, 0x02, // 800b INC $0200
        0x8d, 0x00, 0x28, // 800e STA $2800
        0x40, // 8011 RTI
    ];
    let mut emu = MM2Emu::new([0u8; 0x4000], image(&counting));
    emu.init();
    assert_eq!(emu.system.ram[0x200], 0xff);
    emu.press_key(MM2Button::ENT);
    assert_eq!(emu.system.ram[0x200], ((0xff + 500) % 256) as u8);
    emu.press_key(MM2Button::CL);
    emu.press_key(MM2Button::F6King);
    assert_eq!(emu.system.ram[0x200], ((0xff + 500) % 256) as u8);
    emu.press_key(MM2Button::ENT);
    assert_eq!(emu.system.ram[0x200], ((0xff + 1000) % 256) as u8);
}

#[test]
fn the_tone_is_counted_and_a_move_starts_the_count_anew() {
    let humming = [
        0x58, // 8000 CLI
        0x4c, 0x08, 0x80, // 8001 JMP $8008
        0x8d, 0x00, 0x28, // 8004 STA $2800
        0x40, // 8007 RTI
        0xa9, 0x80, // 8008 LDA #$80
        0x8d, 0x06, 0x10, // 800a STA $1006
        0x4c, 0x0d, 0x80, // 800d JMP $800d
    ];
    let mut emu = MM2Emu::new([0u8; 0x4000], image(&humming));
    assert_eq!(emu.tone_count(), 0);
    emu.init();
    let after_start = emu.tone_count();
    assert!(after_start > 1_900_000);
    emu.wait_1sec();
    assert!(emu.tone_count() >= after_start + 1_000_000);
    emu.play_move(mv("e2e4"));
    assert_eq!(emu.tone_count(), 0);
    emu.cur_board = Position::from_fen("r3k2r/8/8/8/8/8/8/R3K2R b KQkq - 0 1").unwrap();
    emu.play_move(mv("e8g8"));
    assert!(emu.tone_count() > 0);
}

#[test]
fn difficulty_is_entered_at_the_keypad() {
    let mut emu = idle();
    assert_eq!(emu.set_difficulty(Some(7)), Ok(()));
    assert_eq!(emu.level(), 7);
    assert_eq!(keys(&emu), vec![MM2Button::LEV, MM2Button::G7, MM2Button::ENT]);
    assert_eq!(emu.journal().len(), 9);
    assert!(no_key_is_down(&emu));
    emu.clear_journal();
    assert_eq!(emu.set_difficulty(None), Ok(()));
    assert_eq!(emu.level(), 7);
    assert_eq!(keys(&emu), vec![MM2Button::LEV, MM2Button::G7, MM2Button::ENT]);
    emu.clear_journal();
    assert_eq!(emu.set_difficulty(Some(1)), Ok(()));
    assert_eq!(emu.set_difficulty(Some(10)), Ok(()));
    assert_eq!(
        keys(&emu),
        vec![
            MM2Button::LEV,
            MM2Button::A1Pawn,
            MM2Button::ENT,
            MM2Button::LEV,
            MM2Button::RightWhite0,
            MM2Button::ENT
        ]
    );
}

#[test]
fn illegal_difficulty_is_refused() {
    let mut emu = idle();
    assert_eq!(emu.set_difficulty(Some(11)), Err(EmuError::InvalidDifficulty));
    assert_eq!(emu.set_difficulty(Some(0)), Err(EmuError::InvalidDifficulty));
    assert_eq!(emu.set_difficulty(Some(255)), Err(EmuError::InvalidDifficulty));
    assert_eq!(emu.level(), 1);
    assert!(emu.journal().is_empty());
    assert_eq!(emu.cur_board, Position::startpos());
    assert_eq!(emu.system.sensors(), [0u8; 8]);
}

#[test]
fn a_plain_move_toggles_two_squares() {
    let mut emu = idle();
    emu.init();
    emu.clear_journal();
    emu.play_move(mv("e2e4"));
    assert_eq!(emu.cur_board, after(Position::startpos(), &["e2e4"]));
    assert_eq!(squares(&emu), vec![sq("e2"), sq("e4")]);
    assert!(keys(&emu).is_empty());
    assert!(sensed(&emu, sq("e2")));
    assert!(sensed(&emu, sq("e4")));
    assert_eq!(emu.tone_count(), 0);
}

#[test]
fn a_capture_lifts_the_taken_man_first() {
    let mut emu = idle();
    emu.cur_board = after(Position::startpos(), &["e2e4", "d7d5"]);
    emu.play_move(mv("e4d5"));
    assert_eq!(squares(&emu), vec![sq("d5"), sq("e4"), sq("d5")]);
    assert_eq!(emu.cur_board, after(Position::startpos(), &["e2e4", "d7d5", "e4d5"]));
    assert!(sensed(&emu, sq("e4")));
    assert!(!sensed(&emu, sq("d5")));
}

#[test]
fn an_illegal_move_is_refused() {
    let mut emu = idle();
    assert_eq!(emu.try_play_move(mv("e2e5")), Err(EmuError::IllegalMove));
    assert_eq!(emu.try_play_move(Move::new(70, 3, None)), Err(EmuError::IllegalMove));
    assert!(emu.journal().is_empty());
    assert_eq!(emu.cur_board, Position::startpos());
    assert_eq!(emu.try_play_move(mv("e2e4")), Ok(()));
    assert_eq!(squares(&emu), vec![sq("e2"), sq("e4")]);
}

#[test]
fn castling_moves_king_and_rook_on_the_board() {
    let mut emu = idle();
    emu.set_fen("r3k2r/8/8/8/8/8/8/R3K2R w KQkq - 0 1");
    assert!(sensors_show_the_mirror(&emu));
    emu.clear_journal();
    emu.play_move(mv("e1g1"));
    assert_eq!(squares(&emu), vec![sq("e1"), sq("g1"), sq("h1"), sq("f1")]);
    assert!(!sensed(&emu, sq("e1")));
    assert!(sensed(&emu, sq("g1")));
    assert!(!sensed(&emu, sq("h1")));
    assert!(sensed(&emu, sq("f1")));
    assert!(sensors_show_the_mirror(&emu));
    assert_eq!(emu.cur_board.man_on(sq("g1")).map(|m| m.0), Some(Piece::King));
    assert_eq!(emu.cur_board.man_on(sq("f1")).map(|m| m.0), Some(Piece::Rook));
    emu.clear_journal();
    emu.play_move(mv("e8c8"));
    assert_eq!(squares(&emu), vec![sq("e8"), sq("c8"), sq("a8"), sq("d8")]);
    assert!(sensors_show_the_mirror(&emu));
}

#[test]
fn promotion_names_the_piece_once() {
    let mut emu = idle();
    emu.set_fen("8/P6k/8/8/8/8/8/K7 w - - 0 1");
    assert!(sensed(&emu, sq("a7")));
    assert!(!sensed(&emu, sq("a8")));
    emu.clear_journal();
    emu.play_move(mv("a7a8q"));
    assert!(!sensed(&emu, sq("a7")));
    assert!(sensed(&emu, sq("a8")));
    assert_eq!(squares(&emu), vec![sq("a7"), sq("a8")]);
    assert_eq!(keys(&emu), vec![MM2Button::E5Queen]);
    assert_eq!(emu.cur_board.man_on(sq("a8")).map(|m| m.0), Some(Piece::Queen));
    assert!(sensors_show_the_mirror(&emu));
}

#[test]
fn a_capture_in_passing_lifts_the_taken_pawn() {
    let mut emu = idle();
    emu.set_fen("4k3/8/8/3pP3/8/8/8/4K3 w - d6 0 1");
    assert_eq!(emu.system.sensors(), [0x10, 0, 0, 0, 0x18, 0, 0, 0x10]);
    assert!(sensors_show_the_mirror(&emu));
    emu.clear_journal();
    emu.play_move(mv("e5d6"));
    assert_eq!(squares(&emu), vec![sq("e5"), sq("d6"), sq("d5")]);
    assert_eq!(emu.cur_board.man_on(sq("d5")), None);
    assert_eq!(emu.system.sensors(), [0x10, 0, 0, 0, 0x00, 0x08, 0, 0x10]);
    assert!(sensors_show_the_mirror(&emu));
}

#[test]
fn a_capture_in_passing_by_black_lifts_the_taken_pawn() {
    let mut emu = idle();
    emu.set_position(true, None, vec![mv("a2a3"), mv("d7d5"), mv("a3a4"), mv("d5d4"), mv("e2e4")]);
    let before = emu.system.sensors();
    emu.clear_journal();
    emu.play_move(mv("d4e3"));
    assert_eq!(squares(&emu), vec![sq("d4"), sq("e3"), sq("e4")]);
    let after = emu.system.sensors();
    for s in 0..64u8 {
        let flipped = (before[(s / 8) as usize] ^ after[(s / 8) as usize]) >> (s % 8) & 1 == 1;
        assert_eq!(flipped, s == sq("d4") || s == sq("e3") || s == sq("e4"));
    }
}

#[test]
fn a_key_is_held_in_its_own_cell() {
    let mut emu = idle();
    for (button, cell) in [
        (MM2Button::CL, 0),
        (MM2Button::LeftBlack9, 7),
        (MM2Button::E5Queen, 8),
        (MM2Button::B2Knight, 13),
        (MM2Button::D4Rook, 15),
    ] {
        emu.hold_key(button);
        for k in 0..16 {
            assert_eq!(emu.system.key_is_down(k), k == cell);
        }
        emu.run_held_second(button);
        assert_eq!(emu.journal().last(), Some(&Input::Key(button)));
        emu.release_key(button);
        assert!(no_key_is_down(&emu));
    }
}

#[test]
fn readings_are_recorded() {
    let mut emu = showing("NAT ", "c3", "c3");
    emu.init();
    emu.clear_journal();
    let nat = [seg('N'), seg('A'), seg('T'), seg(' ')];
    assert_eq!(emu.read_display(), nat);
    assert_eq!(emu.read_led(), sq("c3"));
    assert_eq!(emu.journal().as_slice(), &[Input::Shown(nat), Input::Led(sq("c3"))]);
    assert_eq!(emu.read_shown(&nat), LcdCommand::NoMove);
}

#[test]
fn the_display_is_followed() {
    let mut emu = idle();
    emu.init();
    emu.clear_journal();
    assert_eq!(emu.follow(LcdCommand::NoMove), Some(Ok(None)));
    assert_eq!(emu.follow(LcdCommand::BadMate), Some(Err(EmuError::UnreadableMate)));
    assert_eq!(emu.follow(LcdCommand::BadPromotion), Some(Err(EmuError::UnknownPromotionChar)));
    assert_eq!(emu.follow(LcdCommand::Unsettled), None);
    assert_eq!(emu.follow(LcdCommand::Other), None);
    assert!(emu.journal().is_empty());
    assert_eq!(emu.follow(LcdCommand::Play), None);
    assert_eq!(
        emu.journal().as_slice(),
        &[Input::Wait, Input::Key(MM2Button::ENT), Input::Wait]
    );
    emu.clear_journal();
    assert_eq!(emu.follow(LcdCommand::Move(mv("e2e5"))), Some(Err(EmuError::IllegalMove)));
    assert!(emu.journal().is_empty());
    match emu.follow(LcdCommand::Move(mv("e2e4"))) {
        Some(Ok(Some(reply))) => assert_eq!(reply.best_move, mv("e2e4")),
        other => panic!("no move: {:?}", other),
    }
    assert_eq!(squares(&emu), vec![sq("e2"), sq("e4")]);
    assert_eq!(emu.cur_board, after(Position::startpos(), &["e2e4"]));
}

#[test]
fn set_fen_puts_the_men_down_file_by_file() {
    let mut emu = idle();
    emu.set_fen("4k3/8/8/8/8/8/PP6/4K3 b - - 0 1");
    let p = Position::from_fen("4k3/8/8/8/8/8/PP6/4K3 b - - 0 1").unwrap();
    assert_eq!(emu.cur_board, p);
    assert!(sensors_show_the_mirror(&emu));
    assert_eq!(emu.system.sensors(), [0x10, 0x03, 0, 0, 0, 0, 0, 0x10]);
    assert_eq!(squares(&emu), vec![sq("a2"), sq("b2"), sq("e1"), sq("e8")]);
    assert_eq!(
        keys(&emu),
        vec![
            MM2Button::POS,
            MM2Button::ENT,
            MM2Button::A1Pawn,
            MM2Button::F6King,
            MM2Button::F6King,
            MM2Button::F6King,
            MM2Button::CL,
            MM2Button::POS,
            MM2Button::LeftBlack9,
            MM2Button::CL,
        ]
    );
    assert_eq!(emu.journal()[0], Input::Reset);
    assert!(no_key_is_down(&emu));
}

#[test]
fn set_fen_falls_back_to_the_start() {
    let mut emu = idle();
    emu.cur_board = after(Position::startpos(), &["e2e4"]);
    emu.set_fen("no position at all");
    assert_eq!(emu.cur_board, Position::startpos());
    assert!(sensors_show_the_mirror(&emu));
    assert_eq!(squares(&emu).len(), 32);
    assert_eq!(keys(&emu).first(), Some(&MM2Button::POS));
    assert_eq!(keys(&emu).last(), Some(&MM2Button::CL));
}

#[test]
fn startpos_is_set_the_short_way() {
    let mut emu = idle();
    assert_eq!(emu.set_difficulty(Some(3)), Ok(()));
    emu.cur_board = after(Position::startpos(), &["e2e4"]);
    emu.clear_journal();
    emu.set_fen("startpos");
    assert_eq!(emu.cur_board, Position::startpos());
    assert_eq!(emu.system.sensors(), [0, 0, 0xff, 0xff, 0xff, 0xff, 0, 0]);
    assert!(squares(&emu).is_empty());
    assert_eq!(keys(&emu), vec![MM2Button::LEV, MM2Button::C3Bishop, MM2Button::ENT]);
    assert_eq!(emu.journal()[0], Input::Reset);
}

#[test]
fn forced_moves_are_dictated() {
    let mut emu = idle();
    emu.force_moves(vec![mv("e2e4"), mv("e7e5"), mv("g1f3")]);
    assert_eq!(emu.cur_board, after(Position::startpos(), &["e2e4", "e7e5", "g1f3"]));
    assert!(emu.last_move_forced());
    assert_eq!(keys(&emu), vec![MM2Button::LEV, MM2Button::MEM, MM2Button::ENT]);
    assert_eq!(
        squares(&emu),
        vec![sq("e2"), sq("e4"), sq("e7"), sq("e5"), sq("g1"), sq("f3")]
    );
    let mut other = idle();
    assert_eq!(other.try_force_moves(vec![mv("e2e4"), mv("e2e4")]), Err(EmuError::IllegalMove));
    assert!(other.journal().is_empty());
    assert!(!other.last_move_forced());
    assert_eq!(other.cur_board, Position::startpos());
}

#[test]
fn position_startpos_without_moves() {
    let mut emu = idle();
    emu.cur_board = after(Position::startpos(), &["d2d4"]);
    emu.set_position(true, None, vec![]);
    assert_eq!(emu.cur_board, Position::startpos());
    assert_eq!(emu.system.sensors(), [0, 0, 0xff, 0xff, 0xff, 0xff, 0, 0]);
    assert_eq!(keys(&emu), vec![MM2Button::LEV, MM2Button::A1Pawn, MM2Button::ENT]);
    assert!(!emu.last_move_forced());
}

#[test]
fn position_startpos_with_one_move() {
    let mut emu = idle();
    emu.set_position(true, None, vec![mv("e2e4")]);
    assert_eq!(emu.cur_board, after(Position::startpos(), &["e2e4"]));
    assert_eq!(emu.system.sensors(), [0, 0x10, 0xff, 0xef, 0xff, 0xff, 0, 0]);
    assert_eq!(squares(&emu), vec![sq("e2"), sq("e4")]);
    assert!(!emu.last_move_forced());
}

#[test]
fn position_one_move_on_is_played_alone() {
    let mut emu = idle();
    emu.cur_board = after(Position::startpos(), &["e2e4", "e7e5"]);
    emu.set_position(true, None, vec![mv("e2e4"), mv("e7e5"), mv("g1f3")]);
    assert_eq!(emu.cur_board, after(Position::startpos(), &["e2e4", "e7e5", "g1f3"]));
    assert_eq!(squares(&emu), vec![sq("g1"), sq("f3")]);
    assert!(keys(&emu).is_empty());
    assert!(!emu.last_move_forced());
}

#[test]
fn position_elsewhere_is_set_and_dictated() {
    let mut emu = idle();
    emu.set_position(true, None, vec![mv("e2e4"), mv("e7e5"), mv("g1f3")]);
    assert_eq!(emu.cur_board, after(Position::startpos(), &["e2e4", "e7e5", "g1f3"]));
    assert!(emu.last_move_forced());
    assert_eq!(
        keys(&emu),
        vec![
            MM2Button::LEV,
            MM2Button::A1Pawn,
            MM2Button::ENT,
            MM2Button::LEV,
            MM2Button::MEM,
            MM2Button::ENT
        ]
    );
    assert_eq!(emu.system.sensors(), [0x40, 0x10, 0xff ^ 0x20, 0xef, 0xef, 0xff, 0x10, 0]);
}

#[test]
fn position_from_a_text() {
    let text = "4k3/8/8/8/8/8/4P3/4K3 w - - 0 1";
    let base = Position::from_fen(text).unwrap();
    let mut emu = idle();
    emu.set_position(false, Some(text.to_string()), vec![mv("e2e4"), mv("e8d8")]);
    assert_eq!(emu.cur_board, after(base, &["e2e4", "e8d8"]));
    assert!(sensors_show_the_mirror(&emu));
    assert!(emu.last_move_forced());
    let mut other = idle();
    assert_eq!(
        other.try_set_position(false, Some(text.to_string()), vec![mv("e2e5")]),
        Err(EmuError::IllegalMove)
    );
    assert!(other.journal().is_empty());
    assert_eq!(other.try_set_position(false, None, vec![mv("e2e4")]), Ok(()));
    assert_eq!(other.cur_board, after(Position::startpos(), &["e2e4"]));
}

#[test]
fn a_text_set_and_a_move_made_read_back_as_the_move_applied() {
    for (text, m) in [
        ("4k3/8/8/8/8/8/4P3/4K3 w - - 0 1", "e2e4"),
        ("4k3/4p3/8/8/8/8/8/4K3 b - - 0 1", "e7e5"),
        ("r3k3/8/8/8/8/8/8/R3K3 w Qq - 0 1", "a1a8"),
    ] {
        let mut emu = idle();
        emu.set_fen(text);
        emu.play_move(mv(m));
        assert_eq!(emu.cur_board, after(Position::from_fen(text).unwrap(), &[m]));
        assert!(sensors_show_the_mirror(&emu));
    }
}

#[test]
fn no_move_is_no_answer() {
    let mut emu = showing("NAT ", "a1", "a1");
    emu.init();
    emu.clear_journal();
    assert_eq!(emu.gen_move(), Ok(None));
    let nat = [seg('N'), seg('A'), seg('T'), seg(' ')];
    assert_eq!(emu.journal().last(), Some(&Input::Shown(nat)));
    assert!(no_key_is_down(&emu));
    assert_eq!(emu.system.sensors(), [0u8; 8]);
    assert_eq!(emu.cur_board, Position::startpos());
    assert_eq!(keys(&emu), vec![MM2Button::ENT]);
    assert!(squares(&emu).is_empty());
}

#[test]
fn patience_runs_out_on_a_silent_display() {
    let mut emu = showing("    ", "a1", "a1");
    emu.init();
    emu.set_patience(3);
    assert_eq!(emu.patience(), 3);
    emu.clear_journal();
    assert_eq!(emu.gen_move(), Err(EmuError::NoAnswer));
    assert_eq!(keys(&emu), vec![MM2Button::ENT, MM2Button::ENT, MM2Button::ENT]);
    assert_eq!(emu.journal().len(), 3 * (3 + 2 + 1));
    assert_eq!(emu.cur_board, Position::startpos());
    emu.set_patience(0);
    emu.clear_journal();
    assert_eq!(emu.gen_move(), Err(EmuError::NoAnswer));
    assert!(emu.journal().is_empty());
}

#[test]
fn patience_runs_out_on_leds_that_stay() {
    let mut emu = showing(" N 1", "a1", "a1");
    emu.init();
    emu.cur_board = Position::from_fen("6k1/5ppp/8/8/8/8/8/R3K3 w - - 0 1").unwrap();
    emu.set_patience(2);
    emu.clear_journal();
    let before = emu.cur_board;
    assert_eq!(emu.gen_move(), Err(EmuError::NoAnswer));
    assert_eq!(squares(&emu), vec![sq("a1")]);
    assert_eq!(emu.cur_board, before);
    assert_eq!(emu.journal().len(), (2 + 1) + 1 + 1 + 3 + 1 + 2 * (1 + 1));
    assert_eq!(emu.journal().last(), Some(&Input::Led(sq("a1"))));
}

#[test]
fn play_is_answered_with_the_ent_key() {
    let mut emu = showing("PLAY", "a1", "a1");
    emu.init();
    emu.cur_board = Position::from_fen("6k1/5ppp/8/8/8/8/8/R3K3 w - - 0 1").unwrap();
    emu.set_patience(2);
    emu.clear_journal();
    assert_eq!(emu.gen_move(), Err(EmuError::NoAnswer));
    assert_eq!(keys(&emu), vec![MM2Button::ENT, MM2Button::ENT]);
    assert_eq!(emu.journal().len(), 2 * (2 + 1 + 3));
}

#[test]
fn a_shown_move_is_played_and_asked_about() {
    let mut emu = showing("E2E4", "a1", "a1");
    emu.init();
    emu.clear_journal();
    let reply = emu.gen_move().unwrap().unwrap();
    assert_eq!(
        reply,
        Reply {
            best_move: mv("e2e4"),
            ponder: Some(mv("e2e4")),
            detail: Detail::Search { cp: None, depth: Some(0) }
        }
    );
    assert_eq!(emu.cur_board, after(Position::startpos(), &["e2e4"]));
    assert_eq!(squares(&emu), vec![sq("e2"), sq("e4")]);
    assert_eq!(
        keys(&emu),
        vec![
            MM2Button::ENT,
            MM2Button::INFO,
            MM2Button::A1Pawn,
            MM2Button::C3Bishop,
            MM2Button::CL
        ]
    );
    assert!(!emu.last_move_forced());
}

#[test]
fn a_reply_follows_dictated_moves() {
    let mut emu = showing("b8c6", "a1", "a1");
    emu.set_position(true, None, vec![mv("e2e4"), mv("e7e5"), mv("g1f3")]);
    let there = after(Position::startpos(), &["e2e4", "e7e5", "g1f3"]);
    assert_eq!(emu.cur_board, there);
    emu.clear_journal();
    let reply = emu.gen_move().unwrap().unwrap();
    assert!(there.legal(reply.best_move));
    assert_eq!(reply.best_move, mv("b8c6"));
    assert_eq!(emu.cur_board, after(there, &["b8c6"]));
    assert_eq!(keys(&emu)[0], MM2Button::ENT);
    assert!(!emu.last_move_forced());
}

#[test]
fn a_shown_move_that_is_illegal_is_refused() {
    let mut emu = showing("E2E5", "a1", "a1");
    emu.init();
    emu.clear_journal();
    assert_eq!(emu.gen_move(), Err(EmuError::IllegalMove));
    assert_eq!(emu.cur_board, Position::startpos());
    assert!(squares(&emu).is_empty());
}

#[test]
fn a_mate_is_followed_by_the_leds() {
    let mut emu = showing(" N 1", "a1", "a8");
    emu.init();
    emu.cur_board = Position::from_fen("6k1/5ppp/8/8/8/8/8/R3K3 w - - 0 1").unwrap();
    emu.clear_journal();
    let before = emu.cur_board;
    let reply = emu.gen_move().unwrap().unwrap();
    assert_eq!(reply, Reply { best_move: mv("a1a8"), ponder: None, detail: Detail::Mate(1) });
    assert_eq!(emu.cur_board, after(before, &["a1a8"]));
    assert_eq!(squares(&emu), vec![sq("a1"), sq("a8")]);
    assert!(keys(&emu).is_empty());
}

#[test]
fn a_mate_shown_backwards_is_turned_round() {
    let mut emu = showing(" N 1", "a8", "a1");
    emu.init();
    emu.cur_board = Position::from_fen("6k1/5ppp/8/8/8/8/8/R3K3 w - - 0 1").unwrap();
    emu.clear_journal();
    let reply = emu.gen_move().unwrap().unwrap();
    assert_eq!(reply.best_move, mv("a1a8"));
    assert_eq!(squares(&emu), vec![sq("a8"), sq("a1")]);
}

#[test]
fn a_mate_by_capture_lifts_the_taken_man() {
    let mut emu = showing(" N 1", "a8", "a1");
    emu.init();
    emu.cur_board = Position::from_fen("r5k1/5ppp/8/8/8/8/8/R3K3 w - - 0 1").unwrap();
    emu.clear_journal();
    let before = emu.cur_board;
    let reply = emu.gen_move().unwrap().unwrap();
    assert_eq!(reply.best_move, mv("a1a8"));
    assert_eq!(reply.detail, Detail::Mate(1));
    assert_eq!(squares(&emu), vec![sq("a8"), sq("a1"), sq("a8")]);
    assert_eq!(emu.cur_board, after(before, &["a1a8"]));
}

#[test]
fn a_mate_without_a_number_is_an_error() {
    let mut emu = showing(" N  ", "a1", "a8");
    emu.init();
    assert_eq!(emu.gen_move(), Err(EmuError::UnreadableMate));
}

#[test]
fn a_mate_that_is_no_move_is_refused() {
    let mut emu = showing(" N 2", "a1", "a8");
    emu.init();
    emu.clear_journal();
    assert_eq!(emu.gen_move(), Err(EmuError::IllegalMove));
    assert_eq!(emu.cur_board, Position::startpos());
    assert_eq!(squares(&emu), vec![sq("a1"), sq("a8")]);
}

#[test]
fn a_promotion_prompt_is_answered() {
    let mut emu = showing("Pr D", "a7", "a8");
    emu.init();
    emu.cur_board = Position::from_fen("8/P6k/8/8/8/8/8/K7 w - - 0 1").unwrap();
    emu.clear_journal();
    let before = emu.cur_board;
    let reply = emu.gen_move().unwrap().unwrap();
    assert_eq!(reply, Reply { best_move: mv("a7a8q"), ponder: None, detail: Detail::Promotion });
    assert_eq!(squares(&emu), vec![sq("a7"), sq("a8")]);
    assert_eq!(keys(&emu), vec![MM2Button::E5Queen]);
    assert_eq!(emu.cur_board, before);
}

#[test]
fn an_unknown_promotion_is_an_error() {
    let mut emu = showing("Pr 8", "a7", "a8");
    emu.init();
    emu.clear_journal();
    assert_eq!(emu.gen_move(), Err(EmuError::UnknownPromotionChar));
    assert!(squares(&emu).is_empty());
}
