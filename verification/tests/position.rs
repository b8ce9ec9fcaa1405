use mephisto_emu::fen::{count_bits, has_few_mover_men, has_mover_king, scan_text, Stage};
use mephisto_emu::position::{Color, Move, Piece, Position};

const START: &str = "rnbqkbnr/pppppppp/8/8/8/8/PPPPPPPP/RNBQKBNR w KQkq - 0 1";

fn sq(name: &str) -> u8 {
    let b = name.as_bytes();
    (b[1] - b'1') * 8 + (b[0] - b'a')
}

fn mv(text: &str) -> Move {
    let promotion = match text.as_bytes().get(4) {
        Some(b'q') => Some(Piece::Queen),
        Some(b'r') => Some(Piece::Rook),
        Some(b'b') => Some(Piece::Bishop),
        Some(b'n') => Some(Piece::Knight),
        _ => None,
    };
    Move::new(sq(&text[0..2]), sq(&text[2..4]), promotion)
}

fn play(p: Position, moves: &[&str]) -> Position {
    let mut p = p;
    for m in moves {
        assert!(p.legal(mv(m)), "{} should be legal in {}", m, p.to_fen());
        p = p.make_move(mv(m));
    }
    p
}

#[test]
fn start_position_reads_as_written() {
    assert_eq!(Position::from_fen(START), Some(Position::startpos()));
    assert_eq!(Position::startpos().to_fen(), START);
}

#[test]
fn start_position_has_its_men() {
    let p = Position::startpos();
    assert_eq!(p.man_on(sq("e1")), Some((Piece::King, Color::White)));
    assert_eq!(p.man_on(sq("d8")), Some((Piece::Queen, Color::Black)));
    assert_eq!(p.man_on(sq("a2")), Some((Piece::Pawn, Color::White)));
    assert_eq!(p.man_on(sq("e4")), None);
    assert_eq!(p.piece_on(sq("g8")), Some(Piece::Knight));
    assert_eq!(p.color_on(sq("g8")), Some(Color::Black));
    assert_eq!(p.side_to_move(), Color::White);
}

#[test]
fn bad_text_is_no_position() {
    assert_eq!(Position::from_fen("not a position"), None);
    assert_eq!(Position::from_fen(""), None);
    assert_eq!(Position::from_fen("8/8/8/8/8/8/8/8 w - - 0 1"), None);
    assert_eq!(Position::from_fen("4k3/8/8/8/8/8/8/8 w - - 0 1"), None);
    assert_eq!(
        Position::from_fen("4k3/8/8/8/8/8/8/4K3 b - -"),
        Position::from_fen("4k3/8/8/8/8/8/8/4K3 b - - 0 1")
    );
    assert_eq!(Position::from_fen("4k3/8/8/8/8/8/8/4K3 x - - 0 1"), None);
    assert_eq!(Position::from_fen("4k3/8/8/8/8/8/8/4K3"), None);
    assert_eq!(Position::from_fen("K7p/8/8/8/8/8/8/7k w - - 0 1"), None);
    assert_eq!(Position::from_fen("4k3/8/8/8/8/8/8/4Kx2 w - - 0 1"), None);
    assert_eq!(Position::from_fen("kK6/8/8/8/8/8/8/8 w - - 0 1"), None);
}

#[test]
fn opening_moves_are_judged() {
    let p = Position::startpos();
    assert!(p.legal(mv("e2e4")));
    assert!(p.legal(mv("g1f3")));
    assert!(!p.legal(mv("e2e5")));
    assert!(!p.legal(mv("e7e5")));
    assert!(!p.legal(Move::new(64, 3, None)));
    assert_eq!(p.try_move(mv("e2e5")), None);
}

#[test]
fn a_move_changes_the_text() {
    let p = play(Position::startpos(), &["e2e4"]);
    assert_eq!(p.to_fen(), "rnbqkbnr/pppppppp/8/8/4P3/8/PPPP1PPP/RNBQKBNR b KQkq - 0 1");
    assert_eq!(Position::from_fen(&p.to_fen()), Some(p));
}

#[test]
fn capture_in_passing_survives_the_text() {
    let p = play(Position::startpos(), &["e2e4", "a7a6", "e4e5", "d7d5"]);
    assert_eq!(p.en_passant, Some(sq("d5")));
    assert_eq!(p.to_fen(), "rnbqkbnr/1pp1pppp/p7/3pP3/8/8/PPPP1PPP/RNBQKBNR w KQkq d6 0 1");
    assert_eq!(Position::from_fen(&p.to_fen()), Some(p));
    assert!(p.legal(mv("e5d6")));
    let q = p.make_move(mv("e5d6"));
    assert_eq!(q.man_on(sq("d5")), None);
    assert_eq!(q.man_on(sq("d6")), Some((Piece::Pawn, Color::White)));
}

#[test]
fn capture_in_passing_by_black_survives_the_text() {
    let p = play(Position::startpos(), &["a2a3", "d7d5", "a3a4", "d5d4", "e2e4"]);
    assert_eq!(p.en_passant, Some(sq("e4")));
    assert_eq!(Position::from_fen(&p.to_fen()), Some(p));
    assert!(p.legal(mv("d4e3")));
}

#[test]
fn castling_moves_the_rook() {
    let p = play(Position::startpos(), &["e2e4", "e7e5", "g1f3", "b8c6", "f1c4", "f8c5"]);
    assert!(p.legal(mv("e1g1")));
    let q = p.make_move(mv("e1g1"));
    assert_eq!(q.man_on(sq("g1")), Some((Piece::King, Color::White)));
    assert_eq!(q.man_on(sq("f1")), Some((Piece::Rook, Color::White)));
    assert_eq!(q.man_on(sq("h1")), None);
    assert_eq!(q.castling, [0, 3]);
    assert_eq!(Position::from_fen(&q.to_fen()), Some(q));
}

#[test]
fn promotion_puts_the_chosen_piece() {
    let p = Position::from_fen("8/P6k/8/8/8/8/8/K7 w - - 0 1").unwrap();
    assert!(p.legal(mv("a7a8q")));
    assert!(!p.legal(mv("a7a8")));
    let q = p.make_move(mv("a7a8q"));
    assert_eq!(q.man_on(sq("a8")), Some((Piece::Queen, Color::White)));
    assert_eq!(q.man_on(sq("a7")), None);
}

#[test]
fn moves_in_turn() {
    let p = Position::startpos();
    let line = vec![mv("e2e4"), mv("e7e5"), mv("g1f3")];
    let q = p.try_moves(&line).unwrap();
    assert_eq!(q, play(p, &["e2e4", "e7e5", "g1f3"]));
    assert_eq!(p.try_moves(&vec![mv("e2e4"), mv("e2e4")]), None);
    assert_eq!(p.try_moves(&vec![]), Some(p));
}

#[test]
fn a_position_without_the_mover_s_king_allows_nothing() {
    let mut p = Position::startpos();
    p.pieces[5] = 0x1000_0000_0000_0000;
    assert!(!p.legal(mv("e2e4")));
    assert_eq!(p.try_move(mv("e2e4")), None);
}

#[test]
fn positions_that_are_none_allow_nothing() {
    let start = Position::startpos();
    let mut lone_king = start;
    lone_king.pieces = [0, 0, 0, 0, 0, 0x10];
    lone_king.colors = [0x10, 0];
    lone_king.castling = [0, 0];
    let mut two_kings = start;
    two_kings.pieces[5] |= 0x0010_0000;
    two_kings.colors[0] |= 0x0010_0000;
    let mut touching = start;
    touching.pieces = [0, 0, 0, 0, 0, 0x1010];
    touching.colors = [0x10, 0x1000];
    touching.castling = [0, 0];
    let mut overlapping = start;
    overlapping.pieces[0] |= 0x10;
    let mut empty = start;
    empty.pieces = [0; 6];
    empty.colors = [0; 2];
    let mut wild = start;
    wild.side = 7;
    wild.castling = [0xff, 0xf0];
    wild.en_passant = Some(200);
    for p in [lone_king, two_kings, touching, overlapping, empty] {
        assert!(!p.legal(mv("e2e4")), "{}", p.to_fen());
        assert!(!p.legal(mv("e1e2")), "{}", p.to_fen());
        assert!(!p.legal(mv("e7e5")), "{}", p.to_fen());
        assert_eq!(p.try_move(mv("e1d1")), None);
        assert_eq!(Position::from_fen(&p.to_fen()), None, "{}", p.to_fen());
    }
    assert_eq!(lone_king.to_fen(), "8/8/8/8/8/8/8/4K3 w - - 0 1");
    assert_eq!(empty.to_fen(), "8/8/8/8/8/8/8/8 w KQkq - 0 1");
    assert_eq!(wild.to_fen(), "rnbqkbnr/pppppppp/8/8/8/8/PPPPPPPP/RNBQKBNR b KQ a3 0 1");
    assert!(wild.legal(mv("e7e5")));
    assert!(!wild.legal(mv("e2e4")));
    assert_eq!(wild.make_move(mv("e7e5")).side, 0);
}

#[test]
fn equality_is_by_parts() {
    let p = Position::startpos();
    let mut q = p;
    assert!(p.equals(&q));
    q.castling[1] = 1;
    assert!(!p.equals(&q));
}

#[test]
fn bits_are_counted() {
    assert_eq!(count_bits(0), 0);
    assert_eq!(count_bits(1), 1);
    assert_eq!(count_bits(0x8000_0000_0000_0000), 1);
    assert_eq!(count_bits(0x0000_0000_0000_ffff), 16);
    assert_eq!(count_bits(0x0000_0000_ffff_ff01), 25);
    assert_eq!(count_bits(u64::MAX), 64);
}

#[test]
fn a_text_is_scanned_for_its_men() {
    let s = scan_text("rnbqkbnr/pppppppp/8/8/8/8/PPPPPPPP/RNBQKBNR b KQkq - 0 1");
    assert_eq!(s.stage, Stage::Rest);
    assert_eq!(s.white_men, 0x0000_0000_0000_ffff);
    assert_eq!(s.black_men, 0xffff_0000_0000_0000);
    assert_eq!(s.white_king, 0x10);
    assert_eq!(s.black_king, 0x1000_0000_0000_0000);
    assert!(s.black_to_move);
    let t = scan_text("k7/8/8/8/NNNNNNNN/NNNNNNNN/NNNNNNNN/K7 w - - 0 1");
    assert_eq!(t.stage, Stage::Rest);
    assert_eq!(t.white_men, 0x0000_0000_ffff_ff01);
    assert_eq!(t.black_men, 0x0100_0000_0000_0000);
    assert!(!t.black_to_move);
}

#[test]
fn a_side_with_more_than_sixteen_men_allows_nothing() {
    let crowded = "k7/8/8/8/NNNNNNNN/NNNNNNNN/NNNNNNNN/K7 w - - 0 1";
    assert!(has_mover_king(crowded));
    assert!(!has_few_mover_men(crowded));
    let p = Position::from_fen(crowded).unwrap();
    assert_eq!(p.to_fen(), crowded);
    assert!(!p.legal(mv("a1a2")));
    assert!(!p.legal(mv("a4b6")));
    assert_eq!(p.try_move(mv("a1b1")), None);
    assert_eq!(p.try_moves(&vec![mv("a1b1")]), None);
    assert_eq!(p.find_move_between(sq("a1"), sq("b1")), None);

    let seventeen = "k7/8/8/8/8/NNNNNNNN/NNNNNNNN/K7 w - - 0 1";
    assert!(!has_few_mover_men(seventeen));
    assert!(!Position::from_fen(seventeen).unwrap().legal(mv("a1b1")));

    let sixteen = "k7/8/8/8/8/NNNNNNNN/NNNNNNN1/K7 w - - 0 1";
    assert!(has_few_mover_men(sixteen));
    let q = Position::from_fen(sixteen).unwrap();
    assert!(q.legal(mv("a1b1")));
    assert!(q.legal(mv("a3b5")));
    assert!(!q.legal(mv("a1a2")));

    let others = "k7/8/8/8/NNNNNNNN/NNNNNNNN/NNNNNNNN/K7 b - - 0 1";
    assert!(has_few_mover_men(others));
    let r = Position::from_fen(others).unwrap();
    assert!(r.legal(mv("a8a7")));
    assert!(r.legal(mv("a8b8")));
    assert!(!r.legal(mv("a8a6")));
    assert!(!r.legal(mv("a4b6")));
    assert!(has_few_mover_men("rnbqkbnr/pppppppp/8/8/8/8/PPPPPPPP/RNBQKBNR w KQkq - 0 1"));
    assert!(!has_few_mover_men("rnbqkbnr/pppppppp/8/8/8/8/PPPPPPPP/RNBQKBNR"));
}
