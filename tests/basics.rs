use lurri::game::Game;
use lurri::geometry::Direction::{Down, Left, Right, Up};
use lurri::geometry::{Position, PositionDelta};
use lurri::moves::{BoardValue, Move, MoveType, ValuedMove};
use lurri::pieces::Color::{Black, White};
use lurri::pieces::PieceType::{Bishop, King, Knight, Pawn, Queen, Rook};
use lurri::pieces::{PieceType, Square};

#[test]
fn test_helper_functions() {
    let mut game = Game::new();
    let pos = Position::safe_from_chars('e', '2');
    assert!(!game.is_square(Position::new(0, 0)));
    assert!(game.is_square(pos));
    assert_eq!(game.get_square(pos), Square::white_pawn());
    assert!(game.make_move(&Move::safe_from_string("e2e4")).is_ok());
    assert!(game.make_move(&Move::safe_from_string("e2d4")).is_err());
}

#[test]
fn test_game_1() {
    let moves = [
        "e2e4", "e7e5", "g1f3", "b8c6", "f1c4", "f8c5", "c2c3", "c5b6", "d2d4", "d8e7", "O-O",
        "g8f6", "d4d5", "c6b8", "c4d3", "d7d6", "b1d2", "a7a6", "d2c4", "b6a7", "a2a4", "O-O",
        "b2b4", "f6e8", "d1c2", "g7g6", "c1h6", "e8g7", "c4e3", "f7f6", "a1e1", "f8f7", "g1h1",
        "b8d7", "g2g4", "d7f8", "f1g1", "a7e3", "f2e3", "c8d7", "g1g3", "c7c6", "d3c4", "c6d5",
        "c4d5", "d7e6", "e1g1", "a8c8", "f3h4", "e6d5", "e4d5", "c8c7", "h4f5", "g6f5", "g4f5",
        "e7e8", "c2g2", "e8d7", "g3g7", "f7g7", "h6g7", "d7g7", "g2c2", "f8g6", "f5g6", "h7h6",
        "c2f5", "g7f8", "c3c4", "g8g7", "g1c1", "b7b6", "e3e4", "f8e7", "f5f2", "c7b7", "h2h4",
        "a6a5", "h4h5", "a5b4", "c1b1", "b4b3", "b1b3", "e7d7", "f2f5", "d7e7", "f5e6", "e7c7",
        "e6f7", "c7f7", "g6f7", "b7a7", "b3b6", "a7a4", "b6d6", "a4c4", "d6f6", "g7f8", "d5d6",
        "c4e4", "d6d7", "e4d4", "f6h6", "f8f7", "h6h8", "d4d5", "d7d8q", "d5d8", "h8d8",
    ];
    let mut game = Game::new();
    for m in moves.iter() {
        assert!(game.make_move(&Move::safe_from_string(m)).is_ok(), "{}", m);
    }
}

#[test]
fn color_not() {
    assert_eq!(Black, !White);
    assert_eq!(White, !Black);
}

#[test]
fn piecetype_from_char() {
    assert_eq!(PieceType::safe_from_char('r'), Rook);
    assert_eq!(PieceType::safe_from_char('n'), Knight);
    assert_eq!(PieceType::safe_from_char('b'), Bishop);
    assert_eq!(PieceType::safe_from_char('q'), Queen);
    assert_eq!(PieceType::safe_from_char('k'), King);
    assert_eq!(PieceType::safe_from_char('p'), Pawn);
    assert!(PieceType::from_char('j').is_err());
}

#[test]
fn helper_square_functions() {
    assert!(Square::white_king().has_white());
    assert!(Square::white_queen().has_white());
    assert!(Square::white_rook().has_white());
    assert!(Square::white_bishop().has_white());
    assert!(Square::white_knight().has_white());
    assert!(Square::white_pawn().has_white());

    assert!(Square::black_king().has_black());
    assert!(Square::black_queen().has_black());
    assert!(Square::black_rook().has_black());
    assert!(Square::black_bishop().has_black());
    assert!(Square::black_knight().has_black());
    assert!(Square::black_pawn().has_black());

    assert!(!Square::empty().has_white());
    assert!(!Square::empty().has_black());

    assert!(Square::empty().has_none());
    assert!(!Square::black_pawn().has_none());
    assert!(!Square::white_pawn().has_none());
}

#[test]
fn move_from_string() {
    assert_eq!(
        Move::safe_from_string("a1a1"),
        Move::new(Position::new(2, 2), Position::new(2, 2), MoveType::Normal)
    );
    assert!(Move::from_string("z3a4").is_err());
    assert!(Move::from_string("e9a2").is_err());
    assert!(Move::from_string("aaaa").is_err());
    assert!(Move::from_string("aaa").is_err());
    assert!(Move::from_string("a").is_err());
}

#[test]
fn test_cmp() {
    assert!(BoardValue::WonWhite > BoardValue::Value(200));
    assert!(BoardValue::WonWhite > BoardValue::WonBlack);
    assert!(BoardValue::WonBlack < BoardValue::Value(-100));
}

#[test]
fn test_valuedmove_partial_ord() {
    let mut first = ValuedMove::invalid();
    let mut second = ValuedMove::invalid();
    assert_eq!(first, second);
    first.value = BoardValue::WonWhite;
    second.value = BoardValue::Value(10);
    assert!(first > second);
    first.value = BoardValue::Value(1);
    second.value = BoardValue::WonBlack;
    assert!(first > second);
}

#[test]
fn test_add_position_delta() {
    assert_eq!(
        Position::safe_from_chars('a', '1') + PositionDelta::from_dirs(&[Up, Up]),
        Position::safe_from_chars('a', '3')
    );

    assert_eq!(
        Position::safe_from_chars('a', '1') + PositionDelta::from_dir(Right),
        Position::safe_from_chars('b', '1')
    );
}

#[test]
fn test_positions() {
    assert_eq!(Position::all().count(), 64);
    assert_eq!(
        Position::safe_from_chars('h', '8'),
        Position::all().last().unwrap()
    );
    assert_eq!(
        Position::safe_from_chars('a', '1'),
        Position::all().nth(0).unwrap()
    );
    assert_eq!(
        Position::safe_from_chars('e', '1'),
        Position::all().nth(4).unwrap()
    );
    assert_eq!(
        Position::safe_from_chars('a', '2'),
        Position::all().nth(8).unwrap()
    );
    assert_eq!(
        Position::safe_from_chars('a', '5'),
        Position::all().nth(32).unwrap()
    );
    assert_eq!(
        Position::safe_from_chars('h', '8'),
        Position::all().nth(63).unwrap()
    );
}

#[test]
fn position_from_string() {
    assert_eq!(Position { x: 2, y: 2 }, Position::safe_from_chars('a', '1'));
    assert!(Position::from_chars('7', '1').is_err());
}

#[test]
fn move_position() {
    assert_eq!(
        Position::safe_from_chars('e', '2')
            .up()
            .down()
            .left()
            .right(),
        Position::safe_from_chars('e', '2')
    );

    assert_eq!(
        Position::safe_from_chars('e', '2').up(),
        Position::safe_from_chars('e', '3')
    );
    assert_eq!(
        Position::safe_from_chars('e', '2').down(),
        Position::safe_from_chars('e', '1')
    );
    assert_eq!(
        Position::safe_from_chars('e', '2').right(),
        Position::safe_from_chars('f', '2')
    );
    assert_eq!(
        Position::safe_from_chars('e', '2').left(),
        Position::safe_from_chars('d', '2')
    );

    assert_eq!(
        Position::safe_from_chars('e', '2').go(Up),
        Position::safe_from_chars('e', '3')
    );
    assert_eq!(
        Position::safe_from_chars('e', '2').go(Down),
        Position::safe_from_chars('e', '1')
    );
    assert_eq!(
        Position::safe_from_chars('e', '2').go(Right),
        Position::safe_from_chars('f', '2')
    );
    assert_eq!(
        Position::safe_from_chars('e', '2').go(Left),
        Position::safe_from_chars('d', '2')
    );
}

#[test]
fn test_evaluate() {
    let game: Game = Game::new();
    assert_eq!(game.evaluate(), 0);
}
