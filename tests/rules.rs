use lurri::errors::{CastlingSide, MoveError, ParseError};
use lurri::game::Game;
use lurri::geometry::Position;
use lurri::moves::{BoardValue, Move, MoveType};
use lurri::pieces::{Color, Piece, PieceType, Square};
use lurri::search::{get_best_move, get_move};

fn sq(f: char, r: char) -> Position {
    Position::safe_from_chars(f, r)
}

fn mv(s: &str) -> Move {
    Move::safe_from_string(s)
}

fn empty_board() -> Game {
    let mut game = Game::new();
    let mut it = Position::all();
    while let Some(p) = it.next() {
        game.set_square(p, None).unwrap();
    }
    game
}

fn put(game: &mut Game, f: char, r: char, color: Color, t: PieceType) {
    game.set_square(sq(f, r), Some(Piece::new(color, t))).unwrap();
}

/// White king e1 behind a bishop on e2, pinned by a black rook on e8; black king a8.
fn pinned_bishop() -> Game {
    let mut game = empty_board();
    put(&mut game, 'e', '1', Color::White, PieceType::King);
    put(&mut game, 'e', '2', Color::White, PieceType::Bishop);
    put(&mut game, 'e', '8', Color::Black, PieceType::Rook);
    put(&mut game, 'a', '8', Color::Black, PieceType::King);
    game
}

#[test]
fn round_trip_of_move_texts() {
    for s in ["e2e4", "a1h8", "h8a1", "d7d8q", "b2a1n", "c7c8r", "f2f1b", "O-O", "O-O-O"] {
        assert_eq!(Move::safe_from_string(s).to_string(), s);
    }
}

#[test]
fn malformed_move_texts_fail() {
    assert_eq!(Move::from_string(""), Err(ParseError::BadLength));
    assert_eq!(Move::from_string("e2e"), Err(ParseError::BadLength));
    assert_eq!(Move::from_string("e2e4e4"), Err(ParseError::BadLength));
    assert_eq!(Move::from_string("O-O-"), Err(ParseError::BadFile));
    assert_eq!(Move::from_string("i2e4"), Err(ParseError::BadFile));
    assert_eq!(Move::from_string("e2E4"), Err(ParseError::BadFile));
    assert_eq!(Move::from_string("e0e4"), Err(ParseError::BadRank));
    assert_eq!(Move::from_string("e2e9"), Err(ParseError::BadRank));
    assert_eq!(Move::from_string("e7e8k"), Err(ParseError::BadPromotionLetter));
    assert_eq!(Move::from_string("e7e8p"), Err(ParseError::BadPromotionLetter));
    assert_eq!(Move::from_string("e7e8Q"), Err(ParseError::BadPromotionLetter));
    assert_eq!(PieceType::from_char('x'), Err(ParseError::BadPieceLetter));
}

#[test]
fn parsed_squares_and_kinds() {
    let m = mv("d7d8q");
    assert_eq!(m.from, Position::new(5, 8));
    assert_eq!(m.to, Position::new(5, 9));
    assert_eq!(m.tipo, MoveType::Promotion(PieceType::Queen));
    assert_eq!(mv("O-O").tipo, MoveType::ShortCastling);
    assert_eq!(mv("O-O-O").tipo, MoveType::LongCastling);
    let off = Move::new(Position::new(0, 0), Position::new(11, 11), MoveType::Normal);
    assert_eq!(off.to_string(), "EEEE");
}

#[test]
fn initial_position_has_twenty_moves() {
    let game = Game::new();
    assert_eq!(game.get_all_valid_moves().len(), 20);
}

#[test]
fn generation_is_repeatable() {
    let game = Game::new();
    let first: Vec<Move> = game.get_all_valid_moves().iter().map(|v| v.mov).collect();
    let second: Vec<Move> = game.get_all_valid_moves().iter().map(|v| v.mov).collect();
    assert_eq!(first, second);
    assert_eq!(first[0], mv("b1c3"));
    assert_eq!(first[1], mv("b1a3"));
    assert_eq!(first[19], mv("h2h4"));
}

#[test]
fn pinned_piece_has_no_moves() {
    let game = pinned_bishop();
    let moves: Vec<Move> = game.get_all_valid_moves().iter().map(|v| v.mov).collect();
    assert_eq!(moves.len(), 4);
    for m in moves.iter() {
        assert_eq!(m.from, sq('e', '1'));
        let mut aux = game;
        assert!(aux.make_move(m).is_ok());
        aux.turn = !aux.turn;
        assert!(!aux.can_eat_king());
    }
    let mut game = game;
    assert_eq!(game.make_move(&mv("e2d3")), Err(MoveError::SelfCheckAfterMove));
}

#[test]
fn pawn_push_from_start() {
    let mut game = Game::new();
    assert_eq!(game.make_move(&mv("e2e4")), Ok(()));
    assert_eq!(game.get_square(sq('e', '4')), Square::white_pawn());
    assert_eq!(game.get_square(sq('e', '2')), Square::empty());
    assert_eq!(game.turn, Color::Black);
}

#[test]
fn illegal_pawn_move_changes_nothing() {
    let mut game = Game::new();
    let before = game;
    assert_eq!(game.make_move(&mv("e2d4")), Err(MoveError::IllegalPawnMove));
    assert_eq!(game.board, before.board);
    assert_eq!(game.turn, Color::White);
}

#[test]
fn blocked_castling_fails() {
    let mut game = Game::new();
    let before = game;
    assert_eq!(
        game.make_move(&mv("O-O")),
        Err(MoveError::IllegalCastling(CastlingSide::Short))
    );
    assert_eq!(
        game.make_move(&mv("O-O-O")),
        Err(MoveError::IllegalCastling(CastlingSide::Long))
    );
    assert_eq!(game.board, before.board);
    assert_eq!(game.turn, Color::White);
}

#[test]
fn castling_when_the_path_is_clear() {
    let mut game = Game::new();
    game.set_square(sq('f', '1'), None).unwrap();
    game.set_square(sq('g', '1'), None).unwrap();
    assert_eq!(game.make_move(&mv("O-O")), Ok(()));
    assert_eq!(game.get_square(sq('g', '1')), Square::white_king());
    assert_eq!(game.get_square(sq('f', '1')), Square::white_rook());
    assert_eq!(game.get_square(sq('e', '1')), Square::empty());
    assert_eq!(game.get_square(sq('h', '1')), Square::empty());
    assert_eq!(game.turn, Color::Black);

    game.set_square(sq('b', '8'), None).unwrap();
    game.set_square(sq('c', '8'), None).unwrap();
    game.set_square(sq('d', '8'), None).unwrap();
    assert_eq!(game.make_move(&mv("O-O-O")), Ok(()));
    assert_eq!(game.get_square(sq('c', '8')), Square::black_king());
    assert_eq!(game.get_square(sq('d', '8')), Square::black_rook());
    assert_eq!(game.get_square(sq('a', '8')), Square::empty());
    assert_eq!(game.turn, Color::White);
}

#[test]
fn castling_into_check_is_refused_and_changes_nothing() {
    let mut game = empty_board();
    put(&mut game, 'e', '1', Color::White, PieceType::King);
    put(&mut game, 'h', '1', Color::White, PieceType::Rook);
    put(&mut game, 'g', '8', Color::Black, PieceType::Rook);
    put(&mut game, 'a', '8', Color::Black, PieceType::King);
    let before = game;
    assert_eq!(game.make_move(&mv("O-O")), Err(MoveError::SelfCheckAfterMove));
    assert_eq!(game.board, before.board);
    assert_eq!(game.turn, Color::White);
}

#[test]
fn each_refusal_has_its_reason() {
    let mut game = Game::new();
    let off = Move::new(Position::new(0, 0), sq('a', '3'), MoveType::Normal);
    assert_eq!(game.make_move(&off), Err(MoveError::InvalidSquare));
    let off_to = Move::new(sq('a', '2'), Position::new(2, 10), MoveType::Normal);
    assert_eq!(game.make_move(&off_to), Err(MoveError::InvalidSquare));
    assert_eq!(game.make_move(&mv("e3e4")), Err(MoveError::EmptySquareMoved));
    assert_eq!(game.make_move(&mv("e7e5")), Err(MoveError::WrongColorToMove));
    assert_eq!(game.make_move(&mv("e1e3")), Err(MoveError::IllegalKingMove));
    assert_eq!(game.make_move(&mv("e1e2")), Err(MoveError::IllegalKingMove));
    assert_eq!(game.make_move(&mv("d1d3")), Err(MoveError::IllegalQueenMove));
    assert_eq!(game.make_move(&mv("a1a3")), Err(MoveError::IllegalRookMove));
    assert_eq!(game.make_move(&mv("c1e3")), Err(MoveError::IllegalBishopMove));
    assert_eq!(game.make_move(&mv("g1g3")), Err(MoveError::IllegalKnightMove));
    assert_eq!(game.make_move(&mv("e2e5")), Err(MoveError::IllegalPawnMove));
    assert_eq!(game.turn, Color::White);
}

#[test]
fn pawn_on_seventh_rank_must_promote() {
    let mut game = empty_board();
    put(&mut game, 'e', '1', Color::White, PieceType::King);
    put(&mut game, 'a', '7', Color::White, PieceType::Pawn);
    put(&mut game, 'h', '8', Color::Black, PieceType::King);
    assert_eq!(game.make_move(&mv("a7a8")), Err(MoveError::MustPromote));
    assert_eq!(game.make_move(&mv("a7a8n")), Ok(()));
    assert_eq!(game.get_square(sq('a', '8')), Square::white_knight());
    assert_eq!(game.turn, Color::Black);
}

#[test]
fn promotions_are_generated_four_at_a_time() {
    let mut game = empty_board();
    put(&mut game, 'e', '1', Color::White, PieceType::King);
    put(&mut game, 'a', '7', Color::White, PieceType::Pawn);
    put(&mut game, 'b', '8', Color::Black, PieceType::Rook);
    put(&mut game, 'h', '8', Color::Black, PieceType::King);
    let mut moves = Vec::new();
    game.get_valid_moves(sq('a', '7'), &mut moves);
    let texts: Vec<String> = moves.iter().map(|v| v.mov.to_string()).collect();
    assert_eq!(
        texts,
        vec!["a7b8q", "a7b8r", "a7b8b", "a7b8n", "a7a8q", "a7a8r", "a7a8b", "a7a8n"]
    );
}

#[test]
fn attacks_are_seen_backwards() {
    let game = Game::new();
    assert!(game.can_be_eaten_by(sq('e', '3'), Color::White));
    assert!(game.can_be_eaten_by(sq('f', '3'), Color::White));
    assert!(!game.can_be_eaten_by(sq('e', '4'), Color::White));
    assert!(game.can_be_eaten_by(sq('d', '6'), Color::Black));
    assert!(!game.can_be_eaten_by(sq('d', '5'), Color::Black));
    let pinned = pinned_bishop();
    assert!(pinned.can_be_eaten_by(sq('e', '2'), Color::Black));
    assert!(!pinned.can_be_eaten_by(sq('e', '1'), Color::Black));
    assert!(pinned.get_to_by(&Move::new(sq('e', '8'), sq('e', '2'), MoveType::Normal), lurri::geometry::Direction::Down));
    assert!(!pinned.get_to_by(&Move::new(sq('e', '8'), sq('e', '1'), MoveType::Normal), lurri::geometry::Direction::Down));
}

#[test]
fn evaluation_counts_material_and_moves() {
    let mut game = empty_board();
    put(&mut game, 'e', '1', Color::White, PieceType::King);
    put(&mut game, 'e', '8', Color::Black, PieceType::King);
    assert_eq!(game.evaluate(), 0);
    put(&mut game, 'a', '1', Color::White, PieceType::Rook);
    assert_eq!(game.evaluate(), 60);
    put(&mut game, 'h', '8', Color::Black, PieceType::Queen);
    // The queen: -90 of material, and 16 moves (7 down the h-file, 2 along the
    // eighth rank, 7 down the long diagonal to a1).
    assert_eq!(game.evaluate(), 60 - 90 - 16);
}

#[test]
fn depth_one_search_picks_the_first_best_reply() {
    let game = Game::new();
    let moves = game.get_all_valid_moves();
    assert_eq!(moves.len(), 20);
    let mut best = 0;
    let mut best_value = game.evaluate_move(&moves[0].mov);
    for (i, v) in moves.iter().enumerate() {
        let value = game.evaluate_move(&v.mov);
        assert!(value.is_valid());
        if value > best_value {
            best = i;
            best_value = value;
        }
    }
    let chosen = get_best_move(&game, 0, 0);
    assert_eq!(chosen.mov, moves[best].mov);
    assert_eq!(chosen.value, best_value);
    assert_eq!(get_move(&game, 0), moves[best].mov);
}

#[test]
fn side_without_moves_loses() {
    // Black to move, king a8 boxed in by a white queen on b6 and king on c7: stalemate.
    let mut game = empty_board();
    put(&mut game, 'a', '8', Color::Black, PieceType::King);
    put(&mut game, 'b', '6', Color::White, PieceType::Queen);
    put(&mut game, 'c', '7', Color::White, PieceType::King);
    game.turn = Color::Black;
    assert_eq!(game.get_all_valid_moves().len(), 0);
    assert_eq!(get_best_move(&game, 0, 1).value, BoardValue::WonWhite);
}

#[test]
fn evaluate_moves_fills_values() {
    let game = Game::new();
    let mut moves = game.get_all_valid_moves();
    let n = game.evaluate_moves(&mut moves).len();
    assert_eq!(n, 20);
    for v in moves.iter() {
        assert_eq!(v.value, game.evaluate_move(&v.mov));
        assert!(v.value.is_valid());
    }
}

#[test]
fn board_is_rendered_rank_eight_first() {
    let expected = [
        "White Plays\n",
        "    a b c d e f g h  \n",
        "  +-----------------+\n",
        "8 | R N B Q K B N R | 8\n",
        "7 | P P P P P P P P | 7\n",
        "6 | . . . . . . . . | 6\n",
        "5 | . . . . . . . . | 5\n",
        "4 | . . . . . . . . | 4\n",
        "3 | . . . . . . . . | 3\n",
        "2 | p p p p p p p p | 2\n",
        "1 | r n b q k b n r | 1\n",
        "  +-----------------+\n",
        "    a b c d e f g h  \n",
    ]
    .concat();
    assert_eq!(Game::new().render(), expected);
    let mut game = Game::new();
    game.make_move(&mv("e2e4")).unwrap();
    let text = game.render();
    assert!(text.starts_with("Black Plays\n"));
    assert!(text.contains("4 | . . . . p . . . | 4\n"));
    assert!(text.contains("2 | p p p p . p p p | 2\n"));
}

#[test]
fn square_names() {
    assert_eq!(sq('e', '2').to_string(), "e2");
    assert_eq!(Position::new(0, 9).to_string(), "E8");
}

#[test]
fn walks_over_the_board() {
    let mut it = Position::all();
    assert_eq!(it.next(), Some(sq('a', '1')));
    assert_eq!(it.next(), Some(sq('b', '1')));
    assert_eq!(it.nth(5), Some(sq('h', '1')));
    assert_eq!(it.next(), Some(sq('a', '2')));
    assert_eq!(it.count(), 55);
    let mut ray = sq('c', '3').iter_to(lurri::geometry::Direction::UpRight);
    assert_eq!(ray.next(), Some(sq('d', '4')));
    assert_eq!(ray.next(), Some(sq('e', '5')));
    assert_eq!(lurri::geometry::Direction::DownLeft.to_int(), 7);
}

#[test]
fn piece_values_and_signs() {
    assert_eq!(Color::White.get_sign(), 1);
    assert_eq!(Color::Black.get_sign(), -1);
    assert_eq!(Piece::new(Color::Black, PieceType::Queen).get_value(), -9);
    assert_eq!(Piece::new(Color::White, PieceType::Rook).get_value(), 5);
    assert_eq!(PieceType::King.get_value(), 0);
    assert_eq!(Piece::new(Color::Black, PieceType::Knight).to_char(), 'N');
    assert_eq!(Square::empty().to_char(), '.');
}

#[test]
fn promotion_tag_is_judged_by_the_piece_rules() {
    let mut game = Game::new();
    game.set_square(sq('e', '2'), None).unwrap();
    assert_eq!(game.make_move(&mv("g1g3q")), Err(MoveError::IllegalKnightMove));
    assert_eq!(game.make_move(&mv("d2d5q")), Err(MoveError::IllegalPawnMove));
    assert_eq!(game.turn, Color::White);
    assert_eq!(game.make_move(&mv("d2d3q")), Ok(()));
    assert_eq!(game.get_square(sq('d', '3')), Square::white_queen());
    assert_eq!(game.make_move(&mv("g8f6n")), Ok(()));
    assert_eq!(game.get_square(sq('f', '6')), Square::black_knight());
    assert_eq!(game.make_move(&mv("e1e2r")), Ok(()));
    assert_eq!(game.get_square(sq('e', '2')), Square::white_rook());
    assert!(!game.contains_king(Color::White));
}

#[test]
fn generation_from_a_copy_is_the_same() {
    let mut game = Game::new();
    game.make_move(&mv("e2e4")).unwrap();
    let copy = game;
    let a: Vec<Move> = game.get_all_valid_moves().iter().map(|v| v.mov).collect();
    let b: Vec<Move> = copy.get_all_valid_moves().iter().map(|v| v.mov).collect();
    assert_eq!(a.len(), 20);
    assert_eq!(a, b);
}

#[test]
fn played_promotions_keep_the_king_safe() {
    // The knight on c8 checks the white king on a7; the pawn on b7 shields it from the
    // rook on h7, so taking the knight is refused while the rook is there.
    let mut game = empty_board();
    put(&mut game, 'a', '7', Color::White, PieceType::King);
    put(&mut game, 'b', '7', Color::White, PieceType::Pawn);
    put(&mut game, 'h', '7', Color::Black, PieceType::Rook);
    put(&mut game, 'c', '8', Color::Black, PieceType::Knight);
    put(&mut game, 'h', '1', Color::Black, PieceType::King);
    let moves = game.get_all_valid_moves();
    assert!(moves.iter().all(|v| v.mov.from == sq('a', '7')));
    for v in moves.iter() {
        let mut aux = game;
        assert!(aux.make_move(&v.mov).is_ok());
        assert!(!aux.can_eat_king());
    }
    let mut open = game;
    open.set_square(sq('h', '7'), None).unwrap();
    let promotions = open
        .get_all_valid_moves()
        .iter()
        .filter(|v| v.mov.is_promotion())
        .count();
    // Only taking the knight ends the check: four promotions on c8, none on b8.
    assert_eq!(promotions, 4);
    for v in open.get_all_valid_moves().iter() {
        let mut aux = open;
        assert!(aux.make_move(&v.mov).is_ok());
        assert!(!aux.can_eat_king());
    }
}
