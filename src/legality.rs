use vstd::prelude::*;

use crate::attacks::holding;
use crate::errors::{CastlingSide, MoveError};
use crate::game::{
    in_grid, king_of, lemma_has_king_at, lemma_king_from_sound, lemma_king_from_turn, lemma_with_cell,
    on_board, Game,
};
use crate::geometry::{Direction, Position};
use crate::moves::{Move, MoveType};
use crate::pieces::{Color, Piece, PieceType, Square};

verus! {

/// `to` lies at one of the offsets `deltas` from `from`.
pub open spec fn offset_in(from: Position, to: Position, deltas: Seq<(int, int)>) -> bool {
    exists|i: int|
        0 <= i < deltas.len() && to.x - from.x == (#[trigger] deltas[i]).0 && to.y - from.y
            == deltas[i].1
}

/// The grid row on which a color's pawns must promote when they move.
pub open spec fn promotion_row(c: Color) -> int {
    if c == Color::White {
        8
    } else {
        3
    }
}

/// The grid row on which a color's pawns start.
pub open spec fn pawn_start_row(c: Color) -> int {
    if c == Color::White {
        3
    } else {
        8
    }
}

pub open spec fn forward(c: Color) -> Direction {
    if c == Color::White {
        Direction::Up
    } else {
        Direction::Down
    }
}

/// The grid row of a color's back rank.
pub open spec fn home_row(c: Color) -> int {
    if c == Color::White {
        2
    } else {
        9
    }
}

impl Game {
    /// The piece on `m.from` goes to `m.to`, whatever stood there; `m.from` is left empty.
    pub open spec fn moved(self, m: Move) -> Game {
        self.with_cell(m.to, Some(Square { content: self.piece_at(m.from) })).with_cell(
            m.from,
            Some(Square { content: None }),
        )
    }

    /// Plays `m` without checking its geometry and hands the turn over, unless the
    /// mover's king could then be captured.
    pub open spec fn committed(self, m: Move) -> Result<Game, MoveError> {
        let aux = self.moved(m).with_turn(self.turn.opposite());
        if aux.king_capturable() {
            Err(MoveError::SelfCheckAfterMove)
        } else {
            Ok(aux)
        }
    }

    /// `to` is reached from `from` by walking one of `dirs` across empty squares.
    pub open spec fn slides_to(self, from: Position, to: Position, dirs: Seq<Direction>) -> bool {
        exists|i: int|
            0 <= i < dirs.len() && self.reaches(
                from.x as int,
                from.y as int,
                to.x as int,
                to.y as int,
                #[trigger] dirs[i],
            )
    }

    /// The geometry of a pawn move of color `c` from `from` to `to`, onto `ts`.
    pub open spec fn pawn_can(self, from: Position, to: Position, ts: Square, c: Color) -> bool {
        let f = forward(c).dy();
        ||| (from.y == pawn_start_row(c) && to.x == from.x && to.y == from.y + 2 * f
            && ts.content is None && self.reaches(
            from.x as int,
            from.y as int,
            to.x as int,
            to.y as int,
            forward(c),
        ))
        ||| (to.x == from.x && to.y == from.y + f && ts.content is None)
        ||| ((to.x == from.x - 1 || to.x == from.x + 1) && to.y == from.y + f && ts.colored(
            c.opposite(),
        ))
    }

    /// Whether `m`, read as a move of a piece from one square to another, is legal
    /// before the safety of the mover's king is considered; the first rule broken.
    /// A pawn leaving the row before its last rank must carry a promotion; other moves
    /// are judged by their geometry alone, whatever their kind.
    pub open spec fn normal_check(self, m: Move) -> Result<(), MoveError> {
        match (self.at(m.from), self.at(m.to)) {
            (None, _) => Err(MoveError::InvalidSquare),
            (_, None) => Err(MoveError::InvalidSquare),
            (Some(fs), Some(ts)) => match fs.content {
                None => Err(MoveError::EmptySquareMoved),
                Some(pc) => if pc.color != self.turn {
                    Err(MoveError::WrongColorToMove)
                } else {
                    let own = ts.colored(pc.color);
                    let plain = !(m.tipo is Promotion);
                    match pc.tipo {
                        PieceType::King => if offset_in(m.from, m.to, PieceType::King.deltas())
                            && !own {
                            Ok(())
                        } else {
                            Err(MoveError::IllegalKingMove)
                        },
                        PieceType::Queen => if self.slides_to(
                            m.from,
                            m.to,
                            PieceType::Queen.dirs(),
                        ) && !own {
                            Ok(())
                        } else {
                            Err(MoveError::IllegalQueenMove)
                        },
                        PieceType::Rook => if self.slides_to(m.from, m.to, PieceType::Rook.dirs())
                            && !own {
                            Ok(())
                        } else {
                            Err(MoveError::IllegalRookMove)
                        },
                        PieceType::Bishop => if self.slides_to(
                            m.from,
                            m.to,
                            PieceType::Bishop.dirs(),
                        ) && !own {
                            Ok(())
                        } else {
                            Err(MoveError::IllegalBishopMove)
                        },
                        PieceType::Knight => if offset_in(
                            m.from,
                            m.to,
                            PieceType::Knight.deltas(),
                        ) && !own {
                            Ok(())
                        } else {
                            Err(MoveError::IllegalKnightMove)
                        },
                        PieceType::Pawn => if m.from.y == promotion_row(pc.color) && plain {
                            Err(MoveError::MustPromote)
                        } else if self.pawn_can(m.from, m.to, ts, pc.color) {
                            Ok(())
                        } else {
                            Err(MoveError::IllegalPawnMove)
                        },
                    }
                },
            },
        }
    }

    /// Castling for the side to move: the rook and the king on their home squares, the
    /// squares between them empty; the rook moves first, then the king, whose safety is
    /// checked as for any move.
    pub open spec fn castled(self, side: CastlingSide) -> Result<Game, MoveError> {
        let y = home_row(self.turn) as i8;
        let king_from = Position { x: 6, y };
        let (king_to, rook_from, rook_to, dir) = match side {
            CastlingSide::Long => (
                Position { x: 4, y },
                Position { x: 2, y },
                Position { x: 5, y },
                Direction::Left,
            ),
            CastlingSide::Short => (
                Position { x: 8, y },
                Position { x: 9, y },
                Position { x: 7, y },
                Direction::Right,
            ),
        };
        if self.at(rook_from) == holding(self.turn, PieceType::Rook) && self.at(king_from)
            == holding(self.turn, PieceType::King) && self.reaches(
            6,
            y as int,
            rook_from.x as int,
            y as int,
            dir,
        ) {
            self.moved(Move { from: rook_from, to: rook_to, tipo: MoveType::Normal }).committed(
                Move { from: king_from, to: king_to, tipo: MoveType::Normal },
            )
        } else {
            Err(MoveError::IllegalCastling(side))
        }
    }

    /// The game after `m`, or the reason `m` is refused.
    pub open spec fn play(self, m: Move) -> Result<Game, MoveError> {
        match m.tipo {
            MoveType::Normal => match self.normal_check(m) {
                Err(e) => Err(e),
                Ok(_) => self.committed(m),
            },
            MoveType::Promotion(t) => match self.normal_check(m) {
                Err(e) => Err(e),
                Ok(_) => match self.committed(m) {
                    Err(e) => Err(e),
                    Ok(g) => Ok(
                        g.with_cell(m.to, Some(Square { content: Some(Piece { tipo: t, color: self.turn }) })),
                    ),
                },
            },
            MoveType::LongCastling => self.castled(CastlingSide::Long),
            MoveType::ShortCastling => self.castled(CastlingSide::Short),
        }
    }
}


impl Game {
    /// Moves the piece on `m.from` to `m.to` and empties `m.from`, with no check at all.
    pub fn raw_move(&mut self, m: &Move) -> (r: Result<(), MoveError>)
        requires
            old(self).at(m.from) is Some,
            m.to.in_grid(),
        ensures
            r is Ok,
            *final(self) == old(self).moved(*m),
    {
        let from_piece = self.get_piece(m.from);
        self.set_square(m.to, from_piece)?;
        self.set_square(m.from, None)?;
        Ok(())
    }

    /// Plays `m` with no check of its geometry, unless the mover's king could then be
    /// captured; hands the turn over on success and changes nothing on failure.
    pub fn raw_make_move(&mut self, m: &Move) -> (r: Result<(), MoveError>)
        requires
            old(self).at(m.from) is Some,
            m.to.in_grid(),
            old(self).moved(*m).has_king(old(self).turn),
        ensures
            match old(self).committed(*m) {
                Ok(g) => r is Ok && *final(self) == g,
                Err(e) => r == Err::<(), MoveError>(e) && *final(self) == *old(self),
            },
    {
        let mut aux = *self;
        aux.raw_move(m)?;
        aux.turn = aux.turn.opposite_color();
        proof {
            lemma_king_from_turn(old(self).moved(*m), aux.turn, old(self).turn, 0);
        }
        if aux.can_eat_king() {
            return Err(MoveError::SelfCheckAfterMove);
        }
        *self = aux;
        Ok(())
    }

    fn offset_matches(from: Position, to: Position, t: PieceType) -> (r: bool)
        requires
            from.in_grid(),
            t.is_leaper(),
        ensures
            r == offset_in(from, to, t.deltas()),
    {
        let deltas = t.get_posible_deltas();
        let mut i: usize = 0;
        while i < 8
            invariant
                from.in_grid(),
                t.is_leaper(),
                deltas@.len() == 8,
                forall|j: int|
                    0 <= j < 8 ==> (#[trigger] deltas@[j]).x == t.deltas()[j].0 && deltas@[j].y
                        == t.deltas()[j].1,
                i <= 8,
                forall|j: int|
                    0 <= j < i ==> !(to.x - from.x == (#[trigger] t.deltas()[j]).0 && to.y - from.y
                        == t.deltas()[j].1),
            decreases 8 - i,
        {
            if from + deltas[i] == to {
                return true;
            }
            i = i + 1;
        }
        false
    }

    fn slides(&self, m: &Move, t: PieceType) -> (r: bool)
        requires
            m.from.in_grid(),
            t.is_slider(),
        ensures
            r == self.slides_to(m.from, m.to, t.dirs()),
    {
        let dirs = t.get_posible_dirs();
        let mut i: usize = 0;
        while i < dirs.len()
            invariant
                m.from.in_grid(),
                dirs@ == t.dirs(),
                i <= dirs@.len(),
                forall|j: int|
                    0 <= j < i ==> !self.reaches(
                        m.from.x as int,
                        m.from.y as int,
                        m.to.x as int,
                        m.to.y as int,
                        #[trigger] dirs@[j],
                    ),
            decreases dirs@.len() - i,
        {
            if self.get_to_by(m, dirs[i]) {
                return true;
            }
            i = i + 1;
        }
        false
    }

    fn pawn_move_ok(&self, m: &Move, to_square: Square, color: Color) -> (r: bool)
        requires
            m.from.in_grid(),
        ensures
            r == self.pawn_can(m.from, m.to, to_square, color),
    {
        let (long_move_y, foward_dir): (i8, Direction) = match color {
            Color::White => (3, Direction::Up),
            Color::Black => (8, Direction::Down),
        };
        let ahead = m.from.go(foward_dir);
        (m.from.y == long_move_y && ahead.go(foward_dir) == m.to && to_square.has_none()
            && self.get_to_by(m, foward_dir)) || (ahead == m.to && to_square.has_none()) || ((
        ahead.left() == m.to || ahead.right() == m.to) && to_square.has_color(
            color.opposite_color(),
        ))
    }

    /// Checks `m` as a move of a piece from one square to another: both squares on
    /// the board, a piece of the side to move on `m.from`, and that piece's movement
    /// rule. The safety of the mover's king is not considered here.
    pub fn is_valid_normal_move(&self, m: &Move) -> (r: Result<(), MoveError>)
        ensures
            r == self.normal_check(*m),
    {
        let (from_square, to_square) = match (self.get_raw_square(m.from), self.get_raw_square(m.to)) {
            (Some(f), Some(t)) => (f, t),
            _ => {
                return Err(MoveError::InvalidSquare);
            },
        };
        let piece = match from_square.content {
            Some(p) => p,
            None => {
                return Err(MoveError::EmptySquareMoved);
            },
        };
        if piece.color != self.turn {
            return Err(MoveError::WrongColorToMove);
        }
        let own = to_square.has_color(piece.color);
        let plain = !m.is_promotion();
        match piece.tipo {
            PieceType::King => if Game::offset_matches(m.from, m.to, PieceType::King) && !own {
                Ok(())
            } else {
                Err(MoveError::IllegalKingMove)
            },
            PieceType::Queen => if self.slides(m, PieceType::Queen) && !own {
                Ok(())
            } else {
                Err(MoveError::IllegalQueenMove)
            },
            PieceType::Rook => if self.slides(m, PieceType::Rook) && !own {
                Ok(())
            } else {
                Err(MoveError::IllegalRookMove)
            },
            PieceType::Bishop => if self.slides(m, PieceType::Bishop) && !own {
                Ok(())
            } else {
                Err(MoveError::IllegalBishopMove)
            },
            PieceType::Knight => if Game::offset_matches(m.from, m.to, PieceType::Knight) && !own {
                Ok(())
            } else {
                Err(MoveError::IllegalKnightMove)
            },
            PieceType::Pawn => {
                let promotion_y: i8 = match piece.color {
                    Color::White => 8,
                    Color::Black => 3,
                };
                let on_last_step = m.from.y == promotion_y;
                if on_last_step && plain {
                    Err(MoveError::MustPromote)
                } else if self.pawn_move_ok(m, to_square, piece.color) {
                    Ok(())
                } else {
                    Err(MoveError::IllegalPawnMove)
                }
            },
        }
    }
}


/// A move that passes the checks of `normal_check` takes a piece of the side to move
/// to a square of the board that holds none of its pieces.
pub proof fn lemma_checked_move_target(g: Game, m: Move)
    requires
        g.normal_check(m) is Ok,
    ensures
        g.at(m.from) is Some,
        m.to.in_grid(),
        g.piece_at(m.from) matches Some(p) && p.color == g.turn,
        g.at(m.to) matches Some(ts) && !ts.colored(g.turn),
{
}

/// Putting a square where a square was keeps the board well formed.
pub proof fn lemma_set_keeps_wf(g: Game, p: Position, sq: Square)
    requires
        g.wf(),
        g.at(p) is Some,
    ensures
        g.with_cell(p, Some(sq)).wf(),
{
    assert(g.cell(p.x as int, p.y as int) is Some);
    lemma_with_cell(g, p, Some(sq));
    assert forall|x: int, y: int| in_grid(x, y) implies (#[trigger] g.with_cell(p, Some(sq)).cell(x, y) is Some
        <==> on_board(x, y)) by {
        assert(g.cell(x, y) is Some <==> on_board(x, y));
    }
}

impl Game {
    fn castle(&mut self, side: CastlingSide) -> (r: Result<(), MoveError>)
        requires
            old(self).wf(),
            old(self).has_king(old(self).turn),
        ensures
            match old(self).castled(side) {
                Ok(g) => r is Ok && *final(self) == g,
                Err(e) => r == Err::<(), MoveError>(e) && *final(self) == *old(self),
            },
    {
        let color = self.turn;
        let rank: char = match color {
            Color::White => '1',
            Color::Black => '8',
        };
        let (king_to, rook_from, rook_to, dir) = match side {
            CastlingSide::Long => ('c', 'a', 'd', Direction::Left),
            CastlingSide::Short => ('g', 'h', 'f', Direction::Right),
        };
        let king_mov = Move::new(
            Position::safe_from_chars('e', rank),
            Position::safe_from_chars(king_to, rank),
            MoveType::Normal,
        );
        let rook_mov = Move::new(
            Position::safe_from_chars(rook_from, rank),
            Position::safe_from_chars(rook_to, rank),
            MoveType::Normal,
        );
        let rook_there = match self.get_raw_square(rook_mov.from) {
            Some(sq) => sq.contains(Piece::new(color, PieceType::Rook)),
            None => false,
        };
        let king_there = match self.get_raw_square(king_mov.from) {
            Some(sq) => sq.contains(Piece::new(color, PieceType::King)),
            None => false,
        };
        if rook_there && king_there && self.get_to_by(
            &Move::new(king_mov.from, rook_mov.from, MoveType::Normal),
            dir,
        ) {
            let ghost g0 = *self;
            proof {
                reveal_with_fuel(Game::reaches, 3);
                assert(g0.cell(rook_mov.to.x as int, rook_mov.to.y as int) == Some(Square { content: None }));
                assert(g0.cell(king_mov.to.x as int, king_mov.to.y as int) == Some(Square { content: None }));
                lemma_moved_keeps_king(g0, rook_mov, color);
                let g1 = g0.moved(rook_mov);
                lemma_with_cell(g0, rook_mov.to, Some(Square { content: g0.piece_at(rook_mov.from) }));
                lemma_with_cell(
                    g0.with_cell(rook_mov.to, Some(Square { content: g0.piece_at(rook_mov.from) })),
                    rook_mov.from,
                    Some(Square { content: None }),
                );
                assert(g1.cell(king_mov.from.x as int, king_mov.from.y as int) == g0.cell(king_mov.from.x as int, king_mov.from.y as int));
                assert(g1.cell(king_mov.to.x as int, king_mov.to.y as int) == g0.cell(king_mov.to.x as int, king_mov.to.y as int));
                lemma_moved_keeps_king(g1, king_mov, color);
            }
            let mut aux = *self;
            let _ = aux.raw_move(&rook_mov);
            match aux.raw_make_move(&king_mov) {
                Ok(()) => {
                    *self = aux;
                    Ok(())
                },
                Err(e) => Err(e),
            }
        } else {
            Err(MoveError::IllegalCastling(side))
        }
    }

    /// Plays `m` for the side to move if it is legal; on failure nothing changes.
    pub fn make_move(&mut self, m: &Move) -> (r: Result<(), MoveError>)
        requires
            old(self).wf(),
            old(self).has_king(old(self).turn),
        ensures
            match old(self).play(*m) {
                Ok(g) => r is Ok && *final(self) == g,
                Err(e) => r == Err::<(), MoveError>(e) && *final(self) == *old(self),
            },
            r is Ok ==> final(self).turn == old(self).turn.opposite() && final(self).wf(),
            r is Ok && !(m.tipo is Promotion && old(self).piece_at(m.from) == Some(
                king_of(old(self).turn),
            )) ==> final(self).has_king(old(self).turn),
            r is Err ==> *final(self) == *old(self),
    {
        proof {
            if old(self).play(*m) is Ok {
                lemma_play_toggles_turn(*old(self), *m);
            }
        }
        match m.tipo {
            MoveType::Normal => {
                match self.is_valid_normal_move(m) {
                    Ok(()) => {},
                    Err(e) => {
                        return Err(e);
                    },
                }
                proof {
                    lemma_checked_move_target(*old(self), *m);
                    lemma_moved_keeps_king(*old(self), *m, old(self).turn);
                }
                self.raw_make_move(m)
            },
            MoveType::Promotion(pt) => {
                let color = self.turn;
                match self.is_valid_normal_move(m) {
                    Ok(()) => {},
                    Err(e) => {
                        return Err(e);
                    },
                }
                proof {
                    lemma_checked_move_target(*old(self), *m);
                    lemma_moved_keeps_king(*old(self), *m, old(self).turn);
                }
                let mut aux = *self;
                match aux.raw_make_move(m) {
                    Ok(()) => {},
                    Err(e) => {
                        return Err(e);
                    },
                }
                let _ = aux.set_square(m.to, Some(Piece::new(color, pt)));
                *self = aux;
                Ok(())
            },
            MoveType::LongCastling => self.castle(CastlingSide::Long),
            MoveType::ShortCastling => self.castle(CastlingSide::Short),
        }
    }
}


/// A move that is played hands the turn to the other side and the board stays well
/// formed; the mover's king is still on it, unless the move was the king itself tagged
/// as a promotion, which puts the promoted piece in its place.
pub proof fn lemma_play_toggles_turn(g: Game, m: Move)
    requires
        g.wf(),
        g.has_king(g.turn),
        g.play(m) is Ok,
    ensures
        g.play(m)->Ok_0.turn == g.turn.opposite(),
        g.play(m)->Ok_0.wf(),
        !(m.tipo is Promotion && g.piece_at(m.from) == Some(king_of(g.turn))) ==> g.play(
            m,
        )->Ok_0.has_king(g.turn),
{
    match m.tipo {
        MoveType::Normal | MoveType::Promotion(_) => {
            lemma_checked_move_target(g, m);
            lemma_moved_keeps_king(g, m, g.turn);
            lemma_king_from_turn(g.moved(m), g.turn.opposite(), g.turn, 0);
            if let MoveType::Promotion(t) = m.tipo {
                let g1 = g.committed(m)->Ok_0;
                assert(g.at(m.to) is Some);
                lemma_with_cell(g, m.to, Some(Square { content: g.piece_at(m.from) }));
                lemma_with_cell(
                    g.with_cell(m.to, Some(Square { content: g.piece_at(m.from) })),
                    m.from,
                    Some(Square { content: None }),
                );
                assert(g1.cell(m.to.x as int, m.to.y as int) is Some);
                let promoted = Square { content: Some(Piece { tipo: t, color: g.turn }) };
                lemma_set_keeps_wf(g1, m.to, promoted);
                if g.piece_at(m.from) != Some(king_of(g.turn)) {
                    lemma_king_from_sound(g1, g.turn, 0);
                    let k = g1.king_from(g.turn, 0)->Some_0;
                    assert(g1.cell(m.to.x as int, m.to.y as int) == Some(Square { content: g.piece_at(m.from) }));
                    assert(k != m.to);
                    lemma_with_cell(g1, m.to, Some(promoted));
                    assert(g1.with_cell(m.to, Some(promoted)).cell(k.x as int, k.y as int) == g1.cell(k.x as int, k.y as int));
                    lemma_has_king_at(g1.with_cell(m.to, Some(promoted)), g.turn, k);
                }
            }
        },
        _ => {
            let side = if m.tipo is LongCastling {
                CastlingSide::Long
            } else {
                CastlingSide::Short
            };
            let y = home_row(g.turn) as i8;
            let (king_to, rook_from, rook_to, dir) = match side {
                CastlingSide::Long => (
                    Position { x: 4, y },
                    Position { x: 2, y },
                    Position { x: 5, y },
                    Direction::Left,
                ),
                CastlingSide::Short => (
                    Position { x: 8, y },
                    Position { x: 9, y },
                    Position { x: 7, y },
                    Direction::Right,
                ),
            };
            let king_mov = Move { from: Position { x: 6, y }, to: king_to, tipo: MoveType::Normal };
            let rook_mov = Move { from: rook_from, to: rook_to, tipo: MoveType::Normal };
            reveal_with_fuel(Game::reaches, 3);
            assert(g.cell(rook_mov.to.x as int, rook_mov.to.y as int) == Some(Square { content: None }));
            assert(g.cell(king_mov.to.x as int, king_mov.to.y as int) == Some(Square { content: None }));
            lemma_moved_keeps_king(g, rook_mov, g.turn);
            let g1 = g.moved(rook_mov);
            lemma_with_cell(g, rook_mov.to, Some(Square { content: g.piece_at(rook_mov.from) }));
            lemma_with_cell(
                g.with_cell(rook_mov.to, Some(Square { content: g.piece_at(rook_mov.from) })),
                rook_mov.from,
                Some(Square { content: None }),
            );
            assert(g1.cell(6, y as int) == g.cell(6, y as int));
            assert(g1.cell(king_to.x as int, y as int) == g.cell(king_to.x as int, y as int));
            lemma_moved_keeps_king(g1, king_mov, g.turn);
            lemma_king_from_turn(g1.moved(king_mov), g.turn.opposite(), g.turn, 0);
        },
    }
}

/// Moving a piece of `c` onto a square that holds no piece of `c` keeps a king of `c`
/// on the board, and keeps the board well formed.
pub proof fn lemma_moved_keeps_king(g: Game, m: Move, c: Color)
    requires
        g.wf(),
        g.has_king(c),
        g.piece_at(m.from) matches Some(p) && p.color == c,
        g.at(m.to) matches Some(ts) && !ts.colored(c),
    ensures
        g.moved(m).has_king(c),
        g.moved(m).wf(),
{
    let k = g.king_from(c, 0)->Some_0;
    lemma_king_from_sound(g, c, 0);
    assert(g.cell(m.from.x as int, m.from.y as int) is Some);
    assert(g.cell(m.to.x as int, m.to.y as int) is Some);
    let g1 = g.with_cell(m.to, Some(Square { content: g.piece_at(m.from) }));
    lemma_with_cell(g, m.to, Some(Square { content: g.piece_at(m.from) }));
    lemma_with_cell(g1, m.from, Some(Square { content: None }));
    assert(m.from != m.to);
    if k == m.from {
        assert(g.moved(m).cell(m.to.x as int, m.to.y as int) == Some(Square { content: Some(king_of(c)) }));
        lemma_has_king_at(g.moved(m), c, m.to);
    } else {
        assert(g.moved(m).cell(k.x as int, k.y as int) == g.cell(k.x as int, k.y as int));
        lemma_has_king_at(g.moved(m), c, k);
    }
}

} // verus!
