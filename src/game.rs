use vstd::prelude::*;

use crate::geometry::{square_at, square_index, Position, lemma_square_at, lemma_square_index};
use crate::pieces::{Color, Piece, PieceType, Square};

verus! {

/// The padded 12×12 grid; border cells hold no square.
pub type Board = [[Option<Square>; 12]; 12];

/// The board and the side to move.
#[derive(Debug, Clone, Copy)]
pub struct Game {
    pub board: Board,
    pub turn: Color,
}

pub open spec fn in_grid(x: int, y: int) -> bool {
    0 <= x < 12 && 0 <= y < 12
}

pub open spec fn on_board(x: int, y: int) -> bool {
    2 <= x <= 9 && 2 <= y <= 9
}


/// The piece type that starts on column `x` of a back rank.
pub open spec fn back_rank_type(x: int) -> PieceType {
    if x == 2 || x == 9 {
        PieceType::Rook
    } else if x == 3 || x == 8 {
        PieceType::Knight
    } else if x == 4 || x == 7 {
        PieceType::Bishop
    } else if x == 5 {
        PieceType::Queen
    } else {
        PieceType::King
    }
}

/// The cell at `(x, y)` in the starting position.
pub open spec fn start_cell(x: int, y: int) -> Option<Square> {
    if !on_board(x, y) {
        None
    } else if y == 2 {
        Some(Square { content: Some(Piece { tipo: back_rank_type(x), color: Color::White }) })
    } else if y == 3 {
        Some(Square { content: Some(Piece { tipo: PieceType::Pawn, color: Color::White }) })
    } else if y == 8 {
        Some(Square { content: Some(Piece { tipo: PieceType::Pawn, color: Color::Black }) })
    } else if y == 9 {
        Some(Square { content: Some(Piece { tipo: back_rank_type(x), color: Color::Black }) })
    } else {
        Some(Square { content: None })
    }
}

pub open spec fn king_of(c: Color) -> Piece {
    Piece { tipo: PieceType::King, color: c }
}

impl Game {
    /// The cell at `(x, y)`; nothing outside the grid.
    pub open spec fn cell(self, x: int, y: int) -> Option<Square> {
        if in_grid(x, y) {
            self.board[y][x]
        } else {
            None
        }
    }

    pub open spec fn at(self, p: Position) -> Option<Square> {
        self.cell(p.x as int, p.y as int)
    }

    pub open spec fn piece_at(self, p: Position) -> Option<Piece> {
        match self.at(p) {
            Some(sq) => sq.content,
            None => None,
        }
    }

    /// Exactly the playing area holds squares; the border never does.
    pub open spec fn wf(self) -> bool {
        forall|x: int, y: int| in_grid(x, y) ==> (#[trigger] self.cell(x, y) is Some <==> on_board(x, y))
    }

    /// The game with the cell at `p` replaced.
    pub open spec fn with_cell(self, p: Position, sq: Option<Square>) -> Game {
        let y = p.y as int;
        let x = p.x as int;
        Game {
            board: vstd::array::spec_array_update(
                self.board,
                y,
                vstd::array::spec_array_update(self.board[y], x, sq),
            ),
            turn: self.turn,
        }
    }

    pub open spec fn with_turn(self, c: Color) -> Game {
        Game { board: self.board, turn: c }
    }

    /// The first square, in rank-then-file order from the `i`-th, that holds the king of `c`.
    pub open spec fn king_from(self, c: Color, i: int) -> Option<Position>
        decreases 64 - i,
    {
        if i < 0 || i >= 64 {
            None
        } else if self.piece_at(square_at(i)) == Some(king_of(c)) {
            Some(square_at(i))
        } else {
            self.king_from(c, i + 1)
        }
    }

    pub open spec fn has_king(self, c: Color) -> bool {
        self.king_from(c, 0) is Some
    }
}

pub proof fn lemma_with_cell(g: Game, p: Position, sq: Option<Square>)
    requires
        p.in_grid(),
    ensures
        forall|x: int, y: int|
            #[trigger] g.with_cell(p, sq).cell(x, y) == if x == p.x && y == p.y {
                sq
            } else {
                g.cell(x, y)
            },
        g.with_cell(p, sq).turn == g.turn,
{
    broadcast use vstd::array::axiom_spec_array_update;
    let y = p.y as int;
    let x = p.x as int;
    let row = vstd::array::spec_array_update(g.board[y], x, sq);
    assert(row@ == g.board[y]@.update(x, sq));
    let b = vstd::array::spec_array_update(g.board, y, row);
    assert(b@ == g.board@.update(y, row));
}

/// A king found by the scan from `i` is found by every scan that starts earlier.
pub proof fn lemma_king_from_found(g: Game, c: Color, i: int, j: int)
    requires
        0 <= i <= j < 64,
        g.piece_at(square_at(j)) == Some(king_of(c)),
    ensures
        g.king_from(c, i) is Some,
    decreases j - i,
{
    if g.piece_at(square_at(i)) != Some(king_of(c)) {
        lemma_king_from_found(g, c, i + 1, j);
    }
}

/// What the scan from `i` finds is a square of the playing area holding the king.
pub proof fn lemma_king_from_sound(g: Game, c: Color, i: int)
    requires
        g.king_from(c, i) is Some,
    ensures
        g.king_from(c, i)->Some_0.on_board(),
        g.piece_at(g.king_from(c, i)->Some_0) == Some(king_of(c)),
    decreases 64 - i,
{
    if 0 <= i < 64 {
        lemma_square_at(i);
        if g.piece_at(square_at(i)) != Some(king_of(c)) {
            lemma_king_from_sound(g, c, i + 1);
        }
    }
}


/// Handing the turn over moves no piece.
pub proof fn lemma_king_from_turn(g: Game, t: Color, c: Color, i: int)
    ensures
        g.with_turn(t).king_from(c, i) == g.king_from(c, i),
        g.wf() ==> g.with_turn(t).wf(),
    decreases 64 - i,
{
    if 0 <= i < 64 {
        lemma_king_from_turn(g, t, c, i + 1);
    }
    if g.wf() {
        assert forall|x: int, y: int| in_grid(x, y) implies (#[trigger] g.with_turn(t).cell(x, y) is Some
            <==> on_board(x, y)) by {
            assert(g.cell(x, y) is Some <==> on_board(x, y));
        }
    }
}

/// A king of `c` on a square of the playing area is found by the scan.
pub proof fn lemma_has_king_at(g: Game, c: Color, p: Position)
    requires
        p.on_board(),
        g.piece_at(p) == Some(king_of(c)),
    ensures
        g.has_king(c),
{
    lemma_square_index(p);
    lemma_king_from_found(g, c, 0, square_index(p));
}


impl Game {
    /// The standard starting position, White to move.
    pub fn new() -> (r: Game)
        ensures
            r.wf(),
            r.turn == Color::White,
            r.has_king(Color::White),
            r.has_king(Color::Black),
            forall|x: int, y: int| #[trigger] r.cell(x, y) == start_cell(x, y),
    {
        let n: Option<Square> = None;
        let e = Some(Square::empty());
        let border: [Option<Square>; 12] = [n, n, n, n, n, n, n, n, n, n, n, n];
        let empty_row: [Option<Square>; 12] = [n, n, e, e, e, e, e, e, e, e, n, n];
        let wp = Some(Square::white_pawn());
        let bp = Some(Square::black_pawn());
        let white_back: [Option<Square>; 12] = [
            n,
            n,
            Some(Square::white_rook()),
            Some(Square::white_knight()),
            Some(Square::white_bishop()),
            Some(Square::white_queen()),
            Some(Square::white_king()),
            Some(Square::white_bishop()),
            Some(Square::white_knight()),
            Some(Square::white_rook()),
            n,
            n,
        ];
        let white_pawns: [Option<Square>; 12] = [n, n, wp, wp, wp, wp, wp, wp, wp, wp, n, n];
        let black_pawns: [Option<Square>; 12] = [n, n, bp, bp, bp, bp, bp, bp, bp, bp, n, n];
        let black_back: [Option<Square>; 12] = [
            n,
            n,
            Some(Square::black_rook()),
            Some(Square::black_knight()),
            Some(Square::black_bishop()),
            Some(Square::black_queen()),
            Some(Square::black_king()),
            Some(Square::black_bishop()),
            Some(Square::black_knight()),
            Some(Square::black_rook()),
            n,
            n,
        ];
        let g = Game {
            board: [
                border,
                border,
                white_back,
                white_pawns,
                empty_row,
                empty_row,
                empty_row,
                empty_row,
                black_pawns,
                black_back,
                border,
                border,
            ],
            turn: Color::White,
        };
        proof {
            assert forall|x: int, y: int| #[trigger] g.cell(x, y) == start_cell(x, y) by {
                if in_grid(x, y) {
                    assert(g.board[y] == g.board@[y]);
                    assert(g.board[y][x] == g.board[y]@[x]);
                }
            }
            assert(g.cell(6, 2) == g.board[2]@[6]);
            assert(g.cell(6, 9) == g.board[9]@[6]);
            lemma_has_king_at(g, Color::White, Position { x: 6, y: 2 });
            lemma_has_king_at(g, Color::Black, Position { x: 6, y: 9 });
        }
        g
    }
}

impl Game {
    pub fn get_raw_square(&self, pos: Position) -> (r: Option<Square>)
        ensures
            r == self.at(pos),
    {
        if 0 <= pos.x && pos.x < 12 && 0 <= pos.y && pos.y < 12 {
            self.board[pos.y as usize][pos.x as usize]
        } else {
            None
        }
    }

    pub fn get_square(&self, pos: Position) -> (r: Square)
        requires
            self.at(pos) is Some,
        ensures
            self.at(pos) == Some(r),
    {
        self.get_raw_square(pos).unwrap()
    }

    pub fn get_piece(&self, pos: Position) -> (r: Option<Piece>)
        requires
            self.at(pos) is Some,
        ensures
            r == self.piece_at(pos),
    {
        self.get_square(pos).content
    }

    pub fn set_raw_square(&mut self, pos: Position, square: Option<Square>) -> (r: Result<(), crate::errors::MoveError>)
        requires
            pos.in_grid(),
        ensures
            r is Ok,
            *final(self) == old(self).with_cell(pos, square),
    {
        self.board[pos.y as usize][pos.x as usize] = square;
        Ok(())
    }

    pub fn set_square(&mut self, pos: Position, piece: Option<Piece>) -> (r: Result<(), crate::errors::MoveError>)
        requires
            pos.in_grid(),
        ensures
            r is Ok,
            *final(self) == old(self).with_cell(pos, Some(Square { content: piece })),
    {
        self.set_raw_square(pos, Some(Square::new(piece)))
    }

    pub fn is_square(&self, pos: Position) -> (r: bool)
        ensures
            r == self.at(pos) is Some,
    {
        self.get_raw_square(pos).is_some()
    }
}

} // verus!
