use vstd::prelude::*;

use crate::errors::ParseError;
use crate::geometry::{Direction, PositionDelta};

verus! {

#[derive(Debug, PartialEq, Eq, PartialOrd, Clone, Copy, Structural)]
pub enum Color {
    White,
    Black,
}

impl Color {
    pub open spec fn opposite(self) -> Color {
        match self {
            Color::White => Color::Black,
            Color::Black => Color::White,
        }
    }

    pub open spec fn sign(self) -> int {
        match self {
            Color::White => 1,
            Color::Black => -1,
        }
    }

    /// `+1` for White, `-1` for Black.
    pub fn get_sign(&self) -> (r: i32)
        ensures
            r == self.sign(),
    {
        match *self {
            Color::White => 1,
            Color::Black => -1,
        }
    }

    /// The other color.
    pub fn opposite_color(&self) -> (r: Color)
        ensures
            r == self.opposite(),
    {
        match *self {
            Color::White => Color::Black,
            Color::Black => Color::White,
        }
    }

    /// The color's name, as shown to a player.
    pub fn name(&self) -> (r: &'static str)
        ensures
            *self == Color::White ==> r@ == "White"@,
            *self == Color::Black ==> r@ == "Black"@,
    {
        match *self {
            Color::White => "White",
            Color::Black => "Black",
        }
    }
}

impl core::ops::Not for Color {
    type Output = Color;

    fn not(self) -> Color {
        self.opposite_color()
    }
}

impl vstd::std_specs::ops::NotSpecImpl for Color {
    open spec fn obeys_not_spec() -> bool {
        true
    }

    open spec fn not_req(self) -> bool {
        true
    }

    open spec fn not_spec(self) -> Color {
        self.opposite()
    }
}

#[derive(Debug, PartialEq, Eq, Clone, Copy, Structural)]
pub enum PieceType {
    King,
    Queen,
    Rook,
    Bishop,
    Knight,
    Pawn,
}

/// The fixed one-square steps of a king.
pub open spec fn king_deltas() -> Seq<(int, int)> {
    seq![(1, 1), (1, 0), (1, -1), (-1, 1), (-1, 0), (-1, -1), (0, 1), (0, -1)]
}

/// The fixed L-shaped jumps of a knight.
pub open spec fn knight_deltas() -> Seq<(int, int)> {
    seq![(1, 2), (-1, 2), (1, -2), (-1, -2), (2, 1), (2, -1), (-2, 1), (-2, -1)]
}

pub open spec fn queen_dirs() -> Seq<Direction> {
    seq![
        Direction::Up,
        Direction::Down,
        Direction::Right,
        Direction::Left,
        Direction::UpRight,
        Direction::UpLeft,
        Direction::DownRight,
        Direction::DownLeft,
    ]
}

pub open spec fn rook_dirs() -> Seq<Direction> {
    seq![Direction::Up, Direction::Down, Direction::Right, Direction::Left]
}

pub open spec fn bishop_dirs() -> Seq<Direction> {
    seq![Direction::UpRight, Direction::UpLeft, Direction::DownRight, Direction::DownLeft]
}

impl PieceType {
    pub open spec fn is_leaper(self) -> bool {
        self == PieceType::King || self == PieceType::Knight
    }

    pub open spec fn is_slider(self) -> bool {
        self == PieceType::Queen || self == PieceType::Rook || self == PieceType::Bishop
    }

    /// The fixed destinations of a leaper, as offsets.
    pub open spec fn deltas(self) -> Seq<(int, int)> {
        if self == PieceType::King {
            king_deltas()
        } else {
            knight_deltas()
        }
    }

    /// The directions a slider walks in.
    pub open spec fn dirs(self) -> Seq<Direction> {
        match self {
            PieceType::Queen => queen_dirs(),
            PieceType::Rook => rook_dirs(),
            _ => bishop_dirs(),
        }
    }

    /// Material value; the king counts for nothing.
    pub open spec fn value(self) -> int {
        match self {
            PieceType::King => 0,
            PieceType::Queen => 9,
            PieceType::Rook => 5,
            PieceType::Bishop => 3,
            PieceType::Knight => 3,
            PieceType::Pawn => 1,
        }
    }

    /// The lowercase letter of a piece type.
    pub open spec fn letter(self) -> char {
        match self {
            PieceType::Rook => 'r',
            PieceType::Knight => 'n',
            PieceType::Bishop => 'b',
            PieceType::Queen => 'q',
            PieceType::King => 'k',
            PieceType::Pawn => 'p',
        }
    }

    pub open spec fn from_letter(c: char) -> Option<PieceType> {
        match c {
            'r' => Some(PieceType::Rook),
            'n' => Some(PieceType::Knight),
            'b' => Some(PieceType::Bishop),
            'q' => Some(PieceType::Queen),
            'k' => Some(PieceType::King),
            'p' => Some(PieceType::Pawn),
            _ => None,
        }
    }

    pub fn from_char(c: char) -> (r: Result<PieceType, ParseError>)
        ensures
            match PieceType::from_letter(c) {
                Some(t) => r == Ok::<PieceType, ParseError>(t),
                None => r == Err::<PieceType, ParseError>(ParseError::BadPieceLetter),
            },
    {
        match c {
            'r' => Ok(PieceType::Rook),
            'n' => Ok(PieceType::Knight),
            'b' => Ok(PieceType::Bishop),
            'q' => Ok(PieceType::Queen),
            'k' => Ok(PieceType::King),
            'p' => Ok(PieceType::Pawn),
            _ => Err(ParseError::BadPieceLetter),
        }
    }

    pub fn safe_from_char(c: char) -> (r: PieceType)
        requires
            PieceType::from_letter(c) is Some,
        ensures
            PieceType::from_letter(c) == Some(r),
    {
        match c {
            'r' => PieceType::Rook,
            'n' => PieceType::Knight,
            'b' => PieceType::Bishop,
            'q' => PieceType::Queen,
            'k' => PieceType::King,
            _ => PieceType::Pawn,
        }
    }

    pub fn to_char(&self) -> (r: char)
        ensures
            r == self.letter(),
            PieceType::from_letter(r) == Some(*self),
    {
        match *self {
            PieceType::Rook => 'r',
            PieceType::Knight => 'n',
            PieceType::Bishop => 'b',
            PieceType::Queen => 'q',
            PieceType::King => 'k',
            PieceType::Pawn => 'p',
        }
    }

    pub fn get_value(&self) -> (r: i32)
        ensures
            r == self.value(),
    {
        match *self {
            PieceType::King => 0,
            PieceType::Queen => 9,
            PieceType::Rook => 5,
            PieceType::Bishop => 3,
            PieceType::Knight => 3,
            PieceType::Pawn => 1,
        }
    }

    pub fn get_posible_dirs(&self) -> (r: Vec<Direction>)
        requires
            self.is_slider(),
        ensures
            r@ == self.dirs(),
    {
        let r = match *self {
            PieceType::Queen => vec![
                Direction::Up,
                Direction::Down,
                Direction::Right,
                Direction::Left,
                Direction::UpRight,
                Direction::UpLeft,
                Direction::DownRight,
                Direction::DownLeft,
            ],
            PieceType::Rook => vec![
                Direction::Up,
                Direction::Down,
                Direction::Right,
                Direction::Left,
            ],
            _ => vec![
                Direction::UpRight,
                Direction::UpLeft,
                Direction::DownRight,
                Direction::DownLeft,
            ],
        };
        assert(r@ =~= self.dirs());
        r
    }

    pub fn get_posible_deltas(&self) -> (r: Vec<PositionDelta>)
        requires
            self.is_leaper(),
        ensures
            r@.len() == 8,
            forall|i: int|
                0 <= i < 8 ==> (#[trigger] r@[i]).x == self.deltas()[i].0 && r@[i].y
                    == self.deltas()[i].1,
    {
        if *self == PieceType::King {
            vec![
                PositionDelta::new(1, 1),
                PositionDelta::new(1, 0),
                PositionDelta::new(1, -1),
                PositionDelta::new(-1, 1),
                PositionDelta::new(-1, 0),
                PositionDelta::new(-1, -1),
                PositionDelta::new(0, 1),
                PositionDelta::new(0, -1),
            ]
        } else {
            vec![
                PositionDelta::new(1, 2),
                PositionDelta::new(-1, 2),
                PositionDelta::new(1, -2),
                PositionDelta::new(-1, -2),
                PositionDelta::new(2, 1),
                PositionDelta::new(2, -1),
                PositionDelta::new(-2, 1),
                PositionDelta::new(-2, -1),
            ]
        }
    }
}

#[derive(Debug, PartialEq, Eq, Clone, Copy, Structural)]
pub struct Piece {
    pub tipo: PieceType,
    pub color: Color,
}

impl Piece {
    /// Signed material value: positive for White.
    pub open spec fn value(self) -> int {
        self.color.sign() * self.tipo.value()
    }

    /// Board symbol: lowercase for White, uppercase for Black.
    pub open spec fn symbol(self) -> char {
        match self.color {
            Color::White => self.tipo.letter(),
            Color::Black => (self.tipo.letter() as int - 32) as char,
        }
    }

    pub fn new(c: Color, t: PieceType) -> (r: Piece)
        ensures
            r == (Piece { tipo: t, color: c }),
    {
        Piece { tipo: t, color: c }
    }

    pub fn get_value(&self) -> (r: i32)
        ensures
            r == self.value(),
    {
        self.color.get_sign() * self.tipo.get_value()
    }

    pub fn to_char(&self) -> (r: char)
        ensures
            r == self.symbol(),
    {
        let c = self.tipo.to_char();
        match self.color {
            Color::White => c,
            Color::Black => match self.tipo {
                PieceType::Rook => 'R',
                PieceType::Knight => 'N',
                PieceType::Bishop => 'B',
                PieceType::Queen => 'Q',
                PieceType::King => 'K',
                PieceType::Pawn => 'P',
            },
        }
    }
}

/// A square of the playing area, empty or holding one piece.
#[derive(Debug, PartialEq, Eq, Clone, Copy, Structural)]
pub struct Square {
    pub content: Option<Piece>,
}

impl Square {
    pub open spec fn holds(self, color: Color, tipo: PieceType) -> bool {
        self.content == Some(Piece { tipo, color })
    }

    pub open spec fn colored(self, color: Color) -> bool {
        self.content matches Some(p) && p.color == color
    }

    pub fn new(p: Option<Piece>) -> (r: Square)
        ensures
            r.content == p,
    {
        Square { content: p }
    }

    pub fn black_rook() -> (r: Square)
        ensures
            r.holds(Color::Black, PieceType::Rook),
    {
        Square { content: Some(Piece { tipo: PieceType::Rook, color: Color::Black }) }
    }

    pub fn black_knight() -> (r: Square)
        ensures
            r.holds(Color::Black, PieceType::Knight),
    {
        Square { content: Some(Piece { tipo: PieceType::Knight, color: Color::Black }) }
    }

    pub fn black_bishop() -> (r: Square)
        ensures
            r.holds(Color::Black, PieceType::Bishop),
    {
        Square { content: Some(Piece { tipo: PieceType::Bishop, color: Color::Black }) }
    }

    pub fn black_queen() -> (r: Square)
        ensures
            r.holds(Color::Black, PieceType::Queen),
    {
        Square { content: Some(Piece { tipo: PieceType::Queen, color: Color::Black }) }
    }

    pub fn black_king() -> (r: Square)
        ensures
            r.holds(Color::Black, PieceType::King),
    {
        Square { content: Some(Piece { tipo: PieceType::King, color: Color::Black }) }
    }

    pub fn black_pawn() -> (r: Square)
        ensures
            r.holds(Color::Black, PieceType::Pawn),
    {
        Square { content: Some(Piece { tipo: PieceType::Pawn, color: Color::Black }) }
    }

    pub fn white_rook() -> (r: Square)
        ensures
            r.holds(Color::White, PieceType::Rook),
    {
        Square { content: Some(Piece { tipo: PieceType::Rook, color: Color::White }) }
    }

    pub fn white_knight() -> (r: Square)
        ensures
            r.holds(Color::White, PieceType::Knight),
    {
        Square { content: Some(Piece { tipo: PieceType::Knight, color: Color::White }) }
    }

    pub fn white_bishop() -> (r: Square)
        ensures
            r.holds(Color::White, PieceType::Bishop),
    {
        Square { content: Some(Piece { tipo: PieceType::Bishop, color: Color::White }) }
    }

    pub fn white_queen() -> (r: Square)
        ensures
            r.holds(Color::White, PieceType::Queen),
    {
        Square { content: Some(Piece { tipo: PieceType::Queen, color: Color::White }) }
    }

    pub fn white_king() -> (r: Square)
        ensures
            r.holds(Color::White, PieceType::King),
    {
        Square { content: Some(Piece { tipo: PieceType::King, color: Color::White }) }
    }

    pub fn white_pawn() -> (r: Square)
        ensures
            r.holds(Color::White, PieceType::Pawn),
    {
        Square { content: Some(Piece { tipo: PieceType::Pawn, color: Color::White }) }
    }

    pub fn empty() -> (r: Square)
        ensures
            r.content is None,
    {
        Square { content: None }
    }

    pub fn get_piece(&self) -> (r: Piece)
        requires
            self.content is Some,
        ensures
            self.content == Some(r),
    {
        self.content.unwrap()
    }

    pub fn has_color(&self, color: Color) -> (r: bool)
        ensures
            r == self.colored(color),
    {
        match self.content {
            Some(p) => p.color == color,
            None => false,
        }
    }

    pub fn contains(&self, piece: Piece) -> (r: bool)
        ensures
            r == (self.content == Some(piece)),
    {
        match self.content {
            Some(p) => p == piece,
            None => false,
        }
    }

    pub fn has_white(&self) -> (r: bool)
        ensures
            r == self.colored(Color::White),
    {
        self.has_color(Color::White)
    }

    pub fn has_black(&self) -> (r: bool)
        ensures
            r == self.colored(Color::Black),
    {
        self.has_color(Color::Black)
    }

    pub fn has_none(&self) -> (r: bool)
        ensures
            r == self.content is None,
    {
        self.content.is_none()
    }

    pub fn has_some(&self) -> (r: bool)
        ensures
            r == self.content is Some,
    {
        self.content.is_some()
    }

    /// Board symbol: the piece's, or `.` when empty.
    pub fn to_char(&self) -> (r: char)
        ensures
            self.content is None ==> r == '.',
            self.content matches Some(p) ==> r == p.symbol(),
    {
        match self.content {
            Some(p) => p.to_char(),
            None => '.',
        }
    }
}

} // verus!
