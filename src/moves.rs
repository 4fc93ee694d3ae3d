use vstd::prelude::*;

use core::cmp::Ordering;

use crate::errors::ParseError;
use crate::geometry::{file_char, file_x, is_file_char, is_rank_char, rank_char, rank_y, Position};
use crate::pieces::PieceType;
use crate::text::one_char;

verus! {

#[derive(Debug, PartialEq, Eq, Clone, Copy, Structural)]
pub enum MoveType {
    Normal,
    LongCastling,
    ShortCastling,
    Promotion(PieceType),
}

/// A move from one square to another. Castling moves carry no squares of their own:
/// they are resolved against the mover's color when played.
#[derive(Debug, PartialEq, Eq, Clone, Copy, Structural)]
pub struct Move {
    pub from: Position,
    pub to: Position,
    pub tipo: MoveType,
}

/// The promotion targets a move text may name.
pub open spec fn promotion_piece(c: char) -> Option<PieceType> {
    match c {
        'r' => Some(PieceType::Rook),
        'n' => Some(PieceType::Knight),
        'b' => Some(PieceType::Bishop),
        'q' => Some(PieceType::Queen),
        _ => None,
    }
}

pub open spec fn short_castling_text() -> Seq<char> {
    seq!['O', '-', 'O']
}

pub open spec fn long_castling_text() -> Seq<char> {
    seq!['O', '-', 'O', '-', 'O']
}

/// Reads two characters as a square, the file first.
pub open spec fn parse_square(f: char, r: char) -> Result<Position, ParseError> {
    if !is_file_char(f) {
        Err(ParseError::BadFile)
    } else if !is_rank_char(r) {
        Err(ParseError::BadRank)
    } else {
        Ok(Position { x: file_x(f) as i8, y: rank_y(r) as i8 })
    }
}

/// What a move text means: `O-O`, `O-O-O`, `<from><to>` or `<from><to><promotion>`.
pub open spec fn parse_move(s: Seq<char>) -> Result<Move, ParseError> {
    let corner = Position { x: 0, y: 0 };
    if s == short_castling_text() {
        Ok(Move { from: corner, to: corner, tipo: MoveType::ShortCastling })
    } else if s == long_castling_text() {
        Ok(Move { from: corner, to: corner, tipo: MoveType::LongCastling })
    } else if s.len() != 4 && s.len() != 5 {
        Err(ParseError::BadLength)
    } else {
        match parse_square(s[0], s[1]) {
            Err(e) => Err(e),
            Ok(from) => match parse_square(s[2], s[3]) {
                Err(e) => Err(e),
                Ok(to) => if s.len() == 4 {
                    Ok(Move { from, to, tipo: MoveType::Normal })
                } else {
                    match promotion_piece(s[4]) {
                        Some(t) => Ok(Move { from, to, tipo: MoveType::Promotion(t) }),
                        None => Err(ParseError::BadPromotionLetter),
                    }
                },
            },
        }
    }
}

/// The text of a move: castling as its token, otherwise the two squares and the
/// promotion letter, if any.
pub open spec fn render_move(m: Move) -> Seq<char> {
    let squares = seq![
        file_char(m.from.x as int),
        rank_char(m.from.y as int),
        file_char(m.to.x as int),
        rank_char(m.to.y as int),
    ];
    match m.tipo {
        MoveType::Normal => squares,
        MoveType::Promotion(t) => squares.push(t.letter()),
        MoveType::ShortCastling => short_castling_text(),
        MoveType::LongCastling => long_castling_text(),
    }
}

/// Rendering a move read from a text gives that text back; only texts of 3, 4 or 5
/// characters are read at all.
pub proof fn lemma_parse_render_round_trip(s: Seq<char>)
    requires
        parse_move(s) is Ok,
    ensures
        render_move(parse_move(s)->Ok_0) == s,
        3 <= s.len() <= 5,
{
    let m = parse_move(s)->Ok_0;
    if s != short_castling_text() && s != long_castling_text() {
        assert(render_move(m) =~= s);
    }
}

fn parse_square_exec(f: char, r: char) -> (res: Result<Position, ParseError>)
    ensures
        res == parse_square(f, r),
{
    Position::from_chars(f, r)
}


impl Move {
    pub fn new(from: Position, to: Position, movetype: MoveType) -> (r: Move)
        ensures
            r == (Move { from, to, tipo: movetype }),
    {
        Move { from, to, tipo: movetype }
    }

    pub fn is_promotion(&self) -> (r: bool)
        ensures
            r == self.tipo is Promotion,
    {
        match self.tipo {
            MoveType::Promotion(_) => true,
            _ => false,
        }
    }

    /// Reads a move text; fails on a wrong length, a bad file or rank character, or a
    /// promotion letter other than `r`, `n`, `b`, `q`.
    pub fn from_string(s: &str) -> (r: Result<Move, ParseError>)
        ensures
            r == parse_move(s@),
    {
        let n = s.unicode_len();
        let corner = Position::new(0, 0);
        if n == 3 && s.get_char(0) == 'O' && s.get_char(1) == '-' && s.get_char(2) == 'O' {
            assert(s@ =~= short_castling_text());
            return Ok(Move { from: corner, to: corner, tipo: MoveType::ShortCastling });
        }
        if n == 5 && s.get_char(0) == 'O' && s.get_char(1) == '-' && s.get_char(2) == 'O'
            && s.get_char(3) == '-' && s.get_char(4) == 'O' {
            assert(s@ =~= long_castling_text());
            return Ok(Move { from: corner, to: corner, tipo: MoveType::LongCastling });
        }
        assert(s@ != short_castling_text()) by {
            if s@ == short_castling_text() {
                assert(s@[0] == 'O' && s@[1] == '-' && s@[2] == 'O');
            }
        }
        assert(s@ != long_castling_text()) by {
            if s@ == long_castling_text() {
                assert(s@[3] == '-' && s@[4] == 'O');
            }
        }
        if n != 4 && n != 5 {
            return Err(ParseError::BadLength);
        }
        let from = match parse_square_exec(s.get_char(0), s.get_char(1)) {
            Ok(p) => p,
            Err(e) => {
                return Err(e);
            },
        };
        let to = match parse_square_exec(s.get_char(2), s.get_char(3)) {
            Ok(p) => p,
            Err(e) => {
                return Err(e);
            },
        };
        if n == 4 {
            return Ok(Move { from, to, tipo: MoveType::Normal });
        }
        let t = match s.get_char(4) {
            'r' => PieceType::Rook,
            'n' => PieceType::Knight,
            'b' => PieceType::Bishop,
            'q' => PieceType::Queen,
            _ => {
                return Err(ParseError::BadPromotionLetter);
            },
        };
        Ok(Move { from, to, tipo: MoveType::Promotion(t) })
    }

    pub fn safe_from_string(s: &str) -> (r: Move)
        requires
            parse_move(s@) is Ok,
        ensures
            parse_move(s@) == Ok::<Move, ParseError>(r),
    {
        match Move::from_string(s) {
            Ok(m) => m,
            Err(_) => Move::new(Position::new(0, 0), Position::new(0, 0), MoveType::Normal),
        }
    }

    /// The text of this move; `from_string` reads it back.
    pub fn to_string(&self) -> (r: String)
        ensures
            r@ == render_move(*self),
    {
        match self.tipo {
            MoveType::ShortCastling => {
                proof {
                    reveal_strlit("O-O");
                }
                String::from_str("O-O")
            },
            MoveType::LongCastling => {
                proof {
                    reveal_strlit("O-O-O");
                }
                String::from_str("O-O-O")
            },
            _ => {
                let mut r = self.from.to_string();
                r.append(self.to.to_string().as_str());
                if let MoveType::Promotion(t) = self.tipo {
                    r.append(one_char(t.to_char()).as_str());
                }
                assert(r@ =~= render_move(*self));
                r
            },
        }
    }
}

#[derive(Debug, PartialEq, Eq, PartialOrd, Ord, Clone, Copy, Structural)]
pub enum BoardValue {
    WonBlack,
    Value(i32),
    WonWhite,
    Invalid,
}

impl BoardValue {
    /// Position in the ordering `WonBlack < Value(_) < WonWhite < Invalid`.
    pub open spec fn rank(self) -> int {
        match self {
            BoardValue::WonBlack => 0,
            BoardValue::Value(_) => 1,
            BoardValue::WonWhite => 2,
            BoardValue::Invalid => 3,
        }
    }

    /// Strictly better for White.
    pub open spec fn above(self, other: BoardValue) -> bool {
        match (self, other) {
            (BoardValue::Value(a), BoardValue::Value(b)) => a > b,
            _ => self.rank() > other.rank(),
        }
    }

    pub open spec fn compare(self, other: BoardValue) -> Ordering {
        if self.above(other) {
            Ordering::Greater
        } else if other.above(self) {
            Ordering::Less
        } else {
            Ordering::Equal
        }
    }

    pub fn is_valid(&self) -> (r: bool)
        ensures
            r == !(*self is Invalid),
    {
        match *self {
            BoardValue::Invalid => false,
            _ => true,
        }
    }

    /// Whether this value is strictly better for White than `other`.
    pub fn is_above(&self, other: &BoardValue) -> (r: bool)
        ensures
            r == self.above(*other),
    {
        match (*self, *other) {
            (BoardValue::Value(a), BoardValue::Value(b)) => a > b,
            _ => self.rank_of() > other.rank_of(),
        }
    }

    fn rank_of(&self) -> (r: u8)
        ensures
            r == self.rank(),
    {
        match *self {
            BoardValue::WonBlack => 0,
            BoardValue::Value(_) => 1,
            BoardValue::WonWhite => 2,
            BoardValue::Invalid => 3,
        }
    }
}

/// A move paired with what it is worth. Two valued moves compare by their values.
#[derive(Debug, Clone, Copy)]
pub struct ValuedMove {
    pub mov: Move,
    pub value: BoardValue,
}

impl ValuedMove {
    pub fn from_move(mov: Move) -> (r: ValuedMove)
        ensures
            r == (ValuedMove { mov, value: BoardValue::Invalid }),
    {
        ValuedMove { mov, value: BoardValue::Invalid }
    }

    pub fn new(from: Position, to: Position, movetype: MoveType) -> (r: ValuedMove)
        ensures
            r == (ValuedMove {
                mov: Move { from, to, tipo: movetype },
                value: BoardValue::Invalid,
            }),
    {
        ValuedMove { mov: Move { from, to, tipo: movetype }, value: BoardValue::Invalid }
    }

    /// The a1-a2 placeholder move, not yet valued.
    pub fn invalid() -> (r: ValuedMove)
        ensures
            r.mov == (Move {
                from: Position { x: 2, y: 2 },
                to: Position { x: 2, y: 3 },
                tipo: MoveType::Normal,
            }),
            r.value == BoardValue::Invalid,
    {
        ValuedMove::from_value(BoardValue::Invalid)
    }

    /// The a1-a2 placeholder move carrying `value`.
    pub fn from_value(value: BoardValue) -> (r: ValuedMove)
        ensures
            r.mov == (Move {
                from: Position { x: 2, y: 2 },
                to: Position { x: 2, y: 3 },
                tipo: MoveType::Normal,
            }),
            r.value == value,
    {
        ValuedMove {
            mov: Move {
                from: Position::safe_from_chars('a', '1'),
                to: Position::safe_from_chars('a', '2'),
                tipo: MoveType::Normal,
            },
            value,
        }
    }
}

impl PartialEq for ValuedMove {
    fn eq(&self, other: &ValuedMove) -> (r: bool) {
        self.value == other.value
    }
}

impl Eq for ValuedMove {

}

impl vstd::std_specs::cmp::PartialEqSpecImpl for ValuedMove {
    open spec fn obeys_eq_spec() -> bool {
        true
    }

    open spec fn eq_spec(&self, other: &ValuedMove) -> bool {
        self.value == other.value
    }
}

impl PartialOrd for ValuedMove {
    fn partial_cmp(&self, other: &ValuedMove) -> (r: Option<Ordering>) {
        if self.value.is_above(&other.value) {
            Some(Ordering::Greater)
        } else if other.value.is_above(&self.value) {
            Some(Ordering::Less)
        } else {
            Some(Ordering::Equal)
        }
    }
}

impl vstd::std_specs::cmp::PartialOrdSpecImpl for ValuedMove {
    open spec fn obeys_partial_cmp_spec() -> bool {
        true
    }

    open spec fn partial_cmp_spec(&self, other: &ValuedMove) -> Option<Ordering> {
        Some(self.value.compare(other.value))
    }
}

} // verus!
