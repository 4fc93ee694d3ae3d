use vstd::prelude::*;

use crate::game::{king_of, Game};
use crate::geometry::{lemma_square_at, Direction, Position, PositionDelta};
use crate::moves::Move;
use crate::pieces::{Color, Piece, PieceType, Square};

verus! {

/// An upper bound on the steps a ray from `(x, y)` in `d` takes inside the grid.
pub open spec fn ray_measure(x: int, y: int, d: Direction) -> nat {
    let m = if d.dx() == 1 {
        12 - x
    } else if d.dx() == -1 {
        x + 1
    } else if d.dy() == 1 {
        12 - y
    } else {
        y + 1
    };
    if m < 0 {
        0
    } else {
        m as nat
    }
}

pub open spec fn holding(c: Color, t: PieceType) -> Option<Square> {
    Some(Square { content: Some(Piece { tipo: t, color: c }) })
}

impl Game {
    /// Walking from `(x, y)` in `d` arrives at `(tx, ty)` having crossed only empty squares.
    pub open spec fn reaches(self, x: int, y: int, tx: int, ty: int, d: Direction) -> bool
        decreases ray_measure(x, y, d),
    {
        let nx = x + d.dx();
        let ny = y + d.dy();
        if nx == tx && ny == ty {
            true
        } else {
            match self.cell(nx, ny) {
                Some(sq) => if sq.content is None {
                    self.reaches(nx, ny, tx, ty, d)
                } else {
                    false
                },
                None => false,
            }
        }
    }

    /// The first piece met walking from `(x, y)` in `d`, if any before the border.
    pub open spec fn ray_first(self, x: int, y: int, d: Direction) -> Option<Piece>
        decreases ray_measure(x, y, d),
    {
        let nx = x + d.dx();
        let ny = y + d.dy();
        match self.cell(nx, ny) {
            Some(sq) => match sq.content {
                None => self.ray_first(nx, ny, d),
                Some(pc) => Some(pc),
            },
            None => None,
        }
    }

    /// A leaper of type `t` and color `c` sits at the `i`-th offset of `t` from `p`.
    pub open spec fn leaper_hit(self, p: Position, c: Color, t: PieceType, i: int) -> bool {
        self.cell(p.x + t.deltas()[i].0, p.y + t.deltas()[i].1) == holding(c, t)
    }

    pub open spec fn leaper_attacks(self, p: Position, c: Color, t: PieceType) -> bool {
        exists|i: int| 0 <= i < 8 && #[trigger] self.leaper_hit(p, c, t, i)
    }

    /// The first piece in the `i`-th direction of `t` from `p` is a `t` of color `c`.
    pub open spec fn slider_hit(self, p: Position, c: Color, t: PieceType, i: int) -> bool {
        self.ray_first(p.x as int, p.y as int, t.dirs()[i]) == Some(Piece { tipo: t, color: c })
    }

    pub open spec fn slider_attacks(self, p: Position, c: Color, t: PieceType) -> bool {
        exists|i: int| 0 <= i < t.dirs().len() && #[trigger] self.slider_hit(p, c, t, i)
    }

    /// A pawn of color `c` stands diagonally behind `p`, from `c`'s point of view.
    pub open spec fn pawn_attacks(self, p: Position, c: Color) -> bool {
        let back = if c == Color::White {
            -1
        } else {
            1
        };
        self.cell(p.x - 1, p.y + back) == holding(c, PieceType::Pawn) || self.cell(
            p.x + 1,
            p.y + back,
        ) == holding(c, PieceType::Pawn)
    }

    /// Some piece of color `c` could capture on `p`.
    pub open spec fn attacked_by(self, p: Position, c: Color) -> bool {
        ||| self.leaper_attacks(p, c, PieceType::King)
        ||| self.slider_attacks(p, c, PieceType::Queen)
        ||| self.slider_attacks(p, c, PieceType::Rook)
        ||| self.slider_attacks(p, c, PieceType::Bishop)
        ||| self.leaper_attacks(p, c, PieceType::Knight)
        ||| self.pawn_attacks(p, c)
    }

    /// The side to move could capture the other side's king (the first one found).
    pub open spec fn king_capturable(self) -> bool {
        match self.king_from(self.turn.opposite(), 0) {
            Some(k) => self.attacked_by(k, self.turn),
            None => false,
        }
    }

    /// Walks from `mov.from` in `dir` and tells whether `mov.to` is reached across
    /// empty squares only.
    pub fn get_to_by(&self, mov: &Move, dir: Direction) -> (r: bool)
        requires
            mov.from.in_grid(),
        ensures
            r == self.reaches(mov.from.x as int, mov.from.y as int, mov.to.x as int, mov.to.y as int, dir),
    {
        let mut p: Position = mov.from;
        loop
            invariant
                p.in_grid(),
                self.reaches(p.x as int, p.y as int, mov.to.x as int, mov.to.y as int, dir)
                    == self.reaches(mov.from.x as int, mov.from.y as int, mov.to.x as int, mov.to.y as int, dir),
            decreases ray_measure(p.x as int, p.y as int, dir),
        {
            let next = p.go(dir);
            if next == mov.to {
                return true;
            }
            match self.get_raw_square(next) {
                Some(sq) => {
                    if sq.content.is_some() {
                        return false;
                    }
                },
                None => {
                    return false;
                },
            }
            p = next;
        }
    }

    /// The first piece met walking from `pos` in `dir`.
    pub fn first_piece_toward(&self, pos: Position, dir: Direction) -> (r: Option<Piece>)
        requires
            pos.in_grid(),
        ensures
            r == self.ray_first(pos.x as int, pos.y as int, dir),
    {
        let mut p: Position = pos;
        loop
            invariant
                p.in_grid(),
                self.ray_first(p.x as int, p.y as int, dir) == self.ray_first(pos.x as int, pos.y as int, dir),
            decreases ray_measure(p.x as int, p.y as int, dir),
        {
            let next = p.go(dir);
            match self.get_raw_square(next) {
                Some(sq) => match sq.content {
                    Some(pc) => {
                        return Some(pc);
                    },
                    None => {},
                },
                None => {
                    return None;
                },
            }
            p = next;
        }
    }

    fn leaper_attack(&self, pos: Position, color: Color, t: PieceType) -> (r: bool)
        requires
            pos.in_grid(),
            t.is_leaper(),
        ensures
            r == self.leaper_attacks(pos, color, t),
    {
        let deltas = t.get_posible_deltas();
        let target = Piece::new(color, t);
        let mut i: usize = 0;
        while i < 8
            invariant
                pos.in_grid(),
                t.is_leaper(),
                target == (Piece { tipo: t, color }),
                deltas@.len() == 8,
                forall|j: int|
                    0 <= j < 8 ==> (#[trigger] deltas@[j]).x == t.deltas()[j].0 && deltas@[j].y
                        == t.deltas()[j].1,
                i <= 8,
                forall|j: int| 0 <= j < i ==> !#[trigger] self.leaper_hit(pos, color, t, j),
            decreases 8 - i,
        {
            let d: PositionDelta = deltas[i];
            let to = pos + d;
            if let Some(sq) = self.get_raw_square(to) {
                if sq.contains(target) {
                    assert(self.leaper_hit(pos, color, t, i as int));
                    return true;
                }
            }
            i = i + 1;
        }
        false
    }

    fn slider_attack(&self, pos: Position, color: Color, t: PieceType) -> (r: bool)
        requires
            pos.in_grid(),
            t.is_slider(),
        ensures
            r == self.slider_attacks(pos, color, t),
    {
        let dirs = t.get_posible_dirs();
        let target = Piece::new(color, t);
        let mut i: usize = 0;
        while i < dirs.len()
            invariant
                pos.in_grid(),
                dirs@ == t.dirs(),
                target == (Piece { tipo: t, color }),
                i <= dirs@.len(),
                forall|j: int| 0 <= j < i ==> !#[trigger] self.slider_hit(pos, color, t, j),
            decreases dirs@.len() - i,
        {
            if self.first_piece_toward(pos, dirs[i]) == Some(target) {
                assert(self.slider_hit(pos, color, t, i as int));
                return true;
            }
            i = i + 1;
        }
        false
    }

    fn pawn_attack(&self, pos: Position, color: Color) -> (r: bool)
        requires
            pos.in_grid(),
        ensures
            r == self.pawn_attacks(pos, color),
    {
        let back = match color {
            Color::White => Direction::Down,
            Color::Black => Direction::Up,
        };
        let target = Piece::new(color, PieceType::Pawn);
        let behind = pos.go(back);
        let candidates = [behind.left(), behind.right()];
        let mut i: usize = 0;
        while i < 2
            invariant
                i <= 2,
                target == (Piece { tipo: PieceType::Pawn, color }),
                candidates@ == seq![behind.step(Direction::Left), behind.step(Direction::Right)],
                behind == pos.step(back),
                back.dy() == (if color == Color::White { -1int } else { 1 }),
                back.dx() == 0,
                pos.in_grid(),
                forall|j: int|
                    0 <= j < i ==> self.at(#[trigger] candidates@[j]) != holding(color, PieceType::Pawn),
            decreases 2 - i,
        {
            if let Some(sq) = self.get_raw_square(candidates[i]) {
                if sq.contains(target) {
                    return true;
                }
            }
            i = i + 1;
        }
        assert(self.at(candidates@[0]) != holding(color, PieceType::Pawn));
        assert(self.at(candidates@[1]) != holding(color, PieceType::Pawn));
        false
    }

    /// Whether a piece of `color` could capture on `from_pos`.
    pub fn can_be_eaten_by(&self, from_pos: Position, color: Color) -> (r: bool)
        requires
            from_pos.in_grid(),
        ensures
            r == self.attacked_by(from_pos, color),
    {
        self.leaper_attack(from_pos, color, PieceType::King) || self.slider_attack(
            from_pos,
            color,
            PieceType::Queen,
        ) || self.slider_attack(from_pos, color, PieceType::Rook) || self.slider_attack(
            from_pos,
            color,
            PieceType::Bishop,
        ) || self.leaper_attack(from_pos, color, PieceType::Knight) || self.pawn_attack(
            from_pos,
            color,
        )
    }

    /// Whether the side to move could capture the other side's king.
    pub fn can_eat_king(&self) -> (r: bool)
        requires
            self.has_king(self.turn.opposite()),
        ensures
            r == self.king_capturable(),
    {
        let color = self.turn;
        let king = Piece::new(color.opposite_color(), PieceType::King);
        let mut it = Position::all();
        loop
            invariant
                it.wf(),
                0 <= it.next_index() <= 64,
                color == self.turn,
                king == king_of(color.opposite()),
                self.king_from(color.opposite(), 0) == self.king_from(color.opposite(), it.next_index()),
                self.has_king(self.turn.opposite()),
            decreases 64 - it.next_index(),
        {
            let ghost i = it.next_index();
            match it.next() {
                Some(pos) => {
                    proof {
                        lemma_square_at(i);
                    }
                    if let Some(sq) = self.get_raw_square(pos) {
                        if sq.contains(king) {
                            return self.can_be_eaten_by(pos, color);
                        }
                    }
                },
                None => {
                    return false;
                },
            }
        }
    }

    /// Whether a king of `color` stands on the board.
    pub fn contains_king(&self, color: Color) -> (r: bool)
        ensures
            r == self.has_king(color),
    {
        let king = Piece::new(color, PieceType::King);
        let mut it = Position::all();
        loop
            invariant
                it.wf(),
                0 <= it.next_index() <= 64,
                king == king_of(color),
                self.king_from(color, 0) == self.king_from(color, it.next_index()),
            decreases 64 - it.next_index(),
        {
            let ghost i = it.next_index();
            match it.next() {
                Some(pos) => {
                    proof {
                        lemma_square_at(i);
                    }
                    if let Some(sq) = self.get_raw_square(pos) {
                        if sq.contains(king) {
                            return true;
                        }
                    }
                },
                None => {
                    return false;
                },
            }
        }
    }
}

} // verus!
