use vstd::prelude::*;

use crate::errors::ParseError;
use crate::text::one_char;

verus! {

/// A file coordinate in the padded 12×12 grid.
pub type X = i8;

/// A rank coordinate in the padded 12×12 grid.
pub type Y = i8;

/// A cell of the padded 12×12 grid. The playing area is `[2, 9] × [2, 9]`;
/// the two rows and columns around it are the sentinel border.
#[derive(Debug, PartialEq, Eq, Clone, Copy, Structural)]
pub struct Position {
    pub x: X,
    pub y: Y,
}

#[derive(Debug, PartialEq, Eq, Clone, Copy, Structural)]
pub enum Direction {
    Up,
    Down,
    Left,
    Right,
    UpRight,
    UpLeft,
    DownRight,
    DownLeft,
}

impl Direction {
    pub open spec fn dx(self) -> int {
        match self {
            Direction::Right | Direction::UpRight | Direction::DownRight => 1,
            Direction::Left | Direction::UpLeft | Direction::DownLeft => -1,
            _ => 0,
        }
    }

    pub open spec fn dy(self) -> int {
        match self {
            Direction::Up | Direction::UpRight | Direction::UpLeft => 1,
            Direction::Down | Direction::DownRight | Direction::DownLeft => -1,
            _ => 0,
        }
    }

    pub open spec fn index(self) -> int {
        match self {
            Direction::Up => 0,
            Direction::Down => 1,
            Direction::Left => 2,
            Direction::Right => 3,
            Direction::UpRight => 4,
            Direction::UpLeft => 5,
            Direction::DownRight => 6,
            Direction::DownLeft => 7,
        }
    }

    pub fn to_int(&self) -> (r: usize)
        ensures
            r == self.index(),
    {
        match *self {
            Direction::Up => 0,
            Direction::Down => 1,
            Direction::Left => 2,
            Direction::Right => 3,
            Direction::UpRight => 4,
            Direction::UpLeft => 5,
            Direction::DownRight => 6,
            Direction::DownLeft => 7,
        }
    }
}

pub open spec fn is_file_char(c: char) -> bool {
    'a' <= c && c <= 'h'
}

pub open spec fn is_rank_char(c: char) -> bool {
    '1' <= c && c <= '8'
}

/// Grid column of a file letter: `a` is 2, `h` is 9.
pub open spec fn file_x(c: char) -> int {
    c as int - 'a' as int + 2
}

/// Grid row of a rank digit: `1` is 2, `8` is 9.
pub open spec fn rank_y(c: char) -> int {
    c as int - '1' as int + 2
}

/// The file letter of a grid column of the playing area, `E` elsewhere.
pub open spec fn file_char(x: int) -> char {
    if 2 <= x <= 9 {
        (x - 2 + 'a' as int) as char
    } else {
        'E'
    }
}

/// The rank digit of a grid row of the playing area, `E` elsewhere.
pub open spec fn rank_char(y: int) -> char {
    if 2 <= y <= 9 {
        (y - 2 + '1' as int) as char
    } else {
        'E'
    }
}

/// The `i`-th square of the playing area in rank-then-file order: a1, b1, ..., h1, a2, ..., h8.
pub open spec fn square_at(i: int) -> Position {
    Position { x: (2 + i % 8) as i8, y: (2 + i / 8) as i8 }
}

/// Where a square of the playing area stands in that order.
pub open spec fn square_index(p: Position) -> int {
    (p.y - 2) * 8 + (p.x - 2)
}

pub proof fn lemma_square_at(i: int)
    requires
        0 <= i < 64,
    ensures
        square_at(i).on_board(),
        square_index(square_at(i)) == i,
        square_at(i).x == 2 + i % 8,
        square_at(i).y == 2 + i / 8,
{
}

pub proof fn lemma_square_index(p: Position)
    requires
        p.on_board(),
    ensures
        0 <= square_index(p) < 64,
        square_at(square_index(p)) == p,
{
    let i = square_index(p);
    assert(i % 8 == p.x - 2 && i / 8 == p.y - 2) by (nonlinear_arith)
        requires
            i == (p.y - 2) * 8 + (p.x - 2),
            0 <= p.x - 2 < 8,
            0 <= p.y - 2 < 8,
    ;
}

impl Position {
    /// Inside the 12×12 grid, border included.
    pub open spec fn in_grid(self) -> bool {
        0 <= self.x < 12 && 0 <= self.y < 12
    }

    /// Inside the 8×8 playing area.
    pub open spec fn on_board(self) -> bool {
        2 <= self.x <= 9 && 2 <= self.y <= 9
    }

    /// One step in `dir` stays within the range of the coordinate type.
    pub open spec fn can_go(self, dir: Direction) -> bool {
        i8::MIN <= self.x + dir.dx() <= i8::MAX && i8::MIN <= self.y + dir.dy() <= i8::MAX
    }

    pub open spec fn step(self, dir: Direction) -> Position {
        Position { x: (self.x + dir.dx()) as i8, y: (self.y + dir.dy()) as i8 }
    }

    /// Adding `d` stays within the range of the coordinate type.
    pub open spec fn can_add(self, d: PositionDelta) -> bool {
        i8::MIN <= self.x + d.x <= i8::MAX && i8::MIN <= self.y + d.y <= i8::MAX
    }

    pub open spec fn plus(self, d: PositionDelta) -> Position {
        Position { x: (self.x + d.x) as i8, y: (self.y + d.y) as i8 }
    }

    pub fn new(x: X, y: Y) -> (r: Position)
        ensures
            r == (Position { x, y }),
    {
        Position { x, y }
    }

    pub fn from_chars(x: char, y: char) -> (r: Result<Position, ParseError>)
        ensures
            !is_file_char(x) ==> r == Err::<Position, ParseError>(ParseError::BadFile),
            is_file_char(x) && !is_rank_char(y) ==> r == Err::<Position, ParseError>(
                ParseError::BadRank,
            ),
            is_file_char(x) && is_rank_char(y) ==> r == Ok::<Position, ParseError>(
                Position { x: file_x(x) as i8, y: rank_y(y) as i8 },
            ),
    {
        if !('a' <= x && x <= 'h') {
            return Err(ParseError::BadFile);
        }
        if !('1' <= y && y <= '8') {
            return Err(ParseError::BadRank);
        }
        Ok(Position { x: Position::ch2x(x), y: Position::ch2y(y) })
    }

    pub fn safe_from_chars(x: char, y: char) -> (r: Position)
        requires
            is_file_char(x),
            is_rank_char(y),
        ensures
            r == (Position { x: file_x(x) as i8, y: rank_y(y) as i8 }),
            r.on_board(),
    {
        Position { x: Position::ch2x(x), y: Position::ch2y(y) }
    }

    pub fn ch2y(y: char) -> (r: Y)
        requires
            is_rank_char(y),
        ensures
            r == rank_y(y),
    {
        match y {
            '1' => 2,
            '2' => 3,
            '3' => 4,
            '4' => 5,
            '5' => 6,
            '6' => 7,
            '7' => 8,
            _ => 9,
        }
    }

    pub fn ch2x(x: char) -> (r: X)
        requires
            is_file_char(x),
        ensures
            r == file_x(x),
    {
        match x {
            'a' => 2,
            'b' => 3,
            'c' => 4,
            'd' => 5,
            'e' => 6,
            'f' => 7,
            'g' => 8,
            _ => 9,
        }
    }

    /// The file letter of this position (`E` off the playing area).
    pub fn file_char(&self) -> (r: char)
        ensures
            r == file_char(self.x as int),
    {
        match self.x {
            2 => 'a',
            3 => 'b',
            4 => 'c',
            5 => 'd',
            6 => 'e',
            7 => 'f',
            8 => 'g',
            9 => 'h',
            _ => 'E',
        }
    }

    /// The rank digit of this position (`E` off the playing area).
    pub fn rank_char(&self) -> (r: char)
        ensures
            r == rank_char(self.y as int),
    {
        match self.y {
            2 => '1',
            3 => '2',
            4 => '3',
            5 => '4',
            6 => '5',
            7 => '6',
            8 => '7',
            9 => '8',
            _ => 'E',
        }
    }

    /// The algebraic name of this position, `E` standing for a coordinate off the
    /// playing area.
    pub fn to_string(&self) -> (r: String)
        ensures
            r@ == seq![file_char(self.x as int), rank_char(self.y as int)],
    {
        let mut r = one_char(self.file_char());
        r.append(one_char(self.rank_char()).as_str());
        assert(r@ =~= seq![file_char(self.x as int), rank_char(self.y as int)]);
        r
    }

    pub fn go(&self, dir: Direction) -> (r: Position)
        requires
            self.can_go(dir),
        ensures
            r == self.step(dir),
    {
        match dir {
            Direction::Up => self.up(),
            Direction::Down => self.down(),
            Direction::Right => self.right(),
            Direction::Left => self.left(),
            Direction::UpRight => self.up().right(),
            Direction::UpLeft => self.up().left(),
            Direction::DownRight => self.down().right(),
            Direction::DownLeft => self.down().left(),
        }
    }

    pub fn up(&self) -> (r: Position)
        requires
            self.y < i8::MAX,
        ensures
            r == self.step(Direction::Up),
    {
        Position::new(self.x, self.y + 1)
    }

    pub fn down(&self) -> (r: Position)
        requires
            self.y > i8::MIN,
        ensures
            r == self.step(Direction::Down),
    {
        Position::new(self.x, self.y - 1)
    }

    pub fn right(&self) -> (r: Position)
        requires
            self.x < i8::MAX,
        ensures
            r == self.step(Direction::Right),
    {
        Position::new(self.x + 1, self.y)
    }

    pub fn left(&self) -> (r: Position)
        requires
            self.x > i8::MIN,
        ensures
            r == self.step(Direction::Left),
    {
        Position::new(self.x - 1, self.y)
    }

    /// The 64 squares of the playing area, a1 first and h8 last, rank by rank.
    pub fn all() -> (r: AllPositionsIterator)
        ensures
            r.wf(),
            r.next_index() == 0,
    {
        AllPositionsIterator { curr: Position::new(0, 0) }
    }

    /// The endless ray of positions from this one (excluded) in `dir`.
    pub fn iter_to(&self, dir: Direction) -> (r: PositionIterator)
        ensures
            r == (PositionIterator { curr: *self, dir }),
    {
        PositionIterator { curr: *self, dir }
    }
}

impl core::ops::Add<PositionDelta> for Position {
    type Output = Position;

    fn add(self, rhs: PositionDelta) -> Position {
        Position { x: self.x + rhs.x, y: self.y + rhs.y }
    }
}

impl vstd::std_specs::ops::AddSpecImpl<PositionDelta> for Position {
    open spec fn obeys_add_spec() -> bool {
        true
    }

    open spec fn add_req(self, rhs: PositionDelta) -> bool {
        self.can_add(rhs)
    }

    open spec fn add_spec(self, rhs: PositionDelta) -> Position {
        self.plus(rhs)
    }
}

/// A displacement between two positions.
#[derive(Debug, PartialEq, Eq, Clone, Copy, Structural)]
pub struct PositionDelta {
    pub x: X,
    pub y: Y,
}

/// Total file displacement of a sequence of single steps.
pub open spec fn sum_dx(dirs: Seq<Direction>) -> int
    decreases dirs.len(),
{
    if dirs.len() == 0 {
        0
    } else {
        sum_dx(dirs.drop_last()) + dirs.last().dx()
    }
}

/// Total rank displacement of a sequence of single steps.
pub open spec fn sum_dy(dirs: Seq<Direction>) -> int
    decreases dirs.len(),
{
    if dirs.len() == 0 {
        0
    } else {
        sum_dy(dirs.drop_last()) + dirs.last().dy()
    }
}

proof fn lemma_sum_bounds(dirs: Seq<Direction>)
    ensures
        -dirs.len() <= sum_dx(dirs) <= dirs.len(),
        -dirs.len() <= sum_dy(dirs) <= dirs.len(),
    decreases dirs.len(),
{
    if dirs.len() > 0 {
        lemma_sum_bounds(dirs.drop_last());
    }
}

impl PositionDelta {
    pub fn new(x: X, y: Y) -> (r: PositionDelta)
        ensures
            r == (PositionDelta { x, y }),
    {
        PositionDelta { x, y }
    }

    pub fn empty() -> (r: PositionDelta)
        ensures
            r == (PositionDelta { x: 0, y: 0 }),
    {
        PositionDelta { x: 0, y: 0 }
    }

    pub fn from_dir(dir: Direction) -> (r: PositionDelta)
        ensures
            r.x == dir.dx(),
            r.y == dir.dy(),
    {
        match dir {
            Direction::Up => PositionDelta::new(0, 1),
            Direction::Down => PositionDelta::new(0, -1),
            Direction::Right => PositionDelta::new(1, 0),
            Direction::Left => PositionDelta::new(-1, 0),
            Direction::UpRight => PositionDelta::new(1, 1),
            Direction::UpLeft => PositionDelta::new(-1, 1),
            Direction::DownRight => PositionDelta::new(1, -1),
            Direction::DownLeft => PositionDelta::new(-1, -1),
        }
    }

    /// The sum of one step in each of `dirs`.
    pub fn from_dirs(dirs: &[Direction]) -> (r: PositionDelta)
        requires
            dirs@.len() <= 127,
        ensures
            r.x == sum_dx(dirs@),
            r.y == sum_dy(dirs@),
    {
        let mut acc = PositionDelta::empty();
        let mut i: usize = 0;
        while i < dirs.len()
            invariant
                i <= dirs@.len() <= 127,
                acc.x == sum_dx(dirs@.subrange(0, i as int)),
                acc.y == sum_dy(dirs@.subrange(0, i as int)),
            decreases dirs@.len() - i,
        {
            let ghost before = dirs@.subrange(0, i as int);
            let ghost after = dirs@.subrange(0, i as int + 1);
            proof {
                assert(after.drop_last() == before);
                lemma_sum_bounds(before);
            }
            let step = PositionDelta::from_dir(dirs[i]);
            acc = PositionDelta::new(acc.x + step.x, acc.y + step.y);
            i = i + 1;
        }
        proof {
            assert(dirs@.subrange(0, dirs@.len() as int) == dirs@);
        }
        acc
    }

    pub fn apply_dir(&self, dir: Direction) -> (r: PositionDelta)
        requires
            i8::MIN <= self.x + dir.dx() <= i8::MAX,
            i8::MIN <= self.y + dir.dy() <= i8::MAX,
        ensures
            r.x == self.x + dir.dx(),
            r.y == self.y + dir.dy(),
    {
        *self + PositionDelta::from_dir(dir)
    }

    pub fn apply_dirs(&self, dirs: &[Direction]) -> (r: PositionDelta)
        requires
            dirs@.len() <= 127,
            i8::MIN <= self.x + sum_dx(dirs@) <= i8::MAX,
            i8::MIN <= self.y + sum_dy(dirs@) <= i8::MAX,
        ensures
            r.x == self.x + sum_dx(dirs@),
            r.y == self.y + sum_dy(dirs@),
    {
        *self + PositionDelta::from_dirs(dirs)
    }

    pub fn up(&self) -> (r: PositionDelta)
        requires
            self.y < i8::MAX,
        ensures
            r == (PositionDelta { x: self.x, y: (self.y + 1) as i8 }),
    {
        PositionDelta { y: self.y + 1, ..*self }
    }

    pub fn down(&self) -> (r: PositionDelta)
        requires
            self.y > i8::MIN,
        ensures
            r == (PositionDelta { x: self.x, y: (self.y - 1) as i8 }),
    {
        PositionDelta { y: self.y - 1, ..*self }
    }

    pub fn right(&self) -> (r: PositionDelta)
        requires
            self.x < i8::MAX,
        ensures
            r == (PositionDelta { x: (self.x + 1) as i8, y: self.y }),
    {
        PositionDelta { x: self.x + 1, ..*self }
    }

    pub fn left(&self) -> (r: PositionDelta)
        requires
            self.x > i8::MIN,
        ensures
            r == (PositionDelta { x: (self.x - 1) as i8, y: self.y }),
    {
        PositionDelta { x: self.x - 1, ..*self }
    }
}

impl core::ops::Add<PositionDelta> for PositionDelta {
    type Output = PositionDelta;

    fn add(self, rhs: PositionDelta) -> PositionDelta {
        PositionDelta { x: self.x + rhs.x, y: self.y + rhs.y }
    }
}

impl vstd::std_specs::ops::AddSpecImpl<PositionDelta> for PositionDelta {
    open spec fn obeys_add_spec() -> bool {
        true
    }

    open spec fn add_req(self, rhs: PositionDelta) -> bool {
        i8::MIN <= self.x + rhs.x <= i8::MAX && i8::MIN <= self.y + rhs.y <= i8::MAX
    }

    open spec fn add_spec(self, rhs: PositionDelta) -> PositionDelta {
        PositionDelta { x: (self.x + rhs.x) as i8, y: (self.y + rhs.y) as i8 }
    }
}

impl core::ops::Neg for PositionDelta {
    type Output = PositionDelta;

    fn neg(self) -> PositionDelta {
        PositionDelta { x: -self.x, y: -self.y }
    }
}

impl vstd::std_specs::ops::NegSpecImpl for PositionDelta {
    open spec fn obeys_neg_spec() -> bool {
        true
    }

    open spec fn neg_req(self) -> bool {
        self.x > i8::MIN && self.y > i8::MIN
    }

    open spec fn neg_spec(self) -> PositionDelta {
        PositionDelta { x: (-self.x) as i8, y: (-self.y) as i8 }
    }
}

/// Walks the playing area square by square in rank-then-file order.
/// `curr` is the square last handed out; `(0, 0)` before the first one.
pub struct AllPositionsIterator {
    pub curr: Position,
}

impl AllPositionsIterator {
    pub open spec fn wf(self) -> bool {
        self.curr == Position { x: 0, y: 0 } || self.curr.on_board()
    }

    /// How many squares have been handed out so far.
    pub open spec fn next_index(self) -> int {
        if self.curr == (Position { x: 0, y: 0 }) {
            0
        } else {
            square_index(self.curr) + 1
        }
    }

    pub fn next(&mut self) -> (r: Option<Position>)
        requires
            old(self).wf(),
        ensures
            final(self).wf(),
            old(self).next_index() < 64 ==> r == Some(square_at(old(self).next_index()))
                && final(self).next_index() == old(self).next_index() + 1,
            old(self).next_index() >= 64 ==> r is None && *final(self) == *old(self),
    {
        let c = self.curr;
        if c.x == 0 && c.y == 0 {
            self.curr = Position::new(2, 2);
            proof {
                lemma_square_at(0);
            }
            Some(self.curr)
        } else if c.x == 9 && c.y == 9 {
            None
        } else if c.x == 9 {
            self.curr = Position::new(2, c.y + 1);
            proof {
                lemma_square_index(self.curr);
                lemma_square_index(c);
            }
            Some(self.curr)
        } else {
            self.curr = Position::new(c.x + 1, c.y);
            proof {
                lemma_square_index(self.curr);
                lemma_square_index(c);
            }
            Some(self.curr)
        }
    }

    /// Skips `n` squares and hands out the next one.
    pub fn nth(&mut self, n: usize) -> (r: Option<Position>)
        requires
            old(self).wf(),
        ensures
            final(self).wf(),
            old(self).next_index() + n < 64 ==> r == Some(square_at(old(self).next_index() + n)),
            old(self).next_index() + n >= 64 ==> r is None,
    {
        let mut k: usize = 0;
        while k < n
            invariant
                self.wf(),
                k <= n,
                self.next_index() == if old(self).next_index() + k < 64 {
                    old(self).next_index() + k
                } else {
                    64
                },
            decreases n - k,
        {
            self.next();
            k = k + 1;
        }
        self.next()
    }

    /// How many squares are left.
    pub fn count(self) -> (r: usize)
        requires
            self.wf(),
        ensures
            r == 64 - self.next_index(),
    {
        let mut it = self;
        let mut c: usize = 0;
        while it.next().is_some()
            invariant
                it.wf(),
                c == it.next_index() - self.next_index(),
            decreases 64 - it.next_index(),
        {
            c = c + 1;
        }
        c
    }

    /// The last square left, if any.
    pub fn last(self) -> (r: Option<Position>)
        requires
            self.wf(),
        ensures
            self.next_index() < 64 ==> r == Some(square_at(63)),
            self.next_index() >= 64 ==> r is None,
    {
        let mut it = self;
        let mut last: Option<Position> = None;
        loop
            invariant
                it.wf(),
                self.next_index() <= it.next_index() <= 64,
                it.next_index() == self.next_index() ==> last is None,
                it.next_index() > self.next_index() ==> last == Some(
                    square_at(it.next_index() - 1),
                ),
            decreases 64 - it.next_index(),
        {
            match it.next() {
                Some(p) => {
                    last = Some(p);
                },
                None => {
                    return last;
                },
            }
        }
    }
}

/// Walks from `curr` in `dir`, one step at a time, without end.
pub struct PositionIterator {
    pub curr: Position,
    pub dir: Direction,
}

impl PositionIterator {
    pub fn new(pos: Position, dir: Direction) -> (r: PositionIterator)
        ensures
            r == (PositionIterator { curr: pos, dir }),
    {
        PositionIterator { curr: pos, dir }
    }

    pub fn next(&mut self) -> (r: Option<Position>)
        requires
            old(self).curr.can_go(old(self).dir),
        ensures
            final(self).dir == old(self).dir,
            final(self).curr == old(self).curr.step(old(self).dir),
            r == Some(final(self).curr),
    {
        self.curr = self.curr.go(self.dir);
        Some(self.curr)
    }
}

} // verus!
