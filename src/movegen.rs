use vstd::prelude::*;

use crate::attacks::{holding, ray_measure};
use crate::game::{in_grid, lemma_with_cell, Game};
use crate::geometry::{lemma_square_at, square_at, Direction, Position, PositionDelta};
use crate::legality::{forward, lemma_moved_keeps_king, pawn_start_row, promotion_row};
use crate::moves::{BoardValue, Move, MoveType, ValuedMove};
use crate::pieces::{Color, Piece, PieceType, Square};

verus! {

/// Moves paired with no value yet.
pub open spec fn unvalued(s: Seq<Move>) -> Seq<ValuedMove> {
    s.map_values(|m: Move| ValuedMove { mov: m, value: BoardValue::Invalid })
}

pub open spec fn pos(x: int, y: int) -> Position {
    Position { x: x as i8, y: y as i8 }
}

pub open spec fn normal(from: Position, x: int, y: int) -> Move {
    Move { from, to: pos(x, y), tipo: MoveType::Normal }
}

/// A pawn arriving on `(x, y)`: four promotions (queen, rook, bishop, knight) on the
/// last rank, one plain move elsewhere.
pub open spec fn pawn_arrivals(from: Position, x: int, y: int, promote: bool) -> Seq<Move> {
    if promote {
        seq![
            Move { from, to: pos(x, y), tipo: MoveType::Promotion(PieceType::Queen) },
            Move { from, to: pos(x, y), tipo: MoveType::Promotion(PieceType::Rook) },
            Move { from, to: pos(x, y), tipo: MoveType::Promotion(PieceType::Bishop) },
            Move { from, to: pos(x, y), tipo: MoveType::Promotion(PieceType::Knight) },
        ]
    } else {
        seq![normal(from, x, y)]
    }
}

pub proof fn lemma_unvalued_add(a: Seq<Move>, b: Seq<Move>)
    ensures
        unvalued(a + b) == unvalued(a) + unvalued(b),
{
    assert(unvalued(a + b) =~= unvalued(a) + unvalued(b));
}

impl Game {
    /// The moves of a leaper of color `c` on `p` along the first `i` offsets of `t`.
    pub open spec fn leaper_moves(self, p: Position, c: Color, t: PieceType, i: int) -> Seq<Move>
        decreases i,
    {
        if i <= 0 {
            seq![]
        } else {
            let d = t.deltas()[i - 1];
            let x = p.x + d.0;
            let y = p.y + d.1;
            self.leaper_moves(p, c, t, i - 1) + match self.cell(x, y) {
                Some(sq) => if !sq.colored(c) {
                    seq![normal(p, x, y)]
                } else {
                    seq![]
                },
                None => seq![],
            }
        }
    }

    /// The moves of a slider of color `c` that stands on `from`, walking on from `(x, y)`
    /// in `d`: every empty square, then the first occupied one if it holds an opponent.
    pub open spec fn ray_moves(self, from: Position, x: int, y: int, d: Direction, c: Color) -> Seq<Move>
        decreases ray_measure(x, y, d),
    {
        let nx = x + d.dx();
        let ny = y + d.dy();
        match self.cell(nx, ny) {
            Some(sq) => match sq.content {
                None => seq![normal(from, nx, ny)] + self.ray_moves(from, nx, ny, d, c),
                Some(pc) => if pc.color != c {
                    seq![normal(from, nx, ny)]
                } else {
                    seq![]
                },
            },
            None => seq![],
        }
    }

    /// The moves of a slider of color `c` on `p` along the first `k` of `dirs`.
    pub open spec fn slider_moves(self, p: Position, c: Color, dirs: Seq<Direction>, k: int) -> Seq<Move>
        decreases k,
    {
        if k <= 0 {
            seq![]
        } else {
            self.slider_moves(p, c, dirs, k - 1) + self.ray_moves(p, p.x as int, p.y as int, dirs[k - 1], c)
        }
    }

    /// A pawn capture of color `c` from `p` onto `(x, y)`.
    pub open spec fn pawn_capture(self, p: Position, c: Color, x: int, y: int) -> Seq<Move> {
        match self.cell(x, y) {
            Some(sq) => if sq.colored(c.opposite()) {
                pawn_arrivals(p, x, y, p.y == promotion_row(c))
            } else {
                seq![]
            },
            None => seq![],
        }
    }

    /// The pawn pushes of color `c` from `p`: one square when it is empty, and from the
    /// starting row two squares when both are empty.
    pub open spec fn pawn_pushes(self, p: Position, c: Color) -> Seq<Move> {
        let f = forward(c).dy();
        let x = p.x as int;
        let y1 = p.y + f;
        let y2 = p.y + 2 * f;
        match self.cell(x, y1) {
            Some(sq) => if sq.content is None {
                pawn_arrivals(p, x, y1, p.y == promotion_row(c)) + match self.cell(x, y2) {
                    Some(sq2) => if p.y == pawn_start_row(c) && sq2.content is None {
                        seq![normal(p, x, y2)]
                    } else {
                        seq![]
                    },
                    None => seq![],
                }
            } else {
                seq![]
            },
            None => seq![],
        }
    }

    pub open spec fn pawn_moves(self, p: Position, c: Color) -> Seq<Move> {
        let y = p.y + forward(c).dy();
        self.pawn_capture(p, c, p.x - 1, y) + self.pawn_capture(p, c, p.x + 1, y)
            + self.pawn_pushes(p, c)
    }

    /// The moves of the piece on `p`, in generation order, before the safety of its
    /// king is considered.
    pub open spec fn pseudo_moves(self, p: Position) -> Seq<Move> {
        match self.piece_at(p) {
            None => seq![],
            Some(pc) => match pc.tipo {
                PieceType::King | PieceType::Knight => self.leaper_moves(p, pc.color, pc.tipo, 8),
                PieceType::Pawn => self.pawn_moves(p, pc.color),
                _ => self.slider_moves(p, pc.color, pc.tipo.dirs(), pc.tipo.dirs().len() as int),
            },
        }
    }
}


/// `m` starts on `p` and lands on a square of the board that holds no piece of `c`.
pub open spec fn lands_clear(g: Game, p: Position, c: Color, m: Move) -> bool {
    m.from == p && (g.at(m.to) matches Some(ts) && !ts.colored(c)) && promotes_pawn(g, p, m)
}

/// A promotion is a pawn's, and never to a king.
pub open spec fn promotes_pawn(g: Game, p: Position, m: Move) -> bool {
    match m.tipo {
        MoveType::Promotion(t) => t != PieceType::King && (g.piece_at(p) matches Some(pc)
            && pc.tipo == PieceType::Pawn),
        _ => true,
    }
}

proof fn lemma_pos(x: int, y: int)
    requires
        in_grid(x, y),
    ensures
        pos(x, y).x == x,
        pos(x, y).y == y,
{
}

proof fn lemma_leaper_targets(g: Game, p: Position, c: Color, t: PieceType, i: int)
    requires
        p.in_grid(),
        0 <= i <= 8,
    ensures
        forall|k: int|
            0 <= k < g.leaper_moves(p, c, t, i).len() ==> lands_clear(
                g,
                p,
                c,
                #[trigger] g.leaper_moves(p, c, t, i)[k],
            ),
    decreases i,
{
    if i > 0 {
        lemma_leaper_targets(g, p, c, t, i - 1);
        let d = t.deltas()[i - 1];
        if g.cell(p.x + d.0, p.y + d.1) is Some {
            lemma_pos(p.x + d.0, p.y + d.1);
        }
        let a = g.leaper_moves(p, c, t, i - 1);
        let b = g.leaper_moves(p, c, t, i).subrange(a.len() as int, g.leaper_moves(p, c, t, i).len() as int);
        assert(g.leaper_moves(p, c, t, i) =~= a + b);
        assert forall|j: int| 0 <= j < (a + b).len() implies lands_clear(g, p, c, #[trigger] (a + b)[j]) by {
            if j < a.len() {
                assert((a + b)[j] == a[j]);
            } else {
                assert((a + b)[j] == b[j - a.len()]);
            }
        }
    }
}

proof fn lemma_ray_targets(g: Game, p: Position, x: int, y: int, d: Direction, c: Color)
    ensures
        forall|k: int|
            0 <= k < g.ray_moves(p, x, y, d, c).len() ==> lands_clear(
                g,
                p,
                c,
                #[trigger] g.ray_moves(p, x, y, d, c)[k],
            ),
    decreases ray_measure(x, y, d),
{
    let nx = x + d.dx();
    let ny = y + d.dy();
    if let Some(sq) = g.cell(nx, ny) {
        lemma_pos(nx, ny);
        if sq.content is None {
            lemma_ray_targets(g, p, nx, ny, d, c);
            let rest = g.ray_moves(p, nx, ny, d, c);
            assert forall|j: int| 0 <= j < g.ray_moves(p, x, y, d, c).len() implies lands_clear(
                g,
                p,
                c,
                #[trigger] g.ray_moves(p, x, y, d, c)[j],
            ) by {
                if j > 0 {
                    assert(g.ray_moves(p, x, y, d, c)[j] == rest[j - 1]);
                }
            }
        }
    }
}

proof fn lemma_slider_targets(g: Game, p: Position, c: Color, dirs: Seq<Direction>, k: int)
    ensures
        forall|j: int|
            0 <= j < g.slider_moves(p, c, dirs, k).len() ==> lands_clear(
                g,
                p,
                c,
                #[trigger] g.slider_moves(p, c, dirs, k)[j],
            ),
    decreases k,
{
    if k > 0 {
        lemma_slider_targets(g, p, c, dirs, k - 1);
        lemma_ray_targets(g, p, p.x as int, p.y as int, dirs[k - 1], c);
        let a = g.slider_moves(p, c, dirs, k - 1);
        let b = g.ray_moves(p, p.x as int, p.y as int, dirs[k - 1], c);
        assert forall|j: int| 0 <= j < (a + b).len() implies lands_clear(g, p, c, #[trigger] (a + b)[j]) by {
            if j < a.len() {
                assert((a + b)[j] == a[j]);
            } else {
                assert((a + b)[j] == b[j - a.len()]);
            }
        }
    }
}

/// Every generated move starts on the piece's square and lands on a square of the
/// board that holds none of its own pieces.
pub proof fn lemma_pseudo_targets(g: Game, p: Position)
    requires
        g.piece_at(p) is Some,
    ensures
        forall|k: int|
            0 <= k < g.pseudo_moves(p).len() ==> lands_clear(
                g,
                p,
                g.piece_at(p)->Some_0.color,
                #[trigger] g.pseudo_moves(p)[k],
            ),
{
    let pc = g.piece_at(p)->Some_0;
    match pc.tipo {
        PieceType::King | PieceType::Knight => lemma_leaper_targets(g, p, pc.color, pc.tipo, 8),
        PieceType::Pawn => {},
        _ => lemma_slider_targets(g, p, pc.color, pc.tipo.dirs(), pc.tipo.dirs().len() as int),
    }
}

impl Game {
    /// The moves of `s`, in order, after which the mover's king could not be captured.
    pub open spec fn safe_only(self, s: Seq<Move>) -> Seq<Move>
        decreases s.len(),
    {
        if s.len() == 0 {
            seq![]
        } else {
            self.safe_only(s.drop_last()) + if self.committed(s.last()) is Ok {
                seq![s.last()]
            } else {
                seq![]
            }
        }
    }

    /// The legal moves of the pieces of the side to move on the first `i` squares.
    pub open spec fn legal_from(self, i: int) -> Seq<Move>
        decreases i,
    {
        if i <= 0 {
            seq![]
        } else {
            self.legal_from(i - 1) + match self.piece_at(square_at(i - 1)) {
                Some(pc) => if pc.color == self.turn {
                    self.safe_only(self.pseudo_moves(square_at(i - 1)))
                } else {
                    seq![]
                },
                None => seq![],
            }
        }
    }

    /// All legal moves of the side to move, square by square from a1 to h8.
    pub open spec fn legal_moves(self) -> Seq<Move> {
        self.legal_from(64)
    }
}

proof fn lemma_safe_only_safe(g: Game, s: Seq<Move>)
    ensures
        forall|k: int| 0 <= k < g.safe_only(s).len() ==> g.committed(#[trigger] g.safe_only(s)[k]) is Ok,
    decreases s.len(),
{
    if s.len() > 0 {
        lemma_safe_only_safe(g, s.drop_last());
    }
}

proof fn lemma_legal_from_safe(g: Game, i: int)
    ensures
        forall|k: int| 0 <= k < g.legal_from(i).len() ==> g.committed(#[trigger] g.legal_from(i)[k]) is Ok,
    decreases i,
{
    if i > 0 {
        lemma_legal_from_safe(g, i - 1);
        lemma_safe_only_safe(g, g.pseudo_moves(square_at(i - 1)));
    }
}

/// No generated move leaves the mover's king where the opponent could capture it.
pub proof fn lemma_legal_moves_keep_king_safe(g: Game, k: int)
    requires
        0 <= k < g.legal_moves().len(),
    ensures
        !g.moved(g.legal_moves()[k]).with_turn(g.turn.opposite()).king_capturable(),
{
    lemma_legal_from_safe(g, 64);
    assert(g.committed(g.legal_moves()[k]) is Ok);
}


proof fn lemma_safe_only_keeps(g: Game, s: Seq<Move>, p: Position)
    requires
        forall|k: int| 0 <= k < s.len() ==> lands_clear(g, p, g.turn, #[trigger] s[k]),
    ensures
        forall|k: int|
            0 <= k < g.safe_only(s).len() ==> lands_clear(g, p, g.turn, #[trigger] g.safe_only(s)[k]),
    decreases s.len(),
{
    if s.len() > 0 {
        let d = s.drop_last();
        assert forall|k: int| 0 <= k < d.len() implies lands_clear(g, p, g.turn, #[trigger] d[k]) by {
            assert(d[k] == s[k]);
        }
        lemma_safe_only_keeps(g, d, p);
        let a = g.safe_only(d);
        let b = if g.committed(s.last()) is Ok { seq![s.last()] } else { seq![] };
        assert(g.safe_only(s) == a + b);
        assert forall|k: int| 0 <= k < (a + b).len() implies lands_clear(g, p, g.turn, #[trigger] (a + b)[k]) by {
            if k < a.len() {
                assert((a + b)[k] == a[k]);
            } else {
                assert((a + b)[k] == s.last());
            }
        }
    }
}

/// A move of the side to move from its own piece, landing clear of its own pieces.
pub open spec fn own_move(g: Game, m: Move) -> bool {
    lands_clear(g, m.from, g.turn, m) && (g.piece_at(m.from) matches Some(pc) && pc.color == g.turn)
}

proof fn lemma_legal_from_own(g: Game, i: int)
    ensures
        forall|k: int| 0 <= k < g.legal_from(i).len() ==> own_move(g, #[trigger] g.legal_from(i)[k]),
    decreases i,
{
    if i > 0 {
        lemma_legal_from_own(g, i - 1);
        let p = square_at(i - 1);
        let a = g.legal_from(i - 1);
        if let Some(pc) = g.piece_at(p) {
            if pc.color == g.turn {
                lemma_pseudo_targets(g, p);
                lemma_safe_only_keeps(g, g.pseudo_moves(p), p);
                let b = g.safe_only(g.pseudo_moves(p));
                assert(g.legal_from(i) == a + b);
                assert forall|k: int| 0 <= k < (a + b).len() implies own_move(g, #[trigger] (a + b)[k]) by {
                    if k < a.len() {
                        assert((a + b)[k] == a[k]);
                    } else {
                        assert((a + b)[k] == b[k - a.len()]);
                    }
                }
            } else {
                assert(g.legal_from(i) =~= a);
            }
        } else {
            assert(g.legal_from(i) =~= a);
        }
    }
}

/// `a` and `b` have the same turn and agree on every cell but `p`, where each holds a
/// piece of color `c` that is not a king.
pub open spec fn differ_by_own_piece(a: Game, b: Game, p: Position, c: Color) -> bool {
    &&& a.turn == b.turn
    &&& forall|x: int, y: int| !(x == p.x && y == p.y) ==> #[trigger] a.cell(x, y) == b.cell(x, y)
    &&& a.piece_at(p) matches Some(pa) && pa.color == c && pa.tipo != PieceType::King
    &&& b.piece_at(p) matches Some(pb) && pb.color == c && pb.tipo != PieceType::King
}

proof fn lemma_differ_king_from(a: Game, b: Game, p: Position, c: Color, i: int)
    requires
        differ_by_own_piece(a, b, p, c),
    ensures
        a.king_from(c, i) == b.king_from(c, i),
    decreases 64 - i,
{
    if 0 <= i < 64 {
        lemma_differ_king_from(a, b, p, c, i + 1);
        let q = square_at(i);
        if q != p {
            assert(a.cell(q.x as int, q.y as int) == b.cell(q.x as int, q.y as int));
        }
    }
}

proof fn lemma_differ_ray(a: Game, b: Game, p: Position, c: Color, x: int, y: int, d: Direction)
    requires
        differ_by_own_piece(a, b, p, c),
    ensures
        a.ray_first(x, y, d) == b.ray_first(x, y, d) || ((a.ray_first(x, y, d) matches Some(q)
            && q.color == c) && (b.ray_first(x, y, d) matches Some(r) && r.color == c)),
    decreases ray_measure(x, y, d),
{
    let nx = x + d.dx();
    let ny = y + d.dy();
    if nx == p.x && ny == p.y {
        assert(a.cell(nx, ny) == a.at(p));
        assert(b.cell(nx, ny) == b.at(p));
    } else {
        assert(a.cell(nx, ny) == b.cell(nx, ny));
        if let Some(sq) = a.cell(nx, ny) {
            if sq.content is None {
                lemma_differ_ray(a, b, p, c, nx, ny, d);
            }
        }
    }
}

/// Replacing one of `c`'s pieces, other than its king, by another such piece changes
/// nothing of what the other side attacks, nor where `c`'s king stands.
pub proof fn lemma_differ_attacks(a: Game, b: Game, p: Position, c: Color, k: Position)
    requires
        differ_by_own_piece(a, b, p, c),
    ensures
        a.attacked_by(k, c.opposite()) == b.attacked_by(k, c.opposite()),
        a.king_from(c, 0) == b.king_from(c, 0),
{
    lemma_differ_king_from(a, b, p, c, 0);
    let o = c.opposite();
    assert forall|t: PieceType, i: int| a.leaper_hit(k, o, t, i) == b.leaper_hit(k, o, t, i) by {
        let x = k.x + t.deltas()[i].0;
        let y = k.y + t.deltas()[i].1;
        if x == p.x && y == p.y {
            assert(a.cell(x, y) == a.at(p));
            assert(b.cell(x, y) == b.at(p));
        }
    }
    assert forall|t: PieceType, i: int| a.slider_hit(k, o, t, i) == b.slider_hit(k, o, t, i) by {
        lemma_differ_ray(a, b, p, c, k.x as int, k.y as int, t.dirs()[i]);
    }
    let back = if o == Color::White { -1int } else { 1 };
    assert(a.cell(k.x - 1, k.y + back) == holding(o, PieceType::Pawn) <==> b.cell(k.x - 1, k.y + back) == holding(o, PieceType::Pawn)) by {
        if k.x - 1 == p.x && k.y + back == p.y {
            assert(a.cell(k.x - 1, k.y + back) == a.at(p));
            assert(b.cell(k.x - 1, k.y + back) == b.at(p));
        }
    }
    assert(a.cell(k.x + 1, k.y + back) == holding(o, PieceType::Pawn) <==> b.cell(k.x + 1, k.y + back) == holding(o, PieceType::Pawn)) by {
        if k.x + 1 == p.x && k.y + back == p.y {
            assert(a.cell(k.x + 1, k.y + back) == a.at(p));
            assert(b.cell(k.x + 1, k.y + back) == b.at(p));
        }
    }
}

/// No generated move, played in full (a promotion with its new piece in place), leaves
/// the mover's king where the opponent could capture it.
pub proof fn lemma_played_legal_moves_keep_king_safe(g: Game, k: int)
    requires
        g.wf(),
        0 <= k < g.legal_moves().len(),
    ensures
        ({
            let m = g.legal_moves()[k];
            let h = g.moved(m).with_turn(g.turn.opposite());
            match m.tipo {
                MoveType::Promotion(t) => !h.with_cell(
                    m.to,
                    Some(Square { content: Some(Piece { tipo: t, color: g.turn }) }),
                ).king_capturable(),
                _ => !h.king_capturable(),
            }
        }),
{
    lemma_legal_from_safe(g, 64);
    lemma_legal_from_own(g, 64);
    let m = g.legal_moves()[k];
    assert(g.committed(m) is Ok);
    assert(own_move(g, m));
    if let MoveType::Promotion(t) = m.tipo {
        let h = g.moved(m).with_turn(g.turn.opposite());
        let promoted = Some(Square { content: Some(Piece { tipo: t, color: g.turn }) });
        let h2 = h.with_cell(m.to, promoted);
        assert(g.cell(m.from.x as int, m.from.y as int) is Some);
        assert(g.cell(m.to.x as int, m.to.y as int) is Some);
        assert(m.from != m.to);
        lemma_with_cell(g, m.to, Some(Square { content: g.piece_at(m.from) }));
        lemma_with_cell(
            g.with_cell(m.to, Some(Square { content: g.piece_at(m.from) })),
            m.from,
            Some(Square { content: None }),
        );
        assert(h.cell(m.to.x as int, m.to.y as int) == Some(Square { content: g.piece_at(m.from) }));
        lemma_with_cell(h, m.to, promoted);
        assert(differ_by_own_piece(h, h2, m.to, g.turn));
        match h.king_from(g.turn, 0) {
            Some(kp) => lemma_differ_attacks(h, h2, m.to, g.turn, kp),
            None => lemma_differ_attacks(h, h2, m.to, g.turn, m.to),
        }
    }
}

/// Generation depends on the game alone: two equal games give the same ordered list.
pub proof fn lemma_generation_repeatable(g1: Game, g2: Game)
    requires
        g1 == g2,
        g1.wf(),
        g1.has_king(g1.turn),
    ensures
        g1.legal_moves() == g2.legal_moves(),
        unvalued(g1.legal_moves()) == unvalued(g2.legal_moves()),
{
}

impl Game {
    fn push_leaper_moves(&self, from_pos: Position, color: Color, t: PieceType, moves: &mut Vec<ValuedMove>)
        requires
            from_pos.in_grid(),
            t.is_leaper(),
        ensures
            final(moves)@ == old(moves)@ + unvalued(self.leaper_moves(from_pos, color, t, 8)),
    {
        let deltas = t.get_posible_deltas();
        let mut i: usize = 0;
        while i < 8
            invariant
                from_pos.in_grid(),
                t.is_leaper(),
                deltas@.len() == 8,
                forall|j: int|
                    0 <= j < 8 ==> (#[trigger] deltas@[j]).x == t.deltas()[j].0 && deltas@[j].y
                        == t.deltas()[j].1,
                i <= 8,
                moves@ == old(moves)@ + unvalued(self.leaper_moves(from_pos, color, t, i as int)),
            decreases 8 - i,
        {
            let d: PositionDelta = deltas[i];
            let to_pos = from_pos + d;
            if let Some(to_square) = self.get_raw_square(to_pos) {
                if !to_square.has_color(color) {
                    moves.push(ValuedMove::new(from_pos, to_pos, MoveType::Normal));
                }
            }
            assert(moves@ =~= old(moves)@ + unvalued(self.leaper_moves(from_pos, color, t, i as int + 1)));
            i = i + 1;
        }
    }

    fn push_ray_moves(&self, from_pos: Position, color: Color, dir: Direction, moves: &mut Vec<ValuedMove>)
        requires
            from_pos.in_grid(),
        ensures
            final(moves)@ == old(moves)@ + unvalued(
                self.ray_moves(from_pos, from_pos.x as int, from_pos.y as int, dir, color),
            ),
    {
        let mut p = from_pos;
        loop
            invariant
                p.in_grid(),
                moves@ + unvalued(self.ray_moves(from_pos, p.x as int, p.y as int, dir, color))
                    == old(moves)@ + unvalued(
                    self.ray_moves(from_pos, from_pos.x as int, from_pos.y as int, dir, color),
                ),
            decreases ray_measure(p.x as int, p.y as int, dir),
        {
            let to_pos = p.go(dir);
            let ghost before = moves@;
            match self.get_raw_square(to_pos) {
                Some(sq) => match sq.content {
                    Some(pc) => {
                        if pc.color != color {
                            moves.push(ValuedMove::new(from_pos, to_pos, MoveType::Normal));
                            assert(moves@ =~= before + unvalued(self.ray_moves(from_pos, p.x as int, p.y as int, dir, color)));
                        } else {
                            assert(moves@ =~= before + unvalued(self.ray_moves(from_pos, p.x as int, p.y as int, dir, color)));
                        }
                        return;
                    },
                    None => {
                        moves.push(ValuedMove::new(from_pos, to_pos, MoveType::Normal));
                        assert(before + unvalued(self.ray_moves(from_pos, p.x as int, p.y as int, dir, color))
                            =~= moves@ + unvalued(self.ray_moves(from_pos, to_pos.x as int, to_pos.y as int, dir, color)));
                    },
                },
                None => {
                    assert(moves@ =~= before + unvalued(self.ray_moves(from_pos, p.x as int, p.y as int, dir, color)));
                    return;
                },
            }
            p = to_pos;
        }
    }

    fn push_slider_moves(&self, from_pos: Position, color: Color, t: PieceType, moves: &mut Vec<ValuedMove>)
        requires
            from_pos.in_grid(),
            t.is_slider(),
        ensures
            final(moves)@ == old(moves)@ + unvalued(
                self.slider_moves(from_pos, color, t.dirs(), t.dirs().len() as int),
            ),
    {
        let dirs = t.get_posible_dirs();
        let mut i: usize = 0;
        while i < dirs.len()
            invariant
                from_pos.in_grid(),
                dirs@ == t.dirs(),
                i <= dirs@.len(),
                moves@ == old(moves)@ + unvalued(self.slider_moves(from_pos, color, t.dirs(), i as int)),
            decreases dirs@.len() - i,
        {
            self.push_ray_moves(from_pos, color, dirs[i], moves);
            proof {
                lemma_unvalued_add(
                    self.slider_moves(from_pos, color, t.dirs(), i as int),
                    self.ray_moves(from_pos, from_pos.x as int, from_pos.y as int, dirs@[i as int], color),
                );
            }
            assert(moves@ =~= old(moves)@ + unvalued(self.slider_moves(from_pos, color, t.dirs(), i as int + 1)));
            i = i + 1;
        }
    }

    fn push_pawn_arrivals(from_pos: Position, to_pos: Position, promote: bool, moves: &mut Vec<ValuedMove>)
        ensures
            final(moves)@ == old(moves)@ + unvalued(
                pawn_arrivals(from_pos, to_pos.x as int, to_pos.y as int, promote),
            ),
    {
        if promote {
            moves.push(ValuedMove::new(from_pos, to_pos, MoveType::Promotion(PieceType::Queen)));
            moves.push(ValuedMove::new(from_pos, to_pos, MoveType::Promotion(PieceType::Rook)));
            moves.push(ValuedMove::new(from_pos, to_pos, MoveType::Promotion(PieceType::Bishop)));
            moves.push(ValuedMove::new(from_pos, to_pos, MoveType::Promotion(PieceType::Knight)));
        } else {
            moves.push(ValuedMove::new(from_pos, to_pos, MoveType::Normal));
        }
        assert(final(moves)@ =~= old(moves)@ + unvalued(
            pawn_arrivals(from_pos, to_pos.x as int, to_pos.y as int, promote),
        ));
    }

    fn push_pawn_capture(&self, from_pos: Position, to_pos: Position, color: Color, promote: bool, moves: &mut Vec<ValuedMove>)
        requires
            promote == (from_pos.y == promotion_row(color)),
        ensures
            final(moves)@ == old(moves)@ + unvalued(
                self.pawn_capture(from_pos, color, to_pos.x as int, to_pos.y as int),
            ),
    {
        if let Some(to_square) = self.get_raw_square(to_pos) {
            if to_square.has_color(color.opposite_color()) {
                Game::push_pawn_arrivals(from_pos, to_pos, promote, moves);
                return;
            }
        }
        assert(old(moves)@ =~= old(moves)@ + unvalued(
            self.pawn_capture(from_pos, color, to_pos.x as int, to_pos.y as int),
        ));
    }

    fn push_pawn_pushes(&self, from_pos: Position, color: Color, moves: &mut Vec<ValuedMove>)
        requires
            from_pos.in_grid(),
        ensures
            final(moves)@ == old(moves)@ + unvalued(self.pawn_pushes(from_pos, color)),
    {
        let (promotion_y, long_move_y, foward_dir): (i8, i8, Direction) = match color {
            Color::White => (8, 3, Direction::Up),
            Color::Black => (3, 8, Direction::Down),
        };
        let promote = from_pos.y == promotion_y;
        let ahead = from_pos.go(foward_dir);
        if let Some(to_square) = self.get_raw_square(ahead) {
            if to_square.has_none() {
                Game::push_pawn_arrivals(from_pos, ahead, promote, moves);
                let two = ahead.go(foward_dir);
                if let Some(to_square) = self.get_raw_square(two) {
                    if from_pos.y == long_move_y && to_square.has_none() {
                        moves.push(ValuedMove::new(from_pos, two, MoveType::Normal));
                    }
                }
                assert(moves@ =~= old(moves)@ + unvalued(self.pawn_pushes(from_pos, color)));
                return;
            }
        }
        assert(moves@ =~= old(moves)@ + unvalued(self.pawn_pushes(from_pos, color)));
    }

    fn push_pawn_moves(&self, from_pos: Position, color: Color, moves: &mut Vec<ValuedMove>)
        requires
            from_pos.in_grid(),
        ensures
            final(moves)@ == old(moves)@ + unvalued(self.pawn_moves(from_pos, color)),
    {
        let promotion_y: i8 = match color {
            Color::White => 8,
            Color::Black => 3,
        };
        let foward_dir = match color {
            Color::White => Direction::Up,
            Color::Black => Direction::Down,
        };
        let promote = from_pos.y == promotion_y;
        let ahead = from_pos.go(foward_dir);
        let ghost y = ahead.y as int;
        let ghost c1 = self.pawn_capture(from_pos, color, from_pos.x - 1, y);
        let ghost c2 = self.pawn_capture(from_pos, color, from_pos.x + 1, y);
        let ghost ps = self.pawn_pushes(from_pos, color);
        self.push_pawn_capture(from_pos, ahead.left(), color, promote, moves);
        self.push_pawn_capture(from_pos, ahead.right(), color, promote, moves);
        self.push_pawn_pushes(from_pos, color, moves);
        proof {
            lemma_unvalued_add(c1, c2);
            lemma_unvalued_add(c1 + c2, ps);
            assert(old(moves)@ + unvalued(c1) + unvalued(c2) + unvalued(ps) =~= old(moves)@ + unvalued(c1 + c2 + ps));
        }
    }

    /// Appends to `moves` the moves of the piece on `from_pos`, in generation order,
    /// without regard to the safety of its king; nothing when the square holds no piece.
    pub fn get_valid_moves<'a>(&self, from_pos: Position, moves: &'a mut Vec<ValuedMove>) -> (r: &'a mut Vec<ValuedMove>)
        ensures
            r@ == old(moves)@ + unvalued(self.pseudo_moves(from_pos)),
            *final(moves) == *final(r),
    {
        let piece = match self.get_raw_square(from_pos) {
            Some(Square { content: Some(piece) }) => piece,
            _ => {
                assert(old(moves)@ =~= old(moves)@ + unvalued(self.pseudo_moves(from_pos)));
                return moves;
            },
        };
        match piece.tipo {
            PieceType::King | PieceType::Knight => self.push_leaper_moves(from_pos, piece.color, piece.tipo, moves),
            PieceType::Pawn => self.push_pawn_moves(from_pos, piece.color, moves),
            _ => self.push_slider_moves(from_pos, piece.color, piece.tipo, moves),
        }
        moves
    }

    /// All legal moves of the side to move, square by square from a1 to h8 and, on
    /// each square, in the order of `get_valid_moves`.
    pub fn get_all_valid_moves(&self) -> (r: Vec<ValuedMove>)
        requires
            self.wf(),
            self.has_king(self.turn),
        ensures
            r@ == unvalued(self.legal_moves()),
            forall|k: int| 0 <= k < r@.len() ==> self.committed(#[trigger] r@[k].mov) is Ok,
    {
        let mut moves: Vec<ValuedMove> = Vec::new();
        let mut it = Position::all();
        loop
            invariant
                self.wf(),
                self.has_king(self.turn),
                it.wf(),
                0 <= it.next_index() <= 64,
                moves@ == unvalued(self.legal_from(it.next_index())),
            ensures
                moves@ == unvalued(self.legal_from(64)),
            decreases 64 - it.next_index(),
        {
            let ghost i = it.next_index();
            let from_pos = match it.next() {
                Some(p) => p,
                None => {
                    break;
                },
            };
            proof {
                lemma_square_at(i);
            }
            let ghost before = moves@;
            let own = match self.get_raw_square(from_pos) {
                Some(sq) => sq.has_color(self.turn),
                None => false,
            };
            if own {
                let mut cand: Vec<ValuedMove> = Vec::new();
                self.get_valid_moves(from_pos, &mut cand);
                let ghost ps = self.pseudo_moves(from_pos);
                proof {
                    lemma_pseudo_targets(*self, from_pos);
                    assert(cand@ =~= unvalued(ps));
                }
                let mut j: usize = 0;
                while j < cand.len()
                    invariant
                        self.wf(),
                        self.has_king(self.turn),
                        self.piece_at(from_pos) matches Some(pc) && pc.color == self.turn,
                        cand@ == unvalued(ps),
                        forall|k: int| 0 <= k < ps.len() ==> lands_clear(*self, from_pos, self.turn, #[trigger] ps[k]),
                        j <= cand@.len(),
                        moves@ == before + unvalued(self.safe_only(ps.take(j as int))),
                    decreases cand@.len() - j,
                {
                    let vm = cand[j];
                    proof {
                        assert(vm.mov == ps[j as int]);
                        assert(lands_clear(*self, from_pos, self.turn, ps[j as int]));
                        lemma_moved_keeps_king(*self, vm.mov, self.turn);
                        assert(ps.take(j as int + 1).drop_last() =~= ps.take(j as int));
                    }
                    let mut aux = *self;
                    if aux.raw_make_move(&vm.mov).is_ok() {
                        moves.push(vm);
                    }
                    proof {
                        lemma_unvalued_add(
                            self.safe_only(ps.take(j as int)),
                            if self.committed(vm.mov) is Ok { seq![vm.mov] } else { seq![] },
                        );
                    }
                    assert(moves@ =~= before + unvalued(self.safe_only(ps.take(j as int + 1))));
                    j = j + 1;
                }
                proof {
                    assert(ps.take(ps.len() as int) =~= ps);
                    lemma_unvalued_add(self.legal_from(i), self.safe_only(ps));
                }
            } else {
                assert(moves@ =~= unvalued(self.legal_from(i)) + unvalued(seq![]));
            }
            assert(moves@ =~= unvalued(self.legal_from(i + 1)));
        }
        proof {
            lemma_legal_from_safe(*self, 64);
        }
        moves
    }
}

} // verus!
