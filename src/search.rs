use vstd::prelude::*;

use crate::attacks::ray_measure;
use crate::game::Game;
use crate::geometry::{lemma_square_at, square_at, Direction, Position};
use crate::movegen::unvalued;
use crate::moves::{BoardValue, Move, MoveType, ValuedMove};
use crate::pieces::{Color, PieceType, Square};

verus! {

impl Game {
    /// What the piece on `p` adds to the evaluation: ten times its signed material
    /// value, plus its number of moves counted for its side.
    pub open spec fn square_score(self, p: Position) -> int {
        match self.piece_at(p) {
            None => 0,
            Some(pc) => pc.value() * 10 + pc.color.sign() * self.pseudo_moves(p).len(),
        }
    }

    /// The scores of the first `i` squares, a1 first.
    pub open spec fn score_from(self, i: int) -> int
        decreases i,
    {
        if i <= 0 {
            0
        } else {
            self.score_from(i - 1) + self.square_score(square_at(i - 1))
        }
    }

    /// The static evaluation: positive favours White.
    pub open spec fn evaluation(self) -> int {
        self.score_from(64)
    }
}

proof fn lemma_leaper_len(g: Game, p: Position, c: Color, t: PieceType, i: int)
    ensures
        g.leaper_moves(p, c, t, i).len() <= if i < 0 { 0 } else { i },
    decreases i,
{
    if i > 0 {
        lemma_leaper_len(g, p, c, t, i - 1);
    }
}

proof fn lemma_ray_len(g: Game, p: Position, x: int, y: int, d: Direction, c: Color)
    ensures
        g.ray_moves(p, x, y, d, c).len() <= ray_measure(x, y, d),
    decreases ray_measure(x, y, d),
{
    let nx = x + d.dx();
    let ny = y + d.dy();
    if let Some(sq) = g.cell(nx, ny) {
        if sq.content is None {
            lemma_ray_len(g, p, nx, ny, d, c);
        }
    }
}

proof fn lemma_slider_len(g: Game, p: Position, c: Color, dirs: Seq<Direction>, k: int)
    requires
        p.in_grid(),
    ensures
        g.slider_moves(p, c, dirs, k).len() <= 12 * (if k < 0 { 0 } else { k }),
    decreases k,
{
    if k > 0 {
        lemma_slider_len(g, p, c, dirs, k - 1);
        lemma_ray_len(g, p, p.x as int, p.y as int, dirs[k - 1], c);
    }
}

/// A piece never has more than 96 moves.
proof fn lemma_square_score_bound(g: Game, p: Position)
    ensures
        -200 <= g.square_score(p) <= 200,
        g.pseudo_moves(p).len() <= 96,
{
    if let Some(pc) = g.piece_at(p) {
        assert(p.in_grid());
        match pc.tipo {
            PieceType::King | PieceType::Knight => lemma_leaper_len(g, p, pc.color, pc.tipo, 8),
            PieceType::Pawn => {
                let y = p.y + crate::legality::forward(pc.color).dy();
                assert(g.pawn_capture(p, pc.color, p.x - 1, y).len() <= 4);
                assert(g.pawn_capture(p, pc.color, p.x + 1, y).len() <= 4);
                assert(g.pawn_pushes(p, pc.color).len() <= 5);
            },
            _ => lemma_slider_len(g, p, pc.color, pc.tipo.dirs(), pc.tipo.dirs().len() as int),
        }
        let n = g.pseudo_moves(p).len() as int;
        assert(0 <= n <= 96);
        assert(-90 <= pc.value() * 10 <= 90);
        assert(-96 <= pc.color.sign() * n <= 96) by (nonlinear_arith)
            requires
                pc.color.sign() == 1 || pc.color.sign() == -1,
                0 <= n <= 96,
        ;
    }
}

proof fn lemma_score_bound(g: Game, i: int)
    requires
        0 <= i <= 64,
    ensures
        -200 * i <= g.score_from(i) <= 200 * i,
    decreases i,
{
    if i > 0 {
        lemma_score_bound(g, i - 1);
        lemma_square_score_bound(g, square_at(i - 1));
    }
}

impl Game {
    /// Sums, over the pieces on the board, ten times the signed material value plus
    /// the signed number of moves of the piece.
    pub fn evaluate(&self) -> (r: i32)
        ensures
            r == self.evaluation(),
    {
        let mut acc: i32 = 0;
        let mut moves: Vec<ValuedMove> = Vec::new();
        let mut it = Position::all();
        loop
            invariant
                it.wf(),
                0 <= it.next_index() <= 64,
                acc == self.score_from(it.next_index()),
            ensures
                acc == self.score_from(64),
            decreases 64 - it.next_index(),
        {
            let ghost i = it.next_index();
            let pos = match it.next() {
                Some(p) => p,
                None => {
                    break;
                },
            };
            proof {
                lemma_square_at(i);
                lemma_score_bound(*self, i);
                lemma_square_score_bound(*self, pos);
            }
            if let Some(Square { content: Some(piece) }) = self.get_raw_square(pos) {
                moves.clear();
                let n = self.get_valid_moves(pos, &mut moves).len() as i32;
                let sign = piece.color.get_sign();
                let v = piece.get_value();
                assert(-9 <= v <= 9) by {
                    let t = piece.tipo.value();
                    let g = piece.color.sign();
                    assert(0 <= t <= 9);
                    assert(-9 <= g * t <= 9) by (nonlinear_arith)
                        requires
                            g == 1 || g == -1,
                            0 <= t <= 9,
                    ;
                }
                assert(-96 <= sign * n <= 96) by (nonlinear_arith)
                    requires
                        sign == 1 || sign == -1,
                        0 <= n <= 96,
                ;
                acc = acc + v * 10 + sign * n;
            }
        }
        acc
    }
}


/// The value of a side that cannot move: a win for the other side.
pub open spec fn win_for_other(c: Color) -> BoardValue {
    match c {
        Color::White => BoardValue::WonBlack,
        Color::Black => BoardValue::WonWhite,
    }
}

/// `a` is strictly better than `b` for the side `c`: higher for White, lower for Black.
pub open spec fn better_for(c: Color, a: BoardValue, b: BoardValue) -> bool {
    match c {
        Color::White => a.above(b),
        Color::Black => b.above(a),
    }
}

/// Where, among the first `n` entries of `vs`, the first best valid value for `c`
/// stands; `None` when none of them is valid.
pub open spec fn pick(vs: Seq<ValuedMove>, n: int, c: Color) -> Option<int>
    decreases n,
{
    if n <= 0 {
        None
    } else {
        let prev = pick(vs, n - 1, c);
        if vs[n - 1].value is Invalid {
            prev
        } else {
            match prev {
                None => Some(n - 1),
                Some(j) => if better_for(c, vs[n - 1].value, vs[j].value) {
                    Some(n - 1)
                } else {
                    Some(j)
                },
            }
        }
    }
}

/// The a1-a2 placeholder that carries a value when no move is chosen.
pub open spec fn placeholder(v: BoardValue) -> ValuedMove {
    ValuedMove {
        mov: Move { from: Position { x: 2, y: 2 }, to: Position { x: 2, y: 3 }, tipo: MoveType::Normal },
        value: v,
    }
}

impl Game {
    /// The evaluation after `m`, or `Invalid` when `m` is refused.
    pub open spec fn move_evaluation(self, m: Move) -> BoardValue {
        match self.play(m) {
            Ok(g) => BoardValue::Value(g.evaluation() as i32),
            Err(_) => BoardValue::Invalid,
        }
    }

    /// The value of `m` searched from ply `ply` to ply `max_ply`.
    pub open spec fn move_value(self, m: Move, ply: int, max_ply: int) -> BoardValue
        decreases max_ply - ply, 0int,
    {
        if ply >= max_ply {
            self.move_evaluation(m)
        } else {
            match self.play(m) {
                Err(_) => BoardValue::Invalid,
                Ok(g) => g.best_move(ply + 1, max_ply).value,
            }
        }
    }

    /// The moves of `ms` with their searched values.
    pub open spec fn valued_moves(self, ms: Seq<Move>, ply: int, max_ply: int) -> Seq<ValuedMove>
        decreases max_ply - ply, 1int, ms.len(),
    {
        if ms.len() == 0 {
            seq![]
        } else {
            self.valued_moves(ms.drop_last(), ply, max_ply).push(
                ValuedMove { mov: ms.last(), value: self.move_value(ms.last(), ply, max_ply) },
            )
        }
    }

    /// The move the search chooses at ply `ply`, with its value: White's highest,
    /// Black's lowest, the first in generation order among equals; a win for the other
    /// side when the side to move has no king or no move with a valid value.
    pub open spec fn best_move(self, ply: int, max_ply: int) -> ValuedMove
        decreases max_ply - ply, 2int,
    {
        if !self.has_king(self.turn) {
            placeholder(win_for_other(self.turn))
        } else {
            let vs = self.valued_moves(self.legal_moves(), ply, max_ply);
            match pick(vs, vs.len() as int, self.turn) {
                None => placeholder(win_for_other(self.turn)),
                Some(j) => vs[j],
            }
        }
    }
}

/// Strict preference for a side is a strict total order.
pub proof fn lemma_better_order(c: Color, a: BoardValue, b: BoardValue, d: BoardValue)
    ensures
        !better_for(c, a, a),
        !better_for(c, a, b) && better_for(c, d, b) ==> better_for(c, d, a) && !better_for(c, a, d),
        !better_for(c, a, b) && !better_for(c, b, d) ==> !better_for(c, a, d),
{
}

/// The chosen entry is valid, and no valid entry is strictly better for the side to
/// move; those before it are strictly worse.
pub proof fn lemma_pick_is_best(vs: Seq<ValuedMove>, n: int, c: Color)
    requires
        0 <= n <= vs.len(),
        pick(vs, n, c) is Some,
    ensures
        0 <= pick(vs, n, c)->Some_0 < n,
        !(vs[pick(vs, n, c)->Some_0].value is Invalid),
        forall|k: int|
            0 <= k < n && !(vs[k].value is Invalid) ==> !better_for(
                c,
                #[trigger] vs[k].value,
                vs[pick(vs, n, c)->Some_0].value,
            ),
        forall|k: int|
            0 <= k < pick(vs, n, c)->Some_0 && !(vs[k].value is Invalid) ==> better_for(
                c,
                vs[pick(vs, n, c)->Some_0].value,
                #[trigger] vs[k].value,
            ),
    decreases n,
{
    let v = vs[n - 1].value;
    match pick(vs, n - 1, c) {
        Some(j) => {
            lemma_pick_is_best(vs, n - 1, c);
            let b = pick(vs, n, c)->Some_0;
            assert forall|k: int| 0 <= k < n && !(vs[k].value is Invalid) implies !better_for(
                c,
                #[trigger] vs[k].value,
                vs[b].value,
            ) by {
                lemma_better_order(c, vs[k].value, vs[j].value, v);
                lemma_better_order(c, v, vs[j].value, vs[k].value);
            }
            assert forall|k: int| 0 <= k < b && !(vs[k].value is Invalid) implies better_for(
                c,
                vs[b].value,
                #[trigger] vs[k].value,
            ) by {
                lemma_better_order(c, vs[k].value, vs[j].value, v);
            }
        },
        None => {
            lemma_pick_none(vs, n - 1, c);
            lemma_better_order(c, v, v, v);
        },
    }
}


/// The moves of the side to move with their searched values, in generation order.
pub open spec fn searched(g: Game, ply: int, max_ply: int) -> Seq<ValuedMove> {
    g.valued_moves(g.legal_moves(), ply, max_ply)
}

/// When the side to move has its king and at least one move with a valid value, the
/// search returns the `j`-th of its moves, with its value, where `j` is such that no
/// move is strictly better for the side to move and every move generated before it is
/// strictly worse.
pub proof fn lemma_best_move_is_optimal(g: Game, ply: int, max_ply: int, k0: int)
    requires
        g.has_king(g.turn),
        0 <= k0 < searched(g, ply, max_ply).len(),
        !(searched(g, ply, max_ply)[k0].value is Invalid),
    ensures
        pick(searched(g, ply, max_ply), searched(g, ply, max_ply).len() as int, g.turn) is Some,
        ({
            let vs = searched(g, ply, max_ply);
            let j = pick(vs, vs.len() as int, g.turn)->Some_0;
            &&& 0 <= j < vs.len()
            &&& g.best_move(ply, max_ply) == vs[j]
            &&& !(vs[j].value is Invalid)
            &&& forall|k: int|
                0 <= k < vs.len() && !(vs[k].value is Invalid) ==> !better_for(
                    g.turn,
                    #[trigger] vs[k].value,
                    vs[j].value,
                )
            &&& forall|k: int|
                0 <= k < j && !(vs[k].value is Invalid) ==> better_for(
                    g.turn,
                    vs[j].value,
                    #[trigger] vs[k].value,
                )
        }),
{
    let vs = searched(g, ply, max_ply);
    if pick(vs, vs.len() as int, g.turn) is None {
        lemma_pick_none(vs, vs.len() as int, g.turn);
    }
    lemma_pick_is_best(vs, vs.len() as int, g.turn);
}

proof fn lemma_pick_none(vs: Seq<ValuedMove>, n: int, c: Color)
    requires
        0 <= n <= vs.len(),
        pick(vs, n, c) is None,
    ensures
        forall|k: int| 0 <= k < n ==> (#[trigger] vs[k].value) is Invalid,
    decreases n,
{
    if n > 0 {
        lemma_pick_none(vs, n - 1, c);
    }
}

impl Game {
    /// The value of the position after `mov`: its evaluation, or `Invalid` when `mov`
    /// is refused.
    pub fn evaluate_move(&self, mov: &Move) -> (r: BoardValue)
        requires
            self.wf(),
            self.has_king(self.turn),
        ensures
            r == self.move_evaluation(*mov),
    {
        let mut aux_game = *self;
        match aux_game.make_move(mov) {
            Err(_) => BoardValue::Invalid,
            Ok(()) => BoardValue::Value(aux_game.evaluate()),
        }
    }

    /// Sets the value of each move of `moves` to `evaluate_move` of it.
    pub fn evaluate_moves<'a>(&self, moves: &'a mut Vec<ValuedMove>) -> (r: &'a mut Vec<ValuedMove>)
        requires
            self.wf(),
            self.has_king(self.turn),
        ensures
            r@.len() == old(moves)@.len(),
            forall|k: int|
                0 <= k < old(moves)@.len() ==> #[trigger] r@[k] == (ValuedMove {
                    mov: old(moves)@[k].mov,
                    value: self.move_evaluation(old(moves)@[k].mov),
                }),
            *final(moves) == *final(r),
    {
        let mut i: usize = 0;
        while i < moves.len()
            invariant
                self.wf(),
                self.has_king(self.turn),
                moves@.len() == old(moves)@.len(),
                i <= moves@.len(),
                forall|k: int|
                    0 <= k < i ==> #[trigger] moves@[k] == (ValuedMove {
                        mov: old(moves)@[k].mov,
                        value: self.move_evaluation(old(moves)@[k].mov),
                    }),
                forall|k: int| i <= k < moves@.len() ==> #[trigger] moves@[k] == old(moves)@[k],
            decreases moves@.len() - i,
        {
            let m = moves[i].mov;
            let value = self.evaluate_move(&m);
            moves.set(i, ValuedMove { mov: m, value });
            i = i + 1;
        }
        moves
    }
}

/// Searches `max_ply - ply + 1` plies deep from `game` and returns the chosen move with
/// its value. The rules of the game treat a side without its king as a broken
/// invariant, not as an outcome; the search departs from that rule: rather than stop,
/// it scores such a side as a win for the other side, as it does a side with no legal
/// move.
pub fn get_best_move(game: &Game, ply: u32, max_ply: u32) -> (r: ValuedMove)
    requires
        game.wf(),
        ply <= max_ply,
    ensures
        r == game.best_move(ply as int, max_ply as int),
    decreases max_ply - ply,
{
    if !game.contains_king(game.turn) {
        return ValuedMove::from_value(
            match game.turn {
                Color::White => BoardValue::WonBlack,
                Color::Black => BoardValue::WonWhite,
            },
        );
    }
    let moves: Vec<ValuedMove> = game.get_all_valid_moves();
    let ghost legal = game.legal_moves();
    let mut valued: Vec<ValuedMove> = Vec::new();
    let mut i: usize = 0;
    while i < moves.len()
        invariant
            game.wf(),
            game.has_king(game.turn),
            ply <= max_ply,
            moves@ == unvalued(legal),
            i <= moves@.len(),
            valued@ == game.valued_moves(legal.take(i as int), ply as int, max_ply as int),
        decreases moves@.len() - i,
    {
        let m = moves[i].mov;
        let mut aux_game = *game;
        let value = if ply == max_ply {
            aux_game.evaluate_move(&m)
        } else {
            match aux_game.make_move(&m) {
                Err(_) => BoardValue::Invalid,
                Ok(()) => get_best_move(&aux_game, ply + 1, max_ply).value,
            }
        };
        assert(m == legal[i as int]);
        assert(value == game.move_value(m, ply as int, max_ply as int));
        valued.push(ValuedMove { mov: m, value });
        proof {
            assert(legal.take(i as int + 1).drop_last() =~= legal.take(i as int));
        }
        i = i + 1;
    }
    proof {
        assert(legal.take(legal.len() as int) =~= legal);
    }
    let ghost vs = valued@;
    let mut best: usize = 0;
    let mut found = false;
    let mut j: usize = 0;
    while j < valued.len()
        invariant
            valued@ == vs,
            j <= vs.len(),
            pick(vs, j as int, game.turn) == if found { Some(best as int) } else { None::<int> },
            found ==> best < j,
        decreases vs.len() - j,
    {
        let v = valued[j].value;
        if v.is_valid() {
            if !found {
                best = j;
                found = true;
            } else {
                let cur = valued[best].value;
                let wins = match game.turn {
                    Color::White => v.is_above(&cur),
                    Color::Black => cur.is_above(&v),
                };
                if wins {
                    best = j;
                }
            }
        }
        j = j + 1;
    }
    if !found {
        return ValuedMove::from_value(
            match game.turn {
                Color::White => BoardValue::WonBlack,
                Color::Black => BoardValue::WonWhite,
            },
        );
    }
    valued[best]
}

/// The move chosen by a search of `max_ply + 1` plies from `game`.
pub fn get_move(game: &Game, max_ply: u32) -> (r: Move)
    requires
        game.wf(),
    ensures
        r == game.best_move(0, max_ply as int).mov,
{
    get_best_move(game, 0, max_ply).mov
}

} // verus!
