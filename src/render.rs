use vstd::prelude::*;

use crate::game::Game;
use crate::geometry::{rank_char, Position};
use crate::pieces::{Color, Square};
use crate::text::one_char;

verus! {

pub open spec fn files_line() -> Seq<char> {
    "    a b c d e f g h  \n"@
}

pub open spec fn border_line() -> Seq<char> {
    "  +-----------------+\n"@
}

pub open spec fn color_name(c: Color) -> Seq<char> {
    match c {
        Color::White => "White"@,
        Color::Black => "Black"@,
    }
}

pub open spec fn square_symbol(sq: Square) -> char {
    match sq.content {
        Some(p) => p.symbol(),
        None => '.',
    }
}

impl Game {
    /// The symbols of row `y` from column `x` to column 9, each after a space.
    pub open spec fn row_text(self, y: int, x: int) -> Seq<char>
        decreases 10 - x,
    {
        if x > 9 {
            seq![]
        } else {
            let here = match self.cell(x, y) {
                Some(sq) => seq![' ', square_symbol(sq)],
                None => seq![],
            };
            here + self.row_text(y, x + 1)
        }
    }

    /// One rank of the board, with its number on both sides.
    pub open spec fn rank_line(self, y: int) -> Seq<char> {
        seq![rank_char(y), ' ', '|'] + self.row_text(y, 2) + seq![' ', '|', ' ', rank_char(y), '\n']
    }

    /// The ranks from row `y` down to row 2.
    pub open spec fn rows_text(self, y: int) -> Seq<char>
        decreases y,
    {
        if y < 2 {
            seq![]
        } else {
            self.rank_line(y) + self.rows_text(y - 1)
        }
    }

    /// The board as shown to a player: who plays, then rank 8 down to rank 1 between
    /// the file letters, White's pieces in lowercase and Black's in uppercase.
    pub open spec fn board_text(self) -> Seq<char> {
        color_name(self.turn) + " Plays\n"@ + files_line() + border_line() + self.rows_text(9)
            + border_line() + files_line()
    }
}

proof fn lemma_symbol_spellable(sq: Square)
    ensures
        crate::text::is_text_char(square_symbol(sq)),
{
}

impl Game {
    fn push_rank(&self, y: i8, out: &mut String)
        requires
            2 <= y <= 9,
        ensures
            final(out)@ == old(out)@ + self.rank_line(y as int),
    {
        let label = Position::new(2, y).rank_char();
        proof {
            reveal_strlit(" |");
            reveal_strlit(" | ");
            reveal_strlit("\n");
            reveal_strlit(" ");
        }
        out.append(one_char(label).as_str());
        out.append(" |");
        let ghost start = out@;
        let mut x: i8 = 2;
        while x <= 9
            invariant
                2 <= x <= 10,
                2 <= y <= 9,
                out@ + self.row_text(y as int, x as int) == start + self.row_text(y as int, 2),
            decreases 10 - x,
        {
            let ghost before = out@;
            proof {
                reveal_strlit(" ");
            }
            if let Some(sq) = self.get_raw_square(Position::new(x, y)) {
                proof {
                    lemma_symbol_spellable(sq);
                }
                out.append(" ");
                assert(" "@ =~= seq![' ']);
                out.append(one_char(sq.to_char()).as_str());
                assert(out@ =~= before + seq![' ', square_symbol(sq)]);
            }
            assert(before + self.row_text(y as int, x as int) =~= out@ + self.row_text(y as int, x as int + 1));
            x = x + 1;
        }
        assert(out@ =~= start + self.row_text(y as int, 2));
        out.append(" | ");
        out.append(one_char(label).as_str());
        out.append("\n");
        assert(out@ =~= old(out)@ + self.rank_line(y as int));
    }

    /// The board as shown to a player.
    pub fn render(&self) -> (r: String)
        ensures
            r@ == self.board_text(),
    {
        proof {
            reveal_strlit("White");
            reveal_strlit("Black");
        }
        let mut out = String::from_str(self.turn.name());
        out.append(" Plays\n");
        out.append("    a b c d e f g h  \n");
        out.append("  +-----------------+\n");
        let ghost head = out@;
        let mut y: i8 = 9;
        while y >= 2
            invariant
                1 <= y <= 9,
                out@ + self.rows_text(y as int) == head + self.rows_text(9),
            decreases y,
        {
            let ghost before = out@;
            self.push_rank(y, &mut out);
            assert(before + self.rows_text(y as int) =~= out@ + self.rows_text(y as int - 1));
            y = y - 1;
        }
        assert(out@ =~= head + self.rows_text(9));
        out.append("  +-----------------+\n");
        out.append("    a b c d e f g h  \n");
        assert(out@ =~= self.board_text());
        out
    }
}

} // verus!
