use vstd::prelude::*;

verus! {

/// The characters that `one_char` can spell.
pub open spec fn is_text_char(c: char) -> bool {
    c == 'a' || c == 'b' || c == 'c' || c == 'd' || c == 'e' || c == 'f' || c == 'g' || c == 'h' || c == '1' || c == '2' || c == '3' || c == '4' || c == '5' || c == '6' || c == '7' || c == '8' || c == 'E' || c == 'r' || c == 'n' || c == 'q' || c == 'k' || c == 'p' || c == 'R' || c == 'N' || c == 'B' || c == 'Q' || c == 'K' || c == 'P' || c == '.'
}

/// A string holding the single character `c`.
pub fn one_char(c: char) -> (r: String)
    requires
        is_text_char(c),
    ensures
        r@ == seq![c],
{
    proof {
        reveal_strlit("a");
        reveal_strlit("b");
        reveal_strlit("c");
        reveal_strlit("d");
        reveal_strlit("e");
        reveal_strlit("f");
        reveal_strlit("g");
        reveal_strlit("h");
        reveal_strlit("1");
        reveal_strlit("2");
        reveal_strlit("3");
        reveal_strlit("4");
        reveal_strlit("5");
        reveal_strlit("6");
        reveal_strlit("7");
        reveal_strlit("8");
        reveal_strlit("E");
        reveal_strlit("r");
        reveal_strlit("n");
        reveal_strlit("q");
        reveal_strlit("k");
        reveal_strlit("p");
        reveal_strlit("R");
        reveal_strlit("N");
        reveal_strlit("B");
        reveal_strlit("Q");
        reveal_strlit("K");
        reveal_strlit("P");
        reveal_strlit(".");
    }
    let s: &str = match c {
        'a' => "a",
        'b' => "b",
        'c' => "c",
        'd' => "d",
        'e' => "e",
        'f' => "f",
        'g' => "g",
        'h' => "h",
        '1' => "1",
        '2' => "2",
        '3' => "3",
        '4' => "4",
        '5' => "5",
        '6' => "6",
        '7' => "7",
        '8' => "8",
        'E' => "E",
        'r' => "r",
        'n' => "n",
        'q' => "q",
        'k' => "k",
        'p' => "p",
        'R' => "R",
        'N' => "N",
        'B' => "B",
        'Q' => "Q",
        'K' => "K",
        'P' => "P",
        _ => ".",
    };
    String::from_str(s)
}

} // verus!
