/// Walks along rays, and whether a piece could capture on a square, read backwards from it.
pub mod attacks;
/// Why a move text or a move is refused.
pub mod errors;
/// The board, the side to move and the starting position.
pub mod game;
/// Coordinates of the padded board, directions, steps and walks.
pub mod geometry;
/// The movement rules, the safety of the mover's king, castling and promotion.
pub mod legality;
/// Enumeration of the moves of a piece and of the legal moves of a side.
pub mod movegen;
/// Moves, their text form, and the values the search gives them.
pub mod moves;
/// Colors, piece types, pieces and squares.
pub mod pieces;
/// The board as text.
pub mod render;
/// Static evaluation and the fixed-depth minimax search.
pub mod search;
/// Strings spelled one character at a time.
pub mod text;
