//! The calls into the `chess` crate and into std's UTF-8 check. Positions
//! travel through the library as FEN text, so that a game holds only plain
//! values; the engine parses, moves and prints.
use vstd::prelude::*;

use chess::{Board, ChessMove, Color};
use std::str::FromStr;
use vstd::utf8::{encode_utf8, valid_utf8};

verus! {

/// The standard starting position in FEN.
pub open spec fn start_fen() -> Seq<char> {
    "rnbqkbnr/pppppppp/8/8/8/8/PPPPPPPP/RNBQKBNR w KQkq - 0 1"@
}

/// The FEN that the engine prints after playing the SAN move `san` in the
/// position `position`, or `None` where the position does not parse or the
/// move is not a legal move there.
pub uninterp spec fn san_outcome(position: Seq<char>, san: Seq<char>) -> Option<Seq<char>>;

/// Whether white is to move in `position`, or `None` where it does not parse.
pub uninterp spec fn white_to_move(position: Seq<char>) -> Option<bool>;

/// A position that the engine itself produced: the starting position, or
/// one printed after a move that it accepted. Both kings stand on the board
/// there (the start has them, and the engine plays only legal moves, which
/// never capture a king), which the engine's parser needs: a side to move
/// without a king makes it index past its tables.
pub open spec fn engine_position(p: Seq<char>) -> bool {
    p == start_fen() || exists|q: Seq<char>, m: Seq<char>| san_outcome(q, m) == Some(p)
}

/// Relies on `chess::Board::default`, which parses the FEN above, and on the
/// board's `Display`, which prints it back as FEN.
#[verifier::external_body]
pub(crate) fn starting_position() -> (r: String)
    ensures
        r@ == start_fen(),
{
    Board::default().to_string()
}

/// Relies on `Board::from_str` to read the position, `ChessMove::from_san`
/// to read the move (it returns only moves found among the legal ones),
/// `Board::make_move_new` to play it and the board's `Display` to print FEN.
#[verifier::external_body]
pub(crate) fn apply_san(position: &str, san: &str) -> (r: Option<String>)
    requires
        engine_position(position@),
    ensures
        r matches Some(s) ==> san_outcome(position@, san@) == Some(s@),
        r is None ==> san_outcome(position@, san@) is None,
{
    let board = Board::from_str(position).ok()?;
    let m = ChessMove::from_san(&board, san).ok()?;
    Some(board.make_move_new(m).to_string())
}

/// Relies on `Board::from_str` and `Board::side_to_move`.
#[verifier::external_body]
pub(crate) fn side_to_move(position: &str) -> (r: Option<bool>)
    requires
        engine_position(position@),
    ensures
        r == white_to_move(position@),
{
    match Board::from_str(position) {
        Ok(b) => match b.side_to_move() {
            Color::White => Some(true),
            Color::Black => Some(false),
        },
        Err(_) => None,
    }
}

/// Relies on `std::str::from_utf8`: it accepts exactly the valid UTF-8
/// byte sequences, and the text it returns is made of those bytes.
#[verifier::external_body]
pub(crate) fn utf8_text(bytes: &[u8]) -> (r: Option<String>)
    ensures
        r is Some <==> valid_utf8(bytes@),
        r matches Some(s) ==> encode_utf8(s@) == bytes@,
{
    std::str::from_utf8(bytes).ok().map(|s| s.to_string())
}

} // verus!
