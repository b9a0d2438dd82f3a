//! Piece kinds, sides, and the one-byte piece-letter decoder.

use vstd::prelude::*;

verus! {

/// A kind of piece that can be held in hand.  The king never is, so it has no
/// variant here, and a `K` or `k` byte is not a hand token.
#[derive(Clone, Copy, Debug, PartialEq, Eq, Structural)]
pub enum PieceKind {
    Pawn,
    Lance,
    Knight,
    Silver,
    Gold,
    Bishop,
    Rook,
}

/// One of the two players.  `Black` moves first; upper-case piece letters are
/// black's, lower-case letters are white's.
#[derive(Clone, Copy, Debug, PartialEq, Eq, Structural)]
pub enum Side {
    Black,
    White,
}

/// What a single byte decodes to as a piece letter: the piece kind and the
/// side that the letter's case selects, or `None` for every byte that is not
/// one of the fourteen piece letters.
pub open spec fn decode_spec(b: u8) -> Option<(PieceKind, Side)> {
    if b == 80 {
        Some((PieceKind::Pawn, Side::Black))
    } else if b == 76 {
        Some((PieceKind::Lance, Side::Black))
    } else if b == 78 {
        Some((PieceKind::Knight, Side::Black))
    } else if b == 83 {
        Some((PieceKind::Silver, Side::Black))
    } else if b == 71 {
        Some((PieceKind::Gold, Side::Black))
    } else if b == 66 {
        Some((PieceKind::Bishop, Side::Black))
    } else if b == 82 {
        Some((PieceKind::Rook, Side::Black))
    } else if b == 112 {
        Some((PieceKind::Pawn, Side::White))
    } else if b == 108 {
        Some((PieceKind::Lance, Side::White))
    } else if b == 110 {
        Some((PieceKind::Knight, Side::White))
    } else if b == 115 {
        Some((PieceKind::Silver, Side::White))
    } else if b == 103 {
        Some((PieceKind::Gold, Side::White))
    } else if b == 98 {
        Some((PieceKind::Bishop, Side::White))
    } else if b == 114 {
        Some((PieceKind::Rook, Side::White))
    } else {
        None
    }
}

/// Decodes one byte as a piece letter.
pub fn decode_piece(b: u8) -> (r: Option<(PieceKind, Side)>)
    ensures
        r == decode_spec(b),
{
    if b == 80 {
        // 'P'
        Some((PieceKind::Pawn, Side::Black))
    } else if b == 76 {
        // 'L'
        Some((PieceKind::Lance, Side::Black))
    } else if b == 78 {
        // 'N'
        Some((PieceKind::Knight, Side::Black))
    } else if b == 83 {
        // 'S'
        Some((PieceKind::Silver, Side::Black))
    } else if b == 71 {
        // 'G'
        Some((PieceKind::Gold, Side::Black))
    } else if b == 66 {
        // 'B'
        Some((PieceKind::Bishop, Side::Black))
    } else if b == 82 {
        // 'R'
        Some((PieceKind::Rook, Side::Black))
    } else if b == 112 {
        // 'p'
        Some((PieceKind::Pawn, Side::White))
    } else if b == 108 {
        // 'l'
        Some((PieceKind::Lance, Side::White))
    } else if b == 110 {
        // 'n'
        Some((PieceKind::Knight, Side::White))
    } else if b == 115 {
        // 's'
        Some((PieceKind::Silver, Side::White))
    } else if b == 103 {
        // 'g'
        Some((PieceKind::Gold, Side::White))
    } else if b == 98 {
        // 'b'
        Some((PieceKind::Bishop, Side::White))
    } else if b == 114 {
        // 'r'
        Some((PieceKind::Rook, Side::White))
    } else {
        None
    }
}

} // verus!
