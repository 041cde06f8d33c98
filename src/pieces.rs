use vstd::prelude::*;

verus! {

/// The six kinds of chess piece.
#[derive(Clone, Copy, PartialEq, Eq, Structural, Debug)]
pub enum PieceType {
    Pawn,
    Knight,
    Bishop,
    Rook,
    Queen,
    King,
}

/// The two sides.
#[derive(Clone, Copy, PartialEq, Eq, Structural, Debug)]
pub enum Color {
    White,
    Black,
}

/// A piece is a plain (kind, side) value.
#[derive(Clone, Copy, PartialEq, Eq, Structural, Debug)]
pub struct Piece {
    pub piece_type: PieceType,
    pub color: Color,
}

/// The other side.
pub open spec fn opponent(c: Color) -> Color {
    match c {
        Color::White => Color::Black,
        Color::Black => Color::White,
    }
}

/// Material value of a kind.
pub open spec fn kind_value(k: PieceType) -> nat {
    match k {
        PieceType::Pawn => 1,
        PieceType::Knight => 3,
        PieceType::Bishop => 3,
        PieceType::Rook => 5,
        PieceType::Queen => 9,
        PieceType::King => 0,
    }
}

/// Display glyph of a (kind, side) pair.
pub open spec fn glyph(k: PieceType, c: Color) -> char {
    match (k, c) {
        (PieceType::Pawn, Color::White) => '♙',
        (PieceType::Knight, Color::White) => '♘',
        (PieceType::Bishop, Color::White) => '♗',
        (PieceType::Rook, Color::White) => '♖',
        (PieceType::Queen, Color::White) => '♕',
        (PieceType::King, Color::White) => '♔',
        (PieceType::Pawn, Color::Black) => '♟',
        (PieceType::Knight, Color::Black) => '♞',
        (PieceType::Bishop, Color::Black) => '♝',
        (PieceType::Rook, Color::Black) => '♜',
        (PieceType::Queen, Color::Black) => '♛',
        (PieceType::King, Color::Black) => '♚',
    }
}

/// Every (kind, side) pair has its own glyph.
pub proof fn lemma_glyphs_distinct(a: Piece, b: Piece)
    ensures
        glyph(a.piece_type, a.color) == glyph(b.piece_type, b.color) ==> a == b,
{
}

impl Piece {
    pub fn new(piece_type: PieceType, color: Color) -> (r: Piece)
        ensures
            r.piece_type == piece_type,
            r.color == color,
    {
        Piece { piece_type, color }
    }

    /// The display glyph of this piece.
    pub fn to_char(&self) -> (r: char)
        ensures
            r == glyph(self.piece_type, self.color),
    {
        match (self.piece_type, self.color) {
            (PieceType::Pawn, Color::White) => '♙',
            (PieceType::Knight, Color::White) => '♘',
            (PieceType::Bishop, Color::White) => '♗',
            (PieceType::Rook, Color::White) => '♖',
            (PieceType::Queen, Color::White) => '♕',
            (PieceType::King, Color::White) => '♔',
            (PieceType::Pawn, Color::Black) => '♟',
            (PieceType::Knight, Color::Black) => '♞',
            (PieceType::Bishop, Color::Black) => '♝',
            (PieceType::Rook, Color::Black) => '♜',
            (PieceType::Queen, Color::Black) => '♛',
            (PieceType::King, Color::Black) => '♚',
        }
    }

    /// The material value of this piece.
    pub fn point_value(&self) -> (r: u32)
        ensures
            r == kind_value(self.piece_type),
    {
        match self.piece_type {
            PieceType::Pawn => 1,
            PieceType::Knight => 3,
            PieceType::Bishop => 3,
            PieceType::Rook => 5,
            PieceType::Queen => 9,
            PieceType::King => 0,
        }
    }
}

} // verus!
