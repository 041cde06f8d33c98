use vstd::prelude::*;
use crate::board::{
    Board, abs, aligned, diagonal, lemma_sum_push, on_board, pawn_dir, pawn_start, straight,
};
use crate::game::Game;
use crate::pieces::{Color, Piece, PieceType, kind_value, opponent};

verus! {

/// No move leaves a piece on its own square.
pub proof fn lemma_same_square_illegal(b: Board, sq: (usize, usize), color: Color)
    ensures
        !b.is_legal(sq, sq, color),
{
}

/// A pawn on its starting rank, with the two squares ahead of it empty, may go
/// forward exactly one or two squares, and may go diagonally forward only onto
/// an opposing piece.
pub proof fn lemma_pawn_from_start(b: Board, from: (usize, usize), color: Color)
    requires
        b.wf(),
        on_board(from),
        b.at_sq(from) == Some(Piece { piece_type: PieceType::Pawn, color }),
        from.0 == pawn_start(color),
        b.at(from.0 + pawn_dir(color), from.1 as int) is None,
        b.at(from.0 + 2 * pawn_dir(color), from.1 as int) is None,
    ensures
        forall|to: (usize, usize)|
            on_board(to) && to.1 == from.1 ==> (b.is_legal(from, to, color) <==> (to.0 == from.0
                + pawn_dir(color) || to.0 == from.0 + 2 * pawn_dir(color))),
        forall|to: (usize, usize)|
            on_board(to) && abs(to.1 - from.1) == 1 ==> (b.is_legal(from, to, color) <==> (to.0
                == from.0 + pawn_dir(color) && b.at_sq(to) is Some && b.at_sq(to)->0.color
                == opponent(color))),
{
}

/// A bishop, rook or queen move along its own lines, onto a square not held by
/// its own side, is legal exactly when every square strictly between the two
/// ends is empty.
pub proof fn lemma_path_clearance(b: Board, from: (usize, usize), to: (usize, usize), color: Color)
    requires
        b.wf(),
        on_board(from),
        on_board(to),
        from != to,
        b.at_sq(from) is Some,
        b.at_sq(from)->0.color == color,
        !(b.at_sq(to) is Some && b.at_sq(to)->0.color == color),
        match b.at_sq(from)->0.piece_type {
            PieceType::Bishop => diagonal(from, to),
            PieceType::Rook => straight(from, to),
            PieceType::Queen => aligned(from, to),
            _ => false,
        },
    ensures
        b.is_legal(from, to, color) <==> b.path_clear(from, to),
        b.is_legal(from, to, color) <==> !(exists|k: int|
            0 < k < crate::board::span(from, to) && (#[trigger] b.along(from, to, k)) is Some),
{
}

/// Taking a piece of value V raises the taker's score by exactly V, leaves the
/// other score alone, and appends the piece to the list of its own colour.
pub proof fn lemma_capture_scores(pre: Board, post: Board, from: (usize, usize), to: (usize, usize))
    requires
        Board::moved(pre, post, from, to),
        pre.at_sq(to) is Some,
    ensures
        ({
            let q = pre.at_sq(to)->0;
            &&& post.score(opponent(q.color)) == pre.score(opponent(q.color)) + kind_value(
                q.piece_type,
            )
            &&& post.score(q.color) == pre.score(q.color)
            &&& post.captured_of(q.color) == pre.captured_of(q.color).push(q)
            &&& post.captured_of(opponent(q.color)) == pre.captured_of(opponent(q.color))
        }),
{
    let q = pre.at_sq(to)->0;
    lemma_sum_push(pre.captured_white@, q);
    lemma_sum_push(pre.captured_black@, q);
}

/// A move onto an empty square changes neither score.
pub proof fn lemma_quiet_move_scores(pre: Board, post: Board, from: (usize, usize), to: (usize, usize))
    requires
        Board::moved(pre, post, from, to),
        pre.at_sq(to) is None,
    ensures
        post.score(Color::White) == pre.score(Color::White),
        post.score(Color::Black) == pre.score(Color::Black),
{
}

/// Game `i` of the run has the turn passed on from game `i - 1`.
pub open spec fn passes_turn(gs: Seq<Game>, i: int) -> bool {
    gs[i].turn == opponent(gs[i - 1].turn)
}

/// In any run of games that starts with White to move and in which each game
/// follows the one before by an accepted move (which passes the turn), White is
/// to move after `n` moves exactly when `n` is even.
pub proof fn lemma_turn_alternates(gs: Seq<Game>)
    requires
        gs.len() >= 1,
        gs[0].turn == Color::White,
        forall|i: int| 0 < i < gs.len() ==> #[trigger] passes_turn(gs, i),
    ensures
        (gs.last().turn == Color::White) <==> (gs.len() - 1) % 2 == 0,
    decreases gs.len(),
{
    if gs.len() > 1 {
        let prev = gs.drop_last();
        assert forall|i: int| 0 < i < prev.len() implies #[trigger] passes_turn(prev, i) by {
            assert(passes_turn(gs, i));
        }
        lemma_turn_alternates(prev);
        assert(passes_turn(gs, gs.len() - 1));
    }
}
} // verus!
