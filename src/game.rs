use vstd::prelude::*;
use crate::board::{Board, initial_at, lemma_sum_bound, on_board};
use crate::pieces::{Color, Piece, opponent};

verus! {

/// A board together with the side to move.
pub struct Game {
    pub board: Board,
    pub turn: Color,
    /// How many times the turn has passed since the game began.
    pub passes: Ghost<nat>,
}

/// Why a move was refused.
#[derive(Clone, Copy, PartialEq, Eq, Structural, Debug)]
pub enum MoveError {
    /// A coordinate lies outside the 8x8 grid.
    OutOfBounds,
    /// The move breaks a movement, occupancy or turn rule.
    IllegalMove,
}

impl Game {
    /// A well-formed grid on which the 32 pieces are all accounted for.
    pub open spec fn wf(&self) -> bool {
        &&& self.board.wf()
        &&& self.board.piece_total() == 32
        &&& ((self.turn == Color::White) <==> self.passes@ % 2 == 0)
    }

    /// The material score of `side`: the value of the opposing pieces it took.
    pub open spec fn score(&self, side: Color) -> nat {
        self.board.score(side)
    }

    /// The pieces that `side` has taken, in the order taken.
    pub open spec fn taken_by(&self, side: Color) -> Seq<Piece> {
        self.board.captured_of(opponent(side))
    }

    /// The starting position, White to move.
    pub fn new() -> (g: Game)
        ensures
            g.wf(),
            g.turn == Color::White,
            g.passes@ == 0,
            forall|r: int, c: int| 0 <= r < 8 && 0 <= c < 8 ==> g.board.at(r, c) == initial_at(r, c),
            g.board.captured_white@.len() == 0,
            g.board.captured_black@.len() == 0,
    {
        Game { board: Board::new(), turn: Color::White, passes: Ghost(0) }
    }

    /// Whether the side to move may move the piece on `from` to `to`.
    pub fn is_valid_move(&self, from: (usize, usize), to: (usize, usize)) -> (r: bool)
        requires
            self.wf(),
            on_board(from),
            on_board(to),
        ensures
            r == self.board.is_legal(from, to, self.turn),
    {
        self.board.is_valid_move(from, to, self.turn)
    }

    /// The material score of `side`.
    pub fn material_score(&self, side: Color) -> (r: u32)
        requires
            self.wf(),
        ensures
            r == self.score(side),
    {
        proof {
            lemma_sum_bound(self.board.captured_white@);
            lemma_sum_bound(self.board.captured_black@);
        }
        match side {
            Color::White => self.board.get_white_points(),
            Color::Black => self.board.get_black_points(),
        }
    }

    /// The pieces that `side` has taken, in the order taken.
    pub fn captured_pieces(&self, side: Color) -> (r: Vec<Piece>)
        ensures
            r@ == self.taken_by(side),
    {
        let r = match side {
            Color::White => self.board.captured_black.clone(),
            Color::Black => self.board.captured_white.clone(),
        };
        assert(r@ =~= self.taken_by(side));
        r
    }

    /// Passes the move to the other side.
    pub fn switch_turn(&mut self)
        ensures
            final(self).turn == opponent(old(self).turn),
            final(self).board == old(self).board,
            final(self).passes@ == old(self).passes@ + 1,
            old(self).wf() ==> final(self).wf(),
    {
        self.turn = match self.turn {
            Color::White => Color::Black,
            Color::Black => Color::White,
        };
        self.passes = Ghost(self.passes@ + 1);
    }

    /// Checks the move for the side to move and, when it is legal, makes it and
    /// passes the turn; otherwise leaves the game as it was.
    pub fn apply_move(&mut self, from: (usize, usize), to: (usize, usize)) -> (r: Result<(), MoveError>)
        requires
            old(self).wf(),
        ensures
            final(self).wf(),
            r == Err::<(), MoveError>(MoveError::OutOfBounds) <==> !(on_board(from) && on_board(to)),
            r == Err::<(), MoveError>(MoveError::IllegalMove) <==> (on_board(from) && on_board(to)
                && !old(self).board.is_legal(from, to, old(self).turn)),
            r is Err ==> *final(self) == *old(self),
            r is Ok ==> {
                &&& final(self).turn == opponent(old(self).turn)
                &&& final(self).passes@ == old(self).passes@ + 1
                &&& Board::moved(old(self).board, final(self).board, from, to)
            },
    {
        if !(from.0 < 8 && from.1 < 8 && to.0 < 8 && to.1 < 8) {
            return Err(MoveError::OutOfBounds);
        }
        if !self.board.is_valid_move(from, to, self.turn) {
            return Err(MoveError::IllegalMove);
        }
        self.board.move_piece(from, to);
        self.switch_turn();
        Ok(())
    }
}

} // verus!
