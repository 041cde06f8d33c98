use vstd::prelude::*;
use crate::board::{Board, index_of, initial_at, on_board};
use crate::game::Game;
use crate::pieces::{Color, opponent};

verus! {

/// Index of a square in row-major order.
pub open spec fn square_index(sq: (usize, usize)) -> int {
    index_of(sq.0 as int, sq.1 as int)
}

/// `m` lists, in row-major order and each once, the squares that the piece on
/// `pos` may move to in game `g`.
pub open spec fn lists_moves(g: Game, pos: (usize, usize), m: Seq<(usize, usize)>) -> bool {
    &&& forall|i: int|
        0 <= i < m.len() ==> on_board(#[trigger] m[i]) && g.board.is_legal(pos, m[i], g.turn)
    &&& forall|sq: (usize, usize)|
        on_board(sq) && g.board.is_legal(pos, sq, g.turn) ==> m.contains(sq)
    &&& forall|i: int, j: int|
        0 <= i < j < m.len() ==> square_index(#[trigger] m[i]) < square_index(#[trigger] m[j])
}

/// The state behind the interactive board: the game, the square picked as the
/// source of a move, and the moves open from it.
pub struct ChessApp {
    pub game: Game,
    pub selected: Option<(usize, usize)>,
    pub valid_moves: Vec<(usize, usize)>,
}

impl ChessApp {
    pub open spec fn wf(&self) -> bool {
        &&& self.game.wf()
        &&& match self.selected {
            Some(sq) => on_board(sq) && lists_moves(self.game, sq, self.valid_moves@),
            None => self.valid_moves@.len() == 0,
        }
    }

    pub open spec fn is_fresh(&self) -> bool {
        &&& self.wf()
        &&& self.game.turn == Color::White
        &&& forall|r: int, c: int|
            0 <= r < 8 && 0 <= c < 8 ==> self.game.board.at(r, c) == initial_at(r, c)
        &&& self.game.board.captured_white@.len() == 0
        &&& self.game.board.captured_black@.len() == 0
        &&& self.selected is None
    }

    /// A new game with nothing selected.
    pub fn new() -> (app: ChessApp)
        ensures
            app.is_fresh(),
    {
        ChessApp { game: Game::new(), selected: None, valid_moves: Vec::new() }
    }

    /// Starts over from the initial position.
    pub fn new_game(&mut self)
        ensures
            final(self).is_fresh(),
    {
        self.game = Game::new();
        self.selected = None;
        self.valid_moves = Vec::new();
    }

    /// Every square that the piece on `pos` may move to, in row-major order.
    pub fn get_valid_moves(&self, pos: (usize, usize)) -> (moves: Vec<(usize, usize)>)
        requires
            self.game.wf(),
            on_board(pos),
        ensures
            lists_moves(self.game, pos, moves@),
    {
        let mut moves: Vec<(usize, usize)> = Vec::new();
        let mut r: usize = 0;
        while r < 8
            invariant
                r <= 8,
                self.game.wf(),
                on_board(pos),
                forall|i: int|
                    0 <= i < moves@.len() ==> on_board(#[trigger] moves@[i])
                        && self.game.board.is_legal(pos, moves@[i], self.game.turn)
                        && square_index(moves@[i]) < r * 8,
                forall|sq: (usize, usize)|
                    on_board(sq) && square_index(sq) < r * 8 && self.game.board.is_legal(
                        pos,
                        sq,
                        self.game.turn,
                    ) ==> moves@.contains(sq),
                forall|i: int, j: int|
                    0 <= i < j < moves@.len() ==> square_index(#[trigger] moves@[i])
                        < square_index(#[trigger] moves@[j]),
            decreases 8 - r,
        {
            let mut c: usize = 0;
            while c < 8
                invariant
                    r < 8,
                    c <= 8,
                    self.game.wf(),
                    on_board(pos),
                    forall|i: int|
                        0 <= i < moves@.len() ==> on_board(#[trigger] moves@[i])
                            && self.game.board.is_legal(pos, moves@[i], self.game.turn)
                            && square_index(moves@[i]) < r * 8 + c,
                    forall|sq: (usize, usize)|
                        on_board(sq) && square_index(sq) < r * 8 + c && self.game.board.is_legal(
                            pos,
                            sq,
                            self.game.turn,
                        ) ==> moves@.contains(sq),
                    forall|i: int, j: int|
                        0 <= i < j < moves@.len() ==> square_index(#[trigger] moves@[i])
                            < square_index(#[trigger] moves@[j]),
                decreases 8 - c,
            {
                if self.game.board.is_valid_move(pos, (r, c), self.game.turn) {
                    let ghost prev = moves@;
                    moves.push((r, c));
                    proof {
                        assert forall|sq: (usize, usize)|
                            on_board(sq) && square_index(sq) < r * 8 + c + 1
                                && self.game.board.is_legal(
                                pos,
                                sq,
                                self.game.turn,
                            ) implies moves@.contains(sq) by {
                            if square_index(sq) < r * 8 + c {
                                let i = choose|i: int| 0 <= i < prev.len() && prev[i] == sq;
                                assert(moves@[i] == sq);
                            } else {
                                assert(sq == (r, c));
                                assert(moves@[prev.len() as int] == sq);
                            }
                        }
                    }
                } else {
                    proof {
                        assert forall|sq: (usize, usize)|
                            on_board(sq) && square_index(sq) < r * 8 + c + 1
                                && self.game.board.is_legal(
                                pos,
                                sq,
                                self.game.turn,
                            ) implies moves@.contains(sq) by {
                            if square_index(sq) == r * 8 + c {
                                assert(sq == (r, c));
                            }
                        }
                    }
                }
                c = c + 1;
            }
            r = r + 1;
        }
        moves
    }

    /// Handles a click on square (r, c). With nothing selected, the square is
    /// selected and its moves listed. With a square selected, the move from it
    /// to (r, c) is made if it is legal for the side to move, and the selection
    /// is dropped either way.
    pub fn click(&mut self, r: usize, c: usize)
        requires
            old(self).wf(),
            r < 8,
            c < 8,
        ensures
            final(self).wf(),
            match old(self).selected {
                None => {
                    &&& final(self).game == old(self).game
                    &&& final(self).selected == Some((r, c))
                },
                Some(from) => {
                    &&& final(self).selected is None
                    &&& if old(self).game.board.is_legal(from, (r, c), old(self).game.turn) {
                        &&& final(self).game.turn == opponent(old(self).game.turn)
                        &&& Board::moved(old(self).game.board, final(self).game.board, from, (r, c))
                    } else {
                        final(self).game == old(self).game
                    }
                },
            },
    {
        if let Some(from) = self.selected {
            if self.game.board.is_valid_move(from, (r, c), self.game.turn) {
                self.game.board.move_piece(from, (r, c));
                self.game.switch_turn();
            }
            self.selected = None;
            self.valid_moves.clear();
        } else {
            self.selected = Some((r, c));
            self.valid_moves = self.get_valid_moves((r, c));
        }
    }
}

} // verus!
