use vstd::prelude::*;
use crate::pieces::{Color, Piece, PieceType, kind_value, opponent};

verus! {

/// An 8x8 grid of optional pieces, stored row by row, with the pieces taken
/// from play filed by their own colour.
pub struct Board {
    pub squares: Vec<Option<Piece>>,
    pub captured_white: Vec<Piece>,
    pub captured_black: Vec<Piece>,
}

/// Index of square (r, c) in the row-major grid.
pub open spec fn index_of(r: int, c: int) -> int {
    r * 8 + c
}

pub open spec fn on_board(sq: (usize, usize)) -> bool {
    sq.0 < 8 && sq.1 < 8
}

pub open spec fn sgn(d: int) -> int {
    if d > 0 {
        1
    } else if d < 0 {
        -1
    } else {
        0
    }
}

pub open spec fn abs(d: int) -> int {
    if d < 0 {
        -d
    } else {
        d
    }
}

/// `k` steps in direction `s` (one of -1, 0, 1).
pub open spec fn steps(s: int, k: int) -> int {
    if s > 0 {
        k
    } else if s < 0 {
        -k
    } else {
        0
    }
}

/// Number of king steps from one square to another along a line or diagonal.
pub open spec fn span(from: (usize, usize), to: (usize, usize)) -> int {
    let dr = abs(to.0 - from.0);
    let dc = abs(to.1 - from.1);
    if dr > dc {
        dr
    } else {
        dc
    }
}

/// The two squares lie on one rank, one file or one diagonal.
pub open spec fn aligned(from: (usize, usize), to: (usize, usize)) -> bool {
    from.0 == to.0 || from.1 == to.1 || abs(to.0 - from.0) == abs(to.1 - from.1)
}

pub open spec fn straight(from: (usize, usize), to: (usize, usize)) -> bool {
    from.0 == to.0 || from.1 == to.1
}

pub open spec fn diagonal(from: (usize, usize), to: (usize, usize)) -> bool {
    abs(to.0 - from.0) == abs(to.1 - from.1)
}

pub open spec fn knight_shape(from: (usize, usize), to: (usize, usize)) -> bool {
    let dr = abs(from.0 - to.0);
    let dc = abs(from.1 - to.1);
    (dr == 2 && dc == 1) || (dr == 1 && dc == 2)
}

pub open spec fn king_shape(from: (usize, usize), to: (usize, usize)) -> bool {
    abs(from.0 - to.0) <= 1 && abs(from.1 - to.1) <= 1
}

/// Forward direction of a side's pawns.
pub open spec fn pawn_dir(color: Color) -> int {
    match color {
        Color::White => 1,
        Color::Black => -1,
    }
}

/// The rank a side's pawns start on.
pub open spec fn pawn_start(color: Color) -> int {
    match color {
        Color::White => 1,
        Color::Black => 6,
    }
}

/// Back-rank kind in column `c` of the starting position.
pub open spec fn back_rank_kind(c: int) -> PieceType {
    if c == 0 || c == 7 {
        PieceType::Rook
    } else if c == 1 || c == 6 {
        PieceType::Knight
    } else if c == 2 || c == 5 {
        PieceType::Bishop
    } else if c == 3 {
        PieceType::Queen
    } else {
        PieceType::King
    }
}

/// Content of square (r, c) in the standard starting position.
pub open spec fn initial_at(r: int, c: int) -> Option<Piece> {
    if r == 0 {
        Some(Piece { piece_type: back_rank_kind(c), color: Color::White })
    } else if r == 1 {
        Some(Piece { piece_type: PieceType::Pawn, color: Color::White })
    } else if r == 6 {
        Some(Piece { piece_type: PieceType::Pawn, color: Color::Black })
    } else if r == 7 {
        Some(Piece { piece_type: back_rank_kind(c), color: Color::Black })
    } else {
        None
    }
}

/// Total material value of a list of pieces.
pub open spec fn sum_values(s: Seq<Piece>) -> nat
    decreases s.len(),
{
    if s.len() == 0 {
        0
    } else {
        sum_values(s.drop_last()) + kind_value(s.last().piece_type)
    }
}

pub proof fn lemma_sum_push(s: Seq<Piece>, p: Piece)
    ensures
        sum_values(s.push(p)) == sum_values(s) + kind_value(p.piece_type),
{
    assert(s.push(p).drop_last() =~= s);
}

pub proof fn lemma_sum_prefix(s: Seq<Piece>, i: int)
    requires
        0 <= i <= s.len(),
    ensures
        sum_values(s.take(i)) <= sum_values(s),
    decreases s.len(),
{
    if i == s.len() {
        assert(s.take(i) =~= s);
    } else {
        lemma_sum_prefix(s.drop_last(), i);
        assert(s.drop_last().take(i) =~= s.take(i));
    }
}

/// Number of occupied squares among the first `n` of `s`.
pub open spec fn occupied(s: Seq<Option<Piece>>, n: int) -> nat
    decreases n,
{
    if n <= 0 {
        0
    } else {
        occupied(s, n - 1) + if s[n - 1] is Some {
            1nat
        } else {
            0nat
        }
    }
}

proof fn lemma_row(s: Seq<Option<Piece>>, r: int, full: bool)
    requires
        0 <= r < 8,
        s.len() == 64,
        forall|j: int| 8 * r <= j < 8 * r + 8 ==> (#[trigger] s[j] is Some) == full,
    ensures
        occupied(s, 8 * r + 8) == occupied(s, 8 * r) + if full {
            8nat
        } else {
            0nat
        },
{
    reveal_with_fuel(occupied, 9);
    assert(s[8 * r + 0] is Some == full);
    assert(s[8 * r + 1] is Some == full);
    assert(s[8 * r + 2] is Some == full);
    assert(s[8 * r + 3] is Some == full);
    assert(s[8 * r + 4] is Some == full);
    assert(s[8 * r + 5] is Some == full);
    assert(s[8 * r + 6] is Some == full);
    assert(s[8 * r + 7] is Some == full);
}

/// The starting position holds exactly 32 pieces.
pub proof fn lemma_initial_count(b: Board)
    requires
        b.wf(),
        forall|r: int, c: int| 0 <= r < 8 && 0 <= c < 8 ==> b.at(r, c) == initial_at(r, c),
    ensures
        occupied(b.squares@, 64) == 32,
{
    let s = b.squares@;
    assert forall|j: int| 0 <= j < 64 implies #[trigger] s[j] == initial_at(j / 8, j % 8) by {
        assert(b.at(j / 8, j % 8) == s[j]);
    }
    lemma_row(s, 0, true);
    lemma_row(s, 1, true);
    lemma_row(s, 2, false);
    lemma_row(s, 3, false);
    lemma_row(s, 4, false);
    lemma_row(s, 5, false);
    lemma_row(s, 6, true);
    lemma_row(s, 7, true);
    assert(occupied(s, 0) == 0);
}

pub proof fn lemma_occupied_update(s: Seq<Option<Piece>>, i: int, v: Option<Piece>, n: int)
    requires
        0 <= i < n <= s.len(),
    ensures
        occupied(s.update(i, v), n) + (if s[i] is Some {
            1int
        } else {
            0int
        }) == occupied(s, n) + (if v is Some {
            1int
        } else {
            0int
        }),
    decreases n,
{
    if n - 1 > i {
        lemma_occupied_update(s, i, v, n - 1);
    } else {
        lemma_occupied_same(s, s.update(i, v), n - 1);
    }
}

proof fn lemma_occupied_same(s: Seq<Option<Piece>>, t: Seq<Option<Piece>>, n: int)
    requires
        0 <= n <= s.len(),
        n <= t.len(),
        forall|j: int| 0 <= j < n ==> s[j] == t[j],
    ensures
        occupied(s, n) == occupied(t, n),
    decreases n,
{
    if n > 0 {
        lemma_occupied_same(s, t, n - 1);
    }
}

pub proof fn lemma_sum_bound(s: Seq<Piece>)
    ensures
        sum_values(s) <= 9 * s.len(),
    decreases s.len(),
{
    if s.len() > 0 {
        lemma_sum_bound(s.drop_last());
    }
}

impl Board {
    pub open spec fn wf(&self) -> bool {
        self.squares@.len() == 64
    }

    /// Pieces on the grid plus pieces taken: constant under every move.
    pub open spec fn piece_total(&self) -> nat {
        occupied(self.squares@, 64) + self.captured_white@.len() + self.captured_black@.len()
    }

    /// What stands on square (r, c).
    pub open spec fn at(&self, r: int, c: int) -> Option<Piece> {
        self.squares@[index_of(r, c)]
    }

    pub open spec fn at_sq(&self, sq: (usize, usize)) -> Option<Piece> {
        self.at(sq.0 as int, sq.1 as int)
    }

    /// The square `k` steps from `from` towards `to`.
    pub open spec fn along(&self, from: (usize, usize), to: (usize, usize), k: int) -> Option<Piece> {
        self.at(
            from.0 + steps(sgn(to.0 - from.0), k),
            from.1 + steps(sgn(to.1 - from.1), k),
        )
    }

    /// Every square strictly between `from` and `to` is empty.
    pub open spec fn path_clear(&self, from: (usize, usize), to: (usize, usize)) -> bool {
        forall|k: int| 0 < k < span(from, to) ==> (#[trigger] self.along(from, to, k)) is None
    }

    pub open spec fn pawn_allows(&self, from: (usize, usize), to: (usize, usize), color: Color) -> bool {
        let d = pawn_dir(color);
        ||| (to.1 == from.1 && to.0 == from.0 + d && self.at_sq(to) is None)
        ||| (from.0 == pawn_start(color) && to.1 == from.1 && to.0 == from.0 + 2 * d
            && self.at(from.0 + d, from.1 as int) is None && self.at_sq(to) is None)
        ||| (abs(to.1 - from.1) == 1 && to.0 == from.0 + d && self.at_sq(to) is Some)
    }

    pub open spec fn bishop_allows(&self, from: (usize, usize), to: (usize, usize)) -> bool {
        diagonal(from, to) && self.path_clear(from, to)
    }

    pub open spec fn rook_allows(&self, from: (usize, usize), to: (usize, usize)) -> bool {
        straight(from, to) && self.path_clear(from, to)
    }

    /// The movement rule of kind `k` admits the move.
    pub open spec fn kind_allows(
        &self,
        k: PieceType,
        from: (usize, usize),
        to: (usize, usize),
        color: Color,
    ) -> bool {
        match k {
            PieceType::Pawn => self.pawn_allows(from, to, color),
            PieceType::Knight => knight_shape(from, to),
            PieceType::Bishop => self.bishop_allows(from, to),
            PieceType::Rook => self.rook_allows(from, to),
            PieceType::Queen => self.rook_allows(from, to) || self.bishop_allows(from, to),
            PieceType::King => king_shape(from, to),
        }
    }

    /// `color` may move the piece on `from` to `to`.
    pub open spec fn is_legal(&self, from: (usize, usize), to: (usize, usize), color: Color) -> bool {
        match self.at_sq(from) {
            None => false,
            Some(p) => {
                &&& p.color == color
                &&& from != to
                &&& !(self.at_sq(to) is Some && self.at_sq(to)->0.color == color)
                &&& self.kind_allows(p.piece_type, from, to, color)
            },
        }
    }

    /// White's score: the value of the black pieces taken.
    pub open spec fn white_score(&self) -> nat {
        sum_values(self.captured_black@)
    }

    /// Black's score: the value of the white pieces taken.
    pub open spec fn black_score(&self) -> nat {
        sum_values(self.captured_white@)
    }

    /// The material score of `side`: the value of the opposing pieces it took.
    pub open spec fn score(&self, side: Color) -> nat {
        match side {
            Color::White => self.white_score(),
            Color::Black => self.black_score(),
        }
    }

    /// The pieces of colour `side` that have been taken.
    pub open spec fn captured_of(&self, side: Color) -> Seq<Piece> {
        match side {
            Color::White => self.captured_white@,
            Color::Black => self.captured_black@,
        }
    }

    /// `post` is `pre` after the piece on `from` went to `to`, whatever stood on
    /// `to` being filed under its own colour.
    pub open spec fn moved(pre: Board, post: Board, from: (usize, usize), to: (usize, usize)) -> bool {
        let p = pre.at_sq(from)->0;
        &&& post.squares@ == pre.squares@.update(index_of(to.0 as int, to.1 as int), Some(p)).update(
            index_of(from.0 as int, from.1 as int),
            None,
        )
        &&& match pre.at_sq(to) {
            None => {
                &&& post.captured_white@ == pre.captured_white@
                &&& post.captured_black@ == pre.captured_black@
            },
            Some(q) => if q.color == Color::White {
                &&& post.captured_white@ == pre.captured_white@.push(q)
                &&& post.captured_black@ == pre.captured_black@
            } else {
                &&& post.captured_white@ == pre.captured_white@
                &&& post.captured_black@ == pre.captured_black@.push(q)
            },
        }
    }
}

impl Board {
    /// A board in the standard starting position, with nothing taken.
    pub fn new() -> (b: Board)
        ensures
            b.wf(),
            forall|r: int, c: int| 0 <= r < 8 && 0 <= c < 8 ==> b.at(r, c) == initial_at(r, c),
            b.captured_white@.len() == 0,
            b.captured_black@.len() == 0,
            b.piece_total() == 32,
    {
        let mut squares: Vec<Option<Piece>> = Vec::new();
        let mut i: usize = 0;
        while i < 64
            invariant
                i <= 64,
                squares@.len() == i,
                forall|j: int| 0 <= j < i ==> squares@[j] is None,
            decreases 64 - i,
        {
            squares.push(None);
            i = i + 1;
        }
        let mut board = Board { squares, captured_white: vec![], captured_black: vec![] };
        board.setup();
        proof {
            lemma_initial_count(board);
        }
        board
    }

    /// Lays out both sides' back and pawn ranks, leaving ranks 2 to 5 and the
    /// captured lists as they were.
    fn setup(&mut self)
        requires
            old(self).wf(),
        ensures
            final(self).wf(),
            forall|r: int, c: int|
                (r == 0 || r == 1 || r == 6 || r == 7) && 0 <= c < 8 ==> final(self).at(r, c)
                    == initial_at(r, c),
            forall|r: int, c: int|
                2 <= r < 6 && 0 <= c < 8 ==> final(self).at(r, c) == old(self).at(r, c),
            final(self).captured_white@ == old(self).captured_white@,
            final(self).captured_black@ == old(self).captured_black@,
    {
        self.squares[0] = Some(Piece::new(PieceType::Rook, Color::White));
        self.squares[1] = Some(Piece::new(PieceType::Knight, Color::White));
        self.squares[2] = Some(Piece::new(PieceType::Bishop, Color::White));
        self.squares[3] = Some(Piece::new(PieceType::Queen, Color::White));
        self.squares[4] = Some(Piece::new(PieceType::King, Color::White));
        self.squares[5] = Some(Piece::new(PieceType::Bishop, Color::White));
        self.squares[6] = Some(Piece::new(PieceType::Knight, Color::White));
        self.squares[7] = Some(Piece::new(PieceType::Rook, Color::White));
        let mut i: usize = 0;
        while i < 8
            invariant
                i <= 8,
                self.wf(),
                forall|c: int| 0 <= c < 8 ==> self.at(0, c) == initial_at(0, c),
                forall|c: int| 0 <= c < i ==> self.at(1, c) == initial_at(1, c),
                forall|j: int| 8 + i <= j < 64 ==> self.squares@[j] == old(self).squares@[j],
                self.captured_white@ == old(self).captured_white@,
                self.captured_black@ == old(self).captured_black@,
            decreases 8 - i,
        {
            self.squares[8 + i] = Some(Piece::new(PieceType::Pawn, Color::White));
            i = i + 1;
        }
        self.squares[56] = Some(Piece::new(PieceType::Rook, Color::Black));
        self.squares[57] = Some(Piece::new(PieceType::Knight, Color::Black));
        self.squares[58] = Some(Piece::new(PieceType::Bishop, Color::Black));
        self.squares[59] = Some(Piece::new(PieceType::Queen, Color::Black));
        self.squares[60] = Some(Piece::new(PieceType::King, Color::Black));
        self.squares[61] = Some(Piece::new(PieceType::Bishop, Color::Black));
        self.squares[62] = Some(Piece::new(PieceType::Knight, Color::Black));
        self.squares[63] = Some(Piece::new(PieceType::Rook, Color::Black));
        let mut i: usize = 0;
        while i < 8
            invariant
                i <= 8,
                self.wf(),
                forall|r: int, c: int|
                    0 <= r < 2 && 0 <= c < 8 ==> self.at(r, c) == initial_at(r, c),
                forall|j: int| 16 <= j < 48 ==> self.squares@[j] == old(self).squares@[j],
                forall|c: int| 0 <= c < 8 ==> self.at(7, c) == initial_at(7, c),
                forall|c: int| 0 <= c < i ==> self.at(6, c) == initial_at(6, c),
                forall|j: int| 48 + i <= j < 56 ==> self.squares@[j] == old(self).squares@[j],
                self.captured_white@ == old(self).captured_white@,
                self.captured_black@ == old(self).captured_black@,
            decreases 8 - i,
        {
            self.squares[48 + i] = Some(Piece::new(PieceType::Pawn, Color::Black));
            i = i + 1;
        }
    }

    /// The piece on square (r, c), if any.
    pub fn get(&self, r: usize, c: usize) -> (p: Option<Piece>)
        requires
            self.wf(),
            r < 8,
            c < 8,
        ensures
            p == self.at(r as int, c as int),
    {
        self.squares[r * 8 + c]
    }

    /// Whether `color` may move the piece on `from` to `to`: the piece must be
    /// its own, the move must go somewhere, must not land on its own side, and
    /// must follow the piece's movement rule.
    pub fn is_valid_move(&self, from: (usize, usize), to: (usize, usize), color: Color) -> (r: bool)
        requires
            self.wf(),
            on_board(from),
            on_board(to),
        ensures
            r == self.is_legal(from, to, color),
    {
        let from_piece = match self.get(from.0, from.1) {
            Some(p) => p,
            None => return false,
        };
        if from_piece.color != color {
            return false;
        }
        if from.0 == to.0 && from.1 == to.1 {
            return false;
        }
        if let Some(target) = self.get(to.0, to.1) {
            if target.color == color {
                return false;
            }
        }
        match from_piece.piece_type {
            PieceType::Pawn => self.is_valid_pawn_move(from, to, color),
            PieceType::Knight => self.is_valid_knight_move(from, to),
            PieceType::Bishop => self.is_valid_bishop_move(from, to),
            PieceType::Rook => self.is_valid_rook_move(from, to),
            PieceType::Queen => self.is_valid_queen_move(from, to),
            PieceType::King => self.is_valid_king_move(from, to),
        }
    }

    fn is_valid_pawn_move(&self, from: (usize, usize), to: (usize, usize), color: Color) -> (r: bool)
        requires
            self.wf(),
            on_board(from),
            on_board(to),
        ensures
            r == self.pawn_allows(from, to, color),
    {
        let direction: i32 = match color {
            Color::White => 1,
            Color::Black => -1,
        };
        let start_row: usize = match color {
            Color::White => 1,
            Color::Black => 6,
        };
        let from_r = from.0 as i32;
        let from_c = from.1 as i32;
        let to_r = to.0 as i32;
        let to_c = to.1 as i32;
        if to_c == from_c && to_r == from_r + direction {
            return self.get(to.0, to.1).is_none();
        }
        if from.0 == start_row && to_c == from_c && to_r == from_r + 2 * direction {
            let mid_r = (from_r + direction) as usize;
            return self.get(mid_r, from.1).is_none() && self.get(to.0, to.1).is_none();
        }
        let dcol: i32 = to_c - from_c;
        if (dcol == 1 || dcol == -1) && to_r == from_r + direction {
            return self.get(to.0, to.1).is_some();
        }
        false
    }

    fn is_valid_knight_move(&self, from: (usize, usize), to: (usize, usize)) -> (r: bool)
        requires
            on_board(from),
            on_board(to),
        ensures
            r == knight_shape(from, to),
    {
        let dr = distance(from.0, to.0);
        let dc = distance(from.1, to.1);
        (dr == 2 && dc == 1) || (dr == 1 && dc == 2)
    }

    fn is_valid_bishop_move(&self, from: (usize, usize), to: (usize, usize)) -> (r: bool)
        requires
            self.wf(),
            on_board(from),
            on_board(to),
        ensures
            r == self.bishop_allows(from, to),
    {
        let dr = distance(from.0, to.0);
        let dc = distance(from.1, to.1);
        if dr != dc {
            return false;
        }
        self.is_path_clear(from, to)
    }

    fn is_valid_rook_move(&self, from: (usize, usize), to: (usize, usize)) -> (r: bool)
        requires
            self.wf(),
            on_board(from),
            on_board(to),
        ensures
            r == self.rook_allows(from, to),
    {
        if from.0 != to.0 && from.1 != to.1 {
            return false;
        }
        self.is_path_clear(from, to)
    }

    fn is_valid_queen_move(&self, from: (usize, usize), to: (usize, usize)) -> (r: bool)
        requires
            self.wf(),
            on_board(from),
            on_board(to),
        ensures
            r == (self.rook_allows(from, to) || self.bishop_allows(from, to)),
    {
        self.is_valid_rook_move(from, to) || self.is_valid_bishop_move(from, to)
    }

    fn is_valid_king_move(&self, from: (usize, usize), to: (usize, usize)) -> (r: bool)
        requires
            on_board(from),
            on_board(to),
        ensures
            r == king_shape(from, to),
    {
        let dr = distance(from.0, to.0);
        let dc = distance(from.1, to.1);
        dr <= 1 && dc <= 1
    }

    fn is_path_clear(&self, from: (usize, usize), to: (usize, usize)) -> (r: bool)
        requires
            self.wf(),
            on_board(from),
            on_board(to),
            aligned(from, to),
        ensures
            r == self.path_clear(from, to),
    {
        if from.0 == to.0 && from.1 == to.1 {
            return true;
        }
        let dr = signum(to.0 as i32 - from.0 as i32);
        let dc = signum(to.1 as i32 - from.1 as i32);
        let mut r: i32 = from.0 as i32 + dr;
        let mut c: i32 = from.1 as i32 + dc;
        let ghost mut k: int = 1;
        while r != to.0 as i32 || c != to.1 as i32
            invariant
                self.wf(),
                on_board(from),
                on_board(to),
                aligned(from, to),
                from != to,
                dr == sgn(to.0 - from.0),
                dc == sgn(to.1 - from.1),
                1 <= k <= span(from, to),
                r == from.0 + steps(dr as int, k),
                c == from.1 + steps(dc as int, k),
                forall|j: int| 0 < j < k ==> (#[trigger] self.along(from, to, j)) is None,
            decreases span(from, to) - k,
        {
            assert(k < span(from, to));
            assert(0 <= r < 8 && 0 <= c < 8);
            if self.get(r as usize, c as usize).is_some() {
                assert(self.along(from, to, k) is Some);
                return false;
            }
            r = r + dr;
            c = c + dc;
            proof {
                k = k + 1;
            }
        }
        assert(k == span(from, to));
        true
    }

    /// Moves the piece on `from` to `to` without checking the rules, filing any
    /// piece it lands on under that piece's colour. Returns false, changing
    /// nothing, when `from` is empty.
    pub fn move_piece(&mut self, from: (usize, usize), to: (usize, usize)) -> (r: bool)
        requires
            old(self).wf(),
            on_board(from),
            on_board(to),
        ensures
            final(self).wf(),
            r == old(self).at_sq(from) is Some,
            !r ==> *final(self) == *old(self),
            r ==> Board::moved(*old(self), *final(self), from, to),
            final(self).piece_total() == old(self).piece_total(),
            r ==> match old(self).at_sq(to) {
                Some(q) => {
                    &&& final(self).score(opponent(q.color)) == old(self).score(opponent(q.color))
                        + kind_value(q.piece_type)
                    &&& final(self).score(q.color) == old(self).score(q.color)
                },
                None => {
                    &&& final(self).score(Color::White) == old(self).score(Color::White)
                    &&& final(self).score(Color::Black) == old(self).score(Color::Black)
                },
            },
    {
        let fi = from.0 * 8 + from.1;
        let ti = to.0 * 8 + to.1;
        if let Some(p) = self.squares[fi] {
            if let Some(captured) = self.squares[ti] {
                proof {
                    lemma_sum_push(self.captured_white@, captured);
                    lemma_sum_push(self.captured_black@, captured);
                }
                if captured.color == Color::White {
                    self.captured_white.push(captured);
                } else {
                    self.captured_black.push(captured);
                }
            }
            let ghost s0 = self.squares@;
            self.squares[ti] = Some(p);
            let ghost s1 = self.squares@;
            self.squares[fi] = None;
            proof {
                lemma_occupied_update(s0, ti as int, Some(p), 64);
                lemma_occupied_update(s1, fi as int, None, 64);
            }
            return true;
        }
        false
    }

    /// White's score: the value of the black pieces taken.
    pub fn get_white_points(&self) -> (r: u32)
        requires
            self.white_score() <= u32::MAX,
        ensures
            r == self.white_score(),
    {
        sum_points(&self.captured_black)
    }

    /// Black's score: the value of the white pieces taken.
    pub fn get_black_points(&self) -> (r: u32)
        requires
            self.black_score() <= u32::MAX,
        ensures
            r == self.black_score(),
    {
        sum_points(&self.captured_white)
    }
}

fn distance(a: usize, b: usize) -> (r: usize)
    ensures
        r == abs(a - b),
{
    if a >= b {
        a - b
    } else {
        b - a
    }
}

fn signum(d: i32) -> (s: i32)
    ensures
        s == sgn(d as int),
{
    if d > 0 {
        1
    } else if d < 0 {
        -1
    } else {
        0
    }
}

/// Sum of the material values of `v`.
fn sum_points(v: &Vec<Piece>) -> (r: u32)
    requires
        sum_values(v@) <= u32::MAX,
    ensures
        r == sum_values(v@),
{
    let mut total: u32 = 0;
    let mut i: usize = 0;
    while i < v.len()
        invariant
            i <= v@.len(),
            total == sum_values(v@.take(i as int)),
            sum_values(v@) <= u32::MAX,
        decreases v@.len() - i,
    {
        proof {
            lemma_sum_prefix(v@, i + 1);
            assert(v@.take(i + 1).drop_last() =~= v@.take(i as int));
        }
        total = total + v[i].point_value();
        i = i + 1;
    }
    proof {
        assert(v@.take(v@.len() as int) =~= v@);
    }
    total
}

} // verus!
