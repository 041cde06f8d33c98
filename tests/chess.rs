use rust_chess::board::Board;
use rust_chess::game::{Game, MoveError};
use rust_chess::pieces::{Color, Piece, PieceType};
use rust_chess::session::ChessApp;

fn empty_board() -> Board {
    Board { squares: vec![None; 64], captured_white: vec![], captured_black: vec![] }
}

fn put(b: &mut Board, r: usize, c: usize, t: PieceType, color: Color) {
    b.squares[r * 8 + c] = Some(Piece::new(t, color));
}

#[test]
fn new_game_layout() {
    let g = Game::new();
    assert_eq!(g.turn, Color::White);
    let back = [
        PieceType::Rook,
        PieceType::Knight,
        PieceType::Bishop,
        PieceType::Queen,
        PieceType::King,
        PieceType::Bishop,
        PieceType::Knight,
        PieceType::Rook,
    ];
    let mut count = 0;
    for r in 0..8 {
        for c in 0..8 {
            let p = g.board.get(r, c);
            if p.is_some() {
                count += 1;
            }
            match r {
                0 => assert_eq!(p, Some(Piece::new(back[c], Color::White))),
                1 => assert_eq!(p, Some(Piece::new(PieceType::Pawn, Color::White))),
                6 => assert_eq!(p, Some(Piece::new(PieceType::Pawn, Color::Black))),
                7 => assert_eq!(p, Some(Piece::new(back[c], Color::Black))),
                _ => assert_eq!(p, None),
            }
        }
    }
    assert_eq!(count, 32);
    assert!(g.board.captured_white.is_empty());
    assert!(g.board.captured_black.is_empty());
    assert_eq!(g.board.get_white_points(), 0);
    assert_eq!(g.board.get_black_points(), 0);
}

#[test]
fn same_square_is_never_legal() {
    let g = Game::new();
    for r in 0..8 {
        for c in 0..8 {
            assert!(!g.board.is_valid_move((r, c), (r, c), Color::White));
            assert!(!g.board.is_valid_move((r, c), (r, c), Color::Black));
        }
    }
}

#[test]
fn pawn_from_start_rank() {
    let g = Game::new();
    let forward: Vec<(usize, usize)> = (0..8)
        .filter(|&r| g.board.is_valid_move((1, 3), (r, 3), Color::White))
        .map(|r| (r, 3))
        .collect();
    assert_eq!(forward, vec![(2, 3), (3, 3)]);
    assert!(!g.board.is_valid_move((1, 3), (2, 2), Color::White));
    assert!(!g.board.is_valid_move((1, 3), (2, 4), Color::White));
    assert!(g.board.is_valid_move((6, 3), (5, 3), Color::Black));
    assert!(g.board.is_valid_move((6, 3), (4, 3), Color::Black));
    assert!(!g.board.is_valid_move((6, 3), (3, 3), Color::Black));
}

#[test]
fn pawn_scenario_file_a() {
    let mut b = empty_board();
    put(&mut b, 1, 0, PieceType::Pawn, Color::White);
    assert!(b.is_valid_move((1, 0), (3, 0), Color::White));
    assert!(!b.is_valid_move((1, 0), (4, 0), Color::White));
    assert!(!b.is_valid_move((1, 0), (2, 1), Color::White));
    put(&mut b, 2, 1, PieceType::Knight, Color::Black);
    assert!(b.is_valid_move((1, 0), (2, 1), Color::White));
    put(&mut b, 2, 1, PieceType::Knight, Color::White);
    assert!(!b.is_valid_move((1, 0), (2, 1), Color::White));
}

#[test]
fn pawn_blocked() {
    let mut b = empty_board();
    put(&mut b, 1, 4, PieceType::Pawn, Color::White);
    put(&mut b, 2, 4, PieceType::Pawn, Color::Black);
    assert!(!b.is_valid_move((1, 4), (2, 4), Color::White));
    assert!(!b.is_valid_move((1, 4), (3, 4), Color::White));
    let mut b = empty_board();
    put(&mut b, 2, 4, PieceType::Pawn, Color::White);
    assert!(!b.is_valid_move((2, 4), (4, 4), Color::White));
    assert!(!b.is_valid_move((2, 4), (1, 4), Color::White));
}

#[test]
fn sliding_pieces_need_a_clear_path() {
    let mut b = empty_board();
    put(&mut b, 0, 0, PieceType::Rook, Color::White);
    put(&mut b, 3, 3, PieceType::Bishop, Color::White);
    put(&mut b, 4, 4, PieceType::Queen, Color::Black);
    assert!(b.is_valid_move((0, 0), (0, 7), Color::White));
    assert!(b.is_valid_move((0, 0), (7, 0), Color::White));
    assert!(!b.is_valid_move((0, 0), (1, 1), Color::White));
    assert!(b.is_valid_move((3, 3), (0, 0), Color::White) == false);
    assert!(b.is_valid_move((3, 3), (4, 4), Color::White));
    assert!(b.is_valid_move((3, 3), (1, 5), Color::White));
    assert!(!b.is_valid_move((3, 3), (3, 5), Color::White));
    put(&mut b, 0, 4, PieceType::Pawn, Color::Black);
    assert!(b.is_valid_move((0, 0), (0, 4), Color::White));
    assert!(!b.is_valid_move((0, 0), (0, 5), Color::White));
    assert!(b.is_valid_move((4, 4), (7, 7), Color::Black));
    assert!(b.is_valid_move((4, 4), (4, 0), Color::Black));
    assert!(!b.is_valid_move((4, 4), (2, 2), Color::Black));
    assert!(b.is_valid_move((4, 4), (3, 3), Color::Black));
    assert!(!b.is_valid_move((4, 4), (6, 5), Color::Black));
}

#[test]
fn knight_and_king_shapes() {
    let mut b = empty_board();
    put(&mut b, 4, 4, PieceType::Knight, Color::White);
    put(&mut b, 0, 0, PieceType::King, Color::Black);
    assert!(b.is_valid_move((4, 4), (6, 5), Color::White));
    assert!(b.is_valid_move((4, 4), (3, 2), Color::White));
    assert!(!b.is_valid_move((4, 4), (6, 6), Color::White));
    assert!(b.is_valid_move((0, 0), (1, 1), Color::Black));
    assert!(b.is_valid_move((0, 0), (0, 1), Color::Black));
    assert!(!b.is_valid_move((0, 0), (2, 0), Color::Black));
    assert!(!b.is_valid_move((4, 4), (6, 5), Color::Black));
    assert!(!b.is_valid_move((5, 5), (6, 5), Color::White));
}

#[test]
fn four_opening_moves() {
    let mut g = Game::new();
    assert_eq!(g.apply_move((1, 4), (3, 4)), Ok(()));
    assert_eq!(g.turn, Color::Black);
    assert_eq!(g.apply_move((6, 4), (4, 4)), Ok(()));
    assert_eq!(g.apply_move((0, 1), (2, 2)), Ok(()));
    assert_eq!(g.apply_move((7, 1), (5, 2)), Ok(()));
    for &(r, c) in &[(1, 4), (6, 4), (0, 1), (7, 1)] {
        assert_eq!(g.board.get(r, c), None);
    }
    assert_eq!(g.board.get(3, 4), Some(Piece::new(PieceType::Pawn, Color::White)));
    assert_eq!(g.board.get(4, 4), Some(Piece::new(PieceType::Pawn, Color::Black)));
    assert_eq!(g.board.get(2, 2), Some(Piece::new(PieceType::Knight, Color::White)));
    assert_eq!(g.board.get(5, 2), Some(Piece::new(PieceType::Knight, Color::Black)));
    assert!(g.board.captured_white.is_empty());
    assert!(g.board.captured_black.is_empty());
    assert_eq!(g.turn, Color::White);
}

#[test]
fn illegal_moves_leave_the_game_alone() {
    let mut g = Game::new();
    let before: Vec<Option<Piece>> = g.board.squares.clone();
    assert_eq!(g.apply_move((1, 4), (4, 4)), Err(MoveError::IllegalMove));
    assert_eq!(g.apply_move((6, 4), (5, 4)), Err(MoveError::IllegalMove));
    assert_eq!(g.apply_move((3, 3), (4, 3)), Err(MoveError::IllegalMove));
    assert_eq!(g.apply_move((0, 0), (1, 0)), Err(MoveError::IllegalMove));
    assert_eq!(g.apply_move((1, 4), (8, 4)), Err(MoveError::OutOfBounds));
    assert_eq!(g.apply_move((9, 0), (2, 0)), Err(MoveError::OutOfBounds));
    assert_eq!(g.board.squares, before);
    assert_eq!(g.turn, Color::White);
}

#[test]
fn turn_parity() {
    let mut g = Game::new();
    let moves = [((1, 0), (2, 0)), ((6, 0), (5, 0)), ((1, 1), (2, 1)), ((6, 1), (5, 1)), ((1, 2), (2, 2))];
    for (n, &(from, to)) in moves.iter().enumerate() {
        assert_eq!(g.apply_move(from, to), Ok(()));
        assert_eq!(g.turn == Color::White, (n + 1) % 2 == 0);
    }
    g.switch_turn();
    assert_eq!(g.turn, Color::White);
}

#[test]
fn captures_score_and_file_by_colour() {
    let mut b = empty_board();
    put(&mut b, 0, 0, PieceType::Rook, Color::White);
    put(&mut b, 0, 5, PieceType::Queen, Color::Black);
    put(&mut b, 7, 7, PieceType::Bishop, Color::Black);
    put(&mut b, 6, 6, PieceType::Knight, Color::White);
    assert!(b.move_piece((0, 0), (0, 5)));
    assert_eq!(b.captured_black, vec![Piece::new(PieceType::Queen, Color::Black)]);
    assert!(b.captured_white.is_empty());
    assert_eq!(b.get_white_points(), 9);
    assert_eq!(b.get_black_points(), 0);
    assert!(b.move_piece((7, 7), (6, 6)));
    assert_eq!(b.captured_white, vec![Piece::new(PieceType::Knight, Color::White)]);
    assert_eq!(b.get_black_points(), 3);
    assert_eq!(b.get(0, 0), None);
    assert_eq!(b.get(0, 5), Some(Piece::new(PieceType::Rook, Color::White)));
    assert!(!b.move_piece((3, 3), (4, 4)));
}

#[test]
fn piece_values_and_glyphs() {
    let kinds = [
        (PieceType::Pawn, 1, '♙', '♟'),
        (PieceType::Knight, 3, '♘', '♞'),
        (PieceType::Bishop, 3, '♗', '♝'),
        (PieceType::Rook, 5, '♖', '♜'),
        (PieceType::Queen, 9, '♕', '♛'),
        (PieceType::King, 0, '♔', '♚'),
    ];
    for &(k, v, w, b) in &kinds {
        assert_eq!(Piece::new(k, Color::White).point_value(), v);
        assert_eq!(Piece::new(k, Color::Black).point_value(), v);
        assert_eq!(Piece::new(k, Color::White).to_char(), w);
        assert_eq!(Piece::new(k, Color::Black).to_char(), b);
    }
}

#[test]
fn valid_moves_listing() {
    let app = ChessApp::new();
    assert_eq!(app.get_valid_moves((0, 1)), vec![(2, 0), (2, 2)]);
    assert_eq!(app.get_valid_moves((1, 4)), vec![(2, 4), (3, 4)]);
    assert!(app.get_valid_moves((0, 0)).is_empty());
    assert!(app.get_valid_moves((6, 4)).is_empty());
}

#[test]
fn clicks_select_then_move() {
    let mut app = ChessApp::new();
    app.click(1, 4);
    assert_eq!(app.selected, Some((1, 4)));
    assert_eq!(app.valid_moves, vec![(2, 4), (3, 4)]);
    app.click(3, 4);
    assert_eq!(app.selected, None);
    assert!(app.valid_moves.is_empty());
    assert_eq!(app.game.turn, Color::Black);
    assert_eq!(app.game.board.get(3, 4), Some(Piece::new(PieceType::Pawn, Color::White)));
    app.click(6, 4);
    app.click(3, 4);
    assert_eq!(app.selected, None);
    assert_eq!(app.game.turn, Color::Black);
    assert_eq!(app.game.board.get(6, 4), Some(Piece::new(PieceType::Pawn, Color::Black)));
    app.new_game();
    assert_eq!(app.game.board.get(3, 4), None);
    assert_eq!(app.game.turn, Color::White);
}

#[test]
fn game_capture_through_apply_move() {
    let mut g = Game::new();
    assert!(g.is_valid_move((1, 4), (3, 4)));
    assert!(!g.is_valid_move((6, 3), (4, 3)));
    assert_eq!(g.apply_move((1, 4), (3, 4)), Ok(()));
    assert!(g.is_valid_move((6, 3), (4, 3)));
    assert_eq!(g.apply_move((6, 3), (4, 3)), Ok(()));
    assert_eq!(g.apply_move((3, 4), (4, 3)), Ok(()));
    assert_eq!(g.material_score(Color::White), 1);
    assert_eq!(g.material_score(Color::Black), 0);
    assert_eq!(g.captured_pieces(Color::White), vec![Piece::new(PieceType::Pawn, Color::Black)]);
    assert!(g.captured_pieces(Color::Black).is_empty());
    assert_eq!(g.apply_move((7, 3), (4, 3)), Ok(()));
    assert_eq!(g.material_score(Color::Black), 1);
    assert_eq!(g.captured_pieces(Color::Black), vec![Piece::new(PieceType::Pawn, Color::White)]);
    assert_eq!(g.board.get(4, 3), Some(Piece::new(PieceType::Queen, Color::Black)));
    assert_eq!(g.turn, Color::White);
}
