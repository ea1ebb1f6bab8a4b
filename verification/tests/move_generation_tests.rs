use chess_core::board::{Board, Color, Piece, PieceName};

/// A board with every square cleared, for setting up positions.
fn empty_board() -> Board {
    let mut board = Board::new();
    for r in 0..8 {
        for f in 0..8 {
            board.squares[r][f] = Piece::new(PieceName::Empty, Color::Empty, r, f);
        }
    }
    board
}

fn sorted(mut moves: Vec<(usize, usize)>) -> Vec<(usize, usize)> {
    moves.sort();
    moves
}

#[test]
fn white_pawn_initial_moves() {
    let board = Board::new();
    let moves = sorted(board.get_legal_moves(6, 4));
    assert_eq!(moves, vec![(4, 4), (5, 4)]);
}

#[test]
fn black_pawn_initial_moves() {
    let board = Board::new();
    let moves = sorted(board.get_legal_moves(1, 4));
    assert_eq!(moves, vec![(2, 4), (3, 4)]);
}

#[test]
fn white_knight_initial_moves() {
    let board = Board::new();
    let moves = sorted(board.get_legal_moves(7, 1));
    assert_eq!(moves, vec![(5, 0), (5, 2)]);
}

#[test]
fn white_queen_fully_blocked() {
    let board = Board::new();
    assert_eq!(board.get_legal_moves(7, 3), vec![]);
}

#[test]
fn empty_square_has_no_moves() {
    let board = Board::new();
    assert_eq!(board.get_legal_moves(4, 4), vec![]);
}

#[test]
fn out_of_range_square_has_no_moves() {
    let board = Board::new();
    assert_eq!(board.get_legal_moves(8, 0), vec![]);
    assert_eq!(board.get_legal_moves(0, 9), vec![]);
}

#[test]
fn rook_blocked_by_friendly_piece() {
    let mut board = empty_board();
    board.squares[5][3] = Piece::new(PieceName::Rook, Color::White, 5, 3);
    board.squares[3][3] = Piece::new(PieceName::Pawn, Color::White, 3, 3);
    let moves = board.get_legal_moves(5, 3);
    // the one empty square short of the blocker is reachable
    assert!(moves.contains(&(4, 3)));
    // the friendly square and everything past it are not
    assert!(!moves.contains(&(3, 3)));
    assert!(!moves.contains(&(2, 3)));
    assert!(!moves.contains(&(1, 3)));
    assert!(!moves.contains(&(0, 3)));
    // the other three rays run to the board's edge
    let expected = vec![
        (4, 3),
        (5, 0),
        (5, 1),
        (5, 2),
        (5, 4),
        (5, 5),
        (5, 6),
        (5, 7),
        (6, 3),
        (7, 3),
    ];
    assert_eq!(sorted(moves), expected);
}

#[test]
fn rook_stops_on_enemy_piece() {
    let mut board = empty_board();
    board.squares[5][3] = Piece::new(PieceName::Rook, Color::White, 5, 3);
    board.squares[3][3] = Piece::new(PieceName::Pawn, Color::Black, 3, 3);
    let moves = board.get_legal_moves(5, 3);
    assert!(moves.contains(&(4, 3)));
    assert!(moves.contains(&(3, 3)));
    assert!(!moves.contains(&(2, 3)));
}

#[test]
fn bishop_in_open_center() {
    let mut board = empty_board();
    board.squares[4][4] = Piece::new(PieceName::Bishop, Color::Black, 4, 4);
    let moves = board.get_legal_moves(4, 4);
    assert_eq!(moves.len(), 13);
    assert!(moves.contains(&(0, 0)));
    assert!(moves.contains(&(7, 7)));
    assert!(moves.contains(&(1, 7)));
    assert!(moves.contains(&(7, 1)));
    assert!(!moves.contains(&(4, 5)));
}

#[test]
fn queen_in_open_center() {
    let mut board = empty_board();
    board.squares[4][4] = Piece::new(PieceName::Queen, Color::White, 4, 4);
    let moves = board.get_legal_moves(4, 4);
    assert_eq!(moves.len(), 27);
}

#[test]
fn king_in_open_center() {
    let mut board = empty_board();
    board.squares[4][4] = Piece::new(PieceName::King, Color::White, 4, 4);
    let moves = sorted(board.get_legal_moves(4, 4));
    let expected = vec![
        (3, 3),
        (3, 4),
        (3, 5),
        (4, 3),
        (4, 5),
        (5, 3),
        (5, 4),
        (5, 5),
    ];
    assert_eq!(moves, expected);
}

#[test]
fn king_in_corner() {
    let mut board = empty_board();
    board.squares[0][0] = Piece::new(PieceName::King, Color::Black, 0, 0);
    let moves = sorted(board.get_legal_moves(0, 0));
    assert_eq!(moves, vec![(0, 1), (1, 0), (1, 1)]);
}

#[test]
fn king_boxed_in_at_start() {
    let board = Board::new();
    assert_eq!(board.get_legal_moves(7, 4), vec![]);
}

#[test]
fn knight_in_corner() {
    let mut board = empty_board();
    board.squares[0][0] = Piece::new(PieceName::Knight, Color::White, 0, 0);
    let moves = sorted(board.get_legal_moves(0, 0));
    assert_eq!(moves, vec![(1, 2), (2, 1)]);
}

#[test]
fn knight_jumps_over_pieces_and_captures() {
    let mut board = Board::new();
    board.squares[5][2] = Piece::new(PieceName::Pawn, Color::Black, 5, 2);
    let moves = sorted(board.get_legal_moves(7, 1));
    assert_eq!(moves, vec![(5, 0), (5, 2)]);
}

#[test]
fn pawn_captures_diagonally() {
    let mut board = empty_board();
    board.squares[4][4] = Piece::new(PieceName::Pawn, Color::White, 4, 4);
    board.squares[3][3] = Piece::new(PieceName::Pawn, Color::Black, 3, 3);
    board.squares[3][5] = Piece::new(PieceName::Knight, Color::Black, 3, 5);
    let moves = sorted(board.get_legal_moves(4, 4));
    assert_eq!(moves, vec![(3, 3), (3, 4), (3, 5)]);
}

#[test]
fn pawn_cannot_capture_straight_ahead() {
    let mut board = empty_board();
    board.squares[4][4] = Piece::new(PieceName::Pawn, Color::White, 4, 4);
    board.squares[3][4] = Piece::new(PieceName::Pawn, Color::Black, 3, 4);
    assert_eq!(board.get_legal_moves(4, 4), vec![]);
}

#[test]
fn pawn_double_step_blocked_by_intervening_piece() {
    let mut board = Board::new();
    board.squares[5][4] = Piece::new(PieceName::Knight, Color::Black, 5, 4);
    // the square directly ahead is taken: neither step is available
    assert_eq!(board.get_legal_moves(6, 4), vec![]);
}

#[test]
fn pawn_double_step_blocked_at_far_square() {
    let mut board = Board::new();
    board.squares[4][4] = Piece::new(PieceName::Knight, Color::Black, 4, 4);
    assert_eq!(sorted(board.get_legal_moves(6, 4)), vec![(5, 4)]);
}

#[test]
fn pawn_single_step_only_off_start_rank() {
    let mut board = empty_board();
    board.squares[4][1] = Piece::new(PieceName::Pawn, Color::White, 4, 1);
    assert_eq!(board.get_legal_moves(4, 1), vec![(3, 1)]);
}

#[test]
fn pawn_on_edge_file_has_one_diagonal() {
    let mut board = empty_board();
    board.squares[4][0] = Piece::new(PieceName::Pawn, Color::White, 4, 0);
    board.squares[3][1] = Piece::new(PieceName::Rook, Color::Black, 3, 1);
    let moves = sorted(board.get_legal_moves(4, 0));
    assert_eq!(moves, vec![(3, 0), (3, 1)]);
}

#[test]
fn pawn_on_far_edge_rank_has_no_moves() {
    let mut board = empty_board();
    board.squares[0][4] = Piece::new(PieceName::Pawn, Color::White, 0, 4);
    board.squares[7][2] = Piece::new(PieceName::Pawn, Color::Black, 7, 2);
    assert_eq!(board.get_legal_moves(0, 4), vec![]);
    assert_eq!(board.get_legal_moves(7, 2), vec![]);
}

#[test]
fn black_pawn_moves_toward_higher_ranks() {
    let mut board = empty_board();
    board.squares[3][4] = Piece::new(PieceName::Pawn, Color::Black, 3, 4);
    board.squares[4][3] = Piece::new(PieceName::Bishop, Color::White, 4, 3);
    let moves = sorted(board.get_legal_moves(3, 4));
    assert_eq!(moves, vec![(4, 3), (4, 4)]);
}
