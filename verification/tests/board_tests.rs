use chess_core::board::{Board, Color, Piece, PieceName};

/// A board with every square cleared, for setting up positions.
fn empty_board() -> Board {
    let mut board = Board::new();
    for r in 0..8 {
        for f in 0..8 {
            board.squares[r][f] = Piece::new(PieceName::Empty, Color::Empty, r, f);
        }
    }
    board
}

#[test]
fn new_board_starting_position() {
    let board = Board::new();
    assert_eq!(board.turn, 0);
    let back = [
        PieceName::Rook,
        PieceName::Knight,
        PieceName::Bishop,
        PieceName::Queen,
        PieceName::King,
        PieceName::Bishop,
        PieceName::Knight,
        PieceName::Rook,
    ];
    for f in 0..8 {
        assert_eq!(board.squares[0][f].name, back[f]);
        assert_eq!(board.squares[0][f].color, Color::Black);
        assert_eq!(board.squares[1][f].name, PieceName::Pawn);
        assert_eq!(board.squares[1][f].color, Color::Black);
        assert_eq!(board.squares[7][f].name, back[f]);
        assert_eq!(board.squares[7][f].color, Color::White);
        assert_eq!(board.squares[6][f].name, PieceName::Pawn);
        assert_eq!(board.squares[6][f].color, Color::White);
        for r in 2..6 {
            assert_eq!(board.squares[r][f].name, PieceName::Empty);
            assert_eq!(board.squares[r][f].color, Color::Empty);
        }
    }
}

#[test]
fn new_board_pieces_record_their_square() {
    let board = Board::new();
    for r in 0..8 {
        for f in 0..8 {
            assert_eq!(board.squares[r][f].rank, r);
            assert_eq!(board.squares[r][f].file, f);
            assert_eq!(board.squares[r][f].controlled_by.white, 0);
            assert_eq!(board.squares[r][f].controlled_by.black, 0);
        }
    }
}

#[test]
fn snapshot_twice_is_identical() {
    let board = Board::new();
    let first = board.snapshot();
    let second = board.snapshot();
    assert_eq!(first, second);
}

#[test]
fn snapshot_reflects_intervening_move() {
    let mut board = Board::new();
    let before = board.snapshot();
    let moves = board.get_legal_moves(6, 4);
    assert!(board.make_move(moves, 6, 4, 5, 4));
    let after = board.snapshot();
    assert_ne!(before, after);
    assert_eq!(after, board.snapshot());
}

#[test]
fn piece_new_zeroes_counters() {
    let piece = Piece::new(PieceName::Queen, Color::Black, 3, 5);
    assert_eq!(piece.name, PieceName::Queen);
    assert_eq!(piece.color, Color::Black);
    assert_eq!(piece.rank, 3);
    assert_eq!(piece.file, 5);
    assert_eq!(piece.controlled_by.white, 0);
    assert_eq!(piece.controlled_by.black, 0);
}

#[test]
fn check_wf_accepts_new_board() {
    assert!(Board::new().check_wf());
}

#[test]
fn check_wf_rejects_misplaced_piece() {
    let mut board = Board::new();
    board.squares[3][3] = Piece::new(PieceName::Rook, Color::White, 4, 3);
    assert!(!board.check_wf());
}

#[test]
fn check_wf_rejects_colorless_piece() {
    let mut board = empty_board();
    board.squares[2][2] = Piece::new(PieceName::Knight, Color::Empty, 2, 2);
    assert!(!board.check_wf());
}
