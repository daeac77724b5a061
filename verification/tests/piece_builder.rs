use kamino::board::Board;
use kamino::game::{click_piece, embed_in_board, GameState};
use kamino::piece::Piece;
use kamino::piece_builder::PieceBuilder;
use kamino::point::{Point, Point2};
use kamino::shapes::{Corner, Rectangle, Square, L, Z};
use kamino::SQUARE_WIDTH;

fn p(x: i64, y: i64, z: i64) -> Point {
    Point::new(x, y, z)
}

#[test]
fn test_build_l_piece() {
    // *
    // *
    // * *
    let piece = L::new(0, 0);
    assert_eq!(
        piece.positions(),
        vec![p(0, 0, 1), p(SQUARE_WIDTH, 0, 1), p(0, SQUARE_WIDTH, 1), p(0, 2 * SQUARE_WIDTH, 1)]
    );
}

#[test]
fn test_build_z_piece() {
    // * *
    //   * *
    let piece = Z::new(0, 0);
    assert_eq!(
        piece.positions(),
        vec![
            p(0, 0, 1),
            p(SQUARE_WIDTH, 0, 1),
            p(SQUARE_WIDTH, SQUARE_WIDTH, 1),
            p(2 * SQUARE_WIDTH, SQUARE_WIDTH, 1)
        ]
    );
}

#[test]
fn test_build_corner_piece() {
    // *
    // * *
    let piece = Corner::new(0, 0);
    assert_eq!(piece.positions(), vec![p(0, 0, 1), p(SQUARE_WIDTH, 0, 1), p(0, SQUARE_WIDTH, 1)]);
}

#[test]
fn test_build_dot_square_piece() {
    // *
    let piece = Square::new(0, 0);
    assert_eq!(piece.positions(), vec![p(0, 0, 1)]);
}

#[test]
fn test_click_piece_saves_drag_start() {
    // Given
    let piece = Rectangle::new(0, 0);
    let initial_pos = piece.positions();
    let mut game_state = GameState { pieces: vec![piece], drag_start: None };
    let mut board: Option<Board> = None;

    // When: the left button is pressed with the cursor at the origin
    click_piece(&mut game_state, &mut board, Point2::new(0, 0), true, false);

    // Then
    assert_eq!(game_state.drag_start, Some(initial_pos));
    assert!(game_state.pieces[0].is_moving());
}

#[test]
fn test_embed_in_board() {
    // Given
    let mut board = Board::new();
    // Manually fill one position
    board.positions[0].set_filled(true);
    let filled_coords = board.positions[0].coordinates();
    let mut board = Some(board);

    let mut piece = Rectangle::new(1000, 1000); // Far away
    let initial_pos = piece.positions();
    piece.set_moving(true);
    let mut game_state = GameState { pieces: vec![piece], drag_start: Some(initial_pos) };

    // When - piece is far away, nothing should happen
    embed_in_board(&mut game_state, &mut board, true);
    assert_eq!(game_state.pieces[0].positions()[0], p(1000, 1000, 1));

    // When - piece is over the board but on filled position
    game_state.pieces[0].move_to_position(filled_coords);
    embed_in_board(&mut game_state, &mut board, true);
    // Should be reset to initial position (1000, 1000, 1)
    assert_eq!(game_state.pieces[0].positions()[0], p(1000, 1000, 1));

    // When - piece is over empty board position
    board.as_mut().unwrap().positions[0].set_filled(false);
    let empty_coords = board.as_ref().unwrap().positions[1].coordinates();
    game_state.pieces[0].move_to_position(empty_coords);
    embed_in_board(&mut game_state, &mut board, true);
    // Should be snapped (already at snapped position)
    assert_eq!(game_state.pieces[0].positions()[0], empty_coords);

    // Board position should be filled now
    let board = board.unwrap();
    assert!(board
        .positions
        .iter()
        .find(|bp| bp.coordinates().xy() == empty_coords.xy())
        .unwrap()
        .is_filled());
}

#[test]
fn test_unsnap_from_board() {
    // Given
    let mut board = Some(Board::new());

    // Piece starts on board (at 0,0,1)
    let mut piece: Piece = Rectangle::new(0, 0);
    let snapped_pos = piece.positions();
    piece.set_moving(true);

    // We moved it far away
    piece.move_to_position(p(1000, 1000, 1));

    let mut game_state = GameState {
        pieces: vec![piece],
        drag_start: Some(snapped_pos), // Drag started on board
    };

    // When
    embed_in_board(&mut game_state, &mut board, true);

    // Then
    assert_eq!(game_state.pieces[0].positions()[0], p(1000, 1000, 1), "Piece should stay outside the board");
}

#[test]
fn horizontal_rectangle_squares_are_one_width_apart() {
    let squares = PieceBuilder::new_horizontal_rectangle(-100, 20, 4, 0);
    assert_eq!(squares, vec![p(-100, 20, 0), p(-50, 20, 0), p(0, 20, 0), p(50, 20, 0)]);
}

#[test]
fn horizontal_rectangle_of_no_length_is_empty() {
    assert!(PieceBuilder::new_horizontal_rectangle(0, 0, 0, 1).is_empty());
    assert!(PieceBuilder::new_horizontal_rectangle(0, 0, -3, 1).is_empty());
}

#[test]
fn rectangle_is_three_squares_in_a_row() {
    let piece = Rectangle::new(-300, -200);
    assert_eq!(piece.positions(), vec![p(-300, -200, 1), p(-250, -200, 1), p(-200, -200, 1)]);
    assert!(!piece.is_moving());
    assert_eq!(piece.error_timer(), 0);
}
