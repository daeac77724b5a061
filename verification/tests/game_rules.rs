use kamino::board::{Board, BoardPosition};
use kamino::cursor::Cursor;
use kamino::game::{
    click_piece, embed_in_board, move_piece, release_piece, update_timers, GameState, ERROR_OUTLINE_MS,
};
use kamino::piece::{Piece, PieceKind};
use kamino::point::{Point, Point2};
use kamino::shapes::{Corner, Rectangle, Square, L, Z};
use kamino::piece_builder::PieceBuilder;
use kamino::triste;

fn p(x: i64, y: i64, z: i64) -> Point {
    Point::new(x, y, z)
}

fn filled_xy(board: &Board) -> Vec<(i64, i64)> {
    board
        .positions
        .iter()
        .filter(|bp| bp.is_filled())
        .map(|bp| (bp.coordinates().x, bp.coordinates().y))
        .collect()
}

/// A board with the squares of `piece` filled, as after dropping it there.
fn board_with(piece: &Piece) -> Board {
    let mut board = Board::new();
    board.fill_piece(&piece.positions());
    board
}

#[test]
fn snap_rounds_to_nearest_grid_point_halfway_away_from_zero() {
    let mut piece = Piece::new(PieceKind::Z, vec![p(24, -25, 1), p(25, 74, 1), p(-26, 75, 3), p(-24, 0, 1)]);
    piece.snap();
    assert_eq!(piece.positions(), vec![p(0, -50, 1), p(50, 50, 1), p(-50, 100, 3), p(0, 0, 1)]);
    // Snapping again changes nothing.
    piece.snap();
    assert_eq!(piece.positions(), vec![p(0, -50, 1), p(50, 50, 1), p(-50, 100, 3), p(0, 0, 1)]);
}

#[test]
fn rotate_turns_clockwise_around_first_square() {
    let mut piece = L::new(0, 0);
    piece.rotate();
    assert_eq!(piece.positions(), vec![p(0, 0, 1), p(0, -50, 1), p(50, 0, 1), p(100, 0, 1)]);
}

#[test]
fn four_rotations_restore_the_piece() {
    let mut piece = Z::new(-100, 150);
    let start = piece.positions();
    for _ in 0..3 {
        piece.rotate();
        assert_ne!(piece.positions(), start);
    }
    piece.rotate();
    assert_eq!(piece.positions(), start);
}

#[test]
fn move_to_position_translates_and_sets_layer() {
    let mut piece = Corner::new(10, 20);
    piece.move_to_position(p(-40, 70, 0));
    assert_eq!(piece.positions(), vec![p(-40, 70, 0), p(10, 70, 0), p(-40, 120, 0)]);
}

#[test]
fn move_to_cursor_translates_and_keeps_layer() {
    let mut piece = Corner::new(10, 20);
    piece.move_to_cursor(Point2::new(13, -7));
    assert_eq!(piece.positions(), vec![p(13, -7, 1), p(63, -7, 1), p(13, 43, 1)]);
}

#[test]
fn cursor_over_piece_includes_square_edges() {
    let piece = Square::new(0, 0);
    assert!(piece.is_even_odd(Point2::new(25, 25)));
    assert!(piece.is_even_odd(Point2::new(-25, -25)));
    assert!(piece.is_even_odd(Point2::new(0, 0)));
    assert!(!piece.is_even_odd(Point2::new(26, 0)));
    assert!(!piece.is_even_odd(Point2::new(0, -26)));
    let corner = Corner::new(0, 0);
    assert!(corner.is_even_odd(Point2::new(40, -10)));
    assert!(!corner.is_even_odd(Point2::new(40, 40)));
}

#[test]
fn error_timer_counts_down_to_zero() {
    let mut piece = Square::new(0, 0);
    piece.set_error_timer(ERROR_OUTLINE_MS);
    piece.update_error_timer(200);
    assert_eq!(piece.error_timer(), 300);
    piece.update_error_timer(400);
    assert_eq!(piece.error_timer(), 0);
    piece.update_error_timer(10);
    assert_eq!(piece.error_timer(), 0);
}

#[test]
fn set_positions_replaces_the_squares() {
    let mut piece = Square::new(0, 0);
    piece.set_positions(vec![p(5, 6, 7), p(8, 9, 10)]);
    assert_eq!(piece.positions(), vec![p(5, 6, 7), p(8, 9, 10)]);
    assert_eq!(piece.kind(), PieceKind::Square);
}

#[test]
fn new_board_is_an_empty_three_by_five_grid() {
    let board = Board::new();
    assert_eq!(board.positions.len(), 15);
    assert_eq!(board.positions[0], BoardPosition { coordinates: p(-100, -50, 0), filled: false });
    assert_eq!(board.positions[6].coordinates(), p(-50, 0, 0));
    assert_eq!(board.positions[14].coordinates(), p(100, 50, 0));
    assert!(board.positions.iter().all(|bp| !bp.is_filled()));
    assert_eq!((board.min_x, board.min_y, board.max_x, board.max_y), (-100, -50, 100, 50));
}

#[test]
fn fits_allows_half_a_square_of_slack() {
    let board = Board::new();
    assert!(board.fits_piece(&vec![p(-125, -75, 1), p(125, 75, 1)]));
    assert!(!board.fits_piece(&vec![p(-126, 0, 1)]));
    assert!(!board.fits_piece(&vec![p(0, 76, 1)]));
    assert!(board.fits_piece(&vec![]));
}

#[test]
fn placing_fills_squares_and_lifting_frees_them() {
    let mut board = Board::new();
    let piece = Corner::new(0, 0).positions();
    assert!(board.can_place_piece(&piece));
    board.fill_piece(&piece);
    assert_eq!(filled_xy(&board), vec![(0, 0), (50, 0), (0, 50)]);
    assert!(!board.can_place_piece(&piece));
    assert!(!board.has_free_square(p(0, 0, 1)));
    assert!(board.has_free_square(p(-50, 0, 1)));
    // A square off the board can never be taken.
    assert!(!board.can_place_piece(&vec![p(500, 0, 1)]));
    board.clear_piece(&piece);
    assert!(filled_xy(&board).is_empty());
}

#[test]
fn right_click_turns_piece_on_board_when_squares_are_free() {
    let corner = Corner::new(0, 0);
    let mut board = Some(board_with(&corner));
    let mut game = GameState { pieces: vec![corner], drag_start: None };
    click_piece(&mut game, &mut board, Point2::new(0, 0), false, true);
    assert_eq!(game.pieces[0].positions(), vec![p(0, 0, 1), p(0, -50, 1), p(50, 0, 1)]);
    assert_eq!(game.pieces[0].error_timer(), 0);
    assert_eq!(filled_xy(&board.unwrap()), vec![(0, -50), (0, 0), (50, 0)]);
}

#[test]
fn refused_right_click_leaves_piece_and_board() {
    // Turning the corner at the bottom left edge would push a square off
    // the board.
    let corner = Corner::new(-100, -50);
    let start = corner.positions();
    let mut board = Some(board_with(&corner));
    let filled_before = filled_xy(board.as_ref().unwrap());
    let mut game = GameState { pieces: vec![corner], drag_start: None };
    click_piece(&mut game, &mut board, Point2::new(-90, -40), false, true);
    assert_eq!(game.pieces[0].positions(), start);
    assert_eq!(game.pieces[0].error_timer(), ERROR_OUTLINE_MS);
    assert_eq!(filled_xy(board.as_ref().unwrap()), filled_before);
}

#[test]
fn refused_right_click_when_turn_lands_on_a_taken_square() {
    let corner = Corner::new(0, 0);
    let mut board = board_with(&corner);
    board.fill_piece(&vec![p(0, -50, 0)]);
    let mut board = Some(board);
    let mut game = GameState { pieces: vec![corner], drag_start: None };
    click_piece(&mut game, &mut board, Point2::new(0, 0), false, true);
    assert_eq!(game.pieces[0].positions(), vec![p(0, 0, 1), p(50, 0, 1), p(0, 50, 1)]);
    assert_eq!(game.pieces[0].error_timer(), ERROR_OUTLINE_MS);
    assert_eq!(filled_xy(board.as_ref().unwrap()), vec![(0, -50), (0, 0), (50, 0), (0, 50)]);
}

#[test]
fn right_click_turns_dragged_piece_or_piece_off_board() {
    let mut dragged = L::new(0, 0);
    dragged.set_moving(true);
    let mut game = GameState { pieces: vec![dragged, Square::new(1000, 1000)], drag_start: None };
    let mut board = Some(Board::new());
    click_piece(&mut game, &mut board, Point2::new(0, 0), false, true);
    assert_eq!(game.pieces[0].positions(), vec![p(0, 0, 1), p(0, -50, 1), p(50, 0, 1), p(100, 0, 1)]);
    assert!(filled_xy(board.as_ref().unwrap()).is_empty());

    let mut no_board: Option<Board> = None;
    click_piece(&mut game, &mut no_board, Point2::new(1010, 990), false, true);
    assert_eq!(game.pieces[1].positions(), vec![p(1000, 1000, 1)]);
}

#[test]
fn left_click_picks_up_only_the_first_piece_under_cursor() {
    let mut game = GameState { pieces: vec![Square::new(0, 0), Square::new(0, 0)], drag_start: None };
    let mut board: Option<Board> = None;
    click_piece(&mut game, &mut board, Point2::new(10, 10), true, true);
    assert!(game.pieces[0].is_moving());
    assert!(!game.pieces[1].is_moving());
    // The right click did nothing once the left click picked a piece.
    assert_eq!(game.pieces[0].positions(), vec![p(0, 0, 1)]);
    assert_eq!(game.drag_start, Some(vec![p(0, 0, 1)]));
}

#[test]
fn click_on_empty_space_changes_nothing() {
    let mut game = GameState::new_game();
    let mut board = Some(Board::new());
    click_piece(&mut game, &mut board, Point2::new(0, 0), true, true);
    assert!(game.pieces.iter().all(|piece| !piece.is_moving()));
    assert_eq!(game.drag_start, None);
    assert_eq!(game.pieces[1].positions(), L::new(-100, 100).positions());
}

#[test]
fn picking_up_and_dropping_in_place_restores_the_board() {
    let corner = Corner::new(0, 0);
    let mut board = Some(board_with(&corner));
    let before = filled_xy(board.as_ref().unwrap());
    let mut game = GameState { pieces: vec![Square::new(1000, 0), corner], drag_start: None };
    click_piece(&mut game, &mut board, Point2::new(50, 0), true, false);
    assert!(game.pieces[1].is_moving());
    assert!(filled_xy(board.as_ref().unwrap()).is_empty());
    embed_in_board(&mut game, &mut board, true);
    release_piece(&mut game, true);
    assert_eq!(filled_xy(board.as_ref().unwrap()), before);
    assert_eq!(game.pieces[1].positions(), vec![p(0, 0, 1), p(50, 0, 1), p(0, 50, 1)]);
    assert!(!game.pieces[1].is_moving());
    assert_eq!(game.drag_start, None);
}

#[test]
fn dropping_off_grid_snaps_onto_board() {
    let mut piece = Corner::new(0, 0);
    piece.set_moving(true);
    piece.move_to_cursor(Point2::new(-60, 23));
    let mut game = GameState { pieces: vec![piece], drag_start: None };
    let mut board = Some(Board::new());
    embed_in_board(&mut game, &mut board, true);
    assert_eq!(game.pieces[0].positions(), vec![p(-50, 0, 1), p(0, 0, 1), p(-50, 50, 1)]);
    assert_eq!(filled_xy(board.as_ref().unwrap()), vec![(-50, 0), (0, 0), (-50, 50)]);
}

#[test]
fn refused_drop_without_drag_start_stays_snapped_with_error() {
    let mut piece = Square::new(0, 0);
    piece.set_moving(true);
    piece.move_to_cursor(Point2::new(10, -10));
    let mut board = Board::new();
    board.fill_piece(&vec![p(0, 0, 0)]);
    let mut board = Some(board);
    let mut game = GameState { pieces: vec![piece], drag_start: None };
    embed_in_board(&mut game, &mut board, true);
    assert_eq!(game.pieces[0].positions(), vec![p(0, 0, 1)]);
    assert_eq!(game.pieces[0].error_timer(), ERROR_OUTLINE_MS);
}

#[test]
fn embed_needs_release_board_and_dragged_piece() {
    let mut piece = Square::new(10, 10);
    piece.set_moving(true);
    let mut game = GameState { pieces: vec![piece], drag_start: None };
    let mut board = Some(Board::new());
    embed_in_board(&mut game, &mut board, false);
    assert_eq!(game.pieces[0].positions(), vec![p(10, 10, 1)]);
    let mut no_board: Option<Board> = None;
    embed_in_board(&mut game, &mut no_board, true);
    assert_eq!(game.pieces[0].positions(), vec![p(10, 10, 1)]);
    game.pieces[0].set_moving(false);
    embed_in_board(&mut game, &mut board, true);
    assert_eq!(game.pieces[0].positions(), vec![p(10, 10, 1)]);
}

#[test]
fn dragged_pieces_follow_pressed_cursor() {
    let mut moving = Square::new(0, 0);
    moving.set_moving(true);
    let mut game = GameState { pieces: vec![moving, Square::new(100, 100)], drag_start: None };
    let mut cursor = Cursor::new();
    cursor.current_pos = Point2::new(-30, 40);
    move_piece(&mut game, &cursor);
    assert_eq!(game.pieces[0].positions(), vec![p(0, 0, 1)]);
    cursor.is_pressed = true;
    move_piece(&mut game, &cursor);
    assert_eq!(game.pieces[0].positions(), vec![p(-30, 40, 1)]);
    assert_eq!(game.pieces[1].positions(), vec![p(100, 100, 1)]);
}

#[test]
fn release_drops_all_pieces_and_forgets_drag_start() {
    let mut a = Square::new(0, 0);
    a.set_moving(true);
    let mut b = Corner::new(100, 0);
    b.set_moving(true);
    let mut game = GameState { pieces: vec![a, b], drag_start: Some(vec![p(1, 2, 3)]) };
    release_piece(&mut game, false);
    assert!(game.pieces[0].is_moving());
    release_piece(&mut game, true);
    assert!(game.pieces.iter().all(|piece| !piece.is_moving()));
    assert_eq!(game.drag_start, None);
}

#[test]
fn timers_count_down_for_every_piece() {
    let mut a = Square::new(0, 0);
    a.set_error_timer(500);
    let mut game = GameState { pieces: vec![a, Square::new(50, 0)], drag_start: None };
    update_timers(&mut game, 16);
    assert_eq!(game.pieces[0].error_timer(), 484);
    assert_eq!(game.pieces[1].error_timer(), 0);
}

#[test]
fn new_game_places_five_pieces_beside_the_board() {
    let game = GameState::new_game();
    assert_eq!(game.pieces.len(), 5);
    assert_eq!(game.pieces[0].kind(), PieceKind::Rectangle);
    assert_eq!(game.pieces[0].positions()[0], p(-300, -200, 1));
    assert_eq!(game.pieces[2].positions()[0], p(200, 200, 1));
    assert_eq!(game.pieces[4].positions(), vec![p(100, -200, 1)]);
    assert!(game.in_world());
    assert_eq!(game.drag_start, None);
}

#[test]
fn in_world_rejects_far_squares() {
    let game = GameState { pieces: vec![Square::new(i32::MAX, 0)], drag_start: None };
    assert!(game.in_world());
    let far = Piece::new(PieceKind::Square, vec![p(1 << 41, 0, 1)]);
    let game = GameState { pieces: vec![far], drag_start: None };
    assert!(!game.in_world());
    assert!(Point2::new(1 << 40, -(1 << 40)).in_world());
    assert!(!Point2::new((1 << 40) + 1, 0).in_world());
}

#[test]
fn cursor_tracks_moves_and_left_button() {
    let mut cursor = Cursor::new();
    cursor.on_cursor_moved(Some(Point2::new(3, 4)), false);
    cursor.update_buttons(false, false);
    assert_eq!(cursor.current_pos, Point2::new(3, 4));
    assert!(!cursor.is_pressed);
    cursor.on_cursor_moved(Some(Point2::new(5, 6)), true);
    cursor.update_buttons(true, true);
    assert_eq!(cursor.last_click_pos, Point2::new(5, 6));
    assert!(cursor.is_pressed);
    cursor.on_cursor_moved(None, false);
    cursor.update_buttons(true, false);
    assert_eq!(cursor.current_pos, Point2::new(5, 6));
    assert!(cursor.is_pressed);
    cursor.on_cursor_moved(Some(Point2::new(7, 8)), false);
    cursor.update_buttons(false, false);
    assert!(!cursor.is_pressed);
    assert_eq!(cursor.last_click_pos, Point2::new(5, 6));
}

#[test]
fn press_without_move_is_recorded() {
    let mut cursor = Cursor::new();
    cursor.on_cursor_moved(Some(Point2::new(-20, 30)), false);
    cursor.update_buttons(false, false);
    // The button goes down in a frame without any cursor move.
    cursor.update_buttons(true, true);
    assert!(cursor.is_pressed);
    assert_eq!(cursor.last_click_pos, Point2::new(-20, 30));
    // Held in the following frames, then released.
    cursor.update_buttons(true, false);
    assert!(cursor.is_pressed);
    cursor.update_buttons(false, false);
    assert!(!cursor.is_pressed);
}

#[test]
fn simple_variant_right_click_turns_every_piece_under_cursor() {
    let mut game = triste::GameState(vec![Square::new(0, 0), L::new(0, 0), Square::new(300, 0)]);
    triste::click_piece(&mut game, Point2::new(0, 0), false, true);
    assert_eq!(game.0[1].positions(), vec![p(0, 0, 1), p(0, -50, 1), p(50, 0, 1), p(100, 0, 1)]);
    assert_eq!(game.0[2].positions(), vec![p(300, 0, 1)]);
    triste::click_piece(&mut game, Point2::new(0, 0), true, false);
    assert!(game.0[0].is_moving());
    assert!(!game.0[1].is_moving());
}

#[test]
fn simple_variant_drop_snaps_over_board_only() {
    let mut piece = Square::new(0, 0);
    piece.set_moving(true);
    piece.move_to_cursor(Point2::new(-110, 60));
    let mut game = triste::GameState(vec![piece]);
    let board = Some(Board::new());
    triste::embed_in_board(&mut game, &board, true);
    assert_eq!(game.0[0].positions(), vec![p(-100, 50, 1)]);

    game.0[0].move_to_cursor(Point2::new(-130, 0));
    triste::embed_in_board(&mut game, &board, true);
    assert_eq!(game.0[0].positions(), vec![p(-130, 0, 1)]);

    let mut cursor = Cursor::new();
    cursor.is_pressed = true;
    cursor.current_pos = Point2::new(7, 7);
    triste::move_piece(&mut game, &cursor);
    assert_eq!(game.0[0].positions(), vec![p(7, 7, 1)]);
    triste::release_piece(&mut game, true);
    assert!(!game.0[0].is_moving());
}

#[test]
fn error_outline_shows_while_timer_runs() {
    let mut piece = Square::new(0, 0);
    assert!(!piece.has_error_outline());
    piece.set_error_timer(1);
    assert!(piece.has_error_outline());
    piece.update_error_timer(1);
    assert!(!piece.has_error_outline());
}

#[test]
fn long_row_is_two_shorter_rows_end_to_end() {
    let whole = PieceBuilder::new_horizontal_rectangle(-40, 10, 5, 2);
    let mut parts = PieceBuilder::new_horizontal_rectangle(-40, 10, 3, 2);
    parts.extend(PieceBuilder::new_horizontal_rectangle(-40 + 150, 10, 2, 2));
    assert_eq!(whole, parts);
}

#[test]
fn piece_moved_to_cursor_is_under_cursor() {
    let mut piece = Z::new(300, -300);
    let cursor = Point2::new(-17, 42);
    piece.move_to_cursor(cursor);
    assert!(piece.is_even_odd(cursor));
}

#[test]
fn following_the_same_cursor_twice_is_following_once() {
    let mut a = L::new(0, 0);
    a.set_moving(true);
    let mut game = GameState { pieces: vec![a, Corner::new(200, 200)], drag_start: None };
    let mut cursor = Cursor::new();
    cursor.is_pressed = true;
    cursor.current_pos = Point2::new(33, -8);
    move_piece(&mut game, &cursor);
    let once: Vec<Vec<Point>> = game.pieces.iter().map(|piece| piece.positions()).collect();
    move_piece(&mut game, &cursor);
    let twice: Vec<Vec<Point>> = game.pieces.iter().map(|piece| piece.positions()).collect();
    assert_eq!(once, twice);
}

#[test]
fn drop_in_place_keeps_drag_start_and_timer() {
    let mut corner = Corner::new(0, 0);
    corner.set_error_timer(120);
    let mut board = Some(board_with(&corner));
    let mut game = GameState { pieces: vec![corner], drag_start: None };
    click_piece(&mut game, &mut board, Point2::new(0, 0), true, false);
    embed_in_board(&mut game, &mut board, true);
    assert_eq!(game.drag_start, Some(vec![p(0, 0, 1), p(50, 0, 1), p(0, 50, 1)]));
    assert_eq!(game.pieces[0].error_timer(), 120);
    assert!(game.pieces[0].is_moving());
}
