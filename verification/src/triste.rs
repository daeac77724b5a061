//! A simpler variant of the rules, in which the board does not keep
//! track of the squares that pieces cover: a dropped piece snaps to the grid
//! whenever it lies over the board, and a right click turns every piece
//! under the cursor.
use vstd::prelude::*;

use crate::board::{Board, BoardView};
use crate::cursor::Cursor;
use crate::game::{
    board_view, drop_fits, first_hit, first_hit_index, first_moving, first_moving_index, follow_fits,
    move_outcome, release_outcome, GameView,
};
use crate::piece::{rotated, rotation_fits, snapped, squares_contain, Piece, PieceView};
use crate::point::Point2;

verus! {

/// All game pieces currently in play.
pub struct GameState(pub Vec<Piece>);

impl View for GameState {
    type V = Seq<PieceView>;

    open spec fn view(&self) -> Seq<PieceView> {
        self.0@.map_values(|p: Piece| p@)
    }
}

/// The pieces as a game without a drag start.
pub open spec fn as_game(pieces: Seq<PieceView>) -> GameView {
    GameView { pieces, drag_start: None }
}

/// What a mouse click does: a left click picks up the first piece under the
/// cursor; when it picks up nothing, a right click turns every piece under
/// the cursor a quarter clockwise.
pub open spec fn click_outcome(
    pieces: Seq<PieceView>,
    cursor: Point2,
    left_just_pressed: bool,
    right_just_pressed: bool,
) -> Seq<PieceView> {
    let k = first_hit(pieces, cursor);
    if k < pieces.len() && left_just_pressed {
        pieces.update(k, PieceView { moving: true, ..pieces[k] })
    } else if right_just_pressed {
        pieces.map_values(
            |p: PieceView|
                if squares_contain(p.positions, cursor) {
                    p.with_positions(rotated(p.positions))
                } else {
                    p
                },
        )
    } else {
        pieces
    }
}

/// What releasing the left button over the board does: the first dragged
/// piece snaps to the grid when it lies over the board.
pub open spec fn embed_outcome(pieces: Seq<PieceView>, b: Option<BoardView>, left_just_released: bool) -> Seq<
    PieceView,
> {
    let k = first_moving(pieces);
    if !left_just_released || b is None || k == pieces.len() {
        pieces
    } else if b->0.fits(pieces[k].positions) {
        pieces.update(k, pieces[k].with_positions(snapped(pieces[k].positions)))
    } else {
        pieces
    }
}

/// Handles the mouse buttons pressed this frame (see `click_outcome`).
pub fn click_piece(game_state: &mut GameState, cursor_pos: Point2, left_just_pressed: bool, right_just_pressed: bool)
    requires
        right_just_pressed && !(first_hit(old(game_state)@, cursor_pos) < old(game_state)@.len() && left_just_pressed)
            ==> forall|i: int|
            0 <= i < old(game_state)@.len() && squares_contain(#[trigger] old(game_state)@[i].positions, cursor_pos)
                ==> rotation_fits(old(game_state)@[i].positions),
    ensures
        final(game_state)@ == click_outcome(old(game_state)@, cursor_pos, left_just_pressed, right_just_pressed),
{
    let ghost g0 = game_state@;
    let k = first_hit_index(&game_state.0, cursor_pos);
    if k < game_state.0.len() && left_just_pressed {
        game_state.0[k].set_moving(true);
        assert(game_state@ =~= click_outcome(g0, cursor_pos, left_just_pressed, right_just_pressed));
        return;
    }
    if !right_just_pressed {
        return;
    }
    let n = game_state.0.len();
    for i in 0..n
        invariant
            n == game_state.0@.len(),
            n == g0.len(),
            right_just_pressed,
            !(first_hit(g0, cursor_pos) < g0.len() && left_just_pressed),
            forall|j: int|
                0 <= j < g0.len() && squares_contain(#[trigger] g0[j].positions, cursor_pos) ==> rotation_fits(
                    g0[j].positions,
                ),
            forall|j: int|
                0 <= j < n ==> #[trigger] game_state@[j] == if j < i {
                    click_outcome(g0, cursor_pos, left_just_pressed, right_just_pressed)[j]
                } else {
                    g0[j]
                },
    {
        let ghost before = game_state@;
        assert(game_state@[i as int] == game_state.0@[i as int]@);
        if game_state.0[i].is_even_odd(cursor_pos) {
            proof {
                let ps = g0[i as int].positions;
                assert(squares_contain(ps, cursor_pos));
                assert(ps.len() > 0);
            }
            game_state.0[i].rotate();
        }
        assert(game_state@[i as int] == game_state.0@[i as int]@);
        assert(game_state@[i as int] == click_outcome(g0, cursor_pos, left_just_pressed, right_just_pressed)[i as int]);
        assert forall|j: int| 0 <= j < n implies #[trigger] game_state@[j] == if j < i + 1 {
            click_outcome(g0, cursor_pos, left_just_pressed, right_just_pressed)[j]
        } else {
            g0[j]
        } by {
            if j != i {
                assert(game_state@[j] == before[j]);
            }
        }
    }
    assert(game_state@ =~= click_outcome(g0, cursor_pos, left_just_pressed, right_just_pressed));
}

/// Moves every dragged piece to follow the cursor.
pub fn move_piece(game_state: &mut GameState, cursor: &Cursor)
    requires
        cursor.is_pressed ==> follow_fits(as_game(old(game_state)@), cursor.current_pos),
    ensures
        final(game_state)@ == move_outcome(as_game(old(game_state)@), cursor.current_pos, cursor.is_pressed).pieces,
{
    let mut pieces: Vec<Piece> = Vec::new();
    std::mem::swap(&mut pieces, &mut game_state.0);
    let mut g = crate::game::GameState { pieces, drag_start: None };
    assert(g@ =~= as_game(old(game_state)@));
    crate::game::move_piece(&mut g, cursor);
    game_state.0 = g.pieces;
}

/// Drops every piece when the left button is released.
pub fn release_piece(game_state: &mut GameState, left_just_released: bool)
    ensures
        final(game_state)@ == release_outcome(as_game(old(game_state)@), left_just_released).pieces,
{
    let mut pieces: Vec<Piece> = Vec::new();
    std::mem::swap(&mut pieces, &mut game_state.0);
    let mut g = crate::game::GameState { pieces, drag_start: None };
    assert(g@ =~= as_game(old(game_state)@));
    crate::game::release_piece(&mut g, left_just_released);
    game_state.0 = g.pieces;
}

/// Snaps the dragged piece to the grid when it is dropped over the board
/// (see `embed_outcome`).
pub fn embed_in_board(game_state: &mut GameState, board: &Option<Board>, left_just_released: bool)
    requires
        drop_fits(as_game(old(game_state)@)),
    ensures
        final(game_state)@ == embed_outcome(old(game_state)@, board_view(*board), left_just_released),
{
    let ghost g0 = game_state@;
    if !left_just_released {
        return;
    }
    match board {
        None => {},
        Some(b) => {
            let k = first_moving_index(&game_state.0);
            if k == game_state.0.len() {
                return;
            }
            let positions = game_state.0[k].positions();
            proof {
                assert(g0[k as int] == game_state.0@[k as int]@);
                assert(as_game(g0).pieces[k as int] == g0[k as int]);
            }
            if b.fits_piece(&positions) {
                game_state.0[k].snap();
                assert(game_state@ =~= embed_outcome(g0, board_view(*board), left_just_released));
            }
        },
    }
}

/// A right click that picks up nothing turns every piece under the cursor a
/// quarter clockwise, dragged or not, and leaves every other piece as it is;
/// a left click on a piece picks up the first piece under the cursor and
/// changes nothing else.
pub proof fn law_right_click_turns_every_hit_piece(
    pieces: Seq<PieceView>,
    cursor: Point2,
    left_just_pressed: bool,
    right_just_pressed: bool,
)
    ensures
        ({
            let k = first_hit(pieces, cursor);
            let r = click_outcome(pieces, cursor, left_just_pressed, right_just_pressed);
            &&& r.len() == pieces.len()
            &&& (k < pieces.len() && left_just_pressed) ==> forall|j: int|
                0 <= j < pieces.len() ==> #[trigger] r[j] == if j == k {
                    PieceView { moving: true, ..pieces[j] }
                } else {
                    pieces[j]
                }
            &&& (!(k < pieces.len() && left_just_pressed) && right_just_pressed) ==> forall|j: int|
                0 <= j < pieces.len() ==> {
                    &&& squares_contain(pieces[j].positions, cursor) ==> (#[trigger] r[j]).positions
                        == rotated(pieces[j].positions) && r[j].moving == pieces[j].moving
                        && r[j].kind == pieces[j].kind && r[j].error_timer == pieces[j].error_timer
                    &&& !squares_contain(pieces[j].positions, cursor) ==> r[j] == pieces[j]
                }
            &&& (!(k < pieces.len() && left_just_pressed) && !right_just_pressed) ==> r == pieces
        }),
{
    crate::game::lemma_first_bounds(pieces, cursor);
}

} // verus!
