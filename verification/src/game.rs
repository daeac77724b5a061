use vstd::prelude::*;

use crate::board::{covered_by, Board, BoardView};
use crate::cursor::Cursor;
use crate::piece::{
    lemma_rotation_bounded, lemma_snap_bounded, rotated, rotation_fits, snap_fits, snapped,
    squares_contain, translated, translation_fits, Piece, PieceKind, PieceView,
};
use crate::point::{
    all_within, copy_points, points_within_world, same_xy, within, within_xy, Point, Point2, WORLD_LIMIT,
};
use crate::shapes::{
    corner_squares, l_squares, new_piece, rectangle_squares, square_squares, z_squares, Corner, Rectangle,
    Square, L, Z,
};

verus! {

/// How long a piece shows its error outline after a refused move, in
/// milliseconds.
pub const ERROR_OUTLINE_MS: u32 = 500;

/// All game pieces currently in play, and the squares the dragged piece
/// occupied when the drag started.
pub struct GameState {
    pub pieces: Vec<Piece>,
    pub drag_start: Option<Vec<Point>>,
}

/// The abstract state of the game.
pub struct GameView {
    pub pieces: Seq<PieceView>,
    pub drag_start: Option<Seq<Point>>,
}

impl View for GameState {
    type V = GameView;

    open spec fn view(&self) -> GameView {
        GameView {
            pieces: self.pieces@.map_values(|p: Piece| p@),
            drag_start: match self.drag_start {
                Some(v) => Some(v@),
                None => None,
            },
        }
    }
}

/// The abstract state of an optional board.
pub open spec fn board_view(b: Option<Board>) -> Option<BoardView> {
    match b {
        Some(b) => Some(b@),
        None => None,
    }
}

/// Every piece has at least one square, and every square lies within
/// `WORLD_LIMIT` of the origin.
pub open spec fn game_in_world(g: GameView) -> bool {
    forall|i: int|
        0 <= i < g.pieces.len() ==> #[trigger] g.pieces[i].positions.len() > 0 && all_within(
            g.pieces[i].positions,
            WORLD_LIMIT as int,
        )
}

/// Every step of a right click on a piece lying over the board (a quarter
/// turn, a snap, and, when the turn is refused, three more quarter turns and
/// a snap) can be held in `i64`s.
pub open spec fn turn_fits(ps: Seq<Point>) -> bool {
    let turned = snapped(rotated(ps));
    &&& rotation_fits(ps)
    &&& snap_fits(rotated(ps))
    &&& rotation_fits(turned)
    &&& rotation_fits(rotated(turned))
    &&& rotation_fits(rotated(rotated(turned)))
    &&& snap_fits(rotated(rotated(rotated(turned))))
}

/// The right click that `click_piece` handles can be computed in `i64`s.
pub open spec fn click_fits(g: GameView, cursor: Point2, left_just_pressed: bool, right_just_pressed: bool) -> bool {
    let k = first_hit(g.pieces, cursor);
    k < g.pieces.len() && !left_just_pressed && right_just_pressed ==> turn_fits(g.pieces[k].positions)
}

/// Snapping the dragged piece can be computed in `i64`s.
pub open spec fn drop_fits(g: GameView) -> bool {
    let k = first_moving(g.pieces);
    k < g.pieces.len() ==> snap_fits(g.pieces[k].positions)
}

/// Every dragged piece has a square, and moving it to the cursor can be
/// computed in `i64`s.
pub open spec fn follow_fits(g: GameView, cursor: Point2) -> bool {
    forall|i: int|
        0 <= i < g.pieces.len() && (#[trigger] g.pieces[i]).moving ==> g.pieces[i].positions.len() > 0
            && translation_fits(g.pieces[i].positions, cursor.x as int, cursor.y as int)
}

/// The index of the first piece, in play order, that has a square under the
/// cursor; the number of pieces if there is none.
pub open spec fn first_hit(pieces: Seq<PieceView>, cursor: Point2) -> int
    decreases pieces.len(),
{
    if pieces.len() == 0 {
        0
    } else if squares_contain(pieces[0].positions, cursor) {
        0
    } else {
        1 + first_hit(pieces.drop_first(), cursor)
    }
}

/// The index of the first piece that the player is dragging; the number of
/// pieces if there is none.
pub open spec fn first_moving(pieces: Seq<PieceView>) -> int
    decreases pieces.len(),
{
    if pieces.len() == 0 {
        0
    } else if pieces[0].moving {
        0
    } else {
        1 + first_moving(pieces.drop_first())
    }
}

/// What a right click does to the piece under the cursor and to the board.
///
/// A dragged piece, or one that does not lie over the board, turns a quarter
/// clockwise. A piece lying over the board is lifted from it, turned and
/// snapped; if it then lies on empty board squares it is placed there,
/// otherwise three more quarter turns bring it back, it is snapped and placed
/// again, and it shows its error outline.
pub open spec fn right_click_outcome(p: PieceView, b: Option<BoardView>) -> (PieceView, Option<BoardView>) {
    if p.moving {
        (p.with_positions(rotated(p.positions)), b)
    } else {
        match b {
            None => (p.with_positions(rotated(p.positions)), None),
            Some(bv) => if !bv.fits(p.positions) {
                (p.with_positions(rotated(p.positions)), b)
            } else {
                let lifted = bv.cleared_of(p.positions);
                let turned = snapped(rotated(p.positions));
                if lifted.fits(turned) && lifted.can_place(turned) {
                    (p.with_positions(turned), Some(lifted.filled_with(turned)))
                } else {
                    let back = snapped(rotated(rotated(rotated(turned))));
                    (
                        PieceView { error_timer: ERROR_OUTLINE_MS, ..p.with_positions(back) },
                        Some(lifted.filled_with(back)),
                    )
                }
            },
        }
    }
}

/// What a mouse click does to the game and to the board.
///
/// A left click picks up the first piece under the cursor: it starts moving,
/// its squares are freed on the board, and its positions are remembered as
/// the drag start. When a left click picks up nothing, a right click turns
/// the first piece under the cursor (see `right_click_outcome`).
pub open spec fn click_outcome(
    g: GameView,
    b: Option<BoardView>,
    cursor: Point2,
    left_just_pressed: bool,
    right_just_pressed: bool,
) -> (GameView, Option<BoardView>) {
    let k = first_hit(g.pieces, cursor);
    if k < g.pieces.len() && left_just_pressed {
        let p = g.pieces[k];
        (
            GameView { pieces: g.pieces.update(k, PieceView { moving: true, ..p }), drag_start: Some(p.positions) },
            match b {
                Some(bv) => Some(bv.cleared_of(p.positions)),
                None => None,
            },
        )
    } else if k < g.pieces.len() && right_just_pressed {
        let (p, b2) = right_click_outcome(g.pieces[k], b);
        (GameView { pieces: g.pieces.update(k, p), ..g }, b2)
    } else {
        (g, b)
    }
}

/// What releasing the left button does to the dragged piece and the board.
///
/// When a board exists and a piece is being dragged over it, the piece is
/// snapped to the grid. If its squares are then all empty board squares, it
/// fills them. Otherwise it shows its error outline and, when the drag start
/// is known, goes back there and fills the board squares under it.
pub open spec fn embed_outcome(g: GameView, b: Option<BoardView>, left_just_released: bool) -> (
    GameView,
    Option<BoardView>,
) {
    let k = first_moving(g.pieces);
    if !left_just_released || b is None || k == g.pieces.len() {
        (g, b)
    } else {
        let bv = b->0;
        let p = g.pieces[k];
        if !bv.fits(p.positions) {
            (g, b)
        } else {
            let sn = snapped(p.positions);
            if bv.can_place(sn) {
                (GameView { pieces: g.pieces.update(k, p.with_positions(sn)), ..g }, Some(bv.filled_with(sn)))
            } else {
                match g.drag_start {
                    Some(d) => (
                        GameView {
                            pieces: g.pieces.update(
                                k,
                                PieceView { error_timer: ERROR_OUTLINE_MS, ..p.with_positions(d) },
                            ),
                            ..g
                        },
                        Some(bv.filled_with(d)),
                    ),
                    None => (
                        GameView {
                            pieces: g.pieces.update(
                                k,
                                PieceView { error_timer: ERROR_OUTLINE_MS, ..p.with_positions(sn) },
                            ),
                            ..g
                        },
                        b,
                    ),
                }
            }
        }
    }
}

/// Every dragged piece follows the cursor while the left button is held.
pub open spec fn move_outcome(g: GameView, cursor: Point2, is_pressed: bool) -> GameView {
    if is_pressed {
        GameView {
            pieces: g.pieces.map_values(
                |p: PieceView|
                    if p.moving {
                        p.with_positions(translated(p.positions, cursor.x as int, cursor.y as int))
                    } else {
                        p
                    },
            ),
            ..g
        }
    } else {
        g
    }
}

/// Releasing the left button drops every piece and forgets the drag start.
pub open spec fn release_outcome(g: GameView, left_just_released: bool) -> GameView {
    if left_just_released {
        GameView { pieces: g.pieces.map_values(|p: PieceView| PieceView { moving: false, ..p }), drag_start: None }
    } else {
        g
    }
}

/// Every error outline counts down by `delta` milliseconds, stopping at zero.
pub open spec fn timers_outcome(g: GameView, delta: u32) -> GameView {
    GameView {
        pieces: g.pieces.map_values(
            |p: PieceView|
                PieceView {
                    error_timer: if p.error_timer >= delta {
                        (p.error_timer - delta) as u32
                    } else {
                        0
                    },
                    ..p
                },
        ),
        ..g
    }
}

pub(crate) proof fn lemma_first_bounds(pieces: Seq<PieceView>, cursor: Point2)
    ensures
        0 <= first_hit(pieces, cursor) <= pieces.len(),
        0 <= first_moving(pieces) <= pieces.len(),
    decreases pieces.len(),
{
    if pieces.len() > 0 {
        lemma_first_bounds(pieces.drop_first(), cursor);
    }
}

proof fn lemma_first_hit(pieces: Seq<PieceView>, cursor: Point2, k: int)
    requires
        0 <= k <= pieces.len(),
        forall|j: int| 0 <= j < k ==> !squares_contain(#[trigger] pieces[j].positions, cursor),
        k < pieces.len() ==> squares_contain(pieces[k].positions, cursor),
    ensures
        first_hit(pieces, cursor) == k,
    decreases pieces.len(),
{
    if pieces.len() > 0 && k > 0 {
        let rest = pieces.drop_first();
        assert forall|j: int| 0 <= j < k - 1 implies !squares_contain(#[trigger] rest[j].positions, cursor) by {
            assert(rest[j] == pieces[j + 1]);
        }
        if k - 1 < rest.len() {
            assert(rest[k - 1] == pieces[k]);
        }
        assert(!squares_contain(pieces[0].positions, cursor));
        lemma_first_hit(rest, cursor, k - 1);
    }
}

proof fn lemma_first_moving(pieces: Seq<PieceView>, k: int)
    requires
        0 <= k <= pieces.len(),
        forall|j: int| 0 <= j < k ==> !(#[trigger] pieces[j]).moving,
        k < pieces.len() ==> pieces[k].moving,
    ensures
        first_moving(pieces) == k,
    decreases pieces.len(),
{
    if pieces.len() > 0 && k > 0 {
        let rest = pieces.drop_first();
        assert forall|j: int| 0 <= j < k - 1 implies !(#[trigger] rest[j]).moving by {
            assert(rest[j] == pieces[j + 1]);
        }
        if k - 1 < rest.len() {
            assert(rest[k - 1] == pieces[k]);
        }
        assert(!pieces[0].moving);
        lemma_first_moving(rest, k - 1);
    }
}

/// The index of the first piece with a square under the cursor.
pub(crate) fn first_hit_index(pieces: &Vec<Piece>, cursor: Point2) -> (k: usize)
    ensures
        k == first_hit(pieces@.map_values(|p: Piece| p@), cursor),
        k <= pieces@.len(),
        k < pieces@.len() ==> squares_contain(pieces@[k as int]@.positions, cursor),
{
    let ghost views = pieces@.map_values(|p: Piece| p@);
    let n = pieces.len();
    let mut k: usize = 0;
    while k < n
        invariant
            k <= n,
            n == pieces@.len(),
            views == pieces@.map_values(|p: Piece| p@),
            forall|j: int| 0 <= j < k ==> !squares_contain(#[trigger] views[j].positions, cursor),
        decreases n - k,
    {
        if pieces[k].is_even_odd(cursor) {
            proof {
                lemma_first_hit(views, cursor, k as int);
            }
            return k;
        }
        k = k + 1;
    }
    proof {
        lemma_first_hit(views, cursor, k as int);
    }
    k
}

/// The index of the first piece that the player is dragging.
pub(crate) fn first_moving_index(pieces: &Vec<Piece>) -> (k: usize)
    ensures
        k == first_moving(pieces@.map_values(|p: Piece| p@)),
        k <= pieces@.len(),
{
    let ghost views = pieces@.map_values(|p: Piece| p@);
    let n = pieces.len();
    let mut k: usize = 0;
    while k < n
        invariant
            k <= n,
            n == pieces@.len(),
            views == pieces@.map_values(|p: Piece| p@),
            forall|j: int| 0 <= j < k ==> !(#[trigger] views[j]).moving,
        decreases n - k,
    {
        if pieces[k].is_moving() {
            proof {
                lemma_first_moving(views, k as int);
            }
            return k;
        }
        k = k + 1;
    }
    proof {
        lemma_first_moving(views, k as int);
    }
    k
}

/// Turns the piece under the cursor (see `right_click_outcome`).
fn rotate_clicked(piece: &mut Piece, board: &mut Option<Board>)
    requires
        old(piece)@.positions.len() > 0,
        turn_fits(old(piece)@.positions),
    ensures
        (final(piece)@, board_view(*final(board))) == right_click_outcome(old(piece)@, board_view(*old(board))),
{
    let ghost ps = piece@.positions;
    if piece.is_moving() {
        piece.rotate();
        return;
    }
    match board {
        None => {
            piece.rotate();
        },
        Some(b) => {
            let positions = piece.positions();
            if b.fits_piece(&positions) {
                b.clear_piece(&positions);
                piece.rotate();
                piece.snap();
                let turned = piece.positions();
                if b.fits_piece(&turned) && b.can_place_piece(&turned) {
                    b.fill_piece(&turned);
                } else {
                    piece.rotate();
                    piece.rotate();
                    piece.rotate();
                    piece.snap();
                    let back = piece.positions();
                    b.fill_piece(&back);
                    piece.set_error_timer(ERROR_OUTLINE_MS);
                }
            } else {
                piece.rotate();
            }
        },
    }
}

/// A piece with squares within `WORLD_LIMIT` of the origin can be turned by
/// a right click in `i64`s.
pub proof fn lemma_world_piece_turn_fits(ps: Seq<Point>)
    requires
        ps.len() > 0,
        all_within(ps, WORLD_LIMIT as int),
    ensures
        turn_fits(ps),
{
    let lim = WORLD_LIMIT as int;
    assert(within(ps[0], lim));
    lemma_rotation_bounded(ps, lim, lim);
    lemma_snap_bounded(rotated(ps), 3 * lim);
    let t = snapped(rotated(ps));
    lemma_snap_bounded(seq![ps[0]], lim);
    assert(seq![ps[0]][0] == ps[0]);
    assert(snapped(seq![ps[0]])[0] == t[0]);
    assert(within(t[0], lim + 25));
    lemma_rotation_bounded(t, lim + 25, 3 * lim + 25);
    lemma_rotation_bounded(rotated(t), lim + 25, 5 * lim + 75);
    lemma_rotation_bounded(rotated(rotated(t)), lim + 25, 7 * lim + 125);
    lemma_snap_bounded(rotated(rotated(rotated(t))), 9 * lim + 175);
}

/// When every piece lies within `WORLD_LIMIT` of the origin, and so does the
/// cursor, every game system can be computed in `i64`s.
pub proof fn lemma_world_bounds_suffice(g: GameView, cursor: Point2, left: bool, right: bool)
    requires
        game_in_world(g),
    ensures
        click_fits(g, cursor, left, right),
        drop_fits(g),
        within_xy(cursor, WORLD_LIMIT as int) ==> follow_fits(g, cursor),
{
    lemma_first_bounds(g.pieces, cursor);
    let k = first_hit(g.pieces, cursor);
    if k < g.pieces.len() {
        lemma_world_piece_turn_fits(g.pieces[k].positions);
    }
    let m = first_moving(g.pieces);
    if m < g.pieces.len() {
        lemma_snap_bounded(g.pieces[m].positions, WORLD_LIMIT as int);
    }
    if within_xy(cursor, WORLD_LIMIT as int) {
        assert forall|i: int|
            0 <= i < g.pieces.len() && (#[trigger] g.pieces[i]).moving implies g.pieces[i].positions.len() > 0
            && translation_fits(g.pieces[i].positions, cursor.x as int, cursor.y as int) by {
            let ps = g.pieces[i].positions;
            assert(within(ps[0], WORLD_LIMIT as int));
            assert forall|j: int| 0 <= j < ps.len() implies crate::point::fits_i64(
                #[trigger] ps[j].x + (cursor.x - ps[0].x),
            ) && crate::point::fits_i64(ps[j].y + (cursor.y - ps[0].y)) by {
                assert(within(ps[j], WORLD_LIMIT as int));
            }
        }
    }
}

impl GameState {
    /// The game as it starts: the five pieces beside the board, none moving.
    pub fn new_game() -> (g: GameState)
        ensures
            g@.pieces == seq![
                new_piece(PieceKind::Rectangle, rectangle_squares(-300, -200)),
                new_piece(PieceKind::L, l_squares(-100, 100)),
                new_piece(PieceKind::Z, z_squares(200, 200)),
                new_piece(PieceKind::Corner, corner_squares(-300, 100)),
                new_piece(PieceKind::Square, square_squares(100, -200)),
            ],
            g@.drag_start is None,
            game_in_world(g@),
    {
        let mut pieces: Vec<Piece> = Vec::new();
        pieces.push(Rectangle::new(-300, -200));
        pieces.push(L::new(-100, 100));
        pieces.push(Z::new(200, 200));
        pieces.push(Corner::new(-300, 100));
        pieces.push(Square::new(100, -200));
        let g = GameState { pieces, drag_start: None };
        assert(g@.pieces =~= seq![
            new_piece(PieceKind::Rectangle, rectangle_squares(-300, -200)),
            new_piece(PieceKind::L, l_squares(-100, 100)),
            new_piece(PieceKind::Z, z_squares(200, 200)),
            new_piece(PieceKind::Corner, corner_squares(-300, 100)),
            new_piece(PieceKind::Square, square_squares(100, -200)),
        ]);
        assert forall|i: int| 0 <= i < 5 implies #[trigger] g@.pieces[i].positions.len() > 0 && all_within(
            g@.pieces[i].positions,
            WORLD_LIMIT as int,
        ) by {
            assert(g@.pieces[i] == g.pieces@[i]@);
        }
        g
    }

    /// Whether every square of every piece lies within `WORLD_LIMIT` of the
    /// origin, as the game systems require.
    pub fn in_world(&self) -> (b: bool)
        ensures
            b == game_in_world(self@),
    {
        let n = self.pieces.len();
        for i in 0..n
            invariant
                n == self.pieces@.len(),
                forall|j: int|
                    0 <= j < i ==> #[trigger] self@.pieces[j].positions.len() > 0 && all_within(
                        self@.pieces[j].positions,
                        WORLD_LIMIT as int,
                    ),
        {
            let ps = self.pieces[i].positions();
            if ps.len() == 0 || !points_within_world(&ps) {
                assert(self@.pieces[i as int] == self.pieces@[i as int]@);
                return false;
            }
            assert(self@.pieces[i as int] == self.pieces@[i as int]@);
        }
        true
    }
}

/// Handles the mouse buttons pressed this frame (see `click_outcome`).
pub fn click_piece(
    game_state: &mut GameState,
    board: &mut Option<Board>,
    cursor_pos: Point2,
    left_just_pressed: bool,
    right_just_pressed: bool,
)
    requires
        click_fits(old(game_state)@, cursor_pos, left_just_pressed, right_just_pressed),
    ensures
        (final(game_state)@, board_view(*final(board))) == click_outcome(
            old(game_state)@,
            board_view(*old(board)),
            cursor_pos,
            left_just_pressed,
            right_just_pressed,
        ),
{
    let ghost g0 = game_state@;
    let k = first_hit_index(&game_state.pieces, cursor_pos);
    let n = game_state.pieces.len();
    if k < n && left_just_pressed {
        let positions = game_state.pieces[k].positions();
        game_state.pieces[k].set_moving(true);
        match board {
            Some(b) => b.clear_piece(&positions),
            None => {},
        }
        game_state.drag_start = Some(positions);
        assert(game_state@.pieces =~= g0.pieces.update(k as int, PieceView { moving: true, ..g0.pieces[k as int] }));
        return;
    }
    if k < n && right_just_pressed {
        proof {
            assert(g0.pieces[k as int] == game_state.pieces@[k as int]@);
        }
        rotate_clicked(&mut game_state.pieces[k], board);
        assert(game_state@.pieces =~= g0.pieces.update(k as int, right_click_outcome(g0.pieces[k as int], board_view(*old(board))).0));
    }
}

/// Handles the release of the left button (see `embed_outcome`).
pub fn embed_in_board(game_state: &mut GameState, board: &mut Option<Board>, left_just_released: bool)
    requires
        drop_fits(old(game_state)@),
    ensures
        (final(game_state)@, board_view(*final(board))) == embed_outcome(
            old(game_state)@,
            board_view(*old(board)),
            left_just_released,
        ),
{
    let ghost g0 = game_state@;
    if !left_just_released {
        return;
    }
    match board {
        None => {
            return;
        },
        Some(b) => {
            let k = first_moving_index(&game_state.pieces);
            if k == game_state.pieces.len() {
                return;
            }
            let positions = game_state.pieces[k].positions();
            proof {
                assert(g0.pieces[k as int] == game_state.pieces@[k as int]@);
            }
            if b.fits_piece(&positions) {
                game_state.pieces[k].snap();
                let snapped_positions = game_state.pieces[k].positions();
                if !b.can_place_piece(&snapped_positions) {
                    match &game_state.drag_start {
                        Some(start) => {
                            let back = copy_points(start);
                            let filling = copy_points(start);
                            game_state.pieces[k].set_positions(back);
                            b.fill_piece(&filling);
                        },
                        None => {},
                    }
                    game_state.pieces[k].set_error_timer(ERROR_OUTLINE_MS);
                    assert(game_state@.pieces =~= embed_outcome(g0, board_view(*old(board)), left_just_released).0.pieces);
                } else {
                    b.fill_piece(&snapped_positions);
                    assert(game_state@.pieces =~= embed_outcome(g0, board_view(*old(board)), left_just_released).0.pieces);
                }
            }
        },
    }
}

/// Moves every dragged piece to follow the cursor (see `move_outcome`).
pub fn move_piece(game_state: &mut GameState, cursor: &Cursor)
    requires
        cursor.is_pressed ==> follow_fits(old(game_state)@, cursor.current_pos),
    ensures
        final(game_state)@ == move_outcome(old(game_state)@, cursor.current_pos, cursor.is_pressed),
{
    let ghost g0 = game_state@;
    if !cursor.is_pressed {
        return;
    }
    let c = cursor.current_pos;
    let n = game_state.pieces.len();
    for i in 0..n
        invariant
            n == game_state.pieces@.len(),
            n == g0.pieces.len(),
            game_state@.drag_start == g0.drag_start,
            follow_fits(g0, c),
            c == cursor.current_pos,
            cursor.is_pressed,
            forall|j: int|
                0 <= j < n ==> #[trigger] game_state@.pieces[j] == if j < i {
                    move_outcome(g0, c, true).pieces[j]
                } else {
                    g0.pieces[j]
                },
    {
        let ghost before = game_state@.pieces;
        assert(game_state@.pieces[i as int] == game_state.pieces@[i as int]@);
        if game_state.pieces[i].is_moving() {
            assert(g0.pieces[i as int].moving);
            game_state.pieces[i].move_to_cursor(c);
        }
        assert(forall|j: int| 0 <= j < n && j != i ==> game_state@.pieces[j] == before[j]);
        assert(game_state@.pieces[i as int] == game_state.pieces@[i as int]@);
        assert(game_state@.pieces[i as int] == move_outcome(g0, c, true).pieces[i as int]);
        assert forall|j: int| 0 <= j < n implies #[trigger] game_state@.pieces[j] == if j < i + 1 {
            move_outcome(g0, c, true).pieces[j]
        } else {
            g0.pieces[j]
        } by {
            if j != i {
                assert(game_state@.pieces[j] == before[j]);
            }
        }
    }
    assert(game_state@.pieces =~= move_outcome(g0, c, true).pieces);
}

/// Drops every piece when the left button is released (see
/// `release_outcome`).
pub fn release_piece(game_state: &mut GameState, left_just_released: bool)
    ensures
        final(game_state)@ == release_outcome(old(game_state)@, left_just_released),
{
    let ghost g0 = game_state@;
    if !left_just_released {
        return;
    }
    let n = game_state.pieces.len();
    for i in 0..n
        invariant
            n == game_state.pieces@.len(),
            n == g0.pieces.len(),
            game_state@.drag_start == g0.drag_start,
            forall|j: int|
                0 <= j < n ==> #[trigger] game_state@.pieces[j] == if j < i {
                    release_outcome(g0, true).pieces[j]
                } else {
                    g0.pieces[j]
                },
    {
        let ghost before = game_state@.pieces;
        assert(game_state@.pieces[i as int] == game_state.pieces@[i as int]@);
        if game_state.pieces[i].is_moving() {
            game_state.pieces[i].set_moving(false);
        }
        assert(forall|j: int| 0 <= j < n && j != i ==> game_state@.pieces[j] == before[j]);
        assert(game_state@.pieces[i as int] == game_state.pieces@[i as int]@);
        assert(game_state@.pieces[i as int] == release_outcome(g0, true).pieces[i as int]);
        assert forall|j: int| 0 <= j < n implies #[trigger] game_state@.pieces[j] == if j < i + 1 {
            release_outcome(g0, true).pieces[j]
        } else {
            g0.pieces[j]
        } by {
            if j != i {
                assert(game_state@.pieces[j] == before[j]);
            }
        }
    }
    assert(game_state@.pieces =~= release_outcome(g0, true).pieces);
    game_state.drag_start = None;
}

/// Counts every error outline down by `delta` milliseconds (see
/// `timers_outcome`).
pub fn update_timers(game_state: &mut GameState, delta: u32)
    ensures
        final(game_state)@ == timers_outcome(old(game_state)@, delta),
{
    let ghost g0 = game_state@;
    let n = game_state.pieces.len();
    for i in 0..n
        invariant
            n == game_state.pieces@.len(),
            n == g0.pieces.len(),
            game_state@.drag_start == g0.drag_start,
            forall|j: int|
                0 <= j < n ==> #[trigger] game_state@.pieces[j] == if j < i {
                    timers_outcome(g0, delta).pieces[j]
                } else {
                    g0.pieces[j]
                },
    {
        let ghost before = game_state@.pieces;
        assert(game_state@.pieces[i as int] == game_state.pieces@[i as int]@);
        game_state.pieces[i].update_error_timer(delta);
        assert(forall|j: int| 0 <= j < n && j != i ==> game_state@.pieces[j] == before[j]);
        assert(game_state@.pieces[i as int] == game_state.pieces@[i as int]@);
        assert(game_state@.pieces[i as int] == timers_outcome(g0, delta).pieces[i as int]);
        assert forall|j: int| 0 <= j < n implies #[trigger] game_state@.pieces[j] == if j < i + 1 {
            timers_outcome(g0, delta).pieces[j]
        } else {
            g0.pieces[j]
        } by {
            if j != i {
                assert(game_state@.pieces[j] == before[j]);
            }
        }
    }
    assert(game_state@.pieces =~= timers_outcome(g0, delta).pieces);
}

} // verus!

verus! {

// ------------------------------------------------------------------------
// Laws of the game
// ------------------------------------------------------------------------

/// Releasing the left button drops every piece, keeps every square where it
/// is, and forgets the drag start.
pub proof fn law_release_drops_every_piece(g: GameView)
    ensures
        release_outcome(g, true).pieces.len() == g.pieces.len(),
        release_outcome(g, true).drag_start is None,
        forall|i: int|
            0 <= i < g.pieces.len() ==> !(#[trigger] release_outcome(g, true).pieces[i]).moving
                && release_outcome(g, true).pieces[i].positions == g.pieces[i].positions,
{
}

/// A drop that the board refuses sends the piece back to where the drag
/// started, fills the board squares under it there, and shows the error
/// outline.
pub proof fn law_refused_drop_returns_to_drag_start(g: GameView, bv: BoardView)
    requires
        first_moving(g.pieces) < g.pieces.len(),
        bv.fits(g.pieces[first_moving(g.pieces)].positions),
        !bv.can_place(snapped(g.pieces[first_moving(g.pieces)].positions)),
        g.drag_start is Some,
    ensures
        ({
            let k = first_moving(g.pieces);
            let (g2, b2) = embed_outcome(g, Some(bv), true);
            &&& g2.pieces[k].positions == g.drag_start->0
            &&& g2.pieces[k].error_timer == ERROR_OUTLINE_MS
            &&& b2 == Some(bv.filled_with(g.drag_start->0))
        }),
{
    lemma_first_bounds(g.pieces, Point2 { x: 0, y: 0 });
}

/// Picking up a piece that lies on the board and dropping it where it was
/// leaves the board as it was; the piece keeps its squares and its error
/// timer, the drag start is where it was picked up, and, once the button is
/// released, every piece is as it was.
pub proof fn law_pick_up_and_drop_in_place(g: GameView, bv: BoardView, cursor: Point2)
    requires
        first_hit(g.pieces, cursor) < g.pieces.len(),
        forall|j: int| 0 <= j < g.pieces.len() ==> !(#[trigger] g.pieces[j]).moving,
        bv.fits(g.pieces[first_hit(g.pieces, cursor)].positions),
        crate::piece::all_on_grid(g.pieces[first_hit(g.pieces, cursor)].positions),
        bv.holds(g.pieces[first_hit(g.pieces, cursor)].positions),
    ensures
        ({
            let k = first_hit(g.pieces, cursor);
            let (g1, b1) = click_outcome(g, Some(bv), cursor, true, false);
            let (g2, b2) = embed_outcome(g1, b1, true);
            &&& b2 == Some(bv)
            &&& g2.pieces[k] == (PieceView { moving: true, ..g.pieces[k] })
            &&& g2.drag_start == Some(g.pieces[k].positions)
            &&& release_outcome(g2, true).pieces == g.pieces
        }),
{
    lemma_first_bounds(g.pieces, cursor);
    let k = first_hit(g.pieces, cursor);
    let p = g.pieces[k];
    let ps = p.positions;
    let (g1, b1) = click_outcome(g, Some(bv), cursor, true, false);
    assert(g1.pieces == g.pieces.update(k, PieceView { moving: true, ..p }));
    assert(b1 == Some(bv.cleared_of(ps)));
    assert forall|j: int| 0 <= j < k implies !(#[trigger] g1.pieces[j]).moving by {
        assert(g1.pieces[j] == g.pieces[j]);
    }
    lemma_first_moving(g1.pieces, k);
    crate::board::law_place_after_lift(bv, ps);
    crate::piece::law_snap_keeps_grid_pieces(ps);
    let (g2, b2) = embed_outcome(g1, b1, true);
    assert(g2.pieces == g1.pieces.update(k, g1.pieces[k].with_positions(ps)));
    let g3 = release_outcome(g2, true);
    assert forall|j: int| 0 <= j < g.pieces.len() implies #[trigger] g3.pieces[j] == g.pieces[j] by {
        if j == k {
            assert(g3.pieces[j] == PieceView { moving: false, ..g2.pieces[j] });
        } else {
            assert(g2.pieces[j] == g.pieces[j]);
        }
    }
    assert(g3.pieces =~= g.pieces);
}

/// A right click on a piece that rests on the board, on the grid, either
/// turns it a quarter clockwise onto empty board squares, or, when the turn
/// is refused, leaves the piece and the board exactly as they were and shows
/// the error outline.
pub proof fn law_refused_turn_leaves_piece_and_board(p: PieceView, bv: BoardView)
    requires
        !p.moving,
        p.positions.len() > 0,
        crate::piece::all_on_grid(p.positions),
        all_within(p.positions, WORLD_LIMIT as int),
        bv.fits(p.positions),
        bv.holds(p.positions),
    ensures
        ({
            let (p2, b2) = right_click_outcome(p, Some(bv));
            let lifted = bv.cleared_of(p.positions);
            ||| {
                &&& p2 == p.with_positions(rotated(p.positions))
                &&& lifted.can_place(rotated(p.positions))
                &&& b2 == Some(lifted.filled_with(rotated(p.positions)))
            }
            ||| {
                &&& p2 == (PieceView { error_timer: ERROR_OUTLINE_MS, ..p })
                &&& b2 == Some(bv)
            }
        }),
{
    let ps = p.positions;
    let lim = WORLD_LIMIT as int;
    assert(within(ps[0], lim));
    lemma_rotation_bounded(ps, lim, lim);
    crate::piece::law_grid_pieces_stay_on_grid(ps);
    crate::piece::law_refused_turn_restores_piece(ps);
    crate::board::law_place_after_lift(bv, ps);
    assert(snapped(rotated(ps)) == rotated(ps));
    let (p2, b2) = right_click_outcome(p, Some(bv));
    if !(bv.cleared_of(ps).fits(rotated(ps)) && bv.cleared_of(ps).can_place(rotated(ps))) {
        assert(p.with_positions(ps) == p);
    }
}

/// Dragged pieces that already follow the cursor stay where they are when
/// the cursor stays: following it twice is following it once.
pub proof fn law_follow_twice_is_once(g: GameView, cursor: Point2, is_pressed: bool)
    requires
        is_pressed ==> follow_fits(g, cursor),
    ensures
        is_pressed ==> follow_fits(move_outcome(g, cursor, is_pressed), cursor),
        move_outcome(move_outcome(g, cursor, is_pressed), cursor, is_pressed) == move_outcome(
            g,
            cursor,
            is_pressed,
        ),
{
    if is_pressed {
        let g1 = move_outcome(g, cursor, true);
        let g2 = move_outcome(g1, cursor, true);
        assert forall|i: int| 0 <= i < g.pieces.len() implies #[trigger] g2.pieces[i] == g1.pieces[i] && (
        g1.pieces[i].moving ==> g1.pieces[i].positions.len() > 0 && translation_fits(
            g1.pieces[i].positions,
            cursor.x as int,
            cursor.y as int,
        )) by {
            let p = g.pieces[i];
            if p.moving {
                let ps = p.positions;
                crate::piece::law_translation_keeps_shape(ps, cursor.x as int, cursor.y as int);
                let t = translated(ps, cursor.x as int, cursor.y as int);
                assert(g1.pieces[i] == p.with_positions(t));
                assert(translated(t, cursor.x as int, cursor.y as int) =~= t);
                assert forall|j: int| 0 <= j < t.len() implies crate::point::fits_i64(
                    #[trigger] t[j].x + (cursor.x - t[0].x),
                ) && crate::point::fits_i64(t[j].y + (cursor.y - t[0].y)) by {}
            } else {
                assert(g1.pieces[i] == p);
            }
        }
        assert(g2.pieces =~= g1.pieces);
    }
}

/// A right click turns the piece under the cursor a quarter clockwise,
/// leaving the board as it is, whenever the piece is being dragged, there is
/// no board, or the piece does not lie over the board. When the piece lies
/// over the board, it is lifted and either turned (and snapped) onto empty
/// board squares, or, only when the turn is refused, turned back with three
/// more quarter turns, snapped, put back on the board, and outlined; a piece
/// on the grid and in the world is then back exactly where it was. In every
/// case it keeps its shape kind and its moving flag.
pub proof fn law_right_click_turns_piece(p: PieceView, b: Option<BoardView>)
    ensures
        ({
            let (p2, b2) = right_click_outcome(p, b);
            let ps = p.positions;
            &&& p2.kind == p.kind
            &&& p2.moving == p.moving
            &&& (p.moving || b is None || !b->0.fits(ps)) ==> {
                &&& p2.positions == rotated(ps)
                &&& p2.error_timer == p.error_timer
                &&& b2 == b
            }
            &&& (!p.moving && b is Some && b->0.fits(ps)) ==> {
                let lifted = b->0.cleared_of(ps);
                let turned = snapped(rotated(ps));
                ||| {
                    &&& lifted.fits(turned)
                    &&& lifted.can_place(turned)
                    &&& p2.positions == turned
                    &&& p2.error_timer == p.error_timer
                    &&& b2 == Some(lifted.filled_with(turned))
                }
                ||| {
                    &&& !(lifted.fits(turned) && lifted.can_place(turned))
                    &&& p2.positions == snapped(rotated(rotated(rotated(turned))))
                    &&& p2.error_timer == ERROR_OUTLINE_MS
                    &&& b2 == Some(lifted.filled_with(p2.positions))
                    &&& (ps.len() > 0 && crate::piece::all_on_grid(ps) && all_within(ps, WORLD_LIMIT as int))
                        ==> p2.positions == ps
                }
            }
        }),
{
    let ps = p.positions;
    if !p.moving && b is Some && b->0.fits(ps) && ps.len() > 0 && crate::piece::all_on_grid(ps)
        && all_within(ps, WORLD_LIMIT as int) {
        crate::piece::law_refused_turn_restores_piece(ps);
    }
}

/// A right click that picks up nothing acts on the first piece under the
/// cursor only (see `law_right_click_turns_piece`); every other piece and
/// the drag start are left as they are.
pub proof fn law_right_click_touches_only_hit_piece(g: GameView, b: Option<BoardView>, cursor: Point2)
    ensures
        ({
            let k = first_hit(g.pieces, cursor);
            let (g2, b2) = click_outcome(g, b, cursor, false, true);
            &&& g2.pieces.len() == g.pieces.len()
            &&& g2.drag_start == g.drag_start
            &&& forall|j: int| 0 <= j < g.pieces.len() && j != k ==> #[trigger] g2.pieces[j] == g.pieces[j]
            &&& k < g.pieces.len() ==> (g2.pieces[k], b2) == right_click_outcome(g.pieces[k], b)
            &&& k == g.pieces.len() ==> g2 == g && b2 == b
        }),
{
    lemma_first_bounds(g.pieces, cursor);
}

/// A left click on a piece always picks it up, board or no board, and
/// wherever the piece lies: the piece starts moving with its squares
/// unchanged, the drag start becomes its squares, the board (if any) frees
/// the squares under it, and every other piece is left as it is. A left click
/// on no piece picks up nothing.
pub proof fn law_left_click_picks_up_hit_piece(
    g: GameView,
    b: Option<BoardView>,
    cursor: Point2,
    right_just_pressed: bool,
)
    ensures
        ({
            let k = first_hit(g.pieces, cursor);
            let (g2, b2) = click_outcome(g, b, cursor, true, right_just_pressed);
            &&& g2.pieces.len() == g.pieces.len()
            &&& forall|j: int| 0 <= j < g.pieces.len() && j != k ==> #[trigger] g2.pieces[j] == g.pieces[j]
            &&& k < g.pieces.len() ==> {
                &&& squares_contain(g.pieces[k].positions, cursor)
                &&& g2.pieces[k].moving
                &&& g2.pieces[k].positions == g.pieces[k].positions
                &&& g2.pieces[k].kind == g.pieces[k].kind
                &&& g2.pieces[k].error_timer == g.pieces[k].error_timer
                &&& g2.drag_start == Some(g.pieces[k].positions)
                &&& b2 == match b {
                    Some(bv) => Some(bv.cleared_of(g.pieces[k].positions)),
                    None => None,
                }
            }
        }),
{
    lemma_first_bounds(g.pieces, cursor);
    lemma_first_hit_hits(g.pieces, cursor);
}

/// The first piece under the cursor, when there is one, has a square under
/// the cursor, and no earlier piece has.
pub proof fn lemma_first_hit_hits(pieces: Seq<PieceView>, cursor: Point2)
    ensures
        first_hit(pieces, cursor) < pieces.len() ==> squares_contain(
            pieces[first_hit(pieces, cursor)].positions,
            cursor,
        ),
        forall|j: int|
            0 <= j < first_hit(pieces, cursor) && j < pieces.len() ==> !squares_contain(
                #[trigger] pieces[j].positions,
                cursor,
            ),
    decreases pieces.len(),
{
    if pieces.len() > 0 && !squares_contain(pieces[0].positions, cursor) {
        let rest = pieces.drop_first();
        lemma_first_bounds(rest, cursor);
        lemma_first_hit_hits(rest, cursor);
        assert forall|j: int|
            0 <= j < first_hit(pieces, cursor) && j < pieces.len() implies !squares_contain(
            #[trigger] pieces[j].positions,
            cursor,
        ) by {
            if j > 0 {
                assert(pieces[j] == rest[j - 1]);
            }
        }
        if first_hit(pieces, cursor) < pieces.len() {
            assert(pieces[first_hit(pieces, cursor)] == rest[first_hit(rest, cursor)]);
        }
    }
}

/// Dropping a piece that does not lie over the board changes nothing, and
/// neither does a drop with no board or no dragged piece.
pub proof fn law_drop_off_board_changes_nothing(g: GameView, b: Option<BoardView>)
    requires
        b is None || first_moving(g.pieces) == g.pieces.len() || !b->0.fits(
            g.pieces[first_moving(g.pieces)].positions,
        ),
    ensures
        embed_outcome(g, b, true) == (g, b),
{
}

/// A drop changes only the dragged piece's squares and error timer, never
/// the drag start, and marks a board square as filled only if it was filled
/// before or the dropped piece ends up over it; squares keep their centres.
pub proof fn law_drop_fills_only_under_piece(g: GameView, b: Option<BoardView>, left_just_released: bool)
    ensures
        ({
            let m = first_moving(g.pieces);
            let (g2, b2) = embed_outcome(g, b, left_just_released);
            &&& g2.pieces.len() == g.pieces.len()
            &&& g2.drag_start == g.drag_start
            &&& forall|j: int| 0 <= j < g.pieces.len() && j != m ==> #[trigger] g2.pieces[j] == g.pieces[j]
            &&& m < g.pieces.len() ==> {
                &&& g2.pieces[m].moving == g.pieces[m].moving
                &&& g2.pieces[m].kind == g.pieces[m].kind
            }
            &&& (b2 is Some <==> b is Some)
            &&& b is Some ==> {
                &&& b2->0.squares.len() == b->0.squares.len()
                &&& b2->0.min_x == b->0.min_x && b2->0.max_x == b->0.max_x
                &&& b2->0.min_y == b->0.min_y && b2->0.max_y == b->0.max_y
                &&& forall|k: int|
                    0 <= k < b->0.squares.len() ==> {
                        &&& (#[trigger] b2->0.squares[k]).coordinates == b->0.squares[k].coordinates
                        &&& b2->0.squares[k].filled ==> b->0.squares[k].filled || (m < g.pieces.len()
                            && covered_by(g2.pieces[m].positions, b->0.squares[k].coordinates))
                    }
            }
        }),
{
    lemma_first_bounds(g.pieces, Point2 { x: 0, y: 0 });
}

/// Releasing a dragged piece over the board either places it, snapped to
/// the grid, on empty board squares that it then fills, with nothing else of
/// it changed; or, when those squares are not all empty, outlines it and
/// sends it back to the drag start, filling the board squares there (or
/// leaves it snapped where it is when no drag start is known).
pub proof fn law_drop_over_board_places_or_returns(g: GameView, bv: BoardView)
    requires
        first_moving(g.pieces) < g.pieces.len(),
        bv.fits(g.pieces[first_moving(g.pieces)].positions),
    ensures
        ({
            let m = first_moving(g.pieces);
            let p = g.pieces[m];
            let sn = snapped(p.positions);
            let (g2, b2) = embed_outcome(g, Some(bv), true);
            let p2 = g2.pieces[m];
            &&& bv.can_place(sn) ==> {
                &&& p2 == p.with_positions(sn)
                &&& forall|i: int| 0 <= i < sn.len() ==> b2->0.taken_at(#[trigger] sn[i])
                &&& snap_fits(p.positions) ==> crate::piece::all_on_grid(p2.positions)
            }
            &&& !bv.can_place(sn) ==> {
                &&& p2.error_timer == ERROR_OUTLINE_MS
                &&& p2.moving == p.moving
                &&& p2.positions == match g.drag_start {
                    Some(d) => d,
                    None => sn,
                }
                &&& b2 == match g.drag_start {
                    Some(d) => Some(bv.filled_with(d)),
                    None => Some(bv),
                }
            }
        }),
{
    lemma_first_bounds(g.pieces, Point2 { x: 0, y: 0 });
    let m = first_moving(g.pieces);
    let p = g.pieces[m];
    let sn = snapped(p.positions);
    if bv.can_place(sn) {
        let f = bv.filled_with(sn);
        assert forall|i: int| 0 <= i < sn.len() implies f.taken_at(#[trigger] sn[i]) by {
            assert(bv.free_at(sn[i]));
            let k = choose|k: int| 0 <= k < bv.squares.len() && same_xy(#[trigger] bv.squares[k].coordinates, sn[i]) && !bv.squares[k].filled;
            assert(same_xy(sn[i], bv.squares[k].coordinates));
            assert(covered_by(sn, bv.squares[k].coordinates));
            assert(same_xy(f.squares[k].coordinates, sn[i]) && f.squares[k].filled);
        }
        if snap_fits(p.positions) {
            crate::piece::law_snap_is_idempotent(p.positions);
        }
    }
}

/// Counting the outlines down takes every piece's timer down by `delta`,
/// stopping at zero: the new timer is never above the old one, is at least
/// the old one less `delta`, and, when it has not reached zero, is exactly
/// the old one less `delta`. Nothing else changes.
pub proof fn law_timers_count_down_to_zero(g: GameView, delta: u32)
    ensures
        timers_outcome(g, delta).pieces.len() == g.pieces.len(),
        timers_outcome(g, delta).drag_start == g.drag_start,
        forall|i: int|
            0 <= i < g.pieces.len() ==> {
                let t = (#[trigger] timers_outcome(g, delta).pieces[i]).error_timer;
                let old_t = g.pieces[i].error_timer;
                &&& t <= old_t
                &&& t + delta >= old_t
                &&& t > 0 ==> t + delta == old_t
                &&& old_t < delta ==> t == 0
                &&& timers_outcome(g, delta).pieces[i].positions == g.pieces[i].positions
                &&& timers_outcome(g, delta).pieces[i].moving == g.pieces[i].moving
                &&& timers_outcome(g, delta).pieces[i].kind == g.pieces[i].kind
            },
{
}

} // verus!
