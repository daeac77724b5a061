use vstd::prelude::*;

use crate::point::Point2;

verus! {

/// The state of the mouse cursor, in world coordinates.
#[derive(Clone, Copy, Debug, PartialEq, Eq, Structural)]
pub struct Cursor {
    /// The current position of the cursor
    pub current_pos: Point2,
    /// The position where the left mouse button was last pressed
    pub last_click_pos: Point2,
    /// Whether the left mouse button is currently pressed
    pub is_pressed: bool,
}

impl Cursor {
    /// The cursor at the origin, with the button up.
    pub fn new() -> (c: Cursor)
        ensures
            c == (Cursor { current_pos: Point2 { x: 0, y: 0 }, last_click_pos: Point2 { x: 0, y: 0 }, is_pressed: false }),
    {
        Cursor { current_pos: Point2 { x: 0, y: 0 }, last_click_pos: Point2 { x: 0, y: 0 }, is_pressed: false }
    }

    /// Takes one cursor move into account: `world_pos` is the new position,
    /// when the screen position maps into the world. A move during the frame
    /// in which the left button goes down records where the drag starts.
    /// The button state itself is taken by `update_buttons`.
    pub fn on_cursor_moved(&mut self, world_pos: Option<Point2>, left_just_pressed: bool)
        ensures
            final(self).current_pos == match world_pos {
                Some(p) => p,
                None => old(self).current_pos,
            },
            final(self).last_click_pos == match world_pos {
                Some(p) => if left_just_pressed {
                    p
                } else {
                    old(self).last_click_pos
                },
                None => old(self).last_click_pos,
            },
            final(self).is_pressed == old(self).is_pressed,
    {
        match world_pos {
            Some(p) => {
                self.current_pos = p;
                if left_just_pressed {
                    self.last_click_pos = p;
                }
            },
            None => {},
        }
    }

    /// Takes the left button's state of this frame into account, whether or
    /// not the cursor moved: `is_pressed` becomes whether the button is held,
    /// and a press records the current position as where the drag starts.
    pub fn update_buttons(&mut self, left_pressed: bool, left_just_pressed: bool)
        ensures
            final(self).is_pressed == left_pressed,
            final(self).current_pos == old(self).current_pos,
            final(self).last_click_pos == if left_just_pressed {
                old(self).current_pos
            } else {
                old(self).last_click_pos
            },
    {
        self.is_pressed = left_pressed;
        if left_just_pressed {
            self.last_click_pos = self.current_pos;
        }
    }
}

} // verus!
