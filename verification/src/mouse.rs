//! Edge-triggered latching of mouse-button state.  The window library only
//! reports whether a button is down right now; keeping the previous polled
//! value next to the current one lets a caller ask whether a button was just
//! pressed or just released.

use vstd::prelude::*;

verus! {

/// A two-slot history of each mouse button: `.0` is the state read at the
/// next-to-last poll and `.1` the state read at the last poll.
#[derive(Debug)]
pub struct MouseInfo {
    pub left_mouse_button_pressed: (bool, bool),
    pub right_mouse_button_pressed: (bool, bool),
}

impl MouseInfo {
    /// A fresh history: both buttons read as released, now and before.
    pub fn new() -> (info: Self)
        ensures
            info.left_mouse_button_pressed == (false, false),
            info.right_mouse_button_pressed == (false, false),
    {
        Self {
            left_mouse_button_pressed: (false, false),
            right_mouse_button_pressed: (false, false),
        }
    }

    /// Records one poll of both buttons at once.
    pub fn set_mouse_buttons_pressed(
        &mut self,
        left_mouse_button_pressed: bool,
        right_mouse_button_pressed: bool,
    )
        ensures
            final(self).left_mouse_button_pressed == (
                old(self).left_mouse_button_pressed.1,
                left_mouse_button_pressed,
            ),
            final(self).right_mouse_button_pressed == (
                old(self).right_mouse_button_pressed.1,
                right_mouse_button_pressed,
            ),
    {
        self.set_left_mouse_button_pressed(left_mouse_button_pressed);
        self.set_right_mouse_button_pressed(right_mouse_button_pressed);
    }

    /// Records one poll of the left button: the last value becomes the
    /// previous one.
    pub fn set_left_mouse_button_pressed(&mut self, value: bool)
        ensures
            final(self).left_mouse_button_pressed == (
                old(self).left_mouse_button_pressed.1,
                value,
            ),
            final(self).right_mouse_button_pressed == old(self).right_mouse_button_pressed,
    {
        self.left_mouse_button_pressed.0 = self.left_mouse_button_pressed.1;
        self.left_mouse_button_pressed.1 = value;
    }

    /// Records one poll of the right button: the last value becomes the
    /// previous one.
    pub fn set_right_mouse_button_pressed(&mut self, value: bool)
        ensures
            final(self).right_mouse_button_pressed == (
                old(self).right_mouse_button_pressed.1,
                value,
            ),
            final(self).left_mouse_button_pressed == old(self).left_mouse_button_pressed,
    {
        self.right_mouse_button_pressed.0 = self.right_mouse_button_pressed.1;
        self.right_mouse_button_pressed.1 = value;
    }

    /// Whether the left button was down at the last poll.
    pub fn left_mouse_button_currently_pressed(&self) -> (pressed: bool)
        ensures
            pressed == self.left_mouse_button_pressed.1,
    {
        self.left_mouse_button_pressed.1
    }

    /// Whether the right button was down at the last poll.
    pub fn right_mouse_button_currently_pressed(&self) -> (pressed: bool)
        ensures
            pressed == self.right_mouse_button_pressed.1,
    {
        self.right_mouse_button_pressed.1
    }

    /// Whether the left button went from released to pressed between the
    /// last two polls.
    pub fn left_mouse_button_just_pressed(&self) -> (pressed: bool)
        ensures
            pressed == (!self.left_mouse_button_pressed.0 && self.left_mouse_button_pressed.1),
    {
        !self.left_mouse_button_pressed.0 && self.left_mouse_button_pressed.1
    }

    /// Whether the right button went from released to pressed between the
    /// last two polls.
    pub fn right_mouse_button_just_pressed(&self) -> (pressed: bool)
        ensures
            pressed == (!self.right_mouse_button_pressed.0 && self.right_mouse_button_pressed.1),
    {
        !self.right_mouse_button_pressed.0 && self.right_mouse_button_pressed.1
    }

    /// Whether the left button went from pressed to released between the
    /// last two polls.
    pub fn left_mouse_button_just_released(&self) -> (released: bool)
        ensures
            released == (self.left_mouse_button_pressed.0 && !self.left_mouse_button_pressed.1),
    {
        self.left_mouse_button_pressed.0 && !self.left_mouse_button_pressed.1
    }

    /// Whether the right button went from pressed to released between the
    /// last two polls.
    pub fn right_mouse_button_just_released(&self) -> (released: bool)
        ensures
            released == (self.right_mouse_button_pressed.0 && !self.right_mouse_button_pressed.1),
    {
        self.right_mouse_button_pressed.0 && !self.right_mouse_button_pressed.1
    }
}

} // verus!
