use vstd::prelude::*;

use crate::geometry::{Rect, Rgba};
use crate::text::{mask_of_len, spec_mask};

verus! {

/// A line of text drawn at a point; in password mode it is drawn masked.
pub struct TextBlock {
    pub x: i32,
    pub y: i32,
    pub colour: Rgba,
    pub text: String,
    pub font_size: i32,
    pub password_mode: bool,
}

impl Clone for TextBlock {
    fn clone(&self) -> (r: Self)
        ensures
            r == *self,
    {
        TextBlock {
            x: self.x,
            y: self.y,
            colour: self.colour,
            text: self.text.clone(),
            font_size: self.font_size,
            password_mode: self.password_mode,
        }
    }
}

impl TextBlock {
    pub fn new(x: i32, y: i32, colour: Rgba, text: String, font_size: i32) -> (r: TextBlock)
        ensures
            r == (TextBlock { x, y, colour, text, font_size, password_mode: false }),
    {
        TextBlock { x, y, colour, text, font_size, password_mode: false }
    }

    pub fn set_text(&mut self, new_text: String)
        ensures
            *final(self) == (TextBlock { text: new_text, ..*old(self) }),
    {
        self.text = new_text;
    }

    pub fn get_text(&self) -> (r: String)
        ensures
            r == self.text,
    {
        self.text.clone()
    }

    pub fn get_pos(&self) -> (r: (i32, i32))
        ensures
            r == (self.x, self.y),
    {
        (self.x, self.y)
    }

    pub fn set_password_mode(&mut self, inp: bool)
        ensures
            *final(self) == (TextBlock { password_mode: inp, ..*old(self) }),
    {
        self.password_mode = inp;
    }

    /// What drawing the block shows: its text, or as many mask characters in
    /// password mode.
    pub fn rendered(&self) -> (r: String)
        ensures
            r@ == if self.password_mode {
                spec_mask(self.text@)
            } else {
                self.text@
            },
    {
        if self.password_mode {
            let n = self.text.as_str().unicode_len();
            let r = mask_of_len(n);
            assert(r@ =~= spec_mask(self.text@));
            r
        } else {
            self.text.clone()
        }
    }

    /// What is shown in place of the block's own text: `default_string`,
    /// masked in password mode unless `default_override` is set.
    pub fn empty_update(&self, default_string: &str, default_override: bool) -> (r: String)
        ensures
            r@ == if !self.password_mode || default_override {
                default_string@
            } else {
                spec_mask(default_string@)
            },
    {
        if !self.password_mode || default_override {
            default_string.to_string()
        } else {
            let n = default_string.unicode_len();
            let r = mask_of_len(n);
            assert(r@ =~= spec_mask(default_string@));
            r
        }
    }
}

/// A filled rectangle.
#[derive(Clone, Copy, Debug, PartialEq, Eq, Structural)]
pub struct ScreenDecoration {
    pub rect: Rect,
    pub colour: Rgba,
}

impl ScreenDecoration {
    pub fn new(x: i32, y: i32, w: i32, h: i32, colour: Rgba) -> (r: ScreenDecoration)
        ensures
            r == (ScreenDecoration { rect: Rect { x, y, w, h }, colour }),
    {
        ScreenDecoration { rect: Rect { x, y, w, h }, colour }
    }
}

/// A panel that, while rendering is switched on, is filled with noise.
#[derive(Clone, Copy, Debug, PartialEq, Eq, Structural)]
pub struct RaytracerWindow {
    pub rect: Rect,
    pub colour: Rgba,
    pub render: bool,
}

impl RaytracerWindow {
    pub fn new(x: i32, y: i32, w: i32, h: i32, colour: Rgba) -> (r: RaytracerWindow)
        ensures
            r == (RaytracerWindow { rect: Rect { x, y, w, h }, colour, render: false }),
    {
        RaytracerWindow { rect: Rect { x, y, w, h }, colour, render: false }
    }

    pub fn change_render_status(&mut self)
        ensures
            *final(self) == (RaytracerWindow { render: !old(self).render, ..*old(self) }),
    {
        self.render = !self.render;
    }

    pub fn get_render_status(&self) -> (r: bool)
        ensures
            r == self.render,
    {
        self.render
    }
}

} // verus!
