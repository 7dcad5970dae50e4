use vstd::prelude::*;

use crate::display::TextBlock;
use crate::geometry::{Rect, Rgba};
use crate::handlers::{ButtonHandler, TextboxMethod};
use crate::logger::WIDEST_CHARACTER_PIXEL_WIDTH;
use crate::text::{chars_of, is_allowed_char, mask_of_len, slice_chars, spec_is_allowed_char, spec_mask, string_of};

verus! {

/// Which of its colours a widget currently shows.
#[derive(Clone, Copy, Debug, PartialEq, Eq, Structural)]
pub enum Shade {
    Idle,
    Hover,
    Depressed,
}

/// A clickable rectangle with a caption and a click handler.
pub struct Button {
    pub rect: Rect,
    pub idle_colour: Rgba,
    pub hover_colour: Rgba,
    pub depressed_colour: Rgba,
    pub shade: Shade,
    pub pressed_down: bool,
    pub button_handler: ButtonHandler,
    pub text: TextBlock,
}

impl Button {
    pub fn new(
        x: i32,
        y: i32,
        w: i32,
        h: i32,
        idle: Rgba,
        hover: Rgba,
        depressed: Rgba,
        handler: ButtonHandler,
        text: TextBlock,
    ) -> (r: Button)
        ensures
            r == (Button {
                rect: Rect { x, y, w, h },
                idle_colour: idle,
                hover_colour: hover,
                depressed_colour: depressed,
                shade: Shade::Idle,
                pressed_down: false,
                button_handler: handler,
                text,
            }),
    {
        Button {
            rect: Rect { x, y, w, h },
            idle_colour: idle,
            hover_colour: hover,
            depressed_colour: depressed,
            shade: Shade::Idle,
            pressed_down: false,
            button_handler: handler,
            text,
        }
    }

    pub fn get_intersection_values(&self) -> (r: Rect)
        ensures
            r == self.rect,
    {
        self.rect
    }

    pub fn set_pressed_down(&mut self, b: bool)
        ensures
            *final(self) == (Button { pressed_down: b, ..*old(self) }),
    {
        self.pressed_down = b;
    }

    pub fn get_pressed_down(&self) -> (r: bool)
        ensures
            r == self.pressed_down,
    {
        self.pressed_down
    }

    pub fn set_idle(&mut self)
        ensures
            *final(self) == (Button { shade: Shade::Idle, ..*old(self) }),
    {
        self.shade = Shade::Idle;
    }

    pub fn set_hover(&mut self)
        ensures
            *final(self) == (Button { shade: Shade::Hover, ..*old(self) }),
    {
        self.shade = Shade::Hover;
    }

    pub fn set_depressed(&mut self)
        ensures
            *final(self) == (Button { shade: Shade::Depressed, ..*old(self) }),
    {
        self.shade = Shade::Depressed;
    }

    /// The colour of the current shade.
    pub fn active_colour(&self) -> (c: Rgba)
        ensures
            c == match self.shade {
                Shade::Idle => self.idle_colour,
                Shade::Hover => self.hover_colour,
                Shade::Depressed => self.depressed_colour,
            },
    {
        match self.shade {
            Shade::Idle => self.idle_colour,
            Shade::Hover => self.hover_colour,
            Shade::Depressed => self.depressed_colour,
        }
    }
}

/// The keyboard as a focused text box sees it in one frame.
#[derive(Clone, Copy, Debug, PartialEq, Eq, Structural)]
pub struct KeyInput {
    /// The one character taken from the keyboard queue this frame.
    pub pressed_char: Option<char>,
    pub backspace_down: bool,
}

/// How many characters fit between pixel column `from` and the right edge
/// `right` of a box, one glyph width kept free.
pub open spec fn spec_fit_chars(right: int, from: int) -> int {
    let room = right - from - WIDEST_CHARACTER_PIXEL_WIDTH;
    if room <= 0 {
        0
    } else {
        room / WIDEST_CHARACTER_PIXEL_WIDTH as int
    }
}

/// A one-line text input: it takes focus when clicked, accepts typed
/// characters while focused, and hands its text to a handler on Enter.
pub struct TextBox {
    pub rect: Rect,
    pub idle_colour: Rgba,
    pub hover_colour: Rgba,
    pub depressed_colour: Rgba,
    pub shade: Shade,
    pub default_text: String,
    pub pressed_down: bool,
    pub on_enter: TextboxMethod,
    pub text_container: TextBlock,
    pub password_mode: bool,
    /// The character accepted on the previous frame, `'\0'` if none.
    pub previous_char: char,
    pub delete_failsafe: bool,
    pub first_frame_failsafe: bool,
    pub enter_clears_text: bool,
    pub enter_removes_focus: bool,
}

impl TextBox {
    pub fn new(
        x: i32,
        y: i32,
        w: i32,
        h: i32,
        idle: Rgba,
        hover: Rgba,
        depressed: Rgba,
        default: String,
        on_enter: TextboxMethod,
        text_block: TextBlock,
        pm: bool,
        ect: bool,
        erf: bool,
    ) -> (r: TextBox)
        ensures
            r == (TextBox {
                rect: Rect { x, y, w, h },
                idle_colour: idle,
                hover_colour: hover,
                depressed_colour: depressed,
                shade: Shade::Idle,
                default_text: default,
                pressed_down: false,
                on_enter,
                text_container: text_block,
                password_mode: pm,
                previous_char: '\0',
                delete_failsafe: false,
                first_frame_failsafe: false,
                enter_clears_text: ect,
                enter_removes_focus: erf,
            }),
    {
        TextBox {
            rect: Rect { x, y, w, h },
            idle_colour: idle,
            hover_colour: hover,
            depressed_colour: depressed,
            shade: Shade::Idle,
            default_text: default,
            pressed_down: false,
            on_enter,
            text_container: text_block,
            password_mode: pm,
            previous_char: '\0',
            delete_failsafe: false,
            first_frame_failsafe: false,
            enter_clears_text: ect,
            enter_removes_focus: erf,
        }
    }

    /// The box's text.
    pub open spec fn text(&self) -> Seq<char> {
        self.text_container.text@
    }

    /// `self` is `other` with, at most, another text.
    pub open spec fn same_but_text(&self, other: TextBox) -> bool {
        &&& self.text_container.x == other.text_container.x
        &&& self.text_container.y == other.text_container.y
        &&& self.text_container.colour == other.text_container.colour
        &&& self.text_container.font_size == other.text_container.font_size
        &&& self.text_container.password_mode == other.text_container.password_mode
        &&& self.rect == other.rect
        &&& self.idle_colour == other.idle_colour
        &&& self.hover_colour == other.hover_colour
        &&& self.depressed_colour == other.depressed_colour
        &&& self.shade == other.shade
        &&& self.default_text == other.default_text
        &&& self.pressed_down == other.pressed_down
        &&& self.on_enter == other.on_enter
        &&& self.password_mode == other.password_mode
        &&& self.previous_char == other.previous_char
        &&& self.delete_failsafe == other.delete_failsafe
        &&& self.first_frame_failsafe == other.first_frame_failsafe
        &&& self.enter_clears_text == other.enter_clears_text
        &&& self.enter_removes_focus == other.enter_removes_focus
    }

    /// Carries the box's password mode over to the block that draws its text.
    pub fn init(&mut self)
        ensures
            *final(self) == (TextBox {
                text_container: TextBlock {
                    password_mode: old(self).password_mode,
                    ..old(self).text_container
                },
                ..*old(self)
            }),
    {
        let pm = self.password_mode;
        self.text_container.set_password_mode(pm);
    }

    pub fn get_intersection_values(&self) -> (r: Rect)
        ensures
            r == self.rect,
    {
        self.rect
    }

    pub fn set_idle(&mut self)
        ensures
            *final(self) == (TextBox { shade: Shade::Idle, ..*old(self) }),
    {
        self.shade = Shade::Idle;
    }

    pub fn set_hover(&mut self)
        ensures
            *final(self) == (TextBox { shade: Shade::Hover, ..*old(self) }),
    {
        self.shade = Shade::Hover;
    }

    pub fn set_depressed(&mut self)
        ensures
            *final(self) == (TextBox { shade: Shade::Depressed, ..*old(self) }),
    {
        self.shade = Shade::Depressed;
    }

    pub fn set_pressed_down(&mut self, b: bool)
        ensures
            *final(self) == (TextBox { pressed_down: b, ..*old(self) }),
    {
        self.pressed_down = b;
    }

    pub fn get_pressed_down(&self) -> (r: bool)
        ensures
            r == self.pressed_down,
    {
        self.pressed_down
    }

    pub fn active_colour(&self) -> (c: Rgba)
        ensures
            c == match self.shade {
                Shade::Idle => self.idle_colour,
                Shade::Hover => self.hover_colour,
                Shade::Depressed => self.depressed_colour,
            },
    {
        match self.shade {
            Shade::Idle => self.idle_colour,
            Shade::Hover => self.hover_colour,
            Shade::Depressed => self.depressed_colour,
        }
    }

    /// Empties the text whatever the box's settings.
    pub fn force_clear_text(&mut self)
        ensures
            final(self).same_but_text(*old(self)),
            final(self).text() == Seq::<char>::empty(),
    {
        self.text_container.set_text(String::new());
    }

    /// Empties the text if Enter is meant to clear it.
    pub fn clear_text(&mut self)
        ensures
            final(self).same_but_text(*old(self)),
            final(self).text() == if old(self).enter_clears_text {
                Seq::<char>::empty()
            } else {
                old(self).text()
            },
    {
        if self.enter_clears_text {
            self.text_container.set_text(String::new());
        }
    }

    pub fn get_text(&self) -> (r: String)
        ensures
            r@ == self.text(),
    {
        self.text_container.get_text()
    }

    pub fn does_enter_remove_focus(&self) -> (r: bool)
        ensures
            r == self.enter_removes_focus,
    {
        self.enter_removes_focus
    }

    pub fn force_set_text(&mut self, text: String)
        ensures
            final(self).same_but_text(*old(self)),
            final(self).text() == text@,
    {
        self.text_container.set_text(text);
    }

    /// Whether this frame's keyboard character should be taken for this box.
    pub fn wants_key_input(&self) -> (r: bool)
        ensures
            r == (self.pressed_down && !self.first_frame_failsafe),
    {
        self.pressed_down && !self.first_frame_failsafe
    }

    /// One frame of editing. While focused, an allowed character that differs
    /// from the one accepted on the previous frame is appended; with no
    /// character, a newly pressed Backspace removes the last one. The first
    /// focused frame takes no input: the result says that whatever the
    /// keyboard queued must be thrown away. Without focus the box forgets
    /// its previous character and arms the first-frame guard.
    pub fn update(&mut self, input: KeyInput) -> (discard_queue: bool)
        ensures
            discard_queue == (old(self).pressed_down && old(self).first_frame_failsafe),
            final(self).rect == old(self).rect,
            final(self).shade == old(self).shade,
            final(self).pressed_down == old(self).pressed_down,
            final(self).on_enter == old(self).on_enter,
            final(self).default_text == old(self).default_text,
            final(self).password_mode == old(self).password_mode,
            final(self).enter_clears_text == old(self).enter_clears_text,
            final(self).enter_removes_focus == old(self).enter_removes_focus,
            final(self).text_container.x == old(self).text_container.x,
            final(self).text_container.y == old(self).text_container.y,
            !old(self).pressed_down ==> {
                &&& final(self).text() == old(self).text()
                &&& final(self).previous_char == '\0'
                &&& final(self).first_frame_failsafe
                &&& final(self).delete_failsafe == old(self).delete_failsafe
            },
            old(self).pressed_down && old(self).first_frame_failsafe ==> {
                &&& final(self).text() == old(self).text()
                &&& final(self).previous_char == old(self).previous_char
                &&& !final(self).first_frame_failsafe
                &&& final(self).delete_failsafe == old(self).delete_failsafe
            },
            old(self).pressed_down && !old(self).first_frame_failsafe ==> {
                &&& !final(self).first_frame_failsafe
                &&& match input.pressed_char {
                    Some(c) => {
                        &&& final(self).delete_failsafe == old(self).delete_failsafe
                        &&& if spec_is_allowed_char(c) && c != old(self).previous_char {
                            final(self).text() == old(self).text().push(c)
                                && final(self).previous_char == c
                        } else {
                            final(self).text() == old(self).text() && final(self).previous_char
                                == '\0'
                        }
                    },
                    None => {
                        &&& final(self).previous_char == '\0'
                        &&& final(self).delete_failsafe == input.backspace_down
                        &&& final(self).text() == if input.backspace_down
                            && !old(self).delete_failsafe && old(self).text().len() > 0 {
                            old(self).text().drop_last()
                        } else {
                            old(self).text()
                        }
                    },
                }
            },
    {
        if self.pressed_down {
            if !self.first_frame_failsafe {
                match input.pressed_char {
                    Some(c) => {
                        if is_allowed_char(c) && c != self.previous_char {
                            let mut cs = chars_of(self.text_container.text.as_str());
                            cs.push(c);
                            let s = string_of(&cs);
                            self.text_container.set_text(s);
                            self.previous_char = c;
                        } else {
                            self.previous_char = '\0';
                        }
                    },
                    None => {
                        self.previous_char = '\0';
                        if input.backspace_down {
                            if !self.delete_failsafe {
                                self.delete_failsafe = true;
                                let cs = chars_of(self.text_container.text.as_str());
                                if cs.len() > 0 {
                                    let kept = slice_chars(&cs, 0, cs.len() - 1);
                                    let s = string_of(&kept);
                                    self.text_container.set_text(s);
                                }
                            }
                        } else {
                            self.delete_failsafe = false;
                        }
                    },
                }
                false
            } else {
                self.first_frame_failsafe = false;
                true
            }
        } else {
            self.previous_char = '\0';
            self.first_frame_failsafe = true;
            false
        }
    }

    /// How many characters of text fit to the right of where the text starts.
    pub open spec fn fit_chars(&self) -> int {
        spec_fit_chars(self.rect.x + self.rect.w, self.text_container.x as int)
    }

    /// What the box shows: the placeholder while empty, else the trailing
    /// characters that fit; in password mode every shown character is masked.
    pub open spec fn spec_display(&self) -> Seq<char> {
        let t = self.text();
        let shown = if t.len() == 0 {
            self.default_text@
        } else if t.len() <= self.fit_chars() {
            t
        } else {
            t.skip(t.len() - self.fit_chars())
        };
        if self.password_mode {
            spec_mask(shown)
        } else {
            shown
        }
    }

    pub fn display_text(&self) -> (r: String)
        ensures
            r@ == self.spec_display(),
    {
        let cs = chars_of(self.text_container.text.as_str());
        let shown: Vec<char> = if cs.len() == 0 {
            chars_of(self.default_text.as_str())
        } else {
            let right: i64 = self.rect.x as i64 + self.rect.w as i64;
            let room: i64 = right - self.text_container.x as i64 - WIDEST_CHARACTER_PIXEL_WIDTH as i64;
            let fit: i64 = if room <= 0 {
                0
            } else {
                room / WIDEST_CHARACTER_PIXEL_WIDTH as i64
            };
            assert(fit == self.fit_chars());
            assert(0 <= fit <= i32::MAX);
            let f: usize = fit as usize;
            if cs.len() <= f {
                cs
            } else {
                let n: usize = cs.len();
                slice_chars(&cs, n - f, n)
            }
        };
        proof {
            let t = self.text();
            if t.len() > 0 && t.len() > self.fit_chars() {
                assert(t.skip(t.len() - self.fit_chars()) =~= t.subrange(
                    t.len() - self.fit_chars(),
                    t.len() as int,
                ));
            }
        }
        if self.password_mode {
            let r = mask_of_len(shown.len());
            assert(r@ =~= spec_mask(shown@));
            r
        } else {
            string_of(&shown)
        }
    }
}

} // verus!
