use trssh::display::TextBlock;
use trssh::geometry::Rgba;
use trssh::handlers::{DoNothing, TextboxMethod};
use trssh::widgets::{KeyInput, TextBox};

fn colour() -> Rgba {
    Rgba::new(1, 2, 3, 255)
}

fn text_box(password: bool) -> TextBox {
    let mut t = TextBox::new(
        25,
        25,
        300,
        50,
        colour(),
        colour(),
        colour(),
        "Enter Hostname".to_string(),
        TextboxMethod::DoNothing(DoNothing),
        TextBlock::new(35, 55, colour(), String::new(), 20),
        password,
        false,
        true,
    );
    t.init();
    // an unfocused frame arms the first-frame guard
    assert!(!t.update(KeyInput { pressed_char: None, backspace_down: false }));
    t
}

fn typed(c: char) -> KeyInput {
    KeyInput { pressed_char: Some(c), backspace_down: false }
}

fn idle() -> KeyInput {
    KeyInput { pressed_char: None, backspace_down: false }
}

fn focused(password: bool) -> TextBox {
    let mut t = text_box(password);
    t.set_pressed_down(true);
    assert!(t.update(idle()));
    t
}

#[test]
fn first_focused_frame_discards_queued_input() {
    let mut t = text_box(false);
    assert!(!t.wants_key_input());
    t.set_pressed_down(true);
    assert!(t.update(typed('a')));
    assert_eq!(t.get_text(), "");
    assert!(t.wants_key_input());
}

#[test]
fn allowed_characters_are_appended() {
    let mut t = focused(false);
    assert!(!t.update(typed('a')));
    assert!(!t.update(typed('B')));
    assert!(!t.update(typed('/')));
    assert_eq!(t.get_text(), "aB/");
}

#[test]
fn repeated_character_on_next_frame_is_ignored() {
    let mut t = focused(false);
    t.update(typed('a'));
    t.update(typed('a'));
    assert_eq!(t.get_text(), "a");
    t.update(typed('a'));
    assert_eq!(t.get_text(), "aa");
}

#[test]
fn backquote_and_control_characters_are_rejected() {
    let mut t = focused(false);
    t.update(typed('`'));
    t.update(typed('\n'));
    t.update(typed('é'));
    assert_eq!(t.get_text(), "");
}

#[test]
fn backspace_removes_one_character_per_press() {
    let mut t = focused(false);
    t.update(typed('a'));
    t.update(typed('b'));
    let held = KeyInput { pressed_char: None, backspace_down: true };
    t.update(held);
    t.update(held);
    assert_eq!(t.get_text(), "a");
    t.update(idle());
    t.update(held);
    assert_eq!(t.get_text(), "");
    t.update(idle());
    t.update(held);
    assert_eq!(t.get_text(), "");
}

#[test]
fn unfocused_box_takes_no_input() {
    let mut t = text_box(false);
    assert!(!t.update(typed('a')));
    assert_eq!(t.get_text(), "");
}

#[test]
fn empty_box_shows_its_placeholder() {
    let t = text_box(false);
    assert_eq!(t.display_text(), "Enter Hostname");
}

#[test]
fn password_box_masks_text_and_placeholder() {
    let mut t = text_box(true);
    assert_eq!(t.display_text(), "*".repeat(14));
    t.force_set_text("secret".to_string());
    assert_eq!(t.display_text(), "******");
}

#[test]
fn long_text_shows_its_trailing_part() {
    // (25 + 300 - 35 - 9) / 9 = 31 characters fit
    let mut t = text_box(false);
    let long: String = ('a'..='z').chain('A'..='N').collect();
    assert_eq!(long.len(), 40);
    t.force_set_text(long.clone());
    assert_eq!(t.display_text(), long[9..].to_string());
}

#[test]
fn clear_text_follows_the_setting() {
    let mut t = text_box(false);
    t.force_set_text("abc".to_string());
    t.clear_text();
    assert_eq!(t.get_text(), "abc");
    t.force_clear_text();
    assert_eq!(t.get_text(), "");
}

#[test]
fn masked_text_block_renders_stars() {
    let mut b = TextBlock::new(0, 0, colour(), "abc".to_string(), 20);
    assert_eq!(b.rendered(), "abc");
    b.set_password_mode(true);
    assert_eq!(b.rendered(), "***");
    assert_eq!(b.empty_update("xy", false), "**");
    assert_eq!(b.empty_update("xy", true), "xy");
}
