use trssh::display::TextBlock;
use trssh::geometry::{Rect, Rgba};
use trssh::handlers::{AddLogLine, ButtonHandler, SSHConnect, TextboxMethod, ToggleRaytracer};
use trssh::id_map::IdMap;
use trssh::store::OnlyInteractable;
use trssh::user_interaction::{FrameInput, Invocation, UserInteractionManager};
use trssh::widgets::{Button, Shade, TextBox};

fn colour() -> Rgba {
    Rgba::new(9, 9, 9, 255)
}

fn button(x: i32, handler: ButtonHandler) -> OnlyInteractable {
    OnlyInteractable::Button(Button::new(
        x,
        0,
        100,
        50,
        colour(),
        colour(),
        colour(),
        handler,
        TextBlock::new(x, 0, colour(), "b".to_string(), 20),
    ))
}

fn text_box(x: i32, clears: bool, removes_focus: bool) -> OnlyInteractable {
    OnlyInteractable::TextBox(TextBox::new(
        x,
        100,
        100,
        50,
        colour(),
        colour(),
        colour(),
        String::new(),
        TextboxMethod::AddLogLine(AddLogLine),
        TextBlock::new(x, 100, colour(), String::new(), 20),
        false,
        clears,
        removes_focus,
    ))
}

fn input(x: i32, y: i32, mouse_down: bool, enter_down: bool) -> FrameInput {
    FrameInput { mouse_x: x, mouse_y: y, mouse_down, enter_down }
}

fn button_at(w: &IdMap<OnlyInteractable>, id: u32) -> &Button {
    match w.value_at(w.find(id).unwrap()) {
        OnlyInteractable::Button(b) => b,
        _ => panic!("not a button"),
    }
}

fn box_at(w: &IdMap<OnlyInteractable>, id: u32) -> &TextBox {
    match w.value_at(w.find(id).unwrap()) {
        OnlyInteractable::TextBox(t) => t,
        _ => panic!("not a text box"),
    }
}

fn clicked_id(inv: Option<Invocation>) -> Option<u32> {
    match inv {
        Some(Invocation::Click { id, .. }) => Some(id),
        Some(Invocation::Enter { id, .. }) => Some(id),
        None => None,
    }
}

#[test]
fn pointer_containment_includes_the_edges() {
    let mut m = UserInteractionManager::new();
    let r = Rect::new(10, 10, 5, 5);
    m.update(input(15, 15, false, false), &mut IdMap::new());
    assert!(m.check_intersection(r));
    m.update(input(16, 15, false, false), &mut IdMap::new());
    assert!(!m.check_intersection(r));
}

#[test]
fn only_the_lower_id_of_two_pressed_buttons_fires() {
    let mut w = IdMap::new();
    w.insert(7, button(0, ButtonHandler::SSHConnect(SSHConnect)));
    w.insert(3, button(50, ButtonHandler::ToggleRaytracer(ToggleRaytracer { target: 4 })));
    let mut m = UserInteractionManager::new();
    let inv = m.update(input(60, 10, true, false), &mut w);
    match inv {
        Some(Invocation::Click { id, button_handler }) => {
            assert_eq!(id, 3);
            assert_eq!(button_handler, ButtonHandler::ToggleRaytracer(ToggleRaytracer { target: 4 }));
        }
        _ => panic!("expected the click of button 3"),
    }
    assert_eq!(button_at(&w, 7).shade, Shade::Depressed);
    assert_eq!(button_at(&w, 3).shade, Shade::Depressed);
}

#[test]
fn held_button_fires_once() {
    let mut w = IdMap::new();
    w.insert(7, button(0, ButtonHandler::SSHConnect(SSHConnect)));
    let mut m = UserInteractionManager::new();
    assert_eq!(clicked_id(m.update(input(10, 10, true, false), &mut w)), Some(7));
    assert_eq!(clicked_id(m.update(input(10, 10, true, false), &mut w)), None);
    m.update(input(10, 10, false, false), &mut w);
    assert_eq!(button_at(&w, 7).shade, Shade::Hover);
    assert!(!button_at(&w, 7).get_pressed_down());
    assert_eq!(clicked_id(m.update(input(10, 10, true, false), &mut w)), Some(7));
}

#[test]
fn pointer_away_leaves_a_button_idle() {
    let mut w = IdMap::new();
    w.insert(7, button(0, ButtonHandler::SSHConnect(SSHConnect)));
    let mut m = UserInteractionManager::new();
    assert_eq!(clicked_id(m.update(input(500, 500, true, false), &mut w)), None);
    assert_eq!(button_at(&w, 7).shade, Shade::Idle);
}

#[test]
fn enter_on_a_focused_box_hands_over_its_text_once() {
    let mut w = IdMap::new();
    w.insert(8, text_box(0, true, false));
    let mut m = UserInteractionManager::new();
    m.update(input(10, 110, true, false), &mut w);
    assert!(box_at(&w, 8).get_pressed_down());
    m.update(input(10, 110, false, false), &mut w);
    match w.value_at_mut(0) {
        OnlyInteractable::TextBox(t) => t.force_set_text("ls".to_string()),
        _ => panic!("not a text box"),
    }
    let inv = m.update(input(10, 110, false, true), &mut w);
    match inv {
        Some(Invocation::Enter { id, text, .. }) => {
            assert_eq!(id, 8);
            assert_eq!(text, "ls");
        }
        _ => panic!("expected Enter on box 8"),
    }
    assert_eq!(box_at(&w, 8).get_text(), "");
    assert!(box_at(&w, 8).get_pressed_down());
    assert_eq!(clicked_id(m.update(input(10, 110, false, true), &mut w)), None);
}

#[test]
fn enter_can_drop_focus_and_keep_text() {
    let mut w = IdMap::new();
    w.insert(1, text_box(0, false, true));
    let mut m = UserInteractionManager::new();
    m.update(input(10, 110, true, false), &mut w);
    match w.value_at_mut(0) {
        OnlyInteractable::TextBox(t) => t.force_set_text("host".to_string()),
        _ => panic!("not a text box"),
    }
    assert_eq!(clicked_id(m.update(input(500, 500, false, true), &mut w)), Some(1));
    assert!(!box_at(&w, 1).get_pressed_down());
    assert_eq!(box_at(&w, 1).get_text(), "host");
}

#[test]
fn clicking_elsewhere_removes_focus() {
    let mut w = IdMap::new();
    w.insert(1, text_box(0, false, true));
    let mut m = UserInteractionManager::new();
    m.update(input(10, 110, true, false), &mut w);
    m.update(input(500, 500, true, false), &mut w);
    assert!(!box_at(&w, 1).get_pressed_down());
}

#[test]
fn only_one_focused_box_takes_an_enter() {
    let mut w = IdMap::new();
    w.insert(1, text_box(0, false, false));
    w.insert(2, text_box(200, false, false));
    for i in 0..2 {
        match w.value_at_mut(i) {
            OnlyInteractable::TextBox(t) => t.set_pressed_down(true),
            _ => panic!("not a text box"),
        }
    }
    let mut m = UserInteractionManager::new();
    assert_eq!(clicked_id(m.update(input(500, 500, false, true), &mut w)), Some(1));
}
