use vstd::prelude::*;

use crate::geometry::{spec_contains, Rect};
use crate::handlers::{ButtonHandler, TextboxMethod};
use crate::id_map::IdMap;
use crate::store::OnlyInteractable;
use crate::widgets::{Button, Shade, TextBox};

verus! {

/// The pointer and keyboard as polled once per frame.
#[derive(Clone, Copy, Debug, PartialEq, Eq, Structural)]
pub struct FrameInput {
    pub mouse_x: i32,
    pub mouse_y: i32,
    pub mouse_down: bool,
    pub enter_down: bool,
}

/// The one handler a frame invokes.
pub enum Invocation {
    Click { id: u32, button_handler: ButtonHandler },
    Enter { id: u32, on_enter: TextboxMethod, text: String },
}

/// Whether `inv` invokes the handler of the widget entry `e`, with the text
/// a text box held.
pub open spec fn invokes(inv: Invocation, e: (u32, OnlyInteractable)) -> bool {
    match inv {
        Invocation::Click { id, button_handler } => {
            &&& id == e.0
            &&& e.1 is Button
            &&& button_handler == e.1->Button_0.button_handler
        },
        Invocation::Enter { id, on_enter, text } => {
            &&& id == e.0
            &&& e.1 is TextBox
            &&& on_enter == e.1->TextBox_0.on_enter
            &&& text@ == e.1->TextBox_0.text()
        },
    }
}

/// The shade a widget shows for the pointer.
pub open spec fn shade_for(inside: bool, mouse_down: bool) -> Shade {
    if !inside {
        Shade::Idle
    } else if mouse_down {
        Shade::Depressed
    } else {
        Shade::Hover
    }
}

/// A button's press latch after the frame.
pub open spec fn button_latch(b: Button, inside: bool, mouse_down: bool) -> bool {
    if inside {
        mouse_down
    } else {
        mouse_down && b.pressed_down
    }
}

/// A text box's focus after the pointer moved, before any Enter.
pub open spec fn box_focus(t: TextBox, inside: bool, mouse_down: bool) -> bool {
    if mouse_down {
        inside
    } else {
        t.pressed_down
    }
}

/// Whether a widget's handler is due this frame: a button newly pressed
/// under the pointer, or a focused text box on a fresh Enter with the
/// pointer button up.
pub open spec fn spec_fires(
    w: OnlyInteractable,
    inside: bool,
    input: FrameInput,
    enter_edge: bool,
) -> bool {
    match w {
        OnlyInteractable::Button(b) => inside && input.mouse_down && !b.pressed_down,
        OnlyInteractable::TextBox(t) => t.pressed_down && enter_edge && !input.mouse_down,
    }
}

/// `b` is widget `a` after a frame; `fired` says whether its handler was
/// the one invoked.
pub open spec fn stepped(
    a: OnlyInteractable,
    b: OnlyInteractable,
    inside: bool,
    input: FrameInput,
    fired: bool,
) -> bool {
    match a {
        OnlyInteractable::Button(x) => b == OnlyInteractable::Button(
            Button {
                shade: shade_for(inside, input.mouse_down),
                pressed_down: button_latch(x, inside, input.mouse_down),
                ..x
            },
        ),
        OnlyInteractable::TextBox(x) => {
            let moved = TextBox {
                shade: shade_for(inside, input.mouse_down),
                pressed_down: box_focus(x, inside, input.mouse_down),
                ..x
            };
            if fired {
                b matches OnlyInteractable::TextBox(y) && y.same_but_text(
                    TextBox { pressed_down: moved.pressed_down && !x.enter_removes_focus, ..moved },
                ) && y.text() == if x.enter_clears_text {
                    Seq::<char>::empty()
                } else {
                    x.text()
                }
            } else {
                b == OnlyInteractable::TextBox(moved)
            }
        },
    }
}

/// Tracks the pointer and turns each frame's input into widget state
/// changes and at most one handler invocation.
pub struct UserInteractionManager {
    pub mouse_position: (i32, i32),
    /// Whether Enter was down on the previous frame.
    pub enter_was_down: bool,
}

/// The rectangle of a widget.
pub open spec fn rect_of(w: OnlyInteractable) -> Rect {
    match w {
        OnlyInteractable::Button(b) => b.rect,
        OnlyInteractable::TextBox(t) => t.rect,
    }
}

/// Whether the pointer of `input` lies on widget `w`.
pub open spec fn pointer_on(w: OnlyInteractable, input: FrameInput) -> bool {
    spec_contains(rect_of(w), input.mouse_x as int, input.mouse_y as int)
}

/// Whether the widget at position `j` is due to fire.
pub open spec fn fires_at(
    s: Seq<(u32, OnlyInteractable)>,
    j: int,
    input: FrameInput,
    enter_edge: bool,
) -> bool {
    spec_fires(s[j].1, pointer_on(s[j].1, input), input, enter_edge)
}

/// Whether any widget before position `k` is due to fire.
pub open spec fn fired_before(
    s: Seq<(u32, OnlyInteractable)>,
    k: int,
    input: FrameInput,
    enter_edge: bool,
) -> bool {
    exists|j: int| 0 <= j < k && #[trigger] fires_at(s, j, input, enter_edge)
}

fn step_button(
    b: &mut Button,
    id: u32,
    input: FrameInput,
    may_fire: bool,
) -> (fired: Option<Invocation>)
    ensures
        ({
            let inside = spec_contains(old(b).rect, input.mouse_x as int, input.mouse_y as int);
            &&& *final(b) == (Button {
                shade: shade_for(inside, input.mouse_down),
                pressed_down: button_latch(*old(b), inside, input.mouse_down),
                ..*old(b)
            })
            &&& fired is Some <==> may_fire && inside && input.mouse_down && !old(b).pressed_down
            &&& fired matches Some(inv) ==> invokes(inv, (id, OnlyInteractable::Button(*old(b))))
        }),
{
    let mut fired: Option<Invocation> = None;
    let inside = b.rect.contains(input.mouse_x, input.mouse_y);
    b.set_idle();
    if !input.mouse_down {
        b.set_pressed_down(false);
    }
    if inside {
        if input.mouse_down {
            b.set_depressed();
            if !b.get_pressed_down() {
                if may_fire {
                    fired = Some(Invocation::Click { id, button_handler: b.button_handler });
                }
                b.set_pressed_down(true);
            }
        } else {
            b.set_hover();
            b.set_pressed_down(false);
        }
    }
    fired
}

fn step_textbox(
    t: &mut TextBox,
    id: u32,
    input: FrameInput,
    edge: bool,
    may_fire: bool,
) -> (fired: Option<Invocation>)
    ensures
        ({
            let inside = spec_contains(old(t).rect, input.mouse_x as int, input.mouse_y as int);
            let fire = may_fire && old(t).pressed_down && edge && !input.mouse_down;
            &&& stepped(OnlyInteractable::TextBox(*old(t)), OnlyInteractable::TextBox(*final(t)), inside, input, fire)
            &&& fired is Some <==> fire
            &&& fired matches Some(inv) ==> invokes(inv, (id, OnlyInteractable::TextBox(*old(t))))
        }),
{
    let mut fired: Option<Invocation> = None;
    let inside = t.rect.contains(input.mouse_x, input.mouse_y);
    t.set_idle();
    if inside {
        if input.mouse_down {
            t.set_depressed();
            t.set_pressed_down(true);
        } else {
            t.set_hover();
        }
    } else if input.mouse_down {
        t.set_pressed_down(false);
    }
    if may_fire && t.get_pressed_down() && edge && !input.mouse_down {
        if t.does_enter_remove_focus() {
            t.set_pressed_down(false);
        }
        let text = t.get_text();
        fired = Some(Invocation::Enter { id, on_enter: t.on_enter, text });
        t.clear_text();
    }
    fired
}

/// `b` is the widget table `a` after a frame: ids kept, every widget
/// stepped, and only the first widget due to fire fired.
pub open spec fn frame_stepped(
    a: Seq<(u32, OnlyInteractable)>,
    b: Seq<(u32, OnlyInteractable)>,
    input: FrameInput,
    edge: bool,
) -> bool {
    &&& b.len() == a.len()
    &&& forall|k: int|
        0 <= k < a.len() ==> {
            &&& (#[trigger] b[k]).0 == a[k].0
            &&& stepped(
                a[k].1,
                b[k].1,
                pointer_on(a[k].1, input),
                input,
                fires_at(a, k, input, edge) && !fired_before(a, k, input, edge),
            )
        }
}

/// `inv` invokes the first widget of `a` that is due to fire.
pub open spec fn first_firing(
    a: Seq<(u32, OnlyInteractable)>,
    inv: Invocation,
    input: FrameInput,
    edge: bool,
) -> bool {
    exists|k: int|
        0 <= k < a.len() && #[trigger] fires_at(a, k, input, edge) && !fired_before(a, k, input, edge)
            && invokes(inv, a[k])
}

/// One widget's share of a frame; `may_fire` is false once another widget's
/// handler was chosen.
fn step_widget(
    w: &mut OnlyInteractable,
    id: u32,
    input: FrameInput,
    edge: bool,
    may_fire: bool,
) -> (fired: Option<Invocation>)
    ensures
        stepped(*old(w), *final(w), pointer_on(*old(w), input), input,
            may_fire && spec_fires(*old(w), pointer_on(*old(w), input), input, edge)),
        fired is Some <==> may_fire && spec_fires(*old(w), pointer_on(*old(w), input), input, edge),
        fired matches Some(inv) ==> invokes(inv, (id, *old(w))),
{
    match w {
        OnlyInteractable::Button(b) => step_button(b, id, input, may_fire),
        OnlyInteractable::TextBox(t) => step_textbox(t, id, input, edge, may_fire),
    }
}

impl UserInteractionManager {
    pub fn new() -> (r: UserInteractionManager)
        ensures
            r == (UserInteractionManager { mouse_position: (0, 0), enter_was_down: false }),
    {
        UserInteractionManager { mouse_position: (0, 0), enter_was_down: false }
    }

    /// Whether the recorded pointer position lies in `r`.
    pub fn check_intersection(&self, r: Rect) -> (b: bool)
        ensures
            b == spec_contains(r, self.mouse_position.0 as int, self.mouse_position.1 as int),
    {
        r.contains(self.mouse_position.0, self.mouse_position.1)
    }

    /// One frame of interaction. Widgets are visited in ascending id order;
    /// each shows its shade and updates its press latch or focus. Of the
    /// widgets whose handler is due, only the first is invoked: a text box
    /// invoked on Enter drops its focus and its text as configured, and the
    /// invocation carries the text it held.
    pub fn update(&mut self, input: FrameInput, widgets: &mut IdMap<OnlyInteractable>) -> (r:
        Option<Invocation>)
        requires
            old(widgets).wf(),
        ensures
            final(self).mouse_position == (input.mouse_x, input.mouse_y),
            final(self).enter_was_down == input.enter_down,
            final(widgets).wf(),
            final(widgets)@.len() == old(widgets)@.len(),
            frame_stepped(
                old(widgets)@,
                final(widgets)@,
                input,
                input.enter_down && !old(self).enter_was_down,
            ),
            r is None <==> !fired_before(old(widgets)@, old(widgets)@.len() as int, input, input.enter_down && !old(self).enter_was_down),
            r matches Some(inv) ==> first_firing(old(widgets)@, inv, input, input.enter_down && !old(self).enter_was_down),
    {
        self.mouse_position = (input.mouse_x, input.mouse_y);
        let edge: bool = input.enter_down && !self.enter_was_down;
        self.enter_was_down = input.enter_down;
        let ghost a = widgets@;
        let mut result: Option<Invocation> = None;
        let n: usize = widgets.len();
        let mut i: usize = 0;
        while i < n
            invariant
                n == a.len(),
                0 <= i <= n,
                widgets.wf(),
                widgets@.len() == a.len(),
                self.mouse_position == (input.mouse_x, input.mouse_y),
                forall|k: int| i <= k < n ==> #[trigger] widgets@[k] == a[k],
                forall|k: int|
                    0 <= k < i ==> {
                        let inside = pointer_on(a[k].1, input);
                        &&& (#[trigger] widgets@[k]).0 == a[k].0
                        &&& stepped(
                            a[k].1,
                            widgets@[k].1,
                            inside,
                            input,
                            fires_at(a, k, input, edge) && !fired_before(
                                a,
                                k,
                                input,
                                edge,
                            ),
                        )
                    },
                result is None <==> !fired_before(a, i as int, input, edge),
                result matches Some(inv) ==> exists|k: int|
                    0 <= k < i && #[trigger] fires_at(a, k, input, edge) && !fired_before(a, k, input, edge) && invokes(inv, a[k]),
            decreases n - i,
        {
            let ghost before = widgets@;
            let id = widgets.id_at(i);
            let may_fire: bool = result.is_none();
            let w = widgets.value_at_mut(i);
            let fired = step_widget(w, id, input, edge, may_fire);
            proof {
                assert(widgets@ == before.update(i as int, (before[i as int].0, widgets@[i as int].1)));
                crate::id_map::lemma_update_keeps_positions(before, i as int, widgets@[i as int].1, 0);
                if fires_at(a, i as int, input, edge) {
                    assert(fired_before(a, i + 1, input, edge));
                }
                if fired_before(a, i + 1, input, edge) && !fires_at(a, i as int, input, edge) {
                    let j = choose|j: int| 0 <= j < i + 1 && #[trigger] fires_at(a, j, input, edge);
                    assert(fired_before(a, i as int, input, edge));
                }
            }
            if fired.is_some() {
                result = fired;
            }
            i = i + 1;
        }
        result
    }
}

/// The id of the widget an invocation belongs to.
pub open spec fn invocation_id(inv: Invocation) -> u32 {
    match inv {
        Invocation::Click { id, .. } => id,
        Invocation::Enter { id, .. } => id,
    }
}

/// When two widgets are due to fire in the same frame, the higher-id one
/// is not invoked, yet its visual state is still updated as for a widget
/// that did not fire; the lower one is invoked unless a still lower one was.
pub proof fn lemma_lower_id_wins(
    a: Seq<(u32, OnlyInteractable)>,
    b: Seq<(u32, OnlyInteractable)>,
    input: FrameInput,
    edge: bool,
    inv: Invocation,
    i: int,
    j: int,
)
    requires
        crate::id_map::ids_increasing(a),
        0 <= i < j < a.len(),
        fires_at(a, i, input, edge),
        fires_at(a, j, input, edge),
        frame_stepped(a, b, input, edge),
        first_firing(a, inv, input, edge),
    ensures
        invocation_id(inv) != a[j].0,
        !fired_before(a, i, input, edge) ==> invocation_id(inv) == a[i].0,
        stepped(a[j].1, b[j].1, pointer_on(a[j].1, input), input, false),
{
    let k = choose|k: int|
        0 <= k < a.len() && #[trigger] fires_at(a, k, input, edge) && !fired_before(a, k, input, edge)
            && invokes(inv, a[k]);
    if k > i {
        assert(fired_before(a, k, input, edge));
    }
    assert(fired_before(a, j, input, edge));
    assert(invocation_id(inv) == a[k].0);
    if !fired_before(a, i, input, edge) {
        if k < i {
            assert(fired_before(a, i, input, edge));
        }
    }
}

} // verus!
