use vstd::prelude::*;

use crate::display::{RaytracerWindow, ScreenDecoration, TextBlock};
use crate::id_map::{position_of, value_of, IdMap};
use crate::logger::{spec_wrap, Logger};
use crate::session::SSHClient;
use crate::widgets::{Button, TextBox};

verus! {

/// A passive display entity.
pub enum NonInteractable {
    RaytracerWindow(RaytracerWindow),
    ScreenDecoration(ScreenDecoration),
    TextBlock(TextBlock),
    Logger(Logger),
}

/// A widget the pointer and keyboard act on.
pub enum OnlyInteractable {
    Button(Button),
    TextBox(TextBox),
}

/// A stateful service that is never drawn.
pub enum HiddenManager {
    SSHClient(SSHClient),
}

/// The display lines that logging the messages `msgs` in turn adds to `l`.
pub open spec fn wrap_all(l: Logger, msgs: Seq<Seq<char>>) -> Seq<Seq<char>>
    decreases msgs.len(),
{
    if msgs.len() == 0 {
        seq![]
    } else {
        wrap_all(l, msgs.drop_last()) + spec_wrap(l.line_tag() + msgs.last(), l.max_num_chars())
    }
}

/// `b` is `a` after the messages `msgs` were logged into the logger stored
/// under `id`, if there is one. With `cleared`, that logger's scrollback was
/// emptied after the logging.
pub open spec fn logged_into(
    a: Seq<(u32, NonInteractable)>,
    b: Seq<(u32, NonInteractable)>,
    id: u32,
    msgs: Seq<Seq<char>>,
    cleared: bool,
) -> bool {
    match value_of(a, id) {
        Some(NonInteractable::Logger(l)) => {
            let p = position_of(a, id).unwrap();
            &&& b.len() == a.len()
            &&& forall|k: int| 0 <= k < a.len() && k != p ==> b[k] == a[k]
            &&& b[p].0 == id
            &&& b[p].1 matches NonInteractable::Logger(l2) && l2.same_frame(l) && l2.lines_view()
                == if cleared {
                Seq::<Seq<char>>::empty()
            } else {
                l.lines_view() + wrap_all(l, msgs)
            }
        },
        _ => b == a,
    }
}

/// Logging one message adds its wrapped lines.
pub proof fn lemma_wrap_all_single(l: Logger, m: Seq<char>)
    ensures
        wrap_all(l, seq![m]) == spec_wrap(l.line_tag() + m, l.max_num_chars()),
{
    assert(seq![m].drop_last() =~= Seq::<Seq<char>>::empty());
    assert(wrap_all(l, Seq::<Seq<char>>::empty()) == Seq::<Seq<char>>::empty());
    assert(seq![m].last() == m);
    assert(wrap_all(l, seq![m]) =~= spec_wrap(l.line_tag() + m, l.max_num_chars()));
}

/// Logging nothing leaves the store as it is.
pub proof fn lemma_logged_nothing(a: Seq<(u32, NonInteractable)>, id: u32)
    ensures
        logged_into(a, a, id, seq![], false),
{
    if let Some(NonInteractable::Logger(l)) = value_of(a, id) {
        let p = position_of(a, id).unwrap();
        assert(l.lines_view() + wrap_all(l, seq![]) =~= l.lines_view());
    }
}

/// Two rounds of logging into the same logger make one.
pub proof fn lemma_logged_twice(
    a: Seq<(u32, NonInteractable)>,
    b: Seq<(u32, NonInteractable)>,
    c: Seq<(u32, NonInteractable)>,
    id: u32,
    m1: Seq<Seq<char>>,
    m2: Seq<char>,
)
    requires
        crate::id_map::ids_increasing(a),
        logged_into(a, b, id, m1, false),
        logged_into(b, c, id, seq![m2], false),
    ensures
        logged_into(a, c, id, m1.push(m2), false),
        crate::id_map::ids_increasing(b),
{
    assert(forall|k: int| 0 <= k < a.len() ==> b[k].0 == a[k].0);
    if let Some(NonInteractable::Logger(l)) = value_of(a, id) {
        let p = position_of(a, id).unwrap();
        crate::id_map::lemma_position_unique(a, p);
        crate::id_map::lemma_position_unique(b, p);
        let l2 = b[p].1->Logger_0;
        lemma_wrap_all_single(l2, m2);
        assert(m1.push(m2).drop_last() =~= m1);
        assert(l.lines_view() + wrap_all(l, m1.push(m2)) =~= l.lines_view() + wrap_all(l, m1)
            + wrap_all(l2, seq![m2]));
    } else {
    }
}

/// Logs `msg` into the logger stored under `id`, if there is one.
pub fn log_to(none: &mut IdMap<NonInteractable>, id: u32, msg: &str)
    requires
        old(none).wf(),
    ensures
        final(none).wf(),
        logged_into(old(none)@, final(none)@, id, seq![msg@], false),
{
    if let Some(i) = none.find(id) {
        let ghost a = none@;
        let v = none.value_at_mut(i);
        if let NonInteractable::Logger(l) = v {
            l.add_line(msg);
        }
        proof {
            crate::id_map::lemma_update_keeps_positions(a, i as int, none@[i as int].1, id);
            crate::id_map::lemma_position_unique(a, i as int);
            if let Some(NonInteractable::Logger(l)) = value_of(a, id) {
                lemma_wrap_all_single(l, msg@);
            } else {
                assert(none@ =~= a);
            }
        }
    }
}

/// Empties the scrollback of the logger stored under `id`, if there is one.
pub fn clear_log(none: &mut IdMap<NonInteractable>, id: u32)
    requires
        old(none).wf(),
    ensures
        final(none).wf(),
        logged_into(old(none)@, final(none)@, id, seq![], true),
{
    if let Some(i) = none.find(id) {
        let ghost a = none@;
        let v = none.value_at_mut(i);
        if let NonInteractable::Logger(l) = v {
            l.clear_lines();
        }
        proof {
            crate::id_map::lemma_update_keeps_positions(a, i as int, none@[i as int].1, id);
            crate::id_map::lemma_position_unique(a, i as int);
            if !(value_of(a, id) matches Some(NonInteractable::Logger(_))) {
                assert(none@ =~= a);
            }
        }
    }
}

impl NonInteractable {
    /// Whether `self` and `o` hold the same entity; loggers are compared by
    /// their settings and the lines they hold.
    pub open spec fn same_entity(&self, o: NonInteractable) -> bool {
        match (*self, o) {
            (NonInteractable::Logger(a), NonInteractable::Logger(b)) => a.lines_view() == b.lines_view()
                && a.same_frame(b),
            _ => *self == o,
        }
    }

    /// A copy of the entity.
    pub fn duplicate(&self) -> (r: NonInteractable)
        ensures
            r.same_entity(*self),
    {
        match self {
            NonInteractable::RaytracerWindow(w) => NonInteractable::RaytracerWindow(*w),
            NonInteractable::ScreenDecoration(d) => NonInteractable::ScreenDecoration(*d),
            NonInteractable::TextBlock(t) => NonInteractable::TextBlock(t.clone()),
            NonInteractable::Logger(l) => NonInteractable::Logger(l.clone()),
        }
    }
}

/// `c` holds the same ids, in the same order, and the same entities as `m`.
pub open spec fn snapshot_of(c: Seq<(u32, NonInteractable)>, m: Seq<(u32, NonInteractable)>) -> bool {
    &&& c.len() == m.len()
    &&& forall|k: int| 0 <= k < m.len() ==> (#[trigger] c[k]).0 == m[k].0 && c[k].1.same_entity(m[k].1)
}

/// A full copy of the display store, for a handler to work on.
pub fn snapshot(m: &IdMap<NonInteractable>) -> (r: IdMap<NonInteractable>)
    requires
        m.wf(),
    ensures
        r.wf(),
        snapshot_of(r@, m@),
{
    let mut r: IdMap<NonInteractable> = IdMap::new();
    let mut i: usize = 0;
    while i < m.len()
        invariant
            m.wf(),
            0 <= i <= m@.len(),
            r.wf(),
            r@.len() == i,
            forall|k: int| 0 <= k < i ==> (#[trigger] r@[k]).0 == m@[k].0 && r@[k].1.same_entity(m@[k].1),
        decreases m@.len() - i,
    {
        let id = m.id_at(i);
        let v = m.value_at(i).duplicate();
        proof {
            assert forall|k: int| 0 <= k < r@.len() implies r@[k].0 < id by {
                assert(m@[k].0 < m@[i as int].0);
            }
        }
        r.push_back(id, v);
        i = i + 1;
    }
    r
}

} // verus!
