//! Turning raw pointer input into gestures, and choosing which node receives
//! pointer input: the capture holder if there is one, else the topmost node
//! under the pointer.
use vstd::prelude::*;
use crate::geometry::{Rect, spec_contains};
use crate::id::WidgetId;

verus! {

/// A raw event of one pointer button: `t` is a time in milliseconds.
#[derive(Clone, Copy, Debug, PartialEq, Eq, Structural)]
pub enum RawEvent {
    Press { x: i32, y: i32, t: u64 },
    Move { x: i32, y: i32, t: u64 },
    Release { x: i32, y: i32, t: u64 },
}

/// A gesture recognised from raw events.
#[derive(Clone, Copy, Debug, PartialEq, Eq, Structural)]
pub enum Gesture {
    /// A press and release close together in place and time.
    Click { x: i32, y: i32 },
    /// A click close in place and time to the click before it.
    DoubleClick { x: i32, y: i32 },
    /// The pointer left the deadzone of a press at `(x, y)`.
    DragStart { x: i32, y: i32 },
    /// A drag moved the pointer to `(x, y)`.
    DragUpdate { x: i32, y: i32 },
    /// A drag ended with the release at `(x, y)`.
    DragEnd { x: i32, y: i32 },
}

/// Limits that tell clicks from drags.
#[derive(Clone, Copy, Debug, PartialEq, Eq, Structural)]
pub struct Thresholds {
    /// Longest press, in milliseconds, that can still be a click.
    pub click_ms: u64,
    /// Longest time between two clicks of a double-click, in milliseconds.
    pub double_click_ms: u64,
    /// Farthest the pointer may move, on either axis, without starting a drag.
    pub deadzone: u32,
}

/// A position and a time.
#[derive(Clone, Copy, Debug, PartialEq, Eq, Structural)]
pub struct Stamp {
    pub x: i32,
    pub y: i32,
    pub t: u64,
}

/// What one button's gesture recognition remembers.
#[derive(Clone, Copy, Debug, PartialEq, Eq, Structural)]
pub struct ButtonState {
    /// Where and when the button went down, while it is down.
    pub pressed: Option<Stamp>,
    /// Whether the current press has become a drag.
    pub dragging: bool,
    /// The last click that can still become half of a double-click.
    pub last_click: Option<Stamp>,
}

/// `(x, y)` lies within `d` of `s` on both axes.
pub open spec fn near(s: Stamp, x: i32, y: i32, d: u32) -> bool {
    -(d as int) <= x - s.x <= d && -(d as int) <= y - s.y <= d
}

/// `t` comes at most `ms` after `s`.
pub open spec fn soon(s: Stamp, t: u64, ms: u64) -> bool {
    s.t <= t <= s.t + ms
}

/// The state after event `e`.
pub open spec fn next_state(s: ButtonState, e: RawEvent, th: Thresholds) -> ButtonState {
    match e {
        RawEvent::Press { x, y, t } => ButtonState {
            pressed: Some(Stamp { x, y, t }),
            dragging: false,
            ..s
        },
        RawEvent::Move { x, y, .. } => match s.pressed {
            Some(p) => ButtonState { dragging: s.dragging || !near(p, x, y, th.deadzone), ..s },
            None => s,
        },
        RawEvent::Release { x, y, t } => match s.pressed {
            Some(p) => ButtonState {
                pressed: None,
                dragging: false,
                last_click: if !s.dragging && soon(p, t, th.click_ms) && near(p, x, y, th.deadzone) {
                    if is_double(s, x, y, t, th) {
                        None
                    } else {
                        Some(Stamp { x, y, t })
                    }
                } else {
                    s.last_click
                },
            },
            None => s,
        },
    }
}

/// A click at `(x, y, t)` completes a double-click.
pub open spec fn is_double(s: ButtonState, x: i32, y: i32, t: u64, th: Thresholds) -> bool {
    match s.last_click {
        Some(c) => soon(c, t, th.double_click_ms) && near(c, x, y, th.deadzone),
        None => false,
    }
}

/// The gestures that event `e` completes.
pub open spec fn gestures_of(s: ButtonState, e: RawEvent, th: Thresholds) -> Seq<Gesture> {
    match e {
        RawEvent::Press { .. } => Seq::empty(),
        RawEvent::Move { x, y, .. } => match s.pressed {
            Some(p) => if s.dragging {
                seq![Gesture::DragUpdate { x, y }]
            } else if !near(p, x, y, th.deadzone) {
                seq![Gesture::DragStart { x: p.x, y: p.y }, Gesture::DragUpdate { x, y }]
            } else {
                Seq::empty()
            },
            None => Seq::empty(),
        },
        RawEvent::Release { x, y, t } => match s.pressed {
            Some(p) => if s.dragging {
                seq![Gesture::DragEnd { x, y }]
            } else if soon(p, t, th.click_ms) && near(p, x, y, th.deadzone) {
                if is_double(s, x, y, t, th) {
                    seq![Gesture::Click { x, y }, Gesture::DoubleClick { x, y }]
                } else {
                    seq![Gesture::Click { x, y }]
                }
            } else {
                Seq::empty()
            },
            None => Seq::empty(),
        },
    }
}

/// Whether `(x, y)` lies within `d` of `s` on both axes.
fn is_near(s: Stamp, x: i32, y: i32, d: u32) -> (r: bool)
    ensures
        r == near(s, x, y, d),
{
    let dx: i64 = x as i64 - s.x as i64;
    let dy: i64 = y as i64 - s.y as i64;
    let d: i64 = d as i64;
    -d <= dx && dx <= d && -d <= dy && dy <= d
}

/// Whether `t` comes at most `ms` after `s`.
fn is_soon(s: Stamp, t: u64, ms: u64) -> (r: bool)
    ensures
        r == soon(s, t, ms),
{
    s.t <= t && t - s.t <= ms
}

impl ButtonState {
    /// A button that is up, with no click to pair.
    pub fn new() -> (r: ButtonState)
        ensures
            r == (ButtonState { pressed: None, dragging: false, last_click: None }),
    {
        ButtonState { pressed: None, dragging: false, last_click: None }
    }

    /// Takes one raw event and gives the gestures it completes, in order.
    pub fn step(&mut self, e: RawEvent, th: Thresholds) -> (r: Vec<Gesture>)
        ensures
            *final(self) == next_state(*old(self), e, th),
            r@ == gestures_of(*old(self), e, th),
    {
        let mut out: Vec<Gesture> = Vec::new();
        match e {
            RawEvent::Press { x, y, t } => {
                self.pressed = Some(Stamp { x, y, t });
                self.dragging = false;
            },
            RawEvent::Move { x, y, .. } => {
                if let Some(p) = self.pressed {
                    if self.dragging {
                        out.push(Gesture::DragUpdate { x, y });
                    } else if !is_near(p, x, y, th.deadzone) {
                        self.dragging = true;
                        out.push(Gesture::DragStart { x: p.x, y: p.y });
                        out.push(Gesture::DragUpdate { x, y });
                    }
                }
            },
            RawEvent::Release { x, y, t } => {
                if let Some(p) = self.pressed {
                    if self.dragging {
                        out.push(Gesture::DragEnd { x, y });
                    } else if is_soon(p, t, th.click_ms) && is_near(p, x, y, th.deadzone) {
                        out.push(Gesture::Click { x, y });
                        let double = match self.last_click {
                            Some(c) => is_soon(c, t, th.double_click_ms) && is_near(
                                c,
                                x,
                                y,
                                th.deadzone,
                            ),
                            None => false,
                        };
                        if double {
                            out.push(Gesture::DoubleClick { x, y });
                            self.last_click = None;
                        } else {
                            self.last_click = Some(Stamp { x, y, t });
                        }
                    }
                    self.pressed = None;
                    self.dragging = false;
                }
            },
        }
        proof {
            assert(out@ =~= gestures_of(*old(self), e, th));
        }
        out
    }
}

/// Whether a gesture belongs to a drag.
pub open spec fn is_drag(g: Gesture) -> bool {
    match g {
        Gesture::DragStart { .. } | Gesture::DragUpdate { .. } | Gesture::DragEnd { .. } => true,
        _ => false,
    }
}

/// Whether a gesture is a click.
pub open spec fn is_click(g: Gesture) -> bool {
    g matches Gesture::Click { .. }
}

/// A press and a release at the same point, no later than the click time
/// after it, give a click and no drag gesture.
pub proof fn lemma_press_release_clicks(s: ButtonState, th: Thresholds, x: i32, y: i32, t0: u64, t1: u64)
    requires
        t0 <= t1 <= t0 + th.click_ms,
    ensures
        ({
            let press = RawEvent::Press { x, y, t: t0 };
            let release = RawEvent::Release { x, y, t: t1 };
            let s1 = next_state(s, press, th);
            let all = gestures_of(s, press, th) + gestures_of(s1, release, th);
            &&& all[0] == (Gesture::Click { x, y })
            &&& forall|i: int| 0 <= i < all.len() ==> !is_drag(#[trigger] all[i])
        }),
{
    let press = RawEvent::Press { x, y, t: t0 };
    let release = RawEvent::Release { x, y, t: t1 };
    let s1 = next_state(s, press, th);
    assert(gestures_of(s, press, th) =~= Seq::<Gesture>::empty());
    assert(gestures_of(s, press, th) + gestures_of(s1, release, th) =~= gestures_of(s1, release, th));
}

/// A press, a move beyond the deadzone and a release give a drag start,
/// a drag update and a drag end, and no click.
pub proof fn lemma_press_move_release_drags(
    s: ButtonState,
    th: Thresholds,
    x0: i32,
    y0: i32,
    x1: i32,
    y1: i32,
    x2: i32,
    y2: i32,
    t0: u64,
    t1: u64,
    t2: u64,
)
    requires
        !near(Stamp { x: x0, y: y0, t: t0 }, x1, y1, th.deadzone),
    ensures
        ({
            let press = RawEvent::Press { x: x0, y: y0, t: t0 };
            let mv = RawEvent::Move { x: x1, y: y1, t: t1 };
            let release = RawEvent::Release { x: x2, y: y2, t: t2 };
            let s1 = next_state(s, press, th);
            let s2 = next_state(s1, mv, th);
            let all = gestures_of(s, press, th) + gestures_of(s1, mv, th) + gestures_of(
                s2,
                release,
                th,
            );
            &&& all == seq![
                Gesture::DragStart { x: x0, y: y0 },
                Gesture::DragUpdate { x: x1, y: y1 },
                Gesture::DragEnd { x: x2, y: y2 },
            ]
            &&& forall|i: int| 0 <= i < all.len() ==> !is_click(#[trigger] all[i])
        }),
{
    let press = RawEvent::Press { x: x0, y: y0, t: t0 };
    let mv = RawEvent::Move { x: x1, y: y1, t: t1 };
    let release = RawEvent::Release { x: x2, y: y2, t: t2 };
    let s1 = next_state(s, press, th);
    let s2 = next_state(s1, mv, th);
    let all = gestures_of(s, press, th) + gestures_of(s1, mv, th) + gestures_of(s2, release, th);
    assert(all =~= seq![
        Gesture::DragStart { x: x0, y: y0 },
        Gesture::DragUpdate { x: x1, y: y1 },
        Gesture::DragEnd { x: x2, y: y2 },
    ]);
}

/// A node as hit-testing sees it.
#[derive(Clone, Copy, Debug, PartialEq, Eq, Structural)]
pub struct HitNode {
    pub id: WidgetId,
    pub rect: Rect,
    /// Whether the node takes pointer input at all.
    pub accepts: bool,
}

/// Whether node `n` takes pointer input at `(x, y)`.
pub open spec fn hits(n: HitNode, x: int, y: int) -> bool {
    n.accepts && spec_contains(n.rect, x, y)
}

/// The topmost node, in an order that runs back to front, that takes
/// pointer input at `(x, y)`.
pub open spec fn topmost(nodes: Seq<HitNode>, x: int, y: int) -> Option<WidgetId>
    decreases nodes.len(),
{
    if nodes.len() == 0 {
        None
    } else if hits(nodes.last(), x, y) {
        Some(nodes.last().id)
    } else {
        topmost(nodes.drop_last(), x, y)
    }
}

/// The node that receives pointer input at `(x, y)`: the mouse capture
/// holder, whatever the position, else the topmost node there.
pub open spec fn pointer_target(holder: Option<WidgetId>, nodes: Seq<HitNode>, x: int, y: int) -> Option<WidgetId> {
    match holder {
        Some(h) => Some(h),
        None => topmost(nodes, x, y),
    }
}

/// Finds the topmost node, of `nodes` listed back to front, that takes
/// pointer input at `(x, y)`.
pub fn hit_test(nodes: &Vec<HitNode>, x: i64, y: i64) -> (r: Option<WidgetId>)
    ensures
        r == topmost(nodes@, x as int, y as int),
{
    let mut i: usize = nodes.len();
    assert(nodes@.take(i as int) =~= nodes@);
    while i > 0
        invariant
            i <= nodes@.len(),
            topmost(nodes@, x as int, y as int) == topmost(nodes@.take(i as int), x as int, y as int),
        decreases i,
    {
        let n = nodes[i - 1];
        proof {
            assert(nodes@.take(i as int).drop_last() =~= nodes@.take(i - 1));
        }
        if n.accepts && n.rect.contains(x, y) {
            return Some(n.id);
        }
        i = i - 1;
    }
    None
}

/// The node that receives pointer input at `(x, y)`, given the mouse
/// capture holder.
pub fn route_pointer(holder: Option<WidgetId>, nodes: &Vec<HitNode>, x: i64, y: i64) -> (r: Option<
    WidgetId,
>)
    ensures
        r == pointer_target(holder, nodes@, x as int, y as int),
{
    match holder {
        Some(h) => Some(h),
        None => hit_test(nodes, x, y),
    }
}

/// While `b` holds mouse capture, every pointer event goes to `b`: none
/// reaches any other node `a`, wherever the pointer is.
pub proof fn lemma_capture_excludes_others(b: WidgetId, a: WidgetId, nodes: Seq<HitNode>, x: int, y: int)
    requires
        a != b,
    ensures
        pointer_target(Some(b), nodes, x, y) == Some(b),
        pointer_target(Some(b), nodes, x, y) != Some(a),
{
}

/// Where raw event `e` happened.
pub open spec fn position(e: RawEvent) -> (i32, i32) {
    match e {
        RawEvent::Press { x, y, .. } => (x, y),
        RawEvent::Move { x, y, .. } => (x, y),
        RawEvent::Release { x, y, .. } => (x, y),
    }
}

/// Each gesture paired with the node that receives it, or dropped when no
/// node does.
pub open spec fn addressed(target: Option<WidgetId>, gs: Seq<Gesture>) -> Seq<(WidgetId, Gesture)> {
    match target {
        Some(t) => gs.map_values(|g: Gesture| (t, g)),
        None => Seq::empty(),
    }
}

/// The button state after the raw events `es`, in arrival order, and the
/// gestures they complete, each with the node that receives it.
pub open spec fn routed(
    s: ButtonState,
    holder: Option<WidgetId>,
    nodes: Seq<HitNode>,
    es: Seq<RawEvent>,
    th: Thresholds,
) -> (ButtonState, Seq<(WidgetId, Gesture)>)
    decreases es.len(),
{
    if es.len() == 0 {
        (s, Seq::empty())
    } else {
        let (s0, out) = routed(s, holder, nodes, es.drop_last(), th);
        let e = es.last();
        let (x, y) = position(e);
        (
            next_state(s0, e, th),
            out + addressed(pointer_target(holder, nodes, x as int, y as int), gestures_of(s0, e, th)),
        )
    }
}

/// Runs the raw events of one frame, in arrival order, through gesture
/// recognition and delivers each gesture to the capture holder, or else to
/// the topmost node under the event.
pub fn route_events(
    button: &mut ButtonState,
    holder: Option<WidgetId>,
    nodes: &Vec<HitNode>,
    events: &Vec<RawEvent>,
    th: Thresholds,
) -> (r: Vec<(WidgetId, Gesture)>)
    ensures
        (*final(button), r@) == routed(*old(button), holder, nodes@, events@, th),
{
    let mut out: Vec<(WidgetId, Gesture)> = Vec::new();
    let mut k: usize = 0;
    while k < events.len()
        invariant
            k <= events@.len(),
            (*button, out@) == routed(*old(button), holder, nodes@, events@.take(k as int), th),
        decreases events@.len() - k,
    {
        proof {
            assert(events@.take(k as int + 1).drop_last() =~= events@.take(k as int));
        }
        let e = events[k];
        let (x, y) = match e {
            RawEvent::Press { x, y, .. } => (x, y),
            RawEvent::Move { x, y, .. } => (x, y),
            RawEvent::Release { x, y, .. } => (x, y),
        };
        let target = route_pointer(holder, nodes, x as i64, y as i64);
        let gs = button.step(e, th);
        let ghost before = out@;
        if let Some(t) = target {
            let mut j: usize = 0;
            while j < gs.len()
                invariant
                    j <= gs@.len(),
                    out@ == before + gs@.take(j as int).map_values(|g: Gesture| (t, g)),
                decreases gs@.len() - j,
            {
                out.push((t, gs[j]));
                proof {
                    assert(gs@.take(j as int + 1).map_values(|g: Gesture| (t, g)) =~= gs@.take(
                        j as int,
                    ).map_values(|g: Gesture| (t, g)).push((t, gs@[j as int])));
                }
                j = j + 1;
            }
            proof {
                assert(gs@.take(gs@.len() as int) =~= gs@);
            }
        } else {
            assert(out@ =~= before + Seq::<(WidgetId, Gesture)>::empty());
        }
        k = k + 1;
    }
    assert(events@.take(events@.len() as int) =~= events@);
    out
}

/// The gestures addressed to `id`, in the order they arrived.
pub open spec fn events_of(routed: Seq<(WidgetId, Gesture)>, id: WidgetId) -> Seq<Gesture>
    decreases routed.len(),
{
    if routed.len() == 0 {
        Seq::empty()
    } else if routed.last().0 == id {
        events_of(routed.drop_last(), id).push(routed.last().1)
    } else {
        events_of(routed.drop_last(), id)
    }
}

/// The gestures of one frame that are addressed to `id`, in arrival order.
pub fn events_for(routed: &Vec<(WidgetId, Gesture)>, id: WidgetId) -> (r: Vec<Gesture>)
    ensures
        r@ == events_of(routed@, id),
{
    let mut out: Vec<Gesture> = Vec::new();
    let mut k: usize = 0;
    while k < routed.len()
        invariant
            k <= routed@.len(),
            out@ == events_of(routed@.take(k as int), id),
        decreases routed@.len() - k,
    {
        proof {
            assert(routed@.take(k as int + 1).drop_last() =~= routed@.take(k as int));
        }
        if routed[k].0 == id {
            out.push(routed[k].1);
        }
        k = k + 1;
    }
    assert(routed@.take(routed@.len() as int) =~= routed@);
    out
}

} // verus!
