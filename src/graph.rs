//! The persistent widget graph: one node per declared widget id, holding its
//! state, style, parent and redraw flag across frames, and the two input
//! captures. Nodes not declared again in a frame are removed when it ends.
use vstd::prelude::*;
use std::collections::HashMap;
use crate::file_navigator;
use crate::rectangle;
use crate::id::WidgetId;
use crate::input::{HitNode, pointer_target};

verus! {

broadcast use vstd::std_specs::hash::group_hash_axioms;

/// The state of one widget, by widget kind.
#[derive(Debug)]
pub enum WidgetState {
    Rectangle(rectangle::State),
    Navigator(file_navigator::State),
}

/// The style of one widget, by widget kind.
#[derive(Clone, Copy, Debug, PartialEq, Eq, Structural)]
pub enum WidgetStyle {
    Rectangle(rectangle::Style),
    Navigator(file_navigator::Style),
}

/// Two open directories are equal by value.
pub open spec fn same_directory(a: file_navigator::Directory, b: file_navigator::Directory) -> bool {
    a.path@ == b.path@ && a.column_width == b.column_width
}

/// Two navigator states are equal by value.
pub open spec fn same_navigator(a: file_navigator::State, b: file_navigator::State) -> bool {
    &&& a.scrollable_canvas_idx == b.scrollable_canvas_idx
    &&& a.scrollbar_idx == b.scrollbar_idx
    &&& a.starting_directory@ == b.starting_directory@
    &&& a.directory_stack@.len() == b.directory_stack@.len()
    &&& forall|i: int|
        0 <= i < a.directory_stack@.len() ==> same_directory(
            #[trigger] a.directory_stack@[i],
            b.directory_stack@[i],
        )
    &&& a.directory_view_indices@ == b.directory_view_indices@
}

/// Two widget states are equal by value.
pub open spec fn same_state(a: WidgetState, b: WidgetState) -> bool {
    match (a, b) {
        (WidgetState::Rectangle(x), WidgetState::Rectangle(y)) => x == y,
        (WidgetState::Navigator(x), WidgetState::Navigator(y)) => same_navigator(x, y),
        _ => false,
    }
}

/// Whether two id lists are equal.
fn same_ids(a: &Vec<(u64, u64)>, b: &Vec<(u64, u64)>) -> (r: bool)
    ensures
        r == (a@ == b@),
{
    if a.len() != b.len() {
        return false;
    }
    let mut i: usize = 0;
    while i < a.len()
        invariant
            a@.len() == b@.len(),
            i <= a@.len(),
            forall|j: int| 0 <= j < i ==> a@[j] == b@[j],
        decreases a@.len() - i,
    {
        if a[i].0 != b[i].0 || a[i].1 != b[i].1 {
            return false;
        }
        i = i + 1;
    }
    assert(a@ =~= b@);
    true
}

/// Compares two navigator states by value.
fn navigators_equal(a: &file_navigator::State, b: &file_navigator::State) -> (r: bool)
    ensures
        r == same_navigator(*a, *b),
{
    if a.scrollable_canvas_idx != b.scrollable_canvas_idx || a.scrollbar_idx != b.scrollbar_idx
        || a.starting_directory != b.starting_directory || a.directory_stack.len()
        != b.directory_stack.len() {
        return false;
    }
    let mut i: usize = 0;
    while i < a.directory_stack.len()
        invariant
            a.directory_stack@.len() == b.directory_stack@.len(),
            i <= a.directory_stack@.len(),
            forall|j: int|
                0 <= j < i ==> same_directory(#[trigger] a.directory_stack@[j], b.directory_stack@[j]),
        decreases a.directory_stack@.len() - i,
    {
        if a.directory_stack[i].path != b.directory_stack[i].path
            || a.directory_stack[i].column_width != b.directory_stack[i].column_width {
            return false;
        }
        i = i + 1;
    }
    same_ids(&a.directory_view_indices, &b.directory_view_indices)
}

/// Compares two widget states by value.
pub fn states_equal(a: &WidgetState, b: &WidgetState) -> (r: bool)
    ensures
        r == same_state(*a, *b),
{
    match (a, b) {
        (WidgetState::Rectangle(x), WidgetState::Rectangle(y)) => x.kind == y.kind,
        (WidgetState::Navigator(x), WidgetState::Navigator(y)) => navigators_equal(x, y),
        _ => false,
    }
}

/// One node of the graph.
#[derive(Debug)]
pub struct Node {
    /// The widget's state.
    pub state: WidgetState,
    /// The widget's style.
    pub style: WidgetStyle,
    /// The node it was declared under this frame, if any.
    pub parent: Option<WidgetId>,
    /// Whether its drawing must be regenerated.
    pub redraw: bool,
}

/// The persistent graph of widget nodes.
pub struct Graph {
    nodes: HashMap<u64, Node>,
    /// Ids declared in the previous frame.
    prev: Vec<u64>,
    /// Ids declared in this frame, in declaration order.
    order: Vec<u64>,
    mouse: Option<u64>,
    keyboard: Option<u64>,
}

impl Graph {
    /// The nodes, by id.
    pub closed spec fn nodes(&self) -> Map<WidgetId, Node> {
        self.nodes@
    }

    /// The ids declared so far this frame, in declaration order, which is
    /// also the drawing order, back to front.
    pub closed spec fn declared(&self) -> Seq<WidgetId> {
        self.order@
    }

    /// The node that holds mouse capture, if any.
    pub closed spec fn mouse_holder(&self) -> Option<WidgetId> {
        self.mouse
    }

    /// The node that holds keyboard capture, if any.
    pub closed spec fn keyboard_holder(&self) -> Option<WidgetId> {
        self.keyboard
    }

    /// Every node was declared this frame or the previous one, each at most
    /// once per frame, and captures are held by nodes only.
    pub closed spec fn wf(&self) -> bool {
        &&& self.order@.no_duplicates()
        &&& self.prev@.no_duplicates()
        &&& forall|k: u64|
            #[trigger] self.nodes@.contains_key(k) <==> (self.order@.contains(k)
                || self.prev@.contains(k))
        &&& self.mouse matches Some(h) ==> self.nodes@.contains_key(h)
        &&& self.keyboard matches Some(h) ==> self.nodes@.contains_key(h)
    }

    /// An empty graph.
    pub fn new() -> (r: Graph)
        ensures
            r.wf(),
            r.nodes() == Map::<WidgetId, Node>::empty(),
            r.declared() == Seq::<WidgetId>::empty(),
            r.mouse_holder() is None,
            r.keyboard_holder() is None,
    {
        let r = Graph {
            nodes: HashMap::new(),
            prev: Vec::new(),
            order: Vec::new(),
            mouse: None,
            keyboard: None,
        };
        r
    }

    /// The node of `id`, if the graph holds one.
    pub fn node(&self, id: WidgetId) -> (r: Option<&Node>)
        ensures
            r matches Some(n) ==> self.nodes().contains_key(id) && *n == self.nodes()[id],
            r is None ==> !self.nodes().contains_key(id),
    {
        self.nodes.get(&id)
    }

    /// The ids declared so far this frame, back to front.
    pub fn declaration_order(&self) -> (r: &Vec<WidgetId>)
        ensures
            r@ == self.declared(),
    {
        &self.order
    }

    /// The node holding mouse capture, if any.
    pub fn mouse_capture(&self) -> (r: Option<WidgetId>)
        ensures
            r == self.mouse_holder(),
    {
        self.mouse
    }

    /// The node holding keyboard capture, if any.
    pub fn keyboard_capture(&self) -> (r: Option<WidgetId>)
        ensures
            r == self.keyboard_holder(),
    {
        self.keyboard
    }

    /// Declares `id` in this frame under `parent`. A node new to the graph
    /// takes the given initial state and style and is marked for redraw; a
    /// known node keeps its state, style and flag.
    pub fn get_or_init(
        &mut self,
        id: WidgetId,
        parent: Option<WidgetId>,
        init_state: WidgetState,
        init_style: WidgetStyle,
    )
        requires
            old(self).wf(),
        ensures
            declared_node(*old(self), id, parent, init_state, init_style, *final(self)),
    {
        let ghost before = self.nodes@;
        let existing = self.nodes.remove(&id);
        let node = match existing {
            Some(n) => Node { parent, ..n },
            None => Node { state: init_state, style: init_style, parent, redraw: true },
        };
        self.nodes.insert(id, node);
        proof {
            assert(self.nodes@ =~= before.insert(id, node));
        }
        if !contains_id(&self.order, id) {
            self.order.push(id);
            proof {
                assert(self.order@[self.order@.len() - 1] == id);
                assert forall|a: int, b: int| 0 <= a < b < self.order@.len() implies self.order@[a] != self.order@[b] by {
                    if b == self.order@.len() - 1 {
                        assert(old(self).order@[a] == self.order@[a]);
                    }
                }
            }
        }
        proof {
            assert forall|k: u64| #[trigger] self.nodes@.contains_key(k) <==> (
            self.order@.contains(k) || self.prev@.contains(k)) by {
                if k == id {
                    assert(self.order@.contains(id));
                }
                if old(self).order@.contains(k) {
                    let j = choose|j: int| 0 <= j < old(self).order@.len() && old(self).order@[j] == k;
                    assert(self.order@[j] == k);
                }
            }
        }
    }

    /// Stores a widget's new state and style after its update; the node is
    /// marked for redraw exactly when either differs by value from what it
    /// held.
    pub fn commit(&mut self, id: WidgetId, state: WidgetState, style: WidgetStyle)
        requires
            old(self).wf(),
            old(self).nodes().contains_key(id),
        ensures
            committed(*old(self), id, state, style, *final(self)),
    {
        match self.nodes.remove(&id) {
            Some(n) => {
                let unchanged = states_equal(&n.state, &state) && n.style == style;
                let node = Node { state, style, parent: n.parent, redraw: !unchanged };
                self.nodes.insert(id, node);
                assert(self.nodes@ =~= old(self).nodes@.insert(id, node));
            },
            None => {},
        }
    }

    /// Ends the frame: removes every node not declared in it, and releases a
    /// capture that such a node held.
    pub fn end_frame(&mut self)
        requires
            old(self).wf(),
        ensures
            frame_ended(*old(self), *final(self)),
    {
        let ghost old_nodes = self.nodes@;
        let mut prev: Vec<u64> = Vec::new();
        core::mem::swap(&mut prev, &mut self.prev);
        assert(prev@.skip(0) =~= prev@);
        let mut i: usize = 0;
        while i < prev.len()
            invariant
                i <= prev@.len(),
                prev@.no_duplicates(),
                self.order@ == old(self).order@,
                self.order@.no_duplicates(),
                self.prev@.len() == 0,
                self.mouse == old(self).mouse,
                self.keyboard == old(self).keyboard,
                forall|k: u64| #[trigger] old_nodes.contains_key(k) <==> (old(self).order@.contains(k) || prev@.contains(k)),
                forall|k: u64| #[trigger] self.nodes@.contains_key(k) <==> (self.order@.contains(k)
                    || prev@.skip(i as int).contains(k)),
                forall|k: u64| #[trigger] self.nodes@.contains_key(k) ==> self.nodes@[k] == old_nodes[k],
            decreases prev@.len() - i,
        {
            let k = prev[i];
            if !contains_id(&self.order, k) {
                self.nodes.remove(&k);
            }
            proof {
                let cur = prev@.skip(i as int);
                let rest = prev@.skip(i as int + 1);
                assert forall|q: u64| #[trigger] cur.contains(q) <==> (rest.contains(q) || q == k) by {
                    if cur.contains(q) && q != k {
                        let j = choose|j: int| 0 <= j < cur.len() && cur[j] == q;
                        assert(rest[j - 1] == q);
                    }
                    if rest.contains(q) {
                        let j = choose|j: int| 0 <= j < rest.len() && rest[j] == q;
                        assert(cur[j + 1] == q);
                    }
                    if q == k {
                        assert(cur[0] == q);
                    }
                }
                assert(!rest.contains(k)) by {
                    if rest.contains(k) {
                        let j = choose|j: int| 0 <= j < rest.len() && rest[j] == k;
                        assert(prev@[i as int + 1 + j] == prev@[i as int]);
                    }
                }
            }
            i = i + 1;
        }
        proof {
            assert forall|q: u64| !prev@.skip(i as int).contains(q) by {}
        }
        if let Some(h) = self.mouse {
            if !contains_id(&self.order, h) {
                self.mouse = None;
            }
        }
        if let Some(h) = self.keyboard {
            if !contains_id(&self.order, h) {
                self.keyboard = None;
            }
        }
        proof {
            assert(self.nodes@ =~= old_nodes.restrict(old(self).order@.to_set()));
        }
    }

    /// Starts a frame: ends the open one, then no id counts as declared.
    pub fn begin_frame(&mut self)
        requires
            old(self).wf(),
        ensures
            frame_begun(*old(self), *final(self)),
    {
        self.end_frame();
        let mut order: Vec<u64> = Vec::new();
        core::mem::swap(&mut order, &mut self.order);
        self.prev = order;
        proof {
            assert forall|k: u64| #[trigger] self.nodes@.contains_key(k) <==> (
            self.order@.contains(k) || self.prev@.contains(k)) by {}
        }
    }

    /// Gives mouse capture to `id`, taking it from any other holder. Only a
    /// node of the graph can hold it.
    pub fn capture_mouse(&mut self, id: WidgetId) -> (granted: bool)
        requires
            old(self).wf(),
        ensures
            mouse_taken(*old(self), id, granted, *final(self)),
    {
        if self.nodes.contains_key(&id) {
            self.mouse = Some(id);
            true
        } else {
            false
        }
    }

    /// Releases mouse capture if `id` holds it.
    pub fn release_mouse(&mut self, id: WidgetId)
        requires
            old(self).wf(),
        ensures
            final(self).wf(),
            final(self).mouse_holder() == if old(self).mouse_holder() == Some(id) {
                None
            } else {
                old(self).mouse_holder()
            },
            final(self).keyboard_holder() == old(self).keyboard_holder(),
            final(self).nodes() == old(self).nodes(),
            final(self).declared() == old(self).declared(),
    {
        if self.mouse == Some(id) {
            self.mouse = None;
        }
    }

    /// Gives keyboard capture to `id`, taking it from any other holder. Only
    /// a node of the graph can hold it.
    pub fn capture_keyboard(&mut self, id: WidgetId) -> (granted: bool)
        requires
            old(self).wf(),
        ensures
            final(self).wf(),
            granted == old(self).nodes().contains_key(id),
            final(self).keyboard_holder() == if granted {
                Some(id)
            } else {
                old(self).keyboard_holder()
            },
            final(self).mouse_holder() == old(self).mouse_holder(),
            final(self).nodes() == old(self).nodes(),
            final(self).declared() == old(self).declared(),
    {
        if self.nodes.contains_key(&id) {
            self.keyboard = Some(id);
            true
        } else {
            false
        }
    }

    /// Releases keyboard capture if `id` holds it.
    pub fn release_keyboard(&mut self, id: WidgetId)
        requires
            old(self).wf(),
        ensures
            final(self).wf(),
            final(self).keyboard_holder() == if old(self).keyboard_holder() == Some(id) {
                None
            } else {
                old(self).keyboard_holder()
            },
            final(self).mouse_holder() == old(self).mouse_holder(),
            final(self).nodes() == old(self).nodes(),
            final(self).declared() == old(self).declared(),
    {
        if self.keyboard == Some(id) {
            self.keyboard = None;
        }
    }
}

/// Whether `k` occurs in `v`.
fn contains_id(v: &Vec<u64>, k: u64) -> (r: bool)
    ensures
        r == v@.contains(k),
{
    let mut i: usize = 0;
    while i < v.len()
        invariant
            i <= v@.len(),
            forall|j: int| 0 <= j < i ==> v@[j] != k,
        decreases v@.len() - i,
    {
        if v[i] == k {
            assert(v@[i as int] == k);
            return true;
        }
        i = i + 1;
    }
    false
}

/// `after` is `before` once `id` is declared under `parent`, as
/// `Graph::get_or_init` describes it.
pub open spec fn declared_node(
    before: Graph,
    id: WidgetId,
    parent: Option<WidgetId>,
    init_state: WidgetState,
    init_style: WidgetStyle,
    after: Graph,
) -> bool {
    &&& after.wf()
    &&& after.declared() == if before.declared().contains(id) {
        before.declared()
    } else {
        before.declared().push(id)
    }
    &&& after.nodes() == if before.nodes().contains_key(id) {
        before.nodes().insert(id, Node { parent, ..before.nodes()[id] })
    } else {
        before.nodes().insert(
            id,
            Node { state: init_state, style: init_style, parent, redraw: true },
        )
    }
    &&& after.mouse_holder() == before.mouse_holder()
    &&& after.keyboard_holder() == before.keyboard_holder()
}

/// `after` is `before` once `state` and `style` are committed for `id`, as
/// `Graph::commit` describes it.
pub open spec fn committed(
    before: Graph,
    id: WidgetId,
    state: WidgetState,
    style: WidgetStyle,
    after: Graph,
) -> bool {
    let n = before.nodes()[id];
    &&& after.wf()
    &&& after.declared() == before.declared()
    &&& after.nodes() == before.nodes().insert(
        id,
        Node {
            state,
            style,
            parent: n.parent,
            redraw: !(same_state(n.state, state) && n.style == style),
        },
    )
    &&& after.mouse_holder() == before.mouse_holder()
    &&& after.keyboard_holder() == before.keyboard_holder()
}

/// A capture held by a node that was not declared this frame is released.
pub open spec fn kept_capture(holder: Option<WidgetId>, declared: Seq<WidgetId>) -> Option<WidgetId> {
    match holder {
        Some(h) => if declared.contains(h) {
            Some(h)
        } else {
            None
        },
        None => None,
    }
}

/// `after` is `before` at the end of its frame, as `Graph::end_frame`
/// describes it.
pub open spec fn frame_ended(before: Graph, after: Graph) -> bool {
    &&& after.wf()
    &&& after.declared() == before.declared()
    &&& after.nodes() == before.nodes().restrict(before.declared().to_set())
    &&& after.mouse_holder() == kept_capture(before.mouse_holder(), before.declared())
    &&& after.keyboard_holder() == kept_capture(before.keyboard_holder(), before.declared())
}

/// `after` is `before` at the start of the next frame, as
/// `Graph::begin_frame` describes it.
pub open spec fn frame_begun(before: Graph, after: Graph) -> bool {
    &&& after.wf()
    &&& after.declared() == Seq::<WidgetId>::empty()
    &&& after.nodes() == before.nodes().restrict(before.declared().to_set())
    &&& after.mouse_holder() == kept_capture(before.mouse_holder(), before.declared())
    &&& after.keyboard_holder() == kept_capture(before.keyboard_holder(), before.declared())
}

/// A state committed for a node declared in one frame is what the node holds
/// when it is declared again in the next frame: its state and style are the
/// committed ones, whatever initial values the new declaration offers.
pub proof fn lemma_state_persists(
    g0: Graph,
    g1: Graph,
    g2: Graph,
    g3: Graph,
    id: WidgetId,
    state: WidgetState,
    style: WidgetStyle,
    parent: Option<WidgetId>,
    init_state: WidgetState,
    init_style: WidgetStyle,
)
    requires
        g0.wf(),
        g0.nodes().contains_key(id),
        g0.declared().contains(id),
        committed(g0, id, state, style, g1),
        frame_begun(g1, g2),
        declared_node(g2, id, parent, init_state, init_style, g3),
    ensures
        g3.nodes().contains_key(id),
        g3.nodes()[id].state == state,
        g3.nodes()[id].style == style,
{
    assert(g1.declared().to_set().contains(id));
    assert(g2.nodes().contains_key(id));
}

/// A node that was not declared in a frame is gone from the graph when the
/// frame ends, and holds neither capture.
pub proof fn lemma_stale_removed(before: Graph, after: Graph, id: WidgetId)
    requires
        !before.declared().contains(id),
        frame_ended(before, after),
    ensures
        !after.nodes().contains_key(id),
        after.mouse_holder() != Some(id),
        after.keyboard_holder() != Some(id),
{
    assert(!before.declared().to_set().contains(id));
}

/// Committing the same state and style twice in a row leaves the node's
/// redraw flag clear after the second commit.
pub proof fn lemma_recommit_clears_redraw(
    g0: Graph,
    g1: Graph,
    g2: Graph,
    id: WidgetId,
    state: WidgetState,
    style: WidgetStyle,
)
    requires
        g0.nodes().contains_key(id),
        committed(g0, id, state, style, g1),
        committed(g1, id, state, style, g2),
    ensures
        !g2.nodes()[id].redraw,
{
    assert(g1.nodes()[id].state == state);
    match state {
        WidgetState::Rectangle(_) => {},
        WidgetState::Navigator(x) => {
            assert(same_navigator(x, x));
        },
    }
}

/// `after` and `granted` are an outcome of `before.capture_mouse(id)`, as
/// that method describes it.
pub open spec fn mouse_taken(before: Graph, id: WidgetId, granted: bool, after: Graph) -> bool {
    &&& after.wf()
    &&& granted == before.nodes().contains_key(id)
    &&& after.mouse_holder() == if granted {
        Some(id)
    } else {
        before.mouse_holder()
    }
    &&& after.keyboard_holder() == before.keyboard_holder()
    &&& after.nodes() == before.nodes()
    &&& after.declared() == before.declared()
}

/// When node `b` of the graph asks for mouse capture while `a` holds it,
/// capture passes to `b`, and from then on no pointer event reaches `a`,
/// wherever the pointer is, until capture changes hands again.
pub proof fn lemma_capture_transfers(
    g0: Graph,
    g1: Graph,
    a: WidgetId,
    b: WidgetId,
    granted: bool,
    nodes: Seq<HitNode>,
    x: int,
    y: int,
)
    requires
        g0.mouse_holder() == Some(a),
        a != b,
        g0.nodes().contains_key(b),
        mouse_taken(g0, b, granted, g1),
    ensures
        granted,
        g1.mouse_holder() == Some(b),
        pointer_target(g1.mouse_holder(), nodes, x, y) != Some(a),
{
}

} // verus!
