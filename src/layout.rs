//! Dependency-ordered layout: each node is placed absolutely or relative to one
//! other node, declared before or after it; nodes are resolved only once the
//! node they refer to is resolved, and a reference cycle fails the whole layout.
use vstd::prelude::*;
use vstd::set_lib::set_int_range;
use crate::geometry::Rect;
use crate::id::WidgetId;

verus! {

/// How a node is positioned.
#[derive(Clone, Copy, Debug, PartialEq, Eq, Structural)]
pub enum Placement {
    /// At the given left/top corner.
    Absolute { x: i32, y: i32 },
    /// Inside the top left corner of node `parent`, inset by `margin` on both axes.
    TopLeftOf { parent: usize, margin: i32 },
    /// To the right of node `sibling`, `gap` pixels past its right edge, tops aligned.
    RightOf { sibling: usize, gap: i32 },
    /// Below node `sibling`, `gap` pixels past its bottom edge, left edges aligned.
    Below { sibling: usize, gap: i32 },
}

/// One node to lay out: its placement and its own dimensions.
#[derive(Clone, Copy, Debug, PartialEq, Eq, Structural)]
pub struct LayoutNode {
    pub placement: Placement,
    pub w: u32,
    pub h: u32,
}

/// Why a layout failed.
#[derive(Clone, Copy, Debug, PartialEq, Eq, Structural)]
pub enum LayoutError {
    /// `node` depends, directly or through others, on a chain of references
    /// that never reaches an absolutely placed node.
    Cycle { node: usize },
}

/// The most nodes one layout takes; it keeps every coordinate within `i64`.
pub const MAX_NODES: usize = 0x2000_0000;

/// The node that a placement refers to, if any.
pub open spec fn anchor(p: Placement) -> Option<usize> {
    match p {
        Placement::Absolute { .. } => None,
        Placement::TopLeftOf { parent, .. } => Some(parent),
        Placement::RightOf { sibling, .. } => Some(sibling),
        Placement::Below { sibling, .. } => Some(sibling),
    }
}

/// Every reference names a node of the layout.
pub open spec fn well_formed(nodes: Seq<LayoutNode>) -> bool {
    forall|i: int|
        0 <= i < nodes.len() ==> (#[trigger] anchor(nodes[i].placement) matches Some(j) ==> j
            < nodes.len())
}

/// Left edge of a node placed by `n` against the anchor rectangle `a`.
pub open spec fn placed_x(n: LayoutNode, a: Rect) -> int {
    match n.placement {
        Placement::Absolute { x, .. } => x as int,
        Placement::TopLeftOf { margin, .. } => a.x + margin,
        Placement::RightOf { gap, .. } => a.x + a.w + gap,
        Placement::Below { .. } => a.x as int,
    }
}

/// Top edge of a node placed by `n` against the anchor rectangle `a`.
pub open spec fn placed_y(n: LayoutNode, a: Rect) -> int {
    match n.placement {
        Placement::Absolute { y, .. } => y as int,
        Placement::TopLeftOf { margin, .. } => a.y + margin,
        Placement::RightOf { .. } => a.y as int,
        Placement::Below { gap, .. } => a.y + a.h + gap,
    }
}

/// Node `i`'s rectangle meets its placement, given everyone's rectangles.
pub open spec fn node_satisfied(nodes: Seq<LayoutNode>, rects: Seq<Rect>, i: int) -> bool {
    let n = nodes[i];
    let a = match anchor(n.placement) {
        Some(j) => rects[j as int],
        None => rects[i],
    };
    &&& rects[i].x == placed_x(n, a)
    &&& rects[i].y == placed_y(n, a)
    &&& rects[i].w == n.w
    &&& rects[i].h == n.h
}

/// `rects` gives one rectangle per node, each meeting its placement.
pub open spec fn satisfies(nodes: Seq<LayoutNode>, rects: Seq<Rect>) -> bool {
    &&& rects.len() == nodes.len()
    &&& forall|i: int| 0 <= i < nodes.len() ==> #[trigger] node_satisfied(nodes, rects, i)
}

/// `rank` orders the nodes so that each comes after the node it refers to.
pub open spec fn ranked(nodes: Seq<LayoutNode>, rank: Seq<nat>) -> bool {
    &&& rank.len() == nodes.len()
    &&& forall|i: int|
        0 <= i < nodes.len() ==> (#[trigger] anchor(nodes[i].placement) matches Some(j) ==> rank[j
            as int] < rank[i])
}

/// The references contain no cycle: some order resolves every node after its anchor.
pub open spec fn acyclic(nodes: Seq<LayoutNode>) -> bool {
    exists|rank: Seq<nat>| ranked(nodes, rank)
}

/// Every node not marked in `done` refers to a node not marked in `done`.
pub open spec fn closed_unresolved(nodes: Seq<LayoutNode>, done: Seq<bool>) -> bool {
    forall|i: int|
        0 <= i < nodes.len() && !done[i] ==> (#[trigger] anchor(nodes[i].placement) matches Some(
            j) && !done[j as int])
}

/// Every unresolved node of a closed set has rank at least `k`, for every `k`.
proof fn lemma_closed_ranks_unbounded(nodes: Seq<LayoutNode>, done: Seq<bool>, rank: Seq<nat>, k: nat)
    requires
        well_formed(nodes),
        done.len() == nodes.len(),
        closed_unresolved(nodes, done),
        ranked(nodes, rank),
    ensures
        forall|i: int| 0 <= i < nodes.len() && !done[i] ==> rank[i] >= k,
    decreases k,
{
    if k > 0 {
        lemma_closed_ranks_unbounded(nodes, done, rank, (k - 1) as nat);
        assert forall|i: int| 0 <= i < nodes.len() && !done[i] implies rank[i] >= k by {
            let j = anchor(nodes[i].placement)->Some_0;
            assert(rank[j as int] < rank[i]);
        }
    }
}

/// A non-empty set of unresolved nodes that only refer among themselves rules
/// out any order of resolution.
proof fn lemma_closed_not_acyclic(nodes: Seq<LayoutNode>, done: Seq<bool>, s: int)
    requires
        well_formed(nodes),
        done.len() == nodes.len(),
        closed_unresolved(nodes, done),
        0 <= s < nodes.len(),
        !done[s],
    ensures
        !acyclic(nodes),
{
    assert forall|rank: Seq<nat>| !ranked(nodes, rank) by {
        if ranked(nodes, rank) {
            lemma_closed_ranks_unbounded(nodes, done, rank, rank[s] + 1);
        }
    }
}

/// Spacing of the coordinate bound that grows with each resolved node.
spec fn step_bound() -> int {
    0x2_0000_0000
}

/// Both corner coordinates of `r` lie within the bound for the `stamp`-th resolved node.
spec fn rect_bounded(r: Rect, stamp: nat) -> bool {
    &&& -(stamp + 1) * step_bound() <= r.x <= (stamp + 1) * step_bound()
    &&& -(stamp + 1) * step_bound() <= r.y <= (stamp + 1) * step_bound()
}

/// The rectangle of node `n` against its anchor `a`.
fn place(n: &LayoutNode, a: &Rect) -> (r: Rect)
    requires
        -0x4000_0000_0000_0000 <= a.x <= 0x4000_0000_0000_0000,
        -0x4000_0000_0000_0000 <= a.y <= 0x4000_0000_0000_0000,
        0 <= a.w <= u32::MAX,
        0 <= a.h <= u32::MAX,
    ensures
        r.x == placed_x(*n, *a),
        r.y == placed_y(*n, *a),
        r.w == n.w,
        r.h == n.h,
        anchor(n.placement) is None ==> -step_bound() <= r.x <= step_bound() && -step_bound()
            <= r.y <= step_bound(),
        anchor(n.placement) is Some ==> (a.x - step_bound() <= r.x <= a.x + step_bound() && a.y
            - step_bound() <= r.y <= a.y + step_bound()),
{
    let (x, y): (i64, i64) = match n.placement {
        Placement::Absolute { x, y } => (x as i64, y as i64),
        Placement::TopLeftOf { margin, .. } => (a.x + margin as i64, a.y + margin as i64),
        Placement::RightOf { gap, .. } => (a.x + a.w + gap as i64, a.y),
        Placement::Below { gap, .. } => (a.x, a.y + a.h + gap as i64),
    };
    Rect { x, y, w: n.w as i64, h: n.h as i64 }
}

/// Resolves every node's rectangle, or reports a reference cycle. On success
/// each rectangle meets its node's placement; the layout fails exactly when
/// the references contain a cycle, and then no rectangle is handed out.
pub fn resolve(nodes: &Vec<LayoutNode>) -> (r: Result<Vec<Rect>, LayoutError>)
    requires
        well_formed(nodes@),
        nodes@.len() <= MAX_NODES,
    ensures
        r is Ok <==> acyclic(nodes@),
        r matches Ok(rects) ==> satisfies(nodes@, rects@),
        r matches Err(LayoutError::Cycle { node }) ==> node < nodes@.len(),
{
    let n = nodes.len();
    let mut rects: Vec<Rect> = Vec::new();
    let mut done: Vec<bool> = Vec::new();
    let mut k: usize = 0;
    while k < n
        invariant
            k <= n,
            rects@.len() == k,
            done@.len() == k,
            forall|i: int| 0 <= i < k ==> !done@[i],
        decreases n - k,
    {
        rects.push(Rect { x: 0, y: 0, w: 0, h: 0 });
        done.push(false);
        k = k + 1;
    }
    let ghost mut rank: Seq<nat> = Seq::new(n as nat, |i: int| 0nat);
    let ghost mut pending: Set<int> = set_int_range(0, n as int);
    proof {
        vstd::set_lib::lemma_int_range(0, n as int);
    }
    let mut count: usize = 0;
    loop
        invariant
            n == nodes@.len(),
            well_formed(nodes@),
            n <= MAX_NODES,
            rects@.len() == n,
            done@.len() == n,
            rank.len() == n,
            pending.finite(),
            pending.len() + count == n,
            forall|i: int| 0 <= i < n ==> (pending.contains(i) <==> !done@[i]),
            forall|i: int| #[trigger] pending.contains(i) ==> 0 <= i < n,
            forall|i: int| 0 <= i < n && done@[i] ==> rank[i] < count,
            forall|i: int|
                0 <= i < n && #[trigger] done@[i] ==> (anchor(nodes@[i].placement) matches Some(j)
                    ==> done@[j as int] && rank[j as int] < rank[i]),
            forall|i: int| 0 <= i < n && #[trigger] done@[i] ==> node_satisfied(nodes@, rects@, i),
            forall|i: int| 0 <= i < n && #[trigger] done@[i] ==> rect_bounded(rects@[i], rank[i]),
        decreases pending.len(),
    {
        let ghost pending_at_start = pending.len();
        let mut progress = false;
        let mut stuck: Option<usize> = None;
        let mut i: usize = 0;
        while i < n
            invariant
                n == nodes@.len(),
                well_formed(nodes@),
                n <= MAX_NODES,
                i <= n,
                rects@.len() == n,
                done@.len() == n,
                rank.len() == n,
                pending.finite(),
                pending.len() + count == n,
                forall|i: int| 0 <= i < n ==> (pending.contains(i) <==> !done@[i]),
                forall|i: int| #[trigger] pending.contains(i) ==> 0 <= i < n,
                forall|i: int| 0 <= i < n && done@[i] ==> rank[i] < count,
                forall|i: int|
                    0 <= i < n && #[trigger] done@[i] ==> (anchor(nodes@[i].placement) matches Some(
                        j) ==> done@[j as int] && rank[j as int] < rank[i]),
                forall|i: int|
                    0 <= i < n && #[trigger] done@[i] ==> node_satisfied(nodes@, rects@, i),
                forall|i: int|
                    0 <= i < n && #[trigger] done@[i] ==> rect_bounded(rects@[i], rank[i]),
                progress ==> pending.len() < pending_at_start,
                !progress ==> pending.len() == pending_at_start,
                stuck is None ==> forall|k: int| 0 <= k < i ==> done@[k],
                stuck matches Some(s) ==> s < i && !done@[s as int],
                !progress ==> forall|k: int|
                    0 <= k < i && !done@[k] ==> (#[trigger] anchor(nodes@[k].placement) matches Some(
                        j) && !done@[j as int]),
            decreases n - i,
        {
            if !done[i] {
                let ready = match nodes[i].placement {
                    Placement::Absolute { .. } => true,
                    Placement::TopLeftOf { parent, .. } => done[parent],
                    Placement::RightOf { sibling, .. } => done[sibling],
                    Placement::Below { sibling, .. } => done[sibling],
                };
                if ready {
                    let a = match nodes[i].placement {
                        Placement::Absolute { .. } => Rect { x: 0, y: 0, w: 0, h: 0 },
                        Placement::TopLeftOf { parent, .. } => rects[parent],
                        Placement::RightOf { sibling, .. } => rects[sibling],
                        Placement::Below { sibling, .. } => rects[sibling],
                    };
                    proof {
                        assert(pending.contains(i as int));
                        if let Some(j) = anchor(nodes@[i as int].placement) {
                            assert(done@[j as int]);
                            assert(rect_bounded(rects@[j as int], rank[j as int]));
                            assert(node_satisfied(nodes@, rects@, j as int));
                        }
                    }
                    let placed = place(&nodes[i], &a);
                    let ghost old_rects = rects@;
                    let ghost old_done = done@;
                    rects.set(i, placed);
                    done.set(i, true);
                    proof {
                        rank = rank.update(i as int, count as nat);
                        pending = pending.remove(i as int);
                        assert forall|k: int| 0 <= k < n && #[trigger] done@[k] implies node_satisfied(
                            nodes@,
                            rects@,
                            k,
                        ) by {
                            if k != i {
                                assert(old_done[k]);
                                assert(node_satisfied(nodes@, old_rects, k));
                            }
                        }
                        assert forall|k: int| 0 <= k < n && #[trigger] done@[k] implies rect_bounded(
                            rects@[k],
                            rank[k],
                        ) by {
                            if k != i {
                                assert(old_done[k]);
                            }
                        }
                    }
                    count = count + 1;
                    progress = true;
                } else {
                    stuck = Some(i);
                }
            }
            i = i + 1;
        }
        if !progress {
            match stuck {
                None => {
                    proof {
                        assert(ranked(nodes@, rank));
                        assert forall|i: int| 0 <= i < n implies #[trigger] node_satisfied(
                            nodes@,
                            rects@,
                            i,
                        ) by {
                            assert(done@[i]);
                        }
                    }
                    return Ok(rects);
                },
                Some(s) => {
                    proof {
                        lemma_closed_not_acyclic(nodes@, done@, s as int);
                    }
                    return Err(LayoutError::Cycle { node: s });
                },
            }
        }
    }
}

/// Two nodes placed relative to each other make the layout cyclic, so
/// `resolve` fails on it and hands out no rectangle.
pub proof fn lemma_mutual_reference_is_cyclic(nodes: Seq<LayoutNode>, a: usize, b: usize)
    requires
        a < nodes.len(),
        b < nodes.len(),
        anchor(nodes[a as int].placement) == Some(b),
        anchor(nodes[b as int].placement) == Some(a),
    ensures
        !acyclic(nodes),
{
    assert forall|rank: Seq<nat>| !ranked(nodes, rank) by {
        if ranked(nodes, rank) {
            assert(rank[b as int] < rank[a as int]);
            assert(rank[a as int] < rank[b as int]);
        }
    }
}

/// Without a cycle, every node gets exactly one rectangle, and it meets the
/// node's placement.
pub proof fn lemma_acyclic_resolves_each_once(nodes: Seq<LayoutNode>, rects: Seq<Rect>)
    requires
        satisfies(nodes, rects),
    ensures
        rects.len() == nodes.len(),
        forall|i: int| 0 <= i < nodes.len() ==> node_satisfied(nodes, rects, i),
{
}

/// A placement that names the node it refers to by widget id.
#[derive(Clone, Copy, Debug, PartialEq, Eq, Structural)]
pub enum Relation {
    /// At the given left/top corner.
    Absolute { x: i32, y: i32 },
    /// Inside the top left corner of `parent`, inset by `margin` on both axes.
    TopLeftOf { parent: WidgetId, margin: i32 },
    /// To the right of `sibling`, `gap` pixels past its right edge, tops aligned.
    RightOf { sibling: WidgetId, gap: i32 },
    /// Below `sibling`, `gap` pixels past its bottom edge, left edges aligned.
    Below { sibling: WidgetId, gap: i32 },
}

/// One widget as declared in a frame, with its placement and dimensions.
#[derive(Clone, Copy, Debug, PartialEq, Eq, Structural)]
pub struct Declared {
    pub id: WidgetId,
    pub relation: Relation,
    pub w: u32,
    pub h: u32,
}

/// Why a frame's layout failed.
#[derive(Clone, Copy, Debug, PartialEq, Eq, Structural)]
pub enum FrameError {
    /// `id` was declared more than once.
    DuplicateId { id: WidgetId },
    /// A placement refers to `id`, which was not declared.
    UnknownNode { id: WidgetId },
    /// `id`'s placement depends on a reference cycle.
    Cycle { id: WidgetId },
}

/// The widget a relation refers to, if any.
pub open spec fn target(r: Relation) -> Option<WidgetId> {
    match r {
        Relation::Absolute { .. } => None,
        Relation::TopLeftOf { parent, .. } => Some(parent),
        Relation::RightOf { sibling, .. } => Some(sibling),
        Relation::Below { sibling, .. } => Some(sibling),
    }
}

/// No id is declared twice.
pub open spec fn unique_ids(ds: Seq<Declared>) -> bool {
    forall|i: int, j: int|
        0 <= i < ds.len() && 0 <= j < ds.len() && i != j ==> #[trigger] ds[i].id != #[trigger] ds[j].id
}

/// Whether `id` is declared.
pub open spec fn is_declared(ds: Seq<Declared>, id: WidgetId) -> bool {
    exists|j: int| 0 <= j < ds.len() && #[trigger] ds[j].id == id
}

/// Every relation refers to a declared id.
pub open spec fn all_known(ds: Seq<Declared>) -> bool {
    forall|i: int|
        0 <= i < ds.len() ==> (#[trigger] target(ds[i].relation) matches Some(t) ==> is_declared(
            ds,
            t,
        ))
}

/// Where `id` was declared.
pub open spec fn index_of(ds: Seq<Declared>, id: WidgetId) -> int {
    choose|j: int| 0 <= j < ds.len() && #[trigger] ds[j].id == id
}

/// The declarations with each referenced id replaced by where it was declared.
pub open spec fn indexed(ds: Seq<Declared>) -> Seq<LayoutNode> {
    Seq::new(
        ds.len(),
        |i: int|
            LayoutNode {
                placement: match ds[i].relation {
                    Relation::Absolute { x, y } => Placement::Absolute { x, y },
                    Relation::TopLeftOf { parent, margin } => Placement::TopLeftOf {
                        parent: index_of(ds, parent) as usize,
                        margin,
                    },
                    Relation::RightOf { sibling, gap } => Placement::RightOf {
                        sibling: index_of(ds, sibling) as usize,
                        gap,
                    },
                    Relation::Below { sibling, gap } => Placement::Below {
                        sibling: index_of(ds, sibling) as usize,
                        gap,
                    },
                },
                w: ds[i].w,
                h: ds[i].h,
            },
    )
}

/// Where `id` was declared, if it was.
fn find(ds: &Vec<Declared>, id: WidgetId) -> (r: Option<usize>)
    ensures
        r matches Some(j) ==> j < ds@.len() && ds@[j as int].id == id,
        r is None ==> !is_declared(ds@, id),
{
    let mut j: usize = 0;
    while j < ds.len()
        invariant
            j <= ds@.len(),
            forall|k: int| 0 <= k < j ==> ds@[k].id != id,
        decreases ds@.len() - j,
    {
        if ds[j].id == id {
            return Some(j);
        }
        j = j + 1;
    }
    None
}

/// Lays out one frame's declarations, in declaration order. Fails on an id
/// declared twice, then on a reference to an undeclared id, then on a
/// reference cycle; otherwise each rectangle meets its declaration.
pub fn layout_frame(ds: &Vec<Declared>) -> (r: Result<Vec<Rect>, FrameError>)
    requires
        ds@.len() <= MAX_NODES,
    ensures
        r matches Err(FrameError::DuplicateId { id }) ==> !unique_ids(ds@) && exists|i: int, j: int|
            0 <= i < j < ds@.len() && ds@[i].id == id && ds@[j].id == id,
        !unique_ids(ds@) ==> r is Err && r->Err_0 is DuplicateId,
        unique_ids(ds@) && !all_known(ds@) ==> r is Err && r->Err_0 is UnknownNode,
        r matches Err(FrameError::UnknownNode { id }) ==> !is_declared(ds@, id),
        unique_ids(ds@) && all_known(ds@) ==> {
            &&& r is Ok <==> acyclic(indexed(ds@))
            &&& r matches Ok(rects) ==> satisfies(indexed(ds@), rects@)
            &&& r matches Err(e) ==> e is Cycle && is_declared(ds@, e->Cycle_id)
        },
{
    let n = ds.len();
    let mut i: usize = 0;
    while i < n
        invariant
            n == ds@.len(),
            i <= n,
            forall|a: int, b: int| 0 <= a < i && 0 <= b < n && a != b ==> #[trigger] ds@[a].id != #[trigger] ds@[b].id,
        decreases n - i,
    {
        let mut j: usize = 0;
        while j < n
            invariant
                n == ds@.len(),
                i < n,
                j <= n,
                forall|a: int, b: int| 0 <= a < i && 0 <= b < n && a != b ==> #[trigger] ds@[a].id != #[trigger] ds@[b].id,
                forall|b: int| 0 <= b < j && b != i ==> ds@[i as int].id != #[trigger] ds@[b].id,
            decreases n - j,
        {
            if j != i && ds[i].id == ds[j].id {
                let id = ds[i].id;
                proof {
                    if i < j {
                        assert(ds@[i as int].id == id && ds@[j as int].id == id);
                    } else {
                        assert(ds@[j as int].id == id && ds@[i as int].id == id);
                    }
                }
                return Err(FrameError::DuplicateId { id });
            }
            j = j + 1;
        }
        i = i + 1;
    }
    assert(unique_ids(ds@));
    let mut nodes: Vec<LayoutNode> = Vec::new();
    let mut k: usize = 0;
    while k < n
        invariant
            n == ds@.len(),
            k <= n,
            unique_ids(ds@),
            forall|i: int| 0 <= i < k ==> (#[trigger] target(ds@[i].relation) matches Some(t) ==> is_declared(ds@, t)),
            nodes@ == indexed(ds@).take(k as int),
            forall|i: int| 0 <= i < k ==> (#[trigger] anchor(nodes@[i].placement) matches Some(j) ==> j < n),
        decreases n - k,
    {
        let d = ds[k];
        let placement = match d.relation {
            Relation::Absolute { x, y } => Placement::Absolute { x, y },
            Relation::TopLeftOf { parent, margin } => match find(ds, parent) {
                Some(j) => Placement::TopLeftOf { parent: j, margin },
                None => return Err(FrameError::UnknownNode { id: parent }),
            },
            Relation::RightOf { sibling, gap } => match find(ds, sibling) {
                Some(j) => Placement::RightOf { sibling: j, gap },
                None => return Err(FrameError::UnknownNode { id: sibling }),
            },
            Relation::Below { sibling, gap } => match find(ds, sibling) {
                Some(j) => Placement::Below { sibling: j, gap },
                None => return Err(FrameError::UnknownNode { id: sibling }),
            },
        };
        proof {
            if let Some(t) = target(d.relation) {
                let j = choose|j: int| 0 <= j < ds@.len() && #[trigger] ds@[j].id == t;
                assert(ds@[index_of(ds@, t)].id == t);
                assert(anchor(placement) == Some(index_of(ds@, t) as usize)) by {
                    let jj = anchor(placement)->Some_0;
                    assert(ds@[jj as int].id == t);
                }
            }
        }
        nodes.push(LayoutNode { placement, w: d.w, h: d.h });
        proof {
            assert(nodes@ =~= indexed(ds@).take(k as int + 1));
        }
        k = k + 1;
    }
    assert(nodes@ =~= indexed(ds@));
    match resolve(&nodes) {
        Ok(rects) => Ok(rects),
        Err(LayoutError::Cycle { node }) => Err(FrameError::Cycle { id: ds[node].id }),
    }
}

} // verus!
