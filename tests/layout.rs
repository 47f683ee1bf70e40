use conrod::geometry::Rect;
use conrod::layout::{resolve, LayoutError, LayoutNode, Placement};

fn node(placement: Placement, w: u32, h: u32) -> LayoutNode {
    LayoutNode { placement, w, h }
}

#[test]
fn parent_child_and_sibling_scenario() {
    let nodes = vec![
        node(Placement::Absolute { x: 0, y: 0 }, 400, 300),
        node(Placement::TopLeftOf { parent: 0, margin: 10 }, 100, 50),
        node(Placement::RightOf { sibling: 1, gap: 20 }, 80, 50),
    ];
    let rects = resolve(&nodes).unwrap();
    assert_eq!(rects[0], Rect::new(0, 0, 400, 300));
    assert_eq!(rects[1], Rect::new(10, 10, 100, 50));
    assert_eq!((rects[1].right(), rects[1].bottom()), (110, 60));
    assert_eq!(rects[2], Rect::new(130, 10, 80, 50));
    assert_eq!((rects[2].right(), rects[2].bottom()), (210, 60));
}

#[test]
fn forward_reference_resolves() {
    let nodes = vec![
        node(Placement::Below { sibling: 1, gap: 5 }, 10, 10),
        node(Placement::Absolute { x: -3, y: 7 }, 20, 30),
    ];
    let rects = resolve(&nodes).unwrap();
    assert_eq!(rects[0], Rect::new(-3, 42, 10, 10));
    assert_eq!(rects[1], Rect::new(-3, 7, 20, 30));
}

#[test]
fn mutual_reference_fails_without_rectangles() {
    let nodes = vec![
        node(Placement::Absolute { x: 0, y: 0 }, 10, 10),
        node(Placement::RightOf { sibling: 2, gap: 0 }, 10, 10),
        node(Placement::RightOf { sibling: 1, gap: 0 }, 10, 10),
    ];
    match resolve(&nodes) {
        Err(LayoutError::Cycle { node }) => assert!(node == 1 || node == 2),
        Ok(_) => panic!("a cyclic layout resolved"),
    }
}

#[test]
fn self_reference_is_a_cycle() {
    let nodes = vec![node(Placement::TopLeftOf { parent: 0, margin: 1 }, 1, 1)];
    assert_eq!(resolve(&nodes), Err(LayoutError::Cycle { node: 0 }));
}

#[test]
fn empty_layout_resolves() {
    let nodes: Vec<LayoutNode> = Vec::new();
    assert_eq!(resolve(&nodes), Ok(Vec::new()));
}

#[test]
fn long_chain_resolves_in_order() {
    let mut nodes = Vec::new();
    for i in 0..50usize {
        nodes.push(node(Placement::RightOf { sibling: i + 1, gap: 1 }, 2, 3));
    }
    nodes.push(node(Placement::Absolute { x: 0, y: 0 }, 2, 3));
    let rects = resolve(&nodes).unwrap();
    assert_eq!(rects[50], Rect::new(0, 0, 2, 3));
    assert_eq!(rects[0], Rect::new(150, 0, 2, 3));
}

use conrod::layout::{layout_frame, Declared, FrameError, Relation};

fn decl(id: u64, relation: Relation, w: u32, h: u32) -> Declared {
    Declared { id, relation, w, h }
}

#[test]
fn frame_layout_by_id_scenario() {
    let ds = vec![
        decl(30, Relation::RightOf { sibling: 20, gap: 20 }, 80, 50),
        decl(10, Relation::Absolute { x: 0, y: 0 }, 400, 300),
        decl(20, Relation::TopLeftOf { parent: 10, margin: 10 }, 100, 50),
    ];
    let rects = layout_frame(&ds).unwrap();
    assert_eq!(rects[0], Rect::new(130, 10, 80, 50));
    assert_eq!(rects[1], Rect::new(0, 0, 400, 300));
    assert_eq!(rects[2], Rect::new(10, 10, 100, 50));
}

#[test]
fn frame_layout_errors() {
    let dup = vec![
        decl(1, Relation::Absolute { x: 0, y: 0 }, 1, 1),
        decl(1, Relation::Absolute { x: 0, y: 0 }, 1, 1),
    ];
    assert_eq!(layout_frame(&dup), Err(FrameError::DuplicateId { id: 1 }));
    let unknown = vec![decl(1, Relation::Below { sibling: 9, gap: 0 }, 1, 1)];
    assert_eq!(layout_frame(&unknown), Err(FrameError::UnknownNode { id: 9 }));
    let cyclic = vec![
        decl(1, Relation::RightOf { sibling: 2, gap: 0 }, 1, 1),
        decl(2, Relation::Below { sibling: 1, gap: 0 }, 1, 1),
    ];
    match layout_frame(&cyclic) {
        Err(FrameError::Cycle { id }) => assert!(id == 1 || id == 2),
        other => panic!("unexpected {:?}", other),
    }
}
