use conrod::graph::{states_equal, Graph, WidgetState, WidgetStyle};
use conrod::rectangle::{Kind, State as RectState, Style as RectStyle};

fn rect_state(kind: Kind) -> WidgetState {
    WidgetState::Rectangle(RectState { kind })
}

fn fill() -> WidgetStyle {
    WidgetStyle::Rectangle(RectStyle::Fill(None))
}

#[test]
fn new_node_takes_initial_values_and_redraws() {
    let mut g = Graph::new();
    g.begin_frame();
    g.get_or_init(1, None, rect_state(Kind::Fill), fill());
    let n = g.node(1).unwrap();
    assert!(n.redraw);
    assert!(states_equal(&n.state, &rect_state(Kind::Fill)));
    assert_eq!(n.style, fill());
}

#[test]
fn committed_state_persists_into_next_frame() {
    let mut g = Graph::new();
    g.begin_frame();
    g.get_or_init(1, None, rect_state(Kind::Fill), fill());
    g.commit(1, rect_state(Kind::Outline), fill());
    g.end_frame();
    g.begin_frame();
    g.get_or_init(1, Some(0), rect_state(Kind::Fill), fill());
    let n = g.node(1).unwrap();
    assert!(states_equal(&n.state, &rect_state(Kind::Outline)));
    assert_eq!(n.parent, Some(0));
}

#[test]
fn undeclared_node_is_removed_and_loses_capture() {
    let mut g = Graph::new();
    g.begin_frame();
    g.get_or_init(1, None, rect_state(Kind::Fill), fill());
    g.get_or_init(2, None, rect_state(Kind::Fill), fill());
    assert!(g.capture_mouse(2));
    assert!(g.capture_keyboard(2));
    g.end_frame();
    g.begin_frame();
    g.get_or_init(1, None, rect_state(Kind::Fill), fill());
    g.end_frame();
    assert!(g.node(2).is_none());
    assert!(g.node(1).is_some());
    assert_eq!(g.mouse_capture(), None);
    assert_eq!(g.keyboard_capture(), None);
}

#[test]
fn redraw_only_on_change() {
    let mut g = Graph::new();
    g.begin_frame();
    g.get_or_init(1, None, rect_state(Kind::Fill), fill());
    g.commit(1, rect_state(Kind::Outline), fill());
    assert!(g.node(1).unwrap().redraw);
    g.commit(1, rect_state(Kind::Outline), fill());
    assert!(!g.node(1).unwrap().redraw);
    g.commit(1, rect_state(Kind::Outline), WidgetStyle::Rectangle(RectStyle::Fill(Some(
        conrod::color::Color { r: 1, g: 2, b: 3, a: 4 },
    ))));
    assert!(g.node(1).unwrap().redraw);
}

#[test]
fn declaring_twice_in_a_frame_keeps_one_entry() {
    let mut g = Graph::new();
    g.begin_frame();
    g.get_or_init(5, None, rect_state(Kind::Fill), fill());
    g.get_or_init(6, None, rect_state(Kind::Fill), fill());
    g.get_or_init(5, None, rect_state(Kind::Outline), fill());
    assert_eq!(g.declaration_order(), &vec![5, 6]);
    assert!(states_equal(&g.node(5).unwrap().state, &rect_state(Kind::Fill)));
}

#[test]
fn capture_moves_to_the_latest_requester() {
    let mut g = Graph::new();
    g.begin_frame();
    g.get_or_init(1, None, rect_state(Kind::Fill), fill());
    g.get_or_init(2, None, rect_state(Kind::Fill), fill());
    assert!(g.capture_mouse(1));
    assert!(g.capture_mouse(2));
    assert_eq!(g.mouse_capture(), Some(2));
    g.release_mouse(1);
    assert_eq!(g.mouse_capture(), Some(2));
    g.release_mouse(2);
    assert_eq!(g.mouse_capture(), None);
    assert!(!g.capture_mouse(3));
    assert_eq!(g.mouse_capture(), None);
}

#[test]
fn keyboard_capture_is_exclusive() {
    let mut g = Graph::new();
    g.begin_frame();
    g.get_or_init(1, None, rect_state(Kind::Fill), fill());
    g.get_or_init(2, None, rect_state(Kind::Fill), fill());
    assert!(g.capture_keyboard(1));
    assert!(g.capture_keyboard(2));
    assert_eq!(g.keyboard_capture(), Some(2));
    g.release_keyboard(2);
    assert_eq!(g.keyboard_capture(), None);
}
