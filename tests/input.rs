use conrod::geometry::Rect;
use conrod::input::{hit_test, route_pointer, ButtonState, Gesture, HitNode, RawEvent, Thresholds};

fn th() -> Thresholds {
    Thresholds { click_ms: 300, double_click_ms: 500, deadzone: 4 }
}

#[test]
fn press_release_in_place_is_a_click() {
    let mut b = ButtonState::new();
    assert!(b.step(RawEvent::Press { x: 10, y: 10, t: 0 }, th()).is_empty());
    assert_eq!(b.step(RawEvent::Move { x: 12, y: 9, t: 50 }, th()), vec![]);
    assert_eq!(
        b.step(RawEvent::Release { x: 10, y: 10, t: 100 }, th()),
        vec![Gesture::Click { x: 10, y: 10 }]
    );
}

#[test]
fn moving_past_deadzone_is_a_drag() {
    let mut b = ButtonState::new();
    b.step(RawEvent::Press { x: 0, y: 0, t: 0 }, th());
    assert_eq!(
        b.step(RawEvent::Move { x: 5, y: 0, t: 10 }, th()),
        vec![Gesture::DragStart { x: 0, y: 0 }, Gesture::DragUpdate { x: 5, y: 0 }]
    );
    assert_eq!(
        b.step(RawEvent::Move { x: 0, y: 1, t: 20 }, th()),
        vec![Gesture::DragUpdate { x: 0, y: 1 }]
    );
    assert_eq!(
        b.step(RawEvent::Release { x: 0, y: 0, t: 30 }, th()),
        vec![Gesture::DragEnd { x: 0, y: 0 }]
    );
}

#[test]
fn long_press_is_no_click() {
    let mut b = ButtonState::new();
    b.step(RawEvent::Press { x: 0, y: 0, t: 0 }, th());
    assert!(b.step(RawEvent::Release { x: 0, y: 0, t: 301 }, th()).is_empty());
}

#[test]
fn two_quick_clicks_make_a_double_click() {
    let mut b = ButtonState::new();
    b.step(RawEvent::Press { x: 0, y: 0, t: 0 }, th());
    b.step(RawEvent::Release { x: 0, y: 0, t: 10 }, th());
    b.step(RawEvent::Press { x: 1, y: 1, t: 100 }, th());
    assert_eq!(
        b.step(RawEvent::Release { x: 1, y: 1, t: 110 }, th()),
        vec![Gesture::Click { x: 1, y: 1 }, Gesture::DoubleClick { x: 1, y: 1 }]
    );
    b.step(RawEvent::Press { x: 1, y: 1, t: 200 }, th());
    assert_eq!(
        b.step(RawEvent::Release { x: 1, y: 1, t: 210 }, th()),
        vec![Gesture::Click { x: 1, y: 1 }]
    );
}

#[test]
fn slow_second_click_is_single() {
    let mut b = ButtonState::new();
    b.step(RawEvent::Press { x: 0, y: 0, t: 0 }, th());
    b.step(RawEvent::Release { x: 0, y: 0, t: 10 }, th());
    b.step(RawEvent::Press { x: 0, y: 0, t: 600 }, th());
    assert_eq!(
        b.step(RawEvent::Release { x: 0, y: 0, t: 610 }, th()),
        vec![Gesture::Click { x: 0, y: 0 }]
    );
}

fn nodes() -> Vec<HitNode> {
    vec![
        HitNode { id: 1, rect: Rect::new(0, 0, 100, 100), accepts: true },
        HitNode { id: 2, rect: Rect::new(10, 10, 20, 20), accepts: true },
        HitNode { id: 3, rect: Rect::new(10, 10, 5, 5), accepts: false },
    ]
}

#[test]
fn topmost_accepting_node_is_hit() {
    assert_eq!(hit_test(&nodes(), 12, 12), Some(2));
    assert_eq!(hit_test(&nodes(), 50, 50), Some(1));
    assert_eq!(hit_test(&nodes(), 100, 50), None);
    assert_eq!(hit_test(&Vec::new(), 0, 0), None);
}

#[test]
fn capture_holder_gets_pointer_everywhere() {
    assert_eq!(route_pointer(Some(1), &nodes(), 12, 12), Some(1));
    assert_eq!(route_pointer(Some(7), &nodes(), -500, 500), Some(7));
    assert_eq!(route_pointer(None, &nodes(), 12, 12), Some(2));
}

#[test]
fn rect_contains_edges() {
    let r = Rect::new(0, 0, 10, 10);
    assert!(r.contains(0, 0));
    assert!(r.contains(9, 9));
    assert!(!r.contains(10, 5));
    assert!(!r.contains(-1, 5));
}

use conrod::input::{events_for, route_events};

#[test]
fn gestures_go_to_the_node_under_the_pointer() {
    let mut b = ButtonState::new();
    let events = vec![
        RawEvent::Press { x: 12, y: 12, t: 0 },
        RawEvent::Release { x: 12, y: 12, t: 5 },
        RawEvent::Press { x: 50, y: 50, t: 1000 },
        RawEvent::Move { x: 90, y: 50, t: 1010 },
        RawEvent::Release { x: 200, y: 200, t: 1020 },
    ];
    let routed = route_events(&mut b, None, &nodes(), &events, th());
    assert_eq!(
        routed,
        vec![
            (2, Gesture::Click { x: 12, y: 12 }),
            (1, Gesture::DragStart { x: 50, y: 50 }),
            (1, Gesture::DragUpdate { x: 90, y: 50 }),
        ]
    );
    assert_eq!(events_for(&routed, 1).len(), 2);
    assert_eq!(events_for(&routed, 2), vec![Gesture::Click { x: 12, y: 12 }]);
    assert!(events_for(&routed, 3).is_empty());
}

#[test]
fn captured_drag_reaches_holder_off_its_rect() {
    let mut b = ButtonState::new();
    let events = vec![
        RawEvent::Press { x: 12, y: 12, t: 0 },
        RawEvent::Move { x: 300, y: 300, t: 10 },
        RawEvent::Release { x: 300, y: 300, t: 20 },
    ];
    let routed = route_events(&mut b, Some(2), &nodes(), &events, th());
    assert_eq!(
        events_for(&routed, 2),
        vec![
            Gesture::DragStart { x: 12, y: 12 },
            Gesture::DragUpdate { x: 300, y: 300 },
            Gesture::DragEnd { x: 300, y: 300 },
        ]
    );
    assert!(events_for(&routed, 1).is_empty());
}
