use conrod::color::{Color, Theme};
use conrod::file_navigator::{
    apply_action, resize_column, take_view_events, Action, ColumnInput, Directory, Event,
    FileNavigator, Handle, Style, Types, ViewEvent,
};
use conrod::id::IdRegistry;

fn s(x: &str) -> String {
    x.to_string()
}

fn dir(path: &str, w: u32) -> Directory {
    Directory { path: s(path), column_width: w }
}

fn no_input() -> ColumnInput {
    ColumnInput { drags: vec![], handle: None, events: vec![] }
}

fn select(paths: &[&str], first_is_dir: bool) -> ColumnInput {
    ColumnInput {
        drags: vec![],
        handle: None,
        events: vec![ViewEvent::Selection {
            paths: paths.iter().map(|p| s(p)).collect(),
            first_is_dir,
        }],
    }
}

#[test]
fn builders_set_fields() {
    let nav = FileNavigator::all(s("/home"));
    assert!(matches!(nav.types, Types::All));
    assert!(!nav.show_hidden);
    let nav = FileNavigator::with_extension(s("/m"), vec![s("wav"), s("aiff")])
        .show_hidden_files(true)
        .font_size(18)
        .text_color(Color { r: 1, g: 1, b: 1, a: 1 })
        .unselected_color(Color { r: 2, g: 2, b: 2, a: 2 })
        .color(Color { r: 3, g: 3, b: 3, a: 3 });
    assert!(nav.show_hidden);
    assert!(matches!(nav.types, Types::WithExtension(ref e) if e.len() == 2));
    assert_eq!(nav.style.font_size, Some(18));
    assert_eq!(nav.style.text_color, Some(Some(Color { r: 1, g: 1, b: 1, a: 1 })));
    assert_eq!(nav.style.unselected_color, Some(Some(Color { r: 2, g: 2, b: 2, a: 2 })));
    assert_eq!(nav.style.color, Some(Color { r: 3, g: 3, b: 3, a: 3 }));
}

#[test]
fn style_defaults_come_from_theme() {
    let theme = Theme { shape_color: Color { r: 250, g: 250, b: 250, a: 255 }, font_size_medium: 14 };
    let st = Style::new();
    assert_eq!(st.color(&theme), theme.shape_color);
    assert_eq!(st.text_color(&theme), Color { r: 0, g: 0, b: 0, a: 255 });
    assert_eq!(st.unselected_color(&theme), Color { r: 255, g: 255, b: 255, a: 255 });
    assert_eq!(st.font_size(&theme), 14);
    assert_eq!(st.column_width(), 250);
    assert_eq!(st.resize_handle_width(), 5);
}

#[test]
fn first_update_opens_starting_directory() {
    let nav = FileNavigator::all(s("/home"));
    let mut state = nav.init_state();
    let mut ids = IdRegistry::new();
    let frame = nav.update(&mut state, &mut ids, 600, 600, vec![], false);
    assert!(frame.events.is_empty());
    assert!(frame.scrolls.is_empty());
    assert_eq!(state.starting_directory, s("/home"));
    assert_eq!(state.directory_stack, vec![dir("/home", 250)]);
    assert_eq!(state.scrollable_canvas_idx, Some(0));
    assert_eq!(state.scrollbar_idx, Some(1));
    assert_eq!(state.directory_view_indices, vec![(2, 3)]);
    assert_eq!(ids.issued(), 4);
}

#[test]
fn selecting_a_directory_enters_it_and_scrolls() {
    let nav = FileNavigator::all(s("/home"));
    let mut state = nav.init_state();
    let mut ids = IdRegistry::new();
    nav.update(&mut state, &mut ids, 300, 300, vec![], false);
    let frame = nav.update(&mut state, &mut ids, 300, 300, vec![select(&["/home/a"], true)], false);
    assert_eq!(state.directory_stack, vec![dir("/home", 250), dir("/home/a", 250)]);
    assert_eq!(
        frame.events,
        vec![Event::ChangeSelection(vec![s("/home/a")]), Event::ChangeDirectory(s("/home/a"))]
    );
    assert_eq!(frame.scrolls, vec![200]);
    assert_eq!(state.directory_view_indices, vec![(2, 3), (4, 5)]);
}

#[test]
fn selecting_a_file_or_several_closes_later_columns() {
    let nav = FileNavigator::all(s("/r"));
    let mut state = nav.init_state();
    let mut ids = IdRegistry::new();
    nav.update(&mut state, &mut ids, 1000, 1000, vec![], false);
    nav.update(&mut state, &mut ids, 1000, 1000, vec![select(&["/r/a"], true)], false);
    nav.update(&mut state, &mut ids, 1000, 1000, vec![no_input(), select(&["/r/a/b"], true)], false);
    assert_eq!(state.directory_stack.len(), 3);
    let frame = nav.update(&mut state, &mut ids, 1000, 1000, vec![select(&["/r/x"], false)], false);
    assert_eq!(state.directory_stack, vec![dir("/r", 250)]);
    assert_eq!(frame.events, vec![Event::ChangeSelection(vec![s("/r/x")])]);
    nav.update(&mut state, &mut ids, 1000, 1000, vec![select(&["/r/a"], true)], false);
    nav.update(&mut state, &mut ids, 1000, 1000, vec![select(&["/r/a", "/r/b"], true)], false);
    assert_eq!(state.directory_stack, vec![dir("/r", 250)]);
}

#[test]
fn canvas_press_keeps_only_first_column() {
    let nav = FileNavigator::all(s("/r"));
    let mut state = nav.init_state();
    let mut ids = IdRegistry::new();
    nav.update(&mut state, &mut ids, 1000, 1000, vec![select(&["/r/a"], true)], false);
    assert_eq!(state.directory_stack.len(), 2);
    nav.update(&mut state, &mut ids, 1000, 1000, vec![], true);
    assert_eq!(state.directory_stack, vec![dir("/r", 250)]);
}

#[test]
fn new_starting_directory_resets_stack() {
    let nav = FileNavigator::all(s("/r"));
    let mut state = nav.init_state();
    let mut ids = IdRegistry::new();
    nav.update(&mut state, &mut ids, 1000, 1000, vec![select(&["/r/a"], true)], false);
    let other = FileNavigator::all(s("/q"));
    other.update(&mut state, &mut ids, 1000, 1000, vec![], false);
    assert_eq!(state.directory_stack, vec![dir("/q", 250)]);
    assert_eq!(state.starting_directory, s("/q"));
}

#[test]
fn forwarded_events_keep_order() {
    let nav = FileNavigator::all(s("/r"));
    let mut state = nav.init_state();
    let mut ids = IdRegistry::new();
    let input = ColumnInput {
        drags: vec![],
        handle: None,
        events: vec![
            ViewEvent::Press(vec![s("/r/f")]),
            ViewEvent::Release(vec![s("/r/f")]),
            ViewEvent::Click(vec![s("/r/f")]),
            ViewEvent::DoubleClick(vec![s("/r/f")]),
        ],
    };
    let frame = nav.update(&mut state, &mut ids, 1000, 1000, vec![input], false);
    assert_eq!(
        frame.events,
        vec![
            Event::Press(vec![s("/r/f")]),
            Event::Release(vec![s("/r/f")]),
            Event::Click(vec![s("/r/f")]),
            Event::DoubleClick(vec![s("/r/f")]),
        ]
    );
    assert_eq!(state.directory_stack.len(), 1);
}

#[test]
fn resize_drags_widen_and_scroll() {
    let handle = Handle { w: 5, right: 250 };
    assert_eq!(resize_column(250, &vec![30], handle, 300), (280, 0));
    assert_eq!(resize_column(250, &vec![100], handle, 300), (350, 50));
    assert_eq!(resize_column(250, &vec![-1000], handle, 300), (15, 0));
    assert_eq!(resize_column(250, &vec![60, 10], handle, 300), (320, 10));
    assert_eq!(resize_column(250, &vec![], handle, 300), (250, 0));
}

#[test]
fn resize_through_update() {
    let nav = FileNavigator::all(s("/r"));
    let mut state = nav.init_state();
    let mut ids = IdRegistry::new();
    nav.update(&mut state, &mut ids, 300, 300, vec![], false);
    let input = ColumnInput {
        drags: vec![100],
        handle: Some(Handle { w: 5, right: 250 }),
        events: vec![],
    };
    let frame = nav.update(&mut state, &mut ids, 300, 300, vec![input], false);
    assert_eq!(state.directory_stack, vec![dir("/r", 350)]);
    assert_eq!(frame.scrolls, vec![50]);
}

#[test]
fn last_selection_decides_the_action() {
    let mut out = Vec::new();
    let action = take_view_events(
        vec![
            ViewEvent::Selection { paths: vec![s("/a")], first_is_dir: true },
            ViewEvent::Click(vec![s("/a")]),
            ViewEvent::Selection { paths: vec![s("/b")], first_is_dir: false },
        ],
        &mut out,
    );
    assert_eq!(action, Some(Action::ExitDir));
    assert_eq!(out.len(), 3);
    assert_eq!(take_view_events(vec![ViewEvent::Click(vec![])], &mut out), None);
}

#[test]
fn entering_records_width_and_overflow() {
    let mut stack = vec![dir("/a", 100), dir("/a/b", 120), dir("/a/b/c", 90)];
    let mut events = Vec::new();
    let mut scrolls = Vec::new();
    apply_action(&mut stack, 0, Some(Action::EnterDir(s("/a/z"))), 150, 200, &mut events, &mut scrolls);
    assert_eq!(stack, vec![dir("/a", 100), dir("/a/z", 150)]);
    assert_eq!(events, vec![Event::ChangeDirectory(s("/a/z"))]);
    assert_eq!(scrolls, vec![50]);
    apply_action(&mut stack, 0, Some(Action::ExitDir), 0, 200, &mut events, &mut scrolls);
    assert_eq!(stack, vec![dir("/a", 100)]);
    apply_action(&mut stack, 0, None, 0, 200, &mut events, &mut scrolls);
    assert_eq!(stack, vec![dir("/a", 100)]);
    assert_eq!(events.len(), 1);
}

#[test]
fn entry_filter_by_extension_and_hidden() {
    let nav = FileNavigator::with_extension(s("/m"), vec![s("wav"), s("aiff")]);
    assert!(nav.shows_entry("song.wav", false, false));
    assert!(nav.shows_entry("a.b.aiff", false, false));
    assert!(!nav.shows_entry("song.WAV", false, false));
    assert!(!nav.shows_entry("song.mp3", false, false));
    assert!(!nav.shows_entry("wav", false, false));
    assert!(!nav.shows_entry("song.", false, false));
    assert!(nav.shows_entry("samples", true, false));
    assert!(!nav.shows_entry(".cache", true, true));
    let nav = nav.show_hidden_files(true);
    assert!(nav.shows_entry(".cache", true, true));
    assert!(!nav.shows_entry(".wav", false, true));
    assert!(nav.shows_entry(".x.wav", false, true));
    let all = FileNavigator::all(s("/"));
    assert!(all.shows_entry("anything", false, false));
    assert!(!all.shows_entry(".hidden", false, true));
}
