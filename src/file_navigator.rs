//! A widget for navigating a file system, in the manner of a column browser:
//! a stack of directories laid out left to right, one column each, where
//! selecting a directory in one column opens it in the next.
//!
//! Listing directories and telling files from directories is left to the
//! host, which hands in what each column reported this frame.
use vstd::prelude::*;
use vstd::utf8::encode_utf8;
use crate::color::{Color, Theme, contrast};
use crate::id::{IdRegistry, IdError};

verus! {

/// Default width of one directory column.
pub const DEFAULT_COLUMN_WIDTH: u32 = 250;

/// Default width of the bar between columns that resizes them.
pub const DEFAULT_RESIZE_HANDLE_WIDTH: u32 = 5;

/// Which files a `FileNavigator` shows.
#[derive(Clone, Debug)]
pub enum Types {
    /// Files of every type.
    All,
    /// Only files whose extension is one of these, e.g. `["wav", "wave", "aiff"]`.
    WithExtension(Vec<String>),
}

/// Styling of a `FileNavigator`; a field left `None` takes the theme's value.
#[derive(Clone, Copy, Debug, PartialEq, Eq, Structural)]
pub struct Style {
    /// Color of the selected entries.
    pub color: Option<Color>,
    /// Color of the unselected entries.
    pub unselected_color: Option<Option<Color>>,
    /// Color of the directory and file names.
    pub text_color: Option<Option<Color>>,
    /// Font size of the directory and file names.
    pub font_size: Option<u32>,
    /// Width of a newly opened directory column.
    pub column_width: Option<u32>,
    /// Width of the bar between columns that resizes them.
    pub resize_handle_width: Option<u32>,
}

/// The style with every field unset.
pub open spec fn unset_style() -> Style {
    Style {
        color: None,
        unselected_color: None,
        text_color: None,
        font_size: None,
        column_width: None,
        resize_handle_width: None,
    }
}

impl Style {
    /// A style with every field unset.
    pub fn new() -> (r: Style)
        ensures
            r == unset_style(),
    {
        Style {
            color: None,
            unselected_color: None,
            text_color: None,
            font_size: None,
            column_width: None,
            resize_handle_width: None,
        }
    }

    /// The color of selected entries.
    pub fn color(&self, theme: &Theme) -> (r: Color)
        ensures
            r == (match self.color {
                Some(c) => c,
                None => theme.shape_color,
            }),
    {
        match self.color {
            Some(c) => c,
            None => theme.shape_color,
        }
    }

    /// The color of unselected entries: the one set, else the contrast of the
    /// contrast of the entry color.
    pub fn unselected_color(&self, theme: &Theme) -> (r: Color)
        ensures
            r == (match self.unselected_color {
                Some(Some(c)) => c,
                _ => contrast(contrast(self.spec_color(*theme))),
            }),
    {
        match self.unselected_color {
            Some(Some(c)) => c,
            _ => self.color(theme).plain_contrast().plain_contrast(),
        }
    }

    /// The color of the names: the one set, else the contrast of the entry color.
    pub fn text_color(&self, theme: &Theme) -> (r: Color)
        ensures
            r == (match self.text_color {
                Some(Some(c)) => c,
                _ => contrast(self.spec_color(*theme)),
            }),
    {
        match self.text_color {
            Some(Some(c)) => c,
            _ => self.color(theme).plain_contrast(),
        }
    }

    /// The color of selected entries, as `color` gives it.
    pub open spec fn spec_color(&self, theme: Theme) -> Color {
        match self.color {
            Some(c) => c,
            None => theme.shape_color,
        }
    }

    /// The font size of the names.
    pub fn font_size(&self, theme: &Theme) -> (r: u32)
        ensures
            r == (match self.font_size {
                Some(f) => f,
                None => theme.font_size_medium,
            }),
    {
        match self.font_size {
            Some(f) => f,
            None => theme.font_size_medium,
        }
    }

    /// The width of a newly opened column.
    pub fn column_width(&self) -> (r: u32)
        ensures
            r == (match self.column_width {
                Some(w) => w,
                None => DEFAULT_COLUMN_WIDTH,
            }),
    {
        match self.column_width {
            Some(w) => w,
            None => DEFAULT_COLUMN_WIDTH,
        }
    }

    /// The width of the resize bar.
    pub fn resize_handle_width(&self) -> (r: u32)
        ensures
            r == (match self.resize_handle_width {
                Some(w) => w,
                None => DEFAULT_RESIZE_HANDLE_WIDTH,
            }),
    {
        match self.resize_handle_width {
            Some(w) => w,
            None => DEFAULT_RESIZE_HANDLE_WIDTH,
        }
    }
}

/// A file navigator as declared for one frame.
#[derive(Clone, Debug)]
pub struct FileNavigator {
    /// Its styling.
    pub style: Style,
    /// The first directory shown.
    pub starting_directory: String,
    /// Which files are shown.
    pub types: Types,
    /// Whether hidden files and directories are shown.
    pub show_hidden: bool,
}

impl FileNavigator {
    /// A navigator starting at `starting_directory` that shows files of `types`.
    pub fn new(starting_directory: String, types: Types) -> (r: FileNavigator)
        ensures
            r.style == unset_style(),
            r.starting_directory == starting_directory,
            r.types == types,
            !r.show_hidden,
    {
        FileNavigator { style: Style::new(), starting_directory, types, show_hidden: false }
    }

    /// A navigator that shows files of every type.
    pub fn all(starting_directory: String) -> (r: FileNavigator)
        ensures
            r.style == unset_style(),
            r.starting_directory == starting_directory,
            r.types == Types::All,
            !r.show_hidden,
    {
        Self::new(starting_directory, Types::All)
    }

    /// A navigator that shows only files with one of the extensions `exts`.
    pub fn with_extension(starting_directory: String, exts: Vec<String>) -> (r: FileNavigator)
        ensures
            r.style == unset_style(),
            r.starting_directory == starting_directory,
            r.types == Types::WithExtension(exts),
            !r.show_hidden,
    {
        Self::new(starting_directory, Types::WithExtension(exts))
    }

    /// Sets the color of selected entries.
    pub fn color(self, color: Color) -> (r: FileNavigator)
        ensures
            r == (FileNavigator { style: Style { color: Some(color), ..self.style }, ..self }),
    {
        let mut s = self;
        s.style.color = Some(color);
        s
    }

    /// Sets the color of unselected entries.
    pub fn unselected_color(self, color: Color) -> (r: FileNavigator)
        ensures
            r == (FileNavigator {
                style: Style { unselected_color: Some(Some(color)), ..self.style },
                ..self
            }),
    {
        let mut s = self;
        s.style.unselected_color = Some(Some(color));
        s
    }

    /// Sets the color of the names.
    pub fn text_color(self, color: Color) -> (r: FileNavigator)
        ensures
            r == (FileNavigator {
                style: Style { text_color: Some(Some(color)), ..self.style },
                ..self
            }),
    {
        let mut s = self;
        s.style.text_color = Some(Some(color));
        s
    }

    /// Sets the font size of the names.
    pub fn font_size(self, size: u32) -> (r: FileNavigator)
        ensures
            r == (FileNavigator { style: Style { font_size: Some(size), ..self.style }, ..self }),
    {
        let mut s = self;
        s.style.font_size = Some(size);
        s
    }

    /// Sets whether hidden files and directories are shown.
    pub fn show_hidden_files(self, show_hidden: bool) -> (r: FileNavigator)
        ensures
            r == (FileNavigator { show_hidden, ..self }),
    {
        let mut s = self;
        s.show_hidden = show_hidden;
        s
    }
}

/// One directory open in the navigator.
#[derive(Clone, Debug, PartialEq)]
pub struct Directory {
    /// The directory's path.
    pub path: String,
    /// The width of its column.
    pub column_width: u32,
}

/// What the navigator keeps from one frame to the next.
#[derive(Debug, PartialEq)]
pub struct State {
    /// Id of the canvas that scrolls the columns horizontally, once allocated.
    pub scrollable_canvas_idx: Option<u64>,
    /// Id of the canvas's scrollbar, once allocated.
    pub scrollbar_idx: Option<u64>,
    /// The starting directory last shown.
    pub starting_directory: String,
    /// The open directories, left to right; the first is the starting directory.
    pub directory_stack: Vec<Directory>,
    /// For each column, the ids of its directory view and of its resize bar.
    pub directory_view_indices: Vec<(u64, u64)>,
}

/// What the navigator reports to the application.
#[derive(Clone, Debug, PartialEq)]
pub enum Event {
    /// The directory at the top of the stack changed to this one.
    ChangeDirectory(String),
    /// The selection in a column changed to these paths.
    ChangeSelection(Vec<String>),
    /// These selected entries were clicked.
    Click(Vec<String>),
    /// These selected entries were double-clicked.
    DoubleClick(Vec<String>),
    /// A button or key was pressed over these selected entries.
    Press(Vec<String>),
    /// A button or key was released over these selected entries.
    Release(Vec<String>),
}

/// What one directory column reported this frame.
#[derive(Clone, Debug, PartialEq)]
pub enum ViewEvent {
    /// The selection changed to `paths`; `first_is_dir` tells whether the
    /// first of them is a directory.
    Selection { paths: Vec<String>, first_is_dir: bool },
    /// The selected entries were clicked.
    Click(Vec<String>),
    /// The selected entries were double-clicked.
    DoubleClick(Vec<String>),
    /// A button or key was pressed over the selected entries.
    Press(Vec<String>),
    /// A button or key was released over the selected entries.
    Release(Vec<String>),
}

/// What a column's events ask of the directory stack.
#[derive(Clone, Debug, PartialEq)]
pub enum Action {
    /// Open this directory in the next column, closing those after it.
    EnterDir(String),
    /// Close every column after this one.
    ExitDir,
}

/// The resolved geometry of a column's resize bar.
#[derive(Clone, Copy, Debug, PartialEq, Eq, Structural)]
pub struct Handle {
    /// The bar's width.
    pub w: u32,
    /// The bar's right edge.
    pub right: i32,
}

/// The event a column's event becomes in the navigator's own output.
pub open spec fn forwarded(e: ViewEvent) -> Event {
    match e {
        ViewEvent::Selection { paths, .. } => Event::ChangeSelection(paths),
        ViewEvent::Click(p) => Event::Click(p),
        ViewEvent::DoubleClick(p) => Event::DoubleClick(p),
        ViewEvent::Press(p) => Event::Press(p),
        ViewEvent::Release(p) => Event::Release(p),
    }
}

/// A selection of exactly one directory enters it; any other selection
/// closes the columns after the selecting one.
pub open spec fn selection_action(paths: Seq<String>, first_is_dir: bool) -> Action {
    if paths.len() == 1 && first_is_dir {
        Action::EnterDir(paths[0])
    } else {
        Action::ExitDir
    }
}

/// The action of a column's events: that of its last selection, if any.
pub open spec fn action_of(es: Seq<ViewEvent>) -> Option<Action>
    decreases es.len(),
{
    if es.len() == 0 {
        None
    } else {
        match es.last() {
            ViewEvent::Selection { paths, first_is_dir } => Some(
                selection_action(paths@, first_is_dir),
            ),
            _ => action_of(es.drop_last()),
        }
    }
}

/// `x` capped at `u64::MAX`.
pub open spec fn saturate(x: int) -> int {
    if x > u64::MAX {
        u64::MAX as int
    } else {
        x
    }
}

/// Width and scroll after one drag of `dx` on a resize bar: the width becomes
/// the dragged width, but at least `min_w` (and at most `u32::MAX`); dragging
/// past the navigator's right edge, `slack` beyond the bar, asks to scroll by
/// the excess.
pub open spec fn drag_step(w: int, scroll: int, dx: int, min_w: int, slack: int) -> (int, int) {
    let target = w + dx;
    let wide = if target < min_w {
        min_w
    } else {
        target
    };
    let nw = if wide > u32::MAX {
        u32::MAX as int
    } else {
        wide
    };
    let ns = if target > w + slack {
        saturate(scroll + (target - (w + slack)))
    } else {
        scroll
    };
    (nw, ns)
}

/// Width and total scroll after the drags `ds`, in order, from width `w`.
pub open spec fn resized(w: int, ds: Seq<i32>, min_w: int, slack: int) -> (int, int)
    decreases ds.len(),
{
    if ds.len() == 0 {
        (w, 0)
    } else {
        let (pw, ps) = resized(w, ds.drop_last(), min_w, slack);
        drag_step(pw, ps, ds.last() as int, min_w, slack)
    }
}

/// Applies the drags on a column's resize bar: the new column width and how
/// far the canvas should scroll left.
pub fn resize_column(width: u32, drags: &Vec<i32>, handle: Handle, rect_right: i32) -> (r: (
    u32,
    u64,
))
    ensures
        (r.0 as int, r.1 as int) == resized(
            width as int,
            drags@,
            handle.w * 3,
            rect_right - handle.right,
        ),
{
    let min_w: i64 = handle.w as i64 * 3;
    let slack: i64 = rect_right as i64 - handle.right as i64;
    let ghost gmin = handle.w * 3;
    let ghost gslack = rect_right - handle.right;
    let mut w: u32 = width;
    let mut scroll: u64 = 0;
    let mut k: usize = 0;
    while k < drags.len()
        invariant
            k <= drags@.len(),
            min_w == gmin,
            slack == gslack,
            0 <= min_w <= 3 * u32::MAX,
            -0x1_0000_0000 <= slack <= 0x1_0000_0000,
            (w as int, scroll as int) == resized(width as int, drags@.take(k as int), gmin, gslack),
        decreases drags@.len() - k,
    {
        proof {
            assert(drags@.take(k as int + 1).drop_last() =~= drags@.take(k as int));
        }
        let target: i64 = w as i64 + drags[k] as i64;
        let end_w: i64 = w as i64 + slack;
        if target > end_w {
            let excess = (target - end_w) as u64;
            if scroll > u64::MAX - excess {
                scroll = u64::MAX;
            } else {
                scroll = scroll + excess;
            }
        }
        let wide: i64 = if target < min_w {
            min_w
        } else {
            target
        };
        w = if wide > u32::MAX as i64 {
            u32::MAX
        } else {
            wide as u32
        };
        k = k + 1;
    }
    assert(drags@.take(drags@.len() as int) =~= drags@);
    (w, scroll)
}

/// Turns one column's events into the navigator's events, appended to `out`
/// in order, and gives the action they ask for.
pub fn take_view_events(events: Vec<ViewEvent>, out: &mut Vec<Event>) -> (r: Option<Action>)
    ensures
        final(out)@ == old(out)@ + events@.map_values(|e: ViewEvent| forwarded(e)),
        r == action_of(events@),
{
    let ghost orig = events@;
    let ghost start = out@;
    let n = events.len();
    let mut rest = events;
    let mut action: Option<Action> = None;
    let mut k: usize = 0;
    while rest.len() > 0
        invariant
            k <= orig.len(),
            k + rest@.len() == orig.len(),
            orig.len() == n,
            rest@ == orig.skip(k as int),
            out@ == start + orig.take(k as int).map_values(|e: ViewEvent| forwarded(e)),
            action == action_of(orig.take(k as int)),
        decreases rest@.len(),
    {
        let e = rest.remove(0);
        proof {
            assert(orig.skip(k as int)[0] == e);
            assert(orig.take(k as int + 1).drop_last() =~= orig.take(k as int));
            assert(orig.skip(k as int + 1) =~= orig.skip(k as int).skip(1));
        }
        match e {
            ViewEvent::Selection { paths, first_is_dir } => {
                if paths.len() == 1 && first_is_dir {
                    action = Some(Action::EnterDir(paths[0].clone()));
                } else {
                    action = Some(Action::ExitDir);
                }
                out.push(Event::ChangeSelection(paths));
            },
            ViewEvent::Click(p) => out.push(Event::Click(p)),
            ViewEvent::DoubleClick(p) => out.push(Event::DoubleClick(p)),
            ViewEvent::Press(p) => out.push(Event::Press(p)),
            ViewEvent::Release(p) => out.push(Event::Release(p)),
        }
        proof {
            assert(orig.take(k as int + 1).map_values(|e: ViewEvent| forwarded(e)) =~= orig.take(
                k as int,
            ).map_values(|e: ViewEvent| forwarded(e)).push(forwarded(e)));
        }
        k = k + 1;
    }
    assert(orig.take(orig.len() as int) =~= orig);
    action
}

/// Sum of the column widths.
pub open spec fn total_width(s: Seq<Directory>) -> int
    decreases s.len(),
{
    if s.len() == 0 {
        0
    } else {
        total_width(s.drop_last()) + s.last().column_width
    }
}

/// Leftward scroll that keeps the last column in view: how far the columns
/// overflow the navigator's width, capped at `u64::MAX`.
pub open spec fn overflow_scroll(stack: Seq<Directory>, rect_w: int) -> int {
    saturate(total_width(stack) - rect_w)
}

/// The sum of the column widths.
fn sum_widths(stack: &Vec<Directory>) -> (r: i128)
    ensures
        r == total_width(stack@),
        0 <= r <= 0x1_0000_0000_0000_0000 * 0xFFFF_FFFF,
{
    let mut sum: i128 = 0;
    let mut k: usize = 0;
    while k < stack.len()
        invariant
            k <= stack@.len(),
            0 <= sum <= k * 0xFFFF_FFFF,
            sum == total_width(stack@.take(k as int)),
        decreases stack@.len() - k,
    {
        assert(stack@.take(k as int + 1).drop_last() =~= stack@.take(k as int));
        sum = sum + stack[k].column_width as i128;
        k = k + 1;
    }
    assert(stack@.take(stack@.len() as int) =~= stack@);
    sum
}

/// Carries out a column's action on the directory stack: entering a
/// directory closes the columns after column `i` and opens it with the width
/// `width`, reports the change and asks to scroll any overflow into view;
/// leaving closes the columns after column `i`.
pub fn apply_action(
    stack: &mut Vec<Directory>,
    i: usize,
    action: Option<Action>,
    width: u32,
    rect_w: u32,
    events: &mut Vec<Event>,
    scrolls: &mut Vec<u64>,
)
    requires
        i < old(stack)@.len(),
    ensures
        (final(stack)@, final(events)@, final(scrolls)@) == acted(
            old(stack)@,
            i as int,
            action,
            width,
            rect_w as int,
            old(events)@,
            old(scrolls)@,
        ),
{
    let n = stack.len();
    assert(i + 1 <= n);
    match action {
        None => {},
        Some(Action::ExitDir) => {
            stack.truncate(i + 1);
        },
        Some(Action::EnterDir(path)) => {
            stack.truncate(i + 1);
            stack.push(Directory { path: path.clone(), column_width: width });
            events.push(Event::ChangeDirectory(path));
            let total = sum_widths(stack);
            let overlap: i128 = total - rect_w as i128;
            if overlap > 0 {
                if overlap > u64::MAX as i128 {
                    scrolls.push(u64::MAX);
                } else {
                    scrolls.push(overlap as u64);
                }
            }
        },
    }
}

/// The stack, events and scroll requests after a column's action.
pub open spec fn acted(
    stack: Seq<Directory>,
    i: int,
    action: Option<Action>,
    width: u32,
    rect_w: int,
    events: Seq<Event>,
    scrolls: Seq<u64>,
) -> (Seq<Directory>, Seq<Event>, Seq<u64>) {
    match action {
        None => (stack, events, scrolls),
        Some(Action::ExitDir) => (stack.take(i + 1), events, scrolls),
        Some(Action::EnterDir(p)) => {
            let s = stack.take(i + 1).push(Directory { path: p, column_width: width });
            let over = total_width(s) - rect_w;
            (
                s,
                events.push(Event::ChangeDirectory(p)),
                if over > 0 {
                    scrolls.push(saturate(over) as u64)
                } else {
                    scrolls
                },
            )
        },
    }
}

/// What one column reported this frame: the horizontal drags on its resize
/// bar, that bar's geometry as laid out last frame, and its view's events.
#[derive(Clone, Debug, PartialEq)]
pub struct ColumnInput {
    pub drags: Vec<i32>,
    pub handle: Option<Handle>,
    pub events: Vec<ViewEvent>,
}

/// What one update reports: the navigator's events, and the leftward scrolls
/// of its canvas that it asks for, in order.
#[derive(Clone, Debug, PartialEq)]
pub struct Frame {
    pub events: Vec<Event>,
    pub scrolls: Vec<u64>,
}

/// The navigator's state as values, part way through an update.
pub struct NavModel {
    pub stack: Seq<Directory>,
    pub views: Seq<(u64, u64)>,
    pub next: int,
    pub events: Seq<Event>,
    pub scrolls: Seq<u64>,
}

/// Column `i`'s turn: ids for its view and bar if it has none, then the
/// drags on its bar, then its view's events and the action they ask for.
pub open spec fn column_step(
    m: NavModel,
    i: int,
    drags: Seq<i32>,
    handle: Option<Handle>,
    evs: Seq<ViewEvent>,
    rect_w: int,
    rect_right: int,
) -> NavModel {
    let fresh = i >= m.views.len();
    let views = if fresh {
        m.views.push((m.next as u64, (m.next + 1) as u64))
    } else {
        m.views
    };
    let next = if fresh {
        m.next + 2
    } else {
        m.next
    };
    let w0 = m.stack[i].column_width as int;
    let ws = match handle {
        Some(h) => resized(w0, drags, h.w * 3, rect_right - h.right),
        None => (w0, 0),
    };
    let w = ws.0 as u32;
    let stack = m.stack.update(i, Directory { path: m.stack[i].path, column_width: w });
    let scrolls = if ws.1 > 0 {
        m.scrolls.push(ws.1 as u64)
    } else {
        m.scrolls
    };
    let events = m.events + evs.map_values(|e: ViewEvent| forwarded(e));
    let after = acted(stack, i, action_of(evs), w, rect_w, events, scrolls);
    NavModel { stack: after.0, views, next, events: after.1, scrolls: after.2 }
}

/// The columns' turns from column `i` on, while there are columns; a column
/// past the end of `inputs` reported nothing.
pub open spec fn run(
    m: NavModel,
    i: int,
    inputs: Seq<ColumnInput>,
    rect_w: int,
    rect_right: int,
) -> NavModel
    decreases (if m.stack.len() > inputs.len() + 1 {
        m.stack.len() as int
    } else {
        inputs.len() + 1int
    }) - i,
{
    if i < 0 || i >= m.stack.len() {
        m
    } else if i < inputs.len() {
        run(
            column_step(
                m,
                i,
                inputs[i].drags@,
                inputs[i].handle,
                inputs[i].events@,
                rect_w,
                rect_right,
            ),
            i + 1,
            inputs,
            rect_w,
            rect_right,
        )
    } else {
        run(
            column_step(m, i, Seq::empty(), None, Seq::empty(), rect_w, rect_right),
            i + 1,
            inputs,
            rect_w,
            rect_right,
        )
    }
}

/// The directory stack once the starting directory is in step with the
/// navigator's: a new starting directory replaces the whole stack with itself.
pub open spec fn synced_stack(nav: FileNavigator, state: State) -> Seq<Directory> {
    if nav.starting_directory@ != state.starting_directory@ {
        seq![
            Directory {
                path: nav.starting_directory,
                column_width: match nav.style.column_width {
                    Some(w) => w,
                    None => DEFAULT_COLUMN_WIDTH,
                },
            },
        ]
    } else {
        state.directory_stack@
    }
}

/// `slot` if it holds an id, else the id `next`.
pub open spec fn filled(slot: Option<u64>, next: int) -> Option<u64> {
    match slot {
        Some(id) => Some(id),
        None => Some(next as u64),
    }
}

/// How many ids filling the canvas and scrollbar slots takes.
pub open spec fn slot_ids(state: State) -> int {
    (if state.scrollable_canvas_idx is None {
        1int
    } else {
        0
    }) + (if state.scrollbar_idx is None {
        1int
    } else {
        0
    })
}

/// The model at the start of the columns' turns.
pub open spec fn start_model(nav: FileNavigator, state: State, next: int) -> NavModel {
    NavModel {
        stack: synced_stack(nav, state),
        views: state.directory_view_indices@,
        next: next + slot_ids(state),
        events: Seq::empty(),
        scrolls: Seq::empty(),
    }
}

/// A press on the canvas closes every column but the first.
pub open spec fn after_canvas_press(stack: Seq<Directory>, pressed: bool) -> Seq<Directory> {
    if pressed && stack.len() > 1 {
        stack.take(1)
    } else {
        stack
    }
}

/// The columns' turns never grow the stack past the larger of its length
/// and one more than the columns that reported.
proof fn lemma_run_len(m: NavModel, i: int, inputs: Seq<ColumnInput>, rect_w: int, rect_right: int)
    requires
        0 <= i,
    ensures
        run(m, i, inputs, rect_w, rect_right).stack.len() <= if m.stack.len() > inputs.len() + 1 {
            m.stack.len() as int
        } else {
            inputs.len() + 1int
        },
    decreases (if m.stack.len() > inputs.len() + 1 {
        m.stack.len() as int
    } else {
        inputs.len() + 1int
    }) - i,
{
    if i < m.stack.len() {
        if i < inputs.len() {
            lemma_run_len(
                column_step(
                    m,
                    i,
                    inputs[i].drags@,
                    inputs[i].handle,
                    inputs[i].events@,
                    rect_w,
                    rect_right,
                ),
                i + 1,
                inputs,
                rect_w,
                rect_right,
            );
        } else {
            lemma_run_len(
                column_step(m, i, Seq::empty(), None, Seq::empty(), rect_w, rect_right),
                i + 1,
                inputs,
                rect_w,
                rect_right,
            );
        }
    }
}

/// A fresh id, when the id space is known to have room for it.
fn fresh_id(ids: &mut IdRegistry) -> (r: u64)
    requires
        old(ids).wf(),
        old(ids).next_id() < u64::MAX,
    ensures
        final(ids).wf(),
        final(ids).keys() == old(ids).keys(),
        r == old(ids).next_id(),
        final(ids).next_id() == old(ids).next_id() + 1,
{
    match ids.new_unique_id() {
        Ok(id) => id,
        Err(_) => 0,
    }
}

impl FileNavigator {
    /// The state of a navigator that has not been updated yet.
    pub fn init_state(&self) -> (r: State)
        ensures
            r.scrollable_canvas_idx is None,
            r.scrollbar_idx is None,
            r.starting_directory@ == Seq::<char>::empty(),
            r.directory_stack@ == Seq::<Directory>::empty(),
            r.directory_view_indices@ == Seq::<(u64, u64)>::empty(),
    {
        State {
            scrollable_canvas_idx: None,
            scrollbar_idx: None,
            starting_directory: String::new(),
            directory_stack: Vec::new(),
            directory_view_indices: Vec::new(),
        }
    }

    /// One frame of the navigator, over the navigator's width `rect_w` and
    /// right edge `rect_right`, what each column reported (`columns[i]` for
    /// column `i`), and whether its background canvas was pressed.
    ///
    /// A changed starting directory resets the stack to it. Then each open
    /// column in turn gets ids for its view and bar if it has none, is resized
    /// by the drags on its bar, and forwards its view's events; a selection of
    /// one directory opens it in the next column, any other selection closes
    /// the later columns. Columns opened this way take their turn in the same
    /// frame. Finally a canvas press closes every column but the first.
    pub fn update(
        &self,
        state: &mut State,
        ids: &mut IdRegistry,
        rect_w: u32,
        rect_right: i32,
        columns: Vec<ColumnInput>,
        canvas_pressed: bool,
    ) -> (r: Frame)
        requires
            old(ids).wf(),
            old(ids).next_id() + 2 * (old(state).directory_stack@.len() + columns@.len() + 2)
                <= u64::MAX,
        ensures
            final(ids).wf(),
            final(ids).keys() == old(ids).keys(),
            ({
                let m = run(
                    start_model(*self, *old(state), old(ids).next_id() as int),
                    0,
                    columns@,
                    rect_w as int,
                    rect_right as int,
                );
                &&& final(state).directory_stack@ == after_canvas_press(m.stack, canvas_pressed)
                &&& final(state).directory_view_indices@ == m.views
                &&& final(ids).next_id() == m.next
                &&& r.events@ == m.events
                &&& r.scrolls@ == m.scrolls
            }),
            final(state).starting_directory@ == self.starting_directory@,
            final(state).scrollable_canvas_idx == filled(
                old(state).scrollable_canvas_idx,
                old(ids).next_id() as int,
            ),
            final(state).scrollbar_idx == filled(
                old(state).scrollbar_idx,
                old(ids).next_id() + (if old(state).scrollable_canvas_idx is None {
                    1int
                } else {
                    0
                }),
            ),
    {
        let ghost inputs = columns@;
        let ghost m0 = start_model(*self, *state, ids.next_id() as int);
        if self.starting_directory != state.starting_directory {
            let width = self.style.column_width();
            state.starting_directory = self.starting_directory.clone();
            state.directory_stack.clear();
            state.directory_stack.push(
                Directory { path: self.starting_directory.clone(), column_width: width },
            );
            assert(state.directory_stack@ =~= m0.stack);
        }
        if state.scrollable_canvas_idx.is_none() {
            state.scrollable_canvas_idx = Some(fresh_id(ids));
        }
        if state.scrollbar_idx.is_none() {
            state.scrollbar_idx = Some(fresh_id(ids));
        }
        let ghost target = run(m0, 0, inputs, rect_w as int, rect_right as int);
        let ghost bound: int = if m0.stack.len() > inputs.len() + 1 {
            m0.stack.len() as int
        } else {
            inputs.len() + 1int
        };
        let ghost start_next = m0.next;
        let ghost start_views = m0.views.len();
        let mut events: Vec<Event> = Vec::new();
        let mut scrolls: Vec<u64> = Vec::new();
        let mut remaining = columns;
        let mut i: usize = 0;
        while i < state.directory_stack.len()
            invariant
                ids.wf(),
                ids.keys() == old(ids).keys(),
                state.starting_directory@ == self.starting_directory@,
                state.scrollable_canvas_idx == filled(
                    old(state).scrollable_canvas_idx,
                    old(ids).next_id() as int,
                ),
                state.scrollbar_idx == filled(
                    old(state).scrollbar_idx,
                    old(ids).next_id() + (if old(state).scrollable_canvas_idx is None {
                        1int
                    } else {
                        0
                    }),
                ),
                old(ids).next_id() + 2 * (old(state).directory_stack@.len() + inputs.len() + 2)
                    <= u64::MAX,
                start_next == old(ids).next_id() + slot_ids(*old(state)),
                m0.stack.len() <= old(state).directory_stack@.len() + 1,
                bound == (if m0.stack.len() > inputs.len() + 1 {
                    m0.stack.len() as int
                } else {
                    inputs.len() + 1int
                }),
                i <= state.directory_stack@.len() <= bound,
                state.directory_view_indices@.len() >= i,
                state.directory_view_indices@.len() <= if start_views > i {
                    start_views
                } else {
                    i as nat
                },
                ids.next_id() == start_next + 2 * (state.directory_view_indices@.len() - start_views),
                i <= inputs.len() ==> remaining@ == inputs.skip(i as int),
                i > inputs.len() ==> remaining@.len() == 0,
                run(
                    NavModel {
                        stack: state.directory_stack@,
                        views: state.directory_view_indices@,
                        next: ids.next_id() as int,
                        events: events@,
                        scrolls: scrolls@,
                    },
                    i as int,
                    inputs,
                    rect_w as int,
                    rect_right as int,
                ) == target,
            decreases bound - i,
        {
            let ghost cur = NavModel {
                stack: state.directory_stack@,
                views: state.directory_view_indices@,
                next: ids.next_id() as int,
                events: events@,
                scrolls: scrolls@,
            };
            if i >= state.directory_view_indices.len() {
                let a = fresh_id(ids);
                let b = fresh_id(ids);
                state.directory_view_indices.push((a, b));
            }
            let input = if remaining.len() > 0 {
                proof {
                    assert(remaining@[0] == inputs[i as int]);
                    assert(inputs.skip(i as int + 1) =~= inputs.skip(i as int).skip(1));
                }
                remaining.remove(0)
            } else {
                ColumnInput { drags: Vec::new(), handle: None, events: Vec::new() }
            };
            let ghost gi = input;
            let ColumnInput { drags, handle, events: view_events } = input;
            let w0 = state.directory_stack[i].column_width;
            let (w, sc) = match handle {
                Some(h) => resize_column(w0, &drags, h, rect_right),
                None => (w0, 0),
            };
            let path = state.directory_stack[i].path.clone();
            state.directory_stack.set(i, Directory { path, column_width: w });
            if sc > 0 {
                scrolls.push(sc);
            }
            let action = take_view_events(view_events, &mut events);
            apply_action(&mut state.directory_stack, i, action, w, rect_w, &mut events, &mut scrolls);
            proof {
                let step = if (i as int) < inputs.len() {
                    column_step(cur, i as int, inputs[i as int].drags@, inputs[i as int].handle, inputs[i as int].events@, rect_w as int, rect_right as int)
                } else {
                    column_step(cur, i as int, Seq::empty(), None, Seq::empty(), rect_w as int, rect_right as int)
                };
                assert(state.directory_stack@ == step.stack);
                assert(state.directory_view_indices@ == step.views);
                assert(events@ == step.events);
                assert(scrolls@ == step.scrolls);
                lemma_run_len(cur, i as int, inputs, rect_w as int, rect_right as int);
            }
            i = i + 1;
        }
        if canvas_pressed && state.directory_stack.len() > 1 {
            state.directory_stack.truncate(1);
        }
        Frame { events, scrolls }
    }
}

/// Where the last `.` of a file name's bytes stands, if it has one.
pub open spec fn last_dot(b: Seq<u8>) -> Option<int>
    decreases b.len(),
{
    if b.len() == 0 {
        None
    } else if b.last() == 0x2Eu8 {
        Some(b.len() - 1)
    } else {
        last_dot(b.drop_last())
    }
}

/// A file name's extension: the bytes after its last `.`, unless that `.`
/// begins the name.
pub open spec fn extension_of(b: Seq<u8>) -> Option<Seq<u8>> {
    match last_dot(b) {
        Some(i) => if i > 0 {
            Some(b.subrange(i + 1, b.len() as int))
        } else {
            None
        },
        None => None,
    }
}

/// Whether `types` admits a file named `name` (as UTF-8 bytes).
pub open spec fn admits(types: Types, name: Seq<u8>) -> bool {
    match types {
        Types::All => true,
        Types::WithExtension(exts) => {
            &&& extension_of(name) is Some
            &&& exists|k: int|
                0 <= k < exts@.len() && encode_utf8(#[trigger] exts@[k]@) == extension_of(
                    name,
                )->Some_0
        },
    }
}

/// Whether a listed entry is shown: hidden entries only when asked for, and
/// files only of the admitted types; directories of any name.
pub open spec fn shown(types: Types, show_hidden: bool, name: Seq<u8>, is_dir: bool, hidden: bool) -> bool {
    (show_hidden || !hidden) && (is_dir || admits(types, name))
}

/// Where the last `.` in `b` stands.
fn find_last_dot(b: &[u8]) -> (r: Option<usize>)
    ensures
        r matches Some(i) ==> last_dot(b@) == Some(i as int) && i < b@.len(),
        r is None ==> last_dot(b@) is None,
{
    let mut k: usize = b.len();
    assert(b@.take(k as int) =~= b@);
    while k > 0
        invariant
            k <= b@.len(),
            last_dot(b@) == last_dot(b@.take(k as int)),
        decreases k,
    {
        assert(b@.take(k as int).drop_last() =~= b@.take(k - 1));
        if b[k - 1] == 0x2Eu8 {
            return Some(k - 1);
        }
        k = k - 1;
    }
    None
}

/// Whether the bytes of `a` from `start` on are exactly `e`.
fn same_bytes(a: &[u8], start: usize, e: &[u8]) -> (r: bool)
    requires
        start <= a@.len(),
    ensures
        r == (a@.subrange(start as int, a@.len() as int) == e@),
{
    if a.len() - start != e.len() {
        assert(a@.subrange(start as int, a@.len() as int).len() != e@.len());
        return false;
    }
    let n = a.len();
    let mut j: usize = 0;
    while j < e.len()
        invariant
            n == a@.len(),
            start <= a@.len(),
            a@.len() - start == e@.len(),
            j <= e@.len(),
            forall|q: int| 0 <= q < j ==> a@[start + q] == e@[q],
        decreases e@.len() - j,
    {
        if a[start + j] != e[j] {
            assert(a@.subrange(start as int, a@.len() as int)[j as int] != e@[j as int]);
            return false;
        }
        j = j + 1;
    }
    assert(a@.subrange(start as int, a@.len() as int) =~= e@);
    true
}

impl FileNavigator {
    /// Whether the navigator shows a listed entry named `name`.
    pub fn shows_entry(&self, name: &str, is_dir: bool, hidden: bool) -> (r: bool)
        ensures
            r == shown(self.types, self.show_hidden, encode_utf8(name@), is_dir, hidden),
    {
        if hidden && !self.show_hidden {
            return false;
        }
        if is_dir {
            return true;
        }
        match &self.types {
            Types::All => true,
            Types::WithExtension(exts) => {
                let b = name.as_bytes();
                let blen = b.len();
                let dot = match find_last_dot(b) {
                    Some(i) => i,
                    None => return false,
                };
                if dot == 0 {
                    return false;
                }
                let mut k: usize = 0;
                while k < exts.len()
                    invariant
                        k <= exts@.len(),
                        b@ == encode_utf8(name@),
                        self.types == Types::WithExtension(*exts),
                        self.show_hidden || !hidden,
                        !is_dir,
                        blen == b@.len(),
                        dot < b@.len(),
                        extension_of(b@) == Some(b@.subrange(dot + 1, b@.len() as int)),
                        forall|q: int|
                            0 <= q < k ==> encode_utf8(#[trigger] exts@[q]@) != b@.subrange(
                                dot + 1,
                                b@.len() as int,
                            ),
                    decreases exts@.len() - k,
                {
                    let e = exts[k].as_str().as_bytes();
                    if same_bytes(b, dot + 1, e) {
                        assert(admits(self.types, b@)) by {
                            let ex = self.types->WithExtension_0;
                            assert(ex == *exts);
                            assert(encode_utf8(ex@[k as int]@) == extension_of(b@)->Some_0);
                        }
                        return true;
                    }
                    k = k + 1;
                }
                false
            },
        }
    }
}

} // verus!
