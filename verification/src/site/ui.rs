//! The state of the site's interface and how key presses change it.
//!
//! Each handler changes the state and lists the effects the outer program
//! has to carry out (start an animation, evaluate a REPL line).

use crate::chars::push_char;
use crate::env::{initial_bindings, Env, Value};
use crate::site::keys::{key_of_code, keycode_to_virtual_key, KeyCode, KeyEvent};
use crate::site::page::{next_page, prev_page, FocusMode, Page};
use crate::virtual_key::VirtualKey;
use vstd::prelude::*;

verus! {

/// An effect of a state change that the outer program carries out.
#[derive(Debug)]
pub enum Action {
    /// The page changed: drop the tab glow and the clickable areas of the old
    /// page, and start the page transition and the tab carousel animation.
    PageSwitched,
    /// Start the transition animation of the current page.
    Transition,
    /// Start the animation of a new blog selection.
    BlogNav,
    /// Start the animation of a new documentation selection.
    DocNav,
    /// Evaluate this REPL line and add it, with its result, to the history.
    Evaluate(String),
}

/// An action as a value.
pub enum ActionView {
    PageSwitched,
    Transition,
    BlogNav,
    DocNav,
    Evaluate(Seq<char>),
}

impl View for Action {
    type V = ActionView;

    open spec fn view(&self) -> ActionView {
        match self {
            Action::PageSwitched => ActionView::PageSwitched,
            Action::Transition => ActionView::Transition,
            Action::BlogNav => ActionView::BlogNav,
            Action::DocNav => ActionView::DocNav,
            Action::Evaluate(s) => ActionView::Evaluate(s@),
        }
    }
}

pub open spec fn actions_view(a: Seq<Action>) -> Seq<ActionView> {
    a.map_values(|x: Action| x@)
}

/// How long a key stays lit after it is pressed, in frames.
pub const KEY_FLASH_TICKS: u8 = 8;

/// The interface state that key presses and clicks change.
pub struct UiState {
    pub page: Page,
    pub focus_mode: FocusMode,
    /// The REPL input line, and the cursor position in it (in characters).
    pub repl_input: Vec<char>,
    pub repl_cursor: usize,
    pub repl_scroll: usize,
    /// The evaluated REPL lines, oldest first, each with its result.
    pub repl_history: Vec<(String, String)>,
    pub doc_index: usize,
    pub doc_viewing_section: bool,
    pub doc_scroll: usize,
    pub prev_doc_index: usize,
    pub blog_index: usize,
    pub blog_viewing_post: bool,
    pub blog_scroll: usize,
    pub prev_blog_index: usize,
    pub home_scroll: usize,
    pub about_scroll: usize,
    pub dsl_effects_scroll: usize,
    pub keyboard_shifted: bool,
    /// The lit keys of the virtual keyboard, with the frames left.
    pub keyboard_pressed_ticks: Vec<(VirtualKey, u8)>,
    /// The number of blog posts and of documentation sections.
    pub blog_count: usize,
    pub doc_count: usize,
}

/// The interface state as a value.
pub struct UiModel {
    pub page: Page,
    pub focus_mode: FocusMode,
    pub repl_input: Seq<char>,
    pub repl_cursor: int,
    pub repl_scroll: int,
    pub repl_history: Seq<(Seq<char>, Seq<char>)>,
    pub doc_index: int,
    pub doc_viewing_section: bool,
    pub doc_scroll: int,
    pub prev_doc_index: int,
    pub blog_index: int,
    pub blog_viewing_post: bool,
    pub blog_scroll: int,
    pub prev_blog_index: int,
    pub home_scroll: int,
    pub about_scroll: int,
    pub dsl_effects_scroll: int,
    pub keyboard_shifted: bool,
    pub keyboard_pressed_ticks: Seq<(VirtualKey, u8)>,
    pub blog_count: int,
    pub doc_count: int,
}

impl View for UiState {
    type V = UiModel;

    open spec fn view(&self) -> UiModel {
        UiModel {
            page: self.page,
            focus_mode: self.focus_mode,
            repl_input: self.repl_input@,
            repl_cursor: self.repl_cursor as int,
            repl_scroll: self.repl_scroll as int,
            repl_history: history_view(self.repl_history@),
            doc_index: self.doc_index as int,
            doc_viewing_section: self.doc_viewing_section,
            doc_scroll: self.doc_scroll as int,
            prev_doc_index: self.prev_doc_index as int,
            blog_index: self.blog_index as int,
            blog_viewing_post: self.blog_viewing_post,
            blog_scroll: self.blog_scroll as int,
            prev_blog_index: self.prev_blog_index as int,
            home_scroll: self.home_scroll as int,
            about_scroll: self.about_scroll as int,
            dsl_effects_scroll: self.dsl_effects_scroll as int,
            keyboard_shifted: self.keyboard_shifted,
            keyboard_pressed_ticks: self.keyboard_pressed_ticks@,
            blog_count: self.blog_count as int,
            doc_count: self.doc_count as int,
        }
    }
}

/// The state the site starts in, with `blog_count` posts and `doc_count`
/// sections.
pub open spec fn initial_model(blog_count: int, doc_count: int) -> UiModel {
    UiModel {
        page: Page::Home,
        focus_mode: FocusMode::Outer,
        repl_input: Seq::empty(),
        repl_cursor: 0,
        repl_scroll: 0,
        repl_history: Seq::empty(),
        doc_index: 0,
        doc_viewing_section: false,
        doc_scroll: 0,
        prev_doc_index: 0,
        blog_index: 0,
        blog_viewing_post: false,
        blog_scroll: 0,
        prev_blog_index: 0,
        home_scroll: 0,
        about_scroll: 0,
        dsl_effects_scroll: 0,
        keyboard_shifted: false,
        keyboard_pressed_ticks: Seq::empty(),
        blog_count,
        doc_count,
    }
}

/// The counters are at least `n` away from `usize::MAX`, so `n` more steps
/// cannot overflow them, and the cursor is within the input line.
pub open spec fn has_room_for(m: UiModel, n: int) -> bool {
    &&& 0 <= m.repl_cursor <= m.repl_input.len()
    &&& m.repl_input.len() + n <= usize::MAX
    &&& m.repl_scroll + n <= usize::MAX
    &&& m.doc_scroll + n <= usize::MAX
    &&& m.blog_scroll + n <= usize::MAX
    &&& m.home_scroll + n <= usize::MAX
    &&& m.about_scroll + n <= usize::MAX
    &&& m.dsl_effects_scroll + n <= usize::MAX
    &&& m.blog_index + n <= usize::MAX
    &&& m.doc_index + n <= usize::MAX
}

/// Room for one key press.
pub open spec fn has_room(m: UiModel) -> bool {
    has_room_for(m, 2)
}

/// `x - d`, or 0 below 0.
pub open spec fn sat_sub(x: int, d: int) -> int {
    if x >= d {
        x - d
    } else {
        0
    }
}

/// A scroll position after `Up` (back by `step`) or `Down` (on by `step`).
pub open spec fn scrolled(x: int, code: KeyCode, step: int) -> int {
    match code {
        KeyCode::Up => sat_sub(x, step),
        KeyCode::Down => x + step,
        _ => x,
    }
}

pub open spec fn none() -> Seq<ActionView> {
    Seq::empty()
}

/// Moving to page `p`: the focus goes back to the tabs, the blog returns to
/// its list.
pub open spec fn switch_page_m(m: UiModel, p: Page) -> (UiModel, Seq<ActionView>) {
    if m.page != p {
        (
            UiModel {
                page: p,
                focus_mode: FocusMode::Outer,
                blog_scroll: 0,
                blog_viewing_post: false,
                ..m
            },
            seq![ActionView::PageSwitched],
        )
    } else {
        (m, none())
    }
}

/// Scrolling the current page with the tabs focused.
pub open spec fn passive_scroll_m(m: UiModel, code: KeyCode) -> UiModel {
    match m.page {
        Page::Repl => UiModel { repl_scroll: scrolled(m.repl_scroll, code, 1), ..m },
        Page::Docs => UiModel { doc_scroll: scrolled(m.doc_scroll, code, 2), ..m },
        Page::Blog => UiModel { blog_scroll: scrolled(m.blog_scroll, code, 1), ..m },
        Page::Home => UiModel { home_scroll: scrolled(m.home_scroll, code, 2), ..m },
        Page::About => UiModel { about_scroll: scrolled(m.about_scroll, code, 2), ..m },
        Page::Effects => UiModel { dsl_effects_scroll: scrolled(m.dsl_effects_scroll, code, 2), ..m },
    }
}

/// A key press on the REPL page.
pub open spec fn repl_m(m: UiModel, key: KeyEvent) -> (UiModel, Seq<ActionView>) {
    match key.code {
        KeyCode::Enter => if m.repl_input.len() > 0 {
            (
                UiModel { repl_input: Seq::empty(), repl_cursor: 0, repl_scroll: 0, ..m },
                seq![ActionView::Evaluate(m.repl_input)],
            )
        } else {
            (m, none())
        },
        KeyCode::Char(c) => if key.ctrl {
            // Emacs-style bindings
            if c == 'b' || c == 'B' {
                (UiModel { repl_cursor: sat_sub(m.repl_cursor, 1), ..m }, none())
            } else if c == 'f' || c == 'F' {
                (
                    UiModel {
                        repl_cursor: if m.repl_cursor < m.repl_input.len() {
                            m.repl_cursor + 1
                        } else {
                            m.repl_cursor
                        },
                        ..m
                    },
                    none(),
                )
            } else if c == 'p' || c == 'P' {
                (UiModel { repl_scroll: sat_sub(m.repl_scroll, 1), ..m }, none())
            } else if c == 'n' || c == 'N' {
                (UiModel { repl_scroll: m.repl_scroll + 1, ..m }, none())
            } else {
                (m, none())
            }
        } else if key.alt {
            (m, none())
        } else {
            (
                UiModel {
                    repl_input: m.repl_input.insert(m.repl_cursor, c),
                    repl_cursor: m.repl_cursor + 1,
                    ..m
                },
                none(),
            )
        },
        KeyCode::Backspace => if m.repl_cursor > 0 {
            (
                UiModel {
                    repl_input: m.repl_input.remove(m.repl_cursor - 1),
                    repl_cursor: m.repl_cursor - 1,
                    ..m
                },
                none(),
            )
        } else {
            (m, none())
        },
        KeyCode::Left => (UiModel { repl_cursor: sat_sub(m.repl_cursor, 1), ..m }, none()),
        KeyCode::Right => (
            UiModel {
                repl_cursor: if m.repl_cursor < m.repl_input.len() {
                    m.repl_cursor + 1
                } else {
                    m.repl_cursor
                },
                ..m
            },
            none(),
        ),
        KeyCode::Up => (UiModel { repl_scroll: sat_sub(m.repl_scroll, 1), ..m }, none()),
        KeyCode::Down => (UiModel { repl_scroll: m.repl_scroll + 1, ..m }, none()),
        _ => (m, none()),
    }
}

/// Selecting blog post `i` in the list.
pub open spec fn blog_select_m(m: UiModel, i: int) -> (UiModel, Seq<ActionView>) {
    if i >= m.blog_count || i == m.blog_index {
        (m, none())
    } else {
        (
            UiModel { prev_blog_index: m.blog_index, blog_index: i, blog_scroll: 0, ..m },
            seq![ActionView::BlogNav],
        )
    }
}

/// Opening blog post `i`.
pub open spec fn blog_open_m(m: UiModel, i: int) -> (UiModel, Seq<ActionView>) {
    if i >= m.blog_count {
        (m, none())
    } else {
        let (m1, a1) = if m.blog_index != i {
            blog_select_m(m, i)
        } else {
            (m, none())
        };
        (
            UiModel {
                blog_viewing_post: true,
                blog_scroll: 0,
                focus_mode: FocusMode::Focused,
                ..m1
            },
            a1.push(ActionView::Transition),
        )
    }
}

/// Returning from a blog post to the list.
pub open spec fn blog_exit_m(m: UiModel) -> (UiModel, Seq<ActionView>) {
    (UiModel { blog_viewing_post: false, blog_scroll: 0, ..m }, seq![ActionView::Transition])
}

/// A key press on the blog page.
pub open spec fn blog_event_m(m: UiModel, code: KeyCode) -> (UiModel, Seq<ActionView>) {
    if m.blog_viewing_post {
        match code {
            KeyCode::Up => (UiModel { blog_scroll: sat_sub(m.blog_scroll, 1), ..m }, none()),
            KeyCode::Down => (UiModel { blog_scroll: m.blog_scroll + 1, ..m }, none()),
            KeyCode::Left => blog_exit_m(m),
            _ => (m, none()),
        }
    } else {
        match code {
            KeyCode::Up => if m.blog_count > 0 {
                blog_select_m(m, sat_sub(m.blog_index, 1))
            } else {
                (m, none())
            },
            KeyCode::Down => if m.blog_count > 0 {
                blog_select_m(
                    m,
                    if m.blog_index + 1 < m.blog_count - 1 {
                        m.blog_index + 1
                    } else {
                        m.blog_count - 1
                    },
                )
            } else {
                (m, none())
            },
            KeyCode::Enter | KeyCode::Right => blog_open_m(m, m.blog_index),
            _ => (m, none()),
        }
    }
}

/// Selecting documentation section `i` in the list.
pub open spec fn doc_select_m(m: UiModel, i: int) -> (UiModel, Seq<ActionView>) {
    if i >= m.doc_count || i == m.doc_index {
        (m, none())
    } else {
        (
            UiModel { prev_doc_index: m.doc_index, doc_index: i, doc_scroll: 0, ..m },
            seq![ActionView::DocNav],
        )
    }
}

/// Opening documentation section `i`.
pub open spec fn doc_open_m(m: UiModel, i: int) -> (UiModel, Seq<ActionView>) {
    if i >= m.doc_count {
        (m, none())
    } else {
        let (m1, a1) = if m.doc_index != i {
            doc_select_m(m, i)
        } else {
            (m, none())
        };
        (
            UiModel {
                doc_viewing_section: true,
                doc_scroll: 0,
                focus_mode: FocusMode::Focused,
                ..m1
            },
            a1.push(ActionView::Transition),
        )
    }
}

/// Returning from a documentation section to the list.
pub open spec fn doc_exit_m(m: UiModel) -> (UiModel, Seq<ActionView>) {
    (UiModel { doc_viewing_section: false, doc_scroll: 0, ..m }, seq![ActionView::Transition])
}

/// A key press on the documentation page. Reading a section, up and down
/// scroll and left returns to the list; in the list, up and left select the
/// previous section, down and right the next one (staying at the ends), and
/// enter opens the selected one.
pub open spec fn doc_event_m(m: UiModel, code: KeyCode) -> (UiModel, Seq<ActionView>) {
    if m.doc_viewing_section {
        match code {
            KeyCode::Up => (UiModel { doc_scroll: sat_sub(m.doc_scroll, 1), ..m }, none()),
            KeyCode::Down => (UiModel { doc_scroll: m.doc_scroll + 1, ..m }, none()),
            KeyCode::Left => doc_exit_m(m),
            _ => (m, none()),
        }
    } else {
        match code {
            KeyCode::Up | KeyCode::Left => if m.doc_count > 0 {
                doc_select_m(m, sat_sub(m.doc_index, 1))
            } else {
                (m, none())
            },
            KeyCode::Down | KeyCode::Right => if m.doc_count > 0 {
                doc_select_m(
                    m,
                    if m.doc_index + 1 < m.doc_count - 1 {
                        m.doc_index + 1
                    } else {
                        m.doc_count - 1
                    },
                )
            } else {
                (m, none())
            },
            KeyCode::Enter => doc_open_m(m, m.doc_index),
            _ => (m, none()),
        }
    }
}

/// The lit keys that are not `vk`.
pub open spec fn other_key(vk: VirtualKey) -> spec_fn((VirtualKey, u8)) -> bool {
    |e: (VirtualKey, u8)| e.0 != vk
}

/// Lighting the keyboard key of a key press on the REPL page: the key moves
/// to the end of the lit keys with a fresh count.
pub open spec fn flash_m(m: UiModel, code: KeyCode) -> UiModel {
    if m.page == Page::Repl && key_of_code(code) is Some {
        let vk = key_of_code(code)->0;
        UiModel {
            keyboard_pressed_ticks: m.keyboard_pressed_ticks.filter(other_key(vk)).push(
                (vk, KEY_FLASH_TICKS),
            ),
            ..m
        }
    } else {
        m
    }
}

/// A key press: with the tabs focused, left and right move between tabs, up
/// and down scroll, enter focuses the page; with the page focused, escape
/// leaves a post or section or else returns to the tabs, and other keys go
/// to the page.
pub open spec fn key_event_m(m: UiModel, key: KeyEvent) -> (UiModel, Seq<ActionView>) {
    match m.focus_mode {
        FocusMode::Outer => match key.code {
            KeyCode::Left => switch_page_m(m, prev_page(m.page)),
            KeyCode::Right => switch_page_m(m, next_page(m.page)),
            KeyCode::Up | KeyCode::Down => (passive_scroll_m(m, key.code), none()),
            KeyCode::Enter => (UiModel { focus_mode: FocusMode::Focused, ..m }, none()),
            _ => (m, none()),
        },
        FocusMode::Focused => {
            let m1 = flash_m(m, key.code);
            if key.code == KeyCode::Esc {
                if m1.page == Page::Blog && m1.blog_viewing_post {
                    blog_exit_m(m1)
                } else if m1.page == Page::Docs && m1.doc_viewing_section {
                    doc_exit_m(m1)
                } else {
                    (
                        UiModel {
                            focus_mode: FocusMode::Outer,
                            keyboard_shifted: false,
                            keyboard_pressed_ticks: Seq::empty(),
                            ..m1
                        },
                        none(),
                    )
                }
            } else {
                match m1.page {
                    Page::Repl => repl_m(m1, key),
                    Page::Blog => blog_event_m(m1, key.code),
                    Page::Docs => doc_event_m(m1, key.code),
                    Page::Home => (UiModel { home_scroll: scrolled(m1.home_scroll, key.code, 2), ..m1 }, none()),
                    Page::About => (UiModel { about_scroll: scrolled(m1.about_scroll, key.code, 2), ..m1 }, none()),
                    Page::Effects => (
                        UiModel { dsl_effects_scroll: scrolled(m1.dsl_effects_scroll, key.code, 2), ..m1 },
                        none(),
                    ),
                }
            }
        },
    }
}

/// A plain key press (no modifier) of `code`.
pub open spec fn plain_key(code: KeyCode) -> KeyEvent {
    KeyEvent { code, shift: false, ctrl: false, alt: false }
}

/// A tap on a virtual keyboard button showing `name`: the shift button
/// toggles shift; backspace, `ENTER` and space act as those keys; any other
/// button types its first character and releases shift.
pub open spec fn keyboard_tap_m(m: UiModel, name: Seq<char>) -> (UiModel, Seq<ActionView>) {
    if name == "⇧"@ {
        (UiModel { keyboard_shifted: !m.keyboard_shifted, ..m }, none())
    } else if name == "⌫"@ {
        repl_m(m, plain_key(KeyCode::Backspace))
    } else if name == "ENTER"@ {
        repl_m(m, plain_key(KeyCode::Enter))
    } else if name == " "@ {
        repl_m(m, plain_key(KeyCode::Char(' ')))
    } else if name.len() > 0 {
        let (m1, a1) = repl_m(m, plain_key(KeyCode::Char(name[0])));
        (UiModel { keyboard_shifted: false, ..m1 }, a1)
    } else {
        (m, none())
    }
}


/// A string holding the characters of `v`.
pub fn string_of(v: &Vec<char>) -> (s: String)
    ensures
        s@ == v@,
{
    let mut s = String::new();
    let mut i: usize = 0;
    while i < v.len()
        invariant
            i <= v@.len(),
            s@ == v@.take(i as int),
        decreases v@.len() - i,
    {
        push_char(&mut s, v[i]);
        i = i + 1;
        proof {
            assert(s@ =~= v@.take(i as int));
        }
    }
    proof {
        assert(v@.take(i as int) =~= v@);
    }
    s
}

fn no_actions() -> (a: Vec<Action>)
    ensures
        actions_view(a@) == none(),
{
    let a: Vec<Action> = Vec::new();
    proof {
        assert(actions_view(a@) =~= none());
    }
    a
}

fn one_action(x: Action) -> (a: Vec<Action>)
    ensures
        actions_view(a@) == seq![x@],
{
    let mut a: Vec<Action> = Vec::new();
    a.push(x);
    proof {
        assert(actions_view(a@) =~= seq![x@]);
    }
    a
}

fn scroll_step(x: usize, code: KeyCode, step: usize) -> (r: usize)
    requires
        x + step <= usize::MAX,
    ensures
        r == scrolled(x as int, code, step as int),
{
    match code {
        KeyCode::Up => x.saturating_sub(step),
        KeyCode::Down => x + step,
        _ => x,
    }
}

/// Which scrolling page a focused scroll applies to.
#[derive(Debug, Clone, Copy, PartialEq, Eq, Structural)]
pub enum ScrollTarget {
    Home,
    About,
}

impl UiState {
    /// The state the site starts in, with `blog_count` posts and
    /// `doc_count` documentation sections.
    pub fn new(blog_count: usize, doc_count: usize) -> (s: Self)
        ensures
            s@ == initial_model(blog_count as int, doc_count as int),
    {
        let s = UiState {
            page: Page::Home,
            focus_mode: FocusMode::Outer,
            repl_input: Vec::new(),
            repl_cursor: 0,
            repl_scroll: 0,
            repl_history: Vec::new(),
            doc_index: 0,
            doc_viewing_section: false,
            doc_scroll: 0,
            prev_doc_index: 0,
            blog_index: 0,
            blog_viewing_post: false,
            blog_scroll: 0,
            prev_blog_index: 0,
            home_scroll: 0,
            about_scroll: 0,
            dsl_effects_scroll: 0,
            keyboard_shifted: false,
            keyboard_pressed_ticks: Vec::new(),
            blog_count,
            doc_count,
        };
        assert(s@.repl_history =~= Seq::empty());
        s
    }

    /// Adds an evaluated REPL line and its result to the end of the history.
    pub fn record_result(&mut self, input: String, output: String)
        ensures
            final(self)@ == (UiModel {
                repl_history: old(self)@.repl_history.push((input@, output@)),
                ..old(self)@
            }),
    {
        let ghost h0 = self.repl_history@;
        self.repl_history.push((input, output));
        proof {
            assert(history_view(self.repl_history@) =~= history_view(h0).push(
                (self.repl_history@.last().0@, self.repl_history@.last().1@),
            ));
        }
    }

    /// Whether the counters are at least `n` away from `usize::MAX` (see
    /// `has_room_for`).
    pub fn room_left(&self, n: usize) -> (r: bool)
        ensures
            r == has_room_for(self@, n as int),
    {
        self.repl_cursor <= self.repl_input.len() && self.repl_input.len() <= usize::MAX - n
            && self.repl_scroll <= usize::MAX - n && self.doc_scroll <= usize::MAX - n
            && self.blog_scroll <= usize::MAX - n && self.home_scroll <= usize::MAX - n
            && self.about_scroll <= usize::MAX - n && self.dsl_effects_scroll <= usize::MAX - n
            && self.blog_index <= usize::MAX - n && self.doc_index <= usize::MAX - n
    }

    /// Moves to `page` (see `switch_page_m`).
    pub fn switch_page(&mut self, page: Page) -> (r: Vec<Action>)
        ensures
            final(self)@ == switch_page_m(old(self)@, page).0,
            actions_view(r@) == switch_page_m(old(self)@, page).1,
    {
        if self.page != page {
            self.page = page;
            self.focus_mode = FocusMode::Outer;
            self.blog_scroll = 0;
            self.blog_viewing_post = false;
            one_action(Action::PageSwitched)
        } else {
            no_actions()
        }
    }

    /// Moves to the tab before the current one, the last before the first.
    pub fn switch_to_prev_tab(&mut self) -> (r: Vec<Action>)
        ensures
            final(self)@ == switch_page_m(old(self)@, prev_page(old(self).page)).0,
            actions_view(r@) == switch_page_m(old(self)@, prev_page(old(self).page)).1,
    {
        let p = self.page.prev();
        self.switch_page(p)
    }

    /// Moves to the tab after the current one, the first after the last.
    pub fn switch_to_next_tab(&mut self) -> (r: Vec<Action>)
        ensures
            final(self)@ == switch_page_m(old(self)@, next_page(old(self).page)).0,
            actions_view(r@) == switch_page_m(old(self)@, next_page(old(self).page)).1,
    {
        let p = self.page.next();
        self.switch_page(p)
    }

    /// Scrolls the current page by `Up` or `Down` while the tabs are focused.
    pub fn handle_passive_scroll(&mut self, key: KeyEvent)
        requires
            has_room(old(self)@),
        ensures
            final(self)@ == passive_scroll_m(old(self)@, key.code),
    {
        match self.page {
            Page::Repl => {
                self.repl_scroll = scroll_step(self.repl_scroll, key.code, 1);
            },
            Page::Docs => {
                self.doc_scroll = scroll_step(self.doc_scroll, key.code, 2);
            },
            Page::Blog => {
                self.blog_scroll = scroll_step(self.blog_scroll, key.code, 1);
            },
            Page::Home => {
                self.home_scroll = scroll_step(self.home_scroll, key.code, 2);
            },
            Page::About => {
                self.about_scroll = scroll_step(self.about_scroll, key.code, 2);
            },
            Page::Effects => {
                self.dsl_effects_scroll = scroll_step(self.dsl_effects_scroll, key.code, 2);
            },
        }
    }

    /// Handles a key press on the REPL page.
    pub fn handle_repl_event(&mut self, key: KeyEvent) -> (r: Vec<Action>)
        requires
            has_room(old(self)@),
        ensures
            final(self)@ == repl_m(old(self)@, key).0,
            actions_view(r@) == repl_m(old(self)@, key).1,
    {
        match key.code {
            KeyCode::Enter => {
                if self.repl_input.len() > 0 {
                    let input = string_of(&self.repl_input);
                    self.repl_input = Vec::new();
                    self.repl_cursor = 0;
                    self.repl_scroll = 0;
                    one_action(Action::Evaluate(input))
                } else {
                    no_actions()
                }
            },
            KeyCode::Char(c) => {
                if key.ctrl {
                    if c == 'b' || c == 'B' {
                        self.repl_cursor = self.repl_cursor.saturating_sub(1);
                    } else if c == 'f' || c == 'F' {
                        if self.repl_cursor < self.repl_input.len() {
                            self.repl_cursor = self.repl_cursor + 1;
                        }
                    } else if c == 'p' || c == 'P' {
                        self.repl_scroll = self.repl_scroll.saturating_sub(1);
                    } else if c == 'n' || c == 'N' {
                        self.repl_scroll = self.repl_scroll + 1;
                    }
                    return no_actions();
                }
                if key.alt {
                    return no_actions();
                }
                self.repl_input.insert(self.repl_cursor, c);
                self.repl_cursor = self.repl_cursor + 1;
                no_actions()
            },
            KeyCode::Backspace => {
                if self.repl_cursor > 0 {
                    self.repl_input.remove(self.repl_cursor - 1);
                    self.repl_cursor = self.repl_cursor - 1;
                }
                no_actions()
            },
            KeyCode::Left => {
                self.repl_cursor = self.repl_cursor.saturating_sub(1);
                no_actions()
            },
            KeyCode::Right => {
                if self.repl_cursor < self.repl_input.len() {
                    self.repl_cursor = self.repl_cursor + 1;
                }
                no_actions()
            },
            KeyCode::Up => {
                self.repl_scroll = self.repl_scroll.saturating_sub(1);
                no_actions()
            },
            KeyCode::Down => {
                self.repl_scroll = self.repl_scroll + 1;
                no_actions()
            },
            _ => no_actions(),
        }
    }

    /// Moves the blog selection to `index`.
    pub fn blog_select(&mut self, index: usize) -> (r: Vec<Action>)
        ensures
            final(self)@ == blog_select_m(old(self)@, index as int).0,
            actions_view(r@) == blog_select_m(old(self)@, index as int).1,
    {
        if index >= self.blog_count || index == self.blog_index {
            return no_actions();
        }
        self.prev_blog_index = self.blog_index;
        self.blog_index = index;
        self.blog_scroll = 0;
        one_action(Action::BlogNav)
    }

    /// Opens blog post `index`, selecting it first.
    pub fn blog_open_post(&mut self, index: usize) -> (r: Vec<Action>)
        ensures
            final(self)@ == blog_open_m(old(self)@, index as int).0,
            actions_view(r@) == blog_open_m(old(self)@, index as int).1,
    {
        if index >= self.blog_count {
            return no_actions();
        }
        let mut acts = if self.blog_index != index {
            self.blog_select(index)
        } else {
            no_actions()
        };
        let ghost a1 = acts@;
        self.blog_viewing_post = true;
        self.blog_scroll = 0;
        self.focus_mode = FocusMode::Focused;
        acts.push(Action::Transition);
        proof {
            assert(actions_view(acts@) =~= actions_view(a1).push(ActionView::Transition));
        }
        acts
    }

    /// Returns from a blog post to the list.
    pub fn blog_exit_post(&mut self) -> (r: Vec<Action>)
        ensures
            final(self)@ == blog_exit_m(old(self)@).0,
            actions_view(r@) == blog_exit_m(old(self)@).1,
    {
        self.blog_viewing_post = false;
        self.blog_scroll = 0;
        one_action(Action::Transition)
    }

    /// Handles a key press on the blog page.
    pub fn handle_blog_event(&mut self, key: KeyEvent) -> (r: Vec<Action>)
        requires
            has_room(old(self)@),
        ensures
            final(self)@ == blog_event_m(old(self)@, key.code).0,
            actions_view(r@) == blog_event_m(old(self)@, key.code).1,
    {
        if self.blog_viewing_post {
            match key.code {
                KeyCode::Up => {
                    self.blog_scroll = self.blog_scroll.saturating_sub(1);
                    no_actions()
                },
                KeyCode::Down => {
                    self.blog_scroll = self.blog_scroll + 1;
                    no_actions()
                },
                KeyCode::Left => self.blog_exit_post(),
                _ => no_actions(),
            }
        } else {
            let count = self.blog_count;
            match key.code {
                KeyCode::Up => {
                    if count > 0 {
                        let i = self.blog_index.saturating_sub(1);
                        self.blog_select(i)
                    } else {
                        no_actions()
                    }
                },
                KeyCode::Down => {
                    if count > 0 {
                        let next = self.blog_index + 1;
                        let i = if next < count - 1 {
                            next
                        } else {
                            count - 1
                        };
                        self.blog_select(i)
                    } else {
                        no_actions()
                    }
                },
                KeyCode::Enter | KeyCode::Right => {
                    let i = self.blog_index;
                    self.blog_open_post(i)
                },
                _ => no_actions(),
            }
        }
    }

    /// Moves the documentation selection to `index`.
    pub fn doc_select(&mut self, index: usize) -> (r: Vec<Action>)
        ensures
            final(self)@ == doc_select_m(old(self)@, index as int).0,
            actions_view(r@) == doc_select_m(old(self)@, index as int).1,
    {
        if index >= self.doc_count || index == self.doc_index {
            return no_actions();
        }
        self.prev_doc_index = self.doc_index;
        self.doc_index = index;
        self.doc_scroll = 0;
        one_action(Action::DocNav)
    }

    /// Opens documentation section `index`, selecting it first.
    pub fn doc_open_section(&mut self, index: usize) -> (r: Vec<Action>)
        ensures
            final(self)@ == doc_open_m(old(self)@, index as int).0,
            actions_view(r@) == doc_open_m(old(self)@, index as int).1,
    {
        if index >= self.doc_count {
            return no_actions();
        }
        let mut acts = if self.doc_index != index {
            self.doc_select(index)
        } else {
            no_actions()
        };
        let ghost a1 = acts@;
        self.doc_viewing_section = true;
        self.doc_scroll = 0;
        self.focus_mode = FocusMode::Focused;
        acts.push(Action::Transition);
        proof {
            assert(actions_view(acts@) =~= actions_view(a1).push(ActionView::Transition));
        }
        acts
    }

    /// Returns from a documentation section to the list.
    pub fn doc_exit_section(&mut self) -> (r: Vec<Action>)
        ensures
            final(self)@ == doc_exit_m(old(self)@).0,
            actions_view(r@) == doc_exit_m(old(self)@).1,
    {
        self.doc_viewing_section = false;
        self.doc_scroll = 0;
        one_action(Action::Transition)
    }

    /// Handles a key press on the documentation page.
    pub fn handle_docs_event(&mut self, key: KeyEvent) -> (r: Vec<Action>)
        requires
            has_room(old(self)@),
        ensures
            final(self)@ == doc_event_m(old(self)@, key.code).0,
            actions_view(r@) == doc_event_m(old(self)@, key.code).1,
    {
        if self.doc_viewing_section {
            match key.code {
                KeyCode::Up => {
                    self.doc_scroll = self.doc_scroll.saturating_sub(1);
                    no_actions()
                },
                KeyCode::Down => {
                    self.doc_scroll = self.doc_scroll + 1;
                    no_actions()
                },
                KeyCode::Left => self.doc_exit_section(),
                _ => no_actions(),
            }
        } else {
            let count = self.doc_count;
            match key.code {
                KeyCode::Up | KeyCode::Left => {
                    if count > 0 {
                        let i = self.doc_index.saturating_sub(1);
                        self.doc_select(i)
                    } else {
                        no_actions()
                    }
                },
                KeyCode::Down | KeyCode::Right => {
                    if count > 0 {
                        let next = self.doc_index + 1;
                        let i = if next < count - 1 {
                            next
                        } else {
                            count - 1
                        };
                        self.doc_select(i)
                    } else {
                        no_actions()
                    }
                },
                KeyCode::Enter => {
                    let i = self.doc_index;
                    self.doc_open_section(i)
                },
                _ => no_actions(),
            }
        }
    }

    /// Scrolls the home or about page while it is focused.
    pub fn handle_scroll_event_focused(&mut self, key: KeyEvent, target: ScrollTarget)
        requires
            has_room(old(self)@),
        ensures
            final(self)@ == (match target {
                ScrollTarget::Home => UiModel {
                    home_scroll: scrolled(old(self)@.home_scroll, key.code, 2),
                    ..old(self)@
                },
                ScrollTarget::About => UiModel {
                    about_scroll: scrolled(old(self)@.about_scroll, key.code, 2),
                    ..old(self)@
                },
            }),
    {
        match target {
            ScrollTarget::Home => {
                self.home_scroll = scroll_step(self.home_scroll, key.code, 2);
            },
            ScrollTarget::About => {
                self.about_scroll = scroll_step(self.about_scroll, key.code, 2);
            },
        }
    }

    /// Scrolls the effects showcase while it is focused.
    pub fn handle_effects_event_focused(&mut self, key: KeyEvent)
        requires
            has_room(old(self)@),
        ensures
            final(self)@ == (UiModel {
                dsl_effects_scroll: scrolled(old(self)@.dsl_effects_scroll, key.code, 2),
                ..old(self)@
            }),
    {
        self.dsl_effects_scroll = scroll_step(self.dsl_effects_scroll, key.code, 2);
    }

    /// Lights the keyboard key of a key press on the REPL page.
    fn flash_key(&mut self, code: KeyCode)
        ensures
            final(self)@ == flash_m(old(self)@, code),
    {
        if self.page == Page::Repl {
            if let Some(vk) = keycode_to_virtual_key(&code) {
                let ghost pred = other_key(vk);
                let ghost old_ticks = self.keyboard_pressed_ticks@;
                let mut kept: Vec<(VirtualKey, u8)> = Vec::new();
                let mut i: usize = 0;
                while i < self.keyboard_pressed_ticks.len()
                    invariant
                        i <= old_ticks.len(),
                        pred == other_key(vk),
                        self.keyboard_pressed_ticks@ == old_ticks,
                        kept@ == old_ticks.take(i as int).filter(pred),
                    decreases old_ticks.len() - i,
                {
                    let e = self.keyboard_pressed_ticks[i];
                    let ghost before = kept@;
                    if e.0 != vk {
                        kept.push(e);
                    }
                    proof {
                        let next = old_ticks.take(i + 1);
                        assert(next.drop_last() =~= old_ticks.take(i as int));
                        assert(next.last() == e);
                        reveal_with_fuel(Seq::<_>::filter, 1);
                        assert(next.filter(pred) == if pred(e) {
                            before.push(e)
                        } else {
                            before
                        });
                    }
                    i = i + 1;
                }
                proof {
                    assert(old_ticks.take(i as int) =~= old_ticks);
                }
                kept.push((vk, KEY_FLASH_TICKS));
                self.keyboard_pressed_ticks = kept;
            }
        }
    }

    /// Handles a key press (see `key_event_m`).
    pub fn handle_key_event(&mut self, key: KeyEvent) -> (r: Vec<Action>)
        requires
            has_room(old(self)@),
        ensures
            final(self)@ == key_event_m(old(self)@, key).0,
            actions_view(r@) == key_event_m(old(self)@, key).1,
    {
        match self.focus_mode {
            FocusMode::Outer => match key.code {
                KeyCode::Left => self.switch_to_prev_tab(),
                KeyCode::Right => self.switch_to_next_tab(),
                KeyCode::Up | KeyCode::Down => {
                    self.handle_passive_scroll(key);
                    no_actions()
                },
                KeyCode::Enter => {
                    self.focus_mode = FocusMode::Focused;
                    no_actions()
                },
                _ => no_actions(),
            },
            FocusMode::Focused => {
                self.flash_key(key.code);
                if key.code == KeyCode::Esc {
                    if self.page == Page::Blog && self.blog_viewing_post {
                        return self.blog_exit_post();
                    }
                    if self.page == Page::Docs && self.doc_viewing_section {
                        return self.doc_exit_section();
                    }
                    self.focus_mode = FocusMode::Outer;
                    self.keyboard_shifted = false;
                    self.keyboard_pressed_ticks = Vec::new();
                    return no_actions();
                }
                match self.page {
                    Page::Repl => self.handle_repl_event(key),
                    Page::Blog => self.handle_blog_event(key),
                    Page::Docs => self.handle_docs_event(key),
                    Page::Home => {
                        self.handle_scroll_event_focused(key, ScrollTarget::Home);
                        no_actions()
                    },
                    Page::About => {
                        self.handle_scroll_event_focused(key, ScrollTarget::About);
                        no_actions()
                    },
                    Page::Effects => {
                        self.handle_effects_event_focused(key);
                        no_actions()
                    },
                }
            },
        }
    }

    /// Handles a tap on a virtual keyboard button that shows `display_name`.
    pub fn handle_keyboard_tap(&mut self, display_name: &str) -> (r: Vec<Action>)
        requires
            has_room(old(self)@),
        ensures
            final(self)@ == keyboard_tap_m(old(self)@, display_name@).0,
            actions_view(r@) == keyboard_tap_m(old(self)@, display_name@).1,
    {
        let name = display_name.to_owned();
        if name == "⇧".to_owned() {
            self.keyboard_shifted = !self.keyboard_shifted;
            no_actions()
        } else if name == "⌫".to_owned() {
            self.handle_repl_event(
                KeyEvent { code: KeyCode::Backspace, ctrl: false, alt: false, shift: false },
            )
        } else if name == "ENTER".to_owned() {
            self.handle_repl_event(
                KeyEvent { code: KeyCode::Enter, ctrl: false, alt: false, shift: false },
            )
        } else if name == " ".to_owned() {
            self.handle_repl_event(
                KeyEvent { code: KeyCode::Char(' '), ctrl: false, alt: false, shift: false },
            )
        } else if display_name.unicode_len() > 0 {
            let ch = display_name.get_char(0);
            let acts = self.handle_repl_event(
                KeyEvent { code: KeyCode::Char(ch), ctrl: false, alt: false, shift: false },
            );
            // the shift is released after typing a character
            if self.keyboard_shifted {
                self.keyboard_shifted = false;
            }
            acts
        } else {
            no_actions()
        }
    }
}

/// No key is lit twice.
pub open spec fn keys_distinct(ticks: Seq<(VirtualKey, u8)>) -> bool {
    forall|i: int, j: int| 0 <= i < j < ticks.len() ==> #[trigger] ticks[i].0 != #[trigger] ticks[j].0
}

/// What every reachable state satisfies: the cursor is within the input
/// line, the blog and documentation selections are within their lists, and
/// no key is lit twice.
pub open spec fn ui_invariant(m: UiModel) -> bool {
    &&& 0 <= m.repl_cursor <= m.repl_input.len()
    &&& 0 <= m.blog_index && (m.blog_count == 0 || m.blog_index < m.blog_count)
    &&& 0 <= m.doc_index && (m.doc_count == 0 || m.doc_index < m.doc_count)
    &&& keys_distinct(m.keyboard_pressed_ticks)
}

proof fn lemma_filter_keys(ticks: Seq<(VirtualKey, u8)>, vk: VirtualKey)
    requires
        keys_distinct(ticks),
    ensures
        keys_distinct(ticks.filter(other_key(vk))),
        forall|i: int|
            0 <= i < ticks.filter(other_key(vk)).len() ==> (#[trigger] ticks.filter(
                other_key(vk))[i]).0 != vk && ticks.contains(ticks.filter(other_key(vk))[i]),
    decreases ticks.len(),
{
    let pred = other_key(vk);
    reveal_with_fuel(Seq::<_>::filter, 1);
    if ticks.len() > 0 {
        let d = ticks.drop_last();
        assert forall|i: int, j: int| 0 <= i < j < d.len() implies #[trigger] d[i].0 != #[trigger] d[j].0 by {
            assert(d[i] == ticks[i] && d[j] == ticks[j]);
        }
        lemma_filter_keys(d, vk);
        let f = d.filter(pred);
        assert forall|i: int| 0 <= i < f.len() implies f[i].0 != ticks.last().0 by {
            assert(d.contains(f[i]));
            let k = choose|k: int| 0 <= k < d.len() && d[k] == f[i];
            assert(ticks[k] == d[k]);
            assert(ticks.last() == ticks[ticks.len() - 1]);
        }
        assert forall|i: int| 0 <= i < f.len() implies ticks.contains(#[trigger] f[i]) by {
            assert(d.contains(f[i]));
            let k = choose|k: int| 0 <= k < d.len() && d[k] == f[i];
            assert(ticks[k] == d[k]);
        }
        assert(ticks.contains(ticks.last())) by {
            assert(ticks[ticks.len() - 1] == ticks.last());
        }
    }
}

/// Every key press keeps the state well formed.
pub proof fn lemma_key_event_keeps_invariant(m: UiModel, key: KeyEvent)
    requires
        ui_invariant(m),
    ensures
        ui_invariant(key_event_m(m, key).0),
{
    if m.focus_mode == FocusMode::Focused && m.page == Page::Repl && key_of_code(key.code) is Some {
        let vk = key_of_code(key.code)->0;
        lemma_filter_keys(m.keyboard_pressed_ticks, vk);
        let f = m.keyboard_pressed_ticks.filter(other_key(vk));
        let t = f.push((vk, KEY_FLASH_TICKS));
        assert forall|i: int, j: int| 0 <= i < j < t.len() implies #[trigger] t[i].0 != #[trigger] t[j].0 by {
            if j == t.len() - 1 {
                assert(f[i].0 != vk);
            } else {
                assert(t[i] == f[i] && t[j] == f[j]);
            }
        }
    }
}

/// Every tap on a keyboard button keeps the state well formed.
pub proof fn lemma_keyboard_tap_keeps_invariant(m: UiModel, name: Seq<char>)
    requires
        ui_invariant(m),
    ensures
        ui_invariant(keyboard_tap_m(m, name).0),
{
}

/// The state the site starts in is well formed.
pub proof fn lemma_initial_invariant(blog_count: int, doc_count: int)
    requires
        0 <= blog_count,
        0 <= doc_count,
    ensures
        ui_invariant(initial_model(blog_count, doc_count)),
{
}

/// Typing a character and then erasing it leaves the input line and the
/// cursor as they were.
pub proof fn lemma_type_then_erase(m: UiModel, c: char)
    requires
        0 <= m.repl_cursor <= m.repl_input.len(),
    ensures
        ({
            let typed = repl_m(m, plain_key(KeyCode::Char(c))).0;
            let erased = repl_m(typed, plain_key(KeyCode::Backspace)).0;
            erased.repl_input == m.repl_input && erased.repl_cursor == m.repl_cursor
        }),
{
    let typed = repl_m(m, plain_key(KeyCode::Char(c))).0;
    assert(typed.repl_input.remove(m.repl_cursor) =~= m.repl_input);
}

/// Enter on a non-empty REPL line hands exactly that line over for
/// evaluation and leaves an empty line.
pub proof fn lemma_enter_evaluates_line(m: UiModel)
    requires
        m.repl_input.len() > 0,
    ensures
        repl_m(m, plain_key(KeyCode::Enter)).1 == seq![ActionView::Evaluate(m.repl_input)],
        repl_m(m, plain_key(KeyCode::Enter)).0.repl_input.len() == 0,
        repl_m(m, plain_key(KeyCode::Enter)).0.repl_cursor == 0,
{
}

/// With the tabs focused, left then right (or right then left) returns to
/// the same page.
pub proof fn lemma_left_right_returns(m: UiModel)
    requires
        m.focus_mode == FocusMode::Outer,
    ensures
        key_event_m(key_event_m(m, plain_key(KeyCode::Left)).0, plain_key(KeyCode::Right)).0.page == m.page,
        key_event_m(key_event_m(m, plain_key(KeyCode::Right)).0, plain_key(KeyCode::Left)).0.page == m.page,
{
    crate::site::page::lemma_prev_next_inverse(m.page);
}

/// Escape, on a focused page that shows no post or section, returns to the
/// tabs and turns off shift and every lit key.
pub proof fn lemma_escape_unfocuses(m: UiModel, key: KeyEvent)
    requires
        m.focus_mode == FocusMode::Focused,
        key.code == KeyCode::Esc,
        !(m.page == Page::Blog && m.blog_viewing_post),
        !(m.page == Page::Docs && m.doc_viewing_section),
    ensures
        key_event_m(m, key).0.focus_mode == FocusMode::Outer,
        !key_event_m(m, key).0.keyboard_shifted,
        key_event_m(m, key).0.keyboard_pressed_ticks.len() == 0,
        key_event_m(m, key).0.page == m.page,
{
}
/// The lit keys one frame later: each has a frame less, and those that run
/// out go dark.
pub open spec fn decayed(ticks: Seq<(VirtualKey, u8)>) -> Seq<(VirtualKey, u8)>
    decreases ticks.len(),
{
    if ticks.len() == 0 {
        Seq::empty()
    } else {
        let rest = decayed(ticks.drop_last());
        let e = ticks.last();
        if e.1 > 1 {
            rest.push((e.0, (e.1 - 1) as u8))
        } else {
            rest
        }
    }
}

/// The keys the keyboard shows pressed: the lit ones, and shift while it is
/// on.
pub open spec fn pressed_keys_m(m: UiModel) -> Seq<VirtualKey> {
    let lit = m.keyboard_pressed_ticks.map_values(|e: (VirtualKey, u8)| e.0);
    if m.keyboard_shifted {
        lit.push(VirtualKey::ShiftLeft)
    } else {
        lit
    }
}

/// The REPL history as text lines, newest first: each entry is its input
/// after the prompt, then its result; a greeting when there is none yet.
/// Each line is given by its spans.
pub open spec fn history_lines(history: Seq<(Seq<char>, Seq<char>)>) -> Seq<Seq<Seq<char>>>
    decreases history.len(),
{
    if history.len() == 0 {
        Seq::empty()
    } else {
        let (input, output) = history.last();
        seq![seq!["Λ> "@, input], seq!["  => "@ + output]] + history_lines(history.drop_last())
    }
}

/// The REPL's output pane (see `history_lines`), with the greeting when
/// the history is empty.
pub open spec fn repl_output_lines(history: Seq<(Seq<char>, Seq<char>)>) -> Seq<Seq<Seq<char>>> {
    if history.len() == 0 {
        seq![
            seq!["  Welcome to the Grift REPL! Type expressions and press Enter."@],
            seq!["  Try: (+ 1 2), (list 1 2 3), (define! x 42)"@],
        ]
    } else {
        history_lines(history)
    }
}

pub open spec fn history_view(h: Seq<(String, String)>) -> Seq<(Seq<char>, Seq<char>)> {
    h.map_values(|e: (String, String)| (e.0@, e.1@))
}

pub open spec fn text_lines_view(v: Seq<Vec<String>>) -> Seq<Seq<Seq<char>>> {
    v.map_values(|l: Vec<String>| l@.map_values(|s: String| s@))
}

/// The lines of the REPL's output pane (see `repl_output_lines`).
pub fn repl_output(history: &Vec<(String, String)>) -> (lines: Vec<Vec<String>>)
    ensures
        text_lines_view(lines@) == repl_output_lines(history_view(history@)),
{
    let ghost hv = history_view(history@);
    let mut lines: Vec<Vec<String>> = Vec::new();
    if history.len() == 0 {
        lines.push(vec!["  Welcome to the Grift REPL! Type expressions and press Enter.".to_owned()]);
        lines.push(vec!["  Try: (+ 1 2), (list 1 2 3), (define! x 42)".to_owned()]);
        proof {
            assert(text_lines_view(lines@) =~~= repl_output_lines(hv));
        }
        return lines;
    }
    let mut k: usize = history.len();
    proof {
        assert(text_lines_view(lines@) =~= Seq::<Seq<Seq<char>>>::empty());
        assert(hv.take(k as int) =~= hv);
    }
    while k > 0
        invariant
            k <= history@.len(),
            hv == history_view(history@),
            text_lines_view(lines@) + history_lines(hv.take(k as int)) == history_lines(hv),
        decreases k,
    {
        let (input, output) = (&history[k - 1].0, &history[k - 1].1);
        let ghost before = text_lines_view(lines@);
        let prompt_line = vec!["Λ> ".to_owned(), input.clone()];
        let mut result = "  => ".to_owned();
        result.append(output.as_str());
        let result_line = vec![result];
        lines.push(prompt_line);
        lines.push(result_line);
        proof {
            let e = hv.take(k as int).last();
            assert(hv.take(k as int).drop_last() =~= hv.take(k - 1));
            assert(e == hv[k - 1]);
            assert(text_lines_view(lines@) =~~= before + seq![seq!["Λ> "@, e.0], seq!["  => "@ + e.1]]);
            assert(history_lines(hv.take(k as int)) == seq![seq!["Λ> "@, e.0], seq!["  => "@ + e.1]]
                + history_lines(hv.take(k - 1)));
            assert(text_lines_view(lines@) + history_lines(hv.take(k - 1)) =~= before + history_lines(
                hv.take(k as int),
            ));
        }
        k = k - 1;
    }
    proof {
        assert(hv.take(0) =~= Seq::<(Seq<char>, Seq<char>)>::empty());
        assert(text_lines_view(lines@) + history_lines(hv.take(0)) =~= text_lines_view(lines@));
    }
    lines
}

impl UiState {
    /// One frame passes for the lit keys (see `decayed`).
    pub fn decay_key_flash(&mut self)
        ensures
            final(self)@ == (UiModel { keyboard_pressed_ticks: decayed(old(self)@.keyboard_pressed_ticks), ..old(self)@ }),
    {
        let ghost old_ticks = self.keyboard_pressed_ticks@;
        let mut kept: Vec<(VirtualKey, u8)> = Vec::new();
        let mut i: usize = 0;
        while i < self.keyboard_pressed_ticks.len()
            invariant
                i <= old_ticks.len(),
                self.keyboard_pressed_ticks@ == old_ticks,
                kept@ == decayed(old_ticks.take(i as int)),
            decreases old_ticks.len() - i,
        {
            let (k, t) = self.keyboard_pressed_ticks[i];
            proof {
                assert(old_ticks.take(i as int + 1).drop_last() =~= old_ticks.take(i as int));
                assert(old_ticks.take(i as int + 1).last() == (k, t));
            }
            if t > 1 {
                kept.push((k, t - 1));
            }
            i = i + 1;
        }
        proof {
            assert(old_ticks.take(i as int) =~= old_ticks);
        }
        self.keyboard_pressed_ticks = kept;
    }

    /// The keys the keyboard shows pressed (see `pressed_keys_m`).
    pub fn pressed_keys(&self) -> (keys: Vec<VirtualKey>)
        ensures
            keys@ == pressed_keys_m(self@),
    {
        let mut keys: Vec<VirtualKey> = Vec::new();
        let mut i: usize = 0;
        while i < self.keyboard_pressed_ticks.len()
            invariant
                i <= self@.keyboard_pressed_ticks.len(),
                keys@ == self@.keyboard_pressed_ticks.take(i as int).map_values(|e: (VirtualKey, u8)| e.0),
            decreases self@.keyboard_pressed_ticks.len() - i,
        {
            keys.push(self.keyboard_pressed_ticks[i].0);
            i = i + 1;
            proof {
                assert(keys@ =~= self@.keyboard_pressed_ticks.take(i as int).map_values(
                    |e: (VirtualKey, u8)| e.0,
                ));
            }
        }
        proof {
            assert(self@.keyboard_pressed_ticks.take(i as int) =~= self@.keyboard_pressed_ticks);
        }
        if self.keyboard_shifted {
            keys.push(VirtualKey::ShiftLeft);
        }
        keys
    }
}

/// Every key of `decayed(ticks)` is lit in `ticks`.
proof fn lemma_decayed_keys(ticks: Seq<(VirtualKey, u8)>)
    ensures
        decayed(ticks).len() <= ticks.len(),
        forall|i: int| 0 <= i < decayed(ticks).len() ==> exists|j: int| 0 <= j < ticks.len() && #[trigger] decayed(ticks)[i].0 == #[trigger] ticks[j].0,
    decreases ticks.len(),
{
    if ticks.len() > 0 {
        let d = ticks.drop_last();
        lemma_decayed_keys(d);
        assert forall|i: int| 0 <= i < decayed(ticks).len() implies exists|j: int| 0 <= j < ticks.len() && #[trigger] decayed(ticks)[i].0 == #[trigger] ticks[j].0 by {
            if i < decayed(d).len() {
                let j = choose|j: int| 0 <= j < d.len() && decayed(d)[i].0 == d[j].0;
                assert(ticks[j] == d[j]);
                assert(decayed(ticks)[i] == decayed(d)[i]);
            } else {
                assert(decayed(ticks)[i].0 == ticks[ticks.len() - 1].0);
            }
        }
    }
}

/// A frame passing keeps the state well formed: no key gets lit twice.
pub proof fn lemma_decay_keeps_invariant(m: UiModel)
    requires
        ui_invariant(m),
    ensures
        ui_invariant(UiModel { keyboard_pressed_ticks: decayed(m.keyboard_pressed_ticks), ..m }),
{
    lemma_decay_distinct(m.keyboard_pressed_ticks);
}

proof fn lemma_decay_distinct(ticks: Seq<(VirtualKey, u8)>)
    requires
        keys_distinct(ticks),
    ensures
        keys_distinct(decayed(ticks)),
    decreases ticks.len(),
{
    if ticks.len() > 0 {
        let d = ticks.drop_last();
        assert forall|i: int, j: int| 0 <= i < j < d.len() implies #[trigger] d[i].0 != #[trigger] d[j].0 by {
            assert(d[i] == ticks[i] && d[j] == ticks[j]);
        }
        lemma_decay_distinct(d);
        lemma_decayed_keys(d);
        let r = decayed(ticks);
        if ticks.last().1 > 1 {
            let dd = decayed(d);
            assert forall|i: int, j: int| 0 <= i < j < r.len() implies #[trigger] r[i].0 != #[trigger] r[j].0 by {
                if j == r.len() - 1 {
                    let k = choose|k: int| 0 <= k < d.len() && dd[i].0 == d[k].0;
                    assert(d[k] == ticks[k]);
                    assert(r[i] == dd[i]);
                    assert(r[j].0 == ticks[ticks.len() - 1].0);
                } else {
                    assert(r[i] == dd[i] && r[j] == dd[j]);
                }
            }
        }
    }
}

/// How many frames the REPL cursor stays on, then off.
pub const CURSOR_BLINK_RATE: u64 = 60;

/// Whether the blinking cursor shows at frame `tick`: on for a blink
/// period, off for the next.
pub open spec fn cursor_on(tick: u64) -> bool {
    (tick / CURSOR_BLINK_RATE) % 2 == 0
}

/// Whether the blinking cursor shows at frame `tick` (see `cursor_on`).
pub fn cursor_visible(tick: u64) -> (b: bool)
    ensures
        b == cursor_on(tick),
{
    (tick / CURSOR_BLINK_RATE) % 2 == 0
}

/// In the documentation list, right and left move to the next and previous
/// section, staying at the ends, and enter opens the selected one.
pub proof fn lemma_docs_keys_move_between_sections(m: UiModel)
    requires
        m.focus_mode == FocusMode::Focused,
        m.page == Page::Docs,
        !m.doc_viewing_section,
        0 <= m.doc_index < m.doc_count,
    ensures
        key_event_m(m, plain_key(KeyCode::Right)).0.doc_index == if m.doc_index + 1 < m.doc_count {
            m.doc_index + 1
        } else {
            m.doc_index
        },
        key_event_m(m, plain_key(KeyCode::Left)).0.doc_index == sat_sub(m.doc_index, 1),
        !key_event_m(m, plain_key(KeyCode::Right)).0.doc_viewing_section,
        !key_event_m(m, plain_key(KeyCode::Left)).0.doc_viewing_section,
        key_event_m(m, plain_key(KeyCode::Enter)).0.doc_viewing_section,
        key_event_m(m, plain_key(KeyCode::Enter)).0.doc_index == m.doc_index,
{
}

/// The environment the site's on-screen keyboard is read in: the built-in
/// bindings, with a slate border colour and a pale highlight.
pub fn keyboard_env() -> (env: Env)
    ensures
        env@ == initial_bindings().insert("border_color"@, Value::RGB(100, 105, 120)).insert(
            "highlight"@,
            Value::RGB(180, 185, 200),
        ),
{
    let mut env = Env::new();
    env.insert("border_color", Value::RGB(100, 105, 120));
    env.insert("highlight", Value::RGB(180, 185, 200));
    env
}


/// On the focused REPL page the arrow keys move the cursor along the input
/// line without changing it: right moves one character on while the cursor
/// is before the end (and stays at the end), left moves one back (and stays
/// at the start), and so left then right, from inside the line, returns the
/// cursor where it was. Ctrl+F and Ctrl+B move it the same way.
pub proof fn lemma_repl_arrows_move_cursor(m: UiModel)
    requires
        m.focus_mode == FocusMode::Focused,
        m.page == Page::Repl,
        0 <= m.repl_cursor <= m.repl_input.len(),
    ensures
        ({
            let right = key_event_m(m, plain_key(KeyCode::Right)).0;
            &&& right.repl_input == m.repl_input
            &&& m.repl_cursor < m.repl_input.len() ==> right.repl_cursor == m.repl_cursor + 1
            &&& m.repl_cursor == m.repl_input.len() ==> right.repl_cursor == m.repl_cursor
        }),
        ({
            let left = key_event_m(m, plain_key(KeyCode::Left)).0;
            &&& left.repl_input == m.repl_input
            &&& m.repl_cursor > 0 ==> left.repl_cursor == m.repl_cursor - 1
            &&& m.repl_cursor == 0 ==> left.repl_cursor == 0
        }),
        m.repl_cursor > 0 ==> key_event_m(
            key_event_m(m, plain_key(KeyCode::Left)).0,
            plain_key(KeyCode::Right),
        ).0.repl_cursor == m.repl_cursor,
        key_event_m(m, KeyEvent { code: KeyCode::Char('f'), shift: false, ctrl: true, alt: false }).0.repl_cursor
            == key_event_m(m, plain_key(KeyCode::Right)).0.repl_cursor,
        key_event_m(m, KeyEvent { code: KeyCode::Char('f'), shift: false, ctrl: true, alt: false }).0.repl_input
            == m.repl_input,
        key_event_m(m, KeyEvent { code: KeyCode::Char('b'), shift: false, ctrl: true, alt: false }).0.repl_cursor
            == key_event_m(m, plain_key(KeyCode::Left)).0.repl_cursor,
        key_event_m(m, KeyEvent { code: KeyCode::Char('b'), shift: false, ctrl: true, alt: false }).0.repl_input
            == m.repl_input,
{
}

/// On the focused REPL page a typed character goes in at the cursor, which
/// moves past it, and backspace takes out the character before the cursor,
/// which moves back onto its place.
pub proof fn lemma_repl_typing_edits_at_cursor(m: UiModel, c: char)
    requires
        m.focus_mode == FocusMode::Focused,
        m.page == Page::Repl,
        0 <= m.repl_cursor <= m.repl_input.len(),
    ensures
        ({
            let typed = key_event_m(m, plain_key(KeyCode::Char(c))).0;
            &&& typed.repl_input == m.repl_input.take(m.repl_cursor) + seq![c] + m.repl_input.skip(m.repl_cursor)
            &&& typed.repl_cursor == m.repl_cursor + 1
        }),
        m.repl_cursor > 0 ==> ({
            let erased = key_event_m(m, plain_key(KeyCode::Backspace)).0;
            &&& erased.repl_input == m.repl_input.take(m.repl_cursor - 1) + m.repl_input.skip(m.repl_cursor)
            &&& erased.repl_cursor == m.repl_cursor - 1
        }),
{
    let typed = key_event_m(m, plain_key(KeyCode::Char(c))).0;
    assert(typed.repl_input =~= m.repl_input.take(m.repl_cursor) + seq![c] + m.repl_input.skip(m.repl_cursor));
    if m.repl_cursor > 0 {
        let erased = key_event_m(m, plain_key(KeyCode::Backspace)).0;
        assert(erased.repl_input =~= m.repl_input.take(m.repl_cursor - 1) + m.repl_input.skip(m.repl_cursor));
    }
}


/// In the blog list, down and up select the next and previous post,
/// staying at the ends, and enter opens the selected post; reading a post,
/// left returns to the list with the same post selected.
pub proof fn lemma_blog_keys_move_between_posts(m: UiModel)
    requires
        m.focus_mode == FocusMode::Focused,
        m.page == Page::Blog,
        0 <= m.blog_index < m.blog_count,
    ensures
        !m.blog_viewing_post ==> key_event_m(m, plain_key(KeyCode::Down)).0.blog_index == if m.blog_index + 1
            < m.blog_count {
            m.blog_index + 1
        } else {
            m.blog_index
        },
        !m.blog_viewing_post ==> key_event_m(m, plain_key(KeyCode::Up)).0.blog_index == sat_sub(
            m.blog_index,
            1,
        ),
        !m.blog_viewing_post ==> key_event_m(m, plain_key(KeyCode::Enter)).0.blog_viewing_post
            && key_event_m(m, plain_key(KeyCode::Enter)).0.blog_index == m.blog_index,
        m.blog_viewing_post ==> !key_event_m(m, plain_key(KeyCode::Left)).0.blog_viewing_post
            && key_event_m(m, plain_key(KeyCode::Left)).0.blog_index == m.blog_index,
{
}

/// Reading a documentation section, down and up scroll it by one row (up
/// stopping at the top) and left returns to the list with the same section
/// selected.
pub proof fn lemma_doc_reading_keys(m: UiModel)
    requires
        m.focus_mode == FocusMode::Focused,
        m.page == Page::Docs,
        m.doc_viewing_section,
    ensures
        key_event_m(m, plain_key(KeyCode::Down)).0.doc_scroll == m.doc_scroll + 1,
        key_event_m(m, plain_key(KeyCode::Up)).0.doc_scroll == sat_sub(m.doc_scroll, 1),
        key_event_m(m, plain_key(KeyCode::Down)).0.doc_viewing_section,
        !key_event_m(m, plain_key(KeyCode::Left)).0.doc_viewing_section,
        key_event_m(m, plain_key(KeyCode::Left)).0.doc_index == m.doc_index,
{
}

/// With the tabs focused, enter focuses the current page, and down then up
/// scrolls the current page forward and back to where it was, changing
/// nothing else.
pub proof fn lemma_outer_keys(m: UiModel)
    requires
        m.focus_mode == FocusMode::Outer,
        m.repl_scroll >= 0,
        m.doc_scroll >= 0,
        m.blog_scroll >= 0,
        m.home_scroll >= 0,
        m.about_scroll >= 0,
        m.dsl_effects_scroll >= 0,
    ensures
        key_event_m(m, plain_key(KeyCode::Enter)).0 == (UiModel { focus_mode: FocusMode::Focused, ..m }),
        key_event_m(key_event_m(m, plain_key(KeyCode::Down)).0, plain_key(KeyCode::Up)).0 == m,
        key_event_m(m, plain_key(KeyCode::Down)).0.page == m.page,
        key_event_m(m, plain_key(KeyCode::Down)).0 != m,
{
    let down = key_event_m(m, plain_key(KeyCode::Down)).0;
    assert(down == passive_scroll_m(m, KeyCode::Down));
    assert(key_event_m(down, plain_key(KeyCode::Up)).0 == passive_scroll_m(down, KeyCode::Up));
    match m.page {
        Page::Repl => assert(passive_scroll_m(down, KeyCode::Up) == m),
        Page::Docs => assert(passive_scroll_m(down, KeyCode::Up) == m),
        Page::Blog => assert(passive_scroll_m(down, KeyCode::Up) == m),
        Page::Home => assert(passive_scroll_m(down, KeyCode::Up) == m),
        Page::About => assert(passive_scroll_m(down, KeyCode::Up) == m),
        Page::Effects => assert(passive_scroll_m(down, KeyCode::Up) == m),
    }
}


/// Taps on the on-screen keyboard: shift toggles shift, so two taps leave
/// it as it was; a character button types its first character at the
/// cursor, moves the cursor past it and releases shift; the backspace
/// button erases the character before the cursor; `ENTER` hands a non-empty
/// line over for evaluation.
pub proof fn lemma_keyboard_taps(m: UiModel, name: Seq<char>)
    requires
        0 <= m.repl_cursor <= m.repl_input.len(),
    ensures
        keyboard_tap_m(m, "⇧"@).0.keyboard_shifted == !m.keyboard_shifted,
        keyboard_tap_m(keyboard_tap_m(m, "⇧"@).0, "⇧"@).0 == m,
        name.len() > 0 && name != "⇧"@ && name != "⌫"@ && name != "ENTER"@ && name != " "@ ==> ({
            let r = keyboard_tap_m(m, name).0;
            &&& r.repl_input == m.repl_input.take(m.repl_cursor) + seq![name[0]] + m.repl_input.skip(
                m.repl_cursor,
            )
            &&& r.repl_cursor == m.repl_cursor + 1
            &&& !r.keyboard_shifted
        }),
        m.repl_cursor > 0 ==> ({
            let r = keyboard_tap_m(m, "⌫"@).0;
            &&& r.repl_input == m.repl_input.take(m.repl_cursor - 1) + m.repl_input.skip(m.repl_cursor)
            &&& r.repl_cursor == m.repl_cursor - 1
        }),
        m.repl_input.len() > 0 ==> keyboard_tap_m(m, "ENTER"@).1 == seq![ActionView::Evaluate(m.repl_input)],
{
    reveal_strlit("⇧");
    reveal_strlit("⌫");
    reveal_strlit("ENTER");
    assert("⌫"@[0] != "⇧"@[0]);
    assert("⌫"@ != "⇧"@);
    assert("ENTER"@.len() != "⇧"@.len());
    assert("ENTER"@ != "⇧"@);
    assert("ENTER"@ != "⌫"@);
    if name.len() > 0 && name != "⇧"@ && name != "⌫"@ && name != "ENTER"@ && name != " "@ {
        let r = keyboard_tap_m(m, name).0;
        assert(r.repl_input =~= m.repl_input.take(m.repl_cursor) + seq![name[0]] + m.repl_input.skip(
            m.repl_cursor,
        ));
    }
    if m.repl_cursor > 0 {
        let r = keyboard_tap_m(m, "⌫"@).0;
        assert(r.repl_input =~= m.repl_input.take(m.repl_cursor - 1) + m.repl_input.skip(m.repl_cursor));
    }
}


/// The output pane shows every entry of the history, newest first: entry
/// `j`, which has `k = len - 1 - j` entries after it, takes rows `2k` (the
/// prompt and the input) and `2k + 1` (the result after `=>`).
pub proof fn lemma_history_newest_first(h: Seq<(Seq<char>, Seq<char>)>)
    ensures
        history_lines(h).len() == 2 * h.len(),
        forall|j: int|
            0 <= j < h.len() ==> history_lines(h)[2 * (h.len() - 1 - j)] == seq!["Λ> "@, (#[trigger] h[j]).0]
                && history_lines(h)[2 * (h.len() - 1 - j) + 1] == seq!["  => "@ + h[j].1],
    decreases h.len(),
{
    if h.len() > 0 {
        let d = h.drop_last();
        lemma_history_newest_first(d);
        let head = seq![seq!["Λ> "@, h.last().0], seq!["  => "@ + h.last().1]];
        assert(history_lines(h) == head + history_lines(d));
        assert forall|j: int| 0 <= j < h.len() implies history_lines(h)[2 * (h.len() - 1 - j)] == seq![
            "Λ> "@,
            (#[trigger] h[j]).0,
        ] && history_lines(h)[2 * (h.len() - 1 - j) + 1] == seq!["  => "@ + h[j].1] by {
            if j < h.len() - 1 {
                assert(h[j] == d[j]);
                assert(history_lines(h)[2 * (h.len() - 1 - j)] == history_lines(d)[2 * (d.len() - 1 - j)]);
                assert(history_lines(h)[2 * (h.len() - 1 - j) + 1] == history_lines(d)[2 * (d.len() - 1 - j) + 1]);
            } else {
                assert(h[j] == h.last());
            }
        }
    }
}


/// On the focused REPL page, a key press that has a keyboard key lights
/// that key for the full flash time, once: it is the last lit key and no
/// other entry is for it; the other lit keys stay lit.
pub proof fn lemma_key_press_lights_its_key(m: UiModel, code: KeyCode)
    requires
        m.focus_mode == FocusMode::Focused,
        m.page == Page::Repl,
        code != KeyCode::Esc,
        key_of_code(code) is Some,
    ensures
        ({
            let vk = key_of_code(code)->0;
            let t = key_event_m(m, plain_key(code)).0.keyboard_pressed_ticks;
            &&& t.len() > 0
            &&& t.last() == (vk, KEY_FLASH_TICKS)
            &&& forall|i: int| 0 <= i < t.len() - 1 ==> (#[trigger] t[i]).0 != vk
            &&& forall|i: int|
                0 <= i < m.keyboard_pressed_ticks.len() && (#[trigger] m.keyboard_pressed_ticks[i]).0 != vk
                    ==> t.contains(m.keyboard_pressed_ticks[i])
        }),
{
    let vk = key_of_code(code)->0;
    let f = m.keyboard_pressed_ticks.filter(other_key(vk));
    let t = key_event_m(m, plain_key(code)).0.keyboard_pressed_ticks;
    assert(t == f.push((vk, KEY_FLASH_TICKS)));
    assert forall|i: int| 0 <= i < t.len() - 1 implies (#[trigger] t[i]).0 != vk by {
        assert(t[i] == f[i]);
        m.keyboard_pressed_ticks.lemma_filter_pred(other_key(vk), i);
    }
    assert forall|i: int|
        0 <= i < m.keyboard_pressed_ticks.len() && (#[trigger] m.keyboard_pressed_ticks[i]).0 != vk implies t.contains(
        m.keyboard_pressed_ticks[i],
    ) by {
        m.keyboard_pressed_ticks.lemma_filter_contains(other_key(vk), i);
        let k = choose|k: int| 0 <= k < f.len() && f[k] == m.keyboard_pressed_ticks[i];
        assert(t[k] == f[k]);
    }
}


/// The cursor blinks: it shows for a blink period and hides for the next,
/// so it is in the opposite state one period later and in the same state
/// two periods later.
pub proof fn lemma_cursor_blinks(tick: u64)
    requires
        tick + 2 * CURSOR_BLINK_RATE <= u64::MAX,
    ensures
        cursor_on(tick) != cursor_on((tick + CURSOR_BLINK_RATE) as u64),
        cursor_on(tick) == cursor_on((tick + 2 * CURSOR_BLINK_RATE) as u64),
        cursor_on(0),
{
}

} // verus!
