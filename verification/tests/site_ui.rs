use tvk::site::keys::{keycode_to_virtual_key, KeyCode, KeyEvent};
use tvk::site::mouse::{ClickAreas, ClickEffect, MouseEvent, MouseEventKind};
use tvk::site::page::{FocusMode, Page};
use tvk::site::pointer::{frame_margins, trail_cell_color, Pointer, Rect};
use tvk::site::transition::{transition_for, Motion, Transition};
use tvk::env::Value;
use tvk::site::ui::{cursor_visible, keyboard_env, repl_output, Action, UiState, KEY_FLASH_TICKS};
use tvk::virtual_key::VirtualKey;

fn key(code: KeyCode) -> KeyEvent {
    KeyEvent { code, shift: false, ctrl: false, alt: false }
}

fn ctrl(c: char) -> KeyEvent {
    KeyEvent { code: KeyCode::Char(c), shift: false, ctrl: true, alt: false }
}

fn focused_repl() -> UiState {
    let mut s = UiState::new(2, 3);
    let a = s.handle_key_event(key(KeyCode::Right));
    assert_eq!(s.page, Page::Repl);
    assert!(matches!(a.as_slice(), [Action::PageSwitched]));
    s.handle_key_event(key(KeyCode::Enter));
    assert_eq!(s.focus_mode, FocusMode::Focused);
    s
}

fn rect(x: u16, y: u16, width: u16, height: u16) -> Rect {
    Rect { x, y, width, height }
}

fn no_areas() -> ClickAreas {
    ClickAreas {
        tab_area: rect(0, 0, 60, 3),
        tab_rects: vec![rect(1, 1, 6, 1), rect(8, 1, 6, 1)],
        tab_page_indices: vec![0, 1],
        content_area: rect(0, 3, 60, 20),
        link_areas: vec![],
        link_count: 0,
        blog_back_area: Rect::empty(),
        blog_item_areas: vec![],
        doc_back_area: Rect::empty(),
        doc_item_areas: vec![],
        keyboard_button_areas: vec![],
        scroll_up_area: rect(1, 22, 3, 1),
        scroll_down_area: rect(56, 22, 3, 1),
    }
}

fn click(col: u16, row: u16) -> MouseEvent {
    MouseEvent { kind: MouseEventKind::LeftDown, col, row }
}

#[test]
fn new_state_is_home_with_tabs_focused() {
    let s = UiState::new(2, 3);
    assert_eq!(s.page, Page::Home);
    assert_eq!(s.focus_mode, FocusMode::Outer);
    assert!(s.repl_input.is_empty());
    assert_eq!(s.blog_count, 2);
    assert_eq!(s.doc_count, 3);
}

#[test]
fn left_then_right_returns_to_the_page() {
    let mut s = UiState::new(2, 3);
    s.handle_key_event(key(KeyCode::Left));
    assert_eq!(s.page, Page::Effects);
    s.handle_key_event(key(KeyCode::Right));
    assert_eq!(s.page, Page::Home);
}

#[test]
fn typing_then_erasing_restores_the_line() {
    let mut s = focused_repl();
    s.handle_key_event(key(KeyCode::Char('a')));
    s.handle_key_event(key(KeyCode::Char('c')));
    s.handle_key_event(key(KeyCode::Left));
    s.handle_key_event(key(KeyCode::Char('b')));
    assert_eq!(s.repl_input, vec!['a', 'b', 'c']);
    assert_eq!(s.repl_cursor, 2);
    s.handle_key_event(key(KeyCode::Backspace));
    assert_eq!(s.repl_input, vec!['a', 'c']);
    assert_eq!(s.repl_cursor, 1);
}

#[test]
fn enter_hands_the_line_over() {
    let mut s = focused_repl();
    s.handle_key_event(key(KeyCode::Char('(')));
    s.handle_key_event(key(KeyCode::Char(')')));
    let a = s.handle_key_event(key(KeyCode::Enter));
    match a.as_slice() {
        [Action::Evaluate(line)] => assert_eq!(line, "()"),
        other => panic!("unexpected {:?}", other),
    }
    assert!(s.repl_input.is_empty());
    assert_eq!(s.repl_cursor, 0);
    let a = s.handle_key_event(key(KeyCode::Enter));
    assert!(a.is_empty());
}

#[test]
fn emacs_bindings_move_the_cursor_and_scroll() {
    let mut s = focused_repl();
    s.handle_key_event(key(KeyCode::Char('x')));
    s.handle_key_event(ctrl('b'));
    assert_eq!(s.repl_cursor, 0);
    s.handle_key_event(ctrl('f'));
    assert_eq!(s.repl_cursor, 1);
    s.handle_key_event(ctrl('n'));
    assert_eq!(s.repl_scroll, 1);
    s.handle_key_event(ctrl('p'));
    s.handle_key_event(ctrl('p'));
    assert_eq!(s.repl_scroll, 0);
    assert_eq!(s.repl_input, vec!['x']);
}

#[test]
fn escape_leaves_the_page() {
    let mut s = focused_repl();
    s.handle_keyboard_tap("⇧");
    s.handle_key_event(key(KeyCode::Char('q')));
    assert!(!s.keyboard_pressed_ticks.is_empty());
    s.handle_key_event(key(KeyCode::Esc));
    assert_eq!(s.focus_mode, FocusMode::Outer);
    assert!(!s.keyboard_shifted);
    assert!(s.keyboard_pressed_ticks.is_empty());
    assert_eq!(s.page, Page::Repl);
}

#[test]
fn key_presses_light_keys_once() {
    let mut s = focused_repl();
    s.handle_key_event(key(KeyCode::Char('q')));
    s.handle_key_event(key(KeyCode::Char('w')));
    s.handle_key_event(key(KeyCode::Char('Q')));
    assert_eq!(
        s.keyboard_pressed_ticks,
        vec![(VirtualKey::KeyW, KEY_FLASH_TICKS), (VirtualKey::KeyQ, KEY_FLASH_TICKS)]
    );
}

#[test]
fn lit_keys_fade_after_their_frames() {
    let mut s = focused_repl();
    s.handle_key_event(key(KeyCode::Char('z')));
    for _ in 0..(KEY_FLASH_TICKS - 1) {
        s.decay_key_flash();
    }
    assert_eq!(s.keyboard_pressed_ticks, vec![(VirtualKey::KeyZ, 1)]);
    s.decay_key_flash();
    assert!(s.keyboard_pressed_ticks.is_empty());
}

#[test]
fn pressed_keys_include_shift() {
    let mut s = focused_repl();
    s.handle_key_event(key(KeyCode::Char('a')));
    assert_eq!(s.pressed_keys(), vec![VirtualKey::KeyA]);
    s.handle_keyboard_tap("⇧");
    assert_eq!(s.pressed_keys(), vec![VirtualKey::KeyA, VirtualKey::ShiftLeft]);
}

#[test]
fn keyboard_taps() {
    let mut s = focused_repl();
    s.handle_keyboard_tap("⇧");
    assert!(s.keyboard_shifted);
    s.handle_keyboard_tap("Q");
    assert!(!s.keyboard_shifted);
    s.handle_keyboard_tap(" ");
    s.handle_keyboard_tap("x");
    assert_eq!(s.repl_input, vec!['Q', ' ', 'x']);
    s.handle_keyboard_tap("⌫");
    assert_eq!(s.repl_input, vec!['Q', ' ']);
    let a = s.handle_keyboard_tap("ENTER");
    match a.as_slice() {
        [Action::Evaluate(line)] => assert_eq!(line, "Q "),
        other => panic!("unexpected {:?}", other),
    }
    let a = s.handle_keyboard_tap("");
    assert!(a.is_empty());
}

#[test]
fn blog_navigation() {
    let mut s = UiState::new(2, 3);
    s.handle_key_event(key(KeyCode::Right));
    s.handle_key_event(key(KeyCode::Right));
    s.handle_key_event(key(KeyCode::Right));
    assert_eq!(s.page, Page::Blog);
    s.handle_key_event(key(KeyCode::Enter));
    let a = s.handle_key_event(key(KeyCode::Down));
    assert!(matches!(a.as_slice(), [Action::BlogNav]));
    assert_eq!(s.blog_index, 1);
    assert_eq!(s.prev_blog_index, 0);
    let a = s.handle_key_event(key(KeyCode::Down));
    assert!(a.is_empty());
    assert_eq!(s.blog_index, 1);
    let a = s.handle_key_event(key(KeyCode::Enter));
    assert!(matches!(a.as_slice(), [Action::Transition]));
    assert!(s.blog_viewing_post);
    s.handle_key_event(key(KeyCode::Down));
    assert_eq!(s.blog_scroll, 1);
    let a = s.handle_key_event(key(KeyCode::Esc));
    assert!(matches!(a.as_slice(), [Action::Transition]));
    assert!(!s.blog_viewing_post);
    assert_eq!(s.blog_scroll, 0);
    assert_eq!(s.focus_mode, FocusMode::Focused);
}

#[test]
fn docs_navigation_and_passive_scroll() {
    let mut s = UiState::new(2, 3);
    s.switch_page(Page::Docs);
    s.handle_key_event(key(KeyCode::Down));
    assert_eq!(s.doc_scroll, 2);
    s.handle_key_event(key(KeyCode::Up));
    s.handle_key_event(key(KeyCode::Up));
    assert_eq!(s.doc_scroll, 0);
    let a = s.doc_open_section(2);
    assert!(matches!(a.as_slice(), [Action::DocNav, Action::Transition]));
    assert_eq!(s.doc_index, 2);
    assert!(s.doc_viewing_section);
    let a = s.doc_open_section(3);
    assert!(a.is_empty());
    let a = s.handle_key_event(key(KeyCode::Left));
    assert!(matches!(a.as_slice(), [Action::Transition]));
    assert!(!s.doc_viewing_section);
}

#[test]
fn switching_pages_resets_the_blog() {
    let mut s = UiState::new(2, 3);
    s.switch_page(Page::Blog);
    s.blog_open_post(1);
    assert!(s.blog_viewing_post);
    let a = s.switch_page(Page::About);
    assert!(matches!(a.as_slice(), [Action::PageSwitched]));
    assert!(!s.blog_viewing_post);
    assert_eq!(s.focus_mode, FocusMode::Outer);
    let a = s.switch_page(Page::About);
    assert!(a.is_empty());
}

#[test]
fn repl_output_newest_first() {
    let empty = repl_output(&vec![]);
    assert_eq!(empty.len(), 2);
    assert_eq!(empty[0], vec!["  Welcome to the Grift REPL! Type expressions and press Enter.".to_string()]);
    let lines = repl_output(&vec![
        ("(+ 1 2)".to_string(), "3".to_string()),
        ("x".to_string(), "error".to_string()),
    ]);
    assert_eq!(
        lines,
        vec![
            vec!["Λ> ".to_string(), "x".to_string()],
            vec!["  => error".to_string()],
            vec!["Λ> ".to_string(), "(+ 1 2)".to_string()],
            vec!["  => 3".to_string()],
        ]
    );
}

#[test]
fn cursor_blinks() {
    assert!(cursor_visible(0));
    assert!(cursor_visible(59));
    assert!(!cursor_visible(60));
    assert!(!cursor_visible(119));
    assert!(cursor_visible(120));
}

#[test]
fn key_codes_light_keys() {
    assert_eq!(keycode_to_virtual_key(&KeyCode::Char('A')), Some(VirtualKey::KeyA));
    assert_eq!(keycode_to_virtual_key(&KeyCode::Char('5')), Some(VirtualKey::Num5));
    assert_eq!(keycode_to_virtual_key(&KeyCode::Enter), Some(VirtualKey::Return));
    assert_eq!(keycode_to_virtual_key(&KeyCode::Esc), Some(VirtualKey::Escape));
    assert_eq!(keycode_to_virtual_key(&KeyCode::Left), None);
    assert_eq!(keycode_to_virtual_key(&KeyCode::Char('(')), None);
}

#[test]
fn page_order_wraps() {
    assert_eq!(Page::Home.prev(), Page::Effects);
    assert_eq!(Page::Effects.next(), Page::Home);
    assert_eq!(Page::Docs.next(), Page::Blog);
    for i in 0..6 {
        assert_eq!(Page::at(i).index(), i);
        assert_eq!(Page::at(i).next().prev(), Page::at(i));
    }
    assert_eq!(Page::About.title(), "About");
    assert_eq!(Page::Repl.title(), "REPL");
}

#[test]
fn page_transitions() {
    assert_eq!(transition_for(Page::Home), Transition::FadeFromDark { ms: 400 });
    assert_eq!(
        transition_for(Page::Repl),
        Transition::SweepIn { motion: Motion::LeftToRight, gradient: 10, randomness: 3, ms: 500 }
    );
    assert_eq!(transition_for(Page::Docs), Transition::CheckerDissolve { ms: 300 });
    assert_eq!(transition_for(Page::Effects), Transition::Coalesce { ms: 500 });
}

#[test]
fn pointer_trail_grows_and_fades() {
    let mut p = Pointer::new();
    p.track(3, 4);
    assert_eq!(p.trail, vec![(3, 4, 200)]);
    assert!(p.mouse_moving);
    p.track(3, 4);
    assert_eq!(p.trail.len(), 1);
    for i in 0..40u16 {
        p.track(10 + i, 1);
    }
    assert_eq!(p.trail.len(), 30);
    assert_eq!(p.trail[0], (20, 1, 200));
    p.tick();
    assert_eq!(p.trail[0], (20, 1, 192));
    for _ in 0..3 {
        p.tick();
    }
    assert!(!p.mouse_moving);
    for _ in 0..30 {
        p.tick();
    }
    assert!(p.trail.is_empty());
    assert!(p.is_hovered(rect(40, 0, 10, 2)));
    assert!(!p.is_hovered(rect(0, 0, 10, 2)));
    assert_eq!(p.hovered_index(&vec![rect(0, 0, 5, 5), rect(45, 1, 5, 1), rect(49, 0, 2, 2)]), Some(1));
}

#[test]
fn trail_colours_and_margins() {
    assert_eq!(trail_cell_color(None, 200), (20, 21, 39));
    assert_eq!(trail_cell_color(Some((250, 250, 250)), 200), (255, 255, 255));
    assert_eq!(frame_margins(100, 40), (2, 1));
    assert_eq!(frame_margins(79, 10), (1, 0));
    assert_eq!(frame_margins(80, 16), (2, 1));
}

#[test]
fn clicking_a_tab_switches_page() {
    let mut s = UiState::new(2, 3);
    let mut p = Pointer::new();
    let areas = no_areas();
    let e = s.handle_mouse_event(&mut p, &areas, click(9, 1));
    assert_eq!(s.page, Page::Repl);
    assert_eq!(s.focus_mode, FocusMode::Outer);
    assert!(matches!(e.as_slice(), [ClickEffect::Button(r), ClickEffect::Ui(Action::PageSwitched)] if *r == rect(8, 1, 6, 1)));
    let e = s.handle_mouse_event(&mut p, &areas, click(30, 1));
    assert!(e.is_empty());
    assert_eq!(s.page, Page::Repl);
    assert_eq!((p.hover_col, p.hover_row), (30, 1));
}

#[test]
fn clicking_the_page_focuses_it_and_outside_leaves_it() {
    let mut s = UiState::new(2, 3);
    s.switch_page(Page::Docs);
    let mut p = Pointer::new();
    let mut areas = no_areas();
    areas.content_area = rect(2, 3, 50, 15);
    let e = s.handle_mouse_event(&mut p, &areas, click(10, 10));
    assert!(e.is_empty());
    assert_eq!(s.focus_mode, FocusMode::Focused);
    s.handle_mouse_event(&mut p, &areas, click(55, 10));
    assert_eq!(s.focus_mode, FocusMode::Outer);
}

#[test]
fn clicks_beside_the_repl_keep_focus() {
    let mut s = focused_repl();
    let mut p = Pointer::new();
    let mut areas = no_areas();
    areas.content_area = rect(2, 3, 50, 15);
    s.handle_mouse_event(&mut p, &areas, click(55, 10));
    assert_eq!(s.focus_mode, FocusMode::Focused);
    areas.tab_area = rect(0, 0, 0, 0);
    s.handle_mouse_event(&mut p, &areas, click(10, 1));
    assert_eq!(s.focus_mode, FocusMode::Outer);
}

#[test]
fn clicking_keyboard_buttons_types() {
    let mut s = focused_repl();
    let mut p = Pointer::new();
    let mut areas = no_areas();
    areas.keyboard_button_areas = vec![(rect(5, 10, 3, 3), "a".to_string()), (rect(8, 10, 3, 3), "⇧".to_string())];
    let e = s.handle_mouse_event(&mut p, &areas, click(6, 11));
    assert_eq!(s.repl_input, vec!['a']);
    assert!(matches!(e.as_slice(), [ClickEffect::Button(r)] if *r == rect(5, 10, 3, 3)));
    s.handle_mouse_event(&mut p, &areas, click(9, 11));
    assert!(s.keyboard_shifted);
}

#[test]
fn clicking_scroll_arrows_scrolls() {
    let mut s = UiState::new(2, 3);
    s.focus_mode = FocusMode::Focused;
    let mut p = Pointer::new();
    let areas = no_areas();
    let e = s.handle_mouse_event(&mut p, &areas, click(57, 22));
    assert_eq!(s.home_scroll, 2);
    assert!(matches!(e.as_slice(), [ClickEffect::Button(r)] if *r == rect(56, 22, 3, 1)));
    s.handle_mouse_event(&mut p, &areas, click(2, 22));
    assert_eq!(s.home_scroll, 0);
}

#[test]
fn clicking_links_and_posts() {
    let mut s = UiState::new(2, 3);
    s.switch_page(Page::About);
    s.focus_mode = FocusMode::Focused;
    let mut p = Pointer::new();
    let mut areas = no_areas();
    areas.link_areas = vec![rect(2, 5, 40, 1), rect(2, 7, 40, 1)];
    areas.link_count = 2;
    let e = s.handle_mouse_event(&mut p, &areas, click(3, 7));
    assert!(matches!(
        e.as_slice(),
        [ClickEffect::Link(r), ClickEffect::Ui(Action::Transition), ClickEffect::OpenLink(1)] if *r == rect(2, 7, 40, 1)
    ));
    s.switch_page(Page::Blog);
    s.focus_mode = FocusMode::Focused;
    areas.blog_item_areas = vec![rect(2, 5, 40, 2), rect(2, 8, 40, 2), rect(2, 11, 40, 2)];
    let e = s.handle_mouse_event(&mut p, &areas, click(3, 9));
    assert!(s.blog_viewing_post);
    assert_eq!(s.blog_index, 1);
    assert!(matches!(
        e.as_slice(),
        [ClickEffect::Button(_), ClickEffect::Ui(Action::BlogNav), ClickEffect::Ui(Action::Transition)]
    ));
    let e = s.handle_mouse_event(&mut p, &areas, click(3, 12));
    assert!(matches!(e.as_slice(), []));
    assert_eq!(s.blog_index, 1);
}

#[test]
fn other_mouse_events_only_move_the_pointer() {
    let mut s = UiState::new(2, 3);
    let mut p = Pointer::new();
    let areas = no_areas();
    let e = s.handle_mouse_event(&mut p, &areas, MouseEvent { kind: MouseEventKind::Other, col: 9, row: 1 });
    assert!(e.is_empty());
    assert_eq!(s.page, Page::Home);
    assert_eq!(p.trail, vec![(9, 1, 200)]);
}

#[test]
fn docs_arrow_keys_move_between_sections() {
    let mut s = UiState::new(2, 3);
    s.switch_page(Page::Docs);
    s.handle_key_event(key(KeyCode::Enter));
    assert_eq!(s.focus_mode, FocusMode::Focused);
    assert_eq!(s.doc_index, 0);
    let a = s.handle_key_event(key(KeyCode::Right));
    assert!(matches!(a.as_slice(), [Action::DocNav]));
    assert_eq!(s.doc_index, 1);
    assert!(!s.doc_viewing_section);
    s.handle_key_event(key(KeyCode::Right));
    assert_eq!(s.doc_index, 2);
    s.handle_key_event(key(KeyCode::Right));
    assert_eq!(s.doc_index, 2);
    assert!(!s.doc_viewing_section);
    s.handle_key_event(key(KeyCode::Left));
    assert_eq!(s.doc_index, 1);
    assert!(!s.doc_viewing_section);
    let a = s.handle_key_event(key(KeyCode::Enter));
    assert!(matches!(a.as_slice(), [Action::Transition]));
    assert!(s.doc_viewing_section);
    assert_eq!(s.doc_index, 1);
}

#[test]
fn keyboard_env_sets_the_site_colours() {
    let env = keyboard_env();
    assert_eq!(env.get("border_color"), Some(&Value::RGB(100, 105, 120)));
    assert_eq!(env.get("highlight"), Some(&Value::RGB(180, 185, 200)));
    assert_eq!(env.get("other"), None);
}

#[test]
fn recorded_results_reach_the_output_pane() {
    let mut s = UiState::new(2, 3);
    assert!(s.repl_history.is_empty());
    s.record_result("(+ 1 2)".to_string(), "3".to_string());
    s.record_result("x".to_string(), "error".to_string());
    assert_eq!(
        s.repl_history,
        vec![("(+ 1 2)".to_string(), "3".to_string()), ("x".to_string(), "error".to_string())]
    );
    let lines = repl_output(&s.repl_history);
    assert_eq!(lines[0], vec!["Λ> ".to_string(), "x".to_string()]);
    assert_eq!(lines[3], vec!["  => 3".to_string()]);
}
