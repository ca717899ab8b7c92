//! What a mouse click does, given where the last frame drew each clickable
//! thing.

use crate::site::keys::{KeyCode, KeyEvent};
use crate::site::page::{page_at, FocusMode, Page, PAGE_COUNT};
use crate::site::pointer::{contains, track_m, Pointer, Rect};
use crate::site::ui::{
    actions_view, blog_exit_m, blog_open_m, doc_exit_m, doc_open_m, has_room_for, key_event_m,
    keyboard_tap_m, lemma_key_event_keeps_invariant, lemma_keyboard_tap_keeps_invariant, plain_key,
    switch_page_m, ui_invariant, Action, ActionView, UiModel, UiState,
};
use vstd::prelude::*;

verus! {

/// What a mouse event is.
#[derive(Debug, Clone, Copy, PartialEq, Eq, Structural)]
pub enum MouseEventKind {
    /// The left button went down.
    LeftDown,
    /// Anything else: a move, another button, a release.
    Other,
}

#[derive(Debug, Clone, Copy, PartialEq, Eq, Structural)]
pub struct MouseEvent {
    pub kind: MouseEventKind,
    pub col: u16,
    pub row: u16,
}

/// Where the last frame drew each clickable thing.
pub struct ClickAreas {
    pub tab_area: Rect,
    pub tab_rects: Vec<Rect>,
    /// The page of each tab rectangle.
    pub tab_page_indices: Vec<usize>,
    pub content_area: Rect,
    pub link_areas: Vec<Rect>,
    /// The number of links on the about page.
    pub link_count: usize,
    pub blog_back_area: Rect,
    pub blog_item_areas: Vec<Rect>,
    pub doc_back_area: Rect,
    pub doc_item_areas: Vec<Rect>,
    /// Each virtual keyboard button with the name it shows.
    pub keyboard_button_areas: Vec<(Rect, String)>,
    pub scroll_up_area: Rect,
    pub scroll_down_area: Rect,
}

/// The clickable areas as a value.
pub struct AreasModel {
    pub tab_area: Rect,
    pub tab_rects: Seq<Rect>,
    pub tab_page_indices: Seq<usize>,
    pub content_area: Rect,
    pub link_areas: Seq<Rect>,
    pub link_count: int,
    pub blog_back_area: Rect,
    pub blog_item_areas: Seq<Rect>,
    pub doc_back_area: Rect,
    pub doc_item_areas: Seq<Rect>,
    pub keyboard_button_areas: Seq<(Rect, Seq<char>)>,
    pub scroll_up_area: Rect,
    pub scroll_down_area: Rect,
}

impl View for ClickAreas {
    type V = AreasModel;

    open spec fn view(&self) -> AreasModel {
        AreasModel {
            tab_area: self.tab_area,
            tab_rects: self.tab_rects@,
            tab_page_indices: self.tab_page_indices@,
            content_area: self.content_area,
            link_areas: self.link_areas@,
            link_count: self.link_count as int,
            blog_back_area: self.blog_back_area,
            blog_item_areas: self.blog_item_areas@,
            doc_back_area: self.doc_back_area,
            doc_item_areas: self.doc_item_areas@,
            keyboard_button_areas: self.keyboard_button_areas@.map_values(
                |b: (Rect, String)| (b.0, b.1@),
            ),
            scroll_up_area: self.scroll_up_area,
            scroll_down_area: self.scroll_down_area,
        }
    }
}

/// The tab rectangles all belong to pages.
pub open spec fn areas_wf(a: AreasModel) -> bool {
    forall|i: int| 0 <= i < a.tab_page_indices.len() ==> #[trigger] a.tab_page_indices[i] < PAGE_COUNT
}

/// An effect of a click beyond those of key presses.
#[derive(Debug)]
pub enum ClickEffect {
    /// Flash the clicked button.
    Button(Rect),
    /// Sweep the clicked link.
    Link(Rect),
    /// Open link number `i` of the about page.
    OpenLink(usize),
    /// An effect of the state change.
    Ui(Action),
}

pub enum ClickEffectView {
    Button(Rect),
    Link(Rect),
    OpenLink(int),
    Ui(ActionView),
}

impl View for ClickEffect {
    type V = ClickEffectView;

    open spec fn view(&self) -> ClickEffectView {
        match self {
            ClickEffect::Button(r) => ClickEffectView::Button(*r),
            ClickEffect::Link(r) => ClickEffectView::Link(*r),
            ClickEffect::OpenLink(i) => ClickEffectView::OpenLink(*i as int),
            ClickEffect::Ui(a) => ClickEffectView::Ui(a@),
        }
    }
}

pub open spec fn effects_view(e: Seq<ClickEffect>) -> Seq<ClickEffectView> {
    e.map_values(|x: ClickEffect| x@)
}

pub open spec fn ui_effects(a: Seq<ActionView>) -> Seq<ClickEffectView> {
    a.map_values(|x: ActionView| ClickEffectView::Ui(x))
}

/// The first of the rectangles `rs`, among the first `limit`, that holds the
/// cell at `col`, `row`, searching from position `i`.
pub open spec fn first_hit_from(rs: Seq<Rect>, limit: int, col: int, row: int, i: int) -> Option<int>
    decreases rs.len() - i,
{
    if i < 0 || i >= rs.len() {
        None
    } else if contains(rs[i], col, row) && i < limit {
        Some(i)
    } else {
        first_hit_from(rs, limit, col, row, i + 1)
    }
}

pub open spec fn first_hit(rs: Seq<Rect>, limit: int, col: int, row: int) -> Option<int> {
    first_hit_from(rs, limit, col, row, 0)
}

pub open spec fn key_rects(k: Seq<(Rect, Seq<char>)>) -> Seq<Rect> {
    k.map_values(|b: (Rect, Seq<char>)| b.0)
}

/// What a left click at `col`, `row` does (any other mouse event only moves
/// the pointer). In order: a click in the tab bar switches to the clicked
/// tab's page (or just leaves the page); a click in the page focuses it, and
/// a click outside a focused page leaves it (on the REPL page only a click
/// above it); then links, the back buttons, posts and sections, the keyboard
/// buttons and the scroll arrows act.
pub open spec fn click_m(m: UiModel, a: AreasModel, col: int, row: int) -> (UiModel, Seq<ClickEffectView>) {
    if a.tab_area.y <= row < crate::site::pointer::bottom(a.tab_area) {
        match first_hit(a.tab_rects, a.tab_page_indices.len() as int, col, row) {
            Some(i) => {
                let (m1, acts) = switch_page_m(m, page_at(a.tab_page_indices[i] as int));
                (
                    UiModel { focus_mode: FocusMode::Outer, ..m1 },
                    seq![ClickEffectView::Button(a.tab_rects[i])] + ui_effects(acts),
                )
            },
            None => (UiModel { focus_mode: FocusMode::Outer, ..m }, Seq::empty()),
        }
    } else {
        let inside = contains(a.content_area, col, row);
        let m1 = if m.focus_mode == FocusMode::Outer && inside {
            UiModel { focus_mode: FocusMode::Focused, ..m }
        } else {
            m
        };
        if m1.focus_mode == FocusMode::Focused && !inside {
            let leave = m1.page != Page::Repl || row < a.content_area.y;
            (
                if leave {
                    UiModel { focus_mode: FocusMode::Outer, ..m1 }
                } else {
                    m1
                },
                Seq::empty(),
            )
        } else {
            click_targets_m(m1, a, col, row)
        }
    }
}

/// The clicks on the things of a page, once the focus is settled.
pub open spec fn click_targets_m(m: UiModel, a: AreasModel, col: int, row: int) -> (
    UiModel,
    Seq<ClickEffectView>,
) {
    let link = first_hit(a.link_areas, a.link_count, col, row);
    let blog_item = first_hit(a.blog_item_areas, m.blog_count, col, row);
    let doc_item = first_hit(a.doc_item_areas, m.doc_count, col, row);
    if m.page == Page::About && link is Some {
        let i = link->0;
        (
            m,
            seq![
                ClickEffectView::Link(a.link_areas[i]),
                ClickEffectView::Ui(ActionView::Transition),
                ClickEffectView::OpenLink(i),
            ],
        )
    } else if m.page == Page::Blog && a.blog_back_area.width > 0 && contains(a.blog_back_area, col, row) {
        let (m1, acts) = blog_exit_m(m);
        (m1, seq![ClickEffectView::Button(a.blog_back_area)] + ui_effects(acts))
    } else if m.page == Page::Blog && blog_item is Some {
        let i = blog_item->0;
        let (m1, acts) = blog_open_m(m, i);
        (m1, seq![ClickEffectView::Button(a.blog_item_areas[i])] + ui_effects(acts))
    } else if m.page == Page::Docs && a.doc_back_area.width > 0 && contains(a.doc_back_area, col, row) {
        let (m1, acts) = doc_exit_m(m);
        (m1, seq![ClickEffectView::Button(a.doc_back_area)] + ui_effects(acts))
    } else if m.page == Page::Docs && doc_item is Some {
        let i = doc_item->0;
        let (m1, acts) = doc_open_m(m, i);
        (m1, seq![ClickEffectView::Button(a.doc_item_areas[i])] + ui_effects(acts))
    } else {
        let key = first_hit(key_rects(a.keyboard_button_areas), a.keyboard_button_areas.len() as int, col, row);
        let (m2, e2) = if m.page == Page::Repl && m.focus_mode == FocusMode::Focused && key is Some {
            let (k_rect, name) = a.keyboard_button_areas[key->0];
            let (m1, acts) = keyboard_tap_m(m, name);
            (m1, ui_effects(acts).push(ClickEffectView::Button(k_rect)))
        } else {
            (m, Seq::empty())
        };
        if a.scroll_up_area.width > 0 && contains(a.scroll_up_area, col, row) {
            let (m3, acts) = key_event_m(m2, plain_key(KeyCode::Up));
            (m3, e2.push(ClickEffectView::Button(a.scroll_up_area)) + ui_effects(acts))
        } else if a.scroll_down_area.width > 0 && contains(a.scroll_down_area, col, row) {
            let (m3, acts) = key_event_m(m2, plain_key(KeyCode::Down));
            (m3, e2.push(ClickEffectView::Button(a.scroll_down_area)) + ui_effects(acts))
        } else {
            (m2, e2)
        }
    }
}

/// A hit is one of the rectangles, within the limit, and holds the cell.
proof fn lemma_first_hit_from(rs: Seq<Rect>, limit: int, col: int, row: int, i: int)
    ensures
        first_hit_from(rs, limit, col, row, i) matches Some(k) ==> i <= k < rs.len() && k < limit
            && contains(rs[k], col, row),
    decreases rs.len() - i,
{
    if 0 <= i < rs.len() {
        lemma_first_hit_from(rs, limit, col, row, i + 1);
    }
}

/// The position of the first of `rs`, among the first `limit`, that holds
/// the cell at `col`, `row`.
fn find_hit(rs: &Vec<Rect>, limit: usize, col: u16, row: u16) -> (r: Option<usize>)
    ensures
        first_hit(rs@, limit as int, col as int, row as int) == match r {
            Some(i) => Some(i as int),
            None => None::<int>,
        },
        r matches Some(i) ==> i < rs@.len() && i < limit,
{
    proof {
        lemma_first_hit_from(rs@, limit as int, col as int, row as int, 0);
    }
    let mut i: usize = 0;
    while i < rs.len()
        invariant
            i <= rs@.len(),
            first_hit(rs@, limit as int, col as int, row as int) == first_hit_from(
                rs@,
                limit as int,
                col as int,
                row as int,
                i as int,
            ),
        decreases rs@.len() - i,
    {
        if rs[i].contains(col, row) && i < limit {
            return Some(i);
        }
        i = i + 1;
    }
    None
}

fn keyboard_rects(k: &Vec<(Rect, String)>) -> (r: Vec<Rect>)
    ensures
        r@ == k@.map_values(|b: (Rect, String)| b.0),
{
    let mut r: Vec<Rect> = Vec::new();
    let mut i: usize = 0;
    while i < k.len()
        invariant
            i <= k@.len(),
            r@ == k@.take(i as int).map_values(|b: (Rect, String)| b.0),
        decreases k@.len() - i,
    {
        r.push(k[i].0);
        i = i + 1;
        proof {
            assert(r@ =~= k@.take(i as int).map_values(|b: (Rect, String)| b.0));
        }
    }
    proof {
        assert(k@.take(i as int) =~= k@);
    }
    r
}

fn wrap_actions(acts: Vec<Action>) -> (e: Vec<ClickEffect>)
    ensures
        effects_view(e@) == ui_effects(actions_view(acts@)),
{
    let ghost all = acts@;
    let mut rest = acts;
    let mut e: Vec<ClickEffect> = Vec::new();
    proof {
        assert(effects_view(e@) + ui_effects(actions_view(rest@)) =~= ui_effects(actions_view(all)));
    }
    while rest.len() > 0
        invariant
            effects_view(e@) + ui_effects(actions_view(rest@)) == ui_effects(actions_view(all)),
        decreases rest@.len(),
    {
        let ghost r0 = rest@;
        let ghost e0 = e@;
        let a = rest.remove(0);
        e.push(ClickEffect::Ui(a));
        proof {
            assert(r0 =~= seq![a] + rest@);
            assert(effects_view(e@) =~= effects_view(e0).push(ClickEffectView::Ui(a@)));
            assert(ui_effects(actions_view(r0)) =~= seq![ClickEffectView::Ui(a@)] + ui_effects(
                actions_view(rest@),
            ));
            assert(effects_view(e@) + ui_effects(actions_view(rest@)) =~= effects_view(e0)
                + ui_effects(actions_view(r0)));
        }
    }
    proof {
        assert(effects_view(e@) + ui_effects(actions_view(rest@)) =~= effects_view(e@));
    }
    e
}

fn one_effect(x: ClickEffect) -> (e: Vec<ClickEffect>)
    ensures
        effects_view(e@) == seq![x@],
{
    let mut e: Vec<ClickEffect> = Vec::new();
    e.push(x);
    proof {
        assert(effects_view(e@) =~= seq![x@]);
    }
    e
}

fn join_effects(a: Vec<ClickEffect>, b: Vec<ClickEffect>) -> (e: Vec<ClickEffect>)
    ensures
        effects_view(e@) == effects_view(a@) + effects_view(b@),
{
    let mut a = a;
    let mut b = b;
    let ghost a0 = a@;
    let ghost b0 = b@;
    a.append(&mut b);
    proof {
        assert(a@ == a0 + b0);
        assert(effects_view(a@) =~= effects_view(a0) + effects_view(b0));
    }
    a
}

/// A tap changes each counter by at most one.
proof fn lemma_tap_room(m: UiModel, name: Seq<char>, n: int)
    requires
        n >= 2,
        has_room_for(m, n + 1),
    ensures
        has_room_for(keyboard_tap_m(m, name).0, n),
{
}

impl UiState {
    /// Handles a mouse event: the pointer follows it, and a left click acts
    /// as `click_m` says on the areas the last frame drew.
    pub fn handle_mouse_event(
        &mut self,
        pointer: &mut Pointer,
        areas: &ClickAreas,
        event: MouseEvent,
    ) -> (r: Vec<ClickEffect>)
        requires
            has_room_for(old(self)@, 3),
            areas_wf(areas@),
        ensures
            final(pointer)@ == track_m(old(pointer)@, event.col, event.row),
            event.kind == MouseEventKind::LeftDown ==> (final(self)@, effects_view(r@)) == click_m(
                old(self)@,
                areas@,
                event.col as int,
                event.row as int,
            ),
            event.kind != MouseEventKind::LeftDown ==> final(self)@ == old(self)@ && r@.len() == 0,
    {
        pointer.track(event.col, event.row);
        if event.kind != MouseEventKind::LeftDown {
            return Vec::new();
        }
        self.handle_click(areas, event.col, event.row)
    }

    /// A left click at `col`, `row` (see `click_m`).
    pub fn handle_click(&mut self, areas: &ClickAreas, col: u16, row: u16) -> (r: Vec<ClickEffect>)
        requires
            has_room_for(old(self)@, 3),
            areas_wf(areas@),
        ensures
            (final(self)@, effects_view(r@)) == click_m(old(self)@, areas@, col as int, row as int),
    {
        if row >= areas.tab_area.y && row < areas.tab_area.bottom() {
            match find_hit(&areas.tab_rects, areas.tab_page_indices.len(), col, row) {
                Some(i) => {
                    let page = Page::at(areas.tab_page_indices[i]);
                    let ghost m0 = self@;
                    let acts = self.switch_page(page);
                    self.focus_mode = FocusMode::Outer;
                    let e = join_effects(one_effect(ClickEffect::Button(areas.tab_rects[i])), wrap_actions(acts));
                    assert(first_hit(areas@.tab_rects, areas@.tab_page_indices.len() as int, col as int, row as int) == Some(i as int));
                    assert(self@ == UiModel { focus_mode: FocusMode::Outer, ..switch_page_m(m0, page_at(areas@.tab_page_indices[i as int] as int)).0 });
                    assert(effects_view(e@) == seq![ClickEffectView::Button(areas@.tab_rects[i as int])] + ui_effects(switch_page_m(m0, page_at(areas@.tab_page_indices[i as int] as int)).1));
                    return e;
                },
                None => {
                    self.focus_mode = FocusMode::Outer;
                    return Vec::new();
                },
            }
        }
        let inside = areas.content_area.contains(col, row);
        if self.focus_mode == FocusMode::Outer && inside {
            self.focus_mode = FocusMode::Focused;
        }
        if self.focus_mode == FocusMode::Focused && !inside {
            if self.page != Page::Repl || row < areas.content_area.y {
                self.focus_mode = FocusMode::Outer;
            }
            return Vec::new();
        }
        self.handle_click_targets(areas, col, row)
    }

    fn handle_click_targets(&mut self, areas: &ClickAreas, col: u16, row: u16) -> (r: Vec<ClickEffect>)
        requires
            has_room_for(old(self)@, 3),
        ensures
            (final(self)@, effects_view(r@)) == click_targets_m(old(self)@, areas@, col as int, row as int),
    {
        let link = find_hit(&areas.link_areas, areas.link_count, col, row);
        let blog_item = find_hit(&areas.blog_item_areas, self.blog_count, col, row);
        let doc_item = find_hit(&areas.doc_item_areas, self.doc_count, col, row);
        if self.page == Page::About && link.is_some() {
            let i = link.unwrap();
            let mut e: Vec<ClickEffect> = Vec::new();
            e.push(ClickEffect::Link(areas.link_areas[i]));
            e.push(ClickEffect::Ui(Action::Transition));
            e.push(ClickEffect::OpenLink(i));
            proof {
                assert(effects_view(e@) =~= seq![
                    ClickEffectView::Link(areas.link_areas@[i as int]),
                    ClickEffectView::Ui(ActionView::Transition),
                    ClickEffectView::OpenLink(i as int),
                ]);
            }
            return e;
        }
        if self.page == Page::Blog && areas.blog_back_area.width > 0 && areas.blog_back_area.contains(col, row) {
            let acts = self.blog_exit_post();
            return join_effects(one_effect(ClickEffect::Button(areas.blog_back_area)), wrap_actions(acts));
        }
        if self.page == Page::Blog && blog_item.is_some() {
            let i = blog_item.unwrap();
            let acts = self.blog_open_post(i);
            return join_effects(one_effect(ClickEffect::Button(areas.blog_item_areas[i])), wrap_actions(acts));
        }
        if self.page == Page::Docs && areas.doc_back_area.width > 0 && areas.doc_back_area.contains(col, row) {
            let acts = self.doc_exit_section();
            return join_effects(one_effect(ClickEffect::Button(areas.doc_back_area)), wrap_actions(acts));
        }
        if self.page == Page::Docs && doc_item.is_some() {
            let i = doc_item.unwrap();
            let acts = self.doc_open_section(i);
            return join_effects(one_effect(ClickEffect::Button(areas.doc_item_areas[i])), wrap_actions(acts));
        }
        let key_rects_v = keyboard_rects(&areas.keyboard_button_areas);
        proof {
            assert(key_rects_v@ =~= key_rects(areas@.keyboard_button_areas));
        }
        let key = find_hit(&key_rects_v, areas.keyboard_button_areas.len(), col, row);
        let ghost m0 = self@;
        let mut e: Vec<ClickEffect> = Vec::new();
        if self.page == Page::Repl && self.focus_mode == FocusMode::Focused && key.is_some() {
            let k = key.unwrap();
            let k_rect = areas.keyboard_button_areas[k].0;
            let acts = self.handle_keyboard_tap(areas.keyboard_button_areas[k].1.as_str());
            let mut tapped = wrap_actions(acts);
            tapped.push(ClickEffect::Button(k_rect));
            proof {
                lemma_tap_room(m0, areas@.keyboard_button_areas[k as int].1, 2);
                assert(effects_view(tapped@) =~= effects_view(tapped@.drop_last()).push(
                    ClickEffectView::Button(k_rect),
                ));
            }
            e = tapped;
        } else {
            proof {
                assert(effects_view(e@) =~= Seq::<ClickEffectView>::empty());
            }
        }
        if areas.scroll_up_area.width > 0 && areas.scroll_up_area.contains(col, row) {
            let acts = self.handle_key_event(KeyEvent { code: KeyCode::Up, shift: false, ctrl: false, alt: false });
            let ghost e0 = e@;
            e.push(ClickEffect::Button(areas.scroll_up_area));
            proof {
                assert(effects_view(e@) =~= effects_view(e0).push(ClickEffectView::Button(areas.scroll_up_area)));
            }
            return join_effects(e, wrap_actions(acts));
        }
        if areas.scroll_down_area.width > 0 && areas.scroll_down_area.contains(col, row) {
            let acts = self.handle_key_event(KeyEvent { code: KeyCode::Down, shift: false, ctrl: false, alt: false });
            let ghost e0 = e@;
            e.push(ClickEffect::Button(areas.scroll_down_area));
            proof {
                assert(effects_view(e@) =~= effects_view(e0).push(ClickEffectView::Button(areas.scroll_down_area)));
            }
            return join_effects(e, wrap_actions(acts));
        }
        e
    }
}

impl Pointer {
    /// The first of `rects` under the pointer, if any.
    pub fn hovered_index(&self, rects: &Vec<Rect>) -> (r: Option<usize>)
        ensures
            first_hit(rects@, rects@.len() as int, self.hover_col as int, self.hover_row as int) == match r {
                Some(i) => Some(i as int),
                None => None::<int>,
            },
    {
        find_hit(rects, rects.len(), self.hover_col, self.hover_row)
    }
}

/// Every click keeps the state well formed (see `ui_invariant`): with the
/// initial state and every key press, tap and frame keeping it too, every
/// state the site reaches is well formed.
pub proof fn lemma_click_keeps_invariant(m: UiModel, a: AreasModel, col: int, row: int)
    requires
        ui_invariant(m),
    ensures
        ui_invariant(click_m(m, a, col, row).0),
{
    if !(a.tab_area.y <= row < crate::site::pointer::bottom(a.tab_area)) {
        let inside = contains(a.content_area, col, row);
        let m1 = if m.focus_mode == FocusMode::Outer && inside {
            UiModel { focus_mode: FocusMode::Focused, ..m }
        } else {
            m
        };
        if !(m1.focus_mode == FocusMode::Focused && !inside) {
            lemma_first_hit_from(a.blog_item_areas, m1.blog_count, col, row, 0);
            lemma_first_hit_from(a.doc_item_areas, m1.doc_count, col, row, 0);
            lemma_first_hit_from(
                key_rects(a.keyboard_button_areas),
                a.keyboard_button_areas.len() as int,
                col,
                row,
                0,
            );
            let key = first_hit(key_rects(a.keyboard_button_areas), a.keyboard_button_areas.len() as int, col, row);
            if m1.page == Page::Repl && m1.focus_mode == FocusMode::Focused && key is Some {
                let name = a.keyboard_button_areas[key->0].1;
                lemma_keyboard_tap_keeps_invariant(m1, name);
                let m2 = keyboard_tap_m(m1, name).0;
                lemma_key_event_keeps_invariant(m2, plain_key(KeyCode::Up));
                lemma_key_event_keeps_invariant(m2, plain_key(KeyCode::Down));
            } else {
                lemma_key_event_keeps_invariant(m1, plain_key(KeyCode::Up));
                lemma_key_event_keeps_invariant(m1, plain_key(KeyCode::Down));
            }
        }
    }
}


/// The first rectangle holding a cell, among the first `limit`, is found:
/// when `rs[i]` holds it and no rectangle before does, the hit is `i`.
proof fn lemma_first_hit_is(rs: Seq<Rect>, limit: int, col: int, row: int, i: int, k: int)
    requires
        0 <= k <= i < rs.len(),
        i < limit,
        contains(rs[i], col, row),
        forall|j: int| 0 <= j < i ==> !contains(#[trigger] rs[j], col, row),
    ensures
        first_hit_from(rs, limit, col, row, k) == Some(i),
    decreases i - k,
{
    if k < i {
        lemma_first_hit_is(rs, limit, col, row, i, k + 1);
    }
}

/// On the documentation page, a click on section `i` (the first section
/// area holding the cell), away from the back button, opens section `i`:
/// it becomes the selected section and is shown, and the click lights its
/// area.
pub proof fn lemma_click_on_section_opens_it(m: UiModel, a: AreasModel, col: int, row: int, i: int)
    requires
        m.page == Page::Docs,
        0 <= i < m.doc_count,
        i < a.doc_item_areas.len(),
        contains(a.doc_item_areas[i], col, row),
        forall|j: int| 0 <= j < i ==> !contains(#[trigger] a.doc_item_areas[j], col, row),
        !(a.doc_back_area.width > 0 && contains(a.doc_back_area, col, row)),
    ensures
        click_targets_m(m, a, col, row).0.doc_index == i,
        click_targets_m(m, a, col, row).0.doc_viewing_section,
        click_targets_m(m, a, col, row).0.page == Page::Docs,
        click_targets_m(m, a, col, row).1[0] == ClickEffectView::Button(a.doc_item_areas[i]),
{
    lemma_first_hit_is(a.doc_item_areas, m.doc_count, col, row, i, 0);
}

/// On the blog page, a click on post `i` (the first post area holding the
/// cell), away from the back button, opens post `i`: it becomes the
/// selected post and is shown, and the click lights its area.
pub proof fn lemma_click_on_post_opens_it(m: UiModel, a: AreasModel, col: int, row: int, i: int)
    requires
        m.page == Page::Blog,
        0 <= i < m.blog_count,
        i < a.blog_item_areas.len(),
        contains(a.blog_item_areas[i], col, row),
        forall|j: int| 0 <= j < i ==> !contains(#[trigger] a.blog_item_areas[j], col, row),
        !(a.blog_back_area.width > 0 && contains(a.blog_back_area, col, row)),
    ensures
        click_targets_m(m, a, col, row).0.blog_index == i,
        click_targets_m(m, a, col, row).0.blog_viewing_post,
        click_targets_m(m, a, col, row).0.page == Page::Blog,
        click_targets_m(m, a, col, row).1[0] == ClickEffectView::Button(a.blog_item_areas[i]),
{
    lemma_first_hit_is(a.blog_item_areas, m.blog_count, col, row, i, 0);
}

/// A click on a shown back button returns to the list it belongs to, on the
/// same page.
pub proof fn lemma_click_on_back_returns(m: UiModel, a: AreasModel, col: int, row: int)
    ensures
        m.page == Page::Docs && a.doc_back_area.width > 0 && contains(a.doc_back_area, col, row) ==> {
            let r = click_targets_m(m, a, col, row).0;
            !r.doc_viewing_section && r.doc_index == m.doc_index && r.page == Page::Docs
        },
        m.page == Page::Blog && a.blog_back_area.width > 0 && contains(a.blog_back_area, col, row) ==> {
            let r = click_targets_m(m, a, col, row).0;
            !r.blog_viewing_post && r.blog_index == m.blog_index && r.page == Page::Blog
        },
{
}

/// On the about page, a click on link `i` (the first link area holding the
/// cell) opens link `i` and changes nothing of the interface state.
pub proof fn lemma_click_on_link_opens_it(m: UiModel, a: AreasModel, col: int, row: int, i: int)
    requires
        m.page == Page::About,
        0 <= i < a.link_count,
        i < a.link_areas.len(),
        contains(a.link_areas[i], col, row),
        forall|j: int| 0 <= j < i ==> !contains(#[trigger] a.link_areas[j], col, row),
    ensures
        click_targets_m(m, a, col, row).0 == m,
        click_targets_m(m, a, col, row).1.contains(ClickEffectView::OpenLink(i)),
{
    lemma_first_hit_is(a.link_areas, a.link_count, col, row, i, 0);
    assert(click_targets_m(m, a, col, row).1[2] == ClickEffectView::OpenLink(i));
}


/// A click on tab `i` of the tab bar (the first tab holding the cell) shows
/// that tab's page, with the focus on the tabs.
pub proof fn lemma_click_on_tab_switches_page(m: UiModel, a: AreasModel, col: int, row: int, i: int)
    requires
        a.tab_area.y <= row < crate::site::pointer::bottom(a.tab_area),
        0 <= i < a.tab_rects.len(),
        i < a.tab_page_indices.len(),
        contains(a.tab_rects[i], col, row),
        forall|j: int| 0 <= j < i ==> !contains(#[trigger] a.tab_rects[j], col, row),
    ensures
        click_m(m, a, col, row).0.page == page_at(a.tab_page_indices[i] as int),
        click_m(m, a, col, row).0.focus_mode == FocusMode::Outer,
{
    lemma_first_hit_is(a.tab_rects, a.tab_page_indices.len() as int, col, row, i, 0);
}

/// A click inside the page area, below the tab bar, leaves the page focused.
pub proof fn lemma_click_in_page_focuses(m: UiModel, a: AreasModel, col: int, row: int)
    requires
        !(a.tab_area.y <= row < crate::site::pointer::bottom(a.tab_area)),
        contains(a.content_area, col, row),
    ensures
        click_m(m, a, col, row).0.focus_mode == FocusMode::Focused,
        click_m(m, a, col, row).0.page == m.page,
{
}

} // verus!
