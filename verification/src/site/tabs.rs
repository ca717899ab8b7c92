//! The tab bar: a carousel that centres the current page's tab and fills
//! the bar on both sides with the following and preceding tabs, wrapping
//! around the page list.

use crate::site::page::{page_at, page_index, page_title, Page, PAGE_COUNT};
use crate::site::pointer::Rect;
use vstd::prelude::*;

verus! {

/// The width of a page's tab: its title with a space on each side.
pub open spec fn tab_width(i: int) -> int {
    page_title(page_at(i)).len() + 2int
}

fn tab_width_of(i: usize) -> (w: i32)
    requires
        i < PAGE_COUNT,
    ensures
        w == tab_width(i as int),
        2 <= w <= 9,
{
    proof {
        reveal_strlit("Home");
        reveal_strlit("REPL");
        reveal_strlit("Docs");
        reveal_strlit("Blog");
        reveal_strlit("About");
        reveal_strlit("Effects");
    }
    if i == 0 {
        6
    } else if i == 1 {
        6
    } else if i == 2 {
        6
    } else if i == 3 {
        6
    } else if i == 4 {
        7
    } else {
        9
    }
}

/// Half of `x`, rounded toward zero as integer division rounds.
pub open spec fn half_toward_zero(x: int) -> int {
    if x >= 0 {
        x / 2
    } else {
        -((-x) / 2)
    }
}

pub open spec fn next_index(i: int) -> int {
    (i + 1) % (PAGE_COUNT as int)
}

pub open spec fn prev_index(i: int) -> int {
    if i == 0 {
        PAGE_COUNT - 1
    } else {
        i - 1
    }
}

/// The tabs from column `cursor` rightward, starting with page `idx`, as
/// long as they start before column `edge`: each is (page, column, width),
/// and a divider column separates two tabs.
pub open spec fn carousel_right(cursor: int, idx: int, edge: int) -> Seq<(int, int, int)>
    decreases if cursor < edge {
        edge - cursor
    } else {
        0
    },
{
    if cursor < edge && 0 <= idx < PAGE_COUNT {
        seq![(idx, cursor, tab_width(idx))] + carousel_right(
            cursor + tab_width(idx) + 1,
            next_index(idx),
            edge,
        )
    } else {
        Seq::empty()
    }
}

/// The tabs that end just before column `cursor` leftward, starting with
/// page `idx`, nearest first, up to the first that starts at or before
/// column `left`.
pub open spec fn carousel_left(cursor: int, idx: int, left: int) -> Seq<(int, int, int)>
    decreases cursor - left,
{
    if 0 <= idx < PAGE_COUNT {
        let start = cursor - tab_width(idx);
        if start <= left {
            seq![(idx, start, tab_width(idx))]
        } else {
            seq![(idx, start, tab_width(idx))] + carousel_left(start - 1, prev_index(idx), left)
        }
    } else {
        Seq::empty()
    }
}

/// A tab of the carousel: its page, its first column and width before
/// clipping, and whether it is the current page's tab.
pub struct CarouselEntry {
    pub page: int,
    pub x: int,
    pub width: int,
    pub is_center: bool,
}

pub open spec fn side_entry(e: (int, int, int)) -> CarouselEntry {
    CarouselEntry { page: e.0, x: e.1, width: e.2, is_center: false }
}

/// The first column inside the bar's border, and the number of columns.
pub open spec fn inner_x(area: Rect) -> int {
    area.x + 1
}

pub open spec fn inner_width(area: Rect) -> int {
    if area.width >= 2 {
        area.width - 2
    } else {
        0
    }
}

/// Where the tab of page `sel` starts: centred inside the bar.
pub open spec fn center_x(area: Rect, sel: int) -> int {
    inner_x(area) + half_toward_zero(inner_width(area) - tab_width(sel))
}

/// The tabs of the bar `area` with page `sel` current, left to right: the
/// preceding pages leftward of the centred tab, then it, then the following
/// pages rightward.
pub open spec fn carousel_entries(area: Rect, sel: int) -> Seq<CarouselEntry> {
    let cx = center_x(area, sel);
    let w = tab_width(sel);
    let right = carousel_right(cx + w + 1, next_index(sel), inner_x(area) + inner_width(area));
    let left = carousel_left(cx - 1, prev_index(sel), inner_x(area));
    left.reverse().map_values(|e: (int, int, int)| side_entry(e)) + seq![
        CarouselEntry { page: sel, x: cx, width: w, is_center: true },
    ] + right.map_values(|e: (int, int, int)| side_entry(e))
}

/// `x` kept to its last 16 bits, as a cast to `u16` keeps it.
pub open spec fn low16(x: int) -> int {
    x % 0x1_0000
}

/// The visible part of a tab in the bar `area`: from the tab's start (or
/// the bar's inner left edge) to its end (or the inner right edge); none
/// when nothing is left.
pub open spec fn clip_entry(area: Rect, e: CarouselEntry) -> Option<Rect> {
    let vis_left = inner_x(area);
    let vis_right = inner_x(area) + inner_width(area);
    let cx = if e.x >= vis_left {
        e.x
    } else {
        vis_left
    };
    let r0 = low16(
        if e.x + e.width <= vis_right {
            e.x + e.width
        } else {
            vis_right
        },
    );
    let cr = if r0 <= vis_right {
        r0
    } else {
        vis_right
    };
    if cr > cx {
        Some(Rect { x: cx as u16, y: (area.y + 1) as u16, width: (cr - cx) as u16, height: 1 })
    } else {
        None
    }
}

/// A visible tab: the page, the cells it covers, its unclipped start, and
/// whether it is the current page's tab.
#[derive(Debug, Clone, Copy, PartialEq, Eq, Structural)]
pub struct TabSlot {
    pub page_idx: usize,
    pub rect: Rect,
    pub raw_x: i32,
    pub raw_width: u16,
    pub is_center: bool,
}

/// The visible tabs among `entries`, in order.
pub open spec fn visible_slots(area: Rect, entries: Seq<CarouselEntry>) -> Seq<TabSlot>
    decreases entries.len(),
{
    if entries.len() == 0 {
        Seq::empty()
    } else {
        let rest = visible_slots(area, entries.drop_last());
        let e = entries.last();
        match clip_entry(area, e) {
            Some(r) => rest.push(
                TabSlot {
                    page_idx: e.page as usize,
                    rect: r,
                    raw_x: e.x as i32,
                    raw_width: e.width as u16,
                    is_center: e.is_center,
                },
            ),
            None => rest,
        }
    }
}

/// The position of the current page's tab among the visible ones, or 0.
pub open spec fn center_slot(slots: Seq<TabSlot>) -> int
    decreases slots.len(),
{
    if slots.len() == 0 {
        0
    } else if slots.last().is_center {
        slots.len() - 1
    } else {
        center_slot(slots.drop_last())
    }
}

/// The laid-out tab bar: the visible tabs left to right, and which of them
/// is the current page's.
pub struct TabBar {
    pub slots: Vec<TabSlot>,
    pub center_tab_idx: usize,
}

/// The bar fits the screen's coordinates: its inner row and right edge are
/// columns and rows of a `u16` screen.
pub open spec fn bar_fits(area: Rect) -> bool {
    &&& area.y < u16::MAX
    &&& inner_x(area) + inner_width(area) <= u16::MAX
}

pub open spec fn triples_view(v: Seq<(usize, i32, i32)>) -> Seq<(int, int, int)> {
    v.map_values(|e: (usize, i32, i32)| (e.0 as int, e.1 as int, e.2 as int))
}

pub open spec fn entries_view(v: Seq<(usize, i32, i32, bool)>) -> Seq<CarouselEntry> {
    v.map_values(
        |e: (usize, i32, i32, bool)| CarouselEntry { page: e.0 as int, x: e.1 as int, width: e.2 as int, is_center: e.3 },
    )
}

proof fn lemma_tab_width_bounds(i: int)
    ensures
        2 <= tab_width(i) <= 9,
{
    reveal_strlit("Home");
    reveal_strlit("REPL");
    reveal_strlit("Docs");
    reveal_strlit("Blog");
    reveal_strlit("About");
    reveal_strlit("Effects");
}

/// The tabs rightward of the centred one (see `carousel_right`).
fn fill_right(start: i32, first: usize, edge: i32) -> (v: Vec<(usize, i32, i32)>)
    requires
        first < PAGE_COUNT,
        0 <= edge <= u16::MAX,
        -100 <= start <= edge + 10,
    ensures
        triples_view(v@) == carousel_right(start as int, first as int, edge as int),
        forall|k: int| #![trigger v@[k]] 0 <= k < v@.len() ==> v@[k].0 < PAGE_COUNT && -100 <= v@[k].1 < edge && 2
            <= v@[k].2 <= 9,
{
    let mut v: Vec<(usize, i32, i32)> = Vec::new();
    let mut cursor: i32 = start;
    let mut idx: usize = first;
    proof {
        assert(triples_view(v@) =~= Seq::<(int, int, int)>::empty());
    }
    while cursor < edge
        invariant
            idx < PAGE_COUNT,
            0 <= edge <= u16::MAX,
            -100 <= start <= cursor <= edge + 10,
            triples_view(v@) + carousel_right(cursor as int, idx as int, edge as int) == carousel_right(
                start as int,
                first as int,
                edge as int,
            ),
            forall|k: int| #![trigger v@[k]] 0 <= k < v@.len() ==> v@[k].0 < PAGE_COUNT && -100 <= v@[k].1 < edge
                && 2 <= v@[k].2 <= 9,
        decreases edge + 10 - cursor,
    {
        let w = tab_width_of(idx);
        let ghost v0 = triples_view(v@);
        v.push((idx, cursor, w));
        proof {
            assert(triples_view(v@) =~= v0.push((idx as int, cursor as int, w as int)));
            let rest = carousel_right(cursor + w + 1, next_index(idx as int), edge as int);
            assert(carousel_right(cursor as int, idx as int, edge as int) == seq![
                (idx as int, cursor as int, w as int),
            ] + rest);
            assert(v0 + (seq![(idx as int, cursor as int, w as int)] + rest) =~= v0.push(
                (idx as int, cursor as int, w as int),
            ) + rest);
        }
        cursor = cursor + w + 1;
        idx = (idx + 1) % PAGE_COUNT;
    }
    proof {
        assert(carousel_right(cursor as int, idx as int, edge as int) =~= Seq::<(int, int, int)>::empty());
        assert(triples_view(v@) + Seq::<(int, int, int)>::empty() =~= triples_view(v@));
    }
    v
}

/// The tabs leftward of the centred one, nearest first (see
/// `carousel_left`).
fn fill_left(start: i32, first: usize, left: i32) -> (v: Vec<(usize, i32, i32)>)
    requires
        first < PAGE_COUNT,
        1 <= left <= u16::MAX,
        start >= left - 100,
        start <= u16::MAX + 100,
    ensures
        triples_view(v@) == carousel_left(start as int, first as int, left as int),
        forall|k: int| #![trigger v@[k]] 0 <= k < v@.len() ==> v@[k].0 < PAGE_COUNT && left - 200 <= v@[k].1 < start
            && 2 <= v@[k].2 <= 9,
{
    let mut v: Vec<(usize, i32, i32)> = Vec::new();
    let mut cursor: i32 = start;
    let mut idx: usize = first;
    proof {
        assert(triples_view(v@) =~= Seq::<(int, int, int)>::empty());
    }
    loop
        invariant_except_break
            idx < PAGE_COUNT,
            1 <= left <= u16::MAX,
            left - 100 <= cursor <= start,
            triples_view(v@) + carousel_left(cursor as int, idx as int, left as int) == carousel_left(
                start as int,
                first as int,
                left as int,
            ),
            forall|k: int| #![trigger v@[k]] 0 <= k < v@.len() ==> v@[k].0 < PAGE_COUNT && left - 200 <= v@[k].1
                < start && 2 <= v@[k].2 <= 9,
        ensures
            triples_view(v@) == carousel_left(start as int, first as int, left as int),
            forall|k: int| #![trigger v@[k]] 0 <= k < v@.len() ==> v@[k].0 < PAGE_COUNT && left - 200 <= v@[k].1
                < start && 2 <= v@[k].2 <= 9,
        decreases cursor - left + 100,
    {
        let w = tab_width_of(idx);
        let tab_start = cursor - w;
        let ghost v0 = triples_view(v@);
        v.push((idx, tab_start, w));
        proof {
            assert(triples_view(v@) =~= v0.push((idx as int, tab_start as int, w as int)));
        }
        if tab_start <= left {
            proof {
                assert(carousel_left(cursor as int, idx as int, left as int) == seq![
                    (idx as int, tab_start as int, w as int),
                ]);
                assert(v0 + seq![(idx as int, tab_start as int, w as int)] =~= triples_view(v@));
            }
            break;
        }
        proof {
            let rest = carousel_left(tab_start - 1, prev_index(idx as int), left as int);
            assert(carousel_left(cursor as int, idx as int, left as int) == seq![
                (idx as int, tab_start as int, w as int),
            ] + rest);
            assert(v0 + (seq![(idx as int, tab_start as int, w as int)] + rest) =~= v0.push(
                (idx as int, tab_start as int, w as int),
            ) + rest);
        }
        cursor = tab_start - 1;
        idx = if idx == 0 {
            PAGE_COUNT - 1
        } else {
            idx - 1
        };
    }
    v
}

/// Lays out the tab bar `area` with `page` current (see `carousel_entries`
/// and `visible_slots`).
pub fn tab_bar(area: Rect, page: Page) -> (bar: TabBar)
    requires
        bar_fits(area),
    ensures
        bar.slots@ == visible_slots(area, carousel_entries(area, page_index(page))),
        bar.center_tab_idx == center_slot(bar.slots@),
{
    let inner_x: i32 = area.x as i32 + 1;
    let inner_width: i32 = area.width.saturating_sub(2) as i32;
    let sel = page.index();
    let sw = tab_width_of(sel);
    let d = inner_width - sw;
    let half: i32 = if d >= 0 {
        (d as u32 / 2) as i32
    } else {
        -(((-d) as u32 / 2) as i32)
    };
    let cx = inner_x + half;
    let ghost sel_i = sel as int;
    proof {
        assert(cx == center_x(area, sel_i));
        assert(prev_index(sel_i) == if sel == 0 {
            5int
        } else {
            sel - 1
        });
    }
    let right = fill_right(cx + sw + 1, (sel + 1) % PAGE_COUNT, inner_x + inner_width);
    let left = fill_left(
        cx - 1,
        if sel == 0 {
            PAGE_COUNT - 1
        } else {
            sel - 1
        },
        inner_x,
    );
    // left to right: the preceding tabs from the farthest, the centred one,
    // the following ones
    let ghost lv = triples_view(left@);
    let ghost rv = triples_view(right@);
    let mut entries: Vec<(usize, i32, i32, bool)> = Vec::new();
    let mut j: usize = 0;
    proof {
        assert(entries_view(entries@) =~= lv.reverse().take(0).map_values(|e: (int, int, int)| side_entry(e)));
    }
    while j < left.len()
        invariant
            j <= left@.len(),
            lv == triples_view(left@),
            entries_view(entries@) == lv.reverse().take(j as int).map_values(|e: (int, int, int)| side_entry(e)),
            forall|k: int| #![trigger left@[k]] 0 <= k < left@.len() ==> -300 <= left@[k].1 <= u16::MAX && 0 <= left@[k].2 <= 9,
            forall|k: int| #![trigger entries@[k]] 0 <= k < entries@.len() ==> -300 <= entries@[k].1 <= u16::MAX && 0
                <= entries@[k].2 <= 9,
        decreases left@.len() - j,
    {
        let e = left[left.len() - 1 - j];
        let ghost ev0 = entries_view(entries@);
        entries.push((e.0, e.1, e.2, false));
        j = j + 1;
        proof {
            let n = left@.len() - j;
            assert(lv.reverse()[j - 1] == lv[n]);
            assert(lv[n] == (e.0 as int, e.1 as int, e.2 as int));
            assert(entries_view(entries@) =~= ev0.push(side_entry(lv[n])));
            assert(lv.reverse().take(j as int).map_values(|e: (int, int, int)| side_entry(e)) =~= lv.reverse().take(
                j - 1,
            ).map_values(|e: (int, int, int)| side_entry(e)).push(side_entry(lv[n])));
        }
    }
    entries.push((sel, cx, sw, true));
    let mut j: usize = 0;
    let ghost before = entries_view(entries@);
    proof {
        assert(lv.reverse().take(left@.len() as int) =~= lv.reverse());
    }
    while j < right.len()
        invariant
            j <= right@.len(),
            rv == triples_view(right@),
            entries_view(entries@) == before + rv.take(j as int).map_values(|e: (int, int, int)| side_entry(e)),
            forall|k: int| #![trigger right@[k]] 0 <= k < right@.len() ==> -300 <= right@[k].1 <= u16::MAX && 0 <= right@[k].2 <= 9,
            forall|k: int| #![trigger entries@[k]] 0 <= k < entries@.len() ==> -300 <= entries@[k].1 <= u16::MAX && 0
                <= entries@[k].2 <= 9,
        decreases right@.len() - j,
    {
        let e = right[j];
        let ghost ev0 = entries_view(entries@);
        entries.push((e.0, e.1, e.2, false));
        j = j + 1;
        proof {
            assert(rv[j - 1] == (e.0 as int, e.1 as int, e.2 as int));
            assert(entries_view(entries@) =~= ev0.push(side_entry(rv[j - 1])));
            assert(rv.take(j as int).map_values(|e: (int, int, int)| side_entry(e)) =~= rv.take(j - 1).map_values(
                |e: (int, int, int)| side_entry(e),
            ).push(side_entry(rv[j - 1])));
        }
    }
    proof {
        assert(rv.take(right@.len() as int) =~= rv);
        assert(entries_view(entries@) =~= carousel_entries(area, sel_i));
    }
    clip_entries(area, &entries)
}

fn clip_entries(area: Rect, entries: &Vec<(usize, i32, i32, bool)>) -> (bar: TabBar)
    requires
        bar_fits(area),
        forall|k: int| #![trigger entries@[k]] 0 <= k < entries@.len() ==> -300 <= entries@[k].1 <= u16::MAX && 0
            <= entries@[k].2 <= 9,
    ensures
        bar.slots@ == visible_slots(area, entries_view(entries@)),
        bar.center_tab_idx == center_slot(bar.slots@),
{
    let vis_left: i32 = area.x as i32 + 1;
    let vis_right: i32 = vis_left + area.width.saturating_sub(2) as i32;
    let mut slots: Vec<TabSlot> = Vec::new();
    let mut center_tab_idx: usize = 0;
    let mut i: usize = 0;
    while i < entries.len()
        invariant
            i <= entries@.len(),
            bar_fits(area),
            vis_left == inner_x(area),
            vis_right == inner_x(area) + inner_width(area),
            forall|k: int| #![trigger entries@[k]] 0 <= k < entries@.len() ==> -300 <= entries@[k].1 <= u16::MAX && 0
                <= entries@[k].2 <= 9,
            slots@ == visible_slots(area, entries_view(entries@.take(i as int))),
            center_tab_idx == center_slot(slots@),
        decreases entries@.len() - i,
    {
        let (page_idx, x, width, is_center) = entries[i];
        let ghost e = CarouselEntry { page: page_idx as int, x: x as int, width: width as int, is_center };
        proof {
            assert(entries_view(entries@.take(i as int + 1)).drop_last() =~= entries_view(entries@.take(i as int)));
            assert(entries_view(entries@.take(i as int + 1)).last() == e);
        }
        let raw_right: i64 = x as i64 + width as i64;
        let clipped_x: i64 = if x as i64 >= vis_left as i64 {
            x as i64
        } else {
            vis_left as i64
        };
        let m: i64 = if raw_right <= vis_right as i64 {
            raw_right
        } else {
            vis_right as i64
        };
        let r0: i64 = if m < 0 {
            m + 0x1_0000
        } else {
            m
        };
        assert(r0 == low16(m as int));
        let cr: i64 = if r0 <= vis_right as i64 {
            r0
        } else {
            vis_right as i64
        };
        if cr > clipped_x {
            let rect = Rect { x: clipped_x as u16, y: area.y + 1, width: (cr - clipped_x) as u16, height: 1 };
            if is_center {
                center_tab_idx = slots.len();
            }
            let ghost s0 = slots@;
            slots.push(TabSlot { page_idx, rect, raw_x: x, raw_width: width as u16, is_center });
            proof {
                assert(slots@.drop_last() =~= s0);
                assert(slots@.last().is_center == is_center);
            }
        }
        i = i + 1;
    }
    proof {
        assert(entries@.take(i as int) =~= entries@);
    }
    TabBar { slots, center_tab_idx }
}

proof fn lemma_right_ordered(cursor: int, idx: int, edge: int)
    ensures
        ({
            let r = carousel_right(cursor, idx, edge);
            &&& r.len() > 0 ==> r[0].1 == cursor
            &&& forall|k: int| #![trigger r[k]] 0 <= k < r.len() - 1 ==> r[k].1 + r[k].2 < r[k + 1].1
        }),
    decreases if cursor < edge {
        edge - cursor
    } else {
        0
    },
{
    if cursor < edge && 0 <= idx < PAGE_COUNT {
        let w = tab_width(idx);
        let rest = carousel_right(cursor + w + 1, next_index(idx), edge);
        lemma_right_ordered(cursor + w + 1, next_index(idx), edge);
        let r = carousel_right(cursor, idx, edge);
        assert(r == seq![(idx, cursor, w)] + rest);
        assert forall|k: int| #![trigger r[k]] 0 <= k < r.len() - 1 implies r[k].1 + r[k].2 < r[k + 1].1 by {
            if k > 0 {
                assert(r[k] == rest[k - 1] && r[k + 1] == rest[k]);
            } else {
                assert(r[1] == rest[0]);
            }
        }
    }
}

proof fn lemma_left_ordered(cursor: int, idx: int, left: int)
    ensures
        ({
            let l = carousel_left(cursor, idx, left);
            &&& 0 <= idx < PAGE_COUNT ==> l.len() > 0 && l[0].1 + l[0].2 == cursor
            &&& forall|k: int| #![trigger l[k]] 0 <= k < l.len() - 1 ==> l[k + 1].1 + l[k + 1].2 < l[k].1
        }),
    decreases cursor - left,
{
    if 0 <= idx < PAGE_COUNT {
        let w = tab_width(idx);
        let start = cursor - w;
        if start > left {
            let rest = carousel_left(start - 1, prev_index(idx), left);
            lemma_left_ordered(start - 1, prev_index(idx), left);
            let l = carousel_left(cursor, idx, left);
            assert(l == seq![(idx, start, w)] + rest);
            assert forall|k: int| #![trigger l[k]] 0 <= k < l.len() - 1 implies l[k + 1].1 + l[k + 1].2 < l[k].1 by {
                if k > 0 {
                    assert(l[k] == rest[k - 1] && l[k + 1] == rest[k]);
                } else {
                    assert(l[1] == rest[0]);
                }
            }
        }
    }
}

/// The carousel lays its tabs out left to right without overlap, a divider
/// column between each two, and the current page's tab among them: its
/// order is the order of the tabs' columns.
pub proof fn lemma_carousel_ordered(area: Rect, sel: int)
    requires
        0 <= sel < PAGE_COUNT,
    ensures
        ({
            let e = carousel_entries(area, sel);
            &&& forall|k: int| #![trigger e[k]] 0 <= k < e.len() - 1 ==> e[k].x + e[k].width < e[k + 1].x
            &&& exists|k: int| 0 <= k < e.len() && #[trigger] e[k].is_center && e[k].page == sel && e[k].x == center_x(area, sel)
        }),
{
    let cx = center_x(area, sel);
    let w = tab_width(sel);
    let right = carousel_right(cx + w + 1, next_index(sel), inner_x(area) + inner_width(area));
    let left = carousel_left(cx - 1, prev_index(sel), inner_x(area));
    lemma_right_ordered(cx + w + 1, next_index(sel), inner_x(area) + inner_width(area));
    lemma_left_ordered(cx - 1, prev_index(sel), inner_x(area));
    let lr = left.reverse().map_values(|e: (int, int, int)| side_entry(e));
    let rr = right.map_values(|e: (int, int, int)| side_entry(e));
    let c = CarouselEntry { page: sel, x: cx, width: w, is_center: true };
    let e = carousel_entries(area, sel);
    assert(e == lr + seq![c] + rr);
    let n = left.len() as int;
    assert(e[n] == c);
    assert(e[n].is_center);
    assert forall|k: int| #![trigger e[k]] 0 <= k < e.len() - 1 implies e[k].x + e[k].width < e[k + 1].x by {
        if k < n - 1 {
            assert(e[k] == side_entry(left[n - 1 - k]));
            assert(e[k + 1] == side_entry(left[n - 2 - k]));
            assert(left[n - 1 - k].1 + left[n - 1 - k].2 < left[n - 2 - k].1);
        } else if k == n - 1 {
            assert(e[k] == side_entry(left[0]));
        } else if k == n {
            assert(e[k + 1] == side_entry(right[0]));
        } else {
            assert(e[k] == side_entry(right[k - n - 1]));
            assert(e[k + 1] == side_entry(right[k - n]));
        }
    }
}

/// How a tab looks.
#[derive(Debug, Clone, Copy, PartialEq, Eq, Structural)]
pub enum TabLook {
    /// The current page's tab, shown reversed.
    Current,
    /// Another tab under the pointer.
    Hovered,
    Plain,
}

/// The look of a tab: the current page's tab whatever the pointer does,
/// else hovered or plain.
pub fn tab_look(is_center: bool, hovered: bool) -> (l: TabLook)
    ensures
        l == (if is_center {
            TabLook::Current
        } else if hovered {
            TabLook::Hovered
        } else {
            TabLook::Plain
        }),
{
    if is_center {
        TabLook::Current
    } else if hovered {
        TabLook::Hovered
    } else {
        TabLook::Plain
    }
}

} // verus!
