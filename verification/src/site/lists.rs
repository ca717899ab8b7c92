//! The clickable rows of the scrolling lists: blog posts, documentation
//! sections and the links of the about page.

use crate::site::pointer::{contains, Rect};
use crate::site::wrap::{lines_view, wrapped_prefix_count, wrapped_rows};
use vstd::prelude::*;

verus! {

/// The first line of each of `count` list entries that take
/// `lines_per_entry` lines each.
pub fn entry_line_indices(count: usize, lines_per_entry: usize) -> (v: Vec<usize>)
    requires
        count * lines_per_entry <= usize::MAX,
    ensures
        v@.len() == count,
        forall|i: int| 0 <= i < count ==> #[trigger] v@[i] == i * lines_per_entry,
{
    let mut v: Vec<usize> = Vec::new();
    let mut i: usize = 0;
    while i < count
        invariant
            i <= count,
            count * lines_per_entry <= usize::MAX,
            v@.len() == i,
            forall|k: int| 0 <= k < i ==> #[trigger] v@[k] == k * lines_per_entry,
        decreases count - i,
    {
        proof {
            assert(i * lines_per_entry <= count * lines_per_entry) by (nonlinear_arith)
                requires
                    i <= count,
            ;
        }
        v.push(i * lines_per_entry);
        i = i + 1;
    }
    v
}

/// The row of the text area at which an entry starting at row `row` of the
/// text shows, scrolled by `scroll` rows, kept to 16 bits.
pub open spec fn visible_row(row: int, scroll: int) -> int {
    ((row - scroll) as u16) as int
}

/// The clickable area of an entry whose first row is `row` of the text
/// area `inner` scrolled by `scroll` rows: `rows` rows from there when they
/// all show, one row when only the first shows, an empty rectangle when the
/// entry is scrolled out.
pub open spec fn item_area(inner: Rect, row: int, scroll: int, rows: int) -> Rect {
    let visible = visible_row(row, scroll);
    if row >= scroll && visible + rows <= inner.height {
        Rect { x: inner.x, y: (inner.y + visible) as u16, width: inner.width, height: rows as u16 }
    } else if row >= scroll && visible < inner.height {
        Rect { x: inner.x, y: (inner.y + visible) as u16, width: inner.width, height: 1 }
    } else {
        Rect { x: 0, y: 0, width: 0, height: 0 }
    }
}

/// The clickable areas of list entries starting at rows `entry_rows` of the
/// text area `inner`, scrolled by `scroll`, each `rows` rows high (see
/// `item_area`), in entry order.
pub fn item_areas(inner: Rect, entry_rows: &Vec<usize>, scroll: usize, rows: u16) -> (v: Vec<Rect>)
    requires
        inner.y + inner.height <= u16::MAX,
        forall|k: int| 0 <= k < entry_rows@.len() && #[trigger] entry_rows@[k] >= scroll ==> visible_row(
            entry_rows@[k] as int,
            scroll as int,
        ) + rows <= u16::MAX,
    ensures
        v@.len() == entry_rows@.len(),
        forall|i: int| 0 <= i < v@.len() ==> #[trigger] v@[i] == item_area(
            inner,
            entry_rows@[i] as int,
            scroll as int,
            rows as int,
        ),
{
    let mut v: Vec<Rect> = Vec::new();
    let mut i: usize = 0;
    while i < entry_rows.len()
        invariant
            i <= entry_rows@.len(),
            inner.y + inner.height <= u16::MAX,
            forall|k: int| 0 <= k < entry_rows@.len() && #[trigger] entry_rows@[k] >= scroll ==> visible_row(
                entry_rows@[k] as int,
                scroll as int,
            ) + rows <= u16::MAX,
            v@.len() == i,
            forall|k: int| 0 <= k < i ==> #[trigger] v@[k] == item_area(
                inner,
                entry_rows@[k] as int,
                scroll as int,
                rows as int,
            ),
        decreases entry_rows@.len() - i,
    {
        let row = entry_rows[i];
        let area = if row >= scroll {
            let visible = (row - scroll) as u16;
            assert(visible == visible_row(row as int, scroll as int));
            if visible + rows <= inner.height {
                Rect { x: inner.x, y: inner.y + visible, width: inner.width, height: rows }
            } else if visible < inner.height {
                Rect { x: inner.x, y: inner.y + visible, width: inner.width, height: 1 }
            } else {
                Rect::empty()
            }
        } else {
            Rect::empty()
        };
        v.push(area);
        i = i + 1;
    }
    v
}

/// The row at which each line `line_indices[k]` of `lines` starts once the
/// lines before it are wrapped to `width` columns.
pub fn line_start_rows(lines: &Vec<Vec<String>>, line_indices: &Vec<usize>, width: u16) -> (v: Vec<usize>)
    requires
        forall|k: int| 0 <= k < line_indices@.len() ==> #[trigger] line_indices@[k] <= lines@.len(),
    ensures
        v@.len() == line_indices@.len(),
        forall|k: int| 0 <= k < v@.len() ==> #[trigger] v@[k] == wrapped_rows(
            lines_view(lines@.take(line_indices@[k] as int)),
            width,
        ),
{
    let mut v: Vec<usize> = Vec::new();
    let mut k: usize = 0;
    while k < line_indices.len()
        invariant
            k <= line_indices@.len(),
            forall|j: int| 0 <= j < line_indices@.len() ==> #[trigger] line_indices@[j] <= lines@.len(),
            v@.len() == k,
            forall|j: int| 0 <= j < k ==> #[trigger] v@[j] == wrapped_rows(
                lines_view(lines@.take(line_indices@[j] as int)),
                width,
            ),
        decreases line_indices@.len() - k,
    {
        let r = wrapped_prefix_count(lines, line_indices[k], width);
        v.push(r);
        k = k + 1;
    }
    v
}

/// A list item's clickable area lies inside the text area, or is empty.
pub proof fn lemma_item_area_inside(inner: Rect, row: int, scroll: int, rows: int)
    requires
        0 <= rows,
        inner.y + inner.height <= u16::MAX,
    ensures
        ({
            let a = item_area(inner, row, scroll, rows);
            ||| a == Rect { x: 0, y: 0, width: 0, height: 0 }
            ||| a.x == inner.x && a.width == inner.width && inner.y <= a.y && a.y + a.height <= inner.y + inner.height
        }),
{
}


/// An entry whose rows all show, scrolled by `scroll`, is clickable on
/// exactly the cells of those rows across the text area; an entry scrolled
/// out above the area is clickable nowhere.
pub proof fn lemma_item_area_cells(inner: Rect, row: int, scroll: int, rows: int, col: int, r: int)
    requires
        inner.x + inner.width <= u16::MAX,
        inner.y + inner.height <= u16::MAX,
        1 <= rows,
    ensures
        row >= scroll && row - scroll + rows <= inner.height ==> (contains(
            item_area(inner, row, scroll, rows),
            col,
            r,
        ) <==> inner.x <= col < inner.x + inner.width && inner.y + row - scroll <= r < inner.y + row - scroll
            + rows),
        row < scroll ==> !contains(item_area(inner, row, scroll, rows), col, r),
{
    if row >= scroll && row - scroll + rows <= inner.height {
        let v = row - scroll;
        assert(visible_row(row, scroll) == v);
        let a = item_area(inner, row, scroll, rows);
        assert(a.y == inner.y + v);
        assert(a.height == rows);
        assert(a.x == inner.x && a.width == inner.width);
    }
}

} // verus!
