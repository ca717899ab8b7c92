//! Screen rectangles, the mouse pointer with its fading trail, and the
//! per-frame geometry of the page frame.

use vstd::prelude::*;

verus! {

/// A rectangle of terminal cells.
#[derive(Debug, Clone, Copy, PartialEq, Eq, Structural)]
pub struct Rect {
    pub x: u16,
    pub y: u16,
    pub width: u16,
    pub height: u16,
}

/// The column just right of the rectangle, kept within `u16`.
pub open spec fn right(r: Rect) -> int {
    if r.x + r.width <= u16::MAX {
        r.x + r.width
    } else {
        u16::MAX as int
    }
}

/// The row just below the rectangle, kept within `u16`.
pub open spec fn bottom(r: Rect) -> int {
    if r.y + r.height <= u16::MAX {
        r.y + r.height
    } else {
        u16::MAX as int
    }
}

/// Whether the cell at `col`, `row` lies in `r`.
pub open spec fn contains(r: Rect, col: int, row: int) -> bool {
    r.x <= col < right(r) && r.y <= row < bottom(r)
}

impl Rect {
    /// The empty rectangle at the origin.
    pub fn empty() -> (r: Rect)
        ensures
            r == (Rect { x: 0, y: 0, width: 0, height: 0 }),
    {
        Rect { x: 0, y: 0, width: 0, height: 0 }
    }

    /// The column just right of the rectangle (see `right`).
    pub fn right(&self) -> (c: u16)
        ensures
            c == right(*self),
    {
        self.x.saturating_add(self.width)
    }

    /// The row just below the rectangle (see `bottom`).
    pub fn bottom(&self) -> (r: u16)
        ensures
            r == bottom(*self),
    {
        self.y.saturating_add(self.height)
    }

    /// Whether the cell at `col`, `row` lies in the rectangle.
    pub fn contains(&self, col: u16, row: u16) -> (b: bool)
        ensures
            b == contains(*self, col as int, row as int),
    {
        col >= self.x && col < self.right() && row >= self.y && row < self.bottom()
    }
}

/// How bright a trail point starts.
pub const TRAIL_INITIAL_INTENSITY: u8 = 200;

/// The longest the trail gets.
pub const MAX_TRAIL_LENGTH: usize = 30;

/// How much a trail point fades each frame.
pub const TRAIL_FADE_RATE: u8 = 8;

/// The mouse pointer: where it hovers, and the trail it leaves.
pub struct Pointer {
    pub hover_col: u16,
    pub hover_row: u16,
    /// Trail points (column, row, intensity), oldest first.
    pub trail: Vec<(u16, u16, u8)>,
    pub mouse_moving: bool,
    pub mouse_idle_ticks: u16,
}

/// The pointer as a value.
pub struct PointerModel {
    pub hover_col: u16,
    pub hover_row: u16,
    pub trail: Seq<(u16, u16, u8)>,
    pub mouse_moving: bool,
    pub mouse_idle_ticks: u16,
}

impl View for Pointer {
    type V = PointerModel;

    open spec fn view(&self) -> PointerModel {
        PointerModel {
            hover_col: self.hover_col,
            hover_row: self.hover_row,
            trail: self.trail@,
            mouse_moving: self.mouse_moving,
            mouse_idle_ticks: self.mouse_idle_ticks,
        }
    }
}

/// The pointer moved to (or stayed at) `col`, `row`: a move adds a trail
/// point, dropping the oldest one past the longest trail.
pub open spec fn track_m(p: PointerModel, col: u16, row: u16) -> PointerModel {
    let moved = col != p.hover_col || row != p.hover_row;
    if moved {
        let t = p.trail.push((col, row, TRAIL_INITIAL_INTENSITY));
        PointerModel {
            hover_col: col,
            hover_row: row,
            trail: if t.len() > MAX_TRAIL_LENGTH {
                t.drop_first()
            } else {
                t
            },
            mouse_moving: true,
            mouse_idle_ticks: 0,
        }
    } else {
        PointerModel { hover_col: col, hover_row: row, ..p }
    }
}

/// The trail after one frame: every point fades, and the faded-out ones go.
pub open spec fn faded_trail(t: Seq<(u16, u16, u8)>) -> Seq<(u16, u16, u8)>
    decreases t.len(),
{
    if t.len() == 0 {
        t
    } else {
        let rest = faded_trail(t.drop_last());
        let (c, r, i) = t.last();
        if i > TRAIL_FADE_RATE {
            rest.push((c, r, (i - TRAIL_FADE_RATE) as u8))
        } else {
            rest
        }
    }
}

/// One frame passes: the pointer counts as idle after more than three
/// frames without moving, and its trail fades.
pub open spec fn tick_m(p: PointerModel) -> PointerModel {
    let idle = if p.mouse_idle_ticks < u16::MAX {
        (p.mouse_idle_ticks + 1) as u16
    } else {
        u16::MAX
    };
    PointerModel {
        mouse_idle_ticks: idle,
        mouse_moving: if idle > 3 {
            false
        } else {
            p.mouse_moving
        },
        trail: faded_trail(p.trail),
        ..p
    }
}

impl Pointer {
    /// The pointer at the top left corner, still, with no trail.
    pub fn new() -> (p: Pointer)
        ensures
            p@ == (PointerModel {
                hover_col: 0,
                hover_row: 0,
                trail: Seq::empty(),
                mouse_moving: false,
                mouse_idle_ticks: 0,
            }),
    {
        Pointer { hover_col: 0, hover_row: 0, trail: Vec::new(), mouse_moving: false, mouse_idle_ticks: 0 }
    }

    /// Records the pointer at `col`, `row` (see `track_m`).
    pub fn track(&mut self, col: u16, row: u16)
        ensures
            final(self)@ == track_m(old(self)@, col, row),
    {
        let prev_col = self.hover_col;
        let prev_row = self.hover_row;
        self.hover_col = col;
        self.hover_row = row;
        if col != prev_col || row != prev_row {
            self.mouse_moving = true;
            self.mouse_idle_ticks = 0;
            let ghost t0 = self.trail@;
            self.trail.push((col, row, TRAIL_INITIAL_INTENSITY));
            if self.trail.len() > MAX_TRAIL_LENGTH {
                self.trail.remove(0);
                proof {
                    assert(self.trail@ =~= t0.push((col, row, TRAIL_INITIAL_INTENSITY)).drop_first());
                }
            }
        }
    }

    /// Whether the pointer hovers over `area`.
    pub fn is_hovered(&self, area: Rect) -> (b: bool)
        ensures
            b == contains(area, self.hover_col as int, self.hover_row as int),
    {
        area.contains(self.hover_col, self.hover_row)
    }

    /// Lets one frame pass (see `tick_m`).
    pub fn tick(&mut self)
        ensures
            final(self)@ == tick_m(old(self)@),
    {
        self.mouse_idle_ticks = self.mouse_idle_ticks.saturating_add(1);
        if self.mouse_idle_ticks > 3 {
            self.mouse_moving = false;
        }
        let ghost t0 = self.trail@;
        let mut kept: Vec<(u16, u16, u8)> = Vec::new();
        let mut i: usize = 0;
        while i < self.trail.len()
            invariant
                i <= t0.len(),
                self.trail@ == t0,
                kept@ == faded_trail(t0.take(i as int)),
            decreases t0.len() - i,
        {
            let (c, r, intensity) = self.trail[i];
            proof {
                assert(t0.take(i + 1).drop_last() =~= t0.take(i as int));
                assert(t0.take(i + 1).last() == (c, r, intensity));
            }
            let faded = intensity.saturating_sub(TRAIL_FADE_RATE);
            if faded > 0 {
                kept.push((c, r, faded));
            }
            i = i + 1;
        }
        proof {
            assert(t0.take(i as int) =~= t0);
        }
        self.trail = kept;
    }
}

/// The colour of a cell under a trail point of `intensity`, over the
/// background `bg` (`None` for a background without RGB components, taken as
/// `(8, 9, 14)`): a blue-leaning brightening.
pub open spec fn trail_color(bg: Option<(u8, u8, u8)>, intensity: u8) -> (u8, u8, u8) {
    let boost = intensity / TRAIL_FADE_RATE;
    let (r, g, b) = match bg {
        Some(c) => c,
        None => (8u8, 9u8, 14u8),
    };
    (sat_add(r, boost / 2), sat_add(g, boost / 2), sat_add(b, boost))
}

pub open spec fn sat_add(a: u8, b: u8) -> u8 {
    if a + b <= u8::MAX {
        (a + b) as u8
    } else {
        u8::MAX
    }
}

/// See `trail_color`.
pub fn trail_cell_color(bg: Option<(u8, u8, u8)>, intensity: u8) -> (c: (u8, u8, u8))
    ensures
        c == trail_color(bg, intensity),
{
    let boost = ((intensity as u16) / (TRAIL_FADE_RATE as u16)) as u8;
    let (r, g, b) = match bg {
        Some(c) => c,
        None => (8u8, 9u8, 14u8),
    };
    (r.saturating_add(boost / 2), g.saturating_add(boost / 2), b.saturating_add(boost))
}

/// Divides the screen size to get the frame margins.
pub const MARGIN_DIVISOR: u16 = 16;

/// The horizontal and vertical margins around the page frame on a screen of
/// `width` by `height` cells: one column on narrow screens (under 80
/// columns), else a sixteenth of the width up to two; a sixteenth of the
/// height up to one row.
pub fn frame_margins(width: u16, height: u16) -> (m: (u16, u16))
    ensures
        m.0 == if width < 80 {
            1
        } else if width / 16 < 2 {
            width / 16
        } else {
            2
        },
        m.1 == if height / 16 < 1 {
            height / 16
        } else {
            1
        },
{
    let h_margin = if width < 80 {
        1
    } else {
        let w = width / MARGIN_DIVISOR;
        if w < 2 {
            w
        } else {
            2
        }
    };
    let h = height / MARGIN_DIVISOR;
    let v_margin = if h < 1 {
        h
    } else {
        1
    };
    (h_margin, v_margin)
}

proof fn lemma_faded_trail_len(t: Seq<(u16, u16, u8)>)
    ensures
        faded_trail(t).len() <= t.len(),
    decreases t.len(),
{
    if t.len() > 0 {
        lemma_faded_trail_len(t.drop_last());
    }
}

/// The trail never grows past `MAX_TRAIL_LENGTH` points: moving the pointer
/// drops the oldest point past it, and a frame passing only removes points.
pub proof fn lemma_trail_stays_short(p: PointerModel, col: u16, row: u16)
    requires
        p.trail.len() <= MAX_TRAIL_LENGTH,
    ensures
        track_m(p, col, row).trail.len() <= MAX_TRAIL_LENGTH,
        tick_m(p).trail.len() <= MAX_TRAIL_LENGTH,
{
    lemma_faded_trail_len(p.trail);
}


/// Moving the pointer puts a fresh point at the new cell at the end of the
/// trail and marks the pointer as moving; staying on the same cell leaves
/// the trail as it was.
pub proof fn lemma_move_leaves_fresh_point(p: PointerModel, col: u16, row: u16)
    ensures
        track_m(p, col, row).hover_col == col && track_m(p, col, row).hover_row == row,
        (col != p.hover_col || row != p.hover_row) ==> {
            let q = track_m(p, col, row);
            &&& q.trail.len() > 0
            &&& q.trail.last() == (col, row, TRAIL_INITIAL_INTENSITY)
            &&& q.mouse_moving
        },
        (col == p.hover_col && row == p.hover_row) ==> track_m(p, col, row).trail == p.trail,
{
}

/// The trail only brightens what is under it: no colour component of a
/// trail cell is below the background's, and blue rises at least as much
/// as red and green.
pub proof fn lemma_trail_brightens(c: (u8, u8, u8), intensity: u8)
    ensures
        ({
            let (r, g, b) = trail_color(Some(c), intensity);
            &&& r >= c.0 && g >= c.1 && b >= c.2
            &&& b == u8::MAX || b - c.2 >= r - c.0
            &&& b == u8::MAX || b - c.2 >= g - c.1
        }),
{
}

} // verus!
