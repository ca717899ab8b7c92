//! What the keyboard shows: the colours it takes from the environment, which
//! binding of each button is active, and where each row sits.

use crate::env::{Env, Value};
use crate::layout::{Button, ButtonView, Color};
use crate::number::{decimal, decimal_string};
use crate::virtual_key::VirtualKey;
use vstd::prelude::*;

verus! {

/// The colour bound to `name` in `env`, or `default` when `name` is unbound
/// or bound to a number.
pub open spec fn color_or(env: Map<Seq<char>, Value>, name: Seq<char>, default: Color) -> Color {
    if env.contains_key(name) {
        match env[name] {
            Value::RGB(r, g, b) => Color::Rgb(r, g, b),
            _ => default,
        }
    } else {
        default
    }
}

fn lookup_color(env: &Env, name: &str, default: Color) -> (c: Color)
    ensures
        c == color_or(env@, name@, default),
{
    match env.get(name) {
        Some(Value::RGB(r, g, b)) => Color::Rgb(*r, *g, *b),
        _ => default,
    }
}

/// The border colour of buttons that set none: the variable `border_color`,
/// else `Rgb(55, 60, 70)`.
pub fn global_border_color(env: &Env) -> (c: Color)
    ensures
        c == color_or(env@, "border_color"@, Color::Rgb(55, 60, 70)),
{
    lookup_color(env, "border_color", Color::Rgb(55, 60, 70))
}

/// The highlight colour of buttons that set none: the variable `highlight`,
/// else `Rgb(207, 181, 59)`.
pub fn global_highlight(env: &Env) -> (c: Color)
    ensures
        c == color_or(env@, "highlight"@, Color::Rgb(207, 181, 59)),
{
    lookup_color(env, "highlight", Color::Rgb(207, 181, 59))
}

/// The name of the variable that colours binding `l` when it is active.
pub open spec fn level_highlight_name(l: nat) -> Seq<char> {
    "highlight_l"@ + decimal(l)
}

/// The colour of an active binding `l` past the first: the variable
/// `highlight_l<l>`, else `Rgb(176, 176, 176)`.
pub fn get_highlight(l: usize, env: &Env) -> (c: Color)
    ensures
        c == color_or(env@, level_highlight_name(l as nat), Color::Rgb(176, 176, 176)),
{
    let mut name = "highlight_l".to_owned();
    name.append(decimal_string(l as u64).as_str());
    lookup_color(env, name.as_str(), Color::Rgb(176, 176, 176))
}

/// Whether the binding `b` stands for a key that is pressed.
pub open spec fn bind_pressed(b: (Seq<char>, Option<VirtualKey>), pressed: Seq<VirtualKey>) -> bool {
    b.1 matches Some(k) && pressed.contains(k)
}

/// The active binding of a button: the last one whose key is pressed.
pub open spec fn active_bind(binds: Seq<(Seq<char>, Option<VirtualKey>)>, pressed: Seq<VirtualKey>) -> Option<
    int,
>
    decreases binds.len(),
{
    if binds.len() == 0 {
        None
    } else if bind_pressed(binds.last(), pressed) {
        Some(binds.len() - 1)
    } else {
        active_bind(binds.drop_last(), pressed)
    }
}

fn contains_key(pressed: &Vec<VirtualKey>, k: VirtualKey) -> (r: bool)
    ensures
        r == pressed@.contains(k),
{
    let mut i: usize = 0;
    while i < pressed.len()
        invariant
            i <= pressed@.len(),
            forall|j: int| 0 <= j < i ==> pressed@[j] != k,
        decreases pressed@.len() - i,
    {
        if pressed[i] == k {
            proof {
                assert(pressed@[i as int] == k);
            }
            return true;
        }
        i = i + 1;
    }
    false
}

/// The index of the active binding of `button`: the last binding whose key is
/// among `pressed`.
pub fn active_bind_index(button: &Button, pressed: &Vec<VirtualKey>) -> (r: Option<usize>)
    ensures
        match r {
            Some(i) => active_bind(button@.1, pressed@) == Some(i as int),
            None => active_bind(button@.1, pressed@) is None,
        },
{
    let ghost bv = button@.1;
    let mut i: usize = button.binds.len();
    proof {
        assert(bv.take(i as int) =~= bv);
    }
    while i > 0
        invariant
            i <= bv.len(),
            bv == button@.1,
            active_bind(bv, pressed@) == active_bind(bv.take(i as int), pressed@),
        decreases i,
    {
        let ghost prefix = bv.take(i as int);
        proof {
            assert(prefix.last() == bv[i - 1]);
            assert(prefix.drop_last() =~= bv.take(i - 1));
            assert(bv[i - 1] == (button.binds@[i - 1].0@, button.binds@[i - 1].1));
        }
        let hit = match button.binds[i - 1].1 {
            Some(k) => contains_key(pressed, k),
            None => false,
        };
        if hit {
            return Some(i - 1);
        }
        i = i - 1;
    }
    None
}

/// How a button looks: the name it shows, the background of its active
/// binding (`None` when no binding is active), and its border colour.
pub struct ButtonFace {
    pub name: String,
    pub active_background: Option<Color>,
    pub border: Color,
}

/// The name a button shows: that of its active binding, else that of its
/// first binding, else nothing.
pub open spec fn face_name(b: ButtonView, pressed: Seq<VirtualKey>) -> Seq<char> {
    match active_bind(b.1, pressed) {
        Some(i) => b.1[i].0,
        None => if b.1.len() > 0 {
            b.1[0].0
        } else {
            Seq::empty()
        },
    }
}

/// The background of a button's active binding: its own highlight (else the
/// keyboard's) for the first binding, the level colour for the others.
pub open spec fn face_background(
    b: ButtonView,
    pressed: Seq<VirtualKey>,
    env: Map<Seq<char>, Value>,
    highlight: Color,
) -> Option<Color> {
    match active_bind(b.1, pressed) {
        Some(i) => Some(
            if i == 0 {
                match b.0.highlight {
                    Some(c) => c,
                    None => highlight,
                }
            } else {
                color_or(env, level_highlight_name(i as nat), Color::Rgb(176, 176, 176))
            },
        ),
        None => None,
    }
}

/// The active binding is a pressed one and no later binding is pressed;
/// with none active, no binding is pressed.
pub proof fn lemma_active_bind_in_range(binds: Seq<(Seq<char>, Option<VirtualKey>)>, pressed: Seq<VirtualKey>)
    ensures
        active_bind(binds, pressed) matches Some(i) ==> 0 <= i < binds.len() && bind_pressed(binds[i], pressed)
            && forall|j: int| i < j < binds.len() ==> !bind_pressed(#[trigger] binds[j], pressed),
        active_bind(binds, pressed) is None ==> forall|j: int| 0 <= j < binds.len() ==> !bind_pressed(#[trigger] binds[j], pressed),
    decreases binds.len(),
{
    if binds.len() > 0 {
        let d = binds.drop_last();
        lemma_active_bind_in_range(d, pressed);
        assert(binds.last() == binds[binds.len() - 1]);
        if !bind_pressed(binds.last(), pressed) {
            assert forall|j: int| 0 <= j < binds.len() && !(active_bind(binds, pressed) matches Some(i) && j <= i)
                implies !bind_pressed(#[trigger] binds[j], pressed) by {
                if j < binds.len() - 1 {
                    assert(binds[j] == d[j]);
                }
            }
            if let Some(i) = active_bind(binds, pressed) {
                assert(binds[i] == d[i]);
            }
        }
    }
}

/// How `button` looks while the keys `pressed` are down.
pub fn button_face(
    button: &Button,
    pressed: &Vec<VirtualKey>,
    env: &Env,
    global_border: Color,
    global_highlight: Color,
) -> (f: ButtonFace)
    ensures
        f.name@ == face_name(button@, pressed@),
        f.active_background == face_background(button@, pressed@, env@, global_highlight),
        f.border == match button.attr.border_color {
            Some(c) => c,
            None => global_border,
        },
{
    proof {
        lemma_active_bind_in_range(button@.1, pressed@);
    }
    let border = match button.attr.border_color {
        Some(c) => c,
        None => global_border,
    };
    match active_bind_index(button, pressed) {
        Some(idx) => {
            proof {
                assert(button@.1[idx as int] == (button.binds@[idx as int].0@, button.binds@[idx as int].1));
            }
            let bg = if idx == 0 {
                match button.attr.highlight {
                    Some(c) => c,
                    None => global_highlight,
                }
            } else {
                get_highlight(idx, env)
            };
            let name = button.binds[idx].0.clone();
            ButtonFace { name, active_background: Some(bg), border }
        },
        None => {
            let name = if button.binds.len() > 0 {
                proof {
                    assert(button@.1[0] == (button.binds@[0].0@, button.binds@[0].1));
                }
                button.binds[0].0.clone()
            } else {
                String::new()
            };
            ButtonFace { name, active_background: None, border }
        },
    }
}

/// The sum of the widths of the buttons of a row.
pub open spec fn row_width(row: Seq<ButtonView>) -> int
    decreases row.len(),
{
    if row.len() == 0 {
        0
    } else {
        row_width(row.drop_last()) + row.last().0.width
    }
}

/// The width of a row: the sum of its buttons' widths.
pub fn row_total_width(row: &Vec<Button>) -> (w: u16)
    requires
        row_width(crate::layout::row_view(row@)) <= u16::MAX,
    ensures
        w == row_width(crate::layout::row_view(row@)),
{
    let ghost rv = crate::layout::row_view(row@);
    let mut total: u16 = 0;
    let mut i: usize = 0;
    proof {
        lemma_row_width_prefix_bound(rv, 0);
    }
    while i < row.len()
        invariant
            i <= rv.len(),
            rv == crate::layout::row_view(row@),
            row_width(rv) <= u16::MAX,
            total == row_width(rv.take(i as int)),
        decreases rv.len() - i,
    {
        proof {
            assert(rv.take(i + 1).drop_last() =~= rv.take(i as int));
            assert(rv.take(i + 1).last() == rv[i as int]);
            lemma_row_width_prefix_bound(rv, i + 1);
        }
        total = total + row[i].attr.width;
        i = i + 1;
    }
    proof {
        assert(rv.take(i as int) =~= rv);
    }
    total
}

/// A row's first buttons are no wider than the whole row.
pub proof fn lemma_row_width_prefix_bound(row: Seq<ButtonView>, k: int)
    requires
        0 <= k <= row.len(),
    ensures
        0 <= row_width(row.take(k)) <= row_width(row),
    decreases row.len(),
{
    if row.len() > 0 {
        if k == row.len() {
            assert(row.take(k) =~= row);
            lemma_row_width_prefix_bound(row.drop_last(), k - 1);
            assert(row.drop_last().take(k - 1) =~= row.drop_last());
        } else {
            lemma_row_width_prefix_bound(row.drop_last(), k);
            assert(row.drop_last().take(k) =~= row.take(k));
        }
    }
}

/// Where a row of total width `total` sits in an area that starts at column
/// `area_x` and is `area_width` wide: centred, and cut to the area.
pub fn centered_row(area_x: u16, area_width: u16, total: u16) -> (r: (u16, u16))
    requires
        area_x + area_width <= u16::MAX,
    ensures
        r.0 == area_x + (if area_width > total { (area_width - total) / 2 } else { 0 }),
        r.1 == if total < area_width { total } else { area_width },
{
    let h_offset = if area_width > total {
        (area_width - total) / 2
    } else {
        0
    };
    let width = if total < area_width {
        total
    } else {
        area_width
    };
    (area_x + h_offset, width)
}


/// When the first binding of a button is the only one whose key is down,
/// the button shows that binding's name, on the button's own highlight
/// colour when its attributes set one, else on the keyboard's highlight.
pub proof fn lemma_first_binding_shows_own_highlight(
    b: ButtonView,
    pressed: Seq<VirtualKey>,
    env: Map<Seq<char>, Value>,
    highlight: Color,
)
    requires
        b.1.len() > 0,
        bind_pressed(b.1[0], pressed),
        forall|j: int| 1 <= j < b.1.len() ==> !bind_pressed(#[trigger] b.1[j], pressed),
    ensures
        b.0.highlight matches Some(c) ==> face_background(b, pressed, env, highlight) == Some(c),
        b.0.highlight is None ==> face_background(b, pressed, env, highlight) == Some(highlight),
        face_name(b, pressed) == b.1[0].0,
{
    lemma_active_bind_in_range(b.1, pressed);
    assert(active_bind(b.1, pressed) == Some(0int));
}

/// A button shows a background exactly when one of its bindings' keys is
/// down.
pub proof fn lemma_background_iff_pressed(
    b: ButtonView,
    pressed: Seq<VirtualKey>,
    env: Map<Seq<char>, Value>,
    highlight: Color,
)
    ensures
        face_background(b, pressed, env, highlight) is Some <==> exists|j: int|
            0 <= j < b.1.len() && bind_pressed(#[trigger] b.1[j], pressed),
{
    lemma_active_bind_in_range(b.1, pressed);
}


/// When binding `k` past the first is the last one whose key is down, the
/// button shows that binding's name on the colour bound to the variable
/// `highlight_l<k>` (`k` in decimal), or on grey `Rgb(176, 176, 176)` when
/// that variable is not bound.
pub proof fn lemma_later_binding_shows_level_colour(
    b: ButtonView,
    pressed: Seq<VirtualKey>,
    env: Map<Seq<char>, Value>,
    highlight: Color,
    k: int,
)
    requires
        1 <= k < b.1.len(),
        bind_pressed(b.1[k], pressed),
        forall|j: int| k < j < b.1.len() ==> !bind_pressed(#[trigger] b.1[j], pressed),
    ensures
        face_name(b, pressed) == b.1[k].0,
        forall|r: u8, g: u8, bl: u8|
            env.contains_key("highlight_l"@ + decimal(k as nat)) && env["highlight_l"@ + decimal(k as nat)]
                == Value::RGB(r, g, bl) ==> face_background(b, pressed, env, highlight) == Some(
                Color::Rgb(r, g, bl),
            ),
        !env.contains_key("highlight_l"@ + decimal(k as nat)) ==> face_background(b, pressed, env, highlight)
            == Some(Color::Rgb(176, 176, 176)),
{
    lemma_active_bind_in_range(b.1, pressed);
    assert(active_bind(b.1, pressed) == Some(k));
}


/// The width of a row is the sum of its buttons' widths: one button's row
/// is as wide as the button, and two rows side by side are as wide as both.
pub proof fn lemma_row_width_adds(r1: Seq<ButtonView>, r2: Seq<ButtonView>)
    ensures
        r1.len() == 1 ==> row_width(r1) == r1[0].0.width,
        row_width(r1 + r2) == row_width(r1) + row_width(r2),
    decreases r2.len(),
{
    if r1.len() == 1 {
        assert(r1.drop_last() =~= Seq::<ButtonView>::empty());
        assert(row_width(r1.drop_last()) == 0);
        assert(r1.last() == r1[0]);
    }
    if r2.len() == 0 {
        assert(r1 + r2 =~= r1);
    } else {
        lemma_row_width_adds(r1, r2.drop_last());
        assert((r1 + r2).drop_last() =~= r1 + r2.drop_last());
        assert((r1 + r2).last() == r2.last());
    }
}

} // verus!
