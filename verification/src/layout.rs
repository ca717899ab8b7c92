//! The keyboard model: buttons with their attributes and key bindings,
//! arranged in rows.

use crate::virtual_key::VirtualKey;
use vstd::prelude::*;

verus! {

/// A colour given by its red, green and blue components.
#[derive(Debug, Clone, Copy, PartialEq, Eq, Structural)]
pub enum Color {
    Rgb(u8, u8, u8),
}

/// The whole keyboard: its rows of buttons, top to bottom.
pub struct Layout {
    pub layer: Vec<Vec<Button>>,
}

#[derive(Debug, Clone, Copy, PartialEq, Eq, Structural)]
pub struct Attr {
    pub width: u16,
    pub height: u16,
    pub border_color: Option<Color>,
    pub highlight: Option<Color>,
}

/// A button: its attributes, and its bindings in order (the first is the
/// normal one, the next ones are reached with modifiers). Each binding is a
/// display name and the key it stands for, if any.
pub struct Button {
    pub attr: Attr,
    pub binds: Vec<(String, Option<VirtualKey>)>,
}

/// A button as a value: its attributes and its bindings.
pub type ButtonView = (Attr, Seq<(Seq<char>, Option<VirtualKey>)>);

impl View for Button {
    type V = ButtonView;

    open spec fn view(&self) -> ButtonView {
        (self.attr, self.binds@.map_values(|b: (String, Option<VirtualKey>)| (b.0@, b.1)))
    }
}

pub open spec fn row_view(row: Seq<Button>) -> Seq<ButtonView> {
    row.map_values(|b: Button| b@)
}

impl View for Layout {
    type V = Seq<Seq<ButtonView>>;

    open spec fn view(&self) -> Seq<Seq<ButtonView>> {
        self.layer@.map_values(|row: Vec<Button>| row_view(row@))
    }
}

/// `s` in lower case, as `str::to_lowercase` computes it.
pub uninterp spec fn spec_to_lowercase(s: Seq<char>) -> Seq<char>;

/// Calls `str::to_lowercase`. The contract ties the result to the text
/// only: the Unicode case mapping itself is not restated here.
#[verifier::external_body]
fn to_lowercase(s: &str) -> (r: String)
    ensures
        r@ == spec_to_lowercase(s@),
{
    s.to_lowercase()
}

/// The attributes of a button `w` columns wide: three rows high, with the
/// keyboard's own colours.
pub open spec fn attr_of_width(w: u16) -> Attr {
    Attr { width: w, height: 3, border_color: None, highlight: None }
}

/// The width a button named `name` gets by default: 20 for `space` in any
/// case, 4 otherwise.
pub open spec fn default_width(name: Seq<char>) -> u16 {
    if spec_to_lowercase(name) == "space"@ {
        20
    } else {
        4
    }
}

impl Attr {
    /// The attributes a button named `name` has unless the layout says
    /// otherwise.
    pub fn default(name: &str) -> (a: Self)
        ensures
            a == attr_of_width(default_width(name@)),
    {
        let lower = to_lowercase(name);
        let width: u16 = if lower == "space".to_owned() {
            20
        } else {
            4
        };
        Attr { width, height: 3, border_color: None, highlight: None }
    }

    /// The attributes of a button `width` columns wide (see `attr_of_width`).
    pub fn with_width(width: u16) -> (a: Self)
        ensures
            a == attr_of_width(width),
    {
        Attr { width, height: 3, border_color: None, highlight: None }
    }
}

/// A button with one binding.
pub open spec fn plain_button(name: Seq<char>, vk: Option<VirtualKey>, width: u16) -> ButtonView {
    (attr_of_width(width), seq![(name, vk)])
}

/// A button whose second binding, reached with shift, is `shifted`.
pub open spec fn shifted_button(
    normal: Seq<char>,
    shifted: Seq<char>,
    vk: Option<VirtualKey>,
    width: u16,
) -> ButtonView {
    (attr_of_width(width), seq![(normal, vk), (shifted, Some(VirtualKey::ShiftLeft))])
}

impl Button {
    /// Create a simple button with a single character binding.
    pub fn key(name: &str, vk: Option<VirtualKey>, width: u16) -> (b: Self)
        ensures
            b@ == plain_button(name@, vk, width),
    {
        let b = Button { attr: Attr::with_width(width), binds: vec![(name.to_owned(), vk)] };
        proof {
            assert(b@.1 =~= seq![(name@, vk)]);
        }
        b
    }

    /// Create a button with a normal and shifted binding.
    pub fn key_shift(normal: &str, shifted: &str, vk: Option<VirtualKey>, width: u16) -> (b: Self)
        ensures
            b@ == shifted_button(normal@, shifted@, vk, width),
    {
        let b = Button {
            attr: Attr::with_width(width),
            binds: vec![(normal.to_owned(), vk), (shifted.to_owned(), Some(VirtualKey::ShiftLeft))],
        };
        proof {
            assert(b@.1 =~= seq![(normal@, vk), (shifted@, Some(VirtualKey::ShiftLeft))]);
        }
        b
    }
}

/// The LISP-optimized keyboard, row by row.
pub open spec fn lisp_layout() -> Seq<Seq<ButtonView>> {
    seq![
        seq![
            shifted_button("("@, "["@, None, 3),
            shifted_button("1"@, "@"@, Some(VirtualKey::Num1), 3),
            shifted_button("2"@, "#"@, Some(VirtualKey::Num2), 3),
            shifted_button("3"@, "$"@, Some(VirtualKey::Num3), 3),
            shifted_button("4"@, "%"@, Some(VirtualKey::Num4), 3),
            shifted_button("5"@, "^"@, Some(VirtualKey::Num5), 3),
            shifted_button("6"@, "&"@, Some(VirtualKey::Num6), 3),
            shifted_button("7"@, "<"@, Some(VirtualKey::Num7), 3),
            shifted_button("8"@, ">"@, Some(VirtualKey::Num8), 3),
            shifted_button("9"@, "~"@, Some(VirtualKey::Num9), 3),
            shifted_button(")"@, "]"@, None, 3),
            shifted_button("0"@, "_"@, Some(VirtualKey::Num0), 3),
        ],
        seq![
            shifted_button("q"@, "Q"@, Some(VirtualKey::KeyQ), 3),
            shifted_button("w"@, "W"@, Some(VirtualKey::KeyW), 3),
            shifted_button("e"@, "E"@, Some(VirtualKey::KeyE), 3),
            shifted_button("r"@, "R"@, Some(VirtualKey::KeyR), 3),
            shifted_button("t"@, "T"@, Some(VirtualKey::KeyT), 3),
            shifted_button("y"@, "Y"@, Some(VirtualKey::KeyY), 3),
            shifted_button("u"@, "U"@, Some(VirtualKey::KeyU), 3),
            shifted_button("i"@, "I"@, Some(VirtualKey::KeyI), 3),
            shifted_button("o"@, "O"@, Some(VirtualKey::KeyO), 3),
            shifted_button("p"@, "P"@, Some(VirtualKey::KeyP), 3),
            plain_button("⌫"@, Some(VirtualKey::Backspace), 6),
        ],
        seq![
            shifted_button("a"@, "A"@, Some(VirtualKey::KeyA), 3),
            shifted_button("s"@, "S"@, Some(VirtualKey::KeyS), 3),
            shifted_button("d"@, "D"@, Some(VirtualKey::KeyD), 3),
            shifted_button("f"@, "F"@, Some(VirtualKey::KeyF), 3),
            shifted_button("g"@, "G"@, Some(VirtualKey::KeyG), 3),
            shifted_button("h"@, "H"@, Some(VirtualKey::KeyH), 3),
            shifted_button("j"@, "J"@, Some(VirtualKey::KeyJ), 3),
            shifted_button("k"@, "K"@, Some(VirtualKey::KeyK), 3),
            shifted_button("l"@, "L"@, Some(VirtualKey::KeyL), 3),
            plain_button("↵"@, Some(VirtualKey::Return), 9),
        ],
        seq![
            plain_button("⇧"@, Some(VirtualKey::ShiftLeft), 5),
            shifted_button("z"@, "Z"@, Some(VirtualKey::KeyZ), 3),
            shifted_button("x"@, "X"@, Some(VirtualKey::KeyX), 3),
            shifted_button("c"@, "C"@, Some(VirtualKey::KeyC), 3),
            shifted_button("v"@, "V"@, Some(VirtualKey::KeyV), 3),
            shifted_button("b"@, "B"@, Some(VirtualKey::KeyB), 3),
            shifted_button("n"@, "N"@, Some(VirtualKey::KeyN), 3),
            shifted_button("m"@, "M"@, Some(VirtualKey::KeyM), 3),
            shifted_button("\""@, "'"@, None, 3),
            shifted_button("."@, "="@, None, 4),
        ],
        seq![
            shifted_button("!"@, "|"@, None, 3),
            shifted_button("?"@, "\\"@, None, 3),
            plain_button(" "@, Some(VirtualKey::Space), 12),
            shifted_button("-"@, "_"@, None, 3),
            shifted_button("+"@, "~"@, None, 3),
            shifted_button("/"@, "\\"@, None, 3),
            shifted_button("*"@, "^"@, None, 3),
            shifted_button(":"@, ";"@, None, 4),
        ],
    ]
}

/// Build a LISP-optimized keyboard layout.
///
/// The layout prioritizes parentheses, common Lisp symbols, and removes
/// unnecessary modifier keys (no alt, no ctrl). Single shift key for
/// accessing uppercase letters and additional symbols.
pub fn lisp_keyboard_layout() -> (l: Layout)
    ensures
        l@ == lisp_layout(),
{
    let k = |name: &str, vk: Option<VirtualKey>, width: u16| -> (b: Button)
        ensures
            b@ == plain_button(name@, vk, width),
        { Button::key(name, vk, width) };
    let ks = |normal: &str, shifted: &str, vk: Option<VirtualKey>, width: u16| -> (b: Button)
        ensures
            b@ == shifted_button(normal@, shifted@, vk, width),
        { Button::key_shift(normal, shifted, vk, width) };

    // Row 1: ( 1 2 3 4 5 6 7 8 9 )  0
    let row1 = vec![
        ks("(", "[", None, 3),
        ks("1", "@", Some(VirtualKey::Num1), 3),
        ks("2", "#", Some(VirtualKey::Num2), 3),
        ks("3", "$", Some(VirtualKey::Num3), 3),
        ks("4", "%", Some(VirtualKey::Num4), 3),
        ks("5", "^", Some(VirtualKey::Num5), 3),
        ks("6", "&", Some(VirtualKey::Num6), 3),
        ks("7", "<", Some(VirtualKey::Num7), 3),
        ks("8", ">", Some(VirtualKey::Num8), 3),
        ks("9", "~", Some(VirtualKey::Num9), 3),
        ks(")", "]", None, 3),
        ks("0", "_", Some(VirtualKey::Num0), 3),
    ];

    // Row 2: q w e r t y u i o p ⌫
    let row2 = vec![
        ks("q", "Q", Some(VirtualKey::KeyQ), 3),
        ks("w", "W", Some(VirtualKey::KeyW), 3),
        ks("e", "E", Some(VirtualKey::KeyE), 3),
        ks("r", "R", Some(VirtualKey::KeyR), 3),
        ks("t", "T", Some(VirtualKey::KeyT), 3),
        ks("y", "Y", Some(VirtualKey::KeyY), 3),
        ks("u", "U", Some(VirtualKey::KeyU), 3),
        ks("i", "I", Some(VirtualKey::KeyI), 3),
        ks("o", "O", Some(VirtualKey::KeyO), 3),
        ks("p", "P", Some(VirtualKey::KeyP), 3),
        k("⌫", Some(VirtualKey::Backspace), 6),
    ];

    // Row 3: a s d f g h j k l ↵
    let row3 = vec![
        ks("a", "A", Some(VirtualKey::KeyA), 3),
        ks("s", "S", Some(VirtualKey::KeyS), 3),
        ks("d", "D", Some(VirtualKey::KeyD), 3),
        ks("f", "F", Some(VirtualKey::KeyF), 3),
        ks("g", "G", Some(VirtualKey::KeyG), 3),
        ks("h", "H", Some(VirtualKey::KeyH), 3),
        ks("j", "J", Some(VirtualKey::KeyJ), 3),
        ks("k", "K", Some(VirtualKey::KeyK), 3),
        ks("l", "L", Some(VirtualKey::KeyL), 3),
        k("↵", Some(VirtualKey::Return), 9),
    ];

    // Row 4: ⇧ z x c v b n m " .
    let row4 = vec![
        k("⇧", Some(VirtualKey::ShiftLeft), 5),
        ks("z", "Z", Some(VirtualKey::KeyZ), 3),
        ks("x", "X", Some(VirtualKey::KeyX), 3),
        ks("c", "C", Some(VirtualKey::KeyC), 3),
        ks("v", "V", Some(VirtualKey::KeyV), 3),
        ks("b", "B", Some(VirtualKey::KeyB), 3),
        ks("n", "N", Some(VirtualKey::KeyN), 3),
        ks("m", "M", Some(VirtualKey::KeyM), 3),
        ks("\"", "'", None, 3),
        ks(".", "=", None, 4),
    ];

    // Row 5: ! ? SPACE - + / *  :
    let row5 = vec![
        ks("!", "|", None, 3),
        ks("?", "\\", None, 3),
        k(" ", Some(VirtualKey::Space), 12),
        ks("-", "_", None, 3),
        ks("+", "~", None, 3),
        ks("/", "\\", None, 3),
        ks("*", "^", None, 3),
        ks(":", ";", None, 4),
    ];

    let l = Layout { layer: vec![row1, row2, row3, row4, row5] };
    proof {
        assert(row_view(row1@) =~= lisp_layout()[0]);
        assert(row_view(row2@) =~= lisp_layout()[1]);
        assert(row_view(row3@) =~= lisp_layout()[2]);
        assert(row_view(row4@) =~= lisp_layout()[3]);
        assert(row_view(row5@) =~= lisp_layout()[4]);
        assert(l@ =~= lisp_layout());
    }
    l
}

} // verus!
