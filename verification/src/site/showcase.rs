//! The effect showcase: a fixed list of effect descriptions, followed by
//! generated ones, each made of a category, a title and the effect's source
//! in the effect language.

use crate::chars::push_chars;
use crate::number::{decimal, decimal_string, is_digit, lemma_decimal_digits, lemma_decimal_injective};
use crate::site::scroll::{split_chars, split_on, sub_or_zero, trim_chars, trimmed};
use crate::site::ui::string_of;
use vstd::prelude::*;

verus! {

/// How many generated effects follow the fixed list.
pub const PROCEDURAL_EFFECT_COUNT: usize = 200;

/// The number of effects in the showcase, when the fixed list has
/// `static_count` of them.
pub fn total_dsl_effects(static_count: usize) -> (n: usize)
    requires
        static_count + PROCEDURAL_EFFECT_COUNT <= usize::MAX,
    ensures
        n == static_count + PROCEDURAL_EFFECT_COUNT,
{
    static_count + PROCEDURAL_EFFECT_COUNT
}

// ── the tables the generator picks from ──────────────────────────────────

pub open spec fn effect_color(i: int) -> Seq<char> {
    if i == 0 {
        "Color::Rgb(207, 181, 59)"@
    } else if i == 1 {
        "Color::Rgb(184, 115, 51)"@
    } else if i == 2 {
        "Color::Rgb(192, 192, 192)"@
    } else if i == 3 {
        "Color::Rgb(0, 180, 180)"@
    } else if i == 4 {
        "Color::Rgb(255, 105, 180)"@
    } else if i == 5 {
        "Color::Rgb(100, 149, 237)"@
    } else if i == 6 {
        "Color::Rgb(255, 140, 0)"@
    } else if i == 7 {
        "Color::Rgb(138, 43, 226)"@
    } else if i == 8 {
        "Color::Rgb(50, 205, 50)"@
    } else if i == 9 {
        "Color::Rgb(220, 20, 60)"@
    } else if i == 10 {
        "Color::Red"@
    } else if i == 11 {
        "Color::Blue"@
    } else if i == 12 {
        "Color::Green"@
    } else if i == 13 {
        "Color::Cyan"@
    } else if i == 14 {
        "Color::Magenta"@
    } else {
        "Color::Yellow"@
    }
}

pub const COLOR_COUNT: usize = 16;

fn effect_color_str(i: usize) -> (s: &'static str)
    requires
        i < COLOR_COUNT,
    ensures
        s@ == effect_color(i as int),
{
    match i {
        0 => "Color::Rgb(207, 181, 59)",
        1 => "Color::Rgb(184, 115, 51)",
        2 => "Color::Rgb(192, 192, 192)",
        3 => "Color::Rgb(0, 180, 180)",
        4 => "Color::Rgb(255, 105, 180)",
        5 => "Color::Rgb(100, 149, 237)",
        6 => "Color::Rgb(255, 140, 0)",
        7 => "Color::Rgb(138, 43, 226)",
        8 => "Color::Rgb(50, 205, 50)",
        9 => "Color::Rgb(220, 20, 60)",
        10 => "Color::Red",
        11 => "Color::Blue",
        12 => "Color::Green",
        13 => "Color::Cyan",
        14 => "Color::Magenta",
        _ => "Color::Yellow",
    }
}

pub open spec fn interpolation(i: int) -> Seq<char> {
    if i == 0 {
        "Linear"@
    } else if i == 1 {
        "QuadOut"@
    } else if i == 2 {
        "QuadIn"@
    } else if i == 3 {
        "CubicOut"@
    } else if i == 4 {
        "CubicIn"@
    } else if i == 5 {
        "CubicInOut"@
    } else if i == 6 {
        "SineOut"@
    } else if i == 7 {
        "SineIn"@
    } else if i == 8 {
        "BounceOut"@
    } else if i == 9 {
        "ExpoOut"@
    } else if i == 10 {
        "ElasticOut"@
    } else {
        "QuadInOut"@
    }
}

pub const INTERPOLATION_COUNT: usize = 12;

fn interpolation_str(i: usize) -> (s: &'static str)
    requires
        i < INTERPOLATION_COUNT,
    ensures
        s@ == interpolation(i as int),
{
    match i {
        0 => "Linear",
        1 => "QuadOut",
        2 => "QuadIn",
        3 => "CubicOut",
        4 => "CubicIn",
        5 => "CubicInOut",
        6 => "SineOut",
        7 => "SineIn",
        8 => "BounceOut",
        9 => "ExpoOut",
        10 => "ElasticOut",
        _ => "QuadInOut",
    }
}

/// A motion, with its name after the `Motion::` prefix.
pub open spec fn motion(i: int) -> (Seq<char>, Seq<char>) {
    if i == 0 {
        ("Motion::LeftToRight"@, "LeftToRight"@)
    } else if i == 1 {
        ("Motion::RightToLeft"@, "RightToLeft"@)
    } else if i == 2 {
        ("Motion::UpToDown"@, "UpToDown"@)
    } else {
        ("Motion::DownToUp"@, "DownToUp"@)
    }
}

pub const MOTION_COUNT: usize = 4;

fn motion_str(i: usize) -> (s: (&'static str, &'static str))
    requires
        i < MOTION_COUNT,
    ensures
        (s.0@, s.1@) == motion(i as int),
{
    match i {
        0 => ("Motion::LeftToRight", "LeftToRight"),
        1 => ("Motion::RightToLeft", "RightToLeft"),
        2 => ("Motion::UpToDown", "UpToDown"),
        _ => ("Motion::DownToUp", "DownToUp"),
    }
}

/// A hue, saturation and lightness shift, each written with one decimal.
pub open spec fn hsl_shift(i: int) -> (Seq<char>, Seq<char>, Seq<char>) {
    if i == 0 {
        ("30.0"@, "20.0"@, "25.0"@)
    } else if i == 1 {
        ("-40.0"@, "15.0"@, "-10.0"@)
    } else if i == 2 {
        ("60.0"@, "40.0"@, "30.0"@)
    } else if i == 3 {
        ("90.0"@, "50.0"@, "20.0"@)
    } else if i == 4 {
        ("20.0"@, "-30.0"@, "40.0"@)
    } else if i == 5 {
        ("180.0"@, "0.0"@, "0.0"@)
    } else if i == 6 {
        ("45.0"@, "-20.0"@, "15.0"@)
    } else if i == 7 {
        ("-90.0"@, "30.0"@, "-20.0"@)
    } else if i == 8 {
        ("120.0"@, "10.0"@, "10.0"@)
    } else {
        ("15.0"@, "40.0"@, "-15.0"@)
    }
}

pub const HSL_COUNT: usize = 10;

fn hsl_shift_str(i: usize) -> (s: (&'static str, &'static str, &'static str))
    requires
        i < HSL_COUNT,
    ensures
        (s.0@, s.1@, s.2@) == hsl_shift(i as int),
{
    match i {
        0 => ("30.0", "20.0", "25.0"),
        1 => ("-40.0", "15.0", "-10.0"),
        2 => ("60.0", "40.0", "30.0"),
        3 => ("90.0", "50.0", "20.0"),
        4 => ("20.0", "-30.0", "40.0"),
        5 => ("180.0", "0.0", "0.0"),
        6 => ("45.0", "-20.0", "15.0"),
        7 => ("-90.0", "30.0", "-20.0"),
        8 => ("120.0", "10.0", "10.0"),
        _ => ("15.0", "40.0", "-15.0"),
    }
}

pub open spec fn evolve_set(i: int) -> Seq<char> {
    if i == 0 {
        "EvolveSymbolSet::Shaded"@
    } else if i == 1 {
        "EvolveSymbolSet::Quadrants"@
    } else if i == 2 {
        "EvolveSymbolSet::BlocksHorizontal"@
    } else if i == 3 {
        "EvolveSymbolSet::BlocksVertical"@
    } else if i == 4 {
        "EvolveSymbolSet::Circles"@
    } else {
        "EvolveSymbolSet::Squares"@
    }
}

pub const EVOLVE_COUNT: usize = 6;

fn evolve_set_str(i: usize) -> (s: &'static str)
    requires
        i < EVOLVE_COUNT,
    ensures
        s@ == evolve_set(i as int),
{
    match i {
        0 => "EvolveSymbolSet::Shaded",
        1 => "EvolveSymbolSet::Quadrants",
        2 => "EvolveSymbolSet::BlocksHorizontal",
        3 => "EvolveSymbolSet::BlocksVertical",
        4 => "EvolveSymbolSet::Circles",
        _ => "EvolveSymbolSet::Squares",
    }
}

pub open spec fn wave_kind(i: int) -> Seq<char> {
    if i == 0 {
        "sin"@
    } else if i == 1 {
        "cos"@
    } else if i == 2 {
        "triangle"@
    } else {
        "sawtooth"@
    }
}

/// The spatial frequency along x of a wave, `1.0 + 0.5 * i`.
pub open spec fn wave_kx(i: int) -> Seq<char> {
    if i == 0 {
        "1.0"@
    } else if i == 1 {
        "1.5"@
    } else if i == 2 {
        "2.0"@
    } else if i == 3 {
        "2.5"@
    } else {
        "3.0"@
    }
}

/// The spatial frequency along y of a wave, `1.0 * i`.
pub open spec fn wave_ky(i: int) -> Seq<char> {
    if i == 0 {
        "0.0"@
    } else if i == 1 {
        "1.0"@
    } else if i == 2 {
        "2.0"@
    } else {
        "3.0"@
    }
}

/// The time frequency of a wave, `0.3 + 0.3 * i`.
pub open spec fn wave_kt(i: int) -> Seq<char> {
    if i == 0 {
        "0.3"@
    } else if i == 1 {
        "0.6"@
    } else if i == 2 {
        "0.9"@
    } else {
        "1.2"@
    }
}

fn wave_kind_str(i: usize) -> (s: &'static str)
    requires
        i < 4,
    ensures
        s@ == wave_kind(i as int),
{
    match i {
        0 => "sin",
        1 => "cos",
        2 => "triangle",
        _ => "sawtooth",
    }
}

fn wave_kx_str(i: usize) -> (s: &'static str)
    requires
        i < 5,
    ensures
        s@ == wave_kx(i as int),
{
    match i {
        0 => "1.0",
        1 => "1.5",
        2 => "2.0",
        3 => "2.5",
        _ => "3.0",
    }
}

fn wave_ky_str(i: usize) -> (s: &'static str)
    requires
        i < 4,
    ensures
        s@ == wave_ky(i as int),
{
    match i {
        0 => "0.0",
        1 => "1.0",
        2 => "2.0",
        _ => "3.0",
    }
}

fn wave_kt_str(i: usize) -> (s: &'static str)
    requires
        i < 4,
    ensures
        s@ == wave_kt(i as int),
{
    match i {
        0 => "0.3",
        1 => "0.6",
        2 => "0.9",
        _ => "1.2",
    }
}

// ── the generator ────────────────────────────────────────────────────────

/// The seed of generated effect `index`: Knuth's multiplicative hash.
pub open spec fn dsl_seed(index: usize) -> usize {
    index.wrapping_mul(2654435761)
}

/// A choice among `len` things, mixed from the seed and a salt.
pub open spec fn dsl_pick(seed: usize, len: usize, salt: usize) -> usize {
    (seed.wrapping_add(salt).wrapping_mul(2246822519) % len) as usize
}

fn pick(seed: usize, len: usize, salt: usize) -> (r: usize)
    requires
        len > 0,
    ensures
        r == dsl_pick(seed, len, salt),
        r < len,
{
    seed.wrapping_add(salt).wrapping_mul(2246822519) % len
}

/// A pattern of the dissolve effects: one of the first `count` of these, the
/// spiral with `arms` arms.
pub open spec fn dsl_pattern(i: int, arms: int) -> Seq<char> {
    if i == 0 {
        "RadialPattern::center()"@
    } else if i == 1 {
        "DiamondPattern::center()"@
    } else if i == 2 {
        "SpiralPattern::center().with_arms("@ + decimal(arms as nat) + ")"@
    } else if i == 3 {
        "DiagonalPattern::top_left_to_bottom_right()"@
    } else if i == 4 {
        "CheckerboardPattern::default()"@
    } else {
        "SweepPattern::left_to_right(5)"@
    }
}

/// A pattern of the coalesce effects.
pub open spec fn coalesce_pattern(i: int, arms: int) -> Seq<char> {
    if i < 3 {
        dsl_pattern(i, arms)
    } else {
        "InvertedPattern::new(RadialPattern::center())"@
    }
}

fn dsl_pattern_string(i: usize, arms: u64) -> (s: String)
    requires
        i < 6,
    ensures
        s@ == dsl_pattern(i as int, arms as int),
{
    match i {
        0 => "RadialPattern::center()".to_owned(),
        1 => "DiamondPattern::center()".to_owned(),
        2 => {
            let mut s = "SpiralPattern::center().with_arms(".to_owned();
            s.append(decimal_string(arms).as_str());
            s.append(")");
            s
        },
        3 => "DiagonalPattern::top_left_to_bottom_right()".to_owned(),
        4 => "CheckerboardPattern::default()".to_owned(),
        _ => "SweepPattern::left_to_right(5)".to_owned(),
    }
}

/// The three parts of generated effect `index`, the effect's source in the
/// effect language last. Twelve kinds of effect take turns; the seed picks
/// colors, easing curves, motions, patterns and timings.
pub open spec fn procedural_entry(index: usize) -> (Seq<char>, Seq<char>, Seq<char>) {
    let seed = dsl_seed(index);
    let num = decimal((index + 1) as nat);
    let color_a = effect_color(dsl_pick(seed, 16, 0) as int);
    let color_b = effect_color(dsl_pick(seed, 16, 7) as int);
    let interp = interpolation(dsl_pick(seed, 12, 1) as int);
    let interp2 = interpolation(dsl_pick(seed, 12, 11) as int);
    let mo = motion(dsl_pick(seed, 4, 2) as int);
    let hsl = hsl_shift(dsl_pick(seed, 10, 3) as int);
    let evolve = evolve_set(dsl_pick(seed, 6, 4) as int);
    let duration = 2000 + dsl_pick(seed, 5, 5) * 500;
    let duration2 = 1000 + dsl_pick(seed, 4, 6) * 500;
    let arms = 2 + dsl_pick(seed, 6, 8);
    let dur = decimal(duration as nat);
    let dur2 = decimal(duration2 as nat);
    let kind = index % 12;
    if kind == 0 {
        (
            "Procedural: Dissolve+Pattern"@,
            "dissolve #"@ + num + " pattern"@,
            "fx::dissolve(("@ + dur + ", "@ + interp + "))\n    .with_pattern("@ + dsl_pattern(
                dsl_pick(seed, 6, 9) as int,
                arms,
            ) + ")"@,
        )
    } else if kind == 1 {
        (
            "Procedural: Coalesce+Pattern"@,
            "coalesce #"@ + num + " pattern"@,
            "fx::coalesce(("@ + dur + ", "@ + interp + "))\n    .with_pattern("@ + coalesce_pattern(
                dsl_pick(seed, 4, 10) as int,
                arms,
            ) + ")"@,
        )
    } else if kind == 2 {
        let cells = 6 + dsl_pick(seed, 15, 12);
        let gap = dsl_pick(seed, 5, 13) as int;
        (
            "Procedural: Sweep"@,
            "sweep #"@ + num + " "@ + mo.1,
            "let bg = Color::Rgb(8, 9, 14);\nfx::sweep_in("@ + mo.0 + ", "@ + decimal(cells as nat)
                + ", "@ + decimal(gap as nat) + ", bg, ("@ + dur + ", "@ + interp + "))"@,
        )
    } else if kind == 3 {
        let cells = 4 + dsl_pick(seed, 10, 14);
        let gap = 1 + dsl_pick(seed, 4, 15);
        (
            "Procedural: Slide"@,
            "slide #"@ + num + " "@ + mo.1,
            "let bg = Color::Rgb(8, 9, 14);\nfx::slide_in("@ + mo.0 + ", "@ + decimal(cells as nat)
                + ", "@ + decimal(gap as nat) + ", bg, ("@ + dur + ", "@ + interp + "))"@,
        )
    } else if kind == 4 {
        (
            "Procedural: Fade"@,
            "fade_to_fg #"@ + num,
            "fx::fade_to_fg("@ + color_a + ", ("@ + dur + ", "@ + interp + "))"@,
        )
    } else if kind == 5 {
        (
            "Procedural: HSL Shift"@,
            "hsl_shift #"@ + num,
            "fx::hsl_shift_fg(["@ + hsl.0 + ", "@ + hsl.1 + ", "@ + hsl.2 + "], ("@ + dur + ", "@
                + interp + "))"@,
        )
    } else if kind == 6 {
        (
            "Procedural: Paint"@,
            "paint_fg #"@ + num,
            "fx::paint_fg("@ + color_a + ", ("@ + dur + ", "@ + interp + "))"@,
        )
    } else if kind == 7 {
        (
            "Procedural: Evolution"@,
            "evolve #"@ + num,
            "fx::evolve("@ + evolve + ", ("@ + dur + ", "@ + interp + "))"@,
        )
    } else if kind == 8 {
        (
            "Procedural: Sequence"@,
            "seq dissolve→coalesce #"@ + num,
            "fx::sequence(&[\n    fx::dissolve(("@ + dur2 + ", "@ + interp + ")),\n    fx::coalesce(("@
                + dur2 + ", "@ + interp2 + "))\n])"@,
        )
    } else if kind == 9 {
        (
            "Procedural: Parallel"@,
            "parallel fade+dissolve #"@ + num,
            "fx::parallel(&[\n    fx::fade_to_fg("@ + color_a + ", ("@ + dur + ", "@ + interp
                + ")),\n    fx::dissolve(("@ + dur + ", "@ + interp2 + "))\n        .with_pattern("@
                + dsl_pattern(dsl_pick(seed, 3, 16) as int, arms) + ")\n])"@,
        )
    } else if kind == 10 {
        let wt = wave_kind(dsl_pick(seed, 4, 20) as int);
        (
            "Procedural: Wave"@,
            "wave "@ + wt + " dissolve #"@ + num,
            "fx::dissolve(("@ + decimal((duration + 1000) as nat)
                + ", Linear))\n    .with_pattern(WavePattern::new(\n        WaveLayer::new(Oscillator::"@
                + wt + "("@ + wave_kx(dsl_pick(seed, 5, 17) as int) + ", "@ + wave_ky(
                dsl_pick(seed, 4, 18) as int,
            ) + ", "@ + wave_kt(dsl_pick(seed, 4, 19) as int) + "))\n    ))"@,
        )
    } else {
        (
            "Procedural: Paint Chain"@,
            "paint chain #"@ + num,
            "fx::sequence(&[\n    fx::paint_fg("@ + color_a + ", "@ + dur2 + "),\n    fx::paint_fg("@
                + color_b + ", "@ + dur2 + ")\n])"@,
        )
    }
}

/// `s` followed by the decimal digits of `n`.
fn push_decimal(s: &mut String, n: u64)
    ensures
        final(s)@ == old(s)@ + decimal(n as nat),
{
    let d = decimal_string(n);
    s.append(d.as_str());
}

/// Generated effect `index` of the showcase (see `procedural_entry`): its
/// category, its title and its source in the effect language.
pub fn procedural_dsl_entry(index: usize) -> (r: (String, String, String))
    requires
        index < usize::MAX,
    ensures
        (r.0@, r.1@, r.2@) == procedural_entry(index),
{
    let seed = index.wrapping_mul(2654435761);
    let num = (index + 1) as u64;
    let color_a = effect_color_str(pick(seed, COLOR_COUNT, 0));
    let color_b = effect_color_str(pick(seed, COLOR_COUNT, 7));
    let interp = interpolation_str(pick(seed, INTERPOLATION_COUNT, 1));
    let interp2 = interpolation_str(pick(seed, INTERPOLATION_COUNT, 11));
    let mo = motion_str(pick(seed, MOTION_COUNT, 2));
    let hsl = hsl_shift_str(pick(seed, HSL_COUNT, 3));
    let evolve = evolve_set_str(pick(seed, EVOLVE_COUNT, 4));
    let duration = 2000 + (pick(seed, 5, 5) as u64) * 500;
    let duration2 = 1000 + (pick(seed, 4, 6) as u64) * 500;
    let arms = 2 + pick(seed, 6, 8) as u64;
    let kind = index % 12;
    let mut title: String;
    let mut dsl: String;
    let category: String;
    if kind == 0 {
        category = "Procedural: Dissolve+Pattern".to_owned();
        title = "dissolve #".to_owned();
        push_decimal(&mut title, num);
        title.append(" pattern");
        dsl = "fx::dissolve((".to_owned();
        push_decimal(&mut dsl, duration);
        dsl.append(", ");
        dsl.append(interp);
        dsl.append("))\n    .with_pattern(");
        dsl.append(dsl_pattern_string(pick(seed, 6, 9), arms).as_str());
        dsl.append(")");
    } else if kind == 1 {
        category = "Procedural: Coalesce+Pattern".to_owned();
        title = "coalesce #".to_owned();
        push_decimal(&mut title, num);
        title.append(" pattern");
        dsl = "fx::coalesce((".to_owned();
        push_decimal(&mut dsl, duration);
        dsl.append(", ");
        dsl.append(interp);
        dsl.append("))\n    .with_pattern(");
        let p = pick(seed, 4, 10);
        if p < 3 {
            dsl.append(dsl_pattern_string(p, arms).as_str());
        } else {
            dsl.append("InvertedPattern::new(RadialPattern::center())");
        }
        dsl.append(")");
    } else if kind == 2 || kind == 3 {
        let cells: u64;
        let gap: u64;
        if kind == 2 {
            category = "Procedural: Sweep".to_owned();
            title = "sweep #".to_owned();
            cells = 6 + pick(seed, 15, 12) as u64;
            gap = pick(seed, 5, 13) as u64;
        } else {
            category = "Procedural: Slide".to_owned();
            title = "slide #".to_owned();
            cells = 4 + pick(seed, 10, 14) as u64;
            gap = 1 + pick(seed, 4, 15) as u64;
        }
        push_decimal(&mut title, num);
        title.append(" ");
        title.append(mo.1);
        dsl = if kind == 2 {
            "let bg = Color::Rgb(8, 9, 14);\nfx::sweep_in(".to_owned()
        } else {
            "let bg = Color::Rgb(8, 9, 14);\nfx::slide_in(".to_owned()
        };
        dsl.append(mo.0);
        dsl.append(", ");
        push_decimal(&mut dsl, cells);
        dsl.append(", ");
        push_decimal(&mut dsl, gap);
        dsl.append(", bg, (");
        push_decimal(&mut dsl, duration);
        dsl.append(", ");
        dsl.append(interp);
        dsl.append("))");
    } else if kind == 4 || kind == 6 {
        if kind == 4 {
            category = "Procedural: Fade".to_owned();
            title = "fade_to_fg #".to_owned();
            dsl = "fx::fade_to_fg(".to_owned();
        } else {
            category = "Procedural: Paint".to_owned();
            title = "paint_fg #".to_owned();
            dsl = "fx::paint_fg(".to_owned();
        }
        push_decimal(&mut title, num);
        dsl.append(color_a);
        dsl.append(", (");
        push_decimal(&mut dsl, duration);
        dsl.append(", ");
        dsl.append(interp);
        dsl.append("))");
    } else if kind == 5 {
        category = "Procedural: HSL Shift".to_owned();
        title = "hsl_shift #".to_owned();
        push_decimal(&mut title, num);
        dsl = "fx::hsl_shift_fg([".to_owned();
        dsl.append(hsl.0);
        dsl.append(", ");
        dsl.append(hsl.1);
        dsl.append(", ");
        dsl.append(hsl.2);
        dsl.append("], (");
        push_decimal(&mut dsl, duration);
        dsl.append(", ");
        dsl.append(interp);
        dsl.append("))");
    } else if kind == 7 {
        category = "Procedural: Evolution".to_owned();
        title = "evolve #".to_owned();
        push_decimal(&mut title, num);
        dsl = "fx::evolve(".to_owned();
        dsl.append(evolve);
        dsl.append(", (");
        push_decimal(&mut dsl, duration);
        dsl.append(", ");
        dsl.append(interp);
        dsl.append("))");
    } else if kind == 8 {
        category = "Procedural: Sequence".to_owned();
        title = "seq dissolve→coalesce #".to_owned();
        push_decimal(&mut title, num);
        dsl = "fx::sequence(&[\n    fx::dissolve((".to_owned();
        push_decimal(&mut dsl, duration2);
        dsl.append(", ");
        dsl.append(interp);
        dsl.append(")),\n    fx::coalesce((");
        push_decimal(&mut dsl, duration2);
        dsl.append(", ");
        dsl.append(interp2);
        dsl.append("))\n])");
    } else if kind == 9 {
        category = "Procedural: Parallel".to_owned();
        title = "parallel fade+dissolve #".to_owned();
        push_decimal(&mut title, num);
        dsl = "fx::parallel(&[\n    fx::fade_to_fg(".to_owned();
        dsl.append(color_a);
        dsl.append(", (");
        push_decimal(&mut dsl, duration);
        dsl.append(", ");
        dsl.append(interp);
        dsl.append(")),\n    fx::dissolve((");
        push_decimal(&mut dsl, duration);
        dsl.append(", ");
        dsl.append(interp2);
        dsl.append("))\n        .with_pattern(");
        dsl.append(dsl_pattern_string(pick(seed, 3, 16), arms).as_str());
        dsl.append(")\n])");
    } else if kind == 10 {
        let wt = wave_kind_str(pick(seed, 4, 20));
        category = "Procedural: Wave".to_owned();
        title = "wave ".to_owned();
        title.append(wt);
        title.append(" dissolve #");
        push_decimal(&mut title, num);
        dsl = "fx::dissolve((".to_owned();
        push_decimal(&mut dsl, duration + 1000);
        dsl.append(", Linear))\n    .with_pattern(WavePattern::new(\n        WaveLayer::new(Oscillator::");
        dsl.append(wt);
        dsl.append("(");
        dsl.append(wave_kx_str(pick(seed, 5, 17)));
        dsl.append(", ");
        dsl.append(wave_ky_str(pick(seed, 4, 18)));
        dsl.append(", ");
        dsl.append(wave_kt_str(pick(seed, 4, 19)));
        dsl.append("))\n    ))");
    } else {
        category = "Procedural: Paint Chain".to_owned();
        title = "paint chain #".to_owned();
        push_decimal(&mut title, num);
        dsl = "fx::sequence(&[\n    fx::paint_fg(".to_owned();
        dsl.append(color_a);
        dsl.append(", ");
        push_decimal(&mut dsl, duration2);
        dsl.append("),\n    fx::paint_fg(");
        dsl.append(color_b);
        dsl.append(", ");
        push_decimal(&mut dsl, duration2);
        dsl.append(")\n])");
    }
    (category, title, dsl)
}

/// An effect of the fixed list.
pub struct DslShowcaseEntry {
    pub category: &'static str,
    pub title: &'static str,
    pub dsl: &'static str,
}

/// Effect `global_index` of the showcase whose fixed list is `table`: an
/// entry of the list, or a generated effect after it.
pub fn dsl_entry_info(table: &[DslShowcaseEntry], global_index: usize) -> (r: (String, String, String))
    requires
        global_index - table@.len() < usize::MAX,
    ensures
        global_index < table@.len() ==> (r.0@, r.1@, r.2@) == (
            table@[global_index as int].category@,
            table@[global_index as int].title@,
            table@[global_index as int].dsl@,
        ),
        global_index >= table@.len() ==> (r.0@, r.1@, r.2@) == procedural_entry(
            (global_index - table@.len()) as usize,
        ),
{
    if global_index < table.len() {
        let e = &table[global_index];
        (e.category.to_owned(), e.title.to_owned(), e.dsl.to_owned())
    } else {
        procedural_dsl_entry(global_index - table.len())
    }
}

// ── the showcase page ────────────────────────────────────────────────────

/// The rows each showcase entry takes: its title, its source line, and a
/// demonstration area.
pub const ENTRY_HEIGHT: u16 = 5;

/// The entries of the showcase that show in an area `height` rows high:
/// how far the list can scroll, and the first and one past the last entry
/// shown once the scroll position `scroll` is kept within reach.
pub open spec fn effects_window(height: int, scroll: int, total: int) -> (int, int, int) {
    let visible = if height / 5 >= 1 {
        height / 5
    } else {
        1
    };
    let max_scroll = sub_or_zero(total, visible);
    let start = if scroll <= max_scroll {
        scroll
    } else {
        max_scroll
    };
    let end = if start + visible <= total {
        start + visible
    } else {
        total
    };
    (max_scroll, start, end)
}

/// The window of the showcase list (see `effects_window`).
pub fn effects_window_of(height: u16, scroll: usize, total: usize) -> (r: (usize, usize, usize))
    ensures
        (r.0 as int, r.1 as int, r.2 as int) == effects_window(height as int, scroll as int, total as int),
{
    let slots = height / ENTRY_HEIGHT;
    let visible: usize = if slots >= 1 {
        slots as usize
    } else {
        1
    };
    let max_scroll = total.saturating_sub(visible);
    let start = if scroll <= max_scroll {
        scroll
    } else {
        max_scroll
    };
    let end = if start + visible <= total {
        start + visible
    } else {
        total
    };
    (max_scroll, start, end)
}

/// `s` right-aligned in `width` characters, as `{:>width}` writes it.
pub open spec fn right_aligned(s: Seq<char>, width: int) -> Seq<char> {
    if s.len() >= width {
        s
    } else {
        Seq::new((width - s.len()) as nat, |i: int| ' ') + s
    }
}

/// The title line of showcase entry `index`: its number, right-aligned in
/// three columns, its category in brackets, and its title.
pub open spec fn effect_label(index: int, category: Seq<char>, title: Seq<char>) -> Seq<char> {
    " "@ + right_aligned(decimal((index + 1) as nat), 3) + ". ["@ + category + "] "@ + title
}

/// The title line of showcase entry `index` (see `effect_label`).
pub fn effect_label_of(index: usize, category: &str, title: &str) -> (s: String)
    requires
        index < usize::MAX,
    ensures
        s@ == effect_label(index as int, category@, title@),
{
    let num = decimal_string((index + 1) as u64);
    let mut s = " ".to_owned();
    let n = num.as_str().unicode_len();
    if n < 3 {
        let mut pad: usize = 0;
        let ghost s0 = s@;
        proof {
            reveal_strlit(" ");
            assert(s0 + Seq::new(0, |i: int| ' ') =~= s0);
        }
        while pad < 3 - n
            invariant
                n < 3,
                pad <= 3 - n,
                s@ == s0 + Seq::new(pad as nat, |i: int| ' '),
            decreases 3 - n - pad,
        {
            s.append(" ");
            pad = pad + 1;
            proof {
                reveal_strlit(" ");
            }
            proof {
                assert(s@ =~= s0 + Seq::new(pad as nat, |i: int| ' '));
            }
        }
        proof {
            assert(s@ + num@ =~= s0 + right_aligned(num@, 3));
        }
    }
    s.append(num.as_str());
    s.append(". [");
    s.append(category);
    s.append("] ");
    s.append(title);
    s
}

/// The first line of `lines` that is not empty once trimmed, trimmed.
pub open spec fn first_nonempty(lines: Seq<Seq<char>>) -> Option<Seq<char>>
    decreases lines.len(),
{
    if lines.len() == 0 {
        None
    } else if trimmed(lines[0]).len() > 0 {
        Some(trimmed(lines[0]))
    } else {
        first_nonempty(lines.drop_first())
    }
}

/// The source line shown under an entry's title in `width` columns: the
/// first non-blank line of the source, trimmed (`...` when there is none),
/// cut to two columns less than the width with an ellipsis when it does not
/// fit.
pub open spec fn code_hint(dsl: Seq<char>, width: int) -> Seq<char> {
    let line = match first_nonempty(split_on(dsl, '\n')) {
        Some(l) => l,
        None => "..."@,
    };
    if line.len() > width {
        line.take(sub_or_zero(width, 2)) + "…"@
    } else {
        line
    }
}

/// The first line of `lines` that is not blank, trimmed (see
/// `first_nonempty`).
fn first_nonempty_line(lines: &Vec<Vec<char>>) -> (r: Option<Vec<char>>)
    ensures
        match r {
            Some(t) => first_nonempty(lines@.map_values(|p: Vec<char>| p@)) == Some(t@),
            None => first_nonempty(lines@.map_values(|p: Vec<char>| p@)) is None,
        },
{
    let ghost lv = lines@.map_values(|p: Vec<char>| p@);
    let mut k: usize = 0;
    proof {
        assert(lv.skip(0) =~= lv);
    }
    while k < lines.len()
        invariant
            k <= lines@.len(),
            lv == lines@.map_values(|p: Vec<char>| p@),
            first_nonempty(lv) == first_nonempty(lv.skip(k as int)),
        decreases lines@.len() - k,
    {
        let t = trim_chars(&lines[k]);
        proof {
            assert(lv.skip(k as int)[0] == lines@[k as int]@);
            assert(lv.skip(k as int).drop_first() =~= lv.skip(k as int + 1));
        }
        if t.len() > 0 {
            return Some(t);
        }
        k = k + 1;
    }
    proof {
        assert(lv.skip(k as int).len() == 0);
    }
    None
}

/// The source line of an entry (see `code_hint`).
pub fn code_hint_of(dsl: &str, width: u16) -> (s: String)
    ensures
        s@ == code_hint(dsl@, width as int),
{
    let mut chars: Vec<char> = Vec::new();
    push_chars(&mut chars, dsl);
    let lines = split_chars(&chars, '\n');
    let ghost lv = lines@.map_values(|p: Vec<char>| p@);
    let line: Vec<char> = match first_nonempty_line(&lines) {
        Some(t) => t,
        None => {
            let mut d: Vec<char> = Vec::new();
            push_chars(&mut d, "...");
            d
        },
    };
    if line.len() > width as usize {
        let keep = width.saturating_sub(2) as usize;
        let mut out: Vec<char> = Vec::new();
        let mut i: usize = 0;
        while i < keep
            invariant
                i <= keep < line@.len(),
                out@ == line@.take(i as int),
            decreases keep - i,
        {
            out.push(line[i]);
            i = i + 1;
            proof {
                assert(out@ =~= line@.take(i as int));
            }
        }
        push_chars(&mut out, "…");
        string_of(&out)
    } else {
        string_of(&line)
    }
}

/// The sources tried, in order, to make an effect loop with a pause: the
/// effect played forth and back then a pause, repeated; the effect then a
/// pause, repeated; and the trimmed source alone, to be wrapped after
/// compiling.
pub open spec fn looping_sources_spec(dsl: Seq<char>) -> (Seq<char>, Seq<char>, Seq<char>) {
    let t = trimmed(dsl);
    (
        "fx::repeating(fx::sequence(&[fx::ping_pong("@ + t + "), fx::sleep(1500)]))"@,
        "fx::repeating(fx::sequence(&["@ + t + ", fx::sleep(1500)]))"@,
        t,
    )
}

/// The sources to try for a looping effect (see `looping_sources_spec`).
pub fn looping_sources(dsl: &str) -> (r: (String, String, String))
    ensures
        (r.0@, r.1@, r.2@) == looping_sources_spec(dsl@),
{
    let mut chars: Vec<char> = Vec::new();
    push_chars(&mut chars, dsl);
    let t = string_of(&trim_chars(&chars));
    let mut ping_pong = "fx::repeating(fx::sequence(&[fx::ping_pong(".to_owned();
    ping_pong.append(t.as_str());
    ping_pong.append("), fx::sleep(1500)]))");
    let mut repeat = "fx::repeating(fx::sequence(&[".to_owned();
    repeat.append(t.as_str());
    repeat.append(", fx::sleep(1500)]))");
    (ping_pong, repeat, t)
}

// ── generated titles are all different ───────────────────────────────────

/// The position of the first `c` in `s`, or the length of `s` when there is
/// none.
pub open spec fn first_index_of(s: Seq<char>, c: char) -> int
    decreases s.len(),
{
    if s.len() == 0 {
        0
    } else if s[0] == c {
        0
    } else {
        1 + first_index_of(s.drop_first(), c)
    }
}

/// The number a generated title carries: what follows its first `#`, up to
/// the next space.
pub open spec fn title_number(t: Seq<char>) -> Seq<char> {
    let rest = t.skip(first_index_of(t, '#') + 1);
    rest.take(first_index_of(rest, ' '))
}

proof fn lemma_first_index_past(q: Seq<char>, r: Seq<char>, c: char)
    requires
        forall|k: int| 0 <= k < q.len() ==> #[trigger] q[k] != c,
    ensures
        first_index_of(q + r, c) == q.len() + first_index_of(r, c),
    decreases q.len(),
{
    if q.len() > 0 {
        assert((q + r).drop_first() =~= q.drop_first() + r);
        assert((q + r)[0] == q[0]);
        lemma_first_index_past(q.drop_first(), r, c);
    } else {
        assert(q + r =~= r);
    }
}

/// A title made of a prefix ending in its only `#`, digits, and nothing or
/// a space and more carries those digits.
proof fn lemma_title_number(p: Seq<char>, d: Seq<char>, s: Seq<char>)
    requires
        p.len() > 0,
        p.last() == '#',
        forall|k: int| 0 <= k < p.len() - 1 ==> #[trigger] p[k] != '#',
        forall|k: int| 0 <= k < d.len() ==> #[trigger] is_digit(d[k]),
        s.len() == 0 || s[0] == ' ',
    ensures
        title_number(p + d + s) == d,
{
    let q = p.drop_last();
    let t = p + d + s;
    assert(t =~= q + (seq!['#'] + d + s));
    lemma_first_index_past(q, seq!['#'] + d + s, '#');
    assert((seq!['#'] + d + s)[0] == '#');
    let rest = t.skip(first_index_of(t, '#') + 1);
    assert(rest =~= d + s);
    assert forall|k: int| 0 <= k < d.len() implies #[trigger] d[k] != ' ' by {
        assert(is_digit(d[k]));
    }
    lemma_first_index_past(d, s, ' ');
    if s.len() > 0 {
        assert(first_index_of(s, ' ') == 0);
    }
    assert(rest.take(d.len() as int) =~= d);
}

/// Each generated title carries its position in the list, counting from
/// one.
proof fn lemma_procedural_title_number(index: usize)
    requires
        index < usize::MAX,
    ensures
        title_number(procedural_entry(index).1) == decimal((index + 1) as nat),
{
    let num = decimal((index + 1) as nat);
    lemma_decimal_digits((index + 1) as nat);
    let t = procedural_entry(index).1;
    let kind = index % 12;
    reveal_strlit(" ");
    reveal_strlit(" pattern");
    if kind == 0 {
        reveal_strlit("dissolve #");
        lemma_title_number("dissolve #"@, num, " pattern"@);
    } else if kind == 1 {
        reveal_strlit("coalesce #");
        lemma_title_number("coalesce #"@, num, " pattern"@);
    } else if kind == 2 {
        reveal_strlit("sweep #");
        let mo = motion(dsl_pick(dsl_seed(index), 4, 2) as int);
        assert(t == "sweep #"@ + num + (" "@ + mo.1));
        lemma_title_number("sweep #"@, num, " "@ + mo.1);
    } else if kind == 3 {
        reveal_strlit("slide #");
        let mo = motion(dsl_pick(dsl_seed(index), 4, 2) as int);
        assert(t == "slide #"@ + num + (" "@ + mo.1));
        lemma_title_number("slide #"@, num, " "@ + mo.1);
    } else if kind == 10 {
        reveal_strlit("wave ");
        reveal_strlit(" dissolve #");
        reveal_strlit("sin");
        reveal_strlit("cos");
        reveal_strlit("triangle");
        reveal_strlit("sawtooth");
        let wt = wave_kind(dsl_pick(dsl_seed(index), 4, 20) as int);
        let p = "wave "@ + wt + " dissolve #"@;
        assert forall|k: int| 0 <= k < p.len() - 1 implies #[trigger] p[k] != '#' by {
            if k < 5 {
                assert(p[k] == "wave "@[k]);
            } else if k < 5 + wt.len() {
                assert(p[k] == wt[k - 5]);
            } else {
                assert(p[k] == " dissolve #"@[k - 5 - wt.len()]);
            }
        }
        assert(t == p + num + Seq::<char>::empty());
        lemma_title_number(p, num, Seq::empty());
    } else {
        let p = if kind == 4 {
            "fade_to_fg #"@
        } else if kind == 5 {
            "hsl_shift #"@
        } else if kind == 6 {
            "paint_fg #"@
        } else if kind == 7 {
            "evolve #"@
        } else if kind == 8 {
            "seq dissolve→coalesce #"@
        } else if kind == 9 {
            "parallel fade+dissolve #"@
        } else {
            "paint chain #"@
        };
        reveal_strlit("fade_to_fg #");
        reveal_strlit("hsl_shift #");
        reveal_strlit("paint_fg #");
        reveal_strlit("evolve #");
        reveal_strlit("seq dissolve→coalesce #");
        reveal_strlit("parallel fade+dissolve #");
        reveal_strlit("paint chain #");
        assert(t == p + num + Seq::<char>::empty());
        lemma_title_number(p, num, Seq::empty());
    }
}

/// Different generated effects have different titles: each title carries
/// its position in the list.
pub proof fn lemma_procedural_titles_differ(i: usize, j: usize)
    requires
        i < usize::MAX,
        j < usize::MAX,
        i != j,
    ensures
        procedural_entry(i).1 != procedural_entry(j).1,
{
    lemma_procedural_title_number(i);
    lemma_procedural_title_number(j);
    if procedural_entry(i).1 == procedural_entry(j).1 {
        lemma_decimal_injective((i + 1) as nat, (j + 1) as nat);
    }
}


/// The showcase shows a run of consecutive entries: it lies within the
/// list, starts no later than the scroll position (at it, unless the list
/// ends first), and holds as many entries as fit in the height (five rows
/// each, at least one), or all of them when there are fewer.
pub proof fn lemma_effects_window_shows_a_full_run(height: int, scroll: int, total: int)
    requires
        height >= 0,
        scroll >= 0,
        total >= 0,
    ensures
        ({
            let (max_scroll, start, end) = effects_window(height, scroll, total);
            let fit = if height / 5 >= 1 {
                height / 5
            } else {
                1
            };
            &&& 0 <= start <= end <= total
            &&& start <= scroll
            &&& end == total || start == scroll
            &&& end - start == if fit <= total {
                fit
            } else {
                total
            }
            &&& start <= max_scroll
        }),
{
}

} // verus!
