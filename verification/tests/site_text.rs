use tvk::site::links::open_url_script;
use tvk::site::sections::{section_lines, text_lines};
use tvk::site::lists::{entry_line_indices, item_areas, line_start_rows};
use tvk::site::markdown::{md_to_lines, md_word_to_span, BlockKind, LineLook, MdBlock, MdWord, SpanLook, WordKind};
use tvk::site::page::Page;
use tvk::site::pointer::Rect;
use tvk::site::scroll::{arrow_look, clamp_scroll, clamp_scroll_rows, scroll_hint_text, scrollbar_thumb_of, ArrowLook};
use tvk::site::showcase::{
    code_hint_of, dsl_entry_info, effect_label_of, effects_window_of, looping_sources, procedural_dsl_entry,
    total_dsl_effects, DslShowcaseEntry,
};
use tvk::site::tabs::{tab_bar, tab_look, TabLook};
use tvk::site::wrap::wrapped_line_count;

fn lines(v: &[&[&str]]) -> Vec<Vec<String>> {
    v.iter().map(|l| l.iter().map(|s| s.to_string()).collect()).collect()
}

fn rect(x: u16, y: u16, width: u16, height: u16) -> Rect {
    Rect { x, y, width, height }
}

fn word(kind: WordKind, s: &str) -> MdWord {
    MdWord { kind, content: s.to_string() }
}

#[test]
fn wrapping_counts_rows() {
    assert_eq!(wrapped_line_count(&lines(&[&["hello world"]]), 5), 2);
    assert_eq!(wrapped_line_count(&lines(&[&["hello ", "world"]]), 5), 2);
    assert_eq!(wrapped_line_count(&lines(&[&["the quick brown fox jumps"]]), 10), 3);
    assert_eq!(wrapped_line_count(&lines(&[&["abcdefghijkl"]]), 5), 3);
    assert_eq!(wrapped_line_count(&lines(&[&["a"], &[""], &["bb cc dd"]]), 4), 5);
    assert_eq!(wrapped_line_count(&lines(&[&["xxxxxxxxxx"]]), 10), 1);
    assert_eq!(wrapped_line_count(&lines(&[]), 10), 0);
}

#[test]
fn wrapping_measures_wide_characters() {
    assert_eq!(wrapped_line_count(&lines(&[&["日本語テキスト"]]), 4), 4);
    assert_eq!(wrapped_line_count(&lines(&[&["日本"]]), 4), 1);
}

#[test]
fn no_wrap_width_means_one_row_per_line() {
    assert_eq!(wrapped_line_count(&lines(&[&["hello world"], &["x"]]), 0), 2);
}

#[test]
fn scroll_is_kept_within_reach() {
    let ten: Vec<Vec<String>> = (0..10).map(|i| vec![i.to_string()]).collect();
    let mut scroll = 9;
    let max = clamp_scroll(&ten, 10, 6, &mut scroll);
    assert_eq!(max, 6);
    assert_eq!(scroll, 6);
    let mut scroll = 2;
    assert_eq!(clamp_scroll(&ten, 10, 6, &mut scroll), 6);
    assert_eq!(scroll, 2);
    let mut scroll = 3;
    assert_eq!(clamp_scroll(&ten, 10, 40, &mut scroll), 0);
    assert_eq!(scroll, 0);
}

#[test]
fn scrollbar_thumbs() {
    assert_eq!(scrollbar_thumb_of(12, 5, 20), Some((1, 3)));
    assert_eq!(scrollbar_thumb_of(12, 20, 20), Some((7, 3)));
    assert_eq!(scrollbar_thumb_of(12, 0, 20), Some((0, 3)));
    assert_eq!(scrollbar_thumb_of(12, 5, 0), None);
    assert_eq!(scrollbar_thumb_of(3, 1, 5), None);
    assert_eq!(scrollbar_thumb_of(6, 100, 1000), Some((0, 1)));
    assert_eq!(scrollbar_thumb_of(6, 1000, 1000), Some((3, 1)));
}

#[test]
fn arrows_show_where_scrolling_goes() {
    assert_eq!(arrow_look(true, 0, 5, true), ArrowLook::Disabled);
    assert_eq!(arrow_look(true, 1, 5, true), ArrowLook::Hovered);
    assert_eq!(arrow_look(true, 1, 5, false), ArrowLook::Enabled);
    assert_eq!(arrow_look(false, 5, 5, false), ArrowLook::Disabled);
    assert_eq!(arrow_look(false, 4, 5, false), ArrowLook::Enabled);
}

#[test]
fn hint_line_shortens_from_the_front() {
    let h = "Esc: unfocus │ ↑↓: scroll │ ←→: tabs";
    assert_eq!(scroll_hint_text(h, 0, 5, 100), "Esc: unfocus │ ↑↓: scroll │ ←→: tabs │ 1/6");
    assert_eq!(scroll_hint_text(h, 0, 5, 42), "Esc: unfocus │ ↑↓: scroll │ ←→: tabs │ 1/6");
    assert_eq!(scroll_hint_text(h, 0, 5, 41), "↑↓: scroll │ ←→: tabs │ 1/6");
    assert_eq!(scroll_hint_text(h, 0, 5, 20), "←→: tabs │ 1/6");
    assert_eq!(scroll_hint_text(h, 0, 5, 10), "1/6");
    assert_eq!(scroll_hint_text(h, 3, 5, 3), "4/6");
}

#[test]
fn hint_line_without_scrolling() {
    let h = "│ Enter/tap: focus │ ←→: tabs │";
    assert_eq!(scroll_hint_text(h, 2, 0, 40), "│ Enter/tap: focus │ ←→: tabs │ │ ─");
    assert_eq!(scroll_hint_text(h, 2, 0, 20), "←→: tabs │  │ ─");
    assert_eq!(scroll_hint_text(h, 2, 0, 5), " │ ─");
    assert_eq!(scroll_hint_text(h, 2, 0, 1), "─");
}

#[test]
fn tab_carousel_centres_the_page() {
    let bar = tab_bar(rect(0, 0, 40, 3), Page::Home);
    let got: Vec<(usize, Rect, i32, bool)> =
        bar.slots.iter().map(|s| (s.page_idx, s.rect, s.raw_x, s.is_center)).collect();
    assert_eq!(
        got,
        vec![
            (4, rect(1, 1, 5, 1), -1, false),
            (5, rect(7, 1, 9, 1), 7, false),
            (0, rect(17, 1, 6, 1), 17, true),
            (1, rect(24, 1, 6, 1), 24, false),
            (2, rect(31, 1, 6, 1), 31, false),
            (3, rect(38, 1, 1, 1), 38, false),
        ]
    );
    assert_eq!(bar.center_tab_idx, 2);
}

#[test]
fn tab_carousel_in_a_narrow_bar() {
    let bar = tab_bar(rect(5, 2, 20, 3), Page::About);
    let got: Vec<(usize, Rect, i32, u16, bool)> =
        bar.slots.iter().map(|s| (s.page_idx, s.rect, s.raw_x, s.raw_width, s.is_center)).collect();
    assert_eq!(
        got,
        vec![
            (3, rect(6, 3, 4, 1), 4, 6, false),
            (4, rect(11, 3, 7, 1), 11, 7, true),
            (5, rect(19, 3, 5, 1), 19, 9, false),
        ]
    );
    assert_eq!(bar.center_tab_idx, 1);
    let none = tab_bar(rect(0, 0, 2, 3), Page::Home);
    assert!(none.slots.is_empty());
    assert_eq!(none.center_tab_idx, 0);
    let tiny = tab_bar(rect(0, 0, 3, 3), Page::Effects);
    let got: Vec<(usize, Rect, i32)> = tiny.slots.iter().map(|s| (s.page_idx, s.rect, s.raw_x)).collect();
    assert_eq!(got, vec![(4, rect(1, 1, 1, 1), -11), (5, rect(1, 1, 1, 1), -3)]);
    assert_eq!(tiny.center_tab_idx, 1);
}

#[test]
fn list_entries_and_their_areas() {
    assert_eq!(entry_line_indices(3, 3), vec![0, 3, 6]);
    assert_eq!(entry_line_indices(0, 2), Vec::<usize>::new());
    let inner = rect(2, 3, 20, 5);
    assert_eq!(item_areas(inner, &vec![0, 3, 6], 1, 2), vec![Rect::empty(), rect(2, 5, 20, 2), Rect::empty()]);
    assert_eq!(item_areas(inner, &vec![0, 2, 4], 0, 2), vec![rect(2, 3, 20, 2), rect(2, 5, 20, 2), rect(2, 7, 20, 1)]);
    assert_eq!(item_areas(inner, &vec![0, 2, 4, 6], 0, 1), vec![
        rect(2, 3, 20, 1),
        rect(2, 5, 20, 1),
        rect(2, 7, 20, 1),
        Rect::empty(),
    ]);
}

#[test]
fn link_rows_follow_wrapping() {
    let l = lines(&[&["aaaa aaaa"], &["b"], &["c"]]);
    assert_eq!(line_start_rows(&l, &vec![0, 1, 2, 3], 4), vec![0, 2, 3, 4]);
    assert_eq!(line_start_rows(&l, &vec![2], 0), vec![2]);
}

#[test]
fn markdown_words_take_their_looks() {
    assert_eq!(md_word_to_span(&word(WordKind::Normal, "a"), 0).look, SpanLook::Body);
    assert_eq!(md_word_to_span(&word(WordKind::White, " "), 2).look, SpanLook::HeadingText);
    assert_eq!(md_word_to_span(&word(WordKind::FootnoteInline, "1"), 0).look, SpanLook::Link);
    assert_eq!(md_word_to_span(&word(WordKind::Strikethrough, "s"), 0).look, SpanLook::Strikethrough);
    assert_eq!(md_word_to_span(&word(WordKind::Other, "o"), 3).look, SpanLook::Body);
    assert_eq!(md_word_to_span(&word(WordKind::Code, "c"), 0).content, "c");
}

#[test]
fn markdown_blocks_become_lines() {
    let blocks = vec![
        MdBlock {
            kind: BlockKind::Heading,
            heading_level: Some(2),
            lines: vec![vec![word(WordKind::Normal, "Title")], vec![word(WordKind::Bold, "x")]],
        },
        MdBlock {
            kind: BlockKind::Paragraph,
            heading_level: None,
            lines: vec![
                vec![word(WordKind::Normal, "a"), word(WordKind::Code, "b")],
                vec![word(WordKind::Link, "c")],
            ],
        },
        MdBlock { kind: BlockKind::LineBreak, heading_level: None, lines: vec![] },
        MdBlock { kind: BlockKind::HorizontalSeparator, heading_level: None, lines: vec![] },
        MdBlock { kind: BlockKind::Image, heading_level: None, lines: vec![vec![word(WordKind::Normal, "img")]] },
        MdBlock { kind: BlockKind::Heading, heading_level: None, lines: vec![] },
        MdBlock { kind: BlockKind::CodeBlock, heading_level: None, lines: vec![vec![word(WordKind::CodeBlock, "let")]] },
    ];
    let out = md_to_lines(&blocks, 10);
    let got: Vec<(Vec<(String, SpanLook)>, LineLook)> = out
        .iter()
        .map(|l| (l.spans.iter().map(|s| (s.content.clone(), s.look)).collect(), l.look))
        .collect();
    assert_eq!(
        got,
        vec![
            (vec![("Title".to_string(), SpanLook::HeadingText), ("x".to_string(), SpanLook::Bold)], LineLook::Heading),
            (vec![("a".to_string(), SpanLook::Body), ("b".to_string(), SpanLook::Code)], LineLook::Plain),
            (vec![("c".to_string(), SpanLook::Link)], LineLook::Plain),
            (vec![(String::new(), SpanLook::Body)], LineLook::Plain),
            (vec![("──────".to_string(), SpanLook::Separator)], LineLook::Plain),
            (vec![("let".to_string(), SpanLook::CodeBlock)], LineLook::Plain),
        ]
    );
}

#[test]
fn procedural_effects_by_kind() {
    let e = |i: usize| {
        let (a, b, c) = procedural_dsl_entry(i);
        (a, b, c)
    };
    assert_eq!(
        e(0),
        (
            "Procedural: Dissolve+Pattern".to_string(),
            "dissolve #1 pattern".to_string(),
            "fx::dissolve((2000, QuadInOut))\n    .with_pattern(DiagonalPattern::top_left_to_bottom_right())".to_string()
        )
    );
    assert_eq!(
        e(1).2,
        "fx::coalesce((4000, ElasticOut))\n    .with_pattern(DiamondPattern::center())"
    );
    assert_eq!(e(2).1, "sweep #3 LeftToRight");
    assert_eq!(e(2).2, "let bg = Color::Rgb(8, 9, 14);\nfx::sweep_in(Motion::LeftToRight, 7, 0, bg, (3500, ExpoOut))");
    assert_eq!(e(3).2, "let bg = Color::Rgb(8, 9, 14);\nfx::slide_in(Motion::DownToUp, 7, 3, bg, (3000, BounceOut))");
    assert_eq!(e(4).2, "fx::fade_to_fg(Color::Green, (2000, CubicOut))");
    assert_eq!(e(5), (
        "Procedural: HSL Shift".to_string(),
        "hsl_shift #6".to_string(),
        "fx::hsl_shift_fg([45.0, -20.0, 15.0], (4000, QuadIn))".to_string()
    ));
    assert_eq!(e(6).2, "fx::paint_fg(Color::Red, (3500, QuadOut))");
    assert_eq!(e(7).2, "fx::evolve(EvolveSymbolSet::Squares, (2500, BounceOut))");
    assert_eq!(e(8).1, "seq dissolve→coalesce #9");
    assert_eq!(e(8).2, "fx::sequence(&[\n    fx::dissolve((2000, SineIn)),\n    fx::coalesce((2000, ExpoOut))\n])");
    assert_eq!(
        e(9).2,
        "fx::parallel(&[\n    fx::fade_to_fg(Color::Yellow, (4000, SineOut)),\n    fx::dissolve((4000, BounceOut))\n        .with_pattern(RadialPattern::center())\n])"
    );
    assert_eq!(e(10).1, "wave triangle dissolve #11");
    assert_eq!(
        e(10).2,
        "fx::dissolve((4000, Linear))\n    .with_pattern(WavePattern::new(\n        WaveLayer::new(Oscillator::triangle(1.0, 0.0, 1.2))\n    ))"
    );
    assert_eq!(e(11).2, "fx::sequence(&[\n    fx::paint_fg(Color::Cyan, 2500),\n    fx::paint_fg(Color::Magenta, 2500)\n])");
    assert_eq!(e(45).2, "fx::parallel(&[\n    fx::fade_to_fg(Color::Blue, (2500, SineOut)),\n    fx::dissolve((2500, BounceOut))\n        .with_pattern(RadialPattern::center())\n])");
    assert_eq!(e(199), (
        "Procedural: Evolution".to_string(),
        "evolve #200".to_string(),
        "fx::evolve(EvolveSymbolSet::BlocksVertical, (3000, Linear))".to_string()
    ));
}

#[test]
fn showcase_list_and_window() {
    let table = [
        DslShowcaseEntry { category: "Dissolve & Coalesce", title: "dissolve", dsl: "fx::dissolve(2000)" },
        DslShowcaseEntry { category: "Dissolve & Coalesce", title: "coalesce", dsl: "fx::coalesce(2000)" },
    ];
    assert_eq!(
        dsl_entry_info(&table, 1),
        ("Dissolve & Coalesce".to_string(), "coalesce".to_string(), "fx::coalesce(2000)".to_string())
    );
    assert_eq!(dsl_entry_info(&table, 2), procedural_dsl_entry(0));
    assert_eq!(dsl_entry_info(&table, 7), procedural_dsl_entry(5));
    assert_eq!(total_dsl_effects(85), 285);
    assert_eq!(effects_window_of(23, 300, 285), (281, 281, 285));
    assert_eq!(effects_window_of(23, 10, 285), (281, 10, 14));
    assert_eq!(effects_window_of(4, 0, 3), (2, 0, 1));
    assert_eq!(effects_window_of(40, 0, 3), (0, 0, 3));
}

#[test]
fn showcase_labels_and_source_lines() {
    assert_eq!(effect_label_of(4, "Cat", "T"), "   5. [Cat] T");
    assert_eq!(effect_label_of(41, "C", "T"), "  42. [C] T");
    assert_eq!(effect_label_of(999, "C", "T"), " 1000. [C] T");
    assert_eq!(code_hint_of("\n   fx::dissolve(2000)\n", 40), "fx::dissolve(2000)");
    assert_eq!(code_hint_of("\n   fx::dissolve(2000)\n", 10), "fx::diss…");
    assert_eq!(code_hint_of("let bg = 1;\nfx::x()", 18), "let bg = 1;");
    assert_eq!(code_hint_of("  \n \t", 10), "...");
    assert_eq!(code_hint_of("abcdef", 1), "…");
}

#[test]
fn looping_effect_sources() {
    let (a, b, c) = looping_sources("\n   fx::dissolve(2000)\n  ");
    assert_eq!(a, "fx::repeating(fx::sequence(&[fx::ping_pong(fx::dissolve(2000)), fx::sleep(1500)]))");
    assert_eq!(b, "fx::repeating(fx::sequence(&[fx::dissolve(2000), fx::sleep(1500)]))");
    assert_eq!(c, "fx::dissolve(2000)");
}

#[test]
fn tab_looks() {
    assert_eq!(tab_look(true, true), TabLook::Current);
    assert_eq!(tab_look(false, true), TabLook::Hovered);
    assert_eq!(tab_look(false, false), TabLook::Plain);
}

#[test]
fn link_scripts_escape_quotes() {
    assert_eq!(
        open_url_script("https://crates.io"),
        "setTimeout(function(){window.open('https://crates.io','_blank','noopener')},500)"
    );
    assert_eq!(
        open_url_script("a'b\\c\"d\ne\rf"),
        "setTimeout(function(){window.open('a\\'b\\\\c\\\"d\\ne\\rf','_blank','noopener')},500)"
    );
}

#[test]
fn text_lines_and_sections() {
    assert_eq!(text_lines("a\r\nb\n"), vec!["a".to_string(), "b".to_string()]);
    assert_eq!(text_lines(""), Vec::<String>::new());
    assert_eq!(text_lines("\n"), vec![String::new()]);
    assert_eq!(text_lines("a\n\nb"), vec!["a".to_string(), String::new(), "b".to_string()]);
    assert_eq!(
        section_lines("── T ──", "x\ny"),
        vec!["── T ──".to_string(), String::new(), "x".to_string(), "y".to_string(), String::new()]
    );
}

#[test]
fn scroll_clamps_to_the_hidden_rows() {
    let mut scroll: usize = 9;
    assert_eq!(clamp_scroll_rows(10, 6, &mut scroll), 6);
    assert_eq!(scroll, 6);
    let mut scroll: usize = 3;
    assert_eq!(clamp_scroll_rows(10, 6, &mut scroll), 6);
    assert_eq!(scroll, 3);
    let mut scroll: usize = 50;
    assert_eq!(clamp_scroll_rows(10, 1, &mut scroll), 10);
    assert_eq!(scroll, 10);
    let mut scroll: usize = 2;
    assert_eq!(clamp_scroll_rows(3, 20, &mut scroll), 0);
    assert_eq!(scroll, 0);
}
