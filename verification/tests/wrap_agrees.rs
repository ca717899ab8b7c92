use ratatui::text::{Line, Span, Text};
use ratatui::widgets::{Paragraph, Wrap};
use tvk::site::lists::line_start_rows;
use tvk::site::wrap::wrapped_line_count;

fn lines(v: &[&[&str]]) -> Vec<Vec<String>> {
    v.iter().map(|l| l.iter().map(|s| s.to_string()).collect()).collect()
}

/// The rows ratatui's paragraph takes for `spans` lines at `width` columns.
fn paragraph_rows(spans: &[&[&str]], width: u16) -> usize {
    let text: Vec<Line> = spans
        .iter()
        .map(|l| Line::from(l.iter().map(|s| Span::raw(s.to_string())).collect::<Vec<_>>()))
        .collect();
    Paragraph::new(Text::from(text)).wrap(Wrap { trim: false }).line_count(width)
}

#[test]
fn wrapped_count_matches_the_paragraph() {
    let cases: Vec<Vec<&[&str]>> = vec![
        vec![&["hello world"]],
        vec![&["hello ", "world"]],
        vec![&["the quick brown fox jumps over the lazy dog"]],
        vec![&["a"], &[""], &["bb cc dd"]],
        vec![&["  leading spaces and   inner   gaps  "]],
        vec![&["word  ", "  split", " across spans"]],
        vec![&["supercalifragilistic expialidocious"]],
        vec![&["日本 語テ キスト mixed 文字"]],
        vec![&["Try: (+ 1 2), (list 1 2 3), (define! x 42)"]],
    ];
    for case in &cases {
        for width in 1..=24u16 {
            assert_eq!(wrapped_line_count(&lines(case), width), paragraph_rows(case, width), "{case:?} at {width}");
        }
    }
}

#[test]
fn wrapping_keeps_runs_of_whitespace() {
    let text = lines(&[&["  leading spaces and   inner   gaps  "]]);
    assert_eq!(wrapped_line_count(&text, 5), 7);
    assert_eq!(wrapped_line_count(&text, 40), 1);
}

#[test]
fn line_starts_follow_the_paragraph() {
    let text = lines(&[&["  leading spaces and   inner   gaps  "], &["next"], &["last line"]]);
    assert_eq!(line_start_rows(&text, &vec![0, 1, 2, 3], 5), vec![0, 7, 8, 10]);
}
