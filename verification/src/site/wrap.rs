//! How many rows a block of text takes once `ratatui`'s paragraph widget
//! word-wraps it to a width (words move whole to the next row, and
//! whitespace is kept, as `Wrap { trim: false }` has it).

use ratatui::text::{Line, Span, Text};
use ratatui::widgets::{Paragraph, Wrap};
use vstd::prelude::*;
use vstd::slice::slice_subrange;

verus! {

/// The rows a `ratatui` paragraph of `lines`, each line given by the text
/// of its spans, takes when word-wrapped with `Wrap { trim: false }` to
/// `width` columns, as `Paragraph::line_count` counts them.
pub uninterp spec fn paragraph_rows(lines: Seq<Seq<Seq<char>>>, width: u16) -> usize;

/// Calls `Paragraph::line_count` of `ratatui` on a paragraph of `lines`
/// (one `Line` per entry, one raw `Span` per string) wrapped with
/// `Wrap { trim: false }`. The contract names the answer and says nothing
/// of the wrapping algorithm behind it.
#[verifier::external_body]
fn paragraph_line_count(lines: &[Vec<String>], width: u16) -> (r: usize)
    ensures
        r == paragraph_rows(lines_view(lines@), width),
{
    let text: Vec<Line> = lines.iter().map(
        |l| Line::from(l.iter().map(|s| Span::raw(s.as_str())).collect::<Vec<Span>>()),
    ).collect();
    Paragraph::new(Text::from(text)).wrap(Wrap { trim: false }).line_count(width)
}

/// The rows the lines take when wrapped to `wrap_width` columns; a width of
/// zero means no wrapping, one row per line.
pub open spec fn wrapped_rows(lines: Seq<Seq<Seq<char>>>, wrap_width: u16) -> int {
    if wrap_width == 0 {
        lines.len() as int
    } else {
        paragraph_rows(lines, wrap_width) as int
    }
}

/// The spans of each line, as text.
pub open spec fn lines_view(lines: Seq<Vec<String>>) -> Seq<Seq<Seq<char>>> {
    lines.map_values(|l: Vec<String>| spans_view(l@))
}

pub open spec fn spans_view(spans: Seq<String>) -> Seq<Seq<char>> {
    spans.map_values(|s: String| s@)
}

/// The rows `lines` take when each is word-wrapped to `wrap_width` columns
/// (see `wrapped_rows`); each line is given by the text of its spans.
pub fn wrapped_line_count(lines: &Vec<Vec<String>>, wrap_width: u16) -> (n: usize)
    ensures
        n == wrapped_rows(lines_view(lines@), wrap_width),
{
    if wrap_width == 0 {
        lines.len()
    } else {
        paragraph_line_count(lines.as_slice(), wrap_width)
    }
}

/// The rows the first `count` of `lines` take when wrapped to `wrap_width`
/// columns: the row at which line `count` starts.
pub fn wrapped_prefix_count(lines: &Vec<Vec<String>>, count: usize, wrap_width: u16) -> (n: usize)
    requires
        count <= lines@.len(),
    ensures
        n == wrapped_rows(lines_view(lines@.take(count as int)), wrap_width),
{
    if wrap_width == 0 {
        count
    } else {
        let prefix = slice_subrange(lines.as_slice(), 0, count);
        proof {
            assert(prefix@ =~= lines@.take(count as int));
        }
        paragraph_line_count(prefix, wrap_width)
    }
}

} // verus!
