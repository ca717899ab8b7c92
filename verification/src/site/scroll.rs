//! Scrolling a page of wrapped text: how far it can scroll, the scrollbar's
//! thumb, the arrows' look, and the hint line under the page.

use crate::chars::{is_whitespace, lemma_leading_len_skip, leading_len, push_chars, spec_is_whitespace};
use crate::lexer::whitespace_pred;
use crate::number::{decimal, decimal_string};
use crate::site::ui::string_of;
use crate::site::wrap::{lines_view, wrapped_line_count, wrapped_rows};
use vstd::prelude::*;

verus! {

/// `x - d`, or 0 below 0.
pub open spec fn sub_or_zero(x: int, d: int) -> int {
    if x >= d {
        x - d
    } else {
        0
    }
}

/// How far a page of `lines` can scroll in a text area of `width` by
/// `height` cells, borders included: the rows of the text wrapped inside
/// the borders, less the rows that show at once.
pub open spec fn max_scroll_of(lines: Seq<Seq<Seq<char>>>, width: int, height: int) -> int {
    sub_or_zero(wrapped_rows(lines, sub_or_zero(width, 2) as u16), sub_or_zero(height, 2))
}

/// Keeps the scroll position of a page of `lines` within reach, for a text
/// area of `width` by `height` cells with borders, and returns how far the
/// page can scroll.
pub fn clamp_scroll(lines: &Vec<Vec<String>>, width: u16, height: u16, scroll: &mut usize) -> (max: usize)
    ensures
        max == max_scroll_of(lines_view(lines@), width as int, height as int),
        *final(scroll) == if *old(scroll) <= max {
            *old(scroll)
        } else {
            max
        },
{
    let total = wrapped_line_count(lines, width.saturating_sub(2));
    clamp_scroll_rows(total, height, scroll)
}

/// Keeps the scroll position of a page whose text takes `total` rows within
/// reach, for a text area `height` cells high with borders, and returns how
/// far the page can scroll: the rows that do not show at once.
pub fn clamp_scroll_rows(total: usize, height: u16, scroll: &mut usize) -> (max: usize)
    ensures
        max == sub_or_zero(total as int, sub_or_zero(height as int, 2)),
        *final(scroll) == if *old(scroll) <= max {
            *old(scroll)
        } else {
            max
        },
{
    let visible_height = height.saturating_sub(2) as usize;
    let max_scroll = total.saturating_sub(visible_height);
    if *scroll > max_scroll {
        *scroll = max_scroll;
    }
    max_scroll
}

/// The size of the scrollbar's thumb on a track of `track` cells, for a
/// page that scrolls `max_scroll` rows: the share of the track the visible
/// part takes, at least one cell.
pub open spec fn thumb_size(track: int, max_scroll: int) -> int {
    let s = track * track / (track + max_scroll);
    if s >= 1 {
        s
    } else {
        1
    }
}

/// The scrollbar of a text area `height` cells high (borders included) at
/// scroll position `scroll` of `max_scroll`: the position of the thumb on
/// the track and its size, or none when the text fits or the area is too
/// low for a track.
pub open spec fn scrollbar_thumb(height: int, scroll: int, max_scroll: int) -> Option<(int, int)> {
    if max_scroll == 0 || height < 4 {
        None
    } else {
        let track = height - 2;
        let size = thumb_size(track, max_scroll);
        Some((scroll * (track - size) / max_scroll, size))
    }
}

proof fn lemma_thumb_size(track: int, max_scroll: int)
    requires
        1 <= track,
        1 <= max_scroll,
    ensures
        1 <= thumb_size(track, max_scroll) <= track,
        track * track / (track + max_scroll) <= track,
{
    assert(track * track / (track + max_scroll) <= track) by (nonlinear_arith)
        requires
            1 <= track,
            1 <= max_scroll,
    ;
}

/// While the position is within reach, the thumb lies on the track: it
/// starts at or after the track's first cell and ends at or before its last.
pub proof fn lemma_thumb_on_track(height: int, scroll: int, max_scroll: int)
    requires
        0 <= scroll <= max_scroll,
    ensures
        scrollbar_thumb(height, scroll, max_scroll) matches Some((pos, size)) ==> 0 <= pos && 1 <= size && pos
            + size <= height - 2,
{
    if max_scroll != 0 && height >= 4 {
        let track = height - 2;
        lemma_thumb_size(track, max_scroll);
        let size = thumb_size(track, max_scroll);
        assert(scroll * (track - size) / max_scroll <= track - size) by (nonlinear_arith)
            requires
                0 <= scroll <= max_scroll,
                max_scroll >= 1,
                track - size >= 0,
        ;
        assert(scroll * (track - size) / max_scroll >= 0) by (nonlinear_arith)
            requires
                0 <= scroll,
                max_scroll >= 1,
                track - size >= 0,
        ;
    }
}

/// The thumb of the scrollbar (see `scrollbar_thumb`): its first cell on
/// the track and its size.
pub fn scrollbar_thumb_of(height: u16, scroll: usize, max_scroll: usize) -> (r: Option<(usize, usize)>)
    requires
        max_scroll > 0 && height >= 4 ==> scroll * (height - 2 - thumb_size(height - 2, max_scroll as int))
            <= usize::MAX,
    ensures
        match scrollbar_thumb(height as int, scroll as int, max_scroll as int) {
            Some((pos, size)) => r == Some((pos as usize, size as usize)),
            None => r is None,
        },
{
    if max_scroll == 0 || height < 4 {
        return None;
    }
    let track: u128 = (height - 2) as u128;
    let m = max_scroll as u128;
    proof {
        lemma_thumb_size(track as int, max_scroll as int);
        assert(track * track <= 0xffff * 0xffff) by (nonlinear_arith)
            requires
                track <= 0xffff,
        ;
    }
    let q = track * track / (track + m);
    let size: u128 = if q >= 1 {
        q
    } else {
        1
    };
    proof {
        assert(scroll as int * (track - size) <= 0xffff_ffff_ffff_ffff * 0xffff) by (nonlinear_arith)
            requires
                scroll <= 0xffff_ffff_ffff_ffff,
                0 <= track - size <= 0xffff,
        ;
        assert(scroll as int * (track - size) / (max_scroll as int) <= scroll as int * (track - size))
            by (nonlinear_arith)
            requires
                max_scroll >= 1,
                scroll as int * (track - size) >= 0,
        ;
    }
    let pos = (scroll as u128) * (track - size) / m;
    Some((pos as usize, size as usize))
}

/// How a scroll arrow looks.
#[derive(Debug, Clone, Copy, PartialEq, Eq, Structural)]
pub enum ArrowLook {
    /// It can scroll and the pointer is on it.
    Hovered,
    /// It can scroll.
    Enabled,
    /// The page is at that end.
    Disabled,
}

/// The look of the up arrow (`up`) or the down arrow at scroll position
/// `scroll` of `max_scroll`, the pointer on it or not.
pub fn arrow_look(up: bool, scroll: usize, max_scroll: usize, hovered: bool) -> (l: ArrowLook)
    ensures
        l == (if (if up {
            scroll > 0
        } else {
            scroll < max_scroll
        }) {
            if hovered {
                ArrowLook::Hovered
            } else {
                ArrowLook::Enabled
            }
        } else {
            ArrowLook::Disabled
        }),
{
    let can = if up {
        scroll > 0
    } else {
        scroll < max_scroll
    };
    if can && hovered {
        ArrowLook::Hovered
    } else if can {
        ArrowLook::Enabled
    } else {
        ArrowLook::Disabled
    }
}

// ── the hint line ────────────────────────────────────────────────────────

/// The pieces of `s` between the separators `sep`, as `str::split` gives
/// them: one more than there are separators.
pub open spec fn split_on(s: Seq<char>, sep: char) -> Seq<Seq<char>>
    decreases s.len(),
{
    if s.len() == 0 {
        seq![Seq::empty()]
    } else {
        let p = split_on(s.drop_last(), sep);
        if s.last() == sep {
            p.push(Seq::empty())
        } else {
            p.update(p.len() - 1, p.last().push(s.last()))
        }
    }
}

/// The number of trailing elements of `s` that satisfy `p`.
pub open spec fn trailing_len(s: Seq<char>, p: spec_fn(char) -> bool) -> nat
    decreases s.len(),
{
    if s.len() > 0 && p(s.last()) {
        1 + trailing_len(s.drop_last(), p)
    } else {
        0
    }
}

/// `s` without its leading and trailing whitespace, as `str::trim` leaves it.
pub open spec fn trimmed(s: Seq<char>) -> Seq<char> {
    let t = s.skip(leading_len(s, whitespace_pred()) as int);
    t.take(t.len() - trailing_len(t, whitespace_pred()))
}

/// The pieces `xs` with `sep` between each two, as `join` gives them.
pub open spec fn joined(xs: Seq<Seq<char>>, sep: Seq<char>) -> Seq<char>
    decreases xs.len(),
{
    if xs.len() == 0 {
        Seq::empty()
    } else if xs.len() == 1 {
        xs[0]
    } else {
        joined(xs.drop_last(), sep) + sep + xs.last()
    }
}

/// Where the page is: `position/last` counting from one, or a dash when it
/// does not scroll.
pub open spec fn scroll_indicator(scroll: int, max_scroll: int) -> Seq<char> {
    if max_scroll > 0 {
        decimal((scroll + 1) as nat) + "/"@ + decimal((max_scroll + 1) as nat)
    } else {
        "─"@
    }
}

/// The hint with its first `drop` segments left out, then the indicator.
pub open spec fn hint_candidate(segments: Seq<Seq<char>>, drop: int, indicator: Seq<char>) -> Seq<char> {
    joined(segments.skip(drop).map_values(|x: Seq<char>| trimmed(x)), " │ "@) + " │ "@ + indicator
}

/// The first of the shortened hints, leaving out `drop` segments or more,
/// that fits in `available` characters; the indicator alone when none does.
pub open spec fn first_fitting(segments: Seq<Seq<char>>, drop: int, indicator: Seq<char>, available: int) -> Seq<char>
    decreases segments.len() - drop,
{
    if drop < 1 || drop >= segments.len() {
        indicator
    } else if hint_candidate(segments, drop, indicator).len() <= available {
        hint_candidate(segments, drop, indicator)
    } else {
        first_fitting(segments, drop + 1, indicator, available)
    }
}

/// The line under a scrolling page in `available` characters: the hint and
/// where the page is; when that is too long, the hint loses segments (split
/// at `│`) from the front; when nothing fits, only where the page is.
pub open spec fn scroll_hint(hint: Seq<char>, scroll: int, max_scroll: int, available: int) -> Seq<char> {
    let indicator = scroll_indicator(scroll, max_scroll);
    let full = hint + " │ "@ + indicator;
    if full.len() <= available {
        full
    } else {
        first_fitting(split_on(hint, '│'), 1, indicator, available)
    }
}

proof fn lemma_split_on_len(s: Seq<char>, sep: char)
    ensures
        split_on(s, sep).len() >= 1,
    decreases s.len(),
{
    if s.len() > 0 {
        lemma_split_on_len(s.drop_last(), sep);
    }
}

/// Stepping back over `k` trailing elements that satisfy `p`.
proof fn lemma_trailing_len_skip(s: Seq<char>, p: spec_fn(char) -> bool, k: int)
    requires
        0 <= k <= s.len(),
        forall|i: int| s.len() - k <= i < s.len() ==> #[trigger] p(s[i]),
    ensures
        trailing_len(s, p) == k + trailing_len(s.take(s.len() - k), p),
    decreases k,
{
    if k > 0 {
        assert(p(s[s.len() - 1]));
        assert forall|i: int| s.drop_last().len() - (k - 1) <= i < s.drop_last().len() implies #[trigger] p(
            s.drop_last()[i],
        ) by {
            assert(s.drop_last()[i] == s[i]);
            assert(p(s[i]));
        }
        lemma_trailing_len_skip(s.drop_last(), p, k - 1);
        assert(s.drop_last().take(s.drop_last().len() - (k - 1)) =~= s.take(s.len() - k));
    } else {
        assert(s.take(s.len() - 0) =~= s);
    }
}

/// `s` without leading and trailing whitespace (see `trimmed`).
pub(crate) fn trim_chars(s: &Vec<char>) -> (t: Vec<char>)
    ensures
        t@ == trimmed(s@),
{
    let mut start: usize = 0;
    while start < s.len() && is_whitespace(s[start])
        invariant
            start <= s@.len(),
            forall|i: int| 0 <= i < start ==> #[trigger] spec_is_whitespace(s@[i]),
        decreases s@.len() - start,
    {
        start = start + 1;
    }
    proof {
        lemma_leading_len_skip(s@, whitespace_pred(), start as int);
        let rest = s@.skip(start as int);
        if rest.len() > 0 {
            assert(rest[0] == s@[start as int]);
        }
        assert(leading_len(rest, whitespace_pred()) == 0);
    }
    let ghost t = s@.skip(start as int);
    let mut end: usize = s.len();
    while end > start && is_whitespace(s[end - 1])
        invariant
            start <= end <= s@.len(),
            t == s@.skip(start as int),
            forall|i: int| end <= i < s@.len() ==> #[trigger] spec_is_whitespace(s@[i]),
        decreases end,
    {
        end = end - 1;
    }
    proof {
        let k = (s@.len() - end) as int;
        assert forall|i: int| t.len() - k <= i < t.len() implies #[trigger] whitespace_pred()(t[i]) by {
            assert(t[i] == s@[i + start]);
        }
        lemma_trailing_len_skip(t, whitespace_pred(), k);
        let u = t.take(t.len() - k);
        if u.len() > 0 {
            assert(u.last() == s@[end - 1]);
        }
        assert(trailing_len(u, whitespace_pred()) == 0);
    }
    let mut r: Vec<char> = Vec::new();
    let mut i: usize = start;
    while i < end
        invariant
            start <= i <= end <= s@.len(),
            r@ == s@.subrange(start as int, i as int),
        decreases end - i,
    {
        r.push(s[i]);
        i = i + 1;
        proof {
            assert(r@ =~= s@.subrange(start as int, i as int));
        }
    }
    proof {
        assert(r@ =~= t.take(t.len() - (s@.len() - end)));
    }
    r
}

/// The pieces of `s` between the separators `sep` (see `split_on`).
pub(crate) fn split_chars(s: &Vec<char>, sep: char) -> (parts: Vec<Vec<char>>)
    ensures
        parts@.map_values(|p: Vec<char>| p@) == split_on(s@, sep),
{
    let mut done: Vec<Vec<char>> = Vec::new();
    let mut cur: Vec<char> = Vec::new();
    let mut i: usize = 0;
    proof {
        assert(done@.map_values(|p: Vec<char>| p@).push(cur@) =~= split_on(s@.take(0), sep));
    }
    while i < s.len()
        invariant
            i <= s@.len(),
            done@.map_values(|p: Vec<char>| p@).push(cur@) == split_on(s@.take(i as int), sep),
        decreases s@.len() - i,
    {
        let c = s[i];
        let ghost d0 = done@.map_values(|p: Vec<char>| p@);
        let ghost c0 = cur@;
        proof {
            assert(s@.take(i as int + 1).drop_last() =~= s@.take(i as int));
            assert(s@.take(i as int + 1).last() == c);
        }
        if c == sep {
            let finished = cur;
            done.push(finished);
            cur = Vec::new();
            proof {
                assert(done@.map_values(|p: Vec<char>| p@) =~= d0.push(c0));
                assert(done@.map_values(|p: Vec<char>| p@).push(cur@) =~= d0.push(c0).push(Seq::empty()));
            }
        } else {
            cur.push(c);
            proof {
                assert(d0.push(c0.push(c)) =~= d0.push(c0).update(d0.len() as int, c0.push(c)));
            }
        }
        i = i + 1;
    }
    done.push(cur);
    proof {
        assert(s@.take(i as int) =~= s@);
    }
    done
}

/// The trimmed segments `segments[drop..]`, joined by ` │ `.
fn join_trimmed(segments: &Vec<Vec<char>>, drop: usize) -> (r: Vec<char>)
    requires
        drop <= segments@.len(),
    ensures
        r@ == joined(
            segments@.map_values(|p: Vec<char>| p@).skip(drop as int).map_values(|x: Seq<char>| trimmed(x)),
            " │ "@,
        ),
{
    let ghost all = segments@.map_values(|p: Vec<char>| p@).skip(drop as int).map_values(
        |x: Seq<char>| trimmed(x),
    );
    let mut r: Vec<char> = Vec::new();
    let mut k: usize = drop;
    proof {
        assert(all.take(0) =~= Seq::<Seq<char>>::empty());
    }
    while k < segments.len()
        invariant
            drop <= k <= segments@.len(),
            all == segments@.map_values(|p: Vec<char>| p@).skip(drop as int).map_values(
                |x: Seq<char>| trimmed(x),
            ),
            r@ == joined(all.take(k - drop), " │ "@),
        decreases segments@.len() - k,
    {
        let piece = trim_chars(&segments[k]);
        let ghost r0 = r@;
        if k > drop {
            push_chars(&mut r, " │ ");
        }
        let ghost r1 = r@;
        let mut j: usize = 0;
        while j < piece.len()
            invariant
                j <= piece@.len(),
                r@ == r1 + piece@.take(j as int),
            decreases piece@.len() - j,
        {
            r.push(piece[j]);
            j = j + 1;
            proof {
                assert(r@ =~= r1 + piece@.take(j as int));
            }
        }
        proof {
            assert(piece@.take(j as int) =~= piece@);
            let n = (k - drop) as int;
            assert(all[n] == piece@);
            assert(all.take(n + 1).drop_last() =~= all.take(n));
            assert(all.take(n + 1).last() == all[n]);
            if n == 0 {
                assert(all.take(1)[0] == all[0]);
                assert(r@ =~= piece@);
            }
        }
        k = k + 1;
    }
    proof {
        assert(all.take(k - drop) =~= all);
    }
    r
}

/// The line under a scrolling page (see `scroll_hint`).
pub fn scroll_hint_text(hint: &str, scroll: usize, max_scroll: usize, available: usize) -> (s: String)
    requires
        max_scroll > 0 ==> scroll < usize::MAX && max_scroll < usize::MAX,
    ensures
        s@ == scroll_hint(hint@, scroll as int, max_scroll as int, available as int),
{
    let indicator: String = if max_scroll > 0 {
        let mut ind = decimal_string((scroll + 1) as u64);
        ind.append("/");
        ind.append(decimal_string((max_scroll + 1) as u64).as_str());
        ind
    } else {
        "─".to_owned()
    };
    let mut full = hint.to_owned();
    full.append(" │ ");
    full.append(indicator.as_str());
    if full.as_str().unicode_len() <= available {
        return full;
    }
    let mut hint_chars: Vec<char> = Vec::new();
    push_chars(&mut hint_chars, hint);
    let segments = split_chars(&hint_chars, '│');
    let ghost segs = segments@.map_values(|p: Vec<char>| p@);
    let mut drop: usize = 1;
    while drop < segments.len()
        invariant
            1 <= drop,
            segs == segments@.map_values(|p: Vec<char>| p@),
            scroll_hint(hint@, scroll as int, max_scroll as int, available as int) == first_fitting(
                segs,
                1,
                indicator@,
                available as int,
            ),
            first_fitting(segs, 1, indicator@, available as int) == first_fitting(
                segs,
                drop as int,
                indicator@,
                available as int,
            ),
        decreases segments@.len() - drop,
    {
        let mut candidate = join_trimmed(&segments, drop);
        push_chars(&mut candidate, " │ ");
        push_chars(&mut candidate, indicator.as_str());
        proof {
            assert(candidate@ == hint_candidate(segs, drop as int, indicator@));
        }
        if candidate.len() <= available {
            return string_of(&candidate);
        }
        drop = drop + 1;
    }
    indicator
}

proof fn lemma_first_fitting_fits(segments: Seq<Seq<char>>, drop: int, indicator: Seq<char>, available: int)
    ensures
        first_fitting(segments, drop, indicator, available).len() <= available || first_fitting(
            segments,
            drop,
            indicator,
            available,
        ) == indicator,
    decreases segments.len() - drop,
{
    if 1 <= drop < segments.len() && hint_candidate(segments, drop, indicator).len() > available {
        lemma_first_fitting_fits(segments, drop + 1, indicator, available);
    }
}

/// The line under a page fits in the available width, unless even the
/// shortest form does not: then it is where the page is, alone.
pub proof fn lemma_hint_fits(hint: Seq<char>, scroll: int, max_scroll: int, available: int)
    ensures
        scroll_hint(hint, scroll, max_scroll, available).len() <= available || scroll_hint(
            hint,
            scroll,
            max_scroll,
            available,
        ) == scroll_indicator(scroll, max_scroll),
{
    lemma_first_fitting_fits(split_on(hint, '│'), 1, scroll_indicator(scroll, max_scroll), available);
}


/// The thumb follows the scroll position: it is at the top of the track at
/// the start, at the bottom at the end, and it never moves up as the page
/// scrolls down; its size does not depend on the position.
pub proof fn lemma_thumb_follows_scroll(height: int, s1: int, s2: int, max_scroll: int)
    requires
        height >= 4,
        max_scroll >= 1,
        0 <= s1 <= s2 <= max_scroll,
    ensures
        scrollbar_thumb(height, 0, max_scroll) matches Some((pos, _)) && pos == 0,
        scrollbar_thumb(height, max_scroll, max_scroll) matches Some((pos, size)) && pos + size == height - 2,
        scrollbar_thumb(height, s1, max_scroll) matches Some((p1, z1)) && scrollbar_thumb(
            height,
            s2,
            max_scroll,
        ) matches Some((p2, z2)) && p1 <= p2 && z1 == z2,
{
    let track = height - 2;
    lemma_thumb_size(track, max_scroll);
    let size = thumb_size(track, max_scroll);
    assert(max_scroll * (track - size) / max_scroll == track - size) by (nonlinear_arith)
        requires
            max_scroll >= 1,
    ;
    assert(0 * (track - size) / max_scroll == 0);
    assert(s1 * (track - size) <= s2 * (track - size)) by (nonlinear_arith)
        requires
            s1 <= s2,
            track - size >= 0,
    ;
    assert(s1 * (track - size) / max_scroll <= s2 * (track - size) / max_scroll) by (nonlinear_arith)
        requires
            s1 * (track - size) <= s2 * (track - size),
            max_scroll >= 1,
    ;
}

} // verus!
