//! The text pages are made of sections: a heading, a blank line, the body
//! line by line, and a blank line.

use crate::chars::push_chars;
use crate::site::scroll::{split_chars, split_on};
use crate::site::ui::string_of;
use vstd::prelude::*;

verus! {

/// A line without the carriage return that may end it.
pub open spec fn without_cr(l: Seq<char>) -> Seq<char> {
    if l.len() > 0 && l.last() == '\r' {
        l.drop_last()
    } else {
        l
    }
}

/// The lines of `s`, as `str::lines` gives them: the pieces between line
/// feeds, each without a final carriage return, and no empty last piece.
pub open spec fn text_lines_spec(s: Seq<char>) -> Seq<Seq<char>> {
    let parts = split_on(s, '\n');
    let kept = if parts.len() > 0 && parts.last().len() == 0 {
        parts.drop_last()
    } else {
        parts
    };
    kept.map_values(|l: Seq<char>| without_cr(l))
}

/// The lines of a section: the heading, a blank line, the body's lines and
/// a blank line.
pub open spec fn section_lines_spec(title: Seq<char>, body: Seq<char>) -> Seq<Seq<char>> {
    seq![title, Seq::empty()] + text_lines_spec(body) + seq![Seq::<char>::empty()]
}

pub open spec fn strings_view(v: Seq<String>) -> Seq<Seq<char>> {
    v.map_values(|s: String| s@)
}

proof fn lemma_split_nonempty(s: Seq<char>, sep: char)
    ensures
        split_on(s, sep).len() >= 1,
    decreases s.len(),
{
    if s.len() > 0 {
        lemma_split_nonempty(s.drop_last(), sep);
    }
}

/// The lines of `s` (see `text_lines_spec`).
pub fn text_lines(s: &str) -> (lines: Vec<String>)
    ensures
        strings_view(lines@) == text_lines_spec(s@),
{
    let mut chars: Vec<char> = Vec::new();
    push_chars(&mut chars, s);
    let parts = split_chars(&chars, '\n');
    let ghost pv = parts@.map_values(|p: Vec<char>| p@);
    proof {
        lemma_split_nonempty(s@, '\n');
    }
    let n = if parts.len() > 0 && parts[parts.len() - 1].len() == 0 {
        parts.len() - 1
    } else {
        parts.len()
    };
    let ghost kept = if pv.len() > 0 && pv.last().len() == 0 {
        pv.drop_last()
    } else {
        pv
    };
    proof {
        if parts@.len() > 0 {
            assert(pv.last() == parts@[parts@.len() - 1]@);
        }
        assert(kept.len() == n);
    }
    let mut lines: Vec<String> = Vec::new();
    let mut i: usize = 0;
    while i < n
        invariant
            i <= n <= parts@.len(),
            pv == parts@.map_values(|p: Vec<char>| p@),
            kept.len() == n,
            forall|k: int| 0 <= k < n ==> #[trigger] kept[k] == pv[k],
            strings_view(lines@) == kept.take(i as int).map_values(|l: Seq<char>| without_cr(l)),
        decreases n - i,
    {
        let part = &parts[i];
        let len = part.len();
        let keep = if len > 0 && part[len - 1] == '\r' {
            len - 1
        } else {
            len
        };
        let mut line: Vec<char> = Vec::new();
        let mut j: usize = 0;
        while j < keep
            invariant
                j <= keep <= part@.len(),
                line@ == part@.take(j as int),
            decreases keep - j,
        {
            line.push(part[j]);
            j = j + 1;
            proof {
                assert(line@ =~= part@.take(j as int));
            }
        }
        let ghost before = strings_view(lines@);
        lines.push(string_of(&line));
        proof {
            assert(kept[i as int] == part@);
            if len > 0 && part@[len - 1] == '\r' {
                assert(part@.take(keep as int) =~= part@.drop_last());
            } else {
                assert(part@.take(keep as int) =~= part@);
            }
            assert(strings_view(lines@) =~= before.push(without_cr(part@)));
            assert(kept.take(i as int + 1).map_values(|l: Seq<char>| without_cr(l)) =~= kept.take(
                i as int,
            ).map_values(|l: Seq<char>| without_cr(l)).push(without_cr(kept[i as int])));
        }
        i = i + 1;
    }
    proof {
        assert(kept.take(i as int) =~= kept);
    }
    lines
}

/// The lines of a section (see `section_lines_spec`).
pub fn section_lines(title: &str, body: &str) -> (lines: Vec<String>)
    ensures
        strings_view(lines@) == section_lines_spec(title@, body@),
{
    let mut lines: Vec<String> = Vec::new();
    lines.push(title.to_owned());
    lines.push(String::new());
    let ghost head = strings_view(lines@);
    proof {
        assert(head =~= seq![title@, Seq::<char>::empty()]);
    }
    let body_lines = text_lines(body);
    let ghost bv = strings_view(body_lines@);
    let mut i: usize = 0;
    while i < body_lines.len()
        invariant
            i <= body_lines@.len(),
            bv == strings_view(body_lines@),
            strings_view(lines@) == head + bv.take(i as int),
        decreases body_lines@.len() - i,
    {
        let ghost before = strings_view(lines@);
        let line = body_lines[i].clone();
        lines.push(line);
        proof {
            assert(line@ == bv[i as int]);
            assert(strings_view(lines@) =~= before.push(bv[i as int]));
            assert(bv.take(i as int + 1) =~= bv.take(i as int).push(bv[i as int]));
        }
        i = i + 1;
    }
    let ghost before = strings_view(lines@);
    lines.push(String::new());
    proof {
        assert(bv.take(i as int) =~= bv);
        assert(strings_view(lines@) =~= before.push(Seq::<char>::empty()));
        assert(strings_view(lines@) =~= section_lines_spec(title@, body@));
    }
    lines
}

} // verus!
