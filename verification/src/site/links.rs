//! Opening a link: the script the page runs to open it in a new tab.

use crate::chars::push_chars;
use crate::site::ui::string_of;
use vstd::prelude::*;

verus! {

/// The character `c` inside a single-quoted script string: backslash,
/// quotes and line breaks get a backslash escape.
pub open spec fn escaped_char(c: char) -> Seq<char> {
    if c == '\\' {
        seq!['\\', '\\']
    } else if c == '\'' {
        seq!['\\', '\'']
    } else if c == '"' {
        seq!['\\', '"']
    } else if c == '\n' {
        seq!['\\', 'n']
    } else if c == '\r' {
        seq!['\\', 'r']
    } else {
        seq![c]
    }
}

/// `s` with every character escaped (see `escaped_char`).
pub open spec fn escaped(s: Seq<char>) -> Seq<char>
    decreases s.len(),
{
    if s.len() == 0 {
        Seq::empty()
    } else {
        escaped(s.drop_last()) + escaped_char(s.last())
    }
}

/// The script that opens `url` in a new tab half a second later, once the
/// click that asked for it is over.
pub open spec fn open_url_script_spec(url: Seq<char>) -> Seq<char> {
    "setTimeout(function(){window.open('"@ + escaped(url) + "','_blank','noopener')},500)"@
}

/// The script that opens `url` (see `open_url_script_spec`).
pub fn open_url_script(url: &str) -> (s: String)
    ensures
        s@ == open_url_script_spec(url@),
{
    let mut chars: Vec<char> = Vec::new();
    push_chars(&mut chars, url);
    let mut out: Vec<char> = Vec::new();
    push_chars(&mut out, "setTimeout(function(){window.open('");
    let ghost prefix = out@;
    let mut i: usize = 0;
    while i < chars.len()
        invariant
            i <= chars@.len(),
            out@ == prefix + escaped(chars@.take(i as int)),
        decreases chars@.len() - i,
    {
        let c = chars[i];
        let ghost before = out@;
        if c == '\\' {
            out.push('\\');
            out.push('\\');
        } else if c == '\'' {
            out.push('\\');
            out.push('\'');
        } else if c == '"' {
            out.push('\\');
            out.push('"');
        } else if c == '\n' {
            out.push('\\');
            out.push('n');
        } else if c == '\r' {
            out.push('\\');
            out.push('r');
        } else {
            out.push(c);
        }
        proof {
            assert(chars@.take(i as int + 1).drop_last() =~= chars@.take(i as int));
            assert(chars@.take(i as int + 1).last() == c);
            assert(out@ =~= before + escaped_char(c));
            assert(prefix + escaped(chars@.take(i as int + 1)) =~= prefix + escaped(chars@.take(i as int))
                + escaped_char(c));
        }
        i = i + 1;
    }
    proof {
        assert(chars@.take(i as int) =~= chars@);
    }
    push_chars(&mut out, "','_blank','noopener')},500)");
    string_of(&out)
}


/// Escaping works character by character: text without a backslash, quote
/// or line break is kept as it is, the escape of two texts side by side is
/// their escapes side by side, and no line break is left in it.
pub proof fn lemma_escaping(a: Seq<char>, b: Seq<char>)
    ensures
        (forall|i: int|
            0 <= i < a.len() ==> #[trigger] a[i] != '\\' && a[i] != '\'' && a[i] != '"' && a[i] != '\n'
                && a[i] != '\r') ==> escaped(a) == a,
        escaped(a + b) == escaped(a) + escaped(b),
        forall|i: int| 0 <= i < escaped(a).len() ==> #[trigger] escaped(a)[i] != '\n' && escaped(a)[i] != '\r',
    decreases b.len(), a.len(),
{
    if b.len() == 0 {
        assert(a + b =~= a);
        assert(escaped(a) + escaped(b) =~= escaped(a));
    } else {
        lemma_escaping(a, b.drop_last());
        assert((a + b).drop_last() =~= a + b.drop_last());
        assert((a + b).last() == b.last());
        assert(escaped(a) + escaped(b.drop_last()) + escaped_char(b.last()) =~= escaped(a) + (escaped(
            b.drop_last(),
        ) + escaped_char(b.last())));
    }
    if a.len() > 0 {
        lemma_escaping(a.drop_last(), b);
        let d = a.drop_last();
        if forall|i: int|
            0 <= i < a.len() ==> #[trigger] a[i] != '\\' && a[i] != '\'' && a[i] != '"' && a[i] != '\n' && a[i]
                != '\r' {
            assert forall|i: int| 0 <= i < d.len() implies #[trigger] d[i] != '\\' && d[i] != '\'' && d[i] != '"'
                && d[i] != '\n' && d[i] != '\r' by {
                assert(d[i] == a[i]);
            }
            assert(a[a.len() - 1] == a.last());
            assert(d.push(a.last()) =~= a);
        }
        assert forall|i: int| 0 <= i < escaped(a).len() implies #[trigger] escaped(a)[i] != '\n' && escaped(
            a,
        )[i] != '\r' by {
            if i < escaped(d).len() {
                assert(escaped(a)[i] == escaped(d)[i]);
            }
        }
    }
}

} // verus!
