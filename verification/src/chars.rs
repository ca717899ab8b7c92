//! Character classes that the layout language is built on.

use vstd::prelude::*;

verus! {

/// Whether `c` has the Unicode `White_Space` property, as `char::is_whitespace`
/// decides it: the tab, line feed, vertical tab, form feed and carriage
/// return, the space, U+0085, the no-break space U+00A0, U+1680, the spaces
/// U+2000 to U+200A, the line and paragraph separators U+2028 and U+2029,
/// U+202F, U+205F and the ideographic space U+3000.
pub open spec fn spec_is_whitespace(c: char) -> bool {
    let u = c as u32;
    ||| 0x09 <= u <= 0x0D
    ||| u == 0x20
    ||| u == 0x85
    ||| u == 0xA0
    ||| u == 0x1680
    ||| 0x2000 <= u <= 0x200A
    ||| u == 0x2028
    ||| u == 0x2029
    ||| u == 0x202F
    ||| u == 0x205F
    ||| u == 0x3000
}

/// Whether `c` is in a Unicode numeric category (`Nd`, `Nl`, `No`), as
/// `char::is_numeric` decides it.
pub uninterp spec fn spec_is_numeric(c: char) -> bool;

/// Whether `c` is alphabetic or numeric in the Unicode sense, as
/// `char::is_alphanumeric` decides it.
pub uninterp spec fn spec_is_alphanumeric(c: char) -> bool;

/// Calls `char::is_whitespace`, which answers whether `c` has the Unicode
/// `White_Space` property. The contract restates that table (see
/// `spec_is_whitespace`), and for ASCII, where it holds the tab, line feed,
/// vertical tab, form feed, carriage return and the space, says so apart.
#[verifier::external_body]
pub(crate) fn is_whitespace(c: char) -> (r: bool)
    ensures
        r == spec_is_whitespace(c),
        (c as u32) < 0x80 ==> (r <==> (0x09 <= (c as u32) <= 0x0D || c == ' ')),
{
    c.is_whitespace()
}

/// Calls `char::is_numeric`. The contract ties the answer to the
/// character, and restates the Unicode numeric categories only for ASCII,
/// where they hold the ten decimal digits.
#[verifier::external_body]
pub(crate) fn is_numeric(c: char) -> (r: bool)
    ensures
        r == spec_is_numeric(c),
        (c as u32) < 0x80 ==> (r <==> ('0' <= c <= '9')),
{
    c.is_numeric()
}

/// Calls `char::is_alphanumeric`. The contract ties the answer to the
/// character, and restates the Unicode tables only for ASCII, where the
/// alphabetic and numeric characters are the letters and the digits.
#[verifier::external_body]
pub(crate) fn is_alphanumeric(c: char) -> (r: bool)
    ensures
        r == spec_is_alphanumeric(c),
        (c as u32) < 0x80 ==> (r <==> ('0' <= c <= '9' || 'A' <= c <= 'Z' || 'a' <= c <= 'z')),
{
    c.is_alphanumeric()
}

/// Calls `String::push`, which appends one character.
#[verifier::external_body]
pub(crate) fn push_char(s: &mut String, c: char)
    ensures
        final(s)@ == old(s)@.push(c),
{
    s.push(c)
}

/// A string holding exactly the character `c`.
pub fn char_string(c: char) -> (s: String)
    ensures
        s@ == seq![c],
{
    let mut s = String::new();
    push_char(&mut s, c);
    s
}

/// The number of leading elements of `s` that satisfy `p`.
pub open spec fn leading_len(s: Seq<char>, p: spec_fn(char) -> bool) -> nat
    decreases s.len(),
{
    if s.len() > 0 && p(s[0]) {
        1 + leading_len(s.drop_first(), p)
    } else {
        0
    }
}

/// The leading run is part of `s`, all of it satisfies `p`, and the element
/// after it does not.
pub proof fn lemma_leading_len_bound(s: Seq<char>, p: spec_fn(char) -> bool)
    ensures
        leading_len(s, p) <= s.len(),
        forall|i: int| 0 <= i < leading_len(s, p) ==> #[trigger] p(s[i]),
        leading_len(s, p) < s.len() ==> !p(s[leading_len(s, p) as int]),
    decreases s.len(),
{
    if s.len() > 0 && p(s[0]) {
        lemma_leading_len_bound(s.drop_first(), p);
        assert forall|i: int| 0 <= i < leading_len(s, p) implies #[trigger] p(s[i]) by {
            if i > 0 {
                assert(s[i] == s.drop_first()[i - 1]);
            }
        }
    }
}

/// Stepping over `k` leading elements that satisfy `p` shortens the run by `k`.
pub proof fn lemma_leading_len_skip(s: Seq<char>, p: spec_fn(char) -> bool, k: int)
    requires
        0 <= k <= s.len(),
        forall|i: int| 0 <= i < k ==> #[trigger] p(s[i]),
    ensures
        leading_len(s, p) == k + leading_len(s.skip(k), p),
    decreases k,
{
    if k > 0 {
        assert(p(s[0]));
        assert forall|i: int| 0 <= i < k - 1 implies #[trigger] p(s.drop_first()[i]) by {
            assert(s.drop_first()[i] == s[i + 1]);
            assert(p(s[i + 1]));
        }
        lemma_leading_len_skip(s.drop_first(), p, k - 1);
        assert(s.drop_first().skip(k - 1) =~= s.skip(k));
    } else {
        assert(s.skip(0) =~= s);
    }
}

/// Appends the characters of `s` to `v`.
pub fn push_chars(v: &mut Vec<char>, s: &str)
    ensures
        final(v)@ == old(v)@ + s@,
{
    let ghost v0 = v@;
    for c in it: s.chars()
        invariant
            v@ == v0 + it.seq().take(it.index() as int),
    {
        v.push(c);
        proof {
            assert(v@ =~= v0 + it.seq().take(it.index() as int + 1));
        }
    }
}

} // verus!
