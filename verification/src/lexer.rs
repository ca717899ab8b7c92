//! The lexer of the layout language.
//!
//! A layout file is a sequence of tokens separated by optional whitespace:
//! one-character symbols (`: - | [ ] { } ( ) , = @`), numbers written `$12`,
//! identifiers written `#name`, quoted names (`'x'` or `"x"`), and plain names.

use crate::chars::{
    char_string, is_alphanumeric, is_numeric, is_whitespace, lemma_leading_len_bound,
    lemma_leading_len_skip, leading_len, push_char, spec_is_alphanumeric, spec_is_numeric,
    spec_is_whitespace,
};
use vstd::prelude::*;

verus! {

#[derive(Debug, PartialEq, Eq, Clone, Copy, Structural)]
pub enum TokenType {
    LineHead,  // ":"
    LineTail,  // "-"
    Split,  // "|"
    Name,
    Number,  // "$12"
    LBracket,  // "["
    RBracket,  // "]"
    LBrace,  // "{"
    RBrace,  // "}"
    LParen,  // "("
    RParen,  // ")"
    Comma,  // ","
    Equal,  // "="
    Ident,  // "#a"
    At,  // "@"
}

#[derive(Debug, PartialEq, Clone)]
pub struct Token {
    pub token_type: TokenType,
    pub value: String,
}

impl View for Token {
    type V = (TokenType, Seq<char>);

    open spec fn view(&self) -> (TokenType, Seq<char>) {
        (self.token_type, self.value@)
    }
}

/// The characters that end a plain name and cannot start one.
pub open spec fn is_reserved(c: char) -> bool {
    ||| c == ':'
    ||| c == '-'
    ||| c == '|'
    ||| c == '\''
    ||| c == '['
    ||| c == ']'
    ||| c == '{'
    ||| c == '}'
    ||| c == '('
    ||| c == ')'
    ||| c == '$'
    ||| c == ','
    ||| c == '='
    ||| c == '#'
    ||| c == '@'
}

/// The token type of a one-character symbol token.
pub open spec fn symbol_type(c: char) -> Option<TokenType> {
    if c == ':' {
        Some(TokenType::LineHead)
    } else if c == '-' {
        Some(TokenType::LineTail)
    } else if c == '|' {
        Some(TokenType::Split)
    } else if c == '[' {
        Some(TokenType::LBracket)
    } else if c == ']' {
        Some(TokenType::RBracket)
    } else if c == '{' {
        Some(TokenType::LBrace)
    } else if c == '}' {
        Some(TokenType::RBrace)
    } else if c == '(' {
        Some(TokenType::LParen)
    } else if c == ')' {
        Some(TokenType::RParen)
    } else if c == '=' {
        Some(TokenType::Equal)
    } else if c == ',' {
        Some(TokenType::Comma)
    } else if c == '@' {
        Some(TokenType::At)
    } else {
        None
    }
}

pub open spec fn whitespace_pred() -> spec_fn(char) -> bool {
    |c: char| spec_is_whitespace(c)
}

/// Characters of a plain name.
pub open spec fn plain_pred() -> spec_fn(char) -> bool {
    |c: char| !spec_is_whitespace(c) && !is_reserved(c)
}

/// Characters of a number after `$`.
pub open spec fn number_pred() -> spec_fn(char) -> bool {
    |c: char| spec_is_numeric(c) && !is_reserved(c)
}

/// Characters of an identifier after `#`.
pub open spec fn ident_pred() -> spec_fn(char) -> bool {
    |c: char| spec_is_alphanumeric(c) || c == '_' || c == '-' || c == '?'
}

/// Characters inside a name quoted by `q`.
pub open spec fn unquote_pred(q: char) -> spec_fn(char) -> bool {
    |c: char| c != q
}

/// The input with its leading whitespace removed.
pub open spec fn skip_whitespace(s: Seq<char>) -> Seq<char> {
    s.skip(leading_len(s, whitespace_pred()) as int)
}

/// One step of the lexer on the input `s`: `None` when only whitespace is
/// left, otherwise the next token (its type and text) and the input after it.
pub open spec fn lex_step(s: Seq<char>) -> Option<(TokenType, Seq<char>, Seq<char>)> {
    let t = skip_whitespace(s);
    if t.len() == 0 {
        None
    } else {
        let c = t[0];
        let u = t.drop_first();
        if symbol_type(c) is Some {
            Some((symbol_type(c)->0, seq![c], u))
        } else if c == '$' {
            let n = leading_len(u, number_pred()) as int;
            Some((TokenType::Number, u.take(n), u.skip(n)))
        } else if c == '#' {
            let n = leading_len(u, ident_pred()) as int;
            Some((TokenType::Ident, u.take(n), u.skip(n)))
        } else if c == '\'' || c == '"' {
            // The closing quote is consumed when there is one.
            let n = leading_len(u, unquote_pred(c)) as int;
            Some((TokenType::Name, u.take(n), if n < u.len() { u.skip(n + 1) } else { u.skip(n) }))
        } else {
            let n = leading_len(t, plain_pred()) as int;
            Some((TokenType::Name, t.take(n), t.skip(n)))
        }
    }
}

/// Each lexing step consumes at least one character.
pub proof fn lemma_lex_step_shrinks(s: Seq<char>)
    ensures
        lex_step(s) matches Some((_, _, rest)) ==> rest.len() < s.len(),
{
    let k = leading_len(s, whitespace_pred());
    lemma_leading_len_bound(s, whitespace_pred());
    let t = skip_whitespace(s);
    if t.len() > 0 {
        let u = t.drop_first();
        lemma_leading_len_bound(u, number_pred());
        lemma_leading_len_bound(u, ident_pred());
        lemma_leading_len_bound(u, unquote_pred(t[0]));
        lemma_leading_len_bound(t, plain_pred());
    }
}

/// The tokens of the input `s`, in order.
pub open spec fn lex(s: Seq<char>) -> Seq<(TokenType, Seq<char>)>
    decreases s.len(),
{
    match lex_step(s) {
        None => Seq::empty(),
        Some((ty, v, rest)) => {
            proof {
                lemma_lex_step_shrinks(s);
            }
            seq![(ty, v)] + lex(rest)
        },
    }
}

/// Whether `c` is one of the reserved characters.
pub fn is_reserved_symbol(c: char) -> (r: bool)
    ensures
        r == is_reserved(c),
{
    c == ':' || c == '-' || c == '|' || c == '\'' || c == '[' || c == ']' || c == '{' || c == '}'
        || c == '(' || c == ')' || c == '$' || c == ',' || c == '=' || c == '#' || c == '@'
}

pub struct Lexer {
    src: Vec<char>,
    pos: usize,
}

impl View for Lexer {
    type V = Seq<char>;

    /// The input that is still to be read.
    closed spec fn view(&self) -> Seq<char> {
        self.src@.skip(self.pos as int)
    }
}

impl Lexer {
    #[verifier::type_invariant]
    spec fn inv(self) -> bool {
        self.pos <= self.src@.len()
    }

    /// A lexer that reads `src` from its start.
    pub fn new(src: &str) -> (lexer: Self)
        ensures
            lexer@ == src@,
    {
        let mut chars: Vec<char> = Vec::new();
        for c in it: src.chars()
            invariant
                chars@ == it.seq().take(it.index() as int),
        {
            chars.push(c);
        }
        Lexer { src: chars, pos: 0 }
    }
}


/// The token type of a one-character symbol, if `c` is one.
pub fn symbol_token_type(c: char) -> (r: Option<TokenType>)
    ensures
        r == symbol_type(c),
{
    if c == ':' {
        Some(TokenType::LineHead)
    } else if c == '-' {
        Some(TokenType::LineTail)
    } else if c == '|' {
        Some(TokenType::Split)
    } else if c == '[' {
        Some(TokenType::LBracket)
    } else if c == ']' {
        Some(TokenType::RBracket)
    } else if c == '{' {
        Some(TokenType::LBrace)
    } else if c == '}' {
        Some(TokenType::RBrace)
    } else if c == '(' {
        Some(TokenType::LParen)
    } else if c == ')' {
        Some(TokenType::RParen)
    } else if c == '=' {
        Some(TokenType::Equal)
    } else if c == ',' {
        Some(TokenType::Comma)
    } else if c == '@' {
        Some(TokenType::At)
    } else {
        None
    }
}

impl Lexer {
    /// The next token, or `None` once only whitespace is left. Whitespace
    /// before the token is skipped, and the token's characters are consumed.
    pub fn next_token(&mut self) -> (r: Option<Token>)
        ensures
            match lex_step(old(self)@) {
                None => r is None && final(self)@.len() == 0,
                Some((ty, v, rest)) => r matches Some(t) && t@ == (ty, v) && final(self)@ == rest,
            },
            r is Some ==> final(self)@.len() < old(self)@.len(),
    {
        proof {
            lemma_lex_step_shrinks(self@);
        }
        self.consume_whitespace();
        proof {
            use_type_invariant(&*self);
        }
        if self.pos >= self.src.len() {
            return None;
        }
        let c = self.src[self.pos];
        let ghost t = self@;
        proof {
            assert(t[0] == c);
        }
        match symbol_token_type(c) {
            Some(ty) => {
                self.pos = self.pos + 1;
                proof {
                    assert(self@ =~= t.drop_first());
                }
                return Some(Token { token_type: ty, value: char_string(c) });
            },
            None => {},
        }
        if c == '$' {
            self.pos = self.pos + 1;
            proof {
                assert(self@ =~= t.drop_first());
            }
            Some(self.collect_number())
        } else if c == '#' {
            self.pos = self.pos + 1;
            proof {
                assert(self@ =~= t.drop_first());
            }
            Some(self.collect_ident())
        } else if c == '\'' || c == '\"' {
            Some(self.collect_quoted_name(c))
        } else {
            Some(self.collect_plain_name())
        }
    }

    fn consume_whitespace(&mut self)
        ensures
            final(self)@ == skip_whitespace(old(self)@),
    {
        proof {
            use_type_invariant(&*self);
        }
        let ghost s0 = self@;
        let ghost p0 = self.pos as int;
        while self.pos < self.src.len() && is_whitespace(self.src[self.pos])
            invariant
                self.pos <= self.src@.len(),
                0 <= p0 <= self.pos,
                s0 == self.src@.skip(p0),
                forall|i: int| p0 <= i < self.pos ==> spec_is_whitespace(#[trigger] self.src@[i]),
            decreases self.src.len() - self.pos,
        {
            self.pos = self.pos + 1;
        }
        proof {
            let k = self.pos - p0;
            assert forall|i: int| 0 <= i < k implies #[trigger] whitespace_pred()(s0[i]) by {
                assert(s0[i] == self.src@[p0 + i]);
            }
            lemma_leading_len_skip(s0, whitespace_pred(), k);
            assert(s0.skip(k) =~= self@);
            if self.pos < self.src.len() {
                assert(self@[0] == self.src@[self.pos as int]);
            }
        }
    }

    fn collect_quoted_name(&mut self, quote: char) -> (t: Token)
        requires
            old(self)@.len() > 0,
            old(self)@[0] == quote,
        ensures
            ({
                let u = old(self)@.drop_first();
                let n = leading_len(u, unquote_pred(quote)) as int;
                &&& t@ == (TokenType::Name, u.take(n))
                &&& final(self)@ == if n < u.len() { u.skip(n + 1) } else { u.skip(n) }
            }),
    {
        let src_len = self.src.len();
        proof {
            use_type_invariant(&*self);
            assert(self@ == old(self)@);
            assert(self@.len() == self.src@.len() - self.pos);
            assert(self.pos < src_len);
        }
        // the opening quote
        self.pos = self.pos + 1;
        let ghost u = self@;
        proof {
            assert(u =~= old(self)@.drop_first());
        }
        let ghost p0 = self.pos as int;
        let mut value = String::new();
        let mut closed = false;
        while !closed && self.pos < self.src.len()
            invariant
                self.pos <= self.src@.len(),
                0 <= p0 <= self.pos,
                u == self.src@.skip(p0),
                forall|i: int| p0 <= i < self.pos - (if closed { 1int } else { 0 }) ==> #[trigger] self.src@[i] != quote,
                closed ==> p0 < self.pos && self.src@[self.pos - 1] == quote,
                value@ == self.src@.subrange(p0, self.pos - (if closed { 1int } else { 0 })),
            decreases self.src.len() - self.pos,
        {
            let c = self.src[self.pos];
            if c == quote {
                self.pos = self.pos + 1;
                closed = true;
            } else {
                push_char(&mut value, c);
                self.pos = self.pos + 1;
                proof {
                    assert(value@ =~= self.src@.subrange(p0, self.pos as int));
                }
            }
        }
        proof {
            let k = self.pos - p0 - (if closed { 1int } else { 0 });
            assert forall|i: int| 0 <= i < k implies #[trigger] unquote_pred(quote)(u[i]) by {
                assert(u[i] == self.src@[p0 + i]);
            }
            lemma_leading_len_skip(u, unquote_pred(quote), k);
            if closed {
                assert(u[k] == quote);
                assert(leading_len(u.skip(k), unquote_pred(quote)) == 0);
                assert(u.skip(k + 1) =~= self@);
            } else {
                assert(u.skip(k) =~= self@);
            }
            assert(u.take(k) =~= value@);
        }
        Token { token_type: TokenType::Name, value }
    }

    fn collect_number(&mut self) -> (t: Token)
        ensures
            ({
                let n = leading_len(old(self)@, number_pred()) as int;
                &&& t@ == (TokenType::Number, old(self)@.take(n))
                &&& final(self)@ == old(self)@.skip(n)
            }),
    {
        proof {
            use_type_invariant(&*self);
        }
        let ghost s0 = self@;
        let ghost p0 = self.pos as int;
        let mut value = String::new();
        loop
            invariant
                self.pos <= self.src@.len(),
                0 <= p0 <= self.pos,
                s0 == self.src@.skip(p0),
                forall|i: int| p0 <= i < self.pos ==> #[trigger] number_pred()(self.src@[i]),
                value@ == self.src@.subrange(p0, self.pos as int),
            ensures
                self.pos <= self.src@.len(),
                0 <= p0 <= self.pos,
                forall|i: int| p0 <= i < self.pos ==> #[trigger] number_pred()(self.src@[i]),
                value@ == self.src@.subrange(p0, self.pos as int),
                self.pos == self.src@.len() || !number_pred()(self.src@[self.pos as int]),
            decreases self.src.len() - self.pos,
        {
            if self.pos >= self.src.len() {
                break;
            }
            let c = self.src[self.pos];
            if is_numeric(c) && !is_reserved_symbol(c) {
                assert(number_pred()(c));
                push_char(&mut value, c);
                self.pos = self.pos + 1;
                proof {
                    assert(value@ =~= self.src@.subrange(p0, self.pos as int));
                }
            } else {
                break;
            }
        }
        proof {
            let k = self.pos - p0;
            assert forall|i: int| 0 <= i < k implies #[trigger] number_pred()(s0[i]) by {
                assert(s0[i] == self.src@[p0 + i]);
            }
            lemma_leading_len_skip(s0, number_pred(), k);
            assert(s0.skip(k) =~= self@);
            if self.pos < self.src.len() {
                assert(self@[0] == self.src@[self.pos as int]);
            }
            assert(s0.take(k) =~= value@);
        }
        Token { token_type: TokenType::Number, value }
    }

    fn collect_plain_name(&mut self) -> (t: Token)
        ensures
            ({
                let n = leading_len(old(self)@, plain_pred()) as int;
                &&& t@ == (TokenType::Name, old(self)@.take(n))
                &&& final(self)@ == old(self)@.skip(n)
            }),
    {
        proof {
            use_type_invariant(&*self);
        }
        let ghost s0 = self@;
        let ghost p0 = self.pos as int;
        let mut value = String::new();
        loop
            invariant
                self.pos <= self.src@.len(),
                0 <= p0 <= self.pos,
                s0 == self.src@.skip(p0),
                forall|i: int| p0 <= i < self.pos ==> #[trigger] plain_pred()(self.src@[i]),
                value@ == self.src@.subrange(p0, self.pos as int),
            ensures
                self.pos <= self.src@.len(),
                0 <= p0 <= self.pos,
                forall|i: int| p0 <= i < self.pos ==> #[trigger] plain_pred()(self.src@[i]),
                value@ == self.src@.subrange(p0, self.pos as int),
                self.pos == self.src@.len() || !plain_pred()(self.src@[self.pos as int]),
            decreases self.src.len() - self.pos,
        {
            if self.pos >= self.src.len() {
                break;
            }
            let c = self.src[self.pos];
            if is_whitespace(c) || is_reserved_symbol(c) {
                break;
            }
            push_char(&mut value, c);
            self.pos = self.pos + 1;
            proof {
                assert(value@ =~= self.src@.subrange(p0, self.pos as int));
            }
        }
        proof {
            let k = self.pos - p0;
            assert forall|i: int| 0 <= i < k implies #[trigger] plain_pred()(s0[i]) by {
                assert(s0[i] == self.src@[p0 + i]);
            }
            lemma_leading_len_skip(s0, plain_pred(), k);
            assert(s0.skip(k) =~= self@);
            if self.pos < self.src.len() {
                assert(self@[0] == self.src@[self.pos as int]);
            }
            assert(s0.take(k) =~= value@);
        }
        Token { token_type: TokenType::Name, value }
    }

    fn collect_ident(&mut self) -> (t: Token)
        ensures
            ({
                let n = leading_len(old(self)@, ident_pred()) as int;
                &&& t@ == (TokenType::Ident, old(self)@.take(n))
                &&& final(self)@ == old(self)@.skip(n)
            }),
    {
        proof {
            use_type_invariant(&*self);
        }
        let ghost s0 = self@;
        let ghost p0 = self.pos as int;
        let mut value = String::new();
        loop
            invariant
                self.pos <= self.src@.len(),
                0 <= p0 <= self.pos,
                s0 == self.src@.skip(p0),
                forall|i: int| p0 <= i < self.pos ==> #[trigger] ident_pred()(self.src@[i]),
                value@ == self.src@.subrange(p0, self.pos as int),
            ensures
                self.pos <= self.src@.len(),
                0 <= p0 <= self.pos,
                forall|i: int| p0 <= i < self.pos ==> #[trigger] ident_pred()(self.src@[i]),
                value@ == self.src@.subrange(p0, self.pos as int),
                self.pos == self.src@.len() || !ident_pred()(self.src@[self.pos as int]),
            decreases self.src.len() - self.pos,
        {
            if self.pos >= self.src.len() {
                break;
            }
            let c = self.src[self.pos];
            if is_alphanumeric(c) || c == '_' || c == '-' || c == '?' {
                assert(ident_pred()(c));
                push_char(&mut value, c);
                self.pos = self.pos + 1;
                proof {
                    assert(value@ =~= self.src@.subrange(p0, self.pos as int));
                }
            } else {
                break;
            }
        }
        proof {
            let k = self.pos - p0;
            assert forall|i: int| 0 <= i < k implies #[trigger] ident_pred()(s0[i]) by {
                assert(s0[i] == self.src@[p0 + i]);
            }
            lemma_leading_len_skip(s0, ident_pred(), k);
            assert(s0.skip(k) =~= self@);
            if self.pos < self.src.len() {
                assert(self@[0] == self.src@[self.pos as int]);
            }
            assert(s0.take(k) =~= value@);
        }
        Token { token_type: TokenType::Ident, value }
    }

    /// All the tokens of the remaining input, in order; the input is used up.
    pub fn tokenization(&mut self) -> (tokens: Vec<Token>)
        ensures
            tokens@.map_values(|t: Token| t@) == lex(old(self)@),
            final(self)@.len() == 0,
    {
        let mut tokens: Vec<Token> = Vec::new();
        loop
            invariant
                tokens@.map_values(|t: Token| t@) + lex(self@) == lex(old(self)@),
            ensures
                tokens@.map_values(|t: Token| t@) == lex(old(self)@),
                self@.len() == 0,
            decreases self@.len(),
        {
            let ghost before = self@;
            let ghost toks_before = tokens@;
            match self.next_token() {
                Some(token) => {
                    tokens.push(token);
                    proof {
                        assert(tokens@.map_values(|t: Token| t@) =~= toks_before.map_values(
                            |t: Token| t@,
                        ).push(token@));
                        assert(lex(before) == seq![token@] + lex(self@));
                        assert(tokens@.map_values(|t: Token| t@) + lex(self@) =~= toks_before.map_values(
                            |t: Token| t@,
                        ) + lex(before));
                    }
                },
                None => {
                    proof {
                        assert(lex(before) =~= Seq::<(TokenType, Seq<char>)>::empty());
                        assert(toks_before.map_values(|t: Token| t@) + lex(before) =~= toks_before.map_values(
                            |t: Token| t@,
                        ));
                    }
                    break;
                },
            }
        }
        tokens
    }
}


/// Whitespace before an input changes none of its tokens.
pub proof fn lemma_lex_ignores_leading_whitespace(ws: Seq<char>, s: Seq<char>)
    requires
        forall|i: int| 0 <= i < ws.len() ==> spec_is_whitespace(#[trigger] ws[i]),
    ensures
        lex(ws + s) == lex(s),
{
    let w = ws + s;
    assert forall|i: int| 0 <= i < ws.len() implies #[trigger] whitespace_pred()(w[i]) by {
        assert(w[i] == ws[i]);
    }
    lemma_leading_len_skip(w, whitespace_pred(), ws.len() as int);
    assert(w.skip(ws.len() as int) =~= s);
    lemma_leading_len_bound(s, whitespace_pred());
    let n = leading_len(s, whitespace_pred());
    assert(leading_len(w, whitespace_pred()) == ws.len() + n);
    assert(w.skip((ws.len() + n) as int) =~= s.skip(n as int));
    assert(skip_whitespace(w) =~= skip_whitespace(s));
    assert(lex_step(w) == lex_step(s));
}

/// An input has no tokens exactly when it is all whitespace.
pub proof fn lemma_lex_empty_iff_blank(s: Seq<char>)
    ensures
        lex(s).len() == 0 <==> forall|i: int| 0 <= i < s.len() ==> spec_is_whitespace(#[trigger] s[i]),
{
    lemma_leading_len_bound(s, whitespace_pred());
    let n = leading_len(s, whitespace_pred());
    if n < s.len() {
        assert(!spec_is_whitespace(s[n as int]));
        assert(skip_whitespace(s).len() > 0);
        assert(lex(s).len() > 0);
    } else {
        assert forall|i: int| 0 <= i < s.len() implies spec_is_whitespace(#[trigger] s[i]) by {
            assert(whitespace_pred()(s[i]));
        }
        assert(skip_whitespace(s).len() == 0);
    }
}

/// What the text of a token of each type consists of: the one character of
/// a symbol; the numeric, non-reserved characters of a number; the
/// characters of an identifier (letters, digits, `_`, `-`, `?`). A name's
/// text is free.
pub open spec fn token_shape(tok: (TokenType, Seq<char>)) -> bool {
    if tok.0 == TokenType::Number {
        forall|j: int| 0 <= j < tok.1.len() ==> #[trigger] number_pred()(tok.1[j])
    } else if tok.0 == TokenType::Ident {
        forall|j: int| 0 <= j < tok.1.len() ==> #[trigger] ident_pred()(tok.1[j])
    } else if tok.0 == TokenType::Name {
        true
    } else {
        tok.1.len() == 1 && symbol_type(tok.1[0]) == Some(tok.0)
    }
}

/// Every token the lexer produces has the shape of its type.
pub proof fn lemma_lex_token_shapes(s: Seq<char>)
    ensures
        forall|i: int| 0 <= i < lex(s).len() ==> token_shape(#[trigger] lex(s)[i]),
    decreases s.len(),
{
    lemma_lex_step_shrinks(s);
    if let Some((ty, v, rest)) = lex_step(s) {
        lemma_lex_token_shapes(rest);
        let t = skip_whitespace(s);
        let c = t[0];
        let u = t.drop_first();
        lemma_leading_len_bound(u, number_pred());
        lemma_leading_len_bound(u, ident_pred());
        if c == '$' {
            assert forall|j: int| 0 <= j < v.len() implies #[trigger] number_pred()(v[j]) by {
                assert(v[j] == u[j]);
            }
        } else if c == '#' {
            assert forall|j: int| 0 <= j < v.len() implies #[trigger] ident_pred()(v[j]) by {
                assert(v[j] == u[j]);
            }
        }
        assert(token_shape((ty, v)));
        assert forall|i: int| 0 <= i < lex(s).len() implies token_shape(#[trigger] lex(s)[i]) by {
            if i > 0 {
                assert(lex(s)[i] == lex(rest)[i - 1]);
            }
        }
    }
}

/// `#` followed by a word of letters, digits, `_`, `-` and `?`, and then by
/// the end of the input or a character that cannot continue the word (such
/// as whitespace), lexes as one identifier token whose text is the whole
/// word; the tokens of what follows come after it.
pub proof fn lemma_lex_identifier_word(w: Seq<char>, rest: Seq<char>)
    requires
        forall|i: int|
            0 <= i < w.len() ==> (spec_is_alphanumeric(#[trigger] w[i]) || w[i] == '_' || w[i] == '-'
                || w[i] == '?'),
        rest.len() > 0 ==> !(spec_is_alphanumeric(rest[0]) || rest[0] == '_' || rest[0] == '-' || rest[0]
            == '?'),
    ensures
        lex(seq!['#'] + w + rest) == seq![(TokenType::Ident, w)] + lex(rest),
{
    let s = seq!['#'] + w + rest;
    assert(s[0] == '#');
    assert(!whitespace_pred()(s[0]));
    assert(leading_len(s, whitespace_pred()) == 0);
    assert(skip_whitespace(s) =~= s);
    let u = s.drop_first();
    assert(u =~= w + rest);
    assert forall|i: int| 0 <= i < w.len() implies #[trigger] ident_pred()(u[i]) by {
        assert(u[i] == w[i]);
    }
    lemma_leading_len_skip(u, ident_pred(), w.len() as int);
    assert(u.skip(w.len() as int) =~= rest);
    if rest.len() > 0 {
        assert(!ident_pred()(rest[0]));
    }
    assert(leading_len(rest, ident_pred()) == 0);
    assert(u.take(w.len() as int) =~= w);
    assert(lex_step(s) == Some((TokenType::Ident, w, rest)));
    lemma_lex_step_shrinks(s);
}


/// An input that starts with a character other than whitespace is lexed
/// from that character on.
proof fn lemma_no_leading_whitespace(s: Seq<char>)
    requires
        s.len() > 0,
        !spec_is_whitespace(s[0]),
    ensures
        skip_whitespace(s) == s,
{
    assert(!whitespace_pred()(s[0]));
    assert(leading_len(s, whitespace_pred()) == 0);
    assert(s.skip(0) =~= s);
}

/// A run of `w` at the start of `w + rest` satisfying `p`, ended by the end
/// of the input or a character failing `p`, is exactly `w`.
proof fn lemma_run_is_word(w: Seq<char>, rest: Seq<char>, p: spec_fn(char) -> bool)
    requires
        forall|i: int| 0 <= i < w.len() ==> #[trigger] p(w[i]),
        rest.len() > 0 ==> !p(rest[0]),
    ensures
        leading_len(w + rest, p) == w.len(),
        (w + rest).take(w.len() as int) == w,
        (w + rest).skip(w.len() as int) == rest,
{
    let u = w + rest;
    assert forall|i: int| 0 <= i < w.len() implies #[trigger] p(u[i]) by {
        assert(u[i] == w[i]);
    }
    lemma_leading_len_skip(u, p, w.len() as int);
    assert(u.skip(w.len() as int) =~= rest);
    assert(u.take(w.len() as int) =~= w);
}

proof fn lemma_lex_symbol(c: char, ty: TokenType, rest: Seq<char>)
    requires
        symbol_type(c) == Some(ty),
        !spec_is_whitespace(c),
    ensures
        lex(seq![c] + rest) == seq![(ty, seq![c])] + lex(rest),
{
    let s = seq![c] + rest;
    lemma_no_leading_whitespace(s);
    assert(s.drop_first() =~= rest);
    assert(lex_step(s) == Some((ty, seq![c], rest)));
    lemma_lex_step_shrinks(s);
}

/// Each symbol character is a token of its own: `:` starts a row, `-` ends
/// one, `|` splits it, and the brackets, braces, parentheses, comma, equal
/// sign and `@` each have their own type; the tokens of what follows come
/// after it.
pub proof fn lemma_lex_symbols(rest: Seq<char>)
    ensures
        lex(seq![':'] + rest) == seq![(TokenType::LineHead, seq![':'])] + lex(rest),
        lex(seq!['-'] + rest) == seq![(TokenType::LineTail, seq!['-'])] + lex(rest),
        lex(seq!['|'] + rest) == seq![(TokenType::Split, seq!['|'])] + lex(rest),
        lex(seq!['['] + rest) == seq![(TokenType::LBracket, seq!['['])] + lex(rest),
        lex(seq![']'] + rest) == seq![(TokenType::RBracket, seq![']'])] + lex(rest),
        lex(seq!['{'] + rest) == seq![(TokenType::LBrace, seq!['{'])] + lex(rest),
        lex(seq!['}'] + rest) == seq![(TokenType::RBrace, seq!['}'])] + lex(rest),
        lex(seq!['('] + rest) == seq![(TokenType::LParen, seq!['('])] + lex(rest),
        lex(seq![')'] + rest) == seq![(TokenType::RParen, seq![')'])] + lex(rest),
        lex(seq![','] + rest) == seq![(TokenType::Comma, seq![','])] + lex(rest),
        lex(seq!['='] + rest) == seq![(TokenType::Equal, seq!['='])] + lex(rest),
        lex(seq!['@'] + rest) == seq![(TokenType::At, seq!['@'])] + lex(rest),
{
    lemma_lex_symbol(':', TokenType::LineHead, rest);
    lemma_lex_symbol('-', TokenType::LineTail, rest);
    lemma_lex_symbol('|', TokenType::Split, rest);
    lemma_lex_symbol('[', TokenType::LBracket, rest);
    lemma_lex_symbol(']', TokenType::RBracket, rest);
    lemma_lex_symbol('{', TokenType::LBrace, rest);
    lemma_lex_symbol('}', TokenType::RBrace, rest);
    lemma_lex_symbol('(', TokenType::LParen, rest);
    lemma_lex_symbol(')', TokenType::RParen, rest);
    lemma_lex_symbol(',', TokenType::Comma, rest);
    lemma_lex_symbol('=', TokenType::Equal, rest);
    lemma_lex_symbol('@', TokenType::At, rest);
}

/// `$` followed by numeric characters that are not symbols, and then by the
/// end of the input or a character that is not one of them, lexes as one
/// number token whose text is those characters.
pub proof fn lemma_lex_number_word(d: Seq<char>, rest: Seq<char>)
    requires
        forall|i: int| 0 <= i < d.len() ==> spec_is_numeric(#[trigger] d[i]) && !is_reserved(d[i]),
        rest.len() > 0 ==> !(spec_is_numeric(rest[0]) && !is_reserved(rest[0])),
    ensures
        lex(seq!['$'] + d + rest) == seq![(TokenType::Number, d)] + lex(rest),
{
    let s = seq!['$'] + d + rest;
    lemma_no_leading_whitespace(s);
    assert(s.drop_first() =~= d + rest);
    assert forall|i: int| 0 <= i < d.len() implies #[trigger] number_pred()(d[i]) by {}
    lemma_run_is_word(d, rest, number_pred());
    assert(lex_step(s) == Some((TokenType::Number, d, rest)));
    lemma_lex_step_shrinks(s);
}

/// A name in quotes `q` (a single or a double quote) with no such quote in
/// it lexes as one name token whose text is what is between the quotes; the
/// closing quote is not part of any token.
pub proof fn lemma_lex_quoted_name(q: char, body: Seq<char>, rest: Seq<char>)
    requires
        q == '\'' || q == '"',
        forall|i: int| 0 <= i < body.len() ==> #[trigger] body[i] != q,
    ensures
        lex(seq![q] + body + seq![q] + rest) == seq![(TokenType::Name, body)] + lex(rest),
{
    let s = seq![q] + body + seq![q] + rest;
    lemma_no_leading_whitespace(s);
    let tail = seq![q] + rest;
    assert(s.drop_first() =~= body + tail);
    assert forall|i: int| 0 <= i < body.len() implies #[trigger] unquote_pred(q)(body[i]) by {}
    lemma_run_is_word(body, tail, unquote_pred(q));
    assert(tail.skip(1) =~= rest);
    assert((body + tail).skip(body.len() as int + 1) =~= rest);
    assert(lex_step(s) == Some((TokenType::Name, body, rest)));
    lemma_lex_step_shrinks(s);
}

/// A plain word (characters that are neither whitespace nor symbols, not
/// starting with a double quote), ended by the end of the input, by
/// whitespace or by a symbol, lexes as one name token whose text is the
/// whole word.
pub proof fn lemma_lex_plain_name(w: Seq<char>, rest: Seq<char>)
    requires
        w.len() > 0,
        w[0] != '"',
        forall|i: int| 0 <= i < w.len() ==> !spec_is_whitespace(#[trigger] w[i]) && !is_reserved(w[i]),
        rest.len() > 0 ==> spec_is_whitespace(rest[0]) || is_reserved(rest[0]),
    ensures
        lex(w + rest) == seq![(TokenType::Name, w)] + lex(rest),
{
    let s = w + rest;
    assert(s[0] == w[0]);
    lemma_no_leading_whitespace(s);
    assert forall|i: int| 0 <= i < w.len() implies #[trigger] plain_pred()(w[i]) by {}
    lemma_run_is_word(w, rest, plain_pred());
    assert(lex_step(s) == Some((TokenType::Name, w, rest)));
    lemma_lex_step_shrinks(s);
}

} // verus!
