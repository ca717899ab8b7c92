//! The parser of the layout language.
//!
//! A layout is a sequence of assignments `#name = value` and rows
//! `:| button | button ... |-`. A value is a number `$12`, a colour
//! `@($r, $g, $b)` or a variable `#name`. A button is a name, optionally more
//! names after commas (its further bindings), and optionally attributes in
//! brackets: `[width, height, border colour, highlight colour]`.

use crate::chars::char_string;
use crate::env::{Env, Value};
use crate::error::{debug_str, spec_debug_str, ParserError, ParserErrorView};
use crate::layout::{attr_of_width, default_width, Attr, Button, ButtonView, Color, Layout};
use crate::lexer::{Token, TokenType};
use crate::number::{parse_u16, parse_u8, parse_unsigned};
use crate::virtual_key::{key_of_name, virtual_key_from_name, VirtualKey};
use vstd::prelude::*;

verus! {

/// A token as a value: its type and its text.
pub type TokenView = (TokenType, Seq<char>);

/// A binding as a value: its display name and its key.
pub type BindView = (Seq<char>, Option<VirtualKey>);

/// What one parsing step gives: a value and the position after it, or an
/// error and the position at which parsing stopped.
pub type Step<T> = Result<(T, int), (ParserErrorView, int)>;

/// The name of a token type, as `{:?}` writes it.
pub open spec fn token_type_name(ty: TokenType) -> Seq<char> {
    match ty {
        TokenType::LineHead => "LineHead"@,
        TokenType::LineTail => "LineTail"@,
        TokenType::Split => "Split"@,
        TokenType::Name => "Name"@,
        TokenType::Number => "Number"@,
        TokenType::LBracket => "LBracket"@,
        TokenType::RBracket => "RBracket"@,
        TokenType::LBrace => "LBrace"@,
        TokenType::RBrace => "RBrace"@,
        TokenType::LParen => "LParen"@,
        TokenType::RParen => "RParen"@,
        TokenType::Comma => "Comma"@,
        TokenType::Equal => "Equal"@,
        TokenType::Ident => "Ident"@,
        TokenType::At => "At"@,
    }
}

pub open spec fn eof_error() -> ParserErrorView {
    ParserErrorView::Message("EOF"@)
}

/// The error for a token of type `found` where one of type `expected` was due.
pub open spec fn expected_error(expected: TokenType, found: TokenType) -> ParserErrorView {
    ParserErrorView::Message("Expected "@ + token_type_name(expected) + ", found "@ + token_type_name(found))
}

/// The error for a variable that has no binding.
pub open spec fn unbound_error(name: Seq<char>) -> ParserErrorView {
    ParserErrorView::Message("Unbound Variable "@ + spec_debug_str(name) + "."@)
}

pub open spec fn not_a_value_error() -> ParserErrorView {
    ParserErrorView::Message("Expected Number, Identifier or RGB."@)
}

/// The token at position `p`.
pub open spec fn peek_spec(t: Seq<TokenView>, p: int) -> Result<TokenView, ParserErrorView> {
    if 0 <= p < t.len() {
        Ok(t[p])
    } else {
        Err(eof_error())
    }
}

/// Reading a token of type `ty` at position `p`.
pub open spec fn consume_spec(t: Seq<TokenView>, p: int, ty: TokenType) -> Step<TokenView> {
    match peek_spec(t, p) {
        Err(e) => Err((e, p)),
        Ok(tok) => if tok.0 == ty {
            Ok((tok, p + 1))
        } else {
            Err((expected_error(ty, tok.0), p))
        },
    }
}

/// The token types of a colour: `@ ( $r , $g , $b )`.
pub open spec fn rgb_shape() -> Seq<TokenType> {
    seq![
        TokenType::At,
        TokenType::LParen,
        TokenType::Number,
        TokenType::Comma,
        TokenType::Number,
        TokenType::Comma,
        TokenType::Number,
        TokenType::RParen,
    ]
}

/// Reading tokens of the types `tys`, in order, from position `p`.
pub open spec fn expect_spec(t: Seq<TokenView>, p: int, tys: Seq<TokenType>) -> Result<
    int,
    (ParserErrorView, int),
>
    decreases tys.len(),
{
    if tys.len() == 0 {
        Ok(p)
    } else {
        match consume_spec(t, p, tys[0]) {
            Err(e) => Err(e),
            Ok((_, q)) => expect_spec(t, q, tys.drop_first()),
        }
    }
}

/// A number read as a `u8` colour component.
pub open spec fn component(s: Seq<char>) -> Result<u8, ParserErrorView> {
    match parse_unsigned(s, u8::MAX as nat) {
        Ok(v) => Ok(v as u8),
        Err(k) => Err(ParserErrorView::ParseIntError(k)),
    }
}

/// Reading a value at position `p`, with the variables `env`.
pub open spec fn value_spec(t: Seq<TokenView>, p: int, env: Map<Seq<char>, Value>) -> Step<Value> {
    match peek_spec(t, p) {
        Err(e) => Err((e, p)),
        Ok(tok) => if tok.0 == TokenType::Number {
            match parse_unsigned(tok.1, u16::MAX as nat) {
                Ok(n) => Ok((Value::Number(n as u16), p + 1)),
                Err(k) => Err((ParserErrorView::ParseIntError(k), p + 1)),
            }
        } else if tok.0 == TokenType::At {
            match expect_spec(t, p, rgb_shape()) {
                Err(e) => Err(e),
                Ok(q) => match component(t[p + 2].1) {
                    Err(e) => Err((e, q)),
                    Ok(r) => match component(t[p + 4].1) {
                        Err(e) => Err((e, q)),
                        Ok(g) => match component(t[p + 6].1) {
                            Err(e) => Err((e, q)),
                            Ok(b) => Ok((Value::RGB(r, g, b), q)),
                        },
                    },
                },
            }
        } else if tok.0 == TokenType::Ident {
            if env.contains_key(tok.1) {
                Ok((env[tok.1], p + 1))
            } else {
                Err((unbound_error(tok.1), p + 1))
            }
        } else {
            Err((not_a_value_error(), p))
        },
    }
}

/// Reading an assignment `#name = value` at position `p`: the variables
/// afterwards.
pub open spec fn assign_spec(t: Seq<TokenView>, p: int, env: Map<Seq<char>, Value>) -> Step<
    Map<Seq<char>, Value>,
> {
    match consume_spec(t, p, TokenType::Ident) {
        Err(e) => Err(e),
        Ok((id, p1)) => match consume_spec(t, p1, TokenType::Equal) {
            Err(e) => Err(e),
            Ok((_, p2)) => match value_spec(t, p2, env) {
                Err(e) => Err(e),
                Ok((v, p3)) => Ok((env.insert(id.1, v), p3)),
            },
        },
    }
}

/// Reading the further bindings `, name , name ...` of a button at position
/// `p`, after the bindings `acc`.
pub open spec fn binds_spec(t: Seq<TokenView>, p: int, acc: Seq<BindView>) -> Step<Seq<BindView>>
    decreases t.len() - p,
{
    match peek_spec(t, p) {
        Err(e) => Err((e, p)),
        Ok(tok) => if tok.0 != TokenType::Comma {
            Ok((acc, p))
        } else {
            match consume_spec(t, p + 1, TokenType::Name) {
                Err(e) => Err(e),
                Ok((name, q)) => binds_spec(t, q, acc.push((name.1, key_of_name(name.1)))),
            }
        },
    }
}

/// The error for an attribute of the wrong kind at slot `slot`.
pub open spec fn slot_error(slot: int) -> ParserErrorView {
    if slot == 0 {
        ParserErrorView::Message("Width must be a number"@)
    } else if slot == 1 {
        ParserErrorView::Message("Height must be a number"@)
    } else if slot == 2 {
        ParserErrorView::Message("Border color must be RGB"@)
    } else {
        ParserErrorView::Message("Highlight must be RGB"@)
    }
}

/// `attr` with slot `slot` (0 width, 1 height, 2 border colour, 3 highlight)
/// set to `v`, or `None` when `v` has the wrong kind for the slot.
pub open spec fn set_slot(attr: Attr, slot: int, v: Value) -> Option<Attr> {
    match v {
        Value::Number(n) => if slot == 0 {
            Some(Attr { width: n, ..attr })
        } else if slot == 1 {
            Some(Attr { height: n, ..attr })
        } else {
            None
        },
        Value::RGB(r, g, b) => if slot == 2 {
            Some(Attr { border_color: Some(Color::Rgb(r, g, b)), ..attr })
        } else if slot == 3 {
            Some(Attr { highlight: Some(Color::Rgb(r, g, b)), ..attr })
        } else {
            None
        },
    }
}

/// Expecting a list of token types moves past exactly that many tokens.
pub proof fn lemma_expect_spec_advances(t: Seq<TokenView>, p: int, tys: Seq<TokenType>)
    ensures
        expect_spec(t, p, tys) matches Ok(q) ==> q == p + tys.len(),
        expect_spec(t, p, tys) is Ok && tys.len() > 0 ==> 0 <= p && p + tys.len() <= t.len(),
    decreases tys.len(),
{
    if tys.len() > 0 {
        lemma_expect_spec_advances(t, p + 1, tys.drop_first());
    }
}

/// Reading a value moves forward, within the tokens.
pub proof fn lemma_value_spec_advances(t: Seq<TokenView>, p: int, env: Map<Seq<char>, Value>)
    ensures
        value_spec(t, p, env) matches Ok((_, q)) ==> p < q <= t.len(),
{
    lemma_expect_spec_advances(t, p, rgb_shape());
}

/// Reading the one item at position `p` into slot `slot`: the first four
/// slots take a value of their kind, later ones skip a token.
pub open spec fn attr_item_spec(
    t: Seq<TokenView>,
    p: int,
    attr: Attr,
    slot: int,
    env: Map<Seq<char>, Value>,
) -> Step<Attr> {
    if 0 <= slot <= 3 {
        match value_spec(t, p, env) {
            Err(e) => Err(e),
            Ok((v, q)) => match set_slot(attr, slot, v) {
                Some(a) => Ok((a, q)),
                None => Err((slot_error(slot), q)),
            },
        }
    } else {
        Ok((attr, p + 1))
    }
}

/// Reading the attribute items from position `p`, filling slot `slot` next:
/// the attributes after the closing bracket, and the position after it.
pub open spec fn attr_items_spec(
    t: Seq<TokenView>,
    p: int,
    attr: Attr,
    slot: int,
    env: Map<Seq<char>, Value>,
) -> Step<Attr>
    decreases t.len() - p,
{
    match peek_spec(t, p) {
        Err(e) => Err((e, p)),
        Ok(tok) => if tok.0 == TokenType::RBracket {
            Ok((attr, p + 1))
        } else if tok.0 == TokenType::Comma {
            attr_items_spec(t, p + 1, attr, slot + 1, env)
        } else {
            let item = attr_item_spec(t, p, attr, slot, env);
            match item {
                Err(e) => Err(e),
                Ok((a, q)) => {
                    proof {
                        lemma_value_spec_advances(t, p, env);
                    }
                    match peek_spec(t, q) {
                        Err(e) => Err((e, q)),
                        Ok(next) => if next.0 == TokenType::Comma {
                            attr_items_spec(t, q + 1, a, slot + 1, env)
                        } else {
                            attr_items_spec(t, q, a, slot, env)
                        },
                    }
                },
            }
        },
    }
}

/// Reading attributes `[ ... ]` at position `p`, over the defaults `attr`.
pub open spec fn attr_spec(t: Seq<TokenView>, p: int, attr: Attr, env: Map<Seq<char>, Value>) -> Step<
    Attr,
> {
    match consume_spec(t, p, TokenType::LBracket) {
        Err(e) => Err(e),
        Ok((_, q)) => attr_items_spec(t, q, attr, 0, env),
    }
}

/// The attributes as the item reader leaves them, whether it reaches the
/// closing bracket or stops at an error: every slot read before the stop
/// keeps its value, and a slot that fails is left as it was.
pub open spec fn attr_items_last(
    t: Seq<TokenView>,
    p: int,
    attr: Attr,
    slot: int,
    env: Map<Seq<char>, Value>,
) -> Attr
    decreases t.len() - p,
{
    match peek_spec(t, p) {
        Err(_) => attr,
        Ok(tok) => if tok.0 == TokenType::RBracket {
            attr
        } else if tok.0 == TokenType::Comma {
            attr_items_last(t, p + 1, attr, slot + 1, env)
        } else {
            match attr_item_spec(t, p, attr, slot, env) {
                Err(_) => attr,
                Ok((a, q)) => {
                    proof {
                        lemma_value_spec_advances(t, p, env);
                    }
                    match peek_spec(t, q) {
                        Err(_) => a,
                        Ok(next) => if next.0 == TokenType::Comma {
                            attr_items_last(t, q + 1, a, slot + 1, env)
                        } else {
                            attr_items_last(t, q, a, slot, env)
                        },
                    }
                },
            }
        },
    }
}

/// The attributes as reading `[ ... ]` at position `p` leaves them, on
/// success or on error (unchanged when the opening bracket is missing).
pub open spec fn attr_last(t: Seq<TokenView>, p: int, attr: Attr, env: Map<Seq<char>, Value>) -> Attr {
    match consume_spec(t, p, TokenType::LBracket) {
        Err(_) => attr,
        Ok((_, q)) => attr_items_last(t, q, attr, 0, env),
    }
}

/// Reading further bindings never moves back.
pub proof fn lemma_binds_spec_advances(t: Seq<TokenView>, p: int, acc: Seq<BindView>)
    ensures
        binds_spec(t, p, acc) matches Ok((_, q)) ==> p <= q,
    decreases t.len() - p,
{
    if 0 <= p && p + 1 < t.len() && t[p].0 == TokenType::Comma && t[p + 1].0 == TokenType::Name {
        lemma_binds_spec_advances(t, p + 2, acc.push((t[p + 1].1, key_of_name(t[p + 1].1))));
    }
}

/// Reading attribute items moves forward.
pub proof fn lemma_attr_items_spec_advances(
    t: Seq<TokenView>,
    p: int,
    attr: Attr,
    slot: int,
    env: Map<Seq<char>, Value>,
)
    ensures
        attr_items_spec(t, p, attr, slot, env) matches Ok((_, q)) ==> p < q,
    decreases t.len() - p,
{
    if 0 <= p < t.len() && t[p].0 != TokenType::RBracket {
        if t[p].0 == TokenType::Comma {
            lemma_attr_items_spec_advances(t, p + 1, attr, slot + 1, env);
        } else {
            lemma_value_spec_advances(t, p, env);
            let item = attr_item_spec(t, p, attr, slot, env);
            if let Ok((a, q)) = item {
                if 0 <= q < t.len() {
                    if t[q].0 == TokenType::Comma {
                        lemma_attr_items_spec_advances(t, q + 1, a, slot + 1, env);
                    } else {
                        lemma_attr_items_spec_advances(t, q, a, slot, env);
                    }
                }
            }
        }
    }
}

/// Reading a bracketed attribute list moves forward.
pub proof fn lemma_attr_spec_advances(
    t: Seq<TokenView>,
    p: int,
    attr: Attr,
    env: Map<Seq<char>, Value>,
)
    ensures
        attr_spec(t, p, attr, env) matches Ok((_, q)) ==> p < q,
{
    lemma_attr_items_spec_advances(t, p + 1, attr, 0, env);
}

/// Reading the buttons of a row from position `p`, up to (not including)
/// its closing `-`.
pub open spec fn line_items_spec(t: Seq<TokenView>, p: int, env: Map<Seq<char>, Value>) -> Step<
    Seq<ButtonView>,
>
    decreases t.len() - p,
{
    if !(0 <= p < t.len()) || t[p].0 == TokenType::LineTail {
        Ok((Seq::empty(), p))
    } else {
        match consume_spec(t, p, TokenType::Name) {
            Err(e) => Err(e),
            Ok((name, p1)) => {
                let first = seq![(name.1, key_of_name(name.1))];
                let defaults = attr_of_width(default_width(name.1));
                match binds_spec(t, p1, first) {
                    Err(e) => Err(e),
                    Ok((binds, p2)) => match peek_spec(t, p2) {
                        Err(e) => Err((e, p2)),
                        Ok(next) => {
                            let with_attr = if next.0 == TokenType::LBracket {
                                attr_spec(t, p2, defaults, env)
                            } else {
                                Ok((defaults, p2))
                            };
                            match with_attr {
                                Err(e) => Err(e),
                                Ok((attr, p3)) => match consume_spec(t, p3, TokenType::Split) {
                                    Err(e) => Err(e),
                                    Ok((_, p4)) => {
                                        proof {
                                            lemma_binds_spec_advances(t, p1, first);
                                            lemma_attr_spec_advances(t, p2, defaults, env);
                                        }
                                        match line_items_spec(t, p4, env) {
                                            Err(e) => Err(e),
                                            Ok((rest, p5)) => Ok((seq![(attr, binds)] + rest, p5)),
                                        }
                                    },
                                },
                            }
                        },
                    },
                }
            },
        }
    }
}

/// Reading a row `:| ... |-` at position `p`.
pub open spec fn line_spec(t: Seq<TokenView>, p: int, env: Map<Seq<char>, Value>) -> Step<
    Seq<ButtonView>,
> {
    match consume_spec(t, p, TokenType::LineHead) {
        Err(e) => Err(e),
        Ok((_, p1)) => match consume_spec(t, p1, TokenType::Split) {
            Err(e) => Err(e),
            Ok((_, p2)) => match line_items_spec(t, p2, env) {
                Err(e) => Err(e),
                Ok((items, p3)) => match consume_spec(t, p3, TokenType::LineTail) {
                    Err(e) => Err(e),
                    Ok((_, p4)) => Ok((items, p4)),
                },
            },
        },
    }
}

/// Reading an assignment moves forward, within the tokens.
pub proof fn lemma_assign_spec_advances(t: Seq<TokenView>, p: int, env: Map<Seq<char>, Value>)
    ensures
        assign_spec(t, p, env) matches Ok((_, q)) ==> p < q <= t.len(),
{
    lemma_value_spec_advances(t, p + 2, env);
}

/// Reading a row moves forward.
pub proof fn lemma_line_spec_advances(t: Seq<TokenView>, p: int, env: Map<Seq<char>, Value>)
    ensures
        line_spec(t, p, env) matches Ok((_, q)) ==> p < q,
{
    lemma_line_items_spec_advances(t, p + 2, env);
}

/// Reading the buttons of a row never moves back.
pub proof fn lemma_line_items_spec_advances(t: Seq<TokenView>, p: int, env: Map<Seq<char>, Value>)
    ensures
        line_items_spec(t, p, env) matches Ok((_, q)) ==> p <= q,
    decreases t.len() - p,
{
    if 0 <= p < t.len() && t[p].0 != TokenType::LineTail && t[p].0 == TokenType::Name {
        let first = seq![(t[p].1, key_of_name(t[p].1))];
        let defaults = attr_of_width(default_width(t[p].1));
        lemma_binds_spec_advances(t, p + 1, first);
        if let Ok((binds, p2)) = binds_spec(t, p + 1, first) {
            lemma_attr_spec_advances(t, p2, defaults, env);
            if 0 <= p2 < t.len() {
                let with_attr = if t[p2].0 == TokenType::LBracket {
                    attr_spec(t, p2, defaults, env)
                } else {
                    Ok((defaults, p2))
                };
                if let Ok((attr, p3)) = with_attr {
                    if 0 <= p3 < t.len() && t[p3].0 == TokenType::Split {
                        lemma_line_items_spec_advances(t, p3 + 1, env);
                    }
                }
            }
        }
    }
}

/// What reading the layout from position `p` with the variables `env` gives:
/// the rows (or the error that stopped it), the position where it stopped,
/// and the variables then. Reading stops at the end, or at a token that
/// starts neither an assignment nor a row.
pub open spec fn rows_spec(t: Seq<TokenView>, p: int, env: Map<Seq<char>, Value>) -> (
    Result<Seq<Seq<ButtonView>>, ParserErrorView>,
    int,
    Map<Seq<char>, Value>,
)
    decreases t.len() - p,
{
    if !(0 <= p < t.len()) {
        (Ok(Seq::empty()), p, env)
    } else if t[p].0 == TokenType::Ident {
        match assign_spec(t, p, env) {
            Err((e, q)) => (Err(e), q, env),
            Ok((env2, q)) => {
                proof {
                    lemma_assign_spec_advances(t, p, env);
                }
                rows_spec(t, q, env2)
            },
        }
    } else if t[p].0 == TokenType::LineHead {
        match line_spec(t, p, env) {
            Err((e, q)) => (Err(e), q, env),
            Ok((row, q)) => {
                proof {
                    lemma_line_spec_advances(t, p, env);
                }
                let rest = rows_spec(t, q, env);
                (
                    match rest.0 {
                        Ok(rows) => Ok(seq![row] + rows),
                        Err(e) => Err(e),
                    },
                    rest.1,
                    rest.2,
                )
            },
        }
    } else {
        (Ok(Seq::empty()), p, env)
    }
}

#[derive(Debug)]
pub struct Parser {
    tokens: Vec<Token>,
    current: usize,
}

impl Parser {
    #[verifier::type_invariant]
    spec fn inv(self) -> bool {
        self.current <= self.tokens@.len()
    }

    /// The tokens being parsed.
    pub closed spec fn tokens(&self) -> Seq<TokenView> {
        self.tokens@.map_values(|t: Token| t@)
    }

    /// The position of the next token to read.
    pub closed spec fn position(&self) -> int {
        self.current as int
    }

    /// A parser at the first of `tokens`.
    pub fn new(tokens: Vec<Token>) -> (p: Self)
        ensures
            p.tokens() == tokens@.map_values(|t: Token| t@),
            p.position() == 0,
    {
        Parser { tokens, current: 0 }
    }
}


/// The rows `done` followed by what parsing the rest of a row gives.
pub open spec fn after_items(done: Seq<ButtonView>, r: Step<Seq<ButtonView>>) -> Step<Seq<ButtonView>> {
    match r {
        Ok((rest, q)) => Ok((done + rest, q)),
        Err(e) => Err(e),
    }
}

/// The rows `done` followed by what parsing the rest of a layout gives.
pub open spec fn after_rows(
    done: Seq<Seq<ButtonView>>,
    r: (Result<Seq<Seq<ButtonView>>, ParserErrorView>, int, Map<Seq<char>, Value>),
) -> (Result<Seq<Seq<ButtonView>>, ParserErrorView>, int, Map<Seq<char>, Value>) {
    (
        match r.0 {
            Ok(rows) => Ok(done + rows),
            Err(e) => Err(e),
        },
        r.1,
        r.2,
    )
}

pub open spec fn binds_view(binds: Seq<(String, Option<VirtualKey>)>) -> Seq<BindView> {
    binds.map_values(|b: (String, Option<VirtualKey>)| (b.0@, b.1))
}

/// The name of a token type, as `{:?}` writes it.
fn token_type_str(ty: TokenType) -> (s: &'static str)
    ensures
        s@ == token_type_name(ty),
{
    match ty {
        TokenType::LineHead => "LineHead",
        TokenType::LineTail => "LineTail",
        TokenType::Split => "Split",
        TokenType::Name => "Name",
        TokenType::Number => "Number",
        TokenType::LBracket => "LBracket",
        TokenType::RBracket => "RBracket",
        TokenType::LBrace => "LBrace",
        TokenType::RBrace => "RBrace",
        TokenType::LParen => "LParen",
        TokenType::RParen => "RParen",
        TokenType::Comma => "Comma",
        TokenType::Equal => "Equal",
        TokenType::Ident => "Ident",
        TokenType::At => "At",
    }
}

fn message(s: &str) -> (e: ParserError)
    ensures
        e@ == ParserErrorView::Message(s@),
{
    ParserError::Message(s.to_owned())
}

fn expected_message(expected: TokenType, found: TokenType) -> (e: ParserError)
    ensures
        e@ == expected_error(expected, found),
{
    let mut m = "Expected ".to_owned();
    m.append(token_type_str(expected));
    m.append(", found ");
    m.append(token_type_str(found));
    ParserError::Message(m)
}

fn unbound_message(name: &str) -> (e: ParserError)
    ensures
        e@ == unbound_error(name@),
{
    let mut m = "Unbound Variable ".to_owned();
    m.append(debug_str(name).as_str());
    m.append(".");
    ParserError::Message(m)
}

fn int_error(k: crate::number::IntErrorKind) -> (e: ParserError)
    ensures
        e@ == ParserErrorView::ParseIntError(k),
{
    ParserError::ParseIntError(k)
}

impl Parser {
    fn peek(&self) -> (r: Result<TokenType, ParserError>)
        ensures
            match peek_spec(self.tokens(), self.position()) {
                Ok(tok) => r == Ok::<TokenType, ParserError>(tok.0),
                Err(e) => r matches Err(x) && x@ == e,
            },
    {
        proof {
            use_type_invariant(self);
        }
        if self.current < self.tokens.len() {
            Ok(self.tokens[self.current].token_type)
        } else {
            Err(message("EOF"))
        }
    }

    fn advance(&mut self) -> (r: Result<usize, ParserError>)
        ensures
            final(self).tokens() == old(self).tokens(),
            old(self).position() < old(self).tokens().len() ==> r == Ok::<usize, ParserError>(
                old(self).position() as usize,
            ) && final(self).position() == old(self).position() + 1,
            old(self).position() >= old(self).tokens().len() ==> (r matches Err(x) && x@
                == eof_error() && final(self).position() == old(self).position()),
    {
        proof {
            use_type_invariant(&*self);
        }
        if self.current < self.tokens.len() {
            self.current = self.current + 1;
            Ok(self.current - 1)
        } else {
            Err(message("EOF"))
        }
    }

    fn consume(&mut self, ty: TokenType) -> (r: Result<usize, ParserError>)
        ensures
            final(self).tokens() == old(self).tokens(),
            match consume_spec(old(self).tokens(), old(self).position(), ty) {
                Ok((_, q)) => r == Ok::<usize, ParserError>(old(self).position() as usize) && 0
                    <= old(self).position() < old(self).tokens().len() && final(self).position()
                    == q,
                Err((e, q)) => r matches Err(x) && x@ == e && final(self).position() == q,
            },
    {
        proof {
            use_type_invariant(&*self);
        }
        let t = self.peek()?;
        if t == ty {
            self.advance()
        } else {
            Err(expected_message(ty, t))
        }
    }

    /// Reads tokens of the types `tys`, in order.
    fn expect_types(&mut self, tys: &Vec<TokenType>) -> (r: Result<(), ParserError>)
        ensures
            final(self).tokens() == old(self).tokens(),
            match expect_spec(old(self).tokens(), old(self).position(), tys@) {
                Ok(q) => r is Ok && final(self).position() == q,
                Err((e, q)) => r matches Err(x) && x@ == e && final(self).position() == q,
            },
    {
        let ghost t = self.tokens();
        let ghost p0 = self.position();
        let mut i: usize = 0;
        proof {
            assert(tys@.skip(0) =~= tys@);
        }
        while i < tys.len()
            invariant
                i <= tys@.len(),
                t == old(self).tokens(),
                p0 == old(self).position(),
                self.tokens() == t,
                expect_spec(t, p0, tys@) == expect_spec(t, self.position(), tys@.skip(i as int)),
            decreases tys@.len() - i,
        {
            proof {
                assert(tys@.skip(i as int)[0] == tys@[i as int]);
                assert(tys@.skip(i as int).drop_first() =~= tys@.skip(i + 1));
            }
            self.consume(tys[i])?;
            i = i + 1;
        }
        proof {
            assert(tys@.skip(i as int).len() == 0);
        }
        Ok(())
    }

    fn parse_value(&mut self, env: &Env) -> (r: Result<Value, ParserError>)
        ensures
            final(self).tokens() == old(self).tokens(),
            match value_spec(old(self).tokens(), old(self).position(), env@) {
                Ok((v, q)) => r == Ok::<Value, ParserError>(v) && final(self).position() == q,
                Err((e, q)) => r matches Err(x) && x@ == e && final(self).position() == q,
            },
    {
        proof {
            use_type_invariant(&*self);
        }
        let ghost t = self.tokens();
        let ghost p0 = self.position();
        let ty = self.peek()?;
        if ty == TokenType::Number {
            let i = self.consume(TokenType::Number)?;
            match parse_u16(self.tokens[i].value.as_str()) {
                Ok(n) => Ok(Value::Number(n)),
                Err(k) => Err(int_error(k)),
            }
        } else if ty == TokenType::At {
            let start = self.current;
            let shape = vec![
                TokenType::At,
                TokenType::LParen,
                TokenType::Number,
                TokenType::Comma,
                TokenType::Number,
                TokenType::Comma,
                TokenType::Number,
                TokenType::RParen,
            ];
            proof {
                assert(shape@ =~= rgb_shape());
                lemma_expect_spec_advances(t, p0, rgb_shape());
            }
            self.expect_types(&shape)?;
            proof {
                use_type_invariant(&*self);
            }
            let r = match parse_u8(self.tokens[start + 2].value.as_str()) {
                Ok(v) => v,
                Err(k) => {
                    return Err(int_error(k));
                },
            };
            let g = match parse_u8(self.tokens[start + 4].value.as_str()) {
                Ok(v) => v,
                Err(k) => {
                    return Err(int_error(k));
                },
            };
            let b = match parse_u8(self.tokens[start + 6].value.as_str()) {
                Ok(v) => v,
                Err(k) => {
                    return Err(int_error(k));
                },
            };
            Ok(Value::RGB(r, g, b))
        } else if ty == TokenType::Ident {
            let i = self.consume(TokenType::Ident)?;
            let name = self.tokens[i].value.as_str();
            match env.get(name) {
                Some(v) => Ok(*v),
                None => Err(unbound_message(name)),
            }
        } else {
            Err(message("Expected Number, Identifier or RGB."))
        }
    }

    /// Reads an assignment `#name = value` and binds `name` in `env`.
    pub fn parse_assign(&mut self, env: &mut Env) -> (r: Result<(), ParserError>)
        ensures
            final(self).tokens() == old(self).tokens(),
            match assign_spec(old(self).tokens(), old(self).position(), old(env)@) {
                Ok((bound, q)) => r is Ok && final(env)@ == bound && final(self).position() == q,
                Err((e, q)) => r matches Err(x) && x@ == e && final(env)@ == old(env)@
                    && final(self).position() == q,
            },
    {
        let i = self.consume(TokenType::Ident)?;
        let name = self.tokens[i].value.clone();
        self.consume(TokenType::Equal)?;
        let v = self.parse_value(env)?;
        env.insert(name.as_str(), v);
        Ok(())
    }
}

impl Parser {
    /// Reads attributes `[width, height, border colour, highlight]` into
    /// `attr`; slots may be left empty, and slots past the fourth are skipped.
    #[verifier::loop_isolation(false)]
    fn parse_attr(&mut self, attr: &mut Attr, env: &Env) -> (r: Result<(), ParserError>)
        ensures
            final(self).tokens() == old(self).tokens(),
            match attr_spec(old(self).tokens(), old(self).position(), *old(attr), env@) {
                Ok((a, q)) => r is Ok && *final(attr) == a && final(self).position() == q,
                Err((e, q)) => r matches Err(x) && x@ == e && final(self).position() == q,
            },
            *final(attr) == attr_last(old(self).tokens(), old(self).position(), *old(attr), env@),
    {
        let ghost t = self.tokens();
        let ghost p0 = self.position();
        let ghost a0 = *attr;
        self.consume(TokenType::LBracket)?;
        let ghost p1 = self.position();
        let mut pos: usize = 0;
        loop
            invariant
                t == old(self).tokens(),
                p0 == old(self).position(),
                a0 == *old(attr),
                self.tokens() == t,
                p1 == p0 + 1,
                0 <= pos <= self.position() - p1,
                self.position() <= t.len(),
                attr_spec(t, p0, a0, env@) == attr_items_spec(t, self.position(), *attr, pos as int, env@),
                attr_last(t, p0, a0, env@) == attr_items_last(t, self.position(), *attr, pos as int, env@),
            decreases t.len() - self.position(),
        {
            proof {
                use_type_invariant(&*self);
            }
            let ghost pc = self.position();
            let ghost ac = *attr;
            let t_type = self.peek()?;
            if t_type == TokenType::RBracket {
                break;
            }
            if t_type == TokenType::Comma {
                self.consume(TokenType::Comma)?;
                pos = pos + 1;
                continue;
            }
            proof {
                lemma_value_spec_advances(t, pc, env@);
            }
            if pos == 0 {
                match self.parse_value(env)? {
                    Value::Number(w) => {
                        attr.width = w;
                    },
                    _ => {
                        return Err(message("Width must be a number"));
                    },
                }
            } else if pos == 1 {
                match self.parse_value(env)? {
                    Value::Number(h) => {
                        attr.height = h;
                    },
                    _ => {
                        return Err(message("Height must be a number"));
                    },
                }
            } else if pos == 2 {
                match self.parse_value(env)? {
                    Value::RGB(r, g, b) => {
                        attr.border_color = Some(Color::Rgb(r, g, b));
                    },
                    _ => {
                        return Err(message("Border color must be RGB"));
                    },
                }
            } else if pos == 3 {
                match self.parse_value(env)? {
                    Value::RGB(r, g, b) => {
                        attr.highlight = Some(Color::Rgb(r, g, b));
                    },
                    _ => {
                        return Err(message("Highlight must be RGB"));
                    },
                }
            } else {
                self.advance()?;
            }
            proof {
                use_type_invariant(&*self);
            }
            if self.peek()? == TokenType::Comma {
                self.consume(TokenType::Comma)?;
                pos = pos + 1;
            }
        }
        self.consume(TokenType::RBracket)?;
        Ok(())
    }

    /// Reads a row `:| ... |-`.
    #[verifier::loop_isolation(false)]
    fn parse_line(&mut self, env: &Env) -> (r: Result<Vec<Button>, ParserError>)
        ensures
            final(self).tokens() == old(self).tokens(),
            match line_spec(old(self).tokens(), old(self).position(), env@) {
                Ok((items, q)) => r matches Ok(row) && crate::layout::row_view(row@) == items
                    && final(self).position() == q,
                Err((e, q)) => r matches Err(x) && x@ == e && final(self).position() == q,
            },
    {
        let ghost t = self.tokens();
        let ghost p0 = self.position();
        let mut row: Vec<Button> = Vec::new();
        self.consume(TokenType::LineHead)?;
        self.consume(TokenType::Split)?;
        let ghost p2 = self.position();
        loop
            invariant
                t == old(self).tokens(),
                p0 == old(self).position(),
                self.tokens() == t,
                p2 == p0 + 2,
                line_spec(t, p0, env@) == match after_items(
                    crate::layout::row_view(row@),
                    line_items_spec(t, self.position(), env@),
                ) {
                    Err(e) => Err(e),
                    Ok((items, p3)) => match consume_spec(t, p3, TokenType::LineTail) {
                        Err(e) => Err(e),
                        Ok((_, p4)) => Ok((items, p4)),
                    },
                },
            decreases t.len() - self.position(),
        {
            proof {
                use_type_invariant(&*self);
            }
            let ghost pc = self.position();
            let ghost done = crate::layout::row_view(row@);
            if !(self.current < self.tokens.len()) {
                break;
            }
            if self.peek()? == TokenType::LineTail {
                break;
            }
            let i = self.consume(TokenType::Name)?;
            let name_str = self.tokens[i].value.clone();
            let mut binds: Vec<(String, Option<VirtualKey>)> = Vec::new();
            binds.push((name_str.clone(), virtual_key_from_name(name_str.as_str())));
            let mut attr = Attr::default(name_str.as_str());
            let ghost p1 = self.position();
            let ghost first = seq![(name_str@, key_of_name(name_str@))];
            proof {
                assert(binds_view(binds@) =~= first);
            }
            loop
                invariant
                    self.tokens() == t,
                    pc < p1 <= self.position(),
                    binds_spec(t, p1, first) == binds_spec(t, self.position(), binds_view(binds@)),
                decreases t.len() - self.position(),
            {
                proof {
                    use_type_invariant(&*self);
                }
                let ghost bc = binds@;
                if self.peek()? != TokenType::Comma {
                    break;
                }
                self.consume(TokenType::Comma)?;
                let j = self.consume(TokenType::Name)?;
                let nm = self.tokens[j].value.clone();
                binds.push((nm.clone(), virtual_key_from_name(nm.as_str())));
                proof {
                    assert(binds_view(binds@) =~= binds_view(bc).push((nm@, key_of_name(nm@))));
                }
            }
            let ghost p_attr = self.position();
            proof {
                lemma_attr_spec_advances(t, p_attr, attr, env@);
            }
            if self.peek()? == TokenType::LBracket {
                self.parse_attr(&mut attr, env)?;
            }
            let ghost bv = binds_view(binds@);
            row.push(Button { attr, binds });
            proof {
                assert(crate::layout::row_view(row@) =~= done.push((attr, bv)));
            }
            self.consume(TokenType::Split)?;
            proof {
                let rest = line_items_spec(t, self.position(), env@);
                assert(after_items(done, line_items_spec(t, pc, env@)) == after_items(
                    done.push((attr, bv)),
                    rest,
                )) by {
                    if let Ok((items, q)) = rest {
                        assert(done + (seq![(attr, bv)] + items) =~= done.push((attr, bv)) + items);
                    }
                }
            }
        }
        proof {
            assert(crate::layout::row_view(row@) + Seq::<ButtonView>::empty() =~= crate::layout::row_view(row@));
        }
        self.consume(TokenType::LineTail)?;
        Ok(row)
    }

    /// Reads a whole layout: assignments update `env`, rows become the rows
    /// of the layout. Reading ends at the last token, or at a token that
    /// starts neither an assignment nor a row.
    #[verifier::loop_isolation(false)]
    pub fn parse(&mut self, env: &mut Env) -> (r: Result<Layout, ParserError>)
        ensures
            final(self).tokens() == old(self).tokens(),
            ({
                let (res, q, bound) = rows_spec(old(self).tokens(), old(self).position(), old(env)@);
                &&& final(env)@ == bound
                &&& final(self).position() == q
                &&& match res {
                    Ok(rows) => r matches Ok(l) && l@ == rows,
                    Err(e) => r matches Err(x) && x@ == e,
                }
            }),
    {
        let ghost t = self.tokens();
        let ghost p0 = self.position();
        let ghost e0 = env@;
        let mut layer: Vec<Vec<Button>> = Vec::new();
        loop
            invariant
                t == old(self).tokens(),
                p0 == old(self).position(),
                e0 == old(env)@,
                self.tokens() == t,
                rows_spec(t, p0, e0) == after_rows(
                    layer@.map_values(|row: Vec<Button>| crate::layout::row_view(row@)),
                    rows_spec(t, self.position(), env@),
                ),
            decreases t.len() - self.position(),
        {
            proof {
                use_type_invariant(&*self);
            }
            let ghost pc = self.position();
            let ghost done = layer@.map_values(|row: Vec<Button>| crate::layout::row_view(row@));
            if !(self.current < self.tokens.len()) {
                break;
            }
            let ty = self.peek()?;
            if ty == TokenType::Ident {
                proof {
                    lemma_assign_spec_advances(t, pc, env@);
                }
                self.parse_assign(env)?;
            } else if ty == TokenType::LineHead {
                proof {
                    lemma_line_spec_advances(t, pc, env@);
                }
                let row = self.parse_line(env)?;
                let ghost rv = crate::layout::row_view(row@);
                layer.push(row);
                proof {
                    assert(layer@.map_values(|row: Vec<Button>| crate::layout::row_view(row@)) =~= done.push(rv));
                    let rest = rows_spec(t, self.position(), env@);
                    if let Ok(rows) = rest.0 {
                        assert(done + (seq![rv] + rows) =~= done.push(rv) + rows);
                    }
                }
            } else {
                break;
            }
        }
        proof {
            assert(layer@.map_values(|row: Vec<Button>| crate::layout::row_view(row@)) + Seq::<Seq<ButtonView>>::empty() =~= layer@.map_values(|row: Vec<Button>| crate::layout::row_view(row@)));
        }
        Ok(Layout { layer })
    }
}

/// A variable reads back what an assignment gave it: after `#name = value`
/// succeeds, `name` is bound to the value read, and reading `#name` gives it.
pub proof fn lemma_assignment_reads_back(t: Seq<TokenView>, p: int, env: Map<Seq<char>, Value>)
    requires
        assign_spec(t, p, env) is Ok,
    ensures
        ({
            let (bound, _) = assign_spec(t, p, env)->Ok_0;
            let name = t[p].1;
            &&& value_spec(t, p + 2, env) matches Ok((v, _))
            &&& bound.contains_key(name)
            &&& bound[name] == v
            &&& value_spec(seq![(TokenType::Ident, name)], 0, bound) == Ok::<
                (Value, int),
                (ParserErrorView, int),
            >((v, 1))
        }),
{
}

/// Reading a layout never unbinds a variable: every variable bound before is
/// still bound after, whether reading succeeds or not.
pub proof fn lemma_rows_keep_bindings(t: Seq<TokenView>, p: int, env: Map<Seq<char>, Value>)
    ensures
        env.dom().subset_of(rows_spec(t, p, env).2.dom()),
    decreases t.len() - p,
{
    if 0 <= p < t.len() {
        if t[p].0 == TokenType::Ident {
            if let Ok((env2, q)) = assign_spec(t, p, env) {
                lemma_assign_spec_advances(t, p, env);
                lemma_rows_keep_bindings(t, q, env2);
            }
        } else if t[p].0 == TokenType::LineHead {
            if let Ok((row, q)) = line_spec(t, p, env) {
                lemma_line_spec_advances(t, p, env);
                lemma_rows_keep_bindings(t, q, env);
            }
        }
    }
}

/// Rows come out in the order they are written: when a row `r1` is read at
/// `p` and a row `r2` right after it, a successful read of the layout from
/// `p` starts with `r1` and then `r2`.
pub proof fn lemma_rows_in_text_order(
    t: Seq<TokenView>,
    p: int,
    env: Map<Seq<char>, Value>,
    r1: Seq<ButtonView>,
    q: int,
    r2: Seq<ButtonView>,
    q2: int,
)
    requires
        line_spec(t, p, env) == Ok::<(Seq<ButtonView>, int), (ParserErrorView, int)>((r1, q)),
        line_spec(t, q, env) == Ok::<(Seq<ButtonView>, int), (ParserErrorView, int)>((r2, q2)),
    ensures
        rows_spec(t, p, env).0 matches Ok(rows) ==> rows.len() >= 2 && rows[0] == r1 && rows[1] == r2,
{
    lemma_line_spec_advances(t, p, env);
    lemma_line_spec_advances(t, q, env);
    assert(0 <= p < t.len() && t[p].0 == TokenType::LineHead);
    assert(0 <= q < t.len() && t[q].0 == TokenType::LineHead);
    let rest2 = rows_spec(t, q2, env);
    let rest1 = rows_spec(t, q, env);
    assert(rest1.0 == match rest2.0 {
        Ok(rows) => Ok(seq![r2] + rows),
        Err(e) => Err::<Seq<Seq<ButtonView>>, ParserErrorView>(e),
    });
    assert(rows_spec(t, p, env).0 == match rest1.0 {
        Ok(rows) => Ok(seq![r1] + rows),
        Err(e) => Err::<Seq<Seq<ButtonView>>, ParserErrorView>(e),
    });
    if let Ok(rows2) = rest2.0 {
        let all = seq![r1] + (seq![r2] + rows2);
        assert(all[0] == r1);
        assert(all[1] == r2);
    }
}


/// The button a bare name makes: its default attributes and one binding,
/// the name with its key.
pub open spec fn plain_button(n: Seq<char>) -> ButtonView {
    (attr_of_width(default_width(n)), seq![(n, key_of_name(n))])
}

proof fn lemma_plain_items(t: Seq<TokenView>, names: Seq<Seq<char>>, env: Map<Seq<char>, Value>, k: int)
    requires
        0 <= k <= names.len(),
        t.len() > 2 + 2 * (names.len() as int),
        forall|i: int|
            0 <= i < names.len() ==> t[2 + 2 * i] == (TokenType::Name, #[trigger] names[i]) && t[3 + 2
                * i].0 == TokenType::Split,
        t[2 + 2 * (names.len() as int)].0 == TokenType::LineTail,
    ensures
        line_items_spec(t, 2 + 2 * k, env) == Ok::<(Seq<ButtonView>, int), (ParserErrorView, int)>(
            (names.skip(k).map_values(|n: Seq<char>| plain_button(n)), 2 + 2 * (names.len() as int)),
        ),
    decreases names.len() - k,
{
    let p = 2 + 2 * k;
    if k == names.len() {
        assert(names.skip(k).map_values(|n: Seq<char>| plain_button(n)) =~= Seq::<ButtonView>::empty());
    } else {
        lemma_plain_items(t, names, env, k + 1);
        assert(t[p] == (TokenType::Name, names[k]));
        assert(t[p + 1].0 == TokenType::Split);
        let first = seq![(names[k], key_of_name(names[k]))];
        assert(binds_spec(t, p + 1, first) == Ok::<(Seq<BindView>, int), (ParserErrorView, int)>((first, p + 1)));
        assert(names.skip(k).map_values(|n: Seq<char>| plain_button(n)) =~= seq![plain_button(names[k])]
            + names.skip(k + 1).map_values(|n: Seq<char>| plain_button(n)));
    }
}

/// A row written `: |` and then bare names, each followed by `|`, and `-`
/// gives one button per name, in the order written, each with its default
/// attributes and the name bound to its key.
pub proof fn lemma_plain_row(t: Seq<TokenView>, names: Seq<Seq<char>>, env: Map<Seq<char>, Value>)
    requires
        t.len() > 2 + 2 * (names.len() as int),
        t[0].0 == TokenType::LineHead,
        t[1].0 == TokenType::Split,
        forall|i: int|
            0 <= i < names.len() ==> t[2 + 2 * i] == (TokenType::Name, #[trigger] names[i]) && t[3 + 2
                * i].0 == TokenType::Split,
        t[2 + 2 * (names.len() as int)].0 == TokenType::LineTail,
    ensures
        line_spec(t, 0, env) == Ok::<(Seq<ButtonView>, int), (ParserErrorView, int)>(
            (names.map_values(|n: Seq<char>| plain_button(n)), 3 + 2 * (names.len() as int)),
        ),
{
    lemma_plain_items(t, names, env, 0);
    assert(names.skip(0) =~= names);
}


/// Attributes `[$w, $h]` set the width and the height to the two numbers
/// and leave the colours as they were.
pub proof fn lemma_attr_sets_size(
    t: Seq<TokenView>,
    p: int,
    attr: Attr,
    env: Map<Seq<char>, Value>,
    w: nat,
    h: nat,
)
    requires
        0 <= p,
        p + 5 <= t.len(),
        t[p].0 == TokenType::LBracket,
        t[p + 1].0 == TokenType::Number,
        parse_unsigned(t[p + 1].1, u16::MAX as nat) == Ok::<nat, crate::number::IntErrorKind>(w),
        t[p + 2].0 == TokenType::Comma,
        t[p + 3].0 == TokenType::Number,
        parse_unsigned(t[p + 3].1, u16::MAX as nat) == Ok::<nat, crate::number::IntErrorKind>(h),
        t[p + 4].0 == TokenType::RBracket,
    ensures
        attr_spec(t, p, attr, env) == Ok::<(Attr, int), (ParserErrorView, int)>(
            (Attr { width: w as u16, height: h as u16, ..attr }, p + 5),
        ),
{
    let a1 = Attr { width: w as u16, ..attr };
    let a2 = Attr { width: w as u16, height: h as u16, ..attr };
    assert(attr_items_spec(t, p + 4, a2, 1, env) == Ok::<(Attr, int), (ParserErrorView, int)>((a2, p + 5)));
    assert(attr_item_spec(t, p + 3, a1, 1, env) == Ok::<(Attr, int), (ParserErrorView, int)>((a2, p + 4)));
    assert(attr_items_spec(t, p + 3, a1, 1, env) == attr_items_spec(t, p + 4, a2, 1, env));
    assert(attr_item_spec(t, p + 1, attr, 0, env) == Ok::<(Attr, int), (ParserErrorView, int)>((a1, p + 2)));
    assert(attr_items_spec(t, p + 1, attr, 0, env) == attr_items_spec(t, p + 3, a1, 1, env));
}

/// Attributes `[, , #b, #h]` leave the size as it was and set the border
/// colour and the highlight to the colours the variables `b` and `h` hold.
pub proof fn lemma_attr_sets_colours(
    t: Seq<TokenView>,
    p: int,
    attr: Attr,
    env: Map<Seq<char>, Value>,
    r: u8,
    g: u8,
    b: u8,
    r2: u8,
    g2: u8,
    b2: u8,
)
    requires
        0 <= p,
        p + 7 <= t.len(),
        t[p].0 == TokenType::LBracket,
        t[p + 1].0 == TokenType::Comma,
        t[p + 2].0 == TokenType::Comma,
        t[p + 3].0 == TokenType::Ident,
        env.contains_key(t[p + 3].1),
        env[t[p + 3].1] == Value::RGB(r, g, b),
        t[p + 4].0 == TokenType::Comma,
        t[p + 5].0 == TokenType::Ident,
        env.contains_key(t[p + 5].1),
        env[t[p + 5].1] == Value::RGB(r2, g2, b2),
        t[p + 6].0 == TokenType::RBracket,
    ensures
        attr_spec(t, p, attr, env) == Ok::<(Attr, int), (ParserErrorView, int)>(
            (
                Attr {
                    border_color: Some(Color::Rgb(r, g, b)),
                    highlight: Some(Color::Rgb(r2, g2, b2)),
                    ..attr
                },
                p + 7,
            ),
        ),
{
    let a1 = Attr { border_color: Some(Color::Rgb(r, g, b)), ..attr };
    let a2 = Attr { border_color: Some(Color::Rgb(r, g, b)), highlight: Some(Color::Rgb(r2, g2, b2)), ..attr };
    assert(attr_items_spec(t, p + 6, a2, 3, env) == Ok::<(Attr, int), (ParserErrorView, int)>((a2, p + 7)));
    assert(attr_item_spec(t, p + 5, a1, 3, env) == Ok::<(Attr, int), (ParserErrorView, int)>((a2, p + 6)));
    assert(attr_items_spec(t, p + 5, a1, 3, env) == attr_items_spec(t, p + 6, a2, 3, env));
    assert(attr_item_spec(t, p + 3, attr, 2, env) == Ok::<(Attr, int), (ParserErrorView, int)>((a1, p + 4)));
    assert(attr_items_spec(t, p + 3, attr, 2, env) == attr_items_spec(t, p + 5, a1, 3, env));
    assert(attr_items_spec(t, p + 2, attr, 1, env) == attr_items_spec(t, p + 3, attr, 2, env));
    assert(attr_items_spec(t, p + 1, attr, 0, env) == attr_items_spec(t, p + 2, attr, 1, env));
}

/// A colour where the width belongs is refused with "Width must be a
/// number", and the attributes are left as they were.
pub proof fn lemma_attr_width_must_be_number(
    t: Seq<TokenView>,
    p: int,
    attr: Attr,
    env: Map<Seq<char>, Value>,
    r: u8,
    g: u8,
    b: u8,
)
    requires
        0 <= p,
        p + 2 <= t.len(),
        t[p].0 == TokenType::LBracket,
        t[p + 1].0 == TokenType::Ident,
        env.contains_key(t[p + 1].1),
        env[t[p + 1].1] == Value::RGB(r, g, b),
    ensures
        attr_spec(t, p, attr, env) matches Err((e, _)) && e == ParserErrorView::Message(
            "Width must be a number"@,
        ),
        attr_last(t, p, attr, env) == attr,
{
}


/// Further bindings `, a , b ...` of a button are added after the ones
/// read so far, in the order written, each name with its key; reading stops
/// at the first token that is not a comma.
pub proof fn lemma_binds_in_order(
    t: Seq<TokenView>,
    p: int,
    acc: Seq<BindView>,
    names: Seq<Seq<char>>,
)
    requires
        0 <= p,
        p + 2 * (names.len() as int) < t.len(),
        forall|i: int|
            0 <= i < names.len() ==> t[p + 2 * i].0 == TokenType::Comma && t[p + 2 * i + 1] == (
                TokenType::Name,
                #[trigger] names[i],
            ),
        t[p + 2 * (names.len() as int)].0 != TokenType::Comma,
    ensures
        binds_spec(t, p, acc) == Ok::<(Seq<BindView>, int), (ParserErrorView, int)>(
            (
                acc + names.map_values(|n: Seq<char>| (n, key_of_name(n))),
                p + 2 * (names.len() as int),
            ),
        ),
    decreases names.len(),
{
    if names.len() == 0 {
        assert(acc + names.map_values(|n: Seq<char>| (n, key_of_name(n))) =~= acc);
    } else {
        let rest = names.drop_first();
        let acc2 = acc.push((names[0], key_of_name(names[0])));
        assert forall|i: int| 0 <= i < rest.len() implies t[p + 2 + 2 * i].0 == TokenType::Comma && t[p + 2
            + 2 * i + 1] == (TokenType::Name, #[trigger] rest[i]) by {
            assert(rest[i] == names[i + 1]);
            assert(t[p + 2 * (i + 1)].0 == TokenType::Comma);
        }
        lemma_binds_in_order(t, p + 2, acc2, rest);
        assert(t[p].0 == TokenType::Comma);
        assert(t[p + 1] == (TokenType::Name, names[0]));
        assert(acc2 + rest.map_values(|n: Seq<char>| (n, key_of_name(n))) =~= acc + names.map_values(
            |n: Seq<char>| (n, key_of_name(n)),
        ));
    }
}

} // verus!
