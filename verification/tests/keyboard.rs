use tvk::env::{Env, Value};
use tvk::error::ParserError;
use tvk::layout::{lisp_keyboard_layout, Attr, Button, Color};
use tvk::lexer::Lexer;
use tvk::number::{decimal_string, parse_u16, parse_u8, IntErrorKind};
use tvk::parser::Parser;
use tvk::render::{
    active_bind_index, button_face, centered_row, get_highlight, global_border_color, global_highlight,
    row_total_width,
};
use tvk::virtual_key::{key_for_char, to_ascii_lower, virtual_key_from_name, VirtualKey};

fn parse_text(src: &str, env: &mut Env) -> Result<tvk::layout::Layout, ParserError> {
    let mut lexer = Lexer::new(src);
    let tokens = lexer.tokenization();
    let mut parser = Parser::new(tokens);
    parser.parse(env)
}

fn message(r: Result<tvk::layout::Layout, ParserError>) -> String {
    match r {
        Err(ParserError::Message(m)) => m,
        Err(e) => panic!("unexpected error {:?}", e),
        Ok(_) => panic!("expected an error"),
    }
}

#[test]
fn env_starts_with_border_color() {
    let env = Env::new();
    assert_eq!(env.get("border_color"), Some(&Value::RGB(176, 176, 176)));
    assert_eq!(env.get("highlight"), None);
}

#[test]
fn env_reads_back_what_was_written() {
    let mut env = Env::new();
    env.insert("w", Value::Number(7));
    assert_eq!(env.get("w"), Some(&Value::Number(7)));
    env.insert("w", Value::RGB(1, 2, 3));
    assert_eq!(env.get("w"), Some(&Value::RGB(1, 2, 3)));
    assert_eq!(env.get("border_color"), Some(&Value::RGB(176, 176, 176)));
}

#[test]
fn attr_default_widths() {
    assert_eq!(Attr::default("SPACE").width, 20);
    assert_eq!(Attr::default("Space").width, 20);
    assert_eq!(Attr::default("space").width, 20);
    assert_eq!(Attr::default("a").width, 4);
    assert_eq!(Attr::default("a").height, 3);
    assert_eq!(Attr::default("a").border_color, None);
    assert_eq!(Attr::with_width(9).width, 9);
}

#[test]
fn buttons_with_one_or_two_bindings() {
    let b = Button::key("⌫", Some(VirtualKey::Backspace), 6);
    assert_eq!(b.attr.width, 6);
    assert_eq!(b.binds, vec![(String::from("⌫"), Some(VirtualKey::Backspace))]);
    let s = Button::key_shift("1", "@", Some(VirtualKey::Num1), 3);
    assert_eq!(
        s.binds,
        vec![(String::from("1"), Some(VirtualKey::Num1)), (String::from("@"), Some(VirtualKey::ShiftLeft))]
    );
}

#[test]
fn lisp_layout_rows() {
    let l = lisp_keyboard_layout();
    let counts: Vec<usize> = l.layer.iter().map(|r| r.len()).collect();
    assert_eq!(counts, vec![12, 11, 10, 10, 8]);
    assert_eq!(l.layer[0][0].binds[0].0, "(");
    assert_eq!(l.layer[0][0].binds[1].0, "[");
    assert_eq!(l.layer[1][10].binds[0].0, "⌫");
    assert_eq!(l.layer[1][10].attr.width, 6);
    assert_eq!(l.layer[2][9].binds[0].0, "↵");
    assert_eq!(l.layer[2][9].attr.width, 9);
    assert_eq!(l.layer[3][0].binds, vec![(String::from("⇧"), Some(VirtualKey::ShiftLeft))]);
    assert_eq!(l.layer[4][2].binds[0], (String::from(" "), Some(VirtualKey::Space)));
    assert_eq!(l.layer[4][2].attr.width, 12);
    assert_eq!(row_total_width(&l.layer[0]), 36);
    assert_eq!(row_total_width(&l.layer[4]), 3 + 3 + 12 + 3 + 3 + 3 + 3 + 4);
}

#[test]
fn parse_assignment_and_use() {
    let mut env = Env::new();
    let l = parse_text("#w = $7 :| A [#w] |-", &mut env).unwrap();
    assert_eq!(env.get("w"), Some(&Value::Number(7)));
    assert_eq!(l.layer[0][0].attr.width, 7);
    assert_eq!(l.layer[0][0].binds[0], (String::from("A"), Some(VirtualKey::KeyA)));
}

#[test]
fn parse_all_attribute_slots() {
    let mut env = Env::new();
    let l = parse_text(":| A [$5, $2, @($1, $2, $3), @($4, $5, $6)] |-", &mut env).unwrap();
    let a = l.layer[0][0].attr;
    assert_eq!(a.width, 5);
    assert_eq!(a.height, 2);
    assert_eq!(a.border_color, Some(Color::Rgb(1, 2, 3)));
    assert_eq!(a.highlight, Some(Color::Rgb(4, 5, 6)));
}

#[test]
fn parse_error_unbound_variable() {
    let mut env = Env::new();
    assert_eq!(message(parse_text(":| A [#nope] |-", &mut env)), "Unbound Variable \"nope\".");
}

#[test]
fn parse_error_expected_token() {
    let mut env = Env::new();
    assert_eq!(message(parse_text(":| A B |-", &mut env)), "Expected Split, found Name");
}

#[test]
fn parse_error_end_of_input() {
    let mut env = Env::new();
    assert_eq!(message(parse_text(":| A", &mut env)), "EOF");
}

#[test]
fn parse_error_bad_value() {
    let mut env = Env::new();
    assert_eq!(message(parse_text("#a = |", &mut env)), "Expected Number, Identifier or RGB.");
}

#[test]
fn parse_error_slot_kinds() {
    let mut env = Env::new();
    assert_eq!(message(parse_text(":| A [@($1, $2, $3)] |-", &mut env)), "Width must be a number");
    assert_eq!(message(parse_text(":| A [$1, @($1, $2, $3)] |-", &mut env)), "Height must be a number");
    assert_eq!(message(parse_text(":| A [$1, $1, $1] |-", &mut env)), "Border color must be RGB");
    assert_eq!(
        message(parse_text(":| A [$1, $1, @($1, $1, $1), $1] |-", &mut env)),
        "Highlight must be RGB"
    );
}

#[test]
fn parse_error_number_out_of_range() {
    let mut env = Env::new();
    match parse_text("#c = @($300, $0, $0)", &mut env) {
        Err(ParserError::ParseIntError(k)) => assert_eq!(k, IntErrorKind::PosOverflow),
        other => panic!("unexpected {:?}", other.map(|l| l.layer.len())),
    }
    match parse_text("#n = $70000", &mut env) {
        Err(ParserError::ParseIntError(k)) => assert_eq!(k, IntErrorKind::PosOverflow),
        other => panic!("unexpected {:?}", other.map(|l| l.layer.len())),
    }
}

#[test]
fn parse_stops_at_other_tokens() {
    let mut env = Env::new();
    let l = parse_text(":| A |- = :| B |-", &mut env).unwrap();
    assert_eq!(l.layer.len(), 1);
}

#[test]
fn number_parsing() {
    assert_eq!(parse_u8("255"), Ok(255));
    assert_eq!(parse_u8("+7"), Ok(7));
    assert_eq!(parse_u8("256"), Err(IntErrorKind::PosOverflow));
    assert_eq!(parse_u8(""), Err(IntErrorKind::Empty));
    assert_eq!(parse_u8("+"), Err(IntErrorKind::InvalidDigit));
    assert_eq!(parse_u8("1a"), Err(IntErrorKind::InvalidDigit));
    assert_eq!(parse_u16("65535"), Ok(65535));
    assert_eq!(parse_u16("65536"), Err(IntErrorKind::PosOverflow));
    assert_eq!(parse_u16("0042"), Ok(42));
}

#[test]
fn decimal_strings() {
    assert_eq!(decimal_string(0), "0");
    assert_eq!(decimal_string(9), "9");
    assert_eq!(decimal_string(10), "10");
    assert_eq!(decimal_string(18446744073709551615), "18446744073709551615");
}

#[test]
fn key_names() {
    assert_eq!(virtual_key_from_name("a"), Some(VirtualKey::KeyA));
    assert_eq!(virtual_key_from_name("Q"), Some(VirtualKey::KeyQ));
    assert_eq!(virtual_key_from_name("7"), Some(VirtualKey::Num7));
    assert_eq!(virtual_key_from_name(" "), Some(VirtualKey::Space));
    assert_eq!(virtual_key_from_name("Tab"), Some(VirtualKey::Tab));
    assert_eq!(virtual_key_from_name("Back"), Some(VirtualKey::Backspace));
    assert_eq!(virtual_key_from_name("Enter"), Some(VirtualKey::Return));
    assert_eq!(virtual_key_from_name("Esc"), Some(VirtualKey::Escape));
    assert_eq!(virtual_key_from_name("Shift"), Some(VirtualKey::ShiftLeft));
    assert_eq!(virtual_key_from_name("("), None);
    assert_eq!(virtual_key_from_name("Nope"), None);
    assert_eq!(key_for_char('z'), Some(VirtualKey::KeyZ));
    assert_eq!(to_ascii_lower('K'), 'k');
    assert_eq!(to_ascii_lower('é'), 'é');
}

#[test]
fn highlight_colours() {
    let mut env = Env::new();
    assert_eq!(global_border_color(&env), Color::Rgb(176, 176, 176));
    assert_eq!(global_highlight(&env), Color::Rgb(207, 181, 59));
    assert_eq!(get_highlight(1, &env), Color::Rgb(176, 176, 176));
    env.insert("highlight_l1", Value::RGB(9, 8, 7));
    assert_eq!(get_highlight(1, &env), Color::Rgb(9, 8, 7));
    env.insert("highlight", Value::RGB(1, 1, 1));
    assert_eq!(global_highlight(&env), Color::Rgb(1, 1, 1));
    env.insert("border_color", Value::Number(3));
    assert_eq!(global_border_color(&env), Color::Rgb(55, 60, 70));
}

#[test]
fn pressed_buttons_show_their_last_pressed_binding() {
    let env = Env::new();
    let b = Button::key_shift("q", "Q", Some(VirtualKey::KeyQ), 3);
    assert_eq!(active_bind_index(&b, &vec![]), None);
    assert_eq!(active_bind_index(&b, &vec![VirtualKey::KeyQ]), Some(0));
    assert_eq!(active_bind_index(&b, &vec![VirtualKey::KeyQ, VirtualKey::ShiftLeft]), Some(1));
    let gold = Color::Rgb(207, 181, 59);
    let grey = Color::Rgb(55, 60, 70);
    let idle = button_face(&b, &vec![], &env, grey, gold);
    assert_eq!(idle.name, "q");
    assert_eq!(idle.active_background, None);
    assert_eq!(idle.border, grey);
    let down = button_face(&b, &vec![VirtualKey::KeyQ], &env, grey, gold);
    assert_eq!(down.name, "q");
    assert_eq!(down.active_background, Some(gold));
    let shifted = button_face(&b, &vec![VirtualKey::ShiftLeft], &env, grey, gold);
    assert_eq!(shifted.name, "Q");
    assert_eq!(shifted.active_background, Some(Color::Rgb(176, 176, 176)));
}

#[test]
fn rows_are_centred() {
    assert_eq!(centered_row(10, 40, 30), (15, 30));
    assert_eq!(centered_row(10, 20, 30), (10, 20));
    assert_eq!(centered_row(0, 7, 4), (1, 4));
}

#[test]
fn lexing_ignores_surrounding_whitespace() {
    let mut a = Lexer::new(":| A |-");
    let mut b = Lexer::new("  \n\t:| A |-");
    assert_eq!(a.tokenization(), b.tokenization());
    let mut blank = Lexer::new(" \n\t ");
    assert!(blank.tokenization().is_empty());
    let mut one = Lexer::new("  x");
    assert_eq!(one.next_token().map(|t| t.value), Some("x".to_string()));
    assert_eq!(one.next_token(), None);
}

#[test]
fn parsing_keeps_earlier_bindings() {
    let mut env = Env::new();
    env.insert("mine", Value::Number(2));
    parse_text("#w = $3 :| A |-", &mut env).unwrap();
    assert_eq!(env.get("mine"), Some(&Value::Number(2)));
    assert_eq!(env.get("border_color"), Some(&Value::RGB(176, 176, 176)));
    assert_eq!(env.get("w"), Some(&Value::Number(3)));
}
