//! A terminal virtual keyboard: a small layout language (lexer, parser and
//! variable environment), the keyboard model it produces, and the decisions
//! that drive its display.

pub mod env;
pub mod chars;
pub mod lexer;
pub mod number;
pub mod virtual_key;
pub mod layout;
pub mod error;
pub mod parser;
pub mod render;
pub mod site;
