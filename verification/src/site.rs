//! The decisions of the website around the keyboard: its pages and how
//! keys and the mouse move between them, the REPL input line, scrolling,
//! text wrapping, the tab carousel, list and link areas, markdown and text
//! sections, page transitions, and the generated effect showcase.

pub mod page;
pub mod keys;
pub mod ui;
pub mod pointer;
pub mod mouse;
pub mod showcase;
pub mod wrap;
pub mod scroll;
pub mod tabs;
pub mod lists;
pub mod markdown;
pub mod transition;
pub mod links;
pub mod sections;
