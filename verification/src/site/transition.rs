//! The animation that introduces each page when it is shown.

use crate::site::page::Page;
use vstd::prelude::*;

verus! {

/// A direction an animation moves in.
#[derive(Debug, Clone, Copy, PartialEq, Eq, Structural)]
pub enum Motion {
    LeftToRight,
    UpToDown,
}

/// How a page comes in, with the animation's length in milliseconds.
#[derive(Debug, Clone, Copy, PartialEq, Eq, Structural)]
pub enum Transition {
    /// Fades in from the dark background.
    FadeFromDark { ms: u32 },
    /// Sweeps in, `gradient` cells wide with `randomness`.
    SweepIn { motion: Motion, gradient: u16, randomness: u16, ms: u32 },
    /// Dissolves away in a checkerboard pattern.
    CheckerDissolve { ms: u32 },
    /// Coalesces from scattered cells.
    Coalesce { ms: u32 },
}

/// The transition of each page.
pub open spec fn page_transition(p: Page) -> Transition {
    match p {
        Page::Home => Transition::FadeFromDark { ms: 400 },
        Page::Repl => Transition::SweepIn { motion: Motion::LeftToRight, gradient: 10, randomness: 3, ms: 500 },
        Page::Docs => Transition::CheckerDissolve { ms: 300 },
        Page::Blog => Transition::Coalesce { ms: 400 },
        Page::About => Transition::SweepIn { motion: Motion::UpToDown, gradient: 8, randomness: 2, ms: 500 },
        Page::Effects => Transition::Coalesce { ms: 500 },
    }
}

/// The transition that introduces page `p` (see `page_transition`).
pub fn transition_for(p: Page) -> (t: Transition)
    ensures
        t == page_transition(p),
{
    match p {
        Page::Home => Transition::FadeFromDark { ms: 400 },
        Page::Repl => Transition::SweepIn { motion: Motion::LeftToRight, gradient: 10, randomness: 3, ms: 500 },
        Page::Docs => Transition::CheckerDissolve { ms: 300 },
        Page::Blog => Transition::Coalesce { ms: 400 },
        Page::About => Transition::SweepIn { motion: Motion::UpToDown, gradient: 8, randomness: 2, ms: 500 },
        Page::Effects => Transition::Coalesce { ms: 500 },
    }
}

} // verus!
