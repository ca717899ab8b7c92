//! The pages of the site, in tab order.

use vstd::prelude::*;

verus! {

#[derive(Debug, Clone, Copy, PartialEq, Eq, Structural)]
pub enum Page {
    Home,
    Repl,
    Docs,
    Blog,
    About,
    Effects,
}

/// Whether keys move between tabs (`Outer`) or go to the current page
/// (`Focused`).
#[derive(Debug, Clone, Copy, PartialEq, Eq, Structural)]
pub enum FocusMode {
    Outer,
    Focused,
}

/// The number of pages.
pub const PAGE_COUNT: usize = 6;

/// The page at position `i` of the tab order.
pub open spec fn page_at(i: int) -> Page {
    if i == 0 {
        Page::Home
    } else if i == 1 {
        Page::Repl
    } else if i == 2 {
        Page::Docs
    } else if i == 3 {
        Page::Blog
    } else if i == 4 {
        Page::About
    } else {
        Page::Effects
    }
}

/// The position of `p` in the tab order.
pub open spec fn page_index(p: Page) -> int {
    match p {
        Page::Home => 0,
        Page::Repl => 1,
        Page::Docs => 2,
        Page::Blog => 3,
        Page::About => 4,
        Page::Effects => 5,
    }
}

pub open spec fn page_title(p: Page) -> Seq<char> {
    match p {
        Page::Home => "Home"@,
        Page::Repl => "REPL"@,
        Page::Docs => "Docs"@,
        Page::Blog => "Blog"@,
        Page::About => "About"@,
        Page::Effects => "Effects"@,
    }
}

/// The tab before `p`, the last one before the first.
pub open spec fn prev_page(p: Page) -> Page {
    if page_index(p) > 0 {
        page_at(page_index(p) - 1)
    } else {
        page_at(PAGE_COUNT - 1)
    }
}

/// The tab after `p`, the first one after the last.
pub open spec fn next_page(p: Page) -> Page {
    if page_index(p) + 1 < PAGE_COUNT {
        page_at(page_index(p) + 1)
    } else {
        page_at(0)
    }
}

impl Page {
    /// The tab title of the page.
    pub fn title(self) -> (s: &'static str)
        ensures
            s@ == page_title(self),
    {
        match self {
            Page::Home => "Home",
            Page::Repl => "REPL",
            Page::Docs => "Docs",
            Page::Blog => "Blog",
            Page::About => "About",
            Page::Effects => "Effects",
        }
    }

    /// The position of the page in the tab order.
    pub fn index(self) -> (i: usize)
        ensures
            i == page_index(self),
    {
        match self {
            Page::Home => 0,
            Page::Repl => 1,
            Page::Docs => 2,
            Page::Blog => 3,
            Page::About => 4,
            Page::Effects => 5,
        }
    }

    /// The page at position `i` of the tab order.
    pub fn at(i: usize) -> (p: Page)
        requires
            i < PAGE_COUNT,
        ensures
            p == page_at(i as int),
    {
        if i == 0 {
            Page::Home
        } else if i == 1 {
            Page::Repl
        } else if i == 2 {
            Page::Docs
        } else if i == 3 {
            Page::Blog
        } else if i == 4 {
            Page::About
        } else {
            Page::Effects
        }
    }

    /// The tab before this one, wrapping around to the last.
    pub fn prev(self) -> (p: Page)
        ensures
            p == prev_page(self),
    {
        let idx = self.index();
        if idx > 0 {
            Page::at(idx - 1)
        } else {
            Page::at(PAGE_COUNT - 1)
        }
    }

    /// The tab after this one, wrapping around to the first.
    pub fn next(self) -> (p: Page)
        ensures
            p == next_page(self),
    {
        let idx = self.index();
        if idx + 1 < PAGE_COUNT {
            Page::at(idx + 1)
        } else {
            Page::at(0)
        }
    }
}

/// The tab order lists each page once: positions and pages correspond.
pub proof fn lemma_tab_order(i: int, p: Page)
    ensures
        0 <= page_index(p) < PAGE_COUNT,
        page_at(page_index(p)) == p,
        0 <= i < PAGE_COUNT ==> page_index(page_at(i)) == i,
{
}

/// Moving to the next tab and back, or back and then on, returns to the
/// same page.
pub proof fn lemma_prev_next_inverse(p: Page)
    ensures
        prev_page(next_page(p)) == p,
        next_page(prev_page(p)) == p,
{
}

/// The next tab is one position further, the previous one position back,
/// counting around the tab order; so moving on as many times as there are
/// pages returns to the start.
pub proof fn lemma_next_prev_positions(p: Page)
    ensures
        page_index(next_page(p)) == (page_index(p) + 1) % (PAGE_COUNT as int),
        page_index(prev_page(p)) == (page_index(p) + PAGE_COUNT - 1) % (PAGE_COUNT as int),
        next_page(next_page(next_page(next_page(next_page(next_page(p)))))) == p,
{
}

} // verus!
