//! The view port: which vertical slice of a buffer's lines is visible on
//! the terminal grid, and how it follows the cursor.

use vstd::prelude::*;

verus! {

/// The visible window over a buffer: the terminal grid dimensions and the
/// index of the topmost buffer line currently shown.  Painting the cells is
/// the surrounding binary's business; this type only decides what is
/// visible.
#[derive(Debug, Clone, PartialEq, Eq, Structural)]
pub struct Display {
    /// Width of the grid, in character cells.
    pub width: u16,
    /// Height of the grid, in lines (status chrome excluded).
    pub height: u16,
    /// Index of the topmost buffer line rendered.
    pub first_line_visible: u16,
}

impl Display {
    /// Well-formed: a window at least one line high, placed so that the
    /// line past its bottom is still an addressable line number.
    pub open spec fn wf(&self) -> bool {
        &&& self.height >= 1
        &&& self.first_line_visible + self.height <= u16::MAX
    }

    /// True when `cursor_line` lies inside the visible window.
    pub open spec fn shows(&self, cursor_line: u16) -> bool {
        self.first_line_visible <= cursor_line < self.first_line_visible + self.height
    }

    pub fn new(width: u16, height: u16, first_line_visible: u16) -> (r: Display)
        requires
            height >= 1,
            first_line_visible + height <= u16::MAX,
        ensures
            r.wf(),
            r.width == width,
            r.height == height,
            r.first_line_visible == first_line_visible,
    {
        Display { width, height, first_line_visible }
    }

    /// The visible range of buffer lines, as a half-open pair: the first
    /// line shown, and the line just past the bottom of the window.
    pub fn get_displayable_lines(&self) -> (r: (u16, u16))
        requires
            self.wf(),
        ensures
            r.0 == self.first_line_visible,
            r.1 == self.first_line_visible + self.height,
    {
        (self.first_line_visible, self.first_line_visible + self.height)
    }

    /// The one scrolling rule: a cursor above the window pulls the window
    /// up to start at its line; a cursor below it pushes the window down by
    /// exactly the amount needed to end just after it; a cursor inside it
    /// moves the window not at all.  The cursor line is visible afterwards,
    /// and the window never over-scrolls.
    pub fn scroll_for_cursor(&mut self, cursor_line: u16)
        requires
            old(self).wf(),
            cursor_line + old(self).height <= u16::MAX,
        ensures
            final(self).wf(),
            final(self).width == old(self).width,
            final(self).height == old(self).height,
            cursor_line < old(self).first_line_visible ==> final(self).first_line_visible
                == cursor_line,
            cursor_line >= old(self).first_line_visible + old(self).height
                ==> final(self).first_line_visible == cursor_line - old(self).height + 1,
            old(self).shows(cursor_line)
                ==> final(self).first_line_visible == old(self).first_line_visible,
            final(self).shows(cursor_line),
    {
        if cursor_line < self.first_line_visible {
            self.first_line_visible = cursor_line;
        } else if cursor_line - self.first_line_visible >= self.height {
            self.first_line_visible = cursor_line - self.height + 1;
        }
    }

    /// Updates the grid dimensions and re-applies the scrolling rule for
    /// the current cursor line, so that a terminal resize never leaves the
    /// cursor outside the window.
    pub fn resize(&mut self, width: u16, height: u16, cursor_line: u16)
        requires
            old(self).wf(),
            height >= 1,
            cursor_line + height <= u16::MAX,
        ensures
            final(self).wf(),
            final(self).width == width,
            final(self).height == height,
            final(self).shows(cursor_line),
    {
        self.width = width;
        self.height = height;
        if cursor_line < self.first_line_visible {
            self.first_line_visible = cursor_line;
        } else if cursor_line - self.first_line_visible >= self.height {
            self.first_line_visible = cursor_line - self.height + 1;
        }
    }
}

} // verus!
