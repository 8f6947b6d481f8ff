//! The popup that lists the key bindings, and how far it is scrolled.
use vstd::prelude::*;

verus! {

/// `a + 1`, capped at `max` and at `u16::MAX`.
pub open spec fn step_up(a: u16, max: u16) -> u16 {
    let s = if a < u16::MAX {
        (a + 1) as u16
    } else {
        a
    };
    if s < max {
        s
    } else {
        max
    }
}

/// `a - 1`, or 0.
pub open spec fn step_down(a: u16) -> u16 {
    if a > 0 {
        (a - 1) as u16
    } else {
        0
    }
}

/// Scrolling never goes past the end of the table, and scrolling back right
/// after scrolling forward returns where one was, unless the end was already
/// reached.
pub proof fn law_scroll_stays_within_table(a: u16, max: u16)
    ensures
        step_up(a, max) <= max,
        a <= max ==> step_down(a) <= max,
        a < max ==> step_down(step_up(a, max)) == a,
{
}

pub struct KeymapPopup {
    visible: bool,
    scroll_y: u16,
    scroll_x: u16,
    /// Number of lines of the key bindings table.
    lines: u16,
    /// Width of the longest line of the table.
    line_len: u16,
}

impl KeymapPopup {
    pub closed spec fn is_visible(&self) -> bool {
        self.visible
    }

    pub closed spec fn scroll(&self) -> (u16, u16) {
        (self.scroll_y, self.scroll_x)
    }

    pub closed spec fn table_size(&self) -> (u16, u16) {
        (self.lines, self.line_len)
    }

    /// A hidden popup for a table of `lines` lines, at most `line_len` wide.
    pub fn new(lines: u16, line_len: u16) -> (p: Self)
        ensures
            !p.is_visible(),
            p.scroll() == (0u16, 0u16),
            p.table_size() == (lines, line_len),
    {
        Self { visible: false, scroll_y: 0, scroll_x: 0, lines, line_len }
    }

    /// Shows or hides the popup; it opens scrolled to the top left.
    pub fn toggle(&mut self)
        ensures
            final(self).is_visible() == !old(self).is_visible(),
            final(self).scroll() == if final(self).is_visible() {
                (0u16, 0u16)
            } else {
                old(self).scroll()
            },
            final(self).table_size() == old(self).table_size(),
    {
        self.visible = !self.visible;
        if self.visible {
            self.scroll_y = 0;
            self.scroll_x = 0;
        }
    }

    pub fn go_down(&mut self)
        ensures
            final(self).scroll() == (step_up(old(self).scroll().0, old(self).table_size().0), old(
                self,
            ).scroll().1),
            final(self).is_visible() == old(self).is_visible(),
            final(self).table_size() == old(self).table_size(),
    {
        let s = self.scroll_y.saturating_add(1);
        self.scroll_y = if s < self.lines {
            s
        } else {
            self.lines
        };
    }

    pub fn go_up(&mut self)
        ensures
            final(self).scroll() == (step_down(old(self).scroll().0), old(self).scroll().1),
            final(self).is_visible() == old(self).is_visible(),
            final(self).table_size() == old(self).table_size(),
    {
        self.scroll_y = self.scroll_y.saturating_sub(1);
    }

    pub fn go_right(&mut self)
        ensures
            final(self).scroll() == (old(self).scroll().0, step_up(
                old(self).scroll().1,
                old(self).table_size().1,
            )),
            final(self).is_visible() == old(self).is_visible(),
            final(self).table_size() == old(self).table_size(),
    {
        let s = self.scroll_x.saturating_add(1);
        self.scroll_x = if s < self.line_len {
            s
        } else {
            self.line_len
        };
    }

    pub fn go_left(&mut self)
        ensures
            final(self).scroll() == (old(self).scroll().0, step_down(old(self).scroll().1)),
            final(self).is_visible() == old(self).is_visible(),
            final(self).table_size() == old(self).table_size(),
    {
        self.scroll_x = self.scroll_x.saturating_sub(1);
    }

    pub fn is_shown(&self) -> (b: bool)
        ensures
            b == self.is_visible(),
    {
        self.visible
    }

    /// The scroll position to draw in a popup area of the given size: the
    /// scroll is kept where the rest of the table still fills the area
    /// (inside its border and padding of 2 on each side).
    pub fn visible_scroll(&self, area_height: u16, area_width: u16) -> (s: (u16, u16))
        requires
            area_height >= 4,
            area_width >= 4,
        ensures
            s.0 == min_u16(self.scroll().0, sat_sub_u16(self.table_size().0, (area_height - 4) as u16)),
            s.1 == min_u16(self.scroll().1, sat_sub_u16(self.table_size().1, (area_width - 4) as u16)),
    {
        let max_y = self.lines.saturating_sub(area_height - 4);
        let max_x = self.line_len.saturating_sub(area_width - 4);
        (
            if self.scroll_y < max_y {
                self.scroll_y
            } else {
                max_y
            },
            if self.scroll_x < max_x {
                self.scroll_x
            } else {
                max_x
            },
        )
    }
}

pub open spec fn min_u16(a: u16, b: u16) -> u16 {
    if a < b {
        a
    } else {
        b
    }
}

pub open spec fn sat_sub_u16(a: u16, b: u16) -> u16 {
    if a >= b {
        (a - b) as u16
    } else {
        0
    }
}

} // verus!
