//! The virtual cursor: on which row of the view the terminal's cursor
//! stands, and the relative movements that bring it to another row.

use crate::host::{status_line, Host};
use crate::text::{decimal, push_decimal};
use vstd::prelude::*;
use vstd::string::*;

verus! {

/// The row on which the terminal's cursor is believed to stand, and the
/// number of rows of the view.
#[derive(Debug, Clone, Copy, PartialEq, Eq)]
pub struct Cursor {
    /// The current row, counted from 0.
    pub cur_y: i32,
    /// The number of rows; the row just below the last line.
    pub max_y: i32,
}

/// What has to be written to the terminal to move its cursor from row
/// `from` to row `to`: the sequence for "up by `from - to` rows", the one for
/// "down by `to - from` rows", or nothing where the cursor stands on the row
/// already. Both sequences are relative; none names an absolute position.
pub open spec fn move_sequence(from: int, to: int) -> Seq<char> {
    if to < from {
        "\x1B["@ + decimal((from - to) as nat) + "A"@
    } else if to > from {
        "\x1B["@ + decimal((to - from) as nat) + "B"@
    } else {
        Seq::empty()
    }
}

impl Cursor {
    /// A cursor for a view of `max_y` rows, standing just below the last one.
    pub fn new(max_y: i32) -> (cursor: Cursor)
        ensures
            cursor.cur_y == max_y,
            cursor.max_y == max_y,
    {
        Cursor { cur_y: max_y, max_y }
    }

    /// Moves to row `y` (counted from 0) and returns what has to be written
    /// to the terminal for it. Nothing is to be written where the cursor
    /// stands on row `y` already.
    pub fn go_to(&mut self, y: i32) -> (movement: String)
        ensures
            final(self).cur_y == y,
            final(self).max_y == old(self).max_y,
            movement@ == move_sequence(old(self).cur_y as int, y as int),
            y == old(self).cur_y ==> movement@.len() == 0,
    {
        let from: i64 = self.cur_y as i64;
        let to: i64 = y as i64;
        let mut movement = String::new();
        if to < from {
            movement.append("\x1B[");
            push_decimal(&mut movement, (from - to) as u64);
            movement.append("A");
            assert(movement@ == "\x1B["@ + decimal((from - to) as nat) + "A"@);
        } else if to > from {
            movement.append("\x1B[");
            push_decimal(&mut movement, (to - from) as u64);
            movement.append("B");
            assert(movement@ == "\x1B["@ + decimal((to - from) as nat) + "B"@);
        }
        self.cur_y = y;
        movement
    }

    /// Moves below the last row and returns what has to be written to the
    /// terminal for it.
    pub fn max_out(&mut self) -> (movement: String)
        ensures
            final(self).cur_y == old(self).max_y,
            final(self).max_y == old(self).max_y,
            movement@ == move_sequence(old(self).cur_y as int, old(self).max_y as int),
    {
        let y = self.max_y;
        self.go_to(y)
    }

    /// Renders a decided target on its own row: moves to the row of `host`
    /// and hands back the movement, the status line and the newline that
    /// ends it, all of which are to be written to the terminal. The cursor
    /// then stands on the row below. No movement is written where the
    /// cursor stands on the row of `host` already.
    pub fn render(&mut self, host: &Host) -> (output: String)
        requires
            !(host.status@ is Unknown),
            host.y < i32::MAX,
        ensures
            final(self).cur_y == host.y + 1,
            final(self).max_y == old(self).max_y,
            output@ == move_sequence(old(self).cur_y as int, host.y as int) + status_line(host@)
                + "\n"@,
            host.y == old(self).cur_y ==> output@ == status_line(host@) + "\n"@,
    {
        let mut output = self.go_to(host.y);
        assert(output@.len() == 0 ==> output@ + status_line(host@) == status_line(host@));
        let line = host.print();
        output.append(line.as_str());
        output.append("\n");
        self.was_bumped();
        output
    }

    /// Records that a line was written together with its newline, so that
    /// the terminal's cursor went down one row.
    pub fn was_bumped(&mut self)
        requires
            old(self).cur_y < i32::MAX,
        ensures
            final(self).cur_y == old(self).cur_y + 1,
            final(self).max_y == old(self).max_y,
    {
        self.cur_y = self.cur_y + 1;
    }
}

} // verus!
