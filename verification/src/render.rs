//! The renderer: a pure projection of the editor state onto a bounded frame.
//!
//! For each of up to `display_size.rows` consecutive lines starting at the
//! viewport row, the visible part of the line is the slice that starts at the
//! viewport column (nothing when the viewport column lies past the line's
//! end) and holds at most `display_size.columns` characters.  The frame also
//! carries where the terminal's native cursor is to be placed.

use vstd::prelude::*;

use crate::editor::{Editor, EditorMode};
use crate::text::{
    find_line_break, lemma_line_break_from, lemma_line_start_bounds, lemma_row_exists, line_at,
    line_count, line_len, line_start, line_start_of,
};

verus! {

/// The part of the line with index `row` that a viewport at column `offset_column`
/// with `columns` columns shows.
pub open spec fn visible_slice(s: Seq<char>, row: int, offset_column: int, columns: int) -> Seq<
    char,
> {
    let l = line_at(s, row);
    if offset_column <= l.len() {
        l.subrange(
            offset_column,
            if offset_column + columns <= l.len() {
                offset_column + columns
            } else {
                l.len() as int
            },
        )
    } else {
        Seq::empty()
    }
}

/// One paint pass: the visible rows, top to bottom, and where the terminal's
/// cursor goes.
pub struct RenderFrame {
    /// The visible part of each line in the viewport, one entry per painted row.
    pub lines: Vec<Vec<char>>,
    /// Display column at which the native cursor is placed.
    pub cursor_column: u16,
    /// Display row at which the native cursor is placed.
    pub cursor_row: u16,
}

impl Editor {
    /// Number of rows the frame paints: at most the display height, and at
    /// most the lines at or below the viewport row.
    pub open spec fn spec_visible_rows(self) -> int {
        let remaining = if self.display_position.row <= line_count(self.contents@) {
            line_count(self.contents@) - self.display_position.row
        } else {
            0
        };
        if remaining < self.display_size.rows {
            remaining
        } else {
            self.display_size.rows as int
        }
    }

    /// Display column for the native cursor: the screen column, held back to
    /// the last permissible column of the current row (the row length in
    /// `Edit` mode, one less in `Navigate` mode).
    pub open spec fn spec_render_cursor_column(self) -> u16 {
        let rl = self.spec_row_length();
        let last_column = if self.mode == EditorMode::Edit {
            rl
        } else if rl > 0 {
            rl - 1
        } else {
            0
        };
        if self.cursor.column <= last_column {
            self.cursor.column
        } else {
            last_column as u16
        }
    }

    /// Renders the editor into a frame, assuming nothing about a terminal.
    pub fn render(&self) -> (f: RenderFrame)
        ensures
            f.lines@.len() == self.spec_visible_rows(),
            forall|j: int|
                0 <= j < f.lines@.len() ==> f.lines@[j]@ == visible_slice(
                    self.contents@,
                    self.display_position.row + j,
                    self.display_position.column as int,
                    self.display_size.columns as int,
                ),
            f.cursor_column == self.spec_render_cursor_column(),
            f.cursor_row == self.cursor.row,
    {
        let ghost s = self.contents@;
        let n = self.contents.len();
        let offset_row = self.display_position.row;
        let mut from = line_start_of(&self.contents, offset_row);
        proof {
            lemma_line_start_bounds(s, offset_row as int);
        }
        let rows = self.display_size.rows as usize;
        let mut lines: Vec<Vec<char>> = Vec::new();
        let mut k: usize = 0;
        while k < rows && from < n
            invariant
                n == s.len(),
                s == self.contents@,
                rows == self.display_size.rows,
                k <= rows,
                from == line_start(s, offset_row + k),
                offset_row == self.display_position.row,
                0 <= from <= n,
                lines@.len() == k,
                forall|j: int|
                    0 <= j < k ==> lines@[j]@ == visible_slice(
                        s,
                        offset_row + j,
                        self.display_position.column as int,
                        self.display_size.columns as int,
                    ),
                forall|j: int| 0 <= j < k ==> #[trigger] line_start(s, offset_row + j) < n,
            decreases rows - k,
        {
            let b = find_line_break(&self.contents, from);
            proof {
                lemma_line_break_from(s, from as int);
                assert(line_len(s, offset_row + k) == b - from);
            }
            let mut rowbuf: Vec<char> = Vec::new();
            let offset_column = self.display_position.column;
            let columns = self.display_size.columns as usize;
            if offset_column <= b - from {
                let start = from + offset_column;
                let avail = b - start;
                let take = if columns < avail {
                    columns
                } else {
                    avail
                };
                let mut t: usize = 0;
                while t < take
                    invariant
                        t <= take,
                        s == self.contents@,
                        n == s.len(),
                        start + take <= n,
                        rowbuf@ == s.subrange(start as int, start + t),
                    decreases take - t,
                {
                    rowbuf.push(self.contents[start + t]);
                    t = t + 1;
                    proof {
                        assert(rowbuf@ =~= s.subrange(start as int, start + t));
                    }
                }
                proof {
                    assert(rowbuf@ =~= visible_slice(
                        s,
                        offset_row + k,
                        offset_column as int,
                        columns as int,
                    ));
                }
            } else {
                proof {
                    assert(rowbuf@ =~= visible_slice(
                        s,
                        offset_row + k,
                        offset_column as int,
                        columns as int,
                    ));
                }
            }
            lines.push(rowbuf);
            from = if b < n {
                b + 1
            } else {
                n
            };
            k = k + 1;
        }
        proof {
            let count = line_count(s) as int;
            let orow = offset_row as int;
            if k < rows {
                // the loop stopped because the lines ran out
                lemma_row_exists(s, orow + k);
                assert(orow + k >= count);
                if k > 0 {
                    assert(line_start(s, orow + (k - 1)) < n);
                    lemma_row_exists(s, orow + (k - 1));
                    assert(orow + (k - 1) < count);
                }
            } else if rows > 0 {
                assert(line_start(s, orow + (rows - 1)) < n);
                lemma_row_exists(s, orow + (rows - 1));
                assert(orow + (rows - 1) < count);
            }
        }
        let rl = self.row_length();
        let last_column = match self.mode {
            EditorMode::Edit => rl,
            _ => if rl > 0 {
                rl - 1
            } else {
                0
            },
        };
        let cursor_column = if self.cursor.column as usize <= last_column {
            self.cursor.column
        } else {
            last_column as u16
        };
        RenderFrame { lines, cursor_column, cursor_row: self.cursor.row }
    }
}

} // verus!
