//! The buffer editor core: a document, a screen-relative cursor, a viewport
//! offset into the document, a display size and a mode, together with the
//! movement and edit operations over them.
//!
//! The absolute document position of the cursor is the viewport offset plus
//! the screen position; the character index it addresses is the weight of all
//! lines strictly above the absolute row plus the absolute column.  Every
//! operation is specified as a transition function over these values.

use vstd::prelude::*;
use vstd::string::StrSliceExecFns;

use crate::text::{
    find_line_break, lemma_index_in_document, lemma_line_break_from, lemma_line_count_le_len,
    lemma_line_start_bounds, lemma_line_start_sticky, lemma_lines_weight_monotonic,
    lemma_lines_weight_sticky, lemma_row_exists, line_count, line_len, line_start, line_start_of,
    lines_weight, remaining_lines, weight_to_row,
};

verus! {

/// The modes the editor provides.
#[derive(Debug, Clone, Copy, PartialEq, Eq, Structural)]
pub enum EditorMode {
    /// Movement through the document.
    Navigate,
    /// Insertion and removal of text in the document.
    Edit,
}

/// Size of the rendering surface.
#[derive(Debug, Clone, Copy, PartialEq, Eq, Structural)]
pub struct DisplaySize {
    pub columns: u16,
    pub rows: u16,
}

impl DisplaySize {
    pub fn new(columns: u16, rows: u16) -> (s: Self)
        ensures
            s == (DisplaySize { columns, rows }),
    {
        Self { columns, rows }
    }
}

/// Document-relative offset of the viewport's top-left corner.
#[derive(Debug, Clone, Copy, PartialEq, Eq, Structural)]
pub struct DisplayPosition {
    pub column: usize,
    pub row: usize,
}

impl DisplayPosition {
    pub fn new(column: usize, row: usize) -> (p: Self)
        ensures
            p == (DisplayPosition { column, row }),
    {
        Self { column, row }
    }
}

/// Position of the cursor on the display, relative to the viewport.
#[derive(Debug, Clone, Copy, PartialEq, Eq, Structural)]
pub struct CursorPosition {
    pub column: u16,
    pub row: u16,
}

impl CursorPosition {
    pub fn new(column: u16, row: u16) -> (p: Self)
        ensures
            p == (CursorPosition { column, row }),
    {
        Self { column, row }
    }
}

/// The movements that can be handled in `Navigate` mode.
#[derive(Debug, Clone, Copy)]
pub enum CursorMovement {
    Left,
    Right,
    Up,
    Down,
}

/// A discrete input event, as the terminal collaborator delivers it.
#[derive(Debug, Clone, Copy)]
pub enum InputEvent {
    Char(char),
    Enter,
    Backspace,
    Esc,
    Other,
}

/// What the caller of the event dispatch must do next.
#[derive(Debug, Clone, Copy, PartialEq, Eq, Structural)]
pub enum EditorAction {
    /// Repaint and wait for the next event.
    Continue,
    /// Persist the document, then continue.
    Save,
    /// Leave the run loop.
    Quit,
}

/// `x`, clamped into the range of `u16`.
pub open spec fn clamp_to_u16(x: int) -> u16 {
    if x >= u16::MAX as int {
        u16::MAX
    } else if x <= 0 {
        0
    } else {
        x as u16
    }
}

/// `x + 1`, saturating at `u16::MAX`.
pub open spec fn sat_inc_u16(x: u16) -> u16 {
    if x < u16::MAX {
        (x + 1) as u16
    } else {
        u16::MAX
    }
}

/// Cursor after a `Left` move: the screen column steps back, or at the left
/// edge of the viewport the viewport offset does, flooring at zero.
pub open spec fn left_result(cursor: CursorPosition, offset: DisplayPosition) -> (
    CursorPosition,
    DisplayPosition,
) {
    if cursor.column > 0 {
        (CursorPosition { column: (cursor.column - 1) as u16, row: cursor.row }, offset)
    } else {
        (
            cursor,
            DisplayPosition {
                column: if offset.column > 0 {
                    (offset.column - 1) as usize
                } else {
                    0
                },
                row: offset.row,
            },
        )
    }
}

/// Cursor after a `Right` move: while the absolute column is short of the
/// rightmost permissible column (the row length in `Edit` mode, one less in
/// `Navigate` mode), the screen column advances, or at the right edge of the
/// display the viewport offset does.
pub open spec fn right_result(
    doc: Seq<char>,
    mode: EditorMode,
    size: DisplaySize,
    cursor: CursorPosition,
    offset: DisplayPosition,
) -> (CursorPosition, DisplayPosition) {
    let rl = line_len(doc, offset.row + cursor.row);
    let last_column = if mode == EditorMode::Edit {
        rl
    } else if rl > 0 {
        rl - 1
    } else {
        0
    };
    let can_move_right = offset.column + cursor.column < last_column;
    let at_right_of_display = cursor.column == if size.columns > 0 {
        size.columns - 1
    } else {
        0
    };
    if can_move_right && at_right_of_display {
        (cursor, DisplayPosition { column: (offset.column + 1) as usize, row: offset.row })
    } else if can_move_right {
        (CursorPosition { column: sat_inc_u16(cursor.column), row: cursor.row }, offset)
    } else {
        (cursor, offset)
    }
}

/// Re-clamp of the horizontal position after a vertical move: the viewport
/// column is brought within the new row's length, then the screen column
/// within what remains of that length.
pub open spec fn vertical_clamp(
    doc: Seq<char>,
    cursor: CursorPosition,
    offset: DisplayPosition,
) -> (CursorPosition, DisplayPosition) {
    let rl = line_len(doc, offset.row + cursor.row);
    let column2 = if offset.column <= rl {
        offset.column as int
    } else {
        rl
    };
    let limit = clamp_to_u16(rl - column2);
    let cursor_column2 = if cursor.column <= limit {
        cursor.column
    } else {
        limit
    };
    (
        CursorPosition { column: cursor_column2, row: cursor.row },
        DisplayPosition { column: column2 as usize, row: offset.row },
    )
}

/// Cursor after an `Up` move: the screen row steps back, or at the top of the
/// viewport the viewport offset does, flooring at zero; then the columns are
/// re-clamped to the new row.
pub open spec fn up_result(doc: Seq<char>, cursor: CursorPosition, offset: DisplayPosition) -> (
    CursorPosition,
    DisplayPosition,
) {
    let moved = if cursor.row > 0 {
        (CursorPosition { column: cursor.column, row: (cursor.row - 1) as u16 }, offset)
    } else {
        (
            cursor,
            DisplayPosition {
                column: offset.column,
                row: if offset.row > 0 {
                    (offset.row - 1) as usize
                } else {
                    0
                },
            },
        )
    };
    vertical_clamp(doc, moved.0, moved.1)
}

/// Cursor after a `Down` move: while lines remain below the viewport top, the
/// screen row advances, or at the bottom of the display the viewport offset
/// does; then the columns are re-clamped to the new row.
pub open spec fn down_result(
    doc: Seq<char>,
    size: DisplaySize,
    cursor: CursorPosition,
    offset: DisplayPosition,
) -> (CursorPosition, DisplayPosition) {
    let remaining = if offset.row <= line_count(doc) {
        line_count(doc) - offset.row
    } else {
        0
    };
    let row_plus = sat_inc_u16(cursor.row);
    let can_move_down = row_plus < clamp_to_u16(remaining as int);
    let at_bottom_of_display = size.rows == row_plus;
    let moved = if can_move_down && at_bottom_of_display {
        (cursor, DisplayPosition { column: offset.column, row: (offset.row + 1) as usize })
    } else if can_move_down {
        (CursorPosition { column: cursor.column, row: row_plus }, offset)
    } else {
        (cursor, offset)
    };
    vertical_clamp(doc, moved.0, moved.1)
}

/// Character index in the document addressed by a cursor and viewport offset:
/// the weight of all lines strictly above the absolute row, plus the absolute
/// column.
pub open spec fn cursor_index_at(
    doc: Seq<char>,
    cursor: CursorPosition,
    offset: DisplayPosition,
) -> int {
    lines_weight(doc, offset.row + cursor.row) + offset.column + cursor.column
}

/// Document and cursor after inserting `c` at the cursor index: a line break
/// resets the screen column and advances the screen row; any other character
/// advances the screen column.
pub open spec fn insert_result(
    doc: Seq<char>,
    cursor: CursorPosition,
    offset: DisplayPosition,
    c: char,
) -> (Seq<char>, CursorPosition) {
    let doc2 = doc.insert(cursor_index_at(doc, cursor, offset), c);
    if c == '\n' {
        (doc2, CursorPosition { column: 0, row: sat_inc_u16(cursor.row) })
    } else {
        (doc2, CursorPosition { column: sat_inc_u16(cursor.column), row: cursor.row })
    }
}

/// Document and cursor after removing the character before the cursor index;
/// a no-op at index zero.  Removing a line break steps the screen row back
/// and sets the screen column to how much the merged row grew; removing any
/// other character steps the screen column back.
pub open spec fn remove_result(
    doc: Seq<char>,
    cursor: CursorPosition,
    offset: DisplayPosition,
) -> (Seq<char>, CursorPosition) {
    let idx = cursor_index_at(doc, cursor, offset);
    if idx < 1 {
        (doc, cursor)
    } else {
        let removed = doc[idx - 1];
        let current_length = line_len(doc, offset.row + cursor.row);
        let doc2 = doc.remove(idx - 1);
        if removed == '\n' {
            let row2 = if cursor.row > 0 {
                (cursor.row - 1) as u16
            } else {
                0
            };
            let merged_length = line_len(doc2, offset.row + row2);
            let column2 = clamp_to_u16(merged_length - current_length);
            (doc2, CursorPosition { column: column2, row: row2 })
        } else {
            (
                doc2,
                CursorPosition {
                    column: if cursor.column > 0 {
                        (cursor.column - 1) as u16
                    } else {
                        0
                    },
                    row: cursor.row,
                },
            )
        }
    }
}

/// A cursor and viewport address a valid insertion point in `doc`: the
/// absolute row is an existing row (or the row just past the lines of a
/// break-terminated document) and the absolute column lies within that row's
/// line.
pub open spec fn coherent_position(
    doc: Seq<char>,
    cursor: CursorPosition,
    offset: DisplayPosition,
) -> bool {
    &&& offset.row + cursor.row <= line_count(doc)
    &&& offset.column + cursor.column <= line_len(doc, offset.row + cursor.row)
    &&& (offset.row + cursor.row == line_count(doc) && doc.len() > 0 ==> doc[doc.len() - 1]
        == '\n')
}

/// The editor core: text buffer, cursor, viewport and mode.
#[derive(Debug)]
pub struct Editor {
    /// The contents of the buffer.
    pub contents: Vec<char>,
    /// The current position of the cursor on the display.
    pub cursor: CursorPosition,
    /// The size of the display.
    pub display_size: DisplaySize,
    /// The position of the buffer in the display.
    pub display_position: DisplayPosition,
    /// The current mode that the editor is in.
    pub mode: EditorMode,
}

impl Editor {
    /// Absolute document row the cursor sits on.
    pub open spec fn abs_row(self) -> int {
        self.display_position.row + self.cursor.row
    }

    /// Absolute document column the cursor sits on.
    pub open spec fn abs_col(self) -> int {
        self.display_position.column + self.cursor.column
    }

    /// Length of the logical line at the absolute row.
    pub open spec fn spec_row_length(self) -> int {
        line_len(self.contents@, self.abs_row())
    }

    /// Character index in the buffer addressed by the cursor.
    pub open spec fn spec_cursor_index(self) -> int {
        cursor_index_at(self.contents@, self.cursor, self.display_position)
    }

    /// The cursor addresses a valid insertion point: it sits on an existing
    /// row (or on the row just past a break-terminated document), within the
    /// length of that row's line.
    pub open spec fn coherent(self) -> bool {
        coherent_position(self.contents@, self.cursor, self.display_position)
    }

    /// A coherent cursor's index is a valid insertion point in the buffer.
    pub proof fn lemma_coherent_index(self)
        requires
            self.coherent(),
        ensures
            0 <= self.spec_cursor_index() <= self.contents@.len(),
    {
        lemma_line_start_bounds(self.contents@, self.abs_row());
        crate::text::lemma_start_le_weight(self.contents@, self.abs_row());
        lemma_index_in_document(self.contents@, self.abs_row(), self.abs_col());
    }

    /// Two editors agree on everything observable.
    pub open spec fn same_state(self, other: Editor) -> bool {
        &&& self.contents@ == other.contents@
        &&& self.cursor == other.cursor
        &&& self.display_size == other.display_size
        &&& self.display_position == other.display_position
        &&& self.mode == other.mode
    }

    /// Creates a new `Editor` instance with the supplied string copied into its buffer.
    pub fn new(s: &str) -> (e: Self)
        ensures
            e.contents@ == s@,
            e.cursor == (CursorPosition { column: 0, row: 0 }),
            e.display_size == (DisplaySize { columns: 80, rows: 24 }),
            e.display_position == (DisplayPosition { column: 0, row: 0 }),
            e.mode == EditorMode::Navigate,
    {
        let n = s.unicode_len();
        let mut contents: Vec<char> = Vec::new();
        let mut i: usize = 0;
        while i < n
            invariant
                i <= n,
                n == s@.len(),
                contents@ == s@.subrange(0, i as int),
            decreases n - i,
        {
            contents.push(s.get_char(i));
            i = i + 1;
            proof {
                assert(contents@ =~= s@.subrange(0, i as int));
            }
        }
        proof {
            assert(s@.subrange(0, n as int) =~= s@);
        }
        Self {
            contents,
            cursor: CursorPosition { column: 0, row: 0 },
            display_size: DisplaySize { columns: 80, rows: 24 },
            display_position: DisplayPosition { column: 0, row: 0 },
            mode: EditorMode::Navigate,
        }
    }

    /// The absolute row, saturated into `usize`; rows past `usize::MAX` are
    /// beyond every line of the document, so the saturation is harmless.
    fn abs_row_exec(&self) -> (r: usize)
        ensures
            r as int == if self.abs_row() <= usize::MAX as int {
                self.abs_row()
            } else {
                usize::MAX as int
            },
            line_start(self.contents@, r as int) == line_start(self.contents@, self.abs_row()),
            lines_weight(self.contents@, r as int) == lines_weight(
                self.contents@,
                self.abs_row(),
            ),
    {
        let n = self.contents.len();
        let r = match self.display_position.row.checked_add(self.cursor.row as usize) {
            Some(a) => a,
            None => usize::MAX,
        };
        proof {
            if self.abs_row() > usize::MAX as int {
                let s = self.contents@;
                assert(s.len() == n);
                let count = line_count(s) as int;
                lemma_line_count_le_len(s, 0);
                lemma_row_exists(s, count);
                lemma_line_start_sticky(s, count, r as int);
                lemma_line_start_sticky(s, count, self.abs_row());
                lemma_lines_weight_sticky(s, count, r as int);
                lemma_lines_weight_sticky(s, count, self.abs_row());
            }
        }
        r
    }

    /// Determines the length of the row the cursor currently sits on.
    pub fn row_length(&self) -> (r: usize)
        ensures
            r == self.spec_row_length(),
    {
        let ar = self.abs_row_exec();
        let from = line_start_of(&self.contents, ar);
        proof {
            lemma_line_start_bounds(self.contents@, ar as int);
            lemma_line_break_from(self.contents@, from as int);
        }
        let b = find_line_break(&self.contents, from);
        b - from
    }

    /// Determines the position of the cursor in the `contents` buffer.
    pub fn cursor_index(&self) -> (i: usize)
        requires
            self.spec_cursor_index() <= self.contents@.len(),
        ensures
            i == self.spec_cursor_index(),
    {
        let n = self.contents.len();
        let ar = self.abs_row_exec();
        proof {
            assert(self.contents@.len() == n);
            lemma_lines_weight_monotonic(self.contents@, 0, self.abs_row());
        }
        let (acc, _) = weight_to_row(&self.contents, ar);
        acc + self.display_position.column + self.cursor.column as usize
    }

    /// Whether the cursor currently addresses a valid insertion point, that
    /// is, an index no greater than the buffer's length.
    pub fn cursor_in_document(&self) -> (b: bool)
        ensures
            b == (self.spec_cursor_index() <= self.contents@.len()),
    {
        let s = self.contents.len();
        let ar = self.abs_row_exec();
        let ghost doc = self.contents@;
        let mut acc: usize = 0;
        let mut from: usize = 0;
        let mut r: usize = 0;
        while r < ar && from < s
            invariant
                s == doc.len(),
                doc == self.contents@,
                r <= ar,
                r as int <= self.abs_row(),
                ar as int <= self.abs_row(),
                from == line_start(doc, r as int),
                acc == lines_weight(doc, r as int),
                acc <= s,
                lines_weight(doc, ar as int) == lines_weight(doc, self.abs_row()),
                0 <= from <= s,
            decreases ar - r,
        {
            let b = find_line_break(&self.contents, from);
            proof {
                lemma_line_break_from(doc, from as int);
            }
            let w = b - from;
            if w >= s - acc {
                // the weight of the lines above the cursor alone exceeds the length
                proof {
                    lemma_lines_weight_monotonic(doc, r as int + 1, self.abs_row());
                }
                return false;
            }
            acc = acc + w + 1;
            from = if b < s {
                b + 1
            } else {
                s
            };
            r = r + 1;
        }
        proof {
            if r < ar {
                lemma_line_start_sticky(doc, r as int, ar as int);
                lemma_lines_weight_sticky(doc, r as int, ar as int);
            }
        }
        let rest = s - acc;
        if self.display_position.column > rest {
            return false;
        }
        let rest2 = rest - self.display_position.column;
        self.cursor.column as usize <= rest2
    }

    /// Brings the viewport column within the current row's length, then the
    /// screen column within what remains of it.
    fn clamp_columns(&mut self)
        ensures
            (final(self).cursor, final(self).display_position) == vertical_clamp(
                old(self).contents@,
                old(self).cursor,
                old(self).display_position,
            ),
            final(self).contents == old(self).contents,
            final(self).display_size == old(self).display_size,
            final(self).mode == old(self).mode,
    {
        let rl = self.row_length();
        if self.display_position.column > rl {
            self.display_position.column = rl;
        }
        let limit = rl - self.display_position.column;
        let limit16 = if limit > u16::MAX as usize {
            u16::MAX
        } else {
            limit as u16
        };
        if self.cursor.column > limit16 {
            self.cursor.column = limit16;
        }
    }

    pub fn move_cursor(&mut self, direction: CursorMovement)
        ensures
            final(self).contents == old(self).contents,
            final(self).display_size == old(self).display_size,
            final(self).mode == old(self).mode,
            (final(self).cursor, final(self).display_position) == match direction {
                CursorMovement::Left => left_result(old(self).cursor, old(self).display_position),
                CursorMovement::Right => right_result(
                    old(self).contents@,
                    old(self).mode,
                    old(self).display_size,
                    old(self).cursor,
                    old(self).display_position,
                ),
                CursorMovement::Up => up_result(
                    old(self).contents@,
                    old(self).cursor,
                    old(self).display_position,
                ),
                CursorMovement::Down => down_result(
                    old(self).contents@,
                    old(self).display_size,
                    old(self).cursor,
                    old(self).display_position,
                ),
            },
    {
        match direction {
            CursorMovement::Left => {
                if self.cursor.column > 0 {
                    self.cursor.column = self.cursor.column - 1;
                } else if self.display_position.column > 0 {
                    self.display_position.column = self.display_position.column - 1;
                }
            },
            CursorMovement::Right => {
                let rl = self.row_length();
                let last_column = match self.mode {
                    EditorMode::Edit => rl,
                    _ => if rl > 0 {
                        rl - 1
                    } else {
                        0
                    },
                };
                let col = self.cursor.column as usize;
                let can_move_right = col < last_column && self.display_position.column
                    < last_column - col;
                let at_right_of_display = self.cursor.column == (
                if self.display_size.columns > 0 {
                    self.display_size.columns - 1
                } else {
                    0
                });
                if can_move_right && at_right_of_display {
                    self.display_position.column = self.display_position.column + 1;
                } else if can_move_right {
                    self.cursor.column = if self.cursor.column < u16::MAX {
                        self.cursor.column + 1
                    } else {
                        u16::MAX
                    };
                }
            },
            CursorMovement::Up => {
                if self.cursor.row > 0 {
                    self.cursor.row = self.cursor.row - 1;
                } else if self.display_position.row > 0 {
                    self.display_position.row = self.display_position.row - 1;
                }
                self.clamp_columns();
            },
            CursorMovement::Down => {
                let n = self.contents.len();
                let remaining = remaining_lines(&self.contents, self.display_position.row);
                proof {
                    assert(self.contents@.len() == n);
                    lemma_line_count_le_len(self.contents@, 0);
                }
                let count16 = if remaining > u16::MAX as usize {
                    u16::MAX
                } else {
                    remaining as u16
                };
                let row_plus = if self.cursor.row < u16::MAX {
                    self.cursor.row + 1
                } else {
                    u16::MAX
                };
                let can_move_down = row_plus < count16;
                let at_bottom_of_display = self.display_size.rows == row_plus;
                if can_move_down && at_bottom_of_display {
                    self.display_position.row = self.display_position.row + 1;
                } else if can_move_down {
                    self.cursor.row = row_plus;
                }
                self.clamp_columns();
            },
        }
    }

    /// Inserts a character into the `contents` buffer at the cursor position.
    pub fn insert(&mut self, c: char)
        requires
            old(self).spec_cursor_index() <= old(self).contents@.len(),
        ensures
            (final(self).contents@, final(self).cursor) == insert_result(
                old(self).contents@,
                old(self).cursor,
                old(self).display_position,
                c,
            ),
            final(self).display_size == old(self).display_size,
            final(self).display_position == old(self).display_position,
            final(self).mode == old(self).mode,
    {
        let idx = self.cursor_index();
        self.contents.insert(idx, c);
        if c == '\n' {
            self.cursor.column = 0;
            self.cursor.row = if self.cursor.row < u16::MAX {
                self.cursor.row + 1
            } else {
                u16::MAX
            };
        } else {
            self.cursor.column = if self.cursor.column < u16::MAX {
                self.cursor.column + 1
            } else {
                u16::MAX
            };
        }
    }

    /// Removes the character just before the cursor position from the
    /// `contents` buffer; a no-op with the cursor at the very start.
    pub fn remove(&mut self)
        requires
            old(self).spec_cursor_index() <= old(self).contents@.len(),
        ensures
            (final(self).contents@, final(self).cursor) == remove_result(
                old(self).contents@,
                old(self).cursor,
                old(self).display_position,
            ),
            final(self).display_size == old(self).display_size,
            final(self).display_position == old(self).display_position,
            final(self).mode == old(self).mode,
    {
        let idx = self.cursor_index();
        if idx > 0 {
            let current_length = self.row_length();
            let removed = self.contents.remove(idx - 1);
            if removed == '\n' {
                self.cursor.row = if self.cursor.row > 0 {
                    self.cursor.row - 1
                } else {
                    0
                };
                let merged_length = self.row_length();
                let grown = if merged_length > current_length {
                    merged_length - current_length
                } else {
                    0
                };
                self.cursor.column = if grown > u16::MAX as usize {
                    u16::MAX
                } else {
                    grown as u16
                };
            } else {
                self.cursor.column = if self.cursor.column > 0 {
                    self.cursor.column - 1
                } else {
                    0
                };
            }
        }
    }

    pub fn set_display_columns(&mut self, c: u16)
        ensures
            final(self).display_size == (DisplaySize {
                columns: c,
                rows: old(self).display_size.rows,
            }),
            final(self).display_position == (DisplayPosition {
                column: if old(self).display_position.column <= c as int {
                    old(self).display_position.column
                } else {
                    c as usize
                },
                row: old(self).display_position.row,
            }),
            final(self).contents == old(self).contents,
            final(self).cursor == old(self).cursor,
            final(self).mode == old(self).mode,
    {
        self.display_size.columns = c;
        if self.display_position.column > c as usize {
            self.display_position.column = c as usize;
        }
    }

    pub fn set_display_rows(&mut self, r: u16)
        ensures
            final(self).display_size == (DisplaySize {
                columns: old(self).display_size.columns,
                rows: r,
            }),
            final(self).display_position == (DisplayPosition {
                column: old(self).display_position.column,
                row: if old(self).display_position.row <= r as int {
                    old(self).display_position.row
                } else {
                    r as usize
                },
            }),
            final(self).contents == old(self).contents,
            final(self).cursor == old(self).cursor,
            final(self).mode == old(self).mode,
    {
        self.display_size.rows = r;
        if self.display_position.row > r as usize {
            self.display_position.row = r as usize;
        }
    }

    /// Dispatches one input event according to the current mode, mutating the
    /// editor and telling the caller what to do next.
    pub fn handle_event(&mut self, event: InputEvent) -> (a: EditorAction)
        requires
            old(self).spec_cursor_index() <= old(self).contents@.len(),
        ensures
            final(self).display_size == old(self).display_size,
            ({
                let e = *old(self);
                let f = *final(self);
                match (e.mode, event) {
                    (EditorMode::Navigate, InputEvent::Char(c)) => if c == 'q' {
                        f.same_state(e) && a == EditorAction::Quit
                    } else if c == 'w' {
                        f.same_state(e) && a == EditorAction::Save
                    } else if c == 'i' {
                        f.contents@ == e.contents@ && f.cursor == e.cursor && f.display_position
                            == e.display_position && f.mode == EditorMode::Edit && a
                            == EditorAction::Continue
                    } else if c == 'h' || c == 'j' || c == 'k' || c == 'l' {
                        f.contents@ == e.contents@ && f.mode == e.mode && a
                            == EditorAction::Continue && (f.cursor, f.display_position) == (
                        if c == 'h' {
                            left_result(e.cursor, e.display_position)
                        } else if c == 'j' {
                            down_result(e.contents@, e.display_size, e.cursor, e.display_position)
                        } else if c == 'k' {
                            up_result(e.contents@, e.cursor, e.display_position)
                        } else {
                            right_result(
                                e.contents@,
                                e.mode,
                                e.display_size,
                                e.cursor,
                                e.display_position,
                            )
                        })
                    } else {
                        f.same_state(e) && a == EditorAction::Continue
                    },
                    (EditorMode::Navigate, _) => f.same_state(e) && a == EditorAction::Continue,
                    (EditorMode::Edit, InputEvent::Esc) => f.contents@ == e.contents@ && f.cursor
                        == e.cursor && f.display_position == e.display_position && f.mode
                        == EditorMode::Navigate && a == EditorAction::Continue,
                    (EditorMode::Edit, InputEvent::Char(c)) => (f.contents@, f.cursor)
                        == insert_result(e.contents@, e.cursor, e.display_position, c)
                        && f.display_position == e.display_position && f.mode == e.mode && a
                        == EditorAction::Continue,
                    (EditorMode::Edit, InputEvent::Enter) => (f.contents@, f.cursor)
                        == insert_result(e.contents@, e.cursor, e.display_position, '\n')
                        && f.display_position == e.display_position && f.mode == e.mode && a
                        == EditorAction::Continue,
                    (EditorMode::Edit, InputEvent::Backspace) => (f.contents@, f.cursor)
                        == remove_result(e.contents@, e.cursor, e.display_position)
                        && f.display_position == e.display_position && f.mode == e.mode && a
                        == EditorAction::Continue,
                    (EditorMode::Edit, InputEvent::Other) => f.same_state(e) && a
                        == EditorAction::Continue,
                }
            }),
    {
        match self.mode {
            EditorMode::Navigate => match event {
                InputEvent::Char(c) => {
                    if c == 'q' {
                        EditorAction::Quit
                    } else if c == 'w' {
                        EditorAction::Save
                    } else if c == 'i' {
                        self.mode = EditorMode::Edit;
                        EditorAction::Continue
                    } else if c == 'h' {
                        self.move_cursor(CursorMovement::Left);
                        EditorAction::Continue
                    } else if c == 'j' {
                        self.move_cursor(CursorMovement::Down);
                        EditorAction::Continue
                    } else if c == 'k' {
                        self.move_cursor(CursorMovement::Up);
                        EditorAction::Continue
                    } else if c == 'l' {
                        self.move_cursor(CursorMovement::Right);
                        EditorAction::Continue
                    } else {
                        EditorAction::Continue
                    }
                },
                _ => EditorAction::Continue,
            },
            EditorMode::Edit => match event {
                InputEvent::Esc => {
                    self.mode = EditorMode::Navigate;
                    EditorAction::Continue
                },
                InputEvent::Char(c) => {
                    self.insert(c);
                    EditorAction::Continue
                },
                InputEvent::Enter => {
                    self.insert('\n');
                    EditorAction::Continue
                },
                InputEvent::Backspace => {
                    self.remove();
                    EditorAction::Continue
                },
                InputEvent::Other => EditorAction::Continue,
            },
        }
    }
}

} // verus!
