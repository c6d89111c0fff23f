//! Laws of the editor's movement and edit operations, stated over the
//! transition functions that the methods' contracts use.

use vstd::prelude::*;

use crate::editor::{
    clamp_to_u16, coherent_position, cursor_index_at, down_result, insert_result, left_result,
    remove_result, right_result, up_result, vertical_clamp, CursorMovement, CursorPosition,
    DisplayPosition, DisplaySize, Editor, EditorMode,
};
use crate::text::{
    lemma_break_within, lemma_index_in_document, lemma_insert_keeps_structure,
    lemma_line_break_from, lemma_line_break_from_is, lemma_line_start_bounds, lemma_row_exists,
    lemma_start_le_weight, lemma_weight_at_end, lemma_weight_eq_start, line_break_from, line_count,
    line_len, line_start, lines_weight,
};

verus! {

/// Cursor and viewport after `n` successive `Left` moves.
pub open spec fn lefts_applied(cursor: CursorPosition, offset: DisplayPosition, n: nat) -> (
    CursorPosition,
    DisplayPosition,
)
    decreases n,
{
    if n == 0 {
        (cursor, offset)
    } else {
        let prev = lefts_applied(cursor, offset, (n - 1) as nat);
        left_result(prev.0, prev.1)
    }
}

/// However many `Left` moves are applied, the cursor never moves before the
/// document's start: the absolute column loses one per move and floors at
/// zero, and the row never changes.
pub proof fn lemma_lefts_floor_at_start(cursor: CursorPosition, offset: DisplayPosition, n: nat)
    ensures
        lefts_applied(cursor, offset, n).0.row == cursor.row,
        lefts_applied(cursor, offset, n).1.row == offset.row,
        lefts_applied(cursor, offset, n).1.column + lefts_applied(cursor, offset, n).0.column
            == if offset.column + cursor.column >= n {
            offset.column + cursor.column - n
        } else {
            0
        },
    decreases n,
{
    if n > 0 {
        lemma_lefts_floor_at_start(cursor, offset, (n - 1) as nat);
    }
}

/// Cursor and viewport after `n` successive `Right` moves.
pub open spec fn rights_applied(
    doc: Seq<char>,
    mode: EditorMode,
    size: DisplaySize,
    cursor: CursorPosition,
    offset: DisplayPosition,
    n: nat,
) -> (CursorPosition, DisplayPosition)
    decreases n,
{
    if n == 0 {
        (cursor, offset)
    } else {
        let prev = rights_applied(doc, mode, size, cursor, offset, (n - 1) as nat);
        right_result(doc, mode, size, prev.0, prev.1)
    }
}

/// The rightmost absolute column a `Right` move may reach on `row`: the row
/// length in `Edit` mode, one less (floored at zero) in `Navigate` mode.
pub open spec fn rightmost_column(doc: Seq<char>, mode: EditorMode, row: int) -> int {
    let rl = line_len(doc, row);
    if mode == EditorMode::Edit {
        rl
    } else if rl > 0 {
        rl - 1
    } else {
        0
    }
}

/// However many `Right` moves are applied, a cursor that starts at or before
/// the rightmost permissible column never advances past it, and the row never
/// changes.
pub proof fn lemma_rights_stay_within_row(
    doc: Seq<char>,
    mode: EditorMode,
    size: DisplaySize,
    cursor: CursorPosition,
    offset: DisplayPosition,
    n: nat,
)
    requires
        offset.column + cursor.column <= rightmost_column(doc, mode, offset.row + cursor.row),
    ensures
        rights_applied(doc, mode, size, cursor, offset, n).0.row == cursor.row,
        rights_applied(doc, mode, size, cursor, offset, n).1.row == offset.row,
        rights_applied(doc, mode, size, cursor, offset, n).1.column + rights_applied(
            doc,
            mode,
            size,
            cursor,
            offset,
            n,
        ).0.column <= rightmost_column(doc, mode, offset.row + cursor.row),
    decreases n,
{
    if n > 0 {
        lemma_rights_stay_within_row(doc, mode, size, cursor, offset, (n - 1) as nat);
    }
}

/// After a vertical move and its column re-clamp, the absolute column is
/// unchanged whenever the new row's line is at least that long.
proof fn lemma_clamp_keeps_column(doc: Seq<char>, cursor: CursorPosition, offset: DisplayPosition)
    requires
        offset.column + cursor.column <= line_len(doc, offset.row + cursor.row),
    ensures
        ({
            let r = vertical_clamp(doc, cursor, offset);
            r.1.column + r.0.column == offset.column + cursor.column && r.0.row == cursor.row
                && r.1.row == offset.row
        }),
{
}

/// `Up` then `Down` from an interior position returns the cursor to the same
/// absolute row and column, provided both rows reach the cursor's column.
pub proof fn lemma_up_down_round_trip(
    doc: Seq<char>,
    size: DisplaySize,
    cursor: CursorPosition,
    offset: DisplayPosition,
)
    requires
        1 <= offset.row + cursor.row < line_count(doc),
        offset.column + cursor.column <= line_len(doc, offset.row + cursor.row - 1),
        offset.column + cursor.column <= line_len(doc, offset.row + cursor.row),
        line_count(doc) < u16::MAX,
    ensures
        ({
            let up = up_result(doc, cursor, offset);
            let down = down_result(doc, size, up.0, up.1);
            down.1.row + down.0.row == offset.row + cursor.row && down.1.column + down.0.column
                == offset.column + cursor.column
        }),
{
    let moved = if cursor.row > 0 {
        (CursorPosition { column: cursor.column, row: (cursor.row - 1) as u16 }, offset)
    } else {
        (
            cursor,
            DisplayPosition { column: offset.column, row: (offset.row - 1) as usize },
        )
    };
    lemma_clamp_keeps_column(doc, moved.0, moved.1);
    let up = up_result(doc, cursor, offset);
    assert(up.1.row + up.0.row == offset.row + cursor.row - 1);
    assert(up.1.column + up.0.column == offset.column + cursor.column);
    let moved2 = (CursorPosition { column: up.0.column, row: (up.0.row + 1) as u16 }, up.1);
    lemma_clamp_keeps_column(doc, moved2.0, moved2.1);
    let moved3 = (
        up.0,
        DisplayPosition { column: up.1.column, row: (up.1.row + 1) as usize },
    );
    lemma_clamp_keeps_column(doc, moved3.0, moved3.1);
}

/// `Down` then `Up` from a position with a row below returns the cursor to
/// the same absolute row and column, provided both rows reach the cursor's
/// column.
pub proof fn lemma_down_up_round_trip(
    doc: Seq<char>,
    size: DisplaySize,
    cursor: CursorPosition,
    offset: DisplayPosition,
)
    requires
        offset.row + cursor.row + 1 < line_count(doc),
        offset.column + cursor.column <= line_len(doc, offset.row + cursor.row + 1),
        offset.column + cursor.column <= line_len(doc, offset.row + cursor.row),
        line_count(doc) < u16::MAX,
    ensures
        ({
            let down = down_result(doc, size, cursor, offset);
            let up = up_result(doc, down.0, down.1);
            up.1.row + up.0.row == offset.row + cursor.row && up.1.column + up.0.column
                == offset.column + cursor.column
        }),
{
    let moved = if size.rows == cursor.row + 1 {
        (cursor, DisplayPosition { column: offset.column, row: (offset.row + 1) as usize })
    } else {
        (CursorPosition { column: cursor.column, row: (cursor.row + 1) as u16 }, offset)
    };
    lemma_clamp_keeps_column(doc, moved.0, moved.1);
    let down = down_result(doc, size, cursor, offset);
    assert(down.1.row + down.0.row == offset.row + cursor.row + 1);
    assert(down.1.column + down.0.column == offset.column + cursor.column);
    if down.0.row > 0 {
        let moved2 = (
            CursorPosition { column: down.0.column, row: (down.0.row - 1) as u16 },
            down.1,
        );
        lemma_clamp_keeps_column(doc, moved2.0, moved2.1);
    } else {
        let moved3 = (
            down.0,
            DisplayPosition { column: down.1.column, row: (down.1.row - 1) as usize },
        );
        lemma_clamp_keeps_column(doc, moved3.0, moved3.1);
    }
}

/// Every move keeps the cursor addressing a valid insertion point in the
/// document: from a coherent position, each of the four movements yields a
/// coherent position again.  Together with `Editor::lemma_coherent_index`
/// this keeps the edit operations' precondition available after any run of
/// movements.
#[verifier::rlimit(30)]
pub proof fn lemma_move_keeps_cursor_in_document(
    doc: Seq<char>,
    mode: EditorMode,
    size: DisplaySize,
    cursor: CursorPosition,
    offset: DisplayPosition,
    direction: CursorMovement,
)
    requires
        coherent_position(doc, cursor, offset),
        cursor.row < u16::MAX,
    ensures
        ({
            let moved = match direction {
                CursorMovement::Left => left_result(cursor, offset),
                CursorMovement::Right => right_result(
                    doc,
                    mode,
                    size,
                    cursor,
                    offset,
                ),
                CursorMovement::Up => up_result(doc, cursor, offset),
                CursorMovement::Down => down_result(doc, size, cursor, offset),
            };
            coherent_position(doc, moved.0, moved.1)
        }),
{
    let count = line_count(doc) as int;
    let row = offset.row + cursor.row;
    let rl = line_len(doc, row);
    match direction {
        CursorMovement::Left => {},
        CursorMovement::Right => {
            let moved = right_result(doc, mode, size, cursor, offset);
            assert(moved.1.row + moved.0.row == row);
            assert(moved.1.column + moved.0.column <= rl);
        },
        CursorMovement::Up => {
            let m1 = if cursor.row > 0 {
                (CursorPosition { column: cursor.column, row: (cursor.row - 1) as u16 }, offset)
            } else {
                (
                    cursor,
                    DisplayPosition {
                        column: offset.column,
                        row: if offset.row > 0 {
                            (offset.row - 1) as usize
                        } else {
                            0
                        },
                    },
                )
            };
            assert(m1.1.row + m1.0.row <= row);
            lemma_clamp_bounds(doc, m1.0, m1.1);
        },
        CursorMovement::Down => {
            let remaining = if offset.row <= count {
                count - offset.row
            } else {
                0
            };
            let row_plus = (cursor.row + 1) as u16;
            let can_move_down = row_plus < clamp_to_u16(remaining);
            let m1 = if can_move_down && size.rows == row_plus {
                (cursor, DisplayPosition { column: offset.column, row: (offset.row + 1) as usize })
            } else if can_move_down {
                (CursorPosition { column: cursor.column, row: row_plus }, offset)
            } else {
                (cursor, offset)
            };
            // a move down happens only while strictly more rows exist below
            assert(can_move_down ==> row + 1 < count);
            assert(m1.1.row + m1.0.row <= count);
            lemma_clamp_bounds(doc, m1.0, m1.1);
        },
    }
}

/// The column re-clamp after a vertical move keeps the rows and brings the
/// absolute column within the row's line.
proof fn lemma_clamp_bounds(doc: Seq<char>, cursor: CursorPosition, offset: DisplayPosition)
    ensures
        ({
            let r = vertical_clamp(doc, cursor, offset);
            r.0.row == cursor.row && r.1.row == offset.row && r.1.column + r.0.column <= line_len(
                doc,
                offset.row + cursor.row,
            )
        }),
{
    let row = offset.row + cursor.row;
    lemma_line_start_bounds(doc, row);
    lemma_line_break_from(doc, line_start(doc, row));
    assert(line_len(doc, row) >= 0);
}

/// Inserting a character and immediately removing it restores the document
/// and the cursor exactly.  For a line break this asks that the viewport is
/// not scrolled horizontally, since the removal rebuilds the column from the
/// merged line alone.
#[verifier::rlimit(60)]
pub proof fn lemma_insert_remove_round_trip(e: Editor, c: char)
    requires
        e.coherent(),
        e.cursor.column < u16::MAX,
        c == '\n' ==> e.display_position.column == 0 && e.cursor.row < u16::MAX,
    ensures
        ({
            let inserted = insert_result(e.contents@, e.cursor, e.display_position, c);
            let removed = remove_result(inserted.0, inserted.1, e.display_position);
            removed.0 == e.contents@ && removed.1 == e.cursor
        }),
{
    let s = e.contents@;
    let cur = e.cursor;
    let off = e.display_position;
    let r = off.row + cur.row;
    let ac = off.column + cur.column;
    let count = line_count(s) as int;
    lemma_line_start_bounds(s, r);
    lemma_start_le_weight(s, r);
    lemma_index_in_document(s, r, ac);
    let i = lines_weight(s, r) + ac;
    assert(0 <= i <= s.len());
    let s2 = s.insert(i, c);
    s.insert_ensures(i, c);
    lemma_insert_keeps_structure(s, i, c, r);
    lemma_row_exists(s, r);
    let p = line_start(s, r);
    lemma_line_break_from(s, p);
    // the document comes back: removing the inserted character undoes the insertion
    s2.remove_ensures(i);
    assert(s2.remove(i) =~= s);
    if c != '\n' {
        let inserted = insert_result(s, cur, off, c);
        assert(inserted.1 == (CursorPosition { column: (cur.column + 1) as u16, row: cur.row }));
        // the cursor index after the insertion is one past the insertion point
        assert(cursor_index_at(s2, inserted.1, off) == i + 1);
        assert(s2[i] == c);
        let removed = remove_result(s2, inserted.1, off);
        assert(removed.0 == s);
        assert(removed.1 == cur);
    } else {
        let inserted = insert_result(s, cur, off, c);
        assert(inserted.1 == (CursorPosition { column: 0, row: (cur.row + 1) as u16 }));
        assert(ac == cur.column);
        if r < count {
            lemma_weight_eq_start(s, r);
            assert(lines_weight(s, r) == p);
            assert(i == p + cur.column);
            let f0 = line_break_from(s, p);
            assert(line_len(s, r) == f0 - p);
            assert(i <= f0);
            // the break of the split line in the new document is the inserted break
            assert(forall|j: int| p <= j < i ==> s2[j] == s[j] && s[j] != '\n');
            assert(s2[i] == '\n');
            lemma_line_break_from_is(s2, p, i);
            assert(line_break_from(s2, p) == i);
            assert(line_start(s2, r + 1) == i + 1);
            assert(lines_weight(s2, r + 1) == lines_weight(s2, r) + ((i - p) + 1));
            assert(lines_weight(s2, r + 1) == i + 1);
            assert(cursor_index_at(s2, inserted.1, off) == i + 1);
            // length of the suffix line that the removal merges back
            lemma_break_within(s, p, i);
            assert(line_break_from(s, i) == f0);
            assert(forall|j: int| i + 1 <= j < f0 + 1 ==> s2[j] == s[j - 1] && s[j - 1] != '\n');
            if f0 < s.len() {
                assert(s2[f0 + 1] == s[f0]);
            }
            lemma_line_break_from_is(s2, i + 1, f0 + 1);
            assert(line_len(s2, r + 1) == f0 - i);
            let removed = remove_result(s2, inserted.1, off);
            assert(removed.0 == s);
            assert(removed.1.row == cur.row);
            assert(line_len(s2.remove(i), off.row + cur.row) == f0 - p);
            assert(removed.1.column == cur.column) by {
                assert((f0 - p) - (f0 - i) == cur.column);
            }
        } else {
            // the cursor sits on the row just past a break-terminated document
            assert(r == count);
            assert(p == s.len());
            assert(line_break_from(s, p) == p);
            assert(line_len(s, r) == 0);
            assert(cur.column == 0);
            lemma_weight_at_end(s, r);
            assert(lines_weight(s, r) == s.len());
            assert(i == s.len());
            assert(s2[i] == '\n');
            lemma_line_break_from_is(s2, p, i);
            assert(line_break_from(s2, p) == i);
            assert(line_start(s2, r + 1) == i + 1);
            assert(lines_weight(s2, r + 1) == i + 1);
            assert(cursor_index_at(s2, inserted.1, off) == i + 1);
            assert(line_start(s2, r + 1) == s2.len());
            lemma_line_break_from(s2, s2.len() as int);
            assert(line_len(s2, r + 1) == 0);
            let removed = remove_result(s2, inserted.1, off);
            assert(removed.0 == s);
            assert(removed.1.row == cur.row);
            assert(line_len(s2.remove(i), off.row + cur.row) == 0) by {
                assert(s2.remove(i) =~= s);
            }
            assert(removed.1.column == 0);
        }
    }
}

} // verus!
