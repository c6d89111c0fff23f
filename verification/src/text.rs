//! Line structure of a newline-delimited document.
//!
//! A document is a sequence of characters; its logical lines are the maximal
//! runs of characters between line breaks.  These spec functions fix, for a
//! given row number, where that line starts, how long it is, and how many
//! lines the document has; the exec functions compute the same quantities by
//! scanning the document.

use vstd::prelude::*;

verus! {

/// Index of the first line break in `s` at or after `from`; `s.len()` if there is none.
pub open spec fn line_break_from(s: Seq<char>, from: int) -> int
    decreases s.len() - from,
{
    if 0 <= from < s.len() {
        if s[from] == '\n' {
            from
        } else {
            line_break_from(s, from + 1)
        }
    } else {
        s.len() as int
    }
}

/// Offset just past the line that starts at `from` (skipping its line break),
/// clamped to the end of the document.
pub open spec fn next_line_start(s: Seq<char>, from: int) -> int {
    if line_break_from(s, from) + 1 <= s.len() {
        line_break_from(s, from) + 1
    } else {
        s.len() as int
    }
}

/// Offset at which the line with index `row` starts; `s.len()` when the
/// document has no such line.
pub open spec fn line_start(s: Seq<char>, row: int) -> int
    decreases row,
{
    if row <= 0 {
        0
    } else {
        next_line_start(s, line_start(s, row - 1))
    }
}

/// Length of the line with index `row`; 0 when the document has no such line.
pub open spec fn line_len(s: Seq<char>, row: int) -> int {
    line_break_from(s, line_start(s, row)) - line_start(s, row)
}

/// The characters of the line with index `row`.
pub open spec fn line_at(s: Seq<char>, row: int) -> Seq<char> {
    s.subrange(line_start(s, row), line_start(s, row) + line_len(s, row))
}

/// What the line with index `row` contributes to a cursor index: its length
/// plus one for a line break, or nothing when the line does not exist.
pub open spec fn line_weight(s: Seq<char>, row: int) -> int {
    if line_start(s, row) >= s.len() {
        0
    } else {
        line_len(s, row) + 1
    }
}

/// Sum of the weights of the first `rows` lines: the character index at which
/// an absolute position in row `rows` begins counting its column.
pub open spec fn lines_weight(s: Seq<char>, rows: int) -> int
    decreases rows,
{
    if rows <= 0 {
        0
    } else {
        lines_weight(s, rows - 1) + line_weight(s, rows - 1)
    }
}

/// Number of lines in `s` at or after offset `from`.
pub open spec fn line_count_from(s: Seq<char>, from: int) -> nat
    decreases s.len() - from,
        when 0 <= from <= s.len()
        via line_count_from_decreases
{
    if 0 <= from < s.len() {
        (1 + line_count_from(s, next_line_start(s, from))) as nat
    } else {
        0
    }
}

#[via_fn]
proof fn line_count_from_decreases(s: Seq<char>, from: int) {
    if 0 <= from < s.len() {
        lemma_line_break_from(s, from);
    }
}

/// Number of lines in `s`.
pub open spec fn line_count(s: Seq<char>) -> nat {
    line_count_from(s, 0)
}

pub proof fn lemma_line_break_from(s: Seq<char>, from: int)
    requires
        0 <= from <= s.len(),
    ensures
        from <= line_break_from(s, from) <= s.len(),
        forall|k: int| from <= k < line_break_from(s, from) ==> s[k] != '\n',
        line_break_from(s, from) < s.len() ==> s[line_break_from(s, from)] == '\n',
    decreases s.len() - from,
{
    if from < s.len() && s[from] != '\n' {
        lemma_line_break_from(s, from + 1);
    }
}

pub proof fn lemma_line_break_from_is(s: Seq<char>, from: int, k: int)
    requires
        0 <= from <= k <= s.len(),
        forall|j: int| from <= j < k ==> s[j] != '\n',
        k < s.len() ==> s[k] == '\n',
    ensures
        line_break_from(s, from) == k,
    decreases k - from,
{
    if from < k {
        lemma_line_break_from_is(s, from + 1, k);
    }
}

pub proof fn lemma_next_line_start(s: Seq<char>, from: int)
    requires
        0 <= from <= s.len(),
    ensures
        from <= next_line_start(s, from) <= s.len(),
        from < s.len() ==> from < next_line_start(s, from),
{
    lemma_line_break_from(s, from);
}

pub proof fn lemma_line_start_bounds(s: Seq<char>, row: int)
    requires
        0 <= row,
    ensures
        0 <= line_start(s, row) <= s.len(),
        line_start(s, row) <= line_start(s, row + 1),
    decreases row,
{
    if row == 0 {
        lemma_next_line_start(s, 0);
    } else {
        lemma_line_start_bounds(s, row - 1);
        lemma_next_line_start(s, line_start(s, row));
    }
}

/// Once the scan for line starts reaches the end of the document it stays there.
pub proof fn lemma_line_start_sticky(s: Seq<char>, r1: int, r2: int)
    requires
        0 <= r1 <= r2,
        line_start(s, r1) == s.len(),
    ensures
        line_start(s, r2) == s.len(),
    decreases r2 - r1,
{
    if r1 < r2 {
        lemma_line_start_sticky(s, r1, r2 - 1);
        lemma_line_break_from(s, s.len() as int);
    }
}

/// Counting lines from the start of row `row` sees exactly the lines at or
/// after `row`.
pub proof fn lemma_line_count_start(s: Seq<char>, row: int)
    requires
        0 <= row,
    ensures
        line_count_from(s, line_start(s, row)) == if row <= line_count(s) {
            line_count(s) - row
        } else {
            0
        },
    decreases row,
{
    lemma_line_start_bounds(s, row);
    if row > 0 {
        lemma_line_count_start(s, row - 1);
        lemma_line_start_bounds(s, row - 1);
        if line_start(s, row - 1) < s.len() {
        } else {
            lemma_line_start_sticky(s, row - 1, row);
        }
    }
}

/// A row exists exactly when its start lies before the end of the document.
pub proof fn lemma_row_exists(s: Seq<char>, row: int)
    requires
        0 <= row,
    ensures
        (row < line_count(s)) <==> (line_start(s, row) < s.len()),
        row >= line_count(s) ==> line_start(s, row) == s.len(),
    decreases row,
{
    lemma_line_count_start(s, row);
    lemma_line_start_bounds(s, row);
}

pub proof fn lemma_line_count_le_len(s: Seq<char>, from: int)
    requires
        0 <= from <= s.len(),
    ensures
        line_count_from(s, from) <= s.len() - from,
    decreases s.len() - from,
{
    if from < s.len() {
        lemma_next_line_start(s, from);
        lemma_line_count_le_len(s, next_line_start(s, from));
    }
}

pub proof fn lemma_lines_weight_monotonic(s: Seq<char>, r1: int, r2: int)
    requires
        0 <= r1 <= r2,
    ensures
        lines_weight(s, r1) <= lines_weight(s, r2),
    decreases r2 - r1,
{
    if r1 < r2 {
        lemma_lines_weight_monotonic(s, r1, r2 - 1);
        lemma_line_start_bounds(s, r2 - 1);
        lemma_line_break_from(s, line_start(s, r2 - 1));
    }
}

/// Weights stop accumulating once the line starts have reached the end.
pub proof fn lemma_lines_weight_sticky(s: Seq<char>, r1: int, r2: int)
    requires
        0 <= r1 <= r2,
        line_start(s, r1) == s.len(),
    ensures
        lines_weight(s, r2) == lines_weight(s, r1),
    decreases r2 - r1,
{
    if r1 < r2 {
        lemma_lines_weight_sticky(s, r1, r2 - 1);
        lemma_line_start_sticky(s, r1, r2 - 1);
    }
}

pub proof fn lemma_start_le_weight(s: Seq<char>, row: int)
    requires
        0 <= row,
    ensures
        line_start(s, row) <= lines_weight(s, row),
    decreases row,
{
    if row > 0 {
        lemma_start_le_weight(s, row - 1);
        lemma_line_start_bounds(s, row - 1);
        lemma_line_break_from(s, line_start(s, row - 1));
    }
}

/// While lines keep existing, the accumulated weight is exactly the start of
/// the next line.
pub proof fn lemma_weight_eq_start(s: Seq<char>, row: int)
    requires
        0 <= row,
        line_start(s, row) < s.len(),
    ensures
        lines_weight(s, row) == line_start(s, row),
    decreases row,
{
    if row > 0 {
        lemma_line_start_bounds(s, row - 1);
        if line_start(s, row - 1) == s.len() {
            lemma_line_start_sticky(s, row - 1, row);
            assert(false);
        }
        lemma_weight_eq_start(s, row - 1);
        lemma_line_break_from(s, line_start(s, row - 1));
    }
}

/// When the document ends with a line break (or is empty), the weight of all
/// its lines is exactly its length.
pub proof fn lemma_weight_at_end(s: Seq<char>, row: int)
    requires
        0 <= row,
        line_start(s, row) == s.len(),
        s.len() > 0 ==> s[s.len() - 1] == '\n',
    ensures
        lines_weight(s, row) == s.len(),
    decreases row,
{
    if row == 0 {
    } else {
        lemma_line_start_bounds(s, row - 1);
        if line_start(s, row - 1) == s.len() {
            lemma_weight_at_end(s, row - 1);
        } else {
            let p = line_start(s, row - 1);
            lemma_weight_eq_start(s, row - 1);
            lemma_line_break_from(s, p);
            let b = line_break_from(s, p);
            if b == s.len() {
                // the last character would be inside this line, yet it is a line break
                assert(s[s.len() - 1] != '\n');
                assert(false);
            }
            assert(b == s.len() - 1);
        }
    }
}

/// A cursor that sits on an existing row, within its line (or on the row just
/// past the lines of a break-terminated document), addresses a valid
/// insertion point.
pub proof fn lemma_index_in_document(s: Seq<char>, row: int, col: int)
    requires
        0 <= row <= line_count(s),
        0 <= col <= line_len(s, row),
        row == line_count(s) && s.len() > 0 ==> s[s.len() - 1] == '\n',
    ensures
        lines_weight(s, row) + col <= s.len(),
    decreases row,
{
    lemma_row_exists(s, row);
    lemma_line_start_bounds(s, row);
    if line_start(s, row) < s.len() {
        lemma_weight_eq_start(s, row);
        lemma_line_break_from(s, line_start(s, row));
    } else {
        lemma_line_break_from(s, s.len() as int);
        lemma_weight_at_end(s, row);
    }
}

/// Between an offset inside a line and that line's break, the break scan
/// lands on the same break.
pub proof fn lemma_break_within(s: Seq<char>, p: int, x: int)
    requires
        0 <= p <= x <= line_break_from(s, p),
        p <= s.len(),
    ensures
        line_break_from(s, x) == line_break_from(s, p),
{
    lemma_line_break_from(s, p);
    lemma_line_break_from_is(s, x, line_break_from(s, p));
}

/// Inserting a character at or past the accumulated weight of the first `row`
/// lines leaves the starts and weights of those lines unchanged.
pub proof fn lemma_insert_keeps_structure(s: Seq<char>, i: int, c: char, row: int)
    requires
        0 <= i <= s.len(),
        0 <= row <= line_count(s),
        lines_weight(s, row) <= i,
    ensures
        line_start(s.insert(i, c), row) == line_start(s, row),
        lines_weight(s.insert(i, c), row) == lines_weight(s, row),
    decreases row,
{
    let s2 = s.insert(i, c);
    s.insert_ensures(i, c);
    if row > 0 {
        lemma_lines_weight_monotonic(s, row - 1, row);
        lemma_insert_keeps_structure(s, i, c, row - 1);
        let p = line_start(s, row - 1);
        lemma_line_start_bounds(s, row - 1);
        lemma_row_exists(s, row - 1);
        assert(row - 1 < line_count(s));
        assert(p < s.len());
        lemma_weight_eq_start(s, row - 1);
        lemma_line_break_from(s, p);
        let b = line_break_from(s, p);
        assert(lines_weight(s, row) == p + (b - p + 1));
        assert(b < i);
        assert(forall|j: int| p <= j < b ==> s2[j] == s[j]);
        assert(s2[b] == s[b]);
        lemma_line_break_from_is(s2, p, b);
        assert(next_line_start(s2, p) == b + 1);
        assert(next_line_start(s, p) == b + 1);
        assert(line_start(s2, row) == line_start(s, row));
        assert(lines_weight(s2, row) == lines_weight(s2, row - 1) + line_weight(s2, row - 1));
        assert(line_weight(s2, row - 1) == (b - p) + 1);
    }
}

/// Index of the first line break in `doc` at or after `from`.
pub fn find_line_break(doc: &Vec<char>, from: usize) -> (r: usize)
    requires
        from <= doc@.len(),
    ensures
        r == line_break_from(doc@, from as int),
{
    let mut i = from;
    while i < doc.len()
        invariant
            from <= i <= doc@.len(),
            forall|k: int| from <= k < i ==> doc@[k] != '\n',
        decreases doc@.len() - i,
    {
        if doc[i] == '\n' {
            proof {
                lemma_line_break_from_is(doc@, from as int, i as int);
            }
            return i;
        }
        i = i + 1;
    }
    proof {
        lemma_line_break_from_is(doc@, from as int, i as int);
    }
    i
}

/// Offset at which the line with index `rows` starts.
pub fn line_start_of(doc: &Vec<char>, rows: usize) -> (r: usize)
    ensures
        r == line_start(doc@, rows as int),
{
    let mut from: usize = 0;
    let mut r: usize = 0;
    while r < rows && from < doc.len()
        invariant
            r <= rows,
            from == line_start(doc@, r as int),
            0 <= from <= doc@.len(),
        decreases rows - r,
    {
        let b = find_line_break(doc, from);
        proof {
            lemma_line_break_from(doc@, from as int);
        }
        from = if b < doc.len() {
            b + 1
        } else {
            doc.len()
        };
        r = r + 1;
    }
    proof {
        if r < rows {
            lemma_line_start_sticky(doc@, r as int, rows as int);
        }
    }
    from
}

/// Accumulated weight of the first `rows` lines together with the offset at
/// which the line with index `rows` starts.
pub fn weight_to_row(doc: &Vec<char>, rows: usize) -> (r: (usize, usize))
    requires
        lines_weight(doc@, rows as int) <= doc@.len(),
    ensures
        r.0 == lines_weight(doc@, rows as int),
        r.1 == line_start(doc@, rows as int),
{
    let mut acc: usize = 0;
    let mut from: usize = 0;
    let mut r: usize = 0;
    while r < rows && from < doc.len()
        invariant
            r <= rows,
            from == line_start(doc@, r as int),
            acc == lines_weight(doc@, r as int),
            lines_weight(doc@, rows as int) <= doc@.len(),
            0 <= from <= doc@.len(),
        decreases rows - r,
    {
        let b = find_line_break(doc, from);
        proof {
            lemma_line_break_from(doc@, from as int);
            lemma_lines_weight_monotonic(doc@, r as int + 1, rows as int);
        }
        acc = acc + (b - from) + 1;
        from = if b < doc.len() {
            b + 1
        } else {
            doc.len()
        };
        r = r + 1;
    }
    proof {
        if r < rows {
            lemma_line_start_sticky(doc@, r as int, rows as int);
            lemma_lines_weight_sticky(doc@, r as int, rows as int);
        }
    }
    (acc, from)
}

/// Number of lines that remain when the first `skip` lines are passed over.
pub fn remaining_lines(doc: &Vec<char>, skip: usize) -> (n: usize)
    ensures
        n == if skip <= line_count(doc@) {
            line_count(doc@) - skip
        } else {
            0
        },
{
    let mut from = line_start_of(doc, skip);
    proof {
        lemma_line_start_bounds(doc@, skip as int);
        lemma_line_count_start(doc@, skip as int);
    }
    let ghost total = line_count_from(doc@, from as int);
    let mut c: usize = 0;
    while from < doc.len()
        invariant
            0 <= from <= doc@.len(),
            c <= from,
            c + line_count_from(doc@, from as int) == total,
        decreases doc@.len() - from,
    {
        let b = find_line_break(doc, from);
        proof {
            lemma_line_break_from(doc@, from as int);
        }
        from = if b < doc.len() {
            b + 1
        } else {
            doc.len()
        };
        c = c + 1;
    }
    c
}

} // verus!
