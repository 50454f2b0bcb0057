//! The 10 by 40 occupancy grid: collision queries, casts, locking and line clears.

use vstd::prelude::*;

use crate::position::Position;

verus! {

/// Columns of the board.
pub const BOARD_WIDTH: usize = 10;

/// Rows of the board; the lower half is the visible playfield.
pub const BOARD_HEIGHT: usize = 40;

/// Largest magnitude of a unit-offset coordinate that the board accepts in
/// casts; it keeps every reachable anchor inside `i32`.
pub const MAX_UNIT_OFFSET: i32 = 32767;

pub open spec fn empty_row() -> [bool; 10] {
    [false, false, false, false, false, false, false, false, false, false]
}

pub open spec fn in_bounds(x: int, y: int) -> bool {
    0 <= x < 10 && 0 <= y < 40
}

pub open spec fn row_full(row: [bool; 10]) -> bool {
    forall|i: int| 0 <= i < 10 ==> #[trigger] row[i]
}

pub open spec fn row_empty(row: [bool; 10]) -> bool {
    forall|i: int| 0 <= i < 10 ==> !#[trigger] row[i]
}

/// A cell counts as filled when it lies off the board or holds a block.
pub open spec fn cell_filled(rows: Seq<[bool; 10]>, x: int, y: int) -> bool {
    !in_bounds(x, y) || rows[y][x]
}

/// Some unit of the shape, placed at anchor `(x, y)`, lands on a filled cell.
pub open spec fn obstructed(rows: Seq<[bool; 10]>, units: Seq<Position>, x: int, y: int) -> bool {
    exists|i: int|
        0 <= i < units.len() && cell_filled(
            rows,
            x + (#[trigger] units[i]).x,
            y + units[i].y,
        )
}

pub open spec fn units_bounded(units: Seq<Position>) -> bool {
    forall|i: int|
        0 <= i < units.len() ==> -MAX_UNIT_OFFSET <= (#[trigger] units[i]).x <= MAX_UNIT_OFFSET
            && -MAX_UNIT_OFFSET <= units[i].y <= MAX_UNIT_OFFSET
}

/// Every cell of the shape at anchor `(x, y)` lies on the board.
pub open spec fn units_in_bounds(units: Seq<Position>, x: int, y: int) -> bool {
    forall|i: int|
        0 <= i < units.len() ==> in_bounds(x + (#[trigger] units[i]).x, y + units[i].y)
}

/// The rows after filling the cells of the first `n` units at anchor `(x, y)`.
pub open spec fn mark_cells(rows: Seq<[bool; 10]>, units: Seq<Position>, x: int, y: int, n: nat) -> Seq<
    [bool; 10],
>
    decreases n,
{
    if n == 0 {
        rows
    } else {
        let r = mark_cells(rows, units, x, y, (n - 1) as nat);
        let cx = x + units[n - 1].x;
        let cy = y + units[n - 1].y;
        r.update(cy, vstd::array::spec_array_update(r[cy], cx, true))
    }
}

/// The rows that are not full, bottom to top.
pub open spec fn kept_rows(rows: Seq<[bool; 10]>) -> Seq<[bool; 10]>
    decreases rows.len(),
{
    if rows.len() == 0 {
        seq![]
    } else if row_full(rows[0]) {
        kept_rows(rows.drop_first())
    } else {
        seq![rows[0]] + kept_rows(rows.drop_first())
    }
}

pub open spec fn empty_rows(n: nat) -> Seq<[bool; 10]> {
    Seq::new(n, |i: int| empty_row())
}

/// How many rows are full.
pub open spec fn full_row_count(rows: Seq<[bool; 10]>) -> int {
    rows.len() - kept_rows(rows).len()
}

/// Full rows removed, the rest moved down in order, empty rows added on top.
pub open spec fn clear_full_rows(rows: Seq<[bool; 10]>) -> Seq<[bool; 10]> {
    kept_rows(rows) + empty_rows(full_row_count(rows) as nat)
}

pub proof fn lemma_kept_rows_len(rows: Seq<[bool; 10]>)
    ensures
        kept_rows(rows).len() <= rows.len(),
    decreases rows.len(),
{
    if rows.len() > 0 {
        lemma_kept_rows_len(rows.drop_first());
    }
}

/// The shape at `start` moved `j` whole steps of `dir` is not obstructed.
pub open spec fn free_after(
    rows: Seq<[bool; 10]>,
    units: Seq<Position>,
    start: Position,
    dir: Position,
    j: int,
) -> bool {
    !obstructed(rows, units, start.x + j * dir.x, start.y + j * dir.y)
}

/// Every one of the first `k` steps of `dir` from `start` is free, and step
/// `k + 1` is not.
pub open spec fn stops_after(
    rows: Seq<[bool; 10]>,
    units: Seq<Position>,
    start: Position,
    dir: Position,
    k: int,
) -> bool {
    (forall|j: int| 1 <= j <= k ==> #[trigger] free_after(rows, units, start, dir, j)) && !free_after(
        rows,
        units,
        start,
        dir,
        k + 1,
    )
}

/// `r` is `k` whole steps of `dir` from `start`, where step `k` is the last
/// free one on the way; a board 40 rows high allows at most 40 such steps.
pub open spec fn is_cast_of(
    rows: Seq<[bool; 10]>,
    units: Seq<Position>,
    start: Position,
    dir: Position,
    r: Position,
) -> bool {
    exists|k: int|
        0 <= k <= 40 && #[trigger] stops_after(rows, units, start, dir, k) && r.x == start.x + k
            * dir.x && r.y == start.y + k * dir.y
}

/// How far the first unit, at anchor `(x, y)`, is from the edge that steps
/// of `(dx, dy)` head for; between 1 and 40 while the unit is on the board.
pub open spec fn edge_distance(x: int, y: int, u0: Position, dx: int, dy: int) -> int {
    if dx > 0 {
        10 - (x + u0.x)
    } else if dx < 0 {
        x + u0.x + 1
    } else if dy > 0 {
        40 - (y + u0.y)
    } else {
        y + u0.y + 1
    }
}

proof fn lemma_kept_rows_none_full(rows: Seq<[bool; 10]>)
    requires
        forall|i: int| 0 <= i < rows.len() ==> !row_full(#[trigger] rows[i]),
    ensures
        kept_rows(rows) == rows,
    decreases rows.len(),
{
    if rows.len() > 0 {
        assert(!row_full(rows[0]));
        assert forall|i: int| 0 <= i < rows.drop_first().len() implies !row_full(
            #[trigger] rows.drop_first()[i],
        ) by {
            assert(rows.drop_first()[i] == rows[i + 1]);
        }
        lemma_kept_rows_none_full(rows.drop_first());
        assert(rows =~= seq![rows[0]] + rows.drop_first());
    }
}

/// Locking a piece that fills row `r`, when no other row becomes full, removes
/// exactly row `r`: the rows above it move down by one, an empty row is added
/// on top, and one line is counted as cleared.
pub proof fn lemma_lock_clears_single_row(
    before: Seq<[bool; 10]>,
    units: Seq<Position>,
    offset: Position,
    r: int,
)
    requires
        before.len() == 40,
        units.len() == 4,
        units_in_bounds(units, offset.x as int, offset.y as int),
        0 <= r < 40,
        row_full(mark_cells(before, units, offset.x as int, offset.y as int, 4)[r]),
        forall|i: int|
            0 <= i < 40 && i != r ==> !row_full(
                #[trigger] mark_cells(before, units, offset.x as int, offset.y as int, 4)[i],
            ),
    ensures
        ({
            let marked = mark_cells(before, units, offset.x as int, offset.y as int, 4);
            &&& clear_full_rows(marked) == marked.subrange(0, r) + marked.subrange(r + 1, 40) + seq![
                empty_row(),
            ]
            &&& full_row_count(marked) == 1
        }),
{
    lemma_lock_clears_row_block(before, units, offset, r, 1);
    assert(empty_rows(1) =~= seq![empty_row()]);
}

proof fn lemma_kept_rows_full_block(rows: Seq<[bool; 10]>, r: int, n: int)
    requires
        0 <= r,
        0 <= n,
        r + n <= rows.len(),
        forall|i: int| r <= i < r + n ==> row_full(#[trigger] rows[i]),
        forall|i: int| 0 <= i < rows.len() && !(r <= i < r + n) ==> !row_full(#[trigger] rows[i]),
    ensures
        kept_rows(rows) == rows.subrange(0, r) + rows.subrange(r + n, rows.len() as int),
    decreases rows.len(),
{
    if rows.len() == 0 {
        assert(rows.subrange(0, r) + rows.subrange(r + n, rows.len() as int) =~= rows);
    } else {
        let rest = rows.drop_first();
        if r == 0 && n == 0 {
            assert forall|i: int| 0 <= i < rows.len() implies !row_full(#[trigger] rows[i]) by {}
            lemma_kept_rows_none_full(rows);
            assert(rows.subrange(0, 0) + rows.subrange(0, rows.len() as int) =~= rows);
        } else if r == 0 {
            assert forall|i: int| 0 <= i < n - 1 implies row_full(#[trigger] rest[i]) by {
                assert(rest[i] == rows[i + 1]);
            }
            assert forall|i: int| 0 <= i < rest.len() && !(0 <= i < n - 1) implies !row_full(
                #[trigger] rest[i],
            ) by {
                assert(rest[i] == rows[i + 1]);
            }
            lemma_kept_rows_full_block(rest, 0, n - 1);
            assert(rest.subrange(0, 0) + rest.subrange(n - 1, rest.len() as int) =~= rows.subrange(0, 0)
                + rows.subrange(n, rows.len() as int));
        } else {
            assert forall|i: int| r - 1 <= i < r - 1 + n implies row_full(#[trigger] rest[i]) by {
                assert(rest[i] == rows[i + 1]);
            }
            assert forall|i: int| 0 <= i < rest.len() && !(r - 1 <= i < r - 1 + n) implies !row_full(
                #[trigger] rest[i],
            ) by {
                assert(rest[i] == rows[i + 1]);
            }
            lemma_kept_rows_full_block(rest, r - 1, n);
            assert(!row_full(rows[0]));
            assert(seq![rows[0]] + (rest.subrange(0, r - 1) + rest.subrange(r - 1 + n, rest.len() as int))
                =~= rows.subrange(0, r) + rows.subrange(r + n, rows.len() as int));
        }
    }
}

/// Locking a piece that fills the `n` rows from `r` up, when no other row
/// becomes full, removes exactly those rows: the rows above move down by `n`,
/// `n` empty rows are added on top, and `n` lines are counted as cleared.
/// With `n == 4` this is a quad.
pub proof fn lemma_lock_clears_row_block(
    before: Seq<[bool; 10]>,
    units: Seq<Position>,
    offset: Position,
    r: int,
    n: int,
)
    requires
        before.len() == 40,
        units.len() == 4,
        units_in_bounds(units, offset.x as int, offset.y as int),
        0 <= r,
        0 <= n,
        r + n <= 40,
        forall|i: int|
            r <= i < r + n ==> row_full(
                #[trigger] mark_cells(before, units, offset.x as int, offset.y as int, 4)[i],
            ),
        forall|i: int|
            0 <= i < 40 && !(r <= i < r + n) ==> !row_full(
                #[trigger] mark_cells(before, units, offset.x as int, offset.y as int, 4)[i],
            ),
    ensures
        ({
            let marked = mark_cells(before, units, offset.x as int, offset.y as int, 4);
            &&& clear_full_rows(marked) == marked.subrange(0, r) + marked.subrange(r + n, 40) + empty_rows(
                n as nat,
            )
            &&& full_row_count(marked) == n
        }),
{
    let marked = mark_cells(before, units, offset.x as int, offset.y as int, 4);
    lemma_mark_cells_len(before, units, offset.x as int, offset.y as int, 4);
    lemma_kept_rows_full_block(marked, r, n);
}

proof fn lemma_mark_cells_len(rows: Seq<[bool; 10]>, units: Seq<Position>, x: int, y: int, n: nat)
    requires
        rows.len() == 40,
        n <= units.len(),
        units_in_bounds(units, x, y),
    ensures
        mark_cells(rows, units, x, y, n).len() == 40,
    decreases n,
{
    if n > 0 {
        lemma_mark_cells_len(rows, units, x, y, (n - 1) as nat);
        assert(in_bounds(x + units[n - 1].x, y + units[n - 1].y));
    }
}

/// On an empty board, a piece cast straight down from a free anchor comes to
/// rest with its lowest unit on row 0, in the column it started in.
pub proof fn lemma_cast_down_rests_on_floor(units: Seq<Position>, start: Position, r: Position)
    requires
        !obstructed(empty_rows(40), units, start.x as int, start.y as int),
        is_cast_of(empty_rows(40), units, start, Position { x: 0i32, y: -1i32 }, r),
    ensures
        r.x == start.x,
        forall|i: int| 0 <= i < units.len() ==> r.y + (#[trigger] units[i]).y >= 0,
        exists|i: int| 0 <= i < units.len() && r.y + (#[trigger] units[i]).y == 0,
{
    let rows = empty_rows(40);
    let down = Position { x: 0i32, y: -1i32 };
    let k = choose|k: int|
        0 <= k <= 40 && #[trigger] stops_after(rows, units, start, down, k) && r.x == start.x + k
            * down.x && r.y == start.y + k * down.y;
    assert(!obstructed(rows, units, r.x as int, r.y as int)) by {
        if k > 0 {
            assert(free_after(rows, units, start, down, k));
        }
    }
    assert(obstructed(rows, units, r.x as int, r.y - 1)) by {
        assert(!free_after(rows, units, start, down, k + 1));
    }
    let i = choose|i: int|
        0 <= i < units.len() && cell_filled(rows, r.x + (#[trigger] units[i]).x, r.y - 1 + units[i].y);
    assert(!cell_filled(rows, r.x + units[i].x, r.y + units[i].y));
    assert forall|j: int| 0 <= j < units.len() implies r.y + (#[trigger] units[j]).y >= 0 by {
        assert(!cell_filled(rows, r.x + units[j].x, r.y + units[j].y));
    }
}

/// A cast has one result: the first obstructed step fixes it.
pub proof fn lemma_cast_unique(
    rows: Seq<[bool; 10]>,
    units: Seq<Position>,
    start: Position,
    dir: Position,
    r1: Position,
    r2: Position,
)
    requires
        is_cast_of(rows, units, start, dir, r1),
        is_cast_of(rows, units, start, dir, r2),
    ensures
        r1 == r2,
{
    let k1 = choose|k: int|
        0 <= k <= 40 && #[trigger] stops_after(rows, units, start, dir, k) && r1.x == start.x + k
            * dir.x && r1.y == start.y + k * dir.y;
    let k2 = choose|k: int|
        0 <= k <= 40 && #[trigger] stops_after(rows, units, start, dir, k) && r2.x == start.x + k
            * dir.x && r2.y == start.y + k * dir.y;
    if k1 < k2 {
        assert(free_after(rows, units, start, dir, k1 + 1));
    } else if k2 < k1 {
        assert(free_after(rows, units, start, dir, k2 + 1));
    }
}

/// A board of 40 rows of 10 cells; row 0 is the bottom.
pub struct Board {
    pub rows: Vec<[bool; 10]>,
}

fn new_empty_row() -> (r: [bool; 10])
    ensures
        r == empty_row(),
{
    [false, false, false, false, false, false, false, false, false, false]
}

fn row_is_full(row: &[bool; 10]) -> (r: bool)
    ensures
        r == row_full(*row),
{
    let mut i: usize = 0;
    while i < 10
        invariant
            0 <= i <= 10,
            forall|j: int| 0 <= j < i ==> row[j],
        decreases 10 - i,
    {
        if !row[i] {
            return false;
        }
        i += 1;
    }
    true
}

fn row_is_empty(row: &[bool; 10]) -> (r: bool)
    ensures
        r == row_empty(*row),
{
    let mut i: usize = 0;
    while i < 10
        invariant
            0 <= i <= 10,
            forall|j: int| 0 <= j < i ==> !row[j],
        decreases 10 - i,
    {
        if row[i] {
            return false;
        }
        i += 1;
    }
    true
}

impl Board {
    pub open spec fn wf(&self) -> bool {
        self.rows@.len() == 40
    }

    pub open spec fn all_clear(&self) -> bool {
        forall|y: int| 0 <= y < 40 ==> row_empty(#[trigger] self.rows@[y])
    }

    /// Creates an empty board.
    pub fn new() -> (r: Self)
        ensures
            r.wf(),
            r.rows@ == empty_rows(40),
    {
        let mut rows: Vec<[bool; 10]> = Vec::new();
        let mut i: usize = 0;
        while i < 40
            invariant
                i <= 40,
                rows@ == empty_rows(i as nat),
            decreases 40 - i,
        {
            rows.push(new_empty_row());
            i += 1;
            assert(rows@ =~= empty_rows(i as nat));
        }
        Board { rows }
    }

    /// Moves every row above `row` down by one and puts an empty row on top.
    fn remove_row(&mut self, row: usize)
        requires
            old(self).wf(),
            row < 40,
        ensures
            final(self).wf(),
            final(self).rows@ == old(self).rows@.subrange(0, row as int) + old(self).rows@.subrange(
                row as int + 1,
                40,
            ) + seq![empty_row()],
    {
        let ghost before = self.rows@;
        let mut i: usize = row;
        while i < 39
            invariant
                row <= i <= 39,
                self.rows@.len() == 40,
                forall|j: int| 0 <= j < row ==> self.rows@[j] == before[j],
                forall|j: int| row <= j < i ==> self.rows@[j] == before[j + 1],
                forall|j: int| i <= j < 40 ==> self.rows@[j] == before[j],
            decreases 39 - i,
        {
            let next_row = self.rows[i + 1];
            self.rows.set(i, next_row);
            i += 1;
        }
        self.rows.set(39, new_empty_row());
        assert(self.rows@ =~= before.subrange(0, row as int) + before.subrange(row as int + 1, 40)
            + seq![empty_row()]);
    }

    /// Removes all full rows, scanning from the top; the rows above a removed
    /// row move down by one. Returns how many rows were removed.
    fn clear_lines(&mut self) -> (r: usize)
        requires
            old(self).wf(),
        ensures
            final(self).wf(),
            final(self).rows@ == clear_full_rows(old(self).rows@),
            r == full_row_count(old(self).rows@),
    {
        let ghost orig = self.rows@;
        let mut lines_cleared: usize = 0;
        let mut row: usize = 40;
        proof {
            assert(orig.subrange(40, 40) =~= seq![]);
            assert(self.rows@.subrange(40, 40) =~= clear_full_rows(orig.subrange(40, 40)));
        }
        while row > 0
            invariant
                row <= 40,
                self.rows@.len() == 40,
                orig.len() == 40,
                self.rows@.subrange(0, row as int) == orig.subrange(0, row as int),
                self.rows@.subrange(row as int, 40) == clear_full_rows(orig.subrange(row as int, 40)),
                lines_cleared == full_row_count(orig.subrange(row as int, 40)),
            decreases row,
        {
            let ghost s = self.rows@;
            let ghost above = orig.subrange(row as int, 40);
            row -= 1;
            let ghost here = orig.subrange(row as int, 40);
            proof {
                assert(here.drop_first() =~= above);
                assert(here[0] == orig[row as int]);
                assert(s[row as int] == s.subrange(0, row as int + 1)[row as int]);
                lemma_kept_rows_len(above);
            }
            if row_is_full(&self.rows[row]) {
                self.remove_row(row);
                lines_cleared += 1;
                proof {
                    assert(self.rows@.subrange(0, row as int) =~= s.subrange(0, row as int));
                    assert(s.subrange(0, row as int) =~= orig.subrange(0, row as int));
                    assert(self.rows@.subrange(row as int, 40) =~= s.subrange(row as int + 1, 40)
                        + seq![empty_row()]);
                    assert(empty_rows(full_row_count(above) as nat) + seq![empty_row()]
                        =~= empty_rows(full_row_count(here) as nat));
                    assert(self.rows@.subrange(row as int, 40) =~= clear_full_rows(here));
                }
            } else {
                proof {
                    assert(self.rows@.subrange(0, row as int) =~= orig.subrange(0, row as int));
                    assert(self.rows@.subrange(row as int, 40) =~= seq![s[row as int]]
                        + s.subrange(row as int + 1, 40));
                    assert(self.rows@.subrange(row as int, 40) =~= clear_full_rows(here));
                }
            }
        }
        assert(orig.subrange(0, 40) =~= orig);
        assert(self.rows@.subrange(0, 40) =~= self.rows@);
        lines_cleared
    }

    /// Fills the cells of the piece's units at `offset`, then clears full rows.
    /// Returns how many rows were cleared.
    pub fn lock_piece(&mut self, units: [Position; 4], offset: Position) -> (r: usize)
        requires
            old(self).wf(),
            units_in_bounds(units@, offset.x as int, offset.y as int),
        ensures
            final(self).wf(),
            final(self).rows@ == clear_full_rows(
                mark_cells(old(self).rows@, units@, offset.x as int, offset.y as int, 4),
            ),
            r == full_row_count(mark_cells(old(self).rows@, units@, offset.x as int, offset.y as int, 4)),
    {
        let ghost orig = self.rows@;
        let mut i: usize = 0;
        while i < 4
            invariant
                i <= 4,
                units_in_bounds(units@, offset.x as int, offset.y as int),
                self.rows@ == mark_cells(orig, units@, offset.x as int, offset.y as int, i as nat),
                self.rows@.len() == 40,
            decreases 4 - i,
        {
            let unit = units[i];
            assert(units@[i as int] == unit);
            let x = (unit.x as i64 + offset.x as i64) as usize;
            let y = (unit.y as i64 + offset.y as i64) as usize;
            let mut row = self.rows[y];
            row[x] = true;
            let ghost prev = self.rows@;
            self.rows.set(y, row);
            proof {
                let cx = offset.x + units@[i as int].x;
                let cy = offset.y + units@[i as int].y;
                assert(row =~= vstd::array::spec_array_update(prev[cy], cx, true));
            }
            i += 1;
        }
        self.clear_lines()
    }

    /// True when no cell of the board is filled.
    pub fn is_all_clear(&self) -> (r: bool)
        requires
            self.wf(),
        ensures
            r == self.all_clear(),
    {
        let mut y: usize = 0;
        while y < 40
            invariant
                y <= 40,
                self.wf(),
                forall|j: int| 0 <= j < y ==> row_empty(#[trigger] self.rows@[j]),
            decreases 40 - y,
        {
            if !row_is_empty(&self.rows[y]) {
                return false;
            }
            y += 1;
        }
        true
    }

    pub(crate) fn filled_at(&self, x: i64, y: i64) -> (r: bool)
        requires
            self.wf(),
        ensures
            r == cell_filled(self.rows@, x as int, y as int),
    {
        if x < 0 || x >= 10 || y < 0 || y >= 40 {
            return true;
        }
        self.rows[y as usize][x as usize]
    }

    /// True when the cell lies off the board or holds a block.
    pub fn is_filled(&self, position: Position) -> (r: bool)
        requires
            self.wf(),
        ensures
            r == cell_filled(self.rows@, position.x as int, position.y as int),
    {
        self.filled_at(position.x as i64, position.y as i64)
    }

    pub(crate) fn obstructed_at(&self, units: &[Position; 4], x: i64, y: i64) -> (r: bool)
        requires
            self.wf(),
            -0x4_0000_0000_0000 <= x <= 0x4_0000_0000_0000,
            -0x4_0000_0000_0000 <= y <= 0x4_0000_0000_0000,
        ensures
            r == obstructed(self.rows@, units@, x as int, y as int),
    {
        let mut i: usize = 0;
        while i < 4
            invariant
                i <= 4,
                self.wf(),
                -0x4_0000_0000_0000 <= x <= 0x4_0000_0000_0000,
                -0x4_0000_0000_0000 <= y <= 0x4_0000_0000_0000,
                forall|j: int|
                    0 <= j < i ==> !cell_filled(
                        self.rows@,
                        x + (#[trigger] units@[j]).x,
                        y + units@[j].y,
                    ),
            decreases 4 - i,
        {
            let unit = units[i];
            assert(units@[i as int] == unit);
            if self.filled_at(x + unit.x as i64, y + unit.y as i64) {
                return true;
            }
            i += 1;
        }
        false
    }

    /// True when some unit, placed at `position`, lies off the board or on a
    /// filled cell.
    pub fn is_obstructed(&self, units: [Position; 4], position: Position) -> (r: bool)
        requires
            self.wf(),
        ensures
            r == obstructed(self.rows@, units@, position.x as int, position.y as int),
    {
        self.obstructed_at(&units, position.x as i64, position.y as i64)
    }

    /// The furthest anchor reachable from `position` by whole steps of
    /// `direction` before the piece would be obstructed.
    pub fn piece_cast(&self, units: [Position; 4], position: Position, direction: Position) -> (r:
        Position)
        requires
            self.wf(),
            units_bounded(units@),
            direction.x != 0 || direction.y != 0 || obstructed(
                self.rows@,
                units@,
                position.x as int,
                position.y as int,
            ),
        ensures
            is_cast_of(self.rows@, units@, position, direction, r),
    {
        let ghost rows = self.rows@;
        let ghost u0 = units@[0];
        let dx = direction.x as i64;
        let dy = direction.y as i64;
        let mut x = position.x as i64;
        let mut y = position.y as i64;
        let ghost mut k: int = 0;
        assert(x == position.x + k * direction.x && y == position.y + k * direction.y)
            by (nonlinear_arith)
            requires
                k == 0,
                x == position.x,
                y == position.y,
        ;
        while !self.obstructed_at(&units, x + dx, y + dy)
            invariant
                self.wf(),
                rows == self.rows@,
                units_bounded(units@),
                u0 == units@[0],
                dx == direction.x,
                dy == direction.y,
                direction.x == 0 && direction.y == 0 ==> k == 0 && obstructed(
                    rows,
                    units@,
                    x as int,
                    y as int,
                ),
                k >= 1 ==> 1 <= edge_distance(x as int, y as int, u0, dx as int, dy as int)
                    && edge_distance(
                    x as int,
                    y as int,
                    u0,
                    dx as int,
                    dy as int,
                ) + k <= 41,
                0 <= k,
                x == position.x + k * direction.x,
                y == position.y + k * direction.y,
                i32::MIN <= x <= i32::MAX,
                i32::MIN <= y <= i32::MAX,
                forall|j: int| 1 <= j <= k ==> #[trigger] free_after(rows, units@, position, direction, j),
            decreases edge_distance(x as int, y as int, u0, dx as int, dy as int),
        {
            assert(!cell_filled(rows, x + dx + units@[0].x, y + dy + units@[0].y));
            x = x + dx;
            y = y + dy;
            proof {
                assert(x == position.x + (k + 1) * direction.x && y == position.y + (k + 1)
                    * direction.y) by (nonlinear_arith)
                    requires
                        x == position.x + k * direction.x + direction.x,
                        y == position.y + k * direction.y + direction.y,
                ;
                k = k + 1;
                assert(free_after(rows, units@, position, direction, k));
            }
        }
        proof {
            assert(x + dx == position.x + (k + 1) * direction.x && y + dy == position.y + (k + 1)
                * direction.y) by (nonlinear_arith)
                requires
                    x == position.x + k * direction.x,
                    y == position.y + k * direction.y,
                    dx == direction.x,
                    dy == direction.y,
            ;
        }
        let r = Position { x: x as i32, y: y as i32 };
        assert(stops_after(rows, units@, position, direction, k));
        r
    }

    /// True when every unit, placed at `position`, lies on the board.
    pub fn units_fit(&self, units: &[Position; 4], position: Position) -> (r: bool)
        ensures
            r == units_in_bounds(units@, position.x as int, position.y as int),
    {
        let mut i: usize = 0;
        while i < 4
            invariant
                i <= 4,
                forall|j: int|
                    0 <= j < i ==> in_bounds(
                        position.x + (#[trigger] units@[j]).x,
                        position.y + units@[j].y,
                    ),
            decreases 4 - i,
        {
            let unit = units[i];
            assert(units@[i as int] == unit);
            let x = position.x as i64 + unit.x as i64;
            let y = position.y as i64 + unit.y as i64;
            if x < 0 || x >= 10 || y < 0 || y >= 40 {
                return false;
            }
            i += 1;
        }
        true
    }
}

} // verus!
