//! The grid of settled cells: what blocks a piece, how a piece is committed,
//! how rows leave and how garbage comes in.
use crate::random::{draw_below, generator_state, range_outcome};
use crate::score::ClearKind;
use crate::tetromino::{Color, Pose, Tetromino};
use rand::rngs::StdRng;
use std::collections::HashSet;
use vstd::prelude::*;

verus! {

/// The number of columns.
pub const BOARD_WIDTH: i32 = 10;

/// The number of rows in which a piece can settle. Garbage may push rows above them.
pub const BOARD_HEIGHT: i32 = 20;

/// What a `Board` stands for: rows from the bottom up, each a row of cells.
pub type Grid = Seq<Seq<Option<Color>>>;

/// Whether `(x, y)` is a cell of `grid` that is filled.
pub open spec fn spec_filled(grid: Grid, x: int, y: int) -> bool {
    0 <= y < grid.len() && 0 <= x < grid[y].len() && grid[y][x] is Some
}

/// Whether a piece cell at `cell` lies outside the field or on a filled cell.
pub open spec fn spec_cell_overlaps(grid: Grid, cell: (int, int)) -> bool {
    cell.0 < 0 || cell.1 < 0 || cell.0 > BOARD_WIDTH - 1 || cell.1 > BOARD_HEIGHT - 1
        || spec_filled(grid, cell.0, cell.1)
}

/// Whether any cell of `pose` lies outside the field or on a filled cell.
pub open spec fn spec_overlapping(grid: Grid, pose: Pose) -> bool {
    exists|i: int| 0 <= i < pose.cells.len() && spec_cell_overlaps(grid, #[trigger] pose.cells[i])
}

/// Whether a piece cell at `cell` lies on a filled cell of the field.
pub open spec fn spec_cell_collides(grid: Grid, cell: (int, int)) -> bool {
    cell.1 < BOARD_HEIGHT && spec_filled(grid, cell.0, cell.1)
}

/// Whether any cell of `pose` lies on a filled cell of the field.
pub open spec fn spec_colliding(grid: Grid, pose: Pose) -> bool {
    exists|i: int| 0 <= i < pose.cells.len() && spec_cell_collides(grid, #[trigger] pose.cells[i])
}

/// Whether a piece cell at `cell` rests on the floor or on a filled cell.
pub open spec fn spec_cell_rests(grid: Grid, cell: (int, int)) -> bool {
    cell.1 == 0 || (cell.1 < BOARD_HEIGHT && spec_filled(grid, cell.0, cell.1 - 1))
}

/// Whether any cell of `pose` rests on the floor or on a filled cell. Cells
/// above the top row rest on nothing.
pub open spec fn spec_hitting_bottom(grid: Grid, pose: Pose) -> bool {
    exists|i: int| 0 <= i < pose.cells.len() && spec_cell_rests(grid, #[trigger] pose.cells[i])
}

/// Whether a piece cell at `cell` touches the left wall or a filled cell to its left.
pub open spec fn spec_cell_hits_left(grid: Grid, cell: (int, int)) -> bool {
    cell.0 == 0 || (cell.1 < BOARD_HEIGHT && spec_filled(grid, cell.0 - 1, cell.1))
}

/// Whether any cell of `pose` touches the left wall or a filled cell to its left.
pub open spec fn spec_hitting_left(grid: Grid, pose: Pose) -> bool {
    exists|i: int| 0 <= i < pose.cells.len() && spec_cell_hits_left(grid, #[trigger] pose.cells[i])
}

/// Whether a piece cell at `cell` touches the right wall or a filled cell to its right.
pub open spec fn spec_cell_hits_right(grid: Grid, cell: (int, int)) -> bool {
    cell.0 == BOARD_WIDTH - 1 || (cell.1 < BOARD_HEIGHT && spec_filled(grid, cell.0 + 1, cell.1))
}

/// Whether any cell of `pose` touches the right wall or a filled cell to its right.
pub open spec fn spec_hitting_right(grid: Grid, pose: Pose) -> bool {
    exists|i: int| 0 <= i < pose.cells.len() && spec_cell_hits_right(grid, #[trigger] pose.cells[i])
}

/// Whether row `y` of `grid` holds a filled cell.
pub open spec fn spec_row_in_use(grid: Grid, y: int) -> bool {
    0 <= y < grid.len() && exists|x: int| 0 <= x < grid[y].len() && (#[trigger] grid[y][x]) is Some
}

/// Whether every cell of `row` is filled.
pub open spec fn spec_row_full(row: Seq<Option<Color>>) -> bool {
    forall|x: int| 0 <= x < row.len() ==> (#[trigger] row[x]) is Some
}

/// The indices of the full rows of `grid`.
pub open spec fn spec_full_rows(grid: Grid) -> Set<usize> {
    Set::new(|y: usize| y < grid.len() && spec_row_full(grid[y as int]))
}

/// Whether no cell of `grid` is filled.
pub open spec fn spec_blank(grid: Grid) -> bool {
    forall|y: int| 0 <= y < grid.len() ==> !spec_row_in_use(grid, y)
}

/// A row without a filled cell.
pub open spec fn spec_empty_row() -> Seq<Option<Color>> {
    Seq::new(BOARD_WIDTH as nat, |x: int| None)
}

/// A row of garbage: every cell filled but the one in column `hole`.
pub open spec fn spec_garbage_row(hole: int) -> Seq<Option<Color>> {
    Seq::new(
        BOARD_WIDTH as nat,
        |x: int|
            if x == hole {
                None
            } else {
                Some(Color::White)
            },
    )
}

/// Every row has the width of the field, and there are at least as many rows as its height.
pub open spec fn spec_wf(grid: Grid) -> bool {
    &&& grid.len() >= BOARD_HEIGHT
    &&& forall|y: int| 0 <= y < grid.len() ==> (#[trigger] grid[y]).len() == BOARD_WIDTH
}

/// The rows of `grid` from row `from` on whose index is not in `marked`, in their order.
pub open spec fn spec_kept_rows(grid: Grid, marked: Set<usize>, from: int) -> Grid
    decreases grid.len() - from,
{
    if from < 0 || from >= grid.len() {
        Seq::empty()
    } else if marked.contains(from as usize) {
        spec_kept_rows(grid, marked, from + 1)
    } else {
        seq![grid[from]] + spec_kept_rows(grid, marked, from + 1)
    }
}

/// `grid` after the rows in `marked` have left it: the others move down, and
/// as many empty rows come in at the top.
pub open spec fn spec_cleared(grid: Grid, marked: Set<usize>) -> Grid {
    let kept = spec_kept_rows(grid, marked, 0);
    kept + Seq::new((grid.len() - kept.len()) as nat, |i: int| spec_empty_row())
}

/// `grid` with every cell that is among `cells` filled with `color`.
pub open spec fn spec_stamped(grid: Grid, cells: Seq<(int, int)>, color: Color) -> Grid {
    Seq::new(
        grid.len(),
        |y: int|
            Seq::new(
                grid[y].len(),
                |x: int|
                    if cells.contains((x, y)) {
                        Some(color)
                    } else {
                        grid[y][x]
                    },
            ),
    )
}

/// The index of the first of `cells`, from `from` on, that lies above the top
/// row; their number if none does.
pub open spec fn spec_first_above(cells: Seq<(int, int)>, from: int) -> int
    decreases cells.len() - from,
{
    if from < 0 || from >= cells.len() {
        cells.len() as int
    } else if cells[from].1 > BOARD_HEIGHT - 1 {
        from
    } else {
        spec_first_above(cells, from + 1)
    }
}

/// `grid` with `count` rows of garbage, their hole in column `hole`, put under it.
pub open spec fn spec_with_garbage(grid: Grid, count: int, hole: int) -> Grid {
    Seq::new(count as nat, |i: int| spec_garbage_row(hole)) + grid
}

/// The number of full rows among the first `upto` rows of `grid`.
pub open spec fn spec_full_row_count(grid: Grid, upto: int) -> int
    decreases upto,
{
    if upto <= 0 {
        0
    } else {
        spec_full_row_count(grid, upto - 1) + if upto <= grid.len() && spec_row_full(
            grid[upto - 1],
        ) {
            1int
        } else {
            0int
        }
    }
}

/// The index of the lowest row of `grid`, from row `from` on, that holds a
/// filled cell; the number of rows if none does.
pub open spec fn spec_first_row_in_use(grid: Grid, from: int) -> int
    decreases grid.len() - from,
{
    if from < 0 || from >= grid.len() {
        grid.len() as int
    } else if spec_row_in_use(grid, from) {
        from
    } else {
        spec_first_row_in_use(grid, from + 1)
    }
}

/// The first cell above the top row is looked for from `from` on and found at
/// an index up to the number of cells.
pub proof fn lemma_first_above_bounds(cells: Seq<(int, int)>, from: int)
    requires
        0 <= from <= cells.len(),
    ensures
        from <= spec_first_above(cells, from) <= cells.len(),
    decreases cells.len() - from,
{
    if from < cells.len() && cells[from].1 <= BOARD_HEIGHT - 1 {
        lemma_first_above_bounds(cells, from + 1);
    }
}

/// No more rows are kept than there are.
pub proof fn lemma_kept_rows_len(grid: Grid, marked: Set<usize>, from: int)
    requires
        0 <= from <= grid.len(),
    ensures
        spec_kept_rows(grid, marked, from).len() <= grid.len() - from,
    decreases grid.len() - from,
{
    if from < grid.len() {
        lemma_kept_rows_len(grid, marked, from + 1);
    }
}

/// Every kept row is a row of the grid that is not marked, and its width is
/// that of a row of the grid.
pub proof fn lemma_kept_rows_are_rows(grid: Grid, marked: Set<usize>, from: int, i: int)
    requires
        0 <= from <= grid.len(),
        0 <= i < spec_kept_rows(grid, marked, from).len(),
    ensures
        exists|y: int|
            from <= y < grid.len() && !marked.contains(y as usize) && spec_kept_rows(
                grid,
                marked,
                from,
            )[i] == #[trigger] grid[y],
    decreases grid.len() - from,
{
    if from < grid.len() {
        if marked.contains(from as usize) {
            lemma_kept_rows_are_rows(grid, marked, from + 1, i);
        } else if i == 0 {
            assert(spec_kept_rows(grid, marked, from)[0] == grid[from]);
        } else {
            lemma_kept_rows_are_rows(grid, marked, from + 1, i - 1);
            let y = choose|y: int|
                from + 1 <= y < grid.len() && !marked.contains(y as usize) && spec_kept_rows(
                    grid,
                    marked,
                    from + 1,
                )[i - 1] == #[trigger] grid[y];
            assert(spec_kept_rows(grid, marked, from)[i] == grid[y]);
        }
    }
}

/// The settled cells of a player.
pub struct Board(pub Vec<Vec<Option<Color>>>);

/// The stack of settled cells: another name for the board.
pub type Stack = Board;

impl View for Board {
    type V = Grid;

    open spec fn view(&self) -> Grid {
        Seq::new(self.0@.len(), |y: int| self.0@[y]@)
    }
}

impl Board {
    /// Every row has the width of the field, and there are at least as many rows as its height.
    pub open spec fn wf(&self) -> bool {
        spec_wf(self@)
    }

    /// Whether every row has the width of the field, and there are at least
    /// as many rows as its height.
    pub fn is_wf(&self) -> (ok: bool)
        ensures
            ok == self.wf(),
    {
        if self.0.len() < 20 {
            return false;
        }
        let mut y: usize = 0;
        while y < self.0.len()
            invariant
                y <= self.0.len(),
                self@.len() >= BOARD_HEIGHT,
                forall|r: int| 0 <= r < y ==> (#[trigger] self@[r]).len() == BOARD_WIDTH,
            decreases self.0.len() - y,
        {
            if self.0[y].len() != 10 {
                assert(self@[y as int].len() != BOARD_WIDTH);
                return false;
            }
            y += 1;
        }
        true
    }

    /// An empty row.
    fn empty_row() -> (row: Vec<Option<Color>>)
        ensures
            row@ == spec_empty_row(),
    {
        let mut row: Vec<Option<Color>> = Vec::new();
        let mut x: i32 = 0;
        while x < BOARD_WIDTH
            invariant
                0 <= x <= BOARD_WIDTH,
                row@.len() == x,
                forall|i: int| 0 <= i < x ==> (#[trigger] row@[i]) is None,
            decreases BOARD_WIDTH - x,
        {
            row.push(None);
            x += 1;
        }
        assert(row@ =~= spec_empty_row());
        row
    }

    /// A row of garbage with its hole in column `hole`.
    fn garbage_row(hole: usize) -> (row: Vec<Option<Color>>)
        ensures
            row@ == spec_garbage_row(hole as int),
    {
        let mut row: Vec<Option<Color>> = Vec::new();
        let mut x: usize = 0;
        while x < 10
            invariant
                0 <= x <= 10,
                row@.len() == x,
                forall|i: int|
                    0 <= i < x ==> #[trigger] row@[i] == (if i == hole {
                        None
                    } else {
                        Some(Color::White)
                    }),
            decreases 10 - x,
        {
            if x == hole {
                row.push(None);
            } else {
                row.push(Some(Color::White));
            }
            x += 1;
        }
        assert(row@ =~= spec_garbage_row(hole as int));
        row
    }

    /// The empty board: twenty rows of ten empty cells.
    pub fn new() -> (board: Board)
        ensures
            board@ == Seq::new(BOARD_HEIGHT as nat, |y: int| spec_empty_row()),
            board.wf(),
            spec_blank(board@),
    {
        let mut rows: Vec<Vec<Option<Color>>> = Vec::new();
        let mut y: i32 = 0;
        while y < BOARD_HEIGHT
            invariant
                0 <= y <= BOARD_HEIGHT,
                rows@.len() == y,
                forall|i: int| 0 <= i < y ==> (#[trigger] rows@[i])@ == spec_empty_row(),
            decreases BOARD_HEIGHT - y,
        {
            rows.push(Board::empty_row());
            y += 1;
        }
        let board = Board(rows);
        assert(board@ =~= Seq::new(BOARD_HEIGHT as nat, |y: int| spec_empty_row()));
        board
    }

    /// A board that holds what this one holds.
    pub fn copy(&self) -> (board: Board)
        ensures
            board@ == self@,
    {
        let mut rows: Vec<Vec<Option<Color>>> = Vec::new();
        let mut y: usize = 0;
        while y < self.0.len()
            invariant
                y <= self.0.len(),
                rows@.len() == y,
                forall|r: int| 0 <= r < y ==> (#[trigger] rows@[r])@ == self@[r],
            decreases self.0.len() - y,
        {
            let mut row: Vec<Option<Color>> = Vec::new();
            let mut x: usize = 0;
            while x < self.0[y].len()
                invariant
                    y < self.0.len(),
                    x <= self.0[y as int].len(),
                    row@ == self@[y as int].take(x as int),
                decreases self.0[y as int].len() - x,
            {
                row.push(self.0[y][x]);
                x += 1;
                assert(row@ =~= self@[y as int].take(x as int));
            }
            assert(self@[y as int].take(self@[y as int].len() as int) =~= self@[y as int]);
            rows.push(row);
            y += 1;
        }
        let board = Board(rows);
        assert(board@ =~= self@);
        board
    }

    /// Whether `(x, y)` is a cell of the board that is filled.
    pub fn filled(&self, x: i64, y: i64) -> (filled: bool)
        ensures
            filled == spec_filled(self@, x as int, y as int),
    {
        if x < 0 || y < 0 {
            return false;
        }
        if y as u64 >= self.0.len() as u64 {
            return false;
        }
        let row: usize = y as usize;
        if x as u64 >= self.0[row].len() as u64 {
            return false;
        }
        self.0[row][x as usize].is_some()
    }

    /// What the cell `(x, y)` holds; nothing outside the board.
    pub fn cell(&self, x: i64, y: i64) -> (held: Option<Color>)
        ensures
            held == (if spec_filled(self@, x as int, y as int) {
                self@[y as int][x as int]
            } else {
                None
            }),
    {
        if x < 0 || y < 0 {
            return None;
        }
        if y as u64 >= self.0.len() as u64 {
            return None;
        }
        let row: usize = y as usize;
        if x as u64 >= self.0[row].len() as u64 {
            return None;
        }
        self.0[row][x as usize]
    }

    /// Whether row `y` holds a filled cell.
    pub fn row_in_use(&self, y: usize) -> (used: bool)
        ensures
            used == spec_row_in_use(self@, y as int),
    {
        if y >= self.0.len() {
            return false;
        }
        let mut x: usize = 0;
        while x < self.0[y].len()
            invariant
                y < self.0.len(),
                x <= self.0[y as int].len(),
                forall|i: int| 0 <= i < x ==> (#[trigger] self@[y as int][i]) is None,
            decreases self.0[y as int].len() - x,
        {
            if self.0[y][x].is_some() {
                assert(self@[y as int][x as int] is Some);
                return true;
            }
            x += 1;
        }
        false
    }

    /// Whether every cell of row `y` is filled.
    pub fn row_full(&self, y: usize) -> (full: bool)
        requires
            y < self.0.len(),
        ensures
            full == spec_row_full(self@[y as int]),
    {
        let mut x: usize = 0;
        while x < self.0[y].len()
            invariant
                y < self.0.len(),
                x <= self.0[y as int].len(),
                forall|i: int| 0 <= i < x ==> (#[trigger] self@[y as int][i]) is Some,
            decreases self.0[y as int].len() - x,
        {
            if self.0[y][x].is_none() {
                assert(self@[y as int][x as int] is None);
                return false;
            }
            x += 1;
        }
        true
    }

    /// The indices of the full rows.
    pub fn full_rows(&self) -> (rows: HashSet<usize>)
        ensures
            rows@ == spec_full_rows(self@),
            rows@.finite(),
    {
        let mut rows: HashSet<usize> = HashSet::new();
        let mut y: usize = 0;
        while y < self.0.len()
            invariant
                y <= self.0.len(),
                rows@ == Set::new(|r: usize| r < y && spec_row_full(self@[r as int])),
                rows@.finite(),
            decreases self.0.len() - y,
        {
            let ghost before = rows@;
            if self.row_full(y) {
                rows.insert(y);
            }
            assert(rows@ =~= Set::new(|r: usize| r < y + 1 && spec_row_full(self@[r as int])));
            y += 1;
        }
        assert(rows@ =~= spec_full_rows(self@));
        rows
    }

    /// Whether no cell is filled.
    pub fn is_blank(&self) -> (blank: bool)
        ensures
            blank == spec_blank(self@),
    {
        let mut y: usize = 0;
        while y < self.0.len()
            invariant
                y <= self.0.len(),
                forall|r: int| 0 <= r < y ==> !spec_row_in_use(self@, r),
            decreases self.0.len() - y,
        {
            if self.row_in_use(y) {
                return false;
            }
            y += 1;
        }
        true
    }

    /// Takes out the rows whose index is in `clearing`. The rows above them
    /// move down in their order, and as many empty rows come in at the top.
    pub fn line_clear(&mut self, clearing: &HashSet<usize>)
        ensures
            final(self)@ == spec_cleared(old(self)@, clearing@),
            final(self)@.len() == old(self)@.len(),
            (forall|y: int| 0 <= y < old(self)@.len() ==> (#[trigger] old(self)@[y]).len()
                == BOARD_WIDTH) ==> (forall|y: int|
                0 <= y < final(self)@.len() ==> (#[trigger] final(self)@[y]).len() == BOARD_WIDTH),
            old(self).wf() ==> final(self).wf(),
    {
        let rows: usize = self.0.len();
        let mut y: usize = rows;
        while y > 0
            invariant
                y <= rows,
                rows == old(self)@.len(),
                y <= self.0.len(),
                self@ == old(self)@.take(y as int) + spec_kept_rows(
                    old(self)@,
                    clearing@,
                    y as int,
                ),
            decreases y,
        {
            y -= 1;
            let ghost before = self@;
            if clearing.contains(&y) {
                self.0.remove(y);
                assert(self@ =~= before.remove(y as int));
                assert(self@ =~= old(self)@.take(y as int) + spec_kept_rows(
                    old(self)@,
                    clearing@,
                    y as int,
                ));
            } else {
                assert(self@ =~= old(self)@.take(y as int) + spec_kept_rows(
                    old(self)@,
                    clearing@,
                    y as int,
                ));
            }
        }
        let ghost kept = spec_kept_rows(old(self)@, clearing@, 0);
        assert(self@ =~= kept);
        proof {
            lemma_kept_rows_len(old(self)@, clearing@, 0);
        }
        while self.0.len() < rows
            invariant
                kept == spec_kept_rows(old(self)@, clearing@, 0),
                kept.len() <= self.0.len() <= rows,
                rows == old(self)@.len(),
                self@ == kept + Seq::new(
                    (self.0.len() - kept.len()) as nat,
                    |i: int| spec_empty_row(),
                ),
            decreases rows - self.0.len(),
        {
            let ghost before = self@;
            self.0.push(Board::empty_row());
            assert(self@ =~= before.push(spec_empty_row()));
            assert(self@ =~= kept + Seq::new(
                (self.0.len() - kept.len()) as nat,
                |i: int| spec_empty_row(),
            ));
        }
        proof {
            if forall|y: int|
                0 <= y < old(self)@.len() ==> (#[trigger] old(self)@[y]).len() == BOARD_WIDTH {
                assert forall|y: int| 0 <= y < self@.len() implies (#[trigger] self@[y]).len()
                    == BOARD_WIDTH by {
                    if y < kept.len() {
                        lemma_kept_rows_are_rows(old(self)@, clearing@, 0, y);
                    }
                }
            }
        }
    }

    /// Fills the cells of `tetromino` with its colour, one after the other, and
    /// stops at the first that lies above the top row; says whether none did.
    pub fn add(&mut self, tetromino: &Tetromino) -> (committed: bool)
        requires
            old(self).wf(),
            forall|i: int|
                0 <= i < 4 ==> 0 <= (#[trigger] tetromino@.pose.cells[i]).0 < BOARD_WIDTH && 0
                    <= tetromino@.pose.cells[i].1,
        ensures
            committed == (spec_first_above(tetromino@.pose.cells, 0) == 4),
            final(self)@ == spec_stamped(
                old(self)@,
                tetromino@.pose.cells.take(spec_first_above(tetromino@.pose.cells, 0)),
                tetromino.color,
            ),
            final(self).wf(),
    {
        let ghost cells = tetromino@.pose.cells;
        let mut i: usize = 0;
        proof {
            let start = spec_stamped(self@, cells.take(0), tetromino.color);
            assert forall|y: int| 0 <= y < self@.len() implies #[trigger] self@[y] =~= start[y] by {
            }
            assert(self@ =~= start);
        }
        while i < 4
            invariant
                i <= 4,
                cells == tetromino@.pose.cells,
                cells.len() == 4,
                old(self).wf(),
                self.wf(),
                forall|j: int|
                    0 <= j < 4 ==> 0 <= (#[trigger] cells[j]).0 < BOARD_WIDTH && 0 <= cells[j].1,
                spec_first_above(cells, 0) == spec_first_above(cells, i as int),
                self@ == spec_stamped(old(self)@, cells.take(i as int), tetromino.color),
            decreases 4 - i,
        {
            let position = tetromino.geometry.shape[i];
            assert(cells[i as int] == (position.0 as int, position.1 as int));
            if position.1 > BOARD_HEIGHT - 1 {
                return false;
            }
            let ghost before = self@;
            assert(self@[position.1 as int].len() == BOARD_WIDTH);
            self.0[position.1 as usize][position.0 as usize] = Some(tetromino.color);
            proof {
                let after = spec_stamped(old(self)@, cells.take(i + 1), tetromino.color);
                assert(cells.take(i + 1) =~= cells.take(i as int).push(cells[i as int]));
                assert(self@ =~= before.update(
                    position.1 as int,
                    before[position.1 as int].update(position.0 as int, Some(tetromino.color)),
                ));
                assert forall|y: int| 0 <= y < after.len() implies #[trigger] self@[y]
                    =~= after[y] by {
                    assert(before[y].len() == old(self)@[y].len());
                    assert forall|x: int| 0 <= x < after[y].len() implies self@[y][x]
                        == after[y][x] by {
                        assert(before[y][x] == spec_stamped(
                            old(self)@,
                            cells.take(i as int),
                            tetromino.color,
                        )[y][x]);
                        if cells.take(i as int).contains((x, y)) {
                            let k = choose|k: int|
                                0 <= k < i && cells.take(i as int)[k] == (x, y);
                            assert(cells.take(i + 1)[k] == (x, y));
                        }
                        if (x, y) == cells[i as int] {
                            assert(cells.take(i + 1)[i as int] == (x, y));
                        }
                    }
                }
                assert(self@ =~= after);
            }
            i += 1;
        }
        assert(cells.take(4) =~= cells);
        true
    }

    /// Puts `count` rows of garbage, their hole in column `hole`, under the rows of the board.
    pub fn push_garbage(&mut self, count: usize, hole: usize)
        ensures
            final(self)@ == spec_with_garbage(old(self)@, count as int, hole as int),
            old(self).wf() ==> final(self).wf(),
    {
        let mut added: usize = 0;
        while added < count
            invariant
                added <= count,
                self@ == spec_with_garbage(old(self)@, added as int, hole as int),
            decreases count - added,
        {
            let ghost before = self@;
            self.0.insert(0, Board::garbage_row(hole));
            added += 1;
            assert(self@ =~= before.insert(0, spec_garbage_row(hole as int)));
            assert(self@ =~= spec_with_garbage(old(self)@, added as int, hole as int));
        }
    }

    /// Puts the garbage that a clear of kind `clear_kind` sends under the rows
    /// of the board. The column of the hole is drawn from `seed`, also where
    /// the clear sends no row.
    pub fn add_garbage(&mut self, clear_kind: ClearKind, seed: &mut StdRng)
        ensures
            final(self)@ == spec_with_garbage(
                old(self)@,
                clear_kind.spec_garbage_line_count() as int,
                range_outcome(generator_state(*old(seed)), BOARD_WIDTH).0 as int,
            ),
            generator_state(*final(seed)) == range_outcome(
                generator_state(*old(seed)),
                BOARD_WIDTH,
            ).1,
            0 <= range_outcome(generator_state(*old(seed)), BOARD_WIDTH).0 < BOARD_WIDTH,
            old(self).wf() ==> final(self).wf(),
    {
        let hole: i32 = draw_below(seed, BOARD_WIDTH);
        self.push_garbage(clear_kind.garbage_line_count(), hole as usize);
    }

    /// The number of full rows.
    pub fn evaluate_gaps(&self) -> (score: i32)
        requires
            self.wf(),
            self@.len() <= i32::MAX,
        ensures
            score == spec_full_row_count(self@, self@.len() as int),
            0 <= score <= self@.len(),
    {
        let mut score: i32 = 0;
        let mut y: usize = 0;
        while y < self.0.len()
            invariant
                y <= self.0.len(),
                self.wf(),
                self@.len() <= i32::MAX,
                0 <= score <= y,
                score == spec_full_row_count(self@, y as int),
            decreases self.0.len() - y,
        {
            if self.row_full(y) {
                score = score + 1;
            }
            y += 1;
        }
        score
    }

    /// The index of the lowest row that holds a filled cell; the number of rows if none does.
    pub fn evaluate_height(&self) -> (height: i32)
        requires
            self@.len() <= i32::MAX,
        ensures
            height == spec_first_row_in_use(self@, 0),
            0 <= height <= self@.len(),
    {
        let mut y: usize = 0;
        while y < self.0.len()
            invariant
                y <= self.0.len(),
                self@.len() <= i32::MAX,
                spec_first_row_in_use(self@, 0) == spec_first_row_in_use(self@, y as int),
            decreases self.0.len() - y,
        {
            if self.row_in_use(y) {
                return y as i32;
            }
            y += 1;
        }
        self.0.len() as i32
    }

    /// Whether any cell of the piece lies outside the field or on a filled cell.
    pub fn overlapping(&self, tetromino: &Tetromino) -> (overlaps: bool)
        ensures
            overlaps == spec_overlapping(self@, tetromino@.pose),
    {
        let mut i: usize = 0;
        while i < 4
            invariant
                i <= 4,
                forall|j: int|
                    0 <= j < i ==> !spec_cell_overlaps(self@, #[trigger] tetromino@.pose.cells[j]),
            decreases 4 - i,
        {
            let position = tetromino.geometry.shape[i];
            assert(tetromino@.pose.cells[i as int] == (position.0 as int, position.1 as int));
            if position.0 < 0 || position.1 < 0 || position.0 > BOARD_WIDTH - 1 || position.1
                > BOARD_HEIGHT - 1 || self.filled(position.0 as i64, position.1 as i64) {
                return true;
            }
            i += 1;
        }
        false
    }

    /// Whether any cell of the piece lies on a filled cell of the field.
    pub fn colliding(&self, tetromino: &Tetromino) -> (collides: bool)
        ensures
            collides == spec_colliding(self@, tetromino@.pose),
    {
        let mut i: usize = 0;
        while i < 4
            invariant
                i <= 4,
                forall|j: int|
                    0 <= j < i ==> !spec_cell_collides(self@, #[trigger] tetromino@.pose.cells[j]),
            decreases 4 - i,
        {
            let position = tetromino.geometry.shape[i];
            assert(tetromino@.pose.cells[i as int] == (position.0 as int, position.1 as int));
            if position.1 < BOARD_HEIGHT && self.filled(position.0 as i64, position.1 as i64) {
                return true;
            }
            i += 1;
        }
        false
    }

    /// Whether any cell of the piece rests on the floor or on a filled cell.
    pub fn hitting_bottom(&self, tetromino: &Tetromino) -> (hits: bool)
        ensures
            hits == spec_hitting_bottom(self@, tetromino@.pose),
            (exists|i: int| 0 <= i < 4 && (#[trigger] tetromino@.pose.cells[i]).1 == 0) ==> hits,
    {
        let mut i: usize = 0;
        while i < 4
            invariant
                i <= 4,
                forall|j: int|
                    0 <= j < i ==> !spec_cell_rests(self@, #[trigger] tetromino@.pose.cells[j]),
            decreases 4 - i,
        {
            let position = tetromino.geometry.shape[i];
            assert(tetromino@.pose.cells[i as int] == (position.0 as int, position.1 as int));
            if position.1 == 0 || (position.1 < BOARD_HEIGHT && self.filled(
                position.0 as i64,
                position.1 as i64 - 1,
            )) {
                return true;
            }
            i += 1;
        }
        false
    }

    /// Whether any cell of the piece touches the left wall or a filled cell to
    /// its left. A cell in column 0 does, whatever the board holds.
    pub fn hitting_left(&self, tetromino: &Tetromino) -> (hits: bool)
        ensures
            hits == spec_hitting_left(self@, tetromino@.pose),
            (exists|i: int| 0 <= i < 4 && (#[trigger] tetromino@.pose.cells[i]).0 == 0) ==> hits,
    {
        let mut i: usize = 0;
        while i < 4
            invariant
                i <= 4,
                forall|j: int|
                    0 <= j < i ==> !spec_cell_hits_left(self@, #[trigger] tetromino@.pose.cells[j]),
            decreases 4 - i,
        {
            let position = tetromino.geometry.shape[i];
            assert(tetromino@.pose.cells[i as int] == (position.0 as int, position.1 as int));
            if position.0 == 0 || (position.1 < BOARD_HEIGHT && self.filled(
                position.0 as i64 - 1,
                position.1 as i64,
            )) {
                return true;
            }
            i += 1;
        }
        false
    }

    /// Whether any cell of the piece touches the right wall or a filled cell to
    /// its right. A cell in the last column does, whatever the board holds.
    pub fn hitting_right(&self, tetromino: &Tetromino) -> (hits: bool)
        ensures
            hits == spec_hitting_right(self@, tetromino@.pose),
            (exists|i: int|
                0 <= i < 4 && (#[trigger] tetromino@.pose.cells[i]).0 == BOARD_WIDTH - 1) ==> hits,
    {
        let mut i: usize = 0;
        while i < 4
            invariant
                i <= 4,
                forall|j: int|
                    0 <= j < i ==> !spec_cell_hits_right(
                        self@,
                        #[trigger] tetromino@.pose.cells[j],
                    ),
            decreases 4 - i,
        {
            let position = tetromino.geometry.shape[i];
            assert(tetromino@.pose.cells[i as int] == (position.0 as int, position.1 as int));
            if position.0 == BOARD_WIDTH - 1 || (position.1 < BOARD_HEIGHT && self.filled(
                position.0 as i64 + 1,
                position.1 as i64,
            )) {
                return true;
            }
            i += 1;
        }
        false
    }
}

} // verus!
