//! A player moved by the program: it looks for a place where the falling
//! piece can rest, and steers the piece there.
use crate::board::{
    spec_first_above, spec_first_row_in_use, spec_full_row_count, spec_hitting_bottom,
    spec_overlapping, spec_stamped, spec_wf, Board, Grid, BOARD_WIDTH,
};
use crate::event::InputAction;
use crate::player::{Effects, Outcome, Player, PlayerModel};
use crate::tetromino::{
    Piece, Pose, RotationDirection, ShiftDirection, Tetromino, TetrominoVariant,
};
use vstd::prelude::*;

verus! {

/// Whether `piece` can be played where it is: it overlaps nothing and rests.
pub open spec fn spec_valid_play(grid: Grid, piece: Piece) -> bool {
    !spec_overlapping(grid, piece.pose) && spec_hitting_bottom(grid, piece.pose)
}

/// The piece of `variant` with its pivot at `(column, row)`, turned `turns`
/// quarter turns clockwise from its spawn pose.
pub open spec fn spec_probe(variant: TetrominoVariant, column: int, row: int, turns: nat) -> Piece
    decreases turns,
{
    if turns == 0 {
        variant.spawn().posed(
            variant.spawn().pose.translated(
                column - variant.spawn_center().0,
                row - variant.spawn_center().1,
            ),
        )
    } else {
        let before = spec_probe(variant, column, row, (turns - 1) as nat);
        before.posed(before.pose.rotated(RotationDirection::Clockwise))
    }
}

/// The plays among the first `turns` turns of the piece at `(column, row)`.
pub open spec fn spec_scan_turns(
    grid: Grid,
    variant: TetrominoVariant,
    column: int,
    row: int,
    turns: nat,
) -> Seq<Piece>
    decreases turns,
{
    if turns == 0 {
        Seq::empty()
    } else {
        let before = spec_scan_turns(grid, variant, column, row, (turns - 1) as nat);
        let probe = spec_probe(variant, column, row, turns);
        if spec_valid_play(grid, probe) {
            before.push(probe)
        } else {
            before
        }
    }
}

/// The column of step `step` in row `row` of a sweep over `width` steps:
/// rows with an even index are swept from column 0 up, the others from
/// column `width` down.
pub open spec fn spec_sweep_column(width: int, row: int, step: int) -> int {
    if row % 2 == 0 {
        step
    } else {
        width - step
    }
}

/// The plays found on the first `steps` steps of row `row`.
pub open spec fn spec_scan_row(
    grid: Grid,
    variant: TetrominoVariant,
    width: int,
    row: int,
    steps: nat,
) -> Seq<Piece>
    decreases steps,
{
    if steps == 0 {
        Seq::empty()
    } else {
        spec_scan_row(grid, variant, width, row, (steps - 1) as nat) + spec_scan_turns(
            grid,
            variant,
            spec_sweep_column(width, row, steps - 1),
            row,
            4,
        )
    }
}

/// The plays found in the first `rows` rows of a sweep over `width` steps a row.
pub open spec fn spec_scan_rows(grid: Grid, variant: TetrominoVariant, width: int, rows: nat)
    -> Seq<Piece>
    decreases rows,
{
    if rows == 0 {
        Seq::empty()
    } else {
        spec_scan_rows(grid, variant, width, (rows - 1) as nat) + spec_scan_row(
            grid,
            variant,
            width,
            rows - 1,
            width as nat,
        )
    }
}

/// The plays for a piece of `variant` on `grid`: every pivot of a sweep that
/// takes as many steps a row as the grid has rows, in each of the four facings.
pub open spec fn spec_scan(grid: Grid, variant: TetrominoVariant) -> Seq<Piece> {
    spec_scan_rows(grid, variant, grid.len() as int, grid.len())
}

/// What a play is worth: the number of full rows once the piece is
/// committed, and the index of the lowest row that then holds a filled cell.
pub open spec fn spec_play_score(grid: Grid, piece: Piece) -> int {
    let after = spec_stamped(
        grid,
        piece.pose.cells.take(spec_first_above(piece.pose.cells, 0)),
        piece.color,
    );
    spec_full_row_count(after, after.len() as int) + spec_first_row_in_use(after, 0)
}

/// The index of the first among the first `upto` of `plays` that is worth
/// the most on `grid`.
pub open spec fn spec_best(grid: Grid, plays: Seq<Piece>, upto: nat) -> int
    decreases upto,
{
    if upto <= 1 {
        0
    } else {
        let before = spec_best(grid, plays, (upto - 1) as nat);
        if spec_play_score(grid, plays[upto - 1]) > spec_play_score(grid, plays[before]) {
            upto - 1
        } else {
            before
        }
    }
}

/// The play to aim for: the first of the plays for the falling piece that is
/// worth the most; none where there is no play.
pub open spec fn spec_goal(grid: Grid, variant: TetrominoVariant) -> Option<Piece> {
    let plays = spec_scan(grid, variant);
    if plays.len() == 0 {
        None
    } else {
        Some(plays[spec_best(grid, plays, plays.len())])
    }
}

/// The pieces that `plays` stand for.
pub open spec fn spec_pieces(plays: Seq<Tetromino>) -> Seq<Piece> {
    Seq::new(plays.len(), |i: int| plays[i]@)
}

/// The numbers of a probe are within four of its pivot, and its pivot is
/// where it was put.
pub proof fn lemma_probe_is_near(variant: TetrominoVariant, column: int, row: int, turns: nat)
    ensures
        spec_probe(variant, column, row, turns).pose.center == (column, row),
        spec_probe(variant, column, row, turns).pose.cells.len() == 4,
        spec_probe(variant, column, row, turns).pose.compact(2),
        spec_probe(variant, column, row, turns).variant == variant,
        spec_probe(variant, column, row, turns).color == variant.color(),
    decreases turns,
{
    if turns == 0 {
        let start = variant.spawn().pose;
        let probe = spec_probe(variant, column, row, 0);
        assert forall|i: int| 0 <= i < 4 implies -2 <= (#[trigger] probe.pose.cells[i]).0
            - probe.pose.center.0 <= 2 && -2 <= probe.pose.cells[i].1 - probe.pose.center.1
            <= 2 by {
            assert(probe.pose.cells[i] == (
                start.cells[i].0 + column - variant.spawn_center().0,
                start.cells[i].1 + row - variant.spawn_center().1,
            ));
            if i == 0 {
            } else if i == 1 {
            } else if i == 2 {
            } else {
            }
        }
    } else {
        lemma_probe_is_near(variant, column, row, (turns - 1) as nat);
        let before = spec_probe(variant, column, row, (turns - 1) as nat);
        let probe = spec_probe(variant, column, row, turns);
        assert forall|i: int| 0 <= i < 4 implies -2 <= (#[trigger] probe.pose.cells[i]).0
            - probe.pose.center.0 <= 2 && -2 <= probe.pose.cells[i].1 - probe.pose.center.1
            <= 2 by {
            assert(probe.pose.cells[i] == Pose::turned_cell(
                before.pose.center,
                before.pose.cells[i],
                RotationDirection::Clockwise,
            ));
        }
    }
}

/// Four quarter turns bring a pose back to where it was.
pub proof fn lemma_four_turns(pose: Pose)
    ensures
        pose.rotated(RotationDirection::Clockwise).rotated(RotationDirection::Clockwise).rotated(
            RotationDirection::Clockwise,
        ).rotated(RotationDirection::Clockwise) == pose,
{
    let r1 = pose.rotated(RotationDirection::Clockwise);
    let r2 = r1.rotated(RotationDirection::Clockwise);
    let r3 = r2.rotated(RotationDirection::Clockwise);
    let r4 = r3.rotated(RotationDirection::Clockwise);
    assert forall|i: int| 0 <= i < pose.cells.len() implies r4.cells[i] == pose.cells[i] by {
        assert(r1.cells[i] == Pose::turned_cell(pose.center, pose.cells[i], RotationDirection::Clockwise));
        assert(r2.cells[i] == Pose::turned_cell(r1.center, r1.cells[i], RotationDirection::Clockwise));
        assert(r3.cells[i] == Pose::turned_cell(r2.center, r2.cells[i], RotationDirection::Clockwise));
        assert(r4.cells[i] == Pose::turned_cell(r3.center, r3.cells[i], RotationDirection::Clockwise));
    }
    assert(r4.cells =~= pose.cells);
}

/// Moving a probe moves its pivot.
pub proof fn lemma_probe_moved(variant: TetrominoVariant, column: int, row: int, dx: int, dy: int)
    ensures
        spec_probe(variant, column, row, 0).pose.translated(dx, dy) == spec_probe(
            variant,
            column + dx,
            row + dy,
            0,
        ).pose,
{
    let from = spec_probe(variant, column, row, 0).pose.translated(dx, dy);
    let to = spec_probe(variant, column + dx, row + dy, 0).pose;
    assert(from.cells =~= to.cells);
}

/// Whether the piece can be played where it is: it overlaps nothing and rests.
fn check_valid_play(tetromino: &Tetromino, board: &Board) -> (valid: bool)
    ensures
        valid == spec_valid_play(board@, tetromino@),
{
    !board.overlapping(tetromino) && board.hitting_bottom(tetromino)
}

/// The program's hand on a player.
pub struct Agent {
    /// The play that the falling piece is steered to.
    pub goal: Option<Tetromino>,
}

impl Agent {
    /// The play that this agent aims for.
    pub open spec fn aim(&self) -> Option<Piece> {
        match self.goal {
            Some(goal) => Some(goal@),
            None => None,
        }
    }

    /// An agent without a goal.
    pub fn new() -> (agent: Agent)
        ensures
            agent.goal is None,
    {
        Agent { goal: None }
    }

    /// The plays for the falling piece of `player`.
    pub fn scan(player: &Player) -> (plays: Vec<Tetromino>)
        requires
            player.board@.len() + 2 <= i32::MAX,
        ensures
            spec_pieces(plays@) == spec_scan(player.board@, player.falling.variant),
    {
        let variant = player.falling.variant;
        let board = &player.board;
        let width: usize = board.0.len();
        let ghost grid = board@;
        assert(grid.len() == width);
        let mut plays: Vec<Tetromino> = Vec::new();
        let mut tetromino = Tetromino::new(variant);
        proof {
            lemma_probe_is_near(variant, 0, 0, 0);
            assert(variant.spawn().pose.cells.len() == 4);
            assert forall|i: int| 0 <= i < 4 implies -4 <= (
            #[trigger] variant.spawn().pose.cells[i]).0 <= 4 && -4
                <= variant.spawn().pose.cells[i].1 <= 4 by {
                if i == 0 {
                } else if i == 1 {
                } else if i == 2 {
                } else {
                }
            }
        }
        let center = tetromino.geometry.center;
        tetromino.geometry.transform(-center.0, -center.1);
        assert(tetromino@ == spec_probe(variant, 0, 0, 0));
        assert(spec_pieces(plays@) =~= spec_scan_rows(grid, variant, width as int, 0));
        let mut row: usize = 0;
        while row < width
            invariant
                row <= width,
                width == grid.len(),
                width + 2 <= i32::MAX,
                grid == board@,
                tetromino@ == spec_probe(
                    variant,
                    spec_sweep_column(width as int, row as int, 0),
                    row as int,
                    0,
                ),
                spec_pieces(plays@) == spec_scan_rows(grid, variant, width as int, row as nat),
            decreases width - row,
        {
            let ghost found = spec_pieces(plays@);
            assert(spec_pieces(plays@) =~= found + spec_scan_row(
                grid,
                variant,
                width as int,
                row as int,
                0,
            ));
            let mut step: usize = 0;
            while step < width
                invariant
                    step <= width,
                    row < width,
                    width == grid.len(),
                    width + 2 <= i32::MAX,
                    grid == board@,
                    tetromino@ == spec_probe(
                        variant,
                        spec_sweep_column(width as int, row as int, step as int),
                        row as int,
                        0,
                    ),
                    spec_pieces(plays@) == found + spec_scan_row(
                        grid,
                        variant,
                        width as int,
                        row as int,
                        step as nat,
                    ),
                decreases width - step,
            {
                let ghost column = spec_sweep_column(width as int, row as int, step as int);
                let ghost so_far = spec_pieces(plays@);
                assert(spec_pieces(plays@) =~= so_far + spec_scan_turns(
                    grid,
                    variant,
                    column,
                    row as int,
                    0,
                ));
                let mut turns: usize = 0;
                while turns < 4
                    invariant
                        turns <= 4,
                        row < width,
                        step < width,
                        width + 2 <= i32::MAX,
                        grid == board@,
                        column == spec_sweep_column(width as int, row as int, step as int),
                        tetromino@ == spec_probe(variant, column, row as int, turns as nat),
                        spec_pieces(plays@) == so_far + spec_scan_turns(
                            grid,
                            variant,
                            column,
                            row as int,
                            turns as nat,
                        ),
                    decreases 4 - turns,
                {
                    proof {
                        lemma_probe_is_near(variant, column, row as int, turns as nat);
                        lemma_probe_is_near(variant, column, row as int, (turns + 1) as nat);
                    }
                    let ghost before = plays@;
                    tetromino.geometry.rotate(RotationDirection::Clockwise);
                    turns += 1;
                    assert(tetromino@ == spec_probe(variant, column, row as int, turns as nat));
                    if check_valid_play(&tetromino, board) {
                        plays.push(tetromino);
                        assert(spec_pieces(plays@) =~= spec_pieces(before).push(tetromino@));
                    }
                    assert(spec_pieces(plays@) =~= so_far + spec_scan_turns(
                        grid,
                        variant,
                        column,
                        row as int,
                        turns as nat,
                    ));
                }
                proof {
                    lemma_probe_is_near(variant, column, row as int, 0);
                    lemma_four_turns(spec_probe(variant, column, row as int, 0).pose);
                    let p0 = spec_probe(variant, column, row as int, 0);
                    let p1 = spec_probe(variant, column, row as int, 1);
                    let p2 = spec_probe(variant, column, row as int, 2);
                    let p3 = spec_probe(variant, column, row as int, 3);
                    let p4 = spec_probe(variant, column, row as int, 4);
                    assert(p1.pose == p0.pose.rotated(RotationDirection::Clockwise));
                    assert(p2.pose == p1.pose.rotated(RotationDirection::Clockwise));
                    assert(p3.pose == p2.pose.rotated(RotationDirection::Clockwise));
                    assert(p4.pose == p3.pose.rotated(RotationDirection::Clockwise));
                    assert(tetromino@ == p0);
                    let dx: int = if row % 2 == 0 {
                        1
                    } else {
                        -1
                    };
                    lemma_probe_moved(variant, column, row as int, dx, 0);
                }
                tetromino.geometry.transform(
                    if row % 2 == 0 {
                        1
                    } else {
                        -1
                    },
                    0,
                );
                step += 1;
                assert(spec_pieces(plays@) =~= found + spec_scan_row(
                    grid,
                    variant,
                    width as int,
                    row as int,
                    step as nat,
                ));
            }
            proof {
                let column = spec_sweep_column(width as int, row as int, width as int);
                lemma_probe_is_near(variant, column, row as int, 0);
                lemma_probe_moved(variant, column, row as int, 0, 1);
            }
            tetromino.geometry.transform(0, 1);
            row += 1;
        }
        plays
    }

    /// What the play `play` is worth for `player`.
    fn play_score(player: &Player, play: &Tetromino) -> (score: i32)
        requires
            spec_wf(player.board@),
            2 * player.board@.len() <= i32::MAX,
            !spec_overlapping(player.board@, play@.pose),
        ensures
            score == spec_play_score(player.board@, play@),
    {
        let mut board = player.board.copy();
        proof {
            assert forall|i: int| 0 <= i < 4 implies 0 <= (#[trigger] play@.pose.cells[i]).0
                < BOARD_WIDTH && 0 <= play@.pose.cells[i].1 by {
                assert(!crate::board::spec_cell_overlaps(player.board@, play@.pose.cells[i]));
            }
        }
        board.add(play);
        assert(board@.len() == player.board@.len());
        board.evaluate_gaps() + board.evaluate_height()
    }

    /// Picks the play to aim for: the first of the plays for the falling
    /// piece that is worth the most.
    pub fn evaluate(&mut self, player: &Player)
        requires
            spec_wf(player.board@),
            2 * player.board@.len() <= i32::MAX,
        ensures
            final(self).aim() == spec_goal(player.board@, player.falling.variant),
    {
        let valid_plays = Agent::scan(player);
        let ghost grid = player.board@;
        let ghost plays = spec_scan(grid, player.falling.variant);
        if valid_plays.len() == 0 {
            self.goal = None;
            return ;
        }
        proof {
            lemma_scan_is_valid(grid, player.falling.variant);
        }
        let mut best: usize = 0;
        assert(valid_plays@[0]@ == plays[0]);
        let mut best_score: i32 = Agent::play_score(player, &valid_plays[0]);
        let mut i: usize = 1;
        while i < valid_plays.len()
            invariant
                1 <= i <= valid_plays@.len(),
                spec_wf(player.board@),
                2 * player.board@.len() <= i32::MAX,
                grid == player.board@,
                plays == spec_pieces(valid_plays@),
                forall|k: int| 0 <= k < plays.len() ==> spec_valid_play(grid, #[trigger] plays[k]),
                best == spec_best(grid, plays, i as nat),
                best < i,
                best_score == spec_play_score(grid, plays[best as int]),
            decreases valid_plays@.len() - i,
        {
            assert(valid_plays@[i as int]@ == plays[i as int]);
            let score = Agent::play_score(player, &valid_plays[i]);
            if score > best_score {
                best = i;
                best_score = score;
            }
            i += 1;
        }
        assert(valid_plays@[best as int]@ == plays[best as int]);
        self.goal = Some(valid_plays[best]);
    }

    /// Whether the agent can make its next move: where that is a hard drop,
    /// its points can be counted, and the worth of a play on the board is a
    /// 32-bit number.
    pub fn can_execute(&self, player: &Player) -> (fits: bool)
        requires
            player@.wf(),
        ensures
            fits == spec_can_execute(self.aim(), player@),
    {
        match self.next_move(player) {
            Some(InputAction::HardDrop) => {
                assert(player@.board.len() == player.board.0.len());
                player.can_take(InputAction::HardDrop) && player.board.0.len() <= 0x3fff_ffff
            },
            _ => true,
        }
    }

    /// The move that the agent makes next.
    pub fn next_move(&self, player: &Player) -> (action: Option<InputAction>)
        ensures
            action == spec_move(self.aim(), player@),
    {
        match self.goal {
            Some(goal) => {
                if !same_direction(player.falling.geometry.direction, goal.geometry.direction) {
                    Some(InputAction::RotateRight)
                } else if player.falling.geometry.center.0 > goal.geometry.center.0 {
                    Some(InputAction::MoveLeft)
                } else if player.falling.geometry.center.0 < goal.geometry.center.0 {
                    Some(InputAction::MoveRight)
                } else {
                    Some(InputAction::HardDrop)
                }
            },
            None => None,
        }
    }

    /// Makes one move towards the goal: a quarter turn where the facing is
    /// not the goal's yet, else a shift towards the goal's column, else a hard
    /// drop, after which a new goal is picked.
    pub fn execute(&mut self, player: &mut Player) -> (effects: Effects)
        requires
            old(player)@.wf(),
            spec_can_execute(old(self).aim(), old(player)@),
        ensures
            final(player)@ == spec_execute(old(self).aim(), old(player)@).0,
            effects@ == spec_execute(old(self).aim(), old(player)@).1,
            final(player)@.wf(),
            final(self).aim() == spec_next_goal(old(self).aim(), old(player)@),
    {
        match self.next_move(player) {
            Some(InputAction::HardDrop) => {
                let effects = player.hard_drop();
                self.evaluate(player);
                effects
            },
            Some(InputAction::RotateRight) => player.rotate(RotationDirection::Clockwise),
            Some(InputAction::MoveLeft) => player.shift(ShiftDirection::Left),
            Some(InputAction::MoveRight) => player.shift(ShiftDirection::Right),
            _ => Effects::none(),
        }
    }
}

/// Whether two facings are one.
fn same_direction(a: crate::tetromino::CardinalDirection, b: crate::tetromino::CardinalDirection)
    -> (same: bool)
    ensures
        same == (a == b),
{
    a.to_u8() == b.to_u8()
}

/// The move that an agent with the goal `aim` makes next.
pub open spec fn spec_move(aim: Option<Piece>, player: PlayerModel) -> Option<InputAction> {
    match aim {
        Some(goal) => {
            if player.falling.pose.facing != goal.pose.facing {
                Some(InputAction::RotateRight)
            } else if player.falling.pose.center.0 > goal.pose.center.0 {
                Some(InputAction::MoveLeft)
            } else if player.falling.pose.center.0 < goal.pose.center.0 {
                Some(InputAction::MoveRight)
            } else {
                Some(InputAction::HardDrop)
            }
        },
        None => None,
    }
}

/// Whether an agent with the goal `aim` can make its next move: where that
/// is a hard drop, its points can be counted, and the worth of a play on the
/// board is a 32-bit number.
pub open spec fn spec_can_execute(aim: Option<Piece>, player: PlayerModel) -> bool {
    spec_move(aim, player) == Some(InputAction::HardDrop) ==> player.can_take(
        InputAction::HardDrop,
    ) && 2 * player.board.len() <= i32::MAX
}

/// The player after the next move of an agent with the goal `aim`, and what
/// is left to do.
pub open spec fn spec_execute(aim: Option<Piece>, player: PlayerModel) -> (PlayerModel, Outcome) {
    match spec_move(aim, player) {
        Some(action) => player.spec_input(action),
        None => (player, Outcome::none()),
    }
}

/// The goal of an agent after its next move: a new one after a hard drop, and
/// else the one it had.
pub open spec fn spec_next_goal(aim: Option<Piece>, player: PlayerModel) -> Option<Piece> {
    if spec_move(aim, player) == Some(InputAction::HardDrop) {
        let after = player.spec_hard_drop().0;
        spec_goal(after.board, after.falling.variant)
    } else {
        aim
    }
}

/// Every play that a scan finds is a valid play.
pub proof fn lemma_scan_is_valid(grid: Grid, variant: TetrominoVariant)
    ensures
        forall|k: int|
            0 <= k < spec_scan(grid, variant).len() ==> spec_valid_play(
                grid,
                #[trigger] spec_scan(grid, variant)[k],
            ),
{
    lemma_scan_rows_valid(grid, variant, grid.len() as int, grid.len());
}

/// Every play found in the first rows of a sweep is a valid play.
pub proof fn lemma_scan_rows_valid(grid: Grid, variant: TetrominoVariant, width: int, rows: nat)
    ensures
        forall|k: int|
            0 <= k < spec_scan_rows(grid, variant, width, rows).len() ==> spec_valid_play(
                grid,
                #[trigger] spec_scan_rows(grid, variant, width, rows)[k],
            ),
    decreases rows,
{
    if rows > 0 {
        lemma_scan_rows_valid(grid, variant, width, (rows - 1) as nat);
        lemma_scan_row_valid(grid, variant, width, rows - 1, width as nat);
        let before = spec_scan_rows(grid, variant, width, (rows - 1) as nat);
        let added = spec_scan_row(grid, variant, width, rows - 1, width as nat);
        let all = spec_scan_rows(grid, variant, width, rows);
        assert forall|k: int| 0 <= k < all.len() implies spec_valid_play(grid, #[trigger] all[k]) by {
            if k < before.len() {
                assert(all[k] == before[k]);
            } else {
                assert(all[k] == added[k - before.len()]);
            }
        }
    }
}

/// Every play found on the first steps of a row is a valid play.
pub proof fn lemma_scan_row_valid(
    grid: Grid,
    variant: TetrominoVariant,
    width: int,
    row: int,
    steps: nat,
)
    ensures
        forall|k: int|
            0 <= k < spec_scan_row(grid, variant, width, row, steps).len() ==> spec_valid_play(
                grid,
                #[trigger] spec_scan_row(grid, variant, width, row, steps)[k],
            ),
    decreases steps,
{
    if steps > 0 {
        lemma_scan_row_valid(grid, variant, width, row, (steps - 1) as nat);
        lemma_scan_turns_valid(grid, variant, spec_sweep_column(width, row, steps - 1), row, 4);
        let before = spec_scan_row(grid, variant, width, row, (steps - 1) as nat);
        let added = spec_scan_turns(
            grid,
            variant,
            spec_sweep_column(width, row, steps - 1),
            row,
            4,
        );
        let all = spec_scan_row(grid, variant, width, row, steps);
        assert forall|k: int| 0 <= k < all.len() implies spec_valid_play(grid, #[trigger] all[k]) by {
            if k < before.len() {
                assert(all[k] == before[k]);
            } else {
                assert(all[k] == added[k - before.len()]);
            }
        }
    }
}

/// Every play found among the first turns at a pivot is a valid play.
pub proof fn lemma_scan_turns_valid(
    grid: Grid,
    variant: TetrominoVariant,
    column: int,
    row: int,
    turns: nat,
)
    ensures
        forall|k: int|
            0 <= k < spec_scan_turns(grid, variant, column, row, turns).len() ==> spec_valid_play(
                grid,
                #[trigger] spec_scan_turns(grid, variant, column, row, turns)[k],
            ),
    decreases turns,
{
    if turns > 0 {
        lemma_scan_turns_valid(grid, variant, column, row, (turns - 1) as nat);
        let before = spec_scan_turns(grid, variant, column, row, (turns - 1) as nat);
        let all = spec_scan_turns(grid, variant, column, row, turns);
        assert forall|k: int| 0 <= k < all.len() implies spec_valid_play(grid, #[trigger] all[k]) by {
            if k < before.len() {
                assert(all[k] == before[k]);
            }
        }
    }
}

} // verus!
