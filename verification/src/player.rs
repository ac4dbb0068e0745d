//! One participant: the falling piece, the board under it, and the rules by
//! which input, gravity and the timers move them on.
use crate::bag::{Bag, Supply};
use crate::board::{
    spec_cell_overlaps, spec_cleared, spec_colliding, spec_full_rows, spec_hitting_bottom,
    spec_overlapping, spec_stamped, spec_wf, spec_with_garbage, spec_first_above, spec_blank,
    spec_empty_row, spec_row_full, Board, Grid, BOARD_HEIGHT, BOARD_WIDTH,
};
use crate::random::{
    draw_below, generator_from_seed, generator_state, range_outcome, seeded_state,
};
use crate::score::{ClearKind, Score};
use crate::tetromino::{
    Geometry, Piece, Pose, RotationDirection, ShiftDirection, Tetromino, TetrominoVariant,
};
use rand::rngs::StdRng;
use std::collections::HashSet;
use vstd::prelude::*;

verus! {

/// How often a shift or a turn may put off the lock of a piece that has not moved down.
pub const LOCK_RESET_LIMIT: u8 = 15;

/// The highest row that a cell of a falling piece can be in.
pub const FIELD_CEILING: i32 = 24;

/// Who moves a player's pieces.
#[derive(Clone, Copy, Debug, PartialEq, Eq, Structural)]
pub enum PlayerKind {
    Computer,
    Local,
    Remote,
}

/// What a player's step asks to be told the peer.
#[derive(Clone, Copy, Debug, PartialEq, Eq)]
pub enum Message {
    /// The falling piece is now here.
    Pos(Geometry),
    /// The falling piece was committed here.
    Place(Geometry),
    /// The falling piece was put on hold.
    Hold,
}

/// What a `Message` stands for.
pub enum Notice {
    Pos(Pose),
    Place(Pose),
    Hold,
}

impl View for Message {
    type V = Notice;

    open spec fn view(&self) -> Notice {
        match *self {
            Message::Pos(geometry) => Notice::Pos(geometry@),
            Message::Place(geometry) => Notice::Place(geometry@),
            Message::Hold => Notice::Hold,
        }
    }
}

/// What a step of a player leaves for the surrounding loop to do.
#[derive(Clone, Copy, Debug, PartialEq, Eq)]
pub struct Effects {
    /// What to tell the peer, if anything.
    pub message: Option<Message>,
    /// Whether the lock delay starts anew.
    pub lock_delay: bool,
    /// Whether the line-clear delay starts.
    pub line_clear_delay: bool,
}

/// What `Effects` stand for.
pub struct Outcome {
    pub message: Option<Notice>,
    pub lock_delay: bool,
    pub line_clear_delay: bool,
}

impl View for Effects {
    type V = Outcome;

    open spec fn view(&self) -> Outcome {
        Outcome {
            message: match self.message {
                Some(message) => Some(message@),
                None => None,
            },
            lock_delay: self.lock_delay,
            line_clear_delay: self.line_clear_delay,
        }
    }
}

impl Outcome {
    /// Nothing to do.
    pub open spec fn none() -> Outcome {
        Outcome { message: None, lock_delay: false, line_clear_delay: false }
    }
}

impl Effects {
    /// Nothing to do.
    pub fn none() -> (effects: Effects)
        ensures
            effects@ == Outcome::none(),
    {
        Effects { message: None, lock_delay: false, line_clear_delay: false }
    }
}

/// Where `pose` comes to rest on `grid` when it moves straight down. A pose
/// whose first cell is on the floor or below it stays where it is.
pub open spec fn spec_landing(grid: Grid, pose: Pose) -> Pose
    decreases pose.cells[0].1,
{
    if spec_hitting_bottom(grid, pose) || pose.cells.len() == 0 || pose.cells[0].1 <= 0 {
        pose
    } else {
        spec_landing(grid, pose.translated(0, -1))
    }
}

/// How many rows `pose` moves down until it comes to rest on `grid`; none
/// where its first cell is on the floor or below it.
pub open spec fn spec_drop_distance(grid: Grid, pose: Pose) -> nat
    decreases pose.cells[0].1,
{
    if spec_hitting_bottom(grid, pose) || pose.cells.len() == 0 || pose.cells[0].1 <= 0 {
        0
    } else {
        1 + spec_drop_distance(grid, pose.translated(0, -1))
    }
}

/// The preview of where `piece` would land on `grid`; none where it would
/// land on a filled cell or outside the field.
pub open spec fn spec_ghost(grid: Grid, piece: Piece) -> Option<Piece> {
    let landed = piece.posed(spec_landing(grid, piece.pose));
    if spec_overlapping(grid, landed.pose) {
        None
    } else {
        Some(landed)
    }
}

/// `pose` moved up row by row until none of its cells lies on a filled cell
/// of `grid`, and no further than to the ceiling.
pub open spec fn spec_lifted(grid: Grid, pose: Pose) -> Pose
    decreases FIELD_CEILING - pose.cells[0].1,
{
    if !spec_colliding(grid, pose) || pose.cells.len() == 0 || pose.cells[0].1 >= FIELD_CEILING {
        pose
    } else {
        spec_lifted(grid, pose.translated(0, 1))
    }
}

/// 1 where the cell at `(x, y)` is filled or outside the field, else 0.
pub open spec fn spec_corner(grid: Grid, x: int, y: int) -> int {
    if spec_cell_overlaps(grid, (x, y)) {
        1
    } else {
        0
    }
}

/// How many of the four cells diagonal to `center` are filled or outside the field.
pub open spec fn spec_corners(grid: Grid, center: (int, int)) -> int {
    spec_corner(grid, center.0 - 1, center.1 - 1) + spec_corner(grid, center.0 - 1, center.1 + 1)
        + spec_corner(grid, center.0 + 1, center.1 - 1) + spec_corner(
        grid,
        center.0 + 1,
        center.1 + 1,
    )
}

impl Piece {
    /// Whether the piece can be a falling piece: its cells lie between the
    /// walls, on or above the floor and on or below the ceiling, and within the
    /// reach of its variant from the pivot.
    pub open spec fn in_play(self) -> bool {
        &&& self.pose.cells.len() == 4
        &&& self.pose.compact(self.variant.reach())
        &&& forall|i: int|
            0 <= i < 4 ==> 0 <= (#[trigger] self.pose.cells[i]).0 < BOARD_WIDTH && 0
                <= self.pose.cells[i].1 <= FIELD_CEILING
    }
}

/// What a `Player` stands for.
pub struct PlayerModel {
    pub kind: PlayerKind,
    /// The state of the generator that the bag and the garbage draw from.
    pub generator: Seq<u32>,
    pub falling: Piece,
    pub holding: Option<Piece>,
    pub ghost_piece: Option<Piece>,
    pub bag: Supply,
    pub board: Grid,
    pub score: Score,
    pub clearing: Set<usize>,
    pub can_hold: bool,
    pub lost: bool,
    pub locking: bool,
    pub lock_reset_count: u8,
    pub last_action_was_rotate: bool,
    pub t_spin: bool,
}

impl PlayerModel {
    /// What holds of a player between any two steps.
    pub open spec fn wf(self) -> bool {
        &&& spec_wf(self.board)
        &&& self.bag.wf()
        &&& self.score.wf()
        &&& self.falling.in_play()
        &&& (self.holding matches Some(held) ==> held == held.variant.spawn())
        &&& self.lock_reset_count <= LOCK_RESET_LIMIT
        &&& self.clearing.finite()
        &&& self.clearing.len() <= 4
        &&& (self.t_spin ==> self.clearing.len() <= 3)
        &&& (self.lost || self.clearing == spec_full_rows(self.board))
    }

    /// Whether the player takes no move now: they have lost, or rows are
    /// marked and wait to be cleared.
    pub open spec fn idle(self) -> bool {
        self.lost || self.clearing.len() > 0
    }

    /// Whether the falling piece rests on the floor or on a filled cell.
    pub open spec fn resting(self) -> bool {
        spec_hitting_bottom(self.board, self.falling.pose)
    }

    /// What is told the peer of a local player, and nothing of another.
    pub open spec fn told(self, notice: Notice) -> Option<Notice> {
        if self.kind == PlayerKind::Local {
            Some(notice)
        } else {
            None
        }
    }

    /// The player who starts at `start_level` with the generator seeded by `seed`.
    pub open spec fn spec_new(kind: PlayerKind, start_level: u32, seed: u64) -> PlayerModel {
        PlayerModel::spec_with_generator(kind, start_level, seeded_state(seed))
    }

    /// The player who starts at `start_level` with a generator in `state`: a
    /// bag of one round, its first piece falling from the start position over
    /// an empty board.
    pub open spec fn spec_with_generator(kind: PlayerKind, start_level: u32, state: Seq<u32>)
        -> PlayerModel {
        let made = Bag::spec_new(state);
        let drawn = Bag::spec_get_next(made.0, made.1);
        let board = Seq::new(BOARD_HEIGHT as nat, |y: int| spec_empty_row());
        PlayerModel {
            kind,
            generator: drawn.1,
            falling: made.0.first().spawn().started(board),
            holding: None,
            ghost_piece: None,
            bag: drawn.0,
            board,
            score: Score { start_level, level: start_level, lines: 0, score: 0, combo: -1i32 },
            clearing: Set::empty(),
            can_hold: true,
            lost: false,
            locking: false,
            lock_reset_count: 0,
            last_action_was_rotate: false,
            t_spin: false,
        }
    }

    /// This player with the preview of the falling piece brought up to date.
    pub open spec fn spec_update_ghost(self) -> PlayerModel {
        PlayerModel { ghost_piece: spec_ghost(self.board, self.falling), ..self }
    }

    /// This player with the full rows marked, and the combo ended where there are none.
    pub open spec fn spec_mark_clear(self) -> PlayerModel {
        let clearing = spec_full_rows(self.board);
        PlayerModel {
            clearing,
            score: if clearing.len() > 0 {
                self.score
            } else {
                Score { combo: -1i32, ..self.score }
            },
            ..self
        }
    }

    /// Whether committing the falling piece now is a T-spin: the piece is a T,
    /// the last thing it did was turn, and at least three of the four cells
    /// diagonal to its pivot are filled or outside the field.
    pub open spec fn spec_t_spin_check(self) -> bool {
        self.last_action_was_rotate && self.falling.variant == TetrominoVariant::T && spec_corners(
            self.board,
            self.falling.pose.center,
        ) >= 3
    }

    /// The kind of the clear that removing the marked rows makes.
    pub open spec fn spec_clear_kind(self) -> ClearKind {
        ClearKind::spec_classify(
            self.clearing.len() as int,
            spec_blank(spec_cleared(self.board, self.clearing)),
            self.t_spin,
        )
    }

    /// This player after the marked rows are removed and the clear is scored.
    pub open spec fn spec_line_clear(self) -> PlayerModel {
        let board = spec_cleared(self.board, self.clearing);
        PlayerModel {
            board,
            score: self.score.cleared(self.spec_clear_kind()),
            ghost_piece: spec_ghost(board, self.falling),
            clearing: Set::empty(),
            t_spin: false,
            ..self
        }
    }

    /// This player after `count` rows of garbage with their hole in column
    /// `hole` are put under the board: the full rows are marked where they now
    /// are, and the falling piece is lifted off the cells it has come to lie on.
    pub open spec fn spec_take_garbage(self, count: int, hole: int) -> PlayerModel {
        let board = spec_with_garbage(self.board, count, hole);
        let falling = self.falling.posed(spec_lifted(board, self.falling.pose));
        PlayerModel {
            board,
            clearing: spec_full_rows(board),
            falling,
            ghost_piece: spec_ghost(board, falling),
            ..self
        }
    }

    /// This player after a clear of `clear_kind` by the opponent: the column
    /// of the hole is drawn from the generator, and the garbage of the clear
    /// is taken. A player who has lost takes none, and draws nothing.
    pub open spec fn spec_add_garbage(self, clear_kind: ClearKind) -> PlayerModel {
        if self.lost {
            self
        } else {
            let drawn = range_outcome(self.generator, BOARD_WIDTH);
            PlayerModel { generator: drawn.1, ..self }.spec_take_garbage(
                clear_kind.spec_garbage_line_count() as int,
                drawn.0 as int,
            )
        }
    }

    /// This player after the peer reported `pose` for the falling piece. A
    /// pose that no falling piece of its variant can have is refused.
    pub open spec fn spec_set_falling_geometry(self, pose: Pose) -> PlayerModel {
        let falling = self.falling.posed(pose);
        if falling.in_play() {
            PlayerModel {
                falling,
                ghost_piece: spec_ghost(self.board, falling),
                locking: spec_hitting_bottom(self.board, pose),
                ..self
            }
        } else {
            self
        }
    }

    /// This player after gravity pulled once, and what is left to do.
    pub open spec fn spec_drop(self) -> (PlayerModel, Outcome) {
        if self.idle() {
            (self, Outcome::none())
        } else if self.resting() {
            (PlayerModel { locking: true, ..self }, Outcome::none())
        } else {
            let falling = self.falling.posed(self.falling.pose.translated(0, -1));
            (
                PlayerModel {
                    falling,
                    lock_reset_count: 0,
                    locking: spec_hitting_bottom(self.board, falling.pose),
                    ..self
                },
                Outcome { message: None, lock_delay: true, line_clear_delay: false },
            )
        }
    }

    /// This player after a move that put the falling piece at `falling`:
    /// one more lock reset is counted, and it is noted whether the piece rests.
    pub open spec fn spec_moved(self, falling: Piece, turned: bool) -> (PlayerModel, Outcome) {
        (
            PlayerModel {
                falling,
                lock_reset_count: (self.lock_reset_count + 1) as u8,
                ghost_piece: spec_ghost(self.board, falling),
                locking: spec_hitting_bottom(self.board, falling.pose),
                last_action_was_rotate: turned,
                ..self
            },
            Outcome {
                message: self.told(Notice::Pos(falling.pose)),
                lock_delay: self.lock_reset_count + 1 < LOCK_RESET_LIMIT,
                line_clear_delay: false,
            },
        )
    }

    /// This player after an attempt to shift the falling piece, and what is
    /// left to do. At the limit of lock resets the piece is committed instead.
    pub open spec fn spec_shift(self, direction: ShiftDirection) -> (PlayerModel, Outcome) {
        if self.idle() {
            (self, Outcome::none())
        } else if self.lock_reset_count >= LOCK_RESET_LIMIT {
            self.spec_place()
        } else if self.falling.blocked(self.board, direction) {
            (self, Outcome::none())
        } else {
            self.spec_moved(self.falling.shifted(self.board, direction), false)
        }
    }

    /// This player after an attempt to turn the falling piece, and what is
    /// left to do. At the limit of lock resets the piece is committed instead.
    pub open spec fn spec_rotate(self, direction: RotationDirection) -> (PlayerModel, Outcome) {
        if self.idle() {
            (self, Outcome::none())
        } else if self.lock_reset_count >= LOCK_RESET_LIMIT {
            self.spec_place()
        } else if self.falling.first_free_kick(self.board, direction, 0) >= 5 {
            (self, Outcome::none())
        } else {
            self.spec_moved(self.falling.turned(self.board, direction), true)
        }
    }

    /// Whether committing the falling piece now ends the game: one of its
    /// cells lies above the top row.
    pub open spec fn tops_out(self) -> bool {
        spec_first_above(self.falling.pose.cells, 0) < 4
    }

    /// The board after the falling piece is committed: with its cells filled,
    /// up to the first that lies above the top row.
    pub open spec fn board_after_place(self) -> Grid {
        spec_stamped(
            self.board,
            self.falling.pose.cells.take(spec_first_above(self.falling.pose.cells, 0)),
            self.falling.color,
        )
    }

    /// This player with the next piece of the bag falling from the start position.
    pub open spec fn spec_next_piece(self) -> PlayerModel {
        let supply = Bag::spec_get_next(self.bag, self.generator);
        let falling = self.bag.first().spawn().started(self.board);
        PlayerModel {
            falling,
            bag: supply.0,
            generator: supply.1,
            ghost_piece: spec_ghost(self.board, falling),
            last_action_was_rotate: false,
            ..self
        }
    }

    /// This player after an attempt to commit the falling piece, and what is
    /// left to do. A piece that does not rest stays; one with a cell above the
    /// top row ends the game; else the full rows are marked and the next piece
    /// starts to fall.
    pub open spec fn spec_place(self) -> (PlayerModel, Outcome) {
        if self.idle() || !self.resting() {
            (self, Outcome::none())
        } else if self.tops_out() {
            (PlayerModel { board: self.board_after_place(), lost: true, ..self }, Outcome::none())
        } else {
            let marked = PlayerModel { board: self.board_after_place(), ..self }.spec_mark_clear();
            let spin = marked.clearing.len() > 0 && self.spec_t_spin_check();
            (
                PlayerModel { t_spin: spin, locking: false, can_hold: true, ..marked }
                    .spec_next_piece(),
                Outcome {
                    message: self.told(Notice::Place(self.falling.pose)),
                    lock_delay: false,
                    line_clear_delay: marked.clearing.len() > 0,
                },
            )
        }
    }

    /// This player after an attempt to put the falling piece on hold, and what
    /// is left to do. The piece that was held falls in its place, or the next
    /// of the bag where none was.
    pub open spec fn spec_hold(self) -> (PlayerModel, Outcome) {
        if self.idle() || !self.can_hold {
            (self, Outcome::none())
        } else {
            let held = Some(self.falling.variant.spawn());
            let swapped = match self.holding {
                Some(piece) => PlayerModel {
                    falling: piece.started(self.board),
                    ghost_piece: spec_ghost(self.board, piece.started(self.board)),
                    last_action_was_rotate: false,
                    ..self
                },
                None => self.spec_next_piece(),
            };
            (
                PlayerModel { holding: held, can_hold: false, ..swapped },
                Outcome {
                    message: self.told(Notice::Hold),
                    lock_delay: false,
                    line_clear_delay: false,
                },
            )
        }
    }

    /// This player after a soft drop, and what is left to do: one step down as
    /// by gravity, and a point where the piece moved.
    pub open spec fn spec_soft_drop(self) -> (PlayerModel, Outcome) {
        if self.idle() {
            (self, Outcome::none())
        } else {
            let dropped = self.spec_drop();
            (
                PlayerModel {
                    score: if self.resting() {
                        self.score
                    } else {
                        Score { score: (self.score.score + 1) as u32, ..self.score }
                    },
                    ..dropped.0
                },
                Outcome {
                    message: Some(Notice::Pos(dropped.0.falling.pose)),
                    lock_delay: dropped.1.lock_delay,
                    line_clear_delay: false,
                },
            )
        }
    }

    /// This player with the falling piece where it lands, and two points for each row it fell.
    pub open spec fn spec_landed(self) -> PlayerModel {
        PlayerModel {
            falling: self.falling.posed(spec_landing(self.board, self.falling.pose)),
            score: Score {
                score: (self.score.score + 2 * spec_drop_distance(
                    self.board,
                    self.falling.pose,
                )) as u32,
                ..self.score
            },
            ..self
        }
    }

    /// This player after a hard drop, and what is left to do: the piece lands
    /// and is committed.
    pub open spec fn spec_hard_drop(self) -> (PlayerModel, Outcome) {
        if self.idle() {
            (self, Outcome::none())
        } else {
            self.spec_landed().spec_place()
        }
    }
}

/// One participant of a game.
pub struct Player {
    pub kind: PlayerKind,
    /// The generator that the bag and the garbage draw from.
    pub seed: StdRng,
    pub falling: Tetromino,
    pub holding: Option<Tetromino>,
    pub ghost_piece: Option<Tetromino>,
    pub bag: Bag,
    pub board: Board,
    pub score: Score,
    /// The rows that are marked to be cleared.
    pub clearing: HashSet<usize>,
    pub can_hold: bool,
    pub lost: bool,
    pub locking: bool,
    pub lock_reset_count: u8,
    pub last_action_was_rotate: bool,
    /// Whether the placement that marked the rows was a T-spin.
    pub t_spin: bool,
}

impl View for Player {
    type V = PlayerModel;

    open spec fn view(&self) -> PlayerModel {
        PlayerModel {
            kind: self.kind,
            generator: generator_state(self.seed),
            falling: self.falling@,
            holding: match self.holding {
                Some(piece) => Some(piece@),
                None => None,
            },
            ghost_piece: match self.ghost_piece {
                Some(piece) => Some(piece@),
                None => None,
            },
            bag: self.bag@,
            board: self.board@,
            score: self.score,
            clearing: self.clearing@,
            can_hold: self.can_hold,
            lost: self.lost,
            locking: self.locking,
            lock_reset_count: self.lock_reset_count,
            last_action_was_rotate: self.last_action_was_rotate,
            t_spin: self.t_spin,
        }
    }
}

impl TetrominoVariant {
    /// How far, along either axis, a cell of this variant lies from the pivot at most.
    pub fn reach_of(self) -> (reach: i32)
        ensures
            reach == self.reach(),
    {
        match self {
            TetrominoVariant::I => 2,
            _ => 1,
        }
    }

    /// A piece fresh from the catalog fits into 32-bit numbers wherever it
    /// starts, and at its start position it can fall.
    pub proof fn lemma_spawn_starts_in_play(self, grid: Grid)
        ensures
            self.spawn().pose.representable(),
            self.spawn().pose.translated(3, 18 + Piece::spawn_lift(grid)).representable(),
            self.spawn().started(grid).in_play(),
    {
        let lift = Piece::spawn_lift(grid);
        let start = self.spawn().pose;
        let moved = start.translated(3, 18 + lift);
        assert(0 <= lift <= 3);
        assert(start.cells.len() == 4);
        assert forall|i: int| 0 <= i < 4 implies 0 <= (#[trigger] start.cells[i]).0 <= 3 && 0
            <= start.cells[i].1 <= 1 && -self.reach() <= start.cells[i].0 - start.center.0
            <= self.reach() && -self.reach() <= start.cells[i].1 - start.center.1
            <= self.reach() by {
            if i == 0 {
            } else if i == 1 {
            } else if i == 2 {
            } else {
            }
        }
        assert forall|i: int| 0 <= i < 4 implies 0 <= (#[trigger] moved.cells[i]).0 < BOARD_WIDTH
            && 0 <= moved.cells[i].1 <= FIELD_CEILING && -self.reach() <= moved.cells[i].0
            - moved.center.0 <= self.reach() && -self.reach() <= moved.cells[i].1 - moved.center.1
            <= self.reach() by {
            assert(moved.cells[i] == (start.cells[i].0 + 3, start.cells[i].1 + 18 + lift));
        }
    }
}

impl Piece {
    /// A piece that can fall and does not rest can fall one row further down.
    pub proof fn lemma_step_down_in_play(self, grid: Grid)
        requires
            self.in_play(),
            !spec_hitting_bottom(grid, self.pose),
        ensures
            self.pose.margin(1),
            self.posed(self.pose.translated(0, -1)).in_play(),
    {
        self.lemma_in_play_is_small();
        let moved = self.pose.translated(0, -1);
        assert forall|i: int| 0 <= i < 4 implies 0 <= (#[trigger] moved.cells[i]).0 < BOARD_WIDTH
            && 0 <= moved.cells[i].1 <= FIELD_CEILING && -self.variant.reach()
            <= moved.cells[i].0 - moved.center.0 <= self.variant.reach() && -self.variant.reach()
            <= moved.cells[i].1 - moved.center.1 <= self.variant.reach() by {
            assert(moved.cells[i] == (self.pose.cells[i].0, self.pose.cells[i].1 - 1));
            assert(!crate::board::spec_cell_rests(grid, self.pose.cells[i]));
        }
    }

    /// The numbers of a piece that can fall are small.
    pub proof fn lemma_in_play_is_small(self)
        requires
            self.in_play(),
        ensures
            self.pose.margin(0x1000),
            -2 <= self.pose.center.0 <= BOARD_WIDTH + 1,
            -2 <= self.pose.center.1 <= FIELD_CEILING + 2,
    {
        assert(self.pose.cells[0].0 - self.pose.center.0 <= 2);
        assert(self.pose.cells[0].1 - self.pose.center.1 <= 2);
    }
}

impl Tetromino {
    /// Whether the piece can be a falling piece.
    pub fn in_play(&self) -> (fits: bool)
        ensures
            fits == self@.in_play(),
    {
        let reach: i64 = self.variant.reach_of() as i64;
        let center_x: i64 = self.geometry.center.0 as i64;
        let center_y: i64 = self.geometry.center.1 as i64;
        let mut i: usize = 0;
        while i < 4
            invariant
                i <= 4,
                reach == self.variant.reach(),
                center_x == self.geometry.center.0,
                center_y == self.geometry.center.1,
                forall|j: int|
                    0 <= j < i ==> 0 <= (#[trigger] self@.pose.cells[j]).0 < BOARD_WIDTH && 0
                        <= self@.pose.cells[j].1 <= FIELD_CEILING && -reach
                        <= self@.pose.cells[j].0 - self@.pose.center.0 <= reach && -reach
                        <= self@.pose.cells[j].1 - self@.pose.center.1 <= reach,
            decreases 4 - i,
        {
            let cell = self.geometry.shape[i];
            assert(self@.pose.cells[i as int] == (cell.0 as int, cell.1 as int));
            let dx: i64 = cell.0 as i64 - center_x;
            let dy: i64 = cell.1 as i64 - center_y;
            if cell.0 < 0 || cell.0 >= BOARD_WIDTH || cell.1 < 0 || cell.1 > FIELD_CEILING || dx
                < -reach || dx > reach || dy < -reach || dy > reach {
                return false;
            }
            i += 1;
        }
        true
    }
}

/// The rows that a set of marks holds are finitely many.
pub proof fn lemma_marks_are_finite(marks: &HashSet<usize>)
    ensures
        marks@.finite(),
{
    vstd::std_specs::hash::axiom_spec_hash_keys_iter(marks);
    let keys = vstd::std_specs::iter::IteratorSpec::remaining(
        &vstd::std_specs::hash::spec_hash_keys_iter(marks),
    );
    vstd::seq_lib::seq_to_set_is_finite(keys.unref());
}

/// Whether two tetrominoes are one.
pub fn same_piece(a: &Tetromino, b: &Tetromino) -> (same: bool)
    ensures
        same == (a@ == b@),
{
    if a.variant != b.variant || a.color != b.color || a.geometry.direction
        != b.geometry.direction || a.geometry.center.0 != b.geometry.center.0
        || a.geometry.center.1 != b.geometry.center.1 {
        return false;
    }
    let mut i: usize = 0;
    while i < 4
        invariant
            i <= 4,
            a.variant == b.variant,
            a.color == b.color,
            a.geometry.direction == b.geometry.direction,
            a.geometry.center == b.geometry.center,
            forall|j: int| 0 <= j < i ==> a@.pose.cells[j] == b@.pose.cells[j],
        decreases 4 - i,
    {
        let p = a.geometry.shape[i];
        let q = b.geometry.shape[i];
        assert(a@.pose.cells[i as int] == (p.0 as int, p.1 as int));
        assert(b@.pose.cells[i as int] == (q.0 as int, q.1 as int));
        if p.0 != q.0 || p.1 != q.1 {
            return false;
        }
        i += 1;
    }
    assert(a@.pose.cells =~= b@.pose.cells);
    true
}

/// Where `piece` comes to rest on `board` when it moves straight down, and how
/// many rows it moves.
pub fn landing(board: &Board, piece: Tetromino) -> (landed: (Tetromino, u32))
    requires
        piece@.in_play(),
    ensures
        landed.0@ == piece@.posed(spec_landing(board@, piece@.pose)),
        landed.1 == spec_drop_distance(board@, piece@.pose),
        landed.0@.in_play(),
        landed.1 <= FIELD_CEILING,
{
    let mut falling = piece;
    let mut rows: u32 = 0;
    while !board.hitting_bottom(&falling) && falling.geometry.shape[0].1 > 0
        invariant
            falling@.in_play(),
            falling@.color == piece@.color,
            falling@.variant == piece@.variant,
            spec_landing(board@, piece@.pose) == spec_landing(board@, falling@.pose),
            spec_drop_distance(board@, piece@.pose) == rows + spec_drop_distance(
                board@,
                falling@.pose,
            ),
            rows + falling@.pose.cells[0].1 <= FIELD_CEILING,
        decreases falling.geometry.shape[0].1,
    {
        proof {
            falling@.lemma_step_down_in_play(board@);
            assert(falling@.pose.cells[0] == (
                falling.geometry.shape@[0].0 as int,
                falling.geometry.shape@[0].1 as int,
            ));
        }
        let ghost before = falling@;
        falling.geometry.transform(0, -1);
        rows = rows + 1;
        assert(falling@ == before.posed(before.pose.translated(0, -1)));
    }
    (falling, rows)
}

/// `piece` moved up row by row until none of its cells lies on a filled cell
/// of `board`, and no further than to the ceiling.
pub fn lifting(board: &Board, piece: Tetromino) -> (lifted: Tetromino)
    requires
        piece@.in_play(),
    ensures
        lifted@ == piece@.posed(spec_lifted(board@, piece@.pose)),
        lifted@.in_play(),
{
    let mut falling = piece;
    while board.colliding(&falling) && falling.geometry.shape[0].1 < FIELD_CEILING
        invariant
            falling@.in_play(),
            falling@.color == piece@.color,
            falling@.variant == piece@.variant,
            spec_lifted(board@, piece@.pose) == spec_lifted(board@, falling@.pose),
        decreases FIELD_CEILING - falling.geometry.shape[0].1,
    {
        proof {
            falling@.lemma_step_up_in_play(board@);
            assert(falling@.pose.cells[0] == (
                falling.geometry.shape@[0].0 as int,
                falling.geometry.shape@[0].1 as int,
            ));
        }
        let ghost before = falling@;
        falling.geometry.transform(0, 1);
        assert(falling@ == before.posed(before.pose.translated(0, 1)));
    }
    proof {
        if spec_colliding(board@, falling@.pose) {
            falling@.lemma_step_up_in_play(board@);
        }
        assert(falling@.pose.cells[0] == (
            falling.geometry.shape@[0].0 as int,
            falling.geometry.shape@[0].1 as int,
        ));
    }
    falling
}

impl Player {
    /// A player who starts at `start_level`, with the generator seeded by `seed`.
    pub fn new(kind: PlayerKind, start_level: u32, seed: u64) -> (player: Player)
        ensures
            player@ == PlayerModel::spec_new(kind, start_level, seed),
            player@.wf(),
    {
        Player::with_generator(kind, start_level, generator_from_seed(seed))
    }

    /// A player who starts at `start_level` and is dealt by the generator `seed`.
    pub fn with_generator(kind: PlayerKind, start_level: u32, seed: StdRng) -> (player: Player)
        ensures
            player@ == PlayerModel::spec_with_generator(
                kind,
                start_level,
                generator_state(seed),
            ),
            player@.wf(),
    {
        let mut seed = seed;
        let mut bag = Bag::new(&mut seed);
        let board = Board::new();
        let ghost first = bag@.first();
        let mut falling = bag.get_next(&mut seed);
        proof {
            first.lemma_spawn_starts_in_play(board@);
        }
        falling.start_pos_transform(&board);
        let player = Player {
            kind,
            seed,
            falling,
            holding: None,
            ghost_piece: None,
            bag,
            board,
            score: Score::new(start_level),
            clearing: HashSet::new(),
            can_hold: true,
            lost: false,
            locking: false,
            lock_reset_count: 0,
            last_action_was_rotate: false,
            t_spin: false,
        };
        proof {
            assert forall|y: usize| !(#[trigger] spec_full_rows(player@.board).contains(y)) by {
                if y < player@.board.len() {
                    assert(player@.board[y as int][0] is None);
                }
            }
            assert(player@.clearing =~= spec_full_rows(player@.board));
        }
        player
    }

    /// Whether the player is in order: see `PlayerModel::wf`.
    pub fn is_wf(&self) -> (ok: bool)
        ensures
            ok == self@.wf(),
    {
        proof {
            lemma_marks_are_finite(&self.clearing);
        }
        if !self.board.is_wf() || !self.bag.is_wf() || !self.score.is_wf()
            || !self.falling.in_play() {
            return false;
        }
        match self.holding {
            Some(held) => {
                let fresh = Tetromino::new(held.variant);
                if !same_piece(&held, &fresh) {
                    return false;
                }
            },
            None => {},
        }
        if self.lock_reset_count > LOCK_RESET_LIMIT || self.clearing.len() > 4 || (self.t_spin
            && self.clearing.len() > 3) {
            return false;
        }
        if self.lost {
            return true;
        }
        let full = self.board.full_rows();
        if full.len() != self.clearing.len() {
            return false;
        }
        let mut y: usize = 0;
        while y < self.board.0.len()
            invariant
                y <= self.board.0.len(),
                !self.lost,
                full@ == spec_full_rows(self.board@),
                forall|r: usize| r < y && full@.contains(r) ==> self.clearing@.contains(r),
            decreases self.board.0.len() - y,
        {
            if full.contains(&y) && !self.clearing.contains(&y) {
                assert(spec_full_rows(self.board@).contains(y));
                assert(!self@.clearing.contains(y));
                return false;
            }
            y += 1;
        }
        proof {
            assert(full@.subset_of(self.clearing@));
            vstd::set_lib::lemma_subset_equality(full@, self.clearing@);
        }
        true
    }

    /// Whether the player takes no move now.
    pub fn idle(&self) -> (idle: bool)
        ensures
            idle == self@.idle(),
    {
        self.lost || self.clearing.len() > 0
    }

    /// Brings the preview of where the falling piece would land up to date.
    pub fn update_ghost(&mut self)
        requires
            old(self)@.falling.in_play(),
        ensures
            final(self)@ == old(self)@.spec_update_ghost(),
    {
        let (landed, _rows) = landing(&self.board, self.falling);
        self.ghost_piece = if self.board.overlapping(&landed) {
            None
        } else {
            Some(landed)
        };
    }

    /// Marks the full rows, and ends the combo where there are none; says
    /// whether any row is marked.
    pub fn mark_clear(&mut self) -> (marked: bool)
        ensures
            final(self)@ == old(self)@.spec_mark_clear(),
            marked == (final(self)@.clearing.len() > 0),
            final(self)@.clearing.finite(),
    {
        self.clearing = self.board.full_rows();
        if self.clearing.len() == 0 {
            self.score.combo = -1;
            false
        } else {
            true
        }
    }

    /// Whether committing the falling piece now is a T-spin.
    pub fn t_spin_check(&self) -> (spin: bool)
        ensures
            spin == self@.spec_t_spin_check(),
    {
        if !self.last_action_was_rotate {
            return false;
        }
        match self.falling.variant {
            TetrominoVariant::T => {},
            _ => {
                return false;
            },
        }
        let x: i64 = self.falling.geometry.center.0 as i64;
        let y: i64 = self.falling.geometry.center.1 as i64;
        let mut corners: u8 = 0;
        if self.corner_blocked(x - 1, y - 1) {
            corners = corners + 1;
        }
        if self.corner_blocked(x - 1, y + 1) {
            corners = corners + 1;
        }
        if self.corner_blocked(x + 1, y - 1) {
            corners = corners + 1;
        }
        if self.corner_blocked(x + 1, y + 1) {
            corners = corners + 1;
        }
        corners >= 3
    }

    /// Whether the cell at `(x, y)` is filled or outside the field.
    fn corner_blocked(&self, x: i64, y: i64) -> (blocked: bool)
        ensures
            blocked == spec_cell_overlaps(self.board@, (x as int, y as int)),
    {
        x < 0 || y < 0 || x > BOARD_WIDTH as i64 - 1 || y > BOARD_HEIGHT as i64 - 1
            || self.board.filled(x, y)
    }

    /// Takes the pose that the peer reports for the falling piece; says
    /// whether it was taken. A pose that no falling piece of its variant can
    /// have is refused, and nothing changes.
    pub fn set_falling_geometry(&mut self, geometry: Geometry) -> (taken: bool)
        requires
            old(self)@.wf(),
        ensures
            final(self)@ == old(self)@.spec_set_falling_geometry(geometry@),
            taken == old(self)@.falling.posed(geometry@).in_play(),
            final(self)@.wf(),
    {
        let mut falling = self.falling;
        falling.geometry = geometry;
        if !falling.in_play() {
            return false;
        }
        self.falling = falling;
        self.update_ghost();
        self.locking = self.board.hitting_bottom(&self.falling);
        true
    }

    /// Gravity: moves the falling piece one row down unless it rests, and
    /// notes whether it rests now.
    pub fn drop(&mut self) -> (effects: Effects)
        requires
            old(self)@.wf(),
        ensures
            final(self)@ == old(self)@.spec_drop().0,
            effects@ == old(self)@.spec_drop().1,
            final(self)@.wf(),
    {
        if self.idle() {
            return Effects::none();
        }
        let mut effects = Effects::none();
        if !self.board.hitting_bottom(&self.falling) {
            proof {
                self.falling@.lemma_step_down_in_play(self.board@);
            }
            self.falling.geometry.transform(0, -1);
            self.lock_reset_count = 0;
            effects.lock_delay = true;
        }
        self.locking = self.board.hitting_bottom(&self.falling);
        effects
    }
}

impl Piece {
    /// A piece that can fall and is not blocked can fall one column over.
    pub proof fn lemma_shifted_in_play(self, grid: Grid, direction: ShiftDirection)
        requires
            self.in_play(),
        ensures
            self.pose.margin(1),
            self.shifted(grid, direction).in_play(),
    {
        self.lemma_in_play_is_small();
        if !self.blocked(grid, direction) {
            let moved = self.pose.translated(direction.dx(), 0);
            assert forall|i: int| 0 <= i < 4 implies 0 <= (#[trigger] moved.cells[i]).0
                < BOARD_WIDTH && 0 <= moved.cells[i].1 <= FIELD_CEILING && -self.variant.reach()
                <= moved.cells[i].0 - moved.center.0 <= self.variant.reach()
                && -self.variant.reach() <= moved.cells[i].1 - moved.center.1
                <= self.variant.reach() by {
                assert(moved.cells[i] == (self.pose.cells[i].0 + direction.dx(), self.pose.cells[i].1));
                assert(!crate::board::spec_cell_hits_left(grid, self.pose.cells[i])
                    || !crate::board::spec_cell_hits_right(grid, self.pose.cells[i]));
            }
        }
    }

    /// The first free trial of a turn, where there is one, overlaps nothing.
    pub proof fn lemma_first_free_kick(self, grid: Grid, direction: RotationDirection, from: int)
        requires
            0 <= from <= 5,
        ensures
            from <= self.first_free_kick(grid, direction, from) <= 5,
            self.first_free_kick(grid, direction, from) < 5 ==> !spec_overlapping(
                grid,
                self.kicked(direction, self.first_free_kick(grid, direction, from)).pose,
            ),
        decreases 5 - from,
    {
        if from < 5 && spec_overlapping(grid, self.kicked(direction, from).pose) {
            self.lemma_first_free_kick(grid, direction, from + 1);
        }
    }

    /// A piece that can fall can still fall after an attempt to turn it.
    pub proof fn lemma_turned_in_play(self, grid: Grid, direction: RotationDirection)
        requires
            self.in_play(),
        ensures
            self.pose.rotated(direction).margin(2),
            self.turned(grid, direction).in_play(),
    {
        self.lemma_in_play_is_small();
        let spun = self.pose.rotated(direction);
        assert forall|i: int| 0 <= i < 4 implies -self.variant.reach() <= (
        #[trigger] spun.cells[i]).0 - spun.center.0 <= self.variant.reach()
            && -self.variant.reach() <= spun.cells[i].1 - spun.center.1 <= self.variant.reach() by {
            assert(spun.cells[i] == Pose::turned_cell(self.pose.center, self.pose.cells[i], direction));
        }
        self.lemma_first_free_kick(grid, direction, 0);
        let trial = self.first_free_kick(grid, direction, 0);
        if trial < 5 {
            let kicked = self.kicked(direction, trial);
            let offset = self.variant.kick(self.pose.facing, spun.facing, trial);
            assert forall|i: int| 0 <= i < 4 implies 0 <= (#[trigger] kicked.pose.cells[i]).0
                < BOARD_WIDTH && 0 <= kicked.pose.cells[i].1 <= FIELD_CEILING
                && -self.variant.reach() <= kicked.pose.cells[i].0 - kicked.pose.center.0
                <= self.variant.reach() && -self.variant.reach() <= kicked.pose.cells[i].1
                - kicked.pose.center.1 <= self.variant.reach() by {
                assert(kicked.pose.cells[i] == (spun.cells[i].0 - offset.0, spun.cells[i].1 - offset.1));
                assert(!spec_cell_overlaps(grid, kicked.pose.cells[i]));
            }
        }
    }
}

/// After a piece is committed to a board without a full row, at most four
/// rows are full, and at most three where the piece is a T.
pub proof fn lemma_full_rows_after_place(grid: Grid, piece: Piece)
    requires
        spec_wf(grid),
        grid.len() <= usize::MAX,
        spec_full_rows(grid) == Set::<usize>::empty(),
        piece.in_play(),
    ensures
        spec_full_rows(spec_stamped(grid, piece.pose.cells, piece.color)).finite(),
        spec_full_rows(spec_stamped(grid, piece.pose.cells, piece.color)).len() <= 4,
        piece.variant == TetrominoVariant::T ==> spec_full_rows(
            spec_stamped(grid, piece.pose.cells, piece.color),
        ).len() <= 3,
{
    let cells = piece.pose.cells;
    let after = spec_stamped(grid, cells, piece.color);
    let full = spec_full_rows(after);
    let y0 = cells[0].1 as usize;
    let y1 = cells[1].1 as usize;
    let y2 = cells[2].1 as usize;
    let y3 = cells[3].1 as usize;
    let rows = Set::<usize>::empty().insert(y0).insert(y1).insert(y2).insert(y3);
    assert forall|y: usize| full.contains(y) implies rows.contains(y) by {
        if !rows.contains(y) {
            assert forall|x: int| 0 <= x < grid[y as int].len() implies (
            #[trigger] grid[y as int][x]) is Some by {
                if cells.contains((x, y as int)) {
                    let k = choose|k: int| 0 <= k < cells.len() && cells[k] == (x, y as int);
                    assert(cells[k].1 == y);
                }
                assert(after[y as int][x] is Some);
            }
            assert(spec_full_rows(grid).contains(y));
        }
    }
    assert(full.subset_of(rows));
    vstd::set_lib::lemma_len_subset(full, rows);
    if piece.variant == TetrominoVariant::T {
        let c = piece.pose.center.1;
        assert(c - 1 <= cells[0].1 <= c + 1);
        assert(c - 1 <= cells[1].1 <= c + 1);
        assert(c - 1 <= cells[2].1 <= c + 1);
        assert(c - 1 <= cells[3].1 <= c + 1);
    }
}

impl Player {
    /// Takes the next piece out of the bag and lets it fall from the start position.
    fn next_piece(&mut self)
        requires
            old(self)@.bag.wf(),
        ensures
            final(self)@ == old(self)@.spec_next_piece(),
            final(self)@.bag.wf(),
            final(self)@.falling.in_play(),
    {
        let ghost first = self@.bag.first();
        let mut falling = self.bag.get_next(&mut self.seed);
        proof {
            first.lemma_spawn_starts_in_play(self.board@);
        }
        falling.start_pos_transform(&self.board);
        self.falling = falling;
        self.update_ghost();
        self.last_action_was_rotate = false;
    }

    /// What is told the peer of a local player, and nothing of another.
    fn told(&self, message: Message) -> (told: Option<Message>)
        ensures
            (match told {
                Some(message) => Some(message@),
                None => None,
            }) == self@.told(message@),
    {
        match self.kind {
            PlayerKind::Local => Some(message),
            _ => None,
        }
    }

    /// Notes a move of the falling piece: one more lock reset, the preview
    /// brought up to date, and the new pose for the peer.
    fn moved(&mut self, turned: bool) -> (effects: Effects)
        requires
            old(self)@.falling.in_play(),
            old(self)@.lock_reset_count < LOCK_RESET_LIMIT,
        ensures
            final(self)@ == (PlayerModel {
                lock_reset_count: (old(self)@.lock_reset_count + 1) as u8,
                ghost_piece: spec_ghost(old(self)@.board, old(self)@.falling),
                locking: spec_hitting_bottom(old(self)@.board, old(self)@.falling.pose),
                last_action_was_rotate: turned,
                ..old(self)@
            }),
            effects@ == (Outcome {
                message: old(self)@.told(Notice::Pos(old(self)@.falling.pose)),
                lock_delay: old(self)@.lock_reset_count + 1 < LOCK_RESET_LIMIT,
                line_clear_delay: false,
            }),
    {
        self.lock_reset_count = self.lock_reset_count + 1;
        self.update_ghost();
        self.locking = self.board.hitting_bottom(&self.falling);
        self.last_action_was_rotate = turned;
        Effects {
            message: self.told(Message::Pos(self.falling.geometry)),
            lock_delay: self.lock_reset_count < LOCK_RESET_LIMIT,
            line_clear_delay: false,
        }
    }

    /// Shifts the falling piece one column over unless it is blocked. At the
    /// limit of lock resets the piece is committed instead.
    pub fn shift(&mut self, direction: ShiftDirection) -> (effects: Effects)
        requires
            old(self)@.wf(),
        ensures
            final(self)@ == old(self)@.spec_shift(direction).0,
            effects@ == old(self)@.spec_shift(direction).1,
            final(self)@.wf(),
    {
        if self.idle() {
            return Effects::none();
        }
        if self.lock_reset_count >= LOCK_RESET_LIMIT {
            return self.place();
        }
        proof {
            self@.falling.lemma_shifted_in_play(self@.board, direction);
        }
        if self.falling.shift(direction, &self.board) {
            self.moved(false)
        } else {
            Effects::none()
        }
    }

    /// Turns the falling piece a quarter turn where one of the kick offsets
    /// lets it. At the limit of lock resets the piece is committed instead.
    pub fn rotate(&mut self, direction: RotationDirection) -> (effects: Effects)
        requires
            old(self)@.wf(),
        ensures
            final(self)@ == old(self)@.spec_rotate(direction).0,
            effects@ == old(self)@.spec_rotate(direction).1,
            final(self)@.wf(),
    {
        if self.idle() {
            return Effects::none();
        }
        if self.lock_reset_count >= LOCK_RESET_LIMIT {
            return self.place();
        }
        proof {
            self@.falling.lemma_turned_in_play(self@.board, direction);
        }
        if self.falling.rotate(direction, &self.board) {
            self.moved(true)
        } else {
            Effects::none()
        }
    }

    /// Commits the falling piece where it rests: its cells are filled, the
    /// full rows are marked, and the next piece starts to fall. A piece with a
    /// cell above the top row ends the game.
    pub fn place(&mut self) -> (effects: Effects)
        requires
            old(self)@.wf(),
        ensures
            final(self)@ == old(self)@.spec_place().0,
            effects@ == old(self)@.spec_place().1,
            final(self)@.wf(),
    {
        if self.idle() || !self.board.hitting_bottom(&self.falling) {
            return Effects::none();
        }
        let spin = self.t_spin_check();
        let placed = self.falling;
        proof {
            assert(self@.clearing =~= Set::<usize>::empty());
            assert(self@.board.len() == self.board.0.len());
            crate::board::lemma_first_above_bounds(placed@.pose.cells, 0);
        }
        if !self.board.add(&placed) {
            self.lost = true;
            return Effects::none();
        }
        proof {
            assert(placed@.pose.cells.take(4) =~= placed@.pose.cells);
            lemma_full_rows_after_place(old(self)@.board, placed@);
        }
        let marked = self.mark_clear();
        self.t_spin = marked && spin;
        self.locking = false;
        self.can_hold = true;
        self.next_piece();
        Effects {
            message: self.told(Message::Place(placed.geometry)),
            lock_delay: false,
            line_clear_delay: marked,
        }
    }
}

/// Once the full rows have left a board, none of its rows is full.
pub proof fn lemma_cleared_has_no_full_row(grid: Grid)
    requires
        spec_wf(grid),
        grid.len() <= usize::MAX,
    ensures
        spec_full_rows(spec_cleared(grid, spec_full_rows(grid))) == Set::<usize>::empty(),
{
    let marked = spec_full_rows(grid);
    let kept = crate::board::spec_kept_rows(grid, marked, 0);
    let after = spec_cleared(grid, marked);
    crate::board::lemma_kept_rows_len(grid, marked, 0);
    assert forall|y: usize| !(#[trigger] spec_full_rows(after).contains(y)) by {
        if y < after.len() {
            if y < kept.len() {
                crate::board::lemma_kept_rows_are_rows(grid, marked, 0, y as int);
                let source = choose|source: int|
                    0 <= source < grid.len() && !marked.contains(source as usize) && kept[y as int]
                        == #[trigger] grid[source];
                assert(!spec_row_full(grid[source]));
            } else {
                assert(after[y as int][0] is None);
            }
        }
    }
    assert(spec_full_rows(after) =~= Set::<usize>::empty());
}

/// Garbage under a board moves its full rows up and adds none: as many rows
/// are full as before.
pub proof fn lemma_full_rows_over_garbage(grid: Grid, count: int, hole: int)
    requires
        0 <= count,
        0 <= hole < BOARD_WIDTH,
        grid.len() + count <= usize::MAX,
        spec_full_rows(grid).finite(),
    ensures
        spec_full_rows(spec_with_garbage(grid, count, hole)).finite(),
        spec_full_rows(spec_with_garbage(grid, count, hole)).len() == spec_full_rows(grid).len(),
{
    let before = spec_full_rows(grid);
    let after = spec_with_garbage(grid, count, hole);
    let up = |y: usize| (y + count) as usize;
    assert forall|y: usize| #[trigger] spec_full_rows(after).contains(y) implies before.map(
        up,
    ).contains(y) by {
        if y < count {
            assert(after[y as int][hole] is None);
        } else {
            let source = (y - count) as usize;
            assert(after[y as int] == grid[source as int]);
            assert(before.contains(source));
            assert(up(source) == y);
        }
    }
    assert forall|y: usize| #[trigger] before.map(up).contains(y) implies spec_full_rows(
        after,
    ).contains(y) by {
        let source = choose|source: usize| before.contains(source) && up(source) == y;
        assert(after[y as int] == grid[source as int]);
    }
    assert(before.map(up) =~= spec_full_rows(after));
    assert(vstd::relations::injective_on(up, before));
    vstd::set_lib::lemma_map_size(before, spec_full_rows(after), up);
}

impl Piece {
    /// A piece that can fall and lies on a filled cell can fall one row further up.
    pub proof fn lemma_step_up_in_play(self, grid: Grid)
        requires
            self.in_play(),
            spec_colliding(grid, self.pose),
        ensures
            self.pose.margin(1),
            self.pose.cells[0].1 < FIELD_CEILING,
            self.posed(self.pose.translated(0, 1)).in_play(),
    {
        self.lemma_in_play_is_small();
        let hit = choose|k: int|
            0 <= k < self.pose.cells.len() && crate::board::spec_cell_collides(
                grid,
                #[trigger] self.pose.cells[k],
            );
        assert(self.pose.cells[hit].1 < BOARD_HEIGHT);
        let moved = self.pose.translated(0, 1);
        assert forall|i: int| 0 <= i < 4 implies 0 <= (#[trigger] moved.cells[i]).0 < BOARD_WIDTH
            && 0 <= moved.cells[i].1 <= FIELD_CEILING && -self.variant.reach()
            <= moved.cells[i].0 - moved.center.0 <= self.variant.reach() && -self.variant.reach()
            <= moved.cells[i].1 - moved.center.1 <= self.variant.reach() by {
            assert(moved.cells[i] == (self.pose.cells[i].0, self.pose.cells[i].1 + 1));
        }
    }
}

impl Player {
    /// Puts the falling piece on hold, once for each piece that falls. The
    /// piece that was held falls in its place, or the next of the bag where
    /// none was.
    pub fn hold(&mut self) -> (effects: Effects)
        requires
            old(self)@.wf(),
        ensures
            final(self)@ == old(self)@.spec_hold().0,
            effects@ == old(self)@.spec_hold().1,
            final(self)@.wf(),
    {
        if self.idle() || !self.can_hold {
            return Effects::none();
        }
        let held = Tetromino::new(self.falling.variant);
        match self.holding {
            Some(piece) => {
                let mut swap = piece;
                proof {
                    piece@.variant.lemma_spawn_starts_in_play(self.board@);
                }
                swap.start_pos_transform(&self.board);
                self.falling = swap;
                self.update_ghost();
                self.last_action_was_rotate = false;
            },
            None => {
                self.next_piece();
            },
        }
        self.holding = Some(held);
        self.can_hold = false;
        Effects { message: self.told(Message::Hold), lock_delay: false, line_clear_delay: false }
    }

    /// Moves the falling piece one row down as gravity does, for a point where it moved.
    pub fn soft_drop(&mut self) -> (effects: Effects)
        requires
            old(self)@.wf(),
            !old(self)@.idle() && !old(self)@.resting() ==> old(self)@.score.score < u32::MAX,
        ensures
            final(self)@ == old(self)@.spec_soft_drop().0,
            effects@ == old(self)@.spec_soft_drop().1,
            final(self)@.wf(),
    {
        if self.idle() {
            return Effects::none();
        }
        let moves = !self.board.hitting_bottom(&self.falling);
        let dropped = self.drop();
        if moves {
            self.score.score = self.score.score + 1;
        }
        Effects {
            message: Some(Message::Pos(self.falling.geometry)),
            lock_delay: dropped.lock_delay,
            line_clear_delay: false,
        }
    }

    /// Lets the falling piece fall to where it lands, for two points a row, and commits it.
    pub fn hard_drop(&mut self) -> (effects: Effects)
        requires
            old(self)@.wf(),
            !old(self)@.idle() ==> old(self)@.score.score + 2 * spec_drop_distance(
                old(self)@.board,
                old(self)@.falling.pose,
            ) <= u32::MAX,
        ensures
            final(self)@ == old(self)@.spec_hard_drop().0,
            effects@ == old(self)@.spec_hard_drop().1,
            final(self)@.wf(),
    {
        if self.idle() {
            return Effects::none();
        }
        let (landed, rows) = landing(&self.board, self.falling);
        self.falling = landed;
        self.score.score = self.score.score + 2 * rows;
        self.place()
    }

    /// Whether the clear that removing the marked rows makes can be scored.
    pub fn can_clear(&self) -> (fits: bool)
        requires
            self@.wf(),
            self@.clearing.len() > 0,
        ensures
            fits == self@.score.can_score(self@.spec_clear_kind()),
    {
        let mut board = self.board.copy();
        board.line_clear(&self.clearing);
        let kind = ClearKind::classify(self.clearing.len(), board.is_blank(), self.t_spin);
        self.score.fits(kind)
    }

    /// Removes the marked rows and scores the clear; gives its kind, by which
    /// the opponent takes garbage.
    pub fn line_clear(&mut self) -> (clear_kind: ClearKind)
        requires
            old(self)@.wf(),
            old(self)@.clearing.len() > 0,
            old(self)@.score.can_score(old(self)@.spec_clear_kind()),
        ensures
            final(self)@ == old(self)@.spec_line_clear(),
            clear_kind == old(self)@.spec_clear_kind(),
            final(self)@.wf(),
    {
        proof {
            assert(self@.board.len() == self.board.0.len());
            if !self.lost {
                lemma_cleared_has_no_full_row(self@.board);
            }
        }
        self.board.line_clear(&self.clearing);
        let clear_kind = ClearKind::from_state(self);
        self.score.score_clear(clear_kind);
        self.update_ghost();
        self.clearing = HashSet::new();
        self.t_spin = false;
        clear_kind
    }

    /// Takes `count` rows of garbage with their hole in column `hole`: they
    /// are put under the board, the full rows are marked where they now are,
    /// and the falling piece is lifted off the cells it has come to lie on.
    pub fn take_garbage(&mut self, count: usize, hole: usize)
        requires
            old(self)@.wf(),
            !old(self)@.lost,
            hole < BOARD_WIDTH,
            old(self)@.board.len() + count <= usize::MAX,
        ensures
            final(self)@ == old(self)@.spec_take_garbage(count as int, hole as int),
            final(self)@.wf(),
    {
        proof {
            assert(self@.board.len() == self.board.0.len());
            lemma_full_rows_over_garbage(self@.board, count as int, hole as int);
        }
        self.board.push_garbage(count, hole);
        self.clearing = self.board.full_rows();
        self.falling = lifting(&self.board, self.falling);
        self.update_ghost();
    }

    /// Takes the garbage that a clear of `clear_kind` by the opponent sends.
    /// The column of the hole is drawn from the generator, also where the
    /// clear sends no row. A player who has lost takes none, and draws nothing.
    pub fn add_garbage(&mut self, clear_kind: ClearKind)
        requires
            old(self)@.wf(),
            old(self)@.board.len() + 10 <= usize::MAX,
        ensures
            final(self)@ == old(self)@.spec_add_garbage(clear_kind),
            final(self)@.wf(),
    {
        if self.lost {
            return ;
        }
        let hole: i32 = draw_below(&mut self.seed, BOARD_WIDTH);
        self.take_garbage(clear_kind.garbage_line_count(), hole as usize);
    }
}

impl PlayerModel {
    /// The players that two sides make from one seed are dealt alike: they
    /// differ in nothing but their kind. Their falling piece is the first of
    /// the draw sequence of the seed, and their bags go on with it.
    pub proof fn lemma_dealt_by_the_seed(
        kind: PlayerKind,
        other: PlayerKind,
        start_level: u32,
        seed: u64,
    )
        ensures
            PlayerModel::spec_new(kind, start_level, seed) == (PlayerModel {
                kind,
                ..PlayerModel::spec_new(other, start_level, seed)
            }),
            PlayerModel::spec_new(kind, start_level, seed).falling.variant
                == crate::bag::spec_draw_sequence(seed, 1)[0],
            (
                PlayerModel::spec_new(kind, start_level, seed).bag,
                PlayerModel::spec_new(kind, start_level, seed).generator,
            ) == crate::bag::spec_dealt(seed, 1),
    {
        let made = crate::bag::spec_dealt(seed, 0);
        assert(made == Bag::spec_new(seeded_state(seed)));
        assert(crate::bag::spec_dealt(seed, 1) == Bag::spec_get_next(made.0, made.1));
    }

    /// This player after the first `count` of the shifts `directions`.
    pub open spec fn spec_shifts(self, directions: Seq<ShiftDirection>, count: nat) -> PlayerModel
        decreases count,
    {
        if count == 0 {
            self
        } else {
            self.spec_shifts(directions, (count - 1) as nat).spec_shift(directions[count - 1]).0
        }
    }

    /// Whether each of the first `count` of the shifts `directions` finds the
    /// player ready to move, the piece at rest, and the way free.
    pub open spec fn shifts_at_rest(self, directions: Seq<ShiftDirection>, count: nat) -> bool {
        forall|i: int|
            0 <= i < count ==> {
                let then = #[trigger] self.spec_shifts(directions, i as nat);
                !then.idle() && then.resting() && !then.falling.blocked(then.board, directions[i])
            }
    }

    /// Whether shift `i` of the shifts `directions` commits the piece instead
    /// of moving it: it meets the limit of lock resets.
    pub open spec fn commits_at(self, directions: Seq<ShiftDirection>, i: int) -> bool {
        let then = self.spec_shifts(directions, i as nat);
        then.lock_reset_count >= LOCK_RESET_LIMIT && then.spec_shift(directions[i])
            == then.spec_place()
    }

    /// Shifts that move the piece count up the lock resets one by one.
    pub proof fn lemma_shifts_count_up(self, directions: Seq<ShiftDirection>, count: nat)
        requires
            self.wf(),
            count <= directions.len(),
            self.shifts_at_rest(directions, count),
            forall|i: int| 0 <= i < count ==> !self.commits_at(directions, i),
        ensures
            self.spec_shifts(directions, count).lock_reset_count == self.lock_reset_count + count,
        decreases count,
    {
        if count > 0 {
            self.lemma_shifts_count_up(directions, (count - 1) as nat);
            let then = self.spec_shifts(directions, (count - 1) as nat);
            assert(!self.commits_at(directions, count - 1));
        }
    }

    /// Of sixteen shifts in a row that each find the piece at rest and the
    /// way free, one commits the piece: no more than fifteen move it, however
    /// soon they follow one another.
    pub proof fn lemma_lock_reset_cap(self, directions: Seq<ShiftDirection>)
        requires
            self.wf(),
            directions.len() == 16,
            self.shifts_at_rest(directions, 16),
        ensures
            exists|i: int| 0 <= i < 16 && self.commits_at(directions, i),
    {
        if forall|i: int| 0 <= i < 15 ==> !self.commits_at(directions, i) {
            assert(self.shifts_at_rest(directions, 15)) by {
                assert forall|i: int| 0 <= i < 15 implies {
                    let then = #[trigger] self.spec_shifts(directions, i as nat);
                    !then.idle() && then.resting() && !then.falling.blocked(
                        then.board,
                        directions[i],
                    )
                } by {
                    assert(0 <= i < 16);
                }
            }
            self.lemma_shifts_count_up(directions, 15);
            let then = self.spec_shifts(directions, 15);
            assert(then.lock_reset_count >= LOCK_RESET_LIMIT);
            assert(self.commits_at(directions, 15));
        }
    }
}

} // verus!
