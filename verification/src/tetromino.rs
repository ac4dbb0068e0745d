//! Pieces: their cells on the grid, how they turn and move, and the seven
//! kinds at their spawn pose.
use crate::board::{
    spec_hitting_left, spec_hitting_right, spec_overlapping, spec_row_in_use, Board, Grid,
};
use crate::bytes::{le_bytes_i32, le_value_i32, push_i32, read_i32};
use crate::conn::WireError;
use vstd::prelude::*;

verus! {

/// A cell of the grid, or an offset between two: `(x, y)`, with `y` growing upwards.
pub type Dimension = (i32, i32);

/// The four cells of a piece.
pub type Shape = [Dimension; 4];

/// The way of a shift.
#[derive(Clone, Copy, Debug, PartialEq, Eq, Structural)]
pub enum ShiftDirection {
    Left,
    Right,
}

/// The way of a quarter turn.
#[derive(Clone, Copy, Debug, PartialEq, Eq, Structural)]
pub enum RotationDirection {
    Clockwise,
    CounterClockwise,
}

/// The facing of a piece.
#[derive(Clone, Copy, Debug, PartialEq, Eq, Structural)]
pub enum CardinalDirection {
    North,
    East,
    South,
    West,
}

/// The seven kinds of piece.
#[derive(Clone, Copy, Debug, PartialEq, Eq, Structural)]
pub enum TetrominoVariant {
    I,
    J,
    L,
    O,
    S,
    T,
    Z,
}

/// The colour a cell is shown in. Which terminal colour stands for each is the
/// renderer's choice.
#[derive(Clone, Copy, Debug, PartialEq, Eq, Structural)]
pub enum Color {
    Cyan,
    Blue,
    Orange,
    Yellow,
    Green,
    Magenta,
    Red,
    White,
}

impl ShiftDirection {
    /// The step along `x` that a shift in this direction makes.
    pub open spec fn dx(self) -> int {
        match self {
            ShiftDirection::Left => -1,
            ShiftDirection::Right => 1,
        }
    }
}

impl CardinalDirection {
    /// The number of quarter turns clockwise from north.
    pub open spec fn index(self) -> int {
        match self {
            CardinalDirection::North => 0,
            CardinalDirection::East => 1,
            CardinalDirection::South => 2,
            CardinalDirection::West => 3,
        }
    }

    /// The direction `index` quarter turns clockwise from north, for `0 <= index < 4`.
    pub open spec fn of_index(index: int) -> CardinalDirection {
        if index == 0 {
            CardinalDirection::North
        } else if index == 1 {
            CardinalDirection::East
        } else if index == 2 {
            CardinalDirection::South
        } else {
            CardinalDirection::West
        }
    }

    /// The direction a quarter turn away.
    pub open spec fn turned(self, direction: RotationDirection) -> CardinalDirection {
        match direction {
            RotationDirection::Clockwise => CardinalDirection::of_index((self.index() + 1) % 4),
            RotationDirection::CounterClockwise => CardinalDirection::of_index(
                (self.index() + 3) % 4,
            ),
        }
    }

    /// The number of quarter turns clockwise from north.
    pub fn to_u8(self) -> (byte: u8)
        ensures
            byte == self.index(),
    {
        match self {
            CardinalDirection::North => 0,
            CardinalDirection::East => 1,
            CardinalDirection::South => 2,
            CardinalDirection::West => 3,
        }
    }

    /// The direction `byte` quarter turns clockwise from north, for a byte up to 3.
    pub fn from_u8(byte: u8) -> (direction: Option<CardinalDirection>)
        ensures
            byte <= 3 ==> direction == Some(CardinalDirection::of_index(byte as int)),
            byte > 3 ==> direction is None,
    {
        match byte {
            0 => Some(CardinalDirection::North),
            1 => Some(CardinalDirection::East),
            2 => Some(CardinalDirection::South),
            3 => Some(CardinalDirection::West),
            _ => None,
        }
    }

    /// Turns a quarter turn.
    pub fn turn(self, direction: RotationDirection) -> (after: CardinalDirection)
        ensures
            after == self.turned(direction),
    {
        match direction {
            RotationDirection::Clockwise => match self {
                CardinalDirection::North => CardinalDirection::East,
                CardinalDirection::East => CardinalDirection::South,
                CardinalDirection::South => CardinalDirection::West,
                CardinalDirection::West => CardinalDirection::North,
            },
            RotationDirection::CounterClockwise => match self {
                CardinalDirection::North => CardinalDirection::West,
                CardinalDirection::East => CardinalDirection::North,
                CardinalDirection::South => CardinalDirection::East,
                CardinalDirection::West => CardinalDirection::South,
            },
        }
    }
}

impl TetrominoVariant {
    /// The seven variants, in their fixed order.
    pub open spec fn all() -> Seq<TetrominoVariant> {
        seq![
            TetrominoVariant::I,
            TetrominoVariant::J,
            TetrominoVariant::L,
            TetrominoVariant::O,
            TetrominoVariant::S,
            TetrominoVariant::T,
            TetrominoVariant::Z,
        ]
    }

    /// How far, along either axis, a cell of this variant lies from the pivot at most.
    pub open spec fn reach(self) -> int {
        match self {
            TetrominoVariant::I => 2,
            _ => 1,
        }
    }

    /// The colour of this variant.
    pub open spec fn color(self) -> Color {
        match self {
            TetrominoVariant::I => Color::Cyan,
            TetrominoVariant::J => Color::Blue,
            TetrominoVariant::L => Color::Orange,
            TetrominoVariant::O => Color::Yellow,
            TetrominoVariant::S => Color::Green,
            TetrominoVariant::T => Color::Magenta,
            TetrominoVariant::Z => Color::Red,
        }
    }

    /// The cells of this variant at its spawn pose, before it is moved to its start position.
    pub open spec fn spawn_cells(self) -> Seq<(int, int)> {
        match self {
            TetrominoVariant::I => seq![(0, 1), (1, 1), (2, 1), (3, 1)],
            TetrominoVariant::J => seq![(1, 1), (1, 0), (2, 0), (3, 0)],
            TetrominoVariant::L => seq![(1, 0), (2, 0), (3, 0), (3, 1)],
            TetrominoVariant::O => seq![(1, 0), (1, 1), (2, 0), (2, 1)],
            TetrominoVariant::S => seq![(1, 0), (2, 0), (2, 1), (3, 1)],
            TetrominoVariant::T => seq![(1, 0), (2, 0), (2, 1), (3, 0)],
            TetrominoVariant::Z => seq![(1, 1), (2, 1), (2, 0), (3, 0)],
        }
    }

    /// The pivot of this variant at its spawn pose.
    pub open spec fn spawn_center(self) -> (int, int) {
        match self {
            TetrominoVariant::I => (1, 1),
            TetrominoVariant::O => (1, 0),
            _ => (2, 0),
        }
    }

    /// This variant as it comes out of the catalog: spawn pose, facing north.
    pub open spec fn spawn(self) -> Piece {
        Piece {
            pose: Pose {
                cells: self.spawn_cells(),
                center: self.spawn_center(),
                facing: CardinalDirection::North,
            },
            color: self.color(),
            variant: self,
        }
    }

    /// The row of the kick table of this variant for one facing: five offsets,
    /// in the order in which they are tried.
    pub open spec fn kick_row(self, facing: CardinalDirection) -> Seq<(int, int)> {
        match self {
            TetrominoVariant::I => match facing {
                CardinalDirection::North => seq![(0, 0), (-1, 0), (2, 0), (-1, 0), (2, 0)],
                CardinalDirection::East => seq![(-1, 0), (0, 0), (0, 0), (0, 1), (0, -2)],
                CardinalDirection::South => seq![(-1, 1), (1, 1), (-2, 1), (1, 0), (-2, 0)],
                CardinalDirection::West => seq![(0, 1), (0, 1), (0, 1), (0, -1), (0, 2)],
            },
            TetrominoVariant::O => match facing {
                CardinalDirection::North => seq![(0, 0), (0, 0), (0, 0), (0, 0), (0, 0)],
                CardinalDirection::East => seq![(0, -1), (0, 0), (0, 0), (0, 0), (0, 0)],
                CardinalDirection::South => seq![(-1, -1), (0, 0), (0, 0), (0, 0), (0, 0)],
                CardinalDirection::West => seq![(-1, 0), (0, 0), (0, 0), (0, 0), (0, 0)],
            },
            _ => match facing {
                CardinalDirection::North => seq![(0, 0), (0, 0), (0, 0), (0, 0), (0, 0)],
                CardinalDirection::East => seq![(0, 0), (1, 0), (1, -1), (0, 2), (1, 2)],
                CardinalDirection::South => seq![(0, 0), (0, 0), (0, 0), (0, 0), (0, 0)],
                CardinalDirection::West => seq![(0, 0), (-1, 0), (-1, -1), (0, 2), (-1, 2)],
            },
        }
    }

    /// The offset of trial `trial` when a piece of this variant turns from `from` to `to`:
    /// the table's entry for the new facing less its entry for the old one.
    pub open spec fn kick(self, from: CardinalDirection, to: CardinalDirection, trial: int) -> (
        int,
        int,
    ) {
        (
            self.kick_row(to)[trial].0 - self.kick_row(from)[trial].0,
            self.kick_row(to)[trial].1 - self.kick_row(from)[trial].1,
        )
    }

    /// The seven variants, in their fixed order.
    pub fn list() -> (variants: Vec<TetrominoVariant>)
        ensures
            variants@ == TetrominoVariant::all(),
    {
        let variants = vec![
            TetrominoVariant::I,
            TetrominoVariant::J,
            TetrominoVariant::L,
            TetrominoVariant::O,
            TetrominoVariant::S,
            TetrominoVariant::T,
            TetrominoVariant::Z,
        ];
        assert(variants@ =~= TetrominoVariant::all());
        variants
    }

    /// The row of the kick table of this variant for one facing.
    pub fn kick_table_row(self, facing: CardinalDirection) -> (row: [Dimension; 5])
        ensures
            forall|i: int|
                0 <= i < 5 ==> (#[trigger] row@[i]).0 == self.kick_row(facing)[i].0 && row@[i].1
                    == self.kick_row(facing)[i].1,
    {
        match self {
            TetrominoVariant::I => match facing {
                CardinalDirection::North => [(0, 0), (-1, 0), (2, 0), (-1, 0), (2, 0)],
                CardinalDirection::East => [(-1, 0), (0, 0), (0, 0), (0, 1), (0, -2)],
                CardinalDirection::South => [(-1, 1), (1, 1), (-2, 1), (1, 0), (-2, 0)],
                CardinalDirection::West => [(0, 1), (0, 1), (0, 1), (0, -1), (0, 2)],
            },
            TetrominoVariant::O => match facing {
                CardinalDirection::North => [(0, 0), (0, 0), (0, 0), (0, 0), (0, 0)],
                CardinalDirection::East => [(0, -1), (0, 0), (0, 0), (0, 0), (0, 0)],
                CardinalDirection::South => [(-1, -1), (0, 0), (0, 0), (0, 0), (0, 0)],
                CardinalDirection::West => [(-1, 0), (0, 0), (0, 0), (0, 0), (0, 0)],
            },
            _ => match facing {
                CardinalDirection::North => [(0, 0), (0, 0), (0, 0), (0, 0), (0, 0)],
                CardinalDirection::East => [(0, 0), (1, 0), (1, -1), (0, 2), (1, 2)],
                CardinalDirection::South => [(0, 0), (0, 0), (0, 0), (0, 0), (0, 0)],
                CardinalDirection::West => [(0, 0), (-1, 0), (-1, -1), (0, 2), (-1, 2)],
            },
        }
    }
}

/// What a `Geometry` stands for: cells, pivot and facing, over the integers.
#[verifier::ext_equal]
pub struct Pose {
    pub cells: Seq<(int, int)>,
    pub center: (int, int),
    pub facing: CardinalDirection,
}

impl Pose {
    /// This pose moved by `(dx, dy)`.
    pub open spec fn translated(self, dx: int, dy: int) -> Pose {
        Pose {
            cells: Seq::new(
                self.cells.len(),
                |i: int| (self.cells[i].0 + dx, self.cells[i].1 + dy),
            ),
            center: (self.center.0 + dx, self.center.1 + dy),
            facing: self.facing,
        }
    }

    /// Where a quarter turn about `center` takes `cell`.
    pub open spec fn turned_cell(center: (int, int), cell: (int, int), direction: RotationDirection)
        -> (int, int) {
        match direction {
            RotationDirection::Clockwise => (
                center.0 + (cell.1 - center.1),
                center.1 - (cell.0 - center.0),
            ),
            RotationDirection::CounterClockwise => (
                center.0 - (cell.1 - center.1),
                center.1 + (cell.0 - center.0),
            ),
        }
    }

    /// This pose after a quarter turn about its pivot.
    pub open spec fn rotated(self, direction: RotationDirection) -> Pose {
        Pose {
            cells: Seq::new(
                self.cells.len(),
                |i: int| Pose::turned_cell(self.center, self.cells[i], direction),
            ),
            center: self.center,
            facing: self.facing.turned(direction),
        }
    }

    /// Every coordinate of this pose, and every coordinate up to `margin` away
    /// from it, is a 32-bit number.
    pub open spec fn margin(self, margin: int) -> bool {
        &&& i32::MIN + margin <= self.center.0 <= i32::MAX - margin
        &&& i32::MIN + margin <= self.center.1 <= i32::MAX - margin
        &&& forall|i: int|
            0 <= i < self.cells.len() ==> i32::MIN + margin <= (#[trigger] self.cells[i]).0
                <= i32::MAX - margin && i32::MIN + margin <= self.cells[i].1 <= i32::MAX - margin
    }

    /// Every coordinate of this pose is a 32-bit number.
    pub open spec fn representable(self) -> bool {
        self.margin(0)
    }

    /// Every cell lies within `reach` of the pivot along both axes.
    pub open spec fn compact(self, reach: int) -> bool {
        forall|i: int|
            0 <= i < self.cells.len() ==> -reach <= (#[trigger] self.cells[i]).0 - self.center.0
                <= reach && -reach <= self.cells[i].1 - self.center.1 <= reach
    }

    /// The 41 bytes that carry this pose: the facing, the pivot, then the four cells.
    pub open spec fn encoded(self) -> Seq<u8> {
        seq![self.facing.index() as u8] + le_bytes_i32(self.center.0) + le_bytes_i32(self.center.1)
            + le_bytes_i32(self.cells[0].0) + le_bytes_i32(self.cells[0].1) + le_bytes_i32(
            self.cells[1].0,
        ) + le_bytes_i32(self.cells[1].1) + le_bytes_i32(self.cells[2].0) + le_bytes_i32(
            self.cells[2].1,
        ) + le_bytes_i32(self.cells[3].0) + le_bytes_i32(self.cells[3].1)
    }

    /// The pose that 41 bytes carry, where their first byte is a facing.
    pub open spec fn decoded(bytes: Seq<u8>) -> Pose {
        Pose {
            cells: Seq::new(
                4,
                |i: int|
                    (
                        le_value_i32(bytes.subrange(9 + 8 * i, 13 + 8 * i)),
                        le_value_i32(bytes.subrange(13 + 8 * i, 17 + 8 * i)),
                    ),
            ),
            center: (le_value_i32(bytes.subrange(1, 5)), le_value_i32(bytes.subrange(5, 9))),
            facing: CardinalDirection::of_index(bytes[0] as int),
        }
    }
}

/// The cells of a piece, its pivot and its facing.
#[derive(Clone, Copy, Debug, PartialEq, Eq)]
pub struct Geometry {
    pub shape: Shape,
    pub center: Dimension,
    pub direction: CardinalDirection,
}

impl View for Geometry {
    type V = Pose;

    open spec fn view(&self) -> Pose {
        Pose {
            cells: Seq::new(4, |i: int| (self.shape@[i].0 as int, self.shape@[i].1 as int)),
            center: (self.center.0 as int, self.center.1 as int),
            facing: self.direction,
        }
    }
}

impl Geometry {
    /// Two geometries that stand for one pose are one geometry.
    pub proof fn lemma_view_injective(self, other: Geometry)
        requires
            self@ == other@,
        ensures
            self == other,
    {
        assert forall|i: int| 0 <= i < 4 implies self.shape@[i] == other.shape@[i] by {
            assert(self@.cells[i] == other@.cells[i]);
        }
        assert(self.shape =~= other.shape);
    }

    /// Moves every cell and the pivot by `(x, y)`.
    pub fn transform(&mut self, x: i32, y: i32)
        requires
            old(self)@.translated(x as int, y as int).representable(),
        ensures
            final(self)@ == old(self)@.translated(x as int, y as int),
    {
        let ghost moved = old(self)@.translated(x as int, y as int);
        let mut i: usize = 0;
        while i < 4
            invariant
                i <= 4,
                moved == old(self)@.translated(x as int, y as int),
                moved.representable(),
                self.center == old(self).center,
                self.direction == old(self).direction,
                forall|j: int| 0 <= j < i ==> self@.cells[j] == #[trigger] moved.cells[j],
                forall|j: int| i <= j < 4 ==> self.shape@[j] == #[trigger] old(self).shape@[j],
            decreases 4 - i,
        {
            let cell = self.shape[i];
            assert(moved.cells[i as int] == (cell.0 + x, cell.1 + y));
            self.shape[i] = (cell.0 + x, cell.1 + y);
            i += 1;
        }
        self.center = (self.center.0 + x, self.center.1 + y);
        assert(self@.cells =~= moved.cells);
    }

    /// Turns every cell a quarter turn about the pivot, and the facing with them.
    pub fn rotate(&mut self, direction: RotationDirection)
        requires
            old(self)@.rotated(direction).representable(),
        ensures
            final(self)@ == old(self)@.rotated(direction),
    {
        let ghost turned = old(self)@.rotated(direction);
        let center_x: i64 = self.center.0 as i64;
        let center_y: i64 = self.center.1 as i64;
        let mut i: usize = 0;
        while i < 4
            invariant
                i <= 4,
                turned == old(self)@.rotated(direction),
                turned.representable(),
                center_x == old(self).center.0,
                center_y == old(self).center.1,
                self.center == old(self).center,
                self.direction == old(self).direction,
                forall|j: int| 0 <= j < i ==> self@.cells[j] == #[trigger] turned.cells[j],
                forall|j: int| i <= j < 4 ==> self.shape@[j] == #[trigger] old(self).shape@[j],
            decreases 4 - i,
        {
            let cell = self.shape[i];
            let dx: i64 = cell.0 as i64 - center_x;
            let dy: i64 = cell.1 as i64 - center_y;
            assert(turned.cells[i as int] == Pose::turned_cell(
                old(self)@.center,
                old(self)@.cells[i as int],
                direction,
            ));
            let (new_x, new_y): (i64, i64) = match direction {
                RotationDirection::Clockwise => (center_x + dy, center_y - dx),
                RotationDirection::CounterClockwise => (center_x - dy, center_y + dx),
            };
            self.shape[i] = (new_x as i32, new_y as i32);
            i += 1;
        }
        self.direction = self.direction.turn(direction);
        assert(self@.cells =~= turned.cells);
    }

    /// The 41 bytes that carry this geometry.
    pub fn to_bytes(&self) -> (bytes: Vec<u8>)
        ensures
            bytes@ == self@.encoded(),
            bytes@.len() == 41,
    {
        let mut buf: Vec<u8> = Vec::new();
        buf.push(self.direction.to_u8());
        assert(buf@ =~= seq![self@.facing.index() as u8]);
        push_i32(&mut buf, self.center.0);
        push_i32(&mut buf, self.center.1);
        push_i32(&mut buf, self.shape[0].0);
        push_i32(&mut buf, self.shape[0].1);
        push_i32(&mut buf, self.shape[1].0);
        push_i32(&mut buf, self.shape[1].1);
        push_i32(&mut buf, self.shape[2].0);
        push_i32(&mut buf, self.shape[2].1);
        push_i32(&mut buf, self.shape[3].0);
        push_i32(&mut buf, self.shape[3].1);
        proof {
            assert(self@.cells[0] == (self.shape@[0].0 as int, self.shape@[0].1 as int));
            assert(self@.cells[1] == (self.shape@[1].0 as int, self.shape@[1].1 as int));
            assert(self@.cells[2] == (self.shape@[2].0 as int, self.shape@[2].1 as int));
            assert(self@.cells[3] == (self.shape@[3].0 as int, self.shape@[3].1 as int));
            self@.lemma_encoded_layout();
        }
        buf
    }

    /// The geometry that 41 bytes carry, or the reason they carry none: a first
    /// byte that is no facing.
    pub fn from_bytes(buf: [u8; 41]) -> (decoded: Result<Geometry, WireError>)
        ensures
            buf@[0] <= 3 ==> decoded is Ok && decoded->Ok_0@ == Pose::decoded(buf@),
            buf@[0] > 3 ==> decoded == Err::<Geometry, WireError>(WireError::Direction(buf@[0])),
    {
        let direction = match CardinalDirection::from_u8(buf[0]) {
            Some(direction) => direction,
            None => {
                return Err(WireError::Direction(buf[0]));
            },
        };
        let bytes: &[u8] = &buf;
        let center = (read_i32(bytes, 1), read_i32(bytes, 5));
        let shape: Shape = [
            (read_i32(bytes, 9), read_i32(bytes, 13)),
            (read_i32(bytes, 17), read_i32(bytes, 21)),
            (read_i32(bytes, 25), read_i32(bytes, 29)),
            (read_i32(bytes, 33), read_i32(bytes, 37)),
        ];
        let geometry = Geometry { shape, center, direction };
        assert(geometry@.cells =~= Pose::decoded(buf@).cells);
        Ok(geometry)
    }

    /// Decoding the bytes of a geometry gives the geometry back: the bytes
    /// are 41, the first of them is a facing, and the pose they carry is the
    /// pose of the geometry.
    pub proof fn lemma_round_trip(self)
        ensures
            self@.encoded().len() == 41,
            self@.encoded()[0] == self@.facing.index(),
            self@.encoded()[0] <= 3,
            Pose::decoded(self@.encoded()) == self@,
    {
        let pose = self@;
        let bytes = pose.encoded();
        pose.lemma_encoded_layout();
        crate::bytes::lemma_i32_round_trip(pose.center.0);
        crate::bytes::lemma_i32_round_trip(pose.center.1);
        let back = Pose::decoded(bytes);
        assert forall|i: int| 0 <= i < 4 implies #[trigger] back.cells[i] == pose.cells[i] by {
            crate::bytes::lemma_i32_round_trip(pose.cells[i].0);
            crate::bytes::lemma_i32_round_trip(pose.cells[i].1);
        }
        assert(back.cells =~= pose.cells);
    }
}

impl Piece {
    /// On a board without a filled cell, a piece whose pivot is further from
    /// the walls, the floor and the top row than its variant reaches turns at
    /// the first trial, whatever its variant, its facing and the direction.
    pub proof fn lemma_turns_freely(self, grid: Grid, direction: RotationDirection)
        requires
            self.pose.cells.len() == 4,
            self.pose.compact(self.variant.reach()),
            self.variant.reach() < self.pose.center.0 < 9 - self.variant.reach(),
            self.variant.reach() < self.pose.center.1 < 19 - self.variant.reach(),
            forall|x: int, y: int| !crate::board::spec_filled(grid, x, y),
        ensures
            self.first_free_kick(grid, direction, 0) == 0,
            self.turned(grid, direction) == self.kicked(direction, 0),
            self.turned(grid, direction).pose.facing == self.pose.facing.turned(direction),
    {
        let turned = self.pose.rotated(direction);
        let offset = self.variant.kick(self.pose.facing, turned.facing, 0);
        let kicked = self.kicked(direction, 0).pose;
        assert(-1 <= offset.0 <= 1 && -1 <= offset.1 <= 1);
        assert forall|i: int| 0 <= i < kicked.cells.len() implies !crate::board::spec_cell_overlaps(
            grid,
            #[trigger] kicked.cells[i],
        ) by {
            assert(turned.cells[i] == Pose::turned_cell(self.pose.center, self.pose.cells[i], direction));
            assert(kicked.cells[i] == (turned.cells[i].0 - offset.0, turned.cells[i].1 - offset.1));
            assert(-self.variant.reach() <= self.pose.cells[i].0 - self.pose.center.0
                <= self.variant.reach());
            assert(-self.variant.reach() <= self.pose.cells[i].1 - self.pose.center.1
                <= self.variant.reach());
        }
    }
}

impl Pose {
    /// Where each number of a pose of four cells stands among its bytes.
    pub proof fn lemma_encoded_layout(self)
        requires
            self.cells.len() == 4,
        ensures
            self.encoded().len() == 41,
            self.encoded()[0] == self.facing.index() as u8,
            self.encoded().subrange(1, 5) == le_bytes_i32(self.center.0),
            self.encoded().subrange(5, 9) == le_bytes_i32(self.center.1),
            forall|i: int|
                0 <= i < 4 ==> #[trigger] self.encoded().subrange(9 + 8 * i, 13 + 8 * i)
                    == le_bytes_i32(self.cells[i].0),
            forall|i: int|
                0 <= i < 4 ==> #[trigger] self.encoded().subrange(13 + 8 * i, 17 + 8 * i)
                    == le_bytes_i32(self.cells[i].1),
    {
        let bytes = self.encoded();
        let head = seq![self.facing.index() as u8] + le_bytes_i32(self.center.0) + le_bytes_i32(
            self.center.1,
        );
        let first = le_bytes_i32(self.cells[0].0) + le_bytes_i32(self.cells[0].1);
        let second = le_bytes_i32(self.cells[1].0) + le_bytes_i32(self.cells[1].1);
        let third = le_bytes_i32(self.cells[2].0) + le_bytes_i32(self.cells[2].1);
        let fourth = le_bytes_i32(self.cells[3].0) + le_bytes_i32(self.cells[3].1);
        assert(head.len() == 9);
        assert(first.len() == 8 && second.len() == 8 && third.len() == 8 && fourth.len() == 8);
        assert(bytes =~= head + first + second + third + fourth);
        assert(bytes.subrange(1, 5) =~= le_bytes_i32(self.center.0));
        assert(bytes.subrange(5, 9) =~= le_bytes_i32(self.center.1));
        assert(bytes.subrange(9, 13) =~= le_bytes_i32(self.cells[0].0));
        assert(bytes.subrange(13, 17) =~= le_bytes_i32(self.cells[0].1));
        assert(bytes.subrange(17, 21) =~= le_bytes_i32(self.cells[1].0));
        assert(bytes.subrange(21, 25) =~= le_bytes_i32(self.cells[1].1));
        assert(bytes.subrange(25, 29) =~= le_bytes_i32(self.cells[2].0));
        assert(bytes.subrange(29, 33) =~= le_bytes_i32(self.cells[2].1));
        assert(bytes.subrange(33, 37) =~= le_bytes_i32(self.cells[3].0));
        assert(bytes.subrange(37, 41) =~= le_bytes_i32(self.cells[3].1));
        assert forall|i: int| 0 <= i < 4 implies #[trigger] bytes.subrange(9 + 8 * i, 13 + 8 * i)
            == le_bytes_i32(self.cells[i].0) by {
            if i == 0 {
            } else if i == 1 {
            } else if i == 2 {
            } else {
            }
        }
        assert forall|i: int| 0 <= i < 4 implies #[trigger] bytes.subrange(13 + 8 * i, 17 + 8 * i)
            == le_bytes_i32(self.cells[i].1) by {
            if i == 0 {
            } else if i == 1 {
            } else if i == 2 {
            } else {
            }
        }
    }
}

/// What a `Tetromino` stands for.
#[verifier::ext_equal]
pub struct Piece {
    pub pose: Pose,
    pub color: Color,
    pub variant: TetrominoVariant,
}

impl Piece {
    /// This piece with another pose.
    pub open spec fn posed(self, pose: Pose) -> Piece {
        Piece { pose, color: self.color, variant: self.variant }
    }

    /// This piece after trial `trial` of a turn: turned about its pivot, then
    /// moved against the kick offset of that trial.
    pub open spec fn kicked(self, direction: RotationDirection, trial: int) -> Piece {
        let turned = self.pose.rotated(direction);
        let offset = self.variant.kick(self.pose.facing, turned.facing, trial);
        self.posed(turned.translated(-offset.0, -offset.1))
    }

    /// The first trial from `from` on whose pose overlaps nothing on `grid`; 5 if there is none.
    pub open spec fn first_free_kick(self, grid: Grid, direction: RotationDirection, from: int)
        -> int
        decreases 5 - from,
    {
        if from >= 5 {
            5
        } else if !spec_overlapping(grid, self.kicked(direction, from).pose) {
            from
        } else {
            self.first_free_kick(grid, direction, from + 1)
        }
    }

    /// This piece after an attempt to turn it on `grid`: the first trial that
    /// overlaps nothing, or the piece as it was.
    pub open spec fn turned(self, grid: Grid, direction: RotationDirection) -> Piece {
        let trial = self.first_free_kick(grid, direction, 0);
        if trial < 5 {
            self.kicked(direction, trial)
        } else {
            self
        }
    }

    /// Whether a shift on `grid` is blocked.
    pub open spec fn blocked(self, grid: Grid, direction: ShiftDirection) -> bool {
        match direction {
            ShiftDirection::Left => spec_hitting_left(grid, self.pose),
            ShiftDirection::Right => spec_hitting_right(grid, self.pose),
        }
    }

    /// This piece after an attempt to shift it on `grid`.
    pub open spec fn shifted(self, grid: Grid, direction: ShiftDirection) -> Piece {
        if self.blocked(grid, direction) {
            self
        } else {
            self.posed(self.pose.translated(direction.dx(), 0))
        }
    }

    /// How many rows a fresh piece is lifted above its start position: one for
    /// each of the rows 17, 18 and 19 that holds a filled cell.
    pub open spec fn spawn_lift(grid: Grid) -> int {
        (if spec_row_in_use(grid, 17) {
            1int
        } else {
            0int
        }) + (if spec_row_in_use(grid, 18) {
            1int
        } else {
            0int
        }) + (if spec_row_in_use(grid, 19) {
            1int
        } else {
            0int
        })
    }

    /// This piece moved to its start position on `grid`.
    pub open spec fn started(self, grid: Grid) -> Piece {
        self.posed(self.pose.translated(3, 18 + Piece::spawn_lift(grid)))
    }

    /// Whether the piece, drawn two columns wide from column `x_offset` and row
    /// `y_offset` on, covers the screen position `(x, y)`.
    pub open spec fn covers(self, x: int, y: int, x_offset: int, y_offset: int) -> bool {
        exists|i: int|
            0 <= i < self.pose.cells.len() && y_offset + (#[trigger] self.pose.cells[i]).1 == y && (
            x_offset + (self.pose.cells[i].0 + 1) * 2 == x || x_offset + (self.pose.cells[i].0 + 1)
                * 2 - 1 == x)
    }
}

/// A piece: what it is, where it is, and its colour.
#[derive(Clone, Copy, Debug, PartialEq, Eq)]
pub struct Tetromino {
    pub geometry: Geometry,
    pub color: Color,
    pub variant: TetrominoVariant,
}

impl View for Tetromino {
    type V = Piece;

    open spec fn view(&self) -> Piece {
        Piece { pose: self.geometry@, color: self.color, variant: self.variant }
    }
}

impl Tetromino {
    /// Two tetrominoes that stand for one piece are one tetromino.
    pub proof fn lemma_view_injective(self, other: Tetromino)
        requires
            self@ == other@,
        ensures
            self == other,
    {
        self.geometry.lemma_view_injective(other.geometry);
    }

    /// The piece of a variant as the catalog makes it.
    pub fn new(variant: TetrominoVariant) -> (piece: Tetromino)
        ensures
            piece@ == variant.spawn(),
    {
        let (shape, center, color): (Shape, Dimension, Color) = match variant {
            TetrominoVariant::I => ([(0, 1), (1, 1), (2, 1), (3, 1)], (1, 1), Color::Cyan),
            TetrominoVariant::J => ([(1, 1), (1, 0), (2, 0), (3, 0)], (2, 0), Color::Blue),
            TetrominoVariant::L => ([(1, 0), (2, 0), (3, 0), (3, 1)], (2, 0), Color::Orange),
            TetrominoVariant::O => ([(1, 0), (1, 1), (2, 0), (2, 1)], (1, 0), Color::Yellow),
            TetrominoVariant::S => ([(1, 0), (2, 0), (2, 1), (3, 1)], (2, 0), Color::Green),
            TetrominoVariant::T => ([(1, 0), (2, 0), (2, 1), (3, 0)], (2, 0), Color::Magenta),
            TetrominoVariant::Z => ([(1, 1), (2, 1), (2, 0), (3, 0)], (2, 0), Color::Red),
        };
        let piece = Tetromino {
            geometry: Geometry { shape, center, direction: CardinalDirection::North },
            color,
            variant,
        };
        assert(piece@.pose.cells =~= variant.spawn_cells());
        piece
    }

    /// Moves the piece one column over unless the board blocks it; says whether it moved.
    pub fn shift(&mut self, direction: ShiftDirection, board: &Board) -> (moved: bool)
        requires
            old(self)@.pose.margin(1),
        ensures
            moved == !old(self)@.blocked(board@, direction),
            final(self)@ == old(self)@.shifted(board@, direction),
    {
        let (dx, can_shift): (i32, bool) = match direction {
            ShiftDirection::Left => (-1, !board.hitting_left(self)),
            ShiftDirection::Right => (1, !board.hitting_right(self)),
        };
        if can_shift {
            self.geometry.transform(dx, 0);
        }
        can_shift
    }

    /// Turns the piece a quarter turn, trying the five kick offsets of its
    /// variant in order; says whether one of them fit. The piece stays as it
    /// was if none did.
    pub fn rotate(&mut self, direction: RotationDirection, board: &Board) -> (turned: bool)
        requires
            old(self)@.pose.rotated(direction).margin(2),
        ensures
            turned == (old(self)@.first_free_kick(board@, direction, 0) < 5),
            final(self)@ == old(self)@.turned(board@, direction),
    {
        let mut rotated = *self;
        rotated.geometry.rotate(direction);
        let from_row = self.variant.kick_table_row(self.geometry.direction);
        let to_row = self.variant.kick_table_row(rotated.geometry.direction);
        let mut i: usize = 0;
        while i < 5
            invariant
                i <= 5,
                *self == *old(self),
                rotated@ == self@.posed(self@.pose.rotated(direction)),
                rotated@.pose.margin(2),
                forall|k: int|
                    0 <= k < 5 ==> (#[trigger] from_row@[k]).0 == self.variant.kick_row(
                        self.geometry.direction,
                    )[k].0 && from_row@[k].1 == self.variant.kick_row(
                        self.geometry.direction,
                    )[k].1,
                forall|k: int|
                    0 <= k < 5 ==> (#[trigger] to_row@[k]).0 == self.variant.kick_row(
                        rotated.geometry.direction,
                    )[k].0 && to_row@[k].1 == self.variant.kick_row(
                        rotated.geometry.direction,
                    )[k].1,
                self@.first_free_kick(board@, direction, 0) == self@.first_free_kick(
                    board@,
                    direction,
                    i as int,
                ),
            decreases 5 - i,
        {
            let offset_x: i32 = to_row[i].0 - from_row[i].0;
            let offset_y: i32 = to_row[i].1 - from_row[i].1;
            let mut candidate = rotated;
            candidate.geometry.transform(-offset_x, -offset_y);
            assert(candidate@ == self@.kicked(direction, i as int));
            if !board.overlapping(&candidate) {
                *self = candidate;
                return true;
            }
            i += 1;
        }
        false
    }

    /// Moves a fresh piece to its start position: three columns over and
    /// eighteen rows up, and one row more for each of the rows 17, 18 and 19
    /// that holds a filled cell.
    pub fn start_pos_transform(&mut self, board: &Board)
        requires
            old(self)@.pose.representable(),
            old(self)@.pose.translated(3, 18 + Piece::spawn_lift(board@)).representable(),
        ensures
            final(self)@ == old(self)@.started(board@),
    {
        let ghost start = old(self)@.pose;
        let mut lift: i32 = 0;
        if board.row_in_use(17) {
            lift = lift + 1;
        }
        if board.row_in_use(18) {
            lift = lift + 1;
        }
        if board.row_in_use(19) {
            lift = lift + 1;
        }
        assert(lift == Piece::spawn_lift(board@));
        self.geometry.transform(3, 18 + lift);
    }

    /// Whether the piece, drawn two columns wide from column `x_offset` and row
    /// `y_offset` on, covers the screen position `(x, y)`.
    pub fn at_pos(&self, x: u16, y: u16, x_offset: u16, y_offset: u16) -> (covered: bool)
        ensures
            covered == self@.covers(x as int, y as int, x_offset as int, y_offset as int),
    {
        self.covers(x as i32, y as i32, x_offset as i32, y_offset as i32)
    }

    /// Whether the piece, drawn two columns wide from column `x_offset` and row
    /// `y_offset` on, covers the screen position `(x, y)`, where the offsets
    /// may lie left of the screen or above it.
    pub fn covers(&self, x: i32, y: i32, x_offset: i32, y_offset: i32) -> (covered: bool)
        ensures
            covered == self@.covers(x as int, y as int, x_offset as int, y_offset as int),
    {
        let mut i: usize = 0;
        while i < 4
            invariant
                i <= 4,
                forall|j: int|
                    0 <= j < i ==> !(y_offset + (#[trigger] self@.pose.cells[j]).1 == y && (x_offset
                        + (self@.pose.cells[j].0 + 1) * 2 == x || x_offset + (self@.pose.cells[j].0
                        + 1) * 2 - 1 == x)),
            decreases 4 - i,
        {
            let cell = self.geometry.shape[i];
            assert(self@.pose.cells[i as int] == (cell.0 as int, cell.1 as int));
            let t_x: i64 = x_offset as i64 + (cell.0 as i64 + 1) * 2;
            let t_y: i64 = y_offset as i64 + cell.1 as i64;
            if t_y == y as i64 && (t_x == x as i64 || t_x - 1 == x as i64) {
                return true;
            }
            i += 1;
        }
        false
    }
}

} // verus!
