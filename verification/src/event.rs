//! What a key press asks of the local player.
use crate::player::{spec_drop_distance, landing, Effects, Outcome, Player, PlayerModel};
use crate::tetromino::{RotationDirection, ShiftDirection};
use vstd::prelude::*;

verus! {

/// What a key can stand for.
#[derive(Clone, Copy, Debug, PartialEq, Eq, Structural)]
pub enum InputAction {
    MoveRight,
    MoveLeft,
    RotateRight,
    RotateLeft,
    SoftDrop,
    HardDrop,
    Hold,
    Quit,
}

impl PlayerModel {
    /// Whether the points that `action` may bring can be counted.
    pub open spec fn can_take(self, action: InputAction) -> bool {
        match action {
            InputAction::SoftDrop => !self.idle() && !self.resting() ==> self.score.score
                < u32::MAX,
            InputAction::HardDrop => !self.idle() ==> self.score.score + 2 * spec_drop_distance(
                self.board,
                self.falling.pose,
            ) <= u32::MAX,
            _ => true,
        }
    }

    /// This player after `action`, and what is left to do. To quit is to lose.
    pub open spec fn spec_input(self, action: InputAction) -> (PlayerModel, Outcome) {
        match action {
            InputAction::MoveRight => self.spec_shift(ShiftDirection::Right),
            InputAction::MoveLeft => self.spec_shift(ShiftDirection::Left),
            InputAction::RotateRight => self.spec_rotate(RotationDirection::Clockwise),
            InputAction::RotateLeft => self.spec_rotate(RotationDirection::CounterClockwise),
            InputAction::SoftDrop => self.spec_soft_drop(),
            InputAction::HardDrop => self.spec_hard_drop(),
            InputAction::Hold => self.spec_hold(),
            InputAction::Quit => (PlayerModel { lost: true, ..self }, Outcome::none()),
        }
    }
}

impl Player {
    /// Whether the points that `action` may bring can be counted.
    pub fn can_take(&self, action: InputAction) -> (fits: bool)
        requires
            self@.wf(),
        ensures
            fits == self@.can_take(action),
    {
        match action {
            InputAction::SoftDrop => self.idle() || self.board.hitting_bottom(&self.falling)
                || self.score.score < u32::MAX,
            InputAction::HardDrop => {
                if self.idle() {
                    true
                } else {
                    let (_landed, rows) = landing(&self.board, self.falling);
                    self.score.score as u64 + 2 * rows as u64 <= u32::MAX as u64
                }
            },
            _ => true,
        }
    }
}

/// Lets the local player do what a key press asks for.
pub fn handle_game_event(player: &mut Player, action: InputAction) -> (effects: Effects)
    requires
        old(player)@.wf(),
        old(player)@.can_take(action),
    ensures
        final(player)@ == old(player)@.spec_input(action).0,
        effects@ == old(player)@.spec_input(action).1,
        final(player)@.wf(),
{
    match action {
        InputAction::MoveRight => player.shift(ShiftDirection::Right),
        InputAction::MoveLeft => player.shift(ShiftDirection::Left),
        InputAction::RotateRight => player.rotate(RotationDirection::Clockwise),
        InputAction::RotateLeft => player.rotate(RotationDirection::CounterClockwise),
        InputAction::SoftDrop => player.soft_drop(),
        InputAction::HardDrop => player.hard_drop(),
        InputAction::Hold => player.hold(),
        InputAction::Quit => {
            player.lost = true;
            Effects::none()
        },
    }
}

/// A key of the keyboard that can be bound to an action.
#[derive(Clone, Copy, Debug, PartialEq, Eq, Structural)]
pub enum Key {
    /// The key of an ASCII character.
    Char(u8),
    Up,
    Down,
    Left,
    Right,
    Esc,
}

/// The capital of an ASCII letter, and any other byte as it is.
pub open spec fn spec_upper(byte: u8) -> u8 {
    if ('a' as u8) <= byte <= ('z' as u8) {
        (byte - 32) as u8
    } else {
        byte
    }
}

/// The small letter of an ASCII capital, and any other byte as it is.
pub open spec fn spec_lower(byte: u8) -> u8 {
    if ('A' as u8) <= byte <= ('Z' as u8) {
        (byte + 32) as u8
    } else {
        byte
    }
}

/// The keys that the name `name` of a configuration stands for: a single
/// ASCII character for its key, as a capital and as a small letter, and `up`,
/// `down`, `left`, `right`, `space` and `escape` for the keys so called. No
/// other name stands for a key.
pub open spec fn spec_keys(name: Seq<u8>) -> Option<Seq<Key>> {
    if name.len() == 1 && name[0] < 128 {
        Some(seq![Key::Char(spec_upper(name[0])), Key::Char(spec_lower(name[0]))])
    } else if name == seq!['u' as u8, 'p' as u8] {
        Some(seq![Key::Up])
    } else if name == seq!['d' as u8, 'o' as u8, 'w' as u8, 'n' as u8] {
        Some(seq![Key::Down])
    } else if name == seq!['l' as u8, 'e' as u8, 'f' as u8, 't' as u8] {
        Some(seq![Key::Left])
    } else if name == seq!['r' as u8, 'i' as u8, 'g' as u8, 'h' as u8, 't' as u8] {
        Some(seq![Key::Right])
    } else if name == seq!['s' as u8, 'p' as u8, 'a' as u8, 'c' as u8, 'e' as u8] {
        Some(seq![Key::Char(' ' as u8)])
    } else if name == seq!['e' as u8, 's' as u8, 'c' as u8, 'a' as u8, 'p' as u8, 'e' as u8] {
        Some(seq![Key::Esc])
    } else {
        None
    }
}

/// Whether two runs of bytes hold the same bytes.
fn same_bytes(a: &[u8], b: &[u8]) -> (same: bool)
    ensures
        same == (a@ == b@),
{
    if a.len() != b.len() {
        return false;
    }
    let mut i: usize = 0;
    while i < a.len()
        invariant
            i <= a@.len(),
            a@.len() == b@.len(),
            forall|k: int| 0 <= k < i ==> a@[k] == b@[k],
        decreases a@.len() - i,
    {
        if a[i] != b[i] {
            return false;
        }
        i += 1;
    }
    assert(a@ =~= b@);
    true
}

/// The keys that the name `key` stands for, each bound to `action`; nothing
/// for a name that stands for no key.
pub fn key_map(key: &[u8], action: InputAction) -> (bound: Option<Vec<(Key, InputAction)>>)
    ensures
        match bound {
            Some(bound) => spec_keys(key@) == Some(Seq::new(bound@.len(), |i: int| bound@[i].0))
                && forall|i: int| 0 <= i < bound@.len() ==> (#[trigger] bound@[i]).1 == action,
            None => spec_keys(key@) is None,
        },
{
    let mut bound: Vec<(Key, InputAction)> = Vec::new();
    if key.len() == 1 && key[0] < 128 {
        let byte = key[0];
        let upper: u8 = if ('a' as u8) <= byte && byte <= ('z' as u8) {
            byte - 32
        } else {
            byte
        };
        let lower: u8 = if ('A' as u8) <= byte && byte <= ('Z' as u8) {
            byte + 32
        } else {
            byte
        };
        bound.push((Key::Char(upper), action));
        bound.push((Key::Char(lower), action));
    } else if same_bytes(key, &['u' as u8, 'p' as u8]) {
        bound.push((Key::Up, action));
    } else if same_bytes(key, &['d' as u8, 'o' as u8, 'w' as u8, 'n' as u8]) {
        bound.push((Key::Down, action));
    } else if same_bytes(key, &['l' as u8, 'e' as u8, 'f' as u8, 't' as u8]) {
        bound.push((Key::Left, action));
    } else if same_bytes(key, &['r' as u8, 'i' as u8, 'g' as u8, 'h' as u8, 't' as u8]) {
        bound.push((Key::Right, action));
    } else if same_bytes(key, &['s' as u8, 'p' as u8, 'a' as u8, 'c' as u8, 'e' as u8]) {
        bound.push((Key::Char(' ' as u8), action));
    } else if same_bytes(key, &['e' as u8, 's' as u8, 'c' as u8, 'a' as u8, 'p' as u8, 'e' as u8]) {
        bound.push((Key::Esc, action));
    } else {
        return None;
    }
    proof {
        let keys = Seq::new(bound@.len(), |i: int| bound@[i].0);
        assert(spec_keys(key@) is Some);
        assert(keys =~= spec_keys(key@)->0);
    }
    Some(bound)
}

} // verus!
