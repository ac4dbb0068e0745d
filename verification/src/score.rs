//! How a clear is classified, and what it is worth.
use crate::board::spec_blank;
use crate::player::Player;
use vstd::prelude::*;

verus! {

/// How a placement that completed rows is classified.
#[derive(Clone, Copy, Debug, PartialEq, Eq, Structural)]
pub enum ClearKind {
    PerfectClear,
    Single,
    Double,
    Triple,
    Tetris,
    TSpinSingle,
    TSpinDouble,
    TSpinTriple,
}

/// Level, lines, points and the running combo of a player.
#[derive(Clone, Copy, Debug, PartialEq, Eq, Structural)]
pub struct Score {
    pub start_level: u32,
    pub level: u32,
    pub lines: u32,
    pub score: u32,
    pub combo: i32,
}

impl ClearKind {
    /// Whether a clear of `num_cleared` rows with these two marks has a kind.
    pub open spec fn classified(num_cleared: int, perfect_clear: bool, is_t_spin: bool) -> bool {
        1 <= num_cleared <= 4 && (perfect_clear || !is_t_spin || num_cleared <= 3)
    }

    /// The kind of a clear of `num_cleared` rows: a perfect clear where it left
    /// the board blank, else by the number of rows and whether it was a T-spin.
    pub open spec fn spec_classify(num_cleared: int, perfect_clear: bool, is_t_spin: bool)
        -> ClearKind {
        if perfect_clear {
            ClearKind::PerfectClear
        } else if is_t_spin {
            if num_cleared == 1 {
                ClearKind::TSpinSingle
            } else if num_cleared == 2 {
                ClearKind::TSpinDouble
            } else {
                ClearKind::TSpinTriple
            }
        } else {
            if num_cleared == 1 {
                ClearKind::Single
            } else if num_cleared == 2 {
                ClearKind::Double
            } else if num_cleared == 3 {
                ClearKind::Triple
            } else {
                ClearKind::Tetris
            }
        }
    }

    /// The number of rows a clear of this kind is credited with.
    pub open spec fn spec_line_clear_count(self) -> nat {
        match self {
            ClearKind::Single | ClearKind::TSpinSingle => 1,
            ClearKind::Double | ClearKind::TSpinDouble => 2,
            ClearKind::Triple | ClearKind::TSpinTriple => 3,
            ClearKind::Tetris => 4,
            ClearKind::PerfectClear => 4,
        }
    }

    /// The number of rows of garbage a clear of this kind sends to the opponent.
    pub open spec fn spec_garbage_line_count(self) -> nat {
        match self {
            ClearKind::Single => 0,
            ClearKind::Double => 1,
            ClearKind::Triple => 2,
            ClearKind::Tetris => 4,
            ClearKind::TSpinSingle => 2,
            ClearKind::TSpinDouble => 4,
            ClearKind::TSpinTriple => 6,
            ClearKind::PerfectClear => 10,
        }
    }

    /// The points a clear of this kind is worth at level 1, before the combo.
    pub open spec fn spec_base_points(self) -> nat {
        match self {
            ClearKind::PerfectClear => 2000,
            ClearKind::Single => 100,
            ClearKind::Double => 300,
            ClearKind::Triple => 500,
            ClearKind::Tetris => 800,
            ClearKind::TSpinSingle => 800,
            ClearKind::TSpinDouble => 1200,
            ClearKind::TSpinTriple => 1600,
        }
    }

    /// The kind of a clear of `num_cleared` rows. A clear without a kind, such
    /// as one of no rows, is a fault of the caller.
    pub fn classify(num_cleared: usize, perfect_clear: bool, is_t_spin: bool) -> (kind: ClearKind)
        requires
            ClearKind::classified(num_cleared as int, perfect_clear, is_t_spin),
        ensures
            kind == ClearKind::spec_classify(num_cleared as int, perfect_clear, is_t_spin),
    {
        if perfect_clear {
            ClearKind::PerfectClear
        } else if is_t_spin {
            match num_cleared {
                1 => ClearKind::TSpinSingle,
                2 => ClearKind::TSpinDouble,
                _ => ClearKind::TSpinTriple,
            }
        } else {
            match num_cleared {
                1 => ClearKind::Single,
                2 => ClearKind::Double,
                3 => ClearKind::Triple,
                _ => ClearKind::Tetris,
            }
        }
    }

    /// The kind of the clear that a player has just made: by the number of
    /// rows that were marked, whether the board is blank now that they are
    /// gone, and whether the placement that marked them was a T-spin.
    pub fn from_state(player: &Player) -> (kind: ClearKind)
        requires
            ClearKind::classified(
                player.clearing@.len() as int,
                spec_blank(player.board@),
                player.t_spin,
            ),
        ensures
            kind == ClearKind::spec_classify(
                player.clearing@.len() as int,
                spec_blank(player.board@),
                player.t_spin,
            ),
    {
        let num_cleared = player.clearing.len();
        let perfect_clear = player.board.is_blank();
        ClearKind::classify(num_cleared, perfect_clear, player.t_spin)
    }

    /// The number of rows a clear of this kind is credited with.
    pub fn line_clear_count(self) -> (count: usize)
        ensures
            count == self.spec_line_clear_count(),
    {
        match self {
            ClearKind::Single | ClearKind::TSpinSingle => 1,
            ClearKind::Double | ClearKind::TSpinDouble => 2,
            ClearKind::Triple | ClearKind::TSpinTriple => 3,
            ClearKind::Tetris => 4,
            ClearKind::PerfectClear => 4,
        }
    }

    /// The number of rows of garbage a clear of this kind sends to the opponent.
    pub fn garbage_line_count(self) -> (count: usize)
        ensures
            count == self.spec_garbage_line_count(),
    {
        match self {
            ClearKind::Single => 0,
            ClearKind::Double => 1,
            ClearKind::Triple => 2,
            ClearKind::Tetris => 4,
            ClearKind::TSpinSingle => 2,
            ClearKind::TSpinDouble => 4,
            ClearKind::TSpinTriple => 6,
            ClearKind::PerfectClear => 10,
        }
    }

    /// The points a clear of this kind is worth at level 1, before the combo.
    pub fn base_points(self) -> (points: u32)
        ensures
            points == self.spec_base_points(),
    {
        match self {
            ClearKind::PerfectClear => 2000,
            ClearKind::Single => 100,
            ClearKind::Double => 300,
            ClearKind::Triple => 500,
            ClearKind::Tetris => 800,
            ClearKind::TSpinSingle => 800,
            ClearKind::TSpinDouble => 1200,
            ClearKind::TSpinTriple => 1600,
        }
    }
}

impl Score {
    /// The level follows from the lines, and the combo is a count from -1 up.
    pub open spec fn wf(self) -> bool {
        &&& self.level == self.start_level + self.lines / 10
        &&& self.combo >= -1
    }

    /// The lines after a clear of `kind`.
    pub open spec fn lines_after(self, kind: ClearKind) -> int {
        self.lines + kind.spec_line_clear_count()
    }

    /// The level after a clear of `kind`: the start level and one more for every ten lines.
    pub open spec fn level_after(self, kind: ClearKind) -> int {
        self.start_level + self.lines_after(kind) / 10
    }

    /// The points after a clear of `kind`: those of the kind at the new level,
    /// and 50 at the new level for each clear before it in the combo.
    pub open spec fn points_after(self, kind: ClearKind) -> int {
        self.score + self.level_after(kind) * kind.spec_base_points() + 50 * (self.combo + 1)
            * self.level_after(kind)
    }

    /// Whether a clear of `kind` can be scored: every number stays within its type.
    pub open spec fn can_score(self, kind: ClearKind) -> bool {
        &&& self.lines_after(kind) <= u32::MAX
        &&& self.level_after(kind) <= u32::MAX
        &&& self.points_after(kind) <= u32::MAX
        &&& self.combo < i32::MAX
    }

    /// This score after a clear of `kind`.
    pub open spec fn cleared(self, kind: ClearKind) -> Score {
        Score {
            start_level: self.start_level,
            level: self.level_after(kind) as u32,
            lines: self.lines_after(kind) as u32,
            score: self.points_after(kind) as u32,
            combo: (self.combo + 1) as i32,
        }
    }

    /// Whether the level follows from the lines, and the combo is a count
    /// from -1 up.
    pub fn is_wf(&self) -> (ok: bool)
        ensures
            ok == self.wf(),
    {
        self.level as u64 == self.start_level as u64 + (self.lines / 10) as u64 && self.combo >= -1
    }

    /// Whether a clear of `kind` can be scored.
    pub fn fits(&self, kind: ClearKind) -> (fits: bool)
        requires
            self.wf(),
        ensures
            fits == self.can_score(kind),
    {
        let lines: u128 = self.lines as u128 + kind.line_clear_count() as u128;
        let level: u128 = self.start_level as u128 + lines / 10;
        let base: u128 = kind.base_points() as u128;
        let combo: u128 = (self.combo as i64 + 1) as u128;
        if lines > u32::MAX as u128 || level > u32::MAX as u128 || self.combo == i32::MAX {
            return false;
        }
        assert(level * base <= 0xffff_ffff * 2000) by (nonlinear_arith)
            requires
                0 <= level <= 0xffff_ffff,
                0 <= base <= 2000,
        ;
        assert(50 * combo * level <= 50 * 0x7fff_ffff * 0xffff_ffff) by (nonlinear_arith)
            requires
                0 <= level <= 0xffff_ffff,
                0 <= combo <= 0x7fff_ffff,
        ;
        self.score as u128 + level * base + 50 * combo * level <= u32::MAX as u128
    }

    /// The score of a player who starts at `start_level`.
    pub fn new(start_level: u32) -> (score: Score)
        ensures
            score == (Score { start_level, level: start_level, lines: 0, score: 0, combo: -1i32 }),
            score.wf(),
    {
        Score { start_level, level: start_level, lines: 0, score: 0, combo: -1i32 }
    }

    /// Scores a clear. Neither the lines nor the level go down by it.
    pub fn score_clear(&mut self, clear_type: ClearKind)
        requires
            old(self).wf(),
            old(self).can_score(clear_type),
        ensures
            *final(self) == old(self).cleared(clear_type),
            final(self).wf(),
            final(self).lines >= old(self).lines,
            final(self).level >= old(self).level,
    {
        let line_clear_count: u32 = clear_type.line_clear_count() as u32;
        self.lines = self.lines + line_clear_count;
        self.level = self.start_level + self.lines / 10;
        self.combo = self.combo + 1;
        let level: u128 = self.level as u128;
        let base: u128 = clear_type.base_points() as u128;
        let combo: u128 = self.combo as u128;
        assert(level * base <= 0xffff_ffff * 2000) by (nonlinear_arith)
            requires
                0 <= level <= 0xffff_ffff,
                0 <= base <= 2000,
        ;
        assert(50 * combo * level <= 50 * 0x7fff_ffff * 0xffff_ffff) by (nonlinear_arith)
            requires
                0 <= level <= 0xffff_ffff,
                0 <= combo <= 0x7fff_ffff,
        ;
        let points: u128 = self.score as u128 + level * base + 50 * combo * level;
        self.score = points as u32;
    }
}

} // verus!
