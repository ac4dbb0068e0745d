//! A game: the local player and, where there is one, the opponent.
use crate::bytes::{
    le_bytes_u32, le_bytes_u64, le_value_u32, le_value_u64, push_u32, push_u64, read_u32, read_u64,
};
use crate::conn::{ConnKind, TcpPacketMode};
use crate::player::{Player, PlayerKind, PlayerModel};
use crate::Mode;
use vstd::prelude::*;

verus! {

/// The local player and the opponent.
pub struct Game {
    pub player: Player,
    pub opponent: Option<Player>,
}

/// What the two sides of a session agree on before it starts.
#[derive(Clone, Debug, PartialEq, Eq)]
pub struct GameInfo {
    pub start_level: u32,
    pub seeds: Vec<u64>,
}

/// The bytes of `seeds`, eight for each, from seed `from` on.
pub open spec fn spec_seed_bytes(seeds: Seq<u64>, from: int) -> Seq<u8>
    decreases seeds.len() - from,
{
    if from < 0 || from >= seeds.len() {
        Seq::empty()
    } else {
        le_bytes_u64(seeds[from] as int) + spec_seed_bytes(seeds, from + 1)
    }
}

/// The bytes of the seeds up to `upto`, followed by those from `upto` on, are
/// the bytes of all from `from` on.
pub proof fn lemma_seed_bytes_split(seeds: Seq<u64>, from: int, upto: int)
    requires
        0 <= from <= upto <= seeds.len(),
    ensures
        spec_seed_bytes(seeds, from) == spec_seed_bytes(seeds.take(upto), from) + spec_seed_bytes(
            seeds,
            upto,
        ),
    decreases upto - from,
{
    if from < upto {
        lemma_seed_bytes_split(seeds, from + 1, upto);
        assert(seeds.take(upto)[from] == seeds[from]);
        assert(spec_seed_bytes(seeds, from) =~= spec_seed_bytes(seeds.take(upto), from)
            + spec_seed_bytes(seeds, upto));
    } else {
        assert(spec_seed_bytes(seeds.take(upto), from) =~= Seq::<u8>::empty());
        assert(spec_seed_bytes(seeds, from) =~= spec_seed_bytes(seeds.take(upto), from)
            + spec_seed_bytes(seeds, upto));
    }
}

impl GameInfo {
    /// The bytes that carry this: the start level, then the seeds.
    pub open spec fn spec_to_bytes(&self) -> Seq<u8> {
        le_bytes_u32(self.start_level as int) + spec_seed_bytes(self.seeds@, 0)
    }

    /// The start level that the payload of a frame carries.
    pub open spec fn spec_start_level(carried: Seq<u8>) -> int {
        le_value_u32(carried.subrange(0, 4))
    }

    /// The two seeds that the payload of a frame carries.
    pub open spec fn spec_seeds(carried: Seq<u8>) -> Seq<u64> {
        seq![
            le_value_u64(carried.subrange(4, 12)) as u64,
            le_value_u64(carried.subrange(12, 20)) as u64,
        ]
    }

    /// The bytes that carry this: the start level, then the seeds.
    pub fn to_bytes(&self) -> (bytes: Vec<u8>)
        ensures
            bytes@ == self.spec_to_bytes(),
            bytes@.len() == 4 + 8 * self.seeds@.len(),
    {
        let mut buf: Vec<u8> = Vec::new();
        push_u32(&mut buf, self.start_level);
        assert(buf@ =~= le_bytes_u32(self.start_level as int));
        let mut i: usize = 0;
        while i < self.seeds.len()
            invariant
                i <= self.seeds@.len(),
                buf@ == le_bytes_u32(self.start_level as int) + spec_seed_bytes(
                    self.seeds@.take(i as int),
                    0,
                ),
                buf@.len() == 4 + 8 * i,
            decreases self.seeds@.len() - i,
        {
            push_u64(&mut buf, self.seeds[i]);
            proof {
                let longer = self.seeds@.take(i + 1);
                lemma_seed_bytes_split(longer, 0, i as int);
                assert(longer.take(i as int) =~= self.seeds@.take(i as int));
                assert(spec_seed_bytes(longer, i + 1) =~= Seq::<u8>::empty());
                assert(spec_seed_bytes(longer, i as int) =~= le_bytes_u64(self.seeds@[i as int] as int));
                assert(buf@ =~= le_bytes_u32(self.start_level as int) + spec_seed_bytes(longer, 0));
            }
            i += 1;
        }
        assert(self.seeds@.take(self.seeds@.len() as int) =~= self.seeds@);
        buf
    }

    /// What the payload of a frame carries: the start level and two seeds.
    pub fn from_bytes(buf: [u8; 63]) -> (game_info: GameInfo)
        ensures
            game_info.start_level == GameInfo::spec_start_level(buf@),
            game_info.seeds@ == GameInfo::spec_seeds(buf@),
    {
        let bytes: &[u8] = &buf;
        let start_level = read_u32(bytes, 0);
        let p1_seed = read_u64(bytes, 4);
        let p2_seed = read_u64(bytes, 12);
        let seeds = vec![p1_seed, p2_seed];
        assert(seeds@ =~= GameInfo::spec_seeds(buf@));
        GameInfo { start_level, seeds }
    }

    /// What a client learns from a frame while it waits for the seeds: the
    /// start level and the seeds where the frame brings them, and nothing
    /// from a frame of another kind.
    pub fn from_frame(mode: TcpPacketMode, carried: [u8; 63]) -> (game_info: Option<GameInfo>)
        ensures
            mode != TcpPacketMode::Info ==> game_info is None,
            mode == TcpPacketMode::Info ==> game_info is Some && game_info->0.start_level
                == GameInfo::spec_start_level(carried@) && game_info->0.seeds@
                == GameInfo::spec_seeds(carried@),
    {
        match mode {
            TcpPacketMode::Info => Some(GameInfo::from_bytes(carried)),
            _ => None,
        }
    }

    /// Reading back the bytes of a start level and two seeds gives them back.
    pub proof fn lemma_round_trip(self, carried: Seq<u8>)
        requires
            self.seeds@.len() == 2,
            carried.len() >= 20,
            carried.subrange(0, 20) == self.spec_to_bytes(),
        ensures
            GameInfo::spec_start_level(carried) == self.start_level,
            GameInfo::spec_seeds(carried) == self.seeds@,
    {
        let bytes = self.spec_to_bytes();
        let first = le_bytes_u64(self.seeds@[0] as int);
        let second = le_bytes_u64(self.seeds@[1] as int);
        crate::bytes::lemma_u32_round_trip(self.start_level as int);
        crate::bytes::lemma_u64_round_trip(self.seeds@[0] as int);
        crate::bytes::lemma_u64_round_trip(self.seeds@[1] as int);
        assert(spec_seed_bytes(self.seeds@, 2) =~= Seq::<u8>::empty());
        assert(spec_seed_bytes(self.seeds@, 1) =~= second);
        assert(spec_seed_bytes(self.seeds@, 0) =~= first + second);
        assert(carried.subrange(0, 4) =~= bytes.subrange(0, 4));
        assert(carried.subrange(4, 12) =~= bytes.subrange(4, 12));
        assert(carried.subrange(12, 20) =~= bytes.subrange(12, 20));
        assert(bytes.subrange(0, 4) =~= le_bytes_u32(self.start_level as int));
        assert(bytes.subrange(4, 12) =~= first);
        assert(bytes.subrange(12, 20) =~= second);
        assert(GameInfo::spec_seeds(carried) =~= self.seeds@);
    }
}

/// What a `Game` stands for.
pub struct GameModel {
    pub player: PlayerModel,
    pub opponent: Option<PlayerModel>,
}

impl View for Game {
    type V = GameModel;

    open spec fn view(&self) -> GameModel {
        GameModel {
            player: self.player@,
            opponent: match self.opponent {
                Some(opponent) => Some(opponent@),
                None => None,
            },
        }
    }
}

impl GameModel {
    /// Both players are in order.
    pub open spec fn wf(self) -> bool {
        &&& self.player.wf()
        &&& self.opponent matches Some(opponent) ==> opponent.wf()
    }

    /// Whether the game is over: one of the players has lost.
    pub open spec fn over(self) -> bool {
        self.player.lost || (self.opponent matches Some(opponent) && opponent.lost)
    }

    /// The position among the seeds of the seed of this side's opponent: 1
    /// for every side but a client, whose own seed is the second.
    pub open spec fn seat(conn_kind: ConnKind) -> int {
        if conn_kind.spec_is_host() {
            1
        } else {
            0
        }
    }

    /// Whether the seeds suffice to start a game of `mode`.
    pub open spec fn can_start(mode: Mode, conn_kind: ConnKind, seeds: Seq<u64>) -> bool {
        &&& 1 - GameModel::seat(conn_kind) < seeds.len()
        &&& mode == Mode::Multiplayer ==> GameModel::seat(conn_kind) < seeds.len()
    }

    /// The game of `mode` that starts from the agreed level and seeds: the
    /// local player with this side's seed, a remote opponent with the other
    /// seed in a multiplayer game, a computer with `rival_seed` against a
    /// computer, and none in a singleplayer game.
    pub open spec fn spec_start(
        mode: Mode,
        conn_kind: ConnKind,
        start_level: u32,
        seeds: Seq<u64>,
        rival_seed: u64,
    ) -> GameModel {
        let seat = GameModel::seat(conn_kind);
        GameModel {
            player: PlayerModel::spec_new(
                if mode == Mode::ComputerVsComputer {
                    PlayerKind::Computer
                } else {
                    PlayerKind::Local
                },
                start_level,
                seeds[1 - seat],
            ).spec_update_ghost(),
            opponent: match mode {
                Mode::Singleplayer => None,
                Mode::Multiplayer => Some(
                    PlayerModel::spec_new(
                        PlayerKind::Remote,
                        start_level,
                        seeds[seat],
                    ).spec_update_ghost(),
                ),
                _ => Some(
                    PlayerModel::spec_new(
                        PlayerKind::Computer,
                        start_level,
                        rival_seed,
                    ).spec_update_ghost(),
                ),
            },
        }
    }
}

impl Game {
    /// Starts a game of `mode` from what the two sides agreed on. A computer
    /// opponent is dealt its pieces by `rival_seed`.
    pub fn start(mode: Mode, conn_kind: ConnKind, game_info: &GameInfo, rival_seed: u64) -> (game:
        Game)
        requires
            GameModel::can_start(mode, conn_kind, game_info.seeds@),
        ensures
            game@ == GameModel::spec_start(
                mode,
                conn_kind,
                game_info.start_level,
                game_info.seeds@,
                rival_seed,
            ),
            game@.wf(),
    {
        let seat: usize = if conn_kind.is_host() {
            1
        } else {
            0
        };
        let start_level = game_info.start_level;
        let kind = match mode {
            Mode::ComputerVsComputer => PlayerKind::Computer,
            _ => PlayerKind::Local,
        };
        let mut player = Player::new(kind, start_level, game_info.seeds[1 - seat]);
        player.update_ghost();
        let opponent = match mode {
            Mode::Singleplayer => None,
            Mode::Multiplayer => {
                let mut opponent = Player::new(
                    PlayerKind::Remote,
                    start_level,
                    game_info.seeds[seat],
                );
                opponent.update_ghost();
                Some(opponent)
            },
            _ => {
                let mut opponent = Player::new(PlayerKind::Computer, start_level, rival_seed);
                opponent.update_ghost();
                Some(opponent)
            },
        };
        Game { player, opponent }
    }

    /// Whether both players are in order.
    pub fn is_wf(&self) -> (ok: bool)
        ensures
            ok == self@.wf(),
    {
        self.player.is_wf() && match &self.opponent {
            Some(opponent) => opponent.is_wf(),
            None => true,
        }
    }

    /// Whether the game is over.
    pub fn over(&self) -> (over: bool)
        ensures
            over == self@.over(),
    {
        self.player.lost || match &self.opponent {
            Some(opponent) => opponent.lost,
            None => false,
        }
    }
}

} // verus!
