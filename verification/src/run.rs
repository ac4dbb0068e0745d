//! A session: what each thing that can happen makes of the game, and what it
//! leaves for the surrounding loop to do.
use crate::agent::{spec_can_execute, spec_execute, spec_goal, spec_next_goal, Agent};
use crate::bytes::le_bytes_u128;
use crate::conn::{
    carried_geometry, hold_frame, parse_tcp, parse_udp, ping_frame, place_frame, pong_frame,
    pos_frame, round_trip, spec_carried_geometry, spec_frame, spec_parse_tcp, spec_parse_udp,
    spec_round_trip, ConnKind, TcpPacketMode, UdpPacketMode, WireError,
};
use crate::event::{handle_game_event, InputAction};
use crate::game::{Game, GameInfo, GameModel};
use crate::player::{Effects, Message, Notice, Outcome, Player, PlayerModel};
use crate::tetromino::{Geometry, Piece, Pose};
use crate::Mode;
use vstd::prelude::*;

verus! {

/// One of the two players of a game.
#[derive(Clone, Copy, Debug, PartialEq, Eq, Structural)]
pub enum Seat {
    Player,
    Opponent,
}

/// Why a step was not taken.
#[derive(Clone, Copy, Debug, PartialEq, Eq, Structural)]
pub enum Fault {
    /// A frame from the peer was refused.
    Wire(WireError),
    /// A number of the game has outgrown its type.
    Overflow,
}

/// The timers of one player that are to be set.
#[derive(Clone, Copy, Debug, PartialEq, Eq, Structural)]
pub struct Timers {
    /// The lock delay starts anew.
    pub lock_delay: bool,
    /// The line-clear delay starts.
    pub line_clear_delay: bool,
    /// The level may have changed: the drop interval is set by it anew.
    pub drop_interval: bool,
}

/// What a step leaves for the surrounding loop to do.
#[derive(Debug, PartialEq, Eq)]
pub struct Actions {
    /// The frame to send on the best-effort channel, if any.
    pub datagram: Option<Vec<u8>>,
    /// The frame to send on the reliable channel, if any.
    pub stream: Option<Vec<u8>>,
    pub player: Timers,
    pub opponent: Timers,
}

/// What `Actions` stand for.
pub struct Orders {
    pub datagram: Option<Seq<u8>>,
    pub stream: Option<Seq<u8>>,
    pub player: Timers,
    pub opponent: Timers,
}

impl View for Actions {
    type V = Orders;

    open spec fn view(&self) -> Orders {
        Orders {
            datagram: match self.datagram {
                Some(frame) => Some(frame@),
                None => None,
            },
            stream: match self.stream {
                Some(frame) => Some(frame@),
                None => None,
            },
            player: self.player,
            opponent: self.opponent,
        }
    }
}

impl Timers {
    /// No timer is to be set.
    pub open spec fn spec_none() -> Timers {
        Timers { lock_delay: false, line_clear_delay: false, drop_interval: false }
    }

    /// The timers that a step of a player asks for.
    pub open spec fn of(outcome: Outcome) -> Timers {
        Timers {
            lock_delay: outcome.lock_delay,
            line_clear_delay: outcome.line_clear_delay,
            drop_interval: false,
        }
    }

    /// No timer is to be set.
    pub fn none() -> (timers: Timers)
        ensures
            timers == Timers::spec_none(),
    {
        Timers { lock_delay: false, line_clear_delay: false, drop_interval: false }
    }
}

impl Orders {
    /// Nothing to do.
    pub open spec fn none() -> Orders {
        Orders {
            datagram: None,
            stream: None,
            player: Timers::spec_none(),
            opponent: Timers::spec_none(),
        }
    }

    /// What a step of the player in `seat` leaves to do: its timers, and in a
    /// game between two peers the frame that tells the peer of it.
    pub open spec fn of(peers: bool, seat: Seat, outcome: Outcome) -> Orders {
        Orders {
            datagram: match outcome.message {
                Some(Notice::Pos(pose)) if peers => Some(
                    spec_frame(UdpPacketMode::Pos.code(), pose.encoded()),
                ),
                _ => None,
            },
            stream: match outcome.message {
                Some(Notice::Place(pose)) if peers => Some(
                    spec_frame(TcpPacketMode::Place.code(), pose.encoded()),
                ),
                Some(Notice::Hold) if peers => Some(
                    spec_frame(TcpPacketMode::Hold.code(), Seq::empty()),
                ),
                _ => None,
            },
            player: if seat == Seat::Player {
                Timers::of(outcome)
            } else {
                Timers::spec_none()
            },
            opponent: if seat == Seat::Opponent {
                Timers::of(outcome)
            } else {
                Timers::spec_none()
            },
        }
    }
}

impl Actions {
    /// Nothing to do.
    pub fn none() -> (actions: Actions)
        ensures
            actions@ == Orders::none(),
    {
        Actions { datagram: None, stream: None, player: Timers::none(), opponent: Timers::none() }
    }

    /// What a step of the player in `seat` leaves to do.
    pub fn of(peers: bool, seat: Seat, effects: Effects) -> (actions: Actions)
        ensures
            actions@ == Orders::of(peers, seat, effects@),
    {
        let mut actions = Actions::none();
        if peers {
            match effects.message {
                Some(Message::Pos(geometry)) => {
                    actions.datagram = Some(pos_frame(&geometry));
                },
                Some(Message::Place(geometry)) => {
                    actions.stream = Some(place_frame(&geometry));
                },
                Some(Message::Hold) => {
                    actions.stream = Some(hold_frame());
                },
                None => {},
            }
        }
        let timers = Timers {
            lock_delay: effects.lock_delay,
            line_clear_delay: effects.line_clear_delay,
            drop_interval: false,
        };
        match seat {
            Seat::Player => {
                actions.player = timers;
            },
            Seat::Opponent => {
                actions.opponent = timers;
            },
        }
        actions
    }
}

/// What a `Session` stands for.
pub struct SessionModel {
    pub mode: Mode,
    pub game: GameModel,
    /// How long the last answer of the peer took, in milliseconds.
    pub rtt: u128,
    /// The play that the agent of the local player aims for.
    pub player_aim: Option<Piece>,
    /// The play that the agent of the opponent aims for.
    pub opponent_aim: Option<Piece>,
}

impl SessionModel {
    /// Both players are in order.
    pub open spec fn wf(self) -> bool {
        self.game.wf()
    }

    /// Whether two peers play.
    pub open spec fn peers(self) -> bool {
        self.mode == Mode::Multiplayer
    }

    /// This session with another local player.
    pub open spec fn with_player(self, player: PlayerModel) -> SessionModel {
        SessionModel { game: GameModel { player, ..self.game }, ..self }
    }

    /// This session with another opponent.
    pub open spec fn with_opponent(self, opponent: PlayerModel) -> SessionModel {
        SessionModel { game: GameModel { opponent: Some(opponent), ..self.game }, ..self }
    }

    /// The session that starts: the game as the mode, the part and the
    /// agreed level and seeds make it, and a first goal for each agent.
    pub open spec fn spec_start(
        mode: Mode,
        conn_kind: ConnKind,
        start_level: u32,
        seeds: Seq<u64>,
        rival_seed: u64,
    ) -> SessionModel {
        let game = GameModel::spec_start(mode, conn_kind, start_level, seeds, rival_seed);
        SessionModel {
            mode,
            game,
            rtt: 0,
            player_aim: if mode == Mode::ComputerVsComputer {
                spec_goal(game.player.board, game.player.falling.variant)
            } else {
                None
            },
            opponent_aim: match game.opponent {
                Some(opponent) if mode == Mode::PlayerVsComputer || mode
                    == Mode::ComputerVsComputer => spec_goal(
                    opponent.board,
                    opponent.falling.variant,
                ),
                _ => None,
            },
        }
    }

    /// What a key press makes of the session.
    pub open spec fn spec_input(self, action: InputAction) -> Result<(SessionModel, Orders), Fault> {
        if !self.game.player.can_take(action) {
            Err(Fault::Overflow)
        } else {
            let step = self.game.player.spec_input(action);
            Ok((self.with_player(step.0), Orders::of(self.peers(), Seat::Player, step.1)))
        }
    }

    /// What gravity makes of the session when it is due for the player in `seat`.
    pub open spec fn spec_drop(self, seat: Seat) -> (SessionModel, Orders) {
        match seat {
            Seat::Player => {
                let step = self.game.player.spec_drop();
                (self.with_player(step.0), Orders::of(self.peers(), Seat::Player, step.1))
            },
            Seat::Opponent => match self.game.opponent {
                Some(opponent) => {
                    let step = opponent.spec_drop();
                    (self.with_opponent(step.0), Orders::of(self.peers(), Seat::Opponent, step.1))
                },
                None => (self, Orders::none()),
            },
        }
    }

    /// What the end of the lock delay makes of the session: the falling piece
    /// of the local player is committed where it was seen to rest.
    pub open spec fn spec_lock_delay(self) -> (SessionModel, Orders) {
        if self.game.player.locking {
            let step = self.game.player.spec_place();
            (self.with_player(step.0), Orders::of(self.peers(), Seat::Player, step.1))
        } else {
            (self, Orders::none())
        }
    }

    /// Whether the clear that the player `clearing` is about to make can be
    /// scored, and the board of `other`, where there is one, can take its garbage.
    pub open spec fn can_settle(clearing: PlayerModel, other: Option<PlayerModel>) -> bool {
        &&& clearing.score.can_score(clearing.spec_clear_kind())
        &&& other matches Some(other) ==> other.board.len() + 10 <= usize::MAX
    }

    /// What the end of the line-clear delay makes of the session: the marked
    /// rows of the player in `seat` are removed and scored, and the other
    /// player takes the garbage of the clear.
    pub open spec fn spec_line_clear_delay(self, seat: Seat) -> Result<
        (SessionModel, Orders),
        Fault,
    > {
        match seat {
            Seat::Player => {
                if self.game.player.clearing.len() == 0 {
                    Ok((self, Orders::none()))
                } else if !SessionModel::can_settle(self.game.player, self.game.opponent) {
                    Err(Fault::Overflow)
                } else {
                    let kind = self.game.player.spec_clear_kind();
                    Ok(
                        (
                            SessionModel {
                                game: GameModel {
                                    player: self.game.player.spec_line_clear(),
                                    opponent: match self.game.opponent {
                                        Some(opponent) => Some(opponent.spec_add_garbage(kind)),
                                        None => None,
                                    },
                                },
                                ..self
                            },
                            Orders {
                                player: Timers { drop_interval: true, ..Timers::spec_none() },
                                ..Orders::none()
                            },
                        ),
                    )
                }
            },
            Seat::Opponent => match self.game.opponent {
                Some(opponent) => {
                    if opponent.clearing.len() == 0 {
                        Ok((self, Orders::none()))
                    } else if !SessionModel::can_settle(opponent, Some(self.game.player)) {
                        Err(Fault::Overflow)
                    } else {
                        let kind = opponent.spec_clear_kind();
                        Ok(
                            (
                                SessionModel {
                                    game: GameModel {
                                        player: self.game.player.spec_add_garbage(kind),
                                        opponent: Some(opponent.spec_line_clear()),
                                    },
                                    ..self
                                },
                                Orders {
                                    opponent: Timers { drop_interval: true, ..Timers::spec_none() },
                                    ..Orders::none()
                                },
                            ),
                        )
                    }
                },
                None => Ok((self, Orders::none())),
            },
        }
    }

    /// What the heartbeat makes of the session at the time `now`: between two
    /// peers a ping is due.
    pub open spec fn spec_heartbeat(self, now: u128) -> Orders {
        if self.peers() {
            Orders {
                stream: Some(spec_frame(TcpPacketMode::Ping.code(), le_bytes_u128(now as int))),
                ..Orders::none()
            }
        } else {
            Orders::none()
        }
    }

    /// The pose at which a received payload reports the falling piece of
    /// `opponent` committed, or the reason it is refused: it starts with no
    /// facing, or no falling piece of the opponent's can have the pose.
    pub open spec fn spec_reported(opponent: PlayerModel, carried: Seq<u8>) -> Result<
        Pose,
        WireError,
    > {
        match spec_carried_geometry(carried) {
            Ok(pose) => if opponent.falling.posed(pose).in_play() {
                Ok(pose)
            } else {
                Err(WireError::OutOfField)
            },
            Err(error) => Err(error),
        }
    }

    /// What a frame from the best-effort channel makes of the session: the
    /// opponent's falling piece is where the peer says it is. The channel
    /// keeps no order, so a pose that the falling piece cannot have is passed
    /// over: it may be that of a piece that has not arrived here yet.
    pub open spec fn spec_datagram(self, frame: Seq<u8>) -> Result<SessionModel, Fault> {
        match self.game.opponent {
            Some(opponent) if self.peers() => match spec_parse_udp(frame) {
                Ok((mode, carried)) => match spec_carried_geometry(carried) {
                    Ok(pose) => Ok(self.with_opponent(opponent.spec_set_falling_geometry(pose))),
                    Err(error) => Err(Fault::Wire(error)),
                },
                Err(error) => Err(Fault::Wire(error)),
            },
            _ => Ok(self),
        }
    }

    /// What a move that the peer reports makes of the session. A clear that
    /// the opponent has pending is settled first: the peer has moved on from it.
    pub open spec fn spec_commit(self, placed: Option<Pose>) -> Result<
        (SessionModel, Orders),
        Fault,
    > {
        match self.spec_line_clear_delay(Seat::Opponent) {
            Ok((settled, orders)) => match settled.game.opponent {
                Some(opponent) => {
                    let step = match placed {
                        Some(pose) => opponent.spec_set_falling_geometry(pose).spec_place(),
                        None => opponent.spec_hold(),
                    };
                    Ok(
                        (
                            settled.with_opponent(step.0),
                            Orders {
                                opponent: Timers {
                                    drop_interval: orders.opponent.drop_interval,
                                    ..Timers::of(step.1)
                                },
                                ..Orders::none()
                            },
                        ),
                    )
                },
                None => Ok((settled, orders)),
            },
            Err(fault) => Err(fault),
        }
    }

    /// What a frame from the reliable channel makes of the session at the
    /// time `now`: a ping is answered, a pong tells how long the answer took,
    /// and a commit or a hold of the peer is done to the opponent.
    pub open spec fn spec_stream(self, frame: Seq<u8>, now: u128) -> Result<
        (SessionModel, Orders),
        Fault,
    > {
        match self.game.opponent {
            Some(opponent) if self.peers() => match spec_parse_tcp(frame) {
                Ok((mode, carried)) => match mode {
                    TcpPacketMode::Ping => Ok(
                        (
                            self,
                            Orders {
                                stream: Some(spec_frame(TcpPacketMode::Pong.code(), carried)),
                                ..Orders::none()
                            },
                        ),
                    ),
                    TcpPacketMode::Pong => Ok(
                        (
                            SessionModel { rtt: spec_round_trip(carried, now) as u128, ..self },
                            Orders::none(),
                        ),
                    ),
                    TcpPacketMode::Info => Ok((self, Orders::none())),
                    TcpPacketMode::Hold => self.spec_commit(None),
                    TcpPacketMode::Place => match SessionModel::spec_reported(opponent, carried) {
                        Ok(pose) => self.spec_commit(Some(pose)),
                        Err(error) => Err(Fault::Wire(error)),
                    },
                },
                Err(error) => Err(Fault::Wire(error)),
            },
            _ => Ok((self, Orders::none())),
        }
    }

    /// What the agents make of the session when they are due: against a
    /// computer the opponent's agent makes a move, and between two computers
    /// the agent of each player does.
    pub open spec fn spec_agents(self) -> Result<(SessionModel, Orders), Fault> {
        match self.game.opponent {
            Some(opponent) if self.mode == Mode::PlayerVsComputer => {
                if !spec_can_execute(self.opponent_aim, opponent) {
                    Err(Fault::Overflow)
                } else {
                    let step = spec_execute(self.opponent_aim, opponent);
                    Ok(
                        (
                            SessionModel {
                                opponent_aim: spec_next_goal(self.opponent_aim, opponent),
                                ..self.with_opponent(step.0)
                            },
                            Orders::of(false, Seat::Opponent, step.1),
                        ),
                    )
                }
            },
            Some(opponent) if self.mode == Mode::ComputerVsComputer => {
                if !spec_can_execute(self.opponent_aim, opponent) || !spec_can_execute(
                    self.player_aim,
                    self.game.player,
                ) {
                    Err(Fault::Overflow)
                } else {
                    let first = spec_execute(self.player_aim, self.game.player);
                    let second = spec_execute(self.opponent_aim, opponent);
                    Ok(
                        (
                            SessionModel {
                                game: GameModel { player: first.0, opponent: Some(second.0) },
                                player_aim: spec_next_goal(self.player_aim, self.game.player),
                                opponent_aim: spec_next_goal(self.opponent_aim, opponent),
                                ..self
                            },
                            Orders {
                                player: Timers::of(first.1),
                                opponent: Timers::of(second.1),
                                ..Orders::none()
                            },
                        ),
                    )
                }
            },
            _ => Ok((self, Orders::none())),
        }
    }
}

/// A game in progress, with what the loop around it has to remember.
pub struct Session {
    pub mode: Mode,
    pub game: Game,
    /// How long the last answer of the peer took, in milliseconds.
    pub rtt: u128,
    /// The agent of the local player, for a game between two computers.
    pub player_agent: Agent,
    /// The agent of the opponent, for a game against a computer.
    pub opponent_agent: Agent,
}

impl View for Session {
    type V = SessionModel;

    open spec fn view(&self) -> SessionModel {
        SessionModel {
            mode: self.mode,
            game: self.game@,
            rtt: self.rtt,
            player_aim: self.player_agent.aim(),
            opponent_aim: self.opponent_agent.aim(),
        }
    }
}

/// Whether `result` and the session it left are what `step` says of the
/// session `before`: the new session and what is left to do where the step
/// was taken, and the old session and the fault where it was not.
pub open spec fn spec_took(
    result: Result<Actions, Fault>,
    step: Result<(SessionModel, Orders), Fault>,
    before: SessionModel,
    after: SessionModel,
) -> bool {
    match result {
        Ok(actions) => step == Ok::<(SessionModel, Orders), Fault>((after, actions@)),
        Err(fault) => step == Err::<(SessionModel, Orders), Fault>(fault) && after == before,
    }
}

impl Session {
    /// Starts a session of `mode` from what the two sides agreed on. A
    /// computer opponent is dealt its pieces by `rival_seed`.
    pub fn start(mode: Mode, conn_kind: ConnKind, game_info: &GameInfo, rival_seed: u64) -> (session:
        Session)
        requires
            GameModel::can_start(mode, conn_kind, game_info.seeds@),
        ensures
            session@ == SessionModel::spec_start(
                mode,
                conn_kind,
                game_info.start_level,
                game_info.seeds@,
                rival_seed,
            ),
            session@.wf(),
    {
        let game = Game::start(mode, conn_kind, game_info, rival_seed);
        let mut player_agent = Agent::new();
        let mut opponent_agent = Agent::new();
        match mode {
            Mode::PlayerVsComputer => {
                match &game.opponent {
                    Some(opponent) => {
                        opponent_agent.evaluate(opponent);
                    },
                    None => {},
                }
            },
            Mode::ComputerVsComputer => {
                player_agent.evaluate(&game.player);
                match &game.opponent {
                    Some(opponent) => {
                        opponent_agent.evaluate(opponent);
                    },
                    None => {},
                }
            },
            _ => {},
        }
        Session { mode, game, rtt: 0, player_agent, opponent_agent }
    }

    /// Whether both players are in order.
    pub fn is_wf(&self) -> (ok: bool)
        ensures
            ok == self@.wf(),
    {
        self.game.is_wf()
    }

    /// Whether the session is over: one of the players has lost.
    pub fn over(&self) -> (over: bool)
        ensures
            over == self@.game.over(),
    {
        self.game.over()
    }

    /// Whether two peers play.
    pub fn peers(&self) -> (peers: bool)
        ensures
            peers == self@.peers(),
    {
        match self.mode {
            Mode::Multiplayer => true,
            _ => false,
        }
    }

    /// A key was pressed that stands for `action`.
    pub fn input(&mut self, action: InputAction) -> (result: Result<Actions, Fault>)
        requires
            old(self)@.wf(),
        ensures
            spec_took(result, old(self)@.spec_input(action), old(self)@, final(self)@),
            final(self)@.wf(),
    {
        if !self.game.player.can_take(action) {
            return Err(Fault::Overflow);
        }
        let peers = self.peers();
        let effects = handle_game_event(&mut self.game.player, action);
        Ok(Actions::of(peers, Seat::Player, effects))
    }

    /// Gravity is due for the player in `seat`.
    pub fn drop_tick(&mut self, seat: Seat) -> (actions: Actions)
        requires
            old(self)@.wf(),
        ensures
            final(self)@ == old(self)@.spec_drop(seat).0,
            actions@ == old(self)@.spec_drop(seat).1,
            final(self)@.wf(),
    {
        let peers = self.peers();
        match seat {
            Seat::Player => {
                let effects = self.game.player.drop();
                Actions::of(peers, Seat::Player, effects)
            },
            Seat::Opponent => match &mut self.game.opponent {
                Some(opponent) => {
                    let effects = opponent.drop();
                    Actions::of(peers, Seat::Opponent, effects)
                },
                None => Actions::none(),
            },
        }
    }

    /// The lock delay of the local player has run out.
    pub fn lock_delay(&mut self) -> (actions: Actions)
        requires
            old(self)@.wf(),
        ensures
            final(self)@ == old(self)@.spec_lock_delay().0,
            actions@ == old(self)@.spec_lock_delay().1,
            final(self)@.wf(),
    {
        if self.game.player.locking {
            let peers = self.peers();
            let effects = self.game.player.place();
            Actions::of(peers, Seat::Player, effects)
        } else {
            Actions::none()
        }
    }

    /// The line-clear delay of the player in `seat` has run out.
    pub fn line_clear_delay(&mut self, seat: Seat) -> (result: Result<Actions, Fault>)
        requires
            old(self)@.wf(),
        ensures
            spec_took(result, old(self)@.spec_line_clear_delay(seat), old(self)@, final(self)@),
            final(self)@.wf(),
    {
        match seat {
            Seat::Player => {
                if self.game.player.clearing.len() == 0 {
                    return Ok(Actions::none());
                }
                let room = match &self.game.opponent {
                    Some(opponent) => opponent.board.0.len() <= usize::MAX - 10,
                    None => true,
                };
                proof {
                    if self.game.opponent is Some {
                        assert(self@.game.opponent->0.board.len()
                            == self.game.opponent->0.board.0.len());
                    }
                }
                if !self.game.player.can_clear() || !room {
                    return Err(Fault::Overflow);
                }
                let kind = self.game.player.line_clear();
                match &mut self.game.opponent {
                    Some(opponent) => {
                        opponent.add_garbage(kind);
                    },
                    None => {},
                }
                let mut actions = Actions::none();
                actions.player.drop_interval = true;
                Ok(actions)
            },
            Seat::Opponent => {
                let room = self.game.player.board.0.len() <= usize::MAX - 10;
                assert(self@.game.player.board.len() == self.game.player.board.0.len());
                match &mut self.game.opponent {
                    Some(opponent) => {
                        if opponent.clearing.len() == 0 {
                            return Ok(Actions::none());
                        }
                        if !opponent.can_clear() || !room {
                            return Err(Fault::Overflow);
                        }
                        let kind = opponent.line_clear();
                        self.game.player.add_garbage(kind);
                        let mut actions = Actions::none();
                        actions.opponent.drop_interval = true;
                        Ok(actions)
                    },
                    None => Ok(Actions::none()),
                }
            },
        }
    }

    /// The heartbeat is due at the time `now`, in milliseconds.
    pub fn heartbeat(&self, now: u128) -> (actions: Actions)
        ensures
            actions@ == self@.spec_heartbeat(now),
    {
        let mut actions = Actions::none();
        if self.peers() {
            actions.stream = Some(ping_frame(now));
        }
        actions
    }

    /// The pose that a received payload reports for the falling piece of `opponent`.
    fn reported(opponent: &Player, carried: &[u8; 63]) -> (reported: Result<Geometry, WireError>)
        ensures
            match reported {
                Ok(geometry) => SessionModel::spec_reported(opponent@, carried@) == Ok::<
                    Pose,
                    WireError,
                >(geometry@),
                Err(error) => SessionModel::spec_reported(opponent@, carried@) == Err::<
                    Pose,
                    WireError,
                >(error),
            },
    {
        match carried_geometry(carried) {
            Ok(geometry) => {
                let mut probe = opponent.falling;
                probe.geometry = geometry;
                if probe.in_play() {
                    Ok(geometry)
                } else {
                    Err(WireError::OutOfField)
                }
            },
            Err(error) => Err(error),
        }
    }

    /// A frame came in on the best-effort channel.
    pub fn datagram(&mut self, frame: &[u8]) -> (result: Result<(), Fault>)
        requires
            old(self)@.wf(),
        ensures
            match result {
                Ok(_) => old(self)@.spec_datagram(frame@) == Ok::<SessionModel, Fault>(
                    final(self)@,
                ),
                Err(fault) => old(self)@.spec_datagram(frame@) == Err::<SessionModel, Fault>(fault)
                    && final(self)@ == old(self)@,
            },
            final(self)@.wf(),
    {
        let peers = self.peers();
        match &mut self.game.opponent {
            Some(opponent) => {
                if !peers {
                    return Ok(());
                }
                match parse_udp(frame) {
                    Ok((_mode, carried)) => match carried_geometry(&carried) {
                        Ok(geometry) => {
                            opponent.set_falling_geometry(geometry);
                            Ok(())
                        },
                        Err(error) => Err(Fault::Wire(error)),
                    },
                    Err(error) => Err(Fault::Wire(error)),
                }
            },
            None => Ok(()),
        }
    }

    /// Does a move that the peer reports to the opponent: a commit at the
    /// pose `placed`, or a hold where there is none.
    fn commit(&mut self, placed: Option<Geometry>) -> (result: Result<Actions, Fault>)
        requires
            old(self)@.wf(),
        ensures
            spec_took(
                result,
                old(self)@.spec_commit(
                    match placed {
                        Some(geometry) => Some(geometry@),
                        None => None,
                    },
                ),
                old(self)@,
                final(self)@,
            ),
            final(self)@.wf(),
    {
        let settled = match self.line_clear_delay(Seat::Opponent) {
            Ok(actions) => actions,
            Err(fault) => {
                return Err(fault);
            },
        };
        match &mut self.game.opponent {
            Some(opponent) => {
                let effects = match placed {
                    Some(geometry) => {
                        opponent.set_falling_geometry(geometry);
                        opponent.place()
                    },
                    None => opponent.hold(),
                };
                let mut actions = Actions::none();
                actions.opponent = Timers {
                    lock_delay: effects.lock_delay,
                    line_clear_delay: effects.line_clear_delay,
                    drop_interval: settled.opponent.drop_interval,
                };
                Ok(actions)
            },
            None => Ok(settled),
        }
    }

    /// A frame came in on the reliable channel at the time `now`, in milliseconds.
    pub fn stream(&mut self, frame: &[u8], now: u128) -> (result: Result<Actions, Fault>)
        requires
            old(self)@.wf(),
        ensures
            spec_took(result, old(self)@.spec_stream(frame@, now), old(self)@, final(self)@),
            final(self)@.wf(),
    {
        if !self.peers() {
            return Ok(Actions::none());
        }
        let parsed = match &self.game.opponent {
            Some(opponent) => match parse_tcp(frame) {
                Ok((mode, carried)) => match mode {
                    TcpPacketMode::Place => match Session::reported(opponent, &carried) {
                        Ok(geometry) => (mode, carried, Some(geometry)),
                        Err(error) => {
                            return Err(Fault::Wire(error));
                        },
                    },
                    _ => (mode, carried, None),
                },
                Err(error) => {
                    return Err(Fault::Wire(error));
                },
            },
            None => {
                return Ok(Actions::none());
            },
        };
        let (mode, carried, placed) = parsed;
        match mode {
            TcpPacketMode::Ping => {
                let mut actions = Actions::none();
                actions.stream = Some(pong_frame(&carried));
                Ok(actions)
            },
            TcpPacketMode::Pong => {
                self.rtt = round_trip(&carried, now);
                Ok(Actions::none())
            },
            TcpPacketMode::Info => Ok(Actions::none()),
            TcpPacketMode::Hold => self.commit(None),
            TcpPacketMode::Place => self.commit(placed),
        }
    }

    /// The agents are due.
    pub fn agents(&mut self) -> (result: Result<Actions, Fault>)
        requires
            old(self)@.wf(),
        ensures
            spec_took(result, old(self)@.spec_agents(), old(self)@, final(self)@),
            final(self)@.wf(),
    {
        match self.mode {
            Mode::PlayerVsComputer => match &mut self.game.opponent {
                Some(opponent) => {
                    if !self.opponent_agent.can_execute(opponent) {
                        return Err(Fault::Overflow);
                    }
                    let effects = self.opponent_agent.execute(opponent);
                    Ok(Actions::of(false, Seat::Opponent, effects))
                },
                None => Ok(Actions::none()),
            },
            Mode::ComputerVsComputer => match &mut self.game.opponent {
                Some(opponent) => {
                    if !self.opponent_agent.can_execute(opponent) || !self.player_agent.can_execute(
                        &self.game.player,
                    ) {
                        return Err(Fault::Overflow);
                    }
                    let first = self.player_agent.execute(&mut self.game.player);
                    let second = self.opponent_agent.execute(opponent);
                    let mut actions = Actions::none();
                    actions.player = Timers {
                        lock_delay: first.lock_delay,
                        line_clear_delay: first.line_clear_delay,
                        drop_interval: false,
                    };
                    actions.opponent = Timers {
                        lock_delay: second.lock_delay,
                        line_clear_delay: second.line_clear_delay,
                        drop_interval: false,
                    };
                    Ok(actions)
                },
                None => Ok(Actions::none()),
            },
            _ => Ok(Actions::none()),
        }
    }
}

} // verus!
