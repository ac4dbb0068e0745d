use tetris::agent::Agent;
use tetris::board::Board;
use tetris::display::{push_digits, push_text, Display, Glyph, Paint, Readouts, Tint};
use tetris::conn::{
    hold_frame, parse_tcp, parse_udp, ping_frame, place_frame, pos_frame, ConnKind, TcpPacketMode,
    UdpPacketMode, WireError,
};
use tetris::event::InputAction;
use tetris::game::GameInfo;
use tetris::player::{Player, PlayerKind};
use tetris::run::{Actions, Fault, Seat, Session, Timers};
use tetris::score::ClearKind;
use tetris::tetromino::{
    CardinalDirection, Color, Geometry, Tetromino, TetrominoVariant,
};
use tetris::Mode;

const NO_TIMER: Timers = Timers { lock_delay: false, line_clear_delay: false, drop_interval: false };

fn nothing() -> Actions {
    Actions { datagram: None, stream: None, player: NO_TIMER, opponent: NO_TIMER }
}

fn info() -> GameInfo {
    GameInfo { start_level: 1, seeds: vec![1001, 2002] }
}

fn host() -> Session {
    Session::start(Mode::Multiplayer, ConnKind::Host, &info(), 0)
}

fn client() -> Session {
    Session::start(Mode::Multiplayer, ConnKind::Client, &info(), 0)
}

fn single() -> Session {
    Session::start(Mode::Singleplayer, ConnKind::Empty, &GameInfo { start_level: 1, seeds: vec![5] }, 0)
}

fn fill_row_but(board: &mut Board, y: usize, hole: usize) {
    for x in 0..10 {
        if x != hole {
            board.0[y][x] = Some(Color::White);
        }
    }
}

fn line_in_the_last_column() -> Tetromino {
    Tetromino {
        geometry: Geometry {
            shape: [(9, 3), (9, 2), (9, 1), (9, 0)],
            center: (9, 2),
            direction: CardinalDirection::East,
        },
        color: Color::Cyan,
        variant: TetrominoVariant::I,
    }
}

/// Gives the player a double to clear: two rows with a gap in the last
/// column, a cell above them, and the I piece standing in the gap.
fn set_up_a_double(player: &mut Player) {
    fill_row_but(&mut player.board, 0, 9);
    fill_row_but(&mut player.board, 1, 9);
    player.board.0[2][0] = Some(Color::Green);
    player.falling = line_in_the_last_column();
    player.update_ghost();
}

fn same(a: &Player, b: &Player) -> bool {
    a.falling == b.falling
        && a.holding == b.holding
        && a.bag.next == b.bag.next
        && a.bag.rest == b.bag.rest
        && a.board.0 == b.board.0
        && a.score.lines == b.score.lines
        && a.clearing == b.clearing
        && a.seed == b.seed
        && a.lost == b.lost
}

#[test]
fn a_session_starts_as_its_mode_says() {
    let session = single();
    assert_eq!(session.mode, Mode::Singleplayer);
    assert!(session.game.opponent.is_none());
    assert_eq!(session.rtt, 0);
    assert!(session.player_agent.goal.is_none());
    assert!(session.opponent_agent.goal.is_none());
    assert!(!session.over());
    assert!(!session.peers());
    let session = host();
    assert!(session.peers());
    assert_eq!(session.game.player.kind, PlayerKind::Local);
    assert_eq!(session.game.opponent.as_ref().unwrap().kind, PlayerKind::Remote);
    assert!(session.opponent_agent.goal.is_none());
}

#[test]
fn agents_start_with_a_goal() {
    let against = Session::start(Mode::PlayerVsComputer, ConnKind::Empty, &info(), 9);
    assert!(against.player_agent.goal.is_none());
    assert!(against.opponent_agent.goal.is_some());
    let between = Session::start(Mode::ComputerVsComputer, ConnKind::Empty, &info(), 9);
    assert!(between.player_agent.goal.is_some());
    assert!(between.opponent_agent.goal.is_some());
}

#[test]
fn a_shift_between_peers_sends_the_pose_as_a_datagram() {
    let mut session = host();
    let actions = session.input(InputAction::MoveLeft).unwrap();
    let geometry = session.game.player.falling.geometry;
    assert_eq!(
        actions,
        Actions {
            datagram: Some(pos_frame(&geometry)),
            stream: None,
            player: Timers { lock_delay: true, line_clear_delay: false, drop_interval: false },
            opponent: NO_TIMER
        }
    );
    let (mode, _) = parse_udp(actions.datagram.as_ref().unwrap()).unwrap();
    assert_eq!(mode, UdpPacketMode::Pos);
}

#[test]
fn commits_between_peers_go_over_the_reliable_channel() {
    let mut session = host();
    let actions = session.input(InputAction::Hold).unwrap();
    assert_eq!(actions.datagram, None);
    assert_eq!(actions.stream, Some(hold_frame()));
    let actions = session.input(InputAction::HardDrop).unwrap();
    assert_eq!(actions.datagram, None);
    let sent = actions.stream.unwrap();
    let (mode, _) = parse_tcp(&sent).unwrap();
    assert_eq!(mode, TcpPacketMode::Place);
    assert_eq!(actions.player, NO_TIMER);
}

#[test]
fn nothing_is_sent_without_a_peer() {
    let mut session = single();
    let actions = session.input(InputAction::MoveLeft).unwrap();
    assert_eq!(actions.datagram, None);
    assert_eq!(actions.stream, None);
    assert!(actions.player.lock_delay);
    let actions = session.input(InputAction::HardDrop).unwrap();
    assert_eq!(actions.stream, None);
    assert_eq!(session.heartbeat(12345), nothing());
    assert_eq!(session.datagram(&[1, 2, 3]), Ok(()));
    assert_eq!(session.stream(&[1, 2, 3], 0), Ok(nothing()));
    assert_eq!(session.agents(), Ok(nothing()));
    assert_eq!(session.drop_tick(Seat::Opponent), nothing());
    assert_eq!(session.line_clear_delay(Seat::Opponent), Ok(nothing()));
}

#[test]
fn to_quit_ends_the_session() {
    let mut session = single();
    assert_eq!(session.input(InputAction::Quit), Ok(nothing()));
    assert!(session.over());
}

#[test]
fn an_input_whose_points_do_not_fit_is_a_fault() {
    let mut session = single();
    session.game.player.score.score = u32::MAX;
    let falling = session.game.player.falling;
    assert_eq!(session.input(InputAction::HardDrop), Err(Fault::Overflow));
    assert_eq!(session.input(InputAction::SoftDrop), Err(Fault::Overflow));
    assert_eq!(session.game.player.falling, falling);
    assert_eq!(session.game.player.score.score, u32::MAX);
    assert!(session.input(InputAction::MoveLeft).is_ok());
}

#[test]
fn gravity_pulls_the_player_in_the_seat() {
    let mut session = host();
    let player = session.game.player.falling;
    let opponent = session.game.opponent.as_ref().unwrap().falling;
    let actions = session.drop_tick(Seat::Player);
    assert_eq!(
        actions,
        Actions {
            datagram: None,
            stream: None,
            player: Timers { lock_delay: true, line_clear_delay: false, drop_interval: false },
            opponent: NO_TIMER
        }
    );
    assert_eq!(session.game.player.falling.geometry.center.1, player.geometry.center.1 - 1);
    assert_eq!(session.game.opponent.as_ref().unwrap().falling, opponent);
    let actions = session.drop_tick(Seat::Opponent);
    assert_eq!(actions.player, NO_TIMER);
    assert!(actions.opponent.lock_delay);
    assert_eq!(
        session.game.opponent.as_ref().unwrap().falling.geometry.center.1,
        opponent.geometry.center.1 - 1
    );
}

#[test]
fn the_lock_delay_commits_a_piece_that_was_seen_to_rest() {
    let mut session = host();
    // Not seen to rest: nothing happens.
    assert_eq!(session.lock_delay(), nothing());
    let mut steps = 0;
    while !session.game.player.locking {
        session.drop_tick(Seat::Player);
        steps += 1;
        assert!(steps < 30);
    }
    let resting = session.game.player.falling.geometry;
    let actions = session.lock_delay();
    assert_eq!(actions.stream, Some(place_frame(&resting)));
    assert_eq!(actions.datagram, None);
    assert!(!session.game.player.board.is_blank());
    assert!(!session.game.player.locking);
}

#[test]
fn a_double_sends_one_row_of_garbage_with_one_hole() {
    let mut session = host();
    set_up_a_double(&mut session.game.player);
    let placed = session.input(InputAction::HardDrop).unwrap();
    assert!(placed.player.line_clear_delay);
    assert_eq!(session.game.player.clearing.len(), 2);
    let opponent_before = session.game.opponent.as_ref().unwrap().board.copy();
    let actions = session.line_clear_delay(Seat::Player).unwrap();
    assert_eq!(
        actions,
        Actions {
            datagram: None,
            stream: None,
            player: Timers { lock_delay: false, line_clear_delay: false, drop_interval: true },
            opponent: NO_TIMER
        }
    );
    // The clear is a double ...
    assert_eq!(session.game.player.score.lines, 2);
    assert_eq!(session.game.player.score.score, 300);
    assert_eq!(session.game.player.score.combo, 0);
    assert_eq!(ClearKind::Double.garbage_line_count(), 1);
    assert!(session.game.player.clearing.is_empty());
    assert_eq!(session.game.player.board.0.len(), 20);
    // ... and the opponent takes one row under the board, with one hole.
    let opponent = session.game.opponent.as_ref().unwrap();
    assert_eq!(opponent.board.0.len(), 21);
    assert_eq!(opponent.board.0[0].len(), 10);
    assert_eq!(opponent.board.0[0].iter().filter(|cell| cell.is_none()).count(), 1);
    assert_eq!(
        opponent.board.0[0].iter().filter(|cell| **cell == Some(Color::White)).count(),
        9
    );
    assert_eq!(opponent.board.0[1..], opponent_before.0[..]);
}

#[test]
fn the_clear_of_the_opponent_sends_garbage_to_the_player() {
    let mut session = host();
    set_up_a_double(session.game.opponent.as_mut().unwrap());
    session.game.opponent.as_mut().unwrap().place();
    let actions = session.line_clear_delay(Seat::Opponent).unwrap();
    assert_eq!(actions.player, NO_TIMER);
    assert!(actions.opponent.drop_interval);
    assert_eq!(session.game.player.board.0.len(), 21);
    assert_eq!(session.game.player.board.0[0].iter().filter(|cell| cell.is_none()).count(), 1);
    assert_eq!(session.game.opponent.as_ref().unwrap().score.lines, 2);
}

#[test]
fn the_line_clear_delay_without_marked_rows_does_nothing() {
    let mut session = host();
    assert_eq!(session.line_clear_delay(Seat::Player), Ok(nothing()));
    assert_eq!(session.line_clear_delay(Seat::Opponent), Ok(nothing()));
    assert_eq!(session.game.player.board.0, Board::new().0);
}

#[test]
fn a_clear_whose_points_do_not_fit_is_a_fault() {
    let mut session = single();
    set_up_a_double(&mut session.game.player);
    session.game.player.place();
    session.game.player.score.score = u32::MAX - 299;
    assert_eq!(session.line_clear_delay(Seat::Player), Err(Fault::Overflow));
    assert_eq!(session.game.player.clearing.len(), 2);
    session.game.player.score.score = u32::MAX - 300;
    assert!(session.line_clear_delay(Seat::Player).is_ok());
    assert_eq!(session.game.player.score.score, u32::MAX);
}

#[test]
fn a_singleplayer_clear_sends_no_garbage() {
    let mut session = single();
    set_up_a_double(&mut session.game.player);
    session.game.player.place();
    let actions = session.line_clear_delay(Seat::Player).unwrap();
    assert!(actions.player.drop_interval);
    assert_eq!(session.game.player.score.score, 300);
}

#[test]
fn the_heartbeat_between_peers_is_a_ping() {
    let session = host();
    let actions = session.heartbeat(1_700_000_000_123);
    assert_eq!(
        actions,
        Actions {
            datagram: None,
            stream: Some(ping_frame(1_700_000_000_123)),
            player: NO_TIMER,
            opponent: NO_TIMER
        }
    );
}

#[test]
fn a_ping_is_answered_and_the_pong_gives_the_round_trip() {
    let mut a = host();
    let mut b = client();
    let ping = a.heartbeat(5000).stream.unwrap();
    let answer = b.stream(&ping, 5010).unwrap();
    let pong = answer.stream.unwrap();
    assert_eq!(pong[0], 1);
    assert_eq!(pong[1..], ping[1..]);
    assert_eq!(b.rtt, 0);
    assert_eq!(a.stream(&pong, 5042), Ok(nothing()));
    assert_eq!(a.rtt, 42);
}

#[test]
fn frames_that_are_refused_leave_the_session_as_it_was() {
    let mut session = host();
    let before = session.game.opponent.as_ref().unwrap().falling;
    assert_eq!(session.stream(&[0u8; 12], 0), Err(Fault::Wire(WireError::Length(12))));
    assert_eq!(session.datagram(&[0u8; 65]), Err(Fault::Wire(WireError::Length(65))));
    let mut unknown = [0u8; 64];
    unknown[0] = 9;
    assert_eq!(session.stream(&unknown, 0), Err(Fault::Wire(WireError::Kind(9))));
    assert_eq!(session.datagram(&unknown), Err(Fault::Wire(WireError::Kind(9))));
    // A geometry with no facing.
    let mut place = [0u8; 64];
    place[0] = 4;
    place[1] = 7;
    assert_eq!(session.stream(&place, 0), Err(Fault::Wire(WireError::Direction(7))));
    let mut pos = [0u8; 64];
    pos[1] = 4;
    assert_eq!(session.datagram(&pos), Err(Fault::Wire(WireError::Direction(4))));
    // A commit outside the field.
    let mut outside = before.geometry;
    outside.transform(-20, 0);
    assert_eq!(
        session.stream(&place_frame(&outside), 0),
        Err(Fault::Wire(WireError::OutOfField))
    );
    assert_eq!(session.game.opponent.as_ref().unwrap().falling, before);
    assert_eq!(session.game.opponent.as_ref().unwrap().board.0, Board::new().0);
}

#[test]
fn a_datagram_with_a_pose_that_does_not_fit_is_passed_over() {
    // Datagrams keep no order: the pose may be that of a piece that the
    // stream has not brought yet.
    let mut session = host();
    let before = session.game.opponent.as_ref().unwrap().falling;
    let mut outside = before.geometry;
    outside.transform(-20, 0);
    assert_eq!(session.datagram(&pos_frame(&outside)), Ok(()));
    assert_eq!(session.game.opponent.as_ref().unwrap().falling, before);
}

#[test]
fn an_info_frame_in_mid_game_is_passed_over() {
    let mut session = host();
    let mut frame = [0u8; 64];
    frame[0] = 2;
    assert_eq!(session.stream(&frame, 0), Ok(nothing()));
}

#[test]
fn a_datagram_moves_the_falling_piece_of_the_opponent() {
    let mut session = host();
    let mut geometry = session.game.opponent.as_ref().unwrap().falling.geometry;
    geometry.transform(-1, -4);
    assert_eq!(session.datagram(&pos_frame(&geometry)), Ok(()));
    let opponent = session.game.opponent.as_ref().unwrap();
    assert_eq!(opponent.falling.geometry, geometry);
    assert!(!opponent.locking);
    assert_eq!(opponent.ghost_piece.unwrap().geometry.center.0, geometry.center.0);
}

#[test]
fn two_peers_stay_in_step() {
    let mut a = host();
    let mut b = client();
    assert!(same(&a.game.player, b.game.opponent.as_ref().unwrap()));
    assert!(same(&b.game.player, a.game.opponent.as_ref().unwrap()));
    let inputs = [
        InputAction::MoveLeft,
        InputAction::MoveLeft,
        InputAction::RotateRight,
        InputAction::SoftDrop,
        InputAction::HardDrop,
        InputAction::Hold,
        InputAction::MoveRight,
        InputAction::RotateLeft,
        InputAction::HardDrop,
        InputAction::MoveRight,
        InputAction::MoveRight,
        InputAction::MoveRight,
        InputAction::HardDrop,
        InputAction::Hold,
        InputAction::RotateRight,
        InputAction::HardDrop,
        InputAction::MoveLeft,
        InputAction::HardDrop,
    ];
    for input in inputs {
        let actions = a.input(input).unwrap();
        if let Some(frame) = actions.datagram {
            assert_eq!(b.datagram(&frame), Ok(()));
            assert_eq!(
                b.game.opponent.as_ref().unwrap().falling,
                a.game.player.falling
            );
        }
        if let Some(frame) = actions.stream {
            assert!(b.stream(&frame, 0).is_ok());
        }
        if actions.player.line_clear_delay {
            a.line_clear_delay(Seat::Player).unwrap();
            b.line_clear_delay(Seat::Opponent).unwrap();
        }
        assert!(same(&a.game.player, b.game.opponent.as_ref().unwrap()));
        assert!(a.is_wf());
        assert!(b.is_wf());
    }
    assert!(!a.game.player.board.is_blank());
}

#[test]
fn a_commit_of_the_peer_settles_a_pending_clear_first() {
    let mut a = host();
    let mut b = client();
    set_up_a_double(&mut a.game.player);
    set_up_a_double(b.game.opponent.as_mut().unwrap());
    let placed = a.input(InputAction::HardDrop).unwrap();
    assert!(b.stream(placed.stream.as_ref().unwrap(), 0).unwrap().opponent.line_clear_delay);
    assert_eq!(b.game.opponent.as_ref().unwrap().clearing.len(), 2);
    // The peer clears and commits its next piece before the delay runs out here.
    a.line_clear_delay(Seat::Player).unwrap();
    let next = a.input(InputAction::HardDrop).unwrap();
    let actions = b.stream(next.stream.as_ref().unwrap(), 0).unwrap();
    assert!(actions.opponent.drop_interval);
    assert!(same(&a.game.player, b.game.opponent.as_ref().unwrap()));
    assert_eq!(b.game.opponent.as_ref().unwrap().score.lines, 2);
    // The garbage of the clear has come to both boards of the other player.
    assert_eq!(b.game.player.board.0.len(), 21);
    assert_eq!(a.game.opponent.as_ref().unwrap().board.0, b.game.player.board.0);
}

#[test]
fn the_agent_of_the_opponent_plays() {
    let mut session = Session::start(Mode::PlayerVsComputer, ConnKind::Empty, &info(), 31);
    let mut rounds = 0;
    while session.game.opponent.as_ref().unwrap().board.is_blank() {
        let actions = session.agents().unwrap();
        assert_eq!(actions.datagram, None);
        assert_eq!(actions.stream, None);
        assert_eq!(actions.player, NO_TIMER);
        session.drop_tick(Seat::Opponent);
        rounds += 1;
        assert!(rounds < 100);
    }
    // The local player was left alone.
    assert!(session.game.player.board.is_blank());
    assert!(session.opponent_agent.goal.is_some());
}

#[test]
fn two_agents_play_each_other() {
    let mut session = Session::start(Mode::ComputerVsComputer, ConnKind::Empty, &info(), 32);
    let mut rounds = 0;
    while session.game.player.board.is_blank()
        || session.game.opponent.as_ref().unwrap().board.is_blank()
    {
        assert!(session.agents().is_ok());
        session.drop_tick(Seat::Player);
        session.drop_tick(Seat::Opponent);
        rounds += 1;
        assert!(rounds < 100);
    }
}

#[test]
fn an_agent_finds_the_first_best_play() {
    // On an empty board every play is worth the same: the first of the
    // sweep is the goal, the O piece in the lower left corner.
    let mut player = Player::new(PlayerKind::Computer, 1, 3);
    player.falling = Tetromino::new(TetrominoVariant::O);
    player.falling.start_pos_transform(&player.board);
    let mut agent = Agent::new();
    assert_eq!(agent.goal, None);
    agent.evaluate(&player);
    assert_eq!(
        agent.goal,
        Some(Tetromino {
            geometry: Geometry {
                shape: [(0, 0), (0, 1), (1, 0), (1, 1)],
                center: (0, 0),
                direction: CardinalDirection::North
            },
            color: Color::Yellow,
            variant: TetrominoVariant::O
        })
    );
}

#[test]
fn a_scan_finds_plays_that_rest_and_overlap_nothing() {
    for variant in TetrominoVariant::list() {
        let mut player = Player::new(PlayerKind::Computer, 1, 3);
        player.board.0[0][0] = Some(Color::Blue);
        player.board.0[1][0] = Some(Color::Blue);
        player.falling = Tetromino::new(variant);
        player.falling.start_pos_transform(&player.board);
        let plays = Agent::scan(&player);
        assert!(!plays.is_empty());
        for play in &plays {
            assert_eq!(play.variant, variant);
            assert!(!player.board.overlapping(play));
            assert!(player.board.hitting_bottom(play));
        }
        // A board of ten columns has at most ten pivots a row and facing
        // for a piece that rests on the floor, and a few on the stack.
        assert!(plays.len() <= 60);
    }
}

#[test]
fn an_agent_prefers_the_play_that_fills_a_row() {
    let mut player = Player::new(PlayerKind::Computer, 1, 3);
    fill_row_but(&mut player.board, 0, 9);
    fill_row_but(&mut player.board, 1, 9);
    fill_row_but(&mut player.board, 2, 9);
    fill_row_but(&mut player.board, 3, 9);
    player.falling = Tetromino::new(TetrominoVariant::I);
    player.falling.start_pos_transform(&player.board);
    let mut agent = Agent::new();
    agent.evaluate(&player);
    let goal = agent.goal.unwrap();
    let mut cells = goal.geometry.shape.to_vec();
    cells.sort();
    assert_eq!(cells, vec![(9, 0), (9, 1), (9, 2), (9, 3)]);
}

#[test]
fn an_agent_steers_to_its_goal() {
    let mut player = Player::new(PlayerKind::Computer, 1, 3);
    player.falling = Tetromino::new(TetrominoVariant::O);
    player.falling.start_pos_transform(&player.board);
    let mut agent = Agent::new();
    agent.evaluate(&player);
    // Facing and goal agree: the piece goes left, column by column.
    assert!(agent.can_execute(&player));
    let effects = agent.execute(&mut player);
    assert_eq!(effects.message, None);
    assert_eq!(player.falling.geometry.center, (3, 18));
    for _ in 0..3 {
        agent.execute(&mut player);
    }
    assert_eq!(player.falling.geometry.center, (0, 18));
    assert!(player.board.is_blank());
    // In the column of the goal it drops, and looks for the next goal.
    agent.execute(&mut player);
    for (x, y) in [(0usize, 0usize), (0, 1), (1, 0), (1, 1)] {
        assert_eq!(player.board.0[y][x], Some(Color::Yellow));
    }
    assert_eq!(player.score.score, 36);
    assert!(agent.goal.is_some());
    assert_eq!(agent.goal.unwrap().variant, player.falling.variant);
}

#[test]
fn an_agent_without_a_goal_does_nothing() {
    let mut player = Player::new(PlayerKind::Computer, 1, 3);
    let falling = player.falling;
    let mut agent = Agent::new();
    let effects = agent.execute(&mut player);
    assert_eq!(effects.message, None);
    assert!(!effects.lock_delay);
    assert_eq!(player.falling, falling);
    assert_eq!(agent.goal, None);
}

#[test]
fn the_next_move_of_an_agent() {
    let mut player = Player::new(PlayerKind::Computer, 1, 3);
    player.falling = Tetromino::new(TetrominoVariant::O);
    player.falling.start_pos_transform(&player.board);
    let mut agent = Agent::new();
    assert_eq!(agent.next_move(&player), None);
    let mut goal = player.falling;
    goal.geometry.transform(-2, -18);
    agent.goal = Some(goal);
    assert_eq!(agent.next_move(&player), Some(InputAction::MoveLeft));
    goal.geometry.transform(4, 0);
    agent.goal = Some(goal);
    assert_eq!(agent.next_move(&player), Some(InputAction::MoveRight));
    goal.geometry.transform(-2, 0);
    agent.goal = Some(goal);
    assert_eq!(agent.next_move(&player), Some(InputAction::HardDrop));
    goal.geometry.direction = CardinalDirection::South;
    agent.goal = Some(goal);
    assert_eq!(agent.next_move(&player), Some(InputAction::RotateRight));
    // Only a hard drop can bring points that do not fit.
    player.score.score = u32::MAX;
    assert!(agent.can_execute(&player));
    goal.geometry.direction = CardinalDirection::North;
    agent.goal = Some(goal);
    assert!(!agent.can_execute(&player));
}

#[test]
fn agents_whose_points_do_not_fit_are_a_fault() {
    let mut session = Session::start(Mode::PlayerVsComputer, ConnKind::Empty, &info(), 31);
    session.game.opponent.as_mut().unwrap().score.score = u32::MAX;
    let mut result = session.agents();
    let mut rounds = 0;
    while result.is_ok() {
        result = session.agents();
        rounds += 1;
        assert!(rounds < 40);
    }
    assert_eq!(result, Err(Fault::Overflow));
    assert!(session.game.opponent.as_ref().unwrap().board.is_blank());
}

fn glyph_at(frame: &[Vec<Glyph>], x: usize, y: usize) -> Glyph {
    frame[y][x]
}

fn text_at(frame: &[Vec<Glyph>], x: usize, y: usize, len: usize) -> String {
    frame[y][x..x + len].iter().map(|glyph| glyph.symbol).collect()
}

const QUIET: Readouts = Readouts { display_frame_rate: false, display_ping: false, rtt: 0 };

#[test]
fn the_layout_puts_one_board_in_the_middle_and_two_to_the_sides() {
    let alone = Display::new(Mode::Singleplayer, (100, 40));
    assert_eq!(alone.board_x, vec![(40, 62)]);
    assert_eq!(alone.board_y, (0, 22));
    assert_eq!(alone.terminal_size, (100, 40));
    assert!(!alone.is_multiplayer);
    assert_eq!(Display::calc_board_x(100, false), vec![(40, 62)]);
    for mode in [Mode::Multiplayer, Mode::PlayerVsComputer, Mode::ComputerVsComputer] {
        let two = Display::new(mode, (100, 40));
        assert_eq!(two.board_x, vec![(10, 32), (70, 92)]);
        assert!(two.is_multiplayer);
    }
    // A narrow terminal puts the board off the screen, and nothing breaks.
    assert_eq!(Display::calc_board_x(10, true), vec![(-35, -13), (25, 47)]);
    let mut display = Display::new(Mode::Singleplayer, (100, 40));
    display.resize((81, 25));
    assert_eq!(display.board_x, vec![(30, 52)]);
    assert_eq!(display.terminal_size, (81, 25));
}

#[test]
fn the_frames_a_second_are_counted() {
    let mut display = Display::new(Mode::Singleplayer, (100, 40));
    display.count_frame(true);
    display.count_frame(true);
    display.count_frame(false);
    assert_eq!(display.frame_count, 2);
    assert_eq!(display.fps, 0);
    display.calc_fps();
    assert_eq!(display.fps, 2);
    assert_eq!(display.frame_count, 0);
}

#[test]
fn digits_and_texts_are_appended() {
    let mut text = vec!['n', '='];
    push_digits(&mut text, 0);
    push_text(&mut text, &[',', ' ']);
    push_digits(&mut text, 907);
    push_text(&mut text, &[]);
    push_digits(&mut text, u128::MAX);
    let text: String = text.into_iter().collect();
    assert_eq!(text, format!("n=0, 907{}", u128::MAX));
}

#[test]
fn the_frame_of_a_lone_board() {
    let session = single();
    let display = Display::new(Mode::Singleplayer, (100, 30));
    let frame = display.construct_frame(&session.game, QUIET, &Vec::new());
    assert_eq!(frame.len(), 30);
    for row in &frame {
        assert_eq!(row.len(), 100);
    }
    let frame_tint = |y: u16| Paint::With(Tint::Frame(0, y));
    // The corners and the sides of the board.
    assert_eq!(glyph_at(&frame, 40, 0), Glyph { symbol: '╔', paint: frame_tint(0) });
    assert_eq!(glyph_at(&frame, 61, 0), Glyph { symbol: '╗', paint: frame_tint(0) });
    assert_eq!(glyph_at(&frame, 40, 21), Glyph { symbol: '╚', paint: frame_tint(21) });
    assert_eq!(glyph_at(&frame, 61, 21), Glyph { symbol: '╝', paint: frame_tint(21) });
    assert_eq!(glyph_at(&frame, 40, 7), Glyph { symbol: '║', paint: frame_tint(7) });
    assert_eq!(glyph_at(&frame, 61, 7), Glyph { symbol: '║', paint: frame_tint(7) });
    assert_eq!(glyph_at(&frame, 41, 0), Glyph { symbol: '═', paint: frame_tint(0) });
    assert_eq!(glyph_at(&frame, 60, 21), Glyph { symbol: '═', paint: frame_tint(21) });
    // The title lies over the top of the frame.
    assert_eq!(text_at(&frame, 48, 0, 6), "TETRIS");
    assert_eq!(glyph_at(&frame, 48, 0).paint, Paint::Bold(Tint::Frame(0, 0)));
    assert_eq!(glyph_at(&frame, 47, 0).symbol, '═');
    // The dots of the ground: in every other column.
    assert_eq!(glyph_at(&frame, 41, 10), Glyph { symbol: '.', paint: frame_tint(10) });
    assert_eq!(glyph_at(&frame, 42, 10), Glyph { symbol: ' ', paint: frame_tint(10) });
    // The texts beside the board.
    assert_eq!(text_at(&frame, 63, 2, 5), "NEXT:");
    assert_eq!(text_at(&frame, 31, 2, 5), "HOLD:");
    assert_eq!(text_at(&frame, 63, 17, 9), "SCORE: 0 ");
    assert_eq!(text_at(&frame, 63, 18, 8), "LEVEL: 1");
    assert_eq!(text_at(&frame, 63, 19, 8), "LINES: 0");
    assert_eq!(glyph_at(&frame, 63, 17).paint, Paint::Plain);
    // Nothing else far from the board.
    assert_eq!(glyph_at(&frame, 5, 25), Glyph { symbol: ' ', paint: Paint::Plain });
    assert_eq!(glyph_at(&frame, 99, 29), Glyph { symbol: ' ', paint: Paint::Plain });
}

#[test]
fn the_frame_shows_the_pieces_and_the_settled_cells() {
    let mut session = single();
    let player = &mut session.game.player;
    player.falling = Tetromino::new(TetrominoVariant::O);
    player.falling.geometry.transform(3, 10);
    player.board.0[0][0] = Some(Color::Red);
    player.board.0[1] = vec![Some(Color::Blue); 10];
    player.clearing.insert(1);
    player.holding = Some(Tetromino::new(TetrominoVariant::T));
    player.update_ghost();
    let next = player.bag.next.clone();
    let display = Display::new(Mode::Singleplayer, (100, 30));
    let frame = display.construct_frame(&session.game, QUIET, &Vec::new());
    let yellow = Tint::Cell(Color::Yellow);
    // The cell (4, 10) of the falling piece: two columns wide, in the row
    // eleven from the floor of the board.
    assert_eq!(glyph_at(&frame, 50, 10), Glyph { symbol: ' ', paint: Paint::On(yellow) });
    assert_eq!(glyph_at(&frame, 49, 10), Glyph { symbol: ' ', paint: Paint::On(yellow) });
    assert_eq!(glyph_at(&frame, 52, 9), Glyph { symbol: ' ', paint: Paint::On(yellow) });
    assert_eq!(glyph_at(&frame, 53, 10).paint, Paint::With(Tint::Frame(0, 10)));
    // Its preview stands on the full row.
    assert_eq!(glyph_at(&frame, 50, 18), Glyph { symbol: '░', paint: Paint::With(yellow) });
    assert_eq!(glyph_at(&frame, 51, 17), Glyph { symbol: '░', paint: Paint::With(yellow) });
    // The settled cells; a row that is marked flashes.
    assert_eq!(
        glyph_at(&frame, 41, 20),
        Glyph { symbol: ' ', paint: Paint::On(Tint::Cell(Color::Red)) }
    );
    assert_eq!(
        glyph_at(&frame, 42, 20),
        Glyph { symbol: ' ', paint: Paint::On(Tint::Cell(Color::Red)) }
    );
    assert_eq!(glyph_at(&frame, 43, 20).paint, Paint::With(Tint::Frame(0, 20)));
    for x in 41..61 {
        assert_eq!(
            glyph_at(&frame, x, 19),
            Glyph { symbol: '▓', paint: Paint::With(Tint::White) }
        );
    }
    // The held piece to the left, the queue to the right.
    let magenta = Paint::On(Tint::Cell(Color::Magenta));
    assert_eq!(glyph_at(&frame, 33, 4), Glyph { symbol: ' ', paint: magenta });
    assert_eq!(glyph_at(&frame, 35, 5), Glyph { symbol: ' ', paint: magenta });
    for (i, variant) in next.iter().enumerate() {
        let piece = Tetromino::new(*variant);
        let (cell_x, cell_y) = piece.geometry.shape[0];
        let x = 62 + (cell_x as usize + 1) * 2;
        let y = (i + 1) * 3 + 1 + cell_y as usize;
        assert_eq!(
            glyph_at(&frame, x, y),
            Glyph { symbol: ' ', paint: Paint::On(Tint::Cell(piece.color)) }
        );
    }
    // A piece that is seen to rest is drawn as it locks.
    session.game.player.locking = true;
    let frame = display.construct_frame(&session.game, QUIET, &Vec::new());
    assert_eq!(glyph_at(&frame, 50, 10), Glyph { symbol: '▓', paint: Paint::With(yellow) });
}

#[test]
fn the_frame_shows_the_readouts_and_the_log() {
    let mut session = host();
    session.game.player.score.score = 1234;
    session.game.player.score.combo = 3;
    session.game.opponent.as_mut().unwrap().score.lines = 17;
    let mut display = Display::new(Mode::Multiplayer, (120, 30));
    display.fps = 59;
    let readouts = Readouts { display_frame_rate: true, display_ping: true, rtt: 48 };
    let log: Vec<Vec<char>> = (1..=8).map(|n| format!("line {}", n).chars().collect()).collect();
    let frame = display.construct_frame(&session.game, readouts, &log);
    assert_eq!(text_at(&frame, 0, 0, 6), "59 fps");
    assert_eq!(text_at(&frame, 0, 1, 5), "48 ms");
    // The last six lines of the log, the last of them at the foot.
    for i in 0..6 {
        assert_eq!(text_at(&frame, 0, 29 - i, 6), format!("line {}", 8 - i));
    }
    assert_eq!(glyph_at(&frame, 0, 23).symbol, ' ');
    // The boards of both players and their texts.
    assert_eq!(display.board_x, vec![(20, 42), (80, 102)]);
    assert_eq!(text_at(&frame, 43, 17, 14), "SCORE: 1234 x3");
    assert_eq!(text_at(&frame, 103, 19, 9), "LINES: 17");
    assert_eq!(glyph_at(&frame, 20, 0).symbol, '╔');
    assert_eq!(glyph_at(&frame, 80, 0), Glyph { symbol: '╔', paint: Paint::With(Tint::Frame(1, 0)) });
    // Without the frames a second the time of the peer stands in the first row.
    let readouts = Readouts { display_frame_rate: false, display_ping: true, rtt: 7 };
    let frame = display.construct_frame(&session.game, readouts, &Vec::new());
    assert_eq!(text_at(&frame, 0, 0, 4), "7 ms");
    // It is shown between peers and against a computer, not to a lone player.
    let alone = Display::new(Mode::Singleplayer, (120, 30));
    let frame = alone.construct_frame(&single().game, readouts, &Vec::new());
    assert_eq!(glyph_at(&frame, 0, 0).symbol, ' ');
}

#[test]
fn a_frame_of_a_terminal_without_cells_is_empty() {
    let display = Display::new(Mode::Singleplayer, (0, 0));
    assert_eq!(display.construct_frame(&single().game, QUIET, &Vec::new()), Vec::<Vec<Glyph>>::new());
    let display = Display::new(Mode::Multiplayer, (3, 2));
    let frame = display.construct_frame(&host().game, QUIET, &Vec::new());
    assert_eq!(frame.len(), 2);
    assert_eq!(frame[1].len(), 3);
}

/// A step of a generator of numbers that is good enough to pick moves.
fn next_number(state: &mut u64) -> u64 {
    *state = state.wrapping_mul(6364136223846793005).wrapping_add(1442695040888963407);
    *state >> 33
}

#[test]
fn a_long_game_stays_in_order() {
    for seed in 0..4u64 {
        let mut state = seed;
        let mut session = Session::start(Mode::PlayerVsComputer, ConnKind::Empty, &info(), seed);
        let display = Display::new(Mode::PlayerVsComputer, (100, 30));
        assert!(session.is_wf());
        assert!(display.is_wf());
        let inputs = [
            InputAction::MoveLeft,
            InputAction::MoveRight,
            InputAction::RotateLeft,
            InputAction::RotateRight,
            InputAction::SoftDrop,
            InputAction::HardDrop,
            InputAction::Hold,
        ];
        let mut steps = 0;
        while !session.over() && steps < 3000 {
            steps += 1;
            match next_number(&mut state) % 8 {
                0 => {
                    session.drop_tick(Seat::Player);
                }
                1 => {
                    session.drop_tick(Seat::Opponent);
                }
                2 => {
                    session.lock_delay();
                }
                3 => {
                    assert!(session.agents().is_ok());
                }
                4 => {
                    assert!(session.line_clear_delay(Seat::Player).is_ok());
                    assert!(session.line_clear_delay(Seat::Opponent).is_ok());
                }
                _ => {
                    let input = inputs[(next_number(&mut state) % 7) as usize];
                    assert!(session.input(input).is_ok());
                }
            }
            assert!(session.is_wf());
            if steps % 100 == 0 {
                let frame = display.construct_frame(&session.game, QUIET, &Vec::new());
                assert_eq!(frame.len(), 30);
            }
        }
        // The players have played: pieces lie on both boards.
        assert!(!session.game.player.board.is_blank());
        assert!(!session.game.opponent.as_ref().unwrap().board.is_blank());
    }
}

#[test]
fn a_game_out_of_order_is_told() {
    let mut session = host();
    assert!(session.is_wf());
    session.game.player.board.0[3].pop();
    assert!(!session.is_wf());
    let mut session = host();
    session.game.player.board.0.truncate(19);
    assert!(!session.is_wf());
    let mut session = host();
    session.game.opponent.as_mut().unwrap().lock_reset_count = 16;
    assert!(!session.is_wf());
    let mut session = host();
    session.game.player.falling.geometry.transform(-9, 0);
    assert!(!session.is_wf());
    let mut session = host();
    session.game.player.score.level = 9;
    assert!(!session.is_wf());
    let mut session = host();
    session.game.player.score.combo = -2;
    assert!(!session.is_wf());
    let mut session = host();
    session.game.player.clearing.insert(5);
    assert!(!session.is_wf());
    // Who has lost need not have the full rows marked.
    session.game.player.lost = true;
    assert!(session.is_wf());
    let mut session = host();
    session.game.player.board.0[2] = vec![Some(Color::White); 10];
    assert!(!session.is_wf());
    session.game.player.clearing.insert(2);
    assert!(session.is_wf());
    let mut session = host();
    let mut held = Tetromino::new(TetrominoVariant::J);
    session.game.player.holding = Some(held);
    assert!(session.is_wf());
    held.geometry.transform(1, 0);
    session.game.player.holding = Some(held);
    assert!(!session.is_wf());
    let mut session = host();
    let first = session.game.player.bag.next[0];
    session.game.player.bag.next[1] = first;
    assert!(!session.is_wf());
    let mut session = host();
    session.game.player.bag.rest.clear();
    assert!(!session.is_wf());
    let mut display = Display::new(Mode::Multiplayer, (100, 30));
    assert!(display.is_wf());
    display.board_x.push((0, 22));
    assert!(!display.is_wf());
    display.board_x.truncate(1);
    display.board_x[0] = (5, 4);
    assert!(!display.is_wf());
}
