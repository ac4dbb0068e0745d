use tetris::conn::ConnKind;
use tetris::game::{Game, GameInfo};
use tetris::player::{Player, PlayerKind};
use tetris::Mode;

fn same(a: &Player, b: &Player) -> bool {
    a.falling == b.falling
        && a.bag.next == b.bag.next
        && a.bag.rest == b.bag.rest
        && a.board.0 == b.board.0
        && a.score == b.score
        && a.seed == b.seed
}

#[test]
fn game_info_to_bytes_is_level_then_seeds() {
    let info = GameInfo { start_level: 0x0a0b_0c0d, seeds: vec![u64::MAX, 2, 0x1122_3344_5566_7788] };
    assert_eq!(
        info.to_bytes(),
        vec![
            0x0d, 0x0c, 0x0b, 0x0a, // start level
            255, 255, 255, 255, 255, 255, 255, 255, // first seed
            2, 0, 0, 0, 0, 0, 0, 0, // second seed
            0x88, 0x77, 0x66, 0x55, 0x44, 0x33, 0x22, 0x11, // third seed
        ]
    );
    assert_eq!(GameInfo { start_level: 1, seeds: vec![] }.to_bytes(), vec![1, 0, 0, 0]);
}

#[test]
fn game_info_from_bytes_reads_level_and_two_seeds() {
    let mut buf = [0u8; 63];
    buf[..20].copy_from_slice(&[
        3, 0, 0, 0, 0x10, 0x20, 0, 0, 0, 0, 0, 0, 0, 0, 0, 0, 0, 0, 0, 0x80,
    ]);
    assert_eq!(
        GameInfo::from_bytes(buf),
        GameInfo { start_level: 3, seeds: vec![0x2010, 0x8000_0000_0000_0000] }
    );
}

#[test]
fn game_info_round_trip() {
    for (level, a, b) in [(0u32, 0u64, 0u64), (1, 2, 3), (u32::MAX, u64::MAX, 1 << 63)] {
        let info = GameInfo { start_level: level, seeds: vec![a, b] };
        let mut buf = [0u8; 63];
        buf[..20].copy_from_slice(&info.to_bytes());
        assert_eq!(GameInfo::from_bytes(buf), info);
    }
}

#[test]
fn a_singleplayer_game_has_no_opponent() {
    let info = GameInfo { start_level: 4, seeds: vec![99] };
    let game = Game::start(Mode::Singleplayer, ConnKind::Empty, &info, 0);
    assert!(game.opponent.is_none());
    assert_eq!(game.player.kind, PlayerKind::Local);
    assert_eq!(game.player.score.level, 4);
    assert!(same(&game.player, &Player::new(PlayerKind::Local, 4, 99)));
    assert!(game.player.ghost_piece.is_some());
    assert!(!game.over());
}

#[test]
fn host_and_client_seat_the_players_crosswise() {
    let info = GameInfo { start_level: 2, seeds: vec![11, 22] };
    let host = Game::start(Mode::Multiplayer, ConnKind::Host, &info, 0);
    let client = Game::start(Mode::Multiplayer, ConnKind::Client, &info, 0);
    assert_eq!(host.player.kind, PlayerKind::Local);
    assert_eq!(client.player.kind, PlayerKind::Local);
    let host_opponent = host.opponent.as_ref().unwrap();
    let client_opponent = client.opponent.as_ref().unwrap();
    assert_eq!(host_opponent.kind, PlayerKind::Remote);
    assert_eq!(client_opponent.kind, PlayerKind::Remote);
    assert!(same(&host.player, &Player::new(PlayerKind::Local, 2, 11)));
    assert!(same(host_opponent, &Player::new(PlayerKind::Remote, 2, 22)));
    // Each side sees the other as the other sees itself.
    assert!(same(&host.player, client_opponent));
    assert!(same(&client.player, host_opponent));
    assert_eq!(host.player.ghost_piece, client_opponent.ghost_piece);
}

#[test]
fn a_computer_opponent_is_dealt_by_its_own_seed() {
    let info = GameInfo { start_level: 1, seeds: vec![5] };
    let game = Game::start(Mode::PlayerVsComputer, ConnKind::Empty, &info, 77);
    assert_eq!(game.player.kind, PlayerKind::Local);
    let opponent = game.opponent.as_ref().unwrap();
    assert_eq!(opponent.kind, PlayerKind::Computer);
    assert!(same(opponent, &Player::new(PlayerKind::Computer, 1, 77)));
    let game = Game::start(Mode::ComputerVsComputer, ConnKind::Empty, &info, 78);
    assert_eq!(game.player.kind, PlayerKind::Computer);
    assert_eq!(game.opponent.as_ref().unwrap().kind, PlayerKind::Computer);
}

#[test]
fn a_game_is_over_when_a_player_has_lost() {
    let info = GameInfo { start_level: 1, seeds: vec![5, 6] };
    let mut game = Game::start(Mode::Multiplayer, ConnKind::Host, &info, 0);
    assert!(!game.over());
    game.opponent.as_mut().unwrap().lost = true;
    assert!(game.over());
    game.opponent.as_mut().unwrap().lost = false;
    game.player.lost = true;
    assert!(game.over());
}
