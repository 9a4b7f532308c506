use hanzo::{
    Config, Direction, Event, Game, MsgToClient, MsgToServer, Phase, Relay, Reply, Status, Tile,
    TileMap, TurnLoop,
};

fn game(players: usize) -> Game {
    let mut config = Config::default();
    config.players = players;
    Game {
        address: String::from("127.0.0.1:7878"),
        config,
        quit: Status::Running,
        defender: 1,
        player: 0,
        positions: vec![Some((1, 1)), None, Some((2, 2)), Some((3, 3))],
        guards: vec![Some(((2, 1), Direction::Up))],
        targets: vec![Some((3, 1)), None, Some((0, 0)), Some((0, 3))],
        map: TileMap { len: 4, buf: vec![Tile::Floor; 16] },
    }
}

fn placement() -> MsgToServer {
    MsgToServer {
        new: None,
        guards: vec![Some(((0, 3), Direction::Right)), Some(((3, 0), Direction::Down))],
        quit: Status::Running,
    }
}

#[test]
fn turn_loop_starts_with_the_placement() {
    let server = TurnLoop::new(game(3), placement());
    assert_eq!(server.current, 0);
    assert_eq!(server.game.guards, placement().guards);
    assert_eq!(server.game.positions, vec![Some((1, 1)), None, Some((2, 2)), Some((3, 3))]);
    assert_eq!(server.game.quit, Status::Running);
}

#[test]
fn turn_goes_round_the_players() {
    let mut server = TurnLoop::new(game(3), placement());
    let mut order = Vec::new();
    for _ in 0..8 {
        let round = server.begin_round();
        assert_eq!(round.messages.len(), 3);
        let active: Vec<usize> =
            (0..3).filter(|&i| round.messages[i].turn).collect();
        assert_eq!(active, vec![server.current]);
        assert_eq!(round.awaiting, Some(server.current));
        order.push(server.current);
        let at = server.game.positions[server.current];
        server.end_round(MsgToServer {
            new: at,
            guards: placement().guards,
            quit: Status::Running,
        });
    }
    assert_eq!(order, vec![0, 1, 2, 0, 1, 2, 0, 1]);
}

#[test]
fn round_tells_each_player_its_part() {
    let mut server = TurnLoop::new(game(4), placement());
    let round = server.begin_round();
    assert_eq!(round.messages.len(), 4);
    for (i, m) in round.messages.iter().enumerate() {
        assert_eq!(m.turn, i == 0);
        assert_eq!(m.defender, i == 1);
        assert_eq!(m.positions, server.game.positions);
        assert_eq!(m.guards, server.game.guards);
        assert_eq!(m.quit, Status::Running);
    }
}

#[test]
fn round_after_the_end_waits_for_nobody() {
    let mut g = game(3);
    g.positions = vec![Some((3, 1)), None, Some((0, 0)), Some((0, 3))];
    let mut server = TurnLoop::new(g, placement());
    let round = server.begin_round();
    assert_eq!(server.game.quit, Status::AttackerVictory);
    assert_eq!(round.awaiting, None);
    assert_eq!(round.messages[0].quit, Status::AttackerVictory);
    assert_eq!(round.messages[1].quit, Status::Quit);
    assert_eq!(round.messages[2].quit, Status::AttackerVictory);
}

#[test]
fn round_ends_with_the_update_of_the_active_player() {
    let mut server = TurnLoop::new(game(2), placement());
    server.end_round(MsgToServer { new: Some((1, 2)), guards: vec![], quit: Status::Running });
    assert_eq!(server.current, 1);
    assert_eq!(server.game.positions[0], Some((1, 2)));
    assert_eq!(server.game.guards, vec![]);
    server.end_round(MsgToServer { new: None, guards: vec![None], quit: Status::Quit });
    assert_eq!(server.current, 0);
    assert_eq!(server.game.positions[1], None);
    assert_eq!(server.game.quit, Status::Quit);
}

#[test]
fn a_single_player_is_always_active() {
    let mut g = game(1);
    g.defender = 0;
    let mut server = TurnLoop::new(g, placement());
    for _ in 0..3 {
        assert_eq!(server.current, 0);
        server.end_round(MsgToServer {
            new: Some((1, 1)),
            guards: placement().guards,
            quit: Status::Running,
        });
    }
}

#[test]
fn worker_of_an_attacker() {
    let (p, r) = Phase::Connecting.step(Event::GameSent { defender: false });
    assert_eq!((p, r), (Phase::Active, Relay::Forward));
    let (p, r) = p.step(Event::MessageSent { turn: false, quit: Status::Running });
    assert_eq!((p, r), (Phase::Active, Relay::Forward));
    let (p, r) = p.step(Event::MessageSent { turn: true, quit: Status::Running });
    assert_eq!((p, r), (Phase::Active, Relay::Read));
    let (p, r) = p.step(Event::UpdatePassed);
    assert_eq!((p, r), (Phase::Active, Relay::Forward));
    let (p, r) = p.step(Event::MessageSent { turn: true, quit: Status::Quit });
    assert_eq!((p, r), (Phase::Terminated, Relay::Close));
    let (p, r) = p.step(Event::MessageSent { turn: true, quit: Status::Running });
    assert_eq!((p, r), (Phase::Terminated, Relay::Close));
}

#[test]
fn worker_of_the_defender_waits_for_the_guards() {
    let (p, r) = Phase::Connecting.step(Event::GameSent { defender: true });
    assert_eq!((p, r), (Phase::AwaitingGuardSetup, Relay::Read));
    assert_eq!(
        p.step(Event::MessageSent { turn: true, quit: Status::Running }),
        (Phase::Terminated, Relay::Close)
    );
    assert_eq!(p.step(Event::UpdatePassed), (Phase::Active, Relay::Forward));
}

#[test]
fn worker_stops_on_failure() {
    for p in [Phase::Connecting, Phase::AwaitingGuardSetup, Phase::Active, Phase::Terminated] {
        assert_eq!(p.step(Event::Failed), (Phase::Terminated, Relay::Close));
    }
    assert_eq!(Phase::Connecting.step(Event::UpdatePassed), (Phase::Terminated, Relay::Close));
    assert_eq!(
        Phase::Active.step(Event::GameSent { defender: false }),
        (Phase::Terminated, Relay::Close)
    );
    for quit in [Status::AttackerVictory, Status::DefenderVictory, Status::Quit] {
        assert_eq!(
            Phase::Active.step(Event::MessageSent { turn: false, quit }),
            (Phase::Terminated, Relay::Close)
        );
    }
}

#[test]
fn client_mirrors_the_message() {
    let mut g = game(3);
    g.player = 2;
    let reply = g.receive(MsgToClient {
        turn: true,
        defender: false,
        positions: vec![Some((1, 2)), None, Some((2, 3)), None],
        guards: vec![None],
        quit: Status::Running,
    });
    assert_eq!(reply, Reply::Play { defender: false });
    assert_eq!(g.positions, vec![Some((1, 2)), None, Some((2, 3)), None]);
    assert_eq!(g.guards, vec![None]);
    let report = g.report();
    assert_eq!(report.new, Some((2, 3)));
    assert_eq!(report.guards, vec![None]);
    assert_eq!(report.quit, Status::Running);
}

#[test]
fn client_replies_by_turn_and_status() {
    let msg = |turn, defender, quit| MsgToClient {
        turn,
        defender,
        positions: vec![None, None, None, None],
        guards: vec![],
        quit,
    };
    let mut g = game(3);
    assert_eq!(g.receive(msg(false, false, Status::Running)), Reply::Wait);
    assert_eq!(g.receive(msg(true, true, Status::Running)), Reply::Play { defender: true });
    assert_eq!(g.receive(msg(true, false, Status::Quit)), Reply::Finish { won: false });
    assert_eq!(g.quit, Status::Quit);
    assert_eq!(g.receive(msg(false, false, Status::AttackerVictory)), Reply::Finish { won: true });
    assert_eq!(g.receive(msg(true, true, Status::DefenderVictory)), Reply::Finish { won: true });
}

#[test]
fn each_connection_gets_the_game_with_its_own_index() {
    let g = game(3);
    let copy = g.for_player(2);
    assert_eq!(copy.player, 2);
    assert_eq!(copy.defender, g.defender);
    assert_eq!(copy.address, g.address);
    assert_eq!(copy.positions, g.positions);
    assert_eq!(copy.guards, g.guards);
    assert_eq!(copy.targets, g.targets);
    assert_eq!(copy.map.len, g.map.len);
    assert_eq!(copy.map.buf, g.map.buf);
    assert_eq!(copy.config.players, 3);
    assert_eq!(g.clone().player, 0);
}
