use hanzo::clock::time_left;
use hanzo::ui::{count_filled, holds_cell, map_to_display, splash_line, tile_text};
use hanzo::{
    Colour, Config, Direction, Game, Guard, Key, MsgToClient, Point, Status, Tile, TileMap,
    TurnState, UIBackend, UiError, UserInterface,
};

const ROOM: &str = "
########
#......#
#......#
#...#..#
#......#
#......#
#......#
########
";

struct Recorder {
    size: Point,
    keys: Vec<Key>,
    drawn: Vec<(Point, String, Colour, Colour)>,
    messages: Vec<String>,
    cleared: usize,
    flushed: usize,
    broken: bool,
}

impl Recorder {
    fn sized(size: Point) -> Recorder {
        Recorder {
            size,
            keys: Vec::new(),
            drawn: Vec::new(),
            messages: Vec::new(),
            cleared: 0,
            flushed: 0,
            broken: false,
        }
    }
}

impl UIBackend for Recorder {
    fn new() -> Result<Self, UiError> {
        Ok(Recorder::sized((80, 24)))
    }

    fn draw(&mut self, pos: Point, str: &str, fg: Colour, bg: Colour) -> Result<(), UiError> {
        if self.broken {
            return Err(UiError { message: String::from("broken") });
        }
        self.drawn.push((pos, String::from(str), fg, bg));
        Ok(())
    }

    fn flush(&mut self) -> Result<(), UiError> {
        self.flushed += 1;
        Ok(())
    }

    fn clear(&mut self) -> Result<(), UiError> {
        self.cleared += 1;
        self.drawn.clear();
        Ok(())
    }

    fn input(&mut self, _timeout: u64) -> Result<Option<Key>, UiError> {
        if self.keys.is_empty() {
            Ok(None)
        } else {
            Ok(Some(self.keys.remove(0)))
        }
    }

    fn size(&self) -> Point {
        self.size
    }

    fn message(&mut self, msg: &str) -> Result<(), UiError> {
        self.messages.push(String::from(msg));
        Ok(())
    }

    fn reset(&mut self) {
        self.drawn.clear();
    }
}

fn game(positions: Vec<Option<Point>>, guards: Vec<Guard>) -> Game {
    let mut config = Config::default();
    config.viewcone_length = 3;
    config.viewcone_width = 2;
    config.players = 2;
    Game {
        address: String::from("127.0.0.1:7878"),
        config,
        quit: Status::Running,
        defender: 0,
        player: 1,
        positions,
        guards,
        targets: vec![None, Some((6, 6))],
        map: TileMap::from(ROOM),
    }
}

fn ui() -> UserInterface<Recorder> {
    UserInterface::new(Recorder::sized((80, 24)))
}

fn texts_at(ui: &mut UserInterface<Recorder>, pos: Point) -> Vec<String> {
    ui.backend().drawn.iter().filter(|d| d.0 == pos).map(|d| d.1.clone()).collect()
}

#[test]
fn cells_are_drawn_where_they_are_without_a_centre() {
    assert_eq!(map_to_display((80, 24), None, (3, 4)), Some((3, 4)));
    assert_eq!(map_to_display((80, 24), None, (79, 22)), Some((79, 22)));
    assert_eq!(map_to_display((80, 24), None, (80, 4)), None);
    assert_eq!(map_to_display((80, 24), None, (3, 23)), None);
    assert_eq!(map_to_display((80, 0), None, (0, 0)), None);
    assert_eq!(map_to_display((80, 1), None, (0, 0)), None);
}

#[test]
fn cells_are_shifted_round_the_centre() {
    assert_eq!(map_to_display((80, 24), Some((10, 10)), (12, 9)), Some((42, 10)));
    assert_eq!(map_to_display((80, 24), Some((10, 10)), (10, 10)), Some((40, 11)));
    assert_eq!(map_to_display((80, 24), Some((100, 100)), (60, 89)), Some((0, 0)));
    assert_eq!(map_to_display((80, 24), Some((100, 100)), (59, 89)), None);
    assert_eq!(map_to_display((80, 24), Some((100, 100)), (60, 88)), None);
    assert_eq!(map_to_display((80, 24), Some((0, 0)), (40, 0)), None);
    assert_eq!(map_to_display((80, 24), Some((0, 0)), (39, 11)), Some((79, 22)));
    assert_eq!(map_to_display((255, 255), Some((0, 0)), (255, 255)), None);
    assert_eq!(map_to_display((255, 255), Some((0, 0)), (127, 127)), None);
    assert_eq!(map_to_display((255, 255), Some((0, 0)), (127, 126)), Some((254, 253)));
}

#[test]
fn small_helpers() {
    assert_eq!(tile_text(Tile::Floor), ".");
    assert_eq!(tile_text(Tile::Wall), "#");
    assert_eq!(count_filled(&vec![Some(1), None, Some(3)]), 2);
    assert_eq!(count_filled::<u8>(&vec![]), 0);
    assert!(holds_cell(&vec![((1, 2), Tile::Floor)], (1, 2)));
    assert!(!holds_cell(&vec![((1, 2), Tile::Floor)], (2, 1)));
    assert_eq!(splash_line(6), "Version: 0.1.0");
    assert_eq!(splash_line(5), "");
    assert_eq!(hanzo::ui::hidden(3), vec![None, None, None]);
    assert_eq!(hanzo::ui::gave_up(), "no key came");
}

#[test]
fn tab_selects_the_next_guard_in_play() {
    let mut g = game(
        vec![None, Some((1, 1))],
        vec![Some(((2, 2), Direction::Up)), None, Some(((3, 5), Direction::Up)), None],
    );
    let mut ui = ui();
    let mut set = false;
    assert_eq!(ui.selected(), 0);
    assert_eq!(ui.defender(&mut g, Key::Tab, &mut set), 0);
    assert_eq!(ui.selected(), 2);
    assert_eq!(ui.defender(&mut g, Key::Tab, &mut set), 0);
    assert_eq!(ui.selected(), 0);
    g.guards[2] = None;
    assert_eq!(ui.defender(&mut g, Key::Tab, &mut set), 0);
    assert_eq!(ui.selected(), 0);
    g.guards[0] = None;
    assert_eq!(ui.defender(&mut g, Key::Tab, &mut set), 0);
    assert_eq!(ui.selected(), 0);
    g.guards = vec![];
    assert_eq!(ui.defender(&mut g, Key::Tab, &mut set), 0);
    assert!(!set);
}

#[test]
fn first_guard_in_play_is_selected() {
    let mut ui = ui();
    let g = game(vec![None, None], vec![None, None, Some(((3, 5), Direction::Up))]);
    ui.select_first(&g);
    assert_eq!(ui.selected(), 2);
    let none = game(vec![None, None], vec![None, None]);
    ui.select_first(&none);
    assert_eq!(ui.selected(), 0);
}

#[test]
fn defender_keys_steer_the_selected_guard() {
    let mut g = game(vec![None, Some((1, 1))], vec![Some(((3, 3), Direction::Up))]);
    let mut ui = ui();
    let mut set = false;
    assert_eq!(ui.defender(&mut g, Key::Right, &mut set), 1);
    assert_eq!(g.guards[0], Some(((3, 3), Direction::Up)));
    assert_eq!(ui.defender(&mut g, Key::Left, &mut set), 1);
    assert_eq!(g.guards[0], Some(((2, 3), Direction::Up)));
    assert_eq!(ui.defender(&mut g, Key::Up, &mut set), 1);
    assert_eq!(g.guards[0], Some(((2, 2), Direction::Up)));
    assert_eq!(ui.defender(&mut g, Key::Down, &mut set), 1);
    assert_eq!(g.guards[0], Some(((2, 3), Direction::Up)));
    assert_eq!(ui.defender(&mut g, Key::Char(']'), &mut set), 1);
    assert_eq!(g.guards[0], Some(((2, 3), Direction::Right)));
    assert_eq!(ui.defender(&mut g, Key::Char('['), &mut set), 1);
    assert_eq!(ui.defender(&mut g, Key::Char('['), &mut set), 1);
    assert_eq!(g.guards[0], Some(((2, 3), Direction::Left)));
    assert_eq!(ui.defender(&mut g, Key::Char('.'), &mut set), 1);
    assert_eq!(ui.defender(&mut g, Key::Char('x'), &mut set), 0);
    assert!(!set);
    assert_eq!(ui.defender(&mut g, Key::Char(' '), &mut set), 1);
    assert!(set);
    assert_eq!(g.quit, Status::Running);
    assert_eq!(ui.defender(&mut g, Key::Char('q'), &mut set), 10);
    assert_eq!(g.quit, Status::Quit);
    assert_eq!(g.guards[0], Some(((2, 3), Direction::Left)));
}

#[test]
fn attacker_keys_move_the_player() {
    let mut g = game(vec![None, Some((3, 3))], vec![]);
    let ui = ui();
    assert_eq!(ui.player(&mut g, Key::Right), 1);
    assert_eq!(g.positions[1], Some((3, 3)));
    assert_eq!(ui.player(&mut g, Key::Left), 1);
    assert_eq!(g.positions[1], Some((2, 3)));
    assert_eq!(ui.player(&mut g, Key::Up), 1);
    assert_eq!(g.positions[1], Some((2, 2)));
    assert_eq!(ui.player(&mut g, Key::Down), 1);
    assert_eq!(g.positions[1], Some((2, 3)));
    assert_eq!(ui.player(&mut g, Key::Tab), 1);
    assert_eq!(ui.player(&mut g, Key::Char('.')), 1);
    assert_eq!(ui.player(&mut g, Key::Char('[')), 0);
    assert_eq!(ui.player(&mut g, Key::Char('x')), 0);
    assert_eq!(g.positions[1], Some((2, 3)));
    assert_eq!(ui.player(&mut g, Key::Char('q')), 5);
    assert_eq!(g.quit, Status::Quit);
}

#[test]
fn turn_begins_with_the_full_budget() {
    let mut ui = ui();
    let g = game(vec![None, Some((1, 1))], vec![None, Some(((3, 5), Direction::Up))]);
    let s = ui.begin_turn(&g, true);
    assert_eq!((s.actions, s.exposed), (10, 0));
    assert_eq!(ui.selected(), 1);
    let s = ui.begin_turn(&g, false);
    assert_eq!((s.actions, s.exposed), (5, 0));
    assert!(UserInterface::<Recorder>::turn_open(&g, false, &s));
    let done = TurnState { actions: 0, exposed: 0 };
    assert!(!UserInterface::<Recorder>::turn_open(&g, false, &done));
    let out = game(vec![None, None], vec![]);
    assert!(!UserInterface::<Recorder>::turn_open(&out, false, &s));
    assert!(UserInterface::<Recorder>::turn_open(&out, true, &s));
}

#[test]
fn attacker_walking_into_a_guard_takes_it_out() {
    let mut g = game(vec![None, Some((5, 5))], vec![Some(((6, 5), Direction::Right))]);
    let mut ui = ui();
    let mut s = ui.begin_turn(&g, false);
    assert_eq!(ui.take_key(&mut g, false, Key::Right, &mut s).unwrap(), true);
    assert_eq!(g.positions[1], Some((6, 5)));
    assert_eq!(g.guards, vec![None]);
    assert_eq!(s.actions, 4);
    assert_eq!(s.exposed, 0);
}

#[test]
fn attacker_in_sight_is_caught_on_the_third_action() {
    let mut g = game(vec![None, Some((3, 2))], vec![Some(((3, 5), Direction::Up))]);
    let mut ui = ui();
    let mut s = ui.begin_turn(&g, false);
    assert!(ui.take_key(&mut g, false, Key::Char('.'), &mut s).unwrap());
    assert_eq!((s.actions, s.exposed), (4, 1));
    assert!(ui.take_key(&mut g, false, Key::Char('x'), &mut s).unwrap());
    assert_eq!((s.actions, s.exposed), (4, 2));
    assert_eq!(g.positions[1], Some((3, 2)));
    assert!(ui.take_key(&mut g, false, Key::Down, &mut s).unwrap());
    assert_eq!((s.actions, s.exposed), (3, 3));
    assert_eq!(g.positions[1], None);
    assert!(!UserInterface::<Recorder>::turn_open(&g, false, &s));
}

#[test]
fn attacker_reaching_its_target_ends_its_turn() {
    let mut g = game(vec![None, Some((6, 5))], vec![Some(((1, 1), Direction::Up))]);
    let mut ui = ui();
    let mut s = ui.begin_turn(&g, false);
    assert_eq!(ui.take_key(&mut g, false, Key::Down, &mut s).unwrap(), false);
    assert_eq!(g.positions[1], None);
    assert_eq!(s.actions, 4);
}

#[test]
fn quitting_uses_up_the_turn() {
    let mut g = game(vec![None, Some((1, 1))], vec![Some(((3, 5), Direction::Up))]);
    g.player = 0;
    let mut ui = ui();
    let mut s = ui.begin_turn(&g, true);
    assert!(ui.take_key(&mut g, true, Key::Left, &mut s).unwrap());
    assert_eq!(s.actions, 9);
    assert_eq!(g.guards[0], Some(((2, 5), Direction::Up)));
    assert_eq!(ui.take_key(&mut g, true, Key::Char('q'), &mut s).unwrap(), false);
    assert_eq!(s.actions, -1);
    assert_eq!(g.quit, Status::Quit);
}

#[test]
fn defender_display_draws_cones_players_and_guards() {
    let g = game(vec![None, Some((3, 3))], vec![Some(((3, 5), Direction::Up)), None]);
    let mut ui = ui();
    ui.display_defender(&g, false).unwrap();
    assert_eq!(ui.backend().cleared, 1);
    assert_eq!(ui.backend().flushed, 1);
    // centred on guard 0 at (3, 5): shift is (40 - 3, 11 - 5)
    assert_eq!(texts_at(&mut ui, (40, 11)), vec![".", "G"]);
    assert_eq!(texts_at(&mut ui, (40, 9)), vec![".", "A"]);
    assert_eq!(texts_at(&mut ui, (39, 8)), vec!["."]);
    assert_eq!(texts_at(&mut ui, (41, 8)), Vec::<String>::new());
    assert_eq!(ui.backend().drawn.len(), 8);
    let selected = ui.backend().drawn.last().unwrap().clone();
    assert_eq!(selected, ((40, 11), String::from("G"), Colour::Red, Colour::Yellow));
    // what was seen is drawn again next time, before the cones
    ui.display_defender(&g, false).unwrap();
    assert_eq!(ui.backend().drawn.len(), 14);
    assert_eq!(ui.backend().drawn[0].2, Colour::Grey);
}

#[test]
fn defender_display_of_the_whole_map() {
    let g = game(vec![None, None], vec![None]);
    let mut ui = ui();
    ui.display_defender(&g, true).unwrap();
    assert_eq!(ui.backend().drawn.len(), 64);
    assert_eq!(texts_at(&mut ui, (0, 0)), vec!["#"]);
    assert_eq!(texts_at(&mut ui, (1, 1)), vec!["."]);
    assert_eq!(texts_at(&mut ui, (4, 3)), vec!["#"]);
}

#[test]
fn attacker_display_shows_what_the_player_sees() {
    let mut g = game(vec![None, Some((1, 1))], vec![Some(((3, 1), Direction::Left))]);
    g.config.viewcone_width = 1;
    g.targets[1] = Some((1, 3));
    let mut ui = ui();
    ui.display(&g, false).unwrap();
    // centred on the player at (1, 1): shift is (39, 10)
    assert_eq!(texts_at(&mut ui, (40, 11)), vec![".", ".", "A", "A"]);
    assert_eq!(texts_at(&mut ui, (42, 11)), vec![".", ".", "G"]);
    assert_eq!(texts_at(&mut ui, (40, 13)), vec![".", "X"]);
    assert_eq!(texts_at(&mut ui, (43, 11)), vec!["."]);
    assert_eq!(texts_at(&mut ui, (44, 11)), Vec::<String>::new());
    let last = ui.backend().drawn.last().unwrap().clone();
    assert_eq!(last, ((40, 11), String::from("A"), Colour::Cyan, Colour::Reset));
}

#[test]
fn display_fails_when_the_backend_fails() {
    let g = game(vec![None, Some((1, 1))], vec![Some(((3, 5), Direction::Up))]);
    let mut ui = ui();
    ui.backend().broken = true;
    let r = ui.display(&g, true);
    assert_eq!(r.unwrap_err().message, "broken");
}

#[test]
fn messages_and_status_go_to_the_backend() {
    let g = game(vec![None, Some((1, 1))], vec![Some(((3, 5), Direction::Up)), None]);
    let mut ui = ui();
    ui.message("hello").unwrap();
    ui.status(&g, 4, 90).unwrap();
    assert_eq!(
        ui.backend().messages,
        vec![
            String::from("hello"),
            String::from("Your turn! Attackers: 1, Guards: 1, Actions: 4, Turn Time: 90s")
        ]
    );
}

#[test]
fn splash_draws_the_title() {
    let mut ui = ui();
    ui.splash().unwrap();
    assert_eq!(ui.backend().drawn.len(), 7);
    assert_eq!(ui.backend().drawn[0].0, (5, 5));
    assert_eq!(ui.backend().drawn[6], ((5, 11), String::from("Version: 0.1.0"), Colour::Red, Colour::Reset));
    ui.reset();
    assert_eq!(ui.backend().drawn.len(), 0);
}

#[test]
fn guards_are_placed_one_by_one() {
    let mut g = game(
        vec![None, Some((1, 1))],
        vec![Some(((2, 2), Direction::Up)), Some(((3, 5), Direction::Left))],
    );
    let mut ui = ui();
    let players = ui.begin_placing(&mut g).unwrap();
    assert_eq!(players, vec![None, Some((1, 1))]);
    assert_eq!(g.positions, vec![None, None]);
    let mut chosen = Vec::new();
    assert_eq!(ui.place_key(&mut g, Key::Right, &mut chosen).unwrap(), false);
    assert_eq!(ui.place_key(&mut g, Key::Char(']'), &mut chosen).unwrap(), false);
    assert_eq!(ui.place_key(&mut g, Key::Char(' '), &mut chosen).unwrap(), true);
    assert_eq!(chosen, vec![Some(((3, 2), Direction::Right))]);
    assert_eq!(g.guards, vec![None, Some(((3, 5), Direction::Left))]);
    assert_eq!(ui.selected(), 1);
    assert_eq!(ui.place_key(&mut g, Key::Char(' '), &mut chosen).unwrap(), true);
    assert_eq!(ui.place_key(&mut g, Key::Char(' '), &mut chosen).unwrap(), true);
    assert_eq!(
        chosen,
        vec![Some(((3, 2), Direction::Right)), Some(((3, 5), Direction::Left)), None]
    );
    UserInterface::<Recorder>::finish_placing(&mut g, chosen, players);
    assert_eq!(g.positions, vec![None, Some((1, 1))]);
    assert_eq!(g.guards.len(), 3);
}

#[test]
fn client_display_mirrors_the_message() {
    let mut g = game(vec![None, Some((1, 1))], vec![]);
    let mut ui = ui();
    let msg = MsgToClient {
        turn: false,
        defender: false,
        positions: vec![None, Some((2, 1))],
        guards: vec![Some(((3, 5), Direction::Up))],
        quit: Status::DefenderVictory,
    };
    g.display(&mut ui, &msg).unwrap();
    assert_eq!(g.positions, vec![None, Some((2, 1))]);
    assert_eq!(g.guards, vec![Some(((3, 5), Direction::Up))]);
    assert_eq!(g.quit, Status::DefenderVictory);
    assert!(ui.backend().drawn.len() > 0);
}

#[test]
fn idle_scatters_marks_once_the_game_has_begun() {
    let mut ui = ui();
    assert_eq!(ui.idle(false).unwrap(), false);
    assert_eq!(ui.backend().drawn.len(), 0);
    assert_eq!(ui.backend().messages, vec![String::from("Waiting for other players...")]);
    assert_eq!(ui.idle(true).unwrap(), false);
    assert_eq!(ui.backend().drawn.len(), 20);
    for d in ui.backend().drawn.iter() {
        assert!(d.0 .0 < 80 && d.0 .1 < 23);
        assert_eq!(d.1, "@");
    }
    let mut flat = UserInterface::new(Recorder::sized((80, 1)));
    assert_eq!(flat.idle(true).unwrap(), false);
    assert_eq!(flat.backend().drawn.len(), 0);
}

#[test]
fn turn_takes_keys_until_the_budget_is_used() {
    let mut g = game(vec![None, Some((1, 1))], vec![Some(((6, 6), Direction::Down))]);
    let mut ui = ui();
    ui.backend().keys = vec![
        Key::Right,
        Key::Char('x'),
        Key::Right,
        Key::Down,
        Key::Char('.'),
        Key::Left,
        Key::Up,
        Key::Up,
    ];
    ui.input(&mut g, false).unwrap();
    assert_eq!(g.positions[1], Some((2, 2)));
    assert_eq!(ui.backend().keys, vec![Key::Up, Key::Up]);
    assert_eq!(g.quit, Status::Running);
    let first = ui.backend().messages[0].clone();
    assert!(
        first == "Your turn! Attackers: 1, Guards: 1, Actions: 5, Turn Time: 119s"
            || first == "Your turn! Attackers: 1, Guards: 1, Actions: 5, Turn Time: 120s"
    );
    assert_eq!(ui.backend().messages.len(), 6);
}

#[test]
fn turn_ends_when_the_player_quits() {
    let mut g = game(vec![None, Some((1, 1))], vec![Some(((6, 6), Direction::Down))]);
    let mut ui = ui();
    ui.backend().keys = vec![Key::Right, Key::Char('q'), Key::Right];
    let msg = g.play(false, &mut ui).unwrap();
    assert_eq!(msg.new, Some((2, 1)));
    assert_eq!(msg.quit, Status::Quit);
    assert_eq!(msg.guards, g.guards);
    assert_eq!(ui.backend().keys, vec![Key::Right]);
}

#[test]
fn turn_without_time_takes_no_key() {
    let mut g = game(vec![None, Some((1, 1))], vec![]);
    g.config.turn_time = 0;
    let mut ui = ui();
    ui.backend().keys = vec![Key::Right];
    ui.input(&mut g, false).unwrap();
    assert_eq!(g.positions[1], Some((1, 1)));
    assert_eq!(ui.backend().keys, vec![Key::Right]);
}

#[test]
fn turn_of_a_player_out_of_play_is_over_at_once() {
    let mut g = game(vec![None, None], vec![Some(((6, 6), Direction::Down))]);
    let mut ui = ui();
    ui.backend().keys = vec![Key::Right];
    ui.input(&mut g, false).unwrap();
    assert_eq!(ui.backend().keys, vec![Key::Right]);
    assert_eq!(ui.backend().messages.len(), 1);
}

#[test]
fn defender_places_the_configured_number_of_guards() {
    let mut g = game(
        vec![None, Some((1, 1))],
        vec![Some(((2, 2), Direction::Up)), Some(((3, 5), Direction::Left))],
    );
    g.player = 0;
    g.config.num_guards = 2;
    let mut ui = ui();
    ui.backend().keys =
        vec![Key::Down, Key::Char(' '), Key::Char(']'), Key::Char('x'), Key::Char(' '), Key::Up];
    let msg = g.place_guards(&mut ui).unwrap();
    assert_eq!(
        g.guards,
        vec![Some(((2, 3), Direction::Up)), Some(((3, 5), Direction::Up))]
    );
    assert_eq!(g.positions, vec![None, Some((1, 1))]);
    assert_eq!(msg.new, None);
    assert_eq!(msg.guards, g.guards);
    assert_eq!(ui.backend().keys, vec![Key::Up]);
    assert_eq!(ui.backend().messages[0], "2 guards remaining to place");
    assert_eq!(ui.backend().messages.last().unwrap(), "1 guards remaining to place");
}

#[test]
fn time_left_counts_whole_seconds() {
    assert_eq!(time_left(120, 0), Some(120));
    assert_eq!(time_left(120, 1), Some(119));
    assert_eq!(time_left(120, 1_000_000_000), Some(119));
    assert_eq!(time_left(120, 119_999_999_999), Some(0));
    assert_eq!(time_left(120, 120_000_000_000), Some(0));
    assert_eq!(time_left(120, 120_000_000_001), None);
    assert_eq!(time_left(0, 0), Some(0));
    assert_eq!(time_left(0, 1), None);
    assert_eq!(time_left(u64::MAX, u128::MAX), None);
    assert_eq!(time_left(u64::MAX, 0), Some(u64::MAX));
}
