//! The authoritative state of a game and the operations that change it.

use vstd::prelude::*;
use crate::chance::pick_below;
use crate::config::Config;
use crate::defaults;
use crate::map::{Point, Tile, TileMap};
use crate::net::{MsgToClient, MsgToServer};

verus! {

/// How a session stands.
#[derive(Debug, Clone, Copy, PartialEq, Eq, Structural)]
pub enum Status {
    Running,
    AttackerVictory,
    DefenderVictory,
    Quit,
}

/// The way a guard faces.
#[derive(Debug, Clone, Copy, PartialEq, Eq, Structural)]
pub enum Direction {
    Up,
    Down,
    Left,
    Right,
}

/// A guard's place and facing; `None` once it is out of play.
pub type Guard = Option<(Point, Direction)>;

impl Direction {
    /// The direction a quarter turn away, clockwise or counter-clockwise.
    pub open spec fn turned(self, clockwise: bool) -> Direction {
        if clockwise {
            match self {
                Direction::Up => Direction::Right,
                Direction::Right => Direction::Down,
                Direction::Down => Direction::Left,
                Direction::Left => Direction::Up,
            }
        } else {
            match self {
                Direction::Up => Direction::Left,
                Direction::Right => Direction::Up,
                Direction::Down => Direction::Right,
                Direction::Left => Direction::Down,
            }
        }
    }

    /// Turns by a quarter.
    pub fn rotate(self, clockwise: bool) -> (d: Direction)
        ensures
            d == self.turned(clockwise),
    {
        if clockwise {
            match self {
                Direction::Up => Direction::Right,
                Direction::Right => Direction::Down,
                Direction::Down => Direction::Left,
                Direction::Left => Direction::Up,
            }
        } else {
            match self {
                Direction::Up => Direction::Left,
                Direction::Right => Direction::Up,
                Direction::Down => Direction::Right,
                Direction::Left => Direction::Down,
            }
        }
    }
}

impl Direction {
    /// The direction with the given number; every number from 3 on stands
    /// for `Right`.
    pub fn from_index(i: usize) -> (d: Direction)
        ensures
            d == (if i == 0 {
                Direction::Up
            } else if i == 1 {
                Direction::Down
            } else if i == 2 {
                Direction::Left
            } else {
                Direction::Right
            }),
    {
        if i == 0 {
            Direction::Up
        } else if i == 1 {
            Direction::Down
        } else if i == 2 {
            Direction::Left
        } else {
            Direction::Right
        }
    }

    /// A direction drawn at random.
    pub fn random() -> Direction {
        Direction::from_index(pick_below(4))
    }
}

/// Four quarter turns the same way bring a direction back to itself.
pub proof fn lemma_four_turns(d: Direction, clockwise: bool)
    ensures
        d.turned(clockwise).turned(clockwise).turned(clockwise).turned(clockwise) == d,
        d.turned(clockwise) != d,
        d.turned(clockwise).turned(clockwise) != d,
        d.turned(clockwise).turned(clockwise).turned(clockwise) != d,
{
}

/// A quarter turn one way undoes a quarter turn the other way.
pub proof fn lemma_turn_back(d: Direction, clockwise: bool)
    ensures
        d.turned(clockwise).turned(!clockwise) == d,
{
}

/// The status that a recipient is told: the side that lost a decided game
/// is told `Quit`, everyone else the status as it is.
pub open spec fn delivered(status: Status, defender: bool) -> Status {
    if (defender && status == Status::AttackerVictory) || (!defender && status
        == Status::DefenderVictory) {
        Status::Quit
    } else {
        status
    }
}

/// When the attackers have won, the defender is told `Quit` and every
/// attacker the victory; when the defender has won, it is the other way
/// round. A game that is running or was quit is reported as it is.
pub proof fn lemma_delivered_status(status: Status, defender: bool)
    ensures
        delivered(Status::AttackerVictory, true) == Status::Quit,
        delivered(Status::AttackerVictory, false) == Status::AttackerVictory,
        delivered(Status::DefenderVictory, false) == Status::Quit,
        delivered(Status::DefenderVictory, true) == Status::DefenderVictory,
        delivered(Status::Running, defender) == Status::Running,
        delivered(Status::Quit, defender) == Status::Quit,
        delivered(status, defender) == Status::Running <==> status == Status::Running,
{
}

/// How many of the slots are empty.
pub open spec fn vacant(slots: Seq<Option<Point>>) -> nat
    decreases slots.len(),
{
    if slots.len() == 0 {
        0
    } else {
        vacant(slots.drop_last()) + if slots.last() is None {
            1nat
        } else {
            0nat
        }
    }
}

/// Where an actor at `p` stands after trying to move by (dx, dy): at the
/// destination if that is a floor cell of the map, else still at `p`.
pub open spec fn stepped(map: TileMap, p: Point, dx: int, dy: int) -> Point {
    if map.is_floor(p.0 + dx, p.1 + dy) {
        ((p.0 + dx) as u8, (p.1 + dy) as u8)
    } else {
        p
    }
}

/// A move changes the position exactly when it leads to another cell that
/// is on the map and is floor, and then the new position is that cell.
pub proof fn lemma_move_legality(map: TileMap, p: Point, dx: int, dy: int)
    requires
        map.wf(),
    ensures
        stepped(map, p, dx, dy) != p <==> map.is_floor(p.0 + dx, p.1 + dy) && (dx != 0 || dy
            != 0),
        map.is_floor(p.0 + dx, p.1 + dy) ==> stepped(map, p, dx, dy).0 == p.0 + dx && stepped(
            map,
            p,
            dx,
            dy,
        ).1 == p.1 + dy,
        !map.is_floor(p.0 + dx, p.1 + dy) ==> stepped(map, p, dx, dy) == p,
{
}

/// The attackers' conditions come first: where every player in play has
/// reached its target, or no guard is left, the attackers have won,
/// however many players are out of play.
pub proof fn lemma_attackers_first(game: Game)
    requires
        game.objectives_met() || game.guards_gone(),
    ensures
        game.judged() == Status::AttackerVictory,
{
}

/// The defender wins only where neither of the attackers' conditions
/// holds and as many players are out of play as there are guard slots.
pub proof fn lemma_defender_second(game: Game)
    ensures
        game.judged() == Status::DefenderVictory && game.quit != Status::DefenderVictory ==> {
            &&& !game.objectives_met()
            &&& !game.guards_gone()
            &&& vacant(game.positions@) == game.guards@.len()
        },
        !game.objectives_met() && !game.guards_gone() && vacant(game.positions@)
            == game.guards@.len() ==> game.judged() == Status::DefenderVictory,
        !game.objectives_met() && !game.guards_gone() && vacant(game.positions@)
            != game.guards@.len() ==> game.judged() == game.quit,
{
}

/// The whole of a game, as the server holds it and each client mirrors it.
#[derive(Debug)]
pub struct Game {
    pub address: String,
    pub config: Config,
    pub quit: Status,
    /// Index of the defending player.
    pub defender: usize,
    /// Index of the player on this side of the connection.
    pub player: usize,
    /// Where each player is; `None` for the defender and for a player out of play.
    pub positions: Vec<Option<Point>>,
    pub guards: Vec<Guard>,
    /// Where each player has to get to; `None` for the defender.
    pub targets: Vec<Option<Point>>,
    pub map: TileMap,
}

/// What a server is started with.
#[derive(Debug, Clone)]
pub struct Cli {
    /// IP address of server
    pub address: String,
}

impl Game {
    /// `copy` holds what this game holds, but for the index of the player
    /// on this side of the connection, which is `player`.
    pub open spec fn copied_for(&self, player: usize, copy: Game) -> bool {
        &&& copy.address@ == self.address@
        &&& copy.config == self.config
        &&& copy.quit == self.quit
        &&& copy.defender == self.defender
        &&& copy.player == player
        &&& copy.positions@ == self.positions@
        &&& copy.guards@ == self.guards@
        &&& copy.targets@ == self.targets@
        &&& copy.map.len == self.map.len
        &&& copy.map.buf@ == self.map.buf@
    }

    /// The game as the connection of player `player` is sent it.
    pub fn for_player(&self, player: usize) -> (copy: Game)
        ensures
            self.copied_for(player, copy),
    {
        Game {
            address: self.address.clone(),
            config: self.config,
            quit: self.quit,
            defender: self.defender,
            player,
            positions: copy_slots(&self.positions),
            guards: copy_guards(&self.guards),
            targets: copy_slots(&self.targets),
            map: self.map.clone(),
        }
    }
}

impl Clone for Game {
    fn clone(&self) -> (copy: Game)
        ensures
            self.copied_for(self.player, copy),
    {
        self.for_player(self.player)
    }
}

/// A copy of the slots.
pub fn copy_slots(v: &Vec<Option<Point>>) -> (r: Vec<Option<Point>>)
    ensures
        r@ == v@,
{
    let mut r: Vec<Option<Point>> = Vec::new();
    let mut i: usize = 0;
    while i < v.len()
        invariant
            i <= v.len(),
            r@ == v@.take(i as int),
        decreases v.len() - i,
    {
        r.push(v[i]);
        i += 1;
        assert(r@ =~= v@.take(i as int));
    }
    assert(v@.take(v.len() as int) =~= v@);
    r
}

/// A copy of the guards.
pub fn copy_guards(v: &Vec<Guard>) -> (r: Vec<Guard>)
    ensures
        r@ == v@,
{
    let mut r: Vec<Guard> = Vec::new();
    let mut i: usize = 0;
    while i < v.len()
        invariant
            i <= v.len(),
            r@ == v@.take(i as int),
        decreases v.len() - i,
    {
        r.push(v[i]);
        i += 1;
        assert(r@ =~= v@.take(i as int));
    }
    assert(v@.take(v.len() as int) =~= v@);
    r
}

impl Game {
    /// The game as a session starts it with player `defender` defending:
    /// the standard map, placements and guards, with no position and no
    /// target for the defender.
    pub open spec fn opening(self, address: String, config: Config, defender: int) -> bool {
        &&& self.address == address
        &&& self.config == config
        &&& self.quit == Status::Running
        &&& self.defender == defender
        &&& self.player == 0
        &&& self.positions@ == defaults::start_positions().update(defender, None)
        &&& self.targets@ == defaults::start_targets().update(defender, None)
        &&& self.guards@ == defaults::start_guards()
        &&& self.map.wf()
        &&& self.map.buf@ == crate::map::drawn(defaults::MAP@)
        &&& self.map.len * self.map.len <= self.map.buf@.len() < (self.map.len + 1) * (
        self.map.len + 1)
    }

    /// Sets a game up with the given player as the defender.
    pub fn with_defender(address: String, config: Config, defender: usize) -> (game: Game)
        requires
            defender < defaults::PLAYERS,
        ensures
            game.opening(address, config, defender as int),
    {
        let map = defaults::map();
        let mut positions = defaults::positions();
        let mut targets = defaults::targets();
        let guards = defaults::guards();
        positions.set(defender, None);
        targets.set(defender, None);
        Game {
            address,
            config,
            quit: Status::Running,
            defender,
            player: 0,
            positions,
            guards,
            targets,
            map,
        }
    }

    /// Sets a game up, with one of the players drawn at random as the
    /// defender.
    pub fn new(cli: Cli, config: Config) -> (game: Game)
        requires
            0 < config.players <= defaults::PLAYERS,
        ensures
            game.defender < config.players,
            game.opening(cli.address, config, game.defender as int),
    {
        let defender = pick_below(config.players);
        Game::with_defender(cli.address, config, defender)
    }

    /// Every player still in play stands on its target.
    pub open spec fn objectives_met(&self) -> bool {
        forall|i: int|
            0 <= i < self.positions@.len() ==> (#[trigger] self.positions@[i]) is None
                || self.positions@[i] == self.targets@[i]
    }

    /// No guard is left in play.
    pub open spec fn guards_gone(&self) -> bool {
        forall|i: int| 0 <= i < self.guards@.len() ==> (#[trigger] self.guards@[i]) is None
    }

    /// The status after the victory conditions have been looked at: the
    /// attackers' conditions come first, then the defender's; if none
    /// holds the status stays.
    pub open spec fn judged(&self) -> Status {
        if self.objectives_met() || self.guards_gone() {
            Status::AttackerVictory
        } else if vacant(self.positions@) == self.guards@.len() {
            Status::DefenderVictory
        } else {
            self.quit
        }
    }

    /// The game with another status.
    pub open spec fn with_status(self, status: Status) -> Game {
        Game { quit: status, ..self }
    }

    /// The game with other player positions.
    pub open spec fn with_positions(self, positions: Seq<Option<Point>>, after: Game) -> bool {
        &&& after.positions@ == positions
        &&& after.address == self.address
        &&& after.config == self.config
        &&& after.quit == self.quit
        &&& after.defender == self.defender
        &&& after.player == self.player
        &&& after.guards == self.guards
        &&& after.targets == self.targets
        &&& after.map == self.map
    }

    /// The game with other guards.
    pub open spec fn with_guards(self, guards: Seq<Guard>, after: Game) -> bool {
        &&& after.guards@ == guards
        &&& after.address == self.address
        &&& after.config == self.config
        &&& after.quit == self.quit
        &&& after.defender == self.defender
        &&& after.player == self.player
        &&& after.positions == self.positions
        &&& after.targets == self.targets
        &&& after.map == self.map
    }

    /// Check for victory
    pub fn victory(&mut self)
        requires
            old(self).positions@.len() <= old(self).targets@.len(),
        ensures
            *final(self) == old(self).with_status(old(self).judged()),
    {
        let mut met = true;
        let mut fallen: usize = 0;
        let mut i: usize = 0;
        while i < self.positions.len()
            invariant
                *self == *old(self),
                i <= self.positions@.len(),
                self.positions@.len() <= self.targets@.len(),
                fallen == vacant(self.positions@.take(i as int)),
                fallen <= i,
                met == (forall|j: int|
                    0 <= j < i ==> (#[trigger] self.positions@[j]) is None || self.positions@[j]
                        == self.targets@[j]),
            decreases self.positions@.len() - i,
        {
            assert(self.positions@.take(i + 1).drop_last() =~= self.positions@.take(i as int));
            match self.positions[i] {
                None => {
                    fallen += 1;
                },
                Some(p) => {
                    match self.targets[i] {
                        Some(t) => {
                            if p.0 != t.0 || p.1 != t.1 {
                                met = false;
                            }
                        },
                        None => {
                            met = false;
                        },
                    }
                },
            }
            i += 1;
        }
        assert(self.positions@.take(self.positions@.len() as int) =~= self.positions@);
        let mut gone = true;
        let mut g: usize = 0;
        while g < self.guards.len()
            invariant
                *self == *old(self),
                g <= self.guards@.len(),
                gone == (forall|j: int| 0 <= j < g ==> (#[trigger] self.guards@[j]) is None),
            decreases self.guards@.len() - g,
        {
            if self.guards[g].is_some() {
                gone = false;
            }
            g += 1;
        }
        if gone || met {
            self.quit = Status::AttackerVictory;
            return ;
        }
        if fallen == self.guards.len() {
            self.quit = Status::DefenderVictory;
        }
    }

    /// Server-side turn processing: what player `player` is told when it
    /// is the turn of player `current`.
    pub fn turn(&self, player: usize, current: usize) -> (msg: MsgToClient)
        ensures
            self.told(player as int, current as int, msg),
    {
        let turn = player == current;
        let defender = player == self.defender;
        let quit = if (defender && self.quit == Status::AttackerVictory) || (!defender
            && self.quit == Status::DefenderVictory) {
            Status::Quit
        } else {
            self.quit
        };
        MsgToClient {
            turn,
            defender,
            positions: copy_slots(&self.positions),
            guards: copy_guards(&self.guards),
            quit,
        }
    }

    /// Server-side turn processing: takes over what player `current` sent.
    pub fn update(&mut self, msg: MsgToServer, current: usize)
        requires
            current < old(self).positions@.len(),
        ensures
            final(self).positions@ == old(self).positions@.update(current as int, msg.new),
            final(self).guards == msg.guards,
            final(self).quit == msg.quit,
            final(self).address == old(self).address,
            final(self).config == old(self).config,
            final(self).defender == old(self).defender,
            final(self).player == old(self).player,
            final(self).targets == old(self).targets,
            final(self).map == old(self).map,
    {
        self.positions.set(current, msg.new);
        self.guards = msg.guards;
        self.quit = msg.quit;
    }

    /// Move player position
    pub fn move_player(&mut self, dx: i16, dy: i16)
        requires
            old(self).map.wf(),
            old(self).player < old(self).positions@.len(),
        ensures
            old(self).with_positions(
                match old(self).positions@[old(self).player as int] {
                    Some(p) => old(self).positions@.update(
                        old(self).player as int,
                        Some(stepped(old(self).map, p, dx as int, dy as int)),
                    ),
                    None => old(self).positions@,
                },
                *final(self),
            ),
    {
        if let Some((x, y)) = self.positions[self.player] {
            let x2: i32 = (x as i32) + (dx as i32);
            let y2: i32 = (y as i32) + (dy as i32);
            if x2 >= 0 && y2 >= 0 {
                if let Some(tile) = self.map.at(x2 as usize, y2 as usize) {
                    if tile == Tile::Floor {
                        self.positions.set(self.player, Some((x2 as u8, y2 as u8)));
                        return ;
                    }
                }
            }
            assert(self.positions@ =~= old(self).positions@.update(
                self.player as int,
                Some((x, y)),
            ));
        }
    }

    /// Move guard position
    pub fn move_guard(&mut self, guard: usize, dx: i16, dy: i16)
        requires
            old(self).map.wf(),
            guard < old(self).guards@.len(),
        ensures
            old(self).with_guards(
                match old(self).guards@[guard as int] {
                    Some((p, dir)) => old(self).guards@.update(
                        guard as int,
                        Some((stepped(old(self).map, p, dx as int, dy as int), dir)),
                    ),
                    None => old(self).guards@,
                },
                *final(self),
            ),
    {
        if let Some(((x, y), dir)) = self.guards[guard] {
            let x2: i32 = (x as i32) + (dx as i32);
            let y2: i32 = (y as i32) + (dy as i32);
            if x2 >= 0 && y2 >= 0 {
                if let Some(tile) = self.map.at(x2 as usize, y2 as usize) {
                    if tile == Tile::Floor {
                        self.guards.set(guard, Some(((x2 as u8, y2 as u8), dir)));
                        return ;
                    }
                }
            }
            assert(self.guards@ =~= old(self).guards@.update(guard as int, Some(((x, y), dir))));
        }
    }

    /// Move guard direction
    pub fn rotate_guard(&mut self, guard: usize, clockwise: bool)
        requires
            guard < old(self).guards@.len(),
        ensures
            old(self).with_guards(
                match old(self).guards@[guard as int] {
                    Some((p, dir)) => old(self).guards@.update(
                        guard as int,
                        Some((p, dir.turned(clockwise))),
                    ),
                    None => old(self).guards@,
                },
                *final(self),
            ),
    {
        if let Some((pos, dir)) = self.guards[guard] {
            self.guards.set(guard, Some((pos, dir.rotate(clockwise))));
        }
    }
}

} // verus!
