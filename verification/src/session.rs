//! The decisions of a session: the server's round after round, the worker
//! that serves one connection, and the client's side of the exchange. The
//! sockets and channels are the caller's; these functions say what to send,
//! whom to wait for and when to stop.

use vstd::prelude::*;
use crate::game::{copy_guards, Game, Status};
use crate::net::{MsgToClient, MsgToServer};

verus! {

/// The player whose turn comes after that of `current`.
pub open spec fn next_active(current: int, players: int) -> int {
    (current + 1) % players
}

/// The player whose turn it is in round `round`, counted from 0: the
/// first round is player 0's, and each round hands on to the next player.
pub open spec fn active_in_round(round: nat, players: int) -> int
    decreases round,
{
    if round == 0 {
        0
    } else {
        next_active(active_in_round((round - 1) as nat, players), players)
    }
}

/// The turn goes round the players in order, again and again: in round
/// `round` it is with player `round` modulo the number of players.
pub proof fn lemma_turn_order(round: nat, players: int)
    requires
        players > 0,
    ensures
        active_in_round(round, players) == round as int % players,
        0 <= active_in_round(round, players) < players,
    decreases round,
{
    if round > 0 {
        lemma_turn_order((round - 1) as nat, players);
        let prev = (round - 1) as int;
        vstd::arithmetic::div_mod::lemma_add_mod_noop(prev, 1, players);
        vstd::arithmetic::div_mod::lemma_mod_twice(prev, players);
        vstd::arithmetic::div_mod::lemma_add_mod_noop(prev % players, 1, players);
    }
}

/// The server's turn loop: the authoritative game and the player whose
/// turn it is.
#[derive(Debug)]
pub struct TurnLoop {
    pub game: Game,
    pub current: usize,
}

/// What one round sends out, and whom the server then waits for.
#[derive(Debug)]
pub struct Round {
    /// The message for each connection, by player index.
    pub messages: Vec<MsgToClient>,
    /// The one connection to take an update from; `None` once the game
    /// is over and nothing more is received.
    pub awaiting: Option<usize>,
}

impl TurnLoop {
    /// There is a connection for every player up to the configured number,
    /// each with a slot, and the turn is with one of them.
    pub open spec fn wf(&self) -> bool {
        &&& 0 < self.game.config.players <= self.game.positions@.len()
        &&& self.game.positions@.len() <= self.game.targets@.len()
        &&& self.current < self.game.config.players
    }

    /// Starts the turn loop once the defender has sent the guard
    /// placements, which are taken over as an update of the defender's.
    pub fn new(game: Game, placement: MsgToServer) -> (server: TurnLoop)
        requires
            0 < game.config.players <= game.positions@.len(),
            game.positions@.len() <= game.targets@.len(),
            game.defender < game.positions@.len(),
        ensures
            server.wf(),
            server.current == 0,
            server.game.positions@ == game.positions@.update(game.defender as int, placement.new),
            server.game.guards == placement.guards,
            server.game.quit == placement.quit,
            server.game.address == game.address,
            server.game.config == game.config,
            server.game.defender == game.defender,
            server.game.player == game.player,
            server.game.targets == game.targets,
            server.game.map == game.map,
    {
        let mut game = game;
        let defender = game.defender;
        game.update(placement, defender);
        TurnLoop { game, current: 0 }
    }

    /// Opens a round: looks for a victory, then writes every connection
    /// its message. Exactly the connection whose turn it is finds `turn`
    /// set, and it is the one to wait for, unless the game is over.
    pub fn begin_round(&mut self) -> (round: Round)
        requires
            old(self).wf(),
        ensures
            final(self).wf(),
            final(self).current == old(self).current,
            final(self).game == old(self).game.with_status(old(self).game.judged()),
            round.messages@.len() == old(self).game.config.players,
            forall|i: int|
                0 <= i < round.messages@.len() ==> final(self).game.told(
                    i,
                    old(self).current as int,
                    #[trigger] round.messages@[i],
                ),
            round.awaiting == (if final(self).game.quit == Status::Running {
                Some(old(self).current)
            } else {
                None
            }),
    {
        self.game.victory();
        let mut messages: Vec<MsgToClient> = Vec::new();
        let mut i: usize = 0;
        while i < self.game.config.players
            invariant
                i <= self.game.config.players,
                messages@.len() == i,
                forall|j: int|
                    0 <= j < i ==> self.game.told(j, self.current as int, #[trigger] messages@[j]),
            decreases self.game.config.players - i,
        {
            let msg = self.game.turn(i, self.current);
            messages.push(msg);
            i += 1;
        }
        let awaiting = if self.game.quit == Status::Running {
            Some(self.current)
        } else {
            None
        };
        Round { messages, awaiting }
    }

    /// Closes a round: takes over the update of the player whose turn it
    /// was and hands the turn to the next player.
    pub fn end_round(&mut self, msg: MsgToServer)
        requires
            old(self).wf(),
        ensures
            final(self).wf(),
            final(self).current == next_active(
                old(self).current as int,
                old(self).game.config.players as int,
            ),
            final(self).game.positions@ == old(self).game.positions@.update(
                old(self).current as int,
                msg.new,
            ),
            final(self).game.guards == msg.guards,
            final(self).game.quit == msg.quit,
            final(self).game.address == old(self).game.address,
            final(self).game.config == old(self).game.config,
            final(self).game.defender == old(self).game.defender,
            final(self).game.player == old(self).game.player,
            final(self).game.targets == old(self).game.targets,
            final(self).game.map == old(self).game.map,
    {
        self.game.update(msg, self.current);
        self.current = (self.current + 1) % self.game.config.players;
    }
}

/// Where the worker of one connection stands.
#[derive(Debug, Clone, Copy, PartialEq, Eq, Structural)]
pub enum Phase {
    /// Accepted; the game has not been sent yet.
    Connecting,
    /// The defender's connection, before the guard placements have come.
    AwaitingGuardSetup,
    /// Passing on the rounds' messages.
    Active,
    /// Done, after the game's end or a failure.
    Terminated,
}

/// What the worker of a connection does next.
#[derive(Debug, Clone, Copy, PartialEq, Eq, Structural)]
pub enum Relay {
    /// Wait for the next message of the turn loop and send it on.
    Forward,
    /// Read one message from the socket and hand it to the turn loop.
    Read,
    /// Stop.
    Close,
}

impl Phase {
    /// What follows when `event` has happened in this phase, and what to
    /// do then.
    pub open spec fn after(self, event: Event) -> (Phase, Relay) {
        match (self, event) {
            (Phase::Connecting, Event::GameSent { defender }) => if defender {
                (Phase::AwaitingGuardSetup, Relay::Read)
            } else {
                (Phase::Active, Relay::Forward)
            },
            (Phase::AwaitingGuardSetup, Event::UpdatePassed) => (Phase::Active, Relay::Forward),
            (Phase::Active, Event::MessageSent { turn, quit }) => if quit != Status::Running {
                (Phase::Terminated, Relay::Close)
            } else if turn {
                (Phase::Active, Relay::Read)
            } else {
                (Phase::Active, Relay::Forward)
            },
            (Phase::Active, Event::UpdatePassed) => (Phase::Active, Relay::Forward),
            _ => (Phase::Terminated, Relay::Close),
        }
    }

    /// Moves the worker on by one event. A failure of the socket or of a
    /// channel, and any event that the phase does not expect, ends it.
    pub fn step(self, event: Event) -> (next: (Phase, Relay))
        ensures
            next == self.after(event),
            next.1 == Relay::Close <==> next.0 == Phase::Terminated,
            self == Phase::Terminated ==> next.0 == Phase::Terminated,
    {
        match self {
            Phase::Connecting => match event {
                Event::GameSent { defender } => if defender {
                    (Phase::AwaitingGuardSetup, Relay::Read)
                } else {
                    (Phase::Active, Relay::Forward)
                },
                _ => (Phase::Terminated, Relay::Close),
            },
            Phase::AwaitingGuardSetup => match event {
                Event::UpdatePassed => (Phase::Active, Relay::Forward),
                _ => (Phase::Terminated, Relay::Close),
            },
            Phase::Active => match event {
                Event::MessageSent { turn, quit } => if quit != Status::Running {
                    (Phase::Terminated, Relay::Close)
                } else if turn {
                    (Phase::Active, Relay::Read)
                } else {
                    (Phase::Active, Relay::Forward)
                },
                Event::UpdatePassed => (Phase::Active, Relay::Forward),
                _ => (Phase::Terminated, Relay::Close),
            },
            Phase::Terminated => (Phase::Terminated, Relay::Close),
        }
    }
}

/// What has happened on a connection.
#[derive(Debug, Clone, Copy, PartialEq, Eq, Structural)]
pub enum Event {
    /// The game was sent to the new connection, which is the defender's or not.
    GameSent { defender: bool },
    /// A message of the turn loop was sent on; these are its turn flag and status.
    MessageSent { turn: bool, quit: Status },
    /// A message from the socket was handed to the turn loop.
    UpdatePassed,
    /// The socket or a channel failed.
    Failed,
}

/// What a client does after a message of the server.
#[derive(Debug, Clone, Copy, PartialEq, Eq, Structural)]
pub enum Reply {
    /// It is another player's turn: go on listening.
    Wait,
    /// It is this client's turn: take the player's input and send an update.
    Play { defender: bool },
    /// The game is over, and this side has won or lost it.
    Finish { won: bool },
}

/// What the client owes after a message with the given turn flag,
/// defender flag and status.
pub open spec fn reply_to(turn: bool, defender: bool, quit: Status) -> Reply {
    if quit != Status::Running {
        Reply::Finish { won: quit != Status::Quit }
    } else if turn {
        Reply::Play { defender }
    } else {
        Reply::Wait
    }
}

impl Game {
    /// `msg` is what player `player` is told when the turn is with player
    /// `current`.
    pub open spec fn told(&self, player: int, current: int, msg: MsgToClient) -> bool {
        &&& msg.turn == (player == current)
        &&& msg.defender == (player == self.defender)
        &&& msg.positions@ == self.positions@
        &&& msg.guards@ == self.guards@
        &&& msg.quit == crate::game::delivered(self.quit, player == self.defender)
    }

    /// Client-side turn processing: mirrors what the server sent and says
    /// what to do next.
    pub fn receive(&mut self, msg: MsgToClient) -> (reply: Reply)
        ensures
            final(self).positions == msg.positions,
            final(self).guards == msg.guards,
            final(self).quit == msg.quit,
            final(self).address == old(self).address,
            final(self).config == old(self).config,
            final(self).defender == old(self).defender,
            final(self).player == old(self).player,
            final(self).targets == old(self).targets,
            final(self).map == old(self).map,
            reply == reply_to(msg.turn, msg.defender, msg.quit),
    {
        let turn = msg.turn;
        let defender = msg.defender;
        self.positions = msg.positions;
        self.guards = msg.guards;
        self.quit = msg.quit;
        if self.quit != Status::Running {
            Reply::Finish { won: self.quit != Status::Quit }
        } else if turn {
            Reply::Play { defender }
        } else {
            Reply::Wait
        }
    }

    /// Client-side turn processing: the update that tells the server where
    /// this side's player and the guards are now.
    pub fn report(&self) -> (msg: MsgToServer)
        requires
            self.player < self.positions@.len(),
        ensures
            msg.new == self.positions@[self.player as int],
            msg.guards@ == self.guards@,
            msg.quit == self.quit,
    {
        MsgToServer {
            new: self.positions[self.player],
            guards: copy_guards(&self.guards),
            quit: self.quit,
        }
    }
}

} // verus!
