//! What a server and a client tell each other each round.

use vstd::prelude::*;
use crate::game::{Direction, Status};
use crate::map::Point;

verus! {

/// Information sent from server to client each turn
#[derive(Debug, Clone)]
pub struct MsgToClient {
    /// Is it the player's turn?
    pub turn: bool,
    /// Is the player the defender?
    pub defender: bool,
    /// Players' positions (if alive)
    pub positions: Vec<Option<Point>>,
    /// Guards' positions (if alive)
    pub guards: Vec<Option<(Point, Direction)>>,
    /// Game finished?
    pub quit: Status,
}

/// Information sent from client to server each turn
#[derive(Debug, Clone)]
pub struct MsgToServer {
    /// New position of player's character
    pub new: Option<Point>,
    /// New positions of guards
    pub guards: Vec<Option<(Point, Direction)>>,
    /// Game finished?
    pub quit: Status,
}

} // verus!
