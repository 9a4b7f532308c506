//! Core of a turn-based stealth game: the grid map and its lines of sight,
//! the authoritative game state, and the decisions of a session's turn loop.

pub mod cone;
mod chance;
pub mod clock;
pub mod config;
pub mod defaults;
pub mod game;
pub mod map;
pub mod net;
pub mod session;
pub mod sight;
pub mod turn;
pub mod ui;

pub use config::{Config, ConfigFile};
pub use game::{Cli, Direction, Game, Guard, Status};
pub use map::{Point, Tile, TileMap, Tiles};
pub use net::{MsgToClient, MsgToServer};
pub use session::{Event, Phase, Relay, Reply, Round, TurnLoop};
pub use sight::LineOfSight;
pub use ui::{Colour, Key, TurnState, UIBackend, UiError, UserInterface};
