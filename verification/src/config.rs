//! Parameters of a session, fixed when it starts.

use vstd::prelude::*;
use crate::defaults;

verus! {

/// Settings that a configuration file may give; an absent one keeps its
/// default.
#[derive(Debug, Clone, Copy)]
pub struct ConfigFile {
    pub input_timeout: Option<u64>,
    pub attacker_actions: Option<u8>,
    pub defender_actions: Option<u8>,
    pub detection_actions: Option<u8>,
    pub viewcone_length: Option<u8>,
    pub viewcone_width: Option<u8>,
    /// Minutes per turn.
    pub turn_time: Option<u8>,
    pub players: Option<u8>,
    pub num_guards: Option<u8>,
    pub len: Option<u8>,
}

/// Assorted configuration options, set by the server.
#[derive(Debug, Clone, Copy)]
pub struct Config {
    /// Timeout in milliseconds waiting for user input
    pub input_timeout: u64,
    /// Number of actions for an attacker each turn
    pub attacker_actions: isize,
    /// Number of actions for a defender each turn
    pub defender_actions: isize,
    /// Number of actions inside view cone before detection
    pub detection_actions: isize,
    /// Length of viewcone
    pub viewcone_length: i16,
    /// Half-width of viewcone
    pub viewcone_width: usize,
    /// Time in seconds per turn
    pub turn_time: u64,
    /// Number of players
    pub players: usize,
    /// Number of guards
    pub num_guards: usize,
    /// Length of side of map
    pub len: usize,
}

/// Farthest that a view cone may reach or spread, so that every end point
/// of it has 16-bit coordinates.
pub const CONE_LIMIT: i16 = 32512;

impl Config {
    /// The settings used where nothing else is given.
    pub open spec fn standard() -> Config {
        Config {
            input_timeout: 300,
            attacker_actions: 5,
            defender_actions: 10,
            detection_actions: 3,
            viewcone_length: 16,
            viewcone_width: 10,
            turn_time: 120,
            players: defaults::PLAYERS,
            num_guards: 5,
            len: 48,
        }
    }

    /// The standard settings, each replaced by what `file` gives for it.
    pub open spec fn merged(file: Option<ConfigFile>) -> Config {
        let d = Config::standard();
        match file {
            None => d,
            Some(f) => Config {
                input_timeout: match f.input_timeout {
                    Some(v) => v,
                    None => d.input_timeout,
                },
                attacker_actions: match f.attacker_actions {
                    Some(v) => v as isize,
                    None => d.attacker_actions,
                },
                defender_actions: match f.defender_actions {
                    Some(v) => v as isize,
                    None => d.defender_actions,
                },
                detection_actions: match f.detection_actions {
                    Some(v) => v as isize,
                    None => d.detection_actions,
                },
                viewcone_length: match f.viewcone_length {
                    Some(v) => v as i16,
                    None => d.viewcone_length,
                },
                viewcone_width: match f.viewcone_width {
                    Some(v) => v as usize,
                    None => d.viewcone_width,
                },
                turn_time: match f.turn_time {
                    Some(v) => (v * 60) as u64,
                    None => d.turn_time,
                },
                players: match f.players {
                    Some(v) => v as usize,
                    None => d.players,
                },
                num_guards: match f.num_guards {
                    Some(v) => v as usize,
                    None => d.num_guards,
                },
                len: match f.len {
                    Some(v) => v as usize,
                    None => d.len,
                },
            },
        }
    }

    /// Every end point of a view cone around a map cell has 16-bit
    /// coordinates.
    pub open spec fn cone_fits(&self) -> bool {
        &&& self.viewcone_width <= CONE_LIMIT
        &&& -CONE_LIMIT <= self.viewcone_length <= CONE_LIMIT
    }

    /// The configuration of a session: the standard settings, overridden
    /// by those that a configuration file gave. `None` stands for a file
    /// that is absent or cannot be read.
    pub fn new(file: Option<ConfigFile>) -> (c: Config)
        ensures
            c == Config::merged(file),
            c.cone_fits(),
    {
        let mut conf = Config::default();
        if let Some(f) = file {
            if let Some(v) = f.input_timeout {
                conf.input_timeout = v;
            }
            if let Some(v) = f.attacker_actions {
                conf.attacker_actions = v as isize;
            }
            if let Some(v) = f.defender_actions {
                conf.defender_actions = v as isize;
            }
            if let Some(v) = f.detection_actions {
                conf.detection_actions = v as isize;
            }
            if let Some(v) = f.viewcone_length {
                conf.viewcone_length = v as i16;
            }
            if let Some(v) = f.viewcone_width {
                conf.viewcone_width = v as usize;
            }
            if let Some(v) = f.players {
                conf.players = v as usize;
            }
            if let Some(v) = f.num_guards {
                conf.num_guards = v as usize;
            }
            if let Some(v) = f.len {
                conf.len = v as usize;
            }
            if let Some(v) = f.turn_time {
                conf.turn_time = (v as u64) * 60;
            }
        }
        conf
    }
}

impl Default for Config {
    fn default() -> (c: Config)
        ensures
            c == Config::standard(),
    {
        Config {
            input_timeout: 300,
            attacker_actions: 5,
            defender_actions: 10,
            detection_actions: 3,
            viewcone_length: 16,
            viewcone_width: 10,
            turn_time: 120,
            players: defaults::PLAYERS,
            num_guards: 5,
            len: 48,
        }
    }
}

} // verus!
