//! What an action within a turn does to the game: guards that an attacker
//! walks into leave play, an attacker that stays in sight is caught, and
//! one that reaches its target leaves the map.

use vstd::prelude::*;
use crate::game::{Game, Guard};
use crate::map::{Point, Tile};

verus! {

impl Game {
    /// The state that the operations of a turn work on: a stored map, a
    /// view cone within the limits, and a slot and a target for this
    /// side's player.
    pub open spec fn wf(&self) -> bool {
        &&& self.map.wf()
        &&& self.config.cone_fits()
        &&& self.player < self.positions@.len()
        &&& self.positions@.len() <= self.targets@.len()
    }

    /// This side's player stands on the cell of guard `guard`.
    pub open spec fn overrun(&self, guard: int) -> bool {
        match (self.positions@[self.player as int], self.guards@[guard]) {
            (Some(p), Some((g, _))) => g == p,
            _ => false,
        }
    }

    /// The guards once those that this side's player stands on are gone.
    pub open spec fn guards_left(&self) -> Seq<Guard> {
        Seq::new(
            self.guards@.len(),
            |i: int| if self.overrun(i) { None } else { self.guards@[i] },
        )
    }

    /// Takes every guard out of play that this side's player stands on.
    pub fn overrun_guards(&mut self)
        requires
            old(self).player < old(self).positions@.len(),
        ensures
            old(self).with_guards(old(self).guards_left(), *final(self)),
    {
        if let Some(p) = self.positions[self.player] {
            let mut i: usize = 0;
            while i < self.guards.len()
                invariant
                    i <= self.guards@.len(),
                    self.guards@.len() == old(self).guards@.len(),
                    old(self).positions@[old(self).player as int] == Some(p),
                    old(self).player < old(self).positions@.len(),
                    forall|j: int| 0 <= j < i ==> self.guards@[j] == old(self).guards_left()[j],
                    forall|j: int|
                        i <= j < self.guards@.len() ==> self.guards@[j] == old(self).guards@[j],
                    self.address == old(self).address,
                    self.config == old(self).config,
                    self.quit == old(self).quit,
                    self.defender == old(self).defender,
                    self.player == old(self).player,
                    self.positions == old(self).positions,
                    self.targets == old(self).targets,
                    self.map == old(self).map,
                decreases self.guards@.len() - i,
            {
                if let Some((g, _)) = self.guards[i] {
                    if g.0 == p.0 && g.1 == p.1 {
                        self.guards.set(i, None);
                    }
                }
                i += 1;
            }
            assert(self.guards@ =~= old(self).guards_left());
        } else {
            assert(self.guards@ =~= old(self).guards_left());
        }
    }

    /// How long this side's player has been in sight without a break,
    /// after one more action: one action longer if a guard sees it now,
    /// else not at all.
    pub open spec fn exposure(&self, exposed: int) -> int {
        if !self.spotted(self.player as int) {
            0
        } else if exposed < isize::MAX {
            exposed + 1
        } else {
            exposed
        }
    }

    /// This side's player is caught: it is in sight and has been for as
    /// many actions running as the configuration allows.
    pub open spec fn caught(&self, exposed: int) -> bool {
        self.spotted(self.player as int) && self.exposure(exposed)
            >= self.config.detection_actions
    }

    /// Counts an action toward detection, `exposed` being the number of
    /// actions before it that this side's player has spent in sight
    /// without a break, and takes the player out of play once it is
    /// caught. Gives the new count.
    pub fn detect(&mut self, exposed: isize) -> (now: isize)
        requires
            old(self).wf(),
        ensures
            now == old(self).exposure(exposed as int),
            old(self).with_positions(
                if old(self).caught(exposed as int) {
                    old(self).positions@.update(old(self).player as int, None)
                } else {
                    old(self).positions@
                },
                *final(self),
            ),
    {
        if self.visible(self.player) {
            let now = if exposed < isize::MAX {
                exposed + 1
            } else {
                exposed
            };
            if now >= self.config.detection_actions {
                self.positions.set(self.player, None);
            }
            now
        } else {
            0
        }
    }

    /// This side's player is in play and stands on its target.
    pub open spec fn arrived(&self) -> bool {
        self.positions@[self.player as int] is Some && self.positions@[self.player as int]
            == self.targets@[self.player as int]
    }

    /// Takes this side's player off the map if it has reached its target,
    /// and tells whether it has.
    pub fn exfiltrate(&mut self) -> (out: bool)
        requires
            old(self).player < old(self).positions@.len(),
            old(self).positions@.len() <= old(self).targets@.len(),
        ensures
            out == old(self).arrived(),
            old(self).with_positions(
                if old(self).arrived() {
                    old(self).positions@.update(old(self).player as int, None)
                } else {
                    old(self).positions@
                },
                *final(self),
            ),
    {
        if let Some(p) = self.positions[self.player] {
            if let Some(t) = self.targets[self.player] {
                if p.0 == t.0 && p.1 == t.1 {
                    self.positions.set(self.player, None);
                    return true;
                }
            }
        }
        false
    }

    /// Some guard in play sees the cell.
    pub open spec fn watched_cell(&self, s: (Point, Tile)) -> bool {
        exists|g: int| 0 <= g < self.guards@.len() && #[trigger] self.sees(g, s)
    }

    /// Every floor cell that some guard in play sees, each once.
    pub fn watched(&self) -> (cells: Vec<(Point, Tile)>)
        requires
            self.map.wf(),
            self.config.cone_fits(),
        ensures
            cells@.no_duplicates(),
            forall|s: (Point, Tile)|
                #![trigger cells@.contains(s)]
                #![trigger self.watched_cell(s)]
                cells@.contains(s) <==> self.watched_cell(s),
    {
        let mut cells: Vec<(Point, Tile)> = Vec::new();
        let mut i: usize = 0;
        while i < self.guards.len()
            invariant
                i <= self.guards@.len(),
                self.map.wf(),
                self.config.cone_fits(),
                cells@.no_duplicates(),
                forall|s: (Point, Tile)|
                    cells@.contains(s) <==> exists|g: int| 0 <= g < i && #[trigger] self.sees(g, s),
            decreases self.guards@.len() - i,
        {
            let ghost before = cells@;
            if let Some((pos, dir)) = self.guards[i] {
                self.look(pos, dir, &mut cells);
            }
            proof {
                assert forall|s: (Point, Tile)|
                    cells@.contains(s) <==> exists|g: int|
                        0 <= g < i + 1 && #[trigger] self.sees(g, s) by {
                    if cells@.contains(s) {
                        if before.contains(s) {
                            let g = choose|g: int| 0 <= g < i && #[trigger] self.sees(g, s);
                            assert(0 <= g < i + 1 && self.sees(g, s));
                        } else {
                            assert(self.sees(i as int, s));
                        }
                    }
                    if exists|g: int| 0 <= g < i + 1 && #[trigger] self.sees(g, s) {
                        let g = choose|g: int| 0 <= g < i + 1 && #[trigger] self.sees(g, s);
                        if g < i {
                            assert(before.contains(s));
                        }
                    }
                }
            }
            i += 1;
        }
        cells
    }
}

} // verus!
