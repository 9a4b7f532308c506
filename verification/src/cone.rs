//! View cones: what a guard sees of the map, and whether it sees a player.

use vstd::prelude::*;
use crate::game::{Direction, Game};
use crate::map::{Point, Tile};
use crate::sight::{ray, wide};

verus! {

/// The widening of a map cell to mathematical integers.
pub open spec fn spot(p: Point) -> (int, int) {
    (p.0 as int, p.1 as int)
}

/// An end point on the far edge of the cone of a guard at `pos` facing
/// `dir`: `length` cells ahead and `offset` cells to the side.
pub open spec fn cone_end(pos: Point, dir: Direction, length: int, offset: int) -> (int, int) {
    match dir {
        Direction::Up => (pos.0 + offset, pos.1 - length),
        Direction::Down => (pos.0 + offset, pos.1 + length),
        Direction::Right => (pos.0 + length, pos.1 + offset),
        Direction::Left => (pos.0 - length, pos.1 + offset),
    }
}

/// The end points of a cone of half-width `width`: for each offset below
/// `width`, one to either side.
pub open spec fn cone_ends(pos: Point, dir: Direction, length: int, width: int) -> Set<(int, int)> {
    Set::new(
        |e: (int, int)|
            exists|offset: int| -width < offset < width && e == cone_end(pos, dir, length, offset),
    )
}

/// The end points of a cone that faces up mirror each other about the
/// guard's column, and all lie `length` rows above the guard.
pub proof fn lemma_cone_symmetry(pos: Point, length: int, width: int, e: (int, int))
    requires
        cone_ends(pos, Direction::Up, length, width).contains(e),
    ensures
        cone_ends(pos, Direction::Up, length, width).contains((2 * pos.0 - e.0, e.1)),
        e.1 == pos.1 - length,
        -width < e.0 - pos.0 < width,
{
    let offset = choose|offset: int|
        -width < offset < width && e == cone_end(pos, Direction::Up, length, offset);
    assert((2 * pos.0 - e.0, e.1) == cone_end(pos, Direction::Up, length, -offset));
}

/// The end point of a cone for one offset, in machine integers.
pub fn cone_end_point(pos: Point, dir: Direction, length: i16, offset: i16) -> (e: (i16, i16))
    requires
        -crate::config::CONE_LIMIT <= length <= crate::config::CONE_LIMIT,
        -crate::config::CONE_LIMIT <= offset <= crate::config::CONE_LIMIT,
    ensures
        wide(e) == cone_end(pos, dir, length as int, offset as int),
{
    let x: i16 = pos.0 as i16;
    let y: i16 = pos.1 as i16;
    match dir {
        Direction::Up => (x + offset, y - length),
        Direction::Down => (x + offset, y + length),
        Direction::Right => (x + length, y + offset),
        Direction::Left => (x - length, y + offset),
    }
}

/// Adds `item` to `items` unless it is there already.
pub fn insert_unique(items: &mut Vec<(Point, Tile)>, item: (Point, Tile))
    requires
        old(items)@.no_duplicates(),
    ensures
        final(items)@.no_duplicates(),
        final(items)@ == (if old(items)@.contains(item) {
            old(items)@
        } else {
            old(items)@.push(item)
        }),
        forall|s: (Point, Tile)|
            #![trigger final(items)@.contains(s)]
            #![trigger old(items)@.contains(s)]
            final(items)@.contains(s) <==> old(items)@.contains(s) || s == item,
{
    let mut i: usize = 0;
    while i < items.len()
        invariant
            *items == *old(items),
            items@.no_duplicates(),
            i <= items@.len(),
            forall|j: int| 0 <= j < i ==> items@[j] != item,
        decreases items@.len() - i,
    {
        let it = items[i];
        if it.0.0 == item.0.0 && it.0.1 == item.0.1 && it.1 == item.1 {
            assert(items@[i as int] == item);
            return ;
        }
        i += 1;
    }
    items.push(item);
    proof {
        let before = old(items)@;
        let after = items@;
        assert(after =~= before.push(item));
        assert(after[before.len() as int] == item);
        assert forall|s: (Point, Tile)| after.contains(s) <==> before.contains(s) || s
            == item by {
            if before.contains(s) {
                let j = choose|j: int| 0 <= j < before.len() && before[j] == s;
                assert(after[j] == s);
            }
        }
    }
}

impl Game {
    /// `item` lies on a ray from `pos` to an end point of the cone that
    /// opens from there toward `dir`.
    pub open spec fn in_cone(&self, pos: Point, dir: Direction, item: (Point, Tile)) -> bool {
        exists|e: (int, int)|
            #![trigger ray(self.map, spot(pos), e)]
            cone_ends(
                pos,
                dir,
                self.config.viewcone_length as int,
                self.config.viewcone_width as int,
            ).contains(e) && ray(self.map, spot(pos), e).contains(item)
    }

    /// Guard `guard` is in play and `item` lies in its cone.
    pub open spec fn sees(&self, guard: int, item: (Point, Tile)) -> bool {
        match self.guards@[guard] {
            Some((pos, dir)) => self.in_cone(pos, dir, item),
            None => false,
        }
    }

    /// Some guard sees the cell that player `player` stands on.
    pub open spec fn spotted(&self, player: int) -> bool {
        match self.positions@[player] {
            Some(p) => exists|g: int|
                0 <= g < self.guards@.len() && #[trigger] self.sees(g, (p, Tile::Floor)),
            None => false,
        }
    }

    /// Adds to `cone` what is seen from `pos` looking toward `end`.
    fn cast(&self, pos: Point, end: (i16, i16), cone: &mut Vec<(Point, Tile)>)
        requires
            self.map.wf(),
            old(cone)@.no_duplicates(),
        ensures
            final(cone)@.no_duplicates(),
            forall|s: (Point, Tile)|
                #![trigger final(cone)@.contains(s)]
                #![trigger old(cone)@.contains(s)]
                #![trigger ray(self.map, spot(pos), wide(end)).contains(s)]
                final(cone)@.contains(s) <==> old(cone)@.contains(s) || ray(
                    self.map,
                    spot(pos),
                    wide(end),
                ).contains(s),
    {
        let mut los = self.map.bresenham((pos.0 as i16, pos.1 as i16), end);
        let ghost full = ray(self.map, spot(pos), wide(end));
        let ghost mut seen: int = 0;
        assert(full.skip(0) =~= full);
        loop
            invariant
                los.wf(),
                0 <= seen <= full.len(),
                los.remaining() == full.skip(seen),
                cone@.no_duplicates(),
                forall|s: (Point, Tile)|
                    cone@.contains(s) <==> old(cone)@.contains(s) || exists|j: int|
                        0 <= j < seen && full[j] == s,
            ensures
                seen == full.len(),
            decreases los.remaining().len(),
        {
            let ghost before = cone@;
            match los.next() {
                Some(item) => {
                    insert_unique(cone, item);
                    proof {
                        assert(item == full[seen]);
                        assert(full.skip(seen).skip(1) =~= full.skip(seen + 1));
                        seen = seen + 1;
                        assert forall|s: (Point, Tile)|
                            cone@.contains(s) <==> old(cone)@.contains(s) || exists|j: int|
                                0 <= j < seen && full[j] == s by {
                            if before.contains(s) && !old(cone)@.contains(s) {
                                let j = choose|j: int| 0 <= j < seen - 1 && full[j] == s;
                                assert(0 <= j < seen && full[j] == s);
                            }
                            if s == item {
                                assert(0 <= seen - 1 < seen && full[seen - 1] == s);
                            }
                        }
                    }
                },
                None => {
                    break ;
                },
            }
        }
        proof {
            assert forall|s: (Point, Tile)|
                cone@.contains(s) <==> old(cone)@.contains(s) || full.contains(s) by {
                if full.contains(s) {
                    let j = choose|j: int| 0 <= j < full.len() && full[j] == s;
                    assert(0 <= j < seen && full[j] == s);
                }
            }
        }
    }

    /// Adds to `cone` the floor cells on the rays from `pos` to the end
    /// points of the cone that opens toward `dir`.
    pub fn look(&self, pos: Point, dir: Direction, cone: &mut Vec<(Point, Tile)>)
        requires
            self.map.wf(),
            self.config.cone_fits(),
            old(cone)@.no_duplicates(),
        ensures
            final(cone)@.no_duplicates(),
            forall|s: (Point, Tile)|
                #![trigger final(cone)@.contains(s)]
                #![trigger old(cone)@.contains(s)]
                #![trigger self.in_cone(pos, dir, s)]
                final(cone)@.contains(s) <==> old(cone)@.contains(s) || self.in_cone(pos, dir, s),
    {
        let length = self.config.viewcone_length;
        let width = self.config.viewcone_width;
        let ghost ends = cone_ends(pos, dir, length as int, width as int);
        let mut i: usize = 0;
        while i < width
            invariant
                i <= width,
                width == self.config.viewcone_width,
                length == self.config.viewcone_length,
                self.config.cone_fits(),
                self.map.wf(),
                cone@.no_duplicates(),
                forall|s: (Point, Tile)|
                    cone@.contains(s) <==> old(cone)@.contains(s) || exists|offset: int|
                        -(i as int) < offset < i && #[trigger] ray(
                            self.map,
                            spot(pos),
                            cone_end(pos, dir, length as int, offset),
                        ).contains(s),
            decreases width - i,
        {
            let ghost before = cone@;
            let right = cone_end_point(pos, dir, length, i as i16);
            let left = cone_end_point(pos, dir, length, -(i as i16));
            self.cast(pos, right, cone);
            self.cast(pos, left, cone);
            proof {
                let k = i as int;
                assert forall|s: (Point, Tile)|
                    cone@.contains(s) <==> old(cone)@.contains(s) || exists|offset: int|
                        -(k + 1) < offset < k + 1 && #[trigger] ray(
                            self.map,
                            spot(pos),
                            cone_end(pos, dir, length as int, offset),
                        ).contains(s) by {
                    if cone@.contains(s) && !old(cone)@.contains(s) {
                        if before.contains(s) {
                            let o = choose|offset: int|
                                -k < offset < k && #[trigger] ray(
                                    self.map,
                                    spot(pos),
                                    cone_end(pos, dir, length as int, offset),
                                ).contains(s);
                            assert(-(k + 1) < o < k + 1 && ray(
                                self.map,
                                spot(pos),
                                cone_end(pos, dir, length as int, o),
                            ).contains(s));
                        } else if ray(self.map, spot(pos), wide(right)).contains(s) {
                            assert(-(k + 1) < k < k + 1 && ray(
                                self.map,
                                spot(pos),
                                cone_end(pos, dir, length as int, k),
                            ).contains(s));
                        } else {
                            assert(-(k + 1) < -k < k + 1 && ray(
                                self.map,
                                spot(pos),
                                cone_end(pos, dir, length as int, -k),
                            ).contains(s));
                        }
                    }
                    if exists|offset: int|
                        -(k + 1) < offset < k + 1 && #[trigger] ray(
                            self.map,
                            spot(pos),
                            cone_end(pos, dir, length as int, offset),
                        ).contains(s) {
                        let o = choose|offset: int|
                            -(k + 1) < offset < k + 1 && #[trigger] ray(
                                self.map,
                                spot(pos),
                                cone_end(pos, dir, length as int, offset),
                            ).contains(s);
                        if -k < o < k {
                            assert(before.contains(s));
                        }
                    }
                }
            }
            i += 1;
        }
        proof {
            assert forall|s: (Point, Tile)|
                cone@.contains(s) <==> old(cone)@.contains(s) || self.in_cone(pos, dir, s) by {
                if cone@.contains(s) && !old(cone)@.contains(s) {
                    let o = choose|offset: int|
                        -(width as int) < offset < width && #[trigger] ray(
                            self.map,
                            spot(pos),
                            cone_end(pos, dir, length as int, offset),
                        ).contains(s);
                    let e = cone_end(pos, dir, length as int, o);
                    assert(ends.contains(e) && ray(self.map, spot(pos), e).contains(s));
                }
                if self.in_cone(pos, dir, s) {
                    let e = choose|e: (int, int)|
                        #![trigger ray(self.map, spot(pos), e)]
                        ends.contains(e) && ray(self.map, spot(pos), e).contains(s);
                    let o = choose|offset: int|
                        -(width as int) < offset < width && e == cone_end(
                            pos,
                            dir,
                            length as int,
                            offset,
                        );
                    assert(ray(
                        self.map,
                        spot(pos),
                        cone_end(pos, dir, length as int, o),
                    ).contains(s));
                }
            }
        }
    }

    /// Tiles within guard's line-of-sight: every floor cell on a ray from
    /// the guard to an end point of its cone, each once, in no particular
    /// order. A guard that is out of play sees nothing.
    pub fn view_cone(&self, guard: usize) -> (cone: Vec<(Point, Tile)>)
        requires
            guard < self.guards@.len(),
            self.map.wf(),
            self.config.cone_fits(),
        ensures
            cone@.no_duplicates(),
            forall|s: (Point, Tile)|
                #![trigger cone@.contains(s)]
                #![trigger self.sees(guard as int, s)]
                cone@.contains(s) <==> self.sees(guard as int, s),
            self.guards@[guard as int] is None ==> cone@.len() == 0,
    {
        let mut cone: Vec<(Point, Tile)> = Vec::new();
        if let Some((pos, dir)) = self.guards[guard] {
            self.look(pos, dir, &mut cone);
        }
        cone
    }

    /// `item` lies in one of the four cones that open from `pos`.
    pub open spec fn in_view(&self, pos: Point, item: (Point, Tile)) -> bool {
        ||| self.in_cone(pos, Direction::Up, item)
        ||| self.in_cone(pos, Direction::Down, item)
        ||| self.in_cone(pos, Direction::Left, item)
        ||| self.in_cone(pos, Direction::Right, item)
    }

    /// What is seen from `pos` looking all four ways, each cell once.
    pub fn look_around(&self, pos: Point) -> (cells: Vec<(Point, Tile)>)
        requires
            self.map.wf(),
            self.config.cone_fits(),
        ensures
            cells@.no_duplicates(),
            forall|s: (Point, Tile)|
                #![trigger cells@.contains(s)]
                #![trigger self.in_view(pos, s)]
                cells@.contains(s) <==> self.in_view(pos, s),
    {
        let mut cells: Vec<(Point, Tile)> = Vec::new();
        self.look(pos, Direction::Up, &mut cells);
        self.look(pos, Direction::Down, &mut cells);
        self.look(pos, Direction::Left, &mut cells);
        self.look(pos, Direction::Right, &mut cells);
        cells
    }

    /// Is the player visible?
    pub fn visible(&self, player: usize) -> (seen: bool)
        requires
            player < self.positions@.len(),
            self.map.wf(),
            self.config.cone_fits(),
        ensures
            seen == self.spotted(player as int),
    {
        if let Some(p) = self.positions[player] {
            let mut g: usize = 0;
            while g < self.guards.len()
                invariant
                    g <= self.guards@.len(),
                    self.map.wf(),
                    self.config.cone_fits(),
                    player < self.positions@.len(),
                    self.positions@[player as int] == Some(p),
                    forall|h: int| 0 <= h < g ==> !#[trigger] self.sees(h, (p, Tile::Floor)),
                decreases self.guards@.len() - g,
            {
                let cone = self.view_cone(g);
                let mut j: usize = 0;
                while j < cone.len()
                    invariant
                        j <= cone@.len(),
                        g < self.guards@.len(),
                        player < self.positions@.len(),
                        self.positions@[player as int] == Some(p),
                        forall|s: (Point, Tile)| cone@.contains(s) <==> self.sees(g as int, s),
                        forall|k: int| 0 <= k < j ==> cone@[k] != (p, Tile::Floor),
                    decreases cone@.len() - j,
                {
                    let view = cone[j];
                    if view.0.0 == p.0 && view.0.1 == p.1 && view.1 == Tile::Floor {
                        assert(cone@.contains(cone@[j as int]));
                        assert(self.sees(g as int, (p, Tile::Floor)));
                        return true;
                    }
                    j += 1;
                }
                assert(!cone@.contains((p, Tile::Floor)));
                g += 1;
            }
        }
        false
    }
}

} // verus!
