//! Lines of sight: a rasterised straight line walked from one point toward
//! another, which ends at the first cell that is not open floor.

use vstd::prelude::*;
use crate::game::Direction;
use crate::map::{Point, Tile, TileMap};

verus! {

/// Distance between two coordinates.
pub open spec fn dist(a: int, b: int) -> int {
    if a <= b {
        b - a
    } else {
        a - b
    }
}

/// The coordinate `by` steps from `from` in the direction of `to`.
pub open spec fn toward(from: int, to: int, by: int) -> int {
    if from <= to {
        from + by
    } else {
        from - by
    }
}

/// The line is steeper than 45 degrees, so it is walked row by row.
pub open spec fn steep(start: (int, int), end: (int, int)) -> bool {
    dist(start.1, end.1) > dist(start.0, end.0)
}

/// Steps along the axis that the line is walked on.
pub open spec fn line_run(start: (int, int), end: (int, int)) -> int {
    if steep(start, end) {
        dist(start.1, end.1)
    } else {
        dist(start.0, end.0)
    }
}

/// Distance to cover on the other axis.
pub open spec fn line_rise(start: (int, int), end: (int, int)) -> int {
    if steep(start, end) {
        dist(start.0, end.0)
    } else {
        dist(start.1, end.1)
    }
}

/// How far a line with the given run and rise has moved across after `k`
/// steps along: the rise is spread evenly, rounding at the half step.
pub open spec fn drift(run: int, rise: int, k: int) -> int {
    if run <= 0 {
        0
    } else {
        (k * rise + (run - 1 - run / 2)) / run
    }
}

/// The `k`-th cell of the line from `start` toward `end`; cell 0 is `start`
/// and cell `line_run(start, end)` is `end`.
pub open spec fn line_point(start: (int, int), end: (int, int), k: int) -> (int, int) {
    let across = drift(line_run(start, end), line_rise(start, end), k);
    if steep(start, end) {
        (toward(start.0, end.0, across), toward(start.1, end.1, k))
    } else {
        (toward(start.0, end.0, k), toward(start.1, end.1, across))
    }
}

/// What a ray reports of the floor cell (x, y).
pub open spec fn sighting(p: (int, int)) -> (Point, Tile) {
    ((p.0 as u8, p.1 as u8), Tile::Floor)
}

/// The cells seen along the line from its `k`-th cell on: floor cells in
/// walking order, up to the first cell that is a wall or off the map.
pub open spec fn ray_from(map: TileMap, start: (int, int), end: (int, int), k: int) -> Seq<
    (Point, Tile),
>
    decreases line_run(start, end) + 1 - k,
{
    let p = line_point(start, end, k);
    if 0 <= k <= line_run(start, end) && map.is_floor(p.0, p.1) {
        seq![sighting(p)].add(ray_from(map, start, end, k + 1))
    } else {
        Seq::empty()
    }
}

/// The cells seen from `start` looking toward `end`.
pub open spec fn ray(map: TileMap, start: (int, int), end: (int, int)) -> Seq<(Point, Tile)> {
    ray_from(map, start, end, 0)
}

/// The widening of a point to mathematical integers.
pub open spec fn wide(p: (i16, i16)) -> (int, int) {
    (p.0 as int, p.1 as int)
}

/// One step of the error term: the drift grows by one exactly when the
/// error, lowered by the rise, falls below zero.
proof fn lemma_drift_step(run: int, rise: int, k: int, error: int)
    requires
        0 <= rise <= run,
        0 <= k,
        error == run / 2 - k * rise + drift(run, rise, k) * run,
        run > 0 ==> 0 <= error < run,
    ensures
        error - rise < 0 ==> drift(run, rise, k + 1) == drift(run, rise, k) + 1,
        error - rise >= 0 ==> drift(run, rise, k + 1) == drift(run, rise, k),
        error - rise < 0 ==> error - rise + run == run / 2 - (k + 1) * rise + drift(
            run,
            rise,
            k + 1,
        ) * run,
        error - rise >= 0 ==> error - rise == run / 2 - (k + 1) * rise + drift(run, rise, k + 1)
            * run,
        run > 0 ==> -run <= error - rise < run,
{
    let n = drift(run, rise, k);
    if run > 0 {
        let b: int = if error - rise < 0 { 1 } else { 0 };
        let e2 = error - rise + b * run;
        let x = (k + 1) * rise + (run - 1 - run / 2);
        assert(x == (n + b) * run + (run - 1 - e2)) by (nonlinear_arith)
            requires
                error == run / 2 - k * rise + n * run,
                e2 == error - rise + b * run,
                x == (k + 1) * rise + (run - 1 - run / 2),
        ;
        assert(0 <= run - 1 - e2 < run);
        vstd::arithmetic::div_mod::lemma_fundamental_div_mod_converse(
            x,
            run,
            n + b,
            run - 1 - e2,
        );
        assert(drift(run, rise, k + 1) == n + b);
        assert(e2 == run / 2 - (k + 1) * rise + (n + b) * run) by (nonlinear_arith)
            requires
                error == run / 2 - k * rise + n * run,
                e2 == error - rise + b * run,
        ;
    } else {
        assert(rise == 0);
        assert(k * rise == 0) by (nonlinear_arith)
            requires rise == 0;
        assert((k + 1) * rise == 0) by (nonlinear_arith)
            requires rise == 0;
        assert(run / 2 == 0);
        assert(drift(run, rise, k) * run == 0) by (nonlinear_arith)
            requires run == 0;
        assert(drift(run, rise, k + 1) * run == 0) by (nonlinear_arith)
            requires run == 0;
    }
}

/// A line has not moved across before its first step.
pub proof fn lemma_drift_start(run: int, rise: int)
    requires
        0 <= rise <= run,
    ensures
        drift(run, rise, 0) == 0,
{
    if run > 0 {
        assert(0 * rise == 0);
        assert(0 <= run - 1 - run / 2 < run);
        vstd::arithmetic::div_mod::lemma_fundamental_div_mod_converse(
            run - 1 - run / 2,
            run,
            0,
            run - 1 - run / 2,
        );
    }
}

/// A line that runs along one axis never leaves it.
pub proof fn lemma_drift_flat(run: int, k: int)
    requires
        0 <= run,
    ensures
        drift(run, 0, k) == 0,
{
    if run > 0 {
        assert(k * 0 == 0);
        vstd::arithmetic::div_mod::lemma_fundamental_div_mod_converse(
            run - 1 - run / 2,
            run,
            0,
            run - 1 - run / 2,
        );
    }
}

/// The cell `k` steps from `p` in direction `dir`.
pub open spec fn ahead(p: (int, int), dir: Direction, k: int) -> (int, int) {
    match dir {
        Direction::Up => (p.0, p.1 - k),
        Direction::Down => (p.0, p.1 + k),
        Direction::Left => (p.0 - k, p.1),
        Direction::Right => (p.0 + k, p.1),
    }
}

/// Every sighting of a ray is the cell of its line at the same place, and
/// that cell is a floor cell of the map.
pub proof fn lemma_ray_item(map: TileMap, start: (int, int), end: (int, int), k: int, i: int)
    requires
        0 <= k,
        0 <= i < ray_from(map, start, end, k).len(),
    ensures
        k + i <= line_run(start, end),
        map.is_floor(line_point(start, end, k + i).0, line_point(start, end, k + i).1),
        ray_from(map, start, end, k)[i] == sighting(line_point(start, end, k + i)),
    decreases i,
{
    if i > 0 {
        lemma_ray_item(map, start, end, k + 1, i - 1);
        assert(k + 1 + (i - 1) == k + i);
    }
}

/// A ray does not resume behind what blocks it: where it ends before its
/// line does, the next cell of the line is no floor cell of the map.
pub proof fn lemma_ray_end(map: TileMap, start: (int, int), end: (int, int), k: int)
    requires
        0 <= k,
        k + ray_from(map, start, end, k).len() <= line_run(start, end),
    ensures
        !map.is_floor(
            line_point(start, end, k + ray_from(map, start, end, k).len()).0,
            line_point(start, end, k + ray_from(map, start, end, k).len()).1,
        ),
    decreases line_run(start, end) + 1 - k,
{
    let p = line_point(start, end, k);
    if map.is_floor(p.0, p.1) {
        assert(k + ray_from(map, start, end, k).len() == k + 1 + ray_from(
            map,
            start,
            end,
            k + 1,
        ).len());
        lemma_ray_end(map, start, end, k + 1);
    }
}

/// Where the first `n` cells of a line from its `k`-th on are floor, and
/// the next one, if the line has one, is not, the ray from there on is
/// those `n` cells.
pub proof fn lemma_ray_clear(map: TileMap, start: (int, int), end: (int, int), k: int, n: int)
    requires
        0 <= k,
        0 <= n,
        k + n <= line_run(start, end) + 1,
        forall|i: int|
            k <= i < k + n ==> map.is_floor(
                (#[trigger] line_point(start, end, i)).0,
                line_point(start, end, i).1,
            ),
        k + n <= line_run(start, end) ==> !map.is_floor(
            line_point(start, end, k + n).0,
            line_point(start, end, k + n).1,
        ),
    ensures
        ray_from(map, start, end, k) =~= Seq::new(
            n as nat,
            |i: int| sighting(line_point(start, end, k + i)),
        ),
    decreases n,
{
    if n > 0 {
        assert(map.is_floor(line_point(start, end, k).0, line_point(start, end, k).1));
        lemma_ray_clear(map, start, end, k + 1, n - 1);
    }
}

/// A line along a row or a column visits the cells straight ahead.
pub proof fn lemma_line_straight(start: (int, int), dir: Direction, reach: int, k: int)
    requires
        0 <= k <= reach,
    ensures
        line_run(start, ahead(start, dir, reach)) == reach,
        line_point(start, ahead(start, dir, reach), k) == ahead(start, dir, k),
{
    lemma_drift_flat(reach, k);
}

/// Looking down a straight corridor: where the `clear` cells ahead of
/// `start`, itself included, are floor and the one behind them is not (a
/// wall, or the edge of the map), a ray toward or through that cell sees
/// exactly those `clear` cells, nearest first.
pub proof fn lemma_corridor(
    map: TileMap,
    start: (int, int),
    dir: Direction,
    reach: int,
    clear: int,
)
    requires
        0 <= clear <= reach,
        forall|i: int|
            0 <= i < clear ==> map.is_floor(
                (#[trigger] ahead(start, dir, i)).0,
                ahead(start, dir, i).1,
            ),
        !map.is_floor(ahead(start, dir, clear).0, ahead(start, dir, clear).1),
    ensures
        ray(map, start, ahead(start, dir, reach)) =~= Seq::new(
            clear as nat,
            |i: int| sighting(ahead(start, dir, i)),
        ),
{
    let end = ahead(start, dir, reach);
    assert forall|i: int| 0 <= i <= clear implies #[trigger] line_point(start, end, i) == ahead(
        start,
        dir,
        i,
    ) by {
        lemma_line_straight(start, dir, reach, i);
    }
    lemma_line_straight(start, dir, reach, 0);
    assert forall|i: int| 0 <= i < clear implies map.is_floor(
        (#[trigger] line_point(start, end, i)).0,
        line_point(start, end, i).1,
    ) by {
        assert(line_point(start, end, i) == ahead(start, dir, i));
    }
    assert(line_point(start, end, clear) == ahead(start, dir, clear));
    lemma_ray_clear(map, start, end, 0, clear);
}

/// A cursor along a line of sight across a map.
pub struct LineOfSight<'a> {
    /// Position in walking coordinates: along, across.
    current: (i32, i32),
    /// Last position along.
    end: i32,
    /// Run and rise.
    gradient: (i32, i32),
    error: i32,
    sign: i32,
    ystep: i32,
    rotated: bool,
    /// The ray has met a wall or left the map.
    blocked: bool,
    map: &'a TileMap,
    from: Ghost<(int, int)>,
    to: Ghost<(int, int)>,
}

impl<'a> LineOfSight<'a> {
    /// The map that the ray crosses.
    pub closed spec fn map(&self) -> &TileMap {
        self.map
    }

    spec fn along0(&self) -> int {
        if self.rotated {
            self.from@.1
        } else {
            self.from@.0
        }
    }

    spec fn along1(&self) -> int {
        if self.rotated {
            self.to@.1
        } else {
            self.to@.0
        }
    }

    spec fn across0(&self) -> int {
        if self.rotated {
            self.from@.0
        } else {
            self.from@.1
        }
    }

    spec fn across1(&self) -> int {
        if self.rotated {
            self.to@.0
        } else {
            self.to@.1
        }
    }

    /// Steps taken so far.
    spec fn taken(&self) -> int {
        if self.along0() <= self.along1() {
            self.current.0 - self.along0()
        } else {
            self.current.0 + self.along0()
        }
    }

    pub closed spec fn wf(&self) -> bool {
        let run = line_run(self.from@, self.to@);
        let rise = line_rise(self.from@, self.to@);
        let k = self.taken();
        let across = drift(run, rise, k);
        &&& self.map.wf()
        &&& -32768 <= self.from@.0 <= 32767
        &&& -32768 <= self.from@.1 <= 32767
        &&& -32768 <= self.to@.0 <= 32767
        &&& -32768 <= self.to@.1 <= 32767
        &&& self.rotated == steep(self.from@, self.to@)
        &&& self.gradient.0 == run
        &&& self.gradient.1 == rise
        &&& self.sign == (if self.along0() <= self.along1() { 1i32 } else { -1i32 })
        &&& self.ystep == (if self.across0() < self.across1() { 1i32 } else { -1i32 })
        &&& self.end == (if self.along0() <= self.along1() { self.along1() } else { -self.along1() })
        &&& 0 <= k <= run + 1
        &&& 0 <= across <= k
        &&& self.current.1 == (if self.across0() < self.across1() {
            self.across0() + across
        } else {
            self.across0() - across
        })
        &&& self.error == run / 2 - k * rise + across * run
        &&& run > 0 ==> 0 <= self.error < run
    }

    /// The sightings still to come, next one first.
    pub closed spec fn remaining(&self) -> Seq<(Point, Tile)> {
        if self.blocked {
            Seq::empty()
        } else {
            ray_from(*self.map, self.from@, self.to@, self.taken())
        }
    }

    /// Hands out the next floor cell along the line. Once the line has
    /// ended, or a wall or the map's edge has been met, every call gives
    /// `None`.
    pub fn next(&mut self) -> (r: Option<(Point, Tile)>)
        requires
            old(self).wf(),
        ensures
            final(self).wf(),
            final(self).map() == old(self).map(),
            match r {
                Some(item) => old(self).remaining().len() > 0
                    && item == old(self).remaining()[0]
                    && final(self).remaining() == old(self).remaining().skip(1),
                None => old(self).remaining().len() == 0
                    && final(self).remaining() == old(self).remaining(),
            },
    {
        if self.blocked || self.current.0 > self.end {
            return None;
        }
        let ghost run = line_run(self.from@, self.to@);
        let ghost rise = line_rise(self.from@, self.to@);
        let ghost k = self.taken();
        let c = self.current;
        let along: i32 = if self.sign < 0 { -c.0 } else { c.0 };
        let new: (i32, i32) = if self.rotated { (c.1, along) } else { (along, c.1) };
        proof {
            if rise == 0 {
                lemma_drift_flat(run, k);
            }
            assert((new.0 as int, new.1 as int) == line_point(self.from@, self.to@, k));
            lemma_drift_step(run, rise, k, self.error as int);
            assert(line_run(self.from@, self.to@) + 1 - k > 0);
        }
        let mut across: i32 = c.1;
        let mut error: i32 = self.error - self.gradient.1;
        if error < 0 {
            across = across + self.ystep;
            error = error + self.gradient.0;
        }
        self.current = (c.0 + 1, across);
        self.error = error;
        assert(self.taken() == k + 1);
        if new.0 >= 0 && new.1 >= 0 {
            if let Some(tile) = self.map.at(new.0 as usize, new.1 as usize) {
                if tile == Tile::Floor {
                    proof {
                        let rest = ray_from(*self.map, self.from@, self.to@, k + 1);
                        assert(old(self).remaining() == seq![
                            sighting((new.0 as int, new.1 as int)),
                        ].add(rest));
                        assert(old(self).remaining().skip(1) =~= rest);
                    }
                    return Some(((new.0 as u8, new.1 as u8), tile));
                }
            }
        }
        self.blocked = true;
        None
    }
}

impl TileMap {
    /// Starts a line of sight from `start` toward `end`.
    pub fn bresenham(&self, start: (i16, i16), end: (i16, i16)) -> (los: LineOfSight<'_>)
        requires
            self.wf(),
        ensures
            los.wf(),
            *los.map() == *self,
            los.remaining() == ray(*self, wide(start), wide(end)),
    {
        let sx: i32 = start.0 as i32;
        let sy: i32 = start.1 as i32;
        let ex: i32 = end.0 as i32;
        let ey: i32 = end.1 as i32;
        let dx: i32 = if sx <= ex { ex - sx } else { sx - ex };
        let dy: i32 = if sy <= ey { ey - sy } else { sy - ey };
        let rotated = dy > dx;
        let (x0, y0, x1, y1): (i32, i32, i32, i32) = if rotated {
            (sy, sx, ey, ex)
        } else {
            (sx, sy, ex, ey)
        };
        let run: i32 = if rotated { dy } else { dx };
        let rise: i32 = if rotated { dx } else { dy };
        let sign: i32 = if x0 > x1 { -1 } else { 1 };
        let ystep: i32 = if y0 < y1 { 1 } else { -1 };
        proof {
            lemma_drift_start(run as int, rise as int);
            assert(0 * (rise as int) == 0);
            assert(0 * (run as int) == 0);
        }
        LineOfSight {
            current: (if x0 > x1 { -x0 } else { x0 }, y0),
            end: if x0 > x1 { -x1 } else { x1 },
            gradient: (run, rise),
            error: run / 2,
            sign,
            ystep,
            rotated,
            blocked: false,
            map: self,
            from: Ghost(wide(start)),
            to: Ghost(wide(end)),
        }
    }
}

} // verus!
