//! The square grid of tiles that a game is played on.

use vstd::prelude::*;
use vstd::string::StrSliceExecFns;
use crate::chance::{coin, pick_below};

verus! {

/// What a cell of the map holds.
#[derive(Debug, Clone, Copy, PartialEq, Eq, Hash, Structural)]
pub enum Tile {
    Floor,
    Wall,
}

/// A cell's column and row.
pub type Point = (u8, u8);

/// Largest side length whose coordinates all fit a `Point`.
pub const MAX_SIDE: usize = 256;

impl Tile {
    /// The tile that a character of a drawn map stands for.
    pub open spec fn of_char(c: char) -> Tile {
        if c == '#' {
            Tile::Wall
        } else {
            Tile::Floor
        }
    }

    /// The character that draws the tile.
    pub open spec fn glyph(self) -> char {
        match self {
            Tile::Floor => '.',
            Tile::Wall => '#',
        }
    }

    /// The character that draws the tile.
    pub fn symbol(&self) -> (c: char)
        ensures
            c == self.glyph(),
            Tile::of_char(c) == *self,
    {
        match self {
            Tile::Floor => '.',
            Tile::Wall => '#',
        }
    }
}

impl From<char> for Tile {
    fn from(c: char) -> (t: Tile) {
        if c == '#' {
            Tile::Wall
        } else {
            Tile::Floor
        }
    }
}

impl vstd::std_specs::convert::FromSpecImpl<char> for Tile {
    open spec fn obeys_from_spec() -> bool {
        true
    }

    open spec fn from_spec(c: char) -> Tile {
        Tile::of_char(c)
    }
}

/// Whether a character is white space, as `char::is_whitespace` tells.
pub uninterp spec fn blank(c: char) -> bool;

/// Calls `char::is_whitespace`, which depends on the character alone.
#[verifier::external_body]
fn is_blank(c: char) -> (b: bool)
    ensures
        b == blank(c),
{
    c.is_whitespace()
}

/// The tiles that a drawing stands for: one for each character that is not
/// white space, in reading order.
pub open spec fn drawn(s: Seq<char>) -> Seq<Tile>
    decreases s.len(),
{
    if s.len() == 0 {
        Seq::empty()
    } else if blank(s.last()) {
        drawn(s.drop_last())
    } else {
        drawn(s.drop_last()).push(Tile::of_char(s.last()))
    }
}

/// A drawing holds no more tiles than characters.
pub proof fn lemma_drawn_len(s: Seq<char>)
    ensures
        drawn(s).len() <= s.len(),
    decreases s.len(),
{
    if s.len() > 0 {
        lemma_drawn_len(s.drop_last());
    }
}

/// The side of the largest square of at most `n` cells.
pub fn side_of(n: usize) -> (r: usize)
    ensures
        r * r <= n < (r + 1) * (r + 1),
{
    let mut r: usize = 0;
    loop
        invariant
            r * r <= n,
            r <= 0xFFFF_FFFF,
        ensures
            r * r <= n < (r + 1) * (r + 1),
        decreases n - r * r,
    {
        let next: u128 = r as u128 + 1;
        proof {
            assert(next * next <= 0x1_0000_0000 * 0x1_0000_0000) by (nonlinear_arith)
                requires
                    0 <= next <= 0x1_0000_0000,
            ;
        }
        if next * next > n as u128 {
            break ;
        }
        proof {
            assert((r + 1) * (r + 1) > r * r) by (nonlinear_arith)
                requires
                    r >= 0,
            ;
            assert(r + 1 <= 0xFFFF_FFFF) by (nonlinear_arith)
                requires
                    r >= 0,
                    (r + 1) * (r + 1) <= 0xFFFF_FFFF_FFFF_FFFF,
            ;
        }
        r = r + 1;
    }
    r
}

/// A square grid, row after row.
#[derive(Debug)]
pub struct TileMap {
    /// Side length.
    pub len: usize,
    /// The tiles, row-major; the first `len * len` of them are the grid.
    pub buf: Vec<Tile>,
}

impl TileMap {
    /// The grid is fully stored and every coordinate fits a `Point`.
    pub open spec fn wf(&self) -> bool {
        &&& self.len <= MAX_SIDE
        &&& self.len * self.len <= self.buf@.len()
    }

    /// The tile at column `x`, row `y`; `None` outside the grid.
    pub open spec fn tile_at(&self, x: int, y: int) -> Option<Tile> {
        if 0 <= x < self.len && 0 <= y < self.len {
            Some(self.buf@[y * self.len + x])
        } else {
            None
        }
    }

    /// The cell (x, y) lies in the grid and is floor.
    pub open spec fn is_floor(&self, x: int, y: int) -> bool {
        self.tile_at(x, y) == Some(Tile::Floor)
    }

    /// The `i`-th cell in row-major order, with its tile.
    pub open spec fn cell(&self, i: int) -> (Point, Tile) {
        (((i % (self.len as int)) as u8, (i / (self.len as int)) as u8), self.buf@[i])
    }

    /// Every cell of the grid from the `from`-th on, in row-major order.
    pub open spec fn cells_from(&self, from: int) -> Seq<(Point, Tile)> {
        Seq::new((self.len * self.len - from) as nat, |i: int| self.cell(from + i))
    }

    proof fn lemma_index_in_grid(&self, x: int, y: int)
        requires
            self.wf(),
            0 <= x < self.len,
            0 <= y < self.len,
        ensures
            0 <= y * self.len + x < self.len * self.len,
            y * self.len + x < self.buf@.len(),
            y * self.len + x <= usize::MAX,
    {
        let n = self.len as int;
        assert(y * n <= (n - 1) * n) by (nonlinear_arith)
            requires 0 <= y <= n - 1, 0 <= n;
        assert((n - 1) * n + n == n * n) by (nonlinear_arith);
        assert(n * n <= 256 * 256) by (nonlinear_arith)
            requires 0 <= n <= 256;
        assert(0 <= y * n) by (nonlinear_arith)
            requires 0 <= y, 0 <= n;
    }

    /// A map of side `len` with a wall wherever a coin toss says so.
    pub fn new(len: usize) -> (m: TileMap)
        requires
            len <= MAX_SIDE,
        ensures
            m.wf(),
            m.len == len,
            m.buf@.len() == len * len,
    {
        proof {
            assert(len * len <= 256 * 256) by (nonlinear_arith)
                requires
                    0 <= len <= 256,
            ;
        }
        let cells: usize = len * len;
        let mut buf: Vec<Tile> = Vec::new();
        let mut i: usize = 0;
        while i < cells
            invariant
                i <= cells,
                buf@.len() == i,
            decreases cells - i,
        {
            buf.push(tile_for(coin()));
            i += 1;
        }
        TileMap { len, buf }
    }

    /// The floor cells of the grid, row by row.
    pub fn floor_cells(&self) -> (cells: Vec<Point>)
        requires
            self.wf(),
        ensures
            forall|p: Point|
                #![trigger cells@.contains(p)]
                #![trigger self.is_floor(p.0 as int, p.1 as int)]
                cells@.contains(p) <==> self.is_floor(p.0 as int, p.1 as int),
    {
        let mut cells: Vec<Point> = Vec::new();
        let mut y: usize = 0;
        while y < self.len
            invariant
                self.wf(),
                y <= self.len,
                forall|p: Point|
                    cells@.contains(p) <==> self.is_floor(p.0 as int, p.1 as int) && p.1 < y,
            decreases self.len - y,
        {
            let mut x: usize = 0;
            while x < self.len
                invariant
                    self.wf(),
                    y < self.len,
                    x <= self.len,
                    forall|p: Point|
                        cells@.contains(p) <==> self.is_floor(p.0 as int, p.1 as int) && (p.1 < y
                            || (p.1 == y && p.0 < x)),
                decreases self.len - x,
            {
                let ghost before = cells@;
                let open = match self.at(x, y) {
                    Some(Tile::Floor) => true,
                    _ => false,
                };
                if open {
                    cells.push((x as u8, y as u8));
                    proof {
                        assert(cells@[before.len() as int] == (x as u8, y as u8));
                    }
                }
                proof {
                    assert forall|p: Point|
                        cells@.contains(p) <==> self.is_floor(p.0 as int, p.1 as int) && (p.1 < y
                            || (p.1 == y && p.0 < x + 1)) by {
                        let was = before.contains(p);
                        if was {
                            let j = choose|j: int| 0 <= j < before.len() && before[j] == p;
                            assert(cells@[j] == p);
                        }
                        if cells@.contains(p) && !was {
                            let j = choose|j: int| 0 <= j < cells@.len() && cells@[j] == p;
                            assert(j == before.len());
                        }
                    }
                }
                x += 1;
            }
            y += 1;
        }
        cells
    }

    /// Find a random empty (floor) tile; `None` where the map has none.
    pub fn random(&self) -> (r: Option<Point>)
        requires
            self.wf(),
        ensures
            match r {
                Some(p) => self.is_floor(p.0 as int, p.1 as int),
                None => forall|p: Point| !self.is_floor(p.0 as int, p.1 as int),
            },
    {
        let cells = self.floor_cells();
        let index: usize = if cells.len() > 0 { pick_below(cells.len()) } else { 0 };
        let r = choose_cell(&cells, index);
        proof {
            match r {
                Some(p) => {
                    assert(cells@.contains(p));
                },
                None => {
                    assert forall|p: Point| !self.is_floor(p.0 as int, p.1 as int) by {
                        assert(!cells@.contains(p));
                    }
                },
            }
        }
        r
    }

    /// The tile at column `x`, row `y`.
    pub fn at(&self, x: usize, y: usize) -> (r: Option<Tile>)
        requires
            self.wf(),
        ensures
            r == self.tile_at(x as int, y as int),
    {
        if x < self.len && y < self.len {
            proof {
                self.lemma_index_in_grid(x as int, y as int);
            }
            Some(self.buf[y * self.len + x])
        } else {
            None
        }
    }

    /// The tile at column `x`, row `y`, by reference.
    pub fn at_ref(&mut self, x: usize, y: usize) -> (r: Option<&Tile>)
        requires
            old(self).wf(),
        ensures
            *final(self) == *old(self),
            r.is_some() == old(self).tile_at(x as int, y as int).is_some(),
            r.is_some() ==> *r.unwrap() == old(self).tile_at(x as int, y as int).unwrap(),
    {
        if x < self.len && y < self.len {
            proof {
                self.lemma_index_in_grid(x as int, y as int);
            }
            Some(&self.buf[y * self.len + x])
        } else {
            None
        }
    }

    /// A cursor over the grid's cells in row-major order.
    pub fn tiles(&self) -> (t: Tiles<'_>)
        requires
            self.wf(),
        ensures
            t.wf(),
            *t.map() == *self,
            t.remaining() == self.cells_from(0),
    {
        Tiles { index: 0, map: self }
    }
}

/// The tile that a coin toss gives a cell of a random map.
pub fn tile_for(wall: bool) -> (t: Tile)
    ensures
        t == (if wall { Tile::Wall } else { Tile::Floor }),
{
    if wall {
        Tile::Wall
    } else {
        Tile::Floor
    }
}

/// The cell at place `index` of a list, or `None` where the list is empty.
pub fn choose_cell(cells: &Vec<Point>, index: usize) -> (r: Option<Point>)
    requires
        cells@.len() > 0 ==> index < cells@.len(),
    ensures
        r == (if cells@.len() > 0 { Some(cells@[index as int]) } else { None }),
        r is Some ==> cells@.contains(r.unwrap()),
        r is None ==> forall|p: Point| !cells@.contains(p),
{
    if cells.len() > 0 {
        Some(cells[index])
    } else {
        None
    }
}

impl<'a> From<&'a str> for TileMap {
    /// Reads a map from its drawing: `#` is a wall, white space is
    /// skipped, anything else is floor. The side is that of the largest
    /// square that the tiles fill.
    fn from(map: &'a str) -> (m: TileMap)
        ensures
            m.buf@ == drawn(map@),
            m.len * m.len <= m.buf@.len() < (m.len + 1) * (m.len + 1),
    {
        let chars = map.unicode_len();
        let mut buf: Vec<Tile> = Vec::new();
        let mut i: usize = 0;
        while i < chars
            invariant
                i <= chars,
                chars == map@.len(),
                buf@ == drawn(map@.take(i as int)),
            decreases chars - i,
        {
            let c = map.get_char(i);
            proof {
                assert(map@.take(i + 1).drop_last() =~= map@.take(i as int));
                assert(map@.take(i + 1).last() == c);
            }
            if !is_blank(c) {
                buf.push(Tile::from(c));
            }
            i += 1;
        }
        proof {
            assert(map@.take(chars as int) =~= map@);
        }
        let len = side_of(buf.len());
        TileMap { len, buf }
    }
}

impl<'a> vstd::std_specs::convert::FromSpecImpl<&'a str> for TileMap {
    open spec fn obeys_from_spec() -> bool {
        false
    }

    open spec fn from_spec(map: &'a str) -> TileMap {
        arbitrary()
    }
}

impl Clone for TileMap {
    fn clone(&self) -> (copy: TileMap)
        ensures
            copy.len == self.len,
            copy.buf@ == self.buf@,
    {
        let mut buf: Vec<Tile> = Vec::new();
        let mut i: usize = 0;
        while i < self.buf.len()
            invariant
                i <= self.buf@.len(),
                buf@ == self.buf@.take(i as int),
            decreases self.buf@.len() - i,
        {
            buf.push(self.buf[i]);
            i += 1;
            assert(buf@ =~= self.buf@.take(i as int));
        }
        assert(self.buf@.take(self.buf@.len() as int) =~= self.buf@);
        TileMap { len: self.len, buf }
    }
}

/// A cursor over a map's cells.
pub struct Tiles<'a> {
    index: usize,
    map: &'a TileMap,
}

impl<'a> Tiles<'a> {
    /// The map that the cursor walks.
    pub closed spec fn map(&self) -> &TileMap {
        self.map
    }

    pub closed spec fn wf(&self) -> bool {
        &&& self.map.wf()
        &&& self.index <= self.map.len * self.map.len
    }

    /// The cells still to come, next one first.
    pub closed spec fn remaining(&self) -> Seq<(Point, Tile)> {
        self.map.cells_from(self.index as int)
    }

    /// Hands out the next cell, or `None` when all have been handed out.
    pub fn next(&mut self) -> (r: Option<(Point, Tile)>)
        requires
            old(self).wf(),
        ensures
            final(self).wf(),
            final(self).map() == old(self).map(),
            match r {
                Some(item) => old(self).remaining().len() > 0
                    && item == old(self).remaining()[0]
                    && final(self).remaining() == old(self).remaining().skip(1),
                None => old(self).remaining().len() == 0
                    && final(self).remaining() == old(self).remaining(),
            },
    {
        let n = self.map.len;
        proof {
            assert(n * n <= MAX_SIDE * MAX_SIDE) by (nonlinear_arith)
                requires 0 <= n <= MAX_SIDE;
        }
        if self.index < n * n {
            let x = self.index % n;
            let y = self.index / n;
            proof {
                let i = self.index as int;
                let m = n as int;
                assert(i / m < m) by (nonlinear_arith)
                    requires 0 <= i < m * m, 0 < m;
                assert(i == m * (i / m) + i % m) by {
                    vstd::arithmetic::div_mod::lemma_fundamental_div_mod(i, m);
                }
                assert(y * n + x == i) by (nonlinear_arith)
                    requires i == m * (i / m) + i % m, y == i / m, x == i % m, m == n;
                assert(old(self).remaining().skip(1) =~= self.map.cells_from(i + 1));
            }
            let tile = self.map.buf[self.index];
            self.index += 1;
            Some(((x as u8, y as u8), tile))
        } else {
            None
        }
    }
}

} // verus!
