//! The map and the placements that a game starts from.

use vstd::prelude::*;
use crate::game::Direction;
use crate::map::{drawn, lemma_drawn_len, Point, TileMap};

verus! {

pub const MAP: &'static str = "
################################################
#..............................................#
#..............................##..............#
#....................#.........................#
#....................#.................#.......#
#......####.........#...................#......#
#......#...........#.....................#.....#
#......#..........#...........#...........#....#
#......#..........#..........#.............#...#
#......#..........#.........#..................#
#.................#........#...................#
#.................#.......#....................#
#.................#......#.....................#
#.................#......#.....................#
#.....#############......###############.......#
#..............................................#
#..............................................#
#....#.........................................#
#.....#..................................#.....#
#......#.................................#.....#
#.......#............#########...........#.....#
#........#...............................#.....#
#.........#..............................#.....#
#..........#.............................#.....#
#...........#..................................#
#............#.....................#...........#
#.............###########..........#...........#
#........................#.........#...........#
#.........................#........#...........#
#..........................#.......#...........#
#...........................#......#...........#
#............................#.....#...........#
#.......#......................................#
#.......#..............###.....................#
#.......###............#.......................#
#......................#........#..............#
#...............................#.........#....#
#.............####.............####......#.....#
#.................#.............#.......#......#
#..................#....................#......#
##....################..................#......#
#....................#..................#......#
#....................#..................#......#
#.........#..........#......###.....#####......#
#.........#..........#.....#...................#
#....................######....................#
#..............................................#
################################################
";

pub const PLAYERS: usize = 4;

/// Where the players start.
pub open spec fn start_positions() -> Seq<Option<Point>> {
    seq![Some((40u8, 1u8)), Some((1u8, 5u8)), Some((45u8, 45u8)), Some((1u8, 40u8))]
}

/// Where each player has to get to.
pub open spec fn start_targets() -> Seq<Option<Point>> {
    seq![Some((1u8, 46u8)), Some((45u8, 45u8)), Some((1u8, 1u8)), Some((42u8, 1u8))]
}

/// Where the guards stand before the defender places them.
pub open spec fn start_guards() -> Seq<Option<(Point, Direction)>> {
    seq![
        Some(((15u8, 12u8), Direction::Up)),
        Some(((10u8, 45u8), Direction::Right)),
        Some(((20u8, 30u8), Direction::Left)),
        Some(((31u8, 30u8), Direction::Up)),
        Some(((41u8, 10u8), Direction::Left)),
    ]
}

/// Where the players start.
pub fn positions() -> (v: Vec<Option<Point>>)
    ensures
        v@ == start_positions(),
{
    let v = vec![Some((40u8, 1u8)), Some((1u8, 5u8)), Some((45u8, 45u8)), Some((1u8, 40u8))];
    assert(v@ =~= start_positions());
    v
}

/// Where each player has to get to.
pub fn targets() -> (v: Vec<Option<Point>>)
    ensures
        v@ == start_targets(),
{
    let v = vec![Some((1u8, 46u8)), Some((45u8, 45u8)), Some((1u8, 1u8)), Some((42u8, 1u8))];
    assert(v@ =~= start_targets());
    v
}

/// Where the guards stand before the defender places them.
pub fn guards() -> (v: Vec<Option<(Point, Direction)>>)
    ensures
        v@ == start_guards(),
{
    let v = vec![
        Some(((15u8, 12u8), Direction::Up)),
        Some(((10u8, 45u8), Direction::Right)),
        Some(((20u8, 30u8), Direction::Left)),
        Some(((31u8, 30u8), Direction::Up)),
        Some(((41u8, 10u8), Direction::Left)),
    ];
    assert(v@ =~= start_guards());
    v
}

/// The map that a game is played on.
pub fn map() -> (m: TileMap)
    ensures
        m.wf(),
        m.buf@ == drawn(MAP@),
        m.len * m.len <= m.buf@.len() < (m.len + 1) * (m.len + 1),
{
    proof {
        reveal_strlit("
################################################
#..............................................#
#..............................##..............#
#....................#.........................#
#....................#.................#.......#
#......####.........#...................#......#
#......#...........#.....................#.....#
#......#..........#...........#...........#....#
#......#..........#..........#.............#...#
#......#..........#.........#..................#
#.................#........#...................#
#.................#.......#....................#
#.................#......#.....................#
#.................#......#.....................#
#.....#############......###############.......#
#..............................................#
#..............................................#
#....#.........................................#
#.....#..................................#.....#
#......#.................................#.....#
#.......#............#########...........#.....#
#........#...............................#.....#
#.........#..............................#.....#
#..........#.............................#.....#
#...........#..................................#
#............#.....................#...........#
#.............###########..........#...........#
#........................#.........#...........#
#.........................#........#...........#
#..........................#.......#...........#
#...........................#......#...........#
#............................#.....#...........#
#.......#......................................#
#.......#..............###.....................#
#.......###............#.......................#
#......................#........#..............#
#...............................#.........#....#
#.............####.............####......#.....#
#.................#.............#.......#......#
#..................#....................#......#
##....################..................#......#
#....................#..................#......#
#....................#..................#......#
#.........#..........#......###.....#####......#
#.........#..........#.....#...................#
#....................######....................#
#..............................................#
################################################
");
        lemma_drawn_len(MAP@);
    }
    let m = TileMap::from(MAP);
    proof {
        let n = m.len as int;
        assert(n <= 256) by (nonlinear_arith)
            requires
                0 <= n,
                n * n <= 66048,
        ;
    }
    m
}

} // verus!
