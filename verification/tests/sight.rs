use hanzo::{Point, Tile, TileMap};

const ROOM: &str = "
########
#......#
#......#
#...#..#
#......#
#......#
#......#
########
";

fn open_field(len: usize) -> TileMap {
    TileMap { len, buf: vec![Tile::Floor; len * len] }
}

fn walk(map: &TileMap, start: (i16, i16), end: (i16, i16)) -> Vec<Point> {
    let mut los = map.bresenham(start, end);
    let mut cells = Vec::new();
    while let Some((p, tile)) = los.next() {
        assert_eq!(tile, Tile::Floor);
        cells.push(p);
    }
    assert!(los.next().is_none());
    cells
}

#[test]
fn map_from_text_skips_white_space() {
    let map = TileMap::from(ROOM);
    assert_eq!(map.len, 8);
    assert_eq!(map.buf.len(), 64);
    assert_eq!(map.at(0, 0), Some(Tile::Wall));
    assert_eq!(map.at(1, 1), Some(Tile::Floor));
    assert_eq!(map.at(4, 3), Some(Tile::Wall));
    assert_eq!(map.at(3, 4), Some(Tile::Floor));
}

#[test]
fn map_from_text_takes_the_largest_square() {
    let map = TileMap::from("#. .#\t.\n..x");
    assert_eq!(map.buf.len(), 8);
    assert_eq!(map.len, 2);
    assert_eq!(map.at(0, 0), Some(Tile::Wall));
    assert_eq!(map.at(1, 0), Some(Tile::Floor));
    assert_eq!(map.at(0, 1), Some(Tile::Floor));
    assert_eq!(map.at(1, 1), Some(Tile::Wall));
    assert_eq!(map.at(2, 0), None);
    let empty = TileMap::from("  \n ");
    assert_eq!(empty.len, 0);
    assert_eq!(empty.at(0, 0), None);
}

#[test]
fn side_of_is_the_integer_square_root() {
    assert_eq!(hanzo::map::side_of(0), 0);
    assert_eq!(hanzo::map::side_of(1), 1);
    assert_eq!(hanzo::map::side_of(3), 1);
    assert_eq!(hanzo::map::side_of(4), 2);
    assert_eq!(hanzo::map::side_of(2303), 47);
    assert_eq!(hanzo::map::side_of(2304), 48);
    assert_eq!(hanzo::map::side_of(usize::MAX), 4294967295);
}

#[test]
fn at_is_none_out_of_bounds() {
    let map = TileMap::from(ROOM);
    assert_eq!(map.at(8, 0), None);
    assert_eq!(map.at(0, 8), None);
    assert_eq!(map.at(usize::MAX, usize::MAX), None);
    assert_eq!(map.at(7, 7), Some(Tile::Wall));
}

#[test]
fn at_ref_agrees_with_at() {
    let mut map = TileMap::from(ROOM);
    assert_eq!(map.at_ref(4, 3), Some(&Tile::Wall));
    assert_eq!(map.at_ref(1, 1), Some(&Tile::Floor));
    assert_eq!(map.at_ref(8, 1), None);
}

#[test]
fn tiles_come_row_by_row() {
    let map = TileMap::from("#..#");
    let mut tiles = map.tiles();
    assert_eq!(tiles.next(), Some(((0, 0), Tile::Wall)));
    assert_eq!(tiles.next(), Some(((1, 0), Tile::Floor)));
    assert_eq!(tiles.next(), Some(((0, 1), Tile::Floor)));
    assert_eq!(tiles.next(), Some(((1, 1), Tile::Wall)));
    assert_eq!(tiles.next(), None);
    assert_eq!(tiles.next(), None);
}

#[test]
fn tiles_leave_out_what_is_past_the_square() {
    let map = TileMap::from("#...#");
    assert_eq!(map.len, 2);
    let mut tiles = map.tiles();
    let mut n = 0;
    while tiles.next().is_some() {
        n += 1;
    }
    assert_eq!(n, 4);
}

#[test]
fn tile_symbols() {
    assert_eq!(Tile::Floor.symbol(), '.');
    assert_eq!(Tile::Wall.symbol(), '#');
    assert_eq!(Tile::from('#'), Tile::Wall);
    assert_eq!(Tile::from('.'), Tile::Floor);
    assert_eq!(Tile::from('x'), Tile::Floor);
}

#[test]
fn ray_down_a_corridor_stops_at_the_wall() {
    let map = TileMap::from(ROOM);
    assert_eq!(walk(&map, (1, 1), (7, 1)), vec![(1, 1), (2, 1), (3, 1), (4, 1), (5, 1), (6, 1)]);
    assert_eq!(walk(&map, (1, 3), (7, 3)), vec![(1, 3), (2, 3), (3, 3)]);
    assert_eq!(walk(&map, (1, 3), (4, 3)), vec![(1, 3), (2, 3), (3, 3)]);
    assert_eq!(walk(&map, (1, 3), (30, 3)), vec![(1, 3), (2, 3), (3, 3)]);
}

#[test]
fn ray_that_is_not_blocked_ends_at_its_end_point() {
    let map = TileMap::from(ROOM);
    assert_eq!(walk(&map, (1, 1), (3, 1)), vec![(1, 1), (2, 1), (3, 1)]);
    assert_eq!(walk(&map, (2, 2), (2, 2)), vec![(2, 2)]);
}

#[test]
fn ray_along_a_diagonal() {
    let map = TileMap::from(ROOM);
    assert_eq!(walk(&map, (1, 1), (4, 4)), vec![(1, 1), (2, 2), (3, 3), (4, 4)]);
    assert_eq!(walk(&map, (4, 4), (1, 1)), vec![(4, 4), (3, 3), (2, 2), (1, 1)]);
}

#[test]
fn ray_on_a_shallow_line_steps_at_the_half() {
    let map = TileMap::from(ROOM);
    assert_eq!(walk(&map, (1, 1), (5, 3)), vec![(1, 1), (2, 1), (3, 2), (4, 2), (5, 3)]);
    assert_eq!(walk(&map, (5, 3), (1, 1)), vec![(5, 3)]);
    assert_eq!(walk(&map, (5, 4), (1, 6)), vec![(5, 4), (4, 4), (3, 5), (2, 5), (1, 6)]);
}

#[test]
fn ray_on_a_steep_line_walks_the_rows() {
    let map = TileMap::from(ROOM);
    assert_eq!(walk(&map, (2, 1), (3, 5)), vec![(2, 1), (2, 2), (2, 3), (3, 4), (3, 5)]);
    assert_eq!(walk(&map, (3, 5), (4, 2)), vec![(3, 5), (3, 4)]);
    assert_eq!(walk(&map, (3, 5), (2, 2)), vec![(3, 5), (3, 4), (2, 3), (2, 2)]);
}

#[test]
fn ray_ends_at_the_edge_of_the_map() {
    let map = open_field(4);
    assert_eq!(walk(&map, (1, 1), (1, -5)), vec![(1, 1), (1, 0)]);
    assert_eq!(walk(&map, (1, 1), (9, 1)), vec![(1, 1), (2, 1), (3, 1)]);
    assert_eq!(walk(&map, (2, 2), (-3, -3)), vec![(2, 2), (1, 1), (0, 0)]);
    assert_eq!(walk(&map, (-1, 1), (3, 1)), Vec::<Point>::new());
    assert_eq!(walk(&map, (1, 1), (i16::MIN, i16::MAX)).first(), Some(&(1, 1)));
}

#[test]
fn ray_from_a_wall_sees_nothing() {
    let map = TileMap::from(ROOM);
    assert_eq!(walk(&map, (0, 0), (5, 5)), Vec::<Point>::new());
    assert_eq!(walk(&map, (4, 3), (5, 3)), Vec::<Point>::new());
}

#[test]
fn ray_with_extreme_end_points() {
    let map = open_field(3);
    assert_eq!(walk(&map, (0, 0), (i16::MAX, 0)), vec![(0, 0), (1, 0), (2, 0)]);
    assert_eq!(walk(&map, (0, 0), (i16::MAX, i16::MAX)), vec![(0, 0), (1, 1), (2, 2)]);
    assert_eq!(walk(&map, (i16::MIN, i16::MIN), (i16::MAX, i16::MAX)), Vec::<Point>::new());
}

#[test]
fn random_map_has_the_asked_side() {
    let map = TileMap::new(5);
    assert_eq!(map.len, 5);
    assert_eq!(map.buf.len(), 25);
    let none = TileMap::new(0);
    assert_eq!(none.buf.len(), 0);
}

#[test]
fn random_cell_is_floor() {
    let map = TileMap::from(ROOM);
    for _ in 0..50 {
        let (x, y) = map.random().unwrap();
        assert_eq!(map.at(x as usize, y as usize), Some(Tile::Floor));
    }
    let one = TileMap::from("###.");
    assert_eq!(one.random(), Some((1, 1)));
    let walls = TileMap::from("####");
    assert_eq!(walls.random(), None);
}

#[test]
fn floor_cells_lists_each_floor_cell() {
    let map = TileMap::from("#..#");
    assert_eq!(map.floor_cells(), vec![(1, 0), (0, 1)]);
}
