use atc::error::Error;
use atc::world::{Pos, World, WorldTile};

fn route_cells(world: &World) -> Vec<(usize, usize)> {
    let mut cells = Vec::new();
    for y in 0..world.height() {
        for x in 0..world.width() {
            if world.tile(Pos { x, y }) == Some(WorldTile::Route) {
                cells.push((x, y));
            }
        }
    }
    cells
}

#[test]
#[should_panic]
fn test_world_place_route_out_of_bounds() {
    let mut world = World::new(20, 20);
    world
        .place_route_in_line([0, 0].into(), [20, 19].into())
        .unwrap();
    for i in 0..19 {
        assert_eq!(world.tile([i, i].into()), Some(WorldTile::Route));
    }

    let mut world = World::new(20, 20);
    world
        .place_route_in_line([0, 0].into(), [19, 20].into())
        .unwrap();
    for i in 0..19 {
        assert_eq!(world.tile([i, i].into()), Some(WorldTile::Route));
    }
}

#[test]
fn test_world_place_route_0() {
    let mut world = World::new(20, 20);
    world
        .place_route_in_line([0, 0].into(), [19, 19].into())
        .unwrap();
    println!("{}", world.to_string());
    for i in 0..19 {
        assert_eq!(world.tile([i, i].into()), Some(WorldTile::Route));
    }
}

#[test]
fn test_world_place_route_1() {
    let mut world = World::new(20, 20);
    world
        .place_route_in_line([19, 19].into(), [0, 0].into())
        .unwrap();
    println!("{}", world.to_string());
    for i in 0..19 {
        assert_eq!(world.tile([i, i].into()), Some(WorldTile::Route));
    }
}

#[test]
fn test_world_place_route_2() {
    let mut world = World::new(20, 20);
    world
        .place_route_in_line([19, 0].into(), [0, 19].into())
        .unwrap();
    println!("{}", world.to_string());
    for i in 0..19 {
        assert_eq!(world.tile([i, 19 - i].into()), Some(WorldTile::Route));
    }
}

#[test]
fn diagonal_route_covers_the_diagonal_and_nothing_else() {
    let mut world = World::new(20, 20);
    world
        .place_route_in_line([0, 0].into(), [19, 19].into())
        .unwrap();
    let expected: Vec<(usize, usize)> = (0..20).map(|i| (i, i)).collect();
    assert_eq!(route_cells(&world), expected);
}

#[test]
fn route_paints_both_ends_and_one_cell_per_step() {
    let mut world = World::new(12, 9);
    world
        .place_route_in_line([2, 7].into(), [10, 3].into())
        .unwrap();
    assert_eq!(world.tile([2, 7].into()), Some(WorldTile::Route));
    assert_eq!(world.tile([10, 3].into()), Some(WorldTile::Route));
    assert_eq!(route_cells(&world).len(), 9);
}

#[test]
fn shallow_route_rounds_halves_away_from_the_start() {
    // six steps along x, two along y: the offsets on y are
    // 0, 0, 1, 1, 1, 2, 2
    let mut world = World::new(8, 4);
    world
        .place_route_in_line([0, 0].into(), [6, 2].into())
        .unwrap();
    assert_eq!(
        route_cells(&world),
        vec![(0, 0), (1, 0), (2, 1), (3, 1), (4, 1), (5, 2), (6, 2)]
    );
}

#[test]
fn steep_route_runs_along_y() {
    // five steps along y, two along x, from the lower right upwards
    let mut world = World::new(4, 6);
    world
        .place_route_in_line([3, 5].into(), [1, 0].into())
        .unwrap();
    assert_eq!(
        route_cells(&world),
        vec![(1, 0), (1, 1), (2, 2), (2, 3), (3, 4), (3, 5)]
    );
}

#[test]
fn route_from_a_cell_to_itself_is_one_cell() {
    let mut world = World::new(3, 3);
    world
        .place_route_in_line([1, 2].into(), [1, 2].into())
        .unwrap();
    assert_eq!(route_cells(&world), vec![(1, 2)]);
}

#[test]
fn straight_routes_along_a_row_and_a_column() {
    let mut world = World::new(5, 5);
    world
        .place_route_in_line([4, 1].into(), [0, 1].into())
        .unwrap();
    world
        .place_route_in_line([2, 0].into(), [2, 4].into())
        .unwrap();
    assert_eq!(
        route_cells(&world),
        vec![
            (2, 0),
            (0, 1),
            (1, 1),
            (2, 1),
            (3, 1),
            (4, 1),
            (2, 2),
            (2, 3),
            (2, 4)
        ]
    );
}

#[test]
fn route_keeps_other_tiles() {
    let mut world = World::new(5, 5);
    world
        .place_tile(WorldTile::Beacon(3), [4, 0].into())
        .unwrap();
    world
        .place_tile(WorldTile::Beacon(4), [2, 2].into())
        .unwrap();
    world
        .place_route_in_line([0, 0].into(), [4, 4].into())
        .unwrap();
    assert_eq!(world.tile([4, 0].into()), Some(WorldTile::Beacon(3)));
    assert_eq!(world.tile([2, 2].into()), Some(WorldTile::Route));
    assert_eq!(world.tile([0, 4].into()), Some(WorldTile::Empty));
}

#[test]
fn route_with_an_end_outside_paints_nothing() {
    let mut world = World::new(20, 20);
    let err = world
        .place_route_in_line([0, 0].into(), [20, 19].into())
        .map(|_| ())
        .unwrap_err();
    assert_eq!(err, Error::PosOutOfBounds(20, 20));
    assert_eq!(route_cells(&world), vec![]);

    let err = world
        .place_route_in_line([3, 25].into(), [0, 0].into())
        .map(|_| ())
        .unwrap_err();
    assert_eq!(err, Error::PosOutOfBounds(25, 20));
    assert_eq!(route_cells(&world), vec![]);
}

#[test]
fn route_reports_the_first_end_first() {
    let mut world = World::new(4, 6);
    let err = world
        .place_route_in_line([9, 9].into(), [7, 0].into())
        .map(|_| ())
        .unwrap_err();
    assert_eq!(err, Error::PosOutOfBounds(9, 4));
    let err = world
        .place_route_in_line([3, 9].into(), [7, 0].into())
        .map(|_| ())
        .unwrap_err();
    assert_eq!(err, Error::PosOutOfBounds(9, 6));
}

#[test]
fn place_tile_overwrites_and_checks_bounds() {
    let mut world = World::new(3, 2);
    world.place_tile(WorldTile::Route, [2, 1].into()).unwrap();
    world
        .place_tile(WorldTile::Beacon(7), [2, 1].into())
        .unwrap();
    assert_eq!(world.tile([2, 1].into()), Some(WorldTile::Beacon(7)));
    assert_eq!(world.tile([0, 0].into()), Some(WorldTile::Empty));
    assert_eq!(world.tile([3, 0].into()), None);
    assert_eq!(
        world
            .place_tile(WorldTile::Route, [3, 0].into())
            .map(|_| ())
            .unwrap_err(),
        Error::PosOutOfBounds(3, 3)
    );
    assert_eq!(
        world
            .place_tile(WorldTile::Route, [0, 2].into())
            .map(|_| ())
            .unwrap_err(),
        Error::PosOutOfBounds(2, 2)
    );
}

#[test]
fn placement_calls_chain() {
    let mut world = World::new(4, 4);
    world
        .place_tile(WorldTile::Beacon(1), [0, 0].into())
        .unwrap()
        .place_route_in_line([1, 1].into(), [3, 1].into())
        .unwrap()
        .place_tile(WorldTile::Beacon(2), [3, 3].into())
        .unwrap();
    assert_eq!(world.tile([0, 0].into()), Some(WorldTile::Beacon(1)));
    assert_eq!(world.tile([2, 1].into()), Some(WorldTile::Route));
    assert_eq!(world.tile([3, 3].into()), Some(WorldTile::Beacon(2)));
}

#[test]
fn signed_coordinates_convert_when_not_negative() {
    assert_eq!(Pos::try_from((3, 0)), Ok(Pos { x: 3, y: 0 }));
    assert_eq!(
        Pos::try_from((-1, 4)),
        Err(Error::PosFromSigned((-1, 4)))
    );
    assert_eq!(
        Pos::try_from((2, -7)),
        Err(Error::PosFromSigned((2, -7)))
    );
    assert_eq!(Pos::from([5, 6]), Pos { x: 5, y: 6 });
}
