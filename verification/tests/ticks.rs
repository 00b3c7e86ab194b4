use atc::plane::{Destination, Plane};
use atc::world::tick::LandingFault;
use atc::world::{
    DirectionCardinal, DirectionGrid, PlaneKind, Pos, State, World, WorldTile,
};

fn plane(id: char, x: usize, y: usize, direction: DirectionCardinal) -> Plane {
    Plane {
        pos: Pos { x, y },
        height: 7,
        direction,
        kind: PlaneKind::Jet,
        id,
        ticks: 10,
        destination: Destination::Exit(1),
        just_spawned: false,
    }
}

fn corridor(exit_on_the_right: Option<u8>) -> World {
    let mut world = World::new(3, 10);
    world
        .place_exit(DirectionGrid::Left, DirectionCardinal::West, 5, 0)
        .unwrap();
    if let Some(id) = exit_on_the_right {
        world
            .place_exit(DirectionGrid::Right, DirectionCardinal::East, 5, id)
            .unwrap();
    }
    world.spawn_plane_at_exit(0, PlaneKind::Jet).unwrap();
    world
}

#[test]
fn empty_world_goes_on() {
    let mut world = World::new(4, 4);
    assert_eq!(world.tick_planes(), State::Ongoing);
    assert_eq!(world.try_tick_planes(), Ok(State::Ongoing));
}

#[test]
fn plane_at_the_wrong_exit() {
    let mut world = corridor(Some(2));
    assert_eq!(world.tick_planes(), State::Ongoing);
    assert_eq!(world.planes()[0].pos, Pos { x: 1, y: 5 });
    assert_eq!(world.tick_planes(), State::Ongoing);
    assert_eq!(world.planes()[0].pos, Pos { x: 2, y: 5 });
    let state = world.tick_planes();
    let expected = Plane {
        pos: Pos { x: 3, y: 5 },
        height: 7,
        direction: DirectionCardinal::East,
        kind: PlaneKind::Jet,
        id: 'a',
        ticks: 3,
        destination: Destination::Exit(1),
        just_spawned: false,
    };
    assert_eq!(state, State::WrongExit(expected, 2));
    assert_eq!(world.planes(), vec![expected]);
}

#[test]
fn plane_at_its_exit_leaves() {
    let mut world = corridor(Some(1));
    assert_eq!(world.tick_planes(), State::Ongoing);
    assert_eq!(world.tick_planes(), State::Ongoing);
    assert_eq!(world.planes().len(), 1);
    assert_eq!(world.tick_planes(), State::Ongoing);
    assert_eq!(world.planes(), vec![]);
}

#[test]
fn plane_at_a_wall_without_exit() {
    let mut world = corridor(None);
    assert_eq!(world.tick_planes(), State::Ongoing);
    assert_eq!(world.tick_planes(), State::Ongoing);
    let state = world.tick_planes();
    let there = world.planes()[0];
    assert_eq!(there.pos, Pos { x: 3, y: 5 });
    assert_eq!(state, State::PlaneTouchesWall(there, DirectionGrid::Right, 5));
}

#[test]
fn each_wall_is_found() {
    let cases = [
        (4, 1, DirectionCardinal::North, DirectionGrid::Up, 4),
        (4, 7, DirectionCardinal::South, DirectionGrid::Down, 4),
        (1, 3, DirectionCardinal::West, DirectionGrid::Left, 3),
        (7, 3, DirectionCardinal::East, DirectionGrid::Right, 3),
        (1, 1, DirectionCardinal::NorthWest, DirectionGrid::Up, 0),
        (7, 7, DirectionCardinal::SouthEast, DirectionGrid::Down, 8),
    ];
    for (x, y, direction, wall, offset) in cases {
        let mut world = World::new(8, 8);
        world.insert_plane(plane('a', x, y, direction));
        let state = world.tick_planes();
        let there = world.planes()[0];
        assert_eq!(state, State::PlaneTouchesWall(there, wall, offset));
    }
}

#[test]
fn last_cell_of_the_grid_is_no_wall() {
    let mut world = World::new(8, 8);
    world.insert_plane(plane('a', 6, 6, DirectionCardinal::SouthEast));
    assert_eq!(world.tick_planes(), State::Ongoing);
    assert_eq!(world.planes()[0].pos, Pos { x: 7, y: 7 });
}

#[test]
fn grace_shields_from_exits_and_walls() {
    let mut world = World::new(5, 5);
    world
        .place_exit(DirectionGrid::Up, DirectionCardinal::North, 0, 3)
        .unwrap();
    // spawned in the corner: on the upper wall at exit 3, on the left wall
    // at no exit; a small plane stays there for its first tick
    world.spawn_plane_at_exit(3, PlaneKind::Small).unwrap();
    assert_eq!(world.tick_planes(), State::Ongoing);
    assert_eq!(world.planes()[0].pos, Pos { x: 0, y: 0 });
    assert!(world.planes()[0].just_spawned);
    // the second tick moves it to row 1 and ends the grace: it touches the
    // left wall
    let state = world.tick_planes();
    let there = world.planes()[0];
    assert_eq!(there.pos, Pos { x: 0, y: 1 });
    assert!(!there.just_spawned);
    assert_eq!(state, State::PlaneTouchesWall(there, DirectionGrid::Left, 1));
}

#[test]
fn exit_on_an_earlier_wall_decides_in_a_corner() {
    let mut world = World::new(5, 5);
    world
        .place_exit(DirectionGrid::Up, DirectionCardinal::North, 0, 1)
        .unwrap();
    world
        .place_exit(DirectionGrid::Left, DirectionCardinal::West, 0, 2)
        .unwrap();
    world.insert_plane(plane('a', 1, 1, DirectionCardinal::NorthWest));
    assert_eq!(world.tick_planes(), State::Ongoing);
    assert_eq!(world.planes(), vec![]);

    let mut world = World::new(5, 5);
    world
        .place_exit(DirectionGrid::Up, DirectionCardinal::North, 0, 2)
        .unwrap();
    world
        .place_exit(DirectionGrid::Left, DirectionCardinal::West, 0, 1)
        .unwrap();
    world.insert_plane(plane('a', 1, 1, DirectionCardinal::NorthWest));
    let state = world.tick_planes();
    assert_eq!(state, State::WrongExit(world.planes()[0], 2));
}

#[test]
fn plane_bound_for_an_airport_strays_at_an_exit() {
    let mut world = World::new(5, 5);
    world
        .place_exit(DirectionGrid::Up, DirectionCardinal::North, 2, 1)
        .unwrap();
    let mut p = plane('a', 2, 1, DirectionCardinal::North);
    p.destination = Destination::Airport(1);
    world.insert_plane(p);
    let state = world.tick_planes();
    assert_eq!(state, State::WrongExit(world.planes()[0], 1));
}

#[test]
fn fuel_is_looked_at_first_and_stops_the_tick() {
    let mut world = World::new(30, 30);
    let mut first = plane('a', 5, 5, DirectionCardinal::East);
    let mut dry = plane('b', 9, 9, DirectionCardinal::East);
    dry.ticks = 119;
    let last = plane('c', 12, 12, DirectionCardinal::East);
    world.insert_plane(first);
    world.insert_plane(dry);
    world.insert_plane(last);
    let state = world.tick_planes();
    first.pos.x = 6;
    first.ticks = 11;
    dry.ticks = 120;
    assert_eq!(state, State::PlaneNoFuel(dry));
    assert_eq!(world.planes(), vec![first, dry, last]);
}

#[test]
fn jet_in_the_world_runs_dry_on_tick_120() {
    let mut world = World::new(200, 200);
    world
        .place_exit(DirectionGrid::Left, DirectionCardinal::West, 50, 0)
        .unwrap();
    world.spawn_plane_at_exit(0, PlaneKind::Jet).unwrap();
    for _ in 0..119 {
        assert_eq!(world.tick_planes(), State::Ongoing);
    }
    let state = world.tick_planes();
    let dry = world.planes()[0];
    assert_eq!(dry.ticks, 120);
    assert_eq!(dry.pos, Pos { x: 119, y: 50 });
    assert_eq!(state, State::PlaneNoFuel(dry));
}

#[test]
fn small_plane_in_the_world_runs_dry_on_tick_50() {
    let mut world = World::new(200, 200);
    world
        .place_exit(DirectionGrid::Left, DirectionCardinal::West, 50, 0)
        .unwrap();
    world.spawn_plane_at_exit(0, PlaneKind::Small).unwrap();
    for _ in 0..49 {
        assert_eq!(world.tick_planes(), State::Ongoing);
    }
    let state = world.tick_planes();
    let dry = world.planes()[0];
    assert_eq!(dry.ticks, 50);
    assert_eq!(dry.pos, Pos { x: 24, y: 50 });
    assert_eq!(state, State::PlaneNoFuel(dry));
}

#[test]
fn planes_in_one_cell_at_one_height_collide() {
    let mut world = World::new(20, 20);
    let mut a = plane('a', 5, 5, DirectionCardinal::East);
    let mut b = plane('b', 9, 9, DirectionCardinal::West);
    let mut c = plane('c', 7, 5, DirectionCardinal::West);
    world.insert_plane(a);
    world.insert_plane(b);
    world.insert_plane(c);
    let state = world.tick_planes();
    a.pos.x = 6;
    a.ticks = 11;
    b.pos.x = 8;
    b.ticks = 11;
    c.pos.x = 6;
    c.ticks = 11;
    assert_eq!(state, State::PlaneCollision(a, c));
    assert_eq!(world.planes(), vec![a, b, c]);
}

#[test]
fn planes_in_one_cell_at_two_heights_pass() {
    let mut world = World::new(20, 20);
    let a = plane('a', 5, 5, DirectionCardinal::East);
    let mut c = plane('c', 7, 5, DirectionCardinal::West);
    c.height = 6;
    world.insert_plane(a);
    world.insert_plane(c);
    assert_eq!(world.tick_planes(), State::Ongoing);
    assert_eq!(world.planes()[0].pos, world.planes()[1].pos);
}

fn airfield() -> World {
    let mut world = World::new(20, 20);
    world
        .place_tile(WorldTile::Airport(DirectionGrid::Right, 0), Pos { x: 5, y: 10 })
        .unwrap();
    world
}

fn lander(x: usize, y: usize, direction: DirectionCardinal, bound_for: Destination) -> Plane {
    let mut p = plane('a', x, y, direction);
    p.height = 0;
    p.destination = bound_for;
    p
}

#[test]
fn plane_lands_at_its_airport() {
    let mut world = airfield();
    world.insert_plane(lander(
        4,
        10,
        DirectionCardinal::East,
        Destination::Airport(0),
    ));
    assert_eq!(world.tick_planes(), State::Ongoing);
    assert_eq!(world.planes(), vec![]);
}

#[test]
fn plane_at_another_airport() {
    let mut world = airfield();
    let mut p = lander(4, 10, DirectionCardinal::East, Destination::Airport(3));
    world.insert_plane(p);
    let state = world.tick_planes();
    p.pos.x = 5;
    p.ticks = 11;
    assert_eq!(state, State::WrongAirport(p, 0));
    assert_eq!(world.planes(), vec![p]);
}

#[test]
fn plane_on_open_ground_crashes() {
    let mut world = airfield();
    let mut p = lander(8, 10, DirectionCardinal::East, Destination::Airport(0));
    world.insert_plane(p);
    let state = world.tick_planes();
    p.pos.x = 9;
    p.ticks = 11;
    assert_eq!(state, State::PlaneCrash(p));
}

#[test]
fn plane_on_the_ground_outside_the_grid_crashes() {
    let mut world = World::new(6, 6);
    let mut p = lander(5, 3, DirectionCardinal::East, Destination::Airport(0));
    world.insert_plane(p);
    // no exit where it leaves the grid, but the ground is judged first
    let state = world.tick_planes();
    p.pos.x = 6;
    p.ticks = 11;
    assert_eq!(state, State::PlaneCrash(p));
}

#[test]
fn plane_in_the_air_over_an_airport_flies_on() {
    let mut world = airfield();
    let mut p = lander(4, 10, DirectionCardinal::East, Destination::Airport(0));
    p.height = 1;
    world.insert_plane(p);
    assert_eq!(world.tick_planes(), State::Ongoing);
    assert_eq!(world.planes().len(), 1);
}

#[test]
fn plane_in_its_grace_period_is_not_judged_on_the_ground() {
    let mut world = airfield();
    let mut p = lander(4, 10, DirectionCardinal::East, Destination::Exit(1));
    p.just_spawned = true;
    p.ticks = 5;
    world.insert_plane(p);
    assert_eq!(world.try_tick_planes(), Ok(State::Ongoing));
    assert_eq!(world.planes().len(), 1);
}

#[test]
fn landing_against_the_facing_is_a_fault() {
    let mut world = airfield();
    let mut p = lander(5, 11, DirectionCardinal::North, Destination::Airport(0));
    world.insert_plane(p);
    p.pos.y = 10;
    p.ticks = 11;
    assert_eq!(
        world.try_tick_planes(),
        Err(LandingFault::WrongDirection(p))
    );
    assert_eq!(world.planes(), vec![p]);
}

#[test]
fn landing_while_bound_for_an_exit_is_a_fault() {
    let mut world = airfield();
    let mut p = lander(4, 10, DirectionCardinal::East, Destination::Exit(0));
    world.insert_plane(p);
    p.pos.x = 5;
    p.ticks = 11;
    assert_eq!(world.try_tick_planes(), Err(LandingFault::ExitBound(p)));
}

#[test]
fn a_tick_that_ends_over_fuel_meets_no_fault() {
    let mut world = airfield();
    let mut dry = plane('d', 1, 1, DirectionCardinal::East);
    dry.ticks = 200;
    world.insert_plane(dry);
    world.insert_plane(lander(
        4,
        10,
        DirectionCardinal::East,
        Destination::Exit(0),
    ));
    dry.ticks = 201;
    assert_eq!(world.try_tick_planes(), Ok(State::PlaneNoFuel(dry)));
}

#[test]
fn checks_come_in_their_order() {
    // one plane at a wrong exit, one on open ground, two that meet: the
    // exit is found first
    let mut world = World::new(20, 20);
    world
        .place_exit(DirectionGrid::Up, DirectionCardinal::North, 2, 9)
        .unwrap();
    world.insert_plane(lander(
        8,
        10,
        DirectionCardinal::East,
        Destination::Airport(0),
    ));
    world.insert_plane(plane('b', 5, 5, DirectionCardinal::East));
    world.insert_plane(plane('c', 7, 5, DirectionCardinal::West));
    let mut stray = plane('s', 2, 1, DirectionCardinal::North);
    world.insert_plane(stray);
    stray.pos.y = 0;
    stray.ticks = 11;
    assert_eq!(world.tick_planes(), State::WrongExit(stray, 9));
}

#[test]
fn ground_comes_before_collisions_and_walls() {
    let mut world = World::new(20, 20);
    world.insert_plane(plane('b', 5, 5, DirectionCardinal::East));
    world.insert_plane(plane('c', 7, 5, DirectionCardinal::West));
    world.insert_plane(plane('w', 1, 8, DirectionCardinal::West));
    let mut down = lander(8, 10, DirectionCardinal::East, Destination::Airport(0));
    world.insert_plane(down);
    down.pos.x = 9;
    down.ticks = 11;
    assert_eq!(world.tick_planes(), State::PlaneCrash(down));
}

#[test]
fn collisions_come_before_walls() {
    let mut world = World::new(20, 20);
    world.insert_plane(plane('w', 1, 8, DirectionCardinal::West));
    let mut b = plane('b', 5, 5, DirectionCardinal::East);
    let mut c = plane('c', 7, 5, DirectionCardinal::West);
    world.insert_plane(b);
    world.insert_plane(c);
    b.pos.x = 6;
    b.ticks = 11;
    c.pos.x = 6;
    c.ticks = 11;
    assert_eq!(world.tick_planes(), State::PlaneCollision(b, c));
}

#[test]
fn all_planes_at_their_exits_leave_in_one_tick() {
    let mut world = World::new(10, 10);
    world
        .place_exit(DirectionGrid::Up, DirectionCardinal::North, 2, 1)
        .unwrap();
    world
        .place_exit(DirectionGrid::Left, DirectionCardinal::West, 4, 1)
        .unwrap();
    // exit 1 moved to the left wall
    let stay = plane('s', 5, 5, DirectionCardinal::East);
    world.insert_plane(plane('a', 1, 4, DirectionCardinal::West));
    world.insert_plane(stay);
    assert_eq!(world.tick_planes(), State::Ongoing);
    let mut after = stay;
    after.pos.x = 6;
    after.ticks = 11;
    assert_eq!(world.planes(), vec![after]);
}

#[test]
fn plane_without_a_cell_ahead_is_judged_where_it_stands() {
    // past its grace period, due to move and with no cell ahead: the plane
    // stays, and the wall it stands at decides
    let cases = [
        (2, 0, DirectionCardinal::North, DirectionGrid::Up, 2),
        (2, 0, DirectionCardinal::NorthEast, DirectionGrid::Up, 2),
        (0, 0, DirectionCardinal::NorthWest, DirectionGrid::Up, 0),
        (0, 3, DirectionCardinal::West, DirectionGrid::Left, 3),
        (0, 3, DirectionCardinal::SouthWest, DirectionGrid::Left, 3),
        (0, 3, DirectionCardinal::NorthWest, DirectionGrid::Left, 3),
    ];
    for (x, y, direction, wall, offset) in cases {
        let mut world = World::new(6, 6);
        let mut p = plane('a', x, y, direction);
        world.insert_plane(p);
        let state = world.tick_planes();
        p.ticks = 11;
        assert_eq!(state, State::PlaneTouchesWall(p, wall, offset));
        assert_eq!(world.planes(), vec![p]);
    }
}

#[test]
fn plane_without_a_cell_ahead_leaves_through_its_exit() {
    let mut world = World::new(6, 6);
    world
        .place_exit(DirectionGrid::Up, DirectionCardinal::North, 2, 1)
        .unwrap();
    world.insert_plane(plane('a', 2, 0, DirectionCardinal::North));
    assert_eq!(world.tick_planes(), State::Ongoing);
    assert_eq!(world.planes(), vec![]);

    let mut world = World::new(6, 6);
    world
        .place_exit(DirectionGrid::Left, DirectionCardinal::West, 4, 1)
        .unwrap();
    world.insert_plane(plane('a', 0, 4, DirectionCardinal::West));
    assert_eq!(world.tick_planes(), State::Ongoing);
    assert_eq!(world.planes(), vec![]);
}

#[test]
fn plane_without_a_cell_ahead_strays_at_another_exit() {
    let mut world = World::new(6, 6);
    world
        .place_exit(DirectionGrid::Left, DirectionCardinal::West, 4, 2)
        .unwrap();
    let mut p = plane('a', 0, 4, DirectionCardinal::West);
    world.insert_plane(p);
    let state = world.tick_planes();
    p.ticks = 11;
    assert_eq!(state, State::WrongExit(p, 2));
    assert_eq!(world.planes(), vec![p]);
}

#[test]
fn grace_shields_a_plane_that_cannot_move() {
    let mut world = World::new(20, 20);
    world
        .place_exit(DirectionGrid::Up, DirectionCardinal::South, 10, 0)
        .unwrap();
    world.spawn_plane_at_exit(0, PlaneKind::Jet).unwrap();
    assert_eq!(world.tick_planes(), State::Ongoing);
    let there = world.planes()[0];
    assert_eq!(there.pos, Pos { x: 10, y: 0 });
    assert_eq!(there.ticks, 1);
    assert!(there.just_spawned);
    // the second tick ends the grace period, and the exit it stands at is
    // not the one it is bound for
    let state = world.tick_planes();
    let there = world.planes()[0];
    assert_eq!(there.pos, Pos { x: 10, y: 0 });
    assert_eq!(there.ticks, 2);
    assert!(!there.just_spawned);
    assert_eq!(state, State::WrongExit(there, 0));
}

#[test]
fn only_fuel_stops_the_advance() {
    let mut world = World::new(30, 30);
    world
        .place_exit(DirectionGrid::Left, DirectionCardinal::West, 5, 1)
        .unwrap();
    let mut stuck = plane('a', 0, 5, DirectionCardinal::West);
    let mut dry = plane('b', 9, 9, DirectionCardinal::East);
    dry.ticks = 119;
    let last = plane('c', 12, 12, DirectionCardinal::East);
    world.insert_plane(stuck);
    world.insert_plane(dry);
    world.insert_plane(last);
    let state = world.tick_planes();
    stuck.ticks = 11;
    dry.ticks = 120;
    assert_eq!(state, State::PlaneNoFuel(dry));
    // no other check was made: the plane at its exit is still there
    assert_eq!(world.planes(), vec![stuck, dry, last]);
}

#[test]
fn a_wrong_exit_stops_the_look_at_the_exits() {
    let mut world = World::new(10, 10);
    world
        .place_exit(DirectionGrid::Up, DirectionCardinal::North, 2, 1)
        .unwrap();
    world
        .place_exit(DirectionGrid::Up, DirectionCardinal::North, 6, 2)
        .unwrap();
    let mut stray = plane('s', 6, 1, DirectionCardinal::North);
    let mut behind = plane('b', 2, 1, DirectionCardinal::North);
    world.insert_plane(plane('a', 2, 1, DirectionCardinal::North));
    world.insert_plane(stray);
    world.insert_plane(behind);
    let state = world.tick_planes();
    stray.pos.y = 0;
    stray.ticks = 11;
    behind.pos.y = 0;
    behind.ticks = 11;
    assert_eq!(state, State::WrongExit(stray, 2));
    // the plane ahead of it has left, the plane behind it has not
    assert_eq!(world.planes(), vec![stray, behind]);
}
