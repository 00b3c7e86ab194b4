use atc::error::Error;
use atc::game::{App, GameState, Key};
use atc::level::{Level, TickError};
use atc::plane::{Destination, Plane};
use atc::world::tick::LandingFault;
use atc::world::{
    DirectionCardinal, DirectionGrid, Exit, PlaneKind, Pos, State, World, WorldTile,
};

fn arrived(ticks: usize, y: usize, just_spawned: bool) -> Plane {
    Plane {
        pos: Pos { x: 12, y },
        height: 7,
        direction: DirectionCardinal::South,
        kind: PlaneKind::Small,
        id: 'A',
        ticks,
        destination: Destination::Exit(1),
        just_spawned,
    }
}

#[test]
fn builtin_level_layout() {
    let level = Level::builtin();
    assert_eq!(level.get_name(), "default");
    let world = level.world();
    assert_eq!(world.width(), 20);
    assert_eq!(world.height(), 20);
    assert_eq!(world.planes(), vec![]);
    for y in 0..20 {
        for x in 0..20 {
            let on_the_slope = (13..=19).contains(&x) && y == 22 - x;
            let expected = if (x, y) == (12, 10) {
                WorldTile::Beacon(0)
            } else if (x, y) == (5, 10) {
                WorldTile::Airport(DirectionGrid::Right, 0)
            } else if y == 10 || x == 5 || x == 12 || on_the_slope {
                WorldTile::Route
            } else {
                WorldTile::Empty
            };
            assert_eq!(world.tile(Pos { x, y }), Some(expected));
        }
    }
    let exit = |wall_direction, plane_out_direction, wall_pos| {
        Some(Exit {
            wall_direction,
            plane_out_direction,
            wall_pos,
        })
    };
    assert_eq!(
        world.exit(0),
        exit(DirectionGrid::Up, DirectionCardinal::South, 12)
    );
    assert_eq!(
        world.exit(1),
        exit(DirectionGrid::Right, DirectionCardinal::SouthWest, 2)
    );
    assert_eq!(
        world.exit(2),
        exit(DirectionGrid::Right, DirectionCardinal::West, 10)
    );
    assert_eq!(
        world.exit(3),
        exit(DirectionGrid::Left, DirectionCardinal::East, 10)
    );
    assert_eq!(
        world.exit(4),
        exit(DirectionGrid::Down, DirectionCardinal::North, 12)
    );
    assert_eq!(world.exit(5), None);
}

#[test]
fn level_without_arrival_goes_on() {
    let mut level = Level::builtin();
    assert_eq!(level.advance(false), Ok(State::Ongoing));
    assert_eq!(level.world().planes(), vec![]);
}

#[test]
fn arrival_comes_before_the_tick() {
    let mut level = Level::builtin();
    assert_eq!(level.advance(true), Ok(State::Ongoing));
    assert_eq!(level.world().planes(), vec![arrived(1, 19, true)]);
    // the small plane moves on its second tick, out through the lower
    // wall, where exit 4 is and not the one it is bound for
    let there = arrived(2, 20, false);
    assert_eq!(level.advance(false), Ok(State::WrongExit(there, 4)));
}

#[test]
fn level_tick_is_one_of_the_two_advances() {
    for _ in 0..40 {
        let mut level = Level::builtin();
        assert_eq!(level.tick(), Ok(State::Ongoing));
        let planes = level.world().planes();
        assert!(planes == vec![] || planes == vec![arrived(1, 19, true)]);
    }
}

#[test]
fn level_without_its_spawn_exit_cannot_take_arrivals() {
    let mut level = Level::builtin();
    *level.world_mut() = World::new(20, 20);
    assert_eq!(level.advance(false), Ok(State::Ongoing));
    assert_eq!(
        level.advance(true),
        Err(TickError::Spawn(Error::NoExitForID(4)))
    );
    assert_eq!(level.world().planes(), vec![]);
}

#[test]
fn level_hands_on_a_landing_fault() {
    let mut level = Level::builtin();
    let mut p = Plane {
        pos: Pos { x: 4, y: 10 },
        height: 0,
        direction: DirectionCardinal::East,
        kind: PlaneKind::Jet,
        id: 'x',
        ticks: 9,
        destination: Destination::Exit(2),
        just_spawned: false,
    };
    level.world_mut().insert_plane(p);
    p.pos.x = 5;
    p.ticks = 10;
    assert_eq!(
        level.advance(false),
        Err(TickError::Landing(LandingFault::ExitBound(p)))
    );
}

#[test]
fn level_world_can_be_changed_in_place() {
    let mut level = Level::builtin();
    level
        .world_mut()
        .place_tile(WorldTile::Beacon(9), Pos { x: 0, y: 0 })
        .unwrap();
    assert_eq!(
        level.world().tile(Pos { x: 0, y: 0 }),
        Some(WorldTile::Beacon(9))
    );
    assert_eq!(level.get_name(), "default");
    assert_eq!(level.render(), level.world().to_string());
    assert_eq!(level.to_string(), level.render());
}

#[test]
fn game_runs_from_startup_to_exit() {
    let mut app = App::new();
    assert_eq!(app.state(), GameState::Startup);
    assert_eq!(app.level().get_name(), "default");
    assert_eq!(app.update_with(true), Ok(()));
    assert_eq!(app.state(), GameState::Ongoing);
    // startup does not advance the level
    assert_eq!(app.level().world().planes(), vec![]);
    assert_eq!(app.update_with(true), Ok(()));
    assert_eq!(app.state(), GameState::Ongoing);
    assert_eq!(app.take_status(), None);
    assert_eq!(app.update_with(false), Ok(()));
    assert_eq!(app.state(), GameState::Results);
    assert_eq!(
        app.take_status(),
        Some("Plane A exited at the wrong exit: 4".to_string())
    );
    assert_eq!(app.take_status(), None);
    assert_eq!(app.update_with(true), Ok(()));
    assert_eq!(app.state(), GameState::Exit);
    // the result does not advance the level any more
    assert_eq!(app.level().world().planes().len(), 1);
    assert_eq!(app.update_with(true), Ok(()));
    assert_eq!(app.state(), GameState::Exit);
    assert_eq!(app.update(), Ok(()));
    assert_eq!(app.state(), GameState::Exit);
}

#[test]
fn game_update_draws_the_arrival_itself() {
    let mut app = App::default();
    assert_eq!(app.update(), Ok(()));
    assert_eq!(app.state(), GameState::Ongoing);
    assert_eq!(app.update(), Ok(()));
    assert_eq!(app.state(), GameState::Ongoing);
    assert!(app.level().world().planes().len() <= 1);
}

#[test]
fn keys_that_end_the_game() {
    let ends = |key, control| {
        let mut app = App::new();
        app.on_key_event(key, control);
        app.state() == GameState::Exit
    };
    assert!(ends(Key::Esc, false));
    assert!(ends(Key::Esc, true));
    assert!(ends(Key::Char('q'), false));
    assert!(ends(Key::Char('q'), true));
    assert!(ends(Key::Char('c'), true));
    assert!(ends(Key::Char('C'), true));
    assert!(!ends(Key::Char('c'), false));
    assert!(!ends(Key::Char('C'), false));
    assert!(!ends(Key::Char('Q'), false));
    assert!(!ends(Key::Char('x'), true));
    assert!(!ends(Key::Other, true));
    assert!(!ends(Key::Other, false));
}

#[test]
fn quit_ends_the_game_at_once() {
    let mut app = App::new();
    app.quit();
    assert_eq!(app.state(), GameState::Exit);
    assert_eq!(app.take_status(), None);
    assert_eq!(GameState::default(), GameState::Startup);
}
