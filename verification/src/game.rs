//! The course of a game: from startup through the ticks to the result, and
//! the keys that end it.

use vstd::prelude::*;
use crate::level::builtin::builtin_level;
use crate::level::{Level, LevelView, TickError};
use crate::world::State;

verus! {

/// Where a game stands between its rounds.
#[derive(Clone, Copy, Debug, PartialEq, Eq, Structural)]
pub enum GameState {
    /// Nothing has happened yet.
    Startup,
    /// The level is being played.
    Ongoing,
    /// The game has ended and its result is on display.
    Results,
    /// The game is over and the program may stop.
    Exit,
}

impl Default for GameState {
    /// A game begins at startup.
    fn default() -> (s: Self)
        ensures
            s == GameState::Startup,
    {
        GameState::Startup
    }
}

/// A key as the game sees it.
#[derive(Clone, Copy, Debug, PartialEq, Eq, Structural)]
pub enum Key {
    /// The escape key.
    Esc,
    /// A key that stands for a character.
    Char(char),
    /// Any other key.
    Other,
}

/// A game: its state, its level and the message that waits to be shown.
#[derive(Debug)]
pub struct App {
    state: GameState,
    level: Level,
    status_info: Option<String>,
}

/// The mathematical model of a game.
pub struct AppView {
    pub state: GameState,
    pub level: LevelView,
    pub status_info: Option<Seq<char>>,
}

impl View for App {
    type V = AppView;

    closed spec fn view(&self) -> AppView {
        AppView {
            state: self.state,
            level: self.level@,
            status_info: match self.status_info {
                Some(s) => Some(s@),
                None => None,
            },
        }
    }
}

/// The key ends the game: escape and `q` always do, `c` does while the
/// control key, and no other modifier, is held.
pub open spec fn ends_game(key: Key, control: bool) -> bool {
    ||| key == Key::Esc
    ||| key == Key::Char('q')
    ||| control && (key == Key::Char('c') || key == Key::Char('C'))
}

impl AppView {
    /// The game at its start: on the built-in level, with nothing to show.
    pub open spec fn start() -> AppView {
        AppView { state: GameState::Startup, level: builtin_level(), status_info: None }
    }

    /// The game after one round in which the level, if it is being played,
    /// is advanced with or without a new plane. A game at startup begins to
    /// play; a game on display of its result is over; a game that is over
    /// stays so. While the level is played it is advanced: if it cannot be,
    /// the round changes nothing but the level, and if the tick ends the
    /// game, the message of the result waits to be shown.
    pub open spec fn after_round(self, spawn: bool) -> AppView {
        match self.state {
            GameState::Startup => AppView { state: GameState::Ongoing, ..self },
            GameState::Ongoing => {
                let level = self.level.after_tick(spawn);
                if self.level.tick_error(spawn) is Some {
                    AppView { level, ..self }
                } else {
                    match self.level.tick_state(spawn) {
                        State::Ongoing => AppView { level, ..self },
                        other => AppView {
                            state: GameState::Results,
                            level,
                            status_info: Some(other.message()),
                        },
                    }
                }
            },
            GameState::Results => AppView { state: GameState::Exit, ..self },
            GameState::Exit => self,
        }
    }

    /// Why the round fails, if it does: the level is being played and
    /// cannot be advanced.
    pub open spec fn round_error(self, spawn: bool) -> Option<TickError> {
        if self.state == GameState::Ongoing {
            self.level.tick_error(spawn)
        } else {
            None
        }
    }

    /// What one round does and gives.
    pub open spec fn plays_to(self, spawn: bool, after: AppView, result: Result<(), TickError>) -> bool {
        &&& after == self.after_round(spawn)
        &&& result == match self.round_error(spawn) {
            Some(e) => Err::<(), TickError>(e),
            None => Ok::<(), TickError>(()),
        }
    }
}

impl App {
    /// A new game on the built-in level.
    pub fn new() -> (app: Self)
        ensures
            app@ == AppView::start(),
            app@.level.world.inv(),
    {
        Self { state: GameState::Startup, level: Level::builtin(), status_info: None }
    }

    /// Where the game stands.
    pub fn state(&self) -> (s: GameState)
        ensures
            s == self@.state,
    {
        self.state
    }

    /// The level of the game.
    pub fn level(&self) -> (l: &Level)
        ensures
            l@ == self@.level,
    {
        &self.level
    }

    /// Hands out the message that waits to be shown, once.
    pub fn take_status(&mut self) -> (s: Option<String>)
        ensures
            match s {
                Some(text) => old(self)@.status_info == Some(text@),
                None => old(self)@.status_info is None,
            },
            final(self)@ == (AppView { status_info: None, ..old(self)@ }),
    {
        self.status_info.take()
    }

    /// Plays one round. While the level is played this advances it, and a
    /// new plane may arrive by chance.
    pub fn update(&mut self) -> (r: Result<(), TickError>)
        requires
            old(self)@.level.world.inv(),
        ensures
            final(self)@.level.world.inv(),
            old(self)@.plays_to(true, final(self)@, r) || old(self)@.plays_to(
                false,
                final(self)@,
                r,
            ),
    {
        match self.state {
            GameState::Startup => {
                self.state = GameState::Ongoing;
                Ok(())
            },
            GameState::Ongoing => {
                let outcome = self.level.tick();
                self.settle(outcome)
            },
            GameState::Results => {
                self.state = GameState::Exit;
                Ok(())
            },
            GameState::Exit => Ok(()),
        }
    }

    /// Plays one round in which a new plane arrives or does not, as
    /// `spawn` says.
    pub fn update_with(&mut self, spawn: bool) -> (r: Result<(), TickError>)
        requires
            old(self)@.level.world.inv(),
        ensures
            final(self)@.level.world.inv(),
            old(self)@.plays_to(spawn, final(self)@, r),
    {
        match self.state {
            GameState::Startup => {
                self.state = GameState::Ongoing;
                Ok(())
            },
            GameState::Ongoing => {
                let outcome = self.level.advance(spawn);
                self.settle(outcome)
            },
            GameState::Results => {
                self.state = GameState::Exit;
                Ok(())
            },
            GameState::Exit => Ok(()),
        }
    }

    /// Takes in what a tick of the level gave: a result that ends the game
    /// is put up for display.
    fn settle(&mut self, outcome: Result<State, TickError>) -> (r: Result<(), TickError>)
        ensures
            final(self)@ == match outcome {
                Ok(State::Ongoing) => old(self)@,
                Ok(other) => AppView {
                    state: GameState::Results,
                    status_info: Some(other.message()),
                    ..old(self)@
                },
                Err(_) => old(self)@,
            },
            r == match outcome {
                Ok(_) => Ok::<(), TickError>(()),
                Err(e) => Err::<(), TickError>(e),
            },
    {
        match outcome {
            Ok(State::Ongoing) => Ok(()),
            Ok(other) => {
                self.status_info = Some(other.to_string());
                self.state = GameState::Results;
                Ok(())
            },
            Err(e) => Err(e),
        }
    }

    /// Takes in a key. `control` says that the control key, and no other
    /// modifier, is held.
    pub fn on_key_event(&mut self, key: Key, control: bool)
        ensures
            final(self)@ == if ends_game(key, control) {
                AppView { state: GameState::Exit, ..old(self)@ }
            } else {
                old(self)@
            },
    {
        match (control, key) {
            (_, Key::Esc) | (_, Key::Char('q')) | (true, Key::Char('c')) | (true, Key::Char('C')) => {
                self.quit()
            },
            _ => {},
        }
    }

    /// Ends the game.
    pub fn quit(&mut self)
        ensures
            final(self)@ == (AppView { state: GameState::Exit, ..old(self)@ }),
    {
        self.state = GameState::Exit;
    }
}

impl Default for App {
    /// A new game on the built-in level.
    fn default() -> (app: Self)
        ensures
            app@ == AppView::start(),
    {
        Self::new()
    }
}

} // verus!
