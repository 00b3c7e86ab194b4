//! A grid simulation engine for an air-traffic-control game.
//!
//! Aircraft enter a bounded grid at registered exits, fly one cell at a time,
//! and must leave through the right exit or land at the right airport before
//! their fuel runs out. The engine owns the grid, paints routes between cells,
//! advances every aircraft once per tick and classifies the result of each
//! tick.

pub mod error;
pub mod game;
pub mod level;
pub mod line;
pub mod plane;
pub mod search;
pub mod table;
pub mod text;
pub mod world;
