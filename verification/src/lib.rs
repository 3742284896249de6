//! Conway's Game of Life on a toroidal grid: the simulation engine, the
//! pattern loader and placer, the built-in starting shapes, the key bindings
//! and the speed controller, each with a machine-checked contract.

pub mod cell;
pub mod config;
pub mod error;
pub mod grid;
pub mod kmaps;
pub mod laws;
pub mod pattern;
pub mod registry;
pub mod render;
pub mod shapes;
pub mod speed;
pub mod universe;

pub use cell::Cell;
pub use config::{DEF_WH, HELP};
pub use error::ShapeError;
pub use grid::Grid;
pub use pattern::Pattern;
pub use registry::{get_shape, SHAPES_N};
pub use speed::{faster, slower, PollTime};
pub use universe::Universe;
