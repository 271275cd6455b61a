//! A grid snake game's simulation core: discrete movement on a toroidal grid,
//! self-collision, growth on eating food, direction input, and the geometry
//! that draws the snake gliding between grid cells.

pub mod geometry;
pub mod world;
pub mod snake;
pub mod render;
