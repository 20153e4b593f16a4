//! Collision detection and response for two small arcade games: a brick
//! breaker and a ship-and-hazards shooter.
pub mod geometry;
pub mod collision;
pub mod breakout;
pub mod asteroids;
pub mod relationships;
mod random;
