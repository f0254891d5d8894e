//! A small bubble-popping physics core on fixed-point numbers.
//!
//! Circular bubbles drift inside a window, bounce off its walls, exchange
//! momentum when they touch and disappear when clicked. Every quantity is a
//! signed fixed-point number, so a run is exactly reproducible and every
//! function carries a contract over the integers.

pub mod fixed;
pub mod screen;
pub mod bubble;
pub mod collision;
pub mod budget;
pub mod registry;
pub mod input;
pub mod spawner;
pub mod game;
