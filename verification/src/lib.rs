//! A controller plugin that moves its output controllers at random.

pub mod counter;
pub mod generator;
pub mod level;
pub mod params;
pub mod plugin;
pub mod save;
pub mod shared;
pub mod text;
pub mod time;
pub mod ui;
pub mod voice;
