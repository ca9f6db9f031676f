//! A library for generating GitHub-style contribution graphs: a grid of
//! one cell per day, seven rows for the days of the week (Sunday on top)
//! and one column per week, each cell coloured by the day's contribution
//! count through a palette and its mapping strategy.

pub mod builtins;
pub mod canvas;
pub mod color;
pub mod date;
pub mod graph;
pub mod laws;
pub mod layout;
pub mod palette;
pub mod samples;

pub use builtins::Strategy;
pub use builtins::Theme;
pub use builtins::ThresholdStrategy;
pub use canvas::Canvas;
pub use color::Rgba;
pub use date::Date;
pub use graph::ContributionGraph;
pub use palette::MappingStrategy;
pub use palette::Palette;
