//! Verified core of a desktop dashboard for Docker Compose projects.
pub mod bytesize;
pub mod calendar;
pub mod clock;
pub mod command;
pub mod compose;
pub mod dashboard;
pub mod inspect;
pub mod logs;
pub mod model;
pub mod screen;
pub mod stats;
pub mod table;
pub mod text;
