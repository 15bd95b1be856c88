//! Core logic of the momo toolkit: package cache decisions, test discovery
//! and reporting, and command planning.

pub mod text;
pub mod style;
pub mod cli;
pub mod manager;
pub mod test;
