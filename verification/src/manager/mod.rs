//! The package cache: names and checks of its files, and the decisions of
//! its install and resolve procedures.

pub mod cache;
pub mod copy;
pub mod commit;
pub mod resolve;
