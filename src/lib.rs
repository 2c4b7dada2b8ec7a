//! The block scheduler and event dispatcher of a status bar, with a few of
//! its blocks.

pub mod blocks;
pub mod decimal;
pub mod dispatcher;
pub mod scheduler;
pub mod signals;
