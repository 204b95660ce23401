//! Control-plane logic for administering a GlusterFS cluster from a console:
//! reading the management tool's output, building its command lines, and
//! deciding the steps of each operator flow.

pub mod text;
pub mod parse;
pub mod command;
pub mod input;
pub mod volume;
pub mod removal;
pub mod mount;
pub mod hosts;
pub mod bricks;
pub mod menu;
