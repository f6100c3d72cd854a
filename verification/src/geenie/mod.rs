//! Project generation: items that contribute files and commands, the
//! result that collects them, and external processes.

pub mod error;
pub mod item;
pub mod process;
pub mod result;
pub mod mount;
pub mod run;
