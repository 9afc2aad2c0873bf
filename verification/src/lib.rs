//! Disk indexer core: identity decisions, duplicate grouping, cleanup
//! planning, scan bookkeeping and hashing framing, each with a contract.

pub mod hashing;
pub mod text;
pub mod model;
pub mod paths;
pub mod duplicate;
pub mod report;
pub mod lookup;
pub mod volume;
pub mod glob;
pub mod ids;
pub mod store;
pub mod scanner;
pub mod util;
pub mod render;
pub mod plist;
pub mod protocol;
pub mod cli;
pub mod laws;
pub mod verify;
