//! A resource arena: a ledger of every byte region loaded during a run
//! (memory-mapped file regions and owned buffers), handed out by index,
//! released only when the arena goes away, with aggregate statistics.
pub mod arena;
mod decimal;
pub mod registry;
pub mod resource;
pub mod stats;

pub use arena::Arena;
pub use registry::{RecordError, Registry};
pub use resource::{MappedRegion, Resource};
pub use stats::Stats;
