//! An immutable map from a fixed key set to values, laid out by a minimal
//! perfect hash function: each key owns one slot of a dense value array.
pub mod codec;
pub mod construction;
pub mod hashing;
pub mod keyless;
pub mod map;
pub mod placement;

pub use keyless::KeylessPerfectMap;
pub use map::PerfectMap;
