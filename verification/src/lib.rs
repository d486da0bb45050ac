//! A hash map whose entries stay visible only while a caller-held lease is alive.
//!
//! Inserting a value hands back a [`MarkOnDrop`] lease. Dropping the lease flips
//! a flag shared with the entry and bumps a counter shared with the map; the
//! entry then reads as absent, and is physically removed either by the next
//! lookup that meets it or by a collection pass once enough releases have been
//! counted.
//!
//! The flags and the counter are atomic cells that a lease may touch at any
//! moment, so nothing can be proved about what a cell holds. Each operation
//! that consults a cell is therefore split in two: the read, and a step whose
//! name ends in `_given` that takes what was read as an argument and has an
//! exact contract. The operation itself states what holds whatever the read
//! gave, and ties what it did to the read by the relations `read_gave` and
//! `count_gave`.

pub mod entry;
pub mod lease;
pub mod map;
pub mod model;

pub use entry::Entry;
pub use entry::OccupiedEntry;
pub use entry::VacantEntry;
pub use lease::MarkOnDrop;
pub use lease::ReclaimCounter;
pub use lease::ReleasedFlag;
pub use map::HashMap;
