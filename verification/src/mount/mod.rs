//! File systems by their identity, and where they are mounted right now.
//!
//! A reference names a file system by its UUID and a place by the path from the root of that
//! file system. References are what gets stored; the mount table is only ever a snapshot, and
//! a reference is turned into a path against the snapshot of the moment.

pub mod laws;
pub mod linux;
pub mod table;
