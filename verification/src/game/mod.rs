//! The library of games: ids, adding and removing, and finding games in directories.

pub mod ids;
pub mod library;
pub mod listing;
pub mod scan;
