//! The configuration: what kotori knows about the games and about itself.

pub mod locations;
pub mod model;
pub mod paths;
pub mod profile;
pub mod ratio;
