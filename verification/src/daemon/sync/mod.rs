//! The cloud sync: what may be set, who may do what, and what is answered.

pub mod actions;
pub mod credentials;
pub mod delete;
pub mod flow;
pub mod identity;
pub mod index;
pub mod pairing;
pub mod rows;
pub mod selfcheck;
pub mod settings;
pub mod status;
