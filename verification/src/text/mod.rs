//! Text as sequences of characters.
//!
//! Every function here is stated over the characters of a text; what a text looks like in
//! memory never shows in a contract.

pub mod chars;
pub mod glue;
pub mod keyed;
pub mod number;
pub mod order;
pub mod search;
pub mod split;
