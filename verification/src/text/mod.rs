//! Text as sequences of characters.

pub mod chars;
pub mod decimal;
pub mod hex;
pub mod layout;
pub mod order;
pub mod path;
pub mod search;
pub mod space;
