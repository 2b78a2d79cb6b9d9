//! Turns card-collection lists into draft-simulator configuration text:
//! pack layouts expanded from slot weights, a rarity-bucketed catalog parsed
//! from delimited records, and a deduplicated list parsed from plain text.

pub mod text;
pub mod rarity;
pub mod assoc;
pub mod layout;
pub mod csv;
pub mod plain;
pub mod render;
