//! A household media catalog: categories of music and audiobook entries,
//! taken from a streaming service, grouped for browsing, and played on a
//! home-automation media player.

pub mod categories;
pub mod entries;
pub mod errors;
pub mod ha;
pub mod ids;
pub mod spotify;
pub mod text;
