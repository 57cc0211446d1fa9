//! Decodes the byte stream of a terminal session into terminal events,
//! renders them as a readable trace, and re-encodes them into a recording.

pub mod classifier;
pub mod decimal;
pub mod driver;
pub mod encode;
pub mod event;
pub mod join;
pub mod laws;
pub mod printer;
pub mod process;
pub mod recording;
pub mod reencode;
pub mod render;
pub mod text;
pub mod trace;
pub mod width;
