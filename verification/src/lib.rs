//! A small game-engine support library: a growable vector with an explicit
//! capacity policy, a named bump store built on it, bitmap decoding, an
//! asset registry keyed by random ids, and a few rendering helpers.

pub mod avec;
pub mod abump;
pub mod assets;
pub mod engine_assets;
pub mod utils;
pub mod handler;
pub mod sequential_handler;
pub mod asset_handler;
pub mod render;
