//! Asset formats and the texture engine.

pub mod animation;
pub mod bl320;
pub mod error;
pub mod landscape;
pub mod level;
pub mod objects;
pub mod pls;
pub mod psfb;
pub mod types;
pub mod units;
