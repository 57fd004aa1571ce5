//! The reconstructors, one per asset type.

pub mod string;
pub mod texture;
pub mod unit;
pub mod wwise;
