//! Core types of the platform, and the rule-driven parser that turns the
//! text printed by command-line tools into structured values.

pub mod combine;
pub mod cpi;
pub mod error;
pub mod laws;
pub mod object;
pub mod parser;
pub mod pattern;
pub mod properties;
pub mod rules;
pub mod table;
pub mod text;
pub mod transform;
pub mod types;
pub mod value;
pub mod wellformed;
