//! Building blocks shared by the settings code: text scanning and durations.

pub mod string_set;
pub mod text;
pub mod time;
