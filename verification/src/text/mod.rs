//! Small text utilities shared by the commands: decimal rendering, joining, and
//! the conversions between `str` and character sequences.

pub mod chars;
pub mod join;
