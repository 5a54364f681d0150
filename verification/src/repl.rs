//! Interactive examples: their text, and what passes between the reducer and
//! the driver of the interpreter sessions.

pub mod driver;
pub mod example;
