//! Two small verified components: a number-guessing game that parses a line
//! of text and compares the parsed guess against a fixed secret, and a pair
//! of functions that exchange two integers, one through mutable references
//! and one by returning the reordered pair.

pub mod guess;
pub mod parse;
pub mod swap;
