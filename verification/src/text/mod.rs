//! Text as sequences: searching, splitting, trimming, numbers and building strings.

pub mod ascii;
pub mod decode;
pub mod json;
pub mod number;
pub mod order;
pub mod outside;
pub mod seqs;
pub mod strings;
pub mod symbol;
