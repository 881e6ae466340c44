//! Character-sequence toolkit: searching, splitting, replacing and trimming
//! over `Seq<char>`, with executable counterparts on `Vec<char>`.

pub mod chars;
pub mod decimal;
pub mod search;
pub mod split;
pub mod trim;
