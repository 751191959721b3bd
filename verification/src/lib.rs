//! Verified cores of a family of small text-processing tools: a
//! position-list parser and line-extraction engine (byte, character and
//! field selection), line/word/byte counting, consecutive-duplicate
//! grouping, line numbering, and the pure decision logic behind a
//! file-tree search.

pub mod cat;
pub mod echo;
pub mod extract;
pub mod find;
pub mod head;
pub mod numerals;
pub mod poslist;
pub mod split;
pub mod text;
pub mod uniq;
pub mod wc;
