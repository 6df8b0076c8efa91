//! Segmentation of raw text into clauses and of clauses into words.
//!
//! A text is cut into sentences, each sentence into clauses at commas and
//! whitespace, each clause into words, and every clause is paired with its
//! words in one record that serialises to a single line.

pub mod error;
pub mod pipeline;
pub mod rebuild;
pub mod record;
pub mod space;
pub mod split;
pub mod tokenize;
