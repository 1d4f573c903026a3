//! The verified cores of a set of small command-line utilities: `cal`,
//! `cat`, `comm`, `echo`, `find`, `fortune`, `grep`, `head`, `ls`, `tail`,
//! `uniq` and `wc`.
//!
//! Each module holds what its utility computes, on plain values and with a
//! contract; reading files and printing is left to the programs. The calls
//! into other crates stand in [`pattern`], [`date`], [`fortune`] and [`ls`],
//! behind contracts that are stated and not proved.

pub mod cal;
pub mod cat;
pub mod comm;
pub mod date;
pub mod decimal;
pub mod echo;
pub mod failure;
pub mod find;
pub mod fortune;
pub mod grep;
pub mod head;
pub mod ls;
pub mod pattern;
pub mod split;
pub mod tail;
pub mod text;
pub mod uniq;
pub mod wc;
