//! Printing the end of a stream: parsing the count, choosing where to
//! start, and streaming what follows.

pub mod lines;
pub mod report;
pub mod stream;
pub mod take;
pub mod totals;
pub mod window;
