//! A parser for the console transcript of a build-and-test run.
//!
//! The input is one complete byte buffer: zero or more build-status lines,
//! then either one or more test-suite blocks or a fatal compiler-error
//! block.  The output is an ordered report of suites, each with its
//! aggregate counts and its tests in transcript order, failure messages
//! correlated to the tests that produced them by exact name.

pub mod correlate;
pub mod lex;
pub mod model;
pub mod parser;
pub mod prim;
pub mod recog;
pub mod tags;
pub mod utf8check;
