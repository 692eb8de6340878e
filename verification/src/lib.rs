//! Lowering of function bodies with suspension points into resumable state
//! machines.
//!
//! A function body in ordinary sequential style, in which `yield_!` and
//! `await!` mark the points at which control goes back to a driver, is
//! lowered in two steps. [`build::construct`] builds a graph of basic
//! blocks from the structured body: it splits the body at suspensions,
//! branches, loops and early exits, and records at the entry of each block
//! which locals are live. [`translate::translate`] turns the finished graph
//! into a machine with one state for each block that control can reach,
//! which captures what is live at the block's entry, and one step for the
//! terminator of each block.
//!
//! [`cfg`] holds a second, simpler graph builder, for bodies in which every
//! `return` with a value hands control back to the driver.

pub mod ast;
pub mod build;
pub mod cfg;
pub mod graph;
pub mod repr;
pub mod transition;
pub mod translate;
pub mod validate;
