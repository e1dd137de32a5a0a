//! A verified command-resolution engine for a line-oriented interpreter.
//!
//! The library covers the pure core of a small shell: tokenizing an input
//! line, a registry of built-in commands, the algorithm that locates an
//! external program on a colon-separated search path, and the dispatcher
//! that unifies built-ins and external programs behind one outcome type.
//! All I/O (reading lines, listing directories, spawning processes) is left
//! to the embedding program, which feeds the results back in as plain
//! values.

pub mod dispatch;
pub mod locator;
pub mod numeral;
pub mod registry;
pub mod text;
