//! A POSIX/GNU-style command-line argument parser.
//!
//! A [`arguments::Parser`] accumulates a registry of recognized options
//! (short and long flags, with or without an attached value, required or
//! optional) and positional parameters.  Its `parse` entry point walks a raw
//! argument vector token by token and produces either a queryable
//! [`arguments::ParsedArgs`] or a descriptive error message.
//!
//! The scanning and validation rules are stated once, as a pure state
//! machine over sequences of characters, in [`model`]; every executable
//! function is verified against that model.

pub mod arguments;
pub mod help;
pub mod laws;
pub mod model;
pub mod text;
