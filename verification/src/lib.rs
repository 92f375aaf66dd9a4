//! Placeholder-variable resolution for reusable text snippets.
//!
//! A snippet is a text template holding zero or more placeholders of the
//! form `<name>`.  The library finds the first unresolved placeholder,
//! looks up the shell command registered for it under a tag, turns the
//! command's captured output into selectable candidate items, and finally
//! substitutes the chosen value into the snippet.  Each of those steps is
//! a pure function with a proved contract; running the generator command
//! and reading the process environment stay with the caller, which hands
//! the observed outcome back in as plain values.

pub mod error;
pub mod formatter;
pub mod generator;
pub mod pipeline;
pub mod interp;
pub mod table;
pub mod scanner;
pub mod text;
