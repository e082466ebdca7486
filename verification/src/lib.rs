//! Discovery of Python tests without running Python.
//!
//! The library chooses test files by their names, reads the test functions,
//! classes and methods of a source file with their markers, keeps what it
//! found in a cache that goes by the files' modification times, and selects
//! items by keyword and marker expressions. It touches no file: the caller
//! walks the tree and reads the files.
pub mod cache;
pub mod collector;
pub mod decl;
pub mod filter;
pub mod item;
pub mod laws;
pub mod matcher;
pub mod parser;
pub mod path;
pub mod report;
pub mod text;
pub mod walker;
