//! The state behind the terminal screen, and what each key does to it.
//! Drawing is not done here.

pub mod app;
pub mod tools;
