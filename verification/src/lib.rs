//! Three in-memory storage engines (files, objects and blocks) behind one
//! command console.
//!
//! `storage` holds the engines, `command` reads a line of input as a
//! command, `console` carries commands out on the engines, and `presenter`
//! puts what happened into lines of text. Nothing here reads input or prints:
//! a program hands lines to a `Console` and prints what `render` returns.

pub mod command;
pub mod console;
pub mod presenter;
pub mod storage;
mod table;
pub mod text;
