//! Small, verified building blocks for object persistence by double
//! dispatch, pluggable report formats, command histories and builders.

pub mod adder;
pub mod ast;
pub mod builder;
pub mod command;
pub mod deserializer;
pub mod formatter;
pub mod history;
pub mod interpreter;
pub mod items;
pub mod numeral;
pub mod persistence;
pub mod player;
pub mod text;
pub mod visit;
