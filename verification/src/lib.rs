//! A hardware inventory of a Linux host, taken from what its diagnostic
//! tools print: the parsers of that text, the rules that choose among the
//! tools, and the record that the findings are assembled into.
//!
//! The library runs no tool itself. A detector says which tool to run next;
//! its caller runs it and hands back what happened.
pub mod command;
pub mod error;
pub mod fields;
pub mod gpu;
pub mod number;
pub mod platform;
pub mod ram;
pub mod report;
pub mod storage;
pub mod survey;
pub mod text;
