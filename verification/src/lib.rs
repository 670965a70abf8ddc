//! A connectivity probe: parses textual target tokens into typed actions
//! (TCP probe, UDP probe, or sleep) and expands an ordered action list into
//! the exact step sequence to execute, inserting an optional global sleep
//! between consecutive probes.

pub mod opts;
pub mod parse;
pub mod schedule;
