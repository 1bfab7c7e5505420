//! Decoder for AUTOSAR DLT ("Diagnostic Log and Trace") binary log files.
//!
//! The decoder locates message boundaries by their 4-byte marker, splits each
//! message into storage, standard, extra and extended header fields, renders
//! the payload (control, non-verbose or verbose mode) to text, and collects
//! one row per message into a columnar store.

pub mod cli;
pub mod common;
pub mod laws;
pub mod message;
pub mod protocol;
pub mod render;
pub mod scan;
pub mod store;
pub mod viewer;
pub mod wire;
