//! rtop: the decision logic of a terminal system monitor.
//!
//! The library keeps what the monitor decides and computes: the order of the
//! process table, the filter line editor, the key bindings, the colours and
//! labels of gauges, the human-readable memory sizes and the exact reading of
//! float readings from their bit patterns. Reading the machine,
//! drawing the terminal and signalling processes stay with the program that
//! uses it.

pub mod text;
pub mod memory;
pub mod system_information;
pub mod ordering;
pub mod table;
pub mod filter;
pub mod app;
pub mod ui;
pub mod float_bits;
