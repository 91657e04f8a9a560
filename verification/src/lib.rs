//! Memory walking and split decisions for a Bloodthief auto splitter.
pub mod memory;
pub mod bt_memory;
pub mod dictionary;
pub mod splitter;
