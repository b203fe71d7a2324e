//! Pointer input handling and widget state for a retained UI.
//!
//! The library decides what the pointer does to the UI: which nodes a
//! press, release or movement reaches, when a press turns into a drag, and
//! which events each node receives. Entities are named by their `u64` bits.

pub mod pointer;
pub mod filter;
pub mod text;
pub mod widgets;

