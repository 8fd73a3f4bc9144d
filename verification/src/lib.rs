//! Host-side core of a live-coding row processor: typed column schema,
//! row shaping against a declared output column set, a bounded auto-sizing
//! grid renderer, and the reload state machine that drives the
//! compile/load/run/wait cycle.

pub mod cell;
pub mod grid;
pub mod num;
pub mod reload;
pub mod schema;
pub mod stub;
pub mod table;
pub mod text;
