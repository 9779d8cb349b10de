//! Materialization core of a checkpoint indexer: schema model and SQL
//! generation, typed value decoding, and checkpoint reordering/batching.

pub mod text;
pub mod table;
pub mod codec;
pub mod reducer;
pub mod sql;
pub mod args;
