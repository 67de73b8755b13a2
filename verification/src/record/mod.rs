//! Logical schemas, their inference from the type tree, and the readers and values
//! built on them.

pub mod assembly;
pub mod column;
pub mod display;
pub mod index;
pub mod infer;
pub mod reader;
pub mod schemas;
pub mod types;
