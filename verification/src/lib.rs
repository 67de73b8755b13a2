//! Record assembly for a columnar file format: logical schemas inferred from the
//! file's type tree, reader trees built over column paths, and a dynamic value
//! type that covers every shape a row can take.

pub mod basic;
pub mod errors;
pub mod schema;
pub mod text;
pub mod record;
