//! Values behind a box. A box changes nothing of a schema or of what is read: the
//! schema of a boxed value is that of the value, and its reader hands on what the
//! value's reader reads.

use crate::basic::Repetition;
use crate::errors::{ErrorView, ParquetError};
use crate::record::infer::infer;
use crate::record::reader::{
    build, levels_fit, path_view, paths_view, BoxReader, ReaderView, ValueReader,
};
use crate::record::schemas::{BoxSchema, SchemaView, ValueSchema};
use crate::record::types::value::Value;
use crate::schema::Type;
use vstd::prelude::*;

verus! {

/// Infers the schema of a boxed value: that of the value, in a box's schema.
pub fn parse(schema: &Type, repetition: Option<Repetition>) -> (r: Result<
    (String, BoxSchema<ValueSchema>),
    ParquetError,
>)
    requires
        schema.valid(),
    ensures
        match r {
            Ok((name, boxed)) => name@ == schema.name_view() && boxed.0.wf() && infer(
                *schema,
                repetition,
            ) == Ok::<SchemaView, ErrorView>(boxed.0@),
            Err(e) => infer(*schema, repetition) == Err::<SchemaView, ErrorView>(e@),
        },
{
    match Value::parse(schema, repetition) {
        Ok((name, value)) => Ok((name, BoxSchema(value))),
        Err(e) => Err(e),
    }
}

/// Builds the reader of a boxed value: the reader of the value, in a box.
pub fn reader(
    schema: &BoxSchema<ValueSchema>,
    path: &mut Vec<String>,
    def_level: i16,
    rep_level: i16,
    paths: &Vec<Vec<String>>,
    batch_size: usize,
) -> (reader: BoxReader<ValueReader>)
    requires
        schema.0.wf(),
        levels_fit(schema.0@, def_level as int, rep_level as int),
    ensures
        final(path)@ == old(path)@,
        ValueReader::Boxed(reader).wf(),
        ValueReader::Boxed(reader)@ == ReaderView::Boxed(
            Box::new(
                build(
                    schema.0@,
                    path_view(old(path)@),
                    def_level as int,
                    rep_level as int,
                    paths_view(paths@),
                    batch_size as int,
                ),
            ),
        ),
{
    BoxReader(Box::new(Value::reader(&schema.0, path, def_level, rep_level, paths, batch_size)))
}

} // verus!
