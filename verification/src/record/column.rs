//! Decoded columns. A column is the sequence of its slots; each slot has a definition
//! level, a repetition level and, where the column holds a value there, the value at
//! the column's physical type. Reading moves a position along each column.

use crate::errors::{ErrorView, ParquetError};
use crate::record::types::{Float32, Float64};
use crate::text::owned;
use vstd::prelude::*;

verus! {

/// A value at a column's physical type.
#[derive(Clone, Debug)]
pub enum ColumnValue {
    Boolean(bool),
    Int32(i32),
    Int64(i64),
    Int96 { julian_day: u32, nanos_of_day: u64 },
    Float(Float32),
    Double(Float64),
    ByteArray(Vec<u8>),
}

/// What a [`ColumnValue`] holds, with bytes as a sequence and floating point numbers
/// as their bits.
pub enum ColumnValueView {
    Boolean(bool),
    Int32(i32),
    Int64(i64),
    Int96 { julian_day: u32, nanos_of_day: u64 },
    Float(u32),
    Double(u64),
    ByteArray(Seq<u8>),
}

impl View for ColumnValue {
    type V = ColumnValueView;

    open spec fn view(&self) -> ColumnValueView {
        match *self {
            ColumnValue::Boolean(v) => ColumnValueView::Boolean(v),
            ColumnValue::Int32(v) => ColumnValueView::Int32(v),
            ColumnValue::Int64(v) => ColumnValueView::Int64(v),
            ColumnValue::Int96 { julian_day, nanos_of_day } => ColumnValueView::Int96 {
                julian_day,
                nanos_of_day,
            },
            ColumnValue::Float(v) => ColumnValueView::Float(v.bits),
            ColumnValue::Double(v) => ColumnValueView::Double(v.bits),
            ColumnValue::ByteArray(v) => ColumnValueView::ByteArray(v@),
        }
    }
}

/// One slot of a column.
#[derive(Clone, Debug)]
pub struct Triplet {
    pub def_level: i16,
    pub rep_level: i16,
    pub value: Option<ColumnValue>,
}

/// What a [`Triplet`] holds.
pub struct TripletView {
    pub def_level: i16,
    pub rep_level: i16,
    pub value: Option<ColumnValueView>,
}

impl View for Triplet {
    type V = TripletView;

    open spec fn view(&self) -> TripletView {
        TripletView {
            def_level: self.def_level,
            rep_level: self.rep_level,
            value: match self.value {
                Some(v) => Some(v@),
                None => None,
            },
        }
    }
}

/// The columns of a file, each with the position up to which it has been read.
pub struct ColumnSet {
    data: Vec<Vec<Triplet>>,
    positions: Vec<usize>,
}

/// The state of a [`ColumnSet`]: the slots of each column, and the position in each.
pub struct Columns {
    pub data: Seq<Seq<TripletView>>,
    pub positions: Seq<int>,
}

/// The slots of a column.
pub open spec fn slots(column: Seq<Triplet>) -> Seq<TripletView> {
    Seq::new(column.len(), |i: int| column[i]@)
}

impl Columns {
    /// Whether there is one position per column, none beyond its column's end.
    pub open spec fn wf(self) -> bool {
        &&& self.positions.len() == self.data.len()
        &&& forall|c: int|
            0 <= c < self.data.len() ==> 0 <= #[trigger] self.positions[c] <= self.data[c].len()
    }

    /// Whether `column` names a column that has a slot left.
    pub open spec fn has_next(self, column: Option<int>) -> bool {
        column matches Some(c) && 0 <= c < self.data.len() && 0 <= self.positions[c]
            < self.data[c].len()
    }

    /// The next slot of a column that has one left.
    pub open spec fn next(self, column: Option<int>) -> TripletView {
        self.data[column->0][self.positions[column->0]]
    }

    /// The definition level of the next slot; 0 where no slot is left.
    pub open spec fn def_level(self, column: Option<int>) -> int {
        if self.has_next(column) {
            self.next(column).def_level as int
        } else {
            0
        }
    }

    /// The repetition level of the next slot; 0 where no slot is left.
    pub open spec fn rep_level(self, column: Option<int>) -> int {
        if self.has_next(column) {
            self.next(column).rep_level as int
        } else {
            0
        }
    }

    /// The number of slots that are left in a column; 0 where there is no such column.
    pub open spec fn left(self, column: Option<int>) -> nat {
        if self.has_next(column) {
            (self.data[column->0].len() - self.positions[column->0]) as nat
        } else {
            0
        }
    }

    /// The state after the next slot of a column was consumed; the same state where
    /// no slot is left.
    pub open spec fn advanced(self, column: Option<int>) -> Columns {
        if self.has_next(column) {
            Columns {
                data: self.data,
                positions: self.positions.update(column->0, self.positions[column->0] + 1),
            }
        } else {
            self
        }
    }
}

/// The failure of reading from a column that has no slot left, or from no column.
pub open spec fn exhausted() -> ErrorView {
    ErrorView::DecoderError { inner: "no value is left in the column"@ }
}

/// The failure of taking a value from a slot that holds none.
pub open spec fn absent() -> ErrorView {
    ErrorView::DecoderError { inner: "the column holds no value here"@ }
}

/// The failure of reading a value that is not one of the schema.
pub open spec fn unfit() -> ErrorView {
    ErrorView::DecoderError { inner: "the column's value does not fit the schema"@ }
}

/// Returns a failure of a column decoder with the given message.
pub fn decoder_error(message: &str) -> (e: ParquetError)
    ensures
        e@ == (ErrorView::DecoderError { inner: message@ }),
{
    ParquetError::DecoderError { inner: owned(message) }
}

/// Returns a copy of bytes.
pub fn copy_bytes(bytes: &Vec<u8>) -> (copy: Vec<u8>)
    ensures
        copy@ == bytes@,
{
    let mut copy: Vec<u8> = Vec::with_capacity(bytes.len());
    let mut i: usize = 0;
    while i < bytes.len()
        invariant
            0 <= i <= bytes.len(),
            copy@ == bytes@.take(i as int),
        decreases bytes.len() - i,
    {
        copy.push(bytes[i]);
        assert(copy@ =~= bytes@.take(i + 1));
        i += 1;
    }
    assert(bytes@.take(i as int) =~= bytes@);
    copy
}

impl ColumnValue {
    /// Returns a copy of the value.
    pub fn copy(&self) -> (copy: ColumnValue)
        ensures
            copy@ == self@,
    {
        match self {
            ColumnValue::Boolean(v) => ColumnValue::Boolean(*v),
            ColumnValue::Int32(v) => ColumnValue::Int32(*v),
            ColumnValue::Int64(v) => ColumnValue::Int64(*v),
            ColumnValue::Int96 { julian_day, nanos_of_day } => ColumnValue::Int96 {
                julian_day: *julian_day,
                nanos_of_day: *nanos_of_day,
            },
            ColumnValue::Float(v) => ColumnValue::Float(*v),
            ColumnValue::Double(v) => ColumnValue::Double(*v),
            ColumnValue::ByteArray(v) => ColumnValue::ByteArray(copy_bytes(v)),
        }
    }
}

impl View for ColumnSet {
    type V = Columns;

    closed spec fn view(&self) -> Columns {
        Columns {
            data: Seq::new(self.data@.len(), |c: int| slots(self.data@[c]@)),
            positions: Seq::new(self.positions@.len(), |c: int| self.positions@[c] as int),
        }
    }
}

impl ColumnSet {
    /// Whether the set is well formed: its state is.
    pub closed spec fn wf(self) -> bool {
        self@.wf()
    }

    /// Makes a set of columns, each to be read from its first slot.
    pub fn new(data: Vec<Vec<Triplet>>) -> (set: ColumnSet)
        ensures
            set.wf(),
            set@.data == Seq::new(data@.len(), |c: int| slots(data@[c]@)),
            set@.positions == Seq::new(data@.len(), |c: int| 0int),
    {
        let mut positions: Vec<usize> = Vec::with_capacity(data.len());
        let mut i: usize = 0;
        while i < data.len()
            invariant
                0 <= i <= data.len(),
                positions@.len() == i,
                forall|c: int| 0 <= c < i ==> positions@[c] == 0,
            decreases data.len() - i,
        {
            positions.push(0);
            i += 1;
        }
        let set = ColumnSet { data, positions };
        assert(set@.positions =~= Seq::new(data@.len(), |c: int| 0int));
        set
    }

    /// Returns the number of columns.
    pub fn len(&self) -> (n: usize)
        requires
            self.wf(),
        ensures
            n == self@.data.len(),
    {
        self.data.len()
    }

    /// Whether the column has a slot left.
    pub fn has_next(&self, column: Option<usize>) -> (b: bool)
        requires
            self.wf(),
        ensures
            b == self@.has_next(handle(column)),
    {
        match column {
            Some(c) => c < self.data.len() && self.positions[c] < self.data[c].len(),
            None => false,
        }
    }

    /// Returns the definition level of the column's next slot without consuming it;
    /// 0 where no slot is left.
    pub fn next_definition_level(&self, column: Option<usize>) -> (level: i16)
        requires
            self.wf(),
        ensures
            level == self@.def_level(handle(column)),
    {
        if self.has_next(column) {
            let c = column.unwrap();
            self.data[c][self.positions[c]].def_level
        } else {
            0
        }
    }

    /// Returns the repetition level of the column's next slot without consuming it;
    /// 0 where no slot is left.
    pub fn next_repetition_level(&self, column: Option<usize>) -> (level: i16)
        requires
            self.wf(),
        ensures
            level == self@.rep_level(handle(column)),
    {
        if self.has_next(column) {
            let c = column.unwrap();
            self.data[c][self.positions[c]].rep_level
        } else {
            0
        }
    }

    /// Returns the number of slots that are left in the column.
    pub fn slots_left(&self, column: Option<usize>) -> (n: usize)
        requires
            self.wf(),
        ensures
            n == self@.left(handle(column)),
    {
        if self.has_next(column) {
            let c = column.unwrap();
            self.data[c].len() - self.positions[c]
        } else {
            0
        }
    }

    /// Consumes the column's next slot and returns its value. Fails, and consumes
    /// nothing, where no slot is left; fails where the slot holds no value.
    pub fn advance_value(&mut self, column: Option<usize>) -> (r: Result<ColumnValue, ParquetError>)
        requires
            old(self).wf(),
        ensures
            final(self).wf(),
            final(self)@ == old(self)@.advanced(handle(column)),
            match r {
                Ok(value) => old(self)@.has_next(handle(column)) && old(self)@.next(
                    handle(column),
                ).value == Some(value@),
                Err(e) => if old(self)@.has_next(handle(column)) {
                    old(self)@.next(handle(column)).value is None && e@ == absent()
                } else {
                    e@ == exhausted()
                },
            },
    {
        if !self.has_next(column) {
            return Err(decoder_error("no value is left in the column"));
        }
        let c = column.unwrap();
        let at = self.positions[c];
        let n = self.data[c].len();
        assert(self@.positions[c as int] == at && self@.data[c as int].len() == n);
        let r = match &self.data[c][at].value {
            Some(value) => Ok(value.copy()),
            None => Err(decoder_error("the column holds no value here")),
        };
        self.positions.set(c, at + 1);
        assert(self@.positions =~= old(self)@.positions.update(c as int, at + 1));
        assert(self@.data =~= old(self)@.data);
        r
    }

    /// Consumes the column's next slot, whatever it holds. Fails, and consumes
    /// nothing, where no slot is left.
    pub fn advance_null(&mut self, column: Option<usize>) -> (r: Result<(), ParquetError>)
        requires
            old(self).wf(),
        ensures
            final(self).wf(),
            final(self)@ == old(self)@.advanced(handle(column)),
            match r {
                Ok(_) => old(self)@.has_next(handle(column)),
                Err(e) => !old(self)@.has_next(handle(column)) && e@ == exhausted(),
            },
    {
        if !self.has_next(column) {
            return Err(decoder_error("no value is left in the column"));
        }
        let c = column.unwrap();
        let at = self.positions[c];
        let n = self.data[c].len();
        assert(self@.positions[c as int] == at && self@.data[c as int].len() == n);
        self.positions.set(c, at + 1);
        assert(self@.positions =~= old(self)@.positions.update(c as int, at + 1));
        assert(self@.data =~= old(self)@.data);
        Ok(())
    }

    /// Advises the decoders how many values to take at a time. Columns that are held
    /// in memory have no use for the advice.
    pub fn batch_size_hint(&self, batch_size: usize) {
    }
}

/// The column that a leaf's handle names, as a position among the columns.
pub open spec fn handle(column: Option<usize>) -> Option<int> {
    match column {
        Some(c) => Some(c as int),
        None => None,
    }
}

} // verus!
