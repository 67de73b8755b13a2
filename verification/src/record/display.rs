//! The textual form of schemas: a group prints a header, then each field on a line of
//! its own, indented by four spaces, then a closing brace.

use crate::basic::{LogicalType, Repetition};
use crate::record::index::{index_entries, index_names};
use crate::record::reader::name_or;
use crate::record::schemas::{
    lemma_all_wf, lemma_named_views, name_view, DecimalSchema, ListLayout, ListSchemaType,
    SchemaView, TimeSchema, TimestampSchema, ValueSchema,
};
use crate::text::{digits, push_number, push_str, string_of};
use vstd::prelude::*;
use vstd::std_specs::iter::IteratorSpec;

verus! {

/// Holds a function that renders a text, to be rendered when the text is asked for.
pub struct DisplayFmt<F>(pub F);

impl<F: Fn() -> String> DisplayFmt<F> {
    /// Wraps `f`.
    pub fn new(f: F) -> (display: Self)
        ensures
            display.0 == f,
    {
        DisplayFmt(f)
    }

    /// Renders the text: calls the function.
    pub fn render(&self) -> (text: String)
        requires
            self.0.requires(()),
        ensures
            self.0.ensures((), text),
    {
        (self.0)()
    }
}

/// A name that may be absent, as a sequence of characters.
pub open spec fn opt_view(name: Option<&str>) -> Option<Seq<char>> {
    match name {
        Some(n) => Some(n@),
        None => None,
    }
}

/// The indentation of one level: four spaces.
pub open spec fn pad() -> Seq<char> {
    seq![' ', ' ', ' ', ' ']
}

/// Whether the next character written after `s` starts a line, where `on_newline`
/// says whether the first character of `s` did.
pub open spec fn newline_after(s: Seq<char>, on_newline: bool) -> bool {
    if s.len() == 0 {
        on_newline
    } else {
        s.last() == '\n'
    }
}

/// `s` with every line indented: the indentation stands before each character that
/// starts a line. `on_newline` says whether the first character of `s` starts one.
pub open spec fn padded(s: Seq<char>, on_newline: bool) -> Seq<char>
    decreases s.len(),
{
    if s.len() == 0 {
        Seq::empty()
    } else {
        padded(s.drop_last(), on_newline) + (if newline_after(s.drop_last(), on_newline) {
            pad()
        } else {
            Seq::empty()
        }) + seq![s.last()]
    }
}

/// Appends `s` to `out` with every line indented, and returns whether the next
/// character starts a line.
pub fn write_padded(out: &mut Vec<char>, s: &str, on_newline: bool) -> (next: bool)
    ensures
        final(out)@ == old(out)@ + padded(s@, on_newline),
        next == newline_after(s@, on_newline),
{
    let mut it = s.chars();
    let mut state = on_newline;
    let ghost mut done: int = 0;
    loop
        invariant
            0 <= done <= s@.len(),
            it.remaining() == s@.skip(done),
            it.obeys_prophetic_iter_laws(),
            out@ == old(out)@ + padded(s@.take(done), on_newline),
            state == newline_after(s@.take(done), on_newline),
        ensures
            out@ == old(out)@ + padded(s@, on_newline),
            state == newline_after(s@, on_newline),
        decreases s@.len() - done,
    {
        let ghost before = it;
        match it.next() {
            Some(c) => {
                proof {
                    vstd::string::next_postcondition(&before, &it, Some(c));
                    assert(s@.skip(done)[0] == s@[done]);
                    assert(s@.skip(done).drop_first() =~= s@.skip(done + 1));
                    assert(s@.take(done + 1).drop_last() =~= s@.take(done));
                    assert(s@.take(done + 1).last() == c);
                }
                let ghost sofar = out@;
                if state {
                    out.push(' ');
                    out.push(' ');
                    out.push(' ');
                    out.push(' ');
                    assert(out@ =~= sofar + pad());
                }
                out.push(c);
                proof {
                    assert(out@ =~= old(out)@ + padded(s@.take(done + 1), on_newline));
                    done = done + 1;
                }
                state = c == '\n';
            },
            None => {
                proof {
                    vstd::string::next_postcondition(&before, &it, None);
                    assert(s@.take(done) =~= s@);
                }
                break ;
            },
        }
    }
    state
}

/// Writes to a buffer, indenting every line by four spaces.
pub struct PadAdapter {
    pub fmt: Vec<char>,
    pub on_newline: bool,
}

impl PadAdapter {
    /// Wraps a buffer. What is written first does not start a line.
    pub fn new(fmt: Vec<char>) -> (adapter: Self)
        ensures
            adapter.fmt == fmt,
            !adapter.on_newline,
    {
        PadAdapter { fmt, on_newline: false }
    }

    /// Writes `s`, with the indentation before each character of it that starts a
    /// line.
    pub fn write_str(&mut self, s: &str)
        ensures
            final(self).fmt@ == old(self).fmt@ + padded(s@, old(self).on_newline),
            final(self).on_newline == newline_after(s@, old(self).on_newline),
    {
        let next = write_padded(&mut self.fmt, s, self.on_newline);
        self.on_newline = next;
    }
}

/// The line that opens a group: the repetition and the word `group`, or the word
/// `message` for a root; the name; the annotation in brackets, where there is one; an
/// opening brace.
pub open spec fn header(
    r: Option<Repetition>,
    name: Option<Seq<char>>,
    logical: Option<LogicalType>,
) -> Seq<char> {
    (match r {
        Some(r) => r.keyword() + " group "@,
        None => "message "@,
    }) + name_or(name, "<name>"@) + (match logical {
        Some(logical) => " ("@ + logical.name() + ")"@,
        None => Seq::empty(),
    }) + " {"@
}

/// A field inside a group: a new line, then the field's text, every line of it
/// indented.
pub open spec fn field_text(rendered: Seq<char>) -> Seq<char> {
    seq!['\n'] + padded(rendered, true)
}

/// The end of a group: the brace on a line of its own, or behind one space where the
/// group has no field.
pub open spec fn footer(has_fields: bool) -> Seq<char> {
    if has_fields {
        seq!['\n', '}']
    } else {
        seq![' ', '}']
    }
}

/// Writes a group: the header at once, then field by field, then the end.
pub struct DisplaySchemaGroup {
    fmt: Vec<char>,
    has_fields: bool,
}

impl DisplaySchemaGroup {
    /// What has been written so far.
    pub closed spec fn text(self) -> Seq<char> {
        self.fmt@
    }

    /// Whether a field has been written.
    pub closed spec fn has_fields(self) -> bool {
        self.has_fields
    }

    /// Starts a group and writes its header.
    pub fn new(r: Option<Repetition>, name: Option<&str>, logical: Option<LogicalType>) -> (group:
        Self)
        ensures
            group.text() == header(r, opt_view(name), logical),
            !group.has_fields(),
    {
        let mut fmt: Vec<char> = Vec::new();
        match r {
            Some(r) => {
                push_str(&mut fmt, r.as_str());
                push_str(&mut fmt, " group ");
            },
            None => {
                push_str(&mut fmt, "message ");
            },
        }
        match name {
            Some(n) => push_str(&mut fmt, n),
            None => push_str(&mut fmt, "<name>"),
        }
        match logical {
            Some(logical) => {
                push_str(&mut fmt, " (");
                push_str(&mut fmt, logical.as_str());
                push_str(&mut fmt, ")");
            },
            None => {},
        }
        push_str(&mut fmt, " {");
        assert(fmt@ =~= header(r, opt_view(name), logical));
        DisplaySchemaGroup { fmt, has_fields: false }
    }

    /// Adds a field whose text is at hand.
    pub fn field_rendered(&mut self, rendered: &str)
        ensures
            final(self).text() == old(self).text() + field_text(rendered@),
            final(self).has_fields(),
    {
        let ghost before = self.fmt@;
        self.fmt.push('\n');
        let _ = write_padded(&mut self.fmt, rendered, true);
        self.has_fields = true;
        assert(self.fmt@ =~= before + field_text(rendered@));
    }

    /// Adds a field: the text of `value` as a required field of the given name.
    pub fn field(&mut self, name: Option<&str>, value: Option<&ValueSchema>)
        requires
            value matches Some(schema) ==> schema.wf(),
        ensures
            final(self).text() == old(self).text() + field_text(
                render(
                    match value {
                        Some(schema) => Some(schema@),
                        None => None,
                    },
                    Some(Repetition::Required),
                    opt_view(name),
                ),
            ),
            final(self).has_fields(),
    {
        let rendered = ValueSchema::fmt(value, Some(Repetition::Required), name);
        self.field_rendered(rendered.as_str());
    }

    /// Writes the end of the group and returns the whole text.
    pub fn finish(&mut self) -> (text: String)
        ensures
            text@ == old(self).text() + footer(old(self).has_fields()),
            final(self).text() == text@,
            final(self).has_fields() == old(self).has_fields(),
    {
        let ghost before = self.fmt@;
        if self.has_fields {
            self.fmt.push('\n');
        } else {
            self.fmt.push(' ');
        }
        self.fmt.push('}');
        assert(self.fmt@ =~= before + footer(self.has_fields));
        let mut copy: Vec<char> = Vec::with_capacity(self.fmt.len());
        let mut i: usize = 0;
        while i < self.fmt.len()
            invariant
                0 <= i <= self.fmt.len(),
                copy@ == self.fmt@.take(i as int),
            decreases self.fmt.len() - i,
        {
            copy.push(self.fmt[i]);
            assert(copy@ =~= self.fmt@.take(i + 1));
            i += 1;
        }
        assert(copy@ =~= self.fmt@);
        string_of(copy)
    }
}

/// The file's name for the column type that holds bytes.
pub open spec fn bytes_text(length: Option<u32>) -> Seq<char> {
    match length {
        Some(n) => "fixed_len_byte_array("@ + digits(n as nat) + ")"@,
        None => "binary"@,
    }
}

/// The annotation of a decimal: its precision and scale.
pub open spec fn decimal_text(precision: u32, scale: u32) -> Seq<char> {
    "DECIMAL("@ + digits(precision as nat) + ","@ + digits(scale as nat) + ")"@
}

/// The file's name for the column type that holds values of a primitive schema.
pub open spec fn physical_text(schema: SchemaView) -> Seq<char> {
    match schema {
        SchemaView::Bool => "boolean"@,
        SchemaView::U8 | SchemaView::I8 | SchemaView::U16 | SchemaView::I16 | SchemaView::U32
        | SchemaView::I32 | SchemaView::Date => "int32"@,
        SchemaView::U64 | SchemaView::I64 => "int64"@,
        SchemaView::F32 => "float"@,
        SchemaView::F64 => "double"@,
        SchemaView::Time(TimeSchema::Millis) => "int32"@,
        SchemaView::Time(TimeSchema::Micros) => "int64"@,
        SchemaView::Timestamp(TimestampSchema::Int96) => "int96"@,
        SchemaView::Timestamp(_) => "int64"@,
        SchemaView::Decimal(DecimalSchema::Int32 { .. }) => "int32"@,
        SchemaView::Decimal(DecimalSchema::Int64 { .. }) => "int64"@,
        SchemaView::Decimal(DecimalSchema::Array { byte_array_schema, .. }) => bytes_text(
            byte_array_schema.0,
        ),
        SchemaView::ByteArray(length) | SchemaView::Bson(length) | SchemaView::String(length)
        | SchemaView::Json(length) | SchemaView::Enum(length) => bytes_text(length),
        _ => Seq::empty(),
    }
}

/// The annotation that the textual schema shows for a primitive schema, where it
/// shows one.
pub open spec fn annotation_text(schema: SchemaView) -> Option<Seq<char>> {
    match schema {
        SchemaView::U8 => Some("UINT_8"@),
        SchemaView::I8 => Some("INT_8"@),
        SchemaView::U16 => Some("UINT_16"@),
        SchemaView::I16 => Some("INT_16"@),
        SchemaView::U32 => Some("UINT_32"@),
        SchemaView::U64 => Some("UINT_64"@),
        SchemaView::Date => Some("DATE"@),
        SchemaView::Time(TimeSchema::Millis) => Some("TIME_MILLIS"@),
        SchemaView::Time(TimeSchema::Micros) => Some("TIME_MICROS"@),
        SchemaView::Timestamp(TimestampSchema::Millis) => Some("TIMESTAMP_MILLIS"@),
        SchemaView::Timestamp(TimestampSchema::Micros) => Some("TIMESTAMP_MICROS"@),
        SchemaView::Decimal(DecimalSchema::Int32 { precision, scale }) => Some(
            decimal_text(precision, scale),
        ),
        SchemaView::Decimal(DecimalSchema::Int64 { precision, scale }) => Some(
            decimal_text(precision, scale),
        ),
        SchemaView::Decimal(DecimalSchema::Array { precision, scale, .. }) => Some(
            decimal_text(precision, scale),
        ),
        SchemaView::Bson(_) => Some("BSON"@),
        SchemaView::String(_) => Some("UTF8"@),
        SchemaView::Json(_) => Some("JSON"@),
        SchemaView::Enum(_) => Some("ENUM"@),
        _ => None,
    }
}

/// The keyword of a repetition; that of a required field where none is given.
pub open spec fn keyword_or_required(r: Option<Repetition>) -> Seq<char> {
    match r {
        Some(r) => r.keyword(),
        None => Repetition::Required.keyword(),
    }
}

/// The line of a primitive field: repetition, column type, name, the annotation in
/// brackets where there is one, and a semicolon.
pub open spec fn leaf_text(
    r: Option<Repetition>,
    physical: Seq<char>,
    name: Option<Seq<char>>,
    annotation: Option<Seq<char>>,
) -> Seq<char> {
    keyword_or_required(r) + " "@ + physical + " "@ + name_or(name, "<name>"@) + (match annotation {
        Some(a) => " ("@ + a + ")"@,
        None => Seq::empty(),
    }) + ";"@
}

/// The fields of a group, each as a required field under its name.
pub open spec fn fields_text(fields: Seq<(Seq<char>, SchemaView)>) -> Seq<char>
    decreases fields,
{
    if fields.len() == 0 {
        Seq::empty()
    } else {
        fields_text(fields.drop_last()) + field_text(
            render_schema(fields.last().1, Some(Repetition::Required), Some(fields.last().0)),
        )
    }
}

/// The textual form of a schema that occurs with repetition `r` under `name`. A
/// primitive is one line. An option is what it holds, as an optional field. A list
/// or a map is the group or groups that wrap it in the file, annotated, around its
/// element or its key and value; a list without wrapper is its element as a repeated
/// field. A group is its fields between braces.
pub open spec fn render_schema(
    schema: SchemaView,
    r: Option<Repetition>,
    name: Option<Seq<char>>,
) -> Seq<char>
    decreases schema,
{
    match schema {
        SchemaView::Option(inner) => render_schema(*inner, Some(Repetition::Optional), name),
        SchemaView::List(element, layout) => match layout {
            ListLayout::List(list_name, element_name) => header(r, name, Some(LogicalType::List))
                + field_text(
                header(Some(Repetition::Repeated), Some(name_or(list_name, "list"@)), None)
                    + field_text(
                    render_schema(
                        *element,
                        Some(Repetition::Required),
                        Some(name_or(element_name, "element"@)),
                    ),
                ) + footer(true),
            ) + footer(true),
            ListLayout::ListCompat(element_name) => header(r, name, Some(LogicalType::List))
                + field_text(
                render_schema(*element, Some(Repetition::Repeated), Some(element_name)),
            ) + footer(true),
            ListLayout::Repeated => render_schema(*element, Some(Repetition::Repeated), name),
        },
        SchemaView::Mapping { key, value, key_value_name, key_name, value_name } => header(
            r,
            name,
            Some(LogicalType::MapAnnotated),
        ) + field_text(
            header(Some(Repetition::Repeated), Some(name_or(key_value_name, "key_value"@)), None)
                + field_text(
                render_schema(*key, Some(Repetition::Required), Some(name_or(key_name, "key"@))),
            ) + field_text(
                render_schema(
                    *value,
                    Some(Repetition::Required),
                    Some(name_or(value_name, "value"@)),
                ),
            ) + footer(true),
        ) + footer(true),
        SchemaView::Group(fields) => header(r, name, None) + fields_text(fields) + footer(
            fields.len() > 0,
        ),
        _ => leaf_text(r, physical_text(schema), name, annotation_text(schema)),
    }
}

/// The textual form of a schema, or of a field whose schema is not known.
pub open spec fn render(
    schema: Option<SchemaView>,
    r: Option<Repetition>,
    name: Option<Seq<char>>,
) -> Seq<char> {
    match schema {
        Some(schema) => render_schema(schema, r, name),
        None => leaf_text(r, "<schema>"@, name, None),
    }
}

/// Appends the characters of `chars` to `out`.
fn push_chars(out: &mut Vec<char>, chars: &Vec<char>)
    ensures
        final(out)@ == old(out)@ + chars@,
{
    let mut i: usize = 0;
    while i < chars.len()
        invariant
            0 <= i <= chars.len(),
            out@ == old(out)@ + chars@.take(i as int),
        decreases chars.len() - i,
    {
        out.push(chars[i]);
        assert(out@ =~= old(out)@ + chars@.take(i + 1));
        i += 1;
    }
    assert(chars@.take(i as int) =~= chars@);
}

/// Returns the file's name for the column type that holds bytes.
fn bytes_name(length: Option<u32>) -> (text: Vec<char>)
    ensures
        text@ == bytes_text(length),
{
    let mut text: Vec<char> = Vec::new();
    match length {
        Some(n) => {
            push_str(&mut text, "fixed_len_byte_array(");
            push_number(&mut text, n);
            push_str(&mut text, ")");
            assert(text@ =~= bytes_text(length));
        },
        None => {
            push_str(&mut text, "binary");
            assert(text@ =~= bytes_text(length));
        },
    }
    text
}

/// Returns the annotation of a decimal.
fn decimal_name(precision: u32, scale: u32) -> (text: Vec<char>)
    ensures
        text@ == decimal_text(precision, scale),
{
    let mut text: Vec<char> = Vec::new();
    push_str(&mut text, "DECIMAL(");
    push_number(&mut text, precision);
    push_str(&mut text, ",");
    push_number(&mut text, scale);
    push_str(&mut text, ")");
    assert(text@ =~= decimal_text(precision, scale));
    text
}

/// Returns the characters of `s`.
fn chars_of(s: &str) -> (text: Vec<char>)
    ensures
        text@ == s@,
{
    let mut text: Vec<char> = Vec::new();
    push_str(&mut text, s);
    assert(text@ =~= s@);
    text
}

/// Returns the file's name for the column type of a primitive schema.
fn physical_name(schema: &ValueSchema) -> (text: Vec<char>)
    ensures
        text@ == physical_text(schema@),
{
    match schema {
        ValueSchema::Bool(_) => chars_of("boolean"),
        ValueSchema::U8(_) | ValueSchema::I8(_) | ValueSchema::U16(_) | ValueSchema::I16(_)
        | ValueSchema::U32(_) | ValueSchema::I32(_) | ValueSchema::Date(_) => chars_of("int32"),
        ValueSchema::U64(_) | ValueSchema::I64(_) => chars_of("int64"),
        ValueSchema::F32(_) => chars_of("float"),
        ValueSchema::F64(_) => chars_of("double"),
        ValueSchema::Time(TimeSchema::Millis) => chars_of("int32"),
        ValueSchema::Time(TimeSchema::Micros) => chars_of("int64"),
        ValueSchema::Timestamp(TimestampSchema::Int96) => chars_of("int96"),
        ValueSchema::Timestamp(_) => chars_of("int64"),
        ValueSchema::Decimal(DecimalSchema::Int32 { .. }) => chars_of("int32"),
        ValueSchema::Decimal(DecimalSchema::Int64 { .. }) => chars_of("int64"),
        ValueSchema::Decimal(DecimalSchema::Array { byte_array_schema, .. }) => bytes_name(
            byte_array_schema.0,
        ),
        ValueSchema::ByteArray(b) => bytes_name(b.0),
        ValueSchema::Bson(b) => bytes_name(b.0.0),
        ValueSchema::String(b) => bytes_name(b.0.0),
        ValueSchema::Json(b) => bytes_name(b.0.0.0),
        ValueSchema::Enum(b) => bytes_name(b.0.0.0),
        _ => Vec::new(),
    }
}

/// Returns the annotation that the textual schema shows for a primitive schema.
fn annotation_name(schema: &ValueSchema) -> (text: Option<Vec<char>>)
    ensures
        match text {
            Some(t) => annotation_text(schema@) == Some(t@),
            None => annotation_text(schema@) is None,
        },
{
    match schema {
        ValueSchema::U8(_) => Some(chars_of("UINT_8")),
        ValueSchema::I8(_) => Some(chars_of("INT_8")),
        ValueSchema::U16(_) => Some(chars_of("UINT_16")),
        ValueSchema::I16(_) => Some(chars_of("INT_16")),
        ValueSchema::U32(_) => Some(chars_of("UINT_32")),
        ValueSchema::U64(_) => Some(chars_of("UINT_64")),
        ValueSchema::Date(_) => Some(chars_of("DATE")),
        ValueSchema::Time(TimeSchema::Millis) => Some(chars_of("TIME_MILLIS")),
        ValueSchema::Time(TimeSchema::Micros) => Some(chars_of("TIME_MICROS")),
        ValueSchema::Timestamp(TimestampSchema::Millis) => Some(chars_of("TIMESTAMP_MILLIS")),
        ValueSchema::Timestamp(TimestampSchema::Micros) => Some(chars_of("TIMESTAMP_MICROS")),
        ValueSchema::Decimal(DecimalSchema::Int32 { precision, scale }) => Some(
            decimal_name(*precision, *scale),
        ),
        ValueSchema::Decimal(DecimalSchema::Int64 { precision, scale }) => Some(
            decimal_name(*precision, *scale),
        ),
        ValueSchema::Decimal(DecimalSchema::Array { precision, scale, .. }) => Some(
            decimal_name(*precision, *scale),
        ),
        ValueSchema::Bson(_) => Some(chars_of("BSON")),
        ValueSchema::String(_) => Some(chars_of("UTF8")),
        ValueSchema::Json(_) => Some(chars_of("JSON")),
        ValueSchema::Enum(_) => Some(chars_of("ENUM")),
        _ => None,
    }
}

/// Returns the line of a primitive field.
fn leaf_line(
    r: Option<Repetition>,
    physical: &Vec<char>,
    name: Option<&str>,
    annotation: &Option<Vec<char>>,
) -> (text: String)
    ensures
        text@ == leaf_text(
            r,
            physical@,
            opt_view(name),
            match *annotation {
                Some(a) => Some(a@),
                None => None,
            },
        ),
{
    let mut out: Vec<char> = Vec::new();
    match r {
        Some(r) => push_str(&mut out, r.as_str()),
        None => push_str(&mut out, Repetition::Required.as_str()),
    }
    push_str(&mut out, " ");
    push_chars(&mut out, physical);
    push_str(&mut out, " ");
    match name {
        Some(n) => push_str(&mut out, n),
        None => push_str(&mut out, "<name>"),
    }
    match annotation {
        Some(a) => {
            push_str(&mut out, " (");
            push_chars(&mut out, a);
            push_str(&mut out, ")");
        },
        None => {},
    }
    push_str(&mut out, ";");
    assert(out@ =~= leaf_text(
        r,
        physical@,
        opt_view(name),
        match *annotation {
            Some(a) => Some(a@),
            None => None,
        },
    ));
    string_of(out)
}

/// Returns a recorded name, or the usual one where none was recorded.
fn name_or_usual<'a>(recorded: &'a Option<String>, usual: &'a str) -> (name: &'a str)
    ensures
        name@ == name_or(name_view(*recorded), usual@),
{
    match recorded {
        Some(n) => n.as_str(),
        None => usual,
    }
}

/// The text of the fields of a group, one field more.
proof fn lemma_fields_text_step(fields: Seq<(Seq<char>, SchemaView)>, upto: int)
    requires
        0 <= upto < fields.len(),
    ensures
        fields_text(fields.take(upto + 1)) == fields_text(fields.take(upto)) + field_text(
            render_schema(fields[upto].1, Some(Repetition::Required), Some(fields[upto].0)),
        ),
{
    assert(fields.take(upto + 1).drop_last() == fields.take(upto));
    assert(fields.take(upto + 1).last() == fields[upto]);
}

/// Returns the textual form of a schema that occurs with repetition `r` under `name`.
pub fn fmt_schema(schema: &ValueSchema, r: Option<Repetition>, name: Option<&str>) -> (text:
    String)
    requires
        schema.wf(),
    ensures
        text@ == render_schema(schema@, r, opt_view(name)),
    decreases *schema,
{
    match schema {
        ValueSchema::Option(inner) => fmt_schema(&inner.0, Some(Repetition::Optional), name),
        ValueSchema::List(list) => match &list.1 {
            ListSchemaType::List(list_name, element_name) => {
                let element = fmt_schema(
                    &list.0,
                    Some(Repetition::Required),
                    Some(name_or_usual(element_name, "element")),
                );
                let mut inner = DisplaySchemaGroup::new(
                    Some(Repetition::Repeated),
                    Some(name_or_usual(list_name, "list")),
                    None,
                );
                inner.field_rendered(element.as_str());
                let inner_text = inner.finish();
                let mut outer = DisplaySchemaGroup::new(r, name, Some(LogicalType::List));
                outer.field_rendered(inner_text.as_str());
                outer.finish()
            },
            ListSchemaType::ListCompat(element_name) => {
                let element = fmt_schema(
                    &list.0,
                    Some(Repetition::Repeated),
                    Some(element_name.as_str()),
                );
                let mut outer = DisplaySchemaGroup::new(r, name, Some(LogicalType::List));
                outer.field_rendered(element.as_str());
                outer.finish()
            },
            ListSchemaType::Repeated => fmt_schema(&list.0, Some(Repetition::Repeated), name),
        },
        ValueSchema::Mapping(map) => {
            let key = fmt_schema(
                &map.0,
                Some(Repetition::Required),
                Some(name_or_usual(&map.3, "key")),
            );
            let value = fmt_schema(
                &map.1,
                Some(Repetition::Required),
                Some(name_or_usual(&map.4, "value")),
            );
            let mut inner = DisplaySchemaGroup::new(
                Some(Repetition::Repeated),
                Some(name_or_usual(&map.2, "key_value")),
                None,
            );
            inner.field_rendered(key.as_str());
            inner.field_rendered(value.as_str());
            let inner_text = inner.finish();
            let mut outer = DisplaySchemaGroup::new(r, name, Some(LogicalType::MapAnnotated));
            outer.field_rendered(inner_text.as_str());
            outer.finish()
        },
        ValueSchema::Group(group) => {
            let ghost fields = group.view();
            let names = index_names(&group.1);
            let mut out = DisplaySchemaGroup::new(r, name, None);
            let mut i: usize = 0;
            proof {
                lemma_all_wf(group.0@);
                lemma_named_views(group.0@, index_entries(group.1));
                assert(fields.take(0) =~= Seq::<(Seq<char>, SchemaView)>::empty());
                assert(out.text() =~= header(r, opt_view(name), None) + fields_text(
                    fields.take(0),
                ));
            }
            while i < group.0.len()
                invariant
                    0 <= i <= group.0.len(),
                    schema matches ValueSchema::Group(g) && g == group,
                    fields == group.view(),
                    fields.len() == group.0.len(),
                    names@.len() == group.0.len(),
                    forall|k: int|
                        0 <= k < group.0.len() ==> #[trigger] fields[k] == (
                            names@[k]@,
                            group.0@[k]@,
                        ),
                    forall|k: int| 0 <= k < group.0.len() ==> (#[trigger] group.0@[k]).wf(),
                    out.text() == header(r, opt_view(name), None) + fields_text(
                        fields.take(i as int),
                    ),
                    out.has_fields() == (i > 0),
                decreases group.0.len() - i,
            {
                let field = fmt_schema(
                    &group.0[i],
                    Some(Repetition::Required),
                    Some(names[i].as_str()),
                );
                proof {
                    lemma_fields_text_step(fields, i as int);
                    assert(fields[i as int] == (names@[i as int]@, group.0@[i as int]@));
                }
                let ghost before = out.text();
                out.field_rendered(field.as_str());
                assert(out.text() =~= header(r, opt_view(name), None) + fields_text(
                    fields.take(i + 1),
                ));
                i += 1;
            }
            assert(fields.take(i as int) =~= fields);
            out.finish()
        },
        _ => leaf_line(r, &physical_name(schema), name, &annotation_name(schema)),
    }
}

impl ValueSchema {
    /// Returns the textual form of a schema that occurs with repetition `r` under
    /// `name`. Where the schema is not known, the line holds `<schema>` for it; where
    /// the name is not known, `<name>`.
    pub fn fmt(self_: Option<&ValueSchema>, r: Option<Repetition>, name: Option<&str>) -> (text:
        String)
        requires
            self_ matches Some(schema) ==> schema.wf(),
        ensures
            text@ == render(
                match self_ {
                    Some(schema) => Some(schema@),
                    None => None,
                },
                r,
                opt_view(name),
            ),
    {
        match self_ {
            Some(schema) => fmt_schema(schema, r, name),
            None => leaf_line(r, &chars_of("<schema>"), name, &None),
        }
    }
}

} // verus!
