//! Reader trees. A reader tree mirrors a schema: one reader per node, each knowing the
//! definition and repetition level at which it sits, and each leaf knowing the column
//! it reads, by the column's path.

use crate::record::index::{index_entries, index_is_consistent, indexes};
use crate::record::infer::{
    infer, infer_core, infer_fields, infer_list, infer_map, is_list_wrapper, is_three_level,
};
use crate::record::schemas::{lemma_named_views, ListLayout, SchemaView, ValueSchema};
use crate::basic::Repetition;
use crate::schema::{field_paths, leaf_paths, Type};
use crate::text::str_eq;
use fxhash::FxBuildHasher;
use linked_hash_map::LinkedHashMap;
use std::sync::Arc;
use vstd::prelude::*;

verus! {

/// Reads the values of one primitive column.
#[derive(Debug)]
pub struct PrimitiveReader {
    /// The schema of the values; always a primitive one.
    pub schema: ValueSchema,
    /// The path of the column.
    pub path: Vec<String>,
    pub def_level: i16,
    pub rep_level: i16,
    /// The position of the column among the file's columns, where the file has a
    /// column of that path.
    pub column: Option<usize>,
    /// How many values the decoder is advised to take at a time.
    pub batch_size: usize,
}

/// Reads values that may be absent.
#[derive(Debug)]
pub struct OptionReader {
    pub reader: ValueReader,
    pub def_level: i16,
    pub rep_level: i16,
}

/// Reads lists.
#[derive(Debug)]
pub struct RepeatedReader {
    pub reader: ValueReader,
    pub def_level: i16,
    pub rep_level: i16,
}

/// Reads maps: keys and values in step.
#[derive(Debug)]
pub struct KeyValueReader {
    pub keys_reader: ValueReader,
    pub values_reader: ValueReader,
    pub def_level: i16,
    pub rep_level: i16,
}

/// Reads groups: one reader per field, in declaration order, and the index of the
/// fields' names.
#[derive(Debug)]
pub struct GroupReader {
    pub readers: Vec<ValueReader>,
    pub fields: Arc<LinkedHashMap<String, usize, FxBuildHasher>>,
    pub def_level: i16,
    pub rep_level: i16,
}

impl GroupReader {
    /// The entries of the index of the fields' names.
    pub open spec fn entries(&self) -> Seq<(Seq<char>, usize)> {
        index_entries(*self.fields)
    }
}

/// Reads what the reader in the box reads.
#[derive(Debug)]
pub struct BoxReader<R>(pub Box<R>);

/// Reads any value: one of the readers above.
#[derive(Debug)]
pub enum ValueReader {
    Primitive(PrimitiveReader),
    List(Box<RepeatedReader>),
    Mapping(Box<KeyValueReader>),
    Group(GroupReader),
    Option(Box<OptionReader>),
    Boxed(BoxReader<ValueReader>),
}

/// What a reader tree is: its shape, the levels of its nodes, and the paths and
/// columns of its leaves.
pub enum ReaderView {
    Primitive {
        schema: SchemaView,
        path: Seq<Seq<char>>,
        def_level: int,
        rep_level: int,
        column: Option<int>,
        batch_size: int,
    },
    List { element: Box<ReaderView>, def_level: int, rep_level: int },
    Mapping { keys: Box<ReaderView>, values: Box<ReaderView>, def_level: int, rep_level: int },
    Group { fields: Seq<(Seq<char>, ReaderView)>, def_level: int, rep_level: int },
    Option { inner: Box<ReaderView>, def_level: int, rep_level: int },
    Boxed(Box<ReaderView>),
}

/// A path, with each segment as a sequence of characters.
pub open spec fn path_view(path: Seq<String>) -> Seq<Seq<char>> {
    Seq::new(path.len(), |i: int| path[i]@)
}

/// The paths of columns, as [`path_view`] gives each.
pub open spec fn paths_view(paths: Seq<Vec<String>>) -> Seq<Seq<Seq<char>>> {
    Seq::new(paths.len(), |i: int| path_view(paths[i]@))
}

/// The position of the first of `paths` that equals `path`, if one does.
pub open spec fn column_of(paths: Seq<Seq<Seq<char>>>, path: Seq<Seq<char>>) -> Option<int>
    decreases paths.len(),
{
    if paths.len() == 0 {
        None
    } else if paths.last() == path && column_of(paths.drop_last(), path) is None {
        Some(paths.len() - 1)
    } else {
        column_of(paths.drop_last(), path)
    }
}

/// Whether a schema is one of the primitive kinds.
pub open spec fn is_primitive(schema: SchemaView) -> bool {
    !(schema is List || schema is Mapping || schema is Group || schema is Option)
}

/// A recorded name, or the usual one where none was recorded.
pub open spec fn name_or(recorded: Option<Seq<char>>, usual: Seq<char>) -> Seq<char> {
    match recorded {
        Some(name) => name,
        None => usual,
    }
}

/// The segments that lead from a list to its elements in the file.
pub open spec fn list_segments(layout: ListLayout) -> Seq<Seq<char>> {
    match layout {
        ListLayout::List(list_name, element_name) => seq![
            name_or(list_name, "list"@),
            name_or(element_name, "element"@),
        ],
        ListLayout::ListCompat(element_name) => seq![element_name],
        ListLayout::Repeated => Seq::empty(),
    }
}

/// Whether the levels of every reader below a node at the given levels can be held in
/// 16 bits: each option, list and map lies one definition level deeper than its
/// parent, each list and map one repetition level deeper.
pub open spec fn levels_fit(schema: SchemaView, def_level: int, rep_level: int) -> bool
    decreases schema,
{
    match schema {
        SchemaView::List(element, _) => def_level < i16::MAX && rep_level < i16::MAX
            && levels_fit(*element, def_level + 1, rep_level + 1),
        SchemaView::Mapping { key, value, .. } => def_level < i16::MAX && rep_level < i16::MAX
            && levels_fit(*key, def_level + 1, rep_level + 1) && levels_fit(
            *value,
            def_level + 1,
            rep_level + 1,
        ),
        SchemaView::Group(fields) => fields_fit(fields, def_level, rep_level),
        SchemaView::Option(inner) => def_level < i16::MAX && levels_fit(
            *inner,
            def_level + 1,
            rep_level,
        ),
        _ => true,
    }
}

/// [`levels_fit`], of every field of a group.
pub open spec fn fields_fit(
    fields: Seq<(Seq<char>, SchemaView)>,
    def_level: int,
    rep_level: int,
) -> bool
    decreases fields,
{
    fields.len() == 0 || (fields_fit(fields.drop_last(), def_level, rep_level) && levels_fit(
        fields.last().1,
        def_level,
        rep_level,
    ))
}

/// The reader tree of a schema that stands at `path` and at the given levels, over a
/// file with the columns `columns`.
pub open spec fn build(
    schema: SchemaView,
    path: Seq<Seq<char>>,
    def_level: int,
    rep_level: int,
    columns: Seq<Seq<Seq<char>>>,
    batch_size: int,
) -> ReaderView
    decreases schema,
{
    match schema {
        SchemaView::List(element, layout) => ReaderView::List {
            element: Box::new(
                build(
                    *element,
                    path + list_segments(layout),
                    def_level + 1,
                    rep_level + 1,
                    columns,
                    batch_size,
                ),
            ),
            def_level,
            rep_level,
        },
        SchemaView::Mapping { key, value, key_value_name, key_name, value_name } => {
            let inner = path.push(name_or(key_value_name, "key_value"@));
            ReaderView::Mapping {
                keys: Box::new(
                    build(
                        *key,
                        inner.push(name_or(key_name, "key"@)),
                        def_level + 1,
                        rep_level + 1,
                        columns,
                        batch_size,
                    ),
                ),
                values: Box::new(
                    build(
                        *value,
                        inner.push(name_or(value_name, "value"@)),
                        def_level + 1,
                        rep_level + 1,
                        columns,
                        batch_size,
                    ),
                ),
                def_level,
                rep_level,
            }
        },
        SchemaView::Group(fields) => ReaderView::Group {
            fields: build_fields(fields, path, def_level, rep_level, columns, batch_size),
            def_level,
            rep_level,
        },
        SchemaView::Option(inner) => ReaderView::Option {
            inner: Box::new(
                build(*inner, path, def_level + 1, rep_level, columns, batch_size),
            ),
            def_level,
            rep_level,
        },
        _ => ReaderView::Primitive {
            schema,
            path,
            def_level,
            rep_level,
            column: column_of(columns, path),
            batch_size,
        },
    }
}

/// The readers of the fields of a group that stands at `path`: each field's reader
/// stands at the group's levels, one segment further, which is the field's name.
pub open spec fn build_fields(
    fields: Seq<(Seq<char>, SchemaView)>,
    path: Seq<Seq<char>>,
    def_level: int,
    rep_level: int,
    columns: Seq<Seq<Seq<char>>>,
    batch_size: int,
) -> Seq<(Seq<char>, ReaderView)>
    decreases fields,
{
    if fields.len() == 0 {
        Seq::empty()
    } else {
        build_fields(fields.drop_last(), path, def_level, rep_level, columns, batch_size).push(
            (
                fields.last().0,
                build(
                    fields.last().1,
                    path.push(fields.last().0),
                    def_level,
                    rep_level,
                    columns,
                    batch_size,
                ),
            ),
        )
    }
}

/// The views of `readers`, each under the name that `entries` holds at its position.
pub open spec fn named_readers(readers: Seq<ValueReader>, entries: Seq<(Seq<char>, usize)>) -> Seq<
    (Seq<char>, ReaderView),
>
    decreases readers,
{
    if readers.len() == 0 {
        Seq::empty()
    } else {
        named_readers(readers.drop_last(), entries).push(
            (entries[readers.len() - 1].0, readers.last()@),
        )
    }
}

/// Whether every reader of `readers` is well formed.
pub open spec fn readers_wf(readers: Seq<ValueReader>) -> bool
    decreases readers,
{
    readers.len() == 0 || (readers_wf(readers.drop_last()) && readers.last().wf())
}

impl View for ValueReader {
    type V = ReaderView;

    open spec fn view(&self) -> ReaderView
        decreases *self,
    {
        match *self {
            ValueReader::Primitive(leaf) => ReaderView::Primitive {
                schema: leaf.schema@,
                path: path_view(leaf.path@),
                def_level: leaf.def_level as int,
                rep_level: leaf.rep_level as int,
                column: match leaf.column {
                    Some(c) => Some(c as int),
                    None => None,
                },
                batch_size: leaf.batch_size as int,
            },
            ValueReader::List(list) => ReaderView::List {
                element: Box::new(list.reader@),
                def_level: list.def_level as int,
                rep_level: list.rep_level as int,
            },
            ValueReader::Mapping(map) => ReaderView::Mapping {
                keys: Box::new(map.keys_reader@),
                values: Box::new(map.values_reader@),
                def_level: map.def_level as int,
                rep_level: map.rep_level as int,
            },
            ValueReader::Group(group) => ReaderView::Group {
                fields: named_readers(group.readers@, index_entries(*group.fields)),
                def_level: group.def_level as int,
                rep_level: group.rep_level as int,
            },
            ValueReader::Option(option) => ReaderView::Option {
                inner: Box::new(option.reader@),
                def_level: option.def_level as int,
                rep_level: option.rep_level as int,
            },
            ValueReader::Boxed(boxed) => ReaderView::Boxed(Box::new((*boxed.0).view())),
        }
    }
}

impl ValueReader {
    /// Whether the tree is well formed: every leaf has a primitive schema, and the
    /// index of every group lists the group's readers, in order, under distinct names.
    pub open spec fn wf(self) -> bool
        decreases self,
    {
        match self {
            ValueReader::Primitive(leaf) => is_primitive(leaf.schema@),
            ValueReader::List(list) => list.reader.wf(),
            ValueReader::Mapping(map) => map.keys_reader.wf() && map.values_reader.wf(),
            ValueReader::Group(group) => readers_wf(group.readers@) && indexes(
                index_entries(*group.fields),
                group.readers@.len(),
            ),
            ValueReader::Option(option) => option.reader.wf() && !option.reader.yields_option(),
            ValueReader::Boxed(boxed) => boxed.0.wf(),
        }
    }

    /// Whether the values that the reader assembles are optional values.
    pub open spec fn yields_option(self) -> bool
        decreases self,
    {
        match self {
            ValueReader::Option(_) => true,
            ValueReader::Boxed(boxed) => boxed.0.yields_option(),
            _ => false,
        }
    }
}

/// What [`named_readers`] holds at each position.
pub proof fn lemma_named_readers(readers: Seq<ValueReader>, entries: Seq<(Seq<char>, usize)>)
    ensures
        named_readers(readers, entries).len() == readers.len(),
        forall|i: int|
            0 <= i < readers.len() ==> #[trigger] named_readers(readers, entries)[i] == (
                entries[i].0,
                readers[i]@,
            ),
    decreases readers.len(),
{
    if readers.len() > 0 {
        lemma_named_readers(readers.drop_last(), entries);
        assert(named_readers(readers, entries) == named_readers(
            readers.drop_last(),
            entries,
        ).push((entries[readers.len() - 1].0, readers.last()@)));
        assert forall|i: int| 0 <= i < readers.len() implies #[trigger] named_readers(
            readers,
            entries,
        )[i] == (entries[i].0, readers[i]@) by {
            if i < readers.len() - 1 {
                assert(named_readers(readers.drop_last(), entries)[i] == (
                    entries[i].0,
                    readers.drop_last()[i]@,
                ));
            }
        }
    }
}

/// All readers of a sequence are well formed exactly when each one is.
pub proof fn lemma_readers_wf(readers: Seq<ValueReader>)
    ensures
        readers_wf(readers) <==> forall|i: int|
            0 <= i < readers.len() ==> (#[trigger] readers[i]).wf(),
    decreases readers.len(),
{
    if readers.len() > 0 {
        lemma_readers_wf(readers.drop_last());
        if readers_wf(readers) {
            assert forall|i: int| 0 <= i < readers.len() implies (#[trigger] readers[i]).wf() by {
                if i < readers.len() - 1 {
                    assert(readers.drop_last()[i] == readers[i]);
                }
            }
        } else if forall|i: int| 0 <= i < readers.len() ==> (#[trigger] readers[i]).wf() {
            assert forall|i: int| 0 <= i < readers.drop_last().len() implies (
            #[trigger] readers.drop_last()[i]).wf() by {
                assert(readers.drop_last()[i] == readers[i]);
            }
        }
    }
}

/// What [`build_fields`] holds at each position.
pub proof fn lemma_build_fields(
    fields: Seq<(Seq<char>, SchemaView)>,
    path: Seq<Seq<char>>,
    def_level: int,
    rep_level: int,
    columns: Seq<Seq<Seq<char>>>,
    batch_size: int,
)
    ensures
        build_fields(fields, path, def_level, rep_level, columns, batch_size).len()
            == fields.len(),
        forall|i: int|
            0 <= i < fields.len() ==> #[trigger] build_fields(
                fields,
                path,
                def_level,
                rep_level,
                columns,
                batch_size,
            )[i] == (
                fields[i].0,
                build(fields[i].1, path.push(fields[i].0), def_level, rep_level, columns, batch_size),
            ),
    decreases fields.len(),
{
    if fields.len() > 0 {
        lemma_build_fields(fields.drop_last(), path, def_level, rep_level, columns, batch_size);
        let all = build_fields(fields, path, def_level, rep_level, columns, batch_size);
        let before = build_fields(
            fields.drop_last(),
            path,
            def_level,
            rep_level,
            columns,
            batch_size,
        );
        assert(all == before.push(
            (
                fields.last().0,
                build(
                    fields.last().1,
                    path.push(fields.last().0),
                    def_level,
                    rep_level,
                    columns,
                    batch_size,
                ),
            ),
        ));
        assert forall|i: int| 0 <= i < fields.len() implies #[trigger] all[i] == (
            fields[i].0,
            build(fields[i].1, path.push(fields[i].0), def_level, rep_level, columns, batch_size),
        ) by {
            if i < fields.len() - 1 {
                assert(before[i] == all[i]);
                assert(fields.drop_last()[i] == fields[i]);
            }
        }
    }
}

/// The levels below a group fit exactly when those below each of its fields do.
pub proof fn lemma_fields_fit(fields: Seq<(Seq<char>, SchemaView)>, def_level: int, rep_level: int)
    ensures
        fields_fit(fields, def_level, rep_level) <==> forall|i: int|
            0 <= i < fields.len() ==> levels_fit((#[trigger] fields[i]).1, def_level, rep_level),
    decreases fields.len(),
{
    if fields.len() > 0 {
        lemma_fields_fit(fields.drop_last(), def_level, rep_level);
        if fields_fit(fields, def_level, rep_level) {
            assert forall|i: int| 0 <= i < fields.len() implies levels_fit(
                (#[trigger] fields[i]).1,
                def_level,
                rep_level,
            ) by {
                if i < fields.len() - 1 {
                    assert(fields.drop_last()[i] == fields[i]);
                }
            }
        } else if forall|i: int|
            0 <= i < fields.len() ==> levels_fit((#[trigger] fields[i]).1, def_level, rep_level) {
            assert forall|i: int| 0 <= i < fields.drop_last().len() implies levels_fit(
                (#[trigger] fields.drop_last()[i]).1,
                def_level,
                rep_level,
            ) by {
                assert(fields.drop_last()[i] == fields[i]);
            }
        }
    }
}

/// Whether two paths have the same segments.
pub fn same_path(a: &Vec<String>, b: &Vec<String>) -> (same: bool)
    ensures
        same == (path_view(a@) == path_view(b@)),
{
    if a.len() != b.len() {
        assert(path_view(a@).len() != path_view(b@).len());
        return false;
    }
    let mut i: usize = 0;
    while i < a.len()
        invariant
            0 <= i <= a.len(),
            a.len() == b.len(),
            forall|k: int| 0 <= k < i ==> a@[k]@ == b@[k]@,
        decreases a.len() - i,
    {
        if !str_eq(a[i].as_str(), b[i].as_str()) {
            assert(path_view(a@)[i as int] != path_view(b@)[i as int]);
            return false;
        }
        i += 1;
    }
    assert(path_view(a@) =~= path_view(b@));
    true
}

/// Returns the position of the first of `paths` that equals `path`.
pub fn find_column(paths: &Vec<Vec<String>>, path: &Vec<String>) -> (column: Option<usize>)
    ensures
        match column {
            Some(c) => column_of(paths_view(paths@), path_view(path@)) == Some(c as int),
            None => column_of(paths_view(paths@), path_view(path@)) is None,
        },
{
    let mut found: Option<usize> = None;
    let mut i: usize = 0;
    proof {
        assert(paths_view(paths@).take(0) =~= Seq::<Seq<Seq<char>>>::empty());
    }
    while i < paths.len()
        invariant
            0 <= i <= paths.len(),
            match found {
                Some(c) => column_of(paths_view(paths@).take(i as int), path_view(path@)) == Some(
                    c as int,
                ),
                None => column_of(paths_view(paths@).take(i as int), path_view(path@)) is None,
            },
        decreases paths.len() - i,
    {
        proof {
            let upto = paths_view(paths@).take(i + 1);
            assert(upto.drop_last() =~= paths_view(paths@).take(i as int));
            assert(upto.last() == path_view(paths@[i as int]@));
        }
        if found.is_none() && same_path(&paths[i], path) {
            found = Some(i);
        }
        i += 1;
    }
    proof {
        assert(paths_view(paths@).take(i as int) =~= paths_view(paths@));
    }
    found
}

/// Returns a copy of a path.
pub fn copy_path(path: &Vec<String>) -> (copy: Vec<String>)
    ensures
        path_view(copy@) == path_view(path@),
{
    let mut copy: Vec<String> = Vec::with_capacity(path.len());
    let mut i: usize = 0;
    while i < path.len()
        invariant
            0 <= i <= path.len(),
            copy@.len() == i,
            forall|k: int| 0 <= k < i ==> copy@[k]@ == path@[k]@,
        decreases path.len() - i,
    {
        copy.push(path[i].clone());
        i += 1;
    }
    assert(path_view(copy@) =~= path_view(path@));
    copy
}

/// `Arc::clone`: another handle on the same name index.
#[verifier::external_body]
pub(crate) fn share_index(index: &Arc<LinkedHashMap<String, usize, FxBuildHasher>>) -> (shared:
    Arc<LinkedHashMap<String, usize, FxBuildHasher>>)
    ensures
        *shared == **index,
{
    Arc::clone(index)
}

/// The reader of a list reads its elements at the list's path with the segments of
/// the layout appended: for a three-level list the two names that the schema
/// recorded, each replaced by `list` or `element` where it recorded none. A
/// primitive element is a leaf at exactly that path.
pub proof fn lemma_list_path(
    element: SchemaView,
    layout: ListLayout,
    path: Seq<Seq<char>>,
    def_level: int,
    rep_level: int,
    columns: Seq<Seq<Seq<char>>>,
    batch_size: int,
)
    ensures
        build(
            SchemaView::List(Box::new(element), layout),
            path,
            def_level,
            rep_level,
            columns,
            batch_size,
        ) == (ReaderView::List {
            element: Box::new(
                build(
                    element,
                    path + list_segments(layout),
                    def_level + 1,
                    rep_level + 1,
                    columns,
                    batch_size,
                ),
            ),
            def_level,
            rep_level,
        }),
        layout matches ListLayout::List(list_name, element_name) ==> path + list_segments(layout)
            == path.push(name_or(list_name, "list"@)).push(name_or(element_name, "element"@)),
        is_primitive(element) ==> build(
            element,
            path + list_segments(layout),
            def_level + 1,
            rep_level + 1,
            columns,
            batch_size,
        ) == (ReaderView::Primitive {
            schema: element,
            path: path + list_segments(layout),
            def_level: def_level + 1,
            rep_level: rep_level + 1,
            column: column_of(columns, path + list_segments(layout)),
            batch_size,
        }),
{
    if let ListLayout::List(list_name, element_name) = layout {
        assert(path + list_segments(layout) =~= path.push(name_or(list_name, "list"@)).push(
            name_or(element_name, "element"@),
        ));
    }
}

/// The segments of a three-level list that was inferred from a type tree are the
/// names that the tree has: that of the repeated group, then that of the element.
pub proof fn lemma_three_level_segments(ty: Type)
    requires
        is_list_wrapper(ty),
        is_three_level(ty),
        infer_list(ty) is Ok,
    ensures
        list_segments(infer_list(ty)->Ok_0.1) == seq![
            ty.children()[0].name_view(),
            ty.children()[0].children()[0].name_view(),
        ],
{
    assert(list_segments(infer_list(ty)->Ok_0.1) =~= seq![
        ty.children()[0].name_view(),
        ty.children()[0].children()[0].name_view(),
    ]);
}

/// The segments of a two-level list that was inferred from a type tree are the name
/// of its repeated child.
pub proof fn lemma_two_level_segments(ty: Type)
    requires
        is_list_wrapper(ty),
        !is_three_level(ty),
        infer_list(ty) is Ok,
    ensures
        list_segments(infer_list(ty)->Ok_0.1) == seq![ty.children()[0].name_view()],
{
}

impl ValueSchema {
    /// Whether the levels of every reader below this schema, read at the given levels,
    /// can be held in 16 bits.
    pub fn fits_levels(&self, def_level: i16, rep_level: i16) -> (fits: bool)
        ensures
            fits == levels_fit(self@, def_level as int, rep_level as int),
        decreases self,
    {
        match self {
            ValueSchema::List(list) => def_level < i16::MAX && rep_level < i16::MAX
                && list.0.fits_levels(def_level + 1, rep_level + 1),
            ValueSchema::Mapping(map) => def_level < i16::MAX && rep_level < i16::MAX
                && map.0.fits_levels(def_level + 1, rep_level + 1) && map.1.fits_levels(
                def_level + 1,
                rep_level + 1,
            ),
            ValueSchema::Group(group) => {
                proof {
                    lemma_named_views(group.0@, index_entries(group.1));
                    lemma_fields_fit(group.view(), def_level as int, rep_level as int);
                }
                let mut i: usize = 0;
                while i < group.0.len()
                    invariant
                        0 <= i <= group.0.len(),
                        self matches ValueSchema::Group(g) && g == group,
                        forall|k: int|
                            0 <= k < i ==> levels_fit(
                                (#[trigger] group.0@[k])@,
                                def_level as int,
                                rep_level as int,
                            ),
                    decreases group.0.len() - i,
                {
                    if !group.0[i].fits_levels(def_level, rep_level) {
                        proof {
                            lemma_named_views(group.0@, index_entries(group.1));
                            lemma_fields_fit(group.view(), def_level as int, rep_level as int);
                            assert(group.view()[i as int].1 == group.0@[i as int]@);
                        }
                        return false;
                    }
                    i += 1;
                }
                proof {
                    assert forall|k: int| 0 <= k < group.view().len() implies levels_fit(
                        (#[trigger] group.view()[k]).1,
                        def_level as int,
                        rep_level as int,
                    ) by {
                        assert(group.view()[k].1 == group.0@[k]@);
                    }
                }
                true
            },
            ValueSchema::Option(option) => def_level < i16::MAX && option.0.fits_levels(
                def_level + 1,
                rep_level,
            ),
            _ => true,
        }
    }
}

/// The paths of the leaves of the readers of a group's fields, first field to last.
pub open spec fn fields_reader_paths(fields: Seq<(Seq<char>, ReaderView)>) -> Seq<Seq<Seq<char>>>
    decreases fields,
{
    if fields.len() == 0 {
        Seq::empty()
    } else {
        fields_reader_paths(fields.drop_last()) + reader_paths(fields.last().1)
    }
}

/// The paths of the leaves of a reader tree, first leaf to last.
pub open spec fn reader_paths(reader: ReaderView) -> Seq<Seq<Seq<char>>>
    decreases reader,
{
    match reader {
        ReaderView::Primitive { path, .. } => seq![path],
        ReaderView::List { element, .. } => reader_paths(*element),
        ReaderView::Mapping { keys, values, .. } => reader_paths(*keys) + reader_paths(*values),
        ReaderView::Group { fields, .. } => fields_reader_paths(fields),
        ReaderView::Option { inner, .. } => reader_paths(*inner),
        ReaderView::Boxed(inner) => reader_paths(*inner),
    }
}

/// The reader tree of an inferred schema reads the columns of the type tree: where a
/// node has a schema, the leaves of the schema's reader tree, built at the node's
/// own path, have the paths of the columns below the node, in the file's order. The
/// names that inference left out of the schema, because they are the usual ones,
/// come back when the reader is built.
pub proof fn lemma_reader_paths(
    ty: Type,
    repetition: Option<Repetition>,
    prefix: Seq<Seq<char>>,
    def_level: int,
    rep_level: int,
    columns: Seq<Seq<Seq<char>>>,
    batch_size: int,
)
    ensures
        infer(ty, repetition) matches Ok(schema) ==> reader_paths(
            build(schema, prefix.push(ty.name_view()), def_level, rep_level, columns, batch_size),
        ) == leaf_paths(ty, prefix),
    decreases ty, 2nat,
{
    if let Ok(core) = infer_core(ty, repetition) {
        lemma_core_reader_paths(
            ty,
            repetition,
            prefix,
            def_level,
            rep_level,
            columns,
            batch_size,
        );
        lemma_core_reader_paths(
            ty,
            repetition,
            prefix,
            def_level + 1,
            rep_level,
            columns,
            batch_size,
        );
        lemma_core_reader_paths(
            ty,
            repetition,
            prefix,
            def_level + 1,
            rep_level + 1,
            columns,
            batch_size,
        );
        let path = prefix.push(ty.name_view());
        assert(path + list_segments(ListLayout::Repeated) =~= path);
    }
}

/// [`lemma_reader_paths`], of the shape of a node before its repetition is applied.
pub proof fn lemma_core_reader_paths(
    ty: Type,
    repetition: Option<Repetition>,
    prefix: Seq<Seq<char>>,
    def_level: int,
    rep_level: int,
    columns: Seq<Seq<Seq<char>>>,
    batch_size: int,
)
    ensures
        infer_core(ty, repetition) matches Ok(schema) ==> reader_paths(
            build(schema, prefix.push(ty.name_view()), def_level, rep_level, columns, batch_size),
        ) == leaf_paths(ty, prefix),
    decreases ty, 1nat,
{
    let path = prefix.push(ty.name_view());
    match ty {
        Type::PrimitiveType { .. } => {},
        Type::GroupType { fields, .. } => {
            if infer_core(ty, repetition) is Ok {
                if infer_list(ty) is Ok {
                    let child = ty.children()[0];
                    lemma_one_field_paths(ty.children(), path);
                    if is_three_level(ty) {
                        let element = child.children()[0];
                        let inner = path.push(child.name_view());
                        lemma_one_field_paths(child.children(), inner);
                        lemma_three_level_segments(ty);
                        assert(path + list_segments(infer_list(ty)->Ok_0.1) =~= inner.push(
                            element.name_view(),
                        ));
                        lemma_reader_paths(
                            element,
                            element.info().repetition,
                            inner,
                            def_level + 1,
                            rep_level + 1,
                            columns,
                            batch_size,
                        );
                    } else {
                        assert(path + list_segments(infer_list(ty)->Ok_0.1) =~= path.push(
                            child.name_view(),
                        ));
                        lemma_reader_paths(
                            child,
                            Some(Repetition::Required),
                            path,
                            def_level + 1,
                            rep_level + 1,
                            columns,
                            batch_size,
                        );
                    }
                } else if infer_map(ty) is Ok {
                    let pair = ty.children()[0];
                    let key = pair.children()[0];
                    let value = pair.children()[1];
                    let inner = path.push(pair.name_view());
                    lemma_one_field_paths(ty.children(), path);
                    lemma_one_field_paths(pair.children().drop_last(), inner);
                    assert(pair.children().drop_last()[0] == key);
                    assert(pair.children().last() == value);
                    lemma_reader_paths(
                        key,
                        key.info().repetition,
                        inner,
                        def_level + 1,
                        rep_level + 1,
                        columns,
                        batch_size,
                    );
                    lemma_reader_paths(
                        value,
                        value.info().repetition,
                        inner,
                        def_level + 1,
                        rep_level + 1,
                        columns,
                        batch_size,
                    );
                } else {
                    lemma_fields_reader_paths(
                        fields@,
                        path,
                        def_level,
                        rep_level,
                        columns,
                        batch_size,
                    );
                }
            }
        },
    }
}

/// The paths below a single field are the paths below the group that holds it alone.
pub proof fn lemma_one_field_paths(fields: Seq<Type>, prefix: Seq<Seq<char>>)
    requires
        fields.len() == 1,
    ensures
        field_paths(fields, prefix) == leaf_paths(fields[0], prefix),
{
    assert(fields.drop_last() =~= Seq::<Type>::empty());
    assert(field_paths(fields.drop_last(), prefix) =~= Seq::<Seq<Seq<char>>>::empty());
    assert(field_paths(fields, prefix) =~= leaf_paths(fields[0], prefix));
}

/// [`lemma_reader_paths`], of the fields of a group.
pub proof fn lemma_fields_reader_paths(
    fields: Seq<Type>,
    path: Seq<Seq<char>>,
    def_level: int,
    rep_level: int,
    columns: Seq<Seq<Seq<char>>>,
    batch_size: int,
)
    ensures
        infer_fields(fields) matches Ok(named) ==> fields_reader_paths(
            build_fields(named, path, def_level, rep_level, columns, batch_size),
        ) == field_paths(fields, path),
    decreases fields, 0nat,
{
    if fields.len() > 0 {
        if let Ok(named) = infer_fields(fields) {
            let before = infer_fields(fields.drop_last())->Ok_0;
            let last = fields.last();
            let schema = infer(last, last.info().repetition)->Ok_0;
            assert(named == before.push((last.name_view(), schema)));
            assert(named.drop_last() =~= before);
            lemma_fields_reader_paths(
                fields.drop_last(),
                path,
                def_level,
                rep_level,
                columns,
                batch_size,
            );
            lemma_reader_paths(
                last,
                last.info().repetition,
                path,
                def_level,
                rep_level,
                columns,
                batch_size,
            );
            let readers = build_fields(named, path, def_level, rep_level, columns, batch_size);
            assert(readers.drop_last() =~= build_fields(
                before,
                path,
                def_level,
                rep_level,
                columns,
                batch_size,
            ));
        }
    }
}

/// Whether a schema is one of the primitive kinds.
pub fn is_primitive_schema(schema: &ValueSchema) -> (b: bool)
    ensures
        b == is_primitive(schema@),
{
    match schema {
        ValueSchema::List(_) | ValueSchema::Mapping(_) | ValueSchema::Group(_)
        | ValueSchema::Option(_) => false,
        _ => true,
    }
}

impl ValueReader {
    /// Whether the values that the reader assembles are optional values.
    pub fn reads_option(&self) -> (b: bool)
        ensures
            b == self.yields_option(),
        decreases self,
    {
        match self {
            ValueReader::Option(_) => true,
            ValueReader::Boxed(boxed) => boxed.0.reads_option(),
            _ => false,
        }
    }

    /// Whether the tree is well formed.
    pub fn is_wf(&self) -> (b: bool)
        ensures
            b == self.wf(),
        decreases self,
    {
        match self {
            ValueReader::Primitive(leaf) => is_primitive_schema(&leaf.schema),
            ValueReader::List(list) => list.reader.is_wf(),
            ValueReader::Mapping(map) => map.keys_reader.is_wf() && map.values_reader.is_wf(),
            ValueReader::Group(group) => {
                proof {
                    lemma_readers_wf(group.readers@);
                }
                let mut i: usize = 0;
                while i < group.readers.len()
                    invariant
                        0 <= i <= group.readers.len(),
                        self matches ValueReader::Group(g) && g == group,
                        forall|k: int| 0 <= k < i ==> (#[trigger] group.readers@[k]).wf(),
                    decreases group.readers.len() - i,
                {
                    if !group.readers[i].is_wf() {
                        proof {
                            lemma_readers_wf(group.readers@);
                        }
                        return false;
                    }
                    i += 1;
                }
                index_is_consistent(&group.fields, group.readers.len())
            },
            ValueReader::Option(option) => option.reader.is_wf() && !option.reader.reads_option(),
            ValueReader::Boxed(boxed) => boxed.0.is_wf(),
        }
    }
}

/// The columns of the leaves of the readers of a group's fields, first field to last.
pub open spec fn fields_leaf_columns(fields: Seq<(Seq<char>, ReaderView)>) -> Seq<Option<int>>
    decreases fields,
{
    if fields.len() == 0 {
        Seq::empty()
    } else {
        fields_leaf_columns(fields.drop_last()) + leaf_columns(fields.last().1)
    }
}

/// The columns of the leaves of a reader tree, first leaf to last.
pub open spec fn leaf_columns(reader: ReaderView) -> Seq<Option<int>>
    decreases reader,
{
    match reader {
        ReaderView::Primitive { column, .. } => seq![column],
        ReaderView::List { element, .. } => leaf_columns(*element),
        ReaderView::Mapping { keys, values, .. } => leaf_columns(*keys) + leaf_columns(*values),
        ReaderView::Group { fields, .. } => fields_leaf_columns(fields),
        ReaderView::Option { inner, .. } => leaf_columns(*inner),
        ReaderView::Boxed(inner) => leaf_columns(*inner),
    }
}

/// Whether every leaf has the first column of its own path, where there is one.
pub open spec fn bound_by_path(
    columns: Seq<Option<int>>,
    paths: Seq<Seq<Seq<char>>>,
    file: Seq<Seq<Seq<char>>>,
) -> bool {
    columns.len() == paths.len() && forall|i: int|
        0 <= i < columns.len() ==> #[trigger] columns[i] == column_of(file, paths[i])
}

/// Every leaf of a reader tree that was built is bound to the first column of the
/// file that has the leaf's path.
pub proof fn lemma_leaves_bound_by_path(
    schema: SchemaView,
    path: Seq<Seq<char>>,
    def_level: int,
    rep_level: int,
    columns: Seq<Seq<Seq<char>>>,
    batch_size: int,
)
    ensures
        bound_by_path(
            leaf_columns(build(schema, path, def_level, rep_level, columns, batch_size)),
            reader_paths(build(schema, path, def_level, rep_level, columns, batch_size)),
            columns,
        ),
    decreases schema,
{
    match schema {
        SchemaView::List(element, layout) => {
            lemma_leaves_bound_by_path(
                *element,
                path + list_segments(layout),
                def_level + 1,
                rep_level + 1,
                columns,
                batch_size,
            );
        },
        SchemaView::Mapping { key, value, key_value_name, key_name, value_name } => {
            let inner = path.push(name_or(key_value_name, "key_value"@));
            lemma_leaves_bound_by_path(
                *key,
                inner.push(name_or(key_name, "key"@)),
                def_level + 1,
                rep_level + 1,
                columns,
                batch_size,
            );
            lemma_leaves_bound_by_path(
                *value,
                inner.push(name_or(value_name, "value"@)),
                def_level + 1,
                rep_level + 1,
                columns,
                batch_size,
            );
        },
        SchemaView::Group(fields) => {
            lemma_fields_bound_by_path(fields, path, def_level, rep_level, columns, batch_size);
        },
        SchemaView::Option(inner) => {
            lemma_leaves_bound_by_path(
                *inner,
                path,
                def_level + 1,
                rep_level,
                columns,
                batch_size,
            );
        },
        _ => {},
    }
}

/// [`lemma_leaves_bound_by_path`], of the fields of a group.
pub proof fn lemma_fields_bound_by_path(
    fields: Seq<(Seq<char>, SchemaView)>,
    path: Seq<Seq<char>>,
    def_level: int,
    rep_level: int,
    columns: Seq<Seq<Seq<char>>>,
    batch_size: int,
)
    ensures
        bound_by_path(
            fields_leaf_columns(
                build_fields(fields, path, def_level, rep_level, columns, batch_size),
            ),
            fields_reader_paths(
                build_fields(fields, path, def_level, rep_level, columns, batch_size),
            ),
            columns,
        ),
    decreases fields,
{
    if fields.len() > 0 {
        lemma_fields_bound_by_path(
            fields.drop_last(),
            path,
            def_level,
            rep_level,
            columns,
            batch_size,
        );
        lemma_leaves_bound_by_path(
            fields.last().1,
            path.push(fields.last().0),
            def_level,
            rep_level,
            columns,
            batch_size,
        );
        let readers = build_fields(fields, path, def_level, rep_level, columns, batch_size);
        assert(readers.drop_last() =~= build_fields(
            fields.drop_last(),
            path,
            def_level,
            rep_level,
            columns,
            batch_size,
        ));
    }
}

/// A path that stands among the columns of a file has a first column there.
pub proof fn lemma_column_of_member(columns: Seq<Seq<Seq<char>>>, at: int)
    requires
        0 <= at < columns.len(),
    ensures
        column_of(columns, columns[at]) matches Some(c) && 0 <= c <= at && columns[c]
            == columns[at],
    decreases columns.len(),
{
    if at < columns.len() - 1 {
        lemma_column_of_member(columns.drop_last(), at);
    } else if column_of(columns.drop_last(), columns[at]) is Some {
        lemma_column_of_found(columns.drop_last(), columns[at]);
    }
}

/// The column that is found for a path is a column of that path.
pub proof fn lemma_column_of_found(columns: Seq<Seq<Seq<char>>>, path: Seq<Seq<char>>)
    ensures
        column_of(columns, path) matches Some(c) ==> 0 <= c < columns.len() && columns[c] == path,
    decreases columns.len(),
{
    if columns.len() > 0 {
        lemma_column_of_found(columns.drop_last(), path);
    }
}

/// No leaf is left without a column where a file is read by its own type tree: the
/// leaves of the reader tree of a root whose fields have schemas, built over the
/// paths of the columns below the root, are each bound to a column of the leaf's
/// path.
pub proof fn lemma_root_leaves_are_bound(
    root: Type,
    def_level: int,
    rep_level: int,
    batch_size: int,
)
    requires
        infer_fields(root.children()) is Ok,
    ensures
        ({
            let file = field_paths(root.children(), Seq::empty());
            let readers = build_fields(
                infer_fields(root.children())->Ok_0,
                Seq::empty(),
                def_level,
                rep_level,
                file,
                batch_size,
            );
            &&& fields_reader_paths(readers) == file
            &&& fields_leaf_columns(readers).len() == file.len()
            &&& forall|i: int|
                0 <= i < file.len() ==> (#[trigger] fields_leaf_columns(readers)[i] matches Some(c)
                    && 0 <= c < file.len() && file[c] == file[i])
        }),
{
    let file = field_paths(root.children(), Seq::empty());
    let named = infer_fields(root.children())->Ok_0;
    lemma_fields_reader_paths(
        root.children(),
        Seq::empty(),
        def_level,
        rep_level,
        file,
        batch_size,
    );
    lemma_fields_bound_by_path(named, Seq::empty(), def_level, rep_level, file, batch_size);
    let readers = build_fields(named, Seq::empty(), def_level, rep_level, file, batch_size);
    assert forall|i: int| 0 <= i < file.len() implies (#[trigger] fields_leaf_columns(
        readers,
    )[i] matches Some(c) && 0 <= c < file.len() && file[c] == file[i]) by {
        lemma_column_of_member(file, i);
    }
}

} // verus!
