//! The three conversions of a mapped record type: a record to ordered
//! (column, value) pairs, the declared (column, type) pairs, and a row back to
//! a record.

use crate::descriptor::{descriptor_views, FieldDescriptor, FieldDescriptorView, TypeRef};
use vstd::prelude::*;
use vstd::string::*;

verus! {

/// The contents of one field of a record.
#[derive(Clone, Debug, PartialEq, Eq)]
pub enum Value {
    Bool(bool),
    Int64(i64),
    Text(String),
    Bytes(Vec<u8>),
    Timestamp { seconds: i64, nanos: u32 },
}

pub enum ValueView {
    Bool(bool),
    Int64(i64),
    Text(Seq<char>),
    Bytes(Seq<u8>),
    Timestamp { seconds: i64, nanos: u32 },
}

impl View for Value {
    type V = ValueView;

    open spec fn view(&self) -> ValueView {
        match self {
            Value::Bool(b) => ValueView::Bool(*b),
            Value::Int64(n) => ValueView::Int64(*n),
            Value::Text(s) => ValueView::Text(s@),
            Value::Bytes(b) => ValueView::Bytes(b@),
            Value::Timestamp { seconds, nanos } => ValueView::Timestamp {
                seconds: *seconds,
                nanos: *nanos,
            },
        }
    }
}

/// The static type that a value belongs to.
pub open spec fn type_of(value: ValueView) -> TypeRef {
    match value {
        ValueView::Bool(_) => TypeRef::Bool,
        ValueView::Int64(_) => TypeRef::Int64,
        ValueView::Text(_) => TypeRef::Text,
        ValueView::Bytes(_) => TypeRef::Bytes,
        ValueView::Timestamp { .. } => TypeRef::Timestamp,
    }
}

impl Value {
    /// The static type of this value.
    pub fn type_ref(&self) -> (out: TypeRef)
        ensures
            out == type_of(self@),
    {
        match self {
            Value::Bool(_) => TypeRef::Bool,
            Value::Int64(_) => TypeRef::Int64,
            Value::Text(_) => TypeRef::Text,
            Value::Bytes(_) => TypeRef::Bytes,
            Value::Timestamp { .. } => TypeRef::Timestamp,
        }
    }

    /// A copy of this value.
    pub fn duplicate(&self) -> (out: Value)
        ensures
            out@ == self@,
    {
        match self {
            Value::Bool(b) => Value::Bool(*b),
            Value::Int64(n) => Value::Int64(*n),
            Value::Text(s) => Value::Text(s.clone()),
            Value::Bytes(b) => {
                let bytes = b.clone();
                assert(bytes@ =~= b@);
                Value::Bytes(bytes)
            },
            Value::Timestamp { seconds, nanos } => Value::Timestamp {
                seconds: *seconds,
                nanos: *nanos,
            },
        }
    }
}

/// What is written to, or found in, one cell of a row.
#[derive(Clone, Debug, PartialEq, Eq)]
pub enum EncodedValue {
    /// The placeholder that asks the store to fill in its own commit time.
    ServerTime,
    /// A value supplied by the client.
    Data(Value),
}

pub enum EncodedValueView {
    ServerTime,
    Data(ValueView),
}

impl View for EncodedValue {
    type V = EncodedValueView;

    open spec fn view(&self) -> EncodedValueView {
        match self {
            EncodedValue::ServerTime => EncodedValueView::ServerTime,
            EncodedValue::Data(value) => EncodedValueView::Data(value@),
        }
    }
}

/// The type that a column is declared with towards the store.
#[derive(Clone, Copy, Debug, PartialEq, Eq, Structural)]
pub enum LogicalType {
    /// The logical type of a field's own static type.
    Declared(TypeRef),
    /// The marker type of a server-assigned timestamp.
    CommitTimestamp,
}

/// Where the written value of a field comes from.
#[derive(Clone, Copy, Debug, PartialEq, Eq, Structural)]
pub enum CellSource {
    /// From the field's contents in the record.
    FieldValue,
    /// From the store, which fills in its commit time.
    ServerTime,
}

/// Why a cell could not be read into a field.
#[derive(Clone, Copy, Debug, PartialEq, Eq, Structural)]
pub enum MappingCause {
    /// The row has no column of that name.
    ColumnNotFound,
    /// The cell holds a value of another type than the field's.
    TypeMismatch { expected: TypeRef, found: TypeRef },
    /// The cell holds the server-time placeholder, not a value.
    NoValue { expected: TypeRef },
}

/// A failure to read a row: the column at fault and the cause.
#[derive(Clone, Debug, PartialEq, Eq)]
pub struct MappingError {
    pub column: String,
    pub cause: MappingCause,
}

pub struct MappingErrorView {
    pub column: Seq<char>,
    pub cause: MappingCause,
}

impl View for MappingError {
    type V = MappingErrorView;

    open spec fn view(&self) -> MappingErrorView {
        MappingErrorView { column: self.column@, cause: self.cause }
    }
}

/// The views of a sequence of values.
pub open spec fn value_views(values: Seq<Value>) -> Seq<ValueView> {
    Seq::new(values.len(), |i: int| values[i]@)
}

/// The views of a sequence of (column, cell) pairs.
pub open spec fn pair_views(pairs: Seq<(String, EncodedValue)>) -> Seq<
    (Seq<char>, EncodedValueView),
> {
    Seq::new(pairs.len(), |i: int| (pairs[i].0@, pairs[i].1@))
}

/// The views of a sequence of (column, type) pairs.
pub open spec fn schema_views(pairs: Seq<(String, LogicalType)>) -> Seq<(Seq<char>, LogicalType)> {
    Seq::new(pairs.len(), |i: int| (pairs[i].0@, pairs[i].1))
}

/// Where the written value of one field comes from: the store for a commit
/// timestamp, else the record.
pub open spec fn cell_source_of(descriptor: FieldDescriptorView) -> CellSource {
    if descriptor.is_commit_timestamp {
        CellSource::ServerTime
    } else {
        CellSource::FieldValue
    }
}

/// What is written for one field: the placeholder for a commit timestamp,
/// else the field's value.
pub open spec fn encoded_cell(descriptor: FieldDescriptorView, value: ValueView) -> EncodedValueView {
    match cell_source_of(descriptor) {
        CellSource::ServerTime => EncodedValueView::ServerTime,
        CellSource::FieldValue => EncodedValueView::Data(value),
    }
}

/// The pairs written for a record: one per descriptor, in descriptor order.
pub open spec fn encoded_pairs(descriptors: Seq<FieldDescriptorView>, record: Seq<ValueView>) -> Seq<
    (Seq<char>, EncodedValueView),
> {
    Seq::new(
        descriptors.len(),
        |i: int| (descriptors[i].column_name, encoded_cell(descriptors[i], record[i])),
    )
}

/// The logical type declared for one field.
pub open spec fn logical_type_of(descriptor: FieldDescriptorView) -> LogicalType {
    if descriptor.is_commit_timestamp {
        LogicalType::CommitTimestamp
    } else {
        LogicalType::Declared(descriptor.declared_type)
    }
}

/// The declared pairs of a record type: one per descriptor, in descriptor
/// order.
pub open spec fn schema_pairs(descriptors: Seq<FieldDescriptorView>) -> Seq<
    (Seq<char>, LogicalType),
> {
    Seq::new(descriptors.len(), |i: int| (descriptors[i].column_name, logical_type_of(descriptors[i])))
}

/// Whether place `i` is the first of the row whose column is called `name`.
pub open spec fn is_first_match(
    row: Seq<(Seq<char>, EncodedValueView)>,
    name: Seq<char>,
    i: int,
) -> bool {
    &&& 0 <= i < row.len()
    &&& row[i].0 == name
    &&& forall|j: int| 0 <= j < i ==> (#[trigger] row[j]).0 != name
}

/// The place of the column called `name` in a row: the first such place, if
/// there is one.
pub open spec fn find_column(row: Seq<(Seq<char>, EncodedValueView)>, name: Seq<char>) -> Option<
    int,
> {
    if exists|i: int| is_first_match(row, name, i) {
        Some(choose|i: int| is_first_match(row, name, i))
    } else {
        None
    }
}

/// A cell converted to a field's type: its value where the types agree, else
/// the error for that column.
pub open spec fn converted(cell: EncodedValueView, expected: TypeRef, column: Seq<char>) -> Result<
    ValueView,
    MappingErrorView,
> {
    match cell {
        EncodedValueView::ServerTime => Err(
            MappingErrorView { column, cause: MappingCause::NoValue { expected } },
        ),
        EncodedValueView::Data(value) => if type_of(value) == expected {
            Ok(value)
        } else {
            Err(
                MappingErrorView {
                    column,
                    cause: MappingCause::TypeMismatch { expected, found: type_of(value) },
                },
            )
        },
    }
}

/// One field read from a row: the cell of its column, converted to its
/// declared type. The commit-timestamp flag plays no part.
pub open spec fn decoded_field(
    descriptor: FieldDescriptorView,
    row: Seq<(Seq<char>, EncodedValueView)>,
) -> Result<ValueView, MappingErrorView> {
    match find_column(row, descriptor.column_name) {
        None => Err(
            MappingErrorView {
                column: descriptor.column_name,
                cause: MappingCause::ColumnNotFound,
            },
        ),
        Some(i) => converted(row[i].1, descriptor.declared_type, descriptor.column_name),
    }
}

/// A record read from a row: every field in descriptor order, or the error of
/// the first field that cannot be read.
pub open spec fn decoded_record(
    descriptors: Seq<FieldDescriptorView>,
    row: Seq<(Seq<char>, EncodedValueView)>,
) -> Result<Seq<ValueView>, MappingErrorView>
    decreases descriptors.len(),
{
    if descriptors.len() == 0 {
        Ok(Seq::empty())
    } else {
        match decoded_record(descriptors.drop_last(), row) {
            Err(e) => Err(e),
            Ok(values) => match decoded_field(descriptors.last(), row) {
                Err(e) => Err(e),
                Ok(value) => Ok(values.push(value)),
            },
        }
    }
}

/// Whether a record is an instance of the record type: one value per field,
/// each of the field's declared type.
pub open spec fn conforms(descriptors: Seq<FieldDescriptorView>, record: Seq<ValueView>) -> bool {
    &&& record.len() == descriptors.len()
    &&& forall|i: int|
        0 <= i < descriptors.len() ==> type_of(#[trigger] record[i]) == descriptors[i].declared_type
}

/// Whether no two descriptors share a column name.
pub open spec fn columns_are_distinct(descriptors: Seq<FieldDescriptorView>) -> bool {
    forall|i: int, j: int|
        0 <= i < j < descriptors.len() ==> (#[trigger] descriptors[i]).column_name != (
        #[trigger] descriptors[j]).column_name
}

/// Whether an executable conversion result stands for a model result.
pub open spec fn value_matches(
    out: Result<Value, MappingError>,
    model: Result<ValueView, MappingErrorView>,
) -> bool {
    match (out, model) {
        (Ok(v), Ok(m)) => v@ == m,
        (Err(e), Err(m)) => e@ == m,
        _ => false,
    }
}

/// Whether an executable decoding result stands for a model result.
pub open spec fn record_matches(
    out: Result<Vec<Value>, MappingError>,
    model: Result<Seq<ValueView>, MappingErrorView>,
) -> bool {
    match (out, model) {
        (Ok(v), Ok(m)) => value_views(v@) == m,
        (Err(e), Err(m)) => e@ == m,
        _ => false,
    }
}

/// Tells where the written value of a field comes from.
pub fn cell_source(descriptor: &FieldDescriptor) -> (out: CellSource)
    ensures
        out == cell_source_of(descriptor@),
{
    if descriptor.is_commit_timestamp {
        CellSource::ServerTime
    } else {
        CellSource::FieldValue
    }
}

/// Tells the type that a field is declared with towards the store.
pub fn logical_type(descriptor: &FieldDescriptor) -> (out: LogicalType)
    ensures
        out == logical_type_of(descriptor@),
{
    if descriptor.is_commit_timestamp {
        LogicalType::CommitTimestamp
    } else {
        LogicalType::Declared(descriptor.declared_type)
    }
}

/// Tells whether a record is an instance of the record type.
pub fn record_conforms(descriptors: &Vec<FieldDescriptor>, record: &Vec<Value>) -> (out: bool)
    ensures
        out == conforms(descriptor_views(descriptors@), value_views(record@)),
{
    if record.len() != descriptors.len() {
        return false;
    }
    let mut i: usize = 0;
    while i < descriptors.len()
        invariant
            i <= descriptors.len(),
            record.len() == descriptors.len(),
            forall|j: int|
                0 <= j < i ==> type_of(#[trigger] value_views(record@)[j]) == descriptor_views(
                    descriptors@,
                )[j].declared_type,
        decreases descriptors.len() - i,
    {
        if record[i].type_ref() != descriptors[i].declared_type {
            assert(type_of(value_views(record@)[i as int]) != descriptor_views(
                descriptors@,
            )[i as int].declared_type);
            return false;
        }
        i += 1;
    }
    true
}

/// Tells whether no two descriptors share a column name.
pub fn has_distinct_columns(descriptors: &Vec<FieldDescriptor>) -> (out: bool)
    ensures
        out == columns_are_distinct(descriptor_views(descriptors@)),
{
    let ghost views = descriptor_views(descriptors@);
    let mut j: usize = 0;
    while j < descriptors.len()
        invariant
            j <= descriptors.len(),
            views == descriptor_views(descriptors@),
            forall|a: int, b: int|
                0 <= a < b < j ==> (#[trigger] views[a]).column_name != (
                #[trigger] views[b]).column_name,
        decreases descriptors.len() - j,
    {
        let mut i: usize = 0;
        while i < j
            invariant
                i <= j < descriptors.len(),
                views == descriptor_views(descriptors@),
                forall|a: int| 0 <= a < i ==> (#[trigger] views[a]).column_name != views[j as int].column_name,
            decreases j - i,
        {
            if descriptors[i].column_name == descriptors[j].column_name {
                assert(views[i as int].column_name == views[j as int].column_name);
                return false;
            }
            i += 1;
        }
        j += 1;
    }
    true
}

/// Encodes a record for writing: one (column, value) pair per descriptor, in
/// descriptor order. A commit-timestamp field is written as the server-time
/// placeholder, and its value in the record is not read.
pub fn encode(descriptors: &Vec<FieldDescriptor>, record: &Vec<Value>) -> (out: Vec<
    (String, EncodedValue),
>)
    requires
        record@.len() == descriptors@.len(),
    ensures
        pair_views(out@) == encoded_pairs(descriptor_views(descriptors@), value_views(record@)),
{
    let mut pairs: Vec<(String, EncodedValue)> = Vec::with_capacity(descriptors.len());
    let mut i: usize = 0;
    while i < descriptors.len()
        invariant
            i <= descriptors.len(),
            record@.len() == descriptors@.len(),
            pairs@.len() == i,
            forall|j: int|
                0 <= j < i ==> (#[trigger] pairs@[j]).0@ == descriptors@[j].column_name@
                    && pairs@[j].1@ == encoded_cell(descriptors@[j]@, record@[j]@),
        decreases descriptors.len() - i,
    {
        let descriptor = &descriptors[i];
        let cell = match cell_source(descriptor) {
            CellSource::ServerTime => EncodedValue::ServerTime,
            CellSource::FieldValue => EncodedValue::Data(record[i].duplicate()),
        };
        pairs.push((descriptor.column_name.clone(), cell));
        i += 1;
    }
    assert(pair_views(pairs@) =~= encoded_pairs(
        descriptor_views(descriptors@),
        value_views(record@),
    ));
    pairs
}

/// Reports the declared (column, type) pair of every descriptor, in
/// descriptor order. A commit-timestamp field is declared with the marker
/// type, not with its own.
pub fn schema(descriptors: &Vec<FieldDescriptor>) -> (out: Vec<(String, LogicalType)>)
    ensures
        schema_views(out@) == schema_pairs(descriptor_views(descriptors@)),
{
    let mut pairs: Vec<(String, LogicalType)> = Vec::with_capacity(descriptors.len());
    let mut i: usize = 0;
    while i < descriptors.len()
        invariant
            i <= descriptors.len(),
            pairs@.len() == i,
            forall|j: int|
                0 <= j < i ==> (#[trigger] pairs@[j]).0@ == descriptors@[j].column_name@
                    && pairs@[j].1 == logical_type_of(descriptors@[j]@),
        decreases descriptors.len() - i,
    {
        let descriptor = &descriptors[i];
        pairs.push((descriptor.column_name.clone(), logical_type(descriptor)));
        i += 1;
    }
    assert(schema_views(pairs@) =~= schema_pairs(descriptor_views(descriptors@)));
    pairs
}

/// Finds the first column of a row that is called `name`.
pub fn lookup_by_name(row: &Vec<(String, EncodedValue)>, name: &String) -> (out: Option<usize>)
    ensures
        match out {
            Some(i) => find_column(pair_views(row@), name@) == Some(i as int) && i < row@.len(),
            None => find_column(pair_views(row@), name@).is_none(),
        },
{
    let ghost cells = pair_views(row@);
    let mut i: usize = 0;
    while i < row.len()
        invariant
            i <= row.len(),
            cells == pair_views(row@),
            forall|j: int| 0 <= j < i ==> (#[trigger] cells[j]).0 != name@,
        decreases row.len() - i,
    {
        if row[i].0 == *name {
            proof {
                assert(is_first_match(cells, name@, i as int));
                lemma_first_match_is_unique(cells, name@, i as int);
            }
            return Some(i);
        }
        i += 1;
    }
    None
}

/// A row has at most one first match for a name, and `find_column` gives it.
pub proof fn lemma_first_match_is_unique(row: Seq<(Seq<char>, EncodedValueView)>, name: Seq<char>, i: int)
    requires
        is_first_match(row, name, i),
    ensures
        find_column(row, name) == Some(i),
{
    let c = choose|c: int| is_first_match(row, name, c);
    if c < i {
        assert(row[c].0 != name);
    } else if i < c {
        assert(row[i].0 != name);
    }
}

/// Converts a cell to a field's type. Succeeds exactly on a value of that
/// type; the error names the column, and the types that disagree.
pub fn convert_to(cell: &EncodedValue, expected: TypeRef, column: &String) -> (out: Result<
    Value,
    MappingError,
>)
    ensures
        value_matches(out, converted(cell@, expected, column@)),
{
    match cell {
        EncodedValue::ServerTime => Err(
            MappingError { column: column.clone(), cause: MappingCause::NoValue { expected } },
        ),
        EncodedValue::Data(value) => {
            let found = value.type_ref();
            if found == expected {
                Ok(value.duplicate())
            } else {
                Err(
                    MappingError {
                        column: column.clone(),
                        cause: MappingCause::TypeMismatch { expected, found },
                    },
                )
            }
        },
    }
}

/// Reads one field from a row: looks its column up by name and converts the
/// cell to the field's declared type.
pub fn decode_field(descriptor: &FieldDescriptor, row: &Vec<(String, EncodedValue)>) -> (out: Result<
    Value,
    MappingError,
>)
    ensures
        value_matches(out, decoded_field(descriptor@, pair_views(row@))),
{
    match lookup_by_name(row, &descriptor.column_name) {
        None => Err(
            MappingError {
                column: descriptor.column_name.clone(),
                cause: MappingCause::ColumnNotFound,
            },
        ),
        Some(i) => convert_to(&row[i].1, descriptor.declared_type, &descriptor.column_name),
    }
}

/// A field error among the first `n` descriptors is the error of the whole
/// record.
pub proof fn lemma_decode_error_persists(
    descriptors: Seq<FieldDescriptorView>,
    row: Seq<(Seq<char>, EncodedValueView)>,
    n: int,
)
    requires
        0 <= n <= descriptors.len(),
        decoded_record(descriptors.take(n), row).is_err(),
    ensures
        decoded_record(descriptors, row) == decoded_record(descriptors.take(n), row),
    decreases descriptors.len() - n,
{
    if n < descriptors.len() {
        assert(descriptors.take(n + 1).drop_last() =~= descriptors.take(n));
        lemma_decode_error_persists(descriptors, row, n + 1);
    } else {
        assert(descriptors.take(n) =~= descriptors);
    }
}

/// Reads a record from a row: every field in descriptor order, each looked up
/// by its column name and converted to its declared type. Stops at the first
/// field that cannot be read and returns its error; no partial record is
/// returned.
pub fn decode(descriptors: &Vec<FieldDescriptor>, row: &Vec<(String, EncodedValue)>) -> (out: Result<
    Vec<Value>,
    MappingError,
>)
    ensures
        record_matches(out, decoded_record(descriptor_views(descriptors@), pair_views(row@))),
{
    let ghost views = descriptor_views(descriptors@);
    let ghost cells = pair_views(row@);
    let mut values: Vec<Value> = Vec::with_capacity(descriptors.len());
    let mut i: usize = 0;
    assert(views.take(0) =~= Seq::empty());
    assert(value_views(values@) =~= Seq::empty());
    while i < descriptors.len()
        invariant
            i <= descriptors.len(),
            views == descriptor_views(descriptors@),
            cells == pair_views(row@),
            decoded_record(views.take(i as int), cells) == Ok::<Seq<ValueView>, MappingErrorView>(
                value_views(values@),
            ),
        decreases descriptors.len() - i,
    {
        proof {
            assert(views.take(i + 1).drop_last() =~= views.take(i as int));
            assert(views.take(i + 1).last() == descriptors@[i as int]@);
        }
        match decode_field(&descriptors[i], row) {
            Err(e) => {
                proof {
                    assert(decoded_record(views.take(i + 1), cells).is_err());
                    lemma_decode_error_persists(views, cells, i + 1);
                }
                return Err(e);
            },
            Ok(value) => {
                let ghost before = value_views(values@);
                values.push(value);
                assert(value_views(values@) =~= before.push(value@));
            },
        }
        i += 1;
    }
    assert(views.take(i as int) =~= views);
    Ok(values)
}

} // verus!
