//! The generator: from a type definition to the three plans that the
//! generated methods of the type are written from.

use crate::descriptor::{
    descriptor_views, extract_descriptors, extraction_of, FieldDescriptor, FieldDescriptorView,
    GenerationError, GenerationErrorView, RecordShape, RecordShapeView,
};
use crate::mapping::{
    cell_source, cell_source_of, logical_type, logical_type_of, schema_pairs, schema_views,
    CellSource, LogicalType,
};
use vstd::prelude::*;

verus! {

/// What the generated methods of a record type do, field by field and in
/// declaration order.
#[derive(Clone, Debug, PartialEq, Eq)]
pub struct TableMethods {
    /// For the method that writes a record: each column and where its value
    /// comes from.
    pub to_kinds: Vec<(String, CellSource)>,
    /// For the method that declares the columns: each column and its type.
    pub get_types: Vec<(String, LogicalType)>,
    /// For the methods that read a row: each field's identifier and the
    /// column that it is read from.
    pub try_from: Vec<(String, String)>,
}

pub struct TableMethodsView {
    pub to_kinds: Seq<(Seq<char>, CellSource)>,
    pub get_types: Seq<(Seq<char>, LogicalType)>,
    pub try_from: Seq<(Seq<char>, Seq<char>)>,
}

/// The views of a sequence of (column, source) pairs.
pub open spec fn source_views(pairs: Seq<(String, CellSource)>) -> Seq<(Seq<char>, CellSource)> {
    Seq::new(pairs.len(), |i: int| (pairs[i].0@, pairs[i].1))
}

/// The views of a sequence of (identifier, column) pairs.
pub open spec fn binding_views(pairs: Seq<(String, String)>) -> Seq<(Seq<char>, Seq<char>)> {
    Seq::new(pairs.len(), |i: int| (pairs[i].0@, pairs[i].1@))
}

impl View for TableMethods {
    type V = TableMethodsView;

    open spec fn view(&self) -> TableMethodsView {
        TableMethodsView {
            to_kinds: source_views(self.to_kinds@),
            get_types: schema_views(self.get_types@),
            try_from: binding_views(self.try_from@),
        }
    }
}

/// The plan for writing: one (column, source) pair per descriptor.
pub open spec fn write_plan(descriptors: Seq<FieldDescriptorView>) -> Seq<(Seq<char>, CellSource)> {
    Seq::new(descriptors.len(), |i: int| (descriptors[i].column_name, cell_source_of(descriptors[i])))
}

/// The plan for reading: one (identifier, column) pair per descriptor. The
/// commit-timestamp flag plays no part.
pub open spec fn read_plan(descriptors: Seq<FieldDescriptorView>) -> Seq<(Seq<char>, Seq<char>)> {
    Seq::new(descriptors.len(), |i: int| (descriptors[i].identifier, descriptors[i].column_name))
}

/// The three plans of a list of descriptors.
pub open spec fn methods_of(descriptors: Seq<FieldDescriptorView>) -> TableMethodsView {
    TableMethodsView {
        to_kinds: write_plan(descriptors),
        get_types: schema_pairs(descriptors),
        try_from: read_plan(descriptors),
    }
}

/// The plans generated for a type definition, or the reason why none are.
pub open spec fn generation_of(shape: RecordShapeView) -> Result<
    TableMethodsView,
    GenerationErrorView,
> {
    match extraction_of(shape) {
        Err(e) => Err(e),
        Ok(descriptors) => Ok(methods_of(descriptors)),
    }
}

/// Whether an executable generation result stands for a model result.
pub open spec fn generation_matches(
    out: Result<TableMethods, GenerationError>,
    model: Result<TableMethodsView, GenerationErrorView>,
) -> bool {
    match (out, model) {
        (Ok(t), Ok(m)) => t@ == m,
        (Err(e), Err(m)) => e@ == m,
        _ => false,
    }
}

/// Writes the three plans of a list of descriptors, each with one entry per
/// descriptor and in descriptor order.
pub fn emit_methods(descriptors: &Vec<FieldDescriptor>) -> (out: TableMethods)
    ensures
        out@ == methods_of(descriptor_views(descriptors@)),
{
    let mut to_kinds: Vec<(String, CellSource)> = Vec::with_capacity(descriptors.len());
    let mut get_types: Vec<(String, LogicalType)> = Vec::with_capacity(descriptors.len());
    let mut try_from: Vec<(String, String)> = Vec::with_capacity(descriptors.len());
    let mut i: usize = 0;
    while i < descriptors.len()
        invariant
            i <= descriptors.len(),
            to_kinds@.len() == i,
            get_types@.len() == i,
            try_from@.len() == i,
            forall|j: int|
                0 <= j < i ==> (#[trigger] to_kinds@[j]).0@ == descriptors@[j].column_name@
                    && to_kinds@[j].1 == cell_source_of(descriptors@[j]@),
            forall|j: int|
                0 <= j < i ==> (#[trigger] get_types@[j]).0@ == descriptors@[j].column_name@
                    && get_types@[j].1 == logical_type_of(descriptors@[j]@),
            forall|j: int|
                0 <= j < i ==> (#[trigger] try_from@[j]).0@ == descriptors@[j].identifier@
                    && try_from@[j].1@ == descriptors@[j].column_name@,
        decreases descriptors.len() - i,
    {
        let descriptor = &descriptors[i];
        to_kinds.push((descriptor.column_name.clone(), cell_source(descriptor)));
        get_types.push((descriptor.column_name.clone(), logical_type(descriptor)));
        try_from.push((descriptor.identifier.clone(), descriptor.column_name.clone()));
        i += 1;
    }
    let ghost views = descriptor_views(descriptors@);
    assert(source_views(to_kinds@) =~= write_plan(views));
    assert(schema_views(get_types@) =~= schema_pairs(views));
    assert(binding_views(try_from@) =~= read_plan(views));
    TableMethods { to_kinds, get_types, try_from }
}

/// Generates the plans of the methods of a record type. Fails where the type
/// has no named fields or a field carries an unrecognised annotation, and
/// then emits nothing.
pub fn generate_table_methods(shape: &RecordShape) -> (out: Result<TableMethods, GenerationError>)
    ensures
        generation_matches(out, generation_of(shape@)),
{
    match extract_descriptors(shape) {
        Err(e) => Err(e),
        Ok(descriptors) => Ok(emit_methods(&descriptors)),
    }
}

} // verus!
