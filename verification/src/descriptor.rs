//! Field descriptors: what the mapping needs to know of each field of a
//! record type, derived from the field's declaration and its annotations.

use crate::naming::{optional_text, resolve_column_name, resolved_name};
use vstd::prelude::*;
use vstd::string::*;

verus! {

/// The static type that a field is declared with.
#[derive(Clone, Copy, Debug, PartialEq, Eq, Structural)]
pub enum TypeRef {
    Bool,
    Int64,
    Text,
    Bytes,
    Timestamp,
}

/// An annotation as written on a field: a key, and a value where one is
/// given.
#[derive(Clone, Debug, PartialEq, Eq)]
pub struct RawAnnotation {
    pub key: String,
    pub value: Option<String>,
}

pub struct RawAnnotationView {
    pub key: Seq<char>,
    pub value: Option<Seq<char>>,
}

impl View for RawAnnotation {
    type V = RawAnnotationView;

    open spec fn view(&self) -> RawAnnotationView {
        RawAnnotationView { key: self.key@, value: optional_text(self.value) }
    }
}

/// What the annotations of one field say, once recognised.
#[derive(Clone, Debug, PartialEq, Eq)]
pub struct Annotations {
    pub column_name: Option<String>,
    pub commit_timestamp: bool,
}

pub struct AnnotationsView {
    pub column_name: Option<Seq<char>>,
    pub commit_timestamp: bool,
}

impl View for Annotations {
    type V = AnnotationsView;

    open spec fn view(&self) -> AnnotationsView {
        AnnotationsView {
            column_name: optional_text(self.column_name),
            commit_timestamp: self.commit_timestamp,
        }
    }
}

/// One declared field of a record type.
#[derive(Clone, Debug, PartialEq, Eq)]
pub struct FieldSpec {
    pub identifier: String,
    pub declared_type: TypeRef,
    pub annotations: Vec<RawAnnotation>,
}

pub struct FieldSpecView {
    pub identifier: Seq<char>,
    pub declared_type: TypeRef,
    pub annotations: Seq<RawAnnotationView>,
}

/// The views of a sequence of raw annotations.
pub open spec fn annotation_views(raw: Seq<RawAnnotation>) -> Seq<RawAnnotationView> {
    Seq::new(raw.len(), |i: int| raw[i]@)
}

impl View for FieldSpec {
    type V = FieldSpecView;

    open spec fn view(&self) -> FieldSpecView {
        FieldSpecView {
            identifier: self.identifier@,
            declared_type: self.declared_type,
            annotations: annotation_views(self.annotations@),
        }
    }
}

/// The shape of a type definition handed to the extractor. Only a type with
/// named fields can be mapped.
#[derive(Clone, Debug, PartialEq, Eq)]
pub enum RecordShape {
    Named(Vec<FieldSpec>),
    Positional,
    Unit,
}

pub enum RecordShapeView {
    Named(Seq<FieldSpecView>),
    Positional,
    Unit,
}

/// The views of a sequence of field declarations.
pub open spec fn field_views(fields: Seq<FieldSpec>) -> Seq<FieldSpecView> {
    Seq::new(fields.len(), |i: int| fields[i]@)
}

impl View for RecordShape {
    type V = RecordShapeView;

    open spec fn view(&self) -> RecordShapeView {
        match self {
            RecordShape::Named(fields) => RecordShapeView::Named(field_views(fields@)),
            RecordShape::Positional => RecordShapeView::Positional,
            RecordShape::Unit => RecordShapeView::Unit,
        }
    }
}

/// What the mapping knows of one field.
#[derive(Clone, Debug, PartialEq, Eq)]
pub struct FieldDescriptor {
    pub identifier: String,
    pub column_name: String,
    pub declared_type: TypeRef,
    pub is_commit_timestamp: bool,
}

pub struct FieldDescriptorView {
    pub identifier: Seq<char>,
    pub column_name: Seq<char>,
    pub declared_type: TypeRef,
    pub is_commit_timestamp: bool,
}

impl View for FieldDescriptor {
    type V = FieldDescriptorView;

    open spec fn view(&self) -> FieldDescriptorView {
        FieldDescriptorView {
            identifier: self.identifier@,
            column_name: self.column_name@,
            declared_type: self.declared_type,
            is_commit_timestamp: self.is_commit_timestamp,
        }
    }
}

/// The views of a sequence of descriptors.
pub open spec fn descriptor_views(descriptors: Seq<FieldDescriptor>) -> Seq<FieldDescriptorView> {
    Seq::new(descriptors.len(), |i: int| descriptors[i]@)
}

/// Why no mapping can be generated for a type definition.
#[derive(Clone, Debug, PartialEq, Eq)]
pub enum GenerationError {
    /// The type is not a record with named fields.
    UnsupportedShape,
    /// A field carries an annotation that is neither a column name with a
    /// value nor the commit-timestamp flag; the key is given.
    UnrecognizedAnnotation(String),
}

pub enum GenerationErrorView {
    UnsupportedShape,
    UnrecognizedAnnotation(Seq<char>),
}

impl View for GenerationError {
    type V = GenerationErrorView;

    open spec fn view(&self) -> GenerationErrorView {
        match self {
            GenerationError::UnsupportedShape => GenerationErrorView::UnsupportedShape,
            GenerationError::UnrecognizedAnnotation(key) => GenerationErrorView::UnrecognizedAnnotation(
                key@,
            ),
        }
    }
}

/// The key of the annotation that names a column.
pub open spec fn column_name_key() -> Seq<char> {
    "column_name"@
}

/// The key of the flag that marks a server-assigned timestamp.
pub open spec fn commit_timestamp_key() -> Seq<char> {
    "commit_timestamp"@
}

/// Whether an annotation names the column: the naming key, with a value.
pub open spec fn names_column(raw: RawAnnotationView) -> bool {
    raw.key == column_name_key() && raw.value.is_some()
}

/// Whether an annotation is the commit-timestamp flag: its key, with no value.
pub open spec fn flags_commit_timestamp(raw: RawAnnotationView) -> bool {
    raw.key == commit_timestamp_key() && raw.value.is_none()
}

/// Whether an annotation is one of the two that the mapping knows.
pub open spec fn is_recognized(raw: RawAnnotationView) -> bool {
    names_column(raw) || flags_commit_timestamp(raw)
}

/// The annotations of a field after one more recognised annotation is read:
/// a column name replaces an earlier one, the flag stays set.
pub open spec fn with_annotation(seen: AnnotationsView, raw: RawAnnotationView) -> AnnotationsView {
    if names_column(raw) {
        AnnotationsView { column_name: raw.value, commit_timestamp: seen.commit_timestamp }
    } else {
        AnnotationsView { column_name: seen.column_name, commit_timestamp: true }
    }
}

/// What a list of raw annotations says: the recognised content, or the error
/// for the first annotation that is not recognised.
pub open spec fn annotations_of(raw: Seq<RawAnnotationView>) -> Result<
    AnnotationsView,
    GenerationErrorView,
>
    decreases raw.len(),
{
    if raw.len() == 0 {
        Ok(AnnotationsView { column_name: None, commit_timestamp: false })
    } else {
        match annotations_of(raw.drop_last()) {
            Err(e) => Err(e),
            Ok(seen) => if is_recognized(raw.last()) {
                Ok(with_annotation(seen, raw.last()))
            } else {
                Err(GenerationErrorView::UnrecognizedAnnotation(raw.last().key))
            },
        }
    }
}

/// The descriptor of a field whose annotations say `annotations`.
pub open spec fn descriptor_of(
    identifier: Seq<char>,
    declared_type: TypeRef,
    annotations: AnnotationsView,
) -> FieldDescriptorView {
    FieldDescriptorView {
        identifier,
        column_name: resolved_name(identifier, annotations.column_name),
        declared_type,
        is_commit_timestamp: annotations.commit_timestamp,
    }
}

/// The descriptor of one declared field, or the error of its annotations.
pub open spec fn described_field(field: FieldSpecView) -> Result<
    FieldDescriptorView,
    GenerationErrorView,
> {
    match annotations_of(field.annotations) {
        Err(e) => Err(e),
        Ok(annotations) => Ok(descriptor_of(field.identifier, field.declared_type, annotations)),
    }
}

/// The descriptors of a list of fields, one per field and in the same order,
/// or the error of the first field that has one.
pub open spec fn described_fields(fields: Seq<FieldSpecView>) -> Result<
    Seq<FieldDescriptorView>,
    GenerationErrorView,
>
    decreases fields.len(),
{
    if fields.len() == 0 {
        Ok(Seq::empty())
    } else {
        match described_fields(fields.drop_last()) {
            Err(e) => Err(e),
            Ok(descriptors) => match described_field(fields.last()) {
                Err(e) => Err(e),
                Ok(descriptor) => Ok(descriptors.push(descriptor)),
            },
        }
    }
}

/// The descriptors of a type definition: those of its fields where it has
/// named fields, else the shape error.
pub open spec fn extraction_of(shape: RecordShapeView) -> Result<
    Seq<FieldDescriptorView>,
    GenerationErrorView,
> {
    match shape {
        RecordShapeView::Named(fields) => described_fields(fields),
        _ => Err(GenerationErrorView::UnsupportedShape),
    }
}

/// Whether an executable result of annotations stands for a model result.
pub open spec fn annotations_match(
    out: Result<Annotations, GenerationError>,
    model: Result<AnnotationsView, GenerationErrorView>,
) -> bool {
    match (out, model) {
        (Ok(a), Ok(m)) => a@ == m,
        (Err(e), Err(m)) => e@ == m,
        _ => false,
    }
}

/// Whether an executable descriptor result stands for a model result.
pub open spec fn descriptor_matches(
    out: Result<FieldDescriptor, GenerationError>,
    model: Result<FieldDescriptorView, GenerationErrorView>,
) -> bool {
    match (out, model) {
        (Ok(d), Ok(m)) => d@ == m,
        (Err(e), Err(m)) => e@ == m,
        _ => false,
    }
}

/// Whether an executable extraction result stands for a model result.
pub open spec fn extraction_matches(
    out: Result<Vec<FieldDescriptor>, GenerationError>,
    model: Result<Seq<FieldDescriptorView>, GenerationErrorView>,
) -> bool {
    match (out, model) {
        (Ok(d), Ok(m)) => descriptor_views(d@) == m,
        (Err(e), Err(m)) => e@ == m,
        _ => false,
    }
}

/// Reads the raw annotations of a field. Fails with the key of the first
/// annotation that is not recognised; otherwise the last column name given
/// stands, and the flag is set if it occurs at all.
pub fn collect_annotations(raw: &Vec<RawAnnotation>) -> (out: Result<Annotations, GenerationError>)
    ensures
        annotations_match(out, annotations_of(annotation_views(raw@))),
{
    let name_key = "column_name".to_owned();
    let flag_key = "commit_timestamp".to_owned();
    let mut seen = Annotations { column_name: None, commit_timestamp: false };
    let ghost views = annotation_views(raw@);
    let mut i: usize = 0;
    assert(views.take(0) =~= Seq::empty());
    while i < raw.len()
        invariant
            i <= raw.len(),
            views == annotation_views(raw@),
            name_key@ == column_name_key(),
            flag_key@ == commit_timestamp_key(),
            annotations_of(views.take(i as int)) == Ok::<AnnotationsView, GenerationErrorView>(seen@),
        decreases raw.len() - i,
    {
        let item = &raw[i];
        proof {
            assert(views.take(i + 1).drop_last() =~= views.take(i as int));
            assert(views.take(i + 1).last() == item@);
        }
        if item.key == name_key && item.value.is_some() {
            seen = Annotations {
                column_name: item.value.clone(),
                commit_timestamp: seen.commit_timestamp,
            };
        } else if item.key == flag_key && item.value.is_none() {
            seen = Annotations { column_name: seen.column_name, commit_timestamp: true };
        } else {
            proof {
                lemma_error_persists(views, i + 1);
            }
            return Err(GenerationError::UnrecognizedAnnotation(item.key.clone()));
        }
        i += 1;
    }
    assert(views.take(i as int) =~= views);
    Ok(seen)
}

/// An error among the first `n` annotations is the error of the whole list.
proof fn lemma_error_persists(raw: Seq<RawAnnotationView>, n: int)
    requires
        0 <= n <= raw.len(),
        annotations_of(raw.take(n)).is_err(),
    ensures
        annotations_of(raw) == annotations_of(raw.take(n)),
    decreases raw.len() - n,
{
    if n < raw.len() {
        assert(raw.take(n + 1).drop_last() =~= raw.take(n));
        lemma_error_persists(raw, n + 1);
    } else {
        assert(raw.take(n) =~= raw);
    }
}

/// Reading annotations succeeds exactly where every annotation is
/// recognised. It then sets the flag exactly where the flag occurs, and gives
/// the value of the last annotation that names the column, or no name where
/// none does.
pub proof fn annotations_read_as_written(raw: Seq<RawAnnotationView>)
    ensures
        annotations_of(raw).is_ok() <==> (forall|i: int|
            0 <= i < raw.len() ==> is_recognized(#[trigger] raw[i])),
        annotations_of(raw) matches Ok(seen) ==> {
            &&& seen.commit_timestamp <==> (exists|i: int|
                0 <= i < raw.len() && flags_commit_timestamp(#[trigger] raw[i]))
            &&& seen.column_name.is_none() <==> (forall|i: int|
                0 <= i < raw.len() ==> !names_column(#[trigger] raw[i]))
            &&& forall|k: int|
                0 <= k < raw.len() && names_column(#[trigger] raw[k]) && (forall|j: int|
                    k < j < raw.len() ==> !names_column(#[trigger] raw[j])) ==> seen.column_name
                    == raw[k].value
        },
    decreases raw.len(),
{
    if raw.len() > 0 {
        let front = raw.drop_last();
        let n = raw.len() - 1;
        annotations_read_as_written(front);
        assert forall|i: int| 0 <= i < n implies #[trigger] front[i] == raw[i] by {}
        if forall|i: int| 0 <= i < raw.len() ==> is_recognized(#[trigger] raw[i]) {
            assert forall|i: int| 0 <= i < front.len() implies is_recognized(
                #[trigger] front[i],
            ) by {
                assert(front[i] == raw[i]);
            }
        }
        match annotations_of(raw) {
            Ok(seen) => {
                let earlier = annotations_of(front)->Ok_0;
                assert(is_recognized(raw[n]));
                assert forall|i: int| 0 <= i < raw.len() implies is_recognized(
                    #[trigger] raw[i],
                ) by {
                    if i < n {
                        assert(is_recognized(front[i]));
                    }
                }
                if earlier.commit_timestamp {
                    let w = choose|i: int|
                        0 <= i < front.len() && flags_commit_timestamp(#[trigger] front[i]);
                    assert(flags_commit_timestamp(raw[w]));
                }
                if exists|i: int| 0 <= i < raw.len() && flags_commit_timestamp(#[trigger] raw[i]) {
                    let w = choose|i: int|
                        0 <= i < raw.len() && flags_commit_timestamp(#[trigger] raw[i]);
                    if w < n {
                        assert(flags_commit_timestamp(front[w]));
                    }
                }
                if forall|i: int| 0 <= i < raw.len() ==> !names_column(#[trigger] raw[i]) {
                    assert forall|i: int| 0 <= i < front.len() implies !names_column(
                        #[trigger] front[i],
                    ) by {
                        assert(front[i] == raw[i]);
                    }
                }
                if seen.column_name.is_none() {
                    assert forall|i: int| 0 <= i < raw.len() implies !names_column(
                        #[trigger] raw[i],
                    ) by {
                        if i < n {
                            assert(!names_column(front[i]));
                        }
                    }
                }
                assert forall|k: int|
                    0 <= k < raw.len() && names_column(#[trigger] raw[k]) && (forall|j: int|
                        k < j < raw.len() ==> !names_column(
                            #[trigger] raw[j],
                        )) implies seen.column_name == raw[k].value by {
                    if k < n {
                        assert(!names_column(raw[n]));
                        assert(names_column(front[k]));
                        assert forall|j: int| k < j < front.len() implies !names_column(
                            #[trigger] front[j],
                        ) by {
                            assert(front[j] == raw[j]);
                        }
                    }
                }
            },
            Err(_) => {
                if annotations_of(front).is_ok() {
                    assert(!is_recognized(raw[n]));
                } else {
                    let w = choose|i: int| 0 <= i < front.len() && !is_recognized(#[trigger] front[i]);
                    assert(!is_recognized(raw[w]));
                }
            },
        }
    }
}

/// Reading annotations fails with the key of the first annotation that is
/// not recognised.
pub proof fn annotations_fail_at_first_unrecognized(raw: Seq<RawAnnotationView>, k: int)
    requires
        0 <= k < raw.len(),
        !is_recognized(raw[k]),
        forall|j: int| 0 <= j < k ==> is_recognized(#[trigger] raw[j]),
    ensures
        annotations_of(raw) == Err::<AnnotationsView, GenerationErrorView>(
            GenerationErrorView::UnrecognizedAnnotation(raw[k].key),
        ),
{
    let front = raw.take(k);
    annotations_read_as_written(front);
    assert forall|i: int| 0 <= i < front.len() implies is_recognized(#[trigger] front[i]) by {
        assert(front[i] == raw[i]);
    }
    assert(raw.take(k + 1).drop_last() =~= front);
    assert(raw.take(k + 1).last() == raw[k]);
    lemma_error_persists(raw, k + 1);
}

/// Builds the descriptor of one field: its annotations are read, its column
/// name resolved, and the timestamp flag carried over.
pub fn describe_field(field: &FieldSpec) -> (out: Result<FieldDescriptor, GenerationError>)
    ensures
        descriptor_matches(out, described_field(field@)),
{
    match collect_annotations(&field.annotations) {
        Err(e) => Err(e),
        Ok(annotations) => {
            let column_name = resolve_column_name(field.identifier.as_str(), &annotations.column_name);
            Ok(
                FieldDescriptor {
                    identifier: field.identifier.clone(),
                    column_name,
                    declared_type: field.declared_type,
                    is_commit_timestamp: annotations.commit_timestamp,
                },
            )
        },
    }
}

/// A field error among the first `n` fields is the error of the whole list.
proof fn lemma_field_error_persists(fields: Seq<FieldSpecView>, n: int)
    requires
        0 <= n <= fields.len(),
        described_fields(fields.take(n)).is_err(),
    ensures
        described_fields(fields) == described_fields(fields.take(n)),
    decreases fields.len() - n,
{
    if n < fields.len() {
        assert(fields.take(n + 1).drop_last() =~= fields.take(n));
        lemma_field_error_persists(fields, n + 1);
    } else {
        assert(fields.take(n) =~= fields);
    }
}

/// Extracts the descriptors of a type definition: one per field, in
/// declaration order. Fails on a type without named fields, and on the first
/// field with an unrecognised annotation.
pub fn extract_descriptors(shape: &RecordShape) -> (out: Result<
    Vec<FieldDescriptor>,
    GenerationError,
>)
    ensures
        extraction_matches(out, extraction_of(shape@)),
{
    match shape {
        RecordShape::Named(fields) => {
            let ghost views = field_views(fields@);
            let mut descriptors: Vec<FieldDescriptor> = Vec::with_capacity(fields.len());
            let mut i: usize = 0;
            assert(views.take(0) =~= Seq::empty());
            assert(descriptor_views(descriptors@) =~= Seq::empty());
            while i < fields.len()
                invariant
                    i <= fields.len(),
                    views == field_views(fields@),
                    shape@ == RecordShapeView::Named(views),
                    described_fields(views.take(i as int)) == Ok::<
                        Seq<FieldDescriptorView>,
                        GenerationErrorView,
                    >(descriptor_views(descriptors@)),
                decreases fields.len() - i,
            {
                proof {
                    assert(views.take(i + 1).drop_last() =~= views.take(i as int));
                    assert(views.take(i + 1).last() == fields@[i as int]@);
                }
                match describe_field(&fields[i]) {
                    Err(e) => {
                        proof {
                            lemma_field_error_persists(views, i + 1);
                        }
                        return Err(e);
                    },
                    Ok(descriptor) => {
                        let ghost before = descriptor_views(descriptors@);
                        descriptors.push(descriptor);
                        assert(descriptor_views(descriptors@) =~= before.push(descriptor@));
                    },
                }
                i += 1;
            }
            assert(views.take(i as int) =~= views);
            Ok(descriptors)
        },
        _ => Err(GenerationError::UnsupportedShape),
    }
}

/// A list of fields that can each be described gives the list of their
/// descriptors.
pub proof fn lemma_every_field_described(
    fields: Seq<FieldSpecView>,
    descriptors: Seq<FieldDescriptorView>,
)
    requires
        descriptors.len() == fields.len(),
        forall|i: int|
            0 <= i < fields.len() ==> described_field(#[trigger] fields[i]) == Ok::<
                FieldDescriptorView,
                GenerationErrorView,
            >(descriptors[i]),
    ensures
        described_fields(fields) == Ok::<Seq<FieldDescriptorView>, GenerationErrorView>(
            descriptors,
        ),
    decreases fields.len(),
{
    if fields.len() > 0 {
        lemma_every_field_described(fields.drop_last(), descriptors.drop_last());
        assert(descriptors.drop_last().push(descriptors.last()) =~= descriptors);
    } else {
        assert(descriptors =~= Seq::empty());
    }
}

/// Extraction fails with the error of the first field that cannot be
/// described; where every field can, it succeeds.
pub proof fn extraction_reports_first_failure(
    fields: Seq<FieldSpecView>,
    k: int,
    error: GenerationErrorView,
)
    requires
        0 <= k < fields.len(),
        described_field(fields[k]) == Err::<FieldDescriptorView, GenerationErrorView>(error),
        forall|j: int| 0 <= j < k ==> described_field(#[trigger] fields[j]).is_ok(),
    ensures
        described_fields(fields) == Err::<Seq<FieldDescriptorView>, GenerationErrorView>(error),
{
    let front = fields.take(k);
    let described = Seq::new(k as nat, |i: int| described_field(fields[i])->Ok_0);
    assert forall|i: int| 0 <= i < front.len() implies described_field(#[trigger] front[i])
        == Ok::<FieldDescriptorView, GenerationErrorView>(described[i]) by {
        assert(front[i] == fields[i]);
    }
    lemma_every_field_described(front, described);
    assert(fields.take(k + 1).drop_last() =~= front);
    assert(fields.take(k + 1).last() == fields[k]);
    lemma_field_error_persists(fields, k + 1);
}

/// Extraction keeps the declaration: it gives one descriptor per field, and
/// the descriptor at each place is that of the field at that place, with the
/// field's identifier and declared type, whatever the annotations say.
pub proof fn extraction_keeps_declaration_order(
    fields: Seq<FieldSpecView>,
    descriptors: Seq<FieldDescriptorView>,
)
    requires
        described_fields(fields) == Ok::<Seq<FieldDescriptorView>, GenerationErrorView>(
            descriptors,
        ),
    ensures
        descriptors.len() == fields.len(),
        forall|i: int|
            0 <= i < fields.len() ==> described_field(#[trigger] fields[i]) == Ok::<
                FieldDescriptorView,
                GenerationErrorView,
            >(descriptors[i]),
        forall|i: int|
            0 <= i < fields.len() ==> {
                &&& (#[trigger] descriptors[i]).identifier == fields[i].identifier
                &&& descriptors[i].declared_type == fields[i].declared_type
            },
    decreases fields.len(),
{
    if fields.len() > 0 {
        let earlier = described_fields(fields.drop_last());
        match earlier {
            Ok(front) => {
                extraction_keeps_declaration_order(fields.drop_last(), front);
            },
            Err(_) => {},
        }
    }
}

} // verus!
