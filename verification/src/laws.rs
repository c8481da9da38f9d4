//! Laws of the mapping: what holds of encoding, schema and decoding for every
//! record type, record and row.

use crate::descriptor::{
    described_field, described_fields, FieldDescriptorView, FieldSpecView, GenerationErrorView,
};
use crate::generator::{read_plan, write_plan};
use crate::mapping::{
    columns_are_distinct, conforms, converted, decoded_field, decoded_record, encoded_pairs,
    find_column, is_first_match, lemma_decode_error_persists, lemma_first_match_is_unique,
    logical_type_of, schema_pairs, type_of, CellSource, EncodedValueView, LogicalType,
    MappingCause, MappingErrorView, ValueView,
};
use vstd::prelude::*;

verus! {

/// A row that has a column called `name` at place `i` has a first such place,
/// at or before `i`.
pub proof fn lemma_match_has_first(row: Seq<(Seq<char>, EncodedValueView)>, name: Seq<char>, i: int)
    requires
        0 <= i < row.len(),
        row[i].0 == name,
    ensures
        exists|f: int| 0 <= f <= i && is_first_match(row, name, f),
    decreases i,
{
    if exists|j: int| 0 <= j < i && (#[trigger] row[j]).0 == name {
        let j = choose|j: int| 0 <= j < i && (#[trigger] row[j]).0 == name;
        lemma_match_has_first(row, name, j);
    } else {
        assert(is_first_match(row, name, i));
    }
}

/// A row in which every field reads gives the record of those readings.
pub proof fn lemma_every_field_reads(
    descriptors: Seq<FieldDescriptorView>,
    row: Seq<(Seq<char>, EncodedValueView)>,
    values: Seq<ValueView>,
)
    requires
        values.len() == descriptors.len(),
        forall|i: int|
            0 <= i < descriptors.len() ==> decoded_field(#[trigger] descriptors[i], row) == Ok::<
                ValueView,
                MappingErrorView,
            >(values[i]),
    ensures
        decoded_record(descriptors, row) == Ok::<Seq<ValueView>, MappingErrorView>(values),
    decreases descriptors.len(),
{
    if descriptors.len() > 0 {
        lemma_every_field_reads(descriptors.drop_last(), row, values.drop_last());
        assert(values.drop_last().push(values.last()) =~= values);
    } else {
        assert(values =~= Seq::empty());
    }
}

/// Decoding succeeds only where every field reads, and then holds each
/// field's reading at the field's place.
pub proof fn decoded_record_holds_every_field(
    descriptors: Seq<FieldDescriptorView>,
    row: Seq<(Seq<char>, EncodedValueView)>,
    values: Seq<ValueView>,
)
    requires
        decoded_record(descriptors, row) == Ok::<Seq<ValueView>, MappingErrorView>(values),
    ensures
        values.len() == descriptors.len(),
        forall|i: int|
            0 <= i < descriptors.len() ==> decoded_field(#[trigger] descriptors[i], row) == Ok::<
                ValueView,
                MappingErrorView,
            >(values[i]),
    decreases descriptors.len(),
{
    if descriptors.len() > 0 {
        match decoded_record(descriptors.drop_last(), row) {
            Ok(front) => {
                decoded_record_holds_every_field(descriptors.drop_last(), row, front);
                assert forall|i: int| 0 <= i < descriptors.len() implies decoded_field(
                    #[trigger] descriptors[i],
                    row,
                ) == Ok::<ValueView, MappingErrorView>(values[i]) by {
                    if i < descriptors.len() - 1 {
                        assert(descriptors[i] == descriptors.drop_last()[i]);
                    }
                }
            },
            Err(_) => {},
        }
    }
}

/// Decoding fails with the error of the first field that cannot be read: the
/// fields before it do not change the error, and those after it are not
/// reached.
pub proof fn decode_reports_first_failure(
    descriptors: Seq<FieldDescriptorView>,
    row: Seq<(Seq<char>, EncodedValueView)>,
    k: int,
    error: MappingErrorView,
)
    requires
        0 <= k < descriptors.len(),
        decoded_field(descriptors[k], row) == Err::<ValueView, MappingErrorView>(error),
        forall|j: int| 0 <= j < k ==> decoded_field(#[trigger] descriptors[j], row).is_ok(),
    ensures
        decoded_record(descriptors, row) == Err::<Seq<ValueView>, MappingErrorView>(error),
{
    let front = descriptors.take(k);
    let readings = Seq::new(k as nat, |i: int| decoded_field(descriptors[i], row)->Ok_0);
    assert forall|i: int| 0 <= i < front.len() implies decoded_field(#[trigger] front[i], row)
        == Ok::<ValueView, MappingErrorView>(readings[i]) by {
        assert(front[i] == descriptors[i]);
    }
    lemma_every_field_reads(front, row, readings);
    assert(descriptors.take(k + 1).drop_last() =~= front);
    assert(descriptors.take(k + 1).last() == descriptors[k]);
    lemma_decode_error_persists(descriptors, row, k + 1);
}

/// A row that lacks the column of some field is never decoded to a record.
/// Where that field is the first that cannot be read, the error names its
/// column and says that the column was not found.
pub proof fn missing_column_fails_decode(
    descriptors: Seq<FieldDescriptorView>,
    row: Seq<(Seq<char>, EncodedValueView)>,
    k: int,
)
    requires
        0 <= k < descriptors.len(),
        forall|j: int| 0 <= j < row.len() ==> (#[trigger] row[j]).0 != descriptors[k].column_name,
    ensures
        decoded_record(descriptors, row).is_err(),
        (forall|j: int| 0 <= j < k ==> decoded_field(#[trigger] descriptors[j], row).is_ok())
            ==> decoded_record(descriptors, row) == Err::<Seq<ValueView>, MappingErrorView>(
            MappingErrorView {
                column: descriptors[k].column_name,
                cause: MappingCause::ColumnNotFound,
            },
        ),
{
    let name = descriptors[k].column_name;
    assert(find_column(row, name).is_none()) by {
        if exists|i: int| is_first_match(row, name, i) {
            let i = choose|i: int| is_first_match(row, name, i);
            assert(row[i].0 == name);
        }
    }
    assert(decoded_field(descriptors[k], row).is_err());
    if decoded_record(descriptors, row).is_ok() {
        decoded_record_holds_every_field(descriptors, row, decoded_record(descriptors, row)->Ok_0);
    }
    if forall|j: int| 0 <= j < k ==> decoded_field(#[trigger] descriptors[j], row).is_ok() {
        decode_reports_first_failure(
            descriptors,
            row,
            k,
            MappingErrorView { column: name, cause: MappingCause::ColumnNotFound },
        );
    }
}

/// A row whose cell for some field cannot be converted to the field's
/// declared type is never decoded to a record. Where that field is the first
/// that cannot be read, the error names its column and gives the conversion's
/// own cause.
pub proof fn unconvertible_cell_fails_decode(
    descriptors: Seq<FieldDescriptorView>,
    row: Seq<(Seq<char>, EncodedValueView)>,
    k: int,
    place: int,
)
    requires
        0 <= k < descriptors.len(),
        is_first_match(row, descriptors[k].column_name, place),
        converted(row[place].1, descriptors[k].declared_type, descriptors[k].column_name).is_err(),
    ensures
        decoded_record(descriptors, row).is_err(),
        (forall|j: int| 0 <= j < k ==> decoded_field(#[trigger] descriptors[j], row).is_ok())
            ==> {
            &&& decoded_record(descriptors, row).is_err()
            &&& decoded_record(descriptors, row)->Err_0.column == descriptors[k].column_name
            &&& decoded_record(descriptors, row)->Err_0.cause == match row[place].1 {
                EncodedValueView::ServerTime => MappingCause::NoValue {
                    expected: descriptors[k].declared_type,
                },
                EncodedValueView::Data(value) => MappingCause::TypeMismatch {
                    expected: descriptors[k].declared_type,
                    found: type_of(value),
                },
            }
        },
{
    let name = descriptors[k].column_name;
    lemma_first_match_is_unique(row, name, place);
    let outcome = decoded_field(descriptors[k], row);
    assert(outcome.is_err());
    if decoded_record(descriptors, row).is_ok() {
        decoded_record_holds_every_field(descriptors, row, decoded_record(descriptors, row)->Ok_0);
    }
    if forall|j: int| 0 <= j < k ==> decoded_field(#[trigger] descriptors[j], row).is_ok() {
        decode_reports_first_failure(descriptors, row, k, outcome->Err_0);
    }
}

/// Encoding and then decoding recovers the record: for a record type without
/// commit-timestamp fields and a record that is an instance of it, the row
/// that holds exactly the encoded pairs decodes to the record. Fields that
/// share a column name must hold equal values, which is the case wherever
/// column names are unique.
pub proof fn decode_recovers_encoded_record(
    descriptors: Seq<FieldDescriptorView>,
    record: Seq<ValueView>,
)
    requires
        conforms(descriptors, record),
        forall|i: int| 0 <= i < descriptors.len() ==> !(#[trigger] descriptors[i]).is_commit_timestamp,
        forall|i: int, j: int|
            0 <= i < descriptors.len() && 0 <= j < descriptors.len() && (
            #[trigger] descriptors[i]).column_name == (#[trigger] descriptors[j]).column_name
                ==> record[i] == record[j],
    ensures
        decoded_record(descriptors, encoded_pairs(descriptors, record)) == Ok::<
            Seq<ValueView>,
            MappingErrorView,
        >(record),
{
    let row = encoded_pairs(descriptors, record);
    assert forall|i: int| 0 <= i < descriptors.len() implies decoded_field(
        #[trigger] descriptors[i],
        row,
    ) == Ok::<ValueView, MappingErrorView>(record[i]) by {
        let name = descriptors[i].column_name;
        assert(row[i].0 == name);
        lemma_match_has_first(row, name, i);
        let f = choose|f: int| 0 <= f <= i && is_first_match(row, name, f);
        lemma_first_match_is_unique(row, name, f);
        assert(row[f].0 == descriptors[f].column_name);
        assert(!descriptors[f].is_commit_timestamp);
        assert(row[f].1 == EncodedValueView::Data(record[f]));
        assert(record[f] == record[i]);
        assert(type_of(record[i]) == descriptors[i].declared_type);
    }
    lemma_every_field_reads(descriptors, row, record);
}

/// Encoding and then decoding recovers the record wherever the column names
/// of the record type are distinct, it has no commit-timestamp field, and the
/// record is an instance of it.
pub proof fn decode_recovers_record_with_distinct_columns(
    descriptors: Seq<FieldDescriptorView>,
    record: Seq<ValueView>,
)
    requires
        conforms(descriptors, record),
        columns_are_distinct(descriptors),
        forall|i: int| 0 <= i < descriptors.len() ==> !(#[trigger] descriptors[i]).is_commit_timestamp,
    ensures
        decoded_record(descriptors, encoded_pairs(descriptors, record)) == Ok::<
            Seq<ValueView>,
            MappingErrorView,
        >(record),
{
    assert forall|i: int, j: int|
        0 <= i < descriptors.len() && 0 <= j < descriptors.len() && (
        #[trigger] descriptors[i]).column_name == (#[trigger] descriptors[j]).column_name implies record[i]
        == record[j] by {
        if i < j {
            assert(descriptors[i].column_name != descriptors[j].column_name);
        } else if j < i {
            assert(descriptors[j].column_name != descriptors[i].column_name);
        }
    }
    decode_recovers_encoded_record(descriptors, record);
}

/// A commit-timestamp field is written as the server-time placeholder
/// whatever the record holds, and is declared with the marker type whatever
/// its own type is; on reading, the flag changes nothing.
pub proof fn commit_timestamp_is_one_sided(
    descriptors: Seq<FieldDescriptorView>,
    record: Seq<ValueView>,
    other_record: Seq<ValueView>,
    row: Seq<(Seq<char>, EncodedValueView)>,
    k: int,
)
    requires
        0 <= k < descriptors.len(),
        descriptors[k].is_commit_timestamp,
    ensures
        encoded_pairs(descriptors, record)[k] == (
            descriptors[k].column_name,
            EncodedValueView::ServerTime,
        ),
        encoded_pairs(descriptors, record)[k] == encoded_pairs(descriptors, other_record)[k],
        schema_pairs(descriptors)[k] == (descriptors[k].column_name, LogicalType::CommitTimestamp),
        decoded_field(descriptors[k], row) == decoded_field(
            FieldDescriptorView { is_commit_timestamp: false, ..descriptors[k] },
            row,
        ),
{
}

/// Encoding and schema give one pair per descriptor, and the pair at each
/// place carries the column name of the descriptor at that place.
pub proof fn pairs_follow_descriptor_order(
    descriptors: Seq<FieldDescriptorView>,
    record: Seq<ValueView>,
)
    ensures
        encoded_pairs(descriptors, record).len() == descriptors.len(),
        schema_pairs(descriptors).len() == descriptors.len(),
        forall|i: int|
            0 <= i < descriptors.len() ==> (#[trigger] encoded_pairs(descriptors, record)[i]).0
                == descriptors[i].column_name,
        forall|i: int|
            0 <= i < descriptors.len() ==> (#[trigger] schema_pairs(descriptors)[i]).0
                == descriptors[i].column_name,
        forall|i: int|
            0 <= i < descriptors.len() ==> (#[trigger] schema_pairs(descriptors)[i]).1
                == logical_type_of(descriptors[i]),
{
}

/// The three plans agree with each other and with the conversions: at each
/// place they name the same column, the written cell is the placeholder
/// exactly where the plan says that the store supplies it, and reading goes
/// by the planned column and the declared type alone.
pub proof fn plans_agree_with_conversions(
    descriptors: Seq<FieldDescriptorView>,
    record: Seq<ValueView>,
    row: Seq<(Seq<char>, EncodedValueView)>,
    k: int,
)
    requires
        0 <= k < descriptors.len(),
    ensures
        write_plan(descriptors)[k].0 == schema_pairs(descriptors)[k].0,
        write_plan(descriptors)[k].0 == read_plan(descriptors)[k].1,
        encoded_pairs(descriptors, record)[k].0 == write_plan(descriptors)[k].0,
        encoded_pairs(descriptors, record)[k].1 == (match write_plan(descriptors)[k].1 {
            CellSource::ServerTime => EncodedValueView::ServerTime,
            CellSource::FieldValue => EncodedValueView::Data(record[k]),
        }),
        decoded_field(descriptors[k], row) == (match find_column(row, read_plan(descriptors)[k].1) {
            None => Err(
                MappingErrorView {
                    column: read_plan(descriptors)[k].1,
                    cause: MappingCause::ColumnNotFound,
                },
            ),
            Some(i) => converted(
                row[i].1,
                descriptors[k].declared_type,
                read_plan(descriptors)[k].1,
            ),
        }),
{
}

/// From declaration to pairs the order never changes: the pair at each place
/// of the encoding and of the schema belongs to the field declared at that
/// place, whatever the annotations of any field say.
pub proof fn pairs_follow_declaration_order(
    fields: Seq<FieldSpecView>,
    descriptors: Seq<FieldDescriptorView>,
    record: Seq<ValueView>,
)
    requires
        described_fields(fields) == Ok::<Seq<FieldDescriptorView>, GenerationErrorView>(
            descriptors,
        ),
    ensures
        encoded_pairs(descriptors, record).len() == fields.len(),
        schema_pairs(descriptors).len() == fields.len(),
        forall|i: int|
            0 <= i < fields.len() ==> described_field(#[trigger] fields[i]).is_ok()
                && encoded_pairs(descriptors, record)[i].0 == described_field(
                fields[i],
            )->Ok_0.column_name && schema_pairs(descriptors)[i].0 == described_field(
                fields[i],
            )->Ok_0.column_name,
{
    crate::descriptor::extraction_keeps_declaration_order(fields, descriptors);
}

} // verus!
