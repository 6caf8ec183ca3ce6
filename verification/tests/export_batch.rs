use treeframe::array::{Column, ColumnValues, TypedArray};
use treeframe::assemble::{assemble_frame, BuildError, DecodeError};
use treeframe::export::{assemble_batch, batch_schema, has_rows_to_write};
use treeframe::frame::{Field, FrameError};
use treeframe::kind::ScalarKind;
use treeframe::plan::PlannedRead;

fn read(branch: &str, kind: ScalarKind) -> PlannedRead {
    PlannedRead { branch: branch.to_string(), kind }
}

fn field(name: &str, kind: ScalarKind) -> Field {
    Field { name: name.to_string(), kind }
}

fn ints(name: &str, values: &[i32]) -> Column {
    Column { name: name.to_string(), values: ColumnValues::Int32(values.iter().map(|v| Some(*v)).collect()) }
}

#[test]
fn batch_holds_the_decoded_branches_in_selection_order() {
    let reads = vec![read("c", ScalarKind::Utf8String), read("a", ScalarKind::Int32)];
    let outcomes = vec![
        Ok(TypedArray::Utf8(vec!["x".to_string(), "y".to_string()])),
        Ok(TypedArray::Int32(vec![1, 2])),
    ];
    let columns = assemble_batch(&reads, outcomes).unwrap();
    assert_eq!(
        columns,
        vec![
            Column {
                name: "c".to_string(),
                values: ColumnValues::Utf8(vec![Some("x".to_string()), Some("y".to_string())]),
            },
            ints("a", &[1, 2]),
        ]
    );
    assert_eq!(
        batch_schema(&columns),
        vec![field("c", ScalarKind::Utf8String), field("a", ScalarKind::Int32)]
    );
    assert!(has_rows_to_write(&columns));
}

#[test]
fn branch_selected_twice_is_exported_twice() {
    let reads = vec![read("a", ScalarKind::Int32), read("a", ScalarKind::Int32)];
    let outcomes = || vec![Ok(TypedArray::Int32(vec![1, 2])), Ok(TypedArray::Int32(vec![1, 2]))];
    let columns = assemble_batch(&reads, outcomes()).unwrap();
    assert_eq!(columns, vec![ints("a", &[1, 2]), ints("a", &[1, 2])]);
    assert_eq!(
        batch_schema(&columns),
        vec![field("a", ScalarKind::Int32), field("a", ScalarKind::Int32)]
    );
    assert_eq!(
        assemble_frame(&reads, outcomes()),
        Err(BuildError::NotAFrame(FrameError::DuplicateName { name: "a".to_string() }))
    );
}

#[test]
fn batch_without_columns_has_no_rows_to_write() {
    let columns = assemble_batch(&Vec::new(), Vec::new()).unwrap();
    assert!(columns.is_empty());
    assert!(batch_schema(&columns).is_empty());
    assert!(!has_rows_to_write(&columns));
    assert!(has_rows_to_write(&vec![ints("a", &[])]));
}

#[test]
fn branches_of_different_length_make_no_batch() {
    let reads = vec![
        read("a", ScalarKind::Int32),
        read("b", ScalarKind::Int32),
        read("c", ScalarKind::Int32),
    ];
    let outcomes = vec![
        Ok(TypedArray::Int32(vec![1, 2])),
        Ok(TypedArray::Int32(vec![1, 2])),
        Ok(TypedArray::Int32(vec![1, 2, 3])),
    ];
    assert_eq!(
        assemble_batch(&reads, outcomes),
        Err(BuildError::NotAFrame(FrameError::LengthMismatch {
            name: "c".to_string(),
            expected: 2,
            found: 3
        }))
    );
}

#[test]
fn batch_fails_where_the_outcomes_do_not_answer_the_reads() {
    let reads = vec![read("a", ScalarKind::Int32), read("b", ScalarKind::Float64)];
    assert_eq!(
        assemble_batch(&reads, vec![Ok(TypedArray::Int32(vec![1]))]),
        Err(BuildError::OutcomeCount { planned: 2, supplied: 1 })
    );
    assert_eq!(
        assemble_batch(
            &reads,
            vec![
                Ok(TypedArray::Int32(vec![1])),
                Err(DecodeError { detail: "truncated".to_string() })
            ]
        ),
        Err(BuildError::Decode { branch: "b".to_string(), detail: "truncated".to_string() })
    );
    assert_eq!(
        assemble_batch(
            &reads,
            vec![Ok(TypedArray::Int32(vec![1])), Ok(TypedArray::Float32(vec![0]))]
        ),
        Err(BuildError::OutcomeKind {
            branch: "b".to_string(),
            planned: ScalarKind::Float64,
            supplied: ScalarKind::Float32
        })
    );
}

fn to_arrow(columns: &Vec<Column>) -> Result<arrow::record_batch::RecordBatch, arrow::error::ArrowError> {
    let fields: Vec<arrow::datatypes::Field> = batch_schema(columns)
        .into_iter()
        .map(|f| {
            assert_eq!(f.kind, ScalarKind::Int32);
            arrow::datatypes::Field::new(f.name, arrow::datatypes::DataType::Int32, false)
        })
        .collect();
    let arrays: Vec<arrow::array::ArrayRef> = columns
        .iter()
        .map(|c| -> arrow::array::ArrayRef {
            match &c.values {
                ColumnValues::Int32(v) => std::sync::Arc::new(arrow::array::Int32Array::from(v.clone())),
                other => panic!("not used here: {:?}", other),
            }
        })
        .collect();
    arrow::record_batch::RecordBatch::try_new(
        std::sync::Arc::new(arrow::datatypes::Schema::new(fields)),
        arrays,
    )
}

#[test]
fn writer_library_takes_what_the_batch_assembly_gives() {
    let twice = vec![read("a", ScalarKind::Int32), read("a", ScalarKind::Int32)];
    let columns = assemble_batch(
        &twice,
        vec![Ok(TypedArray::Int32(vec![1, 2])), Ok(TypedArray::Int32(vec![1, 2]))],
    )
    .unwrap();
    let batch = to_arrow(&columns).unwrap();
    assert_eq!(batch.num_columns(), 2);
    assert_eq!(batch.num_rows(), 2);
    assert_eq!(batch.schema().field(0).name(), "a");
    assert_eq!(batch.schema().field(1).name(), "a");
}

#[test]
fn writer_library_refuses_what_the_batch_assembly_refuses() {
    assert!(to_arrow(&vec![ints("a", &[1, 2]), ints("b", &[1])]).is_err());
    let reads = vec![read("a", ScalarKind::Int32), read("b", ScalarKind::Int32)];
    let outcomes = vec![Ok(TypedArray::Int32(vec![1, 2])), Ok(TypedArray::Int32(vec![1]))];
    assert!(assemble_batch(&reads, outcomes).is_err());
    let nothing: Vec<Column> = Vec::new();
    assert!(to_arrow(&nothing).is_err());
    assert!(!has_rows_to_write(&nothing));
}
