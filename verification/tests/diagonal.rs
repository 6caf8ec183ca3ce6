use treeframe::array::{Column, ColumnValues};
use treeframe::frame::{Field, Frame};
use treeframe::kind::ScalarKind;
use treeframe::union::{diagonal_union, merged_schema, UnionError};

fn ints(name: &str, values: &[i32]) -> Column {
    Column { name: name.to_string(), values: ColumnValues::Int32(values.iter().map(|v| Some(*v)).collect()) }
}

fn texts(name: &str, values: &[&str]) -> Column {
    Column {
        name: name.to_string(),
        values: ColumnValues::Utf8(values.iter().map(|v| Some(v.to_string())).collect()),
    }
}

fn field(name: &str, kind: ScalarKind) -> Field {
    Field { name: name.to_string(), kind }
}

#[test]
fn union_of_two_files_with_overlapping_columns() {
    let first = Frame::new(vec![ints("a", &[1, 2]), texts("b", &["p", "q"])]).unwrap();
    let second = Frame::new(vec![texts("b", &["r", "s", "t"]), ints("c", &[7, 8, 9])]).unwrap();
    let merged = diagonal_union(&vec![first, second]).unwrap();
    assert_eq!(merged.width(), 3);
    assert_eq!(merged.height(), 5);
    assert_eq!(
        merged.columns(),
        &vec![
            Column {
                name: "a".to_string(),
                values: ColumnValues::Int32(vec![Some(1), Some(2), None, None, None]),
            },
            texts("b", &["p", "q", "r", "s", "t"]),
            Column {
                name: "c".to_string(),
                values: ColumnValues::Int32(vec![None, None, Some(7), Some(8), Some(9)]),
            },
        ]
    );
}

#[test]
fn union_of_no_frames_is_the_empty_frame() {
    let merged = diagonal_union(&Vec::new()).unwrap();
    assert_eq!(merged, Frame::empty());
    assert_eq!(merged.width(), 0);
    assert_eq!(merged.height(), 0);
}

#[test]
fn union_of_one_frame_is_that_frame() {
    let only = Frame::new(vec![ints("a", &[1, 2]), texts("b", &["p", "q"])]).unwrap();
    let merged = diagonal_union(&vec![Frame::new(vec![ints("a", &[1, 2]), texts("b", &["p", "q"])]).unwrap()]).unwrap();
    assert_eq!(merged, only);
}

#[test]
fn union_keeps_frame_order_and_first_appearance_order() {
    let first = Frame::new(vec![ints("z", &[1])]).unwrap();
    let second = Frame::new(vec![ints("a", &[2]), ints("z", &[3])]).unwrap();
    let third = Frame::new(vec![ints("m", &[4, 5]), ints("a", &[6, 7])]).unwrap();
    let frames = vec![first, second, third];
    assert_eq!(
        merged_schema(&frames),
        vec![field("z", ScalarKind::Int32), field("a", ScalarKind::Int32), field("m", ScalarKind::Int32)]
    );
    let merged = diagonal_union(&frames).unwrap();
    assert_eq!(
        merged.columns(),
        &vec![
            Column { name: "z".to_string(), values: ColumnValues::Int32(vec![Some(1), Some(3), None, None]) },
            Column { name: "a".to_string(), values: ColumnValues::Int32(vec![None, Some(2), Some(6), Some(7)]) },
            Column { name: "m".to_string(), values: ColumnValues::Int32(vec![None, None, Some(4), Some(5)]) },
        ]
    );
}

#[test]
fn frame_without_columns_adds_no_rows() {
    let first = Frame::new(vec![ints("a", &[1, 2])]).unwrap();
    let merged = diagonal_union(&vec![Frame::empty(), first, Frame::empty()]).unwrap();
    assert_eq!(merged.columns(), &vec![ints("a", &[1, 2])]);
}

#[test]
fn nulls_of_an_input_stay_null() {
    let first = Frame::new(vec![Column {
        name: "a".to_string(),
        values: ColumnValues::UInt64(vec![None, Some(5)]),
    }])
    .unwrap();
    let second = Frame::new(vec![Column {
        name: "a".to_string(),
        values: ColumnValues::UInt64(vec![Some(6), None]),
    }])
    .unwrap();
    let merged = diagonal_union(&vec![first, second]).unwrap();
    assert_eq!(
        merged.column("a").unwrap().values,
        ColumnValues::UInt64(vec![None, Some(5), Some(6), None])
    );
}

#[test]
fn same_name_with_another_kind_is_a_conflict() {
    let first = Frame::new(vec![ints("a", &[1]), ints("x", &[1])]).unwrap();
    let second = Frame::new(vec![ints("x", &[2])]).unwrap();
    let third = Frame::new(vec![texts("x", &["3"]), texts("a", &["4"])]).unwrap();
    assert_eq!(
        diagonal_union(&vec![first, second, third]),
        Err(UnionError::KindConflict {
            column: "a".to_string(),
            expected: ScalarKind::Int32,
            found: ScalarKind::Utf8String
        })
    );
}

#[test]
fn every_kind_is_null_filled_in_its_own_kind() {
    let columns = vec![
        Column { name: "f".to_string(), values: ColumnValues::Float32(vec![Some(1.5f32.to_bits())]) },
        Column { name: "d".to_string(), values: ColumnValues::Float64(vec![Some(2.5f64.to_bits())]) },
        Column { name: "i".to_string(), values: ColumnValues::Int32(vec![Some(-1)]) },
        Column { name: "l".to_string(), values: ColumnValues::Int64(vec![Some(-2)]) },
        Column { name: "u".to_string(), values: ColumnValues::UInt32(vec![Some(3)]) },
        Column { name: "v".to_string(), values: ColumnValues::UInt64(vec![Some(4)]) },
        Column { name: "s".to_string(), values: ColumnValues::Utf8(vec![Some("t".to_string())]) },
    ];
    let full = Frame::new(columns).unwrap();
    let other = Frame::new(vec![ints("other", &[9, 9])]).unwrap();
    let merged = diagonal_union(&vec![other, full]).unwrap();
    assert_eq!(merged.height(), 3);
    assert_eq!(merged.column("f").unwrap().values, ColumnValues::Float32(vec![None, None, Some(1.5f32.to_bits())]));
    assert_eq!(merged.column("d").unwrap().values, ColumnValues::Float64(vec![None, None, Some(2.5f64.to_bits())]));
    assert_eq!(merged.column("i").unwrap().values, ColumnValues::Int32(vec![None, None, Some(-1)]));
    assert_eq!(merged.column("l").unwrap().values, ColumnValues::Int64(vec![None, None, Some(-2)]));
    assert_eq!(merged.column("u").unwrap().values, ColumnValues::UInt32(vec![None, None, Some(3)]));
    assert_eq!(merged.column("v").unwrap().values, ColumnValues::UInt64(vec![None, None, Some(4)]));
    assert_eq!(merged.column("s").unwrap().values, ColumnValues::Utf8(vec![None, None, Some("t".to_string())]));
    assert_eq!(merged.column("other").unwrap().values, ColumnValues::Int32(vec![Some(9), Some(9), None]));
}
