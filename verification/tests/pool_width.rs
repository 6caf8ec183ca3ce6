use rayon::prelude::{IntoParallelRefIterator, ParallelIterator};
use rayon::ThreadPoolBuilder;

use treeframe::aggregate::{aggregate, Aggregate, FileFailure, FileReport};
use treeframe::array::{Column, ColumnValues, TypedArray};
use treeframe::assemble::assemble_frame;
use treeframe::kind::ScalarKind;
use treeframe::plan::PlannedRead;
use treeframe::pool::{default_width, PoolAction, PoolRecord};

/// Stands for reading one file: file `index` has `index % 4` rows, the
/// columns `common` and `own<index % 3>`, and every seventh file is
/// unreadable.
fn read_file(index: usize) -> FileReport {
    let path = format!("file{}.root", index);
    if index % 7 == 3 {
        return FileReport { path, outcome: Err(FileFailure::Open { detail: "unreadable".to_string() }) };
    }
    let rows = index % 4;
    let reads = vec![
        PlannedRead { branch: "common".to_string(), kind: ScalarKind::UInt64 },
        PlannedRead { branch: format!("own{}", index % 3), kind: ScalarKind::Float64 },
    ];
    let outcomes = vec![
        Ok(TypedArray::UInt64((0..rows).map(|r| (index * 10 + r) as u64).collect())),
        Ok(TypedArray::Float64((0..rows).map(|r| ((index + r) as f64 * 0.5).to_bits()).collect())),
    ];
    FileReport { path, outcome: assemble_frame(&reads, outcomes).map_err(FileFailure::Build) }
}

fn aggregate_with_width(width: usize, files: &Vec<usize>) -> Aggregate {
    let pool = ThreadPoolBuilder::new().num_threads(width).build().unwrap();
    let reports: Vec<FileReport> =
        pool.install(|| files.par_iter().map(|index| read_file(*index)).collect());
    aggregate(reports).unwrap()
}

#[test]
fn width_of_the_pool_does_not_change_the_aggregate() {
    let files: Vec<usize> = (0..40).collect();
    let sequential: Vec<FileReport> = files.iter().map(|index| read_file(*index)).collect();
    let expected = aggregate(sequential).unwrap();

    let record = PoolRecord::new();
    let narrow = match record.on_set_width(1) {
        PoolAction::Install { width } => aggregate_with_width(width, &files),
        PoolAction::Keep => panic!("a requested width installs a pool"),
    };
    let default = aggregate_with_width(default_width(8), &files);
    let wide = aggregate_with_width(16, &files);

    assert_eq!(narrow, expected);
    assert_eq!(default, expected);
    assert_eq!(wide, expected);
    assert_eq!(expected.dropped.len(), 6);
    assert_eq!(expected.frame.width(), 4);
    assert_eq!(expected.frame.height(), (0..40).filter(|i| i % 7 != 3).map(|i| i % 4).sum::<usize>());
}

#[test]
fn rows_follow_the_file_list_whatever_the_width() {
    let files: Vec<usize> = vec![9, 2, 5, 1];
    let result = aggregate_with_width(3, &files);
    assert_eq!(
        result.frame.column("common").unwrap().values,
        ColumnValues::UInt64(vec![Some(90), Some(20), Some(21), Some(50), Some(10)])
    );
    assert_eq!(
        result.frame.schema().iter().map(|f| f.name.clone()).collect::<Vec<_>>(),
        vec!["common".to_string(), "own0".to_string(), "own2".to_string(), "own1".to_string()]
    );
}

#[test]
fn copy_of_a_frame_equals_the_frame() {
    let result = aggregate_with_width(2, &vec![1, 2, 3]);
    let copy = result.frame.clone();
    assert_eq!(copy, result.frame);
    let column = Column { name: "c".to_string(), values: ColumnValues::Utf8(vec![Some("x".to_string()), None]) };
    assert_eq!(column.duplicate(), column);
}
