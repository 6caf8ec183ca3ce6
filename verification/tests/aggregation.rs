use treeframe::aggregate::{
    aggregate, gather_paths, partition_reports, AggregateError, DroppedFile, FileFailure,
    FileReport, PatternError,
};
use treeframe::array::{Column, ColumnValues};
use treeframe::assemble::BuildError;
use treeframe::frame::Frame;
use treeframe::kind::ScalarKind;
use treeframe::union::UnionError;

fn names(list: &[&str]) -> Vec<String> {
    list.iter().map(|s| s.to_string()).collect()
}

fn ints(name: &str, values: &[i32]) -> Column {
    Column { name: name.to_string(), values: ColumnValues::Int32(values.iter().map(|v| Some(*v)).collect()) }
}

fn good(path: &str, columns: Vec<Column>) -> FileReport {
    FileReport { path: path.to_string(), outcome: Ok(Frame::new(columns).unwrap()) }
}

fn unreadable(path: &str) -> FileReport {
    FileReport {
        path: path.to_string(),
        outcome: Err(FileFailure::Open { detail: "not a container file".to_string() }),
    }
}

#[test]
fn file_list_follows_the_pattern_order() {
    let gathered = gather_paths(vec![
        Ok(names(&["run2/a.root", "run2/b.root"])),
        Ok(Vec::new()),
        Ok(names(&["run1/z.root"])),
    ]);
    assert_eq!(gathered, Ok(names(&["run2/a.root", "run2/b.root", "run1/z.root"])));
}

#[test]
fn patterns_that_match_nothing_give_no_files() {
    assert_eq!(gather_paths(vec![Ok(Vec::new()), Ok(Vec::new())]), Ok(Vec::new()));
    assert_eq!(gather_paths(Vec::new()), Ok(Vec::new()));
}

#[test]
fn first_failing_pattern_is_fatal() {
    let gathered = gather_paths(vec![
        Ok(names(&["a.root"])),
        Err(PatternError::Malformed { position: 3, reason: "invalid range pattern".to_string() }),
        Err(PatternError::Unreadable { path: "/locked".to_string(), reason: "denied".to_string() }),
    ]);
    assert_eq!(
        gathered,
        Err(AggregateError::Pattern {
            index: 1,
            error: PatternError::Malformed { position: 3, reason: "invalid range pattern".to_string() }
        })
    );
}

#[test]
fn unreadable_file_is_left_out_of_the_aggregate() {
    let reports = vec![
        good("one.root", vec![ints("a", &[1, 2])]),
        unreadable("two.root"),
        good("three.root", vec![ints("a", &[3])]),
    ];
    let result = aggregate(reports).unwrap();
    assert_eq!(result.frame.columns(), &vec![ints("a", &[1, 2, 3])]);
    assert_eq!(
        result.dropped,
        vec![DroppedFile {
            path: "two.root".to_string(),
            failure: FileFailure::Open { detail: "not a container file".to_string() }
        }]
    );
}

#[test]
fn aggregate_of_files_with_different_branches() {
    let reports = vec![
        good("one.root", vec![ints("a", &[1, 2]), ints("b", &[10, 20])]),
        good("two.root", vec![ints("b", &[30, 40, 50]), ints("c", &[7, 8, 9])]),
    ];
    let result = aggregate(reports).unwrap();
    assert!(result.dropped.is_empty());
    assert_eq!(result.frame.height(), 5);
    assert_eq!(
        result.frame.columns(),
        &vec![
            Column { name: "a".to_string(), values: ColumnValues::Int32(vec![Some(1), Some(2), None, None, None]) },
            ints("b", &[10, 20, 30, 40, 50]),
            Column { name: "c".to_string(), values: ColumnValues::Int32(vec![None, None, Some(7), Some(8), Some(9)]) },
        ]
    );
}

#[test]
fn aggregate_without_usable_file_is_the_empty_frame() {
    let failures = vec![
        unreadable("one.root"),
        FileReport {
            path: "two.root".to_string(),
            outcome: Err(FileFailure::TreeNotFound { detail: "no tree 'events'".to_string() }),
        },
        FileReport {
            path: "three.root".to_string(),
            outcome: Err(FileFailure::Build(BuildError::Decode {
                branch: "x".to_string(),
                detail: "corrupt".to_string(),
            })),
        },
    ];
    let result = aggregate(failures).unwrap();
    assert_eq!(result.frame, Frame::empty());
    assert_eq!(result.dropped.len(), 3);
    assert_eq!(result.dropped[1].path, "two.root");
    let nothing = aggregate(Vec::new()).unwrap();
    assert_eq!(nothing.frame, Frame::empty());
    assert!(nothing.dropped.is_empty());
}

#[test]
fn reports_are_parted_in_order() {
    let (frames, dropped) = partition_reports(vec![
        unreadable("0"),
        good("1", vec![ints("a", &[1])]),
        unreadable("2"),
        good("3", vec![ints("b", &[2])]),
    ]);
    assert_eq!(frames.len(), 2);
    assert_eq!(frames[0].columns(), &vec![ints("a", &[1])]);
    assert_eq!(frames[1].columns(), &vec![ints("b", &[2])]);
    assert_eq!(dropped.iter().map(|d| d.path.as_str()).collect::<Vec<_>>(), vec!["0", "2"]);
}

#[test]
fn kind_conflict_between_files_fails_the_aggregation() {
    let reports = vec![
        good("one.root", vec![ints("a", &[1])]),
        good(
            "two.root",
            vec![Column { name: "a".to_string(), values: ColumnValues::Int64(vec![Some(2)]) }],
        ),
    ];
    assert_eq!(
        aggregate(reports),
        Err(AggregateError::Union(UnionError::KindConflict {
            column: "a".to_string(),
            expected: ScalarKind::Int32,
            found: ScalarKind::Int64
        }))
    );
}
