use treeframe::aggregate::{AggregateError, FileFailure, PatternError};
use treeframe::assemble::BuildError;
use treeframe::export::ExportError;
use treeframe::frame::FrameError;
use treeframe::kind::ScalarKind;
use treeframe::plan::{Diagnostic, ReadError, SkipReason};
use treeframe::text::write_decimal;
use treeframe::union::UnionError;

#[test]
fn diagnostics_say_what_was_skipped() {
    let missing = Diagnostic { branch: "pt".to_string(), reason: SkipReason::NotFound };
    assert_eq!(missing.message(), "Branch 'pt' not found, skipping");
    let unsupported = Diagnostic {
        branch: "hits".to_string(),
        reason: SkipReason::Unsupported { tag: "vector<int>".to_string() },
    };
    assert_eq!(unsupported.message(), "Unsupported branch type: vector<int>, skipping");
}

#[test]
fn read_errors_name_the_alternatives() {
    let error = ReadError::BranchNotFound {
        branch: "pt".to_string(),
        available: vec!["px".to_string(), "py".to_string()],
    };
    assert_eq!(error.message(), "Branch 'pt' not found; available branches are: [px, py]");
    let empty = ReadError::BranchNotFound { branch: "pt".to_string(), available: Vec::new() };
    assert_eq!(empty.message(), "Branch 'pt' not found; available branches are: []");
    let unsupported = ReadError::Unsupported { tag: "TLorentzVector".to_string() };
    assert_eq!(unsupported.message(), "Unsupported branch type: TLorentzVector");
}

#[test]
fn frame_errors_name_the_column() {
    assert_eq!(
        FrameError::DuplicateName { name: "a".to_string() }.message(),
        "column with name 'a' has more than one occurrence"
    );
    assert_eq!(
        FrameError::LengthMismatch { name: "b".to_string(), expected: 3, found: 1 }.message(),
        "column 'b' has length 1 while the first column has length 3"
    );
}

#[test]
fn build_errors_name_the_branch() {
    assert_eq!(
        BuildError::Decode { branch: "x".to_string(), detail: "truncated".to_string() }.message(),
        "Branch 'x' could not be decoded: truncated"
    );
    assert_eq!(
        BuildError::OutcomeKind {
            branch: "x".to_string(),
            planned: ScalarKind::Float32,
            supplied: ScalarKind::UInt64
        }
        .message(),
        "Branch 'x' was planned as float and decoded as uint64_t"
    );
    assert_eq!(
        BuildError::OutcomeCount { planned: 12, supplied: 9 }.message(),
        "9 branches were decoded where 12 were planned"
    );
    assert_eq!(
        BuildError::NotAFrame(FrameError::DuplicateName { name: "a".to_string() }).message(),
        "column with name 'a' has more than one occurrence"
    );
}

#[test]
fn union_error_names_both_kinds() {
    let error = UnionError::KindConflict {
        column: "e".to_string(),
        expected: ScalarKind::Float64,
        found: ScalarKind::Utf8String,
    };
    assert_eq!(error.message(), "column 'e' is double in one frame and string in another");
}

#[test]
fn export_errors_have_their_messages() {
    assert_eq!(
        ExportError::AlreadyExists { path: "out.parquet".to_string() }.message(),
        "File exists, use overwrite=True"
    );
    assert_eq!(
        ExportError::InvalidCompression { name: "rar".to_string() }.message(),
        "Invalid compression type"
    );
    assert_eq!(ExportError::Write { detail: "disk full".to_string() }.message(), "disk full");
    assert_eq!(
        ExportError::Build(BuildError::Decode {
            branch: "x".to_string(),
            detail: "truncated".to_string()
        })
        .message(),
        "Branch 'x' could not be decoded: truncated"
    );
}

#[test]
fn aggregate_errors_have_their_messages() {
    let malformed = PatternError::Malformed { position: 4, reason: "invalid range pattern".to_string() };
    assert_eq!(malformed.message(), "Pattern syntax error near position 4: invalid range pattern");
    let unreadable =
        PatternError::Unreadable { path: "/data/x".to_string(), reason: "denied".to_string() };
    assert_eq!(unreadable.message(), "attempting to read `/data/x` resulted in an error: denied");
    assert_eq!(
        AggregateError::Pattern { index: 0, error: malformed }.message(),
        "Pattern syntax error near position 4: invalid range pattern"
    );
    assert_eq!(
        AggregateError::Union(UnionError::KindConflict {
            column: "e".to_string(),
            expected: ScalarKind::Int32,
            found: ScalarKind::Int64
        })
        .message(),
        "column 'e' is int32_t in one frame and int64_t in another"
    );
}

#[test]
fn file_failures_have_their_messages() {
    assert_eq!(FileFailure::Open { detail: "no such file".to_string() }.message(), "no such file");
    assert_eq!(
        FileFailure::TreeNotFound { detail: "no tree 'events'".to_string() }.message(),
        "no tree 'events'"
    );
    assert_eq!(
        FileFailure::Build(BuildError::OutcomeCount { planned: 1, supplied: 0 }).message(),
        "0 branches were decoded where 1 were planned"
    );
}

#[test]
fn numbers_are_written_in_decimal() {
    assert_eq!(write_decimal(0), "0");
    assert_eq!(write_decimal(7), "7");
    assert_eq!(write_decimal(10), "10");
    assert_eq!(write_decimal(409), "409");
    assert_eq!(write_decimal(1234567890), "1234567890");
    assert_eq!(write_decimal(usize::MAX), usize::MAX.to_string());
    for n in 0..2000usize {
        assert_eq!(write_decimal(n), n.to_string());
    }
}

#[test]
fn pattern_error_reads_as_the_pattern_library_words_it() {
    let theirs = glob::Pattern::new("a[").unwrap_err();
    let ours = PatternError::Malformed { position: theirs.pos, reason: theirs.msg.to_string() };
    assert_eq!(ours.message(), theirs.to_string());
    let theirs = glob::Pattern::new("src/***/x").unwrap_err();
    let ours = PatternError::Malformed { position: theirs.pos, reason: theirs.msg.to_string() };
    assert_eq!(ours.message(), theirs.to_string());
}
