//! Aggregation over many files: the list of files to read, and the one frame
//! made of what the files gave.
//!
//! Expanding a path pattern and reading a file are the caller's part. The
//! caller reports, in order, what each pattern matched and what each file
//! gave. A pattern that fails is fatal. A file that fails is not: it is left
//! out, and the aggregate is the diagonal union of the frames of the files
//! that succeeded, in the order of the file list. That order is the order of
//! the reports, whatever order the files were read in.

use vstd::prelude::*;
use vstd::string::StringExecFns;
use crate::assemble::BuildError;
use crate::frame::Frame;
use crate::search::{first_where, is_first, lemma_first_where};
use crate::text::{decimal, names_view, write_decimal};
use crate::union::{diagonal_union, frame_views, lemma_union_of_none, union_of, UnionError};

verus! {

/// Why a path pattern gave no list of files.
#[derive(Clone, Debug, PartialEq, Eq)]
pub enum PatternError {
    /// The pattern is not well formed.
    Malformed { position: usize, reason: String },
    /// A path that the pattern led to could not be read.
    Unreadable { path: String, reason: String },
}

/// Why a file gave no frame.
#[derive(Clone, Debug, PartialEq, Eq)]
pub enum FileFailure {
    /// The file could not be opened or is not a container file.
    Open { detail: String },
    /// The file has no tree of the requested name.
    TreeNotFound { detail: String },
    /// The tree was found, and building its frame failed.
    Build(BuildError),
}

/// What reading one file gave.
#[derive(Debug, PartialEq, Eq)]
pub struct FileReport {
    pub path: String,
    pub outcome: Result<Frame, FileFailure>,
}

/// A file that was left out of an aggregate, and why.
#[derive(Clone, Debug, PartialEq, Eq)]
pub struct DroppedFile {
    pub path: String,
    pub failure: FileFailure,
}

/// The aggregate of many files.
#[derive(Clone, Debug, PartialEq, Eq)]
pub struct Aggregate {
    /// The diagonal union of the frames of the files that succeeded.
    pub frame: Frame,
    /// The files that failed, in the order of the file list.
    pub dropped: Vec<DroppedFile>,
}

/// Why an aggregation failed.
#[derive(Clone, Debug, PartialEq, Eq)]
pub enum AggregateError {
    /// The pattern at this position of the pattern list failed.
    Pattern { index: usize, error: PatternError },
    /// Two files have a column of one name and different kinds.
    Union(UnionError),
}

impl PatternError {
    /// The text of this error.
    pub open spec fn text(self) -> Seq<char> {
        match self {
            PatternError::Malformed { position, reason } => "Pattern syntax error near position "@
                + decimal(position as nat) + ": "@ + reason@,
            PatternError::Unreadable { path, reason } => "attempting to read `"@ + path@
                + "` resulted in an error: "@ + reason@,
        }
    }

    /// A message for the caller.
    pub fn message(&self) -> (line: String)
        ensures
            line@ == self.text(),
    {
        match self {
            PatternError::Malformed { position, reason } => {
                let mut line = String::from_str("Pattern syntax error near position ");
                line.append(write_decimal(*position).as_str());
                line.append(": ");
                line.append(reason.as_str());
                line
            },
            PatternError::Unreadable { path, reason } => {
                let mut line = String::from_str("attempting to read `");
                line.append(path.as_str());
                line.append("` resulted in an error: ");
                line.append(reason.as_str());
                line
            },
        }
    }
}

impl FileFailure {
    /// The text of this failure.
    pub open spec fn text(self) -> Seq<char> {
        match self {
            FileFailure::Open { detail } => detail@,
            FileFailure::TreeNotFound { detail } => detail@,
            FileFailure::Build(e) => e@.text(),
        }
    }

    /// A message for the caller.
    pub fn message(&self) -> (line: String)
        ensures
            line@ == self.text(),
    {
        match self {
            FileFailure::Open { detail } => detail.clone(),
            FileFailure::TreeNotFound { detail } => detail.clone(),
            FileFailure::Build(e) => e.message(),
        }
    }
}

impl AggregateError {
    /// The text of this error.
    pub open spec fn text(self) -> Seq<char> {
        match self {
            AggregateError::Pattern { error, .. } => error.text(),
            AggregateError::Union(e) => e@.text(),
        }
    }

    /// A message for the caller.
    pub fn message(&self) -> (line: String)
        ensures
            line@ == self.text(),
    {
        match self {
            AggregateError::Pattern { error, .. } => error.message(),
            AggregateError::Union(e) => e.message(),
        }
    }
}

/// All lists, one after the other.
pub open spec fn concatenated(lists: Seq<Seq<Seq<char>>>) -> Seq<Seq<char>>
    decreases lists.len(),
{
    if lists.len() == 0 {
        Seq::empty()
    } else {
        concatenated(lists.drop_last()) + lists.last()
    }
}

/// The paths that each expansion matched; none for one that failed.
pub open spec fn matched_lists(expansions: Seq<Result<Vec<String>, PatternError>>) -> Seq<
    Seq<Seq<char>>,
> {
    expansions.map_values(
        |e: Result<Vec<String>, PatternError>|
            match e {
                Ok(paths) => names_view(paths@),
                Err(_) => Seq::empty(),
            },
    )
}

/// Makes the file list from what each pattern matched, pattern after
/// pattern. A pattern that matched nothing adds nothing. The first pattern
/// that failed makes the whole list fail.
pub fn gather_paths(expansions: Vec<Result<Vec<String>, PatternError>>) -> (gathered: Result<
    Vec<String>,
    AggregateError,
>)
    ensures
        match first_where(expansions@.len() as int, |i: int| expansions@[i] is Err) {
            Some(i) => gathered == Err::<Vec<String>, AggregateError>(
                AggregateError::Pattern { index: i as usize, error: expansions@[i]->Err_0 },
            ),
            None => gathered matches Ok(paths) && names_view(paths@) == concatenated(
                matched_lists(expansions@),
            ),
        },
{
    let ghost failed = |i: int| expansions@[i] is Err;
    let ghost lists = matched_lists(expansions@);
    let n = expansions.len();
    let mut paths: Vec<String> = Vec::new();
    let mut i: usize = 0;
    assert(lists.take(0) =~= Seq::<Seq<Seq<char>>>::empty());
    for expansion in it: expansions
        invariant
            it.seq() == expansions@,
            i == it.index(),
            n == expansions@.len(),
            failed == |i: int| expansions@[i] is Err,
            lists == matched_lists(expansions@),
            forall|k: int| 0 <= k < i ==> !#[trigger] failed(k),
            names_view(paths@) == concatenated(lists.take(i as int)),
    {
        proof {
            assert(lists.take(i + 1).drop_last() =~= lists.take(i as int));
        }
        match expansion {
            Err(error) => {
                proof {
                    assert(is_first(n as int, failed, i as int));
                    lemma_first_where(n as int, failed);
                }
                return Err(AggregateError::Pattern { index: i, error });
            },
            Ok(mut matched) => {
                let ghost before = names_view(paths@);
                let ghost added = names_view(matched@);
                paths.append(&mut matched);
                assert(names_view(paths@) =~= before + added);
            },
        }
        i = i + 1;
    }
    proof {
        lemma_first_where(n as int, failed);
        assert(lists.take(n as int) =~= lists);
    }
    Ok(paths)
}

/// The frame of a report, if the file gave one.
pub open spec fn frame_of_report(report: FileReport) -> Option<Frame> {
    match report.outcome {
        Ok(frame) => Some(frame),
        Err(_) => None,
    }
}

/// The record of a report's failure, if the file failed.
pub open spec fn drop_of_report(report: FileReport) -> Option<DroppedFile> {
    match report.outcome {
        Ok(_) => None,
        Err(failure) => Some(DroppedFile { path: report.path, failure }),
    }
}

/// The frames of the files that succeeded, in the order of the reports.
pub open spec fn surviving(reports: Seq<FileReport>) -> Seq<Frame> {
    reports.filter_map(|r: FileReport| frame_of_report(r))
}

/// The files that failed, in the order of the reports.
pub open spec fn dropped(reports: Seq<FileReport>) -> Seq<DroppedFile> {
    reports.filter_map(|r: FileReport| drop_of_report(r))
}

/// Parts the reports into the frames that were built and the files that
/// failed, each in the order of the reports.
pub fn partition_reports(reports: Vec<FileReport>) -> (parts: (Vec<Frame>, Vec<DroppedFile>))
    ensures
        parts.0@ == surviving(reports@),
        parts.1@ == dropped(reports@),
{
    let ghost keep = |r: FileReport| frame_of_report(r);
    let ghost lose = |r: FileReport| drop_of_report(r);
    let mut frames: Vec<Frame> = Vec::new();
    let mut failures: Vec<DroppedFile> = Vec::new();
    for report in it: reports
        invariant
            it.seq() == reports@,
            keep == |r: FileReport| frame_of_report(r),
            lose == |r: FileReport| drop_of_report(r),
            frames@ == reports@.take(it.index() as int).filter_map(keep),
            failures@ == reports@.take(it.index() as int).filter_map(lose),
    {
        proof {
            reports@.lemma_filter_map_take_succ(keep, it.index() as int);
            reports@.lemma_filter_map_take_succ(lose, it.index() as int);
        }
        let FileReport { path, outcome } = report;
        match outcome {
            Ok(frame) => {
                frames.push(frame);
            },
            Err(failure) => {
                failures.push(DroppedFile { path, failure });
            },
        }
    }
    assert(reports@.take(reports@.len() as int) =~= reports@);
    (frames, failures)
}

/// Combines what the files gave into one frame. Files that failed are left
/// out and listed; they never make the aggregation fail. If no file gave a
/// frame, the aggregate is the frame without columns and rows.
pub fn aggregate(reports: Vec<FileReport>) -> (outcome: Result<Aggregate, AggregateError>)
    ensures
        match union_of(frame_views(surviving(reports@))) {
            Ok(merged) => outcome matches Ok(a) && a.frame@ == merged && a.frame@.wf()
                && a.dropped@ == dropped(reports@),
            Err(conflict) => outcome matches Err(AggregateError::Union(e)) && e@ == conflict,
        },
{
    let (frames, failures) = partition_reports(reports);
    match diagonal_union(&frames) {
        Ok(frame) => Ok(Aggregate { frame, dropped: failures }),
        Err(e) => Err(AggregateError::Union(e)),
    }
}

/// What is kept of two lists, one behind the other, is what is kept of the
/// first and behind it what is kept of the second.
proof fn lemma_filter_map_add<A, B>(a: Seq<A>, b: Seq<A>, f: spec_fn(A) -> Option<B>)
    ensures
        (a + b).filter_map(f) == a.filter_map(f) + b.filter_map(f),
    decreases b.len(),
{
    if b.len() == 0 {
        assert(a.filter_map(f) + b.filter_map(f) =~= a.filter_map(f));
    } else {
        assert((a + b).drop_last() =~= a + b.drop_last());
        lemma_filter_map_add(a, b.drop_last(), f);
    }
}

/// Aggregation is best effort: a file that failed, wherever it stands in the
/// file list, changes neither the frames that go into the aggregate nor their
/// order, and so not the aggregate. It is listed among the dropped files.
pub proof fn lemma_failed_file_changes_nothing(reports: Seq<FileReport>, i: int, failed: FileReport)
    requires
        0 <= i <= reports.len(),
        failed.outcome is Err,
    ensures
        surviving(reports.insert(i, failed)) == surviving(reports),
        dropped(reports.insert(i, failed)).len() == dropped(reports).len() + 1,
        dropped(reports.insert(i, failed)).contains(
            DroppedFile { path: failed.path, failure: failed.outcome->Err_0 },
        ),
{
    let keep = |r: FileReport| frame_of_report(r);
    let lose = |r: FileReport| drop_of_report(r);
    let head = reports.take(i);
    let tail = reports.skip(i);
    let one = seq![failed];
    assert(reports.insert(i, failed) =~= head + one + tail);
    assert(reports =~= head + tail);
    Seq::lemma_filter_map_singleton(failed, keep);
    Seq::lemma_filter_map_singleton(failed, lose);
    assert(one.filter_map(lose) =~= seq![
        DroppedFile { path: failed.path, failure: failed.outcome->Err_0 },
    ]);
    lemma_filter_map_add(head + one, tail, keep);
    lemma_filter_map_add(head, one, keep);
    lemma_filter_map_add(head, tail, keep);
    lemma_filter_map_add(head + one, tail, lose);
    lemma_filter_map_add(head, one, lose);
    lemma_filter_map_add(head, tail, lose);
    let listed = dropped(reports.insert(i, failed));
    assert(listed =~= head.filter_map(lose) + one.filter_map(lose) + tail.filter_map(lose));
    assert(listed[head.filter_map(lose).len() as int] == one.filter_map(lose)[0]);
}

/// Where no file gave a frame, the aggregate is the frame without columns
/// and without rows.
pub proof fn lemma_no_usable_file(reports: Seq<FileReport>)
    requires
        forall|i: int| 0 <= i < reports.len() ==> (#[trigger] reports[i]).outcome is Err,
    ensures
        surviving(reports) == Seq::<Frame>::empty(),
        union_of(frame_views(surviving(reports))) == Ok::<_, crate::union::UnionErrorView>(
            crate::frame::FrameView { columns: Seq::empty() },
        ),
    decreases reports.len(),
{
    if reports.len() > 0 {
        assert forall|i: int| 0 <= i < reports.drop_last().len() implies (
        #[trigger] reports.drop_last()[i]).outcome is Err by {
            assert(reports.drop_last()[i] == reports[i]);
        }
        lemma_no_usable_file(reports.drop_last());
    }
    assert(frame_views(Seq::<Frame>::empty()) =~= Seq::empty());
    lemma_union_of_none();
}

} // verus!
