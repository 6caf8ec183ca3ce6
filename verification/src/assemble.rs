//! Assembly of a frame from the branches that were decoded for a plan.
//!
//! Decoding is the caller's part: for each planned read, in plan order, it
//! hands in the decoded array or the decoder's failure. A failure is fatal to
//! the whole build; a column is never dropped once its decoding was planned.
//! The columns that the reads give make a frame if their names differ and
//! their lengths are equal.

use vstd::prelude::*;
use vstd::string::StringExecFns;
use crate::array::{Cell, Column, ColumnView, TypedArray};
use crate::frame::{
    column_views, frame_of, lemma_frame_of, FieldView, Frame, FrameError, FrameErrorView,
    FrameView,
};
use crate::kind::ScalarKind;
use crate::plan::{
    lemma_empty_selection_plans_nothing, plan_of, DiagnosticView, PlannedRead, PlannedReadView,
};
use crate::select::{lemma_empty_inclusion_selects_nothing, selection};
use crate::search::{first_where, is_first, lemma_first_where};
use crate::text::{decimal, write_decimal};

verus! {

/// The failure of decoding a branch, as the decoder words it.
#[derive(Clone, Debug, PartialEq, Eq)]
pub struct DecodeError {
    pub detail: String,
}

/// The outcome of decoding one branch, as contracts speak of it.
pub enum ExtractionView {
    Decoded { kind: ScalarKind, cells: Seq<Cell> },
    Failed { detail: Seq<char> },
}

/// The view of the outcome of decoding one branch.
pub open spec fn extraction_view(outcome: Result<TypedArray, DecodeError>) -> ExtractionView {
    match outcome {
        Ok(array) => ExtractionView::Decoded { kind: array.spec_kind(), cells: array@ },
        Err(e) => ExtractionView::Failed { detail: e.detail@ },
    }
}

/// The views of the outcomes of decoding some branches, in order.
pub open spec fn extraction_views(outcomes: Seq<Result<TypedArray, DecodeError>>) -> Seq<
    ExtractionView,
> {
    outcomes.map_values(|o: Result<TypedArray, DecodeError>| extraction_view(o))
}

/// Why no frame was built.
#[derive(Clone, Debug, PartialEq, Eq)]
pub enum BuildError {
    /// There are more or fewer outcomes than planned reads.
    OutcomeCount { planned: usize, supplied: usize },
    /// Decoding this branch failed.
    Decode { branch: String, detail: String },
    /// This branch was decoded as another kind than was planned.
    OutcomeKind { branch: String, planned: ScalarKind, supplied: ScalarKind },
    /// The decoded columns do not go together: two have one name where a
    /// frame is built, or they differ in length.
    NotAFrame(FrameError),
}

/// A build error as contracts speak of it.
pub enum BuildErrorView {
    OutcomeCount { planned: nat, supplied: nat },
    Decode { branch: Seq<char>, detail: Seq<char> },
    OutcomeKind { branch: Seq<char>, planned: ScalarKind, supplied: ScalarKind },
    NotAFrame(FrameErrorView),
}

impl View for BuildError {
    type V = BuildErrorView;

    open spec fn view(&self) -> BuildErrorView {
        match self {
            BuildError::OutcomeCount { planned, supplied } => BuildErrorView::OutcomeCount {
                planned: *planned as nat,
                supplied: *supplied as nat,
            },
            BuildError::Decode { branch, detail } => BuildErrorView::Decode {
                branch: branch@,
                detail: detail@,
            },
            BuildError::OutcomeKind { branch, planned, supplied } => BuildErrorView::OutcomeKind {
                branch: branch@,
                planned: *planned,
                supplied: *supplied,
            },
            BuildError::NotAFrame(e) => BuildErrorView::NotAFrame(e@),
        }
    }
}

impl BuildErrorView {
    /// The text of this error.
    pub open spec fn text(self) -> Seq<char> {
        match self {
            BuildErrorView::OutcomeCount { planned, supplied } => decimal(supplied)
                + " branches were decoded where "@ + decimal(planned) + " were planned"@,
            BuildErrorView::Decode { branch, detail } => "Branch '"@ + branch
                + "' could not be decoded: "@ + detail,
            BuildErrorView::OutcomeKind { branch, planned, supplied } => "Branch '"@ + branch
                + "' was planned as "@ + planned.tag() + " and decoded as "@ + supplied.tag(),
            BuildErrorView::NotAFrame(e) => e.text(),
        }
    }
}

impl BuildError {
    /// A message for the caller.
    pub fn message(&self) -> (line: String)
        ensures
            line@ == self@.text(),
    {
        match self {
            BuildError::OutcomeCount { planned, supplied } => {
                let mut line = write_decimal(*supplied);
                line.append(" branches were decoded where ");
                line.append(write_decimal(*planned).as_str());
                line.append(" were planned");
                line
            },
            BuildError::Decode { branch, detail } => {
                let mut line = String::from_str("Branch '");
                line.append(branch.as_str());
                line.append("' could not be decoded: ");
                line.append(detail.as_str());
                line
            },
            BuildError::OutcomeKind { branch, planned, supplied } => {
                let mut line = String::from_str("Branch '");
                line.append(branch.as_str());
                line.append("' was planned as ");
                line.append(planned.type_tag());
                line.append(" and decoded as ");
                line.append(supplied.type_tag());
                line
            },
            BuildError::NotAFrame(e) => e.message(),
        }
    }
}

/// The view of the outcome of a build.
pub open spec fn built_view(outcome: Result<Frame, BuildError>) -> Result<
    FrameView,
    BuildErrorView,
> {
    match outcome {
        Ok(frame) => Ok(frame@),
        Err(e) => Err(e@),
    }
}

/// Whether an outcome is what its planned read asked for: a decoded array of
/// the planned kind.
pub open spec fn answers(read: PlannedReadView, outcome: ExtractionView) -> bool {
    outcome matches ExtractionView::Decoded { kind, .. } && kind == read.kind
}

/// The column that an answered read gives: the branch's name, and the
/// decoded elements, all of them, in row order.
pub open spec fn extracted_column(read: PlannedReadView, outcome: ExtractionView) -> ColumnView {
    ColumnView { name: read.branch, kind: read.kind, cells: outcome->cells }
}

/// The columns that answered reads give, in plan order.
pub open spec fn extracted_columns(
    reads: Seq<PlannedReadView>,
    outcomes: Seq<ExtractionView>,
) -> Seq<ColumnView> {
    Seq::new(reads.len(), |i: int| extracted_column(reads[i], outcomes[i]))
}

/// Why the outcomes do not answer the reads, if they do not. The outcomes
/// must be as many as the reads. Then the first read, in plan order, whose
/// outcome is a failure or of another kind decides the error.
pub open spec fn extraction_error(
    reads: Seq<PlannedReadView>,
    outcomes: Seq<ExtractionView>,
) -> Option<BuildErrorView> {
    if reads.len() != outcomes.len() {
        Some(BuildErrorView::OutcomeCount { planned: reads.len(), supplied: outcomes.len() })
    } else {
        match first_where(reads.len() as int, |i: int| !answers(reads[i], outcomes[i])) {
            Some(i) => match outcomes[i] {
                ExtractionView::Failed { detail } => Some(
                    BuildErrorView::Decode { branch: reads[i].branch, detail },
                ),
                ExtractionView::Decoded { kind, .. } => Some(
                    BuildErrorView::OutcomeKind {
                        branch: reads[i].branch,
                        planned: reads[i].kind,
                        supplied: kind,
                    },
                ),
            },
            None => None,
        }
    }
}

/// What a build yields. If the outcomes do not answer the reads, that is the
/// error. If every read is answered, the result is the frame of the
/// extracted columns, in plan order, or the reason why they make none.
pub open spec fn assembled(reads: Seq<PlannedReadView>, outcomes: Seq<ExtractionView>) -> Result<
    FrameView,
    BuildErrorView,
> {
    match extraction_error(reads, outcomes) {
        Some(e) => Err(e),
        None => match frame_of(extracted_columns(reads, outcomes)) {
            Ok(frame) => Ok(frame),
            Err(e) => Err(BuildErrorView::NotAFrame(e)),
        },
    }
}

/// The name and kind of each planned read, in plan order.
pub open spec fn planned_fields(reads: Seq<PlannedReadView>) -> Seq<FieldView> {
    reads.map_values(|r: PlannedReadView| FieldView { name: r.branch, kind: r.kind })
}

/// The views of some planned reads, in order.
pub open spec fn read_views(reads: Seq<PlannedRead>) -> Seq<PlannedReadView> {
    reads.map_values(|r: PlannedRead| r@)
}

/// The outcomes answer the reads exactly when they are as many and every
/// read has a decoded array of its kind.
pub proof fn lemma_extraction_error(reads: Seq<PlannedReadView>, outcomes: Seq<ExtractionView>)
    ensures
        extraction_error(reads, outcomes) is None <==> {
            &&& reads.len() == outcomes.len()
            &&& forall|i: int| 0 <= i < reads.len() ==> answers(#[trigger] reads[i], outcomes[i])
        },
{
    let unanswered = |i: int| !answers(reads[i], outcomes[i]);
    lemma_first_where(reads.len() as int, unanswered);
    if reads.len() == outcomes.len() {
        if first_where(reads.len() as int, unanswered) is None {
            assert forall|i: int| 0 <= i < reads.len() implies answers(
                #[trigger] reads[i],
                outcomes[i],
            ) by {
                assert(!unanswered(i));
            }
        } else {
            let i = first_where(reads.len() as int, unanswered).unwrap();
            assert(unanswered(i));
        }
    }
}

/// Makes the columns for the planned reads from the outcomes of decoding
/// them, which are given in plan order: for each read the column of the
/// branch's name with the decoded elements, none null.
pub fn extract_columns(
    reads: &Vec<PlannedRead>,
    outcomes: Vec<Result<TypedArray, DecodeError>>,
) -> (extracted: Result<Vec<Column>, BuildError>)
    ensures
        match extraction_error(read_views(reads@), extraction_views(outcomes@)) {
            Some(e) => extracted matches Err(error) && error@ == e,
            None => extracted matches Ok(columns) && column_views(columns@) == extracted_columns(
                read_views(reads@),
                extraction_views(outcomes@),
            ) && forall|k: int| 0 <= k < columns@.len() ==> (#[trigger] columns@[k])@.complete(),
        },
{
    let ghost planned = read_views(reads@);
    let ghost supplied = extraction_views(outcomes@);
    let ghost unanswered = |i: int| !answers(planned[i], supplied[i]);
    let n = reads.len();
    if outcomes.len() != n {
        return Err(BuildError::OutcomeCount { planned: n, supplied: outcomes.len() });
    }
    let mut columns: Vec<Column> = Vec::new();
    let mut i: usize = 0;
    for outcome in it: outcomes
        invariant
            it.seq() == outcomes@,
            i == it.index(),
            n == reads@.len(),
            n == outcomes@.len(),
            planned == read_views(reads@),
            supplied == extraction_views(outcomes@),
            unanswered == |i: int| !answers(planned[i], supplied[i]),
            forall|k: int| 0 <= k < i ==> !#[trigger] unanswered(k),
            columns@.len() == i,
            forall|k: int|
                0 <= k < i ==> (#[trigger] columns@[k])@ == extracted_column(
                    planned[k],
                    supplied[k],
                ),
            forall|k: int| 0 <= k < i ==> (#[trigger] columns@[k])@.complete(),
    {
        match outcome {
            Err(e) => {
                proof {
                    assert(is_first(n as int, unanswered, i as int));
                    lemma_first_where(n as int, unanswered);
                }
                return Err(
                    BuildError::Decode { branch: reads[i].branch.clone(), detail: e.detail },
                );
            },
            Ok(array) => {
                let kind = array.kind();
                if kind != reads[i].kind {
                    proof {
                        assert(is_first(n as int, unanswered, i as int));
                        lemma_first_where(n as int, unanswered);
                    }
                    return Err(
                        BuildError::OutcomeKind {
                            branch: reads[i].branch.clone(),
                            planned: reads[i].kind,
                            supplied: kind,
                        },
                    );
                }
                columns.push(Column::from_array(reads[i].branch.clone(), array));
            },
        }
        i = i + 1;
    }
    proof {
        lemma_first_where(n as int, unanswered);
        assert(column_views(columns@) =~= extracted_columns(planned, supplied));
    }
    Ok(columns)
}

/// Builds the frame for the planned reads from the outcomes of decoding
/// them, which are given in plan order.
pub fn assemble_frame(reads: &Vec<PlannedRead>, outcomes: Vec<Result<TypedArray, DecodeError>>) -> (built:
    Result<Frame, BuildError>)
    ensures
        built_view(built) == assembled(read_views(reads@), extraction_views(outcomes@)),
        built matches Ok(frame) ==> frame@.wf() && frame@.complete(),
{
    match extract_columns(reads, outcomes) {
        Err(e) => Err(e),
        Ok(columns) => {
            proof {
                lemma_frame_of(column_views(columns@));
            }
            match Frame::new(columns) {
                Ok(frame) => Ok(frame),
                Err(e) => Err(BuildError::NotAFrame(e)),
            }
        },
    }
}

/// A build with nothing to read yields the frame without columns; it is no
/// error.
pub proof fn lemma_nothing_planned_builds_empty_frame()
    ensures
        assembled(Seq::empty(), Seq::empty()) == Ok::<FrameView, BuildErrorView>(
            FrameView { columns: Seq::empty() },
        ),
{
    let reads = Seq::<PlannedReadView>::empty();
    let outcomes = Seq::<ExtractionView>::empty();
    lemma_first_where(0, |i: int| !answers(reads[i], outcomes[i]));
    assert(extracted_columns(reads, outcomes) =~= Seq::<ColumnView>::empty());
    lemma_frame_of(Seq::<ColumnView>::empty());
}

/// A request with an empty inclusion list builds the frame without columns,
/// on every tree and with every exclusion list: nothing is selected, so
/// nothing is looked up, planned or skipped, and the build of nothing is that
/// frame.
pub proof fn lemma_empty_inclusion_builds_empty_frame(
    listed: Seq<Seq<char>>,
    excluded: Option<Seq<Seq<char>>>,
)
    ensures
        selection(listed, Some(Seq::empty()), excluded) == Seq::<Seq<char>>::empty(),
        plan_of(Seq::empty()).reads == Seq::<PlannedReadView>::empty(),
        plan_of(Seq::empty()).skipped == Seq::<DiagnosticView>::empty(),
        assembled(Seq::empty(), Seq::empty()) == Ok::<FrameView, BuildErrorView>(
            FrameView { columns: Seq::empty() },
        ),
{
    lemma_empty_inclusion_selects_nothing(listed, excluded);
    lemma_empty_selection_plans_nothing();
    lemma_nothing_planned_builds_empty_frame();
}

/// A build succeeds exactly when every read is answered and the extracted
/// columns have distinct names and equal lengths. The frame then has one
/// column per planned read, in plan order, each with the name and kind that
/// were planned and with the decoded elements for its cells, so the frame's
/// schema is the planned names and kinds in plan order.
pub proof fn lemma_assembled(reads: Seq<PlannedReadView>, outcomes: Seq<ExtractionView>)
    ensures
        assembled(reads, outcomes) is Ok <==> {
            &&& reads.len() == outcomes.len()
            &&& forall|i: int| 0 <= i < reads.len() ==> answers(#[trigger] reads[i], outcomes[i])
            &&& frame_of(extracted_columns(reads, outcomes)) is Ok
        },
        assembled(reads, outcomes) matches Ok(frame) ==> {
            &&& frame.columns.len() == reads.len()
            &&& forall|i: int|
                0 <= i < reads.len() ==> #[trigger] frame.columns[i] == extracted_column(
                    reads[i],
                    outcomes[i],
                )
            &&& frame.schema() == planned_fields(reads)
        },
{
    lemma_extraction_error(reads, outcomes);
    lemma_frame_of(extracted_columns(reads, outcomes));
    if let Ok(frame) = assembled(reads, outcomes) {
        assert(frame.schema() =~= planned_fields(reads));
    }
}

} // verus!
