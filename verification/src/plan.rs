//! What to read from a tree: the decisions taken before any element is
//! decoded.
//!
//! Looking a branch up is the caller's part: for each selected name it asks
//! the tree and reports the declared type of the branch, or that the tree has
//! none of this name. A bulk request (a frame, an export) degrades
//! gracefully: a selected branch that the tree lacks, or whose declared type
//! has no decoding path, is left out and reported in the plan. A request for
//! one branch is strict: either of these is an error.

use vstd::prelude::*;
use vstd::string::StringExecFns;
use crate::kind::{lemma_resolve_covers_every_kind, resolve, resolve_spec, ScalarKind};
use crate::text::names_view;

verus! {

/// What a tree answers when asked for a branch by name.
#[derive(Clone, Debug, PartialEq, Eq)]
pub struct BranchLookup {
    /// The name that was asked for.
    pub name: String,
    /// The declared element type of the branch, as the container names it,
    /// or `None` if the tree has no branch of this name.
    pub declared: Option<String>,
}

/// A lookup as contracts speak of it.
pub struct BranchLookupView {
    pub name: Seq<char>,
    pub declared: Option<Seq<char>>,
}

impl View for BranchLookup {
    type V = BranchLookupView;

    open spec fn view(&self) -> BranchLookupView {
        BranchLookupView {
            name: self.name@,
            declared: match self.declared {
                Some(tag) => Some(tag@),
                None => None,
            },
        }
    }
}

/// The views of some lookups, in order.
pub open spec fn lookup_views(lookups: Seq<BranchLookup>) -> Seq<BranchLookupView> {
    lookups.map_values(|l: BranchLookup| l@)
}

/// Why a bulk request leaves a selected branch out.
#[derive(Clone, Debug, PartialEq, Eq)]
pub enum SkipReason {
    /// The tree has no branch of this name.
    NotFound,
    /// The branch's declared type has no decoding path.
    Unsupported { tag: String },
}

/// A reason as contracts speak of it.
pub enum SkipReasonView {
    NotFound,
    Unsupported { tag: Seq<char> },
}

impl View for SkipReason {
    type V = SkipReasonView;

    open spec fn view(&self) -> SkipReasonView {
        match self {
            SkipReason::NotFound => SkipReasonView::NotFound,
            SkipReason::Unsupported { tag } => SkipReasonView::Unsupported { tag: tag@ },
        }
    }
}

/// The record of one branch that a bulk request left out.
#[derive(Clone, Debug, PartialEq, Eq)]
pub struct Diagnostic {
    pub branch: String,
    pub reason: SkipReason,
}

/// A diagnostic as contracts speak of it.
pub struct DiagnosticView {
    pub branch: Seq<char>,
    pub reason: SkipReasonView,
}

impl View for Diagnostic {
    type V = DiagnosticView;

    open spec fn view(&self) -> DiagnosticView {
        DiagnosticView { branch: self.branch@, reason: self.reason@ }
    }
}

/// One branch to decode, and the kind to decode it as.
#[derive(Clone, Debug, PartialEq, Eq)]
pub struct PlannedRead {
    pub branch: String,
    pub kind: ScalarKind,
}

/// A planned read as contracts speak of it.
pub struct PlannedReadView {
    pub branch: Seq<char>,
    pub kind: ScalarKind,
}

impl View for PlannedRead {
    type V = PlannedReadView;

    open spec fn view(&self) -> PlannedReadView {
        PlannedReadView { branch: self.branch@, kind: self.kind }
    }
}

/// The outcome of planning a bulk request: the branches to decode, and the
/// selected branches that are left out, each list in selection order.
#[derive(Clone, Debug, PartialEq, Eq)]
pub struct ReadPlan {
    pub reads: Vec<PlannedRead>,
    pub skipped: Vec<Diagnostic>,
}

/// A plan as contracts speak of it.
pub struct ReadPlanView {
    pub reads: Seq<PlannedReadView>,
    pub skipped: Seq<DiagnosticView>,
}

impl View for ReadPlan {
    type V = ReadPlanView;

    open spec fn view(&self) -> ReadPlanView {
        ReadPlanView {
            reads: self.reads@.map_values(|r: PlannedRead| r@),
            skipped: self.skipped@.map_values(|d: Diagnostic| d@),
        }
    }
}

/// The read that a lookup leads to: one, if the tree has the branch and its
/// declared type resolves.
pub open spec fn planned_read(lookup: BranchLookupView) -> Option<PlannedReadView> {
    match lookup.declared {
        Some(tag) => match resolve_spec(tag) {
            Some(kind) => Some(PlannedReadView { branch: lookup.name, kind }),
            None => None,
        },
        None => None,
    }
}

/// The diagnostic that a lookup leads to: one, if the tree lacks the branch
/// or its declared type does not resolve.
pub open spec fn skip_of(lookup: BranchLookupView) -> Option<DiagnosticView> {
    match lookup.declared {
        Some(tag) => match resolve_spec(tag) {
            Some(_) => None,
            None => Some(
                DiagnosticView { branch: lookup.name, reason: SkipReasonView::Unsupported { tag } },
            ),
        },
        None => Some(DiagnosticView { branch: lookup.name, reason: SkipReasonView::NotFound }),
    }
}

/// The plan for the lookups of a working set: each gives either a read or a
/// diagnostic, and both lists keep the order of the working set.
pub open spec fn plan_of(lookups: Seq<BranchLookupView>) -> ReadPlanView {
    ReadPlanView {
        reads: lookups.filter_map(|l: BranchLookupView| planned_read(l)),
        skipped: lookups.filter_map(|l: BranchLookupView| skip_of(l)),
    }
}

/// Plans the reads of a bulk request from the lookups of its working set,
/// which are given in the order of the working set.
pub fn plan_reads(lookups: Vec<BranchLookup>) -> (plan: ReadPlan)
    ensures
        plan@ == plan_of(lookup_views(lookups@)),
{
    let ghost views = lookup_views(lookups@);
    let ghost to_read = |l: BranchLookupView| planned_read(l);
    let ghost to_skip = |l: BranchLookupView| skip_of(l);
    let mut reads: Vec<PlannedRead> = Vec::new();
    let mut skipped: Vec<Diagnostic> = Vec::new();
    for lookup in it: lookups
        invariant
            it.seq() == lookups@,
            views == lookup_views(lookups@),
            to_read == |l: BranchLookupView| planned_read(l),
            to_skip == |l: BranchLookupView| skip_of(l),
            reads@.map_values(|r: PlannedRead| r@) == views.take(it.index() as int).filter_map(
                to_read,
            ),
            skipped@.map_values(|d: Diagnostic| d@) == views.take(it.index() as int).filter_map(
                to_skip,
            ),
    {
        let ghost i = it.index() as int;
        let ghost reads_before = reads@.map_values(|r: PlannedRead| r@);
        let ghost skipped_before = skipped@.map_values(|d: Diagnostic| d@);
        proof {
            views.lemma_filter_map_take_succ(to_read, i);
            views.lemma_filter_map_take_succ(to_skip, i);
        }
        let BranchLookup { name, declared } = lookup;
        match declared {
            None => {
                skipped.push(Diagnostic { branch: name, reason: SkipReason::NotFound });
            },
            Some(tag) => {
                match resolve(tag.as_str()) {
                    Ok(kind) => {
                        reads.push(PlannedRead { branch: name, kind });
                    },
                    Err(unsupported) => {
                        skipped.push(
                            Diagnostic {
                                branch: name,
                                reason: SkipReason::Unsupported { tag: unsupported.tag },
                            },
                        );
                    },
                }
            },
        }
        assert(reads@.map_values(|r: PlannedRead| r@) =~= reads_before + (match to_read(lookup@) {
            Some(r) => seq![r],
            None => Seq::empty(),
        }));
        assert(skipped@.map_values(|d: Diagnostic| d@) =~= skipped_before + (match to_skip(
            lookup@,
        ) {
            Some(d) => seq![d],
            None => Seq::empty(),
        }));
    }
    assert(views.take(views.len() as int) =~= views);
    ReadPlan { reads, skipped }
}

impl DiagnosticView {
    /// The text of this diagnostic.
    pub open spec fn text(self) -> Seq<char> {
        match self.reason {
            SkipReasonView::NotFound => "Branch '"@ + self.branch + "' not found, skipping"@,
            SkipReasonView::Unsupported { tag } => "Unsupported branch type: "@ + tag
                + ", skipping"@,
        }
    }
}

impl Diagnostic {
    /// A line that tells a reader what was left out and why.
    pub fn message(&self) -> (line: String)
        ensures
            line@ == self@.text(),
    {
        match &self.reason {
            SkipReason::NotFound => {
                let mut line = String::from_str("Branch '");
                line.append(self.branch.as_str());
                line.append("' not found, skipping");
                line
            },
            SkipReason::Unsupported { tag } => {
                let mut line = String::from_str("Unsupported branch type: ");
                line.append(tag.as_str());
                line.append(", skipping");
                line
            },
        }
    }
}

/// Why a request for a single branch fails.
#[derive(Clone, Debug, PartialEq, Eq)]
pub enum ReadError {
    /// The tree has no branch of this name. Carries the names it lists.
    BranchNotFound { branch: String, available: Vec<String> },
    /// The branch's declared type has no decoding path.
    Unsupported { tag: String },
}

/// A read error as contracts speak of it.
pub enum ReadErrorView {
    BranchNotFound { branch: Seq<char>, available: Seq<Seq<char>> },
    Unsupported { tag: Seq<char> },
}

impl View for ReadError {
    type V = ReadErrorView;

    open spec fn view(&self) -> ReadErrorView {
        match self {
            ReadError::BranchNotFound { branch, available } => ReadErrorView::BranchNotFound {
                branch: branch@,
                available: names_view(available@),
            },
            ReadError::Unsupported { tag } => ReadErrorView::Unsupported { tag: tag@ },
        }
    }
}

/// The declared type of the branch that a strict request names. `listed` are
/// the names that the tree lists; they go into the error.
pub open spec fn strict_type(lookup: BranchLookupView, listed: Seq<Seq<char>>) -> Result<
    Seq<char>,
    ReadErrorView,
> {
    match lookup.declared {
        Some(tag) => Ok(tag),
        None => Err(ReadErrorView::BranchNotFound { branch: lookup.name, available: listed }),
    }
}

/// The kind that a strict request decodes its branch as.
pub open spec fn strict_kind(lookup: BranchLookupView, listed: Seq<Seq<char>>) -> Result<
    ScalarKind,
    ReadErrorView,
> {
    match strict_type(lookup, listed) {
        Ok(tag) => match resolve_spec(tag) {
            Some(kind) => Ok(kind),
            None => Err(ReadErrorView::Unsupported { tag }),
        },
        Err(e) => Err(e),
    }
}

/// The view of the outcome of a strict request.
pub open spec fn outcome_view<T>(outcome: Result<T, ReadError>) -> Result<T, ReadErrorView> {
    match outcome {
        Ok(value) => Ok(value),
        Err(e) => Err(e@),
    }
}

/// The declared type name of one branch, as the tree gives it. `listed` are
/// the names that the tree lists.
pub fn branch_type_name(lookup: BranchLookup, listed: Vec<String>) -> (outcome: Result<
    String,
    ReadError,
>)
    ensures
        match strict_type(lookup@, names_view(listed@)) {
            Ok(tag) => outcome matches Ok(name) && name@ == tag,
            Err(e) => outcome matches Err(err) && err@ == e,
        },
{
    match lookup.declared {
        Some(tag) => Ok(tag),
        None => Err(ReadError::BranchNotFound { branch: lookup.name, available: listed }),
    }
}

/// The kind to decode one branch as, for a request that wants exactly this
/// branch. `listed` are the names that the tree lists.
pub fn plan_single_read(lookup: BranchLookup, listed: Vec<String>) -> (outcome: Result<
    ScalarKind,
    ReadError,
>)
    ensures
        outcome_view(outcome) == strict_kind(lookup@, names_view(listed@)),
{
    match branch_type_name(lookup, listed) {
        Ok(tag) => match resolve(tag.as_str()) {
            Ok(kind) => Ok(kind),
            Err(unsupported) => Err(ReadError::Unsupported { tag: unsupported.tag }),
        },
        Err(e) => Err(e),
    }
}

impl ReadErrorView {
    /// The text of this error.
    pub open spec fn text(self) -> Seq<char> {
        match self {
            ReadErrorView::BranchNotFound { branch, available } => "Branch '"@ + branch
                + "' not found; available branches are: ["@ + joined(available) + "]"@,
            ReadErrorView::Unsupported { tag } => "Unsupported branch type: "@ + tag,
        }
    }
}

impl ReadError {
    /// A message for the caller. Where a branch was not found it lists the
    /// branches that exist.
    pub fn message(&self) -> (line: String)
        ensures
            line@ == self@.text(),
    {
        match self {
            ReadError::BranchNotFound { branch, available } => {
                let mut line = String::from_str("Branch '");
                line.append(branch.as_str());
                line.append("' not found; available branches are: [");
                let list = join_names(available);
                line.append(list.as_str());
                line.append("]");
                line
            },
            ReadError::Unsupported { tag } => {
                let mut line = String::from_str("Unsupported branch type: ");
                line.append(tag.as_str());
                line
            },
        }
    }
}

/// The names, separated by a comma and a space.
pub open spec fn joined(names: Seq<Seq<char>>) -> Seq<char>
    decreases names.len(),
{
    if names.len() == 0 {
        Seq::empty()
    } else if names.len() == 1 {
        names[0]
    } else {
        joined(names.drop_last()) + ", "@ + names.last()
    }
}

/// Writes the names out, separated by a comma and a space.
pub fn join_names(names: &Vec<String>) -> (line: String)
    ensures
        line@ == joined(names_view(names@)),
{
    let ghost all = names_view(names@);
    let mut line = String::new();
    let n = names.len();
    let mut i: usize = 0;
    while i < n
        invariant
            i <= n,
            n == names@.len(),
            all == names_view(names@),
            line@ == joined(all.take(i as int)),
        decreases n - i,
    {
        proof {
            assert(all.take(i + 1).drop_last() =~= all.take(i as int));
        }
        if i > 0 {
            line.append(", ");
        }
        line.append(names[i].as_str());
        i = i + 1;
    }
    assert(all.take(n as int) =~= all);
    line
}

/// What `filter_map` maps to a value, it keeps.
proof fn lemma_filter_map_keeps<A, B>(s: Seq<A>, f: spec_fn(A) -> Option<B>, i: int)
    requires
        0 <= i < s.len(),
        f(s[i]) is Some,
    ensures
        s.filter_map(f).contains(f(s[i]).unwrap()),
    decreases s.len(),
{
    let out = s.filter_map(f);
    if i == s.len() - 1 {
        assert(out[out.len() - 1] == f(s[i]).unwrap());
    } else {
        lemma_filter_map_keeps(s.drop_last(), f, i);
        let sub = s.drop_last().filter_map(f);
        let j = choose|j: int| 0 <= j < sub.len() && sub[j] == f(s[i]).unwrap();
        assert(out[j] == sub[j]);
    }
}

/// A branch of unsupported type is fatal to a request for that branch alone,
/// and is left out of a bulk request with a diagnostic: the bulk plan has no
/// read for it and does not fail on it.
pub proof fn lemma_unsupported_branch(
    lookups: Seq<BranchLookupView>,
    listed: Seq<Seq<char>>,
    i: int,
    tag: Seq<char>,
)
    requires
        0 <= i < lookups.len(),
        lookups[i].declared == Some(tag),
        resolve_spec(tag) is None,
    ensures
        strict_kind(lookups[i], listed) == Err::<ScalarKind, _>(
            ReadErrorView::Unsupported { tag },
        ),
        planned_read(lookups[i]) is None,
        plan_of(lookups).skipped.contains(
            DiagnosticView { branch: lookups[i].name, reason: SkipReasonView::Unsupported { tag } },
        ),
{
    lemma_filter_map_keeps(lookups, |l: BranchLookupView| skip_of(l), i);
}

/// A branch whose declared type is the name of a kind is decoded as that
/// kind, by a request for that branch alone and by every bulk request that
/// selects it.
pub proof fn lemma_supported_branch(
    lookups: Seq<BranchLookupView>,
    listed: Seq<Seq<char>>,
    i: int,
    kind: ScalarKind,
)
    requires
        0 <= i < lookups.len(),
        lookups[i].declared == Some(kind.tag()),
    ensures
        strict_kind(lookups[i], listed) == Ok::<ScalarKind, ReadErrorView>(kind),
        plan_of(lookups).reads.contains(PlannedReadView { branch: lookups[i].name, kind }),
{
    lemma_resolve_covers_every_kind(kind);
    lemma_filter_map_keeps(lookups, |l: BranchLookupView| planned_read(l), i);
}

/// Every lookup is accounted for exactly once: it leads to a read or to a
/// diagnostic, never to both and never to neither.
pub proof fn lemma_plan_accounts_for_lookups(lookups: Seq<BranchLookupView>)
    ensures
        plan_of(lookups).reads.len() + plan_of(lookups).skipped.len() == lookups.len(),
        forall|l: BranchLookupView| planned_read(l) is Some <==> skip_of(l) is None,
    decreases lookups.len(),
{
    if lookups.len() > 0 {
        lemma_plan_accounts_for_lookups(lookups.drop_last());
    }
}

/// A working set that names nothing plans nothing.
pub proof fn lemma_empty_selection_plans_nothing()
    ensures
        plan_of(Seq::empty()).reads == Seq::<PlannedReadView>::empty(),
        plan_of(Seq::empty()).skipped == Seq::<DiagnosticView>::empty(),
{
}

} // verus!
