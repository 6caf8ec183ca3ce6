//! Frames: named columns of one common length.

use vstd::prelude::*;
use vstd::string::StringExecFns;
use crate::array::{Column, ColumnView};
use crate::kind::ScalarKind;
use crate::search::{first_where, is_first, lemma_first_where};
use crate::text::{decimal, str_equal, write_decimal};

verus! {

/// A frame as contracts speak of it: its columns, in order.
pub struct FrameView {
    pub columns: Seq<ColumnView>,
}

/// The names of some columns, in order.
pub open spec fn column_names(columns: Seq<ColumnView>) -> Seq<Seq<char>> {
    columns.map_values(|c: ColumnView| c.name)
}

/// The views of some columns, in order.
pub open spec fn column_views(columns: Seq<Column>) -> Seq<ColumnView> {
    columns.map_values(|c: Column| c@)
}

/// The number of rows that some columns share: the length of the first one,
/// and zero where there is none.
pub open spec fn common_height(columns: Seq<ColumnView>) -> nat {
    if columns.len() == 0 {
        0
    } else {
        columns[0].cells.len()
    }
}

/// Whether every column is as long as the first one.
pub open spec fn uniform(columns: Seq<ColumnView>) -> bool {
    forall|i: int|
        0 <= i < columns.len() ==> (#[trigger] columns[i]).cells.len() == common_height(columns)
}

/// The name and kind of a column.
#[derive(Clone, Debug, PartialEq, Eq)]
pub struct Field {
    pub name: String,
    pub kind: ScalarKind,
}

/// A field as contracts speak of it.
pub struct FieldView {
    pub name: Seq<char>,
    pub kind: ScalarKind,
}

impl View for Field {
    type V = FieldView;

    open spec fn view(&self) -> FieldView {
        FieldView { name: self.name@, kind: self.kind }
    }
}

/// The views of some fields, in order.
pub open spec fn field_views(fields: Seq<Field>) -> Seq<FieldView> {
    fields.map_values(|f: Field| f@)
}

/// The name and kind of each column, in order.
pub open spec fn fields_of(columns: Seq<ColumnView>) -> Seq<FieldView> {
    columns.map_values(|c: ColumnView| FieldView { name: c.name, kind: c.kind })
}

/// Whether the name at `index` has occurred before it.
pub open spec fn repeats(names: Seq<Seq<char>>, index: int) -> bool {
    names.take(index).contains(names[index])
}

/// Whether the name at `index` occurs again behind it.
pub open spec fn recurs(names: Seq<Seq<char>>, index: int) -> bool {
    names.skip(index + 1).contains(names[index])
}

/// The number of names up to which a repeated name is looked for pair by
/// pair.
pub const FEW_NAMES: usize = 4;

/// The name that is reported where names repeat; none where all differ.
/// Among few names it is the earliest name that occurs again, among more it
/// is the name at the earliest repetition. These are the names that a
/// `polars` frame reports for the same columns.
pub open spec fn duplicate_name(names: Seq<Seq<char>>) -> Option<Seq<char>> {
    if names.len() <= FEW_NAMES {
        match first_where(names.len() as int, |i: int| recurs(names, i)) {
            Some(i) => Some(names[i]),
            None => None,
        }
    } else {
        match first_where(names.len() as int, |j: int| repeats(names, j)) {
            Some(j) => Some(names[j]),
            None => None,
        }
    }
}

/// A name is reported exactly where two names are the same, and the name
/// that is reported is one that occurs twice.
pub proof fn lemma_duplicate_name(names: Seq<Seq<char>>)
    ensures
        duplicate_name(names) is None <==> names.no_duplicates(),
        duplicate_name(names) matches Some(name) ==> exists|i: int, j: int|
            0 <= i < j < names.len() && #[trigger] names[i] == name && #[trigger] names[j] == name,
{
    let n = names.len() as int;
    let again = |i: int| recurs(names, i);
    let dup = |j: int| repeats(names, j);
    lemma_first_where(n, again);
    lemma_first_where(n, dup);
    if names.len() <= FEW_NAMES {
        match first_where(n, again) {
            Some(i) => {
                let later = names.skip(i + 1);
                let k = choose|k: int| 0 <= k < later.len() && later[k] == names[i];
                assert(names[i + 1 + k] == names[i]);
            },
            None => {
                assert forall|i: int, j: int|
                    0 <= i < names.len() && 0 <= j < names.len() && i != j implies names[i]
                    != names[j] by {
                    if i < j {
                        assert(!again(i));
                        if names[i] == names[j] {
                            assert(names.skip(i + 1)[j - i - 1] == names[i]);
                        }
                    } else {
                        assert(!again(j));
                        if names[i] == names[j] {
                            assert(names.skip(j + 1)[i - j - 1] == names[j]);
                        }
                    }
                }
            },
        }
    } else {
        match first_where(n, dup) {
            Some(j) => {
                let i = choose|i: int|
                    0 <= i < names.take(j).len() && names.take(j)[i] == names[j];
                assert(names[i] == names[j]);
            },
            None => {
                assert forall|i: int, j: int|
                    0 <= i < names.len() && 0 <= j < names.len() && i != j implies names[i]
                    != names[j] by {
                    if i < j {
                        assert(!dup(j));
                        if names[i] == names[j] {
                            assert(names.take(j)[i] == names[j]);
                        }
                    } else {
                        assert(!dup(i));
                        if names[i] == names[j] {
                            assert(names.take(i)[j] == names[i]);
                        }
                    }
                }
            },
        }
    }
}

impl FrameView {
    /// The names of the columns, in order.
    pub open spec fn names(self) -> Seq<Seq<char>> {
        column_names(self.columns)
    }

    /// The name and kind of each column, in order.
    pub open spec fn schema(self) -> Seq<FieldView> {
        fields_of(self.columns)
    }

    /// The number of columns.
    pub open spec fn width(self) -> nat {
        self.columns.len()
    }

    /// The number of rows.
    pub open spec fn height(self) -> nat {
        common_height(self.columns)
    }

    /// The position of the column called `name`.
    pub open spec fn position(self, name: Seq<char>) -> Option<int> {
        first_where(self.columns.len() as int, |i: int| self.columns[i].name == name)
    }

    /// No cell of the frame is null.
    pub open spec fn complete(self) -> bool {
        forall|i: int| 0 <= i < self.columns.len() ==> (#[trigger] self.columns[i]).complete()
    }

    /// What holds of every frame: no two columns share a name, all columns
    /// have the same length, and every cell is null or of its column's kind.
    pub open spec fn wf(self) -> bool {
        &&& self.names().no_duplicates()
        &&& uniform(self.columns)
        &&& forall|i: int| 0 <= i < self.columns.len() ==> (#[trigger] self.columns[i]).typed()
    }
}

/// Why a list of columns is not a frame.
#[derive(Clone, Debug, PartialEq, Eq)]
pub enum FrameError {
    /// Two columns have this name.
    DuplicateName { name: String },
    /// The column of this name is not as long as the first column.
    LengthMismatch { name: String, expected: usize, found: usize },
}

/// A frame error as contracts speak of it.
pub enum FrameErrorView {
    DuplicateName { name: Seq<char> },
    LengthMismatch { name: Seq<char>, expected: nat, found: nat },
}

impl View for FrameError {
    type V = FrameErrorView;

    open spec fn view(&self) -> FrameErrorView {
        match self {
            FrameError::DuplicateName { name } => FrameErrorView::DuplicateName { name: name@ },
            FrameError::LengthMismatch { name, expected, found } => FrameErrorView::LengthMismatch {
                name: name@,
                expected: *expected as nat,
                found: *found as nat,
            },
        }
    }
}

impl FrameErrorView {
    /// The text of this error.
    pub open spec fn text(self) -> Seq<char> {
        match self {
            FrameErrorView::DuplicateName { name } => "column with name '"@ + name
                + "' has more than one occurrence"@,
            FrameErrorView::LengthMismatch { name, expected, found } => "column '"@ + name
                + "' has length "@ + decimal(found) + " while the first column has length "@
                + decimal(expected),
        }
    }
}

impl FrameError {
    /// A message for the caller.
    pub fn message(&self) -> (line: String)
        ensures
            line@ == self@.text(),
    {
        match self {
            FrameError::DuplicateName { name } => {
                let mut line = String::from_str("column with name '");
                line.append(name.as_str());
                line.append("' has more than one occurrence");
                line
            },
            FrameError::LengthMismatch { name, expected, found } => {
                let mut line = String::from_str("column '");
                line.append(name.as_str());
                line.append("' has length ");
                line.append(write_decimal(*found).as_str());
                line.append(" while the first column has length ");
                line.append(write_decimal(*expected).as_str());
                line
            },
        }
    }
}

/// The error for columns of unequal length: it names the earliest column
/// that is not as long as the first one. There is none where all columns are
/// equally long.
pub open spec fn length_error(columns: Seq<ColumnView>) -> Option<FrameErrorView> {
    match first_where(
        columns.len() as int,
        |j: int| columns[j].cells.len() != common_height(columns),
    ) {
        Some(j) => Some(
            FrameErrorView::LengthMismatch {
                name: columns[j].name,
                expected: common_height(columns),
                found: columns[j].cells.len(),
            },
        ),
        None => None,
    }
}

/// The frame that a list of columns makes, or the reason why it makes none.
/// A repeated name is reported first; then a length that differs from the
/// first column's, at the earliest such column.
pub open spec fn frame_of(columns: Seq<ColumnView>) -> Result<FrameView, FrameErrorView> {
    match duplicate_name(column_names(columns)) {
        Some(name) => Err(FrameErrorView::DuplicateName { name }),
        None => match length_error(columns) {
            Some(e) => Err(e),
            None => Ok(FrameView { columns }),
        },
    }
}

/// Columns have a length error exactly when they are not all equally long.
pub proof fn lemma_length_error(columns: Seq<ColumnView>)
    ensures
        length_error(columns) is None <==> uniform(columns),
{
    let ragged = |j: int| columns[j].cells.len() != common_height(columns);
    lemma_first_where(columns.len() as int, ragged);
    if length_error(columns) is None {
        assert forall|i: int| 0 <= i < columns.len() implies (#[trigger] columns[i]).cells.len()
            == common_height(columns) by {
            assert(!ragged(i));
        }
    } else {
        let j = first_where(columns.len() as int, ragged).unwrap();
        assert(ragged(j));
    }
}

/// Columns make a frame exactly when their names are distinct and their
/// lengths equal, and the frame then holds these columns.
pub proof fn lemma_frame_of(columns: Seq<ColumnView>)
    ensures
        frame_of(columns) is Ok <==> column_names(columns).no_duplicates() && uniform(columns),
        frame_of(columns) is Ok ==> frame_of(columns) == Ok::<FrameView, FrameErrorView>(
            FrameView { columns },
        ),
{
    lemma_duplicate_name(column_names(columns));
    lemma_length_error(columns);
}

/// The view of an optional frame error.
pub open spec fn error_view(error: Option<FrameError>) -> Option<FrameErrorView> {
    match error {
        Some(e) => Some(e@),
        None => None,
    }
}

/// Looks for a name that two columns share, and reports it.
pub fn repeated_name(columns: &Vec<Column>) -> (found: Option<FrameError>)
    ensures
        error_view(found) == match duplicate_name(column_names(column_views(columns@))) {
            Some(name) => Some(FrameErrorView::DuplicateName { name }),
            None => None,
        },
{
    let ghost views = column_views(columns@);
    let ghost names = column_names(views);
    let ghost again = |i: int| recurs(names, i);
    let ghost dup = |j: int| repeats(names, j);
    let n = columns.len();
    if n <= FEW_NAMES {
        let mut i: usize = 0;
        while i < n
            invariant
                i <= n,
                n == columns@.len(),
                views == column_views(columns@),
                names == column_names(views),
                again == |i: int| recurs(names, i),
                n <= FEW_NAMES,
                forall|k: int| 0 <= k < i ==> !#[trigger] again(k),
            decreases n - i,
        {
            let mut j: usize = i + 1;
            while j < n
                invariant
                    i < j <= n,
                    n == columns@.len(),
                    views == column_views(columns@),
                    names == column_names(views),
                    again == |i: int| recurs(names, i),
                    n <= FEW_NAMES,
                n <= FEW_NAMES,
                    forall|k: int| 0 <= k < i ==> !#[trigger] again(k),
                    forall|k: int| i < k < j ==> #[trigger] names[k] != names[i as int],
                decreases n - j,
            {
                if str_equal(columns[i].name.as_str(), columns[j].name.as_str()) {
                    proof {
                        assert(names.skip(i + 1)[j - i - 1] == names[i as int]);
                        assert(is_first(n as int, again, i as int));
                        lemma_first_where(n as int, again);
                    }
                    return Some(FrameError::DuplicateName { name: columns[i].name.clone() });
                }
                j = j + 1;
            }
            proof {
                if again(i as int) {
                    let later = names.skip(i + 1);
                    let k = choose|k: int| 0 <= k < later.len() && later[k] == names[i as int];
                    assert(names[i + 1 + k] != names[i as int]);
                }
            }
            i = i + 1;
        }
        proof {
            lemma_first_where(n as int, again);
        }
        None
    } else {
        let mut j: usize = 0;
        while j < n
            invariant
                j <= n,
                n == columns@.len(),
                views == column_views(columns@),
                names == column_names(views),
                dup == |j: int| repeats(names, j),
                n > FEW_NAMES,
                forall|k: int| 0 <= k < j ==> !#[trigger] dup(k),
            decreases n - j,
        {
            let mut i: usize = 0;
            while i < j
                invariant
                    i <= j,
                    j < n,
                    n == columns@.len(),
                    views == column_views(columns@),
                    names == column_names(views),
                    dup == |j: int| repeats(names, j),
                    n > FEW_NAMES,
                n > FEW_NAMES,
                    forall|k: int| 0 <= k < j ==> !#[trigger] dup(k),
                    forall|k: int| 0 <= k < i ==> #[trigger] names[k] != names[j as int],
                decreases j - i,
            {
                if str_equal(columns[i].name.as_str(), columns[j].name.as_str()) {
                    proof {
                        assert(names.take(j as int)[i as int] == names[j as int]);
                        assert(is_first(n as int, dup, j as int));
                        lemma_first_where(n as int, dup);
                    }
                    return Some(FrameError::DuplicateName { name: columns[j].name.clone() });
                }
                i = i + 1;
            }
            proof {
                if dup(j as int) {
                    let k = choose|k: int|
                        0 <= k < names.take(j as int).len() && names.take(j as int)[k]
                            == names[j as int];
                    assert(names[k] != names[j as int]);
                }
            }
            j = j + 1;
        }
        proof {
            lemma_first_where(n as int, dup);
        }
        None
    }
}

/// Looks for a column that is not as long as the first one, and names the
/// earliest.
pub fn uneven_column(columns: &Vec<Column>) -> (found: Option<FrameError>)
    ensures
        error_view(found) == length_error(column_views(columns@)),
{
    let ghost views = column_views(columns@);
    let ghost ragged = |j: int| views[j].cells.len() != common_height(views);
    let n = columns.len();
    if n > 0 {
        let height = columns[0].len();
        let mut j: usize = 1;
        while j < n
            invariant
                1 <= j <= n,
                n == columns@.len(),
                views == column_views(columns@),
                ragged == |j: int| views[j].cells.len() != common_height(views),
                height == common_height(views),
                forall|k: int| 0 <= k < j ==> !#[trigger] ragged(k),
            decreases n - j,
        {
            let found = columns[j].len();
            if found != height {
                proof {
                    assert(is_first(n as int, ragged, j as int));
                    lemma_first_where(n as int, ragged);
                }
                return Some(
                    FrameError::LengthMismatch {
                        name: columns[j].name.clone(),
                        expected: height,
                        found,
                    },
                );
            }
            j = j + 1;
        }
    }
    proof {
        lemma_first_where(n as int, ragged);
    }
    None
}

/// The view of the outcome of making a frame.
pub open spec fn made_view(outcome: Result<Frame, FrameError>) -> Result<
    FrameView,
    FrameErrorView,
> {
    match outcome {
        Ok(frame) => Ok(frame@),
        Err(e) => Err(e@),
    }
}

/// Named columns of one common length, no two of one name.
#[derive(Debug, PartialEq, Eq)]
pub struct Frame {
    columns: Vec<Column>,
}

impl View for Frame {
    type V = FrameView;

    closed spec fn view(&self) -> FrameView {
        FrameView { columns: column_views(self.columns@) }
    }
}

impl Clone for Frame {
    /// A copy of this frame.
    fn clone(&self) -> (copy: Frame)
        ensures
            copy@ == self@,
    {
        proof {
            use_type_invariant(self);
        }
        let mut columns: Vec<Column> = Vec::new();
        let n = self.columns.len();
        let mut i: usize = 0;
        while i < n
            invariant
                i <= n,
                n == self.columns@.len(),
                columns@.len() == i,
                forall|k: int| 0 <= k < i ==> (#[trigger] columns@[k])@ == self.columns@[k]@,
            decreases n - i,
        {
            columns.push(self.columns[i].duplicate());
            i = i + 1;
        }
        assert(column_views(columns@) =~= column_views(self.columns@));
        Frame { columns }
    }
}

impl Frame {
    #[verifier::type_invariant]
    spec fn well_formed(self) -> bool {
        self@.wf()
    }

    /// The frame without columns and without rows.
    pub fn empty() -> (frame: Frame)
        ensures
            frame@.columns == Seq::<ColumnView>::empty(),
            frame@.wf(),
    {
        let columns: Vec<Column> = Vec::new();
        assert(column_views(columns@) =~= Seq::<ColumnView>::empty());
        Frame { columns }
    }

    /// Makes a frame of the given columns, in their order. Fails if a name
    /// occurs twice or the columns differ in length; a list without columns
    /// makes the frame of no rows.
    pub fn new(columns: Vec<Column>) -> (outcome: Result<Frame, FrameError>)
        ensures
            made_view(outcome) == frame_of(column_views(columns@)),
            outcome matches Ok(frame) ==> frame@.wf(),
    {
        let ghost views = column_views(columns@);
        proof {
            lemma_frame_of(views);
            lemma_length_error(views);
        }
        match repeated_name(&columns) {
            Some(e) => {
                return Err(e);
            },
            None => {},
        }
        match uneven_column(&columns) {
            Some(e) => {
                return Err(e);
            },
            None => {},
        }
        proof {
            assert forall|i: int| 0 <= i < views.len() implies (#[trigger] views[i]).typed() by {
                columns@[i].values.lemma_cells_fit();
            }
        }
        Ok(Frame { columns })
    }

    /// Takes columns that are known to make a frame.
    pub(crate) fn from_well_formed(columns: Vec<Column>) -> (frame: Frame)
        requires
            (FrameView { columns: column_views(columns@) }).wf(),
        ensures
            frame@.columns == column_views(columns@),
            frame@.wf(),
    {
        Frame { columns }
    }

    /// The name and kind of each column, in order.
    pub fn schema(&self) -> (fields: Vec<Field>)
        ensures
            field_views(fields@) == self@.schema(),
            self@.wf(),
    {
        proof {
            use_type_invariant(self);
        }
        let mut fields: Vec<Field> = Vec::new();
        let n = self.columns.len();
        let mut i: usize = 0;
        while i < n
            invariant
                i <= n,
                n == self.columns@.len(),
                fields@.len() == i,
                forall|k: int| 0 <= k < i ==> (#[trigger] fields@[k])@ == self@.schema()[k],
            decreases n - i,
        {
            fields.push(
                Field { name: self.columns[i].name.clone(), kind: self.columns[i].kind() },
            );
            i = i + 1;
        }
        fields
    }

    /// The number of columns.
    pub fn width(&self) -> (n: usize)
        ensures
            n == self@.width(),
    {
        self.columns.len()
    }

    /// The number of rows.
    pub fn height(&self) -> (n: usize)
        ensures
            n == self@.height(),
    {
        if self.columns.len() == 0 {
            0
        } else {
            self.columns[0].len()
        }
    }

    /// The columns, in order.
    pub fn columns(&self) -> (columns: &Vec<Column>)
        ensures
            column_views(columns@) == self@.columns,
            self@.wf(),
    {
        proof {
            use_type_invariant(self);
        }
        &self.columns
    }

    /// The column called `name`, if the frame has one.
    pub fn column(&self, name: &str) -> (found: Option<&Column>)
        ensures
            self@.wf(),
            match self@.position(name@) {
                Some(i) => found matches Some(c) && c@ == self@.columns[i],
                None => found is None,
            },
    {
        proof {
            use_type_invariant(self);
        }
        let ghost named = |i: int| self@.columns[i].name == name@;
        let n = self.columns.len();
        let mut i: usize = 0;
        while i < n
            invariant
                i <= n,
                n == self.columns@.len(),
                self@.wf(),
                named == |i: int| self@.columns[i].name == name@,
                forall|k: int| 0 <= k < i ==> !#[trigger] named(k),
            decreases n - i,
        {
            if str_equal(self.columns[i].name.as_str(), name) {
                proof {
                    assert(is_first(n as int, named, i as int));
                    lemma_first_where(n as int, named);
                }
                return Some(&self.columns[i]);
            }
            i = i + 1;
        }
        proof {
            lemma_first_where(n as int, named);
        }
        None
    }

    /// Gives the columns up, in order.
    pub fn into_columns(self) -> (columns: Vec<Column>)
        ensures
            column_views(columns@) == self@.columns,
            self@.wf(),
    {
        proof {
            use_type_invariant(&self);
        }
        self.columns
    }
}

} // verus!
