//! Materialised column data: the typed arrays that decoding a branch yields,
//! and the nullable columns that frames hold.
//!
//! Floating-point values are carried as their IEEE 754 bit patterns (`u32` for
//! single, `u64` for double precision), so that a value read is a value
//! written, bit for bit. A cell that no source supplied is `None`: absence is
//! explicit per element and never a sentinel value.

use vstd::prelude::*;
use crate::kind::ScalarKind;

verus! {

/// One cell of a column, as contracts speak of it.
pub enum Cell {
    /// No value.
    Null,
    /// A single-precision value, as its bit pattern.
    Float32(u32),
    /// A double-precision value, as its bit pattern.
    Float64(u64),
    Int32(i32),
    Int64(i64),
    UInt32(u32),
    UInt64(u64),
    Text(Seq<char>),
}

impl Cell {
    /// Whether the cell is null or holds a value of `kind`.
    pub open spec fn fits(self, kind: ScalarKind) -> bool {
        match self {
            Cell::Null => true,
            Cell::Float32(_) => kind == ScalarKind::Float32,
            Cell::Float64(_) => kind == ScalarKind::Float64,
            Cell::Int32(_) => kind == ScalarKind::Int32,
            Cell::Int64(_) => kind == ScalarKind::Int64,
            Cell::UInt32(_) => kind == ScalarKind::UInt32,
            Cell::UInt64(_) => kind == ScalarKind::UInt64,
            Cell::Text(_) => kind == ScalarKind::Utf8String,
        }
    }
}

/// `n` null cells.
pub open spec fn nulls(n: nat) -> Seq<Cell> {
    Seq::new(n, |i: int| Cell::Null)
}

/// The cell for an optional single-precision value.
pub open spec fn cell_f32(o: Option<u32>) -> Cell {
    match o {
        Some(x) => Cell::Float32(x),
        None => Cell::Null,
    }
}

/// The cell for an optional double-precision value.
pub open spec fn cell_f64(o: Option<u64>) -> Cell {
    match o {
        Some(x) => Cell::Float64(x),
        None => Cell::Null,
    }
}

/// The cell for an optional signed 32-bit value.
pub open spec fn cell_i32(o: Option<i32>) -> Cell {
    match o {
        Some(x) => Cell::Int32(x),
        None => Cell::Null,
    }
}

/// The cell for an optional signed 64-bit value.
pub open spec fn cell_i64(o: Option<i64>) -> Cell {
    match o {
        Some(x) => Cell::Int64(x),
        None => Cell::Null,
    }
}

/// The cell for an optional unsigned 32-bit value.
pub open spec fn cell_u32(o: Option<u32>) -> Cell {
    match o {
        Some(x) => Cell::UInt32(x),
        None => Cell::Null,
    }
}

/// The cell for an optional unsigned 64-bit value.
pub open spec fn cell_u64(o: Option<u64>) -> Cell {
    match o {
        Some(x) => Cell::UInt64(x),
        None => Cell::Null,
    }
}

/// The cell for an optional string.
pub open spec fn cell_text(o: Option<String>) -> Cell {
    match o {
        Some(s) => Cell::Text(s@),
        None => Cell::Null,
    }
}

/// What decoding one branch yields: every element of the branch, in row
/// order, all of one kind.
#[derive(Clone, Debug, PartialEq, Eq)]
pub enum TypedArray {
    /// Single-precision values, as bit patterns.
    Float32(Vec<u32>),
    /// Double-precision values, as bit patterns.
    Float64(Vec<u64>),
    Int32(Vec<i32>),
    Int64(Vec<i64>),
    UInt32(Vec<u32>),
    UInt64(Vec<u64>),
    Utf8(Vec<String>),
}

impl View for TypedArray {
    type V = Seq<Cell>;

    open spec fn view(&self) -> Seq<Cell> {
        match self {
            TypedArray::Float32(v) => v@.map_values(|x: u32| Cell::Float32(x)),
            TypedArray::Float64(v) => v@.map_values(|x: u64| Cell::Float64(x)),
            TypedArray::Int32(v) => v@.map_values(|x: i32| Cell::Int32(x)),
            TypedArray::Int64(v) => v@.map_values(|x: i64| Cell::Int64(x)),
            TypedArray::UInt32(v) => v@.map_values(|x: u32| Cell::UInt32(x)),
            TypedArray::UInt64(v) => v@.map_values(|x: u64| Cell::UInt64(x)),
            TypedArray::Utf8(v) => v@.map_values(|s: String| Cell::Text(s@)),
        }
    }
}

impl TypedArray {
    /// The kind of every element.
    pub open spec fn spec_kind(&self) -> ScalarKind {
        match self {
            TypedArray::Float32(_) => ScalarKind::Float32,
            TypedArray::Float64(_) => ScalarKind::Float64,
            TypedArray::Int32(_) => ScalarKind::Int32,
            TypedArray::Int64(_) => ScalarKind::Int64,
            TypedArray::UInt32(_) => ScalarKind::UInt32,
            TypedArray::UInt64(_) => ScalarKind::UInt64,
            TypedArray::Utf8(_) => ScalarKind::Utf8String,
        }
    }

    /// The kind of every element.
    #[verifier::when_used_as_spec(spec_kind)]
    pub fn kind(&self) -> (kind: ScalarKind)
        ensures
            kind == self.spec_kind(),
    {
        match self {
            TypedArray::Float32(_) => ScalarKind::Float32,
            TypedArray::Float64(_) => ScalarKind::Float64,
            TypedArray::Int32(_) => ScalarKind::Int32,
            TypedArray::Int64(_) => ScalarKind::Int64,
            TypedArray::UInt32(_) => ScalarKind::UInt32,
            TypedArray::UInt64(_) => ScalarKind::UInt64,
            TypedArray::Utf8(_) => ScalarKind::Utf8String,
        }
    }

    /// The number of elements.
    pub fn len(&self) -> (n: usize)
        ensures
            n == self@.len(),
    {
        match self {
            TypedArray::Float32(v) => v.len(),
            TypedArray::Float64(v) => v.len(),
            TypedArray::Int32(v) => v.len(),
            TypedArray::Int64(v) => v.len(),
            TypedArray::UInt32(v) => v.len(),
            TypedArray::UInt64(v) => v.len(),
            TypedArray::Utf8(v) => v.len(),
        }
    }

    /// No element of a decoded array is null, and each is of the array's kind.
    pub proof fn lemma_all_present(&self)
        ensures
            forall|i: int|
                0 <= i < self@.len() ==> #[trigger] self@[i] != Cell::Null && self@[i].fits(
                    self.spec_kind(),
                ),
    {
    }
}

/// The cells of a column: one vector per kind, each element present or null.
#[derive(Clone, Debug, PartialEq, Eq)]
pub enum ColumnValues {
    /// Single-precision values, as bit patterns.
    Float32(Vec<Option<u32>>),
    /// Double-precision values, as bit patterns.
    Float64(Vec<Option<u64>>),
    Int32(Vec<Option<i32>>),
    Int64(Vec<Option<i64>>),
    UInt32(Vec<Option<u32>>),
    UInt64(Vec<Option<u64>>),
    Utf8(Vec<Option<String>>),
}

impl View for ColumnValues {
    type V = Seq<Cell>;

    open spec fn view(&self) -> Seq<Cell> {
        match self {
            ColumnValues::Float32(v) => v@.map_values(|o: Option<u32>| cell_f32(o)),
            ColumnValues::Float64(v) => v@.map_values(|o: Option<u64>| cell_f64(o)),
            ColumnValues::Int32(v) => v@.map_values(|o: Option<i32>| cell_i32(o)),
            ColumnValues::Int64(v) => v@.map_values(|o: Option<i64>| cell_i64(o)),
            ColumnValues::UInt32(v) => v@.map_values(|o: Option<u32>| cell_u32(o)),
            ColumnValues::UInt64(v) => v@.map_values(|o: Option<u64>| cell_u64(o)),
            ColumnValues::Utf8(v) => v@.map_values(|o: Option<String>| cell_text(o)),
        }
    }
}

/// Every value, present.
fn wrap_present<T>(values: Vec<T>) -> (out: Vec<Option<T>>)
    ensures
        out@ == values@.map_values(|x: T| Some(x)),
{
    let mut out: Vec<Option<T>> = Vec::new();
    let ghost all = values@;
    for x in it: values
        invariant
            it.seq() == all,
            out@ == all.take(it.index() as int).map_values(|x: T| Some(x)),
    {
        assert(all.take(it.index() + 1).map_values(|x: T| Some(x)) =~= all.take(
            it.index() as int,
        ).map_values(|x: T| Some(x)).push(Some(x)));
        out.push(Some(x));
    }
    out
}

/// Appends the cells of `other`.
fn push_copies<T: Copy>(acc: &mut Vec<Option<T>>, other: &Vec<Option<T>>)
    ensures
        final(acc)@ == old(acc)@ + other@,
{
    let n = other.len();
    let mut i: usize = 0;
    while i < n
        invariant
            i <= n,
            n == other@.len(),
            acc@ == old(acc)@ + other@.take(i as int),
        decreases n - i,
    {
        let item: Option<T> = other[i];
        acc.push(item);
        assert(other@.take(i + 1) =~= other@.take(i as int).push(other@[i as int]));
        i = i + 1;
    }
}

/// Appends copies of the cells of `other`.
fn push_text_copies(acc: &mut Vec<Option<String>>, other: &Vec<Option<String>>)
    ensures
        final(acc)@ == old(acc)@ + other@,
{
    let n = other.len();
    let mut i: usize = 0;
    while i < n
        invariant
            i <= n,
            n == other@.len(),
            acc@ == old(acc)@ + other@.take(i as int),
        decreases n - i,
    {
        let item: Option<String> = match &other[i] {
            Some(s) => Some(s.clone()),
            None => None,
        };
        acc.push(item);
        i = i + 1;
    }
}

/// Appends `n` null cells.
fn push_nulls<T>(acc: &mut Vec<Option<T>>, n: usize)
    ensures
        final(acc)@ == old(acc)@ + Seq::new(n as nat, |i: int| None::<T>),
{
    let mut i: usize = 0;
    while i < n
        invariant
            i <= n,
            acc@ == old(acc)@ + Seq::new(i as nat, |j: int| None::<T>),
        decreases n - i,
    {
        acc.push(None);
        i = i + 1;
    }
}

impl ColumnValues {
    /// The kind of every present cell.
    pub open spec fn spec_kind(&self) -> ScalarKind {
        match self {
            ColumnValues::Float32(_) => ScalarKind::Float32,
            ColumnValues::Float64(_) => ScalarKind::Float64,
            ColumnValues::Int32(_) => ScalarKind::Int32,
            ColumnValues::Int64(_) => ScalarKind::Int64,
            ColumnValues::UInt32(_) => ScalarKind::UInt32,
            ColumnValues::UInt64(_) => ScalarKind::UInt64,
            ColumnValues::Utf8(_) => ScalarKind::Utf8String,
        }
    }

    /// The kind of every present cell.
    #[verifier::when_used_as_spec(spec_kind)]
    pub fn kind(&self) -> (kind: ScalarKind)
        ensures
            kind == self.spec_kind(),
    {
        match self {
            ColumnValues::Float32(_) => ScalarKind::Float32,
            ColumnValues::Float64(_) => ScalarKind::Float64,
            ColumnValues::Int32(_) => ScalarKind::Int32,
            ColumnValues::Int64(_) => ScalarKind::Int64,
            ColumnValues::UInt32(_) => ScalarKind::UInt32,
            ColumnValues::UInt64(_) => ScalarKind::UInt64,
            ColumnValues::Utf8(_) => ScalarKind::Utf8String,
        }
    }

    /// The number of cells, null ones included.
    pub fn len(&self) -> (n: usize)
        ensures
            n == self@.len(),
    {
        match self {
            ColumnValues::Float32(v) => v.len(),
            ColumnValues::Float64(v) => v.len(),
            ColumnValues::Int32(v) => v.len(),
            ColumnValues::Int64(v) => v.len(),
            ColumnValues::UInt32(v) => v.len(),
            ColumnValues::UInt64(v) => v.len(),
            ColumnValues::Utf8(v) => v.len(),
        }
    }

    /// A column of `kind` with no cells.
    pub fn empty(kind: ScalarKind) -> (values: ColumnValues)
        ensures
            values.spec_kind() == kind,
            values@ == Seq::<Cell>::empty(),
    {
        match kind {
            ScalarKind::Float32 => ColumnValues::Float32(Vec::new()),
            ScalarKind::Float64 => ColumnValues::Float64(Vec::new()),
            ScalarKind::Int32 => ColumnValues::Int32(Vec::new()),
            ScalarKind::Int64 => ColumnValues::Int64(Vec::new()),
            ScalarKind::UInt32 => ColumnValues::UInt32(Vec::new()),
            ScalarKind::UInt64 => ColumnValues::UInt64(Vec::new()),
            ScalarKind::Utf8String => ColumnValues::Utf8(Vec::new()),
        }
    }

    /// The cells of a decoded array: the same values in the same order, every
    /// one present.
    pub fn from_array(array: TypedArray) -> (values: ColumnValues)
        ensures
            values.spec_kind() == array.spec_kind(),
            values@ == array@,
    {
        match array {
            TypedArray::Float32(v) => ColumnValues::Float32(wrap_present(v)),
            TypedArray::Float64(v) => ColumnValues::Float64(wrap_present(v)),
            TypedArray::Int32(v) => ColumnValues::Int32(wrap_present(v)),
            TypedArray::Int64(v) => ColumnValues::Int64(wrap_present(v)),
            TypedArray::UInt32(v) => ColumnValues::UInt32(wrap_present(v)),
            TypedArray::UInt64(v) => ColumnValues::UInt64(wrap_present(v)),
            TypedArray::Utf8(v) => ColumnValues::Utf8(wrap_present(v)),
        }
    }

    /// Appends copies of the cells of `other`, if it is of the same kind.
    /// Returns whether it was; if not, nothing changes.
    pub fn extend_from(&mut self, other: &ColumnValues) -> (same_kind: bool)
        ensures
            same_kind == (old(self).spec_kind() == other.spec_kind()),
            final(self).spec_kind() == old(self).spec_kind(),
            same_kind ==> final(self)@ == old(self)@ + other@,
            !same_kind ==> *final(self) == *old(self),
    {
        match (&mut *self, other) {
            (ColumnValues::Float32(a), ColumnValues::Float32(b)) => {
                push_copies(a, b);
                true
            },
            (ColumnValues::Float64(a), ColumnValues::Float64(b)) => {
                push_copies(a, b);
                true
            },
            (ColumnValues::Int32(a), ColumnValues::Int32(b)) => {
                push_copies(a, b);
                true
            },
            (ColumnValues::Int64(a), ColumnValues::Int64(b)) => {
                push_copies(a, b);
                true
            },
            (ColumnValues::UInt32(a), ColumnValues::UInt32(b)) => {
                push_copies(a, b);
                true
            },
            (ColumnValues::UInt64(a), ColumnValues::UInt64(b)) => {
                push_copies(a, b);
                true
            },
            (ColumnValues::Utf8(a), ColumnValues::Utf8(b)) => {
                push_text_copies(a, b);
                true
            },
            _ => false,
        }
    }

    /// Appends `n` null cells.
    pub fn extend_nulls(&mut self, n: usize)
        ensures
            final(self).spec_kind() == old(self).spec_kind(),
            final(self)@ == old(self)@ + nulls(n as nat),
    {
        match self {
            ColumnValues::Float32(a) => push_nulls(a, n),
            ColumnValues::Float64(a) => push_nulls(a, n),
            ColumnValues::Int32(a) => push_nulls(a, n),
            ColumnValues::Int64(a) => push_nulls(a, n),
            ColumnValues::UInt32(a) => push_nulls(a, n),
            ColumnValues::UInt64(a) => push_nulls(a, n),
            ColumnValues::Utf8(a) => push_nulls(a, n),
        }
    }

    /// Every cell is null or of the column's kind.
    pub proof fn lemma_cells_fit(&self)
        ensures
            forall|i: int| 0 <= i < self@.len() ==> (#[trigger] self@[i]).fits(self.spec_kind()),
    {
    }
}

/// A named column.
#[derive(Clone, Debug, PartialEq, Eq)]
pub struct Column {
    pub name: String,
    pub values: ColumnValues,
}

/// A column as contracts speak of it.
pub struct ColumnView {
    pub name: Seq<char>,
    pub kind: ScalarKind,
    pub cells: Seq<Cell>,
}

impl ColumnView {
    /// Every cell is null or of the column's kind.
    pub open spec fn typed(self) -> bool {
        forall|i: int| 0 <= i < self.cells.len() ==> (#[trigger] self.cells[i]).fits(self.kind)
    }

    /// No cell is null.
    pub open spec fn complete(self) -> bool {
        forall|i: int| 0 <= i < self.cells.len() ==> #[trigger] self.cells[i] != Cell::Null
    }
}

impl View for Column {
    type V = ColumnView;

    open spec fn view(&self) -> ColumnView {
        ColumnView { name: self.name@, kind: self.values.spec_kind(), cells: self.values@ }
    }
}

impl Column {
    /// A copy of this column.
    pub fn duplicate(&self) -> (copy: Column)
        ensures
            copy@ == self@,
    {
        let mut values = ColumnValues::empty(self.values.kind());
        let same_kind = values.extend_from(&self.values);
        assert(same_kind);
        Column { name: self.name.clone(), values }
    }

    /// The column that extraction of a branch produces: the branch's name and
    /// its decoded elements, as many and in the same order, none null.
    pub fn from_array(name: String, array: TypedArray) -> (column: Column)
        ensures
            column@.name == name@,
            column@.kind == array.spec_kind(),
            column@.cells == array@,
            column@.complete(),
    {
        proof {
            array.lemma_all_present();
        }
        Column { name, values: ColumnValues::from_array(array) }
    }

    /// The number of cells.
    pub fn len(&self) -> (n: usize)
        ensures
            n == self@.cells.len(),
    {
        self.values.len()
    }

    /// The kind of the column.
    pub fn kind(&self) -> (kind: ScalarKind)
        ensures
            kind == self@.kind,
    {
        self.values.kind()
    }
}

} // verus!
