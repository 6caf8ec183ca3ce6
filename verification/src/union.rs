//! The diagonal union of frames.
//!
//! Frames whose column sets differ are combined into one. The result has
//! every column that any input has, in the order in which the names first
//! appear; its rows are the rows of the inputs, one frame after the other.
//! Where a frame lacks a column, the cells of that frame's rows are null.
//! A name keeps the kind it first appears with; a frame that has the name
//! with another kind makes the union fail.

use vstd::prelude::*;
use vstd::string::StringExecFns;
use crate::array::{nulls, Cell, Column, ColumnValues, ColumnView};
use crate::frame::{
    column_names, column_views, field_views, uniform, Field, FieldView, Frame, FrameView,
};
use crate::kind::ScalarKind;
use crate::search::{first_where, is_first, lemma_first_where};
use crate::text::str_equal;

verus! {

/// The views of some frames, in order.
pub open spec fn frame_views(frames: Seq<Frame>) -> Seq<FrameView> {
    frames.map_values(|f: Frame| f@)
}

/// The names of some fields, in order.
pub open spec fn field_names(fields: Seq<FieldView>) -> Seq<Seq<char>> {
    fields.map_values(|f: FieldView| f.name)
}

/// The fields of all frames: frame after frame, and within a frame in column
/// order.
pub open spec fn all_fields(frames: Seq<FrameView>) -> Seq<FieldView>
    decreases frames.len(),
{
    if frames.len() == 0 {
        Seq::empty()
    } else {
        all_fields(frames.drop_last()) + frames.last().schema()
    }
}

/// The fields whose name has not occurred before them, order kept.
pub open spec fn first_of_each_name(fields: Seq<FieldView>) -> Seq<FieldView>
    decreases fields.len(),
{
    if fields.len() == 0 {
        Seq::empty()
    } else {
        let earlier = first_of_each_name(fields.drop_last());
        if field_names(fields.drop_last()).contains(fields.last().name) {
            earlier
        } else {
            earlier.push(fields.last())
        }
    }
}

/// The columns of the union: each name once, where it first appears and with
/// the kind it has there.
pub open spec fn union_schema(frames: Seq<FrameView>) -> Seq<FieldView> {
    first_of_each_name(all_fields(frames))
}

/// What one frame gives to the union's column `name`: the cells of its
/// column of that name, or else a null for each of its rows.
pub open spec fn contribution(frame: FrameView, name: Seq<char>) -> Seq<Cell> {
    match frame.position(name) {
        Some(i) => frame.columns[i].cells,
        None => nulls(frame.height()),
    }
}

/// The cells of the union's column `name`: what each frame gives, frame
/// after frame.
pub open spec fn stacked(frames: Seq<FrameView>, name: Seq<char>) -> Seq<Cell>
    decreases frames.len(),
{
    if frames.len() == 0 {
        Seq::empty()
    } else {
        stacked(frames.drop_last(), name) + contribution(frames.last(), name)
    }
}

/// The number of rows of all frames together.
pub open spec fn total_height(frames: Seq<FrameView>) -> nat
    decreases frames.len(),
{
    if frames.len() == 0 {
        0
    } else {
        total_height(frames.drop_last()) + frames.last().height()
    }
}

/// Whether a frame has the field's name with another kind.
pub open spec fn conflicts(frame: FrameView, field: FieldView) -> bool {
    frame.position(field.name) matches Some(i) && frame.columns[i].kind != field.kind
}

/// The first field, in schema order, that a frame conflicts with.
pub open spec fn conflicting_field(frame: FrameView, schema: Seq<FieldView>) -> Option<int> {
    first_where(schema.len() as int, |s: int| conflicts(frame, schema[s]))
}

/// The first frame that conflicts with a field of the schema.
pub open spec fn conflicting_frame(frames: Seq<FrameView>, schema: Seq<FieldView>) -> Option<
    int,
> {
    first_where(frames.len() as int, |f: int| conflicting_field(frames[f], schema) is Some)
}

/// The union's column for a field of its schema.
pub open spec fn union_column(frames: Seq<FrameView>, field: FieldView) -> ColumnView {
    ColumnView { name: field.name, kind: field.kind, cells: stacked(frames, field.name) }
}

/// Why frames have no union.
#[derive(Clone, Debug, PartialEq, Eq)]
pub enum UnionError {
    /// A frame has this column with another kind than the frame in which the
    /// name first appears.
    KindConflict { column: String, expected: ScalarKind, found: ScalarKind },
}

/// A union error as contracts speak of it.
pub enum UnionErrorView {
    KindConflict { column: Seq<char>, expected: ScalarKind, found: ScalarKind },
}

impl View for UnionError {
    type V = UnionErrorView;

    open spec fn view(&self) -> UnionErrorView {
        match self {
            UnionError::KindConflict { column, expected, found } => UnionErrorView::KindConflict {
                column: column@,
                expected: *expected,
                found: *found,
            },
        }
    }
}

impl UnionErrorView {
    /// The text of this error.
    pub open spec fn text(self) -> Seq<char> {
        match self {
            UnionErrorView::KindConflict { column, expected, found } => "column '"@ + column
                + "' is "@ + expected.tag() + " in one frame and "@ + found.tag()
                + " in another"@,
        }
    }
}

impl UnionError {
    /// A message for the caller.
    pub fn message(&self) -> (line: String)
        ensures
            line@ == self@.text(),
    {
        match self {
            UnionError::KindConflict { column, expected, found } => {
                let mut line = String::from_str("column '");
                line.append(column.as_str());
                line.append("' is ");
                line.append(expected.type_tag());
                line.append(" in one frame and ");
                line.append(found.type_tag());
                line.append(" in another");
                line
            },
        }
    }
}

/// The error for a frame that has the field's name with another kind.
pub open spec fn conflict_error(frame: FrameView, field: FieldView) -> UnionErrorView {
    UnionErrorView::KindConflict {
        column: field.name,
        expected: field.kind,
        found: frame.columns[frame.position(field.name).unwrap()].kind,
    }
}

/// The diagonal union of frames, or the first conflict that prevents it: in
/// the first frame that has one, at the first field of the union's schema.
pub open spec fn union_of(frames: Seq<FrameView>) -> Result<FrameView, UnionErrorView> {
    let schema = union_schema(frames);
    match conflicting_frame(frames, schema) {
        Some(f) => Err(
            conflict_error(frames[f], schema[conflicting_field(frames[f], schema).unwrap()]),
        ),
        None => Ok(
            FrameView { columns: schema.map_values(|field: FieldView| union_column(frames, field)) },
        ),
    }
}

/// The view of the outcome of a union.
pub open spec fn union_view(outcome: Result<Frame, UnionError>) -> Result<
    FrameView,
    UnionErrorView,
> {
    match outcome {
        Ok(frame) => Ok(frame@),
        Err(e) => Err(e@),
    }
}

/// Adding a frame adds its fields behind those of the frames before it.
pub proof fn lemma_all_fields_push(frames: Seq<FrameView>, frame: FrameView)
    ensures
        all_fields(frames.push(frame)) == all_fields(frames) + frame.schema(),
{
    assert(frames.push(frame).drop_last() =~= frames);
}

/// A field behind the others is kept exactly if its name is new.
pub proof fn lemma_first_of_each_name_push(fields: Seq<FieldView>, field: FieldView)
    ensures
        first_of_each_name(fields.push(field)) == if field_names(fields).contains(field.name) {
            first_of_each_name(fields)
        } else {
            first_of_each_name(fields).push(field)
        },
{
    assert(fields.push(field).drop_last() =~= fields);
}

/// Keeping the first field of each name loses no name and repeats none.
pub proof fn lemma_first_of_each_name(fields: Seq<FieldView>)
    ensures
        field_names(first_of_each_name(fields)).no_duplicates(),
        forall|name: Seq<char>|
            field_names(first_of_each_name(fields)).contains(name) <==> field_names(
                fields,
            ).contains(name),
        forall|i: int|
            0 <= i < first_of_each_name(fields).len() ==> fields.contains(
                #[trigger] first_of_each_name(fields)[i],
            ),
    decreases fields.len(),
{
    let kept = first_of_each_name(fields);
    if fields.len() > 0 {
        let before = fields.drop_last();
        let last = fields.last();
        let earlier = first_of_each_name(before);
        lemma_first_of_each_name(before);
        assert forall|name: Seq<char>|
            field_names(kept).contains(name) <==> field_names(fields).contains(name) by {
            if field_names(fields).contains(name) {
                let i = choose|i: int| 0 <= i < fields.len() && field_names(fields)[i] == name;
                if i < fields.len() - 1 {
                    assert(field_names(before)[i] == name);
                    assert(field_names(before).contains(name));
                    let j = choose|j: int|
                        0 <= j < earlier.len() && field_names(earlier)[j] == name;
                    assert(field_names(kept)[j] == name);
                } else if field_names(before).contains(last.name) {
                    assert(field_names(earlier).contains(name));
                } else {
                    assert(field_names(kept)[kept.len() - 1] == name);
                }
            }
            if field_names(kept).contains(name) {
                let j = choose|j: int| 0 <= j < kept.len() && field_names(kept)[j] == name;
                if j < earlier.len() {
                    assert(field_names(earlier)[j] == name);
                    assert(field_names(before).contains(name));
                    let i = choose|i: int|
                        0 <= i < before.len() && field_names(before)[i] == name;
                    assert(field_names(fields)[i] == name);
                } else {
                    assert(field_names(fields)[fields.len() - 1] == name);
                }
            }
        }
        assert forall|i: int, j: int|
            0 <= i < kept.len() && 0 <= j < kept.len() && i != j implies field_names(kept)[i]
            != field_names(kept)[j] by {
            if i < earlier.len() && j < earlier.len() {
                assert(field_names(earlier)[i] != field_names(earlier)[j]);
            } else if i < earlier.len() {
                assert(field_names(earlier)[i] == field_names(kept)[i]);
            } else {
                assert(field_names(earlier)[j] == field_names(kept)[j]);
            }
        }
        assert forall|i: int| 0 <= i < kept.len() implies fields.contains(#[trigger] kept[i]) by {
            if i < earlier.len() {
                let k = choose|k: int| 0 <= k < before.len() && before[k] == earlier[i];
                assert(fields[k] == kept[i]);
            } else {
                assert(fields[fields.len() - 1] == kept[i]);
            }
        }
    }
}

/// Whether a list of fields has one of this name.
fn has_field(fields: &Vec<Field>, name: &str) -> (found: bool)
    ensures
        found == field_names(field_views(fields@)).contains(name@),
{
    let n = fields.len();
    let mut i: usize = 0;
    while i < n
        invariant
            i <= n,
            n == fields@.len(),
            forall|k: int| 0 <= k < i ==> (#[trigger] fields@[k]).name@ != name@,
        decreases n - i,
    {
        if str_equal(fields[i].name.as_str(), name) {
            assert(field_names(field_views(fields@))[i as int] == name@);
            return true;
        }
        i = i + 1;
    }
    false
}

/// The columns that the union of the frames has: each name once, in order of
/// first appearance, with the kind it first appears with.
pub fn merged_schema(frames: &Vec<Frame>) -> (schema: Vec<Field>)
    ensures
        field_views(schema@) == union_schema(frame_views(frames@)),
        forall|f: int| 0 <= f < frames@.len() ==> (#[trigger] frame_views(frames@)[f]).wf(),
{
    let ghost views = frame_views(frames@);
    let mut schema: Vec<Field> = Vec::new();
    let ghost mut seen: Seq<FieldView> = Seq::empty();
    let n = frames.len();
    let mut f: usize = 0;
    assert(views.take(0) =~= Seq::<FrameView>::empty());
    while f < n
        invariant
            f <= n,
            n == frames@.len(),
            views == frame_views(frames@),
            seen == all_fields(views.take(f as int)),
            field_views(schema@) == first_of_each_name(seen),
            forall|k: int| 0 <= k < f ==> (#[trigger] views[k]).wf(),
        decreases n - f,
    {
        let columns = frames[f].columns();
        assert(views[f as int] == frames@[f as int]@);
        let ghost own = views[f as int].schema();
        let ghost before = seen;
        let width = columns.len();
        let mut c: usize = 0;
        assert(own.take(0) =~= Seq::<FieldView>::empty());
        while c < width
            invariant
                c <= width,
                f < n,
                n == frames@.len(),
                views == frame_views(frames@),
                width == columns@.len(),
                column_views(columns@) == views[f as int].columns,
                own == views[f as int].schema(),
                seen == before + own.take(c as int),
                field_views(schema@) == first_of_each_name(seen),
            decreases width - c,
        {
            let column = &columns[c];
            proof {
                lemma_first_of_each_name(seen);
                lemma_first_of_each_name_push(seen, own[c as int]);
            }
            if !has_field(&schema, column.name.as_str()) {
                let ghost old_schema = field_views(schema@);
                schema.push(Field { name: column.name.clone(), kind: column.kind() });
                assert(field_views(schema@) =~= old_schema.push(own[c as int]));
            }
            proof {
                seen = seen.push(own[c as int]);
            }
            c = c + 1;
        }
        proof {
            assert(views.take(f + 1) =~= views.take(f as int).push(views[f as int]));
            lemma_all_fields_push(views.take(f as int), views[f as int]);
        }
        f = f + 1;
    }
    assert(views.take(n as int) =~= views);
    schema
}

/// Where a frame has a column of the name, `position` says where.
pub proof fn lemma_position(frame: FrameView, name: Seq<char>)
    ensures
        match frame.position(name) {
            Some(i) => 0 <= i < frame.columns.len() && frame.columns[i].name == name,
            None => !frame.names().contains(name),
        },
{
    let named = |i: int| frame.columns[i].name == name;
    lemma_first_where(frame.columns.len() as int, named);
    if frame.position(name) is None && frame.names().contains(name) {
        let i = choose|i: int| 0 <= i < frame.names().len() && frame.names()[i] == name;
        assert(named(i));
    }
}

/// In frames of uniform height, each gives the union's column as many cells
/// as it has rows, so the column has as many cells as there are rows in all.
pub proof fn lemma_stacked_len(frames: Seq<FrameView>, name: Seq<char>)
    requires
        forall|f: int| 0 <= f < frames.len() ==> uniform((#[trigger] frames[f]).columns),
    ensures
        stacked(frames, name).len() == total_height(frames),
        forall|f: int|
            0 <= f < frames.len() ==> contribution(#[trigger] frames[f], name).len()
                == frames[f].height(),
    decreases frames.len(),
{
    assert forall|f: int| 0 <= f < frames.len() implies contribution(
        #[trigger] frames[f],
        name,
    ).len() == frames[f].height() by {
        lemma_position(frames[f], name);
    }
    if frames.len() > 0 {
        assert forall|f: int| 0 <= f < frames.drop_last().len() implies uniform(
            (#[trigger] frames.drop_last()[f]).columns,
        ) by {
            assert(frames.drop_last()[f] == frames[f]);
        }
        lemma_stacked_len(frames.drop_last(), name);
    }
}

/// Where no frame conflicts with a field, every cell of the union's column
/// for it is null or of the field's kind.
pub proof fn lemma_stacked_fits(frames: Seq<FrameView>, field: FieldView)
    requires
        forall|f: int| 0 <= f < frames.len() ==> (#[trigger] frames[f]).wf(),
        forall|f: int| 0 <= f < frames.len() ==> !conflicts(#[trigger] frames[f], field),
    ensures
        union_column(frames, field).typed(),
    decreases frames.len(),
{
    if frames.len() > 0 {
        let before = frames.drop_last();
        let last = frames.last();
        assert forall|f: int| 0 <= f < before.len() implies (#[trigger] before[f]).wf()
            && !conflicts(before[f], field) by {
            assert(before[f] == frames[f]);
        }
        lemma_stacked_fits(before, field);
        lemma_position(last, field.name);
        let given = contribution(last, field.name);
        assert forall|r: int| 0 <= r < given.len() implies (#[trigger] given[r]).fits(
            field.kind,
        ) by {
            match last.position(field.name) {
                Some(i) => {
                    assert(last.columns[i].typed());
                },
                None => {},
            }
        }
        let cells = stacked(frames, field.name);
        assert forall|r: int| 0 <= r < cells.len() implies (#[trigger] cells[r]).fits(
            field.kind,
        ) by {
            if r < stacked(before, field.name).len() {
                assert(union_column(before, field).cells[r].fits(field.kind));
            } else {
                assert(cells[r] == given[r - stacked(before, field.name).len()]);
            }
        }
    }
}

/// Where no frame conflicts with a schema, no frame conflicts with any of
/// its fields.
pub proof fn lemma_no_conflict(frames: Seq<FrameView>, schema: Seq<FieldView>)
    requires
        conflicting_frame(frames, schema) is None,
    ensures
        forall|f: int, s: int|
            0 <= f < frames.len() && 0 <= s < schema.len() ==> !conflicts(
                #[trigger] frames[f],
                #[trigger] schema[s],
            ),
{
    let in_conflict = |f: int| conflicting_field(frames[f], schema) is Some;
    lemma_first_where(frames.len() as int, in_conflict);
    assert forall|f: int, s: int|
        0 <= f < frames.len() && 0 <= s < schema.len() implies !conflicts(
        #[trigger] frames[f],
        #[trigger] schema[s],
    ) by {
        let clash = |s: int| conflicts(frames[f], schema[s]);
        assert(!in_conflict(f));
        lemma_first_where(schema.len() as int, clash);
        assert(!clash(s));
    }
}

/// Where no frame conflicts with the schema, there is a union, and it is a
/// frame: its names are distinct, its columns are as long as all inputs
/// together, and its cells fit their columns.
pub proof fn lemma_union_is_frame(frames: Seq<FrameView>)
    requires
        forall|f: int| 0 <= f < frames.len() ==> (#[trigger] frames[f]).wf(),
    ensures
        union_of(frames) matches Ok(merged) ==> {
            &&& merged.wf()
            &&& merged.schema() == union_schema(frames)
            &&& forall|i: int|
                0 <= i < merged.columns.len() ==> (#[trigger] merged.columns[i]).cells.len()
                    == total_height(frames)
        },
{
    let schema = union_schema(frames);
    if let Ok(merged) = union_of(frames) {
        lemma_no_conflict(frames, schema);
        lemma_first_of_each_name(all_fields(frames));
        assert(column_names(merged.columns) =~= field_names(schema));
        assert forall|i: int| 0 <= i < merged.columns.len() implies (
        #[trigger] merged.columns[i]).cells.len() == total_height(frames) && merged.columns[i].typed() by {
            let field = schema[i];
            assert(merged.columns[i] == union_column(frames, field));
            lemma_stacked_len(frames, field.name);
            lemma_stacked_fits(frames, field);
        }
    }
}

/// No frames have the frame without columns for their union.
pub proof fn lemma_union_of_none()
    ensures
        union_of(Seq::empty()) == Ok::<FrameView, UnionErrorView>(
            FrameView { columns: Seq::empty() },
        ),
{
    let frames = Seq::<FrameView>::empty();
    let schema = union_schema(frames);
    lemma_first_where(0, |f: int| conflicting_field(frames[f], schema) is Some);
    assert(schema.map_values(|field: FieldView| union_column(frames, field)) =~= Seq::<
        ColumnView,
    >::empty());
}

/// Fields of distinct names are all the first of their name.
pub proof fn lemma_distinct_names_are_kept(fields: Seq<FieldView>)
    requires
        field_names(fields).no_duplicates(),
    ensures
        first_of_each_name(fields) == fields,
    decreases fields.len(),
{
    if fields.len() > 0 {
        let before = fields.drop_last();
        assert forall|i: int, j: int|
            0 <= i < before.len() && 0 <= j < before.len() && i != j implies field_names(
            before,
        )[i] != field_names(before)[j] by {
            assert(field_names(fields)[i] != field_names(fields)[j]);
        }
        lemma_distinct_names_are_kept(before);
        if field_names(before).contains(fields.last().name) {
            let i = choose|i: int|
                0 <= i < before.len() && field_names(before)[i] == fields.last().name;
            assert(field_names(fields)[i] == field_names(fields)[fields.len() - 1]);
        }
    }
}

/// The union of a single frame is that frame.
pub proof fn lemma_union_of_one(frame: FrameView)
    requires
        frame.wf(),
    ensures
        union_of(seq![frame]) == Ok::<FrameView, UnionErrorView>(frame),
{
    let frames = seq![frame];
    let schema = union_schema(frames);
    let none = Seq::<FrameView>::empty();
    assert(frames.drop_last() =~= none);
    assert(all_fields(none) =~= Seq::<FieldView>::empty());
    assert(field_names(frame.schema()) =~= frame.names());
    lemma_distinct_names_are_kept(frame.schema());
    assert forall|s: int| 0 <= s < schema.len() implies frame.position(
        (#[trigger] schema[s]).name,
    ) == Some(s) by {
        let named = |i: int| frame.columns[i].name == schema[s].name;
        assert(named(s));
        assert forall|j: int| 0 <= j < s implies !#[trigger] named(j) by {
            assert(frame.names()[j] != frame.names()[s]);
        }
        lemma_first_where(frame.columns.len() as int, named);
    }
    let clash = |s: int| conflicts(frame, schema[s]);
    lemma_first_where(schema.len() as int, clash);
    if conflicting_field(frame, schema) is Some {
        let s = conflicting_field(frame, schema).unwrap();
        assert(clash(s));
    }
    let in_conflict = |f: int| conflicting_field(frames[f], schema) is Some;
    lemma_first_where(1, in_conflict);
    if conflicting_frame(frames, schema) is Some {
        let f = conflicting_frame(frames, schema).unwrap();
        assert(in_conflict(f));
    }
    let merged = schema.map_values(|field: FieldView| union_column(frames, field));
    assert forall|s: int| 0 <= s < schema.len() implies #[trigger] merged[s]
        == frame.columns[s] by {
        assert(stacked(none, schema[s].name) =~= Seq::<Cell>::empty());
    }
    assert(merged =~= frame.columns);
}

/// The names among the fields of all frames are the names that some frame
/// has.
pub proof fn lemma_all_fields_names(frames: Seq<FrameView>, name: Seq<char>)
    ensures
        field_names(all_fields(frames)).contains(name) <==> exists|f: int|
            0 <= f < frames.len() && (#[trigger] frames[f]).names().contains(name),
    decreases frames.len(),
{
    if frames.len() > 0 {
        let before = frames.drop_last();
        let last = frames.last();
        lemma_all_fields_names(before, name);
        let head = field_names(all_fields(before));
        let tail = last.names();
        assert(field_names(all_fields(frames)) =~= head + tail);
        if field_names(all_fields(frames)).contains(name) {
            let i = choose|i: int| 0 <= i < (head + tail).len() && (head + tail)[i] == name;
            if i < head.len() {
                let f = choose|f: int|
                    0 <= f < before.len() && (#[trigger] before[f]).names().contains(name);
                assert(frames[f] == before[f]);
            } else {
                assert(frames[frames.len() - 1].names().contains(name));
            }
        }
        if exists|f: int| 0 <= f < frames.len() && (#[trigger] frames[f]).names().contains(name) {
            let f = choose|f: int|
                0 <= f < frames.len() && (#[trigger] frames[f]).names().contains(name);
            if f < before.len() {
                assert(before[f] == frames[f]);
                let i = choose|i: int| 0 <= i < head.len() && head[i] == name;
                assert((head + tail)[i] == name);
            } else {
                let i = choose|i: int| 0 <= i < tail.len() && tail[i] == name;
                assert((head + tail)[head.len() + i] == name);
            }
        }
    }
}

/// The union has a column of a name exactly if some frame has one: its
/// column set is the union of the column sets.
pub proof fn lemma_union_has_every_column(frames: Seq<FrameView>, name: Seq<char>)
    ensures
        field_names(union_schema(frames)).contains(name) <==> exists|f: int|
            0 <= f < frames.len() && (#[trigger] frames[f]).names().contains(name),
{
    lemma_first_of_each_name(all_fields(frames));
    lemma_all_fields_names(frames, name);
}

/// A field whose name has not occurred before it is kept.
pub proof fn lemma_first_occurrence_is_kept(fields: Seq<FieldView>, i: int)
    requires
        0 <= i < fields.len(),
        forall|j: int| 0 <= j < i ==> (#[trigger] fields[j]).name != fields[i].name,
    ensures
        first_of_each_name(fields).contains(fields[i]),
    decreases fields.len(),
{
    let kept = first_of_each_name(fields);
    let before = fields.drop_last();
    let earlier = first_of_each_name(before);
    if i == fields.len() - 1 {
        if field_names(before).contains(fields[i].name) {
            let j = choose|j: int|
                0 <= j < before.len() && field_names(before)[j] == fields[i].name;
            assert(fields[j].name == fields[i].name);
        }
        assert(kept[kept.len() - 1] == fields[i]);
    } else {
        assert forall|j: int| 0 <= j < i implies (#[trigger] before[j]).name
            != before[i].name by {
            assert(before[j] == fields[j]);
        }
        lemma_first_occurrence_is_kept(before, i);
        let k = choose|k: int| 0 <= k < earlier.len() && earlier[k] == before[i];
        assert(kept[k] == fields[i]);
    }
}

/// Fields behind a list change nothing of what is kept of the list: what is
/// kept of the longer list begins with what is kept of the shorter.
pub proof fn lemma_kept_is_prefix(head: Seq<FieldView>, tail: Seq<FieldView>)
    ensures
        first_of_each_name(head).len() <= first_of_each_name(head + tail).len(),
        forall|i: int|
            0 <= i < first_of_each_name(head).len() ==> #[trigger] first_of_each_name(
                head + tail,
            )[i] == first_of_each_name(head)[i],
    decreases tail.len(),
{
    if tail.len() == 0 {
        assert(head + tail =~= head);
    } else {
        assert((head + tail).drop_last() =~= head + tail.drop_last());
        lemma_kept_is_prefix(head, tail.drop_last());
    }
}

/// In the union a name keeps the kind it first appears with: the union's
/// field of a name is the field of the first frame that has the name.
pub proof fn lemma_union_kind_is_first_kind(frames: Seq<FrameView>, name: Seq<char>, f: int)
    requires
        0 <= f < frames.len(),
        frames[f].names().contains(name),
        forall|g: int| 0 <= g < f ==> !(#[trigger] frames[g]).names().contains(name),
    ensures
        frames[f].position(name) is Some,
        union_schema(frames).contains(
            FieldView { name, kind: frames[f].columns[frames[f].position(name).unwrap()].kind },
        ),
    decreases frames.len(),
{
    lemma_position(frames[f], name);
    let c = frames[f].position(name).unwrap();
    let before = frames.drop_last();
    if f == frames.len() - 1 {
        let head = all_fields(before);
        let own = frames[f].schema();
        let fields = all_fields(frames);
        assert(fields == head + own);
        let named = |i: int| frames[f].columns[i].name == name;
        lemma_first_where(frames[f].columns.len() as int, named);
        assert forall|j: int| 0 <= j < head.len() + c implies (#[trigger] fields[j]).name
            != fields[head.len() + c].name by {
            if j < head.len() {
                lemma_all_fields_names(before, name);
                if head[j].name == name {
                    assert(field_names(head)[j] == name);
                    let g = choose|g: int|
                        0 <= g < before.len() && (#[trigger] before[g]).names().contains(name);
                    assert(before[g] == frames[g]);
                }
            } else {
                assert(!named(j - head.len()));
            }
        }
        lemma_first_occurrence_is_kept(fields, head.len() + c);
    } else {
        assert forall|g: int| 0 <= g < f implies !(#[trigger] before[g]).names().contains(
            name,
        ) by {
            assert(before[g] == frames[g]);
        }
        lemma_union_kind_is_first_kind(before, name, f);
        let field = FieldView { name, kind: frames[f].columns[c].kind };
        let shorter = union_schema(before);
        let k = choose|k: int| 0 <= k < shorter.len() && shorter[k] == field;
        lemma_kept_is_prefix(all_fields(before), frames.last().schema());
        assert(union_schema(frames)[k] == field);
    }
}

/// The rows of the union are the rows of the frames, frame after frame: row
/// `row` of frame `f` is the union's row `row` behind the rows of all frames
/// before `f`. In the union's column `name` that row holds what the frame's
/// column of that name holds there, and null if the frame has no such column.
pub proof fn lemma_union_row(frames: Seq<FrameView>, name: Seq<char>, f: int, row: int)
    requires
        forall|k: int| 0 <= k < frames.len() ==> uniform((#[trigger] frames[k]).columns),
        0 <= f < frames.len(),
        0 <= row < frames[f].height(),
    ensures
        total_height(frames.take(f)) + row < stacked(frames, name).len(),
        stacked(frames, name)[total_height(frames.take(f)) + row] == (match frames[f].position(
            name,
        ) {
            Some(i) => frames[f].columns[i].cells[row],
            None => Cell::Null,
        }),
    decreases frames.len(),
{
    let before = frames.drop_last();
    assert forall|k: int| 0 <= k < before.len() implies uniform(
        (#[trigger] before[k]).columns,
    ) by {
        assert(before[k] == frames[k]);
    }
    lemma_stacked_len(before, name);
    lemma_stacked_len(frames, name);
    if f == frames.len() - 1 {
        assert(frames.take(f) =~= before);
    } else {
        assert(before.take(f) =~= frames.take(f));
        lemma_union_row(before, name, f, row);
    }
}

/// The first field of the schema that a frame conflicts with, as an error.
fn conflict_in(frame: &Frame, schema: &Vec<Field>) -> (conflict: Option<UnionError>)
    ensures
        match conflicting_field(frame@, field_views(schema@)) {
            Some(s) => conflict matches Some(e) && e@ == conflict_error(
                frame@,
                field_views(schema@)[s],
            ),
            None => conflict is None,
        },
{
    let ghost fields = field_views(schema@);
    let ghost clash = |s: int| conflicts(frame@, fields[s]);
    let n = schema.len();
    let mut s: usize = 0;
    while s < n
        invariant
            s <= n,
            n == schema@.len(),
            fields == field_views(schema@),
            clash == |s: int| conflicts(frame@, fields[s]),
            forall|k: int| 0 <= k < s ==> !#[trigger] clash(k),
        decreases n - s,
    {
        match frame.column(schema[s].name.as_str()) {
            Some(column) => {
                let found = column.kind();
                if found != schema[s].kind {
                    proof {
                        assert(is_first(n as int, clash, s as int));
                        lemma_first_where(n as int, clash);
                    }
                    return Some(
                        UnionError::KindConflict {
                            column: schema[s].name.clone(),
                            expected: schema[s].kind,
                            found,
                        },
                    );
                }
            },
            None => {},
        }
        s = s + 1;
    }
    proof {
        lemma_first_where(n as int, clash);
    }
    None
}

/// The first conflict of the frames with the schema, as an error.
fn find_conflict(frames: &Vec<Frame>, schema: &Vec<Field>) -> (conflict: Option<UnionError>)
    ensures
        match conflicting_frame(frame_views(frames@), field_views(schema@)) {
            Some(f) => {
                let frame = frame_views(frames@)[f];
                let s = conflicting_field(frame, field_views(schema@)).unwrap();
                conflict matches Some(e) && e@ == conflict_error(frame, field_views(schema@)[s])
            },
            None => conflict is None,
        },
{
    let ghost views = frame_views(frames@);
    let ghost fields = field_views(schema@);
    let ghost in_conflict = |f: int| conflicting_field(views[f], fields) is Some;
    let n = frames.len();
    let mut f: usize = 0;
    while f < n
        invariant
            f <= n,
            n == frames@.len(),
            views == frame_views(frames@),
            fields == field_views(schema@),
            in_conflict == |f: int| conflicting_field(views[f], fields) is Some,
            forall|k: int| 0 <= k < f ==> !#[trigger] in_conflict(k),
        decreases n - f,
    {
        match conflict_in(&frames[f], schema) {
            Some(e) => {
                proof {
                    assert(is_first(n as int, in_conflict, f as int));
                    lemma_first_where(n as int, in_conflict);
                }
                return Some(e);
            },
            None => {},
        }
        f = f + 1;
    }
    proof {
        lemma_first_where(n as int, in_conflict);
    }
    None
}

/// The union's column for one field of its schema.
fn stack_column(frames: &Vec<Frame>, field: &Field) -> (column: Column)
    requires
        forall|f: int|
            0 <= f < frames@.len() ==> !conflicts(#[trigger] frame_views(frames@)[f], field@),
    ensures
        column@ == union_column(frame_views(frames@), field@),
{
    let ghost views = frame_views(frames@);
    let mut cells = ColumnValues::empty(field.kind);
    let n = frames.len();
    let mut f: usize = 0;
    assert(views.take(0) =~= Seq::<FrameView>::empty());
    while f < n
        invariant
            f <= n,
            n == frames@.len(),
            views == frame_views(frames@),
            forall|k: int| 0 <= k < n ==> !conflicts(#[trigger] views[k], field@),
            cells.spec_kind() == field.kind,
            cells@ == stacked(views.take(f as int), field.name@),
        decreases n - f,
    {
        let frame = &frames[f];
        proof {
            assert(views.take(f + 1).drop_last() =~= views.take(f as int));
            assert(views.take(f + 1).last() == frame@);
        }
        match frame.column(field.name.as_str()) {
            Some(column) => {
                let same_kind = cells.extend_from(&column.values);
                assert(same_kind);
            },
            None => {
                cells.extend_nulls(frame.height());
            },
        }
        f = f + 1;
    }
    assert(views.take(n as int) =~= views);
    Column { name: field.name.clone(), values: cells }
}

/// Combines frames into one by diagonal union. The frames are taken in the
/// order given; no frames give the frame without columns.
pub fn diagonal_union(frames: &Vec<Frame>) -> (outcome: Result<Frame, UnionError>)
    ensures
        union_view(outcome) == union_of(frame_views(frames@)),
        outcome matches Ok(merged) ==> merged@.wf(),
{
    let ghost views = frame_views(frames@);
    let schema = merged_schema(frames);
    let ghost fields = field_views(schema@);
    match find_conflict(frames, &schema) {
        Some(e) => {
            return Err(e);
        },
        None => {},
    }
    proof {
        lemma_no_conflict(views, fields);
    }
    let mut columns: Vec<Column> = Vec::new();
    let n = schema.len();
    let mut s: usize = 0;
    while s < n
        invariant
            s <= n,
            n == schema@.len(),
            views == frame_views(frames@),
            fields == field_views(schema@),
            forall|f: int, s: int|
                0 <= f < views.len() && 0 <= s < fields.len() ==> !conflicts(
                    #[trigger] views[f],
                    #[trigger] fields[s],
                ),
            columns@.len() == s,
            forall|k: int|
                0 <= k < s ==> (#[trigger] columns@[k])@ == union_column(views, fields[k]),
        decreases n - s,
    {
        assert(fields[s as int] == schema@[s as int]@);
        columns.push(stack_column(frames, &schema[s]));
        s = s + 1;
    }
    proof {
        assert(column_views(columns@) =~= fields.map_values(
            |field: FieldView| union_column(views, field),
        ));
        lemma_union_is_frame(views);
    }
    Ok(Frame::from_well_formed(columns))
}

} // verus!
