//! Export of one tree to a columnar file: what is decided before the writer
//! runs.
//!
//! The writer and the file system are the caller's part. The library checks
//! the request before any decoding is done, selects the branches to export,
//! and assembles the batch that the writer is given: one column for each
//! branch that was read, in selection order. The reads of an export are
//! planned as those of a frame are. Its batch is no frame: a branch that is
//! selected twice is exported twice, under the same name. The schema of the
//! batch is the name and kind of each of its columns, in order.

use vstd::prelude::*;
use vstd::string::StringExecFns;
use crate::array::{Column, ColumnView, TypedArray};
use crate::assemble::{
    answers, extract_columns, extracted_columns, extraction_error, extraction_views,
    lemma_extraction_error, planned_fields, read_views, BuildError, BuildErrorView, DecodeError,
    ExtractionView,
};
use crate::frame::{
    column_views, field_views, fields_of, lemma_length_error, length_error, uneven_column,
    uniform, Field,
};
use crate::plan::{PlannedRead, PlannedReadView};
use crate::select::{optional_names, select_columns, selection};
use crate::text::{names_view, str_equal};

verus! {

/// The compression that the writer applies.
#[derive(Clone, Copy, Debug, PartialEq, Eq, Structural)]
pub enum CompressionCodec {
    Uncompressed,
    Snappy,
    Gzip,
    Lzo,
    Brotli,
    Lz4,
    Zstd,
}

impl CompressionCodec {
    /// The name by which a request selects this codec.
    pub open spec fn name(self) -> Seq<char> {
        match self {
            CompressionCodec::Uncompressed => "uncompressed"@,
            CompressionCodec::Snappy => "snappy"@,
            CompressionCodec::Gzip => "gzip"@,
            CompressionCodec::Lzo => "lzo"@,
            CompressionCodec::Brotli => "brotli"@,
            CompressionCodec::Lz4 => "lz4"@,
            CompressionCodec::Zstd => "zstd"@,
        }
    }

    /// The name by which a request selects this codec.
    pub fn as_str(self) -> (name: &'static str)
        ensures
            name@ == self.name(),
    {
        match self {
            CompressionCodec::Uncompressed => "uncompressed",
            CompressionCodec::Snappy => "snappy",
            CompressionCodec::Gzip => "gzip",
            CompressionCodec::Lzo => "lzo",
            CompressionCodec::Brotli => "brotli",
            CompressionCodec::Lz4 => "lz4",
            CompressionCodec::Zstd => "zstd",
        }
    }
}

/// The codec that a name selects: the one whose name it is, letter for
/// letter, if there is one.
pub open spec fn codec_named(name: Seq<char>) -> Option<CompressionCodec> {
    if name == CompressionCodec::Snappy.name() {
        Some(CompressionCodec::Snappy)
    } else if name == CompressionCodec::Uncompressed.name() {
        Some(CompressionCodec::Uncompressed)
    } else if name == CompressionCodec::Gzip.name() {
        Some(CompressionCodec::Gzip)
    } else if name == CompressionCodec::Lzo.name() {
        Some(CompressionCodec::Lzo)
    } else if name == CompressionCodec::Brotli.name() {
        Some(CompressionCodec::Brotli)
    } else if name == CompressionCodec::Lz4.name() {
        Some(CompressionCodec::Lz4)
    } else if name == CompressionCodec::Zstd.name() {
        Some(CompressionCodec::Zstd)
    } else {
        None
    }
}

/// Why an export failed.
#[derive(Clone, Debug, PartialEq, Eq)]
pub enum ExportError {
    /// The target exists and the request does not allow to overwrite it.
    AlreadyExists { path: String },
    /// The request names no known codec.
    InvalidCompression { name: String },
    /// The columns to export could not be built.
    Build(BuildError),
    /// The writer failed. What it has written of the target by then is
    /// undefined.
    Write { detail: String },
}

impl ExportError {
    /// The text of this error.
    pub open spec fn text(self) -> Seq<char> {
        match self {
            ExportError::AlreadyExists { .. } => "File exists, use overwrite=True"@,
            ExportError::InvalidCompression { .. } => "Invalid compression type"@,
            ExportError::Build(e) => e@.text(),
            ExportError::Write { detail } => detail@,
        }
    }

    /// A message for the caller.
    pub fn message(&self) -> (line: String)
        ensures
            line@ == self.text(),
    {
        match self {
            ExportError::AlreadyExists { .. } => String::from_str(
                "File exists, use overwrite=True",
            ),
            ExportError::InvalidCompression { .. } => String::from_str("Invalid compression type"),
            ExportError::Build(e) => e.message(),
            ExportError::Write { detail } => detail.clone(),
        }
    }
}

/// What the check of an export request yields.
pub enum PreflightView {
    Proceed { codec: CompressionCodec },
    AlreadyExists { path: Seq<char> },
    InvalidCompression { name: Seq<char> },
}

/// The check of an export request. An existing target that may not be
/// overwritten is refused first, whatever else the request says; then a
/// codec name that is not known.
pub open spec fn preflight_of(
    target: Seq<char>,
    target_exists: bool,
    overwrite: bool,
    codec: Seq<char>,
) -> PreflightView {
    if target_exists && !overwrite {
        PreflightView::AlreadyExists { path: target }
    } else {
        match codec_named(codec) {
            Some(codec) => PreflightView::Proceed { codec },
            None => PreflightView::InvalidCompression { name: codec },
        }
    }
}

/// The view of the outcome of the check of an export request.
pub open spec fn preflight_view(outcome: Result<CompressionCodec, ExportError>) -> Option<
    PreflightView,
> {
    match outcome {
        Ok(codec) => Some(PreflightView::Proceed { codec }),
        Err(ExportError::AlreadyExists { path }) => Some(
            PreflightView::AlreadyExists { path: path@ },
        ),
        Err(ExportError::InvalidCompression { name }) => Some(
            PreflightView::InvalidCompression { name: name@ },
        ),
        Err(_) => None,
    }
}

/// Finds the codec that a name selects.
pub fn parse_codec(name: &str) -> (parsed: Result<CompressionCodec, ExportError>)
    ensures
        match codec_named(name@) {
            Some(codec) => parsed == Ok::<CompressionCodec, ExportError>(codec),
            None => parsed matches Err(ExportError::InvalidCompression { name: given })
                && given@ == name@,
        },
{
    if str_equal(name, "snappy") {
        Ok(CompressionCodec::Snappy)
    } else if str_equal(name, "uncompressed") {
        Ok(CompressionCodec::Uncompressed)
    } else if str_equal(name, "gzip") {
        Ok(CompressionCodec::Gzip)
    } else if str_equal(name, "lzo") {
        Ok(CompressionCodec::Lzo)
    } else if str_equal(name, "brotli") {
        Ok(CompressionCodec::Brotli)
    } else if str_equal(name, "lz4") {
        Ok(CompressionCodec::Lz4)
    } else if str_equal(name, "zstd") {
        Ok(CompressionCodec::Zstd)
    } else {
        Err(ExportError::InvalidCompression { name: name.to_owned() })
    }
}

/// Checks an export request before any decoding is done. `target_exists`
/// says whether something is at the target path now.
pub fn preflight(target: &str, target_exists: bool, overwrite: bool, codec: &str) -> (outcome:
    Result<CompressionCodec, ExportError>)
    ensures
        preflight_view(outcome) == Some(preflight_of(target@, target_exists, overwrite, codec@)),
{
    if target_exists && !overwrite {
        Err(ExportError::AlreadyExists { path: target.to_owned() })
    } else {
        parse_codec(codec)
    }
}

/// Selects the branches of an export: those of the inclusion list, or else
/// all that the tree lists. An export has no exclusion list.
pub fn select_export(listed: Vec<String>, included: Option<Vec<String>>) -> (selected: Vec<
    String,
>)
    ensures
        names_view(selected@) == selection(names_view(listed@), optional_names(included), None),
{
    select_columns(listed, included, None)
}

/// The seven codec names are pairwise different, so every codec is selected
/// by its own name and by no other.
pub proof fn lemma_codec_names(codec: CompressionCodec)
    ensures
        codec_named(codec.name()) == Some(codec),
        forall|name: Seq<char>| codec_named(name) == Some(codec) <==> name == codec.name(),
{
    reveal_strlit("uncompressed");
    reveal_strlit("snappy");
    reveal_strlit("gzip");
    reveal_strlit("lzo");
    reveal_strlit("brotli");
    reveal_strlit("lz4");
    reveal_strlit("zstd");
    assert("gzip"@[0] != "zstd"@[0]);
    assert("lzo"@[2] != "lz4"@[2]);
    assert("snappy"@[0] != "brotli"@[0]);
}

/// An existing target is never touched without leave: the check refuses it
/// before anything else is looked at, and with leave the check passes for
/// every known codec.
pub proof fn lemma_overwrite_guard(target: Seq<char>, overwrite: bool, codec: Seq<char>)
    ensures
        !overwrite ==> preflight_of(target, true, overwrite, codec)
            == (PreflightView::AlreadyExists { path: target }),
        overwrite ==> (preflight_of(target, true, overwrite, codec) is Proceed <==> codec_named(
            codec,
        ) is Some),
{
}

/// What the assembly of a batch yields. If the outcomes do not answer the
/// reads, that is the error, as for a frame. If every read is answered, the
/// result is the extracted columns, in plan order, unless they differ in
/// length. That two of them have one name is no error.
pub open spec fn batched(reads: Seq<PlannedReadView>, outcomes: Seq<ExtractionView>) -> Result<
    Seq<ColumnView>,
    BuildErrorView,
> {
    match extraction_error(reads, outcomes) {
        Some(e) => Err(e),
        None => match length_error(extracted_columns(reads, outcomes)) {
            Some(e) => Err(BuildErrorView::NotAFrame(e)),
            None => Ok(extracted_columns(reads, outcomes)),
        },
    }
}

/// The view of the outcome of the assembly of a batch.
pub open spec fn batch_view(built: Result<Vec<Column>, BuildError>) -> Result<
    Seq<ColumnView>,
    BuildErrorView,
> {
    match built {
        Ok(columns) => Ok(column_views(columns@)),
        Err(e) => Err(e@),
    }
}

/// Assembles the batch of an export from the outcomes of decoding the
/// planned reads, which are given in plan order. The columns of the batch
/// are equally long and hold no null.
pub fn assemble_batch(reads: &Vec<PlannedRead>, outcomes: Vec<Result<TypedArray, DecodeError>>) -> (built:
    Result<Vec<Column>, BuildError>)
    ensures
        batch_view(built) == batched(read_views(reads@), extraction_views(outcomes@)),
        built matches Ok(columns) ==> {
            &&& uniform(column_views(columns@))
            &&& fields_of(column_views(columns@)) == planned_fields(read_views(reads@))
            &&& forall|k: int| 0 <= k < columns@.len() ==> (#[trigger] columns@[k])@.complete()
        },
{
    proof {
        lemma_batched(read_views(reads@), extraction_views(outcomes@));
    }
    match extract_columns(reads, outcomes) {
        Err(e) => Err(e),
        Ok(columns) => match uneven_column(&columns) {
            Some(e) => Err(BuildError::NotAFrame(e)),
            None => Ok(columns),
        },
    }
}

/// The schema of a batch: the name and kind of each column, in order.
pub fn batch_schema(columns: &Vec<Column>) -> (fields: Vec<Field>)
    ensures
        field_views(fields@) == fields_of(column_views(columns@)),
{
    let mut fields: Vec<Field> = Vec::new();
    let n = columns.len();
    let mut i: usize = 0;
    while i < n
        invariant
            i <= n,
            n == columns@.len(),
            fields@.len() == i,
            forall|k: int|
                0 <= k < i ==> (#[trigger] fields@[k])@ == fields_of(column_views(columns@))[k],
        decreases n - i,
    {
        fields.push(Field { name: columns[i].name.clone(), kind: columns[i].kind() });
        i = i + 1;
    }
    assert(field_views(fields@) =~= fields_of(column_views(columns@)));
    fields
}

/// Whether the writer is given rows. A batch without columns has none: the
/// file then holds the empty schema and nothing else. That no branch could be
/// exported does not make an export fail.
pub fn has_rows_to_write(columns: &Vec<Column>) -> (rows: bool)
    ensures
        rows == (columns@.len() > 0),
{
    columns.len() > 0
}

/// A batch is assembled exactly when the outcomes are as many as the reads,
/// every read has a decoded array of its kind, and the arrays are equally
/// long; the names play no part. Its schema is then the planned names and
/// kinds, in plan order, and its columns hold the decoded elements.
pub proof fn lemma_batched(reads: Seq<PlannedReadView>, outcomes: Seq<ExtractionView>)
    ensures
        batched(reads, outcomes) is Ok <==> {
            &&& reads.len() == outcomes.len()
            &&& forall|i: int| 0 <= i < reads.len() ==> answers(#[trigger] reads[i], outcomes[i])
            &&& uniform(extracted_columns(reads, outcomes))
        },
        batched(reads, outcomes) matches Ok(columns) ==> {
            &&& columns == extracted_columns(reads, outcomes)
            &&& fields_of(columns) == planned_fields(reads)
        },
{
    lemma_extraction_error(reads, outcomes);
    lemma_length_error(extracted_columns(reads, outcomes));
    if let Ok(columns) = batched(reads, outcomes) {
        assert(fields_of(columns) =~= planned_fields(reads));
    }
}

} // verus!
