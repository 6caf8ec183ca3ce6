//! The closed set of element types a branch can be decoded as, and the
//! resolution of a branch's declared type name to one of them.

use vstd::prelude::*;
use crate::text::str_equal;

verus! {

/// The element type of a column.
#[derive(Clone, Copy, Debug, PartialEq, Eq, Structural)]
pub enum ScalarKind {
    Float32,
    Float64,
    Int32,
    Int64,
    UInt32,
    UInt64,
    Utf8String,
}

/// A declared type name that has no decoding path. Carries the name as it was
/// declared.
#[derive(Debug)]
pub struct Unsupported {
    pub tag: String,
}

impl ScalarKind {
    /// The declared type name that resolves to this kind.
    pub open spec fn tag(self) -> Seq<char> {
        match self {
            ScalarKind::Float32 => "float"@,
            ScalarKind::Float64 => "double"@,
            ScalarKind::Int32 => "int32_t"@,
            ScalarKind::Int64 => "int64_t"@,
            ScalarKind::UInt32 => "uint32_t"@,
            ScalarKind::UInt64 => "uint64_t"@,
            ScalarKind::Utf8String => "string"@,
        }
    }

    /// The declared type name that resolves to this kind.
    pub fn type_tag(self) -> (name: &'static str)
        ensures
            name@ == self.tag(),
    {
        match self {
            ScalarKind::Float32 => "float",
            ScalarKind::Float64 => "double",
            ScalarKind::Int32 => "int32_t",
            ScalarKind::Int64 => "int64_t",
            ScalarKind::UInt32 => "uint32_t",
            ScalarKind::UInt64 => "uint64_t",
            ScalarKind::Utf8String => "string",
        }
    }
}

/// The kind a declared type name stands for: the one whose name it is, letter
/// for letter, if there is one.
pub open spec fn resolve_spec(tag: Seq<char>) -> Option<ScalarKind> {
    if tag == ScalarKind::Float32.tag() {
        Some(ScalarKind::Float32)
    } else if tag == ScalarKind::Float64.tag() {
        Some(ScalarKind::Float64)
    } else if tag == ScalarKind::Int32.tag() {
        Some(ScalarKind::Int32)
    } else if tag == ScalarKind::Int64.tag() {
        Some(ScalarKind::Int64)
    } else if tag == ScalarKind::UInt32.tag() {
        Some(ScalarKind::UInt32)
    } else if tag == ScalarKind::UInt64.tag() {
        Some(ScalarKind::UInt64)
    } else if tag == ScalarKind::Utf8String.tag() {
        Some(ScalarKind::Utf8String)
    } else {
        None
    }
}

/// Resolves a branch's declared type name. The match is exact: no case
/// folding, no trimming.
pub fn resolve(type_tag: &str) -> (resolved: Result<ScalarKind, Unsupported>)
    ensures
        match resolve_spec(type_tag@) {
            Some(kind) => resolved matches Ok(k) && k == kind,
            None => resolved matches Err(u) && u.tag@ == type_tag@,
        },
{
    if str_equal(type_tag, "float") {
        Ok(ScalarKind::Float32)
    } else if str_equal(type_tag, "double") {
        Ok(ScalarKind::Float64)
    } else if str_equal(type_tag, "int32_t") {
        Ok(ScalarKind::Int32)
    } else if str_equal(type_tag, "int64_t") {
        Ok(ScalarKind::Int64)
    } else if str_equal(type_tag, "uint32_t") {
        Ok(ScalarKind::UInt32)
    } else if str_equal(type_tag, "uint64_t") {
        Ok(ScalarKind::UInt64)
    } else if str_equal(type_tag, "string") {
        Ok(ScalarKind::Utf8String)
    } else {
        Err(Unsupported { tag: type_tag.to_owned() })
    }
}

/// The seven type names are pairwise different.
pub proof fn lemma_tags_distinct(a: ScalarKind, b: ScalarKind)
    ensures
        a.tag() == b.tag() <==> a == b,
{
    reveal_strlit("float");
    reveal_strlit("double");
    reveal_strlit("int32_t");
    reveal_strlit("int64_t");
    reveal_strlit("uint32_t");
    reveal_strlit("uint64_t");
    reveal_strlit("string");
    if a != b && a.tag() == b.tag() {
        assert(a.tag()[4] == b.tag()[4]);
    }
}

/// Every kind is reached: the type name of a kind resolves to that kind, and
/// a name resolves to a kind only if it is that kind's name.
pub proof fn lemma_resolve_covers_every_kind(kind: ScalarKind)
    ensures
        resolve_spec(kind.tag()) == Some(kind),
        forall|tag: Seq<char>| resolve_spec(tag) == Some(kind) <==> tag == kind.tag(),
{
    lemma_tags_distinct(kind, ScalarKind::Float32);
    lemma_tags_distinct(kind, ScalarKind::Float64);
    lemma_tags_distinct(kind, ScalarKind::Int32);
    lemma_tags_distinct(kind, ScalarKind::Int64);
    lemma_tags_distinct(kind, ScalarKind::UInt32);
    lemma_tags_distinct(kind, ScalarKind::UInt64);
    lemma_tags_distinct(kind, ScalarKind::Utf8String);
}

} // verus!
