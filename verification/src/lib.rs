//! Typed column extraction, frame assembly and multi-file aggregation for
//! tree-structured columnar data files.

pub mod aggregate;
pub mod array;
pub mod assemble;
pub mod export;
pub mod frame;
pub mod kind;
pub mod plan;
pub mod pool;
pub mod search;
pub mod select;
pub mod text;
pub mod union;
