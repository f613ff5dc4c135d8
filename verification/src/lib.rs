//! Verified core of a PDF exporter.
//!
//! The library turns already-laid-out pages (positioned text runs and
//! images) into a self-consistent, forward-referencing object graph:
//! indirect-reference ranges are computed up front, resource handles are
//! remapped to dense indices, and content streams, font objects and image
//! objects are derived in a single pass.  Rendering the graph to bytes is
//! the job of an unverified document writer outside this library.

use vstd::prelude::*;

pub mod content;
pub mod doc;
pub mod font;
pub mod images;
pub mod metrics;
pub mod refs;
pub mod remap;

pub use crate::doc::export;

verus! {

/// The class of resource that an [`Error::MissingResource`] names.
#[derive(Clone, Copy, Debug, PartialEq, Eq, Structural)]
pub enum ResourceKind {
    Font,
    Image,
}

/// Failures of an export.
///
/// `MissingResource` is fatal: a face or image referenced by an element was
/// not preloaded in the environment.  `UnknownResource` marks a remapper
/// lookup for a key that was never inserted; the export driver proves that
/// it never arises there.
#[derive(Clone, Copy, Debug, PartialEq, Eq, Structural)]
pub enum Error {
    MissingResource(ResourceKind, u64),
    UnknownResource,
}

} // verus!
