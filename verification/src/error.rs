//! Error kinds produced by the import pipeline.

use vstd::prelude::*;

verus! {

/// Why an import failed.
///
/// `Format`: the export payload is not a valid archive, holds no HTML
/// document, or the document lacks the minimal expected structure.
/// `Remote`: the external document source failed; raised by the calling
/// layer, never by the verified core. `Io`: a local filesystem failure
/// while persisting an extracted image; likewise raised by the caller.
#[derive(Clone, Copy, Debug, PartialEq, Eq, Structural)]
pub enum ImportError {
    Format,
    Remote,
    Io,
}

} // verus!
