//! Translation of a delimiter-based purchase-order feed into EDI X12 855
//! purchase-order acknowledgment documents.
//!
//! The pipeline: split the raw feed into per-order blocks, parse each block's
//! typed records into an [`parser::Order`], issue date-scoped control numbers,
//! assemble the acknowledgment segments, and serialize them into the final
//! document text.

use vstd::prelude::*;

pub mod builder;
pub mod numbers;
pub mod parser;
pub mod sequencer;
pub mod serializer;
pub mod patterns;
pub mod splitter;
pub mod text;

verus! {

/// The error kinds of the pipeline: structural faults of a record or of the
/// control-number store, and numeric fields that do not parse.
#[derive(Clone, Copy, Debug, PartialEq, Eq, Structural)]
pub enum ParseError {
    /// A record line holds fewer fields than its record type requires.
    MissingField,
    /// A delivery record appeared before any detail record supplied a triple.
    DeliveryBeforeDetail,
    /// The control-number store does not hold a `date;counter` pair.
    MalformedControlFile,
    /// A quantity, price or counter field is not a well-formed integer.
    InvalidNumber,
}

} // verus!
