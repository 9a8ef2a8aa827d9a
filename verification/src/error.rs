//! The failures that ingestion can report.

use vstd::prelude::*;

verus! {

/// The numeric attributes of a record element.
#[derive(Clone, Copy, Debug, PartialEq, Eq, Structural)]
pub enum NumericField {
    Ts,
    Rssi,
    Snr,
}

/// Why a decimal attribute could not be read as an integer.
#[derive(Clone, Copy, Debug, PartialEq, Eq, Structural)]
pub enum ParseCause {
    /// The text is empty.
    Empty,
    /// The text is not an optional sign followed by one or more decimal digits.
    InvalidDigit,
    /// The digits denote a number outside the range of the field.
    Overflow,
}

/// A failure of the ingestion pipeline. Every failure aborts the whole
/// operation: no partial result is handed out beside it.
#[derive(Clone, Debug, PartialEq, Eq)]
pub enum IngestError {
    /// The markup is structurally broken.
    MalformedInput { diagnostic: String },
    /// The text of a record element is not hexadecimal.
    InvalidEncoding { text: String },
    /// A numeric attribute does not hold a number of its type.
    FieldParseError { field: NumericField, raw_value: String, cause: ParseCause },
    /// The columnar batch was refused by its own consistency checks.
    SchemaMismatch { detail: String },
}

/// The mathematical value of an [`IngestError`].
pub enum IngestErrorView {
    MalformedInput { diagnostic: Seq<char> },
    InvalidEncoding { text: Seq<char> },
    FieldParseError { field: NumericField, raw_value: Seq<char>, cause: ParseCause },
    SchemaMismatch { detail: Seq<char> },
}

impl View for IngestError {
    type V = IngestErrorView;

    open spec fn view(&self) -> IngestErrorView {
        match *self {
            IngestError::MalformedInput { diagnostic } => IngestErrorView::MalformedInput {
                diagnostic: diagnostic@,
            },
            IngestError::InvalidEncoding { text } => IngestErrorView::InvalidEncoding {
                text: text@,
            },
            IngestError::FieldParseError { field, raw_value, cause } => {
                IngestErrorView::FieldParseError { field, raw_value: raw_value@, cause }
            },
            IngestError::SchemaMismatch { detail } => IngestErrorView::SchemaMismatch {
                detail: detail@,
            },
        }
    }
}

} // verus!
