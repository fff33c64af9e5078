//! The ways a parse can fail. Every failure ends the parse.

use vstd::prelude::*;

verus! {

/// What is wrong with a clear-sign envelope.
#[derive(Debug, Clone, Copy, PartialEq, Eq, Structural)]
pub enum EnvelopeFault {
    /// The start marker is not followed by a `Hash:` line.
    MissingHashHeader,
    /// The `Hash:` line is not followed by one blank line.
    MissingBlankLine,
    /// A signature marker outside the state where it may stand.
    UnexpectedSignature,
    /// The input ends inside the envelope.
    UnexpectedEnd,
}

/// A mandatory field of a release document.
#[derive(Debug, Clone, Copy, PartialEq, Eq, Structural)]
pub enum ReleaseField {
    Suite,
    Codename,
    Date,
    Architectures,
    Components,
}

/// A parse failure, with the field, path or text that caused it.
#[derive(Debug, PartialEq, Eq)]
pub enum ReleaseError {
    /// Malformed or misplaced clear-sign structure.
    EnvelopeError { fault: EnvelopeFault },
    /// A line that breaks the control-file grammar.
    MalformedFieldError { line: Vec<u8> },
    /// A timestamp that does not parse, or an out-of-order `Valid-Until`.
    DateParseError { text: Vec<u8> },
    /// Mandatory fields that are missing or empty.
    IncompleteReleaseError { missing: Vec<ReleaseField> },
    /// One path listed with two different sizes.
    InconsistentManifestError { path: Vec<u8> },
    /// A digest of the wrong length for its algorithm, or not hexadecimal.
    DigestFormatError { digest: Vec<u8> },
}

/// The abstract value of a [`ReleaseError`].
pub enum ErrorModel {
    Envelope(EnvelopeFault),
    MalformedField(Seq<u8>),
    DateParse(Seq<u8>),
    IncompleteRelease(Seq<ReleaseField>),
    InconsistentManifest(Seq<u8>),
    DigestFormat(Seq<u8>),
}

impl View for ReleaseError {
    type V = ErrorModel;

    open spec fn view(&self) -> ErrorModel {
        match self {
            ReleaseError::EnvelopeError { fault } => ErrorModel::Envelope(*fault),
            ReleaseError::MalformedFieldError { line } => ErrorModel::MalformedField(line@),
            ReleaseError::DateParseError { text } => ErrorModel::DateParse(text@),
            ReleaseError::IncompleteReleaseError { missing } => ErrorModel::IncompleteRelease(missing@),
            ReleaseError::InconsistentManifestError { path } => ErrorModel::InconsistentManifest(path@),
            ReleaseError::DigestFormatError { digest } => ErrorModel::DigestFormat(digest@),
        }
    }
}

/// The abstract value of a result that may fail with a [`ReleaseError`].
pub open spec fn result_view<T, V>(r: Result<T, ReleaseError>, value: spec_fn(T) -> V) -> Result<V, ErrorModel> {
    match r {
        Ok(t) => Ok(value(t)),
        Err(e) => Err(e@),
    }
}

} // verus!
