//! The failure taxonomy of a resolution pass. Every failure is local to one
//! pass: the caller downgrades it to "no segment" and keeps the diagnostic.

use vstd::prelude::*;
use vstd::string::*;

verus! {

/// Why a resolution pass produced no segment.
#[derive(Debug, Clone, PartialEq, Eq)]
pub enum FormatError {
    /// The format template is malformed.
    Parse,
    /// Probe output did not parse as a version string.
    Version,
    /// The external probe could not run; carries its reason.
    Probe(String),
}

/// Mathematical image of a `FormatError`.
pub enum SpecError {
    Parse,
    Version,
    Probe(Seq<char>),
}

impl View for FormatError {
    type V = SpecError;

    open spec fn view(&self) -> SpecError {
        match self {
            FormatError::Parse => SpecError::Parse,
            FormatError::Version => SpecError::Version,
            FormatError::Probe(m) => SpecError::Probe(m@),
        }
    }
}

/// The diagnostic text of an error, for the host's log.
pub open spec fn spec_describe(e: SpecError) -> Seq<char> {
    match e {
        SpecError::Parse => "malformed format template"@,
        SpecError::Version => "unparseable version string"@,
        SpecError::Probe(m) => "external probe failed: "@ + m,
    }
}

impl FormatError {
    /// An owned copy with the same view.
    pub fn dup(&self) -> (r: FormatError)
        ensures
            r@ == self@,
    {
        match self {
            FormatError::Parse => FormatError::Parse,
            FormatError::Version => FormatError::Version,
            FormatError::Probe(m) => FormatError::Probe(m.clone()),
        }
    }

    /// A human-readable reason, recorded at a diagnostic level by the host.
    pub fn describe(&self) -> (r: String)
        ensures
            r@ == spec_describe(self@),
    {
        match self {
            FormatError::Parse => String::from_str("malformed format template"),
            FormatError::Version => String::from_str("unparseable version string"),
            FormatError::Probe(m) => String::from_str("external probe failed: ").concat(m.as_str()),
        }
    }
}

} // verus!
