//! The error type shared by every fallible operation of the crate.

use vstd::prelude::*;
use vstd::string::*;
use crate::text::{decimal, push_decimal};

verus! {

/// Why a run of characters is not the decimal form of an unsigned integer.
#[derive(Debug, Clone, Copy, PartialEq, Eq, Structural)]
pub enum IntErrorKind {
    /// The text is empty.
    Empty,
    /// A character is not a decimal digit, or the text is a lone sign.
    InvalidDigit,
    /// The digits denote a number above the largest value of the type.
    PosOverflow,
}

/// How the two sources of per-core data disagree about the cores.
#[derive(Debug, Clone, Copy, PartialEq, Eq, Structural)]
pub enum Misalignment {
    /// The sources report different numbers of cores.
    CoreCount {
        /// Cores in the decoded document, over all clusters.
        decoded_count: usize,
        /// Cores in the snapshot.
        snapshot_count: usize,
    },
    /// The cores at one position of the walk carry different identifiers.
    CoreId {
        /// Identifier in the decoded document.
        decoded_id: u16,
        /// Identifier in the snapshot.
        snapshot_id: u16,
    },
}

/// Describes all errors of this crate.
#[derive(Debug, Clone, PartialEq, Eq)]
pub enum Error {
    /// The machine description could not be read from the given text.
    SocInfoParsingError(String),
    /// A field that should hold an integer does not.
    ParseIntError {
        /// What is wrong with the field.
        source: IntErrorKind,
    },
    /// A document could not be decoded.
    PlistParsingError(String),
    /// The sampler and the snapshot do not describe the same cores.
    MisalignedCpuId(Misalignment),
    /// Bytes read from a tool were not UTF-8.
    Utf8ConversionError(String),
    /// Reading or writing failed.
    Io(String),
    /// The sampler could not be started.
    PowermetricsSpawn(String),
    /// The sampler has no standard output to read from.
    PowermetricsStdout,
    /// The sampler could not be stopped.
    PowermetricsKill(String),
}

impl IntErrorKind {
    /// What is wrong, in words.
    pub open spec fn spec_message(self) -> Seq<char> {
        match self {
            IntErrorKind::Empty => "cannot parse integer from empty string"@,
            IntErrorKind::InvalidDigit => "invalid digit found in string"@,
            IntErrorKind::PosOverflow => "number too large to fit in target type"@,
        }
    }

    /// What is wrong, in words.
    pub fn message(&self) -> (r: String)
        ensures
            r@ == self.spec_message(),
    {
        match self {
            IntErrorKind::Empty => String::from_str("cannot parse integer from empty string"),
            IntErrorKind::InvalidDigit => String::from_str("invalid digit found in string"),
            IntErrorKind::PosOverflow => String::from_str("number too large to fit in target type"),
        }
    }
}

impl Misalignment {
    /// The disagreement in words, with the two numbers or identifiers in
    /// decimal notation.
    pub open spec fn spec_message(self) -> Seq<char> {
        match self {
            Misalignment::CoreCount { decoded_count, snapshot_count } =>
                "Number of powermetrics CPUs: "@ + decimal(decoded_count as nat)
                    + " != number of sysinfo CPUs: "@ + decimal(snapshot_count as nat),
            Misalignment::CoreId { decoded_id, snapshot_id } => "CPU id misalignment: "@ + decimal(
                decoded_id as nat,
            ) + " != "@ + decimal(snapshot_id as nat),
        }
    }

    /// The disagreement in words.
    pub fn message(&self) -> (r: String)
        ensures
            r@ == self.spec_message(),
    {
        match self {
            Misalignment::CoreCount { decoded_count, snapshot_count } => {
                let mut r = String::from_str("Number of powermetrics CPUs: ");
                push_decimal(&mut r, *decoded_count as u64);
                r.append(" != number of sysinfo CPUs: ");
                push_decimal(&mut r, *snapshot_count as u64);
                r
            },
            Misalignment::CoreId { decoded_id, snapshot_id } => {
                let mut r = String::from_str("CPU id misalignment: ");
                push_decimal(&mut r, *decoded_id as u64);
                r.append(" != ");
                push_decimal(&mut r, *snapshot_id as u64);
                r
            },
        }
    }
}

/// A heading, and after it a detail between backquotes.
pub open spec fn quoted(heading: Seq<char>, detail: Seq<char>) -> Seq<char> {
    heading + "`"@ + detail + "`"@
}

/// A heading, and after it a detail between backquotes.
fn quote(heading: &str, detail: &str) -> (r: String)
    ensures
        r@ == quoted(heading@, detail@),
{
    let mut r = String::from_str(heading);
    r.append("`");
    r.append(detail);
    r.append("`");
    r
}

impl Error {
    /// The error in words: what failed, and the detail between backquotes.
    pub open spec fn spec_message(self) -> Seq<char> {
        match self {
            Error::SocInfoParsingError(text) => quoted("socinfo parsing error: "@, text@),
            Error::ParseIntError { source } => quoted(
                "integer parsing error: "@,
                source.spec_message(),
            ),
            Error::PlistParsingError(text) => quoted("plist parsing error: "@, text@),
            Error::MisalignedCpuId(m) => quoted("cpu id misalignment: "@, m.spec_message()),
            Error::Utf8ConversionError(text) => quoted("utf8 conversion error: "@, text@),
            Error::Io(text) => quoted("failed with io: "@, text@),
            Error::PowermetricsSpawn(text) => quoted("failed to spawn powermetrics: "@, text@),
            Error::PowermetricsStdout => "powermetrics stdout not available"@,
            Error::PowermetricsKill(text) => quoted("failed to kill powermetrics: "@, text@),
        }
    }

    /// The error in words.
    pub fn message(&self) -> (r: String)
        ensures
            r@ == self.spec_message(),
    {
        match self {
            Error::SocInfoParsingError(text) => quote("socinfo parsing error: ", text.as_str()),
            Error::ParseIntError { source } => {
                let detail = source.message();
                quote("integer parsing error: ", detail.as_str())
            },
            Error::PlistParsingError(text) => quote("plist parsing error: ", text.as_str()),
            Error::MisalignedCpuId(m) => {
                let detail = m.message();
                quote("cpu id misalignment: ", detail.as_str())
            },
            Error::Utf8ConversionError(text) => quote("utf8 conversion error: ", text.as_str()),
            Error::Io(text) => quote("failed with io: ", text.as_str()),
            Error::PowermetricsSpawn(text) => quote(
                "failed to spawn powermetrics: ",
                text.as_str(),
            ),
            Error::PowermetricsStdout => String::from_str("powermetrics stdout not available"),
            Error::PowermetricsKill(text) => quote("failed to kill powermetrics: ", text.as_str()),
        }
    }
}

/// Result type for this crate.
pub type Result<T> = core::result::Result<T, Error>;

} // verus!
