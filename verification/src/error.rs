use crate::text::{append_str, to_text};
use vstd::prelude::*;

verus! {

/// Why a text is no unsigned number.
#[derive(Debug, Clone, Copy, PartialEq, Eq, Structural)]
pub enum NumberError {
    /// The text is empty.
    Empty,
    /// A character that is no decimal digit comes before the number has
    /// grown too large.
    InvalidDigit,
    /// The digits stand for more than the largest number.
    TooLarge,
}

/// The sentence for a number that cannot be read, as std words it.
pub open spec fn number_error_text(e: NumberError) -> Seq<char> {
    match e {
        NumberError::Empty => "cannot parse integer from empty string"@,
        NumberError::InvalidDigit => "invalid digit found in string"@,
        NumberError::TooLarge => "number too large to fit in target type"@,
    }
}

impl NumberError {
    /// A sentence that says what went wrong.
    pub fn describe(&self) -> (r: &'static str)
        ensures
            r@ == number_error_text(*self),
    {
        match self {
            NumberError::Empty => "cannot parse integer from empty string",
            NumberError::InvalidDigit => "invalid digit found in string",
            NumberError::TooLarge => "number too large to fit in target type",
        }
    }
}

/// Why a version could not be read.
#[derive(Debug, Clone, PartialEq, Eq)]
pub enum VersionError {
    /// The `regex` crate refused one of the library's patterns.
    Pattern,
    /// There is no stamp file to take the current version from.
    MissingStamp,
    /// The stamp file holds no line that declares a version.
    Unstamped,
    /// This text holds no version of the form `1-2-3-00045`.
    InvalidFormat(String),
    /// What stands for the build number spells no number that can be read.
    InvalidBuildNumber(NumberError),
}

/// An error as plain values.
pub enum VersionErrorView {
    Pattern,
    MissingStamp,
    Unstamped,
    InvalidFormat(Seq<char>),
    InvalidBuildNumber(NumberError),
}

impl View for VersionError {
    type V = VersionErrorView;

    open spec fn view(&self) -> VersionErrorView {
        match *self {
            VersionError::Pattern => VersionErrorView::Pattern,
            VersionError::MissingStamp => VersionErrorView::MissingStamp,
            VersionError::Unstamped => VersionErrorView::Unstamped,
            VersionError::InvalidFormat(text) => VersionErrorView::InvalidFormat(text@),
            VersionError::InvalidBuildNumber(e) => VersionErrorView::InvalidBuildNumber(e),
        }
    }
}

/// The sentence for an error. For a text that holds no version it ends
/// with that text.
pub open spec fn error_text(e: VersionErrorView) -> Seq<char> {
    match e {
        VersionErrorView::Pattern => "Invalid version pattern"@,
        VersionErrorView::MissingStamp => "No stamp file to read the current version from"@,
        VersionErrorView::Unstamped => "The stamp file declares no version"@,
        VersionErrorView::InvalidFormat(text) => "Invalid version format: "@ + text,
        VersionErrorView::InvalidBuildNumber(e) => number_error_text(e),
    }
}

impl VersionError {
    /// A sentence that says what went wrong.
    pub fn describe(&self) -> (r: String)
        ensures
            r@ == error_text(self@),
    {
        let mut out: Vec<char> = Vec::new();
        match self {
            VersionError::Pattern => {
                append_str(&mut out, "Invalid version pattern");
            },
            VersionError::MissingStamp => {
                append_str(&mut out, "No stamp file to read the current version from");
            },
            VersionError::Unstamped => {
                append_str(&mut out, "The stamp file declares no version");
            },
            VersionError::InvalidFormat(text) => {
                append_str(&mut out, "Invalid version format: ");
                append_str(&mut out, text.as_str());
            },
            VersionError::InvalidBuildNumber(e) => {
                append_str(&mut out, e.describe());
            },
        }
        to_text(&out)
    }
}

} // verus!
