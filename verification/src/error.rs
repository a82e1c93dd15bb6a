//! The failures of a parse call.

use vstd::prelude::*;

verus! {

/// Why a parse call failed.
#[derive(Debug, PartialEq, Eq)]
pub enum ParseError {
    /// The rule set names a mode other than the four known ones.
    UnsupportedMode,
    /// A capture group that the named field needs took no part in the match,
    /// and the field is not optional.
    MissingRequiredField(String),
    /// The pattern held here does not compile.
    RegexCompileError(String),
    /// A transform of the kind held first could not convert the raw text
    /// held second.
    ValueConversionError(String, String),
    /// No table format is registered under the name held here.
    TableFormatNotFound(String),
    /// A table rule set names no format.
    MissingFormatName,
}

/// The mathematical model of a `ParseError`.
pub enum Failure {
    UnsupportedMode,
    MissingRequiredField(Seq<char>),
    RegexCompileError(Seq<char>),
    ValueConversionError(Seq<char>, Seq<char>),
    TableFormatNotFound(Seq<char>),
    MissingFormatName,
}

impl View for ParseError {
    type V = Failure;

    open spec fn view(&self) -> Failure {
        match self {
            ParseError::UnsupportedMode => Failure::UnsupportedMode,
            ParseError::MissingRequiredField(name) => Failure::MissingRequiredField(name@),
            ParseError::RegexCompileError(pattern) => Failure::RegexCompileError(pattern@),
            ParseError::ValueConversionError(kind, raw) => Failure::ValueConversionError(
                kind@,
                raw@,
            ),
            ParseError::TableFormatNotFound(name) => Failure::TableFormatNotFound(name@),
            ParseError::MissingFormatName => Failure::MissingFormatName,
        }
    }
}

impl Failure {
    /// The text that describes the failure.
    pub open spec fn message(self) -> Seq<char> {
        match self {
            Failure::UnsupportedMode => "Unsupported parse type"@,
            Failure::MissingRequiredField(name) => "Required group not found for field "@ + name,
            Failure::RegexCompileError(pattern) => "Invalid regular expression: "@ + pattern,
            Failure::ValueConversionError(kind, raw) => "Cannot convert '"@ + raw + "' to "@
                + kind,
            Failure::TableFormatNotFound(name) => "Table format '"@ + name + "' not found"@,
            Failure::MissingFormatName => "Format type required for table parsing"@,
        }
    }
}

impl ParseError {
    /// The text that describes the failure.
    pub fn message(&self) -> (text: String)
        ensures
            text@ == self@.message(),
    {
        match self {
            ParseError::UnsupportedMode => "Unsupported parse type".to_string(),
            ParseError::MissingRequiredField(name) => {
                let mut text = "Required group not found for field ".to_string();
                text.append(name.as_str());
                text
            },
            ParseError::RegexCompileError(pattern) => {
                let mut text = "Invalid regular expression: ".to_string();
                text.append(pattern.as_str());
                text
            },
            ParseError::ValueConversionError(kind, raw) => {
                let mut text = "Cannot convert '".to_string();
                text.append(raw.as_str());
                text.append("' to ");
                text.append(kind.as_str());
                text
            },
            ParseError::TableFormatNotFound(name) => {
                let mut text = "Table format '".to_string();
                text.append(name.as_str());
                text.append("' not found");
                text
            },
            ParseError::MissingFormatName => "Format type required for table parsing".to_string(),
        }
    }
}

/// The model of the outcome of a parse call.
pub open spec fn outcome(r: Result<crate::value::Value, ParseError>) -> Result<
    crate::value::Json,
    Failure,
> {
    match r {
        Ok(v) => Ok(v@),
        Err(e) => Err(e@),
    }
}

} // verus!
