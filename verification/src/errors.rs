use vstd::prelude::*;

verus! {

/// The reasons a parse stops, each carrying the spelling it concerns as
/// the user wrote it.  Every one of these is terminal: the caller reports
/// it once and never resumes parsing.
#[derive(Debug, PartialEq, Eq)]
pub enum ParseError {
    /// An option was assigned a second time.
    DuplicateFlag(String),
    /// A value-consuming flag stood before the end of its short-flag group.
    GroupPosition(String),
    /// A value-consuming flag had no following token to consume.
    MissingValue(String),
    /// The consumed token named no severity level.
    InvalidValue(String),
    /// A token that looks like a flag but matches no known spelling.
    UnrecognizedArgument(String),
}

/// `ParseError` with its strings read as character sequences.
pub ghost enum ErrorView {
    DuplicateFlag(Seq<char>),
    GroupPosition(Seq<char>),
    MissingValue(Seq<char>),
    InvalidValue(Seq<char>),
    UnrecognizedArgument(Seq<char>),
}

impl View for ParseError {
    type V = ErrorView;

    open spec fn view(&self) -> ErrorView {
        match self {
            ParseError::DuplicateFlag(s) => ErrorView::DuplicateFlag(s@),
            ParseError::GroupPosition(s) => ErrorView::GroupPosition(s@),
            ParseError::MissingValue(s) => ErrorView::MissingValue(s@),
            ParseError::InvalidValue(s) => ErrorView::InvalidValue(s@),
            ParseError::UnrecognizedArgument(s) => ErrorView::UnrecognizedArgument(s@),
        }
    }
}

} // verus!
