//! Errors reported to callers, each carrying the offending text where there is one.
use vstd::prelude::*;

verus! {

/// Why a notation string could not be converted.
#[derive(Debug, Clone)]
pub enum ChordError {
    /// Nothing but white space was given.
    EmptyInput,
    /// The trimmed input is longer than the accepted bound.
    InputTooLong,
    /// A chord token with no characters at all.
    EmptyChord,
    /// The root is not one of the letters `A`..`G`.
    InvalidRoot(String),
    /// The root is one of `a`..`g`: roots must be uppercase.
    LowercaseRoot(String),
    /// The text after the root is not a known quality.
    UnknownQuality(String),
    /// A `/` with no bass note after it.
    EmptyBass,
    /// The text after `/` is not a note letter with an optional `#` or `b`.
    InvalidBass(String),
    /// A progression in which every segment is empty.
    EmptyProgression,
    /// A chord value whose root is not a single letter `A`..`G`, so that it has no
    /// place in the chromatic table.
    InvalidNote(String),
}

/// The mathematical value of a [`ChordError`].
pub enum ErrorView {
    EmptyInput,
    InputTooLong,
    EmptyChord,
    InvalidRoot(Seq<char>),
    LowercaseRoot(Seq<char>),
    UnknownQuality(Seq<char>),
    EmptyBass,
    InvalidBass(Seq<char>),
    EmptyProgression,
    InvalidNote(Seq<char>),
}

impl View for ChordError {
    type V = ErrorView;

    open spec fn view(&self) -> ErrorView {
        match self {
            ChordError::EmptyInput => ErrorView::EmptyInput,
            ChordError::InputTooLong => ErrorView::InputTooLong,
            ChordError::EmptyChord => ErrorView::EmptyChord,
            ChordError::InvalidRoot(s) => ErrorView::InvalidRoot(s@),
            ChordError::LowercaseRoot(s) => ErrorView::LowercaseRoot(s@),
            ChordError::UnknownQuality(s) => ErrorView::UnknownQuality(s@),
            ChordError::EmptyBass => ErrorView::EmptyBass,
            ChordError::InvalidBass(s) => ErrorView::InvalidBass(s@),
            ChordError::EmptyProgression => ErrorView::EmptyProgression,
            ChordError::InvalidNote(s) => ErrorView::InvalidNote(s@),
        }
    }
}

/// The human-readable message for an error.
pub open spec fn error_message(e: ErrorView) -> Seq<char> {
    match e {
        ErrorView::EmptyInput =>
            "Empty input. Please provide a chord notation (e.g., 'C', 'C-F-G-C')."@,
        ErrorView::InputTooLong => "Input too long (max 1000 characters)."@,
        ErrorView::EmptyChord => "Empty chord notation"@,
        ErrorView::InvalidRoot(s) => "Invalid root note: "@ + s,
        ErrorView::LowercaseRoot(s) => "Invalid root note '"@ + s
            + "': root note must be uppercase A-G"@,
        ErrorView::UnknownQuality(s) => "Unknown chord quality: "@ + s,
        ErrorView::EmptyBass => "Empty bass note after '/' in slash chord"@,
        ErrorView::InvalidBass(s) => "Invalid bass note '"@ + s
            + "': expected A-G with an optional # or b"@,
        ErrorView::EmptyProgression => "No valid chords found in progression"@,
        ErrorView::InvalidNote(s) => "Note outside the chromatic table: '"@ + s + "'"@,
    }
}

impl ChordError {
    /// The human-readable message for this error.
    pub fn message(&self) -> (r: String)
        ensures
            r@ == error_message(self@),
    {
        match self {
            ChordError::EmptyInput => String::from_str(
                "Empty input. Please provide a chord notation (e.g., 'C', 'C-F-G-C').",
            ),
            ChordError::InputTooLong => String::from_str("Input too long (max 1000 characters)."),
            ChordError::EmptyChord => String::from_str("Empty chord notation"),
            ChordError::InvalidRoot(s) => {
                let mut m = String::from_str("Invalid root note: ");
                m.append(s.as_str());
                m
            },
            ChordError::LowercaseRoot(s) => {
                let mut m = String::from_str("Invalid root note '");
                m.append(s.as_str());
                m.append("': root note must be uppercase A-G");
                m
            },
            ChordError::UnknownQuality(s) => {
                let mut m = String::from_str("Unknown chord quality: ");
                m.append(s.as_str());
                m
            },
            ChordError::EmptyBass => String::from_str("Empty bass note after '/' in slash chord"),
            ChordError::InvalidBass(s) => {
                let mut m = String::from_str("Invalid bass note '");
                m.append(s.as_str());
                m.append("': expected A-G with an optional # or b");
                m
            },
            ChordError::EmptyProgression => String::from_str(
                "No valid chords found in progression",
            ),
            ChordError::InvalidNote(s) => {
                let mut m = String::from_str("Note outside the chromatic table: '");
                m.append(s.as_str());
                m.append("'");
                m
            },
        }
    }
}

} // verus!
