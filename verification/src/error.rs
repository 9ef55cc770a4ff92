//! What can go wrong while building a request or reading a page.

use vstd::prelude::*;
use vstd::string::StringExecFns;

verus! {

/// A mandatory part of a catalogue entry.
#[derive(Clone, Copy, Debug, PartialEq, Eq, Structural)]
pub enum Field {
    Title,
    Narrator,
    Language,
    SampleUrl,
}

impl Field {
    /// The name of the field as it appears in a serialized entry.
    pub fn name(&self) -> (name: String)
        ensures
            name@ == match *self {
                Field::Title => "title"@,
                Field::Narrator => "narrator"@,
                Field::Language => "language"@,
                Field::SampleUrl => "sampleUrl"@,
            },
    {
        match self {
            Field::Title => String::from_str("title"),
            Field::Narrator => String::from_str("narrator"),
            Field::Language => String::from_str("language"),
            Field::SampleUrl => String::from_str("sampleUrl"),
        }
    }
}

/// Why the entries of a page could not be extracted.
#[derive(Clone, Copy, Debug, PartialEq, Eq, Structural)]
pub enum ExtractError {
    /// One of the selectors that locate the entries was not accepted.
    InvalidSelector,
    /// The page holds no product entry at all.
    NoItemsFound,
    /// An entry with a sample lacks a mandatory field.
    FieldMissing(Field),
    /// The address of an entry's sample is not an absolute URL.
    InvalidSampleUrl,
    /// A release-date label holds nothing that looks like a date.
    DateNotFound,
    /// A release-date label holds a date that the calendar does not have.
    DateParseError,
}

impl ExtractError {
    /// What went wrong, in words.
    pub fn message(&self) -> (message: String)
        ensures
            message@ == match *self {
                ExtractError::InvalidSelector => "Invalid selector"@,
                ExtractError::NoItemsFound => "No items found"@,
                ExtractError::FieldMissing(Field::Title) => "Title not found"@,
                ExtractError::FieldMissing(Field::Narrator) => "Narrator not found"@,
                ExtractError::FieldMissing(Field::Language) => "Language not found"@,
                ExtractError::FieldMissing(Field::SampleUrl) => "Unexpected missing data-mp3"@,
                ExtractError::InvalidSampleUrl => "Invalid sample URL"@,
                ExtractError::DateNotFound => "Date not found"@,
                ExtractError::DateParseError => "Invalid date"@,
            },
    {
        match self {
            ExtractError::InvalidSelector => String::from_str("Invalid selector"),
            ExtractError::NoItemsFound => String::from_str("No items found"),
            ExtractError::FieldMissing(Field::Title) => String::from_str("Title not found"),
            ExtractError::FieldMissing(Field::Narrator) => String::from_str("Narrator not found"),
            ExtractError::FieldMissing(Field::Language) => String::from_str("Language not found"),
            ExtractError::FieldMissing(Field::SampleUrl) => String::from_str(
                "Unexpected missing data-mp3",
            ),
            ExtractError::InvalidSampleUrl => String::from_str("Invalid sample URL"),
            ExtractError::DateNotFound => String::from_str("Date not found"),
            ExtractError::DateParseError => String::from_str("Invalid date"),
        }
    }
}

/// Why the request URL could not be built.
#[derive(Clone, Copy, Debug, PartialEq, Eq, Structural)]
pub enum UrlBuildError {
    /// The address of the catalogue's search page is not an absolute URL.
    InvalidBaseUrl,
}

impl UrlBuildError {
    /// What went wrong, in words.
    pub fn message(&self) -> (message: String)
        ensures
            message@ == "Invalid base URL"@,
    {
        String::from_str("Invalid base URL")
    }
}

} // verus!
