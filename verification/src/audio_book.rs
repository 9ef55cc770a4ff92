//! One entry of the catalogue.

use crate::address::Url;
use crate::dates::Date;
use vstd::prelude::*;

verus! {

/// What an `AudioBook` holds, as mathematical values.
pub struct BookView {
    pub title: Seq<char>,
    pub narrator: Seq<char>,
    pub language: Seq<char>,
    pub release_date: Option<Date>,
    pub sample_url: Seq<char>,
}

/// An audiobook: its title, who narrates it, the language it is narrated in,
/// the day it was released, where that is known, and the address of a sample
/// of the recording.
#[derive(Debug)]
pub struct AudioBook {
    title: String,
    narrator: String,
    language: String,
    release_date: Option<Date>,
    sample_url: Url,
}

impl View for AudioBook {
    type V = BookView;

    closed spec fn view(&self) -> BookView {
        BookView {
            title: self.title@,
            narrator: self.narrator@,
            language: self.language@,
            release_date: self.release_date,
            sample_url: self.sample_url@,
        }
    }
}

impl Clone for AudioBook {
    fn clone(&self) -> (copy: Self)
        ensures
            copy@ == self@,
    {
        AudioBook {
            title: self.title.clone(),
            narrator: self.narrator.clone(),
            language: self.language.clone(),
            release_date: self.release_date,
            sample_url: self.sample_url.clone(),
        }
    }
}

impl AudioBook {
    pub fn new(
        title: String,
        narrator: String,
        language: String,
        release_date: Option<Date>,
        sample_url: Url,
    ) -> (book: Self)
        ensures
            book@ == (BookView {
                title: title@,
                narrator: narrator@,
                language: language@,
                release_date,
                sample_url: sample_url@,
            }),
    {
        Self { title, narrator, language, release_date, sample_url }
    }

    pub fn title(&self) -> (title: &str)
        ensures
            title@ == self@.title,
    {
        self.title.as_str()
    }

    pub fn narrator(&self) -> (narrator: &str)
        ensures
            narrator@ == self@.narrator,
    {
        self.narrator.as_str()
    }

    pub fn language(&self) -> (language: &str)
        ensures
            language@ == self@.language,
    {
        self.language.as_str()
    }

    pub fn release_date(&self) -> (date: Option<Date>)
        ensures
            date == self@.release_date,
    {
        self.release_date
    }

    pub fn sample_url(&self) -> (url: &Url)
        ensures
            url@ == self@.sample_url,
    {
        &self.sample_url
    }
}

} // verus!
