//! Catalogue entries of the single-source catalogue.
use crate::providers::models::{display_title_text, year_text};
use crate::text::{chars_of, extend_str, string_of};
use vstd::prelude::*;

pub use crate::providers::models::{MediaType, StreamUrl};

verus! {

/// One title of the catalogue.
#[derive(Debug, Clone)]
pub struct MediaEntry {
    pub id: u64,
    pub name: String,
    pub slug: String,
    pub media_type: MediaType,
    pub year: Option<String>,
    pub image_url: Option<String>,
    pub tmdb_id: Option<String>,
}

/// An episode of a season.
#[derive(Debug, Clone)]
pub struct Episode {
    pub id: u64,
    pub number: u32,
    pub name: String,
    pub duration: Option<u32>,
}

/// A season of a show, with its episodes.
#[derive(Debug, Clone)]
pub struct Season {
    pub id: u64,
    pub number: u32,
    pub name: Option<String>,
    pub episodes: Vec<Episode>,
}

impl MediaEntry {
    /// Whether the entry is a film.
    pub fn is_movie(&self) -> (r: bool)
        ensures
            r == (self.media_type == MediaType::Movie),
    {
        self.media_type == MediaType::Movie
    }

    /// The title followed by the year in brackets, when known.
    pub fn display_title(&self) -> (r: String)
        ensures
            r@ == display_title_text(self.name@, self.year),
    {
        match &self.year {
            Some(y) => {
                let mut v = chars_of(self.name.as_str());
                v.push(' ');
                v.push('(');
                extend_str(&mut v, y.as_str());
                v.push(')');
                assert(v@ =~= self.name@ + seq![' ', '('] + y@ + seq![')']);
                string_of(&v)
            },
            None => self.name.clone(),
        }
    }

    /// The release year, or an empty string when unknown.
    pub fn year_display(&self) -> (r: &str)
        ensures
            r@ == year_text(self.year),
    {
        match &self.year {
            Some(y) => y.as_str(),
            None => {
                let e = "";
                proof {
                    reveal_strlit("");
                }
                e
            },
        }
    }
}

} // verus!
