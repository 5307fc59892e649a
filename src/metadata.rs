//! Descriptive metadata found for a media file.
use vstd::prelude::*;

verus! {

pub struct FetchedMetadata {
    pub title: String,
    pub description: Option<String>,
    pub year: Option<String>,
    pub tags: Vec<String>,
    pub poster_url: Option<String>,
    pub cast: Option<Vec<String>>,
    pub rating: Option<String>,
    pub source_service: Option<String>,
    pub source_url: Option<String>,
}

} // verus!
