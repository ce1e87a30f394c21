//! The declarative schema: where each field of each entity is found.

use vstd::prelude::*;

verus! {

/// How to find one field: a fallback chain of selectors, and the attributes
/// to read from the matched element, in order of preference. With no
/// attributes the element's text content is read.
pub struct Field {
    pub chain: Vec<String>,
    pub attrs: Vec<String>,
}

pub struct ChapterQuery {
    /// Selects one container per chapter.
    pub base: Field,
    pub href: Field,
    pub posted: Field,
}

pub struct MangaQuery {
    pub title: Field,
    pub description: Field,
    pub cover: Field,
    pub is_ongoing: Field,
    pub genres: Field,
    pub alt_titles: Field,
    pub authors: Field,
    pub chapter: ChapterQuery,
}

pub struct ImagesQuery {
    pub image: Field,
}

pub struct SearchQuery {
    /// Path template holding the `[query]` placeholder.
    pub path: String,
    /// Selects one container per search result.
    pub base: Field,
    pub href: Field,
    pub title: Field,
    pub posted: Field,
    pub cover: Field,
    /// Whether the keywords are percent-encoded before substitution.
    pub encode: bool,
}

pub struct GenericQuery {
    pub manga: MangaQuery,
    pub images: ImagesQuery,
    pub search: Option<SearchQuery>,
    pub hostnames: Vec<String>,
}

} // verus!
