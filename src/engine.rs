//! The generic query engine: applies a schema to a located document.

use vstd::prelude::*;
use vstd::string::*;
use crate::dom::{Node, opt_view};
use crate::extract::{matched, multi, select_chain, single, single_value, all_values};
use crate::query::{ChapterQuery, Field, GenericQuery, SearchQuery};
use crate::text::{mentions, mentions_word, replaced, substitute};
use crate::web::{join_url, parse_url, percent_encode, url_encoded, url_join, url_parse};

verus! {

/// The engine's error kinds, shared by every adapter.
#[derive(Debug, Clone, Copy, PartialEq, Eq, Structural)]
pub enum ParseError {
    /// A structurally required field had no matching selector.
    MissingField,
    /// No image could be resolved for a chapter.
    MissingImages,
    /// A string failed URL parsing or resolution.
    InvalidUrl,
    /// No adapter claims the URL's host.
    UnknownHost,
}

/// A parsed document and the URL it was loaded from.
pub struct DocLoc {
    pub doc: Node,
    pub loc: String,
}

pub struct Chapter {
    pub href: String,
    pub posted: Option<String>,
}

pub struct SearchResult {
    pub href: String,
    pub title: Option<String>,
    pub posted: Option<String>,
    pub cover: Option<String>,
}

pub struct Manga {
    pub title: String,
    pub description: Option<String>,
    pub cover: Option<String>,
    /// Whether the status text mentions "ongoing", if there is a status.
    pub is_ongoing: Option<bool>,
    pub genres: Vec<String>,
    pub alt_titles: Vec<String>,
    pub authors: Vec<String>,
    pub chapters: Vec<Chapter>,
}

impl View for Chapter {
    type V = (Seq<char>, Option<Seq<char>>);

    open spec fn view(&self) -> Self::V {
        (self.href@, opt_view(self.posted))
    }
}

impl View for SearchResult {
    type V = (Seq<char>, Option<Seq<char>>, Option<Seq<char>>, Option<Seq<char>>);

    open spec fn view(&self) -> Self::V {
        (self.href@, opt_view(self.title), opt_view(self.posted), opt_view(self.cover))
    }
}

/// The ongoing flag read from a status text.
pub open spec fn ongoing_of(status: Option<Seq<char>>) -> Option<bool> {
    match status {
        Some(t) => Some(mentions(t, "ongoing"@)),
        None => None,
    }
}

/// The chapter a container describes; none without an href.
pub open spec fn chapter_of(n: Node, q: ChapterQuery) -> Option<(Seq<char>, Option<Seq<char>>)> {
    match single(n, q.href) {
        Some(h) => Some((h, single(n, q.posted))),
        None => None,
    }
}

/// Chapters of the containers `ns`, in order.
pub open spec fn chapters_of(ns: Seq<Node>, q: ChapterQuery) -> Seq<(Seq<char>, Option<Seq<char>>)>
    decreases ns.len(),
{
    if ns.len() == 0 {
        seq![]
    } else {
        let prev = chapters_of(ns.drop_last(), q);
        match chapter_of(ns.last(), q) {
            Some(c) => prev.push(c),
            None => prev,
        }
    }
}

/// The search result a container describes; none without an href.
pub open spec fn result_of(n: Node, q: SearchQuery) -> Option<
    (Seq<char>, Option<Seq<char>>, Option<Seq<char>>, Option<Seq<char>>),
> {
    match single(n, q.href) {
        Some(h) => Some((h, single(n, q.title), single(n, q.posted), single(n, q.cover))),
        None => None,
    }
}

/// Search results of the containers `ns`, in order.
pub open spec fn results_of(ns: Seq<Node>, q: SearchQuery) -> Seq<
    (Seq<char>, Option<Seq<char>>, Option<Seq<char>>, Option<Seq<char>>),
>
    decreases ns.len(),
{
    if ns.len() == 0 {
        seq![]
    } else {
        let prev = results_of(ns.drop_last(), q);
        match result_of(ns.last(), q) {
            Some(c) => prev.push(c),
            None => prev,
        }
    }
}

/// Each of `vs` resolved against `base`; none if any fails.
pub open spec fn joined(base: Seq<char>, vs: Seq<Seq<char>>) -> Option<Seq<Seq<char>>>
    decreases vs.len(),
{
    if vs.len() == 0 {
        Some(seq![])
    } else {
        match (joined(base, vs.drop_last()), url_join(base, vs.last())) {
            (Some(p), Some(u)) => Some(p.push(u)),
            _ => None,
        }
    }
}

/// Image URLs of a chapter page: every image value resolved against the page's URL.
pub open spec fn images_of(f: Field, dl: DocLoc) -> Result<Seq<Seq<char>>, ParseError> {
    let vs = multi(dl.doc, f);
    if vs.len() == 0 {
        Err(ParseError::MissingImages)
    } else {
        match joined(dl.loc@, vs) {
            Some(us) => Ok(us),
            None => Err(ParseError::InvalidUrl),
        }
    }
}

/// The placeholder a search path template holds.
pub open spec fn placeholder() -> Seq<char> {
    seq!['[', 'q', 'u', 'e', 'r', 'y', ']']
}

/// The text of a search URL before parsing.
pub open spec fn search_text(host: Seq<char>, keywords: Seq<char>, path: Seq<char>, encode: bool) -> Seq<char> {
    let kw = if encode { url_encoded(keywords) } else { keywords };
    seq!['h', 't', 't', 'p', 's', ':', '/', '/'] + host + replaced(path, placeholder(), kw)
}

/// The search URL for `keywords` on `host` under the path template `path`.
pub open spec fn search_url(host: Seq<char>, keywords: Seq<char>, path: Seq<char>, encode: bool) -> Result<Seq<char>, ParseError> {
    match url_parse(search_text(host, keywords, path, encode)) {
        Some(u) => Ok(u),
        None => Err(ParseError::InvalidUrl),
    }
}

pub open spec fn urls_view(r: Result<Vec<String>, ParseError>) -> Result<Seq<Seq<char>>, ParseError> {
    match r {
        Ok(v) => Ok(v.deep_view()),
        Err(e) => Err(e),
    }
}

pub open spec fn url_view(r: Result<String, ParseError>) -> Result<Seq<char>, ParseError> {
    match r {
        Ok(v) => Ok(v@),
        Err(e) => Err(e),
    }
}

/// Builds the `[query]` placeholder.
fn placeholder_text() -> (r: String)
    ensures
        r@ == placeholder(),
{
    let mut s = String::new();
    crate::text::push_char(&mut s, '[');
    crate::text::push_char(&mut s, 'q');
    crate::text::push_char(&mut s, 'u');
    crate::text::push_char(&mut s, 'e');
    crate::text::push_char(&mut s, 'r');
    crate::text::push_char(&mut s, 'y');
    crate::text::push_char(&mut s, ']');
    assert(s@ =~= placeholder());
    s
}

/// The generic engine, fixed to one schema.
pub struct GenericQueryParser {
    pub query: GenericQuery,
}

impl GenericQueryParser {
    pub fn new(query: GenericQuery) -> (r: GenericQueryParser)
        ensures
            r.query == query,
    {
        GenericQueryParser { query }
    }

    pub fn get_query(&self) -> (r: &GenericQuery)
        ensures
            *r == self.query,
    {
        &self.query
    }

    /// Keywords as the search path expects them; the engine keeps them as they are.
    pub fn parse_keywords(&self, _hostname: &str, keywords: &str) -> (r: String)
        ensures
            r@ == keywords@,
    {
        keywords.to_owned()
    }

    pub fn genres(&self, dl: &DocLoc) -> (r: Vec<String>)
        ensures
            r.deep_view() == multi(dl.doc, self.query.manga.genres),
    {
        all_values(&dl.doc, &self.query.manga.genres)
    }

    pub fn alt_titles(&self, dl: &DocLoc) -> (r: Vec<String>)
        ensures
            r.deep_view() == multi(dl.doc, self.query.manga.alt_titles),
    {
        all_values(&dl.doc, &self.query.manga.alt_titles)
    }

    pub fn authors(&self, dl: &DocLoc) -> (r: Vec<String>)
        ensures
            r.deep_view() == multi(dl.doc, self.query.manga.authors),
    {
        all_values(&dl.doc, &self.query.manga.authors)
    }

    /// Chapters: one per chapter container that has an href, in document order.
    pub fn chapters(&self, dl: &DocLoc) -> (r: Vec<Chapter>)
        ensures
            r@.map_values(|c: Chapter| c@) == chapters_of(matched(dl.doc, self.query.manga.chapter.base), self.query.manga.chapter),
    {
        let q = &self.query.manga.chapter;
        let ghost ns = matched(dl.doc, q.base);
        let mut out: Vec<Chapter> = Vec::new();
        let containers = select_chain(&dl.doc, &q.base);
        if containers.is_none() {
            assert(out@.map_values(|c: Chapter| c@) =~= chapters_of(ns, *q));
            return out;
        }
        let v = containers.unwrap();
        let k = v.len();
        let mut i: usize = 0;
        while i < k
            invariant
                k == v@.len(),
                v@ == ns,
                i <= k,
                out@.map_values(|c: Chapter| c@) == chapters_of(ns.subrange(0, i as int), *q),
            decreases k - i,
        {
            let ghost before = out@.map_values(|c: Chapter| c@);
            assert(ns.subrange(0, i + 1).drop_last() =~= ns.subrange(0, i as int));
            let href = single_value(&v[i], &q.href);
            match href {
                Some(h) => {
                    let posted = single_value(&v[i], &q.posted);
                    let c = Chapter { href: h, posted };
                    let ghost cv = c@;
                    out.push(c);
                    assert(out@.map_values(|c: Chapter| c@) =~= before.push(cv));
                },
                None => {},
            }
            i = i + 1;
        }
        assert(ns.subrange(0, k as int) =~= ns);
        out
    }

    /// The manga a page describes; its title is required.
    pub fn get_manga(&self, dl: &DocLoc) -> (r: Result<Manga, ParseError>)
        ensures
            r is Err <==> single(dl.doc, self.query.manga.title) is None,
            r matches Err(e) ==> e == ParseError::MissingField,
            r matches Ok(m) ==> {
                let q = self.query.manga;
                &&& single(dl.doc, q.title) == Some(m.title@)
                &&& opt_view(m.description) == single(dl.doc, q.description)
                &&& opt_view(m.cover) == single(dl.doc, q.cover)
                &&& m.is_ongoing == ongoing_of(single(dl.doc, q.is_ongoing))
                &&& m.genres.deep_view() == multi(dl.doc, q.genres)
                &&& m.alt_titles.deep_view() == multi(dl.doc, q.alt_titles)
                &&& m.authors.deep_view() == multi(dl.doc, q.authors)
                &&& m.chapters@.map_values(|c: Chapter| c@) == chapters_of(matched(dl.doc, q.chapter.base), q.chapter)
            },
    {
        let q = &self.query.manga;
        let title = single_value(&dl.doc, &q.title);
        match title {
            None => Err(ParseError::MissingField),
            Some(title) => Ok(Manga {
                title,
                description: single_value(&dl.doc, &q.description),
                cover: single_value(&dl.doc, &q.cover),
                is_ongoing: match single_value(&dl.doc, &q.is_ongoing) {
                    Some(t) => Some(mentions_word(t.as_str(), "ongoing")),
                    None => None,
                },
                genres: self.genres(dl),
                alt_titles: self.alt_titles(dl),
                authors: self.authors(dl),
                chapters: self.chapters(dl),
            }),
        }
    }

    /// Image URLs of a chapter page, resolved against the page's URL.
    pub fn get_images(&self, dl: &DocLoc) -> (r: Result<Vec<String>, ParseError>)
        ensures
            urls_view(r) == images_of(self.query.images.image, *dl),
    {
        let vs = all_values(&dl.doc, &self.query.images.image);
        if vs.len() == 0 {
            return Err(ParseError::MissingImages);
        }
        let ghost vv = vs.deep_view();
        let mut out: Vec<String> = Vec::new();
        let k = vs.len();
        let mut i: usize = 0;
        while i < k
            invariant
                k == vv.len(),
                vv == vs.deep_view(),
                vv == multi(dl.doc, self.query.images.image),
                i <= k,
                joined(dl.loc@, vv.subrange(0, i as int)) == Some(out.deep_view()),
            decreases k - i,
        {
            assert(vv.subrange(0, i + 1).drop_last() =~= vv.subrange(0, i as int));
            assert(vv[i as int] == vs@[i as int]@);
            match join_url(dl.loc.as_str(), vs[i].as_str()) {
                Some(u) => {
                    let ghost before = out.deep_view();
                    let ghost uv = u@;
                    out.push(u);
                    assert(out.deep_view() =~= before.push(uv));
                },
                None => {
                    proof {
                        lemma_joined_fails(dl.loc@, vv, i as int + 1);
                        assert(multi(dl.doc, self.query.images.image).len() > 0);
                    }
                    return Err(ParseError::InvalidUrl);
                },
            }
            i = i + 1;
        }
        assert(vv.subrange(0, k as int) =~= vv);
        Ok(out)
    }

    /// Search results: one per result container that has an href, in document order.
    pub fn search(&self, dl: &DocLoc) -> (r: Vec<SearchResult>)
        ensures
            match self.query.search {
                Some(q) => r@.map_values(|s: SearchResult| s@) == results_of(matched(dl.doc, q.base), q),
                None => r@.len() == 0,
            },
    {
        let mut out: Vec<SearchResult> = Vec::new();
        let q = match &self.query.search {
            Some(q) => q,
            None => return out,
        };
        let ghost ns = matched(dl.doc, q.base);
        let containers = select_chain(&dl.doc, &q.base);
        if containers.is_none() {
            assert(out@.map_values(|s: SearchResult| s@) =~= results_of(ns, *q));
            return out;
        }
        let v = containers.unwrap();
        let k = v.len();
        let mut i: usize = 0;
        while i < k
            invariant
                k == v@.len(),
                v@ == ns,
                i <= k,
                out@.map_values(|s: SearchResult| s@) == results_of(ns.subrange(0, i as int), *q),
            decreases k - i,
        {
            let ghost before = out@.map_values(|s: SearchResult| s@);
            assert(ns.subrange(0, i + 1).drop_last() =~= ns.subrange(0, i as int));
            match single_value(&v[i], &q.href) {
                Some(h) => {
                    let s = SearchResult {
                        href: h,
                        title: single_value(&v[i], &q.title),
                        posted: single_value(&v[i], &q.posted),
                        cover: single_value(&v[i], &q.cover),
                    };
                    let ghost sv = s@;
                    out.push(s);
                    assert(out@.map_values(|s: SearchResult| s@) =~= before.push(sv));
                },
                None => {},
            }
            i = i + 1;
        }
        assert(ns.subrange(0, k as int) =~= ns);
        out
    }

    /// Whether the schema percent-encodes search keywords.
    pub open spec fn encodes(&self) -> bool {
        match self.query.search {
            Some(q) => q.encode,
            None => false,
        }
    }

    /// The search URL: `path` with `[query]` replaced by the keywords
    /// (percent-encoded if the schema says so), on `https://hostname`.
    pub fn parse_search_url(&self, hostname: &str, keywords: &str, path: &str) -> (r: Result<String, ParseError>)
        ensures
            url_view(r) == search_url(hostname@, keywords@, path@, self.encodes()),
    {
        let encode = match &self.query.search {
            Some(q) => q.encode,
            None => false,
        };
        let kw = if encode { percent_encode(keywords) } else { keywords.to_owned() };
        let p = substitute(path, placeholder_text().as_str(), kw.as_str());
        let mut text = String::from_str("https://");
        proof { reveal_strlit("https://"); }
        text.append(hostname);
        text.append(p.as_str());
        assert(text@ =~= search_text(hostname@, keywords@, path@, encode));
        match parse_url(text.as_str()) {
            Some(u) => Ok(u),
            None => Err(ParseError::InvalidUrl),
        }
    }
}

/// Once one value fails to resolve, the whole list does.
proof fn lemma_joined_fails(base: Seq<char>, vs: Seq<Seq<char>>, j: int)
    requires
        0 < j <= vs.len(),
        url_join(base, vs[j - 1]) is None,
    ensures
        joined(base, vs) is None,
    decreases vs.len(),
{
    if j < vs.len() {
        lemma_joined_fails(base, vs.drop_last(), j);
        assert(vs.drop_last()[j - 1] == vs[j - 1]);
    } else {
        assert(vs.last() == vs[j - 1]);
    }
}

} // verus!
