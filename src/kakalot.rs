//! The adapter for the MangaKakalot family of sites: one schema shared by
//! several hostnames, with per-mirror quirks in an explicit table.

use vstd::prelude::*;
use vstd::string::*;
use crate::dom::Node;
use crate::engine::{
    Chapter, DocLoc, chapters_of, ongoing_of, results_of, GenericQueryParser, Manga, ParseError, SearchResult, images_of, search_url,
    url_view, urls_view,
};
use crate::extract::{matched, multi, single};
use crate::dom::opt_view;
use crate::query::{ChapterQuery, Field, GenericQuery, ImagesQuery, MangaQuery, SearchQuery};
use crate::text::{mapped_char, replace_char, split_on, split_text};
use crate::web::{
    host_of, parse_url, set_host, set_scheme, strip_non_word, url_host, url_parse,
    url_with_host, url_with_scheme, word_chars, is_word_char,
};

verus! {

/// Mirrors whose markup or endpoints depart from the shared schema.
#[derive(Debug, Clone, Copy, PartialEq, Eq, Structural)]
pub enum Mirror {
    /// Follows the shared schema.
    Standard,
    /// Images as one comma-separated list; search at `/search?q=` over plain
    /// HTTP; no alternative titles or authors.
    Best,
    /// Search at `/search/manga/` on the `h.` subdomain.
    Bat,
    /// Images as one comma-separated list.
    Hub,
}

/// The quirk table, keyed by hostname.
pub open spec fn mirror_of(host: Seq<char>) -> Mirror {
    if host == "mangabat.best"@ {
        Mirror::Best
    } else if host == "mangabat.com"@ {
        Mirror::Bat
    } else if host == "hubmanga.com"@ {
        Mirror::Hub
    } else {
        Mirror::Standard
    }
}

/// Mirror of the page's host; a URL without a host follows the shared schema.
pub open spec fn mirror_at(loc: Seq<char>) -> Mirror {
    match url_host(loc) {
        Some(h) => mirror_of(h),
        None => Mirror::Standard,
    }
}

/// Keywords as the search path accepts them: spaces become `_`, then every
/// non-word character is dropped.
pub open spec fn normalized(keywords: Seq<char>) -> Seq<char> {
    word_chars(mapped_char(keywords, ' ', '_'))
}

/// Each piece parsed as an absolute URL; none if any fails.
pub open spec fn parsed_all(pieces: Seq<Seq<char>>) -> Option<Seq<Seq<char>>>
    decreases pieces.len(),
{
    if pieces.len() == 0 {
        Some(seq![])
    } else {
        match (parsed_all(pieces.drop_last()), url_parse(pieces.last())) {
            (Some(p), Some(u)) => Some(p.push(u)),
            _ => None,
        }
    }
}

/// Images delivered as one comma-separated list in the `#arraydata` element.
pub open spec fn delimited_images(doc: Node) -> Result<Seq<Seq<char>>, ParseError> {
    let m = doc.selected("#arraydata"@);
    if m.len() == 0 {
        Err(ParseError::MissingImages)
    } else {
        match m[0].text_view() {
            None => Err(ParseError::MissingImages),
            Some(t) => match parsed_all(split_on(t, ',')) {
                Some(us) => Ok(us),
                None => Err(ParseError::MissingImages),
            },
        }
    }
}

/// The search path template a mirror uses in place of the schema's.
pub open spec fn mirror_path(m: Mirror, path: Seq<char>) -> Seq<char> {
    match m {
        Mirror::Best => "/search?q=[query]"@,
        Mirror::Bat => "/search/manga/[query]"@,
        _ => path,
    }
}

pub open spec fn or_invalid(u: Option<Seq<char>>) -> Result<Seq<char>, ParseError> {
    match u {
        Some(v) => Ok(v),
        None => Err(ParseError::InvalidUrl),
    }
}

/// The search URL a mirror answers on.
pub open spec fn mirror_search_url(encode: bool, host: Seq<char>, keywords: Seq<char>, path: Seq<char>) -> Result<Seq<char>, ParseError> {
    let m = mirror_of(host);
    match search_url(host, normalized(keywords), mirror_path(m, path), encode) {
        Err(e) => Err(e),
        Ok(u) => match m {
            Mirror::Best => or_invalid(url_with_scheme(u, "http"@)),
            Mirror::Bat => or_invalid(url_with_host(u, "h.mangabat.com"@)),
            _ => Ok(u),
        },
    }
}

/// A list of owned strings from literals.
fn strings(items: &[&str]) -> (r: Vec<String>)
    ensures
        r.deep_view() == items@.map_values(|s: &str| s@),
{
    let mut out: Vec<String> = Vec::new();
    let mut i: usize = 0;
    while i < items.len()
        invariant
            i <= items@.len(),
            out.deep_view() == items@.subrange(0, i as int).map_values(|s: &str| s@),
        decreases items@.len() - i,
    {
        let ghost before = out.deep_view();
        let item = String::from_str(items[i]);
        assert(item@ == items@[i as int]@);
        out.push(item);
        assert(out.deep_view() =~= before.push(items@[i as int]@));
        assert(items@.subrange(0, i + 1).map_values(|s: &str| s@) =~= items@.subrange(0, i as int).map_values(|s: &str| s@).push(items@[i as int]@));
        i = i + 1;
    }
    assert(items@.subrange(0, items@.len() as int) =~= items@);
    out
}

fn field(chain: &[&str], attrs: &[&str]) -> (r: Field)
    ensures
        r.chain.deep_view() == chain@.map_values(|s: &str| s@),
        r.attrs.deep_view() == attrs@.map_values(|s: &str| s@),
{
    Field { chain: strings(chain), attrs: strings(attrs) }
}

/// The adapter: the shared schema, the engine built on it, and the quirk table.
pub struct MangaKakalot {
    parser: GenericQueryParser,
}

impl MangaKakalot {
    /// The engine this adapter delegates to.
    pub closed spec fn engine(&self) -> GenericQueryParser {
        self.parser
    }

    pub open spec fn encodes(&self) -> bool {
        self.engine().encodes()
    }

    /// What `get_images` yields for a page; a page URL without a host is invalid.
    pub open spec fn images_at(&self, dl: DocLoc) -> Result<Seq<Seq<char>>, ParseError> {
        match url_host(dl.loc@) {
            None => Err(ParseError::InvalidUrl),
            Some(h) => match mirror_of(h) {
                Mirror::Best | Mirror::Hub => delimited_images(dl.doc),
                _ => images_of(self.engine().query.images.image, dl),
            },
        }
    }

    /// A multi-valued manga field, suppressed on the mirror that renders it unreliably.
    pub open spec fn suppressible(&self, dl: DocLoc, f: Field) -> Seq<Seq<char>> {
        if mirror_at(dl.loc@) == Mirror::Best {
            seq![]
        } else {
            multi(dl.doc, f)
        }
    }

    pub fn new() -> (r: Self)
        ensures
            r.engine().query.hostnames.deep_view() == seq![
                "mangabat.com"@,
                "mangabat.best"@,
                "mangakakalot.com"@,
                "mangakakalot.tv"@,
                "manganelo.com"@,
                "manganato.com"@,
                "readmanganato.com"@,
            ],
            r.engine().query.search matches Some(s) && s.path@ == "/search/story/[query]"@ && !s.encode,
    {
        let manga = MangaQuery {
            title: field(&["h1"], &[]),
            description: field(&["#noidungm", "#panel-story-info-description", "#example2", "div:has(> h2:icontains(sum))", "div:has(> h3:icontains(desc))"], &[]),
            cover: field(&["meta[property=og:image]", "#primaryimage", "div.manga-info-pic > img", "span.info-image > img"], &["content", "data-src", "src"]),
            is_ongoing: field(&["li:icontains(status)", "td:icontains(status) + td"], &[]),
            genres: field(&["li:icontains(genre) > a", "td:icontains(genre) + td a", "p.description-update span:icontains(genre) ~ a[href*=mangas]"], &[]),
            alt_titles: field(&["h2:icontains(alt)", "h2.story-alternative", "td:icontains(alt) + td", "p.description-update"], &[]),
            authors: field(&["li:icontains(author) > a", "td:icontains(author) + td a"], &[]),
            chapter: ChapterQuery {
                base: field(&["div.chapter-list div.row", "div.chapter h4", "ul.row-content-chapter li"], &[]),
                href: field(&["span a", "a"], &["href"]),
                posted: field(&["span[title]"], &["title"]),
            },
        };
        let images = ImagesQuery { image: field(&["div.container-chapter-reader img", "div.vung-doc img"], &["src"]) };
        let search = SearchQuery {
            path: String::from_str("/search/story/[query]"),
            base: field(&["div.story_item", "div.list-story-item", "div.mainpage-manga"], &[]),
            href: field(&["h3 > a", "div.media-body a"], &["href"]),
            title: field(&["div.media-body a h4"], &[]),
            posted: field(&["span:icontains(updated)", "div.hotup-list i"], &[]),
            cover: field(&["a img"], &["src"]),
            encode: false,
        };
        let hostnames = strings(&["mangabat.com", "mangabat.best", "mangakakalot.com", "mangakakalot.tv", "manganelo.com", "manganato.com", "readmanganato.com"]);
        let query = GenericQuery { manga, images, search: Some(search), hostnames };
        MangaKakalot { parser: GenericQueryParser::new(query) }
    }

    pub fn get_query(&self) -> (r: &GenericQuery)
        ensures
            *r == self.engine().query,
    {
        self.parser.get_query()
    }

    /// Which quirks apply to a page, by its URL's host.
    fn mirror(loc: &String) -> (r: Mirror)
        ensures
            r == mirror_at(loc@),
    {
        match host_of(loc.as_str()) {
            Some(h) => Self::mirror_named(h.as_str()),
            None => Mirror::Standard,
        }
    }

    fn mirror_named(host: &str) -> (r: Mirror)
        ensures
            r == mirror_of(host@),
    {
        let h = String::from_str(host);
        if h == String::from_str("mangabat.best") {
            Mirror::Best
        } else if h == String::from_str("mangabat.com") {
            Mirror::Bat
        } else if h == String::from_str("hubmanga.com") {
            Mirror::Hub
        } else {
            Mirror::Standard
        }
    }

    pub fn parse_keywords(&self, _hostname: &str, keywords: &str) -> (r: String)
        ensures
            r@ == normalized(keywords@),
    {
        let spaced = replace_char(keywords, ' ', '_');
        strip_non_word(spaced.as_str())
    }

    /// Image URLs of a chapter page; the list-in-one-element mirrors are read
    /// from `#arraydata`.
    pub fn get_images(&self, dl: &DocLoc) -> (r: Result<Vec<String>, ParseError>)
        ensures
            urls_view(r) == self.images_at(*dl),
    {
        let host = match host_of(dl.loc.as_str()) {
            Some(h) => h,
            None => return Err(ParseError::InvalidUrl),
        };
        match Self::mirror_named(host.as_str()) {
            Mirror::Best | Mirror::Hub => Self::delimited(&dl.doc),
            _ => self.parser.get_images(dl),
        }
    }

    /// Reads the comma-separated image list of `#arraydata`.
    pub fn delimited(doc: &Node) -> (r: Result<Vec<String>, ParseError>)
        ensures
            urls_view(r) == delimited_images(*doc),
    {
        let found = doc.select(&String::from_str("#arraydata"));
        let elements = match found {
            Some(v) => v,
            None => return Err(ParseError::MissingImages),
        };
        let t = match elements[0].text_content() {
            Some(t) => t,
            None => return Err(ParseError::MissingImages),
        };
        let pieces = split_text(t.as_str(), ',');
        match parse_all(&pieces) {
            Some(us) => Ok(us),
            None => Err(ParseError::MissingImages),
        }
    }

    /// The search URL; mirrors with their own endpoint get their path
    /// template, scheme or host rewritten.
    pub fn parse_search_url(&self, hostname: &str, keywords: &str, path: &str) -> (r: Result<String, ParseError>)
        ensures
            url_view(r) == mirror_search_url(self.encodes(), hostname@, keywords@, path@),
    {
        let m = Self::mirror_named(hostname);
        let p = match m {
            Mirror::Best => String::from_str("/search?q=[query]"),
            Mirror::Bat => String::from_str("/search/manga/[query]"),
            _ => String::from_str(path),
        };
        let kw = self.parse_keywords(hostname, keywords);
        let url = self.parser.parse_search_url(hostname, kw.as_str(), p.as_str());
        let u = match url {
            Ok(u) => u,
            Err(e) => return Err(e),
        };
        let rewritten = match m {
            Mirror::Best => set_scheme(u.as_str(), "http"),
            Mirror::Bat => set_host(u.as_str(), "h.mangabat.com"),
            _ => return Ok(u),
        };
        match rewritten {
            Some(v) => Ok(v),
            None => Err(ParseError::InvalidUrl),
        }
    }

    pub fn alt_titles(&self, dl: &DocLoc) -> (r: Vec<String>)
        ensures
            r.deep_view() == self.suppressible(*dl, self.engine().query.manga.alt_titles),
    {
        if Self::mirror(&dl.loc) == Mirror::Best {
            return Vec::new();
        }
        self.parser.alt_titles(dl)
    }

    pub fn authors(&self, dl: &DocLoc) -> (r: Vec<String>)
        ensures
            r.deep_view() == self.suppressible(*dl, self.engine().query.manga.authors),
    {
        if Self::mirror(&dl.loc) == Mirror::Best {
            return Vec::new();
        }
        self.parser.authors(dl)
    }

    pub fn genres(&self, dl: &DocLoc) -> (r: Vec<String>)
        ensures
            r.deep_view() == multi(dl.doc, self.engine().query.manga.genres),
    {
        self.parser.genres(dl)
    }

    pub fn chapters(&self, dl: &DocLoc) -> (r: Vec<Chapter>)
        ensures
            r@.map_values(|c: Chapter| c@) == chapters_of(
                matched(dl.doc, self.engine().query.manga.chapter.base),
                self.engine().query.manga.chapter,
            ),
    {
        self.parser.chapters(dl)
    }

    pub fn search(&self, dl: &DocLoc) -> (r: Vec<SearchResult>)
        ensures
            match self.engine().query.search {
                Some(q) => r@.map_values(|s: SearchResult| s@) == results_of(matched(dl.doc, q.base), q),
                None => r@.len() == 0,
            },
    {
        self.parser.search(dl)
    }

    /// The manga a page describes, with this adapter's alternative titles and authors.
    pub fn get_manga(&self, dl: &DocLoc) -> (r: Result<Manga, ParseError>)
        ensures
            r is Err <==> single(dl.doc, self.engine().query.manga.title) is None,
            r matches Err(e) ==> e == ParseError::MissingField,
            r matches Ok(m) ==> {
                let q = self.engine().query.manga;
                &&& single(dl.doc, q.title) == Some(m.title@)
                &&& opt_view(m.description) == single(dl.doc, q.description)
                &&& opt_view(m.cover) == single(dl.doc, q.cover)
                &&& m.is_ongoing == ongoing_of(single(dl.doc, q.is_ongoing))
                &&& m.genres.deep_view() == multi(dl.doc, q.genres)
                &&& m.alt_titles.deep_view() == self.suppressible(*dl, q.alt_titles)
                &&& m.authors.deep_view() == self.suppressible(*dl, q.authors)
                &&& m.chapters@.map_values(|c: Chapter| c@) == chapters_of(matched(dl.doc, q.chapter.base), q.chapter)
            },
    {
        match self.parser.get_manga(dl) {
            Err(e) => Err(e),
            Ok(m) => {
                let alt_titles = self.alt_titles(dl);
                let authors = self.authors(dl);
                Ok(Manga { alt_titles, authors, ..m })
            },
        }
    }
}

/// Parses each piece as an absolute URL.
fn parse_all(pieces: &Vec<String>) -> (r: Option<Vec<String>>)
    ensures
        match r {
            Some(v) => parsed_all(pieces.deep_view()) == Some(v.deep_view()),
            None => parsed_all(pieces.deep_view()) is None,
        },
{
    let ghost pv = pieces.deep_view();
    let mut out: Vec<String> = Vec::new();
    let k = pieces.len();
    let mut i: usize = 0;
    while i < k
        invariant
            k == pv.len(),
            pv == pieces.deep_view(),
            i <= k,
            parsed_all(pv.subrange(0, i as int)) == Some(out.deep_view()),
        decreases k - i,
    {
        assert(pv.subrange(0, i + 1).drop_last() =~= pv.subrange(0, i as int));
        assert(pv[i as int] == pieces@[i as int]@);
        match parse_url(pieces[i].as_str()) {
            Some(u) => {
                let ghost before = out.deep_view();
                let ghost uv = u@;
                out.push(u);
                assert(out.deep_view() =~= before.push(uv));
            },
            None => {
                proof { lemma_parse_fails(pv, i as int + 1); }
                return None;
            },
        }
        i = i + 1;
    }
    assert(pv.subrange(0, k as int) =~= pv);
    Some(out)
}

/// Keywords made only of word characters are already normalized, and
/// normalizing twice changes nothing.
pub proof fn lemma_normalized_idempotent(keywords: Seq<char>)
    ensures
        (forall|i: int| 0 <= i < keywords.len() ==> is_word_char(#[trigger] keywords[i]))
            ==> normalized(keywords) == keywords,
        normalized(normalized(keywords)) == normalized(keywords),
{
    lemma_word_chars_kept(keywords);
    let n = normalized(keywords);
    assert forall|i: int| 0 <= i < n.len() implies is_word_char(#[trigger] n[i]) by {
        mapped_char(keywords, ' ', '_').lemma_filter_pred(|c: char| is_word_char(c), i);
    }
    lemma_word_chars_kept(n);
}

/// On a string of word characters, normalizing is the identity.
proof fn lemma_word_chars_kept(s: Seq<char>)
    ensures
        (forall|i: int| 0 <= i < s.len() ==> is_word_char(#[trigger] s[i])) ==> normalized(s) == s,
    decreases s.len(),
{
    if forall|i: int| 0 <= i < s.len() ==> is_word_char(#[trigger] s[i]) {
        assert(!is_word_char(' '));
        assert(mapped_char(s, ' ', '_') =~= s);
        lemma_filter_keeps(s);
    }
}

proof fn lemma_filter_keeps(s: Seq<char>)
    requires
        forall|i: int| 0 <= i < s.len() ==> is_word_char(#[trigger] s[i]),
    ensures
        word_chars(s) == s,
    decreases s.len(),
{
    if s.len() > 0 {
        assert forall|i: int| 0 <= i < s.drop_last().len() implies is_word_char(#[trigger] s.drop_last()[i]) by {
            assert(s.drop_last()[i] == s[i]);
        }
        lemma_filter_keeps(s.drop_last());
        assert(is_word_char(s.last()));
        reveal(Seq::filter);
        assert(word_chars(s) == word_chars(s.drop_last()).push(s.last()));
        assert(s.drop_last().push(s.last()) =~= s);
    } else {
        reveal(Seq::filter);
        assert(word_chars(s) == s);
    }
}

/// On a page whose host has no quirks the adapter reads images, alternative
/// titles and authors exactly as the engine does with the same schema.
pub proof fn lemma_override_transparency(a: MangaKakalot, dl: DocLoc)
    requires
        url_host(dl.loc@) is Some,
        mirror_at(dl.loc@) == Mirror::Standard,
    ensures
        a.images_at(dl) == images_of(a.engine().query.images.image, dl),
        a.suppressible(dl, a.engine().query.manga.alt_titles) == multi(dl.doc, a.engine().query.manga.alt_titles),
        a.suppressible(dl, a.engine().query.manga.authors) == multi(dl.doc, a.engine().query.manga.authors),
{
}

/// Once one piece fails to parse, the whole list does.
proof fn lemma_parse_fails(pieces: Seq<Seq<char>>, j: int)
    requires
        0 < j <= pieces.len(),
        url_parse(pieces[j - 1]) is None,
    ensures
        parsed_all(pieces) is None,
    decreases pieces.len(),
{
    if j < pieces.len() {
        lemma_parse_fails(pieces.drop_last(), j);
        assert(pieces.drop_last()[j - 1] == pieces[j - 1]);
    } else {
        assert(pieces.last() == pieces[j - 1]);
    }
}

} // verus!
