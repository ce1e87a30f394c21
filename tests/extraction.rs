use manga_query::dom::{Node, Selection};
use manga_query::engine::{DocLoc, GenericQueryParser, ParseError};
use manga_query::extract::{all_values, single_value};
use manga_query::kakalot::MangaKakalot;
use manga_query::query::{
    ChapterQuery, Field, GenericQuery, ImagesQuery, MangaQuery, SearchQuery,
};
use manga_query::registry::Registry;

fn el(text: Option<&str>, attrs: &[(&str, &str)]) -> Node {
    Node {
        text: text.map(|t| t.to_string()),
        attrs: attrs.iter().map(|(k, v)| (k.to_string(), v.to_string())).collect(),
        selections: Vec::new(),
    }
}

fn with(mut n: Node, sel: &str, found: Vec<Node>) -> Node {
    n.selections.push(Selection { selector: sel.to_string(), found });
    n
}

fn field(chain: &[&str], attrs: &[&str]) -> Field {
    Field {
        chain: chain.iter().map(|s| s.to_string()).collect(),
        attrs: attrs.iter().map(|s| s.to_string()).collect(),
    }
}

fn at(doc: Node, loc: &str) -> DocLoc {
    DocLoc { doc, loc: loc.to_string() }
}

fn schema(encode: bool) -> GenericQuery {
    GenericQuery {
        manga: MangaQuery {
            title: field(&["h1"], &[]),
            description: field(&["#desc"], &[]),
            cover: field(&["img.cover"], &["data-src", "src"]),
            is_ongoing: field(&["li.status"], &[]),
            genres: field(&["a.genre"], &[]),
            alt_titles: field(&["h2.alt"], &[]),
            authors: field(&["a.author"], &[]),
            chapter: ChapterQuery {
                base: field(&["li.chapter"], &[]),
                href: field(&["a"], &["href"]),
                posted: field(&["span"], &["title"]),
            },
        },
        images: ImagesQuery { image: field(&["div.reader img"], &["src"]) },
        search: Some(SearchQuery {
            path: "/search/story/[query]".to_string(),
            base: field(&["div.item"], &[]),
            href: field(&["h3 > a"], &["href"]),
            title: field(&["h3 > a"], &[]),
            posted: field(&["span.updated"], &[]),
            cover: field(&["img"], &["src"]),
            encode,
        }),
        hostnames: vec!["example.com".to_string()],
    }
}

#[test]
fn fallback_chain_uses_second_selector_when_first_misses() {
    let doc = with(el(None, &[]), "h2.title", vec![el(Some("Second"), &[])]);
    let chained = single_value(&doc, &field(&["h1.title", "h2.title"], &[]));
    let alone = single_value(&doc, &field(&["h2.title"], &[]));
    assert_eq!(chained, Some("Second".to_string()));
    assert_eq!(chained, alone);
}

#[test]
fn fallback_chain_uses_first_selector_when_both_match() {
    let doc = with(el(None, &[]), "h1.title", vec![el(Some("First"), &[])]);
    let doc = with(doc, "h2.title", vec![el(Some("Second"), &[])]);
    let chained = all_values(&doc, &field(&["h1.title", "h2.title"], &[]));
    assert_eq!(chained, vec!["First".to_string()]);
    assert_eq!(single_value(&doc, &field(&["h1.title", "h2.title"], &[])), Some("First".to_string()));
}

#[test]
fn attribute_fallback_takes_first_listed_attribute() {
    let img = el(Some("alt text"), &[("src", "b.png"), ("data-src", "a.png")]);
    let doc = with(el(None, &[]), "img", vec![img]);
    assert_eq!(single_value(&doc, &field(&["img"], &["data-src", "src"])), Some("a.png".to_string()));
    assert_eq!(single_value(&doc, &field(&["img"], &["content", "src"])), Some("b.png".to_string()));
    assert_eq!(single_value(&doc, &field(&["img"], &["content"])), None);
}

#[test]
fn empty_attribute_counts_as_absent() {
    let img = el(None, &[("data-src", ""), ("src", "b.png")]);
    let doc = with(el(None, &[]), "img", vec![img]);
    assert_eq!(single_value(&doc, &field(&["img"], &["data-src", "src"])), Some("b.png".to_string()));
}

#[test]
fn multi_valued_field_keeps_document_order_and_duplicates() {
    let doc = with(
        el(None, &[]),
        "a.genre",
        vec![el(Some("Action"), &[]), el(Some("Drama"), &[]), el(Some("Action"), &[])],
    );
    let got = all_values(&doc, &field(&["a.genre"], &[]));
    assert_eq!(got, vec!["Action".to_string(), "Drama".to_string(), "Action".to_string()]);
}

#[test]
fn missing_optional_field_is_absent() {
    let doc = el(None, &[]);
    assert_eq!(single_value(&doc, &field(&["#nothing"], &[])), None);
    assert!(all_values(&doc, &field(&["#nothing"], &[])).is_empty());
}

#[test]
fn keyword_normalization_replaces_spaces_and_strips() {
    let k = MangaKakalot::new();
    assert_eq!(k.parse_keywords("mangakakalot.com", "One Piece!"), "One_Piece");
    assert_eq!(k.parse_keywords("mangakakalot.com", "Dr. Stone: 2"), "Dr_Stone_2");
}

#[test]
fn keyword_normalization_is_idempotent() {
    let k = MangaKakalot::new();
    assert_eq!(k.parse_keywords("mangakakalot.com", "One_Piece"), "One_Piece");
    let once = k.parse_keywords("mangakakalot.com", "a b-c");
    assert_eq!(k.parse_keywords("mangakakalot.com", &once), once);
}

#[test]
fn engine_keeps_keywords() {
    let e = GenericQueryParser::new(schema(false));
    assert_eq!(e.parse_keywords("example.com", "One Piece"), "One Piece");
}

#[test]
fn search_url_templating_with_encoding() {
    let e = GenericQueryParser::new(schema(true));
    let url = e.parse_search_url("example.com", "One Piece", "/search/story/[query]").unwrap();
    assert_eq!(url, "https://example.com/search/story/One%20Piece");
    assert!(!url.contains("[query]"));
}

#[test]
fn search_url_templating_with_normalized_keywords() {
    let k = MangaKakalot::new();
    let url = k.parse_search_url("mangakakalot.com", "One Piece", "/search/story/[query]").unwrap();
    assert_eq!(url, "https://mangakakalot.com/search/story/One_Piece");
    assert!(!url.contains("[query]"));
}

#[test]
fn search_url_mirror_over_plain_http() {
    let k = MangaKakalot::new();
    let url = k.parse_search_url("mangabat.best", "One Piece", "/search/story/[query]").unwrap();
    assert_eq!(url, "http://mangabat.best/search?q=One_Piece");
}

#[test]
fn search_url_mirror_on_subdomain() {
    let k = MangaKakalot::new();
    let url = k.parse_search_url("mangabat.com", "One Piece", "/search/story/[query]").unwrap();
    assert_eq!(url, "https://h.mangabat.com/search/manga/One_Piece");
}

#[test]
fn search_url_with_bad_host_is_invalid() {
    let e = GenericQueryParser::new(schema(false));
    assert_eq!(e.parse_search_url("bad host", "x", "/search/[query]"), Err(ParseError::InvalidUrl));
}

#[test]
fn delimited_image_list_override() {
    let k = MangaKakalot::new();
    let list = "https://c.example/a.png,https://c.example/b.png,https://c.example/c.png";
    let doc = with(el(None, &[]), "#arraydata", vec![el(Some(list), &[])]);
    let images = k.get_images(&at(doc, "https://mangabat.best/chapter/1")).unwrap();
    assert_eq!(
        images,
        vec![
            "https://c.example/a.png".to_string(),
            "https://c.example/b.png".to_string(),
            "https://c.example/c.png".to_string(),
        ]
    );
}

#[test]
fn delimited_image_list_with_empty_segment_fails_whole_call() {
    let k = MangaKakalot::new();
    let list = "https://c.example/a.png,,https://c.example/c.png";
    let doc = with(el(None, &[]), "#arraydata", vec![el(Some(list), &[])]);
    assert_eq!(k.get_images(&at(doc, "https://hubmanga.com/chapter/1")), Err(ParseError::MissingImages));
}

#[test]
fn delimited_image_list_missing_element() {
    let k = MangaKakalot::new();
    assert_eq!(k.get_images(&at(el(None, &[]), "https://mangabat.best/c/1")), Err(ParseError::MissingImages));
}

#[test]
fn images_resolved_against_page_url() {
    let k = MangaKakalot::new();
    let doc = with(
        el(None, &[]),
        "div.vung-doc img",
        vec![el(None, &[("src", "/img/1.png")]), el(None, &[("src", "https://cdn.example/2.png")])],
    );
    let dl = at(doc, "https://mangakakalot.com/chapter/1");
    let images = k.get_images(&dl).unwrap();
    assert_eq!(images, vec!["https://mangakakalot.com/img/1.png".to_string(), "https://cdn.example/2.png".to_string()]);
}

#[test]
fn images_missing_on_page_without_matches() {
    let k = MangaKakalot::new();
    let dl = at(el(None, &[]), "https://mangakakalot.com/chapter/1");
    assert_eq!(k.get_images(&dl), Err(ParseError::MissingImages));
}

#[test]
fn override_transparency_on_standard_host() {
    let k = MangaKakalot::new();
    let engine = GenericQueryParser::new(schema(false));
    let doc = with(el(None, &[]), "h2.story-alternative", vec![el(Some("Alt"), &[])]);
    let doc = with(doc, "div.vung-doc img", vec![el(None, &[("src", "/p.png")])]);
    let doc = with(doc, "div.reader img", vec![el(None, &[("src", "/p.png")])]);
    let dl = at(doc, "https://manganato.com/manga/1");
    assert_eq!(k.alt_titles(&dl), vec!["Alt".to_string()]);
    assert_eq!(k.get_images(&dl), engine.get_images(&dl));
    let direct = GenericQueryParser::new(kakalot_schema_copy());
    assert_eq!(k.alt_titles(&dl), direct.alt_titles(&dl));
    assert_eq!(k.authors(&dl), direct.authors(&dl));
}

fn kakalot_schema_copy() -> GenericQuery {
    let mut q = schema(false);
    q.manga.alt_titles = field(&["h2:icontains(alt)", "h2.story-alternative", "td:icontains(alt) + td", "p.description-update"], &[]);
    q.manga.authors = field(&["li:icontains(author) > a", "td:icontains(author) + td a"], &[]);
    q
}

#[test]
fn field_suppression_on_mirror() {
    let k = MangaKakalot::new();
    let doc = with(el(None, &[]), "h2.story-alternative", vec![el(Some("Alt"), &[])]);
    let doc = with(doc, "li:icontains(author) > a", vec![el(Some("Oda"), &[])]);
    let dl = at(doc, "https://mangabat.best/manga/1");
    assert!(k.alt_titles(&dl).is_empty());
    assert!(k.authors(&dl).is_empty());
    let m = k.get_manga(&at(with(dl.doc, "h1", vec![el(Some("T"), &[])]), "https://mangabat.best/manga/1")).unwrap();
    assert!(m.alt_titles.is_empty());
    assert!(m.authors.is_empty());
}

#[test]
fn manga_without_title_is_missing_field() {
    let e = GenericQueryParser::new(schema(false));
    let dl = at(el(None, &[]), "https://example.com/manga/1");
    assert!(matches!(e.get_manga(&dl), Err(ParseError::MissingField)));
}

#[test]
fn manga_fields_and_chapters() {
    let e = GenericQueryParser::new(schema(false));
    let ch1 = with(el(None, &[]), "a", vec![el(Some("Ch 2"), &[("href", "/c/2")])]);
    let ch1 = with(ch1, "span", vec![el(None, &[("title", "Jan 2")])]);
    let ch2 = with(el(None, &[]), "b", vec![]);
    let ch3 = with(el(None, &[]), "a", vec![el(Some("Ch 1"), &[("href", "/c/1")])]);
    let doc = with(el(None, &[]), "h1", vec![el(Some("Title"), &[])]);
    let doc = with(doc, "img.cover", vec![el(None, &[("src", "cover.png")])]);
    let doc = with(doc, "a.genre", vec![el(Some("Action"), &[]), el(Some("Drama"), &[])]);
    let doc = with(doc, "li.chapter", vec![ch1, ch2, ch3]);
    let m = e.get_manga(&at(doc, "https://example.com/manga/1")).unwrap();
    assert_eq!(m.title, "Title");
    assert_eq!(m.description, None);
    assert_eq!(m.cover, Some("cover.png".to_string()));
    assert_eq!(m.genres, vec!["Action".to_string(), "Drama".to_string()]);
    assert_eq!(m.chapters.len(), 2);
    assert_eq!(m.chapters[0].href, "/c/2");
    assert_eq!(m.chapters[0].posted, Some("Jan 2".to_string()));
    assert_eq!(m.chapters[1].href, "/c/1");
    assert_eq!(m.chapters[1].posted, None);
}

#[test]
fn search_results_per_container() {
    let e = GenericQueryParser::new(schema(false));
    let item = with(el(None, &[]), "h3 > a", vec![el(Some("One Piece"), &[("href", "/m/1")])]);
    let item = with(item, "img", vec![el(None, &[("src", "c.png")])]);
    let bare = el(None, &[]);
    let doc = with(el(None, &[]), "div.item", vec![item, bare]);
    let rs = e.search(&at(doc, "https://example.com/search"));
    assert_eq!(rs.len(), 1);
    assert_eq!(rs[0].href, "/m/1");
    assert_eq!(rs[0].title, Some("One Piece".to_string()));
    assert_eq!(rs[0].posted, None);
    assert_eq!(rs[0].cover, Some("c.png".to_string()));
}

#[test]
fn dispatcher_rejects_shared_hostname() {
    let sets = vec![
        vec!["a.com".to_string(), "b.com".to_string()],
        vec!["c.com".to_string(), "b.com".to_string()],
    ];
    assert_eq!(Registry::new(sets).err(), Some("b.com".to_string()));
}

#[test]
fn dispatcher_routes_by_host() {
    let k = MangaKakalot::new();
    let sets = vec![vec!["example.com".to_string()], k.get_query().hostnames.clone()];
    let reg = Registry::new(sets).ok().unwrap();
    assert_eq!(reg.lookup(&"manganato.com".to_string()), Ok(1));
    assert_eq!(reg.dispatch("https://example.com/manga/1"), Ok(0));
    assert_eq!(reg.dispatch("https://unknown.org/x"), Err(ParseError::UnknownHost));
    assert_eq!(reg.dispatch("not a url"), Err(ParseError::UnknownHost));
}

#[test]
fn kakalot_schema_hostnames() {
    let k = MangaKakalot::new();
    let q = k.get_query();
    assert_eq!(q.hostnames.len(), 7);
    assert_eq!(q.hostnames[0], "mangabat.com");
    assert_eq!(q.search.as_ref().unwrap().path, "/search/story/[query]");
    assert!(!q.search.as_ref().unwrap().encode);
}

#[test]
fn delimited_images_are_normalized_urls() {
    let k = MangaKakalot::new();
    let doc = with(el(None, &[]), "#arraydata", vec![el(Some("HTTPS://C.Example/a.png"), &[])]);
    let images = k.get_images(&at(doc, "https://mangabat.best/chapter/1")).unwrap();
    assert_eq!(images, vec!["https://c.example/a.png".to_string()]);
}

#[test]
fn images_on_page_without_host_are_invalid() {
    let k = MangaKakalot::new();
    assert_eq!(k.get_images(&at(el(None, &[]), "data:text/plain,x")), Err(ParseError::InvalidUrl));
}

#[test]
fn ongoing_flag_from_status_text() {
    let e = GenericQueryParser::new(schema(false));
    let doc = with(el(None, &[]), "h1", vec![el(Some("T"), &[])]);
    let ongoing = with(with(el(None, &[]), "h1", vec![el(Some("T"), &[])]), "li.status", vec![el(Some("Status : OnGoing"), &[])]);
    let done = with(with(el(None, &[]), "h1", vec![el(Some("T"), &[])]), "li.status", vec![el(Some("Status : Completed"), &[])]);
    assert_eq!(e.get_manga(&at(doc, "https://example.com/m")).unwrap().is_ongoing, None);
    assert_eq!(e.get_manga(&at(ongoing, "https://example.com/m")).unwrap().is_ongoing, Some(true));
    assert_eq!(e.get_manga(&at(done, "https://example.com/m")).unwrap().is_ongoing, Some(false));
}
