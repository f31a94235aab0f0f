use tanoshi::envelope::{CatalogEntry, Chapter, SearchParams};
use tanoshi::mangasee::{
    attrs_of, chapter_from, entry_from_row, latest_entry, latest_from, manga_info_from,
    mangas_from_rows, search_request_from, texts_of, HttpRequest, Mangasee, Method, ScrapeError,
};
use tanoshi::markup::Element;

fn blank() -> CatalogEntry {
    CatalogEntry {
        title: String::new(),
        author: String::new(),
        genres: vec![],
        status: String::new(),
        description: String::new(),
        source_url: String::new(),
        thumbnail_url: String::new(),
        chapter_refs: vec![],
    }
}

fn element(attr: Option<&str>, inner_html: &str, texts: &[&str]) -> Element {
    Element {
        attr: attr.map(|a| a.to_string()),
        inner_html: inner_html.to_string(),
        texts: texts.iter().map(|t| t.to_string()).collect(),
    }
}

const SEARCH_PAGE: &str = r#"<html><body><div class="requested">
<div class="row"><a href="/manga/One-Piece"><img src="https://cover/op.jpg"></a>
  <a class="resultLink" href="/manga/One-Piece">One Piece</a></div>
<div class="row"><img src="a.jpg"><img src="b.jpg">
  <a class="resultLink" href="/manga/X">X <b>bold</b></a></div>
<div class="row">nothing to see</div>
</div><div class="row"><img src="outside.jpg"></div></body></html>"#;

#[test]
fn default_source_points_at_the_site() {
    assert_eq!(Mangasee::default().url, "https://mangaseeonline.us");
    assert_eq!(Mangasee::new("http://localhost:8080").url, "http://localhost:8080");
}

#[test]
fn search_request_posts_the_encoded_form() {
    let params = SearchParams {
        keyword: "one piece & more".to_string(),
        page: "1".to_string(),
        sort_by: "popularity".to_string(),
        sort_order: "descending".to_string(),
    };
    assert_eq!(
        Mangasee::default().search_request(&params),
        Ok(HttpRequest {
            method: Method::Post,
            url: "https://mangaseeonline.us/search/request.php".to_string(),
            content_type: Some("application/x-www-form-urlencoded; charset=utf-8".to_string()),
            body: "keyword=one+piece+%26+more&page=1&sortBy=popularity&sortOrder=descending"
                .to_string(),
        })
    );
}

#[test]
fn page_requests() {
    let source = Mangasee::new("http://mirror.example");
    assert_eq!(
        source.page_request("/manga/One-Piece"),
        HttpRequest {
            method: Method::Get,
            url: "http://mirror.example/manga/One-Piece".to_string(),
            content_type: None,
            body: String::new(),
        }
    );
    // the latest updates always come from the public site
    assert_eq!(source.latest_request().url, "https://mangaseeonline.us");
    assert_eq!(source.latest_request().method, Method::Get);
}

#[test]
fn search_results_are_read_row_by_row() {
    let found = Mangasee::default().get_mangas(SEARCH_PAGE).unwrap();
    assert_eq!(
        found,
        vec![
            CatalogEntry {
                title: "One Piece".to_string(),
                source_url: "/manga/One-Piece".to_string(),
                thumbnail_url: "https://cover/op.jpg".to_string(),
                ..blank()
            },
            CatalogEntry {
                title: "X <b>bold</b>".to_string(),
                source_url: "/manga/X".to_string(),
                thumbnail_url: "b.jpg".to_string(),
                ..blank()
            },
            blank(),
        ]
    );
}

#[test]
fn search_page_without_results() {
    assert_eq!(Mangasee::default().get_mangas("<html></html>"), Ok(vec![]));
    assert_eq!(Mangasee::default().get_mangas(""), Ok(vec![]));
}

#[test]
fn image_without_source_fails_the_search() {
    let page = r#"<div class="requested"><div class="row"><img alt="x"></div></div>"#;
    assert_eq!(Mangasee::default().get_mangas(page), Err(ScrapeError::MissingAttribute));
    let page = r#"<div class="requested"><div class="row"><a class="resultLink">t</a></div></div>"#;
    assert_eq!(Mangasee::default().get_mangas(page), Err(ScrapeError::MissingAttribute));
}

#[test]
fn rows_from_query_answers() {
    let images = Some(vec![vec![element(Some("1.jpg"), "", &[])], vec![]]);
    let links = Some(vec![vec![], vec![element(Some("/m/a"), "A", &["A"])]]);
    assert_eq!(
        mangas_from_rows(&images, &links),
        Ok(vec![
            CatalogEntry { thumbnail_url: "1.jpg".to_string(), ..blank() },
            CatalogEntry { title: "A".to_string(), source_url: "/m/a".to_string(), ..blank() },
        ])
    );
    assert_eq!(mangas_from_rows(&None, &links), Err(ScrapeError::BadSelector));
    assert_eq!(mangas_from_rows(&images, &None), Err(ScrapeError::BadSelector));
    let fewer = Some(vec![vec![]]);
    assert_eq!(mangas_from_rows(&images, &fewer), Err(ScrapeError::Inconsistent));
    let broken = Some(vec![vec![], vec![element(None, "A", &[])]]);
    assert_eq!(mangas_from_rows(&images, &broken), Err(ScrapeError::MissingAttribute));
}

#[test]
fn row_takes_the_last_image_and_the_last_link() {
    let images = vec![element(Some("1.jpg"), "", &[]), element(Some("2.jpg"), "", &[])];
    let links =
        vec![element(Some("/m/a"), "A", &["A"]), element(Some("/m/b"), "<i>B</i>", &["B"])];
    assert_eq!(
        entry_from_row(&images, &links),
        Ok(CatalogEntry {
            title: "<i>B</i>".to_string(),
            source_url: "/m/b".to_string(),
            thumbnail_url: "2.jpg".to_string(),
            ..blank()
        })
    );
    assert_eq!(entry_from_row(&vec![], &vec![]), Ok(blank()));
    let bad = vec![element(None, "", &[]), element(Some("2.jpg"), "", &[])];
    assert_eq!(entry_from_row(&bad, &links), Err(ScrapeError::MissingAttribute));
}

#[test]
fn latest_updates_give_the_series_addresses() {
    let page = r#"<html><body>
<a class="latestSeries" href="/read-online/One-Piece-chapter-1000-page-1.html">One Piece 1000</a>
<a class="latestSeries" href="/read-online/Berserk-chapter-363.html"><b>Berserk</b></a>
<a class="latestSeries" href="/plain">plain</a>
<a class="other" href="/read-online/No-chapter-1.html">no</a>
</body></html>"#;
    let found = Mangasee::default().get_latest_mangas(page).unwrap();
    let urls: Vec<&str> = found.iter().map(|m| m.source_url.as_str()).collect();
    assert_eq!(urls, vec!["/manga/One-Piece", "/manga/Berserk", "/plain"]);
    for entry in &found {
        assert_eq!(*entry, CatalogEntry { source_url: entry.source_url.clone(), ..blank() });
    }
}

#[test]
fn every_occurrence_of_the_reader_path_is_replaced() {
    let links = Some(vec![element(Some("/read-online/read-online-x/read-onlin"), "", &[])]);
    let found = latest_from(&links).unwrap();
    assert_eq!(found[0].source_url, "/manga/manga-x/read-onlin");
}

#[test]
fn latest_link_without_address_fails() {
    let page = r#"<a class="latestSeries">x</a>"#;
    assert_eq!(Mangasee::default().get_latest_mangas(page), Err(ScrapeError::MissingAttribute));
    assert_eq!(latest_from(&None), Err(ScrapeError::BadSelector));
    assert_eq!(latest_from(&Some(vec![])), Ok(vec![]));
}

const SERIES_PAGE: &str = r#"<html><body><div class="mainWell">
<div class="leftImage"><img src="https://cover/first.jpg"><img src="https://cover/berserk.jpg"></div>
<h1 class="SeriesName">Berserk</h1>
<h1 class="SeriesName extra">Not this</h1>
<a href="/search/?author=MIURA Kentaro">MIURA Kentaro</a>
<a href="/search/?genre=Action">Action</a>
<a href="/search/?genre=Horror">Hor<b>ror</b></a>
<span class="PublishStatus" status="Ongoing">Ongoing (Publish)</span>
<div class="description">Guts, a former mercenary.</div>
<div class="chapter-list">
  <a chapter="363" href="/read-online/Berserk-chapter-363.html">Chapter 363</a>
  <a chapter="362.5" href="/read-online/Berserk-chapter-362.5.html">Chapter 362.5</a>
  <a href="/read-online/ignored.html">no chapter attribute</a>
</div></div></body></html>"#;

#[test]
fn series_page_is_read_field_by_field() {
    let info = Mangasee::default().get_manga_info("/manga/Berserk".to_string(), SERIES_PAGE);
    assert_eq!(
        info,
        Ok(CatalogEntry {
            title: "Berserk".to_string(),
            author: "MIURA Kentaro".to_string(),
            genres: vec!["Action".to_string(), "Hor".to_string(), "ror".to_string()],
            status: "Ongoing".to_string(),
            description: "Guts, a former mercenary.".to_string(),
            source_url: "/manga/Berserk".to_string(),
            thumbnail_url: "https://cover/berserk.jpg".to_string(),
            chapter_refs: vec!["363".to_string(), "362.5".to_string()],
        })
    );
}

#[test]
fn empty_series_page_gives_an_entry_with_only_its_path() {
    let info = Mangasee::default().get_manga_info("/manga/None".to_string(), "<html></html>");
    assert_eq!(info, Ok(CatalogEntry { source_url: "/manga/None".to_string(), ..blank() }));
}

#[test]
fn chapter_link_without_address_fails_the_series_page() {
    let page = r#"<div class="mainWell"><div class="chapter-list"><a chapter="1">x</a></div></div>"#;
    let info = Mangasee::default().get_manga_info("/manga/A".to_string(), page);
    assert_eq!(info, Err(ScrapeError::MissingAttribute));
    let page = r#"<span class="PublishStatus">Ongoing</span>"#;
    let info = Mangasee::default().get_manga_info("/manga/A".to_string(), page);
    assert_eq!(info, Err(ScrapeError::MissingAttribute));
}

#[test]
fn series_entry_from_query_answers() {
    let none: Option<Vec<Element>> = Some(vec![]);
    let authors = Some(vec![element(None, "", &["a", "b"]), element(None, "", &[])]);
    let descriptions = Some(vec![element(None, "", &["one"]), element(None, "", &["two", "three"])]);
    let info = manga_info_from(
        "/p".to_string(),
        &none,
        &Some(vec![element(None, "<i>T</i>", &["T"])]),
        &authors,
        &none,
        &none,
        &descriptions,
        &none,
        &none,
    );
    assert_eq!(
        info,
        Ok(CatalogEntry {
            title: "<i>T</i>".to_string(),
            author: "b".to_string(),
            description: "three".to_string(),
            source_url: "/p".to_string(),
            ..blank()
        })
    );
    // the first query that failed decides the error
    let missing = Some(vec![element(None, "", &[])]);
    let info =
        manga_info_from("/p".to_string(), &missing, &None, &none, &none, &none, &none, &none, &none);
    assert_eq!(info, Err(ScrapeError::MissingAttribute));
    let info =
        manga_info_from("/p".to_string(), &none, &None, &none, &none, &missing, &none, &none, &none);
    assert_eq!(info, Err(ScrapeError::BadSelector));
    let info =
        manga_info_from("/p".to_string(), &none, &none, &none, &none, &none, &none, &missing, &None);
    assert_eq!(info, Err(ScrapeError::BadSelector));
}

#[test]
fn chapter_pages_are_read_in_order() {
    let page = r#"<html><body>
<div class="fullchapimage"><img src="https://img/1.png"></div>
<div class="fullchapimage"><img src="https://img/2.png"><img src="https://img/3.png"></div>
<img src="https://img/ad.png">
</body></html>"#;
    assert_eq!(
        Mangasee::default().get_chapter(page),
        Ok(Chapter {
            pages: vec![
                "https://img/1.png".to_string(),
                "https://img/2.png".to_string(),
                "https://img/3.png".to_string()
            ]
        })
    );
    assert_eq!(Mangasee::default().get_chapter("<p>none</p>"), Ok(Chapter { pages: vec![] }));
}

#[test]
fn chapter_image_without_source_fails() {
    let page = r#"<div class="fullchapimage"><img src="1.png"><img></div>"#;
    assert_eq!(Mangasee::default().get_chapter(page), Err(ScrapeError::MissingAttribute));
    assert_eq!(chapter_from(&None), Err(ScrapeError::BadSelector));
}

#[test]
fn reading_attributes_and_texts_of_elements() {
    let els = vec![element(Some("a"), "", &["x", "y"]), element(Some("b"), "", &["z"])];
    assert_eq!(attrs_of(&els), Some(vec!["a".to_string(), "b".to_string()]));
    assert_eq!(texts_of(&els), vec!["x".to_string(), "y".to_string(), "z".to_string()]);
    let els = vec![element(Some("a"), "", &[]), element(None, "", &[])];
    assert_eq!(attrs_of(&els), None);
    assert_eq!(attrs_of(&vec![]), Some(vec![]));
    assert!(texts_of(&vec![]).is_empty());
}

#[test]
fn a_refused_form_fails_the_search_request() {
    let refused = Err(serde_urlencoded::ser::Error::Custom("unsupported".into()));
    assert_eq!(search_request_from("http://site", refused), Err(ScrapeError::Encode));
    let request = search_request_from("http://site", Ok("a=b".to_string())).unwrap();
    assert_eq!(request.url, "http://site/search/request.php");
    assert_eq!(request.body, "a=b");
    assert_eq!(request.method, Method::Post);
}

#[test]
fn a_refused_pattern_fails_the_latest_updates() {
    let refused = Err(regex::Error::Syntax("unclosed group".to_string()));
    assert_eq!(latest_entry(refused), Err(ScrapeError::BadPattern));
    let entry = latest_entry(Ok("/read-online/A".to_string())).unwrap();
    assert_eq!(entry, CatalogEntry { source_url: "/manga/A".to_string(), ..blank() });
}
