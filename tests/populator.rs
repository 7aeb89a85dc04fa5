use debris::document::Document;
use debris::field::{Destination, DestinationLocation, ElementSelection};
use debris::path::{PathBuilder, PathStep};
use debris::populator::{
    populate_document,
    CrawlAction,
    CrawlError,
    CrawlEvent,
    MultiplePopulator,
    PagingOptions,
    PagingRange,
    SearchDetail,
    SinglePopulator,
};

fn link_path() -> Vec<PathStep> {
    PathBuilder::new()
        .start(Destination::new("ul", ElementSelection::first()))
        .find_all("a", "", DestinationLocation::Attr(String::from("href")))
        .build()
}

fn title_search() -> SearchDetail {
    let mut search = SearchDetail::new();
    search.insert_field("title", "h1", DestinationLocation::Text, ElementSelection::first());
    search
}

fn links_of(action: &CrawlAction) -> Vec<String> {
    match action {
        CrawlAction::Filter(l) | CrawlAction::FetchLinks(l) => l.clone(),
        _ => panic!("no links in this action"),
    }
}

#[test]
fn standalone_fields_only_give_exactly_their_names() {
    let mut search = SearchDetail::new();
    search.insert_field("title", "h1", DestinationLocation::Text, ElementSelection::first());
    search.insert_attr_field("link", "a", "href", ElementSelection::first());
    search.insert_field("missing", "table", DestinationLocation::Text, ElementSelection::first());
    let doc = Document::parse(r#"<h1>Hello</h1><a href="/x">x</a>"#);

    let record = populate_document(&doc, &search);

    assert_eq!(record.map.len(), 3);
    assert_eq!(record.map.get("title").unwrap(), "Hello");
    assert_eq!(record.map.get("link").unwrap(), "/x");
    assert_eq!(record.map.get("missing").unwrap(), "");
    assert!(record.values.is_empty());
}

#[test]
fn later_paths_replace_earlier_names_and_values_append() {
    let mut search = SearchDetail::new();
    search.insert_field("name", "h1", DestinationLocation::Text, ElementSelection::first());
    search.insert_path(
        PathBuilder::new()
            .start(Destination::new("div", ElementSelection::first()))
            .populate_one("name", "b", ElementSelection::first(), DestinationLocation::Text)
            .find_one("i", 0, DestinationLocation::Text)
            .build(),
    );
    search.insert_path(
        PathBuilder::new()
            .start(Destination::new("div", ElementSelection::Single(1)))
            .find_all("i", "", DestinationLocation::Text)
            .build(),
    );
    let doc = Document::parse(r#"<h1>H</h1><div><b>B</b><i>1</i></div><div><i>2</i><i>3</i></div>"#);

    let record = populate_document(&doc, &search);

    assert_eq!(record.map.len(), 1);
    assert_eq!(record.map.get("name").unwrap(), "B");
    assert_eq!(record.values, vec![String::from("1"), String::from("2"), String::from("3")]);
}

#[test]
fn single_populator_populates_from_document_text() {
    let mut populator = SinglePopulator::new("http://example.com/", title_search());

    populator.populate("<h1>Page</h1>");

    assert_eq!(populator.url(), "http://example.com/");
    assert_eq!(populator.map.get("title").unwrap(), "Page");
}

#[test]
fn crawl_without_links_finishes_without_records() {
    let mut crawl = MultiplePopulator::new("http://example.com/", link_path(), None, title_search(), false);
    let action = crawl.start();
    assert!(matches!(&action, CrawlAction::FetchPage(u) if u == "http://example.com/"));

    let action = crawl.advance(CrawlEvent::PageFetched(String::from("<ul></ul>")));
    assert!(links_of(&action).is_empty());
    let action = crawl.advance(CrawlEvent::LinksFiltered(vec![]));
    assert!(links_of(&action).is_empty());
    let action = crawl.advance(CrawlEvent::LinksFetched(vec![]));

    assert!(matches!(action, CrawlAction::Finished));
    assert!(crawl.populated_links().is_empty());
    assert_eq!(crawl.outcome(), Some(Ok(())));
}

#[test]
fn indefinite_paging_stops_at_a_page_without_links() {
    let options = PagingOptions { extension: String::from("?page={}"), range: PagingRange::Indefinite };
    let mut crawl = MultiplePopulator::new_with_paging(
        "http://example.com/list",
        link_path(),
        Some(String::from("http://example.com")),
        title_search(),
        true,
        options,
    );
    let action = crawl.start();
    assert!(matches!(&action, CrawlAction::FetchPage(u) if u == "http://example.com/list?page=0"));

    let action = crawl.advance(CrawlEvent::PageFetched(String::from(r#"<ul><a href="/a">a</a></ul>"#)));
    assert_eq!(links_of(&action), vec![String::from("http://example.com/a")]);
    let action = crawl.advance(CrawlEvent::LinksFiltered(vec![Some(String::from("http://example.com/a"))]));
    assert_eq!(links_of(&action), vec![String::from("http://example.com/a")]);
    let action = crawl.advance(CrawlEvent::LinksFetched(vec![Some(String::from("<h1>A</h1>"))]));
    assert!(matches!(&action, CrawlAction::FetchPage(u) if u == "http://example.com/list?page=1"));

    let _ = crawl.advance(CrawlEvent::PageFetched(String::from("<ul></ul>")));
    let _ = crawl.advance(CrawlEvent::LinksFiltered(vec![]));
    let action = crawl.advance(CrawlEvent::LinksFetched(vec![]));

    assert!(matches!(action, CrawlAction::Finished));
    assert_eq!(crawl.populated_links().len(), 1);
    assert_eq!(crawl.populated_links()[0].map.get("title").unwrap(), "A");
}

#[test]
fn dropped_link_leaves_two_records() {
    let mut crawl = MultiplePopulator::new("http://example.com/", link_path(), None, title_search(), true);
    let _ = crawl.start();
    let page = r#"<ul><a href="/1">1</a><a href="/2">2</a><a href="/3">3</a></ul>"#;
    let action = crawl.advance(CrawlEvent::PageFetched(String::from(page)));
    let found = links_of(&action);
    assert_eq!(found.len(), 3);

    let verdicts: Vec<Option<String>> =
        found.iter().map(|l| if l == "/2" { None } else { Some(l.clone()) }).collect();
    let action = crawl.advance(CrawlEvent::LinksFiltered(verdicts));
    assert_eq!(links_of(&action), vec![String::from("/1"), String::from("/3")]);
    let action = crawl.advance(CrawlEvent::LinksFetched(vec![
        Some(String::from("<h1>one</h1>")),
        Some(String::from("<h1>three</h1>")),
    ]));

    assert!(matches!(action, CrawlAction::Finished));
    assert_eq!(crawl.populated_links().len(), 2);
    assert_eq!(crawl.populated_links()[1].map.get("title").unwrap(), "three");
}

#[test]
fn failed_link_is_recorded_as_a_failure() {
    let mut crawl = MultiplePopulator::new("http://example.com/", link_path(), None, title_search(), false);
    let _ = crawl.start();
    let page = r#"<ul><a href="/1">1</a><a href="/2">2</a></ul>"#;
    let action = crawl.advance(CrawlEvent::PageFetched(String::from(page)));
    let verdicts: Vec<Option<String>> = links_of(&action).into_iter().map(Some).collect();
    let _ = crawl.advance(CrawlEvent::LinksFiltered(verdicts));
    let _ = crawl.advance(CrawlEvent::LinksFetched(vec![None, Some(String::from("<h1>two</h1>"))]));

    assert_eq!(crawl.populated_links().len(), 1);
    assert_eq!(crawl.failures(), &vec![String::from("/1")]);
    assert_eq!(crawl.outcome(), Some(Ok(())));
}

#[test]
fn unreachable_seed_stops_the_crawl() {
    let mut crawl = MultiplePopulator::new("http://example.com/", link_path(), None, title_search(), false);
    let _ = crawl.start();

    let action = crawl.advance(CrawlEvent::PageFailed);

    assert!(matches!(action, CrawlAction::Finished));
    assert_eq!(crawl.outcome(), Some(Err(CrawlError::SeedUnreachable)));
}

#[test]
fn fixed_paging_visits_every_page() {
    let options = PagingOptions { extension: String::from("/{}/"), range: PagingRange::Page(2) };
    let mut crawl =
        MultiplePopulator::new_with_paging("http://e.com", link_path(), None, title_search(), false, options);
    let action = crawl.start();
    assert!(matches!(&action, CrawlAction::FetchPage(u) if u == "http://e.com/0/"));
    let _ = crawl.advance(CrawlEvent::PageFetched(String::from("<ul></ul>")));
    let _ = crawl.advance(CrawlEvent::LinksFiltered(vec![]));
    let action = crawl.advance(CrawlEvent::LinksFetched(vec![]));
    assert!(matches!(&action, CrawlAction::FetchPage(u) if u == "http://e.com/1/"));
    let _ = crawl.advance(CrawlEvent::PageFetched(String::from("<ul></ul>")));
    let _ = crawl.advance(CrawlEvent::LinksFiltered(vec![]));
    let action = crawl.advance(CrawlEvent::LinksFetched(vec![]));
    assert!(matches!(action, CrawlAction::Finished));
}

#[test]
fn zero_fixed_pages_fetch_nothing() {
    let options = PagingOptions { extension: String::from("/{}"), range: PagingRange::Page(0) };
    let mut crawl =
        MultiplePopulator::new_with_paging("http://e.com", link_path(), None, title_search(), false, options);

    assert!(matches!(crawl.start(), CrawlAction::Finished));
    assert_eq!(crawl.outcome(), Some(Ok(())));
}

#[test]
fn page_numbers_are_written_in_decimal() {
    let options = PagingOptions { extension: String::from("?p={}&q={}"), range: PagingRange::Page(12) };
    let mut crawl =
        MultiplePopulator::new_with_paging("http://e.com", link_path(), None, title_search(), false, options);
    let mut action = crawl.start();
    for _ in 0..10 {
        let _ = crawl.advance(CrawlEvent::PageFetched(String::from("<ul></ul>")));
        let _ = crawl.advance(CrawlEvent::LinksFiltered(vec![]));
        action = crawl.advance(CrawlEvent::LinksFetched(vec![]));
    }
    assert!(matches!(&action, CrawlAction::FetchPage(u) if u == "http://e.com?p=10&q=10"));
}

#[test]
fn unexpected_event_repeats_the_awaited_action() {
    let mut crawl = MultiplePopulator::new("http://example.com/", link_path(), None, title_search(), false);
    let _ = crawl.start();

    let action = crawl.advance(CrawlEvent::LinksFetched(vec![]));

    assert!(matches!(&action, CrawlAction::FetchPage(u) if u == "http://example.com/"));
    assert_eq!(crawl.outcome(), None);
}

#[test]
fn failed_later_page_is_recorded_and_ends_indefinite_paging() {
    let options = PagingOptions { extension: String::from("?page={}"), range: PagingRange::Indefinite };
    let mut crawl = MultiplePopulator::new_with_paging(
        "http://example.com/list",
        link_path(),
        None,
        title_search(),
        false,
        options,
    );
    let _ = crawl.start();
    let _ = crawl.advance(CrawlEvent::PageFetched(String::from(r#"<ul><a href="/a">a</a></ul>"#)));
    let _ = crawl.advance(CrawlEvent::LinksFiltered(vec![Some(String::from("/a"))]));
    let action = crawl.advance(CrawlEvent::LinksFetched(vec![Some(String::from("<h1>A</h1>"))]));
    assert!(matches!(&action, CrawlAction::FetchPage(u) if u == "http://example.com/list?page=1"));

    let action = crawl.advance(CrawlEvent::PageFailed);

    assert!(matches!(action, CrawlAction::Finished));
    assert_eq!(crawl.outcome(), Some(Ok(())));
    assert_eq!(crawl.populated_links().len(), 1);
    assert_eq!(crawl.failures(), &vec![String::from("http://example.com/list?page=1")]);
}

#[test]
fn failed_fixed_page_is_recorded_and_paging_goes_on() {
    let options = PagingOptions { extension: String::from("/{}"), range: PagingRange::Page(3) };
    let mut crawl =
        MultiplePopulator::new_with_paging("http://e.com", link_path(), None, title_search(), false, options);
    let _ = crawl.start();
    let _ = crawl.advance(CrawlEvent::PageFetched(String::from("<ul></ul>")));
    let _ = crawl.advance(CrawlEvent::LinksFiltered(vec![]));
    let _ = crawl.advance(CrawlEvent::LinksFetched(vec![]));

    let action = crawl.advance(CrawlEvent::PageFailed);

    assert!(matches!(&action, CrawlAction::FetchPage(u) if u == "http://e.com/2"));
    assert_eq!(crawl.failures(), &vec![String::from("http://e.com/1")]);
}
