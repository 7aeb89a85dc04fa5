use debris::document::Document;
use debris::field::{Destination, DestinationLocation, ElementSelection, FieldIdentity};
use debris::path::{PathBuilder, PathFinder};
use debris::table::Table;

fn text_field(selector: &str) -> FieldIdentity {
    FieldIdentity {
        destination: Destination::new(selector, ElementSelection::first()),
        destination_location: DestinationLocation::Text,
    }
}

#[test]
fn test_find_single_element_without_descent_by_path() {
    let html = Document::parse(r#"<div><a>NOT THIS</a> <p>find me</p></div>"#);
    let path = PathBuilder::new()
        .start(Destination::new("div", ElementSelection::first()))
        .find_one("p", 0, DestinationLocation::Text)
        .build();
    let mut path_finder = PathFinder::new(&path, &html);

    path_finder.search_path();

    assert_eq!(path_finder.values.get(0).unwrap(), "find me");
}

#[test]
fn test_find_single_element_with_descent_by_path() {
    let html =
        Document::parse(r#"<div><a><i>NOT THIS</i> <p>find me</p></a> <p>find me</p></div>"#);
    let path = PathBuilder::new()
        .start(Destination::new("div", ElementSelection::first()))
        .descend("a", 0)
        .find_one("p", 0, DestinationLocation::Text)
        .build();
    let mut path_finder = PathFinder::new(&path, &html);

    path_finder.search_path();

    assert_eq!(path_finder.values.get(0).unwrap(), "find me");
}

#[test]
fn test_find_all_element_with_descent_by_path() {
    let html = Document::parse(
        r#"<div><a><i>NOT THIS</i> <p>find me</p> <p>as well</p></a> <p>find me</p></div>"#,
    );
    let path = PathBuilder::new()
        .start(Destination::new("div", ElementSelection::first()))
        .descend("a", 0)
        .find_all("p", "", DestinationLocation::Text)
        .build();
    let mut path_finder = PathFinder::new(&path, &html);

    path_finder.search_path();

    assert_eq!(path_finder.values.get(0).unwrap(), "find me");
    assert_eq!(path_finder.values.get(1).unwrap(), "as well");
}

#[test]
fn test_populate_element_by_path() {
    let html = Document::parse(
        r#"<div class="first"><span itemprop="first">find me</span>
        <span itemprop="second">as well</span></div>"#,
    );
    let mut population = Table::new();
    population.insert(String::from("first"), text_field(r#"span[itemprop="first"]"#));
    population.insert(String::from("second"), text_field(r#"span[itemprop="second"]"#));
    let path = PathBuilder::new()
        .start(Destination::new(r#"div[class="first"]"#, ElementSelection::first()))
        .populate(population)
        .build();
    let mut path_finder = PathFinder::new(&path, &html);

    path_finder.search_path();

    assert_eq!(path_finder.map.get("first").unwrap(), "find me");
    assert_eq!(path_finder.map.get("second").unwrap(), "as well");
}

#[test]
fn test_find_all_with_different_parents_by_path() {
    let html = Document::parse(r#"<div><a><i>find me</i></a><a><i>as well</i></a></div>"#);
    let path = PathBuilder::new()
        .start(Destination::new(r#"div"#, ElementSelection::first()))
        .find_all("i", "", DestinationLocation::Text)
        .build();
    let mut path_finder = PathFinder::new(&path, &html);

    path_finder.search_path();

    assert_eq!(path_finder.values.get(0).unwrap(), "find me");
    assert_eq!(path_finder.values.get(1).unwrap(), "as well");
}

#[test]
fn test_populate_multiple_time_by_path() {
    let html = Document::parse(
        r#"<div class="first"><span itemprop="first">find me</span>
        <span itemprop="second">as well</span></div>"#,
    );
    let mut population = Table::new();
    let mut second_population = Table::new();
    population.insert(String::from("first"), text_field(r#"span[itemprop="first"]"#));
    population.insert(String::from("second"), text_field(r#"span[itemprop="second"]"#));
    second_population.insert(String::from("third"), text_field(r#"span[itemprop="first"]"#));
    let path = PathBuilder::new()
        .start(Destination::new(r#"div[class="first"]"#, ElementSelection::first()))
        .populate(population)
        .populate(second_population)
        .build();
    let mut path_finder = PathFinder::new(&path, &html);

    path_finder.search_path();

    assert_eq!(path_finder.map.get("first").unwrap(), "find me");
    assert_eq!(path_finder.map.get("second").unwrap(), "as well");
    assert_eq!(path_finder.map.get("third").unwrap(), "find me");
}

#[test]
fn test_populate_one_field_by_path() {
    let html = Document::parse(
        r#"<div class="first"><span itemprop="first">find me</span>
        <span itemprop="second">as well</span></div>"#,
    );
    let path = PathBuilder::new()
        .start(Destination::new(r#"div[class="first"]"#, ElementSelection::first()))
        .populate_one(
            "first",
            r#"span[itemprop="first"]"#,
            ElementSelection::first(),
            DestinationLocation::Text,
        )
        .build();
    let mut path_finder = PathFinder::new(&path, &html);

    path_finder.search_path();

    assert_eq!(path_finder.map.get("first").unwrap(), "find me");
}

#[test]
fn find_all_yields_values_in_document_order() {
    let html = Document::parse(r#"<div><i>A</i><i>B</i></div>"#);
    let path = PathBuilder::new()
        .start(Destination::new("div", ElementSelection::Single(0)))
        .find_all("i", "", DestinationLocation::Text)
        .build();
    let mut path_finder = PathFinder::new(&path, &html);

    path_finder.search_path();

    assert_eq!(path_finder.values, vec![String::from("A"), String::from("B")]);
}

#[test]
fn two_populated_fields_fill_the_map() {
    let html = Document::parse(
        r#"<div class="first"><span itemprop="first">X</span><span itemprop="second">Y</span></div>"#,
    );
    let mut population = Table::new();
    population.insert(String::from("first"), text_field(r#"span[itemprop="first"]"#));
    population.insert(String::from("second"), text_field(r#"span[itemprop="second"]"#));
    let path = PathBuilder::new()
        .start(Destination::new(r#"div[class="first"]"#, ElementSelection::first()))
        .populate(population)
        .build();
    let mut path_finder = PathFinder::new(&path, &html);

    path_finder.search_path();

    assert_eq!(path_finder.map.len(), 2);
    assert_eq!(path_finder.map.get("first").unwrap(), "X");
    assert_eq!(path_finder.map.get("second").unwrap(), "Y");
}

#[test]
fn missing_start_match_yields_nothing() {
    let html = Document::parse(r#"<div><i>A</i></div>"#);
    let path = PathBuilder::new()
        .start(Destination::new("section", ElementSelection::first()))
        .find_all("i", "", DestinationLocation::Text)
        .build();
    let mut path_finder = PathFinder::new(&path, &html);

    path_finder.search_path();

    assert!(path_finder.values.is_empty());
    assert_eq!(path_finder.map.len(), 0);
}

#[test]
fn missed_descend_ends_the_path() {
    let html = Document::parse(r#"<div><i>A</i></div>"#);
    let path = PathBuilder::new()
        .start(Destination::new("div", ElementSelection::first()))
        .find_one("i", 0, DestinationLocation::Text)
        .descend("b", 0)
        .find_one("i", 0, DestinationLocation::Text)
        .build();
    let mut path_finder = PathFinder::new(&path, &html);

    path_finder.search_path();

    assert_eq!(path_finder.values, vec![String::from("A")]);
}

#[test]
fn find_one_without_match_adds_empty_value() {
    let html = Document::parse(r#"<div><i>A</i></div>"#);
    let path = PathBuilder::new()
        .start(Destination::new("div", ElementSelection::first()))
        .find_one("b", 0, DestinationLocation::Text)
        .build();
    let mut path_finder = PathFinder::new(&path, &html);

    path_finder.search_path();

    assert_eq!(path_finder.values, vec![String::new()]);
}

#[test]
fn empty_path_yields_nothing() {
    let html = Document::parse(r#"<div><i>A</i></div>"#);
    let path = PathBuilder::new().build();
    let mut path_finder = PathFinder::new(&path, &html);

    path_finder.search_path();

    assert!(path_finder.values.is_empty());
}

#[test]
fn later_field_of_same_name_replaces_earlier() {
    let mut table = Table::new();
    table.insert(String::from("a"), String::from("1"));
    table.insert(String::from("b"), String::from("2"));
    table.insert(String::from("a"), String::from("3"));

    assert_eq!(table.len(), 2);
    assert_eq!(table.get("a").unwrap(), "3");
    assert_eq!(table.name_at(0), "a");
    assert!(table.get("c").is_none());
}
