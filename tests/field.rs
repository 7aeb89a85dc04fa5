use debris::document::Document;
use debris::field::{Destination, DestinationLocation, ElementSelection, FieldIdentity, FieldPopulator};

fn text_field(selector: &str, selection: ElementSelection) -> FieldIdentity {
    FieldIdentity {
        destination: Destination::new(selector, selection),
        destination_location: DestinationLocation::Text,
    }
}

#[test]
fn test_find_non_nested_single_first_text() {
    let html = Document::parse(r#"<div>find me</div>"#);
    let identity = text_field("div", ElementSelection::first());
    let mut field_populator = FieldPopulator::new(&html, &identity);

    field_populator.find_field();

    assert_eq!(field_populator.value.unwrap(), "find me");
}

#[test]
fn test_find_nested_single_first_text() {
    let html = Document::parse(r#"<div><p>find me<p></div>"#);
    let identity = text_field("p", ElementSelection::first());
    let mut field_populator = FieldPopulator::new(&html, &identity);

    field_populator.find_field();

    assert_eq!(field_populator.value.unwrap(), "find me");
}

#[test]
fn test_find_non_nested_all_text() {
    let html = Document::parse(r#"<div>find me</div> <div>as well</div>"#);
    let identity = text_field("div", ElementSelection::All(String::from(" ")));
    let mut field_populator = FieldPopulator::new(&html, &identity);

    field_populator.find_field();

    assert_eq!(field_populator.value.unwrap(), "find me as well");
}

#[test]
fn test_find_nested_all_text() {
    let html = Document::parse(r#"<p><div>find me</div> <div>as well</div></p>"#);
    let identity = text_field("div", ElementSelection::All(String::from(" ")));
    let mut field_populator = FieldPopulator::new(&html, &identity);

    field_populator.find_field();

    assert_eq!(field_populator.value.unwrap(), "find me as well");
}

#[test]
fn test_empty_on_invalid_element() {
    let html = Document::parse(r#"<div>find me</div> <div>as well</div>"#);
    let identity = text_field("a", ElementSelection::All(String::from(" ")));
    let mut field_populator = FieldPopulator::new(&html, &identity);

    field_populator.find_field();

    assert_eq!(field_populator.value.unwrap(), "");
}

#[test]
fn attribute_value_is_taken() {
    let html = Document::parse(r#"<a href="/next">go</a>"#);
    let identity = FieldIdentity {
        destination: Destination::new("a", ElementSelection::first()),
        destination_location: DestinationLocation::Attr(String::from("href")),
    };
    let mut field_populator = FieldPopulator::new(&html, &identity);

    field_populator.find_field();

    assert_eq!(field_populator.value.unwrap(), "/next");
}

#[test]
fn missing_attribute_gives_empty_string() {
    let html = Document::parse(r#"<a href="/next">go</a>"#);
    let identity = FieldIdentity {
        destination: Destination::new("a", ElementSelection::first()),
        destination_location: DestinationLocation::Attr(String::from("title")),
    };
    let mut field_populator = FieldPopulator::new(&html, &identity);

    field_populator.find_field();

    assert_eq!(field_populator.value.unwrap(), "");
}

#[test]
fn reserved_locations_extract_nothing() {
    let html = Document::parse(r#"<div id="x" class="y">text</div>"#);
    let identity = FieldIdentity {
        destination: Destination::new("div", ElementSelection::first()),
        destination_location: DestinationLocation::Id(String::from("x")),
    };
    let mut field_populator = FieldPopulator::new(&html, &identity);

    field_populator.find_field();

    assert_eq!(field_populator.value.unwrap(), "");
}

#[test]
fn text_nodes_are_joined_by_spaces() {
    let html = Document::parse(r#"<div>one<b>two</b>three</div>"#);
    let identity = text_field("div", ElementSelection::first());
    let mut field_populator = FieldPopulator::new(&html, &identity);

    field_populator.find_field();

    assert_eq!(field_populator.value.unwrap(), "one two three");
}

#[test]
fn index_past_the_matches_gives_empty_string() {
    let html = Document::parse(r#"<p>a</p><p>b</p>"#);
    let identity = text_field("p", ElementSelection::Single(2));
    let mut field_populator = FieldPopulator::new(&html, &identity);

    field_populator.find_field();

    assert_eq!(field_populator.value.unwrap(), "");
}

#[test]
fn negative_index_gives_empty_string() {
    let html = Document::parse(r#"<p>a</p><p>b</p>"#);
    let identity = text_field("p", ElementSelection::Single(-1));
    let mut field_populator = FieldPopulator::new(&html, &identity);

    field_populator.find_field();

    assert_eq!(field_populator.value.unwrap(), "");
}

#[test]
fn second_match_is_selected_by_index() {
    let html = Document::parse(r#"<p>a</p><p>b</p>"#);
    let identity = text_field("p", ElementSelection::Single(1));
    let mut field_populator = FieldPopulator::new(&html, &identity);

    field_populator.find_field();

    assert_eq!(field_populator.value.unwrap(), "b");
}

#[test]
fn selector_that_does_not_parse_matches_nothing() {
    let html = Document::parse(r#"<p>a</p>"#);
    let identity = text_field("p[", ElementSelection::first());
    let mut field_populator = FieldPopulator::new(&html, &identity);

    field_populator.find_field();

    assert_eq!(field_populator.value.unwrap(), "");
}

#[test]
fn joined_values_keep_their_whitespace() {
    let html = Document::parse(r#"<i> a </i><i>b</i>"#);
    let identity = text_field("i", ElementSelection::All(String::from(",")));
    let mut field_populator = FieldPopulator::new(&html, &identity);

    field_populator.find_field();

    assert_eq!(field_populator.value.unwrap(), " a ,b");
}

#[test]
fn all_values_are_joined_by_the_delimiter() {
    let html = Document::parse(r#"<i>a</i><i>b</i>"#);
    let identity = text_field("i", ElementSelection::All(String::from(",")));
    let mut field_populator = FieldPopulator::new(&html, &identity);

    field_populator.find_field();

    assert_eq!(field_populator.value.unwrap(), "a,b");
}

#[test]
fn single_match_is_joined_without_delimiter() {
    let html = Document::parse(r#"<i>a</i>"#);
    let identity = text_field("i", ElementSelection::All(String::from(";")));
    let mut field_populator = FieldPopulator::new(&html, &identity);

    field_populator.find_field();

    assert_eq!(field_populator.value.unwrap(), "a");
}
