use debris::field::{DestinationLocation, ElementSelection};
use debris::parser::{
    compile,
    Config,
    ConfigError,
    Meta,
    ParseErrorKind,
    Parser,
    PathResolver,
    Populator,
};
use debris::path::PathStep;
use debris::table::Table;

#[test]
fn test_start_parse() {
    let path = r#"START(SELECTOR: div, SELECT: 0)"#;
    let mut resolver = PathResolver::new(path);

    let path = resolver.resolve();

    assert_eq!(1, path.len());
    assert!(matches!(path.get(0).unwrap(), PathStep::Start(_)));
}

#[test]
fn test_missing_selector_start_parse() {
    let path = r#"START(SELECT: 0)"#;
    let mut resolver = PathResolver::new(path);

    let path = resolver.resolve();

    assert_eq!(2, resolver.errors.len());
    assert_eq!(0, path.len());
}

#[test]
fn test_missing_select_start_parse() {
    let path = r#"START(SELECTOR: div)"#;
    let mut resolver = PathResolver::new(path);

    let path = resolver.resolve();

    assert_eq!(1, path.len());
    match path.get(0).unwrap() {
        PathStep::Start(d) => match d.1 {
            ElementSelection::Single(n) => assert_eq!(0, n),
            _ => panic!("Failed"),
        },
        _ => panic!("Failed"),
    }
}

#[test]
fn test_invalid_select_number_start_parse() {
    let path = r#"START(SELECTOR: div, SELECT: a32)"#;
    let mut resolver = PathResolver::new(path);

    let path = resolver.resolve();

    assert_eq!(2, resolver.errors.len());
    assert_eq!(0, path.len());
}

#[test]
fn test_descend_parse() {
    let path = r#"START(SELECTOR: test) -> DESCEND(SELECTOR: div, SELECT: 0)"#;
    let mut resolver = PathResolver::new(path);

    let path = resolver.resolve();

    assert_eq!(2, path.len());
    assert!(matches!(path.get(1).unwrap(), PathStep::Descend(_)));
}

#[test]
fn test_find_parse() {
    let path = r#"START(SELECTOR: test) -> FIND(SELECTOR: div, SELECT: 0, LOC: ATTR(test))"#;
    let mut resolver = PathResolver::new(path);

    let path = resolver.resolve();

    resolver.errors.iter().for_each(|p| println!("{}", p.message()));
    assert_eq!(2, path.len());
    assert!(matches!(path.get(1).unwrap(), PathStep::Find(_)));
}

#[test]
fn test_missing_location_find_parse() {
    let path = r#"FIND(SELECTOR: div, SELECT: 0)"#;
    let mut resolver = PathResolver::new(path);

    let _path = resolver.resolve();

    resolver.errors.iter().for_each(|p| println!("{}", p.message()));
    assert_eq!(2, resolver.errors.len());
}

#[test]
fn test_invalid_location_find_parse() {
    let path = r#"FIND(SELECTOR: div, SELECT: 0, LOC: INVALID)"#;
    let mut resolver = PathResolver::new(path);

    let _path = resolver.resolve();

    resolver.errors.iter().for_each(|p| println!("{}", p.message()));
    assert_eq!(2, resolver.errors.len());
}

#[test]
fn test_invalid_command_parse() {
    let path = r#"NONEXISTINGCOMMAND(NAME: test, SELECTOR: div, SELECT: 0, LOC: TEXT)"#;
    let mut resolver = PathResolver::new(path);

    let _path = resolver.resolve();

    resolver.errors.iter().for_each(|p| println!("{}", p.message()));
    assert_eq!(2, resolver.errors.len());
}

#[test]
fn test_first_command_not_start_parse() {
    let path = r#"FIND(SELECTOR: div, SELECT: 0, LOC: TEXT)"#;
    let mut resolver = PathResolver::new(path);

    let _path = resolver.resolve();

    resolver.errors.iter().for_each(|p| println!("{}", p.message()));
    assert_eq!(1, resolver.errors.len());
}

fn kinds(text: &str) -> Vec<ParseErrorKind> {
    compile(text).1.iter().map(|e| e.kind).collect()
}

#[test]
fn start_step_carries_query_and_index() {
    let (path, errors) = compile("START(SELECTOR: ul, SELECT: 2) -> FIND(SELECTOR: li, LOC: TEXT)");
    assert!(errors.is_empty());
    match &path[0] {
        PathStep::Start(d) => {
            assert_eq!(d.0, "ul");
            assert!(matches!(d.1, ElementSelection::Single(2)));
        },
        _ => panic!("first step is not a start"),
    }
}

#[test]
fn missing_selector_is_reported() {
    let (path, errors) = compile("START(SELECT: 0)");
    assert_eq!(path.len(), 0);
    assert!(errors.iter().any(|e| e.kind == ParseErrorKind::MissingSelector));
    assert_eq!(errors[0].message(), "Missing selector string");
}

#[test]
fn select_defaults_to_first_element() {
    let (path, _) = compile("START(SELECTOR: div)");
    assert_eq!(path.len(), 1);
    match &path[0] {
        PathStep::Start(d) => assert!(matches!(d.1, ElementSelection::Single(0))),
        _ => panic!("first step is not a start"),
    }
}

#[test]
fn compiling_twice_gives_the_same_result() {
    let text = "START(SELECTOR: div) -> POPULATE(NAME: a, SELECTOR: b, LOC: TEXT) -> FIND(SELECTOR: x)";
    let (p1, e1) = compile(text);
    let (p2, e2) = compile(text);
    assert_eq!(format!("{:?}", p1), format!("{:?}", p2));
    assert_eq!(format!("{:?}", e1), format!("{:?}", e2));
}

#[test]
fn keywords_and_keys_ignore_case() {
    let (path, errors) =
        compile("start(selector: div) -> Descend(Selector: p, Select: 1) -> find(SELECTOR: i, loc: text)");
    assert!(errors.is_empty());
    assert_eq!(path.len(), 3);
    assert!(matches!(path[1], PathStep::Descend(_)));
    assert!(matches!(path[2], PathStep::Find(_)));
}

#[test]
fn values_are_lower_cased() {
    let (path, _) = compile("START(SELECTOR: DIV.Item)");
    match &path[0] {
        PathStep::Start(d) => assert_eq!(d.0, "div.item"),
        _ => panic!("first step is not a start"),
    }
}

#[test]
fn populate_steps_merge_into_one_last_step() {
    let (path, errors) = compile(
        "START(SELECTOR: div) -> POPULATE(NAME: a, SELECTOR: b, LOC: TEXT) -> DESCEND(SELECTOR: p) -> POPULATE(NAME: c, SELECTOR: d, LOC: ATTR(href), SELECT: ALL(;))",
    );
    assert!(errors.is_empty());
    assert_eq!(path.len(), 3);
    assert!(matches!(path[1], PathStep::Descend(_)));
    match &path[2] {
        PathStep::Populate(fields) => {
            assert_eq!(fields.len(), 2);
            assert_eq!(fields.name_at(0), "a");
            let c = fields.get("c").unwrap();
            assert!(matches!(&c.destination_location, DestinationLocation::Attr(a) if a == "href"));
            assert!(matches!(&c.destination.1, ElementSelection::All(d) if d == ";"));
        },
        _ => panic!("last step is not a populate"),
    }
}

#[test]
fn every_error_is_reported_and_compiling_goes_on() {
    assert_eq!(
        kinds("START(SELECTOR: div) -> DESCEND(SELECT: 0) -> FIND(SELECTOR: a) -> JUMP(SELECTOR: b)"),
        vec![
            ParseErrorKind::MissingSelector,
            ParseErrorKind::MissingLocation,
            ParseErrorKind::UnknownCommand,
        ],
    );
}

#[test]
fn bracket_errors_are_reported() {
    assert_eq!(
        kinds("START(SELECTOR: div) -> DESCENDSELECTOR: p"),
        vec![ParseErrorKind::MissingOpenBracket],
    );
    assert_eq!(
        kinds("START(SELECTOR: div) -> DESCEND(SELECTOR: p"),
        vec![ParseErrorKind::MissingCloseBracket],
    );
}

#[test]
fn populate_without_name_is_reported() {
    assert_eq!(
        kinds("START(SELECTOR: div) -> POPULATE(SELECTOR: p, LOC: TEXT)"),
        vec![ParseErrorKind::MissingName],
    );
}

#[test]
fn descend_on_all_is_an_invalid_select() {
    assert_eq!(
        kinds("START(SELECTOR: div) -> DESCEND(SELECTOR: p, SELECT: ALL(,))"),
        vec![ParseErrorKind::InvalidSelect],
    );
}

#[test]
fn select_numbers_are_read_as_i32() {
    let (path, errors) = compile("START(SELECTOR: div, SELECT: -3) -> DESCEND(SELECTOR: p, SELECT: +7)");
    assert!(errors.is_empty());
    assert!(matches!(&path[0], PathStep::Start(d) if matches!(d.1, ElementSelection::Single(-3))));
    assert!(matches!(&path[1], PathStep::Descend(d) if matches!(d.1, ElementSelection::Single(7))));
    assert_eq!(
        kinds("START(SELECTOR: div, SELECT: 2147483648)"),
        vec![ParseErrorKind::InvalidSelect, ParseErrorKind::MissingStart],
    );
    assert_eq!(kinds("START(SELECTOR: div, SELECT: 2147483647)"), vec![]);
}

#[test]
fn empty_text_is_not_a_path() {
    let (path, errors) = compile("");
    assert!(path.is_empty());
    assert_eq!(errors[0].kind, ParseErrorKind::MissingStart);
}

fn config(kind: &str, link_path: Option<&str>) -> Config {
    let mut fields = Table::new();
    fields.insert(String::from("title"), String::from("h1"));
    Config {
        meta: Meta {
            populator: String::from(kind),
            link_path: link_path.map(String::from),
            base_url: String::from("http://example.com/"),
            paging: None,
            prepend_links: None,
        },
        paths: vec![String::from("START(SELECTOR: div) -> FIND(SELECTOR: p, LOC: TEXT)")],
        fields,
    }
}

#[test]
fn unknown_populator_kind_is_refused() {
    let mut parser = Parser::new(config("several", None));
    assert!(matches!(parser.build(), Err(ConfigError::UnknownPopulator)));
}

#[test]
fn multiple_populator_needs_a_link_path() {
    let mut parser = Parser::new(config("multiple", None));
    assert!(matches!(parser.build(), Err(ConfigError::MissingLinkPath)));
}

#[test]
fn configuration_builds_the_named_populator() {
    let mut parser = Parser::new(config("single", None));
    match parser.build() {
        Ok(Populator::Single(mut p)) => {
            assert_eq!(p.url(), "http://example.com/");
            p.populate("<h1>Title</h1><div><p>text</p></div>");
            assert_eq!(p.map.get("title").unwrap(), "Title");
            assert_eq!(p.values, vec![String::from("text")]);
        },
        _ => panic!("not a single populator"),
    }
    let mut parser = Parser::new(config("multiple", Some("START(SELECTOR: ul) -> FIND(SELECTOR: a, LOC: ATTR(href), SELECT: ALL())")));
    assert!(matches!(parser.build(), Ok(Populator::Multiple(_))));
    assert!(parser.errors().is_empty());
}
