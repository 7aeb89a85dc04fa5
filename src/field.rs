//! Where to look in a document and what to take from a matched element, and
//! the values that such a field yields.
use crate::document::{
    Document,
    attr_of,
    element_attr,
    element_texts,
    found_below,
    root_element,
    root_of,
    query_below,
    texts_of,
};
use crate::text::join_with;
use vstd::prelude::*;
use vstd::string::*;

verus! {

/// How many matches of a query are taken: the match at an index, or all of
/// them joined by a delimiter.
pub enum SelectionModel {
    Single(i32),
    All(Seq<char>),
}

/// What is taken from a matched element.
pub enum TargetModel {
    Attr(Seq<char>),
    Id(Seq<char>),
    Class(Seq<char>),
    Text,
}

/// A query string with its selection.
pub struct DestinationModel {
    pub query: Seq<char>,
    pub selection: SelectionModel,
}

/// A destination with the target to take from its matches.
pub struct FieldModel {
    pub destination: DestinationModel,
    pub target: TargetModel,
}

/// Provides a way to select an exact HTML element, or all the elements.
#[derive(Debug)]
pub enum ElementSelection {
    /// Select the nth element.
    Single(i32),
    /// Select all the elements, joined by the delimiter where they are joined.
    All(String),
}

impl View for ElementSelection {
    type V = SelectionModel;

    open spec fn view(&self) -> SelectionModel {
        match self {
            ElementSelection::Single(n) => SelectionModel::Single(*n),
            ElementSelection::All(d) => SelectionModel::All(d@),
        }
    }
}

impl ElementSelection {
    /// The first match.
    pub fn first() -> (r: ElementSelection)
        ensures
            r@ == SelectionModel::Single(0),
    {
        ElementSelection::Single(0)
    }
}

impl Clone for ElementSelection {
    fn clone(&self) -> (r: Self)
        ensures
            r@ == self@,
    {
        match self {
            ElementSelection::Single(n) => ElementSelection::Single(*n),
            ElementSelection::All(d) => ElementSelection::All(d.clone()),
        }
    }
}

/// Selects what to extract from the HTML element.
#[derive(Debug)]
pub enum DestinationLocation {
    /// The value of the named attribute.
    Attr(String),
    /// Reserved: extracts nothing.
    Id(String),
    /// Reserved: extracts nothing.
    Class(String),
    /// The element's text.
    Text,
}

impl View for DestinationLocation {
    type V = TargetModel;

    open spec fn view(&self) -> TargetModel {
        match self {
            DestinationLocation::Attr(a) => TargetModel::Attr(a@),
            DestinationLocation::Id(a) => TargetModel::Id(a@),
            DestinationLocation::Class(a) => TargetModel::Class(a@),
            DestinationLocation::Text => TargetModel::Text,
        }
    }
}

impl Clone for DestinationLocation {
    fn clone(&self) -> (r: Self)
        ensures
            r@ == self@,
    {
        match self {
            DestinationLocation::Attr(a) => DestinationLocation::Attr(a.clone()),
            DestinationLocation::Id(a) => DestinationLocation::Id(a.clone()),
            DestinationLocation::Class(a) => DestinationLocation::Class(a.clone()),
            DestinationLocation::Text => DestinationLocation::Text,
        }
    }
}

/// A selector string and a selection.
#[derive(Debug)]
pub struct Destination(pub String, pub ElementSelection);

impl View for Destination {
    type V = DestinationModel;

    open spec fn view(&self) -> DestinationModel {
        DestinationModel { query: self.0@, selection: self.1@ }
    }
}

impl Destination {
    pub fn new(selector: &str, selection: ElementSelection) -> (r: Destination)
        ensures
            r@ == (DestinationModel { query: selector@, selection: selection@ }),
    {
        Destination(String::from_str(selector), selection)
    }
}

impl Clone for Destination {
    fn clone(&self) -> (r: Self)
        ensures
            r@ == self@,
    {
        Destination(self.0.clone(), self.1.clone())
    }
}

/// Where an element is and what is taken from it.
#[derive(Debug)]
pub struct FieldIdentity {
    pub destination: Destination,
    pub destination_location: DestinationLocation,
}

impl View for FieldIdentity {
    type V = FieldModel;

    open spec fn view(&self) -> FieldModel {
        FieldModel { destination: self.destination@, target: self.destination_location@ }
    }
}

impl FieldIdentity {
    pub fn new(selector: &str, selection: ElementSelection, location: DestinationLocation) -> (r:
        FieldIdentity)
        ensures
            r@ == (FieldModel {
                destination: DestinationModel { query: selector@, selection: selection@ },
                target: location@,
            }),
    {
        FieldIdentity {
            destination: Destination::new(selector, selection),
            destination_location: location,
        }
    }
}

impl Clone for FieldIdentity {
    fn clone(&self) -> (r: Self)
        ensures
            r@ == self@,
    {
        FieldIdentity {
            destination: self.destination.clone(),
            destination_location: self.destination_location.clone(),
        }
    }
}


/// What is taken from `element`: its text nodes joined by single spaces, or
/// an attribute's value; empty where there is nothing to take.
pub open spec fn extracted(source: Seq<char>, element: usize, target: TargetModel) -> Seq<char> {
    match target {
        TargetModel::Text => join_with(texts_of(source, element), " "@),
        TargetModel::Attr(a) => match attr_of(source, element, a) {
            Some(v) => v,
            None => Seq::empty(),
        },
        _ => Seq::empty(),
    }
}

/// The value of match `n` of `query` below `element`; empty when there is no
/// such match.
pub open spec fn single_value(
    source: Seq<char>,
    element: usize,
    query: Seq<char>,
    target: TargetModel,
    n: i32,
) -> Seq<char> {
    let m = found_below(source, element, query);
    if 0 <= n < m.len() {
        extracted(source, m[n as int], target)
    } else {
        Seq::empty()
    }
}

/// The values of all matches of `query` below `element`, in document order.
pub open spec fn all_values(source: Seq<char>, element: usize, query: Seq<char>, target: TargetModel) -> Seq<
    Seq<char>,
> {
    found_below(source, element, query).map_values(|m: usize| extracted(source, m, target))
}

/// The value of a field below `element`: the selected match, or the values
/// of every match joined by the delimiter (empty when nothing matches).
pub open spec fn field_value(source: Seq<char>, element: usize, f: FieldModel) -> Seq<char> {
    match f.destination.selection {
        SelectionModel::Single(n) => single_value(source, element, f.destination.query, f.target, n),
        SelectionModel::All(d) => join_with(
            all_values(source, element, f.destination.query, f.target),
            d,
        ),
    }
}

/// The unnamed values of a field below `element`: one for a single match,
/// every match for all.
pub open spec fn find_values(source: Seq<char>, element: usize, f: FieldModel) -> Seq<Seq<char>> {
    match f.destination.selection {
        SelectionModel::Single(n) => seq![
            single_value(source, element, f.destination.query, f.target, n),
        ],
        SelectionModel::All(_) => all_values(source, element, f.destination.query, f.target),
    }
}

/// Strings as values.
pub open spec fn strings_of(v: Seq<String>) -> Seq<Seq<char>> {
    v.map_values(|s: String| s@)
}

fn join_strings(parts: &Vec<String>, sep: &str) -> (r: String)
    ensures
        r@ == join_with(strings_of(parts@), sep@),
{
    let mut r = String::new();
    let mut i: usize = 0;
    while i < parts.len()
        invariant
            i <= parts@.len(),
            r@ == join_with(strings_of(parts@.subrange(0, i as int)), sep@),
        decreases parts.len() - i,
    {
        let ghost pre = strings_of(parts@.subrange(0, i + 1));
        assert(pre.drop_last() =~= strings_of(parts@.subrange(0, i as int)));
        assert(pre.last() == parts@[i as int]@);
        if i > 0 {
            r.append(sep);
        }
        r.append(parts[i].as_str());
        i = i + 1;
    }
    assert(parts@.subrange(0, parts@.len() as int) =~= parts@);
    r
}

/// What `location` takes from `element`.
pub fn extract(doc: &Document, element: usize, location: &DestinationLocation) -> (r: String)
    ensures
        r@ == extracted(doc.source(), element, location@),
{
    match location {
        DestinationLocation::Text => {
            let parts = element_texts(doc, element);
            assert(strings_of(parts@) =~= texts_of(doc.source(), element));
            join_strings(&parts, " ")
        },
        DestinationLocation::Attr(a) => match element_attr(doc, element, a.as_str()) {
            Some(v) => v,
            None => String::new(),
        },
        _ => String::new(),
    }
}

/// The value of match `selection_number` of the field below `element`, or
/// the empty string.
pub fn find_single(doc: &Document, element: usize, identifier: &FieldIdentity, selection_number: i32) -> (r:
    String)
    ensures
        r@ == single_value(
            doc.source(),
            element,
            identifier.destination.0@,
            identifier.destination_location@,
            selection_number,
        ),
{
    let m = query_below(doc, element, identifier.destination.0.as_str());
    if 0 <= selection_number && (selection_number as usize) < m.len() {
        extract(doc, m[selection_number as usize], &identifier.destination_location)
    } else {
        String::new()
    }
}

/// The values of all matches of the field below `element`, in document order.
pub fn find_all(doc: &Document, element: usize, identifier: &FieldIdentity) -> (r: Vec<String>)
    ensures
        strings_of(r@) == all_values(
            doc.source(),
            element,
            identifier.destination.0@,
            identifier.destination_location@,
        ),
{
    let m = query_below(doc, element, identifier.destination.0.as_str());
    let ghost target = identifier.destination_location@;
    let mut r: Vec<String> = Vec::new();
    let mut i: usize = 0;
    while i < m.len()
        invariant
            i <= m@.len(),
            target == identifier.destination_location@,
            r@.len() == i,
            forall|j: int|
                0 <= j < i ==> (#[trigger] r@[j])@ == extracted(doc.source(), m@[j], target),
        decreases m.len() - i,
    {
        r.push(extract(doc, m[i], &identifier.destination_location));
        i = i + 1;
    }
    assert(strings_of(r@) =~= all_values(
        doc.source(),
        element,
        identifier.destination.0@,
        identifier.destination_location@,
    ));
    r
}

/// The values of all matches of the field below `element`, in document
/// order, joined by `delimiter`.
pub fn concatenate_all(doc: &Document, element: usize, identifier: &FieldIdentity, delimiter: &str) -> (r:
    String)
    ensures
        r@ == join_with(
            all_values(
                doc.source(),
                element,
                identifier.destination.0@,
                identifier.destination_location@,
            ),
            delimiter@,
        ),
{
    let values = find_all(doc, element, identifier);
    join_strings(&values, delimiter)
}

/// The value of a field below `element`.
pub fn field_value_of(doc: &Document, element: usize, identifier: &FieldIdentity) -> (r: String)
    ensures
        r@ == field_value(doc.source(), element, identifier@),
{
    match &identifier.destination.1 {
        ElementSelection::Single(n) => find_single(doc, element, identifier, *n),
        ElementSelection::All(d) => concatenate_all(doc, element, identifier, d.as_str()),
    }
}

/// The unnamed values of a field below `element`.
pub fn find_values_of(doc: &Document, element: usize, identifier: &FieldIdentity) -> (r: Vec<String>)
    ensures
        strings_of(r@) == find_values(doc.source(), element, identifier@),
{
    match &identifier.destination.1 {
        ElementSelection::Single(n) => {
            let mut r: Vec<String> = Vec::new();
            r.push(find_single(doc, element, identifier, *n));
            assert(strings_of(r@) =~= find_values(doc.source(), element, identifier@));
            r
        },
        ElementSelection::All(_) => find_all(doc, element, identifier),
    }
}

/// Looks up one field from the root of a document.
pub struct FieldPopulator<'a> {
    doc: &'a Document,
    identifier: &'a FieldIdentity,
    /// The value found, once `find_field` has run.
    pub value: Option<String>,
}

impl<'a> FieldPopulator<'a> {
    pub closed spec fn document(&self) -> &'a Document {
        self.doc
    }

    pub closed spec fn field(&self) -> FieldModel {
        self.identifier@
    }

    /// The value found so far, as characters.
    pub closed spec fn found(&self) -> Option<Seq<char>> {
        match self.value {
            Some(v) => Some(v@),
            None => None,
        }
    }

    pub fn new(doc: &'a Document, identifier: &'a FieldIdentity) -> (r: FieldPopulator<'a>)
        ensures
            r.document() == doc,
            r.field() == identifier@,
            r.found() is None,
    {
        FieldPopulator { doc, identifier, value: None }
    }

    /// Sets `value` to the field's value below the document's root element.
    pub fn find_field(&mut self)
        ensures
            final(self).document() == old(self).document(),
            final(self).field() == old(self).field(),
            final(self).found() == Some(
                field_value(
                    old(self).document().source(),
                    root_of(old(self).document().source()),
                    old(self).field(),
                ),
            ),
    {
        let root = root_element(self.doc);
        self.value = Some(field_value_of(self.doc, root, self.identifier));
    }
}

} // verus!
