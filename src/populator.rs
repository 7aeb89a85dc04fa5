//! Records: standalone fields and paths merged for one document, and the
//! crawl that gathers one record per linked document.
use crate::document::{Document, root_element, root_of};
use crate::field::{
    Destination,
    DestinationLocation,
    ElementSelection,
    FieldIdentity,
    FieldModel,
    field_value,
    strings_of,
};
use crate::path::{
    Extraction,
    PathFinder,
    PathStep,
    StepModel,
    evaluate,
    populate_fields,
    put_fields,
    steps_of,
};
use crate::table::{Table, distinct_keys, key_index, keys_of, lemma_key_index, put, put_all};
use crate::text::{chars_of, decimal, decimal_chars, replace_chars, replaced, string_of};
use vstd::prelude::*;

verus! {

/// The search parameters as values.
pub struct SearchModel {
    pub paths: Seq<Seq<StepModel>>,
    pub fields: Seq<(Seq<char>, FieldModel)>,
}

/// Nothing found yet.
pub open spec fn nothing() -> Extraction {
    Extraction { fields: Seq::empty(), values: Seq::empty() }
}

/// `acc` after merging the results of each path, in order: later names
/// replace earlier ones, and unnamed values are appended.
pub open spec fn merge_paths(source: Seq<char>, paths: Seq<Seq<StepModel>>, acc: Extraction) -> Extraction
    decreases paths.len(),
{
    if paths.len() == 0 {
        acc
    } else {
        let prev = merge_paths(source, paths.drop_last(), acc);
        let e = evaluate(source, paths.last(), nothing());
        Extraction { fields: put_all(prev.fields, e.fields), values: prev.values + e.values }
    }
}

/// `acc` after the standalone fields, queried from the root element, and
/// then every path.
pub open spec fn record_onto(source: Seq<char>, search: SearchModel, acc: Extraction) -> Extraction {
    merge_paths(
        source,
        search.paths,
        Extraction {
            fields: put_fields(source, root_of(source), search.fields, acc.fields),
            values: acc.values,
        },
    )
}

/// The record of the document parsed from `source`.
pub open spec fn record_of(source: Seq<char>, search: SearchModel) -> Extraction {
    record_onto(source, search, nothing())
}

/// A struct holding the search parameters.
pub struct SearchDetail {
    paths: Vec<Vec<PathStep>>,
    fields: Table<FieldIdentity>,
}

impl View for SearchDetail {
    type V = SearchModel;

    closed spec fn view(&self) -> SearchModel {
        SearchModel {
            paths: self.paths@.map_values(|p: Vec<PathStep>| steps_of(p@)),
            fields: self.fields@,
        }
    }
}

impl SearchDetail {
    /// No two standalone fields share a name.
    pub open spec fn wf(&self) -> bool {
        distinct_keys(self@.fields)
    }

    pub fn new() -> (r: Self)
        ensures
            r@ == (SearchModel { paths: Seq::empty(), fields: Seq::empty() }),
            r.wf(),
    {
        let r = SearchDetail { paths: Vec::new(), fields: Table::new() };
        assert(r@.paths =~= Seq::<Seq<StepModel>>::empty());
        r
    }

    /// Insert a field to be populated in the process. Use this, when the HTML
    /// element could be extracted unambiguously.
    pub fn insert_field(
        &mut self,
        field_name: &str,
        selector: &str,
        location: DestinationLocation,
        element_number: ElementSelection,
    )
        requires
            old(self).wf(),
        ensures
            final(self).wf(),
            final(self)@.paths == old(self)@.paths,
            final(self)@.fields == put(
                old(self)@.fields,
                field_name@,
                FieldModel {
                    destination: crate::field::DestinationModel {
                        query: selector@,
                        selection: element_number@,
                    },
                    target: location@,
                },
            ),
    {
        self.fields.insert(
            String::from_str(field_name),
            FieldIdentity {
                destination: Destination(String::from_str(selector), element_number),
                destination_location: location,
            },
        );
    }

    /// Insert a field whose value is an attribute of the element.
    pub fn insert_attr_field(
        &mut self,
        field_name: &str,
        selector: &str,
        attr_name: &str,
        element_number: ElementSelection,
    )
        requires
            old(self).wf(),
        ensures
            final(self).wf(),
            final(self)@.paths == old(self)@.paths,
            final(self)@.fields == put(
                old(self)@.fields,
                field_name@,
                FieldModel {
                    destination: crate::field::DestinationModel {
                        query: selector@,
                        selection: element_number@,
                    },
                    target: crate::field::TargetModel::Attr(attr_name@),
                },
            ),
    {
        self.fields.insert(
            String::from_str(field_name),
            FieldIdentity {
                destination: Destination(String::from_str(selector), element_number),
                destination_location: DestinationLocation::Attr(String::from_str(attr_name)),
            },
        );
    }

    /// Add a path, evaluated after the paths already there. Use a path when
    /// an element cannot be told apart by one selector.
    pub fn insert_path(&mut self, path: Vec<PathStep>)
        requires
            old(self).wf(),
        ensures
            final(self).wf(),
            final(self)@.paths == old(self)@.paths.push(steps_of(path@)),
            final(self)@.fields == old(self)@.fields,
    {
        let ghost p = steps_of(path@);
        self.paths.push(path);
        assert(self@.paths =~= old(self)@.paths.push(p));
    }
}

/// One document's named values and unnamed values.
pub struct Record {
    pub map: Table<String>,
    pub values: Vec<String>,
}

impl View for Record {
    type V = Extraction;

    open spec fn view(&self) -> Extraction {
        Extraction { fields: self.map@, values: strings_of(self.values@) }
    }
}

/// Adds to `record` the standalone fields and then the results of every path
/// of `search` on `doc`.
fn populate_onto(doc: &Document, search: &SearchDetail, record: &mut Record)
    requires
        search.wf(),
        old(record).map.wf(),
    ensures
        final(record).map.wf(),
        final(record)@ == record_onto(doc.source(), search@, old(record)@),
{
    let ghost source = doc.source();
    let root = root_element(doc);
    populate_fields(doc, root, &search.fields, &mut record.map);
    let ghost start = record@;
    let mut i: usize = 0;
    while i < search.paths.len()
        invariant
            i <= search@.paths.len() == search.paths@.len(),
            source == doc.source(),
            record.map.wf(),
            start == (Extraction {
                fields: put_fields(source, root_of(source), search@.fields, old(record)@.fields),
                values: old(record)@.values,
            }),
            record@ == merge_paths(source, search@.paths.subrange(0, i as int), start),
        decreases search.paths.len() - i,
    {
        let ghost pre = search@.paths.subrange(0, i + 1);
        assert(pre.drop_last() =~= search@.paths.subrange(0, i as int));
        assert(pre.last() == steps_of(search.paths@[i as int]@));
        let mut finder = PathFinder::new(&search.paths[i], doc);
        finder.search_path();
        let ghost e = finder.found();
        let ghost prev = record@;
        assert(e == evaluate(source, pre.last(), nothing()));
        let (found_map, found_values) = finder.into_parts();
        let mut j: usize = 0;
        let ghost fields0 = record.map@;
        while j < found_map.len()
            invariant
                j <= found_map@.len(),
                e.fields == found_map@,
                strings_of(record.values@) == prev.values,
                record.map.wf(),
                record.map@ == put_all(fields0, found_map@.subrange(0, j as int)),
            decreases found_map@.len() - j,
        {
            let ghost sub = found_map@.subrange(0, j + 1);
            assert(sub.drop_last() =~= found_map@.subrange(0, j as int));
            record.map.insert(found_map.name_at(j).clone(), found_map.value_at(j).clone());
            j = j + 1;
        }
        assert(found_map@.subrange(0, found_map@.len() as int) =~= found_map@);
        let ghost values0 = record.values@;
        let mut vs = found_values;
        record.values.append(&mut vs);
        assert(strings_of(record.values@) =~= strings_of(values0) + e.values);
        assert(record@.fields == put_all(prev.fields, e.fields));
        assert(record@.values == prev.values + e.values);
        assert(record@ == merge_paths(source, pre, start));
        i = i + 1;
    }
    assert(search@.paths.subrange(0, search@.paths.len() as int) =~= search@.paths);
}

/// The record of one document: the standalone fields of `search`, queried
/// from the root element, then every path in order. Later names replace
/// earlier ones; unnamed values are appended in order.
pub fn populate_document(doc: &Document, search: &SearchDetail) -> (r: Record)
    requires
        search.wf(),
    ensures
        r@ == record_of(doc.source(), search@),
        r.map.wf(),
{
    let mut record = Record { map: Table::new(), values: Vec::new() };
    assert(strings_of(record.values@) =~= Seq::<Seq<char>>::empty());
    assert(record@ == nothing());
    populate_onto(doc, search, &mut record);
    record
}

/// HTML extractor on a single document.
pub struct SinglePopulator {
    url: String,
    search_detail: SearchDetail,
    /// A map that holds the populated field names.
    pub map: Table<String>,
    /// Values populated without a field name (links and the like).
    pub values: Vec<String>,
}

impl SinglePopulator {
    pub closed spec fn address(&self) -> Seq<char> {
        self.url@
    }

    pub closed spec fn search(&self) -> SearchModel {
        self.search_detail@
    }

    /// What has been populated so far.
    pub closed spec fn found(&self) -> Extraction {
        Extraction { fields: self.map@, values: strings_of(self.values@) }
    }

    pub closed spec fn wf(&self) -> bool {
        self.search_detail.wf() && self.map.wf()
    }

    pub fn new(url: &str, search: SearchDetail) -> (r: SinglePopulator)
        requires
            search.wf(),
        ensures
            r.address() == url@,
            r.search() == search@,
            r.found() == nothing(),
            r.wf(),
    {
        let r = SinglePopulator {
            url: String::from_str(url),
            search_detail: search,
            map: Table::new(),
            values: Vec::new(),
        };
        assert(strings_of(r.values@) =~= Seq::<Seq<char>>::empty());
        assert(r.found() == nothing());
        r
    }

    /// The address of the document to populate from.
    pub fn url(&self) -> (r: &String)
        ensures
            r@ == self.address(),
    {
        &self.url
    }

    /// Populates from the text of the document at `url`: the standalone
    /// fields first, then every path, on top of what is already there.
    pub fn populate(&mut self, html: &str)
        requires
            old(self).wf(),
        ensures
            final(self).wf(),
            final(self).address() == old(self).address(),
            final(self).search() == old(self).search(),
            final(self).found() == record_onto(html@, old(self).search(), old(self).found()),
    {
        let doc = Document::parse(html);
        let mut record = Record { map: Table::new(), values: Vec::new() };
        std::mem::swap(&mut record.map, &mut self.map);
        std::mem::swap(&mut record.values, &mut self.values);
        assert(record@ == old(self).found());
        populate_onto(&doc, &self.search_detail, &mut record);
        self.map = record.map;
        self.values = record.values;
    }
}


/// How far paging goes.
pub enum PagingRange {
    /// Until a page yields no record.
    Indefinite,
    /// Pages `0..n`, whatever they yield.
    Page(i32),
}

/// Paging: `extension` is appended to the base address, and every `{}` in
/// the result is replaced by the zero-based page number.
pub struct PagingOptions {
    pub extension: String,
    pub range: PagingRange,
}

pub enum Paging {
    Disabled,
    Enabled(PagingOptions),
}

/// Paging as a value.
pub enum PagingModel {
    Disabled,
    Indefinite(Seq<char>),
    Pages(Seq<char>, i32),
}

impl View for Paging {
    type V = PagingModel;

    open spec fn view(&self) -> PagingModel {
        match self {
            Paging::Disabled => PagingModel::Disabled,
            Paging::Enabled(o) => match o.range {
                PagingRange::Indefinite => PagingModel::Indefinite(o.extension@),
                PagingRange::Page(n) => PagingModel::Pages(o.extension@, n),
            },
        }
    }
}

/// Why a crawl stopped without finishing.
#[derive(PartialEq, Eq, Structural, Clone, Copy, Debug)]
pub enum CrawlError {
    /// The first page, which seeds the crawl, could not be fetched.
    SeedUnreachable,
}

/// Where a crawl stands, as a value.
pub enum PhaseModel {
    Ready,
    AwaitPage,
    AwaitFilter(Seq<Seq<char>>),
    AwaitLinks(Seq<Seq<char>>),
    Done(Option<CrawlError>),
}

/// Where a crawl stands.
pub enum Phase {
    /// Not started.
    Ready,
    /// Waiting for the current page.
    AwaitPage,
    /// Waiting for the verdict of the link filter on these links.
    AwaitFilter(Vec<String>),
    /// Waiting for the documents of these links.
    AwaitLinks(Vec<String>),
    /// Finished, or stopped by an error.
    Done(Option<CrawlError>),
}

impl View for Phase {
    type V = PhaseModel;

    open spec fn view(&self) -> PhaseModel {
        match self {
            Phase::Ready => PhaseModel::Ready,
            Phase::AwaitPage => PhaseModel::AwaitPage,
            Phase::AwaitFilter(l) => PhaseModel::AwaitFilter(strings_of(l@)),
            Phase::AwaitLinks(l) => PhaseModel::AwaitLinks(strings_of(l@)),
            Phase::Done(e) => PhaseModel::Done(*e),
        }
    }
}

/// What the crawl asks its driver to do next, as a value.
pub enum ActionModel {
    FetchPage(Seq<char>),
    Filter(Seq<Seq<char>>),
    FetchLinks(Seq<Seq<char>>),
    Finished,
}

/// What the crawl asks its driver to do next.
pub enum CrawlAction {
    /// Fetch this page and report `PageFetched` or `PageFailed`.
    FetchPage(String),
    /// Pass each link through the link filter and report `LinksFiltered`:
    /// `None` drops a link, `Some` replaces it.
    Filter(Vec<String>),
    /// Fetch these documents, in any order or at once, and report
    /// `LinksFetched` with one entry per link, in this order.
    FetchLinks(Vec<String>),
    /// Nothing is left to do.
    Finished,
}

impl View for CrawlAction {
    type V = ActionModel;

    open spec fn view(&self) -> ActionModel {
        match self {
            CrawlAction::FetchPage(u) => ActionModel::FetchPage(u@),
            CrawlAction::Filter(l) => ActionModel::Filter(strings_of(l@)),
            CrawlAction::FetchLinks(l) => ActionModel::FetchLinks(strings_of(l@)),
            CrawlAction::Finished => ActionModel::Finished,
        }
    }
}

/// What the driver reports, as a value.
pub enum EventModel {
    PageFetched(Seq<char>),
    PageFailed,
    LinksFiltered(Seq<Option<Seq<char>>>),
    LinksFetched(Seq<Option<Seq<char>>>),
}

/// What the driver reports back.
pub enum CrawlEvent {
    /// The text of the requested page.
    PageFetched(String),
    /// The requested page could not be fetched.
    PageFailed,
    /// The filter's verdict on each link, in order.
    LinksFiltered(Vec<Option<String>>),
    /// The text of each requested document, in order; `None` where the fetch failed.
    LinksFetched(Vec<Option<String>>),
}

/// Optional strings as values.
pub open spec fn options_of(v: Seq<Option<String>>) -> Seq<Option<Seq<char>>> {
    v.map_values(
        |o: Option<String>|
            match o {
                Some(s) => Some(s@),
                None => None,
            },
    )
}

impl View for CrawlEvent {
    type V = EventModel;

    open spec fn view(&self) -> EventModel {
        match self {
            CrawlEvent::PageFetched(t) => EventModel::PageFetched(t@),
            CrawlEvent::PageFailed => EventModel::PageFailed,
            CrawlEvent::LinksFiltered(o) => EventModel::LinksFiltered(options_of(o@)),
            CrawlEvent::LinksFetched(o) => EventModel::LinksFetched(options_of(o@)),
        }
    }
}

/// A crawl as a value.
pub struct CrawlModel {
    pub url: Seq<char>,
    pub links_path: Seq<StepModel>,
    pub prefix: Option<Seq<char>>,
    pub search: SearchModel,
    pub paging: PagingModel,
    pub parallel: bool,
    pub records: Seq<Extraction>,
    pub failures: Seq<Seq<char>>,
    pub phase: PhaseModel,
    pub page: i32,
}

/// The address of page `k`.
pub open spec fn page_address(url: Seq<char>, paging: PagingModel, k: i32) -> Seq<char> {
    match paging {
        PagingModel::Disabled => url,
        PagingModel::Indefinite(ext) => replaced(url + ext, seq!['{', '}'], decimal(k as nat)),
        PagingModel::Pages(ext, _) => replaced(url + ext, seq!['{', '}'], decimal(k as nat)),
    }
}

/// A link with the prefix, if any, in front.
pub open spec fn prefixed(prefix: Option<Seq<char>>, link: Seq<char>) -> Seq<char> {
    match prefix {
        Some(p) => p + link,
        None => link,
    }
}

/// The links that the link path finds on a page.
pub open spec fn discovered(m: CrawlModel, page: Seq<char>) -> Seq<Seq<char>> {
    evaluate(page, m.links_path, nothing()).values.map_values(|l: Seq<char>| prefixed(m.prefix, l))
}

/// The links that the filter keeps, as it rewrote them.
pub open spec fn kept(o: Seq<Option<Seq<char>>>) -> Seq<Seq<char>>
    decreases o.len(),
{
    if o.len() == 0 {
        Seq::empty()
    } else {
        let rest = kept(o.drop_last());
        match o.last() {
            Some(l) => rest.push(l),
            None => rest,
        }
    }
}

/// For the first `k` links: the records of the fetched documents and the
/// links that could not be fetched, each in link order.
pub open spec fn gather(
    search: SearchModel,
    links: Seq<Seq<char>>,
    texts: Seq<Option<Seq<char>>>,
    k: int,
) -> (Seq<Extraction>, Seq<Seq<char>>)
    decreases k,
{
    if k <= 0 {
        (Seq::empty(), Seq::empty())
    } else {
        let g = gather(search, links, texts, k - 1);
        let j = k - 1;
        if j < texts.len() && texts[j] is Some {
            (g.0.push(record_of(texts[j]->0, search)), g.1)
        } else {
            (g.0, g.1.push(links[j]))
        }
    }
}

/// `m` in another phase.
pub open spec fn with_phase(m: CrawlModel, phase: PhaseModel) -> CrawlModel {
    CrawlModel { phase, ..m }
}

/// What the phase waits for.
pub open spec fn awaited(m: CrawlModel) -> ActionModel {
    match m.phase {
        PhaseModel::AwaitPage => ActionModel::FetchPage(page_address(m.url, m.paging, m.page)),
        PhaseModel::AwaitFilter(c) => ActionModel::Filter(c),
        PhaseModel::AwaitLinks(l) => ActionModel::FetchLinks(l),
        _ => ActionModel::Finished,
    }
}

/// Moving on to page `p`.
pub open spec fn to_page(m: CrawlModel, p: i32) -> (CrawlModel, ActionModel) {
    (
        CrawlModel { phase: PhaseModel::AwaitPage, page: p, ..m },
        ActionModel::FetchPage(page_address(m.url, m.paging, p)),
    )
}

/// After a page that yielded `n` records: stop without paging, after a page
/// that yielded nothing when paging indefinitely, or after the last of a
/// fixed number of pages; else go on to the next page.
pub open spec fn after_page(m: CrawlModel, n: nat) -> (CrawlModel, ActionModel) {
    let done = (with_phase(m, PhaseModel::Done(None)), ActionModel::Finished);
    match m.paging {
        PagingModel::Disabled => done,
        PagingModel::Indefinite(_) => if n == 0 || m.page >= i32::MAX {
            done
        } else {
            to_page(m, (m.page + 1) as i32)
        },
        PagingModel::Pages(_, max) => if m.page + 1 < max {
            to_page(m, (m.page + 1) as i32)
        } else {
            done
        },
    }
}

/// Starting a crawl: the first page, unless a fixed number of pages is zero
/// or less.
pub open spec fn crawl_start(m: CrawlModel) -> (CrawlModel, ActionModel) {
    if m.phase is Ready {
        match m.paging {
            PagingModel::Pages(_, max) => if max <= 0 {
                (with_phase(m, PhaseModel::Done(None)), ActionModel::Finished)
            } else {
                to_page(m, 0)
            },
            _ => to_page(m, 0),
        }
    } else {
        (m, awaited(m))
    }
}

/// One step of a crawl: the state after `e`, and what to do next. The first
/// page seeds the crawl: when it cannot be fetched the crawl stops with an
/// error. A later page that cannot be fetched is recorded among the failures
/// and counts as a page without records. An event that the phase does not
/// wait for changes nothing.
pub open spec fn crawl_step(m: CrawlModel, e: EventModel) -> (CrawlModel, ActionModel) {
    match m.phase {
        PhaseModel::AwaitPage => match e {
            EventModel::PageFetched(t) => {
                let c = discovered(m, t);
                (with_phase(m, PhaseModel::AwaitFilter(c)), ActionModel::Filter(c))
            },
            EventModel::PageFailed => if m.page == 0 {
                (
                    with_phase(m, PhaseModel::Done(Some(CrawlError::SeedUnreachable))),
                    ActionModel::Finished,
                )
            } else {
                after_page(
                    CrawlModel {
                        failures: m.failures.push(page_address(m.url, m.paging, m.page)),
                        ..m
                    },
                    0,
                )
            },
            _ => (m, awaited(m)),
        },
        PhaseModel::AwaitFilter(_) => match e {
            EventModel::LinksFiltered(o) => {
                let l = kept(o);
                (with_phase(m, PhaseModel::AwaitLinks(l)), ActionModel::FetchLinks(l))
            },
            _ => (m, awaited(m)),
        },
        PhaseModel::AwaitLinks(l) => match e {
            EventModel::LinksFetched(ts) => {
                let g = gather(m.search, l, ts, l.len() as int);
                after_page(
                    CrawlModel { records: m.records + g.0, failures: m.failures + g.1, ..m },
                    g.0.len(),
                )
            },
            _ => (m, awaited(m)),
        },
        _ => (m, awaited(m)),
    }
}

/// A copy of a list of strings.
fn copy_strings(v: &Vec<String>) -> (r: Vec<String>)
    ensures
        strings_of(r@) == strings_of(v@),
{
    let mut r: Vec<String> = Vec::new();
    let mut i: usize = 0;
    while i < v.len()
        invariant
            i <= v@.len(),
            r@.len() == i,
            forall|j: int| 0 <= j < i ==> (#[trigger] r@[j])@ == v@[j]@,
        decreases v.len() - i,
    {
        r.push(v[i].clone());
        i = i + 1;
    }
    assert(strings_of(r@) =~= strings_of(v@));
    r
}

/// The populator over many documents of one structure: it follows the links
/// that a link path finds on each page and populates a record from each.
pub struct MultiplePopulator {
    url: String,
    links_path: Vec<PathStep>,
    link_prefix: Option<String>,
    search_detail: SearchDetail,
    paging: Paging,
    multi_thread: bool,
    populated_links: Vec<Record>,
    failures: Vec<String>,
    phase: Phase,
    page: i32,
}

impl View for MultiplePopulator {
    type V = CrawlModel;

    closed spec fn view(&self) -> CrawlModel {
        CrawlModel {
            url: self.url@,
            links_path: steps_of(self.links_path@),
            prefix: match self.link_prefix {
                Some(p) => Some(p@),
                None => None,
            },
            search: self.search_detail@,
            paging: self.paging@,
            parallel: self.multi_thread,
            records: self.populated_links@.map_values(|r: Record| r@),
            failures: strings_of(self.failures@),
            phase: self.phase@,
            page: self.page,
        }
    }
}

impl MultiplePopulator {
    pub closed spec fn wf(&self) -> bool {
        self.search_detail.wf() && 0 <= self.page
    }

    /// A crawl of the page at `url`, without paging. `link_converter` is put
    /// in front of every link found.
    pub fn new(
        url: &str,
        links_path: Vec<PathStep>,
        link_converter: Option<String>,
        search: SearchDetail,
        multi_thread: bool,
    ) -> (r: MultiplePopulator)
        requires
            search.wf(),
        ensures
            r.wf(),
            r@ == (CrawlModel {
                url: url@,
                links_path: steps_of(links_path@),
                prefix: match link_converter {
                    Some(p) => Some(p@),
                    None => None,
                },
                search: search@,
                paging: PagingModel::Disabled,
                parallel: multi_thread,
                records: Seq::empty(),
                failures: Seq::empty(),
                phase: PhaseModel::Ready,
                page: 0,
            }),
    {
        let r = MultiplePopulator {
            url: String::from_str(url),
            links_path,
            link_prefix: link_converter,
            search_detail: search,
            paging: Paging::Disabled,
            multi_thread,
            populated_links: Vec::new(),
            failures: Vec::new(),
            phase: Phase::Ready,
            page: 0,
        };
        assert(r@.records =~= Seq::<Extraction>::empty());
        assert(r@.failures =~= Seq::<Seq<char>>::empty());
        r
    }

    /// A crawl over the pages that `paging_option` describes.
    pub fn new_with_paging(
        url: &str,
        links_path: Vec<PathStep>,
        link_converter: Option<String>,
        search: SearchDetail,
        multi_thread: bool,
        paging_option: PagingOptions,
    ) -> (r: MultiplePopulator)
        requires
            search.wf(),
        ensures
            r.wf(),
            r@ == (CrawlModel {
                url: url@,
                links_path: steps_of(links_path@),
                prefix: match link_converter {
                    Some(p) => Some(p@),
                    None => None,
                },
                search: search@,
                paging: Paging::Enabled(paging_option)@,
                parallel: multi_thread,
                records: Seq::empty(),
                failures: Seq::empty(),
                phase: PhaseModel::Ready,
                page: 0,
            }),
    {
        let mut r = MultiplePopulator::new(url, links_path, link_converter, search, multi_thread);
        r.paging = Paging::Enabled(paging_option);
        r
    }

    /// Whether the driver may fetch the documents of one page at once.
    pub fn is_parallel(&self) -> (r: bool)
        ensures
            r == self@.parallel,
    {
        self.multi_thread
    }

    /// The records gathered so far.
    pub fn populated_links(&self) -> (r: &Vec<Record>)
        ensures
            r@.map_values(|x: Record| x@) == self@.records,
    {
        &self.populated_links
    }

    /// The links whose documents could not be fetched.
    pub fn failures(&self) -> (r: &Vec<String>)
        ensures
            strings_of(r@) == self@.failures,
    {
        &self.failures
    }

    /// How the crawl ended: `None` while it runs, else the error if any.
    pub fn outcome(&self) -> (r: Option<Result<(), CrawlError>>)
        ensures
            match self@.phase {
                PhaseModel::Done(e) => r == Some(
                    match e {
                        Some(x) => Err::<(), CrawlError>(x),
                        None => Ok(()),
                    },
                ),
                _ => r is None,
            },
    {
        match &self.phase {
            Phase::Done(Some(e)) => Some(Err(*e)),
            Phase::Done(None) => Some(Ok(())),
            _ => None,
        }
    }

    fn page_address_exec(&self, k: i32) -> (r: String)
        requires
            0 <= k,
        ensures
            r@ == page_address(self.url@, self.paging@, k),
    {
        match &self.paging {
            Paging::Disabled => self.url.clone(),
            Paging::Enabled(o) => {
                let mut whole = self.url.clone();
                whole.append(o.extension.as_str());
                let chars = chars_of(whole.as_str());
                let braces = vec!['{', '}'];
                assert(braces@ == seq!['{', '}']);
                let digits = decimal_chars(k as u32);
                let r = replace_chars(chars.as_slice(), braces.as_slice(), digits.as_slice());
                string_of(r.as_slice())
            },
        }
    }

    fn awaited_exec(&self) -> (r: CrawlAction)
        requires
            self.wf(),
        ensures
            r@ == awaited(self@),
    {
        match &self.phase {
            Phase::AwaitPage => CrawlAction::FetchPage(self.page_address_exec(self.page)),
            Phase::AwaitFilter(c) => CrawlAction::Filter(copy_strings(c)),
            Phase::AwaitLinks(l) => CrawlAction::FetchLinks(copy_strings(l)),
            _ => CrawlAction::Finished,
        }
    }

    fn go_to_page(&mut self, p: i32) -> (r: CrawlAction)
        requires
            old(self).wf(),
            0 <= p,
        ensures
            final(self).wf(),
            (final(self)@, r@) == to_page(old(self)@, p),
    {
        self.phase = Phase::AwaitPage;
        self.page = p;
        CrawlAction::FetchPage(self.page_address_exec(p))
    }

    fn finish(&mut self, e: Option<CrawlError>) -> (r: CrawlAction)
        requires
            old(self).wf(),
        ensures
            final(self).wf(),
            (final(self)@, r@) == (with_phase(old(self)@, PhaseModel::Done(e)), ActionModel::Finished),
    {
        self.phase = Phase::Done(e);
        CrawlAction::Finished
    }

    /// Starts the crawl: the action is to fetch the first page, or nothing
    /// when a fixed number of pages is zero or less.
    pub fn start(&mut self) -> (r: CrawlAction)
        requires
            old(self).wf(),
        ensures
            final(self).wf(),
            (final(self)@, r@) == crawl_start(old(self)@),
    {
        match self.phase {
            Phase::Ready => {},
            _ => {
                return self.awaited_exec();
            },
        }
        let fixed = match &self.paging {
            Paging::Enabled(o) => match o.range {
                PagingRange::Page(n) => Some(n),
                _ => None,
            },
            _ => None,
        };
        match fixed {
            Some(n) => if n <= 0 {
                return self.finish(None);
            },
            None => {},
        }
        self.go_to_page(0)
    }

    /// The links that the link path finds on a page, each with the prefix.
    fn discover(&self, page: &str) -> (r: Vec<String>)
        ensures
            strings_of(r@) == discovered(self@, page@),
    {
        let doc = Document::parse(page);
        let mut finder = PathFinder::new(&self.links_path, &doc);
        finder.search_path();
        let (_, found) = finder.into_parts();
        let ghost target = discovered(self@, page@);
        let mut r: Vec<String> = Vec::new();
        let mut i: usize = 0;
        while i < found.len()
            invariant
                i <= found@.len(),
                target == strings_of(found@).map_values(
                    |l: Seq<char>| prefixed(self@.prefix, l),
                ),
                r@.len() == i,
                forall|j: int| 0 <= j < i ==> (#[trigger] r@[j])@ == target[j],
            decreases found.len() - i,
        {
            let link = match &self.link_prefix {
                Some(p) => {
                    let mut s = p.clone();
                    s.append(found[i].as_str());
                    s
                },
                None => found[i].clone(),
            };
            r.push(link);
            i = i + 1;
        }
        assert(strings_of(r@) =~= target);
        r
    }

    /// Takes in what the driver reports and says what to do next.
    pub fn advance(&mut self, event: CrawlEvent) -> (r: CrawlAction)
        requires
            old(self).wf(),
        ensures
            final(self).wf(),
            (final(self)@, r@) == crawl_step(old(self)@, event@),
    {
        match self.phase {
            Phase::AwaitPage => match event {
                CrawlEvent::PageFetched(t) => {
                    let c = self.discover(t.as_str());
                    self.phase = Phase::AwaitFilter(copy_strings(&c));
                    CrawlAction::Filter(c)
                },
                CrawlEvent::PageFailed => {
                    if self.page == 0 {
                        self.finish(Some(CrawlError::SeedUnreachable))
                    } else {
                        let ghost m = self@;
                        let address = self.page_address_exec(self.page);
                        self.failures.push(address);
                        assert(strings_of(self.failures@) =~= m.failures.push(
                            page_address(m.url, m.paging, m.page),
                        ));
                        assert(self@ == CrawlModel {
                            failures: m.failures.push(page_address(m.url, m.paging, m.page)),
                            ..m
                        });
                        self.after_page_exec(0)
                    }
                },
                _ => self.awaited_exec(),
            },
            Phase::AwaitFilter(_) => match event {
                CrawlEvent::LinksFiltered(o) => {
                    let l = keep_links(&o);
                    self.phase = Phase::AwaitLinks(copy_strings(&l));
                    CrawlAction::FetchLinks(l)
                },
                _ => self.awaited_exec(),
            },
            Phase::AwaitLinks(_) => match event {
                CrawlEvent::LinksFetched(ts) => self.take_documents(&ts),
                _ => self.awaited_exec(),
            },
            _ => self.awaited_exec(),
        }
    }

    fn take_documents(&mut self, texts: &Vec<Option<String>>) -> (r: CrawlAction)
        requires
            old(self).wf(),
            old(self)@.phase is AwaitLinks,
        ensures
            final(self).wf(),
            (final(self)@, r@) == crawl_step(old(self)@, EventModel::LinksFetched(options_of(texts@))),
    {
        let ghost m = self@;
        let ghost ts = options_of(texts@);
        let mut phase = Phase::Ready;
        std::mem::swap(&mut phase, &mut self.phase);
        let links = match phase {
            Phase::AwaitLinks(l) => l,
            _ => Vec::new(),
        };
        let ghost lm = strings_of(links@);
        assert(m.phase == PhaseModel::AwaitLinks(lm));
        let mut count: usize = 0;
        let mut j: usize = 0;
        while j < links.len()
            invariant
                j <= links@.len() == lm.len(),
                lm == strings_of(links@),
                ts == options_of(texts@),
                self.wf(),
                self.search_detail@ == m.search,
                self.url@ == m.url,
                self.paging@ == m.paging,
                self.page == m.page,
                self@ == (CrawlModel {
                    records: self@.records,
                    failures: self@.failures,
                    phase: PhaseModel::Ready,
                    ..m
                }),
                self@.records == m.records + gather(m.search, lm, ts, j as int).0,
                self@.failures == m.failures + gather(m.search, lm, ts, j as int).1,
                count == gather(m.search, lm, ts, j as int).0.len(),
                count <= j,
            decreases links.len() - j,
        {
            let ghost before = self@;
            let fetched: Option<&String> = if j < texts.len() {
                match &texts[j] {
                    Some(t) => Some(t),
                    None => None,
                }
            } else {
                None
            };
            let ghost prev = gather(m.search, lm, ts, j as int);
            match fetched {
                Some(t) => {
                    assert(ts[j as int] == Some(t@));
                    let doc = Document::parse(t.as_str());
                    let rec = populate_document(&doc, &self.search_detail);
                    let ghost rv = rec@;
                    self.populated_links.push(rec);
                    assert(self@.records =~= before.records.push(rv));
                    assert(gather(m.search, lm, ts, j + 1) == (prev.0.push(rv), prev.1));
                    count = count + 1;
                },
                None => {
                    assert(!(j < ts.len() && ts[j as int] is Some));
                    let l = links[j].clone();
                    self.failures.push(l);
                    assert(self@.failures =~= before.failures.push(lm[j as int]));
                    assert(gather(m.search, lm, ts, j + 1) == (prev.0, prev.1.push(lm[j as int])));
                },
            }
            assert(self@.records =~= m.records + gather(m.search, lm, ts, j + 1).0);
            assert(self@.failures =~= m.failures + gather(m.search, lm, ts, j + 1).1);
            j = j + 1;
        }
        let ghost g = gather(m.search, lm, ts, lm.len() as int);
        let ghost after = CrawlModel { records: m.records + g.0, failures: m.failures + g.1, ..m };
        self.phase = Phase::Done(None);
        let r = self.after_page_exec(count);
        assert(crawl_step(m, EventModel::LinksFetched(ts)) == after_page(after, count as nat));
        r
    }

    fn after_page_exec(&mut self, n: usize) -> (r: CrawlAction)
        requires
            old(self).wf(),
        ensures
            final(self).wf(),
            (final(self)@, r@) == after_page(old(self)@, n as nat),
    {
        let next: Option<i32> = match &self.paging {
            Paging::Disabled => None,
            Paging::Enabled(o) => match o.range {
                PagingRange::Indefinite => if n == 0 || self.page == i32::MAX {
                    None
                } else {
                    Some(self.page + 1)
                },
                PagingRange::Page(max) => if (self.page as i64) + 1 < (max as i64) {
                    Some(self.page + 1)
                } else {
                    None
                },
            },
        };
        match next {
            Some(p) => self.go_to_page(p),
            None => self.finish(None),
        }
    }
}

/// The links that the filter keeps.
fn keep_links(o: &Vec<Option<String>>) -> (r: Vec<String>)
    ensures
        strings_of(r@) == kept(options_of(o@)),
{
    let ghost all = options_of(o@);
    let mut r: Vec<String> = Vec::new();
    let mut i: usize = 0;
    while i < o.len()
        invariant
            i <= o@.len() == all.len(),
            all == options_of(o@),
            strings_of(r@) == kept(all.subrange(0, i as int)),
        decreases o.len() - i,
    {
        let ghost pre = all.subrange(0, i + 1);
        assert(pre.drop_last() =~= all.subrange(0, i as int));
        match &o[i] {
            Some(l) => {
                r.push(l.clone());
            },
            None => {},
        }
        assert(strings_of(r@) =~= kept(pre));
        i = i + 1;
    }
    assert(all.subrange(0, all.len() as int) =~= all);
    r
}


proof fn lemma_put_fields_fresh(source: Seq<char>, element: usize, fs: Seq<(Seq<char>, FieldModel)>)
    requires
        distinct_keys(fs),
    ensures
        put_fields(source, element, fs, Seq::empty()).len() == fs.len(),
        forall|i: int|
            0 <= i < fs.len() ==> #[trigger] put_fields(source, element, fs, Seq::empty())[i] == (
                fs[i].0,
                field_value(source, element, fs[i].1),
            ),
    decreases fs.len(),
{
    if fs.len() > 0 {
        let pre = fs.drop_last();
        assert forall|i: int, j: int| 0 <= i < j < pre.len() implies pre[i].0 != pre[j].0 by {
            assert(pre[i] == fs[i] && pre[j] == fs[j]);
        }
        lemma_put_fields_fresh(source, element, pre);
        let r0 = put_fields(source, element, pre, Seq::empty());
        let k = fs.last().0;
        lemma_key_index(r0, k);
        if key_index(r0, k) >= 0 {
            let x = key_index(r0, k);
            assert(r0[x].0 == pre[x].0);
            assert(fs[x].0 != fs[fs.len() - 1].0);
        }
        let r = put_fields(source, element, fs, Seq::empty());
        assert(r == r0.push((k, field_value(source, element, fs.last().1))));
        assert forall|i: int| 0 <= i < fs.len() implies #[trigger] r[i] == (
            fs[i].0,
            field_value(source, element, fs[i].1),
        ) by {
            if i < fs.len() - 1 {
                assert(r[i] == r0[i]);
                assert(fs[i] == pre[i]);
            }
        }
    }
}

/// With standalone fields and no paths, a record holds exactly the fields'
/// names, in order, each with its queried value (the empty string where
/// nothing matches), and no unnamed value.
pub proof fn lemma_standalone_fields_only(source: Seq<char>, search: &SearchDetail)
    requires
        search.wf(),
        search@.paths.len() == 0,
    ensures
        keys_of(record_of(source, search@).fields) == keys_of(search@.fields),
        forall|i: int|
            0 <= i < search@.fields.len() ==> #[trigger] record_of(source, search@).fields[i].1
                == field_value(source, root_of(source), search@.fields[i].1),
        record_of(source, search@).values.len() == 0,
{
    let fs = search@.fields;
    lemma_put_fields_fresh(source, root_of(source), fs);
    let r = record_of(source, search@).fields;
    assert(r == put_fields(source, root_of(source), fs, Seq::empty()));
    assert(keys_of(r) =~= keys_of(fs));
}

/// A page on which the link path finds no link ends the crawl at that page,
/// without error and without a record more, whether paging is off or goes on
/// until a page yields nothing.
pub proof fn lemma_no_links_ends_crawl(
    m: CrawlModel,
    page: Seq<char>,
    verdicts: Seq<Option<Seq<char>>>,
    texts: Seq<Option<Seq<char>>>,
)
    requires
        m.phase is AwaitPage,
        discovered(m, page).len() == 0,
        verdicts.len() == 0,
        m.paging is Disabled || m.paging is Indefinite,
    ensures
        ({
            let (m1, a1) = crawl_step(m, EventModel::PageFetched(page));
            let (m2, a2) = crawl_step(m1, EventModel::LinksFiltered(verdicts));
            let (m3, a3) = crawl_step(m2, EventModel::LinksFetched(texts));
            &&& a1 == ActionModel::Filter(Seq::empty())
            &&& a2 == ActionModel::FetchLinks(Seq::empty())
            &&& a3 == ActionModel::Finished
            &&& m3.phase == PhaseModel::Done(None)
            &&& m3.records == m.records
            &&& m3.failures == m.failures
        }),
{
    let (m1, a1) = crawl_step(m, EventModel::PageFetched(page));
    assert(discovered(m, page) =~= Seq::<Seq<char>>::empty());
    let (m2, a2) = crawl_step(m1, EventModel::LinksFiltered(verdicts));
    assert(kept(verdicts) =~= Seq::<Seq<char>>::empty());
    let g = gather(m.search, Seq::empty(), texts, 0);
    assert(m.records + g.0 =~= m.records);
    assert(m.failures + g.1 =~= m.failures);
}

proof fn lemma_kept_all(o: Seq<Option<Seq<char>>>)
    requires
        forall|j: int| 0 <= j < o.len() ==> #[trigger] o[j] is Some,
    ensures
        kept(o).len() == o.len(),
    decreases o.len(),
{
    if o.len() > 0 {
        let pre = o.drop_last();
        assert forall|j: int| 0 <= j < pre.len() implies #[trigger] pre[j] is Some by {
            assert(pre[j] == o[j]);
        }
        lemma_kept_all(pre);
        assert(o.last() is Some);
    }
}

proof fn lemma_kept_one_dropped(o: Seq<Option<Seq<char>>>, d: int)
    requires
        0 <= d < o.len(),
        o[d] is None,
        forall|j: int| 0 <= j < o.len() && j != d ==> #[trigger] o[j] is Some,
    ensures
        kept(o).len() == o.len() - 1,
    decreases o.len(),
{
    let pre = o.drop_last();
    if d == o.len() - 1 {
        assert forall|j: int| 0 <= j < pre.len() implies #[trigger] pre[j] is Some by {
            assert(pre[j] == o[j]);
        }
        lemma_kept_all(pre);
    } else {
        assert(pre[d] == o[d]);
        assert forall|j: int| 0 <= j < pre.len() && j != d implies #[trigger] pre[j] is Some by {
            assert(pre[j] == o[j]);
        }
        lemma_kept_one_dropped(pre, d);
        assert(o.last() is Some);
    }
}

proof fn lemma_gather_all_fetched(
    search: SearchModel,
    links: Seq<Seq<char>>,
    texts: Seq<Option<Seq<char>>>,
    k: int,
)
    requires
        0 <= k <= texts.len(),
        forall|j: int| 0 <= j < texts.len() ==> #[trigger] texts[j] is Some,
    ensures
        gather(search, links, texts, k).0.len() == k,
        gather(search, links, texts, k).1.len() == 0,
    decreases k,
{
    if k > 0 {
        lemma_gather_all_fetched(search, links, texts, k - 1);
        assert(texts[k - 1] is Some);
    }
}

/// When the link filter drops one of three discovered links, the crawl asks
/// for two documents, and when both arrive it holds exactly two records more.
pub proof fn lemma_filtered_link_dropped(
    m: CrawlModel,
    verdicts: Seq<Option<Seq<char>>>,
    dropped: int,
    texts: Seq<Option<Seq<char>>>,
)
    requires
        m.phase is AwaitFilter,
        m.phase->AwaitFilter_0.len() == 3,
        verdicts.len() == 3,
        0 <= dropped < 3,
        verdicts[dropped] is None,
        forall|j: int| 0 <= j < 3 && j != dropped ==> #[trigger] verdicts[j] is Some,
        texts.len() == 2,
        forall|j: int| 0 <= j < 2 ==> #[trigger] texts[j] is Some,
    ensures
        ({
            let (m1, a1) = crawl_step(m, EventModel::LinksFiltered(verdicts));
            let (m2, a2) = crawl_step(m1, EventModel::LinksFetched(texts));
            &&& a1 matches ActionModel::FetchLinks(l) && l.len() == 2
            &&& m2.records.len() == m.records.len() + 2
            &&& m2.failures == m.failures
        }),
{
    lemma_kept_one_dropped(verdicts, dropped);
    let l = kept(verdicts);
    lemma_gather_all_fetched(m.search, l, texts, 2);
    let g = gather(m.search, l, texts, 2);
    assert(m.failures + g.1 =~= m.failures);
}


/// What the driver reports for one page: its text, the filter's verdicts on
/// its links, and the texts of the links it fetched.
pub struct PageOutcome {
    pub page: Seq<char>,
    pub verdicts: Seq<Option<Seq<char>>>,
    pub texts: Seq<Option<Seq<char>>>,
}

/// The crawl after the three events of one page.
pub open spec fn page_cycle(m: CrawlModel, c: PageOutcome) -> (CrawlModel, ActionModel) {
    let m1 = crawl_step(m, EventModel::PageFetched(c.page)).0;
    let m2 = crawl_step(m1, EventModel::LinksFiltered(c.verdicts)).0;
    crawl_step(m2, EventModel::LinksFetched(c.texts))
}

/// The crawl after the pages `cs`, and the action asked for after each page.
pub open spec fn run_pages(m: CrawlModel, cs: Seq<PageOutcome>) -> (CrawlModel, Seq<ActionModel>)
    decreases cs.len(),
{
    if cs.len() == 0 {
        (m, Seq::empty())
    } else {
        let prev = run_pages(m, cs.drop_last());
        let next = page_cycle(prev.0, cs.last());
        (next.0, prev.1.push(next.1))
    }
}

/// The records of one page.
pub open spec fn page_records(search: SearchModel, c: PageOutcome) -> Seq<Extraction> {
    gather(search, kept(c.verdicts), c.texts, kept(c.verdicts).len() as int).0
}

/// The records of the pages `cs`, page after page.
pub open spec fn records_of_pages(search: SearchModel, cs: Seq<PageOutcome>) -> Seq<Extraction>
    decreases cs.len(),
{
    if cs.len() == 0 {
        Seq::empty()
    } else {
        records_of_pages(search, cs.drop_last()) + page_records(search, cs.last())
    }
}

proof fn lemma_pages_with_records(m: CrawlModel, cs: Seq<PageOutcome>)
    requires
        m.phase is AwaitPage,
        m.paging is Indefinite,
        0 <= m.page,
        m.page + cs.len() <= i32::MAX,
        forall|j: int| 0 <= j < cs.len() ==> #[trigger] page_records(m.search, cs[j]).len() > 0,
    ensures
        ({
            let (f, acts) = run_pages(m, cs);
            &&& f.phase == PhaseModel::AwaitPage
            &&& f.page == m.page + cs.len()
            &&& f.records == m.records + records_of_pages(m.search, cs)
            &&& f.url == m.url && f.links_path == m.links_path && f.prefix == m.prefix
            &&& f.search == m.search && f.paging == m.paging
            &&& acts.len() == cs.len()
            &&& forall|j: int|
                0 <= j < cs.len() ==> #[trigger] acts[j] == ActionModel::FetchPage(
                    page_address(m.url, m.paging, (m.page + j + 1) as i32),
                )
        }),
    decreases cs.len(),
{
    if cs.len() > 0 {
        let pre = cs.drop_last();
        assert forall|j: int| 0 <= j < pre.len() implies #[trigger] page_records(m.search, pre[j]).len()
            > 0 by {
            assert(pre[j] == cs[j]);
        }
        lemma_pages_with_records(m, pre);
        let (p, acts) = run_pages(m, pre);
        let c = cs.last();
        assert(page_records(m.search, cs[cs.len() - 1]).len() > 0);
        let l = kept(c.verdicts);
        let g = gather(m.search, l, c.texts, l.len() as int);
        let m1 = crawl_step(p, EventModel::PageFetched(c.page)).0;
        let m2 = crawl_step(m1, EventModel::LinksFiltered(c.verdicts)).0;
        assert(m2.phase == PhaseModel::AwaitLinks(l));
        assert(m2.search == m.search);
        assert(page_cycle(p, c).0.records == p.records + g.0);
        assert(m.records + records_of_pages(m.search, cs) =~= p.records + g.0);
    }
}

/// Paging without end: pages that yield records lead on to the next page,
/// and the first page on which the link path finds no link ends the crawl
/// without error. The pages asked for are exactly the following pages, in
/// order, and the records are those of every page, page after page.
pub proof fn lemma_indefinite_paging_run(m: CrawlModel, cs: Seq<PageOutcome>)
    requires
        m.phase is AwaitPage,
        m.paging is Indefinite,
        0 <= m.page,
        cs.len() > 0,
        m.page + cs.len() <= i32::MAX,
        forall|j: int|
            0 <= j < cs.len() - 1 ==> #[trigger] page_records(m.search, cs[j]).len() > 0,
        discovered(m, cs.last().page).len() == 0,
        cs.last().verdicts.len() == 0,
    ensures
        ({
            let (f, acts) = run_pages(m, cs);
            &&& f.phase == PhaseModel::Done(None)
            &&& f.records == m.records + records_of_pages(m.search, cs)
            &&& acts.len() == cs.len()
            &&& forall|j: int|
                0 <= j < cs.len() - 1 ==> #[trigger] acts[j] == ActionModel::FetchPage(
                    page_address(m.url, m.paging, (m.page + j + 1) as i32),
                )
            &&& acts.last() == ActionModel::Finished
        }),
{
    let pre = cs.drop_last();
    assert forall|j: int| 0 <= j < pre.len() implies #[trigger] page_records(m.search, pre[j]).len()
        > 0 by {
        assert(pre[j] == cs[j]);
    }
    lemma_pages_with_records(m, pre);
    let (p, acts) = run_pages(m, pre);
    let c = cs.last();
    assert(discovered(p, c.page) == discovered(m, c.page));
    lemma_no_links_ends_crawl(p, c.page, c.verdicts, c.texts);
    assert(kept(c.verdicts) =~= Seq::<Seq<char>>::empty());
    assert(page_records(m.search, c) =~= Seq::<Extraction>::empty());
    assert(m.records + records_of_pages(m.search, cs) =~= p.records);
    let (f, all) = run_pages(m, cs);
    assert forall|j: int| 0 <= j < cs.len() - 1 implies #[trigger] all[j] == ActionModel::FetchPage(
        page_address(m.url, m.paging, (m.page + j + 1) as i32),
    ) by {
        assert(all[j] == acts[j]);
    }
}

} // verus!
