//! Paths: a `Start` step followed by steps that descend, populate named
//! fields or find unnamed values.
use crate::field::{
    Destination,
    DestinationLocation,
    DestinationModel,
    ElementSelection,
    FieldIdentity,
    FieldModel,
    SelectionModel,
};
use crate::document::{Document, found_below, found_in_document, query_below, query_document};
use crate::field::{field_value, field_value_of, find_values, find_values_of, strings_of};
use crate::table::{Table, put};
use vstd::prelude::*;

verus! {

/// One step of a path, as a value.
pub enum StepModel {
    Descend(DestinationModel),
    Start(DestinationModel),
    Populate(Seq<(Seq<char>, FieldModel)>),
    Find(FieldModel),
}

/// Building blocks of a path.
#[derive(Debug)]
pub enum PathStep {
    /// Lower the hierarchy level by 1.
    Descend(Destination),
    /// Every path should be started with this.
    Start(Destination),
    /// Populate fields on current level.
    Populate(Table<FieldIdentity>),
    /// Find values on current level without field names.
    Find(FieldIdentity),
}

impl View for PathStep {
    type V = StepModel;

    open spec fn view(&self) -> StepModel {
        match self {
            PathStep::Descend(d) => StepModel::Descend(d@),
            PathStep::Start(d) => StepModel::Start(d@),
            PathStep::Populate(t) => StepModel::Populate(t@),
            PathStep::Find(f) => StepModel::Find(f@),
        }
    }
}

impl Clone for PathStep {
    fn clone(&self) -> (r: Self)
        ensures
            r@ == self@,
    {
        match self {
            PathStep::Descend(d) => PathStep::Descend(d.clone()),
            PathStep::Start(d) => PathStep::Start(d.clone()),
            PathStep::Populate(t) => PathStep::Populate(t.clone()),
            PathStep::Find(f) => PathStep::Find(f.clone()),
        }
    }
}

/// A compiled path.
pub type Path = Vec<PathStep>;

/// Several paths, evaluated in order.
pub type Paths = Vec<Path>;

/// The steps of a path as values.
pub open spec fn steps_of(p: Seq<PathStep>) -> Seq<StepModel> {
    p.map_values(|s: PathStep| s@)
}

/// A copy of a path, step for step.
pub fn copy_path(path: &Vec<PathStep>) -> (r: Vec<PathStep>)
    ensures
        steps_of(r@) == steps_of(path@),
{
    let mut r: Vec<PathStep> = Vec::new();
    let mut i: usize = 0;
    while i < path.len()
        invariant
            i <= path@.len(),
            r@.len() == i,
            forall|j: int| 0 <= j < i ==> (#[trigger] r@[j])@ == path@[j]@,
        decreases path.len() - i,
    {
        let s = path[i].clone();
        r.push(s);
        i = i + 1;
    }
    assert(steps_of(r@) =~= steps_of(path@));
    r
}

/// A convenient helper to build up a path.
pub struct PathBuilder {
    path: Vec<PathStep>,
}

impl View for PathBuilder {
    type V = Seq<StepModel>;

    closed spec fn view(&self) -> Seq<StepModel> {
        steps_of(self.path@)
    }
}

impl PathBuilder {
    pub fn new() -> (r: PathBuilder)
        ensures
            r@ == Seq::<StepModel>::empty(),
    {
        let r = PathBuilder { path: Vec::new() };
        assert(r@ =~= Seq::<StepModel>::empty());
        r
    }

    fn push(&mut self, step: PathStep)
        ensures
            final(self)@ == old(self)@.push(step@),
    {
        self.path.push(step);
        assert(self@ =~= old(self)@.push(step@));
    }

    pub fn start(&mut self, destination: Destination) -> (r: &mut Self)
        ensures
            r@ == old(self)@.push(StepModel::Start(destination@)),
            *final(self) == *final(r),
    {
        self.push(PathStep::Start(destination));
        self
    }

    pub fn descend(&mut self, selector: &str, number_of_element: i32) -> (r: &mut Self)
        ensures
            r@ == old(self)@.push(
                StepModel::Descend(
                    DestinationModel {
                        query: selector@,
                        selection: SelectionModel::Single(number_of_element),
                    },
                ),
            ),
            *final(self) == *final(r),
    {
        self.push(
            PathStep::Descend(
                Destination::new(selector, ElementSelection::Single(number_of_element)),
            ),
        );
        self
    }

    pub fn populate(&mut self, population_map: Table<FieldIdentity>) -> (r: &mut Self)
        ensures
            r@ == old(self)@.push(StepModel::Populate(population_map@)),
            *final(self) == *final(r),
    {
        self.push(PathStep::Populate(population_map));
        self
    }

    pub fn populate_one(
        &mut self,
        field_name: &str,
        selector: &str,
        selection: ElementSelection,
        location: DestinationLocation,
    ) -> (r: &mut Self)
        ensures
            r@ == old(self)@.push(
                StepModel::Populate(
                    seq![(field_name@, FieldModel {
                        destination: DestinationModel { query: selector@, selection: selection@ },
                        target: location@,
                    })],
                ),
            ),
            *final(self) == *final(r),
    {
        let mut population = Table::new();
        population.insert(
            String::from_str(field_name),
            FieldIdentity::new(selector, selection, location),
        );
        assert(population@ =~= seq![(field_name@, FieldModel {
                destination: DestinationModel { query: selector@, selection: selection@ },
                target: location@,
            })]);
        self.push(PathStep::Populate(population));
        self
    }

    pub fn find_one(&mut self, selector: &str, number_of_element: i32, location: DestinationLocation)
        -> (r: &mut Self)
        ensures
            r@ == old(self)@.push(
                StepModel::Find(
                    FieldModel {
                        destination: DestinationModel {
                            query: selector@,
                            selection: SelectionModel::Single(number_of_element),
                        },
                        target: location@,
                    },
                ),
            ),
            *final(self) == *final(r),
    {
        self.push(
            PathStep::Find(
                FieldIdentity::new(selector, ElementSelection::Single(number_of_element), location),
            ),
        );
        self
    }

    pub fn find_all(&mut self, selector: &str, delimiter: &str, location: DestinationLocation) -> (r:
        &mut Self)
        ensures
            r@ == old(self)@.push(
                StepModel::Find(
                    FieldModel {
                        destination: DestinationModel {
                            query: selector@,
                            selection: SelectionModel::All(delimiter@),
                        },
                        target: location@,
                    },
                ),
            ),
            *final(self) == *final(r),
    {
        self.push(
            PathStep::Find(
                FieldIdentity::new(
                    selector,
                    ElementSelection::All(String::from_str(delimiter)),
                    location,
                ),
            ),
        );
        self
    }

    /// Returns the constructed path.
    pub fn build(&self) -> (r: Vec<PathStep>)
        ensures
            steps_of(r@) == self@,
    {
        copy_path(&self.path)
    }
}


/// What evaluating paths has produced: named values and unnamed values.
pub struct Extraction {
    pub fields: Seq<(Seq<char>, Seq<char>)>,
    pub values: Seq<Seq<char>>,
}

/// `acc` after setting each field of `fs`, in order, to its value below `element`.
pub open spec fn put_fields(
    source: Seq<char>,
    element: usize,
    fs: Seq<(Seq<char>, FieldModel)>,
    acc: Seq<(Seq<char>, Seq<char>)>,
) -> Seq<(Seq<char>, Seq<char>)>
    decreases fs.len(),
{
    if fs.len() == 0 {
        acc
    } else {
        put(
            put_fields(source, element, fs.drop_last(), acc),
            fs.last().0,
            field_value(source, element, fs.last().1),
        )
    }
}

/// Running the steps from index `i` on, at `element`. A `Descend` without
/// its match ends the run; a `Start` after the first step does nothing.
pub open spec fn run_from(
    source: Seq<char>,
    steps: Seq<StepModel>,
    i: int,
    element: usize,
    acc: Extraction,
) -> Extraction
    decreases steps.len() - i,
{
    if i < 0 || i >= steps.len() {
        acc
    } else {
        match steps[i] {
            StepModel::Descend(d) => match d.selection {
                SelectionModel::Single(n) => {
                    let m = found_below(source, element, d.query);
                    if 0 <= n < m.len() {
                        run_from(source, steps, i + 1, m[n as int], acc)
                    } else {
                        acc
                    }
                },
                SelectionModel::All(_) => acc,
            },
            StepModel::Populate(fs) => run_from(
                source,
                steps,
                i + 1,
                element,
                Extraction { fields: put_fields(source, element, fs, acc.fields), values: acc.values },
            ),
            StepModel::Find(f) => run_from(
                source,
                steps,
                i + 1,
                element,
                Extraction { fields: acc.fields, values: acc.values + find_values(source, element, f) },
            ),
            StepModel::Start(_) => run_from(source, steps, i + 1, element, acc),
        }
    }
}

/// Evaluating a path on the document parsed from `source`, on top of `acc`:
/// the first step must be a `Start` whose match exists, else nothing changes.
pub open spec fn evaluate(source: Seq<char>, steps: Seq<StepModel>, acc: Extraction) -> Extraction {
    if steps.len() == 0 {
        acc
    } else {
        match steps[0] {
            StepModel::Start(d) => match d.selection {
                SelectionModel::Single(n) => {
                    let m = found_in_document(source, d.query);
                    if 0 <= n < m.len() {
                        run_from(source, steps, 1, m[n as int], acc)
                    } else {
                        acc
                    }
                },
                SelectionModel::All(_) => acc,
            },
            _ => acc,
        }
    }
}

/// Sets each field of `fs`, in order, to its value below `element`.
pub fn populate_fields(doc: &Document, element: usize, fs: &Table<FieldIdentity>, map: &mut Table<String>)
    requires
        old(map).wf(),
    ensures
        final(map).wf(),
        final(map)@ == put_fields(doc.source(), element, fs@, old(map)@),
{
    let mut j: usize = 0;
    while j < fs.len()
        invariant
            j <= fs@.len(),
            map.wf(),
            map@ == put_fields(doc.source(), element, fs@.subrange(0, j as int), old(map)@),
        decreases fs@.len() - j,
    {
        let ghost pre = fs@.subrange(0, j + 1);
        assert(pre.drop_last() =~= fs@.subrange(0, j as int));
        assert(pre.last() == fs@[j as int]);
        let value = field_value_of(doc, element, fs.value_at(j));
        map.insert(fs.name_at(j).clone(), value);
        j = j + 1;
    }
    assert(fs@.subrange(0, fs@.len() as int) =~= fs@);
}

/// Walks one path over a document and gathers what it finds.
pub struct PathFinder<'a> {
    doc: &'a Document,
    path: &'a Vec<PathStep>,
    /// Values found by `Populate` steps, by field name.
    pub map: Table<String>,
    /// Values found by `Find` steps, in order.
    pub values: Vec<String>,
}

impl<'a> PathFinder<'a> {
    pub closed spec fn document(&self) -> &'a Document {
        self.doc
    }

    pub closed spec fn steps(&self) -> Seq<StepModel> {
        steps_of(self.path@)
    }

    /// What has been found so far.
    pub closed spec fn found(&self) -> Extraction {
        Extraction { fields: self.map@, values: strings_of(self.values@) }
    }

    pub closed spec fn wf(&self) -> bool {
        self.map.wf()
    }

    pub fn new(path: &'a Vec<PathStep>, html: &'a Document) -> (r: PathFinder<'a>)
        ensures
            r.document() == html,
            r.steps() == steps_of(path@),
            r.found() == (Extraction { fields: Seq::empty(), values: Seq::empty() }),
            r.wf(),
    {
        let r = PathFinder { doc: html, path, map: Table::new(), values: Vec::new() };
        assert(strings_of(r.values@) =~= Seq::<Seq<char>>::empty());
        r
    }

    /// The named and the unnamed values found.
    pub fn into_parts(self) -> (r: (Table<String>, Vec<String>))
        requires
            self.wf(),
        ensures
            r.0.wf(),
            r.0@ == self.found().fields,
            strings_of(r.1@) == self.found().values,
    {
        (self.map, self.values)
    }

    /// Evaluates the path and adds what it finds.
    pub fn search_path(&mut self)
        requires
            old(self).wf(),
        ensures
            final(self).wf(),
            final(self).document() == old(self).document(),
            final(self).steps() == old(self).steps(),
            final(self).found() == evaluate(
                old(self).document().source(),
                old(self).steps(),
                old(self).found(),
            ),
    {
        let doc = self.doc;
        let path = self.path;
        let ghost source = doc.source();
        let ghost steps = steps_of(path@);
        let ghost target = evaluate(source, steps, self.found());
        if path.len() == 0 {
            return;
        }
        assert(steps[0] == path@[0]@);
        let start = match &path[0] {
            PathStep::Start(d) => d,
            _ => {
                return;
            },
        };
        let n = match start.1 {
            ElementSelection::Single(n) => n,
            _ => {
                return;
            },
        };
        let m = query_document(doc, start.0.as_str());
        if n < 0 || n as usize >= m.len() {
            return;
        }
        let mut cur = m[n as usize];
        let mut i: usize = 1;
        while i < path.len()
            invariant
                1 <= i <= path@.len(),
                doc == self.doc,
                path == self.path,
                self.doc == old(self).doc,
                self.path == old(self).path,
                source == doc.source(),
                steps == steps_of(path@),
                self.map.wf(),
                run_from(source, steps, i as int, cur, self.found()) == target,
                target == evaluate(old(self).document().source(), old(self).steps(), old(self).found()),
            decreases path.len() - i,
        {
            assert(steps[i as int] == path@[i as int]@);
            match &path[i] {
                PathStep::Descend(d) => match d.1 {
                    ElementSelection::Single(k) => {
                        let ms = query_below(doc, cur, d.0.as_str());
                        if k < 0 || k as usize >= ms.len() {
                            assert(steps[i as int] == StepModel::Descend(d@));
                            assert(run_from(source, steps, i as int, cur, self.found())
                                == self.found());
                            return;
                        }
                        cur = ms[k as usize];
                    },
                    ElementSelection::All(_) => {
                        assert(steps[i as int] == StepModel::Descend(d@));
                        return;
                    },
                },
                PathStep::Populate(fs) => {
                    populate_fields(doc, cur, fs, &mut self.map);
                },
                PathStep::Find(f) => {
                    let mut vs = find_values_of(doc, cur, f);
                    let ghost before = self.values@;
                    let ghost added = vs@;
                    self.values.append(&mut vs);
                    assert(strings_of(self.values@) =~= strings_of(before) + strings_of(added));
                },
                PathStep::Start(_) => {},
            }
            i = i + 1;
        }
    }
}

} // verus!
