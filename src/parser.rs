//! The path language compiler.
//!
//! Text of the form `STEP(KEY: VALUE, ...) -> STEP(...) -> ...` becomes a
//! path and a list of diagnostics. Whitespace is removed first; step keywords
//! (`START`, `DESCEND`, `FIND`, `POPULATE`) and argument keys (`SELECTOR`,
//! `SELECT`, `LOC`, `NAME`) are matched without regard to ASCII case, and
//! argument values are lower-cased. A step that cannot be compiled adds a
//! diagnostic and contributes nothing; compilation always goes on to the end.
//!
//! Every `POPULATE` step of a text lands in one merged `Populate` step that is
//! appended after all other steps, so it runs at the deepest element that the
//! path reaches, wherever it was written. This keeps paths written for earlier
//! versions of the language working.
use crate::field::{
    Destination,
    DestinationLocation,
    DestinationModel,
    ElementSelection,
    FieldIdentity,
    FieldModel,
    SelectionModel,
    TargetModel,
};
use crate::path::{PathStep, StepModel, steps_of};
use crate::populator::{
    MultiplePopulator,
    PagingModel,
    PagingOptions,
    PagingRange,
    SearchDetail,
    SearchModel,
    SinglePopulator,
};
use crate::table::{Table, put};
use crate::text::{
    chars_of,
    first_from,
    first_index,
    first_index_of,
    i32_of,
    is_word,
    is_word_exec,
    last_before,
    last_index,
    last_index_of,
    lemma_split_on_nonempty,
    lower_of,
    lowercase_of,
    parse_i32,
    slice_of,
    occurs_at,
    split_chars,
    split_from,
    split_on,
    starts_with_word,
    starts_with_word_exec,
    string_of,
    strip_white,
    without_white,
};
use vstd::prelude::*;

verus! {

/// Why a step of a path text could not be compiled.
#[derive(PartialEq, Eq, Structural, Clone, Copy, Debug)]
pub enum ParseErrorKind {
    /// The path does not begin with a valid `START` step.
    MissingStart,
    /// The step keyword is none of `DESCEND`, `FIND`, `POPULATE`.
    UnknownCommand,
    /// No `(` opens the arguments.
    MissingOpenBracket,
    /// No `)` after the first `(` closes the arguments.
    MissingCloseBracket,
    /// No `SELECTOR` argument.
    MissingSelector,
    /// No `LOC` argument.
    MissingLocation,
    /// A `LOC` that is neither `TEXT` nor `ATTR(name)`.
    InvalidLocation,
    /// A `POPULATE` step without `NAME`.
    MissingName,
    /// A `SELECT` that is not an `i32` (nor `ALL(..)` where that is allowed).
    InvalidSelect,
}

/// A diagnostic, as a value.
pub struct ErrorModel {
    pub step: Seq<char>,
    pub kind: ParseErrorKind,
}

/// A diagnostic: the step text that failed and why.
#[derive(Debug)]
pub struct ParseError {
    pub step: String,
    pub kind: ParseErrorKind,
}

impl View for ParseError {
    type V = ErrorModel;

    open spec fn view(&self) -> ErrorModel {
        ErrorModel { step: self.step@, kind: self.kind }
    }
}

/// The text that describes a kind of diagnostic.
pub open spec fn message_of(kind: ParseErrorKind) -> Seq<char> {
    match kind {
        ParseErrorKind::MissingStart => "First path command must be a start!"@,
        ParseErrorKind::UnknownCommand => "Invalid command"@,
        ParseErrorKind::MissingOpenBracket => "Command must start with opening bracket"@,
        ParseErrorKind::MissingCloseBracket => "Unclosed parentheses"@,
        ParseErrorKind::MissingSelector => "Missing selector string"@,
        ParseErrorKind::MissingLocation => "Missing location"@,
        ParseErrorKind::InvalidLocation => "Invalid location"@,
        ParseErrorKind::MissingName => "Missing field name"@,
        ParseErrorKind::InvalidSelect => "Invalid select element number"@,
    }
}

impl ParseError {
    pub fn new(step: &str, kind: ParseErrorKind) -> (r: ParseError)
        ensures
            r@ == (ErrorModel { step: step@, kind }),
    {
        ParseError { step: String::from_str(step), kind }
    }

    /// What went wrong, in words.
    pub fn message(&self) -> (r: String)
        ensures
            r@ == message_of(self.kind),
    {
        let text = match self.kind {
            ParseErrorKind::MissingStart => "First path command must be a start!",
            ParseErrorKind::UnknownCommand => "Invalid command",
            ParseErrorKind::MissingOpenBracket => "Command must start with opening bracket",
            ParseErrorKind::MissingCloseBracket => "Unclosed parentheses",
            ParseErrorKind::MissingSelector => "Missing selector string",
            ParseErrorKind::MissingLocation => "Missing location",
            ParseErrorKind::InvalidLocation => "Invalid location",
            ParseErrorKind::MissingName => "Missing field name",
            ParseErrorKind::InvalidSelect => "Invalid select element number",
        };
        String::from_str(text)
    }
}

/// The diagnostics as values.
pub open spec fn errors_of(e: Seq<ParseError>) -> Seq<ErrorModel> {
    e.map_values(|x: ParseError| x@)
}

/// The text between the first `(` and the last `)` of a step.
pub open spec fn inner_of(t: Seq<char>) -> Result<Seq<char>, ParseErrorKind> {
    let o = first_index(t, '(');
    let c = last_index(t, ')');
    if o < 0 {
        Err(ParseErrorKind::MissingOpenBracket)
    } else if c < o + 1 {
        Err(ParseErrorKind::MissingCloseBracket)
    } else {
        Ok(t.subrange(o + 1, c))
    }
}

/// One argument `KEY:VALUE`, cut at its first `:`; nothing without a `:`.
pub open spec fn arg_of(piece: Seq<char>) -> Option<(Seq<char>, Seq<char>)> {
    let i = first_index(piece, ':');
    if i < 0 {
        None
    } else {
        Some((piece.subrange(0, i), piece.subrange(i + 1, piece.len() as int)))
    }
}

/// The arguments of the comma-separated pieces, in order.
pub open spec fn args_from(pieces: Seq<Seq<char>>) -> Seq<(Seq<char>, Seq<char>)>
    decreases pieces.len(),
{
    if pieces.len() == 0 {
        Seq::empty()
    } else {
        let rest = args_from(pieces.drop_last());
        match arg_of(pieces.last()) {
            Some(a) => rest.push(a),
            None => rest,
        }
    }
}

/// The arguments of a step.
pub open spec fn args_of(t: Seq<char>) -> Result<Seq<(Seq<char>, Seq<char>)>, ParseErrorKind> {
    match inner_of(t) {
        Ok(i) => Ok(args_from(split_on(i, seq![',']))),
        Err(e) => Err(e),
    }
}

/// The value of the last argument whose key is the word `w`.
pub open spec fn arg_value(args: Seq<(Seq<char>, Seq<char>)>, w: Seq<char>) -> Option<Seq<char>>
    decreases args.len(),
{
    if args.len() == 0 {
        None
    } else if is_word(args.last().0, w) {
        Some(args.last().1)
    } else {
        arg_value(args.drop_last(), w)
    }
}

pub open spec fn selector_of(args: Seq<(Seq<char>, Seq<char>)>) -> Result<Seq<char>, ParseErrorKind> {
    match arg_value(args, "selector"@) {
        Some(v) => Ok(lower_of(v)),
        None => Err(ParseErrorKind::MissingSelector),
    }
}

pub open spec fn name_of(args: Seq<(Seq<char>, Seq<char>)>) -> Result<Seq<char>, ParseErrorKind> {
    match arg_value(args, "name"@) {
        Some(v) => Ok(lower_of(v)),
        None => Err(ParseErrorKind::MissingName),
    }
}

/// The element index of `SELECT`; 0 without it.
pub open spec fn number_of(args: Seq<(Seq<char>, Seq<char>)>) -> Result<i32, ParseErrorKind> {
    match arg_value(args, "select"@) {
        Some(v) => match i32_of(v) {
            Some(n) => Ok(n),
            None => Err(ParseErrorKind::InvalidSelect),
        },
        None => Ok(0),
    }
}

/// `SELECT` as a number or as `ALL(delimiter)`; the first element without it.
pub open spec fn selection_of(args: Seq<(Seq<char>, Seq<char>)>) -> Result<
    SelectionModel,
    ParseErrorKind,
> {
    match arg_value(args, "select"@) {
        Some(v) => if starts_with_word(v, "all"@) {
            match inner_of(v) {
                Ok(d) => Ok(SelectionModel::All(lower_of(d))),
                Err(e) => Err(e),
            }
        } else {
            match i32_of(v) {
                Some(n) => Ok(SelectionModel::Single(n)),
                None => Err(ParseErrorKind::InvalidSelect),
            }
        },
        None => Ok(SelectionModel::Single(0)),
    }
}

/// `LOC` as `TEXT` or `ATTR(name)`.
pub open spec fn location_of(args: Seq<(Seq<char>, Seq<char>)>) -> Result<
    TargetModel,
    ParseErrorKind,
> {
    match arg_value(args, "loc"@) {
        Some(v) => if starts_with_word(v, "text"@) {
            Ok(TargetModel::Text)
        } else if starts_with_word(v, "attr"@) {
            match inner_of(v) {
                Ok(a) => Ok(TargetModel::Attr(lower_of(a))),
                Err(e) => Err(e),
            }
        } else {
            Err(ParseErrorKind::InvalidLocation)
        },
        None => Err(ParseErrorKind::MissingLocation),
    }
}

/// The destination of a `START` or `DESCEND` step.
pub open spec fn destination_of(t: Seq<char>) -> Result<DestinationModel, ParseErrorKind> {
    match args_of(t) {
        Err(e) => Err(e),
        Ok(a) => match selector_of(a) {
            Err(e) => Err(e),
            Ok(q) => match number_of(a) {
                Err(e) => Err(e),
                Ok(n) => Ok(DestinationModel { query: q, selection: SelectionModel::Single(n) }),
            },
        },
    }
}

/// The field of a `FIND` step.
pub open spec fn find_of(t: Seq<char>) -> Result<FieldModel, ParseErrorKind> {
    match args_of(t) {
        Err(e) => Err(e),
        Ok(a) => match selector_of(a) {
            Err(e) => Err(e),
            Ok(q) => match location_of(a) {
                Err(e) => Err(e),
                Ok(l) => match selection_of(a) {
                    Err(e) => Err(e),
                    Ok(s) => Ok(
                        FieldModel {
                            destination: DestinationModel { query: q, selection: s },
                            target: l,
                        },
                    ),
                },
            },
        },
    }
}

/// The named field of a `POPULATE` step.
pub open spec fn populate_of(t: Seq<char>) -> Result<(Seq<char>, FieldModel), ParseErrorKind> {
    match args_of(t) {
        Err(e) => Err(e),
        Ok(a) => match selector_of(a) {
            Err(e) => Err(e),
            Ok(q) => match location_of(a) {
                Err(e) => Err(e),
                Ok(l) => match name_of(a) {
                    Err(e) => Err(e),
                    Ok(n) => match selection_of(a) {
                        Err(e) => Err(e),
                        Ok(s) => Ok(
                            (
                                n,
                                FieldModel {
                                    destination: DestinationModel { query: q, selection: s },
                                    target: l,
                                },
                            ),
                        ),
                    },
                },
            },
        },
    }
}

/// What compiling has gathered so far: the steps in order, the fields of all
/// `POPULATE` steps, and the diagnostics.
pub struct CompileState {
    pub steps: Seq<StepModel>,
    pub fields: Seq<(Seq<char>, FieldModel)>,
    pub errors: Seq<ErrorModel>,
}

/// `s` with one diagnostic more.
pub open spec fn failed(s: CompileState, t: Seq<char>, e: ParseErrorKind) -> CompileState {
    CompileState {
        steps: s.steps,
        fields: s.fields,
        errors: s.errors.push(ErrorModel { step: t, kind: e }),
    }
}

/// Compiling one step after the first.
pub open spec fn absorb(s: CompileState, t: Seq<char>) -> CompileState {
    if starts_with_word(t, "descend"@) {
        match destination_of(t) {
            Ok(d) => CompileState {
                steps: s.steps.push(StepModel::Descend(d)),
                fields: s.fields,
                errors: s.errors,
            },
            Err(e) => failed(s, t, e),
        }
    } else if starts_with_word(t, "find"@) {
        match find_of(t) {
            Ok(f) => CompileState {
                steps: s.steps.push(StepModel::Find(f)),
                fields: s.fields,
                errors: s.errors,
            },
            Err(e) => failed(s, t, e),
        }
    } else if starts_with_word(t, "populate"@) {
        match populate_of(t) {
            Ok(nf) => CompileState {
                steps: s.steps,
                fields: put(s.fields, nf.0, nf.1),
                errors: s.errors,
            },
            Err(e) => failed(s, t, e),
        }
    } else {
        failed(s, t, ParseErrorKind::UnknownCommand)
    }
}

/// Compiling the steps `ts` in order.
pub open spec fn absorb_all(s: CompileState, ts: Seq<Seq<char>>) -> CompileState
    decreases ts.len(),
{
    if ts.len() == 0 {
        s
    } else {
        absorb(absorb_all(s, ts.drop_last()), ts.last())
    }
}

/// The steps of a path text: whitespace removed, cut at every `->`.
pub open spec fn tokens_of(text: Seq<char>) -> Seq<Seq<char>> {
    split_on(without_white(text), seq!['-', '>'])
}

/// The first step is a `START` step that compiles.
pub open spec fn started(ts: Seq<Seq<char>>) -> bool {
    starts_with_word(ts[0], "start"@) && destination_of(ts[0]) is Ok
}

/// Compiling all steps of `ts`.
pub open spec fn compile_tokens(ts: Seq<Seq<char>>) -> CompileState {
    let first = ts[0];
    let none = Seq::<StepModel>::empty();
    let no_fields = Seq::<(Seq<char>, FieldModel)>::empty();
    let missing = ErrorModel { step: first, kind: ParseErrorKind::MissingStart };
    if starts_with_word(first, "start"@) {
        match destination_of(first) {
            Ok(d) => absorb_all(
                CompileState {
                    steps: seq![StepModel::Start(d)],
                    fields: no_fields,
                    errors: Seq::empty(),
                },
                ts.drop_first(),
            ),
            Err(e) => absorb_all(
                CompileState {
                    steps: none,
                    fields: no_fields,
                    errors: seq![ErrorModel { step: first, kind: e }, missing],
                },
                ts.drop_first(),
            ),
        }
    } else {
        absorb_all(CompileState { steps: none, fields: no_fields, errors: seq![missing] }, ts)
    }
}

/// The compiled path of the steps `ts`: nothing unless the first step is a
/// valid `START`; else the steps in order, then one `Populate` step with
/// every populated field, if there is any.
pub open spec fn path_model(ts: Seq<Seq<char>>) -> Seq<StepModel> {
    let s = compile_tokens(ts);
    if !started(ts) {
        Seq::empty()
    } else if s.fields.len() > 0 {
        s.steps.push(StepModel::Populate(s.fields))
    } else {
        s.steps
    }
}

/// The diagnostics of compiling the steps `ts`, in order.
pub open spec fn diagnostics(ts: Seq<Seq<char>>) -> Seq<ErrorModel> {
    compile_tokens(ts).errors
}

/// The compiled path of a path text.
pub open spec fn compiled_path(text: Seq<char>) -> Seq<StepModel> {
    path_model(tokens_of(text))
}

/// The diagnostics of a path text.
pub open spec fn compile_errors(text: Seq<char>) -> Seq<ErrorModel> {
    diagnostics(tokens_of(text))
}

/// Arguments as values.
pub open spec fn pairs_view(v: Seq<(Vec<char>, Vec<char>)>) -> Seq<(Seq<char>, Seq<char>)> {
    v.map_values(|p: (Vec<char>, Vec<char>)| (p.0@, p.1@))
}

fn inner_exec(t: &[char]) -> (r: Result<Vec<char>, ParseErrorKind>)
    ensures
        match r {
            Ok(v) => inner_of(t@) == Ok::<Seq<char>, ParseErrorKind>(v@),
            Err(e) => inner_of(t@) == Err::<Seq<char>, ParseErrorKind>(e),
        },
{
    let n = t.len();
    let o = match first_index_of(t, '(') {
        Some(o) => o,
        None => {
            return Err(ParseErrorKind::MissingOpenBracket);
        },
    };
    match last_index_of(t, ')') {
        Some(c) => {
            if c < o + 1 {
                Err(ParseErrorKind::MissingCloseBracket)
            } else {
                Ok(slice_of(t, o + 1, c))
            }
        },
        None => Err(ParseErrorKind::MissingCloseBracket),
    }
}

fn arg_exec(piece: &[char]) -> (r: Option<(Vec<char>, Vec<char>)>)
    ensures
        match r {
            Some(p) => arg_of(piece@) == Some((p.0@, p.1@)),
            None => arg_of(piece@) is None,
        },
{
    let n = piece.len();
    match first_index_of(piece, ':') {
        Some(i) => Some((slice_of(piece, 0, i), slice_of(piece, i + 1, n))),
        None => None,
    }
}

fn args_exec(t: &[char]) -> (r: Result<Vec<(Vec<char>, Vec<char>)>, ParseErrorKind>)
    ensures
        match r {
            Ok(a) => args_of(t@) == Ok::<_, ParseErrorKind>(pairs_view(a@)),
            Err(e) => args_of(t@) == Err::<Seq<(Seq<char>, Seq<char>)>, ParseErrorKind>(e),
        },
{
    let inner = match inner_exec(t) {
        Ok(i) => i,
        Err(e) => {
            return Err(e);
        },
    };
    let comma = vec![','];
    let pieces = split_chars(inner.as_slice(), comma.as_slice());
    let ghost all = split_on(inner@, seq![',']);
    assert(comma@ == seq![',']);
    let mut args: Vec<(Vec<char>, Vec<char>)> = Vec::new();
    let mut i: usize = 0;
    while i < pieces.len()
        invariant
            i <= pieces@.len() == all.len(),
            forall|j: int| 0 <= j < pieces@.len() ==> #[trigger] pieces@[j]@ == all[j],
            pairs_view(args@) == args_from(all.subrange(0, i as int)),
        decreases pieces.len() - i,
    {
        let ghost pre = all.subrange(0, i + 1);
        assert(pre.drop_last() =~= all.subrange(0, i as int));
        assert(pre.last() == pieces@[i as int]@);
        match arg_exec(pieces[i].as_slice()) {
            Some(p) => {
                args.push(p);
                assert(pairs_view(args@) =~= args_from(pre));
            },
            None => {},
        }
        i = i + 1;
    }
    assert(all.subrange(0, all.len() as int) =~= all);
    Ok(args)
}

fn arg_lookup<'a>(args: &'a Vec<(Vec<char>, Vec<char>)>, w: &str) -> (r: Option<&'a Vec<char>>)
    ensures
        match r {
            Some(v) => arg_value(pairs_view(args@), w@) == Some(v@),
            None => arg_value(pairs_view(args@), w@) is None,
        },
{
    let ghost all = pairs_view(args@);
    let mut i: usize = args.len();
    assert(all.subrange(0, all.len() as int) =~= all);
    while i > 0
        invariant
            i <= args@.len() == all.len(),
            all == pairs_view(args@),
            arg_value(all, w@) == arg_value(all.subrange(0, i as int), w@),
        decreases i,
    {
        let ghost pre = all.subrange(0, i as int);
        assert(pre.drop_last() =~= all.subrange(0, i - 1));
        assert(pre.last() == all[i - 1]);
        if is_word_exec(args[i - 1].0.as_slice(), w) {
            return Some(&args[i - 1].1);
        }
        i = i - 1;
    }
    None
}

fn selector_exec(args: &Vec<(Vec<char>, Vec<char>)>) -> (r: Result<String, ParseErrorKind>)
    ensures
        match r {
            Ok(s) => selector_of(pairs_view(args@)) == Ok::<_, ParseErrorKind>(s@),
            Err(e) => selector_of(pairs_view(args@)) == Err::<Seq<char>, _>(e),
        },
{
    match arg_lookup(args, "selector") {
        Some(v) => Ok(lowercase_of(v.as_slice())),
        None => Err(ParseErrorKind::MissingSelector),
    }
}

fn name_exec(args: &Vec<(Vec<char>, Vec<char>)>) -> (r: Result<String, ParseErrorKind>)
    ensures
        match r {
            Ok(s) => name_of(pairs_view(args@)) == Ok::<_, ParseErrorKind>(s@),
            Err(e) => name_of(pairs_view(args@)) == Err::<Seq<char>, _>(e),
        },
{
    match arg_lookup(args, "name") {
        Some(v) => Ok(lowercase_of(v.as_slice())),
        None => Err(ParseErrorKind::MissingName),
    }
}

fn number_exec(args: &Vec<(Vec<char>, Vec<char>)>) -> (r: Result<i32, ParseErrorKind>)
    ensures
        r == number_of(pairs_view(args@)),
{
    match arg_lookup(args, "select") {
        Some(v) => match parse_i32(v.as_slice()) {
            Some(n) => Ok(n),
            None => Err(ParseErrorKind::InvalidSelect),
        },
        None => Ok(0),
    }
}

fn selection_exec(args: &Vec<(Vec<char>, Vec<char>)>) -> (r: Result<
    ElementSelection,
    ParseErrorKind,
>)
    ensures
        match r {
            Ok(s) => selection_of(pairs_view(args@)) == Ok::<_, ParseErrorKind>(s@),
            Err(e) => selection_of(pairs_view(args@)) == Err::<SelectionModel, _>(e),
        },
{
    match arg_lookup(args, "select") {
        Some(v) => {
            if starts_with_word_exec(v.as_slice(), "all") {
                match inner_exec(v.as_slice()) {
                    Ok(d) => Ok(ElementSelection::All(lowercase_of(d.as_slice()))),
                    Err(e) => Err(e),
                }
            } else {
                match parse_i32(v.as_slice()) {
                    Some(n) => Ok(ElementSelection::Single(n)),
                    None => Err(ParseErrorKind::InvalidSelect),
                }
            }
        },
        None => Ok(ElementSelection::Single(0)),
    }
}

fn location_exec(args: &Vec<(Vec<char>, Vec<char>)>) -> (r: Result<
    DestinationLocation,
    ParseErrorKind,
>)
    ensures
        match r {
            Ok(l) => location_of(pairs_view(args@)) == Ok::<_, ParseErrorKind>(l@),
            Err(e) => location_of(pairs_view(args@)) == Err::<TargetModel, _>(e),
        },
{
    match arg_lookup(args, "loc") {
        Some(v) => {
            if starts_with_word_exec(v.as_slice(), "text") {
                Ok(DestinationLocation::Text)
            } else if starts_with_word_exec(v.as_slice(), "attr") {
                match inner_exec(v.as_slice()) {
                    Ok(a) => Ok(DestinationLocation::Attr(lowercase_of(a.as_slice()))),
                    Err(e) => Err(e),
                }
            } else {
                Err(ParseErrorKind::InvalidLocation)
            }
        },
        None => Err(ParseErrorKind::MissingLocation),
    }
}

fn destination_exec(t: &[char]) -> (r: Result<Destination, ParseErrorKind>)
    ensures
        match r {
            Ok(d) => destination_of(t@) == Ok::<_, ParseErrorKind>(d@),
            Err(e) => destination_of(t@) == Err::<DestinationModel, _>(e),
        },
{
    let args = match args_exec(t) {
        Ok(a) => a,
        Err(e) => {
            return Err(e);
        },
    };
    let selector = match selector_exec(&args) {
        Ok(s) => s,
        Err(e) => {
            return Err(e);
        },
    };
    match number_exec(&args) {
        Ok(n) => Ok(Destination(selector, ElementSelection::Single(n))),
        Err(e) => Err(e),
    }
}

fn find_exec(t: &[char]) -> (r: Result<FieldIdentity, ParseErrorKind>)
    ensures
        match r {
            Ok(f) => find_of(t@) == Ok::<_, ParseErrorKind>(f@),
            Err(e) => find_of(t@) == Err::<FieldModel, _>(e),
        },
{
    let args = match args_exec(t) {
        Ok(a) => a,
        Err(e) => {
            return Err(e);
        },
    };
    let selector = match selector_exec(&args) {
        Ok(s) => s,
        Err(e) => {
            return Err(e);
        },
    };
    let location = match location_exec(&args) {
        Ok(l) => l,
        Err(e) => {
            return Err(e);
        },
    };
    match selection_exec(&args) {
        Ok(s) => Ok(
            FieldIdentity { destination: Destination(selector, s), destination_location: location },
        ),
        Err(e) => Err(e),
    }
}

fn populate_exec(t: &[char]) -> (r: Result<(String, FieldIdentity), ParseErrorKind>)
    ensures
        match r {
            Ok(nf) => populate_of(t@) == Ok::<_, ParseErrorKind>((nf.0@, nf.1@)),
            Err(e) => populate_of(t@) == Err::<(Seq<char>, FieldModel), _>(e),
        },
{
    let args = match args_exec(t) {
        Ok(a) => a,
        Err(e) => {
            return Err(e);
        },
    };
    let selector = match selector_exec(&args) {
        Ok(s) => s,
        Err(e) => {
            return Err(e);
        },
    };
    let location = match location_exec(&args) {
        Ok(l) => l,
        Err(e) => {
            return Err(e);
        },
    };
    let name = match name_exec(&args) {
        Ok(n) => n,
        Err(e) => {
            return Err(e);
        },
    };
    match selection_exec(&args) {
        Ok(s) => Ok(
            (
                name,
                FieldIdentity {
                    destination: Destination(selector, s),
                    destination_location: location,
                },
            ),
        ),
        Err(e) => Err(e),
    }
}

/// The state of compiling as a value.
pub open spec fn state_of(steps: Seq<PathStep>, fields: Seq<(Seq<char>, FieldModel)>, errors: Seq<
    ParseError,
>) -> CompileState {
    CompileState { steps: steps_of(steps), fields: fields, errors: errors_of(errors) }
}

fn push_error(errors: &mut Vec<ParseError>, t: &[char], kind: ParseErrorKind)
    ensures
        errors_of(final(errors)@) == errors_of(old(errors)@).push(ErrorModel { step: t@, kind }),
{
    errors.push(ParseError { step: string_of(t), kind });
    assert(errors_of(errors@) =~= errors_of(old(errors)@).push(ErrorModel { step: t@, kind }));
}

fn push_step(steps: &mut Vec<PathStep>, s: PathStep)
    ensures
        steps_of(final(steps)@) == steps_of(old(steps)@).push(s@),
{
    let ghost v = s@;
    steps.push(s);
    assert(steps_of(steps@) =~= steps_of(old(steps)@).push(v));
}

fn absorb_exec(
    steps: &mut Vec<PathStep>,
    fields: &mut Table<FieldIdentity>,
    errors: &mut Vec<ParseError>,
    t: &[char],
)
    requires
        old(fields).wf(),
    ensures
        final(fields).wf(),
        state_of(final(steps)@, final(fields)@, final(errors)@) == absorb(
            state_of(old(steps)@, old(fields)@, old(errors)@),
            t@,
        ),
{
    if starts_with_word_exec(t, "descend") {
        match destination_exec(t) {
            Ok(d) => push_step(steps, PathStep::Descend(d)),
            Err(e) => push_error(errors, t, e),
        }
    } else if starts_with_word_exec(t, "find") {
        match find_exec(t) {
            Ok(f) => push_step(steps, PathStep::Find(f)),
            Err(e) => push_error(errors, t, e),
        }
    } else if starts_with_word_exec(t, "populate") {
        match populate_exec(t) {
            Ok(nf) => fields.insert(nf.0, nf.1),
            Err(e) => push_error(errors, t, e),
        }
    } else {
        push_error(errors, t, ParseErrorKind::UnknownCommand);
    }
}

/// Compiles one path text, step by step.
pub struct PathResolver {
    path_tokens: Vec<Vec<char>>,
    /// The diagnostics gathered so far.
    pub errors: Vec<ParseError>,
}

impl PathResolver {
    /// The steps of the text, as values.
    pub closed spec fn tokens(&self) -> Seq<Seq<char>> {
        self.path_tokens@.map_values(|t: Vec<char>| t@)
    }

    /// The diagnostics gathered so far, as values.
    pub closed spec fn gathered(&self) -> Seq<ErrorModel> {
        errors_of(self.errors@)
    }

    pub fn new(path_string: &str) -> (r: PathResolver)
        ensures
            r.tokens() == tokens_of(path_string@),
            r.tokens().len() > 0,
            r.gathered().len() == 0,
    {
        let chars = chars_of(path_string);
        let stripped = strip_white(chars.as_slice());
        let arrow = vec!['-', '>'];
        assert(arrow@ == seq!['-', '>']);
        let path_tokens = split_chars(stripped.as_slice(), arrow.as_slice());
        let r = PathResolver { path_tokens, errors: Vec::new() };
        assert(r.tokens() =~= tokens_of(path_string@));
        proof {
            lemma_split_on_nonempty(stripped@, arrow@);
        }
        r
    }

    /// Compiles the text: returns its path and adds its diagnostics, in
    /// order, to `errors`.
    pub fn resolve(&mut self) -> (r: Vec<PathStep>)
        requires
            old(self).tokens().len() > 0,
        ensures
            steps_of(r@) == path_model(old(self).tokens()),
            final(self).gathered() == old(self).gathered() + diagnostics(old(self).tokens()),
            final(self).tokens() == old(self).tokens(),
    {
        let ghost ts = self.tokens();
        let mut steps: Vec<PathStep> = Vec::new();
        let mut fields: Table<FieldIdentity> = Table::new();
        let mut errors: Vec<ParseError> = Vec::new();
        let first = self.path_tokens[0].as_slice();
        assert(first@ == ts[0]);
        let mut is_started = false;
        let mut next: usize = 0;
        let ghost no_fields = Seq::<(Seq<char>, FieldModel)>::empty();
        let ghost missing = ErrorModel { step: ts[0], kind: ParseErrorKind::MissingStart };
        assert(steps_of(steps@) =~= Seq::<StepModel>::empty());
        assert(errors_of(errors@) =~= Seq::<ErrorModel>::empty());
        let ghost expected: CompileState;
        if starts_with_word_exec(first, "start") {
            match destination_exec(first) {
                Ok(d) => {
                    let ghost dv = d@;
                    push_step(&mut steps, PathStep::Start(d));
                    is_started = true;
                    proof {
                        expected = CompileState {
                            steps: seq![StepModel::Start(dv)],
                            fields: no_fields,
                            errors: Seq::empty(),
                        };
                        assert(steps_of(steps@) =~= expected.steps);
                    }
                },
                Err(e) => {
                    push_error(&mut errors, first, e);
                    push_error(&mut errors, first, ParseErrorKind::MissingStart);
                    proof {
                        expected = CompileState {
                            steps: Seq::empty(),
                            fields: no_fields,
                            errors: seq![ErrorModel { step: ts[0], kind: e }, missing],
                        };
                        assert(errors_of(errors@) =~= expected.errors);
                    }
                },
            }
            next = 1;
        } else {
            push_error(&mut errors, first, ParseErrorKind::MissingStart);
            proof {
                expected = CompileState {
                    steps: Seq::empty(),
                    fields: no_fields,
                    errors: seq![missing],
                };
                assert(errors_of(errors@) =~= expected.errors);
            }
        }
        let ghost init = state_of(steps@, fields@, errors@);
        let ghost rest = ts.subrange(next as int, ts.len() as int);
        proof {
            assert(fields@ =~= no_fields);
            assert(init == expected);
            if next == 1 {
                assert(rest =~= ts.drop_first());
            } else {
                assert(rest =~= ts);
            }
            assert(absorb_all(init, rest) == compile_tokens(ts));
            assert(is_started == started(ts));
        }
        let mut i: usize = next;
        while i < self.path_tokens.len()
            invariant
                next <= i <= self.path_tokens@.len() == ts.len(),
                absorb_all(init, rest) == compile_tokens(ts),
                is_started == started(ts),
                ts == self.tokens(),
                rest == ts.subrange(next as int, ts.len() as int),
                fields.wf(),
                state_of(steps@, fields@, errors@) == absorb_all(
                    init,
                    ts.subrange(next as int, i as int),
                ),
            decreases self.path_tokens.len() - i,
        {
            let ghost pre = ts.subrange(next as int, i + 1);
            assert(pre.drop_last() =~= ts.subrange(next as int, i as int));
            assert(pre.last() == self.path_tokens@[i as int]@);
            absorb_exec(&mut steps, &mut fields, &mut errors, self.path_tokens[i].as_slice());
            i = i + 1;
        }
        assert(ts.subrange(next as int, ts.len() as int) == rest);
        self.errors.append(&mut errors);
        let ghost final_errors = self.errors@;
        assert(errors_of(final_errors) =~= errors_of(old(self).errors@) + diagnostics(ts));
        if !is_started {
            let r: Vec<PathStep> = Vec::new();
            assert(steps_of(r@) =~= path_model(ts));
            return r;
        }
        if fields.len() > 0 {
            push_step(&mut steps, PathStep::Populate(fields));
        }
        steps
    }
}

/// Compiles a path text: its path and its diagnostics, in order.
pub fn compile(text: &str) -> (r: (Vec<PathStep>, Vec<ParseError>))
    ensures
        steps_of(r.0@) == compiled_path(text@),
        errors_of(r.1@) == compile_errors(text@),
{
    let mut resolver = PathResolver::new(text);
    let path = resolver.resolve();
    assert(errors_of(resolver.errors@) =~= compile_errors(text@));
    (path, resolver.errors)
}


/// The settings of an extraction, as loaded from a configuration file.
pub struct Meta {
    /// `single` or `multiple`.
    pub populator: String,
    /// The path text that finds the links to follow (for `multiple`).
    pub link_path: Option<String>,
    pub base_url: String,
    /// The paging extension; paging goes on until a page yields nothing.
    pub paging: Option<String>,
    /// Put in front of every link found.
    pub prepend_links: Option<String>,
}

/// A configuration: settings, path texts, and standalone fields given as
/// field name and selector; a standalone field takes the text of the first match.
pub struct Config {
    pub meta: Meta,
    pub paths: Vec<String>,
    pub fields: Table<String>,
}

/// Why a configuration cannot be run.
#[derive(PartialEq, Eq, Structural, Clone, Copy, Debug)]
pub enum ConfigError {
    /// The populator kind is neither `single` nor `multiple`.
    UnknownPopulator,
    /// A `multiple` populator without a link path.
    MissingLinkPath,
}

/// A populator built from a configuration.
pub enum Populator {
    Single(SinglePopulator),
    Multiple(MultiplePopulator),
}

/// A standalone field that takes the text of the first match of `selector`.
pub open spec fn text_field(selector: Seq<char>) -> FieldModel {
    FieldModel {
        destination: DestinationModel { query: selector, selection: SelectionModel::Single(0) },
        target: TargetModel::Text,
    }
}

/// The standalone fields of a configuration, set in order.
pub open spec fn text_fields(fields: Seq<(Seq<char>, Seq<char>)>) -> Seq<(Seq<char>, FieldModel)>
    decreases fields.len(),
{
    if fields.len() == 0 {
        Seq::empty()
    } else {
        put(text_fields(fields.drop_last()), fields.last().0, text_field(fields.last().1))
    }
}

/// The search of a configuration: its path texts compiled, in order, and its
/// standalone fields.
pub open spec fn config_search(paths: Seq<Seq<char>>, fields: Seq<(Seq<char>, Seq<char>)>) -> SearchModel {
    SearchModel { paths: paths.map_values(|p: Seq<char>| compiled_path(p)), fields: text_fields(fields) }
}

/// Builds populators from a configuration.
pub struct Parser {
    config: Config,
    errors: Vec<ParseError>,
}

impl Parser {
    pub closed spec fn settings(&self) -> &Config {
        &self.config
    }

    /// The path texts of the configuration, as values.
    pub closed spec fn path_texts(&self) -> Seq<Seq<char>> {
        strings_of_vec(self.config.paths@)
    }

    pub closed spec fn gathered(&self) -> Seq<ErrorModel> {
        errors_of(self.errors@)
    }

    pub fn new(config: Config) -> (r: Parser)
        ensures
            r.settings() == config,
            r.gathered().len() == 0,
    {
        let r = Parser { config, errors: Vec::new() };
        assert(r.gathered() =~= Seq::<ErrorModel>::empty());
        r
    }

    /// The diagnostics of the path texts compiled so far.
    pub fn errors(&self) -> (r: &Vec<ParseError>)
        ensures
            errors_of(r@) == self.gathered(),
    {
        &self.errors
    }

    /// The search of the configuration: its paths and standalone fields.
    fn build_search(&mut self) -> (r: SearchDetail)
        requires
            old(self).settings().fields.wf(),
        ensures
            r.wf(),
            r@ == config_search(
                strings_of_vec(old(self).settings().paths@),
                old(self).settings().fields@,
            ),
            final(self).settings() == old(self).settings(),
    {
        let ghost texts = strings_of_vec(self.config.paths@);
        let mut details = SearchDetail::new();
        let mut i: usize = 0;
        while i < self.config.paths.len()
            invariant
                i <= self.config.paths@.len() == texts.len(),
                self.config == old(self).config,
                texts == strings_of_vec(self.config.paths@),
                details.wf(),
                details@.fields.len() == 0,
                details@.paths == texts.subrange(0, i as int).map_values(
                    |p: Seq<char>| compiled_path(p),
                ),
            decreases self.config.paths.len() - i,
        {
            let (path, mut errors) = compile(self.config.paths[i].as_str());
            details.insert_path(path);
            assert(details@.paths =~= texts.subrange(0, i + 1).map_values(
                |p: Seq<char>| compiled_path(p),
            ));
            self.errors.append(&mut errors);
            i = i + 1;
        }
        assert(texts.subrange(0, texts.len() as int) =~= texts);
        let ghost fs = self.config.fields@;
        let mut j: usize = 0;
        while j < self.config.fields.len()
            invariant
                j <= self.config.fields@.len(),
                self.config == old(self).config,
                fs == self.config.fields@,
                texts == strings_of_vec(self.config.paths@),
                details.wf(),
                details@.paths == texts.map_values(|p: Seq<char>| compiled_path(p)),
                details@.fields == text_fields(fs.subrange(0, j as int)),
            decreases self.config.fields@.len() - j,
        {
            let ghost pre = fs.subrange(0, j + 1);
            assert(pre.drop_last() =~= fs.subrange(0, j as int));
            details.insert_field(
                self.config.fields.name_at(j).as_str(),
                self.config.fields.value_at(j).as_str(),
                DestinationLocation::Text,
                ElementSelection::Single(0),
            );
            j = j + 1;
        }
        assert(fs.subrange(0, fs.len() as int) =~= fs);
        details
    }

    /// Builds the populator that the configuration names: `single` populates
    /// from the base address; `multiple` crawls the links that the link path
    /// finds there, in parallel, paging while pages yield records if paging is
    /// set. Compile diagnostics are added to `errors`.
    pub fn build(&mut self) -> (r: Result<Populator, ConfigError>)
        requires
            old(self).settings().fields.wf(),
        ensures
            final(self).settings() == old(self).settings(),
            ({
                let meta = &old(self).settings().meta;
                let search = config_search(
                    strings_of_vec(old(self).settings().paths@),
                    old(self).settings().fields@,
                );
                if meta.populator@ == "single"@ {
                    r matches Ok(Populator::Single(p)) && p.wf() && p.address() == meta.base_url@
                        && p.search() == search && p.found().fields.len() == 0
                } else if meta.populator@ == "multiple"@ {
                    match meta.link_path {
                        None => r == Err::<Populator, ConfigError>(ConfigError::MissingLinkPath),
                        Some(lp) => r matches Ok(Populator::Multiple(p)) && p.wf() && p@.url
                            == meta.base_url@ && p@.links_path == compiled_path(lp@) && p@.prefix
                            == (match meta.prepend_links {
                            Some(x) => Some(x@),
                            None => None,
                        }) && p@.search == search && p@.paging == (match meta.paging {
                            Some(x) => PagingModel::Indefinite(x@),
                            None => PagingModel::Disabled,
                        }) && p@.parallel && p@.records.len() == 0 && p@.phase
                            == crate::populator::PhaseModel::Ready,
                    }
                } else {
                    r == Err::<Populator, ConfigError>(ConfigError::UnknownPopulator)
                }
            }),
    {
        let single = String::from_str("single");
        let multiple = String::from_str("multiple");
        if self.config.meta.populator == single {
            let search = self.build_search();
            let p = SinglePopulator::new(self.config.meta.base_url.as_str(), search);
            return Ok(Populator::Single(p));
        }
        if self.config.meta.populator != multiple {
            return Err(ConfigError::UnknownPopulator);
        }
        let link_text = match &self.config.meta.link_path {
            Some(lp) => lp.clone(),
            None => {
                return Err(ConfigError::MissingLinkPath);
            },
        };
        let (links_path, mut errors) = compile(link_text.as_str());
        self.errors.append(&mut errors);
        let search = self.build_search();
        let prefix = match &self.config.meta.prepend_links {
            Some(x) => Some(x.clone()),
            None => None,
        };
        let populator = match &self.config.meta.paging {
            Some(ext) => MultiplePopulator::new_with_paging(
                self.config.meta.base_url.as_str(),
                links_path,
                prefix,
                search,
                true,
                PagingOptions { extension: ext.clone(), range: PagingRange::Indefinite },
            ),
            None => MultiplePopulator::new(
                self.config.meta.base_url.as_str(),
                links_path,
                prefix,
                search,
                true,
            ),
        };
        Ok(Populator::Multiple(populator))
    }
}

/// Strings as values.
pub open spec fn strings_of_vec(v: Seq<String>) -> Seq<Seq<char>> {
    v.map_values(|s: String| s@)
}


proof fn lemma_absorb_keeps_steps(s: CompileState, ts: Seq<Seq<char>>)
    ensures
        absorb_all(s, ts).steps.len() >= s.steps.len(),
        forall|i: int| 0 <= i < s.steps.len() ==> #[trigger] absorb_all(s, ts).steps[i] == s.steps[i],
    decreases ts.len(),
{
    if ts.len() > 0 {
        lemma_absorb_keeps_steps(s, ts.drop_last());
    }
}

/// A text whose first step is a `START` step that compiles yields a path
/// whose first step is `Start`, with that step's query and index.
pub proof fn lemma_start_comes_first(text: Seq<char>)
    requires
        starts_with_word(tokens_of(text)[0], "start"@),
        destination_of(tokens_of(text)[0]) is Ok,
    ensures
        compiled_path(text).len() > 0,
        compiled_path(text)[0] == StepModel::Start(destination_of(tokens_of(text)[0])->Ok_0),
{
    let ts = tokens_of(text);
    lemma_split_on_nonempty(without_white(text), seq!['-', '>']);
    let d = destination_of(ts[0])->Ok_0;
    let init = CompileState {
        steps: seq![StepModel::Start(d)],
        fields: Seq::empty(),
        errors: Seq::empty(),
    };
    lemma_absorb_keeps_steps(init, ts.drop_first());
    assert(compile_tokens(ts) == absorb_all(init, ts.drop_first()));
    assert(compile_tokens(ts).steps[0] == StepModel::Start(d));
}

/// Compiling the same text twice gives the same path and the same
/// diagnostics, step for step.
pub proof fn lemma_compile_deterministic(
    text: Seq<char>,
    first: (Vec<PathStep>, Vec<ParseError>),
    second: (Vec<PathStep>, Vec<ParseError>),
)
    requires
        steps_of(first.0@) == compiled_path(text),
        errors_of(first.1@) == compile_errors(text),
        steps_of(second.0@) == compiled_path(text),
        errors_of(second.1@) == compile_errors(text),
    ensures
        steps_of(first.0@) == steps_of(second.0@),
        errors_of(first.1@) == errors_of(second.1@),
{
}


/// `c` is none of the characters that delimit arguments.
pub open spec fn plain_char(c: char) -> bool {
    c != ',' && c != ':' && c != '(' && c != ')'
}

proof fn lemma_first_from_skip(x: Seq<char>, c: char, i: int, k: int)
    requires
        0 <= i <= k <= x.len(),
        forall|j: int| i <= j < k ==> #[trigger] x[j] != c,
    ensures
        first_from(x, c, i) == first_from(x, c, k),
    decreases k - i,
{
    if i < k {
        lemma_first_from_skip(x, c, i + 1, k);
    }
}

proof fn lemma_comma_at(x: Seq<char>, i: int)
    requires
        0 <= i < x.len(),
    ensures
        occurs_at(x, seq![','], i) <==> x[i] == ',',
{
    if x[i] == ',' {
        assert(x.subrange(i, i + 1) =~= seq![',']);
    }
    if occurs_at(x, seq![','], i) {
        assert(x.subrange(i, i + 1)[0] == x[i]);
    }
}

proof fn lemma_split_to_end(x: Seq<char>, start: int, i: int)
    requires
        0 <= start <= i <= x.len(),
        forall|j: int| i <= j < x.len() ==> #[trigger] x[j] != ',',
    ensures
        split_from(x, seq![','], start, i) == seq![x.subrange(start, x.len() as int)],
    decreases x.len() - i,
{
    if i < x.len() {
        lemma_comma_at(x, i);
        lemma_split_to_end(x, start, i + 1);
    }
}

proof fn lemma_split_at_comma(x: Seq<char>, start: int, i: int, p: int)
    requires
        0 <= start <= i <= p < x.len(),
        x[p] == ',',
        forall|j: int| i <= j < p ==> #[trigger] x[j] != ',',
    ensures
        split_from(x, seq![','], start, i) == seq![x.subrange(start, p)] + split_from(
            x,
            seq![','],
            p + 1,
            p + 1,
        ),
    decreases p - i,
{
    lemma_comma_at(x, i);
    if i < p {
        lemma_split_at_comma(x, start, i + 1, p);
    }
}

/// The argument `key:value` whose key holds no `:`.
proof fn lemma_arg_of_pair(key: Seq<char>, value: Seq<char>)
    requires
        forall|j: int| 0 <= j < key.len() ==> #[trigger] key[j] != ':',
    ensures
        arg_of(key + seq![':'] + value) == Some((key, value)),
{
    let piece = key + seq![':'] + value;
    assert forall|j: int| 0 <= j < key.len() implies #[trigger] piece[j] != ':' by {
        assert(piece[j] == key[j]);
    }
    lemma_first_from_skip(piece, ':', 0, key.len() as int);
    assert(piece[key.len() as int] == ':');
    assert(piece.subrange(0, key.len() as int) =~= key);
    assert(piece.subrange(key.len() as int + 1, piece.len() as int) =~= value);
}

/// A text whose first step reads `START(SELECTOR:s,SELECT:n)` once
/// whitespace is removed, where `s` and `n` hold none of `,:()` and `n` is
/// the decimal text of an `i32`, compiles to a path whose first step is
/// `Start` with the query `s` (lower-cased) and that index.
pub proof fn lemma_start_text(text: Seq<char>, s: Seq<char>, n: Seq<char>, k: i32)
    requires
        tokens_of(text)[0] == "START(SELECTOR:"@ + s + ",SELECT:"@ + n + ")"@,
        forall|j: int| 0 <= j < s.len() ==> plain_char(#[trigger] s[j]),
        forall|j: int| 0 <= j < n.len() ==> plain_char(#[trigger] n[j]),
        i32_of(n) == Some(k),
    ensures
        compiled_path(text).len() > 0,
        compiled_path(text)[0] == StepModel::Start(
            DestinationModel { query: lower_of(s), selection: SelectionModel::Single(k) },
        ),
{
    reveal_strlit("START(SELECTOR:");
    reveal_strlit(",SELECT:");
    reveal_strlit(")");
    reveal_strlit("start");
    reveal_strlit("selector");
    reveal_strlit("select");
    let t = tokens_of(text)[0];
    let sk = seq!['S', 'E', 'L', 'E', 'C', 'T', 'O', 'R'];
    let nk = seq!['S', 'E', 'L', 'E', 'C', 'T'];
    let piece1 = sk + seq![':'] + s;
    let piece2 = nk + seq![':'] + n;
    let inner = piece1 + seq![','] + piece2;
    assert(t =~= seq!['S', 'T', 'A', 'R', 'T', '('] + inner + seq![')']);
    // the brackets
    lemma_first_from_skip(t, '(', 0, 5);
    assert(first_index(t, '(') == 5);
    assert(last_index(t, ')') == t.len() - 1);
    assert(t.subrange(6, t.len() - 1) =~= inner);
    assert(inner_of(t) == Ok::<Seq<char>, ParseErrorKind>(inner));
    // the arguments
    let p = piece1.len() as int;
    assert forall|j: int| 0 <= j < p implies #[trigger] inner[j] != ',' by {
        if j > 8 {
            assert(inner[j] == s[j - 9]);
        }
    }
    assert forall|j: int| p + 1 <= j < inner.len() implies #[trigger] inner[j] != ',' by {
        if j > p + 7 {
            assert(inner[j] == n[j - p - 8]);
        }
    }
    lemma_split_at_comma(inner, 0, 0, p);
    lemma_split_to_end(inner, p + 1, p + 1);
    assert(inner.subrange(0, p) =~= piece1);
    assert(inner.subrange(p + 1, inner.len() as int) =~= piece2);
    let pieces = split_on(inner, seq![',']);
    assert(pieces == seq![piece1, piece2]);
    lemma_arg_of_pair(sk, s);
    lemma_arg_of_pair(nk, n);
    assert(pieces.drop_last() =~= seq![piece1]);
    assert(seq![piece1].drop_last() =~= Seq::<Seq<char>>::empty());
    let args = seq![(sk, s), (nk, n)];
    assert(pieces.last() == piece2);
    assert(seq![piece1].last() == piece1);
    assert(args_from(Seq::<Seq<char>>::empty()) == Seq::<(Seq<char>, Seq<char>)>::empty());
    assert(args_from(seq![piece1]) =~= seq![(sk, s)]);
    assert(args_from(pieces) == args_from(seq![piece1]).push((nk, n)));
    assert(args_from(pieces) =~= args);
    assert(args_of(t) == Ok::<_, ParseErrorKind>(args));
    // the keys
    assert(!is_word(nk, "selector"@));
    assert(args.drop_last() =~= seq![(sk, s)]);
    assert(args.last() == (nk, n));
    assert(seq![(sk, s)].last() == (sk, s));
    assert(is_word(sk, "selector"@));
    assert(arg_value(seq![(sk, s)], "selector"@) == Some(s));
    assert(arg_value(args, "selector"@) == Some(s));
    assert(is_word(nk, "select"@));
    assert(arg_value(args, "select"@) == Some(n));
    assert(destination_of(t) == Ok::<_, ParseErrorKind>(
        DestinationModel { query: lower_of(s), selection: SelectionModel::Single(k) },
    ));
    assert(starts_with_word(t, "start"@));
    lemma_start_comes_first(text);
}

} // verus!
