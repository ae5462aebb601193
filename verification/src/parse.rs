//! Errors of grammar parsing, and the result type of the parser.

use vstd::prelude::*;
use crate::bubble::Bubble;
use crate::constraint::{Constraint, ConstraintView};
use crate::value::{path_view, Value, ValueView};

verus! {

/// The diagnostic of `regex::Regex::new`, carried through as it is: nothing is
/// claimed of its content.
#[verifier::external_type_specification]
#[verifier::external_body]
pub struct ExRegexError(regex::Error);

/// What went wrong while parsing one grammar node.
#[derive(Debug, PartialEq)]
pub enum PEType<'a> {
    /// The grammar node is neither a type name nor a mapping.
    Unsupported,
    /// The type name is not one that the engine knows.
    UnknownType(&'a str),
    /// The mapping has no string entry under `type`.
    InvalidTypeInfo(&'a Value),
    /// A constraint parameter has the wrong shape.
    IncorrectType(&'a Value),
    /// The pattern under `regex` does not compile; holds the compiler's diagnostic.
    Regex(regex::Error),
    /// The entry under `default` is not of the declared type.
    InvalidDefault(&'a Value),
    /// A segment of an absolute path is not a scalar.
    InvalidAbsolutePath(&'a Value),
}

/// A parse error together with the path of the grammar node it was found at.
#[derive(Debug, PartialEq)]
pub struct ParseErr<'a> {
    pub path: Vec<&'a Value>,
    pub err: PEType<'a>,
}

/// The mathematical content of a `PEType`. The diagnostic of a pattern that
/// does not compile is not part of it.
pub enum PETypeView {
    Unsupported,
    UnknownType(Seq<char>),
    InvalidTypeInfo(ValueView),
    IncorrectType(ValueView),
    Regex,
    InvalidDefault(ValueView),
    InvalidAbsolutePath(ValueView),
}

/// The mathematical content of a `ParseErr`.
pub struct ParseErrView {
    pub path: Seq<ValueView>,
    pub err: PETypeView,
}

impl<'a> View for PEType<'a> {
    type V = PETypeView;

    open spec fn view(&self) -> PETypeView {
        match self {
            PEType::Unsupported => PETypeView::Unsupported,
            PEType::UnknownType(s) => PETypeView::UnknownType(s@),
            PEType::InvalidTypeInfo(v) => PETypeView::InvalidTypeInfo(v@),
            PEType::IncorrectType(v) => PETypeView::IncorrectType(v@),
            PEType::Regex(_) => PETypeView::Regex,
            PEType::InvalidDefault(v) => PETypeView::InvalidDefault(v@),
            PEType::InvalidAbsolutePath(v) => PETypeView::InvalidAbsolutePath(v@),
        }
    }
}

impl<'a> View for ParseErr<'a> {
    type V = ParseErrView;

    open spec fn view(&self) -> ParseErrView {
        ParseErrView { path: path_view(self.path@), err: self.err@ }
    }
}

/// What parsing a grammar node yields.
pub type YamlParseResult<'a> = Bubble<Result<Constraint<'a>, ParseErr<'a>>>;

/// The outcome of a phase that either builds one tree or fails with every error
/// found below the node.
pub enum Outcome<C, E> {
    Done(C),
    Failed(Seq<E>),
}

/// The errors of the outcomes of `os` that failed, in order.
pub open spec fn failures<C, E>(os: Seq<Outcome<C, E>>) -> Seq<E>
    decreases os.len(),
{
    if os.len() == 0 {
        Seq::empty()
    } else {
        failures(os.drop_last()) + match os.last() {
            Outcome::Done(_) => Seq::empty(),
            Outcome::Failed(es) => es,
        }
    }
}

/// Every outcome of `os` is a tree.
pub open spec fn all_done<C, E>(os: Seq<Outcome<C, E>>) -> bool {
    forall|i: int| 0 <= i < os.len() ==> (#[trigger] os[i]) is Done
}

/// The trees of `os`, in order.
pub open spec fn done_values<C, E>(os: Seq<Outcome<C, E>>) -> Seq<C> {
    Seq::new(os.len(), |i: int| os[i]->Done_0)
}

/// What one more outcome adds to the errors and to the success of a prefix.
pub proof fn lemma_outcomes_step<C, E>(os: Seq<Outcome<C, E>>, i: int)
    requires
        0 <= i < os.len(),
    ensures
        failures(os.subrange(0, i + 1)) == failures(os.subrange(0, i)) + match os[i] {
            Outcome::Done(_) => Seq::empty(),
            Outcome::Failed(es) => es,
        },
        all_done(os.subrange(0, i + 1)) == (all_done(os.subrange(0, i)) && os[i] is Done),
{
    let before = os.subrange(0, i);
    let after = os.subrange(0, i + 1);
    assert(after.drop_last() =~= before);
    assert(after.last() == os[i]);
    if all_done(before) && os[i] is Done {
        assert forall|j: int| 0 <= j < after.len() implies (#[trigger] after[j]) is Done by {
            if j < i {
                assert(before[j] is Done);
            }
        }
    }
    if all_done(after) {
        assert(after[i] is Done);
        assert forall|j: int| 0 <= j < before.len() implies (#[trigger] before[j]) is Done by {
            assert(after[j] is Done);
        }
    }
}

/// `r` holds exactly what `o` describes: one constraint, or only errors.
pub open spec fn parse_result_is(r: YamlParseResult, o: Outcome<ConstraintView, ParseErrView>) -> bool {
    match o {
        Outcome::Done(c) => r matches Bubble::Single(Ok(x)) && x@ == c,
        Outcome::Failed(es) => r.items().len() == es.len() && forall|i: int|
            0 <= i < es.len() ==> ((#[trigger] r.items()[i]) matches Err(e) && e@ == es[i]),
    }
}

/// Whether two string slices hold the same text.
pub fn str_eq(a: &str, b: &str) -> (r: bool)
    ensures
        r == (a@ == b@),
{
    let x = String::from_str(a);
    let y = String::from_str(b);
    x == y
}

/// Copies a path.
pub fn copy_path<'a>(path: &[&'a Value]) -> (r: Vec<&'a Value>)
    ensures
        r@ == path@,
{
    let mut out: Vec<&'a Value> = Vec::new();
    let mut i: usize = 0;
    while i < path.len()
        invariant
            i <= path.len(),
            out@ == path@.subrange(0, i as int),
        decreases path.len() - i,
    {
        out.push(path[i]);
        assert(out@ =~= path@.subrange(0, i as int + 1));
        i += 1;
    }
    assert(path@.subrange(0, path.len() as int) =~= path@);
    out
}

/// Copies what is left of a path from position `start` on.
pub fn copy_path_from<'a>(path: &[&'a Value], start: usize) -> (r: Vec<&'a Value>)
    requires
        start <= path.len(),
    ensures
        r@ == path@.subrange(start as int, path.len() as int),
        path_view(r@) == path_view(path@).subrange(start as int, path.len() as int),
{
    let mut out: Vec<&'a Value> = Vec::new();
    let mut i: usize = start;
    while i < path.len()
        invariant
            start <= i <= path.len(),
            out@ == path@.subrange(start as int, i as int),
        decreases path.len() - i,
    {
        out.push(path[i]);
        assert(out@ =~= path@.subrange(start as int, i as int + 1));
        i += 1;
    }
    assert(path_view(out@) =~= path_view(path@).subrange(start as int, path.len() as int));
    out
}

/// Copies a path and appends one segment.
pub fn extend_path<'a>(path: &[&'a Value], segment: &'a Value) -> (r: Vec<&'a Value>)
    ensures
        r@ == path@.push(segment),
        path_view(r@) == path_view(path@).push(segment@),
{
    let mut out = copy_path(path);
    out.push(segment);
    assert(path_view(out@) =~= path_view(path@).push(segment@));
    out
}

impl<'a> ParseErr<'a> {
    /// An error of kind `err` at `path`.
    pub fn new(path: &[&'a Value], err: PEType<'a>) -> (r: ParseErr<'a>)
        ensures
            r.path@ == path@,
            r.err == err,
            r@ == (ParseErrView { path: path_view(path@), err: err@ }),
    {
        ParseErr { path: copy_path(path), err }
    }

    /// The list of errors that holds this error alone: what a field declared by
    /// a mapping reports when its own declaration is at fault.
    pub fn into_multi(self) -> (r: YamlParseResult<'a>)
        ensures
            r is Multi,
            r.items() == seq![Err::<Constraint<'a>, ParseErr<'a>>(self)],
            parse_result_is(r, Outcome::Failed(seq![self@])),
    {
        let mut errs: Vec<Result<Constraint<'a>, ParseErr<'a>>> = Vec::new();
        errs.push(Err(self));
        let r = Bubble::Multi(errs);
        assert(r.items() =~= seq![Err::<Constraint<'a>, ParseErr<'a>>(self)]);
        assert(r.items()[0] == Err::<Constraint<'a>, ParseErr<'a>>(self));
        r
    }

    /// The bubble that holds this error alone.
    pub fn into_result(self) -> (r: YamlParseResult<'a>)
        ensures
            r == Bubble::<Result<Constraint<'a>, ParseErr<'a>>>::Single(Err(self)),
            parse_result_is(r, Outcome::Failed(seq![self@])),
    {
        let r = Bubble::Single(Err(self));
        assert(r.items()[0] == Err::<Constraint<'a>, ParseErr<'a>>(self));
        r
    }
}

} // verus!
