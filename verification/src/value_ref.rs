//! References to the value a constraint compares against, and their resolution.

use vstd::prelude::*;
use crate::constraint::{constraint_view, spec_fetch, Constraint, ConstraintView};
use crate::parse::{copy_path, PEType, PETypeView};
use crate::value::{lookup, path_view, Mapping, Value, ValueView};

verus! {

/// Why the schema holds no default at a path. The paths are residual: from the
/// point of the error onwards.
#[derive(Debug, PartialEq)]
pub enum DefaultFetchErr<'a> {
    /// A constraint that is no object was found while segments remain.
    IncorrectType { residual_path: Vec<&'a Value>, constr: Constraint<'a> },
    /// The object declares no field of that name.
    KeyNotFound(Vec<&'a Value>),
    /// The object accepts any structure and declares no fields.
    ConstraintIsAny(Vec<&'a Value>),
    /// The path is empty.
    PathIsTooShort(Vec<&'a Value>),
}

/// Why a reference could not be resolved.
#[derive(Debug, PartialEq)]
pub enum ValueResolutionErr<'a> {
    /// A node that is no mapping was reached with one segment left.
    TooShort,
    /// A node that is no mapping was reached with several segments left.
    TooLong,
    /// The document holds nothing at the path.
    NotFound(Vec<&'a Value>),
    /// The document holds a value of another type at the path.
    IncorrectType(&'a Value),
    /// The schema could not be searched for a default.
    DefaultFetch { path: Vec<&'a Value>, err: DefaultFetchErr<'a> },
    /// The document holds nothing at the path and the schema declares no default.
    MissingRequired,
}

/// The value to compare against: written in the grammar, or found in the
/// document at an absolute path.
#[derive(Debug, PartialEq)]
pub enum ValueRef<'a, T> {
    Literal(&'a T),
    AbsolutePath(Vec<&'a Value>),
}

/// The mathematical content of a `DefaultFetchErr`.
pub enum DefaultFetchErrView {
    IncorrectType { residual_path: Seq<ValueView>, constr: ConstraintView },
    KeyNotFound(Seq<ValueView>),
    ConstraintIsAny(Seq<ValueView>),
    PathIsTooShort(Seq<ValueView>),
}

/// The mathematical content of a `ValueResolutionErr`.
pub enum ValueResolutionErrView {
    TooShort,
    TooLong,
    NotFound(Seq<ValueView>),
    IncorrectType(ValueView),
    DefaultFetch { path: Seq<ValueView>, err: DefaultFetchErrView },
    MissingRequired,
}

/// The mathematical content of a `ValueRef`.
pub enum ValueRefView<V> {
    Literal(V),
    AbsolutePath(Seq<ValueView>),
}

impl<'a> View for DefaultFetchErr<'a> {
    type V = DefaultFetchErrView;

    open spec fn view(&self) -> DefaultFetchErrView {
        match self {
            DefaultFetchErr::IncorrectType { residual_path, constr } => DefaultFetchErrView::IncorrectType {
                residual_path: path_view(residual_path@),
                constr: constraint_view(constr),
            },
            DefaultFetchErr::KeyNotFound(p) => DefaultFetchErrView::KeyNotFound(path_view(p@)),
            DefaultFetchErr::ConstraintIsAny(p) => DefaultFetchErrView::ConstraintIsAny(path_view(p@)),
            DefaultFetchErr::PathIsTooShort(p) => DefaultFetchErrView::PathIsTooShort(path_view(p@)),
        }
    }
}

impl<'a> View for ValueResolutionErr<'a> {
    type V = ValueResolutionErrView;

    open spec fn view(&self) -> ValueResolutionErrView {
        match self {
            ValueResolutionErr::TooShort => ValueResolutionErrView::TooShort,
            ValueResolutionErr::TooLong => ValueResolutionErrView::TooLong,
            ValueResolutionErr::NotFound(p) => ValueResolutionErrView::NotFound(path_view(p@)),
            ValueResolutionErr::IncorrectType(v) => ValueResolutionErrView::IncorrectType(v@),
            ValueResolutionErr::DefaultFetch { path, err } => ValueResolutionErrView::DefaultFetch {
                path: path_view(path@),
                err: err@,
            },
            ValueResolutionErr::MissingRequired => ValueResolutionErrView::MissingRequired,
        }
    }
}

impl<'a, T: View> View for ValueRef<'a, T> {
    type V = ValueRefView<T::V>;

    open spec fn view(&self) -> ValueRefView<T::V> {
        match self {
            ValueRef::Literal(t) => ValueRefView::Literal(t@),
            ValueRef::AbsolutePath(p) => ValueRefView::AbsolutePath(path_view(p@)),
        }
    }
}

/// The views of a list of values, in order.
pub open spec fn values_view(items: Seq<Value>) -> Seq<ValueView> {
    Seq::new(items.len(), |i: int| items[i]@)
}

/// A boolean, a number or a string: what may stand as a segment of a path.
pub open spec fn is_scalar(v: ValueView) -> bool {
    v is Bool || v is Number || v is String
}

/// Position of the first item at or after `start` that is no scalar.
pub open spec fn first_non_scalar(items: Seq<ValueView>, start: int) -> Option<int>
    decreases items.len() - start,
{
    if start < 0 || start >= items.len() {
        None
    } else if !is_scalar(items[start]) {
        Some(start)
    } else {
        first_non_scalar(items, start + 1)
    }
}

/// The absolute path that a sequence of the grammar stands for: the sequence
/// itself if all its items are scalars, else an error that holds the first
/// item that is none.
pub open spec fn spec_abs_path(items: Seq<ValueView>) -> Result<Seq<ValueView>, PETypeView> {
    match first_non_scalar(items, 0) {
        Some(i) => Err(PETypeView::InvalidAbsolutePath(items[i])),
        None => Ok(items),
    }
}

/// The reference to a string that a grammar value stands for: a string is a
/// literal, a sequence is an absolute path, anything else is an error.
pub open spec fn spec_str_ref(v: ValueView) -> Result<ValueRefView<Seq<char>>, PETypeView> {
    match v {
        ValueView::String(s) => Ok(ValueRefView::Literal(s)),
        ValueView::Sequence(items) => match spec_abs_path(items) {
            Ok(p) => Ok(ValueRefView::AbsolutePath(p)),
            Err(e) => Err(e),
        },
        _ => Err(PETypeView::IncorrectType(v)),
    }
}

/// The node that `path`, from segment `i` on, leads to below `curr`.
pub open spec fn spec_locate(curr: ValueView, path: Seq<ValueView>, i: int) -> Result<ValueView, ValueResolutionErrView>
    decreases path.len() - i,
{
    if i < 0 || i >= path.len() {
        Ok(curr)
    } else {
        match curr {
            ValueView::Mapping(m) => match lookup(m, path[i]) {
                Some(v) => spec_locate(v, path, i + 1),
                None => Err(ValueResolutionErrView::NotFound(path)),
            },
            _ => if i + 1 == path.len() {
                Err(ValueResolutionErrView::TooShort)
            } else {
                Err(ValueResolutionErrView::TooLong)
            },
        }
    }
}

/// The default that the schema `context` declares for the string field at
/// `path`. A path that the schema does not declare, or declares without a
/// default, is a missing required value.
pub open spec fn spec_default_str(context: ConstraintView, path: Seq<ValueView>) -> Result<Seq<char>, ValueResolutionErrView> {
    match spec_fetch(context, path) {
        Ok(ConstraintView::Str(sc)) => match sc.default {
            Some(d) => Ok(d),
            None => Err(ValueResolutionErrView::MissingRequired),
        },
        Ok(ConstraintView::Obj(_)) => Err(ValueResolutionErrView::MissingRequired),
        Err(DefaultFetchErrView::KeyNotFound(_)) => Err(ValueResolutionErrView::MissingRequired),
        Err(DefaultFetchErrView::ConstraintIsAny(_)) => Err(ValueResolutionErrView::MissingRequired),
        Err(e) => Err(ValueResolutionErrView::DefaultFetch { path, err: e }),
    }
}

/// The string that the reference `r` stands for in the document `root`, with
/// the schema `context` consulted for a default where the document holds
/// nothing at the path.
pub open spec fn spec_resolve_str(r: ValueRefView<Seq<char>>, root: ValueView, context: ConstraintView) -> Result<Seq<char>, ValueResolutionErrView> {
    match r {
        ValueRefView::Literal(s) => Ok(s),
        ValueRefView::AbsolutePath(p) => match spec_locate(root, p, 0) {
            Ok(ValueView::String(s)) => Ok(s),
            Ok(v) => Err(ValueResolutionErrView::IncorrectType(v)),
            Err(ValueResolutionErrView::NotFound(_)) => spec_default_str(context, p),
            Err(e) => Err(e),
        },
    }
}

/// The default that the schema `context` declares for the object field at
/// `path`.
pub open spec fn spec_default_mapping(context: ConstraintView, path: Seq<ValueView>) -> Result<Seq<(ValueView, ValueView)>, ValueResolutionErrView> {
    match spec_fetch(context, path) {
        Ok(ConstraintView::Obj(oc)) => match oc.default {
            Some(d) => Ok(d),
            None => Err(ValueResolutionErrView::MissingRequired),
        },
        Ok(ConstraintView::Str(_)) => Err(ValueResolutionErrView::MissingRequired),
        Err(DefaultFetchErrView::KeyNotFound(_)) => Err(ValueResolutionErrView::MissingRequired),
        Err(DefaultFetchErrView::ConstraintIsAny(_)) => Err(ValueResolutionErrView::MissingRequired),
        Err(e) => Err(ValueResolutionErrView::DefaultFetch { path, err: e }),
    }
}

/// The mapping that the reference `r` stands for in the document `root`, with
/// the schema `context` consulted for a default where the document holds
/// nothing at the path.
pub open spec fn spec_resolve_mapping(
    r: ValueRefView<Seq<(ValueView, ValueView)>>,
    root: ValueView,
    context: ConstraintView,
) -> Result<Seq<(ValueView, ValueView)>, ValueResolutionErrView> {
    match r {
        ValueRefView::Literal(m) => Ok(m),
        ValueRefView::AbsolutePath(p) => match spec_locate(root, p, 0) {
            Ok(ValueView::Mapping(m)) => Ok(m),
            Ok(v) => Err(ValueResolutionErrView::IncorrectType(v)),
            Err(ValueResolutionErrView::NotFound(_)) => spec_default_mapping(context, p),
            Err(e) => Err(e),
        },
    }
}

/// Finds the node of the document `root` that `path` leads to.
pub fn locate<'a>(root: &'a Value, path: &[&'a Value]) -> (r: Result<&'a Value, ValueResolutionErr<'a>>)
    ensures
        match spec_locate(root@, path_view(path@), 0) {
            Ok(v) => r matches Ok(x) && x@ == v,
            Err(e) => r matches Err(x) && x@ == e,
        },
{
    let ghost p = path_view(path@);
    let mut curr: &'a Value = root;
    let mut i: usize = 0;
    while i < path.len()
        invariant
            i <= path.len(),
            p == path_view(path@),
            spec_locate(root@, p, 0) == spec_locate(curr@, p, i as int),
        decreases path.len() - i,
    {
        assert(p[i as int] == path@[i as int]@);
        match curr {
            Value::Mapping(m) => {
                match m.get(path[i]) {
                    Some(v) => {
                        curr = v;
                    },
                    None => {
                        return Err(ValueResolutionErr::NotFound(copy_path(path)));
                    },
                }
            },
            _ => {
                if i + 1 == path.len() {
                    return Err(ValueResolutionErr::TooShort);
                } else {
                    return Err(ValueResolutionErr::TooLong);
                }
            },
        }
        i += 1;
    }
    Ok(curr)
}

impl<'a, T> ValueRef<'a, T> {
    /// Reads a sequence of the grammar as an absolute path into the document.
    pub fn abs_path(path: &'a [Value]) -> (r: Result<ValueRef<'a, T>, PEType<'a>>)
        ensures
            match spec_abs_path(values_view(path@)) {
                Ok(p) => r matches Ok(ValueRef::AbsolutePath(v)) && path_view(v@) == p,
                Err(e) => r matches Err(x) && x@ == e,
            },
    {
        let ghost items = values_view(path@);
        let mut out: Vec<&'a Value> = Vec::new();
        let mut i: usize = 0;
        while i < path.len()
            invariant
                i <= path.len(),
                items == values_view(path@),
                first_non_scalar(items, 0) == first_non_scalar(items, i as int),
                out.len() == i,
                forall|j: int| 0 <= j < i ==> *(#[trigger] out@[j]) == path@[j],
            decreases path.len() - i,
        {
            let val = &path[i];
            assert(items[i as int] == val@);
            match val {
                Value::Bool(_) => {
                    out.push(val);
                },
                Value::Number(_) => {
                    out.push(val);
                },
                Value::String(_) => {
                    out.push(val);
                },
                _ => {
                    return Err(PEType::InvalidAbsolutePath(val));
                },
            }
            i += 1;
        }
        assert(path_view(out@) =~= items);
        Ok(ValueRef::AbsolutePath(out))
    }

    /// Copies the reference.
    pub fn duplicate(&self) -> (r: ValueRef<'a, T>)
        ensures
            r == *self || (r matches ValueRef::AbsolutePath(p) && self matches ValueRef::AbsolutePath(q) && p@
                == q@),
    {
        match self {
            ValueRef::Literal(t) => ValueRef::Literal(*t),
            ValueRef::AbsolutePath(p) => ValueRef::AbsolutePath(copy_path(p.as_slice())),
        }
    }
}

impl<'a> ValueRef<'a, String> {
    /// Reads a grammar value as a reference to a string.
    pub fn new(value: &'a Value) -> (r: Result<ValueRef<'a, String>, PEType<'a>>)
        ensures
            match spec_str_ref(value@) {
                Ok(v) => r matches Ok(x) && x@ == v,
                Err(e) => r matches Err(x) && x@ == e,
            },
    {
        match value {
            Value::String(literal) => Ok(ValueRef::Literal(literal)),
            Value::Sequence(path) => {
                assert(value@->Sequence_0 =~= values_view(path@));
                ValueRef::abs_path(path.as_slice())
            },
            _ => Err(PEType::IncorrectType(value)),
        }
    }

    /// Looks for the default that the schema `context` declares at `path`.
    fn default_at(path: &Vec<&'a Value>, context: &Constraint<'a>) -> (r: Result<&'a String, ValueResolutionErr<'a>>)
        ensures
            match spec_default_str(context@, path_view(path@)) {
                Ok(s) => r matches Ok(x) && x@ == s,
                Err(e) => r matches Err(x) && x@ == e,
            },
    {
        match context.fetch(path.as_slice()) {
            Ok(c) => match c {
                Constraint::Str(sc) => match sc.default {
                    Some(d) => Ok(d),
                    None => Err(ValueResolutionErr::MissingRequired),
                },
                Constraint::Obj(_) => Err(ValueResolutionErr::MissingRequired),
            },
            Err(e) => match e {
                DefaultFetchErr::KeyNotFound(_) => Err(ValueResolutionErr::MissingRequired),
                DefaultFetchErr::ConstraintIsAny(_) => Err(ValueResolutionErr::MissingRequired),
                other => Err(ValueResolutionErr::DefaultFetch { path: copy_path(path.as_slice()), err: other }),
            },
        }
    }

    /// Resolves the reference to a string: the literal itself, or the string
    /// that the document `root` holds at the path, or else the default that the
    /// schema `context` declares for that path.
    pub fn resolve(&self, root: &'a Value, context: &Constraint<'a>) -> (r: Result<&'a String, ValueResolutionErr<'a>>)
        ensures
            match spec_resolve_str(self@, root@, context@) {
                Ok(s) => r matches Ok(x) && x@ == s,
                Err(e) => r matches Err(x) && x@ == e,
            },
    {
        match self {
            ValueRef::Literal(literal) => Ok(*literal),
            ValueRef::AbsolutePath(abs_path) => {
                match locate(root, abs_path.as_slice()) {
                    Ok(found) => match found {
                        Value::String(s) => Ok(s),
                        _ => Err(ValueResolutionErr::IncorrectType(found)),
                    },
                    Err(e) => match e {
                        ValueResolutionErr::NotFound(_) => Self::default_at(abs_path, context),
                        other => Err(other),
                    },
                }
            },
        }
    }
}

impl<'a> ValueRef<'a, Mapping> {
    /// Looks for the default that the schema `context` declares at `path`.
    fn default_at(path: &Vec<&'a Value>, context: &Constraint<'a>) -> (r: Result<&'a Mapping, ValueResolutionErr<'a>>)
        ensures
            match spec_default_mapping(context@, path_view(path@)) {
                Ok(m) => r matches Ok(x) && x@ == m,
                Err(e) => r matches Err(x) && x@ == e,
            },
    {
        match context.fetch(path.as_slice()) {
            Ok(c) => match c {
                Constraint::Obj(oc) => {
                    proof {
                        crate::constraint::lemma_object_view(oc);
                    }
                    match oc.default {
                        Some(d) => Ok(d),
                        None => Err(ValueResolutionErr::MissingRequired),
                    }
                },
                Constraint::Str(_) => Err(ValueResolutionErr::MissingRequired),
            },
            Err(e) => match e {
                DefaultFetchErr::KeyNotFound(_) => Err(ValueResolutionErr::MissingRequired),
                DefaultFetchErr::ConstraintIsAny(_) => Err(ValueResolutionErr::MissingRequired),
                other => Err(ValueResolutionErr::DefaultFetch { path: copy_path(path.as_slice()), err: other }),
            },
        }
    }

    /// Resolves the reference to a mapping: the literal itself, or the mapping
    /// that the document `root` holds at the path, or else the default that
    /// the schema `context` declares for that path.
    pub fn resolve(&self, root: &'a Value, context: &Constraint<'a>) -> (r: Result<&'a Mapping, ValueResolutionErr<'a>>)
        ensures
            match spec_resolve_mapping(self@, root@, context@) {
                Ok(m) => r matches Ok(x) && x@ == m,
                Err(e) => r matches Err(x) && x@ == e,
            },
    {
        match self {
            ValueRef::Literal(literal) => Ok(*literal),
            ValueRef::AbsolutePath(abs_path) => {
                match locate(root, abs_path.as_slice()) {
                    Ok(found) => match found {
                        Value::Mapping(m) => Ok(m),
                        _ => Err(ValueResolutionErr::IncorrectType(found)),
                    },
                    Err(e) => match e {
                        ValueResolutionErr::NotFound(_) => Self::default_at(abs_path, context),
                        other => Err(other),
                    },
                }
            },
        }
    }
}

} // verus!
