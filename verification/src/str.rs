//! String constraints and string rules.

use vstd::prelude::*;
use crate::constraint::{Constraint, ConstraintView};
use crate::parse::{PEType, PETypeView, ParseErr, ParseErrView};
use crate::rule::{
    eval_items_view, EvalItemView, RuleErrType, RuleErrTypeView, RuleEvalErr, RuleEvalErrView, RuleEvalResult,
    RuleEvalSuccess, RuleEvalSuccessView,
};
use crate::value::{lookup, path_view, Mapping, Value, ValueView};
use crate::value_ref::{
    spec_resolve_str, spec_str_ref, values_view, ValueRef, ValueRefView, ValueResolutionErr,
    ValueResolutionErrView,
};

verus! {

/// A compiled expression of the `regex` crate, carried through as it is:
/// nothing is claimed of its content.
#[verifier::external_type_specification]
#[verifier::external_body]
pub struct ExRegex(regex::Regex);

/// Whether `pattern` is a regular expression that the compiler accepts.
pub uninterp spec fn regex_compiles(pattern: Seq<char>) -> bool;

/// Whether the regular expression `pattern` matches somewhere in `haystack`.
pub uninterp spec fn regex_matches(pattern: Seq<char>, haystack: Seq<char>) -> bool;

/// A compiled regular expression together with the pattern it was compiled
/// from. Two of them are equal when their patterns are.
#[derive(Debug)]
pub struct WrappedRegex {
    pattern: String,
    compiled: regex::Regex,
}

impl View for WrappedRegex {
    type V = Seq<char>;

    closed spec fn view(&self) -> Seq<char> {
        self.pattern@
    }
}

impl WrappedRegex {
    /// Compiles `pattern` with `regex::Regex::new`. The contract claims that
    /// whether compilation succeeds depends on the pattern alone, and that
    /// the result remembers the pattern it was made from.
    #[verifier::external_body]
    pub(crate) fn compile(pattern: &str) -> (r: Result<WrappedRegex, regex::Error>)
        ensures
            r is Ok == regex_compiles(pattern@),
            r matches Ok(w) ==> w@ == pattern@,
    {
        match regex::Regex::new(pattern) {
            Ok(compiled) => Ok(WrappedRegex { pattern: String::from(pattern), compiled }),
            Err(e) => Err(e),
        }
    }

    /// Runs `regex::Regex::is_match` on `text`. The contract claims that the
    /// answer depends on the pattern and the text alone.
    #[verifier::external_body]
    pub(crate) fn matches(&self, text: &str) -> (r: bool)
        ensures
            r == regex_matches(self@, text@),
    {
        self.compiled.is_match(text)
    }

    /// Copies the expression with `regex::Regex::clone`. The contract claims
    /// that the copy stands for the same pattern.
    #[verifier::external_body]
    pub(crate) fn duplicate(&self) -> (r: WrappedRegex)
        ensures
            r@ == self@,
    {
        WrappedRegex { pattern: self.pattern.clone(), compiled: self.compiled.clone() }
    }

    /// Compiles `pattern`.
    pub fn new(pattern: &str) -> (r: Result<WrappedRegex, regex::Error>)
        ensures
            r is Ok == regex_compiles(pattern@),
            r matches Ok(w) ==> w@ == pattern@,
    {
        WrappedRegex::compile(pattern)
    }

    /// Whether the expression matches somewhere in `text`.
    pub fn is_match(&self, text: &str) -> (r: bool)
        ensures
            r == regex_matches(self@, text@),
    {
        self.matches(text)
    }

    /// The pattern that the expression was compiled from.
    pub fn as_str(&self) -> (r: &str)
        ensures
            r@ == self@,
    {
        self.pattern.as_str()
    }
}

impl PartialEq for WrappedRegex {
    fn eq(&self, other: &Self) -> (r: bool) {
        self.pattern == other.pattern
    }
}

impl vstd::std_specs::cmp::PartialEqSpecImpl for WrappedRegex {
    open spec fn obeys_eq_spec() -> bool {
        true
    }

    open spec fn eq_spec(&self, other: &Self) -> bool {
        self@ == other@
    }
}

/// The body of a string constraint.
#[derive(Debug, PartialEq)]
pub enum StrConstr<'a> {
    Allowed(Vec<ValueRef<'a, String>>),
    Disallowed(Vec<ValueRef<'a, String>>),
    Regex(Box<WrappedRegex>),
    Equals(ValueRef<'a, String>),
    NotEquals(ValueRef<'a, String>),
    Any,
}

/// A string field of the grammar.
#[derive(Debug, PartialEq)]
pub struct StringConstraint<'a> {
    pub field_name: &'a Value,
    pub constr: StrConstr<'a>,
    pub default: Option<&'a String>,
}

/// The mathematical content of a reference to a string.
pub type StrRefView = ValueRefView<Seq<char>>;

/// The mathematical content of a `StrConstr`; an expression stands by its
/// pattern.
pub enum StrConstrView {
    Allowed(Seq<StrRefView>),
    Disallowed(Seq<StrRefView>),
    Regex(Seq<char>),
    Equals(StrRefView),
    NotEquals(StrRefView),
    Any,
}

/// The mathematical content of a `StringConstraint`.
pub struct StringConstraintView {
    pub field_name: ValueView,
    pub constr: StrConstrView,
    pub default: Option<Seq<char>>,
}

/// The views of a list of references, in order.
pub open spec fn refs_view(refs: Seq<ValueRef<String>>) -> Seq<StrRefView> {
    Seq::new(refs.len(), |i: int| refs[i]@)
}

/// The view of an optional borrowed string.
pub open spec fn opt_str_view(s: Option<&String>) -> Option<Seq<char>> {
    match s {
        Some(x) => Some(x@),
        None => None,
    }
}

/// Copies a list of references.
pub fn copy_refs<'a>(refs: &Vec<ValueRef<'a, String>>) -> (r: Vec<ValueRef<'a, String>>)
    ensures
        refs_view(r@) == refs_view(refs@),
{
    let mut out: Vec<ValueRef<'a, String>> = Vec::new();
    let mut i: usize = 0;
    while i < refs.len()
        invariant
            i <= refs.len(),
            out.len() == i,
            forall|j: int| 0 <= j < i ==> (#[trigger] out@[j])@ == refs@[j]@,
        decreases refs.len() - i,
    {
        let copy = refs[i].duplicate();
        out.push(copy);
        i += 1;
    }
    assert(refs_view(out@) =~= refs_view(refs@));
    out
}

impl<'a> StrConstr<'a> {
    /// Copies the constraint body.
    pub fn duplicate(&self) -> (r: StrConstr<'a>)
        ensures
            r@ == self@,
    {
        match self {
            StrConstr::Allowed(v) => StrConstr::Allowed(copy_refs(v)),
            StrConstr::Disallowed(v) => StrConstr::Disallowed(copy_refs(v)),
            StrConstr::Regex(re) => StrConstr::Regex(Box::new(re.duplicate())),
            StrConstr::Equals(r) => StrConstr::Equals(r.duplicate()),
            StrConstr::NotEquals(r) => StrConstr::NotEquals(r.duplicate()),
            StrConstr::Any => StrConstr::Any,
        }
    }
}

impl<'a> StringConstraint<'a> {
    /// The constraint that accepts any string and declares no default.
    pub fn default(field_name: &'a Value) -> (r: StringConstraint<'a>)
        ensures
            r.field_name == field_name,
            r@ == (StringConstraintView { field_name: field_name@, constr: StrConstrView::Any, default: None }),
    {
        StringConstraint { field_name, constr: StrConstr::Any, default: None }
    }

    /// A string constraint made of its parts.
    pub fn new(field_name: &'a Value, constr: StrConstr<'a>, default: Option<&'a String>) -> (r: StringConstraint<'a>)
        ensures
            r.field_name == field_name,
            r.constr == constr,
            r.default == default,
    {
        StringConstraint { field_name, constr, default }
    }

    /// Copies the constraint.
    pub fn duplicate(&self) -> (r: StringConstraint<'a>)
        ensures
            r@ == self@,
    {
        StringConstraint { field_name: self.field_name, constr: self.constr.duplicate(), default: self.default }
    }
}

impl<'a> View for StrConstr<'a> {
    type V = StrConstrView;

    open spec fn view(&self) -> StrConstrView {
        match self {
            StrConstr::Allowed(v) => StrConstrView::Allowed(refs_view(v@)),
            StrConstr::Disallowed(v) => StrConstrView::Disallowed(refs_view(v@)),
            StrConstr::Regex(re) => StrConstrView::Regex(re@),
            StrConstr::Equals(r) => StrConstrView::Equals(r@),
            StrConstr::NotEquals(r) => StrConstrView::NotEquals(r@),
            StrConstr::Any => StrConstrView::Any,
        }
    }
}

impl<'a> View for StringConstraint<'a> {
    type V = StringConstraintView;

    open spec fn view(&self) -> StringConstraintView {
        StringConstraintView {
            field_name: self.field_name@,
            constr: self.constr@,
            default: opt_str_view(self.default),
        }
    }
}

/// The default that a string field's grammar mapping declares.
pub open spec fn spec_str_default(config: Seq<(ValueView, ValueView)>) -> Result<Option<Seq<char>>, PETypeView> {
    match lookup(config, ValueView::String("default"@)) {
        None => Ok(None),
        Some(ValueView::String(s)) => Ok(Some(s)),
        Some(v) => Err(PETypeView::InvalidDefault(v)),
    }
}

/// Position of the first item at or after `start` that is no reference to a string.
pub open spec fn first_bad_ref(items: Seq<ValueView>, start: int) -> Option<int>
    decreases items.len() - start,
{
    if start < 0 || start >= items.len() {
        None
    } else if spec_str_ref(items[start]) is Err {
        Some(start)
    } else {
        first_bad_ref(items, start + 1)
    }
}

/// The references that a list of the grammar stands for, or the error of the
/// first item that is none.
pub open spec fn spec_str_refs(items: Seq<ValueView>) -> Result<Seq<StrRefView>, PETypeView> {
    match first_bad_ref(items, 0) {
        Some(i) => Err(spec_str_ref(items[i])->Err_0),
        None => Ok(Seq::new(items.len(), |i: int| spec_str_ref(items[i])->Ok_0)),
    }
}

/// The constraint body that the value under `regex` stands for.
pub open spec fn spec_regex_body(v: ValueView) -> Result<StrConstrView, PETypeView> {
    match v {
        ValueView::String(p) => if regex_compiles(p) {
            Ok(StrConstrView::Regex(p))
        } else {
            Err(PETypeView::Regex)
        },
        _ => Err(PETypeView::IncorrectType(v)),
    }
}

/// The constraint body that the value under `allowed` stands for.
pub open spec fn spec_allowed_body(v: ValueView) -> Result<StrConstrView, PETypeView> {
    match v {
        ValueView::Sequence(items) => match spec_str_refs(items) {
            Ok(refs) => Ok(StrConstrView::Allowed(refs)),
            Err(e) => Err(e),
        },
        _ => Err(PETypeView::IncorrectType(v)),
    }
}

/// The constraint body that the value under `disallowed` stands for.
pub open spec fn spec_disallowed_body(v: ValueView) -> Result<StrConstrView, PETypeView> {
    match v {
        ValueView::Sequence(items) => match spec_str_refs(items) {
            Ok(refs) => Ok(StrConstrView::Disallowed(refs)),
            Err(e) => Err(e),
        },
        _ => Err(PETypeView::IncorrectType(v)),
    }
}

/// The constraint body that the value under `eq` stands for.
pub open spec fn spec_eq_body(v: ValueView) -> Result<StrConstrView, PETypeView> {
    match spec_str_ref(v) {
        Ok(r) => Ok(StrConstrView::Equals(r)),
        Err(e) => Err(e),
    }
}

/// The constraint body that the value under `neq` stands for.
pub open spec fn spec_neq_body(v: ValueView) -> Result<StrConstrView, PETypeView> {
    match spec_str_ref(v) {
        Ok(r) => Ok(StrConstrView::NotEquals(r)),
        Err(e) => Err(e),
    }
}

/// The constraint body of a string field: that of the first key present among
/// `regex`, `allowed`, `disallowed`, `eq` and `neq`, in this order; without
/// any of them, no constraint.
pub open spec fn spec_str_body(config: Seq<(ValueView, ValueView)>) -> Result<StrConstrView, PETypeView> {
    if let Some(v) = lookup(config, ValueView::String("regex"@)) {
        spec_regex_body(v)
    } else if let Some(v) = lookup(config, ValueView::String("allowed"@)) {
        spec_allowed_body(v)
    } else if let Some(v) = lookup(config, ValueView::String("disallowed"@)) {
        spec_disallowed_body(v)
    } else if let Some(v) = lookup(config, ValueView::String("eq"@)) {
        spec_eq_body(v)
    } else if let Some(v) = lookup(config, ValueView::String("neq"@)) {
        spec_neq_body(v)
    } else {
        Ok(StrConstrView::Any)
    }
}

/// The string constraint that the grammar mapping `config` declares for the
/// field `field_name`; every error is reported at `path`. An invalid default
/// is reported before anything else.
pub open spec fn spec_str_build(field_name: ValueView, config: Seq<(ValueView, ValueView)>, path: Seq<ValueView>) -> Result<StringConstraintView, ParseErrView> {
    match spec_str_default(config) {
        Err(e) => Err(ParseErrView { path, err: e }),
        Ok(default) => match spec_str_body(config) {
            Ok(constr) => Ok(StringConstraintView { field_name, constr, default }),
            Err(e) => Err(ParseErrView { path, err: e }),
        },
    }
}

/// `r` holds what `o` describes.
pub open spec fn str_build_is(r: Result<StringConstraint, ParseErr>, o: Result<StringConstraintView, ParseErrView>) -> bool {
    match o {
        Ok(c) => r matches Ok(x) && x@ == c,
        Err(e) => r matches Err(x) && x@ == e,
    }
}

/// Reads every item of a list of the grammar as a reference to a string.
pub fn parse_refs<'a>(items: &'a Vec<Value>) -> (r: Result<Vec<ValueRef<'a, String>>, PEType<'a>>)
    ensures
        match spec_str_refs(values_view(items@)) {
            Ok(refs) => r matches Ok(x) && refs_view(x@) == refs,
            Err(e) => r matches Err(x) && x@ == e,
        },
{
    let ghost views = values_view(items@);
    let mut out: Vec<ValueRef<'a, String>> = Vec::new();
    let mut i: usize = 0;
    while i < items.len()
        invariant
            i <= items.len(),
            views == values_view(items@),
            first_bad_ref(views, 0) == first_bad_ref(views, i as int),
            out.len() == i,
            forall|j: int| 0 <= j < i ==> spec_str_ref(views[j]) == Ok::<StrRefView, PETypeView>((#[trigger] out@[j])@),
        decreases items.len() - i,
    {
        assert(views[i as int] == items@[i as int]@);
        match ValueRef::new(&items[i]) {
            Ok(vr) => {
                out.push(vr);
            },
            Err(e) => {
                return Err(e);
            },
        }
        i += 1;
    }
    assert(refs_view(out@) =~= spec_str_refs(views)->Ok_0);
    Ok(out)
}

struct StringConstraintBuilder<'a, 'b> {
    field_name: &'a Value,
    config: &'a Mapping,
    path: &'b [&'a Value],
    default: Option<&'a String>,
}

impl<'a, 'b> StringConstraintBuilder<'a, 'b> {
    fn new(field_name: &'a Value, config: &'a Mapping, path: &'b [&'a Value]) -> (r: Result<Self, ParseErr<'a>>)
        ensures
            match spec_str_default(config@) {
                Ok(d) => r matches Ok(b) && b.field_name == field_name && b.config == config && b.path@ == path@
                    && opt_str_view(b.default) == d,
                Err(e) => r matches Err(x) && x@ == (ParseErrView { path: path_view(path@), err: e }),
            },
    {
        match Self::field_default(config, path) {
            Ok(default) => Ok(Self { field_name, config, path, default }),
            Err(e) => Err(e),
        }
    }

    fn field_default(map: &'a Mapping, path: &'b [&'a Value]) -> (r: Result<Option<&'a String>, ParseErr<'a>>)
        ensures
            match spec_str_default(map@) {
                Ok(d) => r matches Ok(x) && opt_str_view(x) == d,
                Err(e) => r matches Err(x) && x@ == (ParseErrView { path: path_view(path@), err: e }),
            },
    {
        match map.get_str("default") {
            Some(val) => match val {
                Value::String(s) => Ok(Some(s)),
                _ => Err(ParseErr::new(path, PEType::InvalidDefault(val))),
            },
            None => Ok(None),
        }
    }

    /// What is reported for a body that could not be built.
    spec fn outcome(&self, body: Result<StrConstrView, PETypeView>) -> Result<StringConstraintView, ParseErrView> {
        match body {
            Ok(constr) => Ok(
                StringConstraintView {
                    field_name: self.field_name@,
                    constr,
                    default: opt_str_view(self.default),
                },
            ),
            Err(e) => Err(ParseErrView { path: path_view(self.path@), err: e }),
        }
    }

    fn from_mapping(&self) -> (r: Result<StringConstraint<'a>, ParseErr<'a>>)
        ensures
            str_build_is(r, self.outcome(spec_str_body(self.config@))),
    {
        if let Some(val) = self.config.get_str("regex") {
            return self.regex(val);
        }
        if let Some(val) = self.config.get_str("allowed") {
            return self.allowed(val);
        }
        if let Some(val) = self.config.get_str("disallowed") {
            return self.disallowed(val);
        }
        if let Some(val) = self.config.get_str("eq") {
            return self.eq(val);
        }
        if let Some(val) = self.config.get_str("neq") {
            return self.neq(val);
        }
        if self.default.is_some() {
            return Ok(StringConstraint::new(self.field_name, StrConstr::Any, self.default));
        }
        Ok(StringConstraint::default(self.field_name))
    }

    fn regex(&self, re: &'a Value) -> (r: Result<StringConstraint<'a>, ParseErr<'a>>)
        ensures
            str_build_is(r, self.outcome(spec_regex_body(re@))),
    {
        if let Value::String(re) = re {
            regex_constraint(self.field_name, WrappedRegex::new(re.as_str()), self.default, self.path)
        } else {
            Err(ParseErr::new(self.path, PEType::IncorrectType(re)))
        }
    }

    fn allowed(&self, allowed: &'a Value) -> (r: Result<StringConstraint<'a>, ParseErr<'a>>)
        ensures
            str_build_is(r, self.outcome(spec_allowed_body(allowed@))),
    {
        if let Value::Sequence(seq) = allowed {
            assert(allowed@->Sequence_0 =~= values_view(seq@));
            match parse_refs(seq) {
                Ok(vals) => Ok(StringConstraint::new(self.field_name, StrConstr::Allowed(vals), self.default)),
                Err(err) => Err(ParseErr::new(self.path, err)),
            }
        } else {
            Err(ParseErr::new(self.path, PEType::IncorrectType(allowed)))
        }
    }

    fn disallowed(&self, disallowed: &'a Value) -> (r: Result<StringConstraint<'a>, ParseErr<'a>>)
        ensures
            str_build_is(r, self.outcome(spec_disallowed_body(disallowed@))),
    {
        if let Value::Sequence(seq) = disallowed {
            assert(disallowed@->Sequence_0 =~= values_view(seq@));
            match parse_refs(seq) {
                Ok(vals) => Ok(StringConstraint::new(self.field_name, StrConstr::Disallowed(vals), self.default)),
                Err(err) => Err(ParseErr::new(self.path, err)),
            }
        } else {
            Err(ParseErr::new(self.path, PEType::IncorrectType(disallowed)))
        }
    }

    fn eq(&self, to: &'a Value) -> (r: Result<StringConstraint<'a>, ParseErr<'a>>)
        ensures
            str_build_is(r, self.outcome(spec_eq_body(to@))),
    {
        match ValueRef::new(to) {
            Ok(vr) => Ok(StringConstraint::new(self.field_name, StrConstr::Equals(vr), self.default)),
            Err(err) => Err(ParseErr::new(self.path, err)),
        }
    }

    fn neq(&self, to: &'a Value) -> (r: Result<StringConstraint<'a>, ParseErr<'a>>)
        ensures
            str_build_is(r, self.outcome(spec_neq_body(to@))),
    {
        match ValueRef::new(to) {
            Ok(vr) => Ok(StringConstraint::new(self.field_name, StrConstr::NotEquals(vr), self.default)),
            Err(err) => Err(ParseErr::new(self.path, err)),
        }
    }
}

/// Turns the outcome of compiling a pattern into a constraint on the field
/// `field_name`, or into an error at `path` that holds the diagnostic.
pub fn regex_constraint<'a>(
    field_name: &'a Value,
    compiled: Result<WrappedRegex, regex::Error>,
    default: Option<&'a String>,
    path: &[&'a Value],
) -> (r: Result<StringConstraint<'a>, ParseErr<'a>>)
    ensures
        match compiled {
            Ok(w) => r matches Ok(c) && c@ == (StringConstraintView {
                field_name: field_name@,
                constr: StrConstrView::Regex(w@),
                default: opt_str_view(default),
            }),
            Err(_) => r matches Err(e) && e@ == (ParseErrView { path: path_view(path@), err: PETypeView::Regex }),
        },
{
    match compiled {
        Ok(regex) => Ok(StringConstraint { field_name, constr: StrConstr::Regex(Box::new(regex)), default }),
        Err(e) => Err(ParseErr::new(path, PEType::Regex(e))),
    }
}

/// Builds the string constraint that the grammar mapping `map` declares for
/// the field `field_name`; `path` is the path of that field.
pub fn build<'a>(field_name: &'a Value, map: &'a Mapping, path: &[&'a Value]) -> (r: Result<StringConstraint<'a>, ParseErr<'a>>)
    ensures
        str_build_is(r, spec_str_build(field_name@, map@, path_view(path@))),
{
    match StringConstraintBuilder::new(field_name, map, path) {
        Ok(builder) => builder.from_mapping(),
        Err(e) => Err(e),
    }
}

/// The body of a string rule.
#[derive(Debug, PartialEq)]
pub enum StrRule<'a> {
    Allowed(Vec<&'a String>),
    Disallowed(Vec<&'a String>),
    Regex(Box<WrappedRegex>),
    Equals(&'a String),
    NotEquals(&'a String),
    Any,
}

/// A string field of the grammar with every reference resolved.
#[derive(Debug, PartialEq)]
pub struct StringRule<'a> {
    pub field_name: &'a Value,
    pub rule: StrRule<'a>,
    pub default: Option<&'a String>,
}

/// The mathematical content of a `StrRule`.
pub enum StrRuleView {
    Allowed(Seq<Seq<char>>),
    Disallowed(Seq<Seq<char>>),
    Regex(Seq<char>),
    Equals(Seq<char>),
    NotEquals(Seq<char>),
    Any,
}

/// The mathematical content of a `StringRule`.
pub struct StringRuleView {
    pub field_name: ValueView,
    pub rule: StrRuleView,
    pub default: Option<Seq<char>>,
}

/// The views of a list of borrowed strings, in order.
pub open spec fn strs_view(list: Seq<&String>) -> Seq<Seq<char>> {
    Seq::new(list.len(), |i: int| list[i]@)
}

impl<'a> View for StrRule<'a> {
    type V = StrRuleView;

    open spec fn view(&self) -> StrRuleView {
        match self {
            StrRule::Allowed(v) => StrRuleView::Allowed(strs_view(v@)),
            StrRule::Disallowed(v) => StrRuleView::Disallowed(strs_view(v@)),
            StrRule::Regex(re) => StrRuleView::Regex(re@),
            StrRule::Equals(s) => StrRuleView::Equals(s@),
            StrRule::NotEquals(s) => StrRuleView::NotEquals(s@),
            StrRule::Any => StrRuleView::Any,
        }
    }
}

impl<'a> View for StringRule<'a> {
    type V = StringRuleView;

    open spec fn view(&self) -> StringRuleView {
        StringRuleView { field_name: self.field_name@, rule: self.rule@, default: opt_str_view(self.default) }
    }
}

/// Position of the first reference at or after `start` that does not resolve.
pub open spec fn first_unresolved(refs: Seq<StrRefView>, root: ValueView, context: ConstraintView, start: int) -> Option<int>
    decreases refs.len() - start,
{
    if start < 0 || start >= refs.len() {
        None
    } else if spec_resolve_str(refs[start], root, context) is Err {
        Some(start)
    } else {
        first_unresolved(refs, root, context, start + 1)
    }
}

/// The strings that the references stand for, or the error of the first one
/// that does not resolve.
pub open spec fn spec_resolve_all(refs: Seq<StrRefView>, root: ValueView, context: ConstraintView) -> Result<Seq<Seq<char>>, ValueResolutionErrView> {
    match first_unresolved(refs, root, context, 0) {
        Some(i) => Err(spec_resolve_str(refs[i], root, context)->Err_0),
        None => Ok(Seq::new(refs.len(), |i: int| spec_resolve_str(refs[i], root, context)->Ok_0)),
    }
}

/// The rule body that a constraint body resolves to.
pub open spec fn spec_str_rule(constr: StrConstrView, root: ValueView, context: ConstraintView) -> Result<StrRuleView, ValueResolutionErrView> {
    match constr {
        StrConstrView::Allowed(refs) => match spec_resolve_all(refs, root, context) {
            Ok(list) => Ok(StrRuleView::Allowed(list)),
            Err(e) => Err(e),
        },
        StrConstrView::Disallowed(refs) => match spec_resolve_all(refs, root, context) {
            Ok(list) => Ok(StrRuleView::Disallowed(list)),
            Err(e) => Err(e),
        },
        StrConstrView::Regex(p) => Ok(StrRuleView::Regex(p)),
        StrConstrView::Equals(r) => match spec_resolve_str(r, root, context) {
            Ok(s) => Ok(StrRuleView::Equals(s)),
            Err(e) => Err(e),
        },
        StrConstrView::NotEquals(r) => match spec_resolve_str(r, root, context) {
            Ok(s) => Ok(StrRuleView::NotEquals(s)),
            Err(e) => Err(e),
        },
        StrConstrView::Any => Ok(StrRuleView::Any),
    }
}

/// The rule that a string constraint resolves to.
pub open spec fn spec_string_rule(sc: StringConstraintView, root: ValueView, context: ConstraintView) -> Result<StringRuleView, ValueResolutionErrView> {
    match spec_str_rule(sc.constr, root, context) {
        Ok(rule) => Ok(StringRuleView { field_name: sc.field_name, rule, default: sc.default }),
        Err(e) => Err(e),
    }
}

/// Whether the string `x` satisfies the rule body.
pub open spec fn spec_str_test(rule: StrRuleView, x: Seq<char>) -> bool {
    match rule {
        StrRuleView::Allowed(list) => list.contains(x),
        StrRuleView::Disallowed(list) => !list.contains(x),
        StrRuleView::Regex(p) => regex_matches(p, x),
        StrRuleView::Equals(other) => x == other,
        StrRuleView::NotEquals(other) => x != other,
        StrRuleView::Any => true,
    }
}

/// The result of evaluating a string rule on `value` at `path`: a verdict for
/// a string, an error for anything else.
pub open spec fn spec_string_eval(rule: StringRuleView, value: ValueView, path: Seq<ValueView>) -> EvalItemView {
    match value {
        ValueView::String(x) => Ok(RuleEvalSuccessView { result: spec_str_test(rule.rule, x), path }),
        _ => Err(RuleEvalErrView { path, err: RuleErrTypeView::IncorrectType(value) }),
    }
}

/// Resolves every reference of a list.
pub fn resolve_all<'a>(refs: &Vec<ValueRef<'a, String>>, root: &'a Value, context: &Constraint<'a>) -> (r: Result<Vec<&'a String>, ValueResolutionErr<'a>>)
    ensures
        match spec_resolve_all(refs_view(refs@), root@, context@) {
            Ok(list) => r matches Ok(x) && strs_view(x@) == list,
            Err(e) => r matches Err(x) && x@ == e,
        },
{
    let ghost views = refs_view(refs@);
    let mut out: Vec<&'a String> = Vec::new();
    let mut i: usize = 0;
    while i < refs.len()
        invariant
            i <= refs.len(),
            views == refs_view(refs@),
            first_unresolved(views, root@, context@, 0) == first_unresolved(views, root@, context@, i as int),
            out.len() == i,
            forall|j: int| 0 <= j < i ==> spec_resolve_str(views[j], root@, context@) == Ok::<Seq<char>, ValueResolutionErrView>((#[trigger] out@[j])@),
        decreases refs.len() - i,
    {
        assert(views[i as int] == refs@[i as int]@);
        match refs[i].resolve(root, context) {
            Ok(s) => {
                out.push(s);
            },
            Err(e) => {
                return Err(e);
            },
        }
        i += 1;
    }
    assert(strs_view(out@) =~= spec_resolve_all(views, root@, context@)->Ok_0);
    Ok(out)
}

/// Whether `list` holds a string equal to `x`.
pub fn contains_str(list: &Vec<&String>, x: &String) -> (r: bool)
    ensures
        r == strs_view(list@).contains(x@),
{
    let mut i: usize = 0;
    while i < list.len()
        invariant
            i <= list.len(),
            forall|j: int| 0 <= j < i ==> strs_view(list@)[j] != x@,
        decreases list.len() - i,
    {
        if *list[i] == *x {
            assert(strs_view(list@)[i as int] == x@);
            return true;
        }
        i += 1;
    }
    false
}

impl<'a> StrRule<'a> {
    /// Resolves the references of a constraint body against the document
    /// `root`, looking defaults up in the schema `context`.
    pub fn new(constr: &StrConstr<'a>, root: &'a Value, context: &Constraint<'a>) -> (r: Result<StrRule<'a>, ValueResolutionErr<'a>>)
        ensures
            match spec_str_rule(constr@, root@, context@) {
                Ok(rule) => r matches Ok(x) && x@ == rule,
                Err(e) => r matches Err(x) && x@ == e,
            },
    {
        match constr {
            StrConstr::Allowed(v) => match resolve_all(v, root, context) {
                Ok(list) => Ok(StrRule::Allowed(list)),
                Err(e) => Err(e),
            },
            StrConstr::Disallowed(v) => match resolve_all(v, root, context) {
                Ok(list) => Ok(StrRule::Disallowed(list)),
                Err(e) => Err(e),
            },
            StrConstr::Regex(re) => Ok(StrRule::Regex(Box::new(re.duplicate()))),
            StrConstr::Equals(vr) => match vr.resolve(root, context) {
                Ok(resolved) => Ok(StrRule::Equals(resolved)),
                Err(e) => Err(e),
            },
            StrConstr::NotEquals(vr) => match vr.resolve(root, context) {
                Ok(resolved) => Ok(StrRule::NotEquals(resolved)),
                Err(e) => Err(e),
            },
            StrConstr::Any => Ok(StrRule::Any),
        }
    }

    /// Whether the string `x` satisfies the rule body.
    pub fn test(&self, x: &String) -> (r: bool)
        ensures
            r == spec_str_test(self@, x@),
    {
        match self {
            StrRule::Allowed(list) => contains_str(list, x),
            StrRule::Disallowed(list) => !contains_str(list, x),
            StrRule::Regex(re) => re.is_match(x.as_str()),
            StrRule::Equals(other) => *x == **other,
            StrRule::NotEquals(other) => !(*x == **other),
            StrRule::Any => true,
        }
    }
}

impl<'a> StringRule<'a> {
    /// Resolves the references of a string constraint against the document
    /// `root`, looking defaults up in the schema `context`.
    pub fn new(constraint: &StringConstraint<'a>, root: &'a Value, context: &Constraint<'a>) -> (r: Result<StringRule<'a>, ValueResolutionErr<'a>>)
        ensures
            match spec_string_rule(constraint@, root@, context@) {
                Ok(rule) => r matches Ok(x) && x@ == rule,
                Err(e) => r matches Err(x) && x@ == e,
            },
    {
        match StrRule::new(&constraint.constr, root, context) {
            Ok(rule) => Ok(StringRule { field_name: constraint.field_name, rule, default: constraint.default }),
            Err(v) => Err(v),
        }
    }

    /// Evaluates the rule on `value`, which stands at `path`.
    pub fn eval(&self, value: &'a Value, path: &[&'a Value]) -> (r: RuleEvalResult<'a>)
        ensures
            r is Single,
            eval_items_view(r.items()) == seq![spec_string_eval(self@, value@, path_view(path@))],
    {
        if let Value::String(x) = value {
            RuleEvalSuccess::new(self.rule.test(x), path).into_result()
        } else {
            RuleEvalErr::new(path, RuleErrType::IncorrectType(value)).into_result()
        }
    }
}

} // verus!
