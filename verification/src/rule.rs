//! Rules: constraints whose references are resolved against a document, and
//! their evaluation.

use vstd::prelude::*;
use crate::bubble::Bubble;
use crate::constraint::{Constraint, ConstraintView};
use crate::obj::{opt_mapping_view, ObjRule, ObjRuleView, ObjectRule, ObjectRuleView};
use crate::parse::{all_done, copy_path, done_values, extend_path, failures, Outcome};
use crate::str::{spec_string_eval, spec_string_rule, StringRule, StringRuleView};
use crate::value::{lookup, path_view, Value, ValueView};
use crate::value_ref::{ValueResolutionErr, ValueResolutionErrView};

verus! {

/// What evaluating a rule yields: one verdict or error per field visited.
pub type RuleEvalResult<'a> = Bubble<Result<RuleEvalSuccess<'a>, RuleEvalErr<'a>>>;

/// What resolving a constraint yields.
pub type ValueResolutionResult<'a> = Bubble<Result<Rule<'a>, ValueResolutionErr<'a>>>;

/// Why a field of the document could not be judged.
#[derive(Debug, PartialEq)]
pub enum RuleErrType<'a> {
    MissingRequired,
    /// The mapping holds no entry under this key.
    KeyNotFound(&'a Value),
    /// The document holds a value of another type.
    IncorrectType(&'a Value),
    /// A reference could not be resolved.
    Resolution(ValueResolutionErr<'a>),
}

/// An evaluation error together with the path it was found at.
#[derive(Debug, PartialEq)]
pub struct RuleEvalErr<'a> {
    pub path: Vec<&'a Value>,
    pub err: RuleErrType<'a>,
}

/// The verdict on the field at `path`: whether its constraint holds.
#[derive(Debug, PartialEq)]
pub struct RuleEvalSuccess<'a> {
    pub result: bool,
    pub path: Vec<&'a Value>,
}

/// A node of the grammar with every reference resolved.
#[derive(Debug, PartialEq)]
pub enum Rule<'a> {
    Str(StringRule<'a>),
    Obj(ObjectRule<'a>),
}

/// The mathematical content of a `RuleErrType`.
pub enum RuleErrTypeView {
    MissingRequired,
    KeyNotFound(ValueView),
    IncorrectType(ValueView),
    Resolution(ValueResolutionErrView),
}

/// The mathematical content of a `RuleEvalErr`.
pub struct RuleEvalErrView {
    pub path: Seq<ValueView>,
    pub err: RuleErrTypeView,
}

/// The mathematical content of a `RuleEvalSuccess`.
pub struct RuleEvalSuccessView {
    pub result: bool,
    pub path: Seq<ValueView>,
}

/// The mathematical content of a `Rule`.
pub enum RuleView {
    Str(StringRuleView),
    Obj(ObjectRuleView),
}

/// The mathematical content of one result of an evaluation.
pub type EvalItemView = Result<RuleEvalSuccessView, RuleEvalErrView>;

impl<'a> View for RuleErrType<'a> {
    type V = RuleErrTypeView;

    open spec fn view(&self) -> RuleErrTypeView {
        match self {
            RuleErrType::MissingRequired => RuleErrTypeView::MissingRequired,
            RuleErrType::KeyNotFound(v) => RuleErrTypeView::KeyNotFound(v@),
            RuleErrType::IncorrectType(v) => RuleErrTypeView::IncorrectType(v@),
            RuleErrType::Resolution(e) => RuleErrTypeView::Resolution(e@),
        }
    }
}

impl<'a> View for RuleEvalErr<'a> {
    type V = RuleEvalErrView;

    open spec fn view(&self) -> RuleEvalErrView {
        RuleEvalErrView { path: path_view(self.path@), err: self.err@ }
    }
}

impl<'a> View for RuleEvalSuccess<'a> {
    type V = RuleEvalSuccessView;

    open spec fn view(&self) -> RuleEvalSuccessView {
        RuleEvalSuccessView { result: self.result, path: path_view(self.path@) }
    }
}

/// The mathematical content of `r`.
pub open spec fn rule_view(r: &Rule) -> RuleView
    decreases r,
{
    match r {
        Rule::Str(s) => RuleView::Str(s@),
        Rule::Obj(o) => RuleView::Obj(
            ObjectRuleView {
                field_name: o.field_name@,
                rule: match &o.rule {
                    ObjRule::Fields(fields) => ObjRuleView::Fields(
                        Seq::new(
                            fields@.len(),
                            |i: int| if 0 <= i < fields@.len() {
                                rule_view(&fields@[i])
                            } else {
                                arbitrary()
                            },
                        ),
                    ),
                    ObjRule::Any => ObjRuleView::Any,
                },
                default: opt_mapping_view(o.default),
            },
        ),
    }
}

impl<'a> View for Rule<'a> {
    type V = RuleView;

    open spec fn view(&self) -> RuleView {
        rule_view(self)
    }
}

impl<'a> View for ObjectRule<'a> {
    type V = ObjectRuleView;

    open spec fn view(&self) -> ObjectRuleView {
        rule_view(&Rule::Obj(*self))->Obj_0
    }
}

/// The views of the rules of `fields`, in order.
pub open spec fn rules_view(fields: Seq<Rule>) -> Seq<RuleView> {
    Seq::new(fields.len(), |i: int| rule_view(&fields[i]))
}

/// The view of an object rule, field by field.
pub proof fn lemma_object_rule_view(o: &ObjectRule)
    ensures
        o@.field_name == o.field_name@,
        o@.default == opt_mapping_view(o.default),
        o.rule is Any ==> o@.rule is Any,
        o.rule matches ObjRule::Fields(fields) ==> o@.rule == ObjRuleView::Fields(rules_view(fields@)),
        rule_view(&Rule::Obj(*o)) == RuleView::Obj(o@),
{
    match &o.rule {
        ObjRule::Fields(fields) => {
            assert(o@.rule->Fields_0 =~= rules_view(fields@));
        },
        ObjRule::Any => {},
    }
}

/// The name of the field that `r` is about.
pub open spec fn rule_name(r: RuleView) -> ValueView {
    match r {
        RuleView::Str(s) => s.field_name,
        RuleView::Obj(o) => o.field_name,
    }
}

/// The view of one result of an evaluation.
pub open spec fn eval_item_view(item: Result<RuleEvalSuccess, RuleEvalErr>) -> EvalItemView {
    match item {
        Ok(s) => Ok(s@),
        Err(e) => Err(e@),
    }
}

/// The views of the results of an evaluation, in order.
pub open spec fn eval_items_view(items: Seq<Result<RuleEvalSuccess, RuleEvalErr>>) -> Seq<EvalItemView> {
    Seq::new(items.len(), |i: int| eval_item_view(items[i]))
}

/// The parts of `parts`, one after the other.
pub open spec fn flat<T>(parts: Seq<Seq<T>>) -> Seq<T>
    decreases parts.len(),
{
    if parts.len() == 0 {
        Seq::empty()
    } else {
        flat(parts.drop_last()) + parts.last()
    }
}

/// What one more part adds to a prefix.
pub proof fn lemma_flat_step<T>(parts: Seq<Seq<T>>, i: int)
    requires
        0 <= i < parts.len(),
    ensures
        flat(parts.subrange(0, i + 1)) == flat(parts.subrange(0, i)) + parts[i],
{
    assert(parts.subrange(0, i + 1).drop_last() =~= parts.subrange(0, i));
}

/// `r` holds exactly what `o` describes: one rule, or only errors.
pub open spec fn resolution_result_is(r: ValueResolutionResult, o: Outcome<RuleView, ValueResolutionErrView>) -> bool {
    match o {
        Outcome::Done(c) => r matches Bubble::Single(Ok(x)) && x@ == c,
        Outcome::Failed(es) => r.items().len() == es.len() && forall|i: int|
            0 <= i < es.len() ==> ((#[trigger] r.items()[i]) matches Err(e) && e@ == es[i]),
    }
}

/// The outcomes of resolving each constraint of `fields`.
pub open spec fn spec_rule_children(fields: Seq<ConstraintView>, root: ValueView, context: ConstraintView) -> Seq<Outcome<RuleView, ValueResolutionErrView>>
    decreases fields,
{
    Seq::new(
        fields.len(),
        |i: int| if 0 <= i < fields.len() {
            spec_rule(fields[i], root, context)
        } else {
            arbitrary()
        },
    )
}

/// The outcome of resolving the constraint `c` against the document `root`,
/// with `context` as the schema in which defaults are looked up: a rule of the
/// same shape, or every resolution error of the subtree.
pub open spec fn spec_rule(c: ConstraintView, root: ValueView, context: ConstraintView) -> Outcome<RuleView, ValueResolutionErrView>
    decreases c,
{
    match c {
        ConstraintView::Str(sc) => match spec_string_rule(sc, root, context) {
            Ok(r) => Outcome::Done(RuleView::Str(r)),
            Err(e) => Outcome::Failed(seq![e]),
        },
        ConstraintView::Obj(oc) => match oc.constr {
            crate::obj::ObjConstrView::Any => Outcome::Done(
                RuleView::Obj(
                    ObjectRuleView { field_name: oc.field_name, rule: ObjRuleView::Any, default: oc.default },
                ),
            ),
            crate::obj::ObjConstrView::Fields(fields) => {
                let children = spec_rule_children(fields, root, context);
                if all_done(children) {
                    Outcome::Done(
                        RuleView::Obj(
                            ObjectRuleView {
                                field_name: oc.field_name,
                                rule: ObjRuleView::Fields(done_values(children)),
                                default: oc.default,
                            },
                        ),
                    )
                } else {
                    Outcome::Failed(failures(children))
                }
            },
        },
    }
}

/// The results of evaluating the rule `rule` on the entry that the mapping `m`
/// holds under `key`; a missing entry is an error at `path`.
pub open spec fn spec_subrule(key: ValueView, rule: RuleView, m: Seq<(ValueView, ValueView)>, path: Seq<ValueView>) -> Seq<EvalItemView>
    decreases rule, 1int,
{
    match lookup(m, key) {
        Some(v) => spec_eval(rule, v, path),
        None => seq![Err(RuleEvalErrView { path, err: RuleErrTypeView::KeyNotFound(key) })],
    }
}

/// The results of evaluating each rule of `rules` on the entry that the
/// mapping `m` holds under the name of the rule's field.
pub open spec fn spec_eval_children(rules: Seq<RuleView>, m: Seq<(ValueView, ValueView)>, path: Seq<ValueView>) -> Seq<Seq<EvalItemView>>
    decreases rules, 2int,
{
    Seq::new(
        rules.len(),
        |i: int| if 0 <= i < rules.len() {
            spec_subrule(rule_name(rules[i]), rules[i], m, path)
        } else {
            arbitrary()
        },
    )
}

/// The results of evaluating `rule` on `value`, the rule's field standing
/// below `parent_path`: one verdict for a string, one for an object that
/// accepts any structure, and for an object with declared fields the results
/// of all its fields, in order.
pub open spec fn spec_eval(rule: RuleView, value: ValueView, parent_path: Seq<ValueView>) -> Seq<EvalItemView>
    decreases rule, 0int,
{
    let path = parent_path.push(rule_name(rule));
    match rule {
        RuleView::Str(sr) => seq![spec_string_eval(sr, value, path)],
        RuleView::Obj(or) => match or.rule {
            ObjRuleView::Any => seq![Ok(RuleEvalSuccessView { result: true, path })],
            ObjRuleView::Fields(rules) => match value {
                ValueView::Mapping(m) => flat(spec_eval_children(rules, m, path)),
                _ => seq![Err(RuleEvalErrView { path, err: RuleErrTypeView::IncorrectType(value) })],
            },
        },
    }
}

impl<'a> RuleEvalErr<'a> {
    /// An error of kind `err` at `path`.
    pub fn new(path: &[&'a Value], err: RuleErrType<'a>) -> (r: RuleEvalErr<'a>)
        ensures
            r.path@ == path@,
            r.err == err,
            r@ == (RuleEvalErrView { path: path_view(path@), err: err@ }),
    {
        RuleEvalErr { path: copy_path(path), err }
    }

    /// The bubble that holds this error alone.
    pub fn into_result(self) -> (r: RuleEvalResult<'a>)
        ensures
            r == Bubble::<Result<RuleEvalSuccess<'a>, RuleEvalErr<'a>>>::Single(Err(self)),
            eval_items_view(r.items()) == seq![Err::<RuleEvalSuccessView, RuleEvalErrView>(self@)],
    {
        let r = Bubble::Single(Err(self));
        assert(eval_items_view(r.items()) =~= seq![Err::<RuleEvalSuccessView, RuleEvalErrView>(self@)]);
        r
    }
}

impl<'a> RuleEvalSuccess<'a> {
    /// The verdict `result` on the field at `path`.
    pub fn new(result: bool, path: &[&'a Value]) -> (r: RuleEvalSuccess<'a>)
        ensures
            r.path@ == path@,
            r.result == result,
            r@ == (RuleEvalSuccessView { result, path: path_view(path@) }),
    {
        RuleEvalSuccess { result, path: copy_path(path) }
    }

    /// The bubble that holds this verdict alone.
    pub fn into_result(self) -> (r: RuleEvalResult<'a>)
        ensures
            r == Bubble::<Result<RuleEvalSuccess<'a>, RuleEvalErr<'a>>>::Single(Ok(self)),
            eval_items_view(r.items()) == seq![Ok::<RuleEvalSuccessView, RuleEvalErrView>(self@)],
    {
        let r = Bubble::Single(Ok(self));
        assert(eval_items_view(r.items()) =~= seq![Ok::<RuleEvalSuccessView, RuleEvalErrView>(self@)]);
        r
    }
}

impl<'a> Rule<'a> {
    /// Resolves every reference of `constraint` against the document `root`.
    /// The constraint itself is the schema in which defaults are looked up.
    pub fn new(constraint: &Constraint<'a>, root: &'a Value) -> (r: ValueResolutionResult<'a>)
        ensures
            resolution_result_is(r, spec_rule(constraint@, root@, constraint@)),
            r.items().len() > 0,
            r is Multi <==> (constraint is Obj && spec_rule(constraint@, root@, constraint@) is Failed),
    {
        Rule::resolve(constraint, root, constraint)
    }

    /// Resolves every reference of `constraint` against the document `root`,
    /// looking defaults up in the schema `context`.
    pub fn resolve(constraint: &Constraint<'a>, root: &'a Value, context: &Constraint<'a>) -> (r: ValueResolutionResult<'a>)
        ensures
            resolution_result_is(r, spec_rule(constraint@, root@, context@)),
            r.items().len() > 0,
            r is Multi <==> (constraint is Obj && spec_rule(constraint@, root@, context@) is Failed),
        decreases constraint, 1int,
    {
        match constraint {
            Constraint::Str(sc) => {
                match StringRule::new(sc, root, context) {
                    Ok(sr) => Bubble::Single(Ok(Rule::Str(sr))),
                    Err(e) => {
                        let r = Bubble::Single(Err(e));
                        assert(r.items()[0] == Err::<Rule<'a>, ValueResolutionErr<'a>>(e));
                        r
                    },
                }
            },
            Constraint::Obj(oc) => {
                proof {
                    crate::constraint::lemma_object_view(oc);
                }
                ObjectRule::resolve(oc, root, context)
            },
        }
    }

    /// The name of the field that the rule is about.
    pub fn field_name(&self) -> (r: &'a Value)
        ensures
            r@ == rule_name(self@),
            r == match self {
                Rule::Str(sr) => sr.field_name,
                Rule::Obj(or) => or.field_name,
            },
    {
        match self {
            Rule::Str(sr) => sr.field_name,
            Rule::Obj(or) => or.field_name,
        }
    }

    /// Evaluates the rule on `value`; the rule's field stands below
    /// `parent_path`.
    pub fn eval(&self, value: &'a Value, parent_path: &[&'a Value]) -> (r: RuleEvalResult<'a>)
        ensures
            eval_items_view(r.items()) == spec_eval(self@, value@, path_view(parent_path@)),
            r is Multi <==> (self matches Rule::Obj(object) && object.rule is Fields && value is Mapping),
        decreases self, 1int,
    {
        let path = extend_path(parent_path, self.field_name());
        match self {
            Rule::Str(sr) => sr.eval(value, path.as_slice()),
            Rule::Obj(or) => {
                proof {
                    lemma_object_rule_view(or);
                }
                or.eval(value, path.as_slice())
            },
        }
    }
}

} // verus!
