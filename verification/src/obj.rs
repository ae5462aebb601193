//! Object constraints and object rules.

use vstd::prelude::*;
use crate::bubble::Bubble;
use crate::constraint::{
    constraints_view, field_from, field_name_of, lemma_field_from, lemma_object_view, spec_children,
    spec_obj_fetch, spec_parse, unique_fields, Constraint, ConstraintView,
};
use crate::parse::{
    all_done, copy_path_from, done_values, extend_path, failures, lemma_outcomes_step, parse_result_is, Outcome, PEType, PETypeView,
    ParseErr, ParseErrView, YamlParseResult,
};
use crate::rule::{
    eval_items_view, flat, lemma_flat_step, lemma_object_rule_view, resolution_result_is, rules_view,
    spec_eval_children, spec_rule, spec_rule_children, spec_subrule, Rule, RuleErrType, RuleErrTypeView,
    RuleEvalErr, RuleEvalErrView, RuleEvalResult, RuleEvalSuccess, RuleEvalSuccessView, RuleView,
    ValueResolutionResult,
};
use crate::value::{index_of, lookup, path_view, Mapping, Value, ValueView};
use crate::value_ref::{DefaultFetchErr, ValueResolutionErr, ValueResolutionErrView};

verus! {

/// The body of an object constraint.
#[derive(Debug, PartialEq)]
pub enum ObjConstr<'a> {
    /// The constraints of the declared fields, in the order of declaration.
    Fields(Vec<Constraint<'a>>),
    /// Any internal structure is accepted.
    Any,
}

/// An object field of the grammar.
#[derive(Debug, PartialEq)]
pub struct ObjectConstraint<'a> {
    pub field_name: &'a Value,
    pub constr: ObjConstr<'a>,
    pub default: Option<&'a Mapping>,
}

/// The mathematical content of an `ObjConstr`.
pub enum ObjConstrView {
    Fields(Seq<ConstraintView>),
    Any,
}

/// The mathematical content of an `ObjectConstraint`.
pub struct ObjectConstraintView {
    pub field_name: ValueView,
    pub constr: ObjConstrView,
    pub default: Option<Seq<(ValueView, ValueView)>>,
}

/// The view of an optional borrowed mapping.
pub open spec fn opt_mapping_view(m: Option<&Mapping>) -> Option<Seq<(ValueView, ValueView)>> {
    match m {
        Some(x) => Some(x@),
        None => None,
    }
}

/// The default that an object field's grammar mapping declares.
pub open spec fn spec_obj_default(config: Seq<(ValueView, ValueView)>) -> Result<Option<Seq<(ValueView, ValueView)>>, PETypeView> {
    match lookup(config, ValueView::String("default"@)) {
        None => Ok(None),
        Some(ValueView::Mapping(m)) => Ok(Some(m)),
        Some(v) => Err(PETypeView::InvalidDefault(v)),
    }
}

/// The object constraint on the field `field_name` at `path` whose grammar
/// mapping is `config`, given the outcomes `children` of parsing the entries
/// under `fields`. An invalid default is reported first; without `fields` the
/// object accepts any structure; each failing entry contributes all its
/// errors, and only if none fails is the object built.
pub open spec fn spec_obj_build(
    field_name: ValueView,
    config: Seq<(ValueView, ValueView)>,
    path: Seq<ValueView>,
    children: Seq<Outcome<ConstraintView, ParseErrView>>,
) -> Outcome<ConstraintView, ParseErrView> {
    match spec_obj_default(config) {
        Err(e) => Outcome::Failed(seq![ParseErrView { path, err: e }]),
        Ok(default) => match lookup(config, ValueView::String("fields"@)) {
            None => Outcome::Done(
                ConstraintView::Obj(ObjectConstraintView { field_name, constr: ObjConstrView::Any, default }),
            ),
            Some(ValueView::Mapping(_)) => if all_done(children) {
                Outcome::Done(
                    ConstraintView::Obj(
                        ObjectConstraintView {
                            field_name,
                            constr: ObjConstrView::Fields(done_values(children)),
                            default,
                        },
                    ),
                )
            } else {
                Outcome::Failed(failures(children))
            },
            Some(v) => Outcome::Failed(seq![ParseErrView { path, err: PETypeView::IncorrectType(v) }]),
        },
    }
}

/// The outcome of building the object constraint that the grammar mapping
/// `config` declares for the field `field_name` below `parent_path`.
pub open spec fn spec_build(field_name: ValueView, config: Seq<(ValueView, ValueView)>, parent_path: Seq<ValueView>) -> Outcome<ConstraintView, ParseErrView> {
    spec_obj_build(
        field_name,
        config,
        parent_path.push(field_name),
        spec_children(config, parent_path.push(field_name)),
    )
}

struct ObjectConstraintBuilder<'a, 'b> {
    field_name: &'a Value,
    config: &'a Mapping,
    path: &'b [&'a Value],
    default: Option<&'a Mapping>,
}

impl<'a, 'b> ObjectConstraintBuilder<'a, 'b> {
    fn new(field_name: &'a Value, config: &'a Mapping, path: &'b [&'a Value]) -> (r: Result<Self, ParseErr<'a>>)
        ensures
            match spec_obj_default(config@) {
                Ok(d) => r matches Ok(b) && b.field_name == field_name && b.config == config && b.path@ == path@
                    && opt_mapping_view(b.default) == d,
                Err(e) => r matches Err(x) && x@ == (ParseErrView {
                    path: path_view(path@).push(field_name@),
                    err: e,
                }),
            },
    {
        match Self::field_default(field_name, config, path) {
            Ok(default) => Ok(Self { field_name, config, path, default }),
            Err(e) => Err(e),
        }
    }

    fn field_default(field_name: &'a Value, config: &'a Mapping, path: &'b [&'a Value]) -> (r: Result<Option<&'a Mapping>, ParseErr<'a>>)
        ensures
            match spec_obj_default(config@) {
                Ok(d) => r matches Ok(x) && opt_mapping_view(x) == d,
                Err(e) => r matches Err(x) && x@ == (ParseErrView {
                    path: path_view(path@).push(field_name@),
                    err: e,
                }),
            },
    {
        match config.get_str("default") {
            Some(val) => match val {
                Value::Mapping(m) => Ok(Some(m)),
                _ => {
                    let at = extend_path(path, field_name);
                    Err(ParseErr::new(at.as_slice(), PEType::InvalidDefault(val)))
                },
            },
            None => Ok(None),
        }
    }

    /// The builder holds the default that its mapping declares.
    spec fn ready(&self) -> bool {
        match spec_obj_default(self.config@) {
            Ok(d) => d == opt_mapping_view(self.default),
            Err(_) => false,
        }
    }

    /// The path of the object itself.
    fn path(&self) -> (r: Vec<&'a Value>)
        ensures
            r@ == self.path@.push(self.field_name),
            path_view(r@) == path_view(self.path@).push(self.field_name@),
    {
        extend_path(self.path, self.field_name)
    }

    fn from_mapping(&self) -> (r: YamlParseResult<'a>)
        requires
            self.ready(),
        ensures
            parse_result_is(r, spec_build(self.field_name@, self.config@, path_view(self.path@))),
            r.items().len() > 0,
            r is Multi <==> spec_build(self.field_name@, self.config@, path_view(self.path@)) is Failed,
        decreases self.config, 1int,
    {
        if let Some(val) = self.config.get_str("fields") {
            return self.fields(val);
        }
        let any = ObjectConstraint::new(self.field_name, ObjConstr::Any, self.default);
        proof {
            lemma_object_view(&any);
        }
        any.into_result()
    }

    fn fields(&self, fields: &'a Value) -> (r: YamlParseResult<'a>)
        requires
            self.ready(),
            match index_of(self.config@, ValueView::String("fields"@)) {
                Some(i) => 0 <= i < self.config.entries@.len() && fields == &self.config.entries@[i].1,
                None => false,
            },
        ensures
            parse_result_is(r, spec_build(self.field_name@, self.config@, path_view(self.path@))),
            r.items().len() > 0,
            r is Multi <==> spec_build(self.field_name@, self.config@, path_view(self.path@)) is Failed,
        decreases fields, 0int,
    {
        let path = self.path();
        if let Value::Mapping(f) = fields {
            let ghost pathv = path_view(path@);
            let ghost children = spec_children(self.config@, pathv);
            let mut oks: Vec<Constraint<'a>> = Vec::new();
            let mut errs: Vec<Result<Constraint<'a>, ParseErr<'a>>> = Vec::new();
            let mut i: usize = 0;
            proof {
                let at = index_of(self.config@, ValueView::String("fields"@))->Some_0;
                assert(self.config@[at].1 == fields@);
                assert(fields@ == ValueView::Mapping(f@));
                assert(children.len() == f@.len());
                assert(children.subrange(0, 0) =~= Seq::empty());
            }
            while i < f.entries.len()
                invariant
                    i <= f.entries.len(),
                    fields is Mapping,
                    fields->Mapping_0 == *f,
                    pathv == path_view(path@),
                    children.len() == f.entries.len(),
                    forall|j: int| 0 <= j < children.len() ==> #[trigger] children[j] == spec_parse(
                        f.entries@[j].0@,
                        f.entries@[j].1@,
                        pathv,
                    ),
                    errs.len() == failures(children.subrange(0, i as int)).len(),
                    forall|j: int| 0 <= j < errs.len() ==> ((#[trigger] errs@[j]) matches Err(e) && e@ == failures(
                        children.subrange(0, i as int),
                    )[j]),
                    (errs.len() == 0) == all_done(children.subrange(0, i as int)),
                    errs.len() == 0 ==> oks.len() == i,
                    errs.len() == 0 ==> forall|j: int| 0 <= j < i ==> children[j] == Outcome::<ConstraintView, ParseErrView>::Done((#[trigger] oks@[j])@),
                decreases f.entries.len() - i,
            {
                let child = Constraint::parse(&f.entries[i].0, &f.entries[i].1, path.as_slice());
                proof {
                    lemma_outcomes_step(children, i as int);
                }
                let ghost before = failures(children.subrange(0, i as int));
                let ghost old_errs = errs@;
                match child {
                    Bubble::Single(Ok(c)) => {
                        assert(child.items()[0] == Ok::<Constraint, ParseErr>(c));
                        assert(children[i as int] is Done);
                        assert(failures(children.subrange(0, i as int + 1)) =~= before);
                        if errs.len() == 0 {
                            oks.push(c);
                        }
                    },
                    other => {
                        assert(children[i as int] is Failed);
                        let ghost es = children[i as int]->Failed_0;
                        let mut items = other.get();
                        errs.append(&mut items);
                        assert(errs@ =~= old_errs + other.items());
                        assert forall|j: int| 0 <= j < errs.len() implies ((#[trigger] errs@[j]) matches Err(e)
                            && e@ == (before + es)[j]) by {
                            if j >= old_errs.len() {
                                assert(errs@[j] == other.items()[j - old_errs.len()]);
                            } else {
                                assert(errs@[j] == old_errs[j]);
                            }
                        }
                    },
                }
                i += 1;
            }
            assert(children.subrange(0, i as int) =~= children);
            if errs.len() == 0 {
                let ghost oks_view = constraints_view(oks@);
                let built = ObjectConstraint::new(self.field_name, ObjConstr::Fields(oks), self.default);
                proof {
                    lemma_object_view(&built);
                    assert(oks_view =~= done_values(children));
                }
                built.into_result()
            } else {
                let r = Bubble::Multi(errs);
                r
            }
        } else {
            ParseErr::new(path.as_slice(), PEType::IncorrectType(fields)).into_multi()
        }
    }
}

/// Builds the object constraint that the grammar mapping `config` declares for
/// the field `field_name`, which stands below `path`: the constraint alone, or
/// the list of every error found.
pub fn build<'a>(field_name: &'a Value, config: &'a Mapping, path: &[&'a Value]) -> (r: YamlParseResult<'a>)
    ensures
        parse_result_is(r, spec_build(field_name@, config@, path_view(path@))),
        r.items().len() > 0,
        r is Multi <==> spec_build(field_name@, config@, path_view(path@)) is Failed,
    decreases config, 2int,
{
    match ObjectConstraintBuilder::new(field_name, config, path) {
        Ok(builder) => builder.from_mapping(),
        Err(e) => e.into_multi(),
    }
}

impl<'a> ObjectConstraint<'a> {
    /// The bubble that holds this constraint alone.
    pub fn into_result(self) -> (r: YamlParseResult<'a>)
        ensures
            r == Bubble::<Result<Constraint<'a>, ParseErr<'a>>>::Single(Ok(Constraint::Obj(self))),
            parse_result_is(r, Outcome::Done(ConstraintView::Obj(self@))),
            r.items().len() == 1,
    {
        proof {
            lemma_object_view(&self);
        }
        Bubble::Single(Ok(Constraint::Obj(self)))
    }

    /// The constraint that accepts any structure and declares no default.
    pub fn default(field_name: &'a Value) -> (r: ObjectConstraint<'a>)
        ensures
            r.field_name == field_name,
            r.constr is Any,
            r.default is None,
            r@ == (ObjectConstraintView { field_name: field_name@, constr: ObjConstrView::Any, default: None }),
    {
        let r = ObjectConstraint { field_name, constr: ObjConstr::Any, default: None };
        proof {
            lemma_object_view(&r);
        }
        r
    }

    /// An object constraint made of its parts.
    pub fn new(field_name: &'a Value, constr: ObjConstr<'a>, default: Option<&'a Mapping>) -> (r: ObjectConstraint<'a>)
        ensures
            r.field_name == field_name,
            r.constr == constr,
            r.default == default,
    {
        ObjectConstraint { field_name, constr, default }
    }

    /// Position of the first declared field named `key`, at or after `start`.
    fn field_position(fields: &Vec<Constraint<'a>>, key: &Value) -> (r: Option<usize>)
        ensures
            match r {
                Some(i) => i < fields.len() && field_from(constraints_view(fields@), key@, 0) == Some(i as int),
                None => field_from(constraints_view(fields@), key@, 0) is None,
            },
    {
        let mut i: usize = 0;
        while i < fields.len()
            invariant
                i <= fields.len(),
                field_from(constraints_view(fields@), key@, 0) == field_from(
                    constraints_view(fields@),
                    key@,
                    i as int,
                ),
            decreases fields.len() - i,
        {
            if fields[i].field_name().same(key) {
                return Some(i);
            }
            i += 1;
        }
        None
    }

    /// Declares a field: `constraint` takes the place of the first field named
    /// `field_name`, or else becomes the last field. An object that accepts any
    /// structure stays as it is.
    pub fn add(&mut self, field_name: &'a Value, constraint: Constraint<'a>)
        ensures
            final(self).field_name == old(self).field_name,
            final(self).default == old(self).default,
            old(self).constr is Any ==> final(self).constr is Any,
            old(self).constr matches ObjConstr::Fields(before) ==> (final(self).constr matches ObjConstr::Fields(after)
                && match field_from(constraints_view(before@), field_name@, 0) {
                Some(i) => after@ == before@.update(i, constraint),
                None => after@ == before@.push(constraint),
            }),
            (old(self).constr matches ObjConstr::Fields(before) && field_name@ == field_name_of(constraint@)
                && unique_fields(constraints_view(before@))) ==> (final(self).constr matches ObjConstr::Fields(
                after,
            ) && unique_fields(constraints_view(after@))),
    {
        match &mut self.constr {
            ObjConstr::Fields(fields) => {
                let ghost before = constraints_view(fields@);
                proof {
                    lemma_field_from(before, field_name@, 0);
                }
                match Self::field_position(fields, field_name) {
                    Some(i) => {
                        fields[i] = constraint;
                        assert(constraints_view(fields@) =~= before.update(i as int, constraint@));
                    },
                    None => {
                        fields.push(constraint);
                        assert(constraints_view(fields@) =~= before.push(constraint@));
                    },
                }
            },
            ObjConstr::Any => {},
        }
    }

    /// Looks up the constraint that this object declares at `path`.
    pub fn constraint<'c>(&'c self, path: &[&'a Value]) -> (r: Result<&'c Constraint<'a>, DefaultFetchErr<'a>>)
        ensures
            match spec_obj_fetch(self@, path_view(path@)) {
                Ok(c) => r matches Ok(x) && x@ == c,
                Err(e) => r matches Err(x) && x@ == e,
            },
    {
        let ghost whole = path_view(path@);
        let ghost n = path.len() as int;
        let mut curr: &'c ObjectConstraint<'a> = self;
        let mut i: usize = 0;
        assert(whole.subrange(0, n) =~= whole);
        loop
            invariant
                i <= path.len(),
                n == path.len(),
                whole == path_view(path@),
                spec_obj_fetch(self@, whole) == spec_obj_fetch(curr@, whole.subrange(i as int, n)),
            decreases path.len() - i,
        {
            let ghost rest = whole.subrange(i as int, n);
            proof {
                lemma_object_view(curr);
            }
            if i >= path.len() {
                return Err(DefaultFetchErr::PathIsTooShort(copy_path_from(path, i)));
            }
            assert(rest[0] == path@[i as int]@);
            match &curr.constr {
                ObjConstr::Any => {
                    return Err(DefaultFetchErr::ConstraintIsAny(copy_path_from(path, i)));
                },
                ObjConstr::Fields(fields) => {
                    match Self::field_position(fields, path[i]) {
                        None => {
                            return Err(DefaultFetchErr::KeyNotFound(copy_path_from(path, i)));
                        },
                        Some(at) => {
                            let found = &fields[at];
                            assert(found@ == constraints_view(fields@)[at as int]);
                            if i + 1 == path.len() {
                                return Ok(found);
                            }
                            match found {
                                Constraint::Obj(inner) => {
                                    proof {
                                        lemma_object_view(inner);
                                        assert(rest.subrange(1, rest.len() as int) =~= whole.subrange(
                                            i as int + 1,
                                            n,
                                        ));
                                    }
                                    curr = inner;
                                    i += 1;
                                },
                                Constraint::Str(s) => {
                                    let copy = s.duplicate();
                                    return Err(
                                        DefaultFetchErr::IncorrectType {
                                            residual_path: copy_path_from(path, i),
                                            constr: Constraint::Str(copy),
                                        },
                                    );
                                },
                            }
                        },
                    }
                },
            }
        }
    }
}

/// The body of an object rule.
#[derive(Debug, PartialEq)]
pub enum ObjRule<'a> {
    /// The rules of the declared fields, in the order of declaration.
    Fields(Vec<Rule<'a>>),
    /// Any internal structure is accepted.
    Any,
}

/// An object field of the grammar with every reference resolved.
#[derive(Debug, PartialEq)]
pub struct ObjectRule<'a> {
    pub field_name: &'a Value,
    pub rule: ObjRule<'a>,
    pub default: Option<&'a Mapping>,
}

/// The mathematical content of an `ObjRule`.
pub enum ObjRuleView {
    Fields(Seq<RuleView>),
    Any,
}

/// The mathematical content of an `ObjectRule`.
pub struct ObjectRuleView {
    pub field_name: ValueView,
    pub rule: ObjRuleView,
    pub default: Option<Seq<(ValueView, ValueView)>>,
}

impl<'a> ObjectRule<'a> {
    /// The bubble that holds this rule alone.
    pub fn into_result(self) -> (r: ValueResolutionResult<'a>)
        ensures
            r == Bubble::<Result<Rule<'a>, ValueResolutionErr<'a>>>::Single(Ok(Rule::Obj(self))),
            resolution_result_is(r, Outcome::Done(RuleView::Obj(self@))),
            r.items().len() == 1,
    {
        proof {
            lemma_object_rule_view(&self);
        }
        Bubble::Single(Ok(Rule::Obj(self)))
    }

    /// Resolves every field of an object constraint against the document
    /// `root`, looking defaults up in the schema `context`. If any field
    /// fails, the result holds the errors of all failing fields and nothing
    /// else.
    pub fn resolve(constraint: &ObjectConstraint<'a>, root: &'a Value, context: &Constraint<'a>) -> (r: ValueResolutionResult<'a>)
        ensures
            resolution_result_is(r, spec_rule(ConstraintView::Obj(constraint@), root@, context@)),
            r.items().len() > 0,
            r is Multi <==> spec_rule(ConstraintView::Obj(constraint@), root@, context@) is Failed,
        decreases constraint, 0int,
    {
        proof {
            lemma_object_view(constraint);
        }
        match &constraint.constr {
            ObjConstr::Fields(constraints) => {
                let ghost children = spec_rule_children(constraints_view(constraints@), root@, context@);
                let mut oks: Vec<Rule<'a>> = Vec::new();
                let mut errs: Vec<Result<Rule<'a>, ValueResolutionErr<'a>>> = Vec::new();
                let mut i: usize = 0;
                assert(children.subrange(0, 0) =~= Seq::empty());
                while i < constraints.len()
                    invariant
                        i <= constraints.len(),
                        constraint.constr is Fields,
                        constraint.constr->Fields_0 == *constraints,
                        children == spec_rule_children(constraints_view(constraints@), root@, context@),
                        children.len() == constraints.len(),
                        errs.len() == failures(children.subrange(0, i as int)).len(),
                        forall|j: int| 0 <= j < errs.len() ==> ((#[trigger] errs@[j]) matches Err(e) && e@
                            == failures(children.subrange(0, i as int))[j]),
                        (errs.len() == 0) == all_done(children.subrange(0, i as int)),
                        errs.len() == 0 ==> oks.len() == i,
                        errs.len() == 0 ==> forall|j: int| 0 <= j < i ==> children[j] == Outcome::<RuleView, ValueResolutionErrView>::Done((#[trigger] oks@[j])@),
                    decreases constraints.len() - i,
                {
                    let child = Rule::resolve(&constraints[i], root, context);
                    proof {
                        lemma_outcomes_step(children, i as int);
                    }
                    let ghost before = failures(children.subrange(0, i as int));
                    let ghost old_errs = errs@;
                    match child {
                        Bubble::Single(Ok(c)) => {
                            assert(child.items()[0] == Ok::<Rule, ValueResolutionErr>(c));
                            assert(children[i as int] is Done);
                            assert(failures(children.subrange(0, i as int + 1)) =~= before);
                            if errs.len() == 0 {
                                oks.push(c);
                            }
                        },
                        other => {
                            assert(children[i as int] is Failed);
                            let ghost es = children[i as int]->Failed_0;
                            let mut items = other.get();
                            errs.append(&mut items);
                            assert(errs@ =~= old_errs + other.items());
                            assert forall|j: int| 0 <= j < errs.len() implies ((#[trigger] errs@[j]) matches Err(e)
                                && e@ == (before + es)[j]) by {
                                if j >= old_errs.len() {
                                    assert(errs@[j] == other.items()[j - old_errs.len()]);
                                } else {
                                    assert(errs@[j] == old_errs[j]);
                                }
                            }
                        },
                    }
                    i += 1;
                }
                assert(children.subrange(0, i as int) =~= children);
                if errs.len() == 0 {
                    let ghost oks_view = rules_view(oks@);
                    let built = ObjectRule {
                        field_name: constraint.field_name,
                        rule: ObjRule::Fields(oks),
                        default: constraint.default,
                    };
                    proof {
                        lemma_object_rule_view(&built);
                        assert(oks_view =~= done_values(children));
                    }
                    built.into_result()
                } else {
                    Bubble::Multi(errs)
                }
            },
            ObjConstr::Any => {
                let built = ObjectRule {
                    field_name: constraint.field_name,
                    rule: ObjRule::Any,
                    default: constraint.default,
                };
                proof {
                    lemma_object_rule_view(&built);
                }
                built.into_result()
            },
        }
    }

    /// Evaluates the rule on `value`, which stands at `path`. An object that
    /// accepts any structure is satisfied; one with declared fields asks for a
    /// mapping and collects the results of all its fields.
    pub fn eval(&self, value: &'a Value, path: &[&'a Value]) -> (r: RuleEvalResult<'a>)
        ensures
            eval_items_view(r.items()) == match self@.rule {
                ObjRuleView::Any => seq![
                    Ok::<RuleEvalSuccessView, RuleEvalErrView>(
                        RuleEvalSuccessView { result: true, path: path_view(path@) },
                    ),
                ],
                ObjRuleView::Fields(rules) => match value@ {
                    ValueView::Mapping(m) => flat(spec_eval_children(rules, m, path_view(path@))),
                    _ => seq![
                        Err::<RuleEvalSuccessView, RuleEvalErrView>(
                            RuleEvalErrView { path: path_view(path@), err: RuleErrTypeView::IncorrectType(value@) },
                        ),
                    ],
                },
            },
            r is Multi <==> (self.rule is Fields && value is Mapping),
        decreases self, 0int,
    {
        proof {
            lemma_object_rule_view(self);
        }
        match &self.rule {
            ObjRule::Any => RuleEvalSuccess::new(true, path).into_result(),
            ObjRule::Fields(rules) => {
                if let Value::Mapping(mapping) = value {
                    let ghost parts = spec_eval_children(rules_view(rules@), mapping@, path_view(path@));
                    let mut out: Vec<Result<RuleEvalSuccess<'a>, RuleEvalErr<'a>>> = Vec::new();
                    let mut i: usize = 0;
                    assert(parts.subrange(0, 0) =~= Seq::empty());
                    assert(eval_items_view(out@) =~= Seq::empty());
                    while i < rules.len()
                        invariant
                            i <= rules.len(),
                            self.rule is Fields,
                            self.rule->Fields_0 == *rules,
                            parts == spec_eval_children(rules_view(rules@), mapping@, path_view(path@)),
                            parts.len() == rules.len(),
                            eval_items_view(out@) == flat(parts.subrange(0, i as int)),
                        decreases rules.len() - i,
                    {
                        let ghost old_out = out@;
                        let part = ObjectRule::subrule(rules[i].field_name(), &rules[i], mapping, path);
                        let mut items = part.get();
                        out.append(&mut items);
                        proof {
                            lemma_flat_step(parts, i as int);
                            assert(eval_items_view(out@) =~= eval_items_view(old_out) + eval_items_view(
                                part.items(),
                            ));
                        }
                        i += 1;
                    }
                    assert(parts.subrange(0, i as int) =~= parts);
                    Bubble::Multi(out)
                } else {
                    RuleEvalErr::new(path, RuleErrType::IncorrectType(value)).into_result()
                }
            },
        }
    }

    /// Evaluates `rule` on the entry that `input` holds under `key`; a missing
    /// entry is an error at `path`.
    pub fn subrule(key: &'a Value, rule: &Rule<'a>, input: &'a Mapping, path: &[&'a Value]) -> (r: RuleEvalResult<'a>)
        ensures
            eval_items_view(r.items()) == spec_subrule(key@, rule@, input@, path_view(path@)),
        decreases rule, 2int,
    {
        if let Some(value) = input.get(key) {
            rule.eval(value, path)
        } else {
            RuleEvalErr::new(path, RuleErrType::KeyNotFound(key)).into_result()
        }
    }
}

} // verus!
