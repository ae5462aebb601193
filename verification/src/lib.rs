//! A schema-validation engine for tree-structured documents.
//!
//! A grammar declares, per field, a type and a constraint. The engine compiles
//! the grammar into a constraint tree, resolves every cross-field reference
//! against a document, and evaluates the resulting rules against that document.

pub mod bubble;
pub mod constraint;
pub mod laws;
pub mod obj;
pub mod parse;
pub mod rule;
pub mod str;
pub mod value;
pub mod value_ref;

use vstd::prelude::*;
use crate::bubble::{errs_of, lemma_all_errs, oks_of, partition_results, Bubble};
use crate::constraint::{constraints_view, lemma_object_view, spec_parse, Constraint, ConstraintView};
use crate::obj::{ObjConstr, ObjConstrView, ObjectConstraint, ObjectConstraintView};
use crate::parse::{
    all_done, done_values, failures, lemma_outcomes_step, parse_result_is, Outcome, ParseErr, ParseErrView,
    YamlParseResult,
};
use crate::rule::{
    eval_item_view, eval_items_view, flat, lemma_flat_step, rules_view, spec_eval, spec_rule,
    EvalItemView, Rule, RuleEvalErr, RuleEvalErrView, RuleEvalSuccess, RuleEvalSuccessView, RuleView,
};
use crate::value::{path_view, Mapping, Value, ValueView};
use crate::value_ref::{ValueResolutionErr, ValueResolutionErrView};

verus! {

/// The report of validating a document against a grammar.
#[derive(Debug)]
pub enum Evaluation<'a> {
    /// The grammar itself is malformed.
    GrammarParseErr(Vec<ParseErr<'a>>),
    /// The grammar is well formed, but its references do not resolve against
    /// the document.
    ValueResolutionErr(Vec<ValueResolutionErr<'a>>),
    /// Every field was visited: `ok` holds the verdicts, `err` the fields that
    /// are missing or of the wrong type.
    Completed { ok: Vec<RuleEvalSuccess<'a>>, err: Vec<RuleEvalErr<'a>> },
}

/// The mathematical content of an `Evaluation`.
pub enum EvaluationView {
    GrammarParseErr(Seq<ParseErrView>),
    ValueResolutionErr(Seq<ValueResolutionErrView>),
    Completed { ok: Seq<RuleEvalSuccessView>, err: Seq<RuleEvalErrView> },
}

/// The views of a list of parse errors, in order.
pub open spec fn parse_errs_view(errs: Seq<ParseErr>) -> Seq<ParseErrView> {
    Seq::new(errs.len(), |i: int| errs[i]@)
}

/// The views of a list of resolution errors, in order.
pub open spec fn resolution_errs_view(errs: Seq<ValueResolutionErr>) -> Seq<ValueResolutionErrView> {
    Seq::new(errs.len(), |i: int| errs[i]@)
}

/// The views of a list of verdicts, in order.
pub open spec fn successes_view(oks: Seq<RuleEvalSuccess>) -> Seq<RuleEvalSuccessView> {
    Seq::new(oks.len(), |i: int| oks[i]@)
}

/// The views of a list of evaluation errors, in order.
pub open spec fn eval_errs_view(errs: Seq<RuleEvalErr>) -> Seq<RuleEvalErrView> {
    Seq::new(errs.len(), |i: int| errs[i]@)
}

impl<'a> View for Evaluation<'a> {
    type V = EvaluationView;

    open spec fn view(&self) -> EvaluationView {
        match self {
            Evaluation::GrammarParseErr(errs) => EvaluationView::GrammarParseErr(parse_errs_view(errs@)),
            Evaluation::ValueResolutionErr(errs) => EvaluationView::ValueResolutionErr(
                resolution_errs_view(errs@),
            ),
            Evaluation::Completed { ok, err } => EvaluationView::Completed {
                ok: successes_view(ok@),
                err: eval_errs_view(err@),
            },
        }
    }
}

/// The view of one result of parsing.
pub open spec fn parse_item_view(item: Result<Constraint, ParseErr>) -> Result<ConstraintView, ParseErrView> {
    match item {
        Ok(c) => Ok(c@),
        Err(e) => Err(e@),
    }
}

/// The views of the results of parsing, in order.
pub open spec fn parse_items_view(items: Seq<Result<Constraint, ParseErr>>) -> Seq<Result<ConstraintView, ParseErrView>> {
    Seq::new(items.len(), |i: int| parse_item_view(items[i]))
}

/// An outcome as a list of results: the tree alone, or each error.
pub open spec fn outcome_items<C, E>(o: Outcome<C, E>) -> Seq<Result<C, E>> {
    match o {
        Outcome::Done(c) => seq![Ok(c)],
        Outcome::Failed(es) => Seq::new(es.len(), |i: int| Err(es[i])),
    }
}

/// The outcomes of parsing each entry of the grammar `spec` as a field at the
/// root.
pub open spec fn spec_grammar(spec: Seq<(ValueView, ValueView)>) -> Seq<Outcome<ConstraintView, ParseErrView>> {
    Seq::new(spec.len(), |i: int| spec_parse(spec[i].0, spec[i].1, Seq::empty()))
}

/// The results of parsing each entry of the grammar `spec`, entry after entry.
pub open spec fn spec_grammar_items(spec: Seq<(ValueView, ValueView)>) -> Seq<Result<ConstraintView, ParseErrView>> {
    flat(Seq::new(spec.len(), |i: int| outcome_items(spec_grammar(spec)[i])))
}

/// The object constraint named `name` whose fields are `fields`.
pub open spec fn spec_root(fields: Seq<ConstraintView>, name: ValueView) -> ObjectConstraintView {
    ObjectConstraintView { field_name: name, constr: ObjConstrView::Fields(fields), default: None }
}

/// The results of evaluating each rule of `rules` on the whole document
/// `input`, rule after rule.
pub open spec fn spec_evaluate_items(rules: Seq<RuleView>, input: ValueView) -> Seq<EvalItemView> {
    flat(Seq::new(rules.len(), |i: int| spec_eval(rules[i], input, Seq::empty())))
}

/// The report on evaluating `rules` on the document `input`: the verdicts and
/// the errors, each in the order of the fields visited.
pub open spec fn spec_evaluate(rules: Seq<RuleView>, input: ValueView) -> EvaluationView {
    EvaluationView::Completed {
        ok: oks_of(spec_evaluate_items(rules, input)),
        err: errs_of(spec_evaluate_items(rules, input)),
    }
}

/// The report on validating the document `input` against the grammar `spec`,
/// whose root is named `name`. A malformed grammar is reported with all its
/// errors and nothing is resolved; references that do not resolve are reported
/// together and nothing is evaluated; else every field is evaluated.
pub open spec fn spec_yamlfmt(spec: Seq<(ValueView, ValueView)>, input: ValueView, name: ValueView) -> EvaluationView {
    let parsed = spec_grammar(spec);
    if !all_done(parsed) {
        EvaluationView::GrammarParseErr(failures(parsed))
    } else {
        let root = ConstraintView::Obj(spec_root(done_values(parsed), name));
        match spec_rule(root, input, root) {
            Outcome::Failed(es) => EvaluationView::ValueResolutionErr(es),
            Outcome::Done(rule) => spec_evaluate(seq![rule], input),
        }
    }
}

/// The views of the successes and errors of an evaluation are the successes
/// and errors of its views.
pub proof fn lemma_eval_partition_views(items: Seq<Result<RuleEvalSuccess, RuleEvalErr>>)
    ensures
        successes_view(oks_of(items)) == oks_of(eval_items_view(items)),
        eval_errs_view(errs_of(items)) == errs_of(eval_items_view(items)),
    decreases items.len(),
{
    if items.len() == 0 {
        assert(successes_view(oks_of(items)) =~= oks_of(eval_items_view(items)));
        assert(eval_errs_view(errs_of(items)) =~= errs_of(eval_items_view(items)));
    } else {
        lemma_eval_partition_views(items.drop_last());
        assert(eval_items_view(items).drop_last() =~= eval_items_view(items.drop_last()));
        assert(eval_items_view(items).last() == eval_item_view(items.last()));
        assert(successes_view(oks_of(items)) =~= oks_of(eval_items_view(items)));
        assert(eval_errs_view(errs_of(items)) =~= errs_of(eval_items_view(items)));
    }
}

/// The items of a parse result are those of the outcome it stands for.
pub proof fn lemma_parse_result_items(r: YamlParseResult, o: Outcome<ConstraintView, ParseErrView>)
    requires
        parse_result_is(r, o),
    ensures
        parse_items_view(r.items()) == outcome_items(o),
{
    match o {
        Outcome::Done(c) => {
            assert(parse_items_view(r.items()) =~= outcome_items(o));
        },
        Outcome::Failed(es) => {
            assert forall|i: int| 0 <= i < es.len() implies parse_items_view(r.items())[i] == outcome_items(o)[i] by {
                assert(r.items()[i] is Err);
            }
            assert(parse_items_view(r.items()) =~= outcome_items(o));
        },
    }
}

/// Parses every entry of the grammar `spec` as a field at the root and
/// collects all results, entry after entry.
pub fn parse_grammar<'a>(spec: &'a Mapping) -> (r: YamlParseResult<'a>)
    ensures
        r is Multi,
        parse_items_view(r.items()) == spec_grammar_items(spec@),
{
    let ghost parts = Seq::new(spec@.len(), |i: int| outcome_items(spec_grammar(spec@)[i]));
    let mut out: Vec<Result<Constraint<'a>, ParseErr<'a>>> = Vec::new();
    let mut i: usize = 0;
    assert(parts.subrange(0, 0) =~= Seq::empty());
    assert(parse_items_view(out@) =~= Seq::empty());
    while i < spec.entries.len()
        invariant
            i <= spec.entries.len(),
            parts == Seq::new(spec@.len(), |i: int| outcome_items(spec_grammar(spec@)[i])),
            spec@.len() == spec.entries.len(),
            parse_items_view(out@) == flat(parts.subrange(0, i as int)),
        decreases spec.entries.len() - i,
    {
        let ghost old_out = out@;
        let child = Constraint::from_spec((&spec.entries[i].0, &spec.entries[i].1));
        proof {
            lemma_parse_result_items(child, spec_grammar(spec@)[i as int]);
            lemma_flat_step(parts, i as int);
        }
        let mut items = child.get();
        out.append(&mut items);
        assert(parse_items_view(out@) =~= parse_items_view(old_out) + parse_items_view(child.items()));
        i += 1;
    }
    assert(parts.subrange(0, i as int) =~= parts);
    Bubble::Multi(out)
}

/// Parses every entry of the grammar `spec`: the constraints if every entry
/// parses, else the errors of all failing entries.
fn parse_entries<'a>(spec: &'a Mapping) -> (r: (Vec<Constraint<'a>>, Vec<ParseErr<'a>>))
    ensures
        (r.1.len() == 0) == all_done(spec_grammar(spec@)),
        parse_errs_view(r.1@) == failures(spec_grammar(spec@)),
        r.1.len() == 0 ==> constraints_view(r.0@) == done_values(spec_grammar(spec@)),
{
    let ghost children = spec_grammar(spec@);
    let mut oks: Vec<Constraint<'a>> = Vec::new();
    let mut errs: Vec<Result<Constraint<'a>, ParseErr<'a>>> = Vec::new();
    let mut i: usize = 0;
    assert(children.subrange(0, 0) =~= Seq::empty());
    while i < spec.entries.len()
        invariant
            i <= spec.entries.len(),
            children == spec_grammar(spec@),
            children.len() == spec.entries.len(),
            errs.len() == failures(children.subrange(0, i as int)).len(),
            forall|j: int| 0 <= j < errs.len() ==> ((#[trigger] errs@[j]) matches Err(e) && e@ == failures(
                children.subrange(0, i as int),
            )[j]),
            (errs.len() == 0) == all_done(children.subrange(0, i as int)),
            errs.len() == 0 ==> oks.len() == i,
            errs.len() == 0 ==> forall|j: int| 0 <= j < i ==> children[j] == Outcome::<ConstraintView, ParseErrView>::Done((#[trigger] oks@[j])@),
        decreases spec.entries.len() - i,
    {
        let child = Constraint::from_spec((&spec.entries[i].0, &spec.entries[i].1));
        proof {
            lemma_outcomes_step(children, i as int);
        }
        let ghost before = failures(children.subrange(0, i as int));
        let ghost old_errs = errs@;
        match child {
            Bubble::Single(Ok(c)) => {
                assert(child.items()[0] == Ok::<Constraint, ParseErr>(c));
                assert(children[i as int] is Done);
                assert(failures(children.subrange(0, i as int + 1)) =~= before);
                if errs.len() == 0 {
                    oks.push(c);
                }
            },
            other => {
                assert(children[i as int] is Failed);
                let ghost es = children[i as int]->Failed_0;
                let mut items = other.get();
                errs.append(&mut items);
                assert(errs@ =~= old_errs + other.items());
                assert forall|j: int| 0 <= j < errs.len() implies ((#[trigger] errs@[j]) matches Err(e) && e@ == (
                before + es)[j]) by {
                    if j >= old_errs.len() {
                        assert(errs@[j] == other.items()[j - old_errs.len()]);
                    } else {
                        assert(errs@[j] == old_errs[j]);
                    }
                }
            },
        }
        i += 1;
    }
    assert(children.subrange(0, i as int) =~= children);
    let ghost wrapped = errs@;
    proof {
        lemma_all_errs(wrapped);
    }
    let (_, plain) = partition_results(errs);
    assert(parse_errs_view(plain@) =~= failures(children));
    assert(errs_of(wrapped).len() == wrapped.len());
    if plain.len() == 0 {
        assert(constraints_view(oks@) =~= done_values(children));
    }
    (oks, plain)
}

/// Gathers the constraints of the top-level fields under one object
/// constraint named `name`.
pub fn into_constraint<'a>(constraints: Vec<Constraint<'a>>, name: &'a Value) -> (r: ObjectConstraint<'a>)
    ensures
        r@ == spec_root(constraints_view(constraints@), name@),
{
    let r = ObjectConstraint::new(name, ObjConstr::Fields(constraints), None);
    proof {
        lemma_object_view(&r);
    }
    r
}

/// `items` hold exactly what `o` describes: one rule, or only errors.
pub open spec fn resolution_items_are(items: Seq<Result<Rule, ValueResolutionErr>>, o: Outcome<RuleView, ValueResolutionErrView>) -> bool {
    match o {
        Outcome::Done(c) => items.len() == 1 && (items[0] matches Ok(x) && x@ == c),
        Outcome::Failed(es) => items.len() == es.len() && forall|i: int|
            0 <= i < es.len() ==> ((#[trigger] items[i]) matches Err(e) && e@ == es[i]),
    }
}

/// The successes and errors of the results of a resolution.
pub proof fn lemma_resolution_partition(items: Seq<Result<Rule, ValueResolutionErr>>, o: Outcome<RuleView, ValueResolutionErrView>)
    requires
        resolution_items_are(items, o),
    ensures
        match o {
            Outcome::Done(rule) => rules_view(oks_of(items)) == seq![rule] && errs_of(items).len() == 0,
            Outcome::Failed(es) => resolution_errs_view(errs_of(items)) == es && errs_of(items).len()
                == items.len(),
        },
{
    match o {
        Outcome::Done(rule) => {
            assert(items.drop_last() =~= Seq::empty());
            assert(oks_of(items.drop_last()) =~= Seq::<Rule>::empty());
            assert(errs_of(items.drop_last()) =~= Seq::<ValueResolutionErr>::empty());
            assert(items.last() == items[0]);
            assert(oks_of(items) =~= seq![items[0]->Ok_0]);
            assert(errs_of(items) =~= Seq::empty());
            assert(rules_view(oks_of(items)) =~= seq![rule]);
        },
        Outcome::Failed(es) => {
            lemma_all_errs(items);
            assert(resolution_errs_view(errs_of(items)) =~= es);
        },
    }
}

/// Resolves the grammar `spec` against the document `user_input`: the rule of
/// the grammar alone, or else every resolution error.
pub fn rules<'a>(spec: &Constraint<'a>, user_input: &'a Value) -> (r: Vec<Result<Rule<'a>, ValueResolutionErr<'a>>>)
    ensures
        resolution_items_are(r@, spec_rule(spec@, user_input@, spec@)),
        r.len() > 0,
{
    Rule::new(spec, user_input).get()
}

/// Evaluates each rule of `rules` on the whole document `user_input` and
/// separates the verdicts from the errors.
pub fn evaluate<'a>(rules: &Vec<Rule<'a>>, user_input: &'a Value) -> (r: Evaluation<'a>)
    ensures
        r@ == spec_evaluate(rules_view(rules@), user_input@),
{
    let ghost parts = Seq::new(rules@.len(), |i: int| spec_eval(rules_view(rules@)[i], user_input@, Seq::empty()));
    let root: Vec<&'a Value> = Vec::new();
    assert(path_view(root@) =~= Seq::empty());
    let mut all: Vec<Result<RuleEvalSuccess<'a>, RuleEvalErr<'a>>> = Vec::new();
    let mut i: usize = 0;
    assert(parts.subrange(0, 0) =~= Seq::empty());
    assert(eval_items_view(all@) =~= Seq::empty());
    while i < rules.len()
        invariant
            i <= rules.len(),
            parts == Seq::new(
                rules@.len(),
                |i: int| spec_eval(rules_view(rules@)[i], user_input@, Seq::empty()),
            ),
            path_view(root@) == Seq::<ValueView>::empty(),
            eval_items_view(all@) == flat(parts.subrange(0, i as int)),
        decreases rules.len() - i,
    {
        let ghost old_all = all@;
        let part = rules[i].eval(user_input, root.as_slice());
        let mut items = part.get();
        all.append(&mut items);
        proof {
            lemma_flat_step(parts, i as int);
            assert(eval_items_view(all@) =~= eval_items_view(old_all) + eval_items_view(part.items()));
        }
        i += 1;
    }
    assert(parts.subrange(0, i as int) =~= parts);
    proof {
        lemma_eval_partition_views(all@);
    }
    let (ok, err) = partition_results(all);
    Evaluation::Completed { ok, err }
}

/// Validates the document `input` against the grammar `spec`, whose root is
/// named `name`.
pub fn yamlfmt<'a>(spec: &'a Mapping, input: &'a Value, name: &'a Value) -> (r: Evaluation<'a>)
    ensures
        r@ == spec_yamlfmt(spec@, input@, name@),
{
    let (constraints, errs) = parse_entries(spec);
    if errs.len() > 0 {
        return Evaluation::GrammarParseErr(errs);
    }
    let root = into_constraint(constraints, name);
    proof {
        lemma_object_view(&root);
    }
    let constraint = Constraint::Obj(root);
    let resolved = rules(&constraint, input);
    let ghost wrapped = resolved@;
    let (rules, errs) = partition_results(resolved);
    proof {
        lemma_resolution_partition(wrapped, spec_rule(constraint@, input@, constraint@));
    }
    if errs.len() > 0 {
        return Evaluation::ValueResolutionErr(errs);
    }
    evaluate(&rules, input)
}

} // verus!
