//! Laws that relate the phases of the engine. Each is stated over the same
//! spec functions that the contracts of the executable functions use.

use vstd::prelude::*;
use crate::bubble::{errs_of, oks_of, Bubble};
use crate::constraint::{field_name_of, spec_children, spec_fetch, spec_parse, well_formed, ConstraintView};
use crate::obj::{
    spec_obj_default, ObjConstrView, ObjRuleView, ObjectConstraintView, ObjectRuleView,
};
use crate::parse::{all_done, done_values, parse_result_is, Outcome, ParseErrView, YamlParseResult};
use crate::rule::{
    flat, lemma_flat_step, rule_name, spec_eval, spec_eval_children, spec_rule, spec_rule_children, spec_subrule,
    EvalItemView, RuleErrTypeView, RuleEvalErrView, RuleEvalSuccessView, RuleView,
};
use crate::str::{
    spec_allowed_body, spec_disallowed_body, spec_eq_body, spec_neq_body, spec_regex_body, spec_str_body,
    spec_str_build, StrConstrView,
};
use crate::value::{lookup, path_view, well_keyed, Value, ValueView};
use crate::value_ref::{spec_locate, spec_resolve_str, ValueRefView, ValueResolutionErrView};
use crate::{
    lemma_parse_result_items, parse_items_view, spec_evaluate, spec_grammar, spec_root, spec_yamlfmt,
};

verus! {

/// Parsing is a function of the grammar: whenever two grammar nodes with equal
/// content are parsed under equal names and paths, the results hold equal
/// items, and in particular equal constraint trees.
pub proof fn law_parse_is_deterministic(
    name_a: &Value,
    value_a: &Value,
    path_a: Seq<&Value>,
    first: YamlParseResult,
    name_b: &Value,
    value_b: &Value,
    path_b: Seq<&Value>,
    second: YamlParseResult,
)
    requires
        name_a@ == name_b@,
        value_a@ == value_b@,
        path_view(path_a) == path_view(path_b),
        parse_result_is(first, spec_parse(name_a@, value_a@, path_view(path_a))),
        parse_result_is(second, spec_parse(name_b@, value_b@, path_view(path_b))),
    ensures
        parse_items_view(first.items()) == parse_items_view(second.items()),
        first matches Bubble::Single(Ok(a)) ==> (second matches Bubble::Single(Ok(b)) && a@ == b@),
{
    let o = spec_parse(name_a@, value_a@, path_view(path_a));
    lemma_parse_result_items(first, o);
    lemma_parse_result_items(second, o);
    if first matches Bubble::Single(Ok(a)) {
        assert(first.items()[0] is Ok);
        assert(o is Done);
    }
}

/// The keys that select the body of a string constraint, in their order of
/// precedence.
pub enum BodyKey {
    Regex,
    Allowed,
    Disallowed,
    Eq,
    Neq,
}

/// The entry of `config` under the key `k`.
pub open spec fn body_entry(config: Seq<(ValueView, ValueView)>, k: BodyKey) -> Option<ValueView> {
    match k {
        BodyKey::Regex => lookup(config, ValueView::String("regex"@)),
        BodyKey::Allowed => lookup(config, ValueView::String("allowed"@)),
        BodyKey::Disallowed => lookup(config, ValueView::String("disallowed"@)),
        BodyKey::Eq => lookup(config, ValueView::String("eq"@)),
        BodyKey::Neq => lookup(config, ValueView::String("neq"@)),
    }
}

/// The first key, in the order of precedence, under which `config` holds an
/// entry.
pub open spec fn deciding_key(config: Seq<(ValueView, ValueView)>) -> Option<BodyKey> {
    if body_entry(config, BodyKey::Regex) is Some {
        Some(BodyKey::Regex)
    } else if body_entry(config, BodyKey::Allowed) is Some {
        Some(BodyKey::Allowed)
    } else if body_entry(config, BodyKey::Disallowed) is Some {
        Some(BodyKey::Disallowed)
    } else if body_entry(config, BodyKey::Eq) is Some {
        Some(BodyKey::Eq)
    } else if body_entry(config, BodyKey::Neq) is Some {
        Some(BodyKey::Neq)
    } else {
        None
    }
}

/// The body that the entry `v` under the key `k` stands for.
pub open spec fn body_of_key(k: BodyKey, v: ValueView) -> Result<StrConstrView, crate::parse::PETypeView> {
    match k {
        BodyKey::Regex => spec_regex_body(v),
        BodyKey::Allowed => spec_allowed_body(v),
        BodyKey::Disallowed => spec_disallowed_body(v),
        BodyKey::Eq => spec_eq_body(v),
        BodyKey::Neq => spec_neq_body(v),
    }
}

/// Precedence: the body of a string constraint is that of the first key
/// present, in the order `regex`, `allowed`, `disallowed`, `eq`, `neq`,
/// whatever stands under the keys after it.
pub proof fn law_first_key_decides(config: Seq<(ValueView, ValueView)>)
    ensures
        match deciding_key(config) {
            Some(k) => body_entry(config, k) is Some && spec_str_body(config) == body_of_key(
                k,
                body_entry(config, k)->Some_0,
            ),
            None => spec_str_body(config) == Ok::<StrConstrView, crate::parse::PETypeView>(StrConstrView::Any),
        },
{
}

/// Precedence, between two grammars: two mappings that agree on their deciding
/// key, on the entry under it and on the entry under `default` declare the
/// same string constraint, however they differ under the other keys.
pub proof fn law_later_keys_are_ignored(
    field_name: ValueView,
    a: Seq<(ValueView, ValueView)>,
    b: Seq<(ValueView, ValueView)>,
    path: Seq<ValueView>,
)
    requires
        deciding_key(a) == deciding_key(b),
        deciding_key(a) matches Some(k) ==> body_entry(a, k) == body_entry(b, k),
        lookup(a, ValueView::String("default"@)) == lookup(b, ValueView::String("default"@)),
    ensures
        spec_str_body(a) == spec_str_body(b),
        spec_str_build(field_name, a, path) == spec_str_build(field_name, b, path),
{
    law_first_key_decides(a);
    law_first_key_decides(b);
}

/// Default fallback: a reference to a path at which the document holds
/// nothing resolves to the default that the schema declares for the string
/// field at that path.
pub proof fn law_reference_falls_back_to_default(
    path: Seq<ValueView>,
    root: ValueView,
    context: ConstraintView,
    declared: Seq<char>,
)
    requires
        spec_locate(root, path, 0) is Err,
        spec_locate(root, path, 0)->Err_0 is NotFound,
        spec_fetch(context, path) is Ok,
        spec_fetch(context, path)->Ok_0 is Str,
        spec_fetch(context, path)->Ok_0->Str_0.default == Some(declared),
    ensures
        spec_resolve_str(ValueRefView::AbsolutePath(path), root, context) == Ok::<
            Seq<char>,
            ValueResolutionErrView,
        >(declared),
{
}

/// Default fallback, without a default: a reference to a path at which the
/// document holds nothing, and for which the schema declares a string field
/// without a default, is a missing required value.
pub proof fn law_reference_without_default_is_missing(path: Seq<ValueView>, root: ValueView, context: ConstraintView)
    requires
        spec_locate(root, path, 0) is Err,
        spec_locate(root, path, 0)->Err_0 is NotFound,
        spec_fetch(context, path) is Ok,
        spec_fetch(context, path)->Ok_0 is Str,
        spec_fetch(context, path)->Ok_0->Str_0.default is None,
    ensures
        spec_resolve_str(ValueRefView::AbsolutePath(path), root, context) == Err::<
            Seq<char>,
            ValueResolutionErrView,
        >(ValueResolutionErrView::MissingRequired),
{
}

/// Every item of a part occurs among the parts laid end to end.
pub proof fn lemma_flat_contains<T>(parts: Seq<Seq<T>>, i: int, k: int)
    requires
        0 <= i < parts.len(),
        0 <= k < parts[i].len(),
    ensures
        flat(parts).contains(parts[i][k]),
    decreases parts.len(),
{
    let front = parts.drop_last();
    if i == parts.len() - 1 {
        let at = flat(front).len() + k;
        assert(flat(parts)[at] == parts[i][k]);
    } else {
        lemma_flat_contains(front, i, k);
        let at = choose|at: int| 0 <= at < flat(front).len() && flat(front)[at] == front[i][k];
        assert(flat(parts)[at] == parts[i][k]);
    }
}

/// A declared field that the document lacks is reported as a missing key at
/// the path of the enclosing object, whether or not the field declares a
/// default.
pub proof fn law_absent_field_is_key_not_found(
    object: ObjectRuleView,
    m: Seq<(ValueView, ValueView)>,
    parent_path: Seq<ValueView>,
    i: int,
)
    requires
        object.rule is Fields,
        0 <= i < object.rule->Fields_0.len(),
        lookup(m, rule_name(object.rule->Fields_0[i])) is None,
    ensures
        spec_eval(RuleView::Obj(object), ValueView::Mapping(m), parent_path).contains(
            Err(
                RuleEvalErrView {
                    path: parent_path.push(object.field_name),
                    err: RuleErrTypeView::KeyNotFound(rule_name(object.rule->Fields_0[i])),
                },
            ),
        ),
{
    let rules = object.rule->Fields_0;
    let path = parent_path.push(object.field_name);
    let parts = spec_eval_children(rules, m, path);
    assert(parts[i] == spec_subrule(rule_name(rules[i]), rules[i], m, path));
    lemma_flat_contains(parts, i, 0);
}

/// Boundary: a bare `object` is a valid grammar and stands for the object
/// that accepts any structure.
pub proof fn law_bare_object_is_valid(field_name: ValueView, parent_path: Seq<ValueView>)
    ensures
        spec_parse(field_name, ValueView::String("object"@), parent_path) == Outcome::<
            ConstraintView,
            ParseErrView,
        >::Done(
            ConstraintView::Obj(ObjectConstraintView { field_name, constr: ObjConstrView::Any, default: None }),
        ),
{
    reveal_strlit("object");
    reveal_strlit("string");
    assert("object"@.len() != "string"@.len() || "object"@[0] != "string"@[0]);
}

/// Boundary: a mapping of type `object` without an entry under `fields` is a
/// valid grammar and stands for the object that accepts any structure.
pub proof fn law_object_without_fields_is_valid(
    field_name: ValueView,
    config: Seq<(ValueView, ValueView)>,
    parent_path: Seq<ValueView>,
)
    requires
        lookup(config, ValueView::String("type"@)) == Some(ValueView::String("object"@)),
        spec_obj_default(config) is Ok,
        lookup(config, ValueView::String("fields"@)) is None,
    ensures
        spec_parse(field_name, ValueView::Mapping(config), parent_path) == Outcome::<
            ConstraintView,
            ParseErrView,
        >::Done(
            ConstraintView::Obj(
                ObjectConstraintView {
                    field_name,
                    constr: ObjConstrView::Any,
                    default: spec_obj_default(config)->Ok_0,
                },
            ),
        ),
{
    reveal_strlit("object");
    reveal_strlit("string");
    assert("object"@.len() != "string"@.len() || "object"@[0] != "string"@[0]);
}

/// Boundary: a mapping of type `object` whose `fields` mapping is empty is a
/// valid grammar and stands for an object that declares no field.
pub proof fn law_empty_fields_is_valid(
    field_name: ValueView,
    config: Seq<(ValueView, ValueView)>,
    parent_path: Seq<ValueView>,
)
    requires
        lookup(config, ValueView::String("type"@)) == Some(ValueView::String("object"@)),
        spec_obj_default(config) is Ok,
        lookup(config, ValueView::String("fields"@)) == Some(ValueView::Mapping(Seq::empty())),
    ensures
        spec_parse(field_name, ValueView::Mapping(config), parent_path) == Outcome::<
            ConstraintView,
            ParseErrView,
        >::Done(
            ConstraintView::Obj(
                ObjectConstraintView {
                    field_name,
                    constr: ObjConstrView::Fields(Seq::empty()),
                    default: spec_obj_default(config)->Ok_0,
                },
            ),
        ),
{
    reveal_strlit("object");
    reveal_strlit("string");
    assert("object"@.len() != "string"@.len() || "object"@[0] != "string"@[0]);
    let path = parent_path.push(field_name);
    let children = spec_children(config, path);
    crate::value::lemma_index_from(config, ValueView::String("fields"@), 0);
    assert(children.len() == 0);
    assert(done_values(children) =~= Seq::empty());
}

/// Boundary: the object that accepts any structure resolves to a rule that
/// every value satisfies, and the object without fields to one that reports
/// nothing on any mapping.
pub proof fn law_unconstrained_objects_accept(
    object: ObjectConstraintView,
    root: ValueView,
    context: ConstraintView,
    value: ValueView,
    parent_path: Seq<ValueView>,
)
    requires
        object.constr is Any || object.constr == ObjConstrView::Fields(Seq::empty()),
    ensures
        spec_rule(ConstraintView::Obj(object), root, context) is Done,
        object.constr is Any ==> spec_eval(
            spec_rule(ConstraintView::Obj(object), root, context)->Done_0,
            value,
            parent_path,
        ) == seq![
            Ok::<RuleEvalSuccessView, RuleEvalErrView>(
                RuleEvalSuccessView { result: true, path: parent_path.push(object.field_name) },
            ),
        ],
        (!(object.constr is Any) && value is Mapping) ==> spec_eval(
            spec_rule(ConstraintView::Obj(object), root, context)->Done_0,
            value,
            parent_path,
        ) == Seq::<EvalItemView>::empty(),
{
    if !(object.constr is Any) {
        let children = spec_rule_children(Seq::empty(), root, context);
        assert(children.len() == 0);
        assert(all_done(children));
        assert(done_values(children) =~= Seq::empty());
        let rule = spec_rule(ConstraintView::Obj(object), root, context)->Done_0;
        if value is Mapping {
            let m = value->Mapping_0;
            let parts = spec_eval_children(Seq::empty(), m, parent_path.push(object.field_name));
            assert(parts.len() == 0);
        }
    }
}

/// The number of fields of `rule` that are judged on `value`: string fields
/// that hold a string, objects that accept any structure, and below an object
/// with declared fields that holds a mapping, the fields judged in each entry
/// that the mapping has.
pub open spec fn fields_judged(rule: RuleView, value: ValueView) -> nat
    decreases rule, 0nat,
{
    match rule {
        RuleView::Str(_) => if value is String {
            1
        } else {
            0
        },
        RuleView::Obj(object) => match object.rule {
            ObjRuleView::Any => 1,
            ObjRuleView::Fields(rules) => match value {
                ValueView::Mapping(m) => children_judged(rules, m, rules.len()),
                _ => 0,
            },
        },
    }
}

/// The number of fields judged for the first `n` rules of `rules` on the
/// mapping `m`.
pub open spec fn children_judged(rules: Seq<RuleView>, m: Seq<(ValueView, ValueView)>, n: nat) -> nat
    decreases rules, n,
{
    if n == 0 || n > rules.len() {
        0
    } else {
        children_judged(rules, m, (n - 1) as nat) + match lookup(m, rule_name(rules[n - 1])) {
            Some(v) => fields_judged(rules[n - 1], v),
            None => 0,
        }
    }
}

/// The successes of two lists laid end to end.
pub proof fn lemma_oks_of_concat<S, E>(a: Seq<Result<S, E>>, b: Seq<Result<S, E>>)
    ensures
        oks_of(a + b) == oks_of(a) + oks_of(b),
    decreases b.len(),
{
    if b.len() == 0 {
        assert(a + b =~= a);
        assert(oks_of(a) + oks_of(b) =~= oks_of(a));
    } else {
        lemma_oks_of_concat(a, b.drop_last());
        assert((a + b).drop_last() =~= a + b.drop_last());
        assert((a + b).last() == b.last());
        assert(oks_of(a + b) =~= oks_of(a) + oks_of(b));
    }
}

/// The number of verdicts in a report is the number of fields judged: every
/// string field that holds a string and every object that accepts any
/// structure yields one verdict, once for each place where the document has it.
pub proof fn law_verdicts_count_fields(rule: RuleView, value: ValueView, parent_path: Seq<ValueView>)
    ensures
        oks_of(spec_eval(rule, value, parent_path)).len() == fields_judged(rule, value),
    decreases rule, 0nat,
{
    let path = parent_path.push(rule_name(rule));
    let items = spec_eval(rule, value, parent_path);
    match rule {
        RuleView::Str(_) => {
            assert(items.drop_last() =~= Seq::empty());
            assert(oks_of(items.drop_last()).len() == 0);
        },
        RuleView::Obj(object) => match object.rule {
            ObjRuleView::Any => {
                assert(items.drop_last() =~= Seq::empty());
                assert(oks_of(items.drop_last()).len() == 0);
            },
            ObjRuleView::Fields(rules) => match value {
                ValueView::Mapping(m) => {
                    lemma_children_count(rules, m, path, rules.len());
                    let parts = spec_eval_children(rules, m, path);
                    assert(parts.subrange(0, rules.len() as int) =~= parts);
                },
                _ => {
                    assert(items.drop_last() =~= Seq::empty());
                    assert(oks_of(items.drop_last()).len() == 0);
                },
            },
        },
    }
}

/// The verdicts of the first `n` fields of an object are as many as the
/// fields judged among them.
pub proof fn lemma_children_count(rules: Seq<RuleView>, m: Seq<(ValueView, ValueView)>, path: Seq<ValueView>, n: nat)
    requires
        n <= rules.len(),
    ensures
        oks_of(flat(spec_eval_children(rules, m, path).subrange(0, n as int))).len() == children_judged(
            rules,
            m,
            n,
        ),
    decreases rules, n,
{
    let parts = spec_eval_children(rules, m, path);
    if n == 0 {
        assert(parts.subrange(0, 0) =~= Seq::empty());
    } else {
        let k = (n - 1) as nat;
        lemma_children_count(rules, m, path, k);
        lemma_flat_step(parts, k as int);
        lemma_oks_of_concat(flat(parts.subrange(0, k as int)), parts[k as int]);
        assert(parts[k as int] == spec_subrule(rule_name(rules[k as int]), rules[k as int], m, path));
        match lookup(m, rule_name(rules[k as int])) {
            Some(v) => {
                law_verdicts_count_fields(rules[k as int], v, path);
            },
            None => {
                let part = parts[k as int];
                assert(part.drop_last() =~= Seq::empty());
                assert(oks_of(part.drop_last()).len() == 0);
            },
        }
    }
}

/// The path that a result of an evaluation is reported at.
pub open spec fn item_path(item: EvalItemView) -> Seq<ValueView> {
    match item {
        Ok(s) => s.path,
        Err(e) => e.path,
    }
}

/// `path` starts with `prefix`.
pub open spec fn extends(path: Seq<ValueView>, prefix: Seq<ValueView>) -> bool {
    prefix.len() <= path.len() && path.subrange(0, prefix.len() as int) == prefix
}

/// Every result of evaluating a rule, verdict or error, is reported at the
/// path of the rule's own field or below it.
pub proof fn law_results_stay_below_the_field(rule: RuleView, value: ValueView, parent_path: Seq<ValueView>, k: int)
    requires
        0 <= k < spec_eval(rule, value, parent_path).len(),
    ensures
        extends(item_path(spec_eval(rule, value, parent_path)[k]), parent_path.push(rule_name(rule))),
    decreases rule, 0nat,
{
    let path = parent_path.push(rule_name(rule));
    assert(path.subrange(0, path.len() as int) =~= path);
    match rule {
        RuleView::Str(_) => {},
        RuleView::Obj(object) => match object.rule {
            ObjRuleView::Any => {},
            ObjRuleView::Fields(rules) => match value {
                ValueView::Mapping(m) => {
                    let parts = spec_eval_children(rules, m, path);
                    assert(parts.subrange(0, rules.len() as int) =~= parts);
                    lemma_children_stay_below(rules, m, path, rules.len(), k);
                },
                _ => {},
            },
        },
    }
}

/// Every result of the first `n` fields of an object is reported at the path
/// of the object or below it.
pub proof fn lemma_children_stay_below(
    rules: Seq<RuleView>,
    m: Seq<(ValueView, ValueView)>,
    path: Seq<ValueView>,
    n: nat,
    k: int,
)
    requires
        n <= rules.len(),
        0 <= k < flat(spec_eval_children(rules, m, path).subrange(0, n as int)).len(),
    ensures
        extends(item_path(flat(spec_eval_children(rules, m, path).subrange(0, n as int))[k]), path),
    decreases rules, n,
{
    let parts = spec_eval_children(rules, m, path);
    assert(path.subrange(0, path.len() as int) =~= path);
    if n == 0 {
        assert(parts.subrange(0, 0) =~= Seq::empty());
    } else {
        let last = (n - 1) as nat;
        lemma_flat_step(parts, last as int);
        let front = flat(parts.subrange(0, last as int));
        if k < front.len() {
            lemma_children_stay_below(rules, m, path, last, k);
        } else {
            let part = parts[last as int];
            let at = k - front.len();
            assert(part == spec_subrule(rule_name(rules[last as int]), rules[last as int], m, path));
            match lookup(m, rule_name(rules[last as int])) {
                Some(v) => {
                    law_results_stay_below_the_field(rules[last as int], v, path, at);
                    let below = path.push(rule_name(rules[last as int]));
                    let p = item_path(part[at]);
                    assert(p.subrange(0, path.len() as int) =~= p.subrange(0, below.len() as int).subrange(
                        0,
                        path.len() as int,
                    ));
                    assert(below.subrange(0, path.len() as int) =~= path);
                },
                None => {},
            }
        }
    }
}

/// The report on a single root rule holds one verdict for each field judged
/// on the document.
pub proof fn law_report_counts_fields(rule: RuleView, input: ValueView)
    ensures
        spec_evaluate(seq![rule], input) is Completed,
        spec_evaluate(seq![rule], input)->ok.len() == fields_judged(rule, input),
{
    let parts = Seq::new(1, |i: int| spec_eval(seq![rule][i], input, Seq::empty()));
    assert(parts.drop_last() =~= Seq::empty());
    assert(flat(parts.drop_last()) =~= Seq::<EvalItemView>::empty());
    assert(flat(parts) =~= spec_eval(rule, input, Seq::empty()));
    law_verdicts_count_fields(rule, input, Seq::empty());
}

/// A parsed constraint is about the field it was parsed for.
pub proof fn law_parsed_constraint_keeps_its_name(field_name: ValueView, value: ValueView, parent_path: Seq<ValueView>)
    ensures
        spec_parse(field_name, value, parent_path) matches Outcome::Done(c) ==> field_name_of(c) == field_name,
{
}

/// A grammar in which every mapping has unique keys parses to a tree in which
/// every object has fields of unique names.
pub proof fn law_parsed_fields_are_unique(field_name: ValueView, value: ValueView, parent_path: Seq<ValueView>)
    requires
        well_keyed(value),
    ensures
        spec_parse(field_name, value, parent_path) matches Outcome::Done(c) ==> well_formed(c),
    decreases value,
{
    let path = parent_path.push(field_name);
    if let Outcome::Done(c) = spec_parse(field_name, value, parent_path) {
        if let ConstraintView::Obj(o) = c {
            if let ObjConstrView::Fields(fields) = o.constr {
                let config = value->Mapping_0;
                let key = ValueView::String("fields"@);
                crate::value::lemma_index_from(config, key, 0);
                let at = crate::value::index_of(config, key)->Some_0;
                let f = config[at].1->Mapping_0;
                let children = spec_children(config, path);
                assert(fields == done_values(children));
                assert(well_keyed(config[at].1));
                assert forall|i: int| 0 <= i < fields.len() implies well_formed(#[trigger] fields[i]) by {
                    assert(children[i] is Done);
                    assert(well_keyed(f[i].1));
                    law_parsed_fields_are_unique(f[i].0, f[i].1, path);
                }
                assert forall|i: int, j: int| 0 <= i < j < fields.len() implies field_name_of(fields[i])
                    != field_name_of(fields[j]) by {
                    assert(children[i] is Done);
                    assert(children[j] is Done);
                    law_parsed_constraint_keeps_its_name(f[i].0, f[i].1, path);
                    law_parsed_constraint_keeps_its_name(f[j].0, f[j].1, path);
                }
            }
        }
    }
}

/// A rule mirrors the constraint it was resolved from: it is of the same
/// kind, about the same field, carries the same default, and below an object
/// there is one rule for each declared field, in the same order.
pub proof fn law_rule_mirrors_constraint(c: ConstraintView, root: ValueView, context: ConstraintView)
    ensures
        spec_rule(c, root, context) matches Outcome::Done(r) ==> mirrors(r, c),
    decreases c,
{
    if let Outcome::Done(r) = spec_rule(c, root, context) {
        if let ConstraintView::Obj(o) = c {
            if let ObjConstrView::Fields(fields) = o.constr {
                let children = spec_rule_children(fields, root, context);
                let rules = r->Obj_0.rule->Fields_0;
                assert(rules == done_values(children));
                assert forall|i: int| 0 <= i < fields.len() implies mirrors(#[trigger] rules[i], fields[i]) by {
                    assert(children[i] is Done);
                    law_rule_mirrors_constraint(fields[i], root, context);
                }
            }
        }
    }
}

/// The rule `r` has the shape, the field names and the defaults of the
/// constraint `c`.
pub open spec fn mirrors(r: RuleView, c: ConstraintView) -> bool
    decreases r,
{
    match r {
        RuleView::Str(sr) => c matches ConstraintView::Str(sc) && sr.field_name == sc.field_name && sr.default
            == sc.default,
        RuleView::Obj(or) => c matches ConstraintView::Obj(oc) && or.field_name == oc.field_name && or.default
            == oc.default && match or.rule {
            ObjRuleView::Any => oc.constr is Any,
            ObjRuleView::Fields(rules) => oc.constr matches ObjConstrView::Fields(fields) && rules.len()
                == fields.len() && forall|i: int|
                0 <= i < rules.len() ==> mirrors(#[trigger] rules[i], fields[i]),
        },
    }
}

/// Every error among the errors of `items` is held by one of the items.
pub proof fn lemma_errs_come_from_items<S, E>(items: Seq<Result<S, E>>, k: int)
    requires
        0 <= k < errs_of(items).len(),
    ensures
        exists|i: int| 0 <= i < items.len() && items[i] == Err::<S, E>(errs_of(items)[k]),
    decreases items.len(),
{
    let front = items.drop_last();
    if k < errs_of(front).len() {
        lemma_errs_come_from_items(front, k);
        let i = choose|i: int| 0 <= i < front.len() && front[i] == Err::<S, E>(errs_of(front)[k]);
        assert(items[i] == Err::<S, E>(errs_of(items)[k]));
    } else {
        assert(items[items.len() - 1] == Err::<S, E>(errs_of(items)[k]));
    }
}

/// Every error of the report on a single root rule is reported at the path of
/// the root or below it.
pub proof fn law_errors_stay_below_the_root(rule: RuleView, input: ValueView, k: int)
    requires
        0 <= k < spec_evaluate(seq![rule], input)->err.len(),
    ensures
        extends(spec_evaluate(seq![rule], input)->err[k].path, seq![rule_name(rule)]),
{
    let parts = Seq::new(1, |i: int| spec_eval(seq![rule][i], input, Seq::empty()));
    assert(parts.drop_last() =~= Seq::empty());
    assert(flat(parts.drop_last()) =~= Seq::<EvalItemView>::empty());
    let items = spec_eval(rule, input, Seq::empty());
    assert(flat(parts) =~= items);
    lemma_errs_come_from_items(items, k);
    let i = choose|i: int|
        0 <= i < items.len() && items[i] == Err::<RuleEvalSuccessView, RuleEvalErrView>(errs_of(items)[k]);
    law_results_stay_below_the_field(rule, input, Seq::empty(), i);
    assert(Seq::<ValueView>::empty().push(rule_name(rule)) =~= seq![rule_name(rule)]);
}

/// A completed report on a document: it holds one verdict for each field of
/// the grammar that is judged on the document, and each of its errors is
/// reported at the path of the root or below it.
pub proof fn law_completed_report(spec: Seq<(ValueView, ValueView)>, input: ValueView, name: ValueView, k: int)
    requires
        spec_yamlfmt(spec, input, name) is Completed,
    ensures
        all_done(spec_grammar(spec)),
        spec_rule(grammar_root(spec, name), input, grammar_root(spec, name)) is Done,
        spec_yamlfmt(spec, input, name)->ok.len() == fields_judged(
            spec_rule(grammar_root(spec, name), input, grammar_root(spec, name))->Done_0,
            input,
        ),
        0 <= k < spec_yamlfmt(spec, input, name)->err.len() ==> extends(
            spec_yamlfmt(spec, input, name)->err[k].path,
            seq![name],
        ),
{
    let root = grammar_root(spec, name);
    let rule = spec_rule(root, input, root)->Done_0;
    law_report_counts_fields(rule, input);
    if 0 <= k < spec_yamlfmt(spec, input, name)->err.len() {
        law_errors_stay_below_the_root(rule, input, k);
    }
}

/// The constraint tree of the whole grammar `spec`, its root named `name`.
pub open spec fn grammar_root(spec: Seq<(ValueView, ValueView)>, name: ValueView) -> ConstraintView {
    ConstraintView::Obj(spec_root(done_values(spec_grammar(spec)), name))
}

} // verus!
