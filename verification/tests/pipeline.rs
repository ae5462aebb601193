use yaml_grammar::constraint::Constraint;
use yaml_grammar::rule::{Rule, RuleErrType, RuleEvalErr, RuleEvalSuccess};
use yaml_grammar::value::{Mapping, Number, Value};
use yaml_grammar::value_ref::{DefaultFetchErr, ValueResolutionErr};
use yaml_grammar::{evaluate, into_constraint, parse_grammar, rules, yamlfmt, Evaluation};

fn s(text: &str) -> Value {
    Value::String(String::from(text))
}

fn number(n: &serde_yaml::Number) -> Number {
    if let Some(u) = n.as_u64() {
        Number::PosInt(u)
    } else if let Some(i) = n.as_i64() {
        Number::NegInt(i)
    } else {
        Number::Float(n.as_f64().unwrap().to_bits())
    }
}

fn convert(v: &serde_yaml::Value) -> Value {
    match v {
        serde_yaml::Value::Null => Value::Null,
        serde_yaml::Value::Bool(b) => Value::Bool(*b),
        serde_yaml::Value::Number(n) => Value::Number(number(n)),
        serde_yaml::Value::String(text) => Value::String(text.clone()),
        serde_yaml::Value::Sequence(items) => Value::Sequence(items.iter().map(convert).collect()),
        serde_yaml::Value::Mapping(m) => {
            let mut out = Mapping::new();
            for (k, v) in m {
                out.insert(convert(k), convert(v));
            }
            Value::Mapping(out)
        }
    }
}

fn yaml(raw: &str) -> Value {
    let parsed: serde_yaml::Value = serde_yaml::from_str(raw).unwrap();
    convert(&parsed)
}

fn yaml_map(raw: &str) -> Mapping {
    match yaml(raw) {
        Value::Mapping(m) => m,
        other => panic!("not a mapping: {:?}", other),
    }
}

fn nested_strings_grammar() -> Mapping {
    yaml_map(
        &[
            "parent:\n",
            "  type: object\n",
            "  fields:\n",
            "    hello:\n",
            "      type: string\n",
            "      eq: [parent, world]\n",
            "    world: string\n",
            "    nested:\n",
            "      type: object\n",
            "      fields:\n",
            "        foobar: string\n",
            "other: string\n",
        ]
        .concat(),
    )
}

fn nested_strings_input() -> Value {
    yaml("parent:\n  hello: foo\n  world: bar\n  nested:\n    foobar: baz\nother: 7\n")
}

fn nested_strings_invalid_input() -> Value {
    yaml("parent:\n  hello: foo\n  world: bar\n  nested: {}\n")
}

#[test]
pub fn syntactically_valid() {
    let spec: Mapping = nested_strings_grammar();
    let input: Value = nested_strings_input();
    println!("{:?}", spec);
    println!("{:?}", input);

    let yaml_res: Vec<_> = parse_grammar(&spec).get().into_iter().map(Result::unwrap).collect();

    let name = s(".");
    let obj_constr = into_constraint(yaml_res, &name);
    let obj_constr = Constraint::Obj(obj_constr);
    let rules = rules(&obj_constr, &input);
    let (ok, _): (Vec<_>, Vec<_>) = rules.into_iter().partition(|r| r.is_ok());
    let ok = ok.into_iter().map(Result::unwrap).collect();
    println!("EVALUATION:");
    let eval = evaluate(&ok, &input);
    println!("FINAL EVAL:\n{:?}", eval);

    let (dot, parent, hello, world, nested, foobar, other) =
        (s("."), s("parent"), s("hello"), s("world"), s("nested"), s("foobar"), s("other"));
    if let Evaluation::Completed { ok, err } = eval {
        assert_eq!(3, ok.len());
        assert!(ok.contains(&RuleEvalSuccess::new(false, &vec![&dot, &parent, &hello])));
        assert!(ok.contains(&RuleEvalSuccess::new(true, &vec![&dot, &parent, &world])));
        assert!(ok.contains(&RuleEvalSuccess::new(true, &vec![&dot, &parent, &nested, &foobar])));

        assert_eq!(1, err.len());
        assert!(err.contains(&RuleEvalErr::new(
            &vec![&dot, &other],
            RuleErrType::IncorrectType(&Value::Number(Number::PosInt(7)))
        )))
    } else {
        panic!("Result was not `Evaluation::Completed`")
    }
}

#[test]
pub fn nested_syntactically_valid() {
    let spec: Mapping = nested_strings_grammar();
    let input: Value = nested_strings_input();
    let name = s(".");
    let eval = yamlfmt(&spec, &input, &name);

    let (dot, parent, hello, world, nested, foobar, other) =
        (s("."), s("parent"), s("hello"), s("world"), s("nested"), s("foobar"), s("other"));
    if let Evaluation::Completed { ok, err } = eval {
        // successes
        assert_eq!(3, ok.len());
        assert!(ok.contains(&RuleEvalSuccess::new(false, &vec![&dot, &parent, &hello])));
        assert!(ok.contains(&RuleEvalSuccess::new(true, &vec![&dot, &parent, &world])));
        assert!(ok.contains(&RuleEvalSuccess::new(true, &vec![&dot, &parent, &nested, &foobar])));
        // errors
        assert_eq!(1, err.len());
        assert!(err.contains(&RuleEvalErr::new(
            &vec![&dot, &other],
            RuleErrType::IncorrectType(&Value::Number(Number::PosInt(7)))
        )))
    } else {
        panic!("Result was not `Evaluation::Completed`")
    }
}

#[test]
pub fn missing_nested() {
    let spec: Mapping = nested_strings_grammar();
    let input: Value = nested_strings_invalid_input();
    let name = s(".");
    let eval = yamlfmt(&spec, &input, &name);

    let (dot, parent, hello, world, nested, foobar, other) =
        (s("."), s("parent"), s("hello"), s("world"), s("nested"), s("foobar"), s("other"));
    if let Evaluation::Completed { ok, err } = eval {
        // successes
        assert_eq!(2, ok.len());
        assert!(ok.contains(&RuleEvalSuccess::new(false, &vec![&dot, &parent, &hello])));
        assert!(ok.contains(&RuleEvalSuccess::new(true, &vec![&dot, &parent, &world])));
        // errors
        assert_eq!(2, err.len());
        assert!(err.contains(&RuleEvalErr::new(&vec![&dot], RuleErrType::KeyNotFound(&other))));
        assert!(err.contains(&RuleEvalErr::new(&vec![&dot, &parent, &nested], RuleErrType::KeyNotFound(&foobar))));
    } else {
        panic!("Result was not `Evaluation::Completed`")
    }
}

#[test]
pub fn compare_against_default() {
    let spec: Mapping = yaml_map(
        "name:\n  type: string\n  eq: [nickname]\nnickname:\n  type: string\n  default: sam\n",
    );
    let input: Value = yaml("name: sam\n");
    let name = s(".");
    let eval = yamlfmt(&spec, &input, &name);
    println!("{:?}", eval);
    let (dot, first, second) = (s("."), s("name"), s("nickname"));
    if let Evaluation::Completed { ok, err } = eval {
        assert_eq!(ok, vec![RuleEvalSuccess::new(true, &vec![&dot, &first])]);
        assert_eq!(err, vec![RuleEvalErr::new(&vec![&dot], RuleErrType::KeyNotFound(&second))]);
    } else {
        panic!("Result was not `Evaluation::Completed`")
    }
}

#[test]
fn results_come_in_the_order_of_the_fields() {
    let spec = nested_strings_grammar();
    let input = nested_strings_input();
    let name = s(".");
    let (dot, parent, hello, world, nested, foobar) =
        (s("."), s("parent"), s("hello"), s("world"), s("nested"), s("foobar"));
    match yamlfmt(&spec, &input, &name) {
        Evaluation::Completed { ok, err: _ } => assert_eq!(
            ok,
            vec![
                RuleEvalSuccess::new(false, &vec![&dot, &parent, &hello]),
                RuleEvalSuccess::new(true, &vec![&dot, &parent, &world]),
                RuleEvalSuccess::new(true, &vec![&dot, &parent, &nested, &foobar]),
            ]
        ),
        other => panic!("unexpected {:?}", other),
    }
}

#[test]
fn malformed_grammar_stops_the_pipeline() {
    let spec = yaml_map("a: inty\nb: string\nc:\n  type: string\n  regex: '(('\n");
    let input = yaml("b: x");
    let name = s(".");
    let (a, c) = (s("a"), s("c"));
    match yamlfmt(&spec, &input, &name) {
        Evaluation::GrammarParseErr(errs) => {
            assert_eq!(errs.len(), 2);
            assert_eq!(errs[0].path, vec![&a]);
            assert!(matches!(errs[0].err, yaml_grammar::parse::PEType::UnknownType("inty")));
            assert_eq!(errs[1].path, vec![&c]);
            assert!(matches!(errs[1].err, yaml_grammar::parse::PEType::Regex(_)));
        }
        other => panic!("unexpected {:?}", other),
    }
}

#[test]
fn unresolved_references_stop_the_pipeline() {
    let spec = yaml_map(
        "a:\n  type: string\n  eq: [missing]\nb:\n  type: string\n  neq: [a, deeper]\nc:\n  type: string\n  eq: [d]\nd: object\n",
    );
    let input = yaml("a: x\nb: y\nc: z\nd: {}\n");
    let name = s(".");
    let d = Value::Mapping(Mapping::new());
    match yamlfmt(&spec, &input, &name) {
        Evaluation::ValueResolutionErr(errs) => {
            assert_eq!(
                errs,
                vec![
                    ValueResolutionErr::MissingRequired,
                    ValueResolutionErr::TooShort,
                    ValueResolutionErr::IncorrectType(&d),
                ]
            );
        }
        other => panic!("unexpected {:?}", other),
    }
}

#[test]
fn object_that_accepts_anything() {
    let spec = yaml_map("free: object\nempty:\n  type: object\n  fields: {}\n");
    let input = yaml("free:\n  a: [1, 2]\n  b:\n    c: d\nempty:\n  whatever: 1\n");
    let name = s(".");
    let (dot, free) = (s("."), s("free"));
    match yamlfmt(&spec, &input, &name) {
        Evaluation::Completed { ok, err } => {
            assert_eq!(ok, vec![RuleEvalSuccess::new(true, &vec![&dot, &free])]);
            assert!(err.is_empty());
        }
        other => panic!("unexpected {:?}", other),
    }
}

#[test]
fn object_with_fields_asks_for_a_mapping() {
    let spec = yaml_map("box:\n  type: object\n  fields:\n    a: string\n");
    let input = yaml("box: closed\n");
    let name = s(".");
    let (dot, boxed, closed) = (s("."), s("box"), s("closed"));
    match yamlfmt(&spec, &input, &name) {
        Evaluation::Completed { ok, err } => {
            assert!(ok.is_empty());
            assert_eq!(err, vec![RuleEvalErr::new(&vec![&dot, &boxed], RuleErrType::IncorrectType(&closed))]);
        }
        other => panic!("unexpected {:?}", other),
    }
}

#[test]
fn every_kind_of_string_rule() {
    let spec = yaml_map(
        &[
            "a:\n  type: string\n  allowed: [x, [ref]]\n",
            "b:\n  type: string\n  disallowed: [x, [ref]]\n",
            "c:\n  type: string\n  regex: '^ab+$'\n",
            "d:\n  type: string\n  eq: x\n",
            "e:\n  type: string\n  neq: [ref]\n",
            "ref: string\n",
        ]
        .concat(),
    );
    let name = s(".");
    let dot = s(".");
    let names = [s("a"), s("b"), s("c"), s("d"), s("e"), s("ref")];
    let verdicts = |input: &Value| -> Vec<bool> {
        match yamlfmt(&spec, input, &name) {
            Evaluation::Completed { ok, err } => {
                assert!(err.is_empty());
                for (i, item) in ok.iter().enumerate() {
                    assert_eq!(item.path, vec![&dot, &names[i]]);
                }
                ok.iter().map(|item| item.result).collect()
            }
            other => panic!("unexpected {:?}", other),
        }
    };
    let input = yaml("a: y\nb: y\nc: abbb\nd: x\ne: y\nref: y\n");
    assert_eq!(verdicts(&input), vec![true, false, true, true, false, true]);
    let input = yaml("a: z\nb: z\nc: abc\nd: y\ne: z\nref: y\n");
    assert_eq!(verdicts(&input), vec![false, true, false, false, true, true]);
}

#[test]
fn reference_falls_back_to_the_declared_default() {
    let spec = yaml_map(
        "a:\n  type: string\n  eq: [box, b]\nbox:\n  type: object\n  fields:\n    b:\n      type: string\n      default: dflt\n",
    );
    let grammar: Vec<_> = parse_grammar(&spec).get().into_iter().map(Result::unwrap).collect();
    let name = s(".");
    let root = Constraint::Obj(into_constraint(grammar, &name));
    let (dot, a, boxed, b) = (s("."), s("a"), s("box"), s("b"));

    // the referenced field is absent: the default stands in for it
    let input = yaml("a: dflt\nbox: {}\n");
    let resolved: Vec<Rule> = rules(&root, &input).into_iter().map(Result::unwrap).collect();
    match evaluate(&resolved, &input) {
        Evaluation::Completed { ok, err } => {
            assert_eq!(ok, vec![RuleEvalSuccess::new(true, &vec![&dot, &a])]);
            assert_eq!(err, vec![RuleEvalErr::new(&vec![&dot, &boxed], RuleErrType::KeyNotFound(&b))]);
        }
        other => panic!("unexpected {:?}", other),
    }

    // the referenced field is present: its value is used
    let input = yaml("a: dflt\nbox:\n  b: other\n");
    let resolved: Vec<Rule> = rules(&root, &input).into_iter().map(Result::unwrap).collect();
    match evaluate(&resolved, &input) {
        Evaluation::Completed { ok, err } => {
            assert_eq!(
                ok,
                vec![
                    RuleEvalSuccess::new(false, &vec![&dot, &a]),
                    RuleEvalSuccess::new(true, &vec![&dot, &boxed, &b])
                ]
            );
            assert!(err.is_empty());
        }
        other => panic!("unexpected {:?}", other),
    }
}

#[test]
fn resolution_errors() {
    let spec = yaml_map(
        "a:\n  type: string\n  eq: [s, x, y]\nb:\n  type: string\n  eq: [s, x]\nc:\n  type: string\n  eq: [free, x]\nd:\n  type: string\n  eq: [s]\ns: string\nfree: object\n",
    );
    let grammar: Vec<_> = parse_grammar(&spec).get().into_iter().map(Result::unwrap).collect();
    let name = s(".");
    let root = Constraint::Obj(into_constraint(grammar, &name));
    let input = yaml("a: 1\nb: 2\nc: 3\nd: 4\ns: text\nfree: {}\n");
    let errs: Vec<_> = rules(&root, &input).into_iter().map(Result::unwrap_err).collect();
    assert_eq!(
        errs,
        vec![ValueResolutionErr::TooLong, ValueResolutionErr::TooShort, ValueResolutionErr::MissingRequired]
    );

    // a path that runs through a string field of the schema
    let spec = yaml_map("a:\n  type: string\n  eq: [box, s, x]\nbox:\n  type: object\n  fields:\n    s: string\n");
    let grammar: Vec<_> = parse_grammar(&spec).get().into_iter().map(Result::unwrap).collect();
    let root = Constraint::Obj(into_constraint(grammar, &name));
    let input = yaml("a: 1\nbox: {}\n");
    let errs: Vec<_> = rules(&root, &input).into_iter().map(Result::unwrap_err).collect();
    let (boxed, field, x) = (s("box"), s("s"), s("x"));
    match &errs[0] {
        ValueResolutionErr::DefaultFetch { path, err } => {
            assert_eq!(path, &vec![&boxed, &field, &x]);
            match err {
                DefaultFetchErr::IncorrectType { residual_path, constr } => {
                    assert_eq!(residual_path, &vec![&field, &x]);
                    assert_eq!(constr.field_name(), &field);
                }
                other => panic!("unexpected {:?}", other),
            }
        }
        other => panic!("unexpected {:?}", other),
    }
    assert_eq!(errs.len(), 1);
}

#[test]
fn missing_nested_object() {
    let spec = nested_strings_grammar();
    let input = yaml("parent:\n  hello: foo\n  world: bar\nother: text\n");
    let name = s(".");
    let (dot, parent, hello, world, nested, other) =
        (s("."), s("parent"), s("hello"), s("world"), s("nested"), s("other"));
    match yamlfmt(&spec, &input, &name) {
        Evaluation::Completed { ok, err } => {
            assert_eq!(
                ok,
                vec![
                    RuleEvalSuccess::new(false, &vec![&dot, &parent, &hello]),
                    RuleEvalSuccess::new(true, &vec![&dot, &parent, &world]),
                    RuleEvalSuccess::new(true, &vec![&dot, &other]),
                ]
            );
            assert_eq!(err, vec![RuleEvalErr::new(&vec![&dot, &parent], RuleErrType::KeyNotFound(&nested))]);
        }
        other => panic!("unexpected {:?}", other),
    }
}

#[test]
fn one_verdict_for_each_field_judged() {
    let spec = yaml_map(
        "a: string\nb: object\nc:\n  type: object\n  fields:\n    d: string\n    e:\n      type: object\n      fields:\n        f: string\n        g: object\n",
    );
    let name = s(".");
    // every field is present and of the declared type: a, b, d, f, g
    let input = yaml("a: x\nb: {}\nc:\n  d: y\n  e:\n    f: z\n    g: 1\n");
    match yamlfmt(&spec, &input, &name) {
        Evaluation::Completed { ok, err } => {
            assert_eq!(ok.len(), 5);
            assert!(err.is_empty());
        }
        other => panic!("unexpected {:?}", other),
    }
    // e is absent and a is no string: b and d remain
    let input = yaml("a: 1\nb: {}\nc:\n  d: y\n");
    let dot = s(".");
    match yamlfmt(&spec, &input, &name) {
        Evaluation::Completed { ok, err } => {
            assert_eq!(ok.len(), 2);
            assert_eq!(err.len(), 2);
            for e in err.iter() {
                assert_eq!(e.path[0], &dot);
            }
            for o in ok.iter() {
                assert_eq!(o.path[0], &dot);
            }
        }
        other => panic!("unexpected {:?}", other),
    }
}

#[test]
fn rule_evaluates_below_its_parent_path() {
    let name = s("f");
    let parent = s("p");
    let constraint = Constraint::Str(yaml_grammar::str::StringConstraint::default(&name));
    let input = Value::Null;
    let resolved = Rule::new(&constraint, &input).get().into_iter().next().unwrap().unwrap();
    assert_eq!(resolved.field_name(), &name);
    let text = s("anything");
    assert_eq!(
        resolved.eval(&text, &vec![&parent]).get(),
        vec![Ok(RuleEvalSuccess::new(true, &vec![&parent, &name]))]
    );
    let seven = Value::Number(Number::PosInt(7));
    assert_eq!(
        resolved.eval(&seven, &vec![&parent]).get(),
        vec![Err(RuleEvalErr::new(&vec![&parent, &name], RuleErrType::IncorrectType(&seven)))]
    );
}

#[test]
fn shapes_of_resolution_and_evaluation() {
    let name = s("f");
    let absent = s("absent");
    let text = s("text");
    let input = Value::Mapping(Mapping::new());

    let refers = yaml_grammar::str::StringConstraint::new(
        &name,
        yaml_grammar::str::StrConstr::Equals(yaml_grammar::value_ref::ValueRef::AbsolutePath(vec![&absent])),
        None,
    );
    let failing = Constraint::Str(refers);
    assert!(matches!(Rule::new(&failing, &input), yaml_grammar::bubble::Bubble::Single(Err(_))));

    let refers = yaml_grammar::str::StringConstraint::new(
        &name,
        yaml_grammar::str::StrConstr::Equals(yaml_grammar::value_ref::ValueRef::AbsolutePath(vec![&absent])),
        None,
    );
    let object = Constraint::Obj(yaml_grammar::obj::ObjectConstraint::new(
        &name,
        yaml_grammar::obj::ObjConstr::Fields(vec![Constraint::Str(refers)]),
        None,
    ));
    assert!(matches!(Rule::new(&object, &input), yaml_grammar::bubble::Bubble::Multi(_)));

    let plain = Constraint::Obj(yaml_grammar::obj::ObjectConstraint::new(
        &name,
        yaml_grammar::obj::ObjConstr::Fields(vec![Constraint::Str(yaml_grammar::str::StringConstraint::default(
            &absent,
        ))]),
        None,
    ));
    let resolved = match Rule::new(&plain, &input) {
        yaml_grammar::bubble::Bubble::Single(Ok(rule)) => rule,
        other => panic!("unexpected {:?}", other),
    };
    assert!(matches!(resolved.eval(&input, &vec![]), yaml_grammar::bubble::Bubble::Multi(_)));
    assert!(matches!(resolved.eval(&text, &vec![]), yaml_grammar::bubble::Bubble::Single(Err(_))));
}
