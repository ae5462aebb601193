use yaml_grammar::bubble::Bubble;
use yaml_grammar::constraint::Constraint;
use yaml_grammar::obj::{ObjConstr, ObjectConstraint};
use yaml_grammar::parse::{PEType, ParseErr};
use yaml_grammar::str::{StrConstr, StringConstraint};
use yaml_grammar::value::{Mapping, Number, Value};
use yaml_grammar::value_ref::{DefaultFetchErr, ValueRef};

fn s(text: &str) -> Value {
    Value::String(String::from(text))
}

fn number(n: &serde_yaml::Number) -> Number {
    if let Some(u) = n.as_u64() {
        Number::PosInt(u)
    } else if let Some(i) = n.as_i64() {
        Number::NegInt(i)
    } else {
        Number::Float(n.as_f64().unwrap().to_bits())
    }
}

fn convert(v: &serde_yaml::Value) -> Value {
    match v {
        serde_yaml::Value::Null => Value::Null,
        serde_yaml::Value::Bool(b) => Value::Bool(*b),
        serde_yaml::Value::Number(n) => Value::Number(number(n)),
        serde_yaml::Value::String(text) => Value::String(text.clone()),
        serde_yaml::Value::Sequence(items) => Value::Sequence(items.iter().map(convert).collect()),
        serde_yaml::Value::Mapping(m) => {
            let mut out = Mapping::new();
            for (k, v) in m {
                out.insert(convert(k), convert(v));
            }
            Value::Mapping(out)
        }
    }
}

fn yaml_map(raw: &str) -> Mapping {
    let parsed: serde_yaml::Value = serde_yaml::from_str(raw).unwrap();
    match convert(&parsed) {
        Value::Mapping(m) => m,
        other => panic!("not a mapping: {:?}", other),
    }
}

#[test]
fn obj_obj_constr_valid() {
    let raw = [
        "type: object\n",
        "fields:\n",
        "  hello: string\n",
        "  world: string\n",
        "  nested:\n",
        "    type: object\n",
        "    fields:\n",
        "      foobar: string",
    ]
    .concat();

    // inner object constraint
    let name = s("nested");
    let mut nested = ObjectConstraint::new(&name, ObjConstr::Fields(Vec::new()), None);
    let name = s("foobar");
    nested.add(&name, Constraint::Str(StringConstraint::default(&name)));
    // outer object constraint, its fields in the order of declaration
    let name = s("f");
    let mut expected = ObjectConstraint::new(&name, ObjConstr::Fields(Vec::new()), None);
    let name = s("hello");
    expected.add(&name, Constraint::Str(StringConstraint::default(&name)));
    let name = s("world");
    expected.add(&name, Constraint::Str(StringConstraint::default(&name)));
    let name = s("nested");
    expected.add(&name, Constraint::Obj(nested));

    let config = yaml_map(&raw);
    let name = s("f");
    let res = yaml_grammar::obj::build(&name, &config, &vec![]);
    if let Bubble::Single(Ok(Constraint::Obj(obj))) = res {
        assert_eq!(&s("f"), obj.field_name);
        assert_eq!(expected, obj);
        assert_eq!(None, obj.default);
    } else {
        panic!("parse of valid input failed");
    }
}

#[test]
fn obj_constr_obj_constr_valid() {
    let raw = [
        "type: object\n",
        "fields:\n",
        "  hello: string\n",
        "  world: string\n",
        "  nested:\n",
        "    type: object\n",
        "    fields:\n",
        "      foobar: string",
    ]
    .concat();

    let name = s("nested");
    let mut nested = ObjectConstraint::new(&name, ObjConstr::Fields(Vec::new()), None);
    let name = s("foobar");
    nested.add(&name, Constraint::Str(StringConstraint::default(&name)));
    let name = s("f");
    let mut expected = ObjectConstraint::new(&name, ObjConstr::Fields(Vec::new()), None);
    let name = s("hello");
    expected.add(&name, Constraint::Str(StringConstraint::default(&name)));
    let name = s("world");
    expected.add(&name, Constraint::Str(StringConstraint::default(&name)));
    let name = s("nested");
    expected.add(&name, Constraint::Obj(nested));

    let config = yaml_map(&raw);
    let name = s("f");
    let res = yaml_grammar::obj::build(&name, &config, &vec![]);
    if let Bubble::Single(Ok(Constraint::Obj(obj))) = res {
        assert_eq!(&s("f"), obj.field_name);
        assert_eq!(expected, obj);
        assert_eq!(None, obj.default);
    } else {
        panic!();
    }
}

#[test]
fn obj_constr_invalid() {
    let raw = ["type: object\n", "fields:\n", "  hello: stringerino\n", "  world: string\n"].concat();

    let config = yaml_map(&raw);
    let name = s("parent");
    let results = yaml_grammar::obj::build(&name, &config, &vec![]).get();
    assert_eq!(results.len(), 1);

    let pe = results
        .into_iter()
        .next()
        .expect("expected one error")
        .expect_err("First entry should be an error");
    let (parent, hello) = (s("parent"), s("hello"));
    let expected = ParseErr::new(&vec![&parent, &hello], PEType::UnknownType("stringerino"));
    assert_eq!(expected, pe);
}

#[test]
fn obj_constr_multiple_invalid() {
    let raw = [
        "type: object\n",
        "fields:\n",
        "  hello: stringerino\n",
        "  world:\n",
        "    type: string\n",
        "    regex: ^\\d{{{{$",
    ]
    .concat();

    let config = yaml_map(&raw);
    let name = s("parent");
    let results = yaml_grammar::obj::build(&name, &config, &vec![]).get();
    assert_eq!(results.len(), 2);

    let (parent, hello) = (s("parent"), s("hello"));
    let hello_type_error = ParseErr::new(&vec![&parent, &hello], PEType::UnknownType("stringerino"));
    assert!(results.contains(&Err(hello_type_error)));

    let (parent, world) = (s("parent"), s("world"));
    let world_regex_error =
        ParseErr::new(&vec![&parent, &world], PEType::Regex(regex::Regex::new("^\\d{{{{$").unwrap_err()));
    assert!(results.contains(&Err(world_regex_error)));
}

#[test]
fn obj_empty_fields() {
    let raw = ["type: object\n", "fields:\n"].concat();

    let config = yaml_map(&raw);
    let name = s("parent");
    let results = yaml_grammar::obj::build(&name, &config, &vec![]).get();
    assert_eq!(results.len(), 1);

    let pe = results
        .into_iter()
        .next()
        .expect("expected one error")
        .expect_err("First entry should be an error");
    let expected = ParseErr::new(&vec![&name], PEType::IncorrectType(&Value::Null));
    assert_eq!(expected, pe);
}

#[test]
fn resolving_any_is_err() {
    let name = s("any");
    let any = ObjectConstraint::default(&name);
    let vals = [s("any"), s("foo")];
    let path: Vec<_> = vals.iter().collect();
    let res = any.constraint(&path);
    let (a, b) = (s("any"), s("foo"));
    assert_eq!(res, Err(DefaultFetchErr::ConstraintIsAny(vec![&a, &b])));
}

#[test]
fn fetch_default_for_single_layer() {
    let str_name = s("foo");
    let strconstr = StringConstraint::default(&str_name);
    let constr = Constraint::Str(strconstr);
    let obj_name = s("parent");
    let parent = ObjectConstraint { field_name: &obj_name, constr: ObjConstr::Fields(vec![constr]), default: None };
    // fetch a value that exists
    let vals = [s("foo")];
    let path: Vec<_> = vals.iter().collect();
    let res = parent.constraint(&path);
    assert_eq!(res, Ok(&Constraint::Str(StringConstraint::default(&s("foo")))));
    // fetch a value that doesn't
    let vals = [s("bar")];
    let path: Vec<_> = vals.iter().collect();
    let res = parent.constraint(&path);
    assert_eq!(res, Err(DefaultFetchErr::KeyNotFound(vec![&s("bar")])));
    // fetch a path that's too short
    let res = parent.constraint(&[]);
    assert_eq!(res, Err(DefaultFetchErr::PathIsTooShort(vec![])));
    // fetch a path that's too long
    let vals = [s("foo"), s("bar")];
    let path: Vec<_> = vals.iter().collect();
    let res = parent.constraint(&path);
    let (a, b) = (s("foo"), s("bar"));
    assert_eq!(
        res,
        Err(DefaultFetchErr::IncorrectType {
            residual_path: vec![&a, &b],
            constr: Constraint::Str(StringConstraint::default(&s("foo")))
        })
    );
}

#[test]
fn fetch_default_from_nested() {
    // inner constraint
    let str_name = s("foo");
    let inner_name = s("inner");
    let make_inner = || {
        Constraint::Obj(ObjectConstraint {
            field_name: &inner_name,
            constr: ObjConstr::Fields(vec![Constraint::Str(StringConstraint::default(&str_name))]),
            default: None,
        })
    };
    let inner_constr = make_inner();
    // save this for later
    let inner_constr_clone = make_inner();
    // outer constraint
    let outer_name = s("outer");
    let outer =
        ObjectConstraint { field_name: &outer_name, constr: ObjConstr::Fields(vec![inner_constr]), default: None };
    // fetch foo from the nested structure
    let vals = [s("inner"), s("foo")];
    let path: Vec<_> = vals.iter().collect();
    let res = outer.constraint(&path);
    assert_eq!(res, Ok(&Constraint::Str(StringConstraint::default(&s("foo")))));
    // fetch a value that doesn't exist in the nested structure
    let vals = [s("inner"), s("bar")];
    let path: Vec<_> = vals.iter().collect();
    let res = outer.constraint(&path);
    // only the residual path comes back
    assert_eq!(res, Err(DefaultFetchErr::KeyNotFound(vec![&s("bar")])));
    // fetch the parent constraint
    let vals = [s("inner")];
    let path: Vec<_> = vals.iter().collect();
    let res = outer.constraint(&path);
    assert_eq!(res, Ok(&inner_constr_clone));
    // fetch a path that's too long
    let vals = [s("inner"), s("foo"), s("bar")];
    let path: Vec<_> = vals.iter().collect();
    let res = outer.constraint(&path);
    let (a, b) = (s("foo"), s("bar"));
    assert_eq!(
        res,
        Err(DefaultFetchErr::IncorrectType {
            residual_path: vec![&a, &b],
            constr: Constraint::Str(StringConstraint::default(&s("foo")))
        })
    );
}

#[test]
fn str_str_eq_valid() {
    let raw = ["type: string\n", "eq: hello"].concat();
    let map = yaml_map(&raw);
    let name = s("f");
    let acutal = yaml_grammar::str::build(&name, &map, &vec![]);
    if let Ok(string_constraint) = acutal {
        assert_eq!(string_constraint.field_name, &s("f"));
        assert_eq!(string_constraint.constr, StrConstr::Equals(ValueRef::Literal(&String::from("hello"))));
        assert_eq!(string_constraint.default, None);
    } else {
        panic!("didn't parse valid input")
    }
}

#[test]
fn str_str_eq_invalid() {
    let raw = ["type: string\n", "eq: 7"].concat();
    let map = yaml_map(&raw);
    let name = s("f");
    let acutal = yaml_grammar::str::build(&name, &map, &vec![]);
    if let Err(pe) = acutal {
        assert_eq!(
            pe,
            ParseErr { err: PEType::IncorrectType(&Value::Number(Number::PosInt(7))), path: Vec::<&Value>::new() }
        )
    } else {
        panic!()
    }
}

#[test]
fn str_constr_str_eq_valid() {
    let raw = ["type: string\n", "eq: hello"].concat();
    let map = yaml_map(&raw);
    let name = s("f");
    let acutal = yaml_grammar::str::build(&name, &map, &vec![]);
    if let Ok(string_constraint) = acutal {
        assert_eq!(string_constraint.field_name, &s("f"));
        assert_eq!(string_constraint.constr, StrConstr::Equals(ValueRef::Literal(&String::from("hello"))));
        assert_eq!(string_constraint.default, None);
    } else {
        panic!("didn't parse valid input")
    }
}

#[test]
fn str_constr_str_eq_invalid() {
    let raw = ["type: string\n", "eq: 7"].concat();
    let map = yaml_map(&raw);
    let name = s("f");
    let acutal = yaml_grammar::str::build(&name, &map, &vec![]);
    if let Err(pe) = acutal {
        assert!(matches!(pe.err, PEType::IncorrectType(Value::Number(_))));
        assert_eq!(pe.path, Vec::<&Value>::new());
    } else {
        panic!()
    }
}

#[test]
fn bare_type_names() {
    let name = s("f");
    let root: Vec<&Value> = Vec::new();
    let string = s("string");
    let object = s("object");
    let other = s("integer");
    assert_eq!(
        Constraint::parse(&name, &string, &root).get(),
        vec![Ok(Constraint::Str(StringConstraint::default(&name)))]
    );
    assert_eq!(
        Constraint::parse(&name, &object, &root).get(),
        vec![Ok(Constraint::Obj(ObjectConstraint::default(&name)))]
    );
    assert_eq!(
        Constraint::parse(&name, &other, &root).get(),
        vec![Err(ParseErr::new(&vec![&name], PEType::UnknownType("integer")))]
    );
}

#[test]
fn unsupported_shapes() {
    let name = s("f");
    let parent = s("p");
    let shapes = vec![
        Value::Null,
        Value::Bool(true),
        Value::Number(Number::NegInt(-3)),
        Value::Sequence(vec![s("string")]),
    ];
    for shape in shapes.iter() {
        let res = Constraint::parse(&name, shape, &vec![&parent]).get();
        assert_eq!(res, vec![Err(ParseErr::new(&vec![&parent, &name], PEType::Unsupported))]);
    }
}

#[test]
fn type_entry_is_required() {
    let name = s("f");
    let missing = Value::Mapping(yaml_map("regex: abc"));
    let res = Constraint::parse(&name, &missing, &vec![]).get();
    assert_eq!(res, vec![Err(ParseErr::new(&vec![&name], PEType::InvalidTypeInfo(&name)))]);

    let not_a_string = Value::Mapping(yaml_map("type: 3"));
    let res = Constraint::parse(&name, &not_a_string, &vec![]).get();
    assert_eq!(res, vec![Err(ParseErr::new(&vec![&name], PEType::InvalidTypeInfo(&name)))]);

    let unknown = Value::Mapping(yaml_map("type: integer"));
    let res = Constraint::parse(&name, &unknown, &vec![]).get();
    assert_eq!(res, vec![Err(ParseErr::new(&vec![&name], PEType::UnknownType("integer")))]);
}

#[test]
fn defaults_are_checked_first() {
    let name = s("f");
    let map = yaml_map("type: string\ndefault: 3\nregex: '(('");
    let res = yaml_grammar::str::build(&name, &map, &vec![&name]);
    assert_eq!(
        res,
        Err(ParseErr::new(&vec![&name], PEType::InvalidDefault(&Value::Number(Number::PosInt(3)))))
    );

    let map = yaml_map("type: string\ndefault: fallback");
    let res = yaml_grammar::str::build(&name, &map, &vec![&name]).unwrap();
    assert_eq!(res.constr, StrConstr::Any);
    assert_eq!(res.default, Some(&String::from("fallback")));

    let config = yaml_map("type: object\ndefault: nope");
    let res = yaml_grammar::obj::build(&name, &config, &vec![]).get();
    assert_eq!(res, vec![Err(ParseErr::new(&vec![&name], PEType::InvalidDefault(&s("nope"))))]);

    let config = yaml_map("type: object\ndefault:\n  a: b");
    let res = yaml_grammar::obj::build(&name, &config, &vec![]).get();
    let inner = yaml_map("a: b");
    match &res[0] {
        Ok(Constraint::Obj(o)) => {
            assert_eq!(o.constr, ObjConstr::Any);
            assert_eq!(o.default, Some(&inner));
        }
        other => panic!("unexpected {:?}", other),
    }
}

#[test]
fn first_key_in_order_wins() {
    let name = s("f");
    let map = yaml_map("type: string\nneq: a\neq: b\ndisallowed: [c]\nallowed: [d]\nregex: e+");
    let built = yaml_grammar::str::build(&name, &map, &vec![]).unwrap();
    match &built.constr {
        StrConstr::Regex(re) => assert_eq!(re.as_str(), "e+"),
        other => panic!("unexpected {:?}", other),
    }

    let map = yaml_map("type: string\nneq: a\neq: b\ndisallowed: [c]\nallowed: [d]");
    let built = yaml_grammar::str::build(&name, &map, &vec![]).unwrap();
    assert_eq!(built.constr, StrConstr::Allowed(vec![ValueRef::Literal(&String::from("d"))]));

    let map = yaml_map("type: string\nneq: a\neq: b\ndisallowed: [c]");
    let built = yaml_grammar::str::build(&name, &map, &vec![]).unwrap();
    assert_eq!(built.constr, StrConstr::Disallowed(vec![ValueRef::Literal(&String::from("c"))]));

    let map = yaml_map("type: string\nneq: a\neq: b");
    let built = yaml_grammar::str::build(&name, &map, &vec![]).unwrap();
    assert_eq!(built.constr, StrConstr::Equals(ValueRef::Literal(&String::from("b"))));

    let map = yaml_map("type: string\nneq: a");
    let built = yaml_grammar::str::build(&name, &map, &vec![]).unwrap();
    assert_eq!(built.constr, StrConstr::NotEquals(ValueRef::Literal(&String::from("a"))));

    // an invalid later key is never looked at
    let map = yaml_map("type: string\nregex: a\nallowed: 7");
    assert!(yaml_grammar::str::build(&name, &map, &vec![]).is_ok());
}

#[test]
fn constraint_parameters_are_checked() {
    let name = s("f");
    let seven = Value::Number(Number::PosInt(7));

    let map = yaml_map("type: string\nregex: 7");
    assert_eq!(
        yaml_grammar::str::build(&name, &map, &vec![]),
        Err(ParseErr::new(&vec![], PEType::IncorrectType(&seven)))
    );
    let map = yaml_map("type: string\nallowed: 7");
    assert_eq!(
        yaml_grammar::str::build(&name, &map, &vec![]),
        Err(ParseErr::new(&vec![], PEType::IncorrectType(&seven)))
    );
    let map = yaml_map("type: string\ndisallowed: [a, 7]");
    assert_eq!(
        yaml_grammar::str::build(&name, &map, &vec![]),
        Err(ParseErr::new(&vec![], PEType::IncorrectType(&seven)))
    );
    let map = yaml_map("type: string\neq: [a, [b]]");
    let bad = Value::Sequence(vec![s("b")]);
    assert_eq!(
        yaml_grammar::str::build(&name, &map, &vec![]),
        Err(ParseErr::new(&vec![], PEType::InvalidAbsolutePath(&bad)))
    );
    let map = yaml_map("type: string\nallowed: [a, [b, 1, true]]");
    let built = yaml_grammar::str::build(&name, &map, &vec![]).unwrap();
    let (b, one, yes) = (s("b"), Value::Number(Number::PosInt(1)), Value::Bool(true));
    assert_eq!(
        built.constr,
        StrConstr::Allowed(vec![
            ValueRef::Literal(&String::from("a")),
            ValueRef::AbsolutePath(vec![&b, &one, &yes])
        ])
    );
}

#[test]
fn invalid_regex_is_reported_at_its_field() {
    let grammar = yaml_map("world:\n  type: string\n  regex: '^\\d{{{{$'\nother: string");
    let results = yaml_grammar::parse_grammar(&grammar).get();
    assert_eq!(results.len(), 2);
    let world = s("world");
    let expected = ParseErr::new(&vec![&world], PEType::Regex(regex::Regex::new("^\\d{{{{$").unwrap_err()));
    assert_eq!(results[0], Err(expected));
    assert!(results[1].is_ok());
}

#[test]
fn sibling_errors_keep_their_order() {
    let config = yaml_map("type: object\nfields:\n  a: inty\n  b: string\n  c: floaty");
    let name = s("root");
    let results = yaml_grammar::obj::build(&name, &config, &vec![]).get();
    let (a, c) = (s("a"), s("c"));
    assert_eq!(
        results,
        vec![
            Err(ParseErr::new(&vec![&name, &a], PEType::UnknownType("inty"))),
            Err(ParseErr::new(&vec![&name, &c], PEType::UnknownType("floaty"))),
        ]
    );
}

#[test]
fn nested_errors_are_flattened() {
    let raw = "type: object\nfields:\n  a:\n    type: object\n    fields:\n      x: inty\n      y: floaty\n  b: what";
    let config = yaml_map(raw);
    let name = s("root");
    let results = yaml_grammar::obj::build(&name, &config, &vec![]).get();
    let (a, b, x, y) = (s("a"), s("b"), s("x"), s("y"));
    assert_eq!(
        results,
        vec![
            Err(ParseErr::new(&vec![&name, &a, &x], PEType::UnknownType("inty"))),
            Err(ParseErr::new(&vec![&name, &a, &y], PEType::UnknownType("floaty"))),
            Err(ParseErr::new(&vec![&name, &b], PEType::UnknownType("what"))),
        ]
    );
}

#[test]
fn parsing_twice_gives_equal_trees() {
    let raw = "type: object\nfields:\n  a:\n    type: string\n    regex: ab+\n    default: abb\n  b:\n    type: string\n    allowed: [x, [a]]";
    let config = yaml_map(raw);
    let name = s("root");
    let first = yaml_grammar::obj::build(&name, &config, &vec![]).get();
    let second = yaml_grammar::obj::build(&name, &config, &vec![]).get();
    assert!(first[0].is_ok());
    assert_eq!(first, second);
}

#[test]
fn empty_fields_and_bare_object_are_valid() {
    let name = s("f");
    let config = yaml_map("type: object\nfields: {}");
    let res = yaml_grammar::obj::build(&name, &config, &vec![]).get();
    assert_eq!(res, vec![Ok(Constraint::Obj(ObjectConstraint::new(&name, ObjConstr::Fields(Vec::new()), None)))]);

    let config = yaml_map("type: object");
    let res = yaml_grammar::obj::build(&name, &config, &vec![]).get();
    assert_eq!(res, vec![Ok(Constraint::Obj(ObjectConstraint::default(&name)))]);
}

#[test]
fn add_replaces_a_field_of_the_same_name() {
    let name = s("root");
    let (a, b) = (s("a"), s("b"));
    let fallback = String::from("x");
    let mut root = ObjectConstraint::new(&name, ObjConstr::Fields(Vec::new()), None);
    root.add(&a, Constraint::Str(StringConstraint::default(&a)));
    root.add(&b, Constraint::Str(StringConstraint::default(&b)));
    root.add(&a, Constraint::Str(StringConstraint { field_name: &a, constr: StrConstr::Any, default: Some(&fallback) }));
    match &root.constr {
        ObjConstr::Fields(fields) => {
            assert_eq!(fields.len(), 2);
            assert_eq!(fields[0].field_name(), &a);
            assert_eq!(fields[1].field_name(), &b);
            match &fields[0] {
                Constraint::Str(sc) => assert_eq!(sc.default, Some(&fallback)),
                other => panic!("unexpected {:?}", other),
            }
        }
        other => panic!("unexpected {:?}", other),
    }
    let mut any = ObjectConstraint::default(&name);
    any.add(&a, Constraint::Str(StringConstraint::default(&a)));
    assert_eq!(any.constr, ObjConstr::Any);
}

#[test]
fn fetch_on_a_string_constraint() {
    let name = s("foo");
    let constr = Constraint::Str(StringConstraint::default(&name));
    let bar = s("bar");
    assert_eq!(
        constr.fetch(&vec![&bar]),
        Err(DefaultFetchErr::IncorrectType {
            residual_path: vec![&bar],
            constr: Constraint::Str(StringConstraint::default(&name))
        })
    );
}

#[test]
fn from_spec_parses_at_the_root() {
    let (name, kind) = (s("f"), s("string"));
    assert_eq!(
        Constraint::from_spec((&name, &kind)).get(),
        vec![Ok(Constraint::Str(StringConstraint::default(&name)))]
    );
    let bad = Value::Null;
    assert_eq!(
        Constraint::from_spec((&name, &bad)).get(),
        vec![Err(ParseErr::new(&vec![&name], PEType::Unsupported))]
    );
}

#[test]
fn all_ok_tells_success_from_failure() {
    let name = s("f");
    let config = yaml_map("type: object\nfields:\n  a: string\n  b: inty");
    let failed = yaml_grammar::obj::build(&name, &config, &vec![]);
    assert!(!failed.all_ok());
    let config = yaml_map("type: object\nfields:\n  a: string\n  b: object");
    let built = yaml_grammar::obj::build(&name, &config, &vec![]);
    assert!(built.all_ok());
    assert_eq!(built.len(), 1);
}

#[test]
fn parsed_fields_have_unique_names() {
    let name = s("f");
    let config = yaml_map("type: object\nfields:\n  a: string\n  b: object\n  c:\n    type: object\n    fields:\n      a: string");
    match yaml_grammar::obj::build(&name, &config, &vec![]) {
        Bubble::Single(Ok(Constraint::Obj(o))) => match &o.constr {
            ObjConstr::Fields(fields) => {
                let names: Vec<&Value> = fields.iter().map(|c| c.field_name()).collect();
                assert_eq!(names, vec![&s("a"), &s("b"), &s("c")]);
            }
            other => panic!("unexpected {:?}", other),
        },
        other => panic!("unexpected {:?}", other),
    }
}

#[test]
fn failures_of_mappings_come_as_lists() {
    let name = s("f");
    // a bare node reports a single result
    let bad = s("inty");
    assert!(matches!(Constraint::parse(&name, &bad, &vec![]), Bubble::Single(Err(_))));
    let good = s("string");
    assert!(matches!(Constraint::parse(&name, &good, &vec![]), Bubble::Single(Ok(_))));
    // a mapping reports one constraint, or a list of errors
    let declared = Value::Mapping(yaml_map("type: string\nregex: '(('"));
    assert!(matches!(Constraint::parse(&name, &declared, &vec![]), Bubble::Multi(_)));
    let declared = Value::Mapping(yaml_map("type: inty"));
    assert!(matches!(Constraint::parse(&name, &declared, &vec![]), Bubble::Multi(_)));
    let declared = Value::Mapping(yaml_map("kind: string"));
    assert!(matches!(Constraint::parse(&name, &declared, &vec![]), Bubble::Multi(_)));
    let declared = Value::Mapping(yaml_map("type: object\ndefault: 1"));
    assert!(matches!(Constraint::parse(&name, &declared, &vec![]), Bubble::Multi(_)));
    let declared = Value::Mapping(yaml_map("type: object\nfields:\n  a: inty"));
    assert!(matches!(Constraint::parse(&name, &declared, &vec![]), Bubble::Multi(_)));
    let declared = Value::Mapping(yaml_map("type: object\nfields:\n  a: string"));
    assert!(matches!(Constraint::parse(&name, &declared, &vec![]), Bubble::Single(Ok(_))));
    let declared = Value::Mapping(yaml_map("type: string\neq: a"));
    assert!(matches!(Constraint::parse(&name, &declared, &vec![]), Bubble::Single(Ok(_))));
}
