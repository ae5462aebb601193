//! The constraint tree that a grammar is compiled into.

use vstd::prelude::*;
use crate::bubble::Bubble;
use crate::obj::{
    opt_mapping_view, spec_obj_build, ObjConstr, ObjConstrView, ObjectConstraint, ObjectConstraintView,
};
use crate::parse::{
    copy_path, extend_path, parse_result_is, str_eq, Outcome, PEType, PETypeView, ParseErr, ParseErrView,
    YamlParseResult,
};
use crate::str::{spec_str_build, StrConstrView, StringConstraint, StringConstraintView};
use crate::value::{index_of, lookup, path_view, well_keyed, Mapping, Value, ValueView};
use crate::value_ref::{DefaultFetchErr, DefaultFetchErrView};

verus! {

/// A parsed node of the grammar whose references are not resolved yet.
#[derive(Debug, PartialEq)]
pub enum Constraint<'a> {
    Str(StringConstraint<'a>),
    Obj(ObjectConstraint<'a>),
}

/// The mathematical content of a `Constraint`.
pub enum ConstraintView {
    Str(StringConstraintView),
    Obj(ObjectConstraintView),
}

/// The mathematical content of `c`.
pub open spec fn constraint_view(c: &Constraint) -> ConstraintView
    decreases c,
{
    match c {
        Constraint::Str(s) => ConstraintView::Str(s@),
        Constraint::Obj(o) => ConstraintView::Obj(
            ObjectConstraintView {
                field_name: o.field_name@,
                constr: match &o.constr {
                    ObjConstr::Fields(fields) => ObjConstrView::Fields(
                        Seq::new(
                            fields@.len(),
                            |i: int| if 0 <= i < fields@.len() {
                                constraint_view(&fields@[i])
                            } else {
                                arbitrary()
                            },
                        ),
                    ),
                    ObjConstr::Any => ObjConstrView::Any,
                },
                default: opt_mapping_view(o.default),
            },
        ),
    }
}

/// The name of the field that `c` constrains.
pub open spec fn field_name_of(c: ConstraintView) -> ValueView {
    match c {
        ConstraintView::Str(s) => s.field_name,
        ConstraintView::Obj(o) => o.field_name,
    }
}

/// Position of the first constraint of `fields` at or after `start` whose field
/// is named `key`.
pub open spec fn field_from(fields: Seq<ConstraintView>, key: ValueView, start: int) -> Option<int>
    decreases fields.len() - start,
{
    if start < 0 || start >= fields.len() {
        None
    } else if field_name_of(fields[start]) == key {
        Some(start)
    } else {
        field_from(fields, key, start + 1)
    }
}

/// What `field_from` finds is in range, has the name, and is the first such field.
pub proof fn lemma_field_from(fields: Seq<ConstraintView>, key: ValueView, start: int)
    requires
        0 <= start,
    ensures
        match field_from(fields, key, start) {
            Some(i) => start <= i < fields.len() && field_name_of(fields[i]) == key && forall|j: int|
                start <= j < i ==> field_name_of(fields[j]) != key,
            None => forall|j: int| start <= j < fields.len() ==> field_name_of(fields[j]) != key,
        },
    decreases fields.len() - start,
{
    if start < fields.len() && field_name_of(fields[start]) != key {
        lemma_field_from(fields, key, start + 1);
    }
}

/// No two constraints of `fields` are about a field of the same name.
pub open spec fn unique_fields(fields: Seq<ConstraintView>) -> bool {
    forall|i: int, j: int| 0 <= i < j < fields.len() ==> field_name_of(fields[i]) != field_name_of(fields[j])
}

/// In every object of the tree, the declared fields have unique names.
pub open spec fn well_formed(c: ConstraintView) -> bool
    decreases c,
{
    match c {
        ConstraintView::Str(_) => true,
        ConstraintView::Obj(o) => match o.constr {
            ObjConstrView::Any => true,
            ObjConstrView::Fields(fields) => unique_fields(fields) && forall|i: int|
                0 <= i < fields.len() ==> well_formed(#[trigger] fields[i]),
        },
    }
}

/// The constraint that the schema `c` declares at `path`.
pub open spec fn spec_fetch(c: ConstraintView, path: Seq<ValueView>) -> Result<ConstraintView, DefaultFetchErrView> {
    match c {
        ConstraintView::Str(_) => Err(DefaultFetchErrView::IncorrectType { residual_path: path, constr: c }),
        ConstraintView::Obj(o) => spec_obj_fetch(o, path),
    }
}

/// The constraint that the object `o` declares at `path`.
pub open spec fn spec_obj_fetch(o: ObjectConstraintView, path: Seq<ValueView>) -> Result<ConstraintView, DefaultFetchErrView>
    decreases path.len(),
{
    if path.len() == 0 {
        Err(DefaultFetchErrView::PathIsTooShort(path))
    } else {
        match o.constr {
            ObjConstrView::Any => Err(DefaultFetchErrView::ConstraintIsAny(path)),
            ObjConstrView::Fields(fields) => match field_from(fields, path[0], 0) {
                None => Err(DefaultFetchErrView::KeyNotFound(path)),
                Some(i) => if path.len() == 1 {
                    Ok(fields[i])
                } else {
                    match fields[i] {
                        ConstraintView::Obj(inner) => spec_obj_fetch(inner, path.subrange(1, path.len() as int)),
                        ConstraintView::Str(_) => Err(
                            DefaultFetchErrView::IncorrectType { residual_path: path, constr: fields[i] },
                        ),
                    }
                },
            },
        }
    }
}

/// The constraint that a bare type name stands for.
pub open spec fn spec_for_default(field_name: ValueView, kind: Seq<char>, path: Seq<ValueView>) -> Outcome<ConstraintView, ParseErrView> {
    if kind == "string"@ {
        Outcome::Done(
            ConstraintView::Str(StringConstraintView { field_name, constr: StrConstrView::Any, default: None }),
        )
    } else if kind == "object"@ {
        Outcome::Done(
            ConstraintView::Obj(ObjectConstraintView { field_name, constr: ObjConstrView::Any, default: None }),
        )
    } else {
        Outcome::Failed(seq![ParseErrView { path, err: PETypeView::UnknownType(kind) }])
    }
}

/// The outcomes of parsing the entries that `config` holds under `fields`,
/// each as a field below `path`.
pub open spec fn spec_children(config: Seq<(ValueView, ValueView)>, path: Seq<ValueView>) -> Seq<Outcome<ConstraintView, ParseErrView>>
    decreases config,
{
    match index_of(config, ValueView::String("fields"@)) {
        Some(i) => if 0 <= i < config.len() {
            match config[i].1 {
                ValueView::Mapping(f) => Seq::new(
                    f.len(),
                    |j: int| if 0 <= j < f.len() {
                        spec_parse(f[j].0, f[j].1, path)
                    } else {
                        arbitrary()
                    },
                ),
                _ => Seq::empty(),
            }
        } else {
            Seq::empty()
        },
        None => Seq::empty(),
    }
}

/// The outcome of parsing the grammar node `value` as the field `field_name`
/// below `parent_path`: a constraint tree, or every error of the subtree.
pub open spec fn spec_parse(field_name: ValueView, value: ValueView, parent_path: Seq<ValueView>) -> Outcome<ConstraintView, ParseErrView>
    decreases value,
{
    let path = parent_path.push(field_name);
    match value {
        ValueView::String(kind) => spec_for_default(field_name, kind, path),
        ValueView::Mapping(config) => match lookup(config, ValueView::String("type"@)) {
            Some(ValueView::String(kind)) => if kind == "string"@ {
                match spec_str_build(field_name, config, path) {
                    Ok(c) => Outcome::Done(ConstraintView::Str(c)),
                    Err(e) => Outcome::Failed(seq![e]),
                }
            } else if kind == "object"@ {
                spec_obj_build(field_name, config, path, spec_children(config, path))
            } else {
                Outcome::Failed(seq![ParseErrView { path, err: PETypeView::UnknownType(kind) }])
            },
            _ => Outcome::Failed(seq![ParseErrView { path, err: PETypeView::InvalidTypeInfo(field_name) }]),
        },
        _ => Outcome::Failed(seq![ParseErrView { path, err: PETypeView::Unsupported }]),
    }
}

/// The views of the constraints of `fields`, in order.
pub open spec fn constraints_view(fields: Seq<Constraint>) -> Seq<ConstraintView> {
    Seq::new(fields.len(), |i: int| constraint_view(&fields[i]))
}

/// The view of an object constraint, field by field.
pub proof fn lemma_object_view(o: &ObjectConstraint)
    ensures
        o@.field_name == o.field_name@,
        o@.default == opt_mapping_view(o.default),
        o.constr is Any ==> o@.constr is Any,
        o.constr matches ObjConstr::Fields(fields) ==> o@.constr == ObjConstrView::Fields(
            constraints_view(fields@),
        ),
        constraint_view(&Constraint::Obj(*o)) == ConstraintView::Obj(o@),
{
    match &o.constr {
        ObjConstr::Fields(fields) => {
            assert(o@.constr->Fields_0 =~= constraints_view(fields@));
        },
        ObjConstr::Any => {},
    }
}

impl<'a> Constraint<'a> {
    /// The name of the field that the constraint is about.
    pub fn field_name(&self) -> (r: &'a Value)
        ensures
            r@ == field_name_of(self@),
            r == match self {
                Constraint::Str(c) => c.field_name,
                Constraint::Obj(c) => c.field_name,
            },
    {
        match self {
            Constraint::Str(c) => c.field_name,
            Constraint::Obj(c) => c.field_name,
        }
    }

    /// The bubble that holds this constraint alone.
    pub fn into_result(self) -> (r: YamlParseResult<'a>)
        ensures
            r == Bubble::<Result<Constraint<'a>, ParseErr<'a>>>::Single(Ok(self)),
            parse_result_is(r, Outcome::Done(self@)),
            r.items().len() == 1,
    {
        Bubble::Single(Ok(self))
    }

    /// Parses one entry of a grammar as a field at the root.
    pub fn from_spec(kv: (&'a Value, &'a Value)) -> (r: YamlParseResult<'a>)
        ensures
            parse_result_is(r, spec_parse(kv.0@, kv.1@, Seq::empty())),
            r.items().len() > 0,
            r is Multi <==> (kv.1 is Mapping && spec_parse(kv.0@, kv.1@, Seq::empty()) is Failed),
            well_keyed(kv.1@) ==> (r matches Bubble::Single(Ok(c)) ==> well_formed(c@)),
    {
        let root: Vec<&'a Value> = Vec::new();
        assert(path_view(root@) =~= Seq::empty());
        Constraint::parse(kv.0, kv.1, root.as_slice())
    }

    /// Parses the grammar node `value` as the field `field_name` below
    /// `parent_path`. The result is one constraint, or else holds every error
    /// found in the subtree and nothing else: as a list where the node is a
    /// mapping, as a single error where it is not.
    pub fn parse(field_name: &'a Value, value: &'a Value, parent_path: &[&'a Value]) -> (r: YamlParseResult<'a>)
        ensures
            parse_result_is(r, spec_parse(field_name@, value@, path_view(parent_path@))),
            r.items().len() > 0,
            r is Multi <==> (value is Mapping && spec_parse(field_name@, value@, path_view(parent_path@)) is Failed),
            well_keyed(value@) ==> (r matches Bubble::Single(Ok(c)) ==> well_formed(c@)),
        decreases value, 0int,
    {
        proof {
            if well_keyed(value@) {
                crate::laws::law_parsed_fields_are_unique(field_name@, value@, path_view(parent_path@));
            }
        }
        let path = extend_path(parent_path, field_name);
        let r = match value {
            Value::String(field_type) => Constraint::for_default(field_name, field_type.as_str(), path.as_slice()),
            Value::Mapping(m) => Constraint::for_mapping(field_name, m, parent_path, path.as_slice()),
            _ => ParseErr::new(path.as_slice(), PEType::Unsupported).into_result(),
        };
        assert(r.items()[0] is Ok ==> spec_parse(field_name@, value@, path_view(parent_path@)) is Done);
        r
    }

    fn for_default(field_name: &'a Value, field_type: &'a str, path: &[&'a Value]) -> (r: YamlParseResult<'a>)
        ensures
            parse_result_is(r, spec_for_default(field_name@, field_type@, path_view(path@))),
            r.items().len() > 0,
            r is Single,
    {
        if str_eq(field_type, "string") {
            Constraint::Str(StringConstraint::default(field_name)).into_result()
        } else if str_eq(field_type, "object") {
            ObjectConstraint::default(field_name).into_result()
        } else {
            ParseErr::new(path, PEType::UnknownType(field_type)).into_result()
        }
    }

    fn for_mapping(field_name: &'a Value, config: &'a Mapping, parent_path: &[&'a Value], path: &[&'a Value]) -> (r: YamlParseResult<'a>)
        requires
            path_view(path@) == path_view(parent_path@).push(field_name@),
        ensures
            parse_result_is(r, spec_parse(field_name@, ValueView::Mapping(config@), path_view(parent_path@))),
            r.items().len() > 0,
            r is Multi <==> spec_parse(field_name@, ValueView::Mapping(config@), path_view(parent_path@)) is Failed,
        decreases config, 3int,
    {
        if let Some(Value::String(field_type)) = config.get_str("type") {
            if str_eq(field_type.as_str(), "string") {
                match crate::str::build(field_name, config, path) {
                    Ok(constr) => Constraint::Str(constr).into_result(),
                    Err(e) => e.into_multi(),
                }
            } else if str_eq(field_type.as_str(), "object") {
                crate::obj::build(field_name, config, parent_path)
            } else {
                ParseErr::new(path, PEType::UnknownType(field_type.as_str())).into_multi()
            }
        } else {
            ParseErr::new(path, PEType::InvalidTypeInfo(field_name)).into_multi()
        }
    }

    /// Looks up the constraint that this schema declares at `path`.
    pub fn fetch<'c>(&'c self, path: &[&'a Value]) -> (r: Result<&'c Constraint<'a>, DefaultFetchErr<'a>>)
        ensures
            match spec_fetch(self@, path_view(path@)) {
                Ok(c) => r matches Ok(x) && x@ == c,
                Err(e) => r matches Err(x) && x@ == e,
            },
    {
        match self {
            Constraint::Str(s) => {
                let copy = s.duplicate();
                Err(DefaultFetchErr::IncorrectType { residual_path: copy_path(path), constr: Constraint::Str(copy) })
            },
            Constraint::Obj(o) => {
                proof {
                    lemma_object_view(o);
                }
                o.constraint(path)
            },
        }
    }
}

impl<'a> View for Constraint<'a> {
    type V = ConstraintView;

    open spec fn view(&self) -> ConstraintView {
        constraint_view(self)
    }
}

impl<'a> View for ObjectConstraint<'a> {
    type V = ObjectConstraintView;

    open spec fn view(&self) -> ObjectConstraintView {
        constraint_view(&Constraint::Obj(*self))->Obj_0
    }
}

} // verus!
