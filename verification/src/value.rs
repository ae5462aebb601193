//! The document model: a tagged tree of null, boolean, number, string,
//! sequence and mapping values.

use vstd::prelude::*;

verus! {

/// A number, held by its integer value or by the bit pattern of its
/// floating-point value.
#[derive(Debug, Clone, Copy, PartialEq, Eq, Structural)]
pub enum Number {
    PosInt(u64),
    NegInt(i64),
    Float(u64),
}

/// A node of a document or of a grammar.
#[derive(Debug, PartialEq, Eq)]
pub enum Value {
    Null,
    Bool(bool),
    Number(Number),
    String(String),
    Sequence(Vec<Value>),
    Mapping(Mapping),
}

/// An ordered list of key and value pairs.
#[derive(Debug, PartialEq, Eq)]
pub struct Mapping {
    pub entries: Vec<(Value, Value)>,
}

/// The mathematical content of a `Value`.
pub enum ValueView {
    Null,
    Bool(bool),
    Number(Number),
    String(Seq<char>),
    Sequence(Seq<ValueView>),
    Mapping(Seq<(ValueView, ValueView)>),
}

/// The mathematical content of `v`.
pub open spec fn value_view(v: &Value) -> ValueView
    decreases v,
{
    match v {
        Value::Null => ValueView::Null,
        Value::Bool(b) => ValueView::Bool(*b),
        Value::Number(n) => ValueView::Number(*n),
        Value::String(s) => ValueView::String(s@),
        Value::Sequence(items) => ValueView::Sequence(
            Seq::new(
                items@.len(),
                |i: int| if 0 <= i < items@.len() {
                    value_view(&items@[i])
                } else {
                    ValueView::Null
                },
            ),
        ),
        Value::Mapping(m) => ValueView::Mapping(mapping_view(m)),
    }
}

/// The mathematical content of `m`: its entries, in order.
pub open spec fn mapping_view(m: &Mapping) -> Seq<(ValueView, ValueView)>
    decreases m,
{
    Seq::new(
        m.entries@.len(),
        |i: int| if 0 <= i < m.entries@.len() {
            (value_view(&m.entries@[i].0), value_view(&m.entries@[i].1))
        } else {
            (ValueView::Null, ValueView::Null)
        },
    )
}

impl View for Value {
    type V = ValueView;

    open spec fn view(&self) -> ValueView {
        value_view(self)
    }
}

impl View for Mapping {
    type V = Seq<(ValueView, ValueView)>;

    open spec fn view(&self) -> Seq<(ValueView, ValueView)> {
        mapping_view(self)
    }
}

/// The views of the values that a path refers to, in order.
pub open spec fn path_view(path: Seq<&Value>) -> Seq<ValueView> {
    Seq::new(path.len(), |i: int| path[i]@)
}

/// Position of the first entry of `m` at or after `start` whose key is `key`.
pub open spec fn index_from(m: Seq<(ValueView, ValueView)>, key: ValueView, start: int) -> Option<int>
    decreases m.len() - start,
{
    if start < 0 || start >= m.len() {
        None
    } else if m[start].0 == key {
        Some(start)
    } else {
        index_from(m, key, start + 1)
    }
}

/// Position of the first entry of `m` whose key is `key`.
pub open spec fn index_of(m: Seq<(ValueView, ValueView)>, key: ValueView) -> Option<int> {
    index_from(m, key, 0)
}

/// The value that `m` holds under `key`, if any.
pub open spec fn lookup(m: Seq<(ValueView, ValueView)>, key: ValueView) -> Option<ValueView> {
    match index_of(m, key) {
        Some(i) => Some(m[i].1),
        None => None,
    }
}

/// No two entries of `m` have the same key.
pub open spec fn unique_keys(m: Seq<(ValueView, ValueView)>) -> bool {
    forall|i: int, j: int| 0 <= i < j < m.len() ==> m[i].0 != m[j].0
}

/// Every mapping in `v`, at any depth, has unique keys.
pub open spec fn well_keyed(v: ValueView) -> bool
    decreases v,
{
    match v {
        ValueView::Sequence(items) => forall|i: int| 0 <= i < items.len() ==> well_keyed(#[trigger] items[i]),
        ValueView::Mapping(m) => unique_keys(m) && forall|i: int|
            0 <= i < m.len() ==> well_keyed((#[trigger] m[i]).0) && well_keyed(m[i].1),
        _ => true,
    }
}

/// What `index_from` finds is in range, holds the key, and is the first such entry.
pub proof fn lemma_index_from(m: Seq<(ValueView, ValueView)>, key: ValueView, start: int)
    requires
        0 <= start,
    ensures
        match index_from(m, key, start) {
            Some(i) => start <= i < m.len() && m[i].0 == key && forall|j: int|
                start <= j < i ==> m[j].0 != key,
            None => forall|j: int| start <= j < m.len() ==> m[j].0 != key,
        },
    decreases m.len() - start,
{
    if start < m.len() && m[start].0 != key {
        lemma_index_from(m, key, start + 1);
    }
}

impl Value {
    /// Structural equality of two values.
    pub fn same(&self, other: &Value) -> (r: bool)
        ensures
            r == (self@ == other@),
        decreases self,
    {
        match self {
            Value::Null => match other {
                Value::Null => true,
                _ => false,
            },
            Value::Bool(a) => match other {
                Value::Bool(b) => *a == *b,
                _ => false,
            },
            Value::Number(a) => match other {
                Value::Number(b) => *a == *b,
                _ => false,
            },
            Value::String(a) => match other {
                Value::String(b) => *a == *b,
                _ => false,
            },
            Value::Sequence(a) => match other {
                Value::Sequence(b) => {
                    let ghost sa = self@->Sequence_0;
                    let ghost sb = other@->Sequence_0;
                    if a.len() != b.len() {
                        assert(sa.len() != sb.len());
                        return false;
                    }
                    let mut i: usize = 0;
                    while i < a.len()
                        invariant
                            i <= a.len(),
                            a.len() == b.len(),
                            *self == Value::Sequence(*a),
                            sa == self@->Sequence_0,
                            sb == other@->Sequence_0,
                            sa.len() == a.len(),
                            sb.len() == b.len(),
                            forall|j: int| 0 <= j < a.len() ==> sa[j] == (#[trigger] a@[j])@,
                            forall|j: int| 0 <= j < b.len() ==> sb[j] == (#[trigger] b@[j])@,
                            forall|j: int| 0 <= j < i ==> #[trigger] sa[j] == sb[j],
                        decreases a.len() - i,
                    {
                        if !a[i].same(&b[i]) {
                            assert(sa[i as int] != sb[i as int]);
                            return false;
                        }
                        i += 1;
                    }
                    assert(sa =~= sb);
                    true
                },
                _ => false,
            },
            Value::Mapping(a) => match other {
                Value::Mapping(b) => {
                    let ghost sa = a@;
                    let ghost sb = b@;
                    assert(self@ == ValueView::Mapping(sa));
                    assert(other@ == ValueView::Mapping(sb));
                    if a.entries.len() != b.entries.len() {
                        assert(sa.len() != sb.len());
                        return false;
                    }
                    let mut i: usize = 0;
                    while i < a.entries.len()
                        invariant
                            i <= a.entries.len(),
                            a.entries.len() == b.entries.len(),
                            *self == Value::Mapping(*a),
                            sa == a@,
                            sb == b@,
                            self@ == ValueView::Mapping(sa),
                            other@ == ValueView::Mapping(sb),
                            forall|j: int| 0 <= j < i ==> #[trigger] sa[j] == sb[j],
                        decreases a.entries.len() - i,
                    {
                        let same_key = a.entries[i].0.same(&b.entries[i].0);
                        if !same_key {
                            assert(sa[i as int].0 != sb[i as int].0);
                            return false;
                        }
                        let same_value = a.entries[i].1.same(&b.entries[i].1);
                        if !same_value {
                            assert(sa[i as int].1 != sb[i as int].1);
                            return false;
                        }
                        assert(sa[i as int] == sb[i as int]);
                        i += 1;
                    }
                    assert(sa =~= sb);
                    true
                },
                _ => false,
            },
        }
    }

    /// Builds a string value from a string slice.
    pub fn string(s: &str) -> (r: Value)
        ensures
            r@ == ValueView::String(s@),
    {
        Value::String(String::from_str(s))
    }
}

impl Mapping {
    /// A mapping without entries.
    pub fn new() -> (r: Mapping)
        ensures
            r@ == Seq::<(ValueView, ValueView)>::empty(),
    {
        let r = Mapping { entries: Vec::new() };
        assert(r@ =~= Seq::<(ValueView, ValueView)>::empty());
        r
    }

    /// Number of entries.
    pub fn len(&self) -> (r: usize)
        ensures
            r == self@.len(),
    {
        self.entries.len()
    }

    /// Position of the first entry whose key equals `key`.
    pub fn position(&self, key: &Value) -> (r: Option<usize>)
        ensures
            match r {
                Some(i) => i < self.entries@.len() && index_of(self@, key@) == Some(i as int),
                None => index_of(self@, key@) is None,
            },
    {
        let mut i: usize = 0;
        while i < self.entries.len()
            invariant
                i <= self.entries.len(),
                index_of(self@, key@) == index_from(self@, key@, i as int),
            decreases self.entries.len() - i,
        {
            if self.entries[i].0.same(key) {
                return Some(i);
            }
            i += 1;
        }
        None
    }

    /// The value stored under the first entry whose key equals `key`.
    pub fn get<'a>(&'a self, key: &Value) -> (r: Option<&'a Value>)
        ensures
            match index_of(self@, key@) {
                Some(i) => 0 <= i < self.entries@.len() && r == Some(&self.entries@[i].1),
                None => r is None,
            },
            match r {
                Some(v) => lookup(self@, key@) == Some(v@),
                None => lookup(self@, key@) is None,
            },
    {
        proof {
            lemma_index_from(self@, key@, 0);
        }
        let found = self.position(key);
        match found {
            Some(i) => {
                let r = Some(&self.entries[i].1);
                assert(index_of(self@, key@) == Some(i as int));
                assert(self@[i as int].1 == self.entries@[i as int].1@);
                r
            },
            None => {
                assert(index_of(self@, key@) is None);
                None
            },
        }
    }

    /// The value stored under the string key `name`.
    pub fn get_str<'a>(&'a self, name: &str) -> (r: Option<&'a Value>)
        ensures
            match index_of(self@, ValueView::String(name@)) {
                Some(i) => 0 <= i < self.entries@.len() && r == Some(&self.entries@[i].1),
                None => r is None,
            },
            match r {
                Some(v) => lookup(self@, ValueView::String(name@)) == Some(v@),
                None => lookup(self@, ValueView::String(name@)) is None,
            },
    {
        let key = Value::string(name);
        self.get(&key)
    }

    /// Stores `value` under `key`: in place of the value of the first entry with
    /// that key, or else as a new last entry.
    pub fn insert(&mut self, key: Value, value: Value)
        ensures
            match index_of(old(self)@, key@) {
                Some(i) => final(self)@ == old(self)@.update(i, (key@, value@)),
                None => final(self)@ == old(self)@.push((key@, value@)),
            },
            unique_keys(old(self)@) ==> unique_keys(final(self)@),
            lookup(final(self)@, key@) == Some(value@),
    {
        let ghost before = self@;
        proof {
            lemma_index_from(before, key@, 0);
        }
        match self.position(&key) {
            Some(i) => {
                let ghost k = key@;
                let ghost v = value@;
                self.entries[i] = (key, value);
                assert(self@ =~= before.update(i as int, (k, v)));
                proof {
                    lemma_index_from(self@, k, 0);
                    let found = index_of(self@, k);
                    assert(self@[i as int].0 == k);
                    assert(found is Some);
                    let at = found->Some_0;
                    if at < i {
                        assert(before[at].0 == self@[at].0);
                    }
                    assert(at == i);
                }
            },
            None => {
                let ghost k = key@;
                let ghost v = value@;
                self.entries.push((key, value));
                assert(self@ =~= before.push((k, v)));
                proof {
                    lemma_index_from(self@, k, 0);
                    let found = index_of(self@, k);
                    let n = before.len() as int;
                    assert(self@[n].0 == k);
                    assert(found is Some);
                    let at = found->Some_0;
                    if at < n {
                        assert(before[at].0 == self@[at].0);
                    }
                    assert(at == n);
                }
            },
        }
    }
}

} // verus!
