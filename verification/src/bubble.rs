//! A one-or-many container that lets sibling results be collected together.

use vstd::prelude::*;

verus! {

/// Either a single item or an ordered sequence of items.
#[derive(Debug)]
pub enum Bubble<T> {
    Single(T),
    Multi(Vec<T>),
}

/// The items of every bubble of `bs`, in order.
pub open spec fn flat_items<T>(bs: Seq<Bubble<T>>) -> Seq<T>
    decreases bs.len(),
{
    if bs.len() == 0 {
        Seq::empty()
    } else {
        flat_items(bs.drop_last()) + bs.last().items()
    }
}

impl<T> Bubble<T> {
    /// The contained items, in order.
    pub open spec fn items(&self) -> Seq<T> {
        match self {
            Bubble::Single(t) => seq![*t],
            Bubble::Multi(v) => v@,
        }
    }

    /// Unwraps the bubble into the vector of its items.
    pub fn get(self) -> (r: Vec<T>)
        ensures
            r@ == self.items(),
    {
        match self {
            Bubble::Single(t) => {
                let mut v: Vec<T> = Vec::new();
                v.push(t);
                assert(v@ =~= seq![t]);
                v
            },
            Bubble::Multi(v) => v,
        }
    }

    /// Number of contained items.
    pub fn len(&self) -> (r: usize)
        ensures
            r == self.items().len(),
    {
        match self {
            Bubble::Single(_) => 1,
            Bubble::Multi(v) => v.len(),
        }
    }

    /// Tests whether `test` accepts every contained item, stopping at the first
    /// item that it rejects.
    pub fn all<F: Fn(&T) -> bool>(&self, test: F) -> (r: bool)
        requires
            forall|i: int| 0 <= i < self.items().len() ==> call_requires(test, (&#[trigger] self.items()[i],)),
        ensures
            r ==> forall|i: int| 0 <= i < self.items().len() ==> call_ensures(test, (&#[trigger] self.items()[i],), true),
            !r ==> exists|i: int| 0 <= i < self.items().len() && call_ensures(test, (&#[trigger] self.items()[i],), false),
    {
        match self {
            Bubble::Single(t) => {
                assert(self.items()[0] == *t);
                let b = test(t);
                b
            },
            Bubble::Multi(v) => {
                let mut i: usize = 0;
                while i < v.len()
                    invariant
                        i <= v.len(),
                        self.items() == v@,
                        forall|j: int| 0 <= j < self.items().len() ==> call_requires(test, (&#[trigger] self.items()[j],)),
                        forall|j: int| 0 <= j < i ==> call_ensures(test, (&#[trigger] self.items()[j],), true),
                    decreases v.len() - i,
                {
                    assert(self.items()[i as int] == v@[i as int]);
                    if !test(&v[i]) {
                        return false;
                    }
                    i += 1;
                }
                true
            },
        }
    }

    /// Wraps a vector of items.
    pub fn from_vec(v: Vec<T>) -> (r: Bubble<T>)
        ensures
            r == Bubble::Multi(v),
    {
        Bubble::Multi(v)
    }

    /// Flattens a vector of bubbles, keeping the order in which they stand.
    pub fn flatten(bs: Vec<Bubble<T>>) -> (r: Bubble<T>)
        ensures
            r is Multi,
            r.items() == flat_items(bs@),
    {
        let ghost all = bs@;
        let mut out: Vec<T> = Vec::new();
        let mut taken = reverse_vec(bs);
        assert(all.subrange(0, all.len() as int) =~= all);
        assert(all.subrange(0, 0) =~= Seq::empty());
        let ghost n = all.len() as int;
        while taken.len() > 0
            invariant
                taken.len() <= n,
                n == all.len(),
                taken@ =~= all.subrange(n - taken.len(), n).reverse(),
                out@ == flat_items(all.subrange(0, n - taken.len())),
            decreases taken.len(),
        {
            let ghost k = n - taken.len();
            let b = taken.pop().unwrap();
            assert(b == all[k]);
            let mut items = b.get();
            out.append(&mut items);
            proof {
                let pre = all.subrange(0, k + 1);
                assert(pre.drop_last() =~= all.subrange(0, k));
                assert(pre.last() == all[k]);
            }
        }
        assert(all.subrange(0, n) =~= all);
        Bubble::Multi(out)
    }
}

/// The successes among `items`, in order.
pub open spec fn oks_of<S, E>(items: Seq<Result<S, E>>) -> Seq<S>
    decreases items.len(),
{
    if items.len() == 0 {
        Seq::empty()
    } else {
        oks_of(items.drop_last()) + match items.last() {
            Ok(x) => seq![x],
            Err(_) => Seq::empty(),
        }
    }
}

/// The errors among `items`, in order.
pub open spec fn errs_of<S, E>(items: Seq<Result<S, E>>) -> Seq<E>
    decreases items.len(),
{
    if items.len() == 0 {
        Seq::empty()
    } else {
        errs_of(items.drop_last()) + match items.last() {
            Ok(_) => Seq::empty(),
            Err(e) => seq![e],
        }
    }
}

/// What one more item adds to the successes and errors of a prefix.
pub proof fn lemma_partition_step<S, E>(items: Seq<Result<S, E>>, i: int)
    requires
        0 <= i < items.len(),
    ensures
        oks_of(items.subrange(0, i + 1)) == oks_of(items.subrange(0, i)) + match items[i] {
            Ok(x) => seq![x],
            Err(_) => Seq::empty(),
        },
        errs_of(items.subrange(0, i + 1)) == errs_of(items.subrange(0, i)) + match items[i] {
            Ok(_) => Seq::empty(),
            Err(e) => seq![e],
        },
{
    assert(items.subrange(0, i + 1).drop_last() =~= items.subrange(0, i));
}

/// Of items that are all errors, the errors are the items themselves.
pub proof fn lemma_all_errs<S, E>(items: Seq<Result<S, E>>)
    requires
        forall|i: int| 0 <= i < items.len() ==> (#[trigger] items[i]) is Err,
    ensures
        oks_of(items).len() == 0,
        errs_of(items).len() == items.len(),
        forall|i: int| 0 <= i < items.len() ==> (#[trigger] errs_of(items)[i]) == items[i]->Err_0,
    decreases items.len(),
{
    if items.len() > 0 {
        let front = items.drop_last();
        assert forall|i: int| 0 <= i < front.len() implies (#[trigger] front[i]) is Err by {
            assert(items[i] is Err);
        }
        lemma_all_errs(front);
        assert(items.last() is Err);
        assert forall|i: int| 0 <= i < items.len() implies (#[trigger] errs_of(items)[i]) == items[i]->Err_0 by {
            if i < front.len() {
                assert(errs_of(front)[i] == front[i]->Err_0);
            }
        }
    }
}

/// Turns a vector around.
pub fn reverse_vec<T>(v: Vec<T>) -> (r: Vec<T>)
    ensures
        r@ == v@.reverse(),
{
    let ghost all = v@;
    let mut rest = v;
    let mut out: Vec<T> = Vec::new();
    while rest.len() > 0
        invariant
            all =~= rest@ + out@.reverse(),
        decreases rest.len(),
    {
        let x = rest.pop().unwrap();
        out.push(x);
    }
    assert(out@.reverse() =~= all);
    assert(out@ =~= all.reverse());
    out
}

/// Separates the successes from the errors, keeping the order of each.
pub fn partition_results<S, E>(items: Vec<Result<S, E>>) -> (r: (Vec<S>, Vec<E>))
    ensures
        r.0@ == oks_of(items@),
        r.1@ == errs_of(items@),
{
    let ghost all = items@;
    let ghost n = all.len() as int;
    let mut rest = reverse_vec(items);
    let mut ok: Vec<S> = Vec::new();
    let mut err: Vec<E> = Vec::new();
    assert(all.subrange(0, 0) =~= Seq::empty());
    while rest.len() > 0
        invariant
            n == all.len(),
            rest.len() <= n,
            rest@ =~= all.subrange(n - rest.len(), n).reverse(),
            ok@ == oks_of(all.subrange(0, n - rest.len())),
            err@ == errs_of(all.subrange(0, n - rest.len())),
        decreases rest.len(),
    {
        let ghost k = n - rest.len();
        proof {
            lemma_partition_step(all, k);
        }
        let x = rest.pop().unwrap();
        assert(x == all[k]);
        match x {
            Ok(s) => {
                ok.push(s);
            },
            Err(e) => {
                err.push(e);
            },
        }
    }
    assert(all.subrange(0, n) =~= all);
    (ok, err)
}

impl<T, E> Bubble<Result<T, E>> {
    /// Whether every contained result is a success.
    pub fn all_ok(&self) -> (r: bool)
        ensures
            r == forall|i: int| 0 <= i < self.items().len() ==> (#[trigger] self.items()[i]) is Ok,
    {
        let r = self.all(is_success::<T, E>);
        proof {
            if !r {
                let at = choose|i: int|
                    0 <= i < self.items().len() && call_ensures(is_success::<T, E>, (&#[trigger] self.items()[i],), false);
                assert(!(self.items()[at] is Ok));
            }
        }
        r
    }
}

/// Whether `item` is a success.
pub fn is_success<T, E>(item: &Result<T, E>) -> (b: bool)
    ensures
        b == (item is Ok),
{
    item.is_ok()
}

} // verus!
