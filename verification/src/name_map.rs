//! A map from names to values that is walked in the order of the names.

use vstd::prelude::*;

use crate::text::{texts, to_chars};

verus! {

/// `a` comes before `b`: character by character, a prefix before what it begins.
pub open spec fn text_before(a: Seq<char>, b: Seq<char>) -> bool
    decreases a.len(),
{
    if b.len() == 0 {
        false
    } else if a.len() == 0 {
        true
    } else if a[0] != b[0] {
        (a[0] as int) < (b[0] as int)
    } else {
        text_before(a.skip(1), b.skip(1))
    }
}

/// The order of names is total: of two different names one comes first, and
/// never both.
pub proof fn text_order_is_total(a: Seq<char>, b: Seq<char>)
    ensures
        a == b ==> !text_before(a, b),
        a != b ==> (text_before(a, b) <==> !text_before(b, a)),
    decreases a.len(),
{
    if a.len() > 0 && b.len() > 0 {
        if a[0] == b[0] {
            text_order_is_total(a.skip(1), b.skip(1));
            if a.skip(1) == b.skip(1) {
                assert(a =~= seq![a[0]] + a.skip(1));
                assert(b =~= seq![b[0]] + b.skip(1));
            }
        }
    } else if a.len() == 0 && b.len() == 0 {
        assert(a =~= b);
    }
}

/// The order of names is transitive.
pub proof fn text_order_is_transitive(a: Seq<char>, b: Seq<char>, c: Seq<char>)
    requires
        text_before(a, b),
        text_before(b, c),
    ensures
        text_before(a, c),
    decreases a.len(),
{
    if a.len() > 0 && b.len() > 0 && c.len() > 0 {
        if a[0] == b[0] && b[0] == c[0] {
            text_order_is_transitive(a.skip(1), b.skip(1), c.skip(1));
        }
    }
}

fn code_point(c: char) -> (r: u32)
    ensures
        r as int == c as int,
{
    proof {
        vstd::utf8::char_is_scalar(c);
    }
    c as u32
}

/// Whether `a` comes before `b`.
pub fn is_before(a: &str, b: &str) -> (r: bool)
    ensures
        r == text_before(a@, b@),
{
    let x: Vec<char> = to_chars(a);
    let y: Vec<char> = to_chars(b);
    let mut i: usize = 0;
    assert(a@.skip(0) =~= a@);
    assert(b@.skip(0) =~= b@);
    while i < x.len() && i < y.len()
        invariant
            i <= x@.len(),
            i <= y@.len(),
            x@ == a@,
            y@ == b@,
            text_before(a@, b@) == text_before(a@.skip(i as int), b@.skip(i as int)),
        decreases x@.len() - i,
    {
        proof {
            assert(a@.skip(i as int)[0] == x@[i as int]);
            assert(b@.skip(i as int)[0] == y@[i as int]);
            assert(a@.skip(i as int).skip(1) =~= a@.skip(i + 1));
            assert(b@.skip(i as int).skip(1) =~= b@.skip(i + 1));
        }
        if x[i] != y[i] {
            return code_point(x[i]) < code_point(y[i]);
        }
        i = i + 1;
    }
    i < y.len()
}

/// The names ascend.
pub open spec fn ascending(names: Seq<Seq<char>>) -> bool {
    forall|i: int, j: int|
        0 <= i < j < names.len() ==> text_before(#[trigger] names[i], #[trigger] names[j])
}

/// A map from names to values.
pub struct NameMap<V> {
    pub names: Vec<String>,
    pub values: Vec<V>,
}

impl<V> View for NameMap<V> {
    type V = Map<Seq<char>, V>;

    open spec fn view(&self) -> Map<Seq<char>, V> {
        Map::new(
            |name: Seq<char>| self.keys().contains(name),
            |name: Seq<char>| self.values@[self.keys().index_of(name)],
        )
    }
}

impl<V> NameMap<V> {
    /// The names in their order.
    pub open spec fn keys(self) -> Seq<Seq<char>> {
        texts(self.names@)
    }

    /// Each name has a value, and the names ascend.
    pub open spec fn wf(self) -> bool {
        &&& self.names@.len() == self.values@.len()
        &&& ascending(self.keys())
    }

    /// A name at an index is a name of the map, with the value at that index.
    pub proof fn at(self, i: int)
        requires
            self.wf(),
            0 <= i < self.names@.len(),
        ensures
            self@.dom().contains(self.names@[i]@),
            self@[self.names@[i]@] == self.values@[i],
            self.keys().index_of(self.names@[i]@) == i,
    {
        let name = self.names@[i]@;
        assert(self.keys()[i] == name);
        let j = self.keys().index_of(name);
        assert(self.keys()[j] == name);
        text_order_is_total(name, name);
        assert(i == j);
    }

    /// No name occurs twice.
    pub proof fn lemma_distinct(self)
        requires
            self.wf(),
        ensures
            self.keys().no_duplicates(),
    {
        let keys = self.keys();
        assert forall|i: int, j: int| 0 <= i < j < keys.len() implies keys[i] != keys[j] by {
            text_order_is_total(keys[i], keys[j]);
            assert(text_before(keys[i], keys[j]));
        }
    }

    /// The empty map
    pub fn new() -> (r: Self)
        ensures
            r.wf(),
            r.names@.len() == 0,
            r.values@.len() == 0,
            r@ == Map::<Seq<char>, V>::empty(),
    {
        let r = NameMap { names: Vec::new(), values: Vec::new() };
        assert(r@ =~= Map::<Seq<char>, V>::empty());
        r
    }

    /// The index of the name
    pub fn find(&self, name: &str) -> (r: Option<usize>)
        requires
            self.wf(),
        ensures
            match r {
                Some(i) => {
                    &&& i < self.names@.len()
                    &&& self.names@[i as int]@ == name@
                    &&& self@.dom().contains(name@)
                    &&& self@[name@] == self.values@[i as int]
                    &&& self.keys().index_of(name@) == i
                },
                None => !self@.dom().contains(name@) && !self.keys().contains(name@),
            },
    {
        let mut i: usize = 0;
        while i < self.names.len()
            invariant
                self.wf(),
                i <= self.names@.len(),
                forall|k: int| 0 <= k < i ==> #[trigger] self.keys()[k] != name@,
            decreases self.names@.len() - i,
        {
            if crate::text::same(self.names[i].as_str(), name) {
                proof {
                    self.at(i as int);
                }
                return Some(i);
            }
            i = i + 1;
        }
        None
    }

    /// Adds a name that the map does not have
    pub fn insert_new(&mut self, name: String, value: V) -> (at: usize)
        requires
            old(self).wf(),
            !old(self)@.dom().contains(name@),
        ensures
            final(self).wf(),
            at <= old(self).names@.len(),
            final(self).names@ == old(self).names@.insert(at as int, name),
            final(self).values@ == old(self).values@.insert(at as int, value),
            final(self)@ == old(self)@.insert(name@, value),
    {
        let ghost keys = self.keys();
        let mut i: usize = 0;
        while i < self.names.len() && is_before(self.names[i].as_str(), name.as_str())
            invariant
                self.wf(),
                *self == *old(self),
                keys == self.keys(),
                i <= self.names@.len(),
                forall|k: int| 0 <= k < i ==> text_before(#[trigger] keys[k], name@),
            decreases self.names@.len() - i,
        {
            assert(keys[i as int] == self.names@[i as int]@);
            i = i + 1;
        }
        proof {
            if i < self.names@.len() {
                assert(keys[i as int] == self.names@[i as int]@);
                assert(keys.contains(keys[i as int]));
                assert(keys[i as int] != name@);
                text_order_is_total(keys[i as int], name@);
                assert(text_before(name@, keys[i as int]));
            }
        }
        self.names.insert(i, name);
        self.values.insert(i, value);
        proof {
            let after = self.keys();
            assert(after =~= keys.insert(i as int, name@));
            assert forall|a: int, b: int| 0 <= a < b < after.len() implies text_before(
                #[trigger] after[a],
                #[trigger] after[b],
            ) by {
                if b == i {
                    assert(text_before(keys[a], name@));
                } else if a == i {
                    if b > i + 1 {
                        text_order_is_transitive(name@, keys[i as int], keys[b - 1]);
                    }
                } else {
                    let x = if a < i {
                        a
                    } else {
                        a - 1
                    };
                    let y = if b < i {
                        b
                    } else {
                        b - 1
                    };
                    assert(text_before(keys[x], keys[y]));
                }
            }
            assert(self.wf());
            let m = old(self)@.insert(name@, value);
            assert forall|k: Seq<char>| self@.dom().contains(k) == m.dom().contains(k) by {
                if keys.contains(k) {
                    let j = keys.index_of(k);
                    assert(after[if j < i {
                        j
                    } else {
                        j + 1
                    }] == k);
                }
                if after.contains(k) && k != name@ {
                    let j = after.index_of(k);
                    assert(keys[if j < i {
                        j
                    } else {
                        j - 1
                    }] == k);
                }
                assert(after[i as int] == name@);
            }
            assert forall|k: Seq<char>| self@.dom().contains(k) implies self@[k] == m[k] by {
                let j = after.index_of(k);
                assert(after[j] == k);
                assert(self.names@[j]@ == k);
                self.at(j);
                if k == name@ {
                    self.at(i as int);
                    assert(j == i);
                } else {
                    let o = if j < i {
                        j
                    } else {
                        j - 1
                    };
                    assert(keys[o] == k);
                    assert(old(self).names@[o]@ == k);
                    old(self).at(o);
                }
            }
            assert(self@ =~= m);
        }
        i
    }

    /// Takes out the name at an index
    pub fn remove_at(&mut self, i: usize) -> (r: V)
        requires
            old(self).wf(),
            i < old(self).names@.len(),
        ensures
            final(self).wf(),
            r == old(self).values@[i as int],
            final(self).names@ == old(self).names@.remove(i as int),
            final(self).values@ == old(self).values@.remove(i as int),
            final(self)@ == old(self)@.remove(old(self).names@[i as int]@),
    {
        let ghost keys = self.keys();
        let _ = self.names.remove(i);
        let r: V = self.values.remove(i);
        proof {
            let after = self.keys();
            assert(after =~= keys.remove(i as int));
            assert forall|a: int, b: int| 0 <= a < b < after.len() implies text_before(
                #[trigger] after[a],
                #[trigger] after[b],
            ) by {
                let x = if a < i {
                    a
                } else {
                    a + 1
                };
                let y = if b < i {
                    b
                } else {
                    b + 1
                };
                assert(text_before(keys[x], keys[y]));
            }
            assert(self.wf());
            let name = keys[i as int];
            assert(name == old(self).names@[i as int]@);
            old(self).at(i as int);
            let m = old(self)@.remove(name);
            assert forall|k: Seq<char>| self@.dom().contains(k) == m.dom().contains(k) by {
                if keys.contains(k) && k != name {
                    let j = keys.index_of(k);
                    assert(after[if j < i {
                        j
                    } else {
                        j - 1
                    }] == k);
                }
                if after.contains(k) {
                    let j = after.index_of(k);
                    let o = if j < i {
                        j
                    } else {
                        j + 1
                    };
                    assert(keys[o] == k);
                    assert(old(self).names@[o]@ == k);
                    old(self).at(o);
                }
            }
            assert forall|k: Seq<char>| self@.dom().contains(k) implies self@[k] == m[k] by {
                let j = after.index_of(k);
                assert(after[j] == k);
                assert(self.names@[j]@ == k);
                self.at(j);
                let o = if j < i {
                    j
                } else {
                    j + 1
                };
                assert(keys[o] == k);
                assert(old(self).names@[o]@ == k);
                old(self).at(o);
            }
            assert(self@ =~= m);
        }
        r
    }

    /// A map in which only the value at an index was exchanged.
    pub proof fn updated(before: Self, after: Self, i: int, value: V)
        requires
            before.wf(),
            0 <= i < before.names@.len(),
            after.names@ == before.names@,
            after.values@ == before.values@.update(i, value),
        ensures
            after.wf(),
            after.keys() == before.keys(),
            after@ == before@.insert(before.names@[i]@, value),
    {
        assert(after.keys() == before.keys());
        let name = before.names@[i]@;
        before.at(i);
        let m = before@.insert(name, value);
        assert forall|k: Seq<char>| after@.dom().contains(k) implies after@[k] == m[k] by {
            let j = after.keys().index_of(k);
            assert(after.keys()[j] == k);
            assert(after.names@[j]@ == k);
            before.at(j);
            after.at(j);
            if k == name {
                assert(j == i);
            }
        }
        assert(after@ =~= m);
    }

    /// Exchanges the value at an index
    pub fn replace_at(&mut self, i: usize, value: V) -> (r: V)
        requires
            old(self).wf(),
            i < old(self).names@.len(),
        ensures
            final(self).wf(),
            r == old(self).values@[i as int],
            final(self).names@ == old(self).names@,
            final(self).values@ == old(self).values@.update(i as int, value),
            final(self)@ == old(self)@.insert(old(self).names@[i as int]@, value),
    {
        self.values.push(value);
        let r: V = self.values.swap_remove(i);
        proof {
            assert(self.values@ =~= old(self).values@.update(i as int, value));
            Self::updated(*old(self), *self, i as int, value);
        }
        r
    }

    /// Sets the value of a name, whether the map has it or not
    pub fn put(&mut self, name: String, value: V)
        requires
            old(self).wf(),
        ensures
            final(self).wf(),
            final(self)@ == old(self)@.insert(name@, value),
    {
        match self.find(name.as_str()) {
            Some(i) => {
                let _ = self.replace_at(i, value);
            },
            None => {
                let _ = self.insert_new(name, value);
            },
        }
    }

    /// Takes out a name, if the map has it
    pub fn take(&mut self, name: &str) -> (r: Option<V>)
        requires
            old(self).wf(),
        ensures
            final(self).wf(),
            final(self)@ == old(self)@.remove(name@),
            match r {
                Some(v) => old(self)@.dom().contains(name@) && v == old(self)@[name@],
                None => !old(self)@.dom().contains(name@),
            },
    {
        match self.find(name) {
            Some(i) => Some(self.remove_at(i)),
            None => {
                assert(self@ =~= self@.remove(name@));
                None
            },
        }
    }
}

/// Names are ordered by the first character in which they differ, and a name comes
/// before those that it begins.
pub proof fn first_difference_orders_names(
    p: Seq<char>,
    c: char,
    x: Seq<char>,
    d: char,
    y: Seq<char>,
)
    ensures
        (c as u32) < (d as u32) ==> text_before(p + seq![c] + x, p + seq![d] + y),
        (c as u32) > (d as u32) ==> !text_before(p + seq![c] + x, p + seq![d] + y),
        text_before(p, p + seq![c] + x),
        !text_before(p + seq![c] + x, p),
    decreases p.len(),
{
    let a = p + seq![c] + x;
    let b = p + seq![d] + y;
    if p.len() == 0 {
        assert(a[0] == c && b[0] == d);
    } else {
        let q = p.skip(1);
        first_difference_orders_names(q, c, x, d, y);
        assert(a[0] == p[0] && b[0] == p[0]);
        assert(a.skip(1) =~= q + seq![c] + x);
        assert(b.skip(1) =~= q + seq![d] + y);
    }
}

} // verus!
