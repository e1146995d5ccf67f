//! A table of named items with distinct names, in the order they came.
use vstd::prelude::*;
use crate::text::{text_eq, texts_of};

verus! {

/// Named items with distinct names: the names and the items side by side.
pub struct NameTable<C> {
    names: Vec<String>,
    items: Vec<C>,
}

impl<C> NameTable<C> {
    #[verifier::type_invariant]
    spec fn distinct(self) -> bool {
        &&& self.names@.len() == self.items@.len()
        &&& texts_of(self.names@).no_duplicates()
    }

    /// The names, in the order the items came.
    pub closed spec fn names(&self) -> Seq<Seq<char>> {
        texts_of(self.names@)
    }

    /// The items, in the same order.
    pub closed spec fn items(&self) -> Seq<C> {
        self.items@
    }

    /// An empty table.
    pub fn new() -> (t: Self)
        ensures
            t.names() == Seq::<Seq<char>>::empty(),
            t.items() == Seq::<C>::empty(),
    {
        let t = NameTable { names: Vec::new(), items: Vec::new() };
        proof {
            assert(t.names() =~= Seq::<Seq<char>>::empty());
        }
        t
    }

    /// Every table has distinct names.
    pub fn check_distinct(&self)
        ensures
            self.names().no_duplicates(),
            self.names().len() == self.items().len(),
    {
        proof {
            use_type_invariant(self);
        }
    }

    /// The position of `name`.
    pub fn position(&self, name: &str) -> (r: Option<usize>)
        ensures
            r matches Some(i) ==> i < self.names().len() && self.names()[i as int] == name@,
            r is None <==> !self.names().contains(name@),
    {
        let mut i: usize = 0;
        while i < self.names.len()
            invariant
                0 <= i <= self.names@.len(),
                forall|j: int| 0 <= j < i ==> #[trigger] self.names@[j]@ != name@,
            decreases self.names@.len() - i,
        {
            if text_eq(self.names[i].as_str(), name) {
                proof {
                    assert(self.names()[i as int] == name@);
                }
                return Some(i);
            }
            i = i + 1;
        }
        proof {
            if self.names().contains(name@) {
                let j = choose|j: int| 0 <= j < self.names().len() && self.names()[j] == name@;
                assert(self.names@[j]@ == name@);
            }
        }
        None
    }

    /// Whether `name` is in the table.
    pub fn contains(&self, name: &str) -> (b: bool)
        ensures
            b == self.names().contains(name@),
    {
        self.position(name).is_some()
    }

    /// The number of items.
    pub fn len(&self) -> (n: usize)
        ensures
            n == self.names().len(),
            n == self.items().len(),
    {
        proof {
            use_type_invariant(self);
        }
        self.items.len()
    }

    /// The item at `i`.
    pub fn item(&self, i: usize) -> (r: &C)
        requires
            i < self.items().len(),
        ensures
            *r == self.items()[i as int],
    {
        &self.items[i]
    }

    /// The item at `i`, for change in place; the names stay as they are.
    pub fn item_mut(&mut self, i: usize) -> (r: &mut C)
        requires
            i < old(self).items().len(),
        ensures
            *r == old(self).items()[i as int],
            final(self).names() == old(self).names(),
            final(self).items() == old(self).items().update(i as int, *final(r)),
    {
        proof {
            use_type_invariant(&*self);
        }
        &mut self.items[i]
    }

    /// The items, in order.
    pub fn refs(&self) -> (r: Vec<&C>)
        ensures
            r@.len() == self.items().len(),
            forall|i: int| 0 <= i < r@.len() ==> *(#[trigger] r@[i]) == self.items()[i],
    {
        let mut r: Vec<&C> = Vec::new();
        let mut i: usize = 0;
        while i < self.items.len()
            invariant
                0 <= i <= self.items@.len(),
                r@.len() == i,
                forall|j: int| 0 <= j < i ==> *(#[trigger] r@[j]) == self.items@[j],
            decreases self.items@.len() - i,
        {
            r.push(&self.items[i]);
            i = i + 1;
        }
        r
    }

    /// Stores `item` under `name`: in place of the item of that name, if
    /// any, else after the others.
    pub fn insert(&mut self, name: String, item: C)
        ensures
            old(self).names().len() == old(self).items().len(),
            final(self).names().len() == final(self).items().len(),
            old(self).names().contains(name@) ==> final(self).names() == old(self).names(),
            !old(self).names().contains(name@) ==> final(self).names() == old(self).names().push(name@),
            final(self).names().contains(name@),
            forall|i: int| 0 <= i < final(self).names().len() && final(self).names()[i] == name@ ==> #[trigger] final(self).items()[i] == item,
            forall|i: int| 0 <= i < final(self).names().len() && final(self).names()[i] != name@ ==> #[trigger] final(self).items()[i] == old(self).items()[i],
    {
        proof {
            use_type_invariant(&*self);
        }
        let ghost n = name@;
        let ghost nv0 = self.names();
        match self.position(name.as_str()) {
            Some(k) => {
                let mut t = NameTable::new();
                std::mem::swap(&mut t, self);
                let NameTable { names, mut items } = t;
                items.set(k, item);
                proof {
                    assert forall|j: int| 0 <= j < texts_of(names@).len() && texts_of(names@)[j] == n implies #[trigger] items@[j] == item by {
                        if j != k {
                            assert(texts_of(names@)[j] == texts_of(names@)[k as int]);
                        }
                    }
                }
                *self = NameTable { names, items };
            },
            None => {
                let mut t = NameTable::new();
                std::mem::swap(&mut t, self);
                let NameTable { mut names, mut items } = t;
                let ghost names0 = names@;
                names.push(name);
                items.push(item);
                proof {
                    assert(texts_of(names@) =~= texts_of(names0).push(n));
                    assert(texts_of(names@)[names0.len() as int] == n);
                    assert(texts_of(names@).no_duplicates()) by {
                        assert forall|a: int, b: int| 0 <= a < texts_of(names@).len() && 0 <= b < texts_of(names@).len() && a != b implies texts_of(names@)[a] != texts_of(names@)[b] by {
                            if a < names0.len() && b < names0.len() {
                                assert(texts_of(names0)[a] != texts_of(names0)[b]);
                            } else if a < names0.len() {
                                assert(texts_of(names0)[a] != n);
                            } else {
                                assert(texts_of(names0)[b] != n);
                            }
                        }
                    }
                    assert forall|j: int| 0 <= j < texts_of(names@).len() && texts_of(names@)[j] == n implies #[trigger] items@[j] == item by {
                        if j < names0.len() {
                            assert(nv0[j] == n);
                        }
                    }
                }
                *self = NameTable { names, items };
            },
        }
    }

    /// Removes the item named `name`; whether there was one.
    pub fn remove(&mut self, name: &str) -> (b: bool)
        ensures
            old(self).names().len() == old(self).items().len(),
            final(self).names().len() == final(self).items().len(),
            b == old(self).names().contains(name@),
            !final(self).names().contains(name@),
            final(self).names().to_set() == old(self).names().to_set().remove(name@),
            final(self).names().len() == old(self).names().len() - (if b { 1int } else { 0 }),
            b ==> exists|k: int|
                0 <= k < old(self).names().len() && old(self).names()[k] == name@
                    && final(self).names() == old(self).names().remove(k)
                    && #[trigger] final(self).items() == old(self).items().remove(k),
            !b ==> final(self).names() == old(self).names() && final(self).items() == old(self).items(),
    {
        proof {
            use_type_invariant(&*self);
        }
        match self.position(name) {
            Some(k) => {
                let mut t = NameTable::new();
                std::mem::swap(&mut t, self);
                let NameTable { mut names, mut items } = t;
                let ghost n0 = names@;
                let ghost e0 = texts_of(n0);
                let _ = names.remove(k);
                let _ = items.remove(k);
                proof {
                    let e1 = texts_of(names@);
                    assert(e1 =~= e0.remove(k as int));
                    assert forall|a: int, b: int| 0 <= a < e1.len() && 0 <= b < e1.len() && a != b implies e1[a] != e1[b] by {
                        let a2 = if a < k { a } else { a + 1 };
                        let b2 = if b < k { b } else { b + 1 };
                        assert(e0[a2] != e0[b2]);
                    }
                    assert(!e1.contains(name@)) by {
                        if e1.contains(name@) {
                            let j = choose|j: int| 0 <= j < e1.len() && e1[j] == name@;
                            let j2 = if j < k { j } else { j + 1 };
                            assert(e0[j2] == e0[k as int]);
                        }
                    }
                    assert forall|x: Seq<char>| #[trigger] e1.to_set().contains(x) == e0.to_set().remove(name@).contains(x) by {
                        if e0.contains(x) && x != name@ {
                            let j = choose|j: int| 0 <= j < e0.len() && e0[j] == x;
                            let j2 = if j < k { j } else { j - 1 };
                            assert(e1[j2] == x);
                        }
                        if e1.contains(x) {
                            let j = choose|j: int| 0 <= j < e1.len() && e1[j] == x;
                            let j2 = if j < k { j } else { j + 1 };
                            assert(e0[j2] == x);
                        }
                    }
                    assert(e1.to_set() =~= e0.to_set().remove(name@));
                }
                *self = NameTable { names, items };
                true
            },
            None => {
                proof {
                    assert(self.names().to_set() =~= self.names().to_set().remove(name@));
                }
                false
            },
        }
    }

    /// Removes every item.
    pub fn clear(&mut self)
        ensures
            final(self).names() == Seq::<Seq<char>>::empty(),
    {
        *self = NameTable::new();
    }

    /// The names, as strings, in order.
    pub fn name_list(&self) -> (r: Vec<String>)
        ensures
            texts_of(r@) == self.names(),
    {
        let mut r: Vec<String> = Vec::new();
        let mut i: usize = 0;
        while i < self.names.len()
            invariant
                0 <= i <= self.names@.len(),
                r@.len() == i,
                forall|j: int| 0 <= j < i ==> #[trigger] r@[j]@ == self.names@[j]@,
            decreases self.names@.len() - i,
        {
            r.push(self.names[i].clone());
            i = i + 1;
        }
        proof {
            assert(texts_of(r@) =~= self.names());
        }
        r
    }

    /// The item named `name`.
    pub fn get(&self, name: &str) -> (r: Option<&C>)
        ensures
            r is Some <==> self.names().contains(name@),
            r matches Some(c) ==> exists|i: int| 0 <= i < self.names().len() && self.names()[i] == name@ && *c == #[trigger] self.items()[i],
    {
        proof {
            use_type_invariant(self);
        }
        match self.position(name) {
            Some(i) => {
                proof {
                    assert(self.names()[i as int] == name@ && self.items.view()[i as int] == self.items()[i as int]);
                }
                Some(&self.items[i])
            },
            None => None,
        }
    }

    /// Takes the first entry out.
    pub fn pop_front(&mut self) -> (r: Option<(String, C)>)
        ensures
            old(self).names().len() == 0 ==> r is None && final(self).names() == old(self).names(),
            old(self).names().len() > 0 ==> (r matches Some(e) && e.0@ == old(self).names()[0] && e.1 == old(self).items()[0])
                && final(self).names() == old(self).names().drop_first()
                && final(self).items() == old(self).items().drop_first(),
    {
        proof {
            use_type_invariant(&*self);
        }
        if self.names.len() == 0 {
            return None;
        }
        let mut t = NameTable::new();
        std::mem::swap(&mut t, self);
        let NameTable { mut names, mut items } = t;
        let ghost e0 = texts_of(names@);
        let ghost i0 = items@;
        let n = names.remove(0);
        let c = items.remove(0);
        proof {
            let e1 = texts_of(names@);
            assert(e1 =~= e0.drop_first());
            assert(items@ =~= i0.drop_first());
            assert(e1.no_duplicates()) by {
                assert forall|a: int, b: int| 0 <= a < e1.len() && 0 <= b < e1.len() && a != b implies e1[a] != e1[b] by {
                    assert(e0[a + 1] != e0[b + 1]);
                }
            }
        }
        *self = NameTable { names, items };
        Some((n, c))
    }

    /// Puts an entry with a new name after the others.
    pub fn push_back(&mut self, name: String, item: C)
        requires
            !old(self).names().contains(name@),
        ensures
            final(self).names() == old(self).names().push(name@),
            final(self).items() == old(self).items().push(item),
    {
        proof {
            use_type_invariant(&*self);
        }
        let mut t = NameTable::new();
        std::mem::swap(&mut t, self);
        let NameTable { mut names, mut items } = t;
        let ghost e0 = texts_of(names@);
        let ghost n = name@;
        names.push(name);
        items.push(item);
        proof {
            let e1 = texts_of(names@);
            assert(e1 =~= e0.push(n));
            assert(e1.no_duplicates()) by {
                assert forall|a: int, b: int| 0 <= a < e1.len() && 0 <= b < e1.len() && a != b implies e1[a] != e1[b] by {
                    if a < e0.len() && b < e0.len() {
                        assert(e0[a] != e0[b]);
                    } else if a < e0.len() {
                        assert(e0.contains(e0[a]));
                    } else {
                        assert(e0.contains(e0[b]));
                    }
                }
            }
        }
        *self = NameTable { names, items };
    }
}

}
