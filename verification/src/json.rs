//! The library's JSON value: the data and metadata of events and the
//! settings of plugins. Objects keep their keys in ascending order, as
//! serde_json's default map does, so that walking an object meets the keys
//! in the same order.
use vstd::prelude::*;
use crate::text::{compare_text, lemma_text_lt_irreflexive, lemma_text_lt_total, lemma_text_lt_transitive, no_control, no_escape, text_eq, text_lt};

verus! {

/// A JSON number: a non-negative integer, a negative integer, or a number
/// with a fraction or exponent, held as its JSON text.
#[derive(Debug)]
pub enum JsonNumber {
    PosInt(u64),
    NegInt(i64),
    Float(String),
}

/// A JSON value.
#[derive(Debug)]
pub enum JsonValue {
    Null,
    Bool(bool),
    Number(JsonNumber),
    String(String),
    Array(Vec<JsonValue>),
    Object(ObjectMap),
}

/// A JSON object: entries whose keys are strictly ascending in the order
/// of `text_lt` (hence without duplicates).
#[derive(Debug)]
pub struct ObjectMap {
    entries: Vec<(String, JsonValue)>,
}

/// Keys of `e` are strictly ascending.
pub open spec fn keys_ascending(e: Seq<(String, JsonValue)>) -> bool {
    forall|i: int, j: int| 0 <= i < j < e.len() ==> text_lt(#[trigger] e[i].0@, #[trigger] e[j].0@)
}

/// The value stored under key `k` in an entry sequence, searching from the front.
pub open spec fn lookup(e: Seq<(String, JsonValue)>, k: Seq<char>) -> Option<JsonValue>
    decreases e.len(),
{
    if e.len() == 0 {
        None
    } else if e[0].0@ == k {
        Some(e[0].1)
    } else {
        lookup(e.drop_first(), k)
    }
}

/// `lookup` finds nothing when no entry has the key.
pub proof fn lemma_lookup_none(e: Seq<(String, JsonValue)>, k: Seq<char>)
    requires
        forall|i: int| 0 <= i < e.len() ==> #[trigger] e[i].0@ != k,
    ensures
        lookup(e, k) is None,
    decreases e.len(),
{
    if e.len() > 0 {
        assert(e[0].0@ != k);
        assert forall|i: int| 0 <= i < e.drop_first().len() implies #[trigger] e.drop_first()[i].0@ != k by {
            assert(e.drop_first()[i] == e[i + 1]);
        }
        lemma_lookup_none(e.drop_first(), k);
    }
}

/// With ascending keys, `lookup` of an entry's key finds that entry's value.
pub proof fn lemma_lookup_at(e: Seq<(String, JsonValue)>, i: int)
    requires
        keys_ascending(e),
        0 <= i < e.len(),
    ensures
        lookup(e, e[i].0@) == Some(e[i].1),
    decreases e.len(),
{
    if i > 0 {
        assert(text_lt(e[0].0@, e[i].0@));
        lemma_text_lt_irreflexive(e[i].0@);
        let d = e.drop_first();
        assert(d[i - 1] == e[i]);
        assert forall|a: int, b: int| 0 <= a < b < d.len() implies text_lt(#[trigger] d[a].0@, #[trigger] d[b].0@) by {
            assert(d[a] == e[a + 1]);
            assert(d[b] == e[b + 1]);
        }
        lemma_lookup_at(d, i - 1);
    }
}

/// What `lookup` finds is the value of an entry with that key.
pub proof fn lemma_lookup_found(e: Seq<(String, JsonValue)>, k: Seq<char>)
    requires
        lookup(e, k) is Some,
    ensures
        exists|i: int| 0 <= i < e.len() && #[trigger] e[i].0@ == k && lookup(e, k) == Some(e[i].1),
    decreases e.len(),
{
    if e[0].0@ == k {
        assert(e[0].0@ == k);
    } else {
        lemma_lookup_found(e.drop_first(), k);
        let j = choose|j: int| 0 <= j < e.drop_first().len() && #[trigger] e.drop_first()[j].0@ == k
            && lookup(e.drop_first(), k) == Some(e.drop_first()[j].1);
        assert(e[j + 1] == e.drop_first()[j]);
    }
}

/// With ascending keys, `lookup(e, k)` is `Some(v)` exactly when an entry is `(k, v)`.
pub proof fn lemma_lookup_iff(e: Seq<(String, JsonValue)>, k: Seq<char>)
    requires
        keys_ascending(e),
    ensures
        lookup(e, k) is None <==> (forall|i: int| 0 <= i < e.len() ==> #[trigger] e[i].0@ != k),
        forall|i: int| 0 <= i < e.len() && #[trigger] e[i].0@ == k ==> lookup(e, k) == Some(e[i].1),
{
    assert forall|i: int| 0 <= i < e.len() && #[trigger] e[i].0@ == k implies lookup(e, k) == Some(e[i].1) by {
        lemma_lookup_at(e, i);
    }
    if forall|i: int| 0 <= i < e.len() ==> #[trigger] e[i].0@ != k {
        lemma_lookup_none(e, k);
    }
}

impl ObjectMap {
    #[verifier::type_invariant]
    spec fn sorted(self) -> bool {
        keys_ascending(self.entries@)
    }

    /// The entries, in ascending key order.
    pub closed spec fn spec_entries(&self) -> Seq<(String, JsonValue)> {
        self.entries@
    }

    /// The value under key `k`, if any.
    pub open spec fn spec_get(&self, k: Seq<char>) -> Option<JsonValue> {
        lookup(self.spec_entries(), k)
    }

    /// An empty object.
    pub fn new() -> (m: ObjectMap)
        ensures
            m.spec_entries() == Seq::<(String, JsonValue)>::empty(),
            m@ == Map::<Seq<char>, JsonView>::empty(),
    {
        let m = ObjectMap { entries: Vec::new() };
        assert(m@ =~= Map::<Seq<char>, JsonView>::empty());
        m
    }

    /// The number of keys.
    pub fn len(&self) -> (n: usize)
        ensures
            n == self.spec_entries().len(),
    {
        self.entries.len()
    }

    /// Whether there is no key.
    pub fn is_empty(&self) -> (b: bool)
        ensures
            b == (self.spec_entries().len() == 0),
            b == (self@ == Map::<Seq<char>, JsonView>::empty()),
    {
        proof {
            use_type_invariant(self);
            if self.entries@.len() > 0 {
                lemma_lookup_at(self.entries@, 0);
                assert(self@.dom().contains(self.entries@[0].0@));
            } else {
                assert(self@ =~= Map::<Seq<char>, JsonView>::empty());
            }
        }
        self.entries.len() == 0
    }

    /// The entries in ascending key order.
    pub fn entries(&self) -> (r: &Vec<(String, JsonValue)>)
        ensures
            r@ == self.spec_entries(),
            keys_ascending(r@),
    {
        proof {
            use_type_invariant(self);
        }
        &self.entries
    }

    /// The position of key `k`, if present.
    fn position(&self, k: &str) -> (r: Option<usize>)
        ensures
            match r {
                Some(i) => i < self.entries@.len() && self.entries@[i as int].0@ == k@,
                None => forall|i: int| 0 <= i < self.entries@.len() ==> #[trigger] self.entries@[i].0@ != k@,
            },
    {
        let mut i: usize = 0;
        while i < self.entries.len()
            invariant
                0 <= i <= self.entries@.len(),
                forall|j: int| 0 <= j < i ==> #[trigger] self.entries@[j].0@ != k@,
            decreases self.entries@.len() - i,
        {
            if text_eq(self.entries[i].0.as_str(), k) {
                return Some(i);
            }
            i = i + 1;
        }
        None
    }

    /// The value under key `k`.
    pub fn get(&self, k: &str) -> (r: Option<&JsonValue>)
        ensures
            r matches Some(v) ==> self.spec_get(k@) == Some(*v),
            r is None ==> self.spec_get(k@) is None,
    {
        proof {
            use_type_invariant(self);
            lemma_lookup_iff(self.entries@, k@);
        }
        match self.position(k) {
            Some(i) => Some(&self.entries[i].1),
            None => None,
        }
    }

    /// Whether key `k` is present.
    pub fn contains_key(&self, k: &str) -> (b: bool)
        ensures
            b == self.spec_get(k@) is Some,
            b == self@.dom().contains(k@),
    {
        proof {
            use_type_invariant(self);
            lemma_lookup_iff(self.entries@, k@);
        }
        self.position(k).is_some()
    }

    /// Stores `v` under `k`, returning the value that was there.
    pub fn insert(&mut self, k: String, v: JsonValue) -> (old_value: Option<JsonValue>)
        ensures
            old_value == old(self).spec_get(k@),
            forall|k2: Seq<char>| #[trigger] final(self).spec_get(k2) == if k2 == k@ {
                Some(v)
            } else {
                old(self).spec_get(k2)
            },
            final(self)@ == old(self)@.insert(k@, v@),
    {
        proof {
            use_type_invariant(&*self);
        }
        let ghost e0 = self.entries@;
        let mut i: usize = 0;
        while i < self.entries.len()
            invariant
                0 <= i <= self.entries@.len(),
                self.entries@ == e0,
                keys_ascending(e0),
                forall|j: int| 0 <= j < i ==> text_lt(#[trigger] e0[j].0@, k@),
            ensures
                0 <= i <= e0.len(),
                self.entries@ == e0,
                forall|j: int| 0 <= j < i ==> text_lt(#[trigger] e0[j].0@, k@),
                i < e0.len() ==> !text_lt(e0[i as int].0@, k@),
            decreases self.entries@.len() - i,
        {
            let c = compare_text(self.entries[i].0.as_str(), k.as_str());
            if c != -1 {
                break;
            }
            i = i + 1;
        }
        proof {
            lemma_lookup_iff(e0, k@);
        }
        if i < self.entries.len() && text_eq(self.entries[i].0.as_str(), k.as_str()) {
            let ghost kk = k@;
            let mut entries: Vec<(String, JsonValue)> = Vec::new();
            std::mem::swap(&mut entries, &mut self.entries);
            let ghost kv = (k, v);
            let (_, prev) = entries.remove(i);
            entries.insert(i, (k, v));
            let ghost e1 = entries@;
            proof {
                assert(e1 == e0.update(i as int, kv));
                assert forall|a: int, b: int| 0 <= a < b < e1.len() implies text_lt(#[trigger] e1[a].0@, #[trigger] e1[b].0@) by {
                    assert(e1[a].0@ == e0[a].0@);
                    assert(e1[b].0@ == e0[b].0@);
                }
                lemma_lookup_at(e0, i as int);
                Self::lemma_update_lookup(e0, e1, i as int, kk, kv.1);
            }
            self.entries = entries;
            proof {
                assert(self@ =~= old(self)@.insert(kk, view_of(kv.1)));
            }
            Some(prev)
        } else {
            proof {
                if i < e0.len() {
                    lemma_text_lt_total(e0[i as int].0@, k@);
                }
                lemma_text_lt_irreflexive(k@);
                assert forall|j: int| 0 <= j < e0.len() implies #[trigger] e0[j].0@ != k@ by {
                    if j < i {
                        assert(text_lt(e0[j].0@, k@));
                    } else if j > i {
                        assert(text_lt(e0[i as int].0@, e0[j].0@));
                        lemma_text_lt_transitive(k@, e0[i as int].0@, e0[j].0@);
                    }
                }
                lemma_lookup_none(e0, k@);
            }
            let ghost kk = k@;
            let ghost vv = v;
            let mut entries: Vec<(String, JsonValue)> = Vec::new();
            std::mem::swap(&mut entries, &mut self.entries);
            entries.insert(i, (k, v));
            let ghost e1 = entries@;
            proof {
                assert forall|a: int, b: int| 0 <= a < b < e1.len() implies text_lt(#[trigger] e1[a].0@, #[trigger] e1[b].0@) by {
                    if b < i {
                        assert(e1[a] == e0[a] && e1[b] == e0[b]);
                    } else if b == i {
                        assert(e1[a] == e0[a]);
                    } else if a < i {
                        assert(e1[a] == e0[a] && e1[b] == e0[b - 1]);
                        if i < e0.len() {
                            if b - 1 > i {
                                assert(text_lt(e0[a].0@, e0[i as int].0@));
                            }
                            lemma_text_lt_transitive(e0[a].0@, k@, e0[i as int].0@);
                            if b - 1 > i {
                                lemma_text_lt_transitive(e0[a].0@, e0[i as int].0@, e0[b - 1].0@);
                            }
                        }
                    } else if a == i {
                        assert(e1[b] == e0[b - 1]);
                        if b - 1 > i {
                            lemma_text_lt_transitive(k@, e0[i as int].0@, e0[b - 1].0@);
                        }
                    } else {
                        assert(e1[a] == e0[a - 1] && e1[b] == e0[b - 1]);
                    }
                }
                Self::lemma_insert_lookup(e0, e1, i as int, kk, vv);
            }
            self.entries = entries;
            proof {
                assert(self@ =~= old(self)@.insert(kk, view_of(vv)));
            }
            None
        }
    }

    proof fn lemma_update_lookup(e0: Seq<(String, JsonValue)>, e1: Seq<(String, JsonValue)>, i: int, k: Seq<char>, v: JsonValue)
        requires
            keys_ascending(e0),
            keys_ascending(e1),
            0 <= i < e0.len(),
            e0[i].0@ == k,
            e1.len() == e0.len(),
            e1[i].0@ == k,
            e1[i].1 == v,
            forall|j: int| 0 <= j < e0.len() && j != i ==> e1[j] == e0[j],
        ensures
            forall|k2: Seq<char>| #[trigger] lookup(e1, k2) == if k2 == k {
                Some(v)
            } else {
                lookup(e0, k2)
            },
    {
        assert forall|k2: Seq<char>| #[trigger] lookup(e1, k2) == if k2 == k {
            Some(v)
        } else {
            lookup(e0, k2)
        } by {
            lemma_lookup_iff(e0, k2);
            lemma_lookup_iff(e1, k2);
            if k2 == k {
                assert(e1[i].0@ == k2);
            } else {
                if exists|j: int| 0 <= j < e0.len() && #[trigger] e0[j].0@ == k2 {
                    let j = choose|j: int| 0 <= j < e0.len() && #[trigger] e0[j].0@ == k2;
                    assert(e1[j] == e0[j]);
                } else {
                    assert forall|j: int| 0 <= j < e1.len() implies #[trigger] e1[j].0@ != k2 by {
                        if j != i {
                            assert(e1[j] == e0[j]);
                        }
                    }
                }
            }
        }
    }

    proof fn lemma_insert_lookup(e0: Seq<(String, JsonValue)>, e1: Seq<(String, JsonValue)>, i: int, k: Seq<char>, v: JsonValue)
        requires
            keys_ascending(e0),
            keys_ascending(e1),
            0 <= i <= e0.len(),
            e1.len() == e0.len() + 1,
            e1[i].0@ == k,
            e1[i].1 == v,
            forall|j: int| 0 <= j < i ==> e1[j] == e0[j],
            forall|j: int| i < j < e1.len() ==> e1[j] == e0[j - 1],
        ensures
            forall|k2: Seq<char>| #[trigger] lookup(e1, k2) == if k2 == k {
                Some(v)
            } else {
                lookup(e0, k2)
            },
    {
        assert forall|k2: Seq<char>| #[trigger] lookup(e1, k2) == if k2 == k {
            Some(v)
        } else {
            lookup(e0, k2)
        } by {
            lemma_lookup_iff(e0, k2);
            lemma_lookup_iff(e1, k2);
            if k2 == k {
                assert(e1[i].0@ == k2);
            } else {
                if exists|j: int| 0 <= j < e0.len() && #[trigger] e0[j].0@ == k2 {
                    let j = choose|j: int| 0 <= j < e0.len() && #[trigger] e0[j].0@ == k2;
                    if j < i {
                        assert(e1[j] == e0[j]);
                    } else {
                        assert(e1[j + 1] == e0[j]);
                    }
                } else {
                    assert forall|j: int| 0 <= j < e1.len() implies #[trigger] e1[j].0@ != k2 by {
                        if j < i {
                            assert(e1[j] == e0[j]);
                        } else if j > i {
                            assert(e1[j] == e0[j - 1]);
                        }
                    }
                }
            }
        }
    }

    /// Removes key `k`, returning the value that was there.
    pub fn remove(&mut self, k: &str) -> (old_value: Option<JsonValue>)
        ensures
            old_value == old(self).spec_get(k@),
            forall|k2: Seq<char>| #[trigger] final(self).spec_get(k2) == if k2 == k@ {
                None
            } else {
                old(self).spec_get(k2)
            },
            final(self)@ == old(self)@.remove(k@),
    {
        proof {
            use_type_invariant(&*self);
            lemma_lookup_iff(self.entries@, k@);
        }
        let ghost e0 = self.entries@;
        match self.position(k) {
            Some(i) => {
                proof {
                    lemma_lookup_at(e0, i as int);
                }
                let mut entries: Vec<(String, JsonValue)> = Vec::new();
                std::mem::swap(&mut entries, &mut self.entries);
                let (_, prev) = entries.remove(i);
                let ghost e1 = entries@;
                proof {
                    assert forall|a: int, b: int| 0 <= a < b < e1.len() implies text_lt(#[trigger] e1[a].0@, #[trigger] e1[b].0@) by {
                        if b < i {
                            assert(e1[a] == e0[a] && e1[b] == e0[b]);
                        } else if a < i {
                            assert(e1[a] == e0[a] && e1[b] == e0[b + 1]);
                        } else {
                            assert(e1[a] == e0[a + 1] && e1[b] == e0[b + 1]);
                        }
                    }
                    assert forall|k2: Seq<char>| #[trigger] lookup(e1, k2) == if k2 == k@ {
                        None
                    } else {
                        lookup(e0, k2)
                    } by {
                        lemma_lookup_iff(e0, k2);
                        lemma_lookup_iff(e1, k2);
                        if k2 == k@ {
                            assert forall|j: int| 0 <= j < e1.len() implies #[trigger] e1[j].0@ != k2 by {
                                if j < i {
                                    assert(e1[j] == e0[j]);
                                    assert(text_lt(e0[j].0@, e0[i as int].0@));
                                    lemma_text_lt_irreflexive(k2);
                                } else {
                                    assert(e1[j] == e0[j + 1]);
                                    assert(text_lt(e0[i as int].0@, e0[j + 1].0@));
                                    lemma_text_lt_irreflexive(k2);
                                }
                            }
                        } else {
                            if exists|j: int| 0 <= j < e0.len() && #[trigger] e0[j].0@ == k2 {
                                let j = choose|j: int| 0 <= j < e0.len() && #[trigger] e0[j].0@ == k2;
                                if j < i {
                                    assert(e1[j] == e0[j]);
                                } else {
                                    assert(j != i);
                                    assert(e1[j - 1] == e0[j]);
                                }
                            } else {
                                assert forall|j: int| 0 <= j < e1.len() implies #[trigger] e1[j].0@ != k2 by {
                                    if j < i {
                                        assert(e1[j] == e0[j]);
                                    } else {
                                        assert(e1[j] == e0[j + 1]);
                                    }
                                }
                            }
                        }
                    }
                }
                self.entries = entries;
                proof {
                    assert(self@ =~= old(self)@.remove(k@));
                }
                Some(prev)
            },
            None => {
                proof {
                    assert(self@ =~= old(self)@.remove(k@));
                }
                None
            },
        }
    }
}

impl View for ObjectMap {
    type V = Map<Seq<char>, JsonView>;

    open spec fn view(&self) -> Map<Seq<char>, JsonView> {
        Map::new(|k: Seq<char>| self.spec_get(k) is Some, |k: Seq<char>| view_of(self.spec_get(k)->Some_0))
    }
}


/// The mathematical image of a JSON number.
pub enum NumberView {
    PosInt(nat),
    NegInt(int),
    Float(Seq<char>),
}

/// The mathematical image of a JSON value: strings become character
/// sequences, arrays sequences, objects their entries in ascending key order.
pub enum JsonView {
    Null,
    Bool(bool),
    Number(NumberView),
    Str(Seq<char>),
    Array(Seq<JsonView>),
    Object(Seq<(Seq<char>, JsonView)>),
}

/// The image of a number.
pub open spec fn number_view(n: JsonNumber) -> NumberView {
    match n {
        JsonNumber::PosInt(u) => NumberView::PosInt(u as nat),
        JsonNumber::NegInt(i) => NumberView::NegInt(i as int),
        JsonNumber::Float(t) => NumberView::Float(t@),
    }
}

/// The image of a value.
pub open spec fn view_of(v: JsonValue) -> JsonView
    decreases v,
{
    match v {
        JsonValue::Null => JsonView::Null,
        JsonValue::Bool(b) => JsonView::Bool(b),
        JsonValue::Number(n) => JsonView::Number(number_view(n)),
        JsonValue::String(s) => JsonView::Str(s@),
        JsonValue::Array(a) => JsonView::Array(view_list(a@)),
        JsonValue::Object(m) => JsonView::Object(view_entries(m.spec_entries())),
    }
}

/// The images of a sequence of values.
pub open spec fn view_list(s: Seq<JsonValue>) -> Seq<JsonView>
    decreases s,
{
    if s.len() == 0 {
        Seq::empty()
    } else {
        view_list(s.drop_last()).push(view_of(s.last()))
    }
}

/// The images of a sequence of object entries.
pub open spec fn view_entries(s: Seq<(String, JsonValue)>) -> Seq<(Seq<char>, JsonView)>
    decreases s,
{
    if s.len() == 0 {
        Seq::empty()
    } else {
        view_entries(s.drop_last()).push((s.last().0@, view_of(s.last().1)))
    }
}

impl View for JsonValue {
    type V = JsonView;

    open spec fn view(&self) -> JsonView {
        view_of(*self)
    }
}

/// `view_list` maps each element.
pub proof fn lemma_view_list(s: Seq<JsonValue>)
    ensures
        view_list(s).len() == s.len(),
        forall|i: int| 0 <= i < s.len() ==> #[trigger] view_list(s)[i] == view_of(s[i]),
    decreases s.len(),
{
    if s.len() > 0 {
        lemma_view_list(s.drop_last());
    }
}

/// `view_entries` maps each entry.
pub proof fn lemma_view_entries(s: Seq<(String, JsonValue)>)
    ensures
        view_entries(s).len() == s.len(),
        forall|i: int| 0 <= i < s.len() ==> #[trigger] view_entries(s)[i] == (s[i].0@, view_of(s[i].1)),
    decreases s.len(),
{
    if s.len() > 0 {
        lemma_view_entries(s.drop_last());
    }
}

/// Sequences whose elements have equal images have equal images.
pub proof fn lemma_view_list_eq(s: Seq<JsonValue>, t: Seq<JsonValue>)
    requires
        s.len() == t.len(),
        forall|i: int| 0 <= i < s.len() ==> view_of(#[trigger] s[i]) == view_of(t[i]),
    ensures
        view_list(s) == view_list(t),
{
    lemma_view_list(s);
    lemma_view_list(t);
    assert(view_list(s) =~= view_list(t));
}

/// Entry sequences whose entries have equal images have equal images.
pub proof fn lemma_view_entries_eq(s: Seq<(String, JsonValue)>, t: Seq<(String, JsonValue)>)
    requires
        s.len() == t.len(),
        forall|i: int| 0 <= i < s.len() ==> (#[trigger] s[i]).0@ == t[i].0@ && view_of(s[i].1) == view_of(t[i].1),
    ensures
        view_entries(s) == view_entries(t),
{
    lemma_view_entries(s);
    lemma_view_entries(t);
    assert(view_entries(s) =~= view_entries(t));
}

impl Clone for JsonNumber {
    fn clone(&self) -> (r: Self)
        ensures
            number_view(r) == number_view(*self),
    {
        match self {
            JsonNumber::PosInt(u) => JsonNumber::PosInt(*u),
            JsonNumber::NegInt(i) => JsonNumber::NegInt(*i),
            JsonNumber::Float(t) => JsonNumber::Float(t.clone()),
        }
    }
}

impl Clone for JsonValue {
    fn clone(&self) -> (r: Self)
        ensures
            r@ == self@,
            r is Object <==> self is Object,
            self is Object ==> r->Object_0@ == self->Object_0@,
        decreases self,
    {
        match self {
            JsonValue::Null => JsonValue::Null,
            JsonValue::Bool(b) => JsonValue::Bool(*b),
            JsonValue::Number(n) => JsonValue::Number(n.clone()),
            JsonValue::String(s) => JsonValue::String(s.clone()),
            JsonValue::Array(a) => {
                let mut out: Vec<JsonValue> = Vec::new();
                let mut i: usize = 0;
                while i < a.len()
                    invariant
                        0 <= i <= a@.len(),
                        *self == JsonValue::Array(*a),
                        out@.len() == i,
                        forall|j: int| 0 <= j < i ==> view_of(#[trigger] out@[j]) == view_of(a@[j]),
                    decreases a@.len() - i,
                {
                    proof {
                        assert(decreases_to!(*self => (*self)->Array_0));
                        assert(decreases_to!(*a => a@));
                        assert(decreases_to!(a@ => a@[i as int]));
                    }
                    let x = a[i].clone();
                    out.push(x);
                    i = i + 1;
                }
                proof {
                    lemma_view_list_eq(out@, a@);
                }
                JsonValue::Array(out)
            },
            JsonValue::Object(m) => {
                proof {
                    use_type_invariant(m);
                }
                let mut out: Vec<(String, JsonValue)> = Vec::new();
                let mut i: usize = 0;
                while i < m.entries.len()
                    invariant
                        0 <= i <= m.entries@.len(),
                        *self == JsonValue::Object(*m),
                        keys_ascending(m.entries@),
                        out@.len() == i,
                        forall|j: int| 0 <= j < i ==> (#[trigger] out@[j]).0 == m.entries@[j].0 && view_of(out@[j].1) == view_of(m.entries@[j].1),
                    decreases m.entries@.len() - i,
                {
                    proof {
                        assert(decreases_to!(*self => (*self)->Object_0));
                        assert(decreases_to!(*m => m.entries));
                        assert(decreases_to!(m.entries => m.entries@));
                        assert(decreases_to!(m.entries@ => m.entries@[i as int]));
                        assert(decreases_to!(m.entries@[i as int] => m.entries@[i as int].1));
                    }
                    let k = m.entries[i].0.clone();
                    let x = m.entries[i].1.clone();
                    out.push((k, x));
                    i = i + 1;
                }
                proof {
                    lemma_view_entries_eq(out@, m.entries@);
                    assert forall|a: int, b: int| 0 <= a < b < out@.len() implies text_lt(#[trigger] out@[a].0@, #[trigger] out@[b].0@) by {
                        assert(text_lt(m.entries@[a].0@, m.entries@[b].0@));
                    }
                }
                let copy = ObjectMap { entries: out };
                proof {
                    copy.lemma_same_view(m);
                }
                JsonValue::Object(copy)
            },
        }
    }
}


/// Two ascending entry sequences with the same images give the same map.
pub proof fn lemma_entries_same_map(e1: Seq<(String, JsonValue)>, e2: Seq<(String, JsonValue)>, k: Seq<char>)
    requires
        keys_ascending(e1),
        keys_ascending(e2),
        view_entries(e1) == view_entries(e2),
    ensures
        lookup(e1, k) is Some <==> lookup(e2, k) is Some,
        lookup(e1, k) is Some ==> view_of(lookup(e1, k)->Some_0) == view_of(lookup(e2, k)->Some_0),
{
    lemma_view_entries(e1);
    lemma_view_entries(e2);
    lemma_lookup_iff(e1, k);
    lemma_lookup_iff(e2, k);
    if lookup(e1, k) is Some {
        lemma_lookup_found(e1, k);
        let i = choose|i: int| 0 <= i < e1.len() && #[trigger] e1[i].0@ == k && lookup(e1, k) == Some(e1[i].1);
        assert(view_entries(e1)[i] == view_entries(e2)[i]);
        assert(e2[i].0@ == k);
    }
    if lookup(e2, k) is Some {
        lemma_lookup_found(e2, k);
        let i = choose|i: int| 0 <= i < e2.len() && #[trigger] e2[i].0@ == k && lookup(e2, k) == Some(e2[i].1);
        assert(view_entries(e1)[i] == view_entries(e2)[i]);
        assert(e1[i].0@ == k);
    }
}

impl ObjectMap {
    /// The entries' images, in ascending key order.
    pub open spec fn entries_view(&self) -> Seq<(Seq<char>, JsonView)> {
        view_entries(self.spec_entries())
    }

    /// Maps with the same ordered images have the same map image.
    pub proof fn lemma_same_view(&self, other: &ObjectMap)
        requires
            self.entries_view() == other.entries_view(),
            keys_ascending(self.spec_entries()),
            keys_ascending(other.spec_entries()),
        ensures
            self@ == other@,
    {
        assert forall|k: Seq<char>| #[trigger] self@.dom().contains(k) == other@.dom().contains(k) by {
            lemma_entries_same_map(self.entries@, other.entries@, k);
        }
        assert forall|k: Seq<char>| self@.dom().contains(k) implies #[trigger] self@[k] == other@[k] by {
            lemma_entries_same_map(self.entries@, other.entries@, k);
        }
        assert(self@ =~= other@);
    }

    /// Whether the keys of this map are ascending (always so for a map
    /// that exists at run time).
    pub fn check_ascending(&self)
        ensures
            keys_ascending(self.spec_entries()),
    {
        proof {
            use_type_invariant(self);
        }
    }
}

impl Clone for ObjectMap {
    fn clone(&self) -> (r: Self)
        ensures
            r.entries_view() == self.entries_view(),
            r@ == self@,
    {
        proof {
            use_type_invariant(self);
        }
        let mut out: Vec<(String, JsonValue)> = Vec::new();
        let mut i: usize = 0;
        while i < self.entries.len()
            invariant
                0 <= i <= self.entries@.len(),
                keys_ascending(self.entries@),
                out@.len() == i,
                forall|j: int| 0 <= j < i ==> (#[trigger] out@[j]).0 == self.entries@[j].0 && view_of(out@[j].1) == view_of(self.entries@[j].1),
            decreases self.entries@.len() - i,
        {
            let k = self.entries[i].0.clone();
            let x = self.entries[i].1.clone();
            out.push((k, x));
            i = i + 1;
        }
        proof {
            lemma_view_entries_eq(out@, self.entries@);
            assert forall|a: int, b: int| 0 <= a < b < out@.len() implies text_lt(#[trigger] out@[a].0@, #[trigger] out@[b].0@) by {
                assert(text_lt(self.entries@[a].0@, self.entries@[b].0@));
            }
        }
        let r = ObjectMap { entries: out };
        proof {
            r.lemma_same_view(self);
        }
        r
    }
}

impl JsonValue {
    /// The value under key `k` when this value is an object.
    pub open spec fn spec_field(&self, k: Seq<char>) -> Option<JsonValue> {
        match *self {
            JsonValue::Object(m) => m.spec_get(k),
            _ => None,
        }
    }

    /// The value under key `k` when this is an object; `None` otherwise.
    pub fn get(&self, k: &str) -> (r: Option<&JsonValue>)
        ensures
            r matches Some(v) ==> self.spec_field(k@) == Some(*v),
            r is None ==> self.spec_field(k@) is None,
    {
        match self {
            JsonValue::Object(m) => m.get(k),
            _ => None,
        }
    }

    /// The text of a string value.
    pub fn as_str(&self) -> (r: Option<&str>)
        ensures
            match *self {
                JsonValue::String(s) => r matches Some(t) && t@ == s@,
                _ => r is None,
            },
    {
        match self {
            JsonValue::String(s) => Some(s.as_str()),
            _ => None,
        }
    }

    /// The number as an `i64`, when it is an integer in range.
    pub fn as_i64(&self) -> (r: Option<i64>)
        ensures
            r == self.spec_as_i64(),
    {
        match self {
            JsonValue::Number(JsonNumber::PosInt(u)) => {
                if *u <= 0x7fff_ffff_ffff_ffff {
                    Some(*u as i64)
                } else {
                    None
                }
            },
            JsonValue::Number(JsonNumber::NegInt(i)) => Some(*i),
            _ => None,
        }
    }

    /// The number as an `i64`, when it is an integer in range.
    pub open spec fn spec_as_i64(&self) -> Option<i64> {
        match *self {
            JsonValue::Number(JsonNumber::PosInt(u)) => if u <= i64::MAX {
                Some(u as i64)
            } else {
                None
            },
            JsonValue::Number(JsonNumber::NegInt(i)) => Some(i),
            _ => None,
        }
    }

    /// The number as a `u64`, when it is a non-negative integer.
    pub open spec fn spec_as_u64(&self) -> Option<u64> {
        match *self {
            JsonValue::Number(JsonNumber::PosInt(u)) => Some(u),
            _ => None,
        }
    }

    /// The number as a `u64`, when it is a non-negative integer.
    pub fn as_u64(&self) -> (r: Option<u64>)
        ensures
            r == self.spec_as_u64(),
    {
        match self {
            JsonValue::Number(JsonNumber::PosInt(u)) => Some(*u),
            _ => None,
        }
    }

    /// The boolean of a boolean value.
    pub fn as_bool(&self) -> (r: Option<bool>)
        ensures
            r == (match *self {
                JsonValue::Bool(b) => Some(b),
                _ => None,
            }),
    {
        match self {
            JsonValue::Bool(b) => Some(*b),
            _ => None,
        }
    }

    /// The elements of an array value.
    pub fn as_array(&self) -> (r: Option<&Vec<JsonValue>>)
        ensures
            match *self {
                JsonValue::Array(a) => r == Some(&a),
                _ => r is None,
            },
    {
        match self {
            JsonValue::Array(a) => Some(a),
            _ => None,
        }
    }

    /// The map of an object value.
    pub fn as_object(&self) -> (r: Option<&ObjectMap>)
        ensures
            match *self {
                JsonValue::Object(m) => r == Some(&m),
                _ => r is None,
            },
    {
        match self {
            JsonValue::Object(m) => Some(m),
            _ => None,
        }
    }

    /// Whether this is `null`.
    pub fn is_null(&self) -> (b: bool)
        ensures
            b == (*self is Null),
    {
        match self {
            JsonValue::Null => true,
            _ => false,
        }
    }

    /// Whether this is an object.
    pub fn is_object(&self) -> (b: bool)
        ensures
            b == (*self is Object),
    {
        match self {
            JsonValue::Object(_) => true,
            _ => false,
        }
    }

    /// Whether this is a string.
    pub fn is_string(&self) -> (b: bool)
        ensures
            b == (*self is String),
    {
        match self {
            JsonValue::String(_) => true,
            _ => false,
        }
    }

    /// A string value holding `t`.
    pub fn from_text(t: &str) -> (v: JsonValue)
        ensures
            v@ == JsonView::Str(t@),
    {
        JsonValue::String(crate::text::text_of(t))
    }

    /// The number `i`, non-negative numbers kept as unsigned as JSON does.
    pub fn from_i64(i: i64) -> (v: JsonValue)
        ensures
            v == JsonValue::Number(i64_number(i)),
    {
        if i >= 0 {
            JsonValue::Number(JsonNumber::PosInt(i as u64))
        } else {
            JsonValue::Number(JsonNumber::NegInt(i))
        }
    }

    /// The number `u`.
    pub fn from_u64(u: u64) -> (v: JsonValue)
        ensures
            v == JsonValue::Number(JsonNumber::PosInt(u)),
    {
        JsonValue::Number(JsonNumber::PosInt(u))
    }

    /// An empty object.
    pub fn empty_object() -> (v: JsonValue)
        ensures
            v matches JsonValue::Object(m) && m@ == Map::<Seq<char>, JsonView>::empty() && m.spec_entries().len() == 0,
    {
        JsonValue::Object(ObjectMap::new())
    }

    /// Whether two values have the same image.
    pub fn equals(&self, other: &JsonValue) -> (r: bool)
        ensures
            r == (self@ == other@),
        decreases self,
    {
        match (self, other) {
            (JsonValue::Null, JsonValue::Null) => true,
            (JsonValue::Bool(a), JsonValue::Bool(b)) => *a == *b,
            (JsonValue::Number(a), JsonValue::Number(b)) => match (a, b) {
                (JsonNumber::PosInt(x), JsonNumber::PosInt(y)) => *x == *y,
                (JsonNumber::NegInt(x), JsonNumber::NegInt(y)) => *x == *y,
                (JsonNumber::Float(x), JsonNumber::Float(y)) => text_eq(x.as_str(), y.as_str()),
                _ => false,
            },
            (JsonValue::String(a), JsonValue::String(b)) => text_eq(a.as_str(), b.as_str()),
            (JsonValue::Array(a), JsonValue::Array(b)) => {
                proof {
                    lemma_view_list(a@);
                    lemma_view_list(b@);
                }
                if a.len() != b.len() {
                    return false;
                }
                let mut i: usize = 0;
                while i < a.len()
                    invariant
                        0 <= i <= a@.len(),
                        a@.len() == b@.len(),
                        *self == JsonValue::Array(*a),
                        *other == JsonValue::Array(*b),
                        forall|j: int| 0 <= j < i ==> view_of(#[trigger] a@[j]) == view_of(b@[j]),
                    decreases a@.len() - i,
                {
                    proof {
                        assert(decreases_to!(*self => (*self)->Array_0));
                        assert(decreases_to!(*a => a@));
                        assert(decreases_to!(a@ => a@[i as int]));
                    }
                    if !a[i].equals(&b[i]) {
                        proof {
                            lemma_view_list(a@);
                            lemma_view_list(b@);
                            assert(view_list(a@)[i as int] != view_list(b@)[i as int]);
                        }
                        return false;
                    }
                    i = i + 1;
                }
                proof {
                    lemma_view_list_eq(a@, b@);
                }
                true
            },
            (JsonValue::Object(a), JsonValue::Object(b)) => {
                proof {
                    lemma_view_entries(a.entries@);
                    lemma_view_entries(b.entries@);
                }
                if a.entries.len() != b.entries.len() {
                    return false;
                }
                let mut i: usize = 0;
                while i < a.entries.len()
                    invariant
                        0 <= i <= a.entries@.len(),
                        a.entries@.len() == b.entries@.len(),
                        *self == JsonValue::Object(*a),
                        *other == JsonValue::Object(*b),
                        forall|j: int| 0 <= j < i ==> (#[trigger] a.entries@[j]).0@ == b.entries@[j].0@ && view_of(a.entries@[j].1) == view_of(b.entries@[j].1),
                    decreases a.entries@.len() - i,
                {
                    proof {
                        assert(decreases_to!(*self => (*self)->Object_0));
                        assert(decreases_to!(*a => a.entries));
                        assert(decreases_to!(a.entries => a.entries@));
                        assert(decreases_to!(a.entries@ => a.entries@[i as int]));
                        assert(decreases_to!(a.entries@[i as int] => a.entries@[i as int].1));
                    }
                    if !text_eq(a.entries[i].0.as_str(), b.entries[i].0.as_str()) || !a.entries[i].1.equals(&b.entries[i].1) {
                        proof {
                            lemma_view_entries(a.entries@);
                            lemma_view_entries(b.entries@);
                            assert(view_entries(a.entries@)[i as int] != view_entries(b.entries@)[i as int]);
                        }
                        return false;
                    }
                    i = i + 1;
                }
                proof {
                    lemma_view_entries_eq(a.entries@, b.entries@);
                }
                true
            },
            _ => false,
        }
    }
}

/// The JSON number of an `i64`: unsigned when it is not negative.
pub open spec fn i64_number(i: i64) -> JsonNumber {
    if i >= 0 {
        JsonNumber::PosInt(i as u64)
    } else {
        JsonNumber::NegInt(i)
    }
}


/// A value that serde_json writes and reads back unchanged: no number with
/// a fraction or exponent (those are read back only approximately), integers
/// within the range of `u64` or, when negative, of `i64` (serde_json reads
/// larger ones as floats), negative integers held as negative, object keys
/// ascending, and at most `depth`
/// levels of nesting (serde_json refuses to read deeper than 127 levels).
pub open spec fn plain_json(j: JsonView, depth: nat) -> bool
    decreases j,
{
    match j {
        JsonView::Number(NumberView::Float(_)) => false,
        JsonView::Number(NumberView::PosInt(u)) => u <= u64::MAX,
        JsonView::Number(NumberView::NegInt(i)) => i64::MIN <= i < 0,
        JsonView::Array(items) => depth > 0 && forall|i: int|
            0 <= i < items.len() ==> plain_json(#[trigger] items[i], (depth - 1) as nat),
        JsonView::Object(es) => depth > 0 && (forall|a: int, b: int|
            0 <= a < b < es.len() ==> text_lt(#[trigger] es[a].0, #[trigger] es[b].0)) && (forall|i: int|
            0 <= i < es.len() ==> plain_json(#[trigger] es[i].1, (depth - 1) as nat)),
        _ => true,
    }
}

#[verifier::external_type_specification]
#[verifier::external_body]
pub struct ExSerdeJsonValue(serde_json::Value);

#[verifier::external_type_specification]
#[verifier::external_body]
pub struct ExSerdeNumber(serde_json::Number);

/// Converts a serde_json value into the library's value, variant by variant
/// (serde_json's map walks its keys in ascending order).
#[verifier::external_body]
fn from_serde(v: serde_json::Value) -> JsonValue {
    match v {
        serde_json::Value::Null => JsonValue::Null,
        serde_json::Value::Bool(b) => JsonValue::Bool(b),
        serde_json::Value::Number(n) => JsonValue::Number(number_from_serde(n)),
        serde_json::Value::String(s) => JsonValue::String(s),
        serde_json::Value::Array(a) => JsonValue::Array(a.into_iter().map(from_serde).collect()),
        serde_json::Value::Object(m) => JsonValue::Object(ObjectMap { entries: m.into_iter().map(|(k, x)| (k, from_serde(x))).collect() }),
    }
}

/// Converts a serde_json number into the library's number: serde_json holds
/// a non-negative integer, a negative integer or a float, which its `as_u64`
/// and `as_i64` tell apart; a float keeps its JSON text.
#[verifier::external_body]
fn number_from_serde(n: serde_json::Number) -> JsonNumber {
    match (n.as_u64(), n.as_i64()) {
        (Some(u), _) => JsonNumber::PosInt(u),
        (None, Some(i)) => JsonNumber::NegInt(i),
        (None, None) => JsonNumber::Float(n.to_string()),
    }
}

/// Converts the library's number into a serde_json value; a float is read
/// back from its JSON text.
#[verifier::external_body]
fn number_to_serde(n: &JsonNumber) -> serde_json::Value {
    match n {
        JsonNumber::PosInt(u) => serde_json::Value::from(*u),
        JsonNumber::NegInt(i) => serde_json::Value::from(*i),
        JsonNumber::Float(t) => serde_json::from_str(t).unwrap_or(serde_json::Value::Null),
    }
}

/// Converts the library's value into a serde_json value, variant by variant.
#[verifier::external_body]
fn to_serde(v: &JsonValue) -> serde_json::Value {
    match v {
        JsonValue::Null => serde_json::Value::Null,
        JsonValue::Bool(b) => serde_json::Value::Bool(*b),
        JsonValue::Number(n) => number_to_serde(n),
        JsonValue::String(s) => serde_json::Value::String(s.clone()),
        JsonValue::Array(a) => serde_json::Value::Array(a.iter().map(to_serde).collect()),
        JsonValue::Object(m) => serde_json::Value::Object(m.entries.iter().map(|(k, x)| (k.clone(), to_serde(x))).collect()),
    }
}

/// serde_json's compact text of a value (`Display` of `serde_json::Value`).
pub uninterp spec fn json_compact(v: JsonView) -> Seq<char>;

/// serde_json's pretty text of a value (`serde_json::to_string_pretty`).
pub uninterp spec fn json_pretty(v: JsonView) -> Seq<char>;

/// What `serde_json::from_str::<serde_json::Value>` makes of a text: the
/// value, or the text of its error.
pub uninterp spec fn json_parse(text: Seq<char>) -> Result<JsonView, Seq<char>>;

/// The compact JSON text of `v`, as serde_json writes it (`Display` of
/// `serde_json::Value`). The text is named by `json_compact`; beyond that
/// it is claimed only to hold no control character, and so no escape
/// character and no line break: the compact form puts no whitespace
/// between tokens, and serde_json writes every control character inside a
/// string, or a key, as an escape sequence.
#[verifier::external_body]
pub(crate) fn compact_text(v: &JsonValue) -> (r: String)
    ensures
        r@ == json_compact(v@),
        no_control(r@),
        no_escape(r@),
{
    to_serde(v).to_string()
}

/// The pretty JSON text of `v`, as `serde_json::to_string_pretty` writes
/// it. The text is named by `json_pretty`; nothing more is claimed of it.
#[verifier::external_body]
pub(crate) fn pretty_text(v: &JsonValue) -> (r: String)
    ensures
        r@ == json_pretty(v@),
{
    serde_json::to_string_pretty(&to_serde(v)).unwrap_or_default()
}

/// Parses JSON text with `serde_json::from_str::<serde_json::Value>`.
/// Claims: the outcome is the one `json_parse` names; and a text that
/// serde_json wrote for a value that `plain_json` admits at 127 levels of
/// nesting, the deepest its reader accepts, reads back as that value
/// (serde_json writes and reads integers, strings, arrays and objects
/// exactly, and keeps object keys in ascending order).
#[verifier::external_body]
pub(crate) fn parse_text(text: &str) -> (r: Result<JsonValue, String>)
    ensures
        r matches Ok(v) ==> json_parse(text@) is Ok && json_parse(text@)->Ok_0 == v@,
        r matches Err(m) ==> json_parse(text@) is Err && json_parse(text@)->Err_0 == m@,
        forall|j: JsonView| #[trigger] json_compact(j) == text@ && plain_json(j, 127) ==> r is Ok && r->Ok_0@ == j,
{
    match serde_json::from_str::<serde_json::Value>(text) {
        Ok(v) => Ok(from_serde(v)),
        Err(e) => Err(e.to_string()),
    }
}

/// The text of a number as JSON writes it: the decimal digits of an integer,
/// the held text of any other number.
pub open spec fn number_text(n: NumberView) -> Seq<char> {
    match n {
        NumberView::PosInt(u) => crate::text::decimal(u),
        NumberView::NegInt(i) => crate::text::signed_decimal(i),
        NumberView::Float(t) => t,
    }
}

impl JsonNumber {
    /// The text of this number (`Display` of serde_json's `JsonNumber`).
    pub fn to_text(&self) -> (r: String)
        ensures
            r@ == number_text(number_view(*self)),
    {
        match self {
            JsonNumber::PosInt(u) => crate::text::u64_text(*u),
            JsonNumber::NegInt(i) => crate::text::i64_text(*i),
            JsonNumber::Float(t) => t.clone(),
        }
    }
}


impl JsonValue {
    /// The value that JSON text `text` holds, or serde_json's description of
    /// why it holds none.
    pub fn parse(text: &str) -> (r: Result<JsonValue, JsonError>)
        ensures
            r matches Ok(v) ==> json_parse(text@) == Ok::<JsonView, Seq<char>>(v@),
            r matches Err(e) ==> json_parse(text@) == Err::<JsonView, Seq<char>>(e.message@),
    {
        match parse_text(text) {
            Ok(v) => Ok(v),
            Err(m) => Err(JsonError { message: m }),
        }
    }

    /// The compact JSON text of this value.
    pub fn to_json_text(&self) -> (r: String)
        ensures
            r@ == json_compact(self@),
    {
        compact_text(self)
    }
}

/// A JSON text that could not be read.
#[derive(Debug)]
pub struct JsonError {
    /// serde_json's description of the fault.
    pub message: String,
}

impl ObjectMap {
    /// An object made of entries whose keys are already ascending.
    pub fn from_ascending(entries: Vec<(String, JsonValue)>) -> (m: ObjectMap)
        requires
            keys_ascending(entries@),
        ensures
            m.spec_entries() == entries@,
    {
        ObjectMap { entries }
    }
}


/// What `plain_json` asks of an object.
pub proof fn lemma_plain_object(es: Seq<(Seq<char>, JsonView)>, depth: nat)
    requires
        plain_json(JsonView::Object(es), depth),
    ensures
        depth > 0,
        forall|a: int, b: int| 0 <= a < b < es.len() ==> text_lt(#[trigger] es[a].0, #[trigger] es[b].0),
        forall|i: int| 0 <= i < es.len() ==> plain_json(#[trigger] es[i].1, (depth - 1) as nat),
{
    let j = JsonView::Object(es);
    assert(j->Object_0 == es);
}


impl ObjectMap {
    /// Whether two maps hold the same entries, in the same order.
    pub fn same_entries(&self, other: &ObjectMap) -> (r: bool)
        ensures
            r == (self.entries_view() == other.entries_view()),
    {
        proof {
            lemma_view_entries(self.entries@);
            lemma_view_entries(other.entries@);
        }
        if self.entries.len() != other.entries.len() {
            return false;
        }
        let mut i: usize = 0;
        while i < self.entries.len()
            invariant
                0 <= i <= self.entries@.len(),
                self.entries@.len() == other.entries@.len(),
                forall|j: int| 0 <= j < i ==> (#[trigger] self.entries@[j]).0@ == other.entries@[j].0@ && view_of(self.entries@[j].1) == view_of(other.entries@[j].1),
            decreases self.entries@.len() - i,
        {
            if !text_eq(self.entries[i].0.as_str(), other.entries[i].0.as_str()) || !self.entries[i].1.equals(&other.entries[i].1) {
                proof {
                    lemma_view_entries(self.entries@);
                    lemma_view_entries(other.entries@);
                    assert(view_entries(self.entries@)[i as int] != view_entries(other.entries@)[i as int]);
                }
                return false;
            }
            i = i + 1;
        }
        proof {
            lemma_view_entries_eq(self.entries@, other.entries@);
        }
        true
    }
}

}
