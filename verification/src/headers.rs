//! The header mapping of a request or a response: header names to header
//! values, each name at most once, kept in the order of first insertion.

use vstd::prelude::*;
use vstd::std_specs::cmp::PartialEqSpecImpl;

verus! {

/// A header name with its value, as text.
pub type Pair = (Seq<char>, Seq<char>);

/// `i` is the index of the first pair of `pairs` whose name is `key`, or the
/// length of `pairs` if there is none.
pub open spec fn is_key_index(pairs: Seq<Pair>, key: Seq<char>, i: int) -> bool {
    &&& 0 <= i <= pairs.len()
    &&& forall|j: int| 0 <= j < i ==> (#[trigger] pairs[j]).0 != key
    &&& i < pairs.len() ==> pairs[i].0 == key
}

/// The index of the first pair of `pairs` whose name is `key`, or the length
/// of `pairs` if there is none.
pub open spec fn key_index(pairs: Seq<Pair>, key: Seq<char>) -> int {
    choose|i: int| is_key_index(pairs, key, i)
}

/// No name occurs twice in `pairs`.
pub open spec fn unique_keys(pairs: Seq<Pair>) -> bool {
    forall|i: int, j: int|
        0 <= i < j < pairs.len() ==> (#[trigger] pairs[i]).0 != (#[trigger] pairs[j]).0
}

/// The mapping that a sequence of pairs stands for: each name that occurs,
/// to the value of its first occurrence.
pub open spec fn pairs_map(pairs: Seq<Pair>) -> Map<Seq<char>, Seq<char>> {
    Map::new(
        |key: Seq<char>| key_index(pairs, key) < pairs.len(),
        |key: Seq<char>| pairs[key_index(pairs, key)].1,
    )
}

/// The pairs after `key` was given `value`: the value is replaced in place
/// where the name occurs, and the pair is added at the end where it does not.
pub open spec fn insert_pair(pairs: Seq<Pair>, key: Seq<char>, value: Seq<char>) -> Seq<Pair> {
    let i = key_index(pairs, key);
    if 0 <= i < pairs.len() {
        pairs.update(i, (key, value))
    } else {
        pairs.push((key, value))
    }
}

proof fn key_index_witness(pairs: Seq<Pair>, key: Seq<char>, n: int) -> (i: int)
    requires
        0 <= n <= pairs.len(),
        forall|j: int| 0 <= j < n ==> (#[trigger] pairs[j]).0 != key,
    ensures
        is_key_index(pairs, key, i),
    decreases pairs.len() - n,
{
    if n == pairs.len() || pairs[n].0 == key {
        n
    } else {
        key_index_witness(pairs, key, n + 1)
    }
}

/// Every sequence of pairs has a key index for every name.
pub proof fn lemma_key_index(pairs: Seq<Pair>, key: Seq<char>)
    ensures
        is_key_index(pairs, key, key_index(pairs, key)),
{
    let i = key_index_witness(pairs, key, 0);
    assert(is_key_index(pairs, key, i));
}

/// There is only one key index.
pub proof fn lemma_key_index_unique(pairs: Seq<Pair>, key: Seq<char>, i: int)
    requires
        is_key_index(pairs, key, i),
    ensures
        key_index(pairs, key) == i,
{
    let i2 = key_index(pairs, key);
    assert(is_key_index(pairs, key, i2));
    if i < i2 {
        assert(pairs[i].0 == key);
    }
    if i2 < i {
        assert(pairs[i2].0 == key);
    }
}

/// Inserting into the pairs inserts into the mapping, and keeps the names
/// unique.
pub proof fn lemma_insert_pair(pairs: Seq<Pair>, key: Seq<char>, value: Seq<char>)
    ensures
        pairs_map(insert_pair(pairs, key, value)) == pairs_map(pairs).insert(key, value),
        unique_keys(pairs) ==> unique_keys(insert_pair(pairs, key, value)),
{
    let after = insert_pair(pairs, key, value);
    let i = key_index(pairs, key);
    lemma_key_index(pairs, key);
    assert forall|q: Seq<char>|
        (#[trigger] key_index(after, q) < after.len()) == (q == key || key_index(pairs, q)
            < pairs.len()) && (key_index(after, q) < after.len() ==> after[key_index(
            after,
            q,
        )].1 == if q == key {
            value
        } else {
            pairs[key_index(pairs, q)].1
        }) by {
        let iq = key_index(pairs, q);
        lemma_key_index(pairs, q);
        if i < pairs.len() {
            assert(is_key_index(after, q, iq));
            lemma_key_index_unique(after, q, iq);
            if q == key {
                lemma_key_index_unique(pairs, key, iq);
            }
        } else {
            if q == key {
                assert(is_key_index(after, q, pairs.len() as int));
                lemma_key_index_unique(after, q, pairs.len() as int);
            } else if iq < pairs.len() {
                assert(is_key_index(after, q, iq));
                lemma_key_index_unique(after, q, iq);
            } else {
                assert(is_key_index(after, q, after.len() as int));
                lemma_key_index_unique(after, q, after.len() as int);
            }
        }
    }
    assert(pairs_map(after) =~= pairs_map(pairs).insert(key, value));
    if unique_keys(pairs) {
        assert forall|a: int, b: int| 0 <= a < b < after.len() implies (#[trigger] after[a]).0 != (
        #[trigger] after[b]).0 by {
            if i < pairs.len() {
                assert(after[a].0 == pairs[a].0);
                assert(after[b].0 == pairs[b].0);
            } else if b < pairs.len() {
                assert(after[a].0 == pairs[a].0);
                assert(after[b].0 == pairs[b].0);
            } else {
                assert(after[a].0 == pairs[a].0);
            }
        }
    }
}

/// The empty sequence of pairs stands for the empty mapping, and one pair
/// inserted into it for the mapping of that pair alone.
pub proof fn lemma_single_pair(key: Seq<char>, value: Seq<char>)
    ensures
        pairs_map(Seq::<Pair>::empty()) == Map::<Seq<char>, Seq<char>>::empty(),
        insert_pair(Seq::<Pair>::empty(), key, value) == seq![(key, value)],
        pairs_map(seq![(key, value)]) == Map::<Seq<char>, Seq<char>>::empty().insert(key, value),
{
    let none = Seq::<Pair>::empty();
    assert forall|q: Seq<char>| !(#[trigger] pairs_map(none).contains_key(q)) by {
        lemma_key_index(none, q);
    }
    assert(pairs_map(none) =~= Map::<Seq<char>, Seq<char>>::empty());
    lemma_key_index(none, key);
    assert(insert_pair(none, key, value) =~= seq![(key, value)]);
    lemma_insert_pair(none, key, value);
}

/// In pairs with unique names, every pair is the one that its name maps to.
pub proof fn lemma_pair_in_map(pairs: Seq<Pair>, i: int)
    requires
        unique_keys(pairs),
        0 <= i < pairs.len(),
    ensures
        key_index(pairs, pairs[i].0) == i,
        pairs_map(pairs).contains_key(pairs[i].0),
        pairs_map(pairs)[pairs[i].0] == pairs[i].1,
{
    assert(is_key_index(pairs, pairs[i].0, i));
    lemma_key_index_unique(pairs, pairs[i].0, i);
}

/// A mapping from header names to header values.
#[derive(Debug)]
pub struct Headers {
    entries: Vec<(String, String)>,
}

impl View for Headers {
    type V = Map<Seq<char>, Seq<char>>;

    /// The mapping from names to values.
    open spec fn view(&self) -> Map<Seq<char>, Seq<char>> {
        pairs_map(self.pairs())
    }
}

impl Headers {
    #[verifier::type_invariant]
    spec fn well_formed(self) -> bool {
        unique_keys(self.pairs())
    }

    /// The headers as pairs of name and value, in the order in which the
    /// names were first inserted.
    pub closed spec fn pairs(&self) -> Seq<Pair> {
        Seq::new(self.entries@.len(), |i: int| (self.entries@[i].0@, self.entries@[i].1@))
    }

    /// The empty mapping.
    pub fn new() -> (h: Headers)
        ensures
            h.pairs() == Seq::<Pair>::empty(),
            h@ == Map::<Seq<char>, Seq<char>>::empty(),
    {
        let h = Headers { entries: Vec::new() };
        proof {
            assert(h.pairs() =~= Seq::<Pair>::empty());
            assert forall|key: Seq<char>| !(#[trigger] pairs_map(h.pairs()).contains_key(key)) by {
                lemma_key_index(h.pairs(), key);
            }
            assert(h@ =~= Map::<Seq<char>, Seq<char>>::empty());
        }
        h
    }

    /// The mapping of one name to one value.
    pub fn single(name: &str, value: &str) -> (h: Headers)
        ensures
            h.pairs() == seq![(name@, value@)],
            h@ == Map::<Seq<char>, Seq<char>>::empty().insert(name@, value@),
    {
        let mut h = Headers::new();
        h.insert(String::from_str(name), String::from_str(value));
        proof {
            lemma_single_pair(name@, value@);
        }
        h
    }

    /// The number of headers.
    pub fn len(&self) -> (n: usize)
        ensures
            n == self.pairs().len(),
    {
        self.entries.len()
    }

    /// Whether there is no header.
    pub fn is_empty(&self) -> (r: bool)
        ensures
            r == (self.pairs().len() == 0),
    {
        self.entries.len() == 0
    }

    /// The name and the value of the header at position `i`.
    pub fn entry(&self, i: usize) -> (r: (&String, &String))
        requires
            i < self.pairs().len(),
        ensures
            r.0@ == self.pairs()[i as int].0,
            r.1@ == self.pairs()[i as int].1,
    {
        let e = &self.entries[i];
        (&e.0, &e.1)
    }

    fn position(&self, key: &String) -> (i: usize)
        ensures
            i == key_index(self.pairs(), key@),
            i <= self.pairs().len(),
    {
        let mut i: usize = 0;
        while i < self.entries.len() && !(self.entries[i].0 == *key)
            invariant
                i <= self.entries.len(),
                forall|j: int| 0 <= j < i ==> (#[trigger] self.pairs()[j]).0 != key@,
            decreases self.entries.len() - i,
        {
            i += 1;
        }
        proof {
            assert(is_key_index(self.pairs(), key@, i as int));
            lemma_key_index_unique(self.pairs(), key@, i as int);
        }
        i
    }

    /// Gives `key` the value `value`. A name that is already there keeps its
    /// place and gets the new value; a new name goes to the end.
    pub fn insert(&mut self, key: String, value: String)
        ensures
            final(self).pairs() == insert_pair(old(self).pairs(), key@, value@),
            final(self)@ == old(self)@.insert(key@, value@),
    {
        proof {
            use_type_invariant(&*self);
            lemma_insert_pair(self.pairs(), key@, value@);
        }
        let ghost before = self.pairs();
        let i = self.position(&key);
        let mut entries: Vec<(String, String)> = Vec::new();
        std::mem::swap(&mut entries, &mut self.entries);
        if i < entries.len() {
            entries.set(i, (key, value));
        } else {
            entries.push((key, value));
        }
        proof {
            let after = Seq::new(entries@.len(), |j: int| (entries@[j].0@, entries@[j].1@));
            assert(after =~= insert_pair(before, key@, value@));
        }
        self.entries = entries;
        proof {
            assert(self.pairs() =~= insert_pair(before, key@, value@));
        }
    }

    /// Whether `key` has a value.
    pub fn contains_key(&self, key: &str) -> (r: bool)
        ensures
            r == self@.contains_key(key@),
    {
        let k = key.to_owned();
        let i = self.position(&k);
        i < self.entries.len()
    }

    /// The value of `key`, if it has one.
    pub fn get(&self, key: &str) -> (r: Option<&String>)
        ensures
            r is Some == self@.contains_key(key@),
            r matches Some(v) ==> v@ == self@[key@],
    {
        let k = key.to_owned();
        let i = self.position(&k);
        if i < self.entries.len() {
            Some(&self.entries[i].1)
        } else {
            None
        }
    }

    fn includes(&self, other: &Headers) -> (r: bool)
        ensures
            r == (forall|key: Seq<char>| #[trigger]
                other@.contains_key(key) ==> self@.contains_key(key) && self@[key] == other@[key]),
    {
        proof {
            use_type_invariant(other);
        }
        let mut i: usize = 0;
        while i < other.entries.len()
            invariant
                i <= other.entries.len(),
                unique_keys(other.pairs()),
                forall|j: int|
                    0 <= j < i ==> self@.contains_key((#[trigger] other.pairs()[j]).0)
                        && self@[other.pairs()[j].0] == other.pairs()[j].1,
            decreases other.entries.len() - i,
        {
            let p = self.position(&other.entries[i].0);
            proof {
                lemma_pair_in_map(other.pairs(), i as int);
                assert(other.pairs()[i as int].0 == other.entries@[i as int].0@);
                assert(other.pairs()[i as int].1 == other.entries@[i as int].1@);
                assert(other@.contains_key(other.pairs()[i as int].0));
            }
            if p >= self.entries.len() {
                return false;
            }
            assert(self.pairs()[p as int].1 == self.entries@[p as int].1@);
            if !(self.entries[p].1 == other.entries[i].1) {
                return false;
            }
            i += 1;
        }
        proof {
            assert forall|key: Seq<char>| #[trigger]
                other@.contains_key(key) implies self@.contains_key(key) && self@[key]
                == other@[key] by {
                let j = key_index(other.pairs(), key);
                lemma_key_index(other.pairs(), key);
                assert(other.pairs()[j].0 == key);
            }
        }
        true
    }
}

impl Clone for Headers {
    /// A copy with the same pairs in the same order.
    fn clone(&self) -> (r: Headers)
        ensures
            r.pairs() == self.pairs(),
            r@ == self@,
    {
        proof {
            use_type_invariant(self);
        }
        let mut entries: Vec<(String, String)> = Vec::new();
        let mut i: usize = 0;
        while i < self.entries.len()
            invariant
                i <= self.entries.len(),
                entries@.len() == i,
                forall|j: int|
                    0 <= j < i ==> (#[trigger] entries@[j]).0@ == self.entries@[j].0@
                        && entries@[j].1@ == self.entries@[j].1@,
            decreases self.entries.len() - i,
        {
            entries.push((self.entries[i].0.clone(), self.entries[i].1.clone()));
            i += 1;
        }
        proof {
            let copied = Seq::new(entries@.len(), |j: int| (entries@[j].0@, entries@[j].1@));
            assert(copied =~= self.pairs());
        }
        let r = Headers { entries };
        proof {
            assert(r.pairs() =~= self.pairs());
        }
        r
    }
}

impl PartialEq for Headers {
    /// Two header mappings are equal when they map the same names to the
    /// same values, whatever the order.
    fn eq(&self, other: &Headers) -> (r: bool) {
        let r = self.includes(other) && other.includes(self);
        proof {
            if r {
                assert(self@ =~= other@);
            }
        }
        r
    }
}

impl PartialEqSpecImpl for Headers {
    open spec fn obeys_eq_spec() -> bool {
        true
    }

    open spec fn eq_spec(&self, other: &Headers) -> bool {
        self@ == other@
    }
}

} // verus!
