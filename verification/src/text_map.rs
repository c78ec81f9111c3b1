//! A map from text to values, kept in dictionary order of its keys.

use crate::text;
use vstd::prelude::*;

verus! {

/// Entries in strictly ascending order of their keys.
pub open spec fn ascending<V>(pairs: Seq<(Seq<char>, V)>) -> bool {
    forall|i: int, j: int|
        0 <= i < j < pairs.len() ==> text::precedes(#[trigger] pairs[i].0, #[trigger] pairs[j].0)
}

/// Whether `key` has an entry.
pub open spec fn has_key<V>(pairs: Seq<(Seq<char>, V)>, key: Seq<char>) -> bool {
    exists|i: int| 0 <= i < pairs.len() && (#[trigger] pairs[i]).0 == key
}

/// The map that a sequence of entries stands for.
pub open spec fn as_map<V>(pairs: Seq<(Seq<char>, V)>) -> Map<Seq<char>, V> {
    Map::new(
        |key: Seq<char>| has_key(pairs, key),
        |key: Seq<char>|
            pairs[choose|i: int| 0 <= i < pairs.len() && (#[trigger] pairs[i]).0 == key].1,
    )
}

/// In an ascending sequence each entry is the one its key is mapped to.
pub proof fn lemma_entry<V>(pairs: Seq<(Seq<char>, V)>, i: int)
    requires
        ascending(pairs),
        0 <= i < pairs.len(),
    ensures
        as_map(pairs).contains_key(pairs[i].0),
        as_map(pairs)[pairs[i].0] == pairs[i].1,
{
    let key = pairs[i].0;
    let j = choose|j: int| 0 <= j < pairs.len() && (#[trigger] pairs[j]).0 == key;
    assert(has_key(pairs, key));
    text::lemma_precedes_irreflexive(key);
    assert(i == j);
}

/// Whether `keys` are in strictly ascending order.
pub open spec fn ascending_keys(keys: Seq<Seq<char>>) -> bool {
    forall|i: int, j: int|
        0 <= i < j < keys.len() ==> text::precedes(#[trigger] keys[i], #[trigger] keys[j])
}

/// Whether `keys` are the keys of `m` in ascending order.
pub open spec fn lists_keys<V>(keys: Seq<Seq<char>>, m: Map<Seq<char>, V>) -> bool {
    &&& ascending_keys(keys)
    &&& forall|k: Seq<char>| #[trigger] m.contains_key(k) <==> keys.contains(k)
}

/// The keys of `m` in ascending order.
pub open spec fn ordered_keys<V>(m: Map<Seq<char>, V>) -> Seq<Seq<char>> {
    choose|keys: Seq<Seq<char>>| lists_keys(keys, m)
}

proof fn lemma_ascending_last(keys: Seq<Seq<char>>, k: Seq<char>)
    requires
        ascending_keys(keys),
        keys.contains(k),
    ensures
        k == keys.last() || text::precedes(k, keys.last()),
{
    let i = keys.index_of(k);
    assert(keys[i] == k);
    if i < keys.len() - 1 {
        assert(text::precedes(keys[i], keys[keys.len() - 1]));
    }
}

proof fn lemma_ascending_same(a: Seq<Seq<char>>, b: Seq<Seq<char>>)
    requires
        ascending_keys(a),
        ascending_keys(b),
        forall|k: Seq<char>| a.contains(k) <==> b.contains(k),
    ensures
        a == b,
    decreases a.len(),
{
    if a.len() == 0 {
        if b.len() > 0 {
            assert(b.contains(b[0]));
            assert(a.contains(b[0]));
        }
        assert(a =~= b);
    } else {
        assert(a.contains(a.last()));
        assert(b.contains(a.last()));
        assert(b.contains(b.last()));
        lemma_ascending_last(a, b.last());
        lemma_ascending_last(b, a.last());
        text::lemma_precedes_irreflexive(a.last());
        if a.last() != b.last() {
            text::lemma_precedes_transitive(a.last(), b.last(), a.last());
        }
        let x = a.drop_last();
        let y = b.drop_last();
        assert forall|k: Seq<char>| x.contains(k) <==> y.contains(k) by {
            if x.contains(k) {
                lemma_before_last(a, b, k);
            }
            if y.contains(k) {
                lemma_before_last(b, a, k);
            }
        }
        lemma_ascending_same(x, y);
        assert(a =~= x.push(a.last()));
        assert(b =~= y.push(b.last()));
    }
}

proof fn lemma_before_last(a: Seq<Seq<char>>, b: Seq<Seq<char>>, k: Seq<char>)
    requires
        a.len() > 0,
        b.len() > 0,
        a.last() == b.last(),
        ascending_keys(a),
        forall|k: Seq<char>| a.contains(k) ==> b.contains(k),
        a.drop_last().contains(k),
    ensures
        b.drop_last().contains(k),
{
    let i = a.drop_last().index_of(k);
    assert(a[i] == k);
    assert(a.contains(k));
    assert(text::precedes(a[i], a[a.len() - 1]));
    text::lemma_precedes_irreflexive(k);
    let j = b.index_of(k);
    assert(b[j] == k);
    assert(b.drop_last()[j] == k);
}

/// A map has only one ascending list of keys.
pub proof fn lemma_ordered_keys<V>(keys: Seq<Seq<char>>, m: Map<Seq<char>, V>)
    requires
        lists_keys(keys, m),
    ensures
        ordered_keys(m) == keys,
{
    let chosen = ordered_keys(m);
    assert(lists_keys(chosen, m));
    assert forall|k: Seq<char>| chosen.contains(k) <==> keys.contains(k) by {
        assert(m.contains_key(k) <==> keys.contains(k));
    }
    lemma_ascending_same(chosen, keys);
}

/// A key can be put in its place.
proof fn lemma_key_placed(keys: Seq<Seq<char>>, k: Seq<char>) -> (r: Seq<Seq<char>>)
    requires
        ascending_keys(keys),
        !keys.contains(k),
    ensures
        ascending_keys(r),
        forall|x: Seq<char>| r.contains(x) <==> keys.contains(x) || x == k,
    decreases keys.len(),
{
    if keys.len() == 0 || text::precedes(keys.last(), k) {
        let r = keys.push(k);
        assert forall|i: int, j: int| 0 <= i < j < r.len() implies text::precedes(
            #[trigger] r[i],
            #[trigger] r[j],
        ) by {
            if j == keys.len() && i < keys.len() - 1 {
                text::lemma_precedes_transitive(keys[i], keys.last(), k);
            }
        }
        assert forall|x: Seq<char>| r.contains(x) <==> keys.contains(x) || x == k by {
            if keys.contains(x) {
                assert(r[keys.index_of(x)] == x);
            }
            assert(r[keys.len() as int] == k);
        }
        r
    } else {
        let front = keys.drop_last();
        let last = keys.last();
        assert(keys.contains(last));
        text::lemma_precedes_total(last, k);
        assert forall|x: Seq<char>| front.contains(x) implies keys.contains(x) by {
            assert(keys[front.index_of(x)] == x);
        }
        let placed = lemma_key_placed(front, k);
        let r = placed.push(last);
        assert forall|i: int, j: int| 0 <= i < j < r.len() implies text::precedes(
            #[trigger] r[i],
            #[trigger] r[j],
        ) by {
            if j == placed.len() {
                assert(placed.contains(r[i]));
                if r[i] != k {
                    let x = front.index_of(r[i]);
                    assert(keys[x] == r[i]);
                    assert(text::precedes(keys[x], keys[keys.len() - 1]));
                }
            }
        }
        assert forall|x: Seq<char>| r.contains(x) <==> keys.contains(x) || x == k by {
            if r.contains(x) && x != last {
                assert(placed.contains(r[r.index_of(x)]));
            }
            if keys.contains(x) && x != last {
                assert(front[keys.index_of(x)] == x);
            }
            if placed.contains(x) {
                assert(r[placed.index_of(x)] == x);
            }
            assert(r[placed.len() as int] == last);
        }
        r
    }
}

/// A finite map has an ascending list of keys.
pub proof fn lemma_keys_listed<V>(m: Map<Seq<char>, V>)
    requires
        m.dom().finite(),
    ensures
        lists_keys(ordered_keys(m), m),
    decreases m.dom().len(),
{
    if m.dom().len() == 0 {
        let keys = Seq::<Seq<char>>::empty();
        assert(lists_keys(keys, m));
    } else {
        let k = m.dom().choose();
        let rest = m.remove(k);
        lemma_keys_listed(rest);
        let keys = lemma_key_placed(ordered_keys(rest), k);
        assert forall|x: Seq<char>| #[trigger] m.contains_key(x) <==> keys.contains(x) by {
            assert(rest.contains_key(x) <==> ordered_keys(rest).contains(x));
        }
        assert(lists_keys(keys, m));
    }
}

proof fn lemma_key_count<V>(keys: Seq<Seq<char>>, m: Map<Seq<char>, V>)
    requires
        lists_keys(keys, m),
    ensures
        m.dom().finite(),
        m.dom().len() == keys.len(),
{
    assert(keys.no_duplicates()) by {
        assert forall|i: int, j: int| 0 <= i < j < keys.len() implies keys[i] != keys[j] by {
            text::lemma_precedes_irreflexive(keys[i]);
        }
    }
    keys.unique_seq_to_set();
    assert(keys.to_set() =~= m.dom());
}

/// A map from text to `V` whose entries are kept in ascending key order.
#[derive(Debug)]
pub struct TextMap<V> {
    entries: Vec<(String, V)>,
}

impl<V> View for TextMap<V> {
    type V = Map<Seq<char>, V>;

    open spec fn view(&self) -> Map<Seq<char>, V> {
        as_map(self.pairs())
    }
}

impl<V> TextMap<V> {
    /// The entries in order.
    pub closed spec fn pairs(&self) -> Seq<(Seq<char>, V)> {
        Seq::new(self.entries@.len(), |i: int| (self.entries@[i].0@, self.entries@[i].1))
    }

    #[verifier::type_invariant]
    spec fn ordered(self) -> bool {
        ascending(self.pairs())
    }

    /// A map without entries.
    pub fn new() -> (r: Self)
        ensures
            r.pairs() == Seq::<(Seq<char>, V)>::empty(),
            r@ == Map::<Seq<char>, V>::empty(),
    {
        let r = TextMap { entries: Vec::new() };
        assert(r.pairs() =~= Seq::<(Seq<char>, V)>::empty());
        assert(r@ =~= Map::<Seq<char>, V>::empty());
        r
    }

    /// How many entries there are.
    pub fn len(&self) -> (r: usize)
        ensures
            r == self.pairs().len(),
            ascending(self.pairs()),
            ordered_keys(self@) == Seq::new(r as nat, |i: int| self.pairs()[i].0),
            lists_keys(ordered_keys(self@), self@),
            self@.dom().finite(),
            self@.dom().len() == r,
    {
        proof {
            use_type_invariant(self);
            let keys = Seq::new(self.pairs().len(), |i: int| self.pairs()[i].0);
            assert forall|k: Seq<char>| #[trigger] self@.contains_key(k) <==> keys.contains(k) by {
                if self@.contains_key(k) {
                    let i = choose|i: int|
                        0 <= i < self.pairs().len() && (#[trigger] self.pairs()[i]).0 == k;
                    assert(keys[i] == k);
                }
                if keys.contains(k) {
                    let i = keys.index_of(k);
                    assert(self.pairs()[i].0 == k);
                }
            }
            lemma_ordered_keys(keys, self@);
            lemma_key_count(keys, self@);
        }
        self.entries.len()
    }

    /// The key of the entry at position `i`.
    pub fn key_at(&self, i: usize) -> (r: &str)
        requires
            i < self.pairs().len(),
        ensures
            r@ == self.pairs()[i as int].0,
    {
        self.entries[i].0.as_str()
    }

    /// The value of the entry at position `i`.
    pub fn value_at(&self, i: usize) -> (r: &V)
        requires
            i < self.pairs().len(),
        ensures
            *r == self.pairs()[i as int].1,
            self@.contains_key(self.pairs()[i as int].0),
            self@[self.pairs()[i as int].0] == *r,
    {
        proof {
            use_type_invariant(self);
            lemma_entry(self.pairs(), i as int);
        }
        &self.entries[i].1
    }

    /// Position of the first entry whose key does not precede `key`.
    fn position(&self, key: &str) -> (r: usize)
        ensures
            r <= self.pairs().len(),
            forall|i: int| 0 <= i < r ==> text::precedes(#[trigger] self.pairs()[i].0, key@),
            r < self.pairs().len() ==> !text::precedes(self.pairs()[r as int].0, key@),
    {
        let mut i: usize = 0;
        while i < self.entries.len() && text::before(self.entries[i].0.as_str(), key)
            invariant
                i <= self.entries.len(),
                self.pairs().len() == self.entries.len(),
                forall|j: int| 0 <= j < i ==> text::precedes(#[trigger] self.pairs()[j].0, key@),
            decreases self.entries.len() - i,
        {
            i += 1;
        }
        i
    }

    /// The value that `key` is mapped to.
    pub fn get(&self, key: &str) -> (r: Option<&V>)
        ensures
            match r {
                Some(v) => self@.contains_key(key@) && *v == self@[key@],
                None => !self@.contains_key(key@),
            },
    {
        proof {
            use_type_invariant(self);
        }
        let i: usize = self.position(key);
        if i < self.entries.len() && text::same(self.entries[i].0.as_str(), key) {
            proof {
                lemma_entry(self.pairs(), i as int);
            }
            Some(&self.entries[i].1)
        } else {
            proof {
                lemma_absent(self.pairs(), key@, i as int);
            }
            None
        }
    }

    /// Whether `key` has an entry.
    pub fn contains_key(&self, key: &str) -> (r: bool)
        ensures
            r == self@.contains_key(key@),
    {
        self.get(key).is_some()
    }

    /// Maps `key` to `value`, and gives back what it was mapped to before.
    pub fn insert(&mut self, key: String, value: V) -> (r: Option<V>)
        ensures
            final(self)@ == old(self)@.insert(key@, value),
            r == (if old(self)@.contains_key(key@) {
                Some(old(self)@[key@])
            } else {
                None
            }),
    {
        proof {
            use_type_invariant(&*self);
        }
        let ghost before = self.pairs();
        let i: usize = self.position(key.as_str());
        let known: bool = i < self.entries.len() && text::same(
            self.entries[i].0.as_str(),
            key.as_str(),
        );
        let ghost k = key@;
        let mut entries: Vec<(String, V)> = Vec::new();
        std::mem::swap(&mut entries, &mut self.entries);
        let mut r: Option<V> = None;
        if known {
            proof {
                lemma_entry(before, i as int);
            }
            let (_, old_value) = entries.remove(i);
            r = Some(old_value);
        } else {
            proof {
                lemma_absent(before, k, i as int);
            }
        }
        entries.insert(i, (key, value));
        proof {
            let after = Seq::new(entries@.len(), |j: int| (entries@[j].0@, entries@[j].1));
            if known {
                assert(after =~= before.update(i as int, (k, value)));
            } else {
                assert(after =~= before.insert(i as int, (k, value)));
            }
            lemma_placed(before, k, value, i as int, known);
        }
        self.entries = entries;
        assert(self.pairs() =~= Seq::new(entries@.len(), |j: int| (entries@[j].0@, entries@[j].1)));
        r
    }
}

proof fn lemma_absent<V>(pairs: Seq<(Seq<char>, V)>, key: Seq<char>, i: int)
    requires
        ascending(pairs),
        0 <= i <= pairs.len(),
        forall|j: int| 0 <= j < i ==> text::precedes(#[trigger] pairs[j].0, key),
        i < pairs.len() ==> !text::precedes(pairs[i].0, key) && pairs[i].0 != key,
    ensures
        !has_key(pairs, key),
        forall|j: int| i <= j < pairs.len() ==> text::precedes(key, #[trigger] pairs[j].0),
{
    text::lemma_precedes_irreflexive(key);
    assert forall|j: int| i <= j < pairs.len() implies text::precedes(
        key,
        #[trigger] pairs[j].0,
    ) by {
        text::lemma_precedes_total(pairs[i].0, key);
        if j > i {
            text::lemma_precedes_transitive(key, pairs[i].0, pairs[j].0);
        }
    }
}

/// Placing an entry where its key belongs keeps the order and maps the key.
#[verifier::spinoff_prover]
#[verifier::rlimit(40)]
proof fn lemma_placed<V>(
    pairs: Seq<(Seq<char>, V)>,
    key: Seq<char>,
    value: V,
    i: int,
    known: bool,
)
    requires
        ascending(pairs),
        0 <= i <= pairs.len(),
        known ==> i < pairs.len() && pairs[i].0 == key,
        !known ==> !has_key(pairs, key),
        !known ==> forall|j: int| 0 <= j < i ==> text::precedes(#[trigger] pairs[j].0, key),
        !known ==> forall|j: int|
            i <= j < pairs.len() ==> text::precedes(key, #[trigger] pairs[j].0),
    ensures
        ({
            let after = if known {
                pairs.update(i, (key, value))
            } else {
                pairs.insert(i, (key, value))
            };
            &&& ascending(after)
            &&& as_map(after) == as_map(pairs).insert(key, value)
        }),
{
    let after = if known {
        pairs.update(i, (key, value))
    } else {
        pairs.insert(i, (key, value))
    };
    assert(after[i] == (key, value));
    assert(ascending(after));
    lemma_entry(after, i);
    assert forall|k: Seq<char>| has_key(after, k) == (has_key(pairs, k) || k == key) by {
        if has_key(after, k) {
            let j = choose|j: int| 0 <= j < after.len() && (#[trigger] after[j]).0 == k;
            if k != key {
                if known || j < i {
                    assert(pairs[j].0 == k);
                } else {
                    assert(pairs[j - 1].0 == k);
                }
            }
        }
        if has_key(pairs, k) {
            let j = choose|j: int| 0 <= j < pairs.len() && (#[trigger] pairs[j]).0 == k;
            if known || j < i {
                assert(after[j].0 == k);
            } else {
                assert(after[j + 1].0 == k);
            }
        }
        if k == key {
            assert(after[i].0 == k);
        }
    }
    assert forall|k: Seq<char>| k != key && has_key(pairs, k) implies as_map(after)[k] == as_map(
        pairs,
    )[k] by {
        let j = choose|j: int| 0 <= j < pairs.len() && (#[trigger] pairs[j]).0 == k;
        lemma_entry(pairs, j);
        if known || j < i {
            assert(after[j] == pairs[j]);
            lemma_entry(after, j);
        } else {
            assert(after[j + 1] == pairs[j]);
            lemma_entry(after, j + 1);
        }
    }
    assert(as_map(after) =~= as_map(pairs).insert(key, value));
}

/// Whether `copy` has the entries of `pairs`, each value cloned.
pub open spec fn entries_cloned<V: Clone>(
    pairs: Seq<(Seq<char>, V)>,
    copy: Seq<(Seq<char>, V)>,
) -> bool {
    &&& copy.len() == pairs.len()
    &&& forall|i: int|
        0 <= i < pairs.len() ==> (#[trigger] copy[i]).0 == pairs[i].0 && cloned(
            pairs[i].1,
            copy[i].1,
        )
}

impl<V: Clone> Clone for TextMap<V> {
    fn clone(&self) -> (r: Self)
        ensures
            entries_cloned(self.pairs(), r.pairs()),
    {
        proof {
            use_type_invariant(self);
        }
        let mut entries: Vec<(String, V)> = Vec::new();
        for i in 0..self.entries.len()
            invariant
                entries@.len() == i,
                forall|j: int|
                    0 <= j < i ==> (#[trigger] entries@[j]).0@ == self.entries@[j].0@ && cloned(
                        self.entries@[j].1,
                        entries@[j].1,
                    ),
        {
            entries.push((self.entries[i].0.clone(), self.entries[i].1.clone()));
        }
        proof {
            let copy = Seq::new(entries@.len(), |j: int| (entries@[j].0@, entries@[j].1));
            assert forall|a: int, b: int| 0 <= a < b < copy.len() implies text::precedes(
                #[trigger] copy[a].0,
                #[trigger] copy[b].0,
            ) by {
                assert(copy[a].0 == self.pairs()[a].0);
                assert(copy[b].0 == self.pairs()[b].0);
            }
        }
        let r = TextMap { entries };
        assert forall|i: int| 0 <= i < self.pairs().len() implies (#[trigger] r.pairs()[i]).0
            == self.pairs()[i].0 && cloned(self.pairs()[i].1, r.pairs()[i].1) by {
            assert(entries@[i].0@ == self.entries@[i].0@);
        }
        r
    }
}

impl<V> TextMap<V> {
    /// The values, in order of their keys.
    pub fn into_values(self) -> (r: Vec<V>)
        ensures
            r@.len() == self.pairs().len(),
            forall|i: int| 0 <= i < r@.len() ==> #[trigger] r@[i] == self.pairs()[i].1,
    {
        let ghost before = self.entries@;
        let mut rest: Vec<(String, V)> = self.entries;
        let mut r: Vec<V> = Vec::new();
        while rest.len() > 0
            invariant
                rest@.len() + r@.len() == before.len(),
                rest@ == before.skip(r@.len() as int),
                forall|i: int| 0 <= i < r@.len() ==> #[trigger] r@[i] == before[i].1,
            decreases rest@.len(),
        {
            let (_, value) = rest.remove(0);
            r.push(value);
            assert(rest@ =~= before.skip(r@.len() as int));
        }
        r
    }
}

} // verus!
