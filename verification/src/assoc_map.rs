//! A map held as a list of entries, in which no key occurs twice.

use vstd::prelude::*;

verus! {

/// What a map needs of its keys: to tell two of them apart and to copy one.
/// Keys count as the same when their views are equal.
pub trait Key: View + Sized {
    fn same(&self, other: &Self) -> (res: bool)
        ensures
            res == (self@ == other@),
    ;

    fn duplicate(&self) -> (res: Self)
        ensures
            res@ == self@,
    ;
}

impl Key for String {
    fn same(&self, other: &Self) -> (res: bool) {
        *self == *other
    }

    fn duplicate(&self) -> (res: Self) {
        self.clone()
    }
}

/// The map that results from inserting the entries one after the other.
pub open spec fn entries_map<K: Key, V>(entries: Seq<(K, V)>) -> Map<K::V, V>
    decreases entries.len(),
{
    if entries.len() == 0 {
        Map::empty()
    } else {
        entries_map(entries.drop_last()).insert(entries.last().0@, entries.last().1)
    }
}

/// No two entries have the same key.
pub open spec fn distinct_keys<K: Key, V>(entries: Seq<(K, V)>) -> bool {
    forall|i: int, j: int|
        0 <= i < j < entries.len() ==> #[trigger] entries[i].0@ != #[trigger] entries[j].0@
}

/// `keys` lists the members of `dom`, each of them once.
pub open spec fn lists_once<K: Key>(keys: Seq<K>, dom: Set<K::V>) -> bool {
    &&& forall|i: int, j: int|
        #![trigger keys[i], keys[j]]
        0 <= i < j < keys.len() ==> keys[i]@ != keys[j]@
    &&& forall|i: int| #![trigger keys[i]] 0 <= i < keys.len() ==> dom.contains(keys[i]@)
    &&& forall|k: K::V| #[trigger]
        dom.contains(k) ==> exists|i: int|
            #![trigger keys[i]]
            0 <= i < keys.len() && keys[i]@ == k
}

/// A key is in the map exactly when an entry has it.
pub proof fn lemma_entries_dom<K: Key, V>(entries: Seq<(K, V)>, k: K::V)
    ensures
        entries_map(entries).contains_key(k) <==> exists|i: int|
            0 <= i < entries.len() && #[trigger] entries[i].0@ == k,
    decreases entries.len(),
{
    if entries.len() > 0 {
        let rest = entries.drop_last();
        lemma_entries_dom(rest, k);
        if exists|i: int| 0 <= i < rest.len() && #[trigger] rest[i].0@ == k {
            let i = choose|i: int| 0 <= i < rest.len() && #[trigger] rest[i].0@ == k;
            assert(entries[i].0@ == k);
        }
        if exists|i: int| 0 <= i < entries.len() && #[trigger] entries[i].0@ == k {
            let i = choose|i: int| 0 <= i < entries.len() && #[trigger] entries[i].0@ == k;
            if i < rest.len() {
                assert(rest[i].0@ == k);
            }
        }
        assert(entries[entries.len() - 1].0@ == entries.last().0@);
    }
}

/// All entries but the last have distinct keys if all have.
proof fn lemma_distinct_prefix<K: Key, V>(entries: Seq<(K, V)>)
    requires
        distinct_keys(entries),
        entries.len() > 0,
    ensures
        distinct_keys(entries.drop_last()),
{
    let rest = entries.drop_last();
    assert forall|a: int, b: int| 0 <= a < b < rest.len() implies #[trigger] rest[a].0@
        != #[trigger] rest[b].0@ by {
        assert(entries[a].0@ != entries[b].0@);
    }
}

/// The entry that has a key holds the value of that key.
pub proof fn lemma_entries_value<K: Key, V>(entries: Seq<(K, V)>, i: int)
    requires
        distinct_keys(entries),
        0 <= i < entries.len(),
    ensures
        entries_map(entries).contains_key(entries[i].0@),
        entries_map(entries)[entries[i].0@] == entries[i].1,
    decreases entries.len(),
{
    if i < entries.len() - 1 {
        let rest = entries.drop_last();
        assert(rest[i] == entries[i]);
        lemma_distinct_prefix(entries);
        lemma_entries_value(rest, i);
        assert(entries[i].0@ != entries[entries.len() - 1].0@);
    }
}

/// Of the entries that have a key the last one holds the value of that key.
pub proof fn lemma_entries_last<K: Key, V>(entries: Seq<(K, V)>, i: int)
    requires
        0 <= i < entries.len(),
        forall|j: int| i < j < entries.len() ==> (#[trigger] entries[j]).0@ != entries[i].0@,
    ensures
        entries_map(entries).contains_key(entries[i].0@),
        entries_map(entries)[entries[i].0@] == entries[i].1,
    decreases entries.len(),
{
    if i < entries.len() - 1 {
        let rest = entries.drop_last();
        assert forall|j: int| i < j < rest.len() implies (#[trigger] rest[j]).0@ != rest[i].0@ by {
            assert(entries[j].0@ != entries[i].0@);
        }
        lemma_entries_last(rest, i);
        assert(entries[entries.len() - 1].0@ != entries[i].0@);
    }
}

/// Putting a new value into an entry changes the map at that key alone.
proof fn lemma_entries_update<K: Key, V>(entries: Seq<(K, V)>, i: int, key: K, value: V)
    requires
        distinct_keys(entries),
        0 <= i < entries.len(),
        key@ == entries[i].0@,
    ensures
        distinct_keys(entries.update(i, (key, value))),
        entries_map(entries.update(i, (key, value))) == entries_map(entries).insert(key@, value),
{
    let after = entries.update(i, (key, value));
    assert forall|a: int| 0 <= a < entries.len() implies #[trigger] after[a].0@
        == entries[a].0@ by {}
    assert(distinct_keys(after)) by {
        assert forall|a: int, b: int| 0 <= a < b < after.len() implies #[trigger] after[a].0@
            != #[trigger] after[b].0@ by {
            assert(entries[a].0@ != entries[b].0@);
        }
    }
    let lhs = entries_map(after);
    let rhs = entries_map(entries).insert(key@, value);
    assert forall|k: K::V| #[trigger] lhs.contains_key(k) == rhs.contains_key(k) by {
        lemma_entries_dom(after, k);
        lemma_entries_dom(entries, k);
        if lhs.contains_key(k) {
            let j = choose|j: int| 0 <= j < after.len() && #[trigger] after[j].0@ == k;
            assert(entries[j].0@ == k);
        }
        if rhs.contains_key(k) {
            if k == key@ {
                assert(after[i].0@ == k);
            } else {
                let j = choose|j: int| 0 <= j < entries.len() && #[trigger] entries[j].0@ == k;
                assert(after[j].0@ == k);
            }
        }
    }
    assert forall|k: K::V| #[trigger] lhs.contains_key(k) implies lhs[k] == rhs[k] by {
        lemma_entries_dom(after, k);
        let j = choose|j: int| 0 <= j < after.len() && #[trigger] after[j].0@ == k;
        lemma_entries_value(after, j);
        lemma_entries_value(entries, j);
        if j != i {
            if j < i {
                assert(entries[j].0@ != entries[i].0@);
            } else {
                assert(entries[i].0@ != entries[j].0@);
            }
        }
    }
    assert(lhs =~= rhs);
}

/// Taking an entry out takes its key out of the map, and nothing else.
proof fn lemma_entries_remove<K: Key, V>(entries: Seq<(K, V)>, i: int)
    requires
        distinct_keys(entries),
        0 <= i < entries.len(),
    ensures
        distinct_keys(entries.remove(i)),
        entries_map(entries.remove(i)) == entries_map(entries).remove(entries[i].0@),
{
    let after = entries.remove(i);
    assert forall|a: int| 0 <= a < after.len() implies #[trigger] after[a] == entries[if a < i {
        a
    } else {
        a + 1
    }] by {}
    assert(distinct_keys(after)) by {
        assert forall|a: int, b: int| 0 <= a < b < after.len() implies #[trigger] after[a].0@
            != #[trigger] after[b].0@ by {
            let x = if a < i { a } else { a + 1 };
            let y = if b < i { b } else { b + 1 };
            assert(entries[x].0@ != entries[y].0@);
        }
    }
    let lhs = entries_map(after);
    let rhs = entries_map(entries).remove(entries[i].0@);
    assert forall|k: K::V| #[trigger] lhs.contains_key(k) == rhs.contains_key(k) by {
        lemma_entries_dom(after, k);
        lemma_entries_dom(entries, k);
        if lhs.contains_key(k) {
            let j = choose|j: int| 0 <= j < after.len() && #[trigger] after[j].0@ == k;
            let x = if j < i { j } else { j + 1 };
            assert(entries[x].0@ == k);
            if x < i {
                assert(entries[x].0@ != entries[i].0@);
            } else {
                assert(entries[i].0@ != entries[x].0@);
            }
        }
        if rhs.contains_key(k) {
            let j = choose|j: int| 0 <= j < entries.len() && #[trigger] entries[j].0@ == k;
            let x = if j < i { j } else { j - 1 };
            assert(after[x].0@ == k);
        }
    }
    assert forall|k: K::V| #[trigger] lhs.contains_key(k) implies lhs[k] == rhs[k] by {
        lemma_entries_dom(after, k);
        let j = choose|j: int| 0 <= j < after.len() && #[trigger] after[j].0@ == k;
        let x = if j < i { j } else { j + 1 };
        lemma_entries_value(after, j);
        lemma_entries_value(entries, x);
    }
    assert(lhs =~= rhs);
}

/// A map from keys to values. Its view is the mathematical map.
#[verifier::reject_recursive_types(K)]
pub struct AssocMap<K: Key, V> {
    entries: Vec<(K, V)>,
}

impl<K: Key, V> View for AssocMap<K, V> {
    type V = Map<K::V, V>;

    closed spec fn view(&self) -> Map<K::V, V> {
        entries_map(self.entries@)
    }
}

impl<K: Key, V> AssocMap<K, V> {
    #[verifier::type_invariant]
    closed spec fn wf(self) -> bool {
        distinct_keys(self.entries@)
    }

    /// The keys in the order in which the map lists them.
    pub closed spec fn order(&self) -> Seq<K::V> {
        Seq::new(self.entries@.len(), |i: int| self.entries@[i].0@)
    }

    /// The empty map.
    pub fn new() -> (res: Self)
        ensures
            res@ == Map::<K::V, V>::empty(),
            res.order().len() == 0,
    {
        AssocMap { entries: Vec::new() }
    }

    /// The map that results from inserting the entries one after the other.
    pub fn from_entries(entries: Vec<(K, V)>) -> (res: Self)
        ensures
            res@ == entries_map(entries@),
    {
        let mut rest = entries;
        let mut reversed: Vec<(K, V)> = Vec::new();
        let ghost all = rest@;
        while rest.len() > 0
            invariant
                rest@.len() <= all.len(),
                rest@ == all.take(rest@.len() as int),
                reversed@.len() == all.len() - rest@.len(),
                forall|i: int|
                    0 <= i < reversed@.len() ==> #[trigger] reversed@[i] == all[all.len() - 1 - i],
            decreases rest@.len(),
        {
            if let Some(entry) = rest.pop() {
                reversed.push(entry);
            }
        }
        let mut res = AssocMap::new();
        assert(all.take(0) =~= Seq::<(K, V)>::empty());
        while reversed.len() > 0
            invariant
                reversed@.len() <= all.len(),
                forall|i: int|
                    0 <= i < reversed@.len() ==> #[trigger] reversed@[i] == all[all.len() - 1 - i],
                res@ == entries_map(all.take(all.len() - reversed@.len())),
            decreases reversed@.len(),
        {
            let ghost n = all.len() - reversed@.len();
            if let Some(entry) = reversed.pop() {
                assert(all.take(n + 1).drop_last() =~= all.take(n));
                assert(all.take(n + 1).last() == entry);
                res.insert(entry.0, entry.1);
            }
        }
        assert(all.take(all.len() as int) =~= all);
        res
    }

    /// The number of keys.
    pub fn len(&self) -> (res: usize)
        ensures
            res == self.order().len(),
            res == self@.dom().len(),
            self@.dom().finite(),
            self.order().no_duplicates(),
            self.order().to_set() == self@.dom(),
    {
        proof {
            use_type_invariant(self);
            lemma_entries_len(self.entries@);
            assert(self.order().no_duplicates()) by {
                assert forall|i: int, j: int|
                    0 <= i < self.order().len() && 0 <= j < self.order().len() && i
                        != j implies self.order()[i] != self.order()[j] by {
                    if i < j {
                        assert(self.entries@[i].0@ != self.entries@[j].0@);
                    } else {
                        assert(self.entries@[j].0@ != self.entries@[i].0@);
                    }
                }
            }
            assert forall|k: K::V| #[trigger]
                self.order().contains(k) == self@.dom().contains(k) by {
                lemma_entries_dom(self.entries@, k);
                if self.order().contains(k) {
                    let i = choose|i: int|
                        0 <= i < self.order().len() && self.order()[i] == k;
                    assert(self.entries@[i].0@ == k);
                }
                if self@.dom().contains(k) {
                    let i = choose|i: int|
                        0 <= i < self.entries@.len() && #[trigger] self.entries@[i].0@ == k;
                    assert(self.order()[i] == k);
                }
            }
            assert(self.order().to_set() =~= self@.dom());
        }
        self.entries.len()
    }

    /// The position of a key in the list of entries.
    fn find(&self, key: &K) -> (res: Option<usize>)
        ensures
            match res {
                Some(i) => i < self.entries@.len() && self.entries@[i as int].0@ == key@,
                None => !self@.contains_key(key@),
            },
    {
        for i in 0..self.entries.len()
            invariant
                forall|j: int| 0 <= j < i ==> #[trigger] self.entries@[j].0@ != key@,
        {
            if self.entries[i].0.same(key) {
                return Some(i);
            }
        }
        proof {
            lemma_entries_dom(self.entries@, key@);
        }
        None
    }

    /// Whether the map has the key.
    pub fn contains_key(&self, key: &K) -> (res: bool)
        ensures
            res == self@.contains_key(key@),
    {
        match self.find(key) {
            Some(i) => {
                proof {
                    use_type_invariant(self);
                    lemma_entries_value(self.entries@, i as int);
                }
                true
            },
            None => false,
        }
    }

    /// The value of a key.
    pub fn get(&self, key: &K) -> (res: Option<&V>)
        ensures
            match res {
                Some(value) => self@.contains_key(key@) && *value == self@[key@],
                None => !self@.contains_key(key@),
            },
    {
        match self.find(key) {
            Some(i) => {
                proof {
                    use_type_invariant(self);
                    lemma_entries_value(self.entries@, i as int);
                }
                Some(&self.entries[i].1)
            },
            None => None,
        }
    }

    /// The key at a position of the order.
    pub fn key_at(&self, i: usize) -> (res: &K)
        requires
            i < self.order().len(),
        ensures
            res@ == self.order()[i as int],
            self@.contains_key(res@),
    {
        proof {
            use_type_invariant(self);
            lemma_entries_value(self.entries@, i as int);
        }
        &self.entries[i].0
    }

    /// The value at a position of the order.
    pub fn value_at(&self, i: usize) -> (res: &V)
        requires
            i < self.order().len(),
        ensures
            self@.contains_key(self.order()[i as int]),
            *res == self@[self.order()[i as int]],
    {
        proof {
            use_type_invariant(self);
            lemma_entries_value(self.entries@, i as int);
        }
        &self.entries[i].1
    }

    /// All keys, each once.
    pub fn keys(&self) -> (res: Vec<K>)
        ensures
            lists_once(res@, self@.dom()),
            res@.len() == self@.dom().len(),
            res@.len() == self.order().len(),
            forall|i: int| 0 <= i < res@.len() ==> (#[trigger] res@[i])@ == self.order()[i],
    {
        let mut res: Vec<K> = Vec::new();
        for i in 0..self.entries.len()
            invariant
                res@.len() == i,
                forall|j: int| 0 <= j < i ==> (#[trigger] res@[j])@ == self.entries@[j].0@,
        {
            res.push(self.entries[i].0.duplicate());
        }
        proof {
            use_type_invariant(self);
            lemma_entries_len(self.entries@);
            lemma_entries_listed(self.entries@, res@);
        }
        res
    }

    /// Gives a key a value, in place of the value that it may have had.
    pub fn insert(&mut self, key: K, value: V)
        ensures
            final(self)@ == old(self)@.insert(key@, value),
    {
        proof {
            use_type_invariant(&*self);
        }
        let ghost before = self.entries@;
        let found = self.find(&key);
        let mut entries: Vec<(K, V)> = Vec::new();
        std::mem::swap(&mut entries, &mut self.entries);
        match found {
            Some(i) => {
                proof {
                    lemma_entries_update(before, i as int, key, value);
                }
                entries.set(i, (key, value));
            },
            None => {
                proof {
                    lemma_entries_push(before, key, value);
                }
                entries.push((key, value));
            },
        }
        self.entries = entries;
    }

    /// Takes a key out, and hands out the value that it had.
    pub fn remove(&mut self, key: &K) -> (res: Option<V>)
        ensures
            final(self)@ == old(self)@.remove(key@),
            match res {
                Some(value) => old(self)@.contains_key(key@) && value == old(self)@[key@],
                None => !old(self)@.contains_key(key@),
            },
    {
        proof {
            use_type_invariant(&*self);
        }
        let ghost before = self.entries@;
        match self.find(key) {
            Some(i) => {
                proof {
                    lemma_entries_value(before, i as int);
                    lemma_entries_remove(before, i as int);
                }
                let mut entries: Vec<(K, V)> = Vec::new();
                std::mem::swap(&mut entries, &mut self.entries);
                let entry = entries.remove(i);
                self.entries = entries;
                Some(entry.1)
            },
            None => {
                assert(self@ =~= old(self)@.remove(key@));
                None
            },
        }
    }

    /// A map with the same keys and with clones of the values.
    pub fn duplicate(&self) -> (res: Self) where V: Clone
        ensures
            res@.dom() == self@.dom(),
            forall|k: K::V| #[trigger]
                self@.contains_key(k) ==> cloned::<V>(self@[k], res@[k]),
    {
        proof {
            use_type_invariant(self);
        }
        let mut res: AssocMap<K, V> = AssocMap::new();
        for i in 0..self.entries.len()
            invariant
                distinct_keys(self.entries@),
                forall|k: K::V| #[trigger]
                    res@.contains_key(k) <==> exists|j: int|
                        0 <= j < i && #[trigger] self.entries@[j].0@ == k,
                forall|j: int|
                    0 <= j < i ==> cloned::<V>(
                        self.entries@[j].1,
                        res@[#[trigger] self.entries@[j].0@],
                    ),
        {
            let value = self.entries[i].1.clone();
            res.insert(self.entries[i].0.duplicate(), value);
        }
        proof {
            assert forall|k: K::V| #[trigger] self@.contains_key(k) implies res@.contains_key(k)
                && cloned::<V>(self@[k], res@[k]) by {
                lemma_entries_dom(self.entries@, k);
                let j = choose|j: int|
                    0 <= j < self.entries@.len() && #[trigger] self.entries@[j].0@ == k;
                lemma_entries_value(self.entries@, j);
            }
            assert forall|k: K::V| #[trigger] res@.contains_key(k) implies self@.contains_key(
                k,
            ) by {
                lemma_entries_dom(self.entries@, k);
            }
            assert(res@.dom() =~= self@.dom());
        }
        res
    }

    /// Empties the map, and hands out its entries.
    pub fn drain(&mut self) -> (res: Vec<(K, V)>)
        ensures
            final(self)@ == Map::<K::V, V>::empty(),
            distinct_keys(res@),
            entries_map(res@) == old(self)@,
    {
        proof {
            use_type_invariant(&*self);
        }
        let mut entries: Vec<(K, V)> = Vec::new();
        std::mem::swap(&mut entries, &mut self.entries);
        entries
    }
}

/// Appending an entry with a new key adds that key to the map.
proof fn lemma_entries_push<K: Key, V>(entries: Seq<(K, V)>, key: K, value: V)
    requires
        distinct_keys(entries),
        !entries_map(entries).contains_key(key@),
    ensures
        distinct_keys(entries.push((key, value))),
        entries_map(entries.push((key, value))) == entries_map(entries).insert(key@, value),
{
    let after = entries.push((key, value));
    assert(after.drop_last() =~= entries);
    lemma_entries_dom(entries, key@);
    assert forall|a: int, b: int| 0 <= a < b < after.len() implies #[trigger] after[a].0@
        != #[trigger] after[b].0@ by {
        assert(after[a] == entries[a]);
        if b < entries.len() {
            assert(entries[a].0@ != entries[b].0@);
        }
    }
}

/// With distinct keys there are as many keys as entries.
proof fn lemma_entries_len<K: Key, V>(entries: Seq<(K, V)>)
    requires
        distinct_keys(entries),
    ensures
        entries_map(entries).dom().finite(),
        entries_map(entries).dom().len() == entries.len(),
    decreases entries.len(),
{
    if entries.len() > 0 {
        let rest = entries.drop_last();
        lemma_distinct_prefix(entries);
        lemma_entries_len(rest);
        lemma_entries_dom(rest, entries.last().0@);
        assert(!entries_map(rest).contains_key(entries.last().0@)) by {
            if entries_map(rest).contains_key(entries.last().0@) {
                let i = choose|i: int|
                    0 <= i < rest.len() && #[trigger] rest[i].0@ == entries.last().0@;
                assert(entries[i].0@ != entries[entries.len() - 1].0@);
            }
        }
        assert(entries_map(entries).dom() =~= entries_map(rest).dom().insert(
            entries.last().0@,
        ));
    } else {
        assert(entries_map(entries).dom() =~= Set::<K::V>::empty());
    }
}

/// The keys of the entries list the keys of the map, each once.
proof fn lemma_entries_listed<K: Key, V>(entries: Seq<(K, V)>, keys: Seq<K>)
    requires
        distinct_keys(entries),
        keys.len() == entries.len(),
        forall|i: int| 0 <= i < keys.len() ==> (#[trigger] keys[i])@ == entries[i].0@,
    ensures
        lists_once(keys, entries_map(entries).dom()),
{
    let dom = entries_map(entries).dom();
    assert forall|i: int, j: int| 0 <= i < j < keys.len() implies (#[trigger] keys[i])@
        != (#[trigger] keys[j])@ by {
        assert(entries[i].0@ != entries[j].0@);
    }
    assert forall|i: int| 0 <= i < keys.len() implies dom.contains((#[trigger] keys[i])@) by {
        lemma_entries_value(entries, i);
    }
    assert forall|k: K::V| #[trigger] dom.contains(k) implies exists|i: int|
        #![trigger keys[i]]
        0 <= i < keys.len() && keys[i]@ == k by {
        lemma_entries_dom(entries, k);
        let i = choose|i: int| 0 <= i < entries.len() && #[trigger] entries[i].0@ == k;
        assert(keys[i]@ == k);
    }
}

} // verus!
