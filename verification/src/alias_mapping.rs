//! The aliases and the collections that they stand for.

use crate::assoc_map::{lists_once, AssocMap};
use crate::errors::{alias_missing_error, StorageError};
use vstd::prelude::*;

verus! {

/// A map from aliases to names of collections.
pub struct AliasMapping {
    aliases: AssocMap<String, String>,
}

impl View for AliasMapping {
    type V = Map<Seq<char>, Seq<char>>;

    closed spec fn view(&self) -> Map<Seq<char>, Seq<char>> {
        self.aliases@.map_values(|target: String| target@)
    }
}

/// The aliases that stand for a collection.
pub open spec fn aliases_of(
    aliases: Map<Seq<char>, Seq<char>>,
    collection_name: Seq<char>,
) -> Set<Seq<char>> {
    Set::new(|alias: Seq<char>| aliases.contains_key(alias) && aliases[alias] == collection_name)
}

/// `res` holds the keys among the first `n` that are in `set`, and `at` says where they
/// stand in `keys`.
spec fn picks(
    keys: Seq<String>,
    set: Set<Seq<char>>,
    n: int,
    res: Seq<String>,
    at: Seq<int>,
) -> bool {
    &&& at.len() == res.len()
    &&& forall|a: int|
        0 <= a < at.len() ==> 0 <= #[trigger] at[a] < n && res[a]@ == keys[at[a]]@
            && set.contains(res[a]@)
    &&& forall|a: int, b: int| 0 <= a < b < at.len() ==> at[a] < at[b]
    &&& forall|j: int|
        0 <= j < n && set.contains((#[trigger] keys[j])@) ==> at.contains(j)
}

/// What looking at one more key does.
proof fn lemma_picks_step(
    keys: Seq<String>,
    set: Set<Seq<char>>,
    n: int,
    res: Seq<String>,
    at: Seq<int>,
)
    requires
        0 <= n < keys.len(),
        picks(keys, set, n, res, at),
    ensures
        !set.contains(keys[n]@) ==> picks(keys, set, n + 1, res, at),
        forall|key: String|
            set.contains(keys[n]@) && key@ == keys[n]@ ==> #[trigger] picks(
                keys,
                set,
                n + 1,
                res.push(key),
                at.push(n),
            ),
{
    assert forall|key: String| set.contains(keys[n]@) && key@ == keys[n]@ implies #[trigger] picks(
        keys,
        set,
        n + 1,
        res.push(key),
        at.push(n),
    ) by {
        let at2 = at.push(n);
        assert forall|j: int|
            0 <= j < n + 1 && set.contains((#[trigger] keys[j])@) implies at2.contains(j) by {
            if j < n {
                let a = choose|a: int| 0 <= a < at.len() && at[a] == j;
                assert(at2[a] == j);
            } else {
                assert(at2[at.len() as int] == j);
            }
        }
    }
}

/// What the picked keys are once all keys have been looked at.
proof fn lemma_picks_all(
    keys: Seq<String>,
    dom: Set<Seq<char>>,
    set: Set<Seq<char>>,
    res: Seq<String>,
    at: Seq<int>,
)
    requires
        lists_once(keys, dom),
        set.subset_of(dom),
        picks(keys, set, keys.len() as int, res, at),
    ensures
        lists_once(res, set),
{
    assert forall|a: int, b: int| 0 <= a < b < res.len() implies (#[trigger] res[a])@ != (
    #[trigger] res[b])@ by {
        assert(at[a] < at[b]);
        assert(keys[at[a]]@ != keys[at[b]]@);
    }
    assert forall|a: int| 0 <= a < res.len() implies set.contains((#[trigger] res[a])@) by {
        assert(0 <= at[a]);
    }
    assert forall|k: Seq<char>| #[trigger] set.contains(k) implies exists|a: int|
        #![trigger res[a]]
        0 <= a < res.len() && res[a]@ == k by {
        assert(dom.contains(k));
        let j = choose|j: int| #![trigger keys[j]] 0 <= j < keys.len() && keys[j]@ == k;
        assert(at.contains(j));
        let a = choose|a: int| 0 <= a < at.len() && at[a] == j;
        assert(res[a]@ == k);
    }
}

impl AliasMapping {
    /// No aliases.
    pub fn new() -> (res: Self)
        ensures
            res@ == Map::<Seq<char>, Seq<char>>::empty(),
    {
        let res = AliasMapping { aliases: AssocMap::new() };
        assert(res@ =~= Map::<Seq<char>, Seq<char>>::empty());
        res
    }

    /// The collection that an alias stands for.
    pub fn get(&self, alias: &str) -> (res: Option<String>)
        ensures
            match res {
                Some(target) => self@.contains_key(alias@) && target@ == self@[alias@],
                None => !self@.contains_key(alias@),
            },
    {
        match self.aliases.get(&alias.to_owned()) {
            Some(target) => Some(target.clone()),
            None => None,
        }
    }

    /// Lets an alias stand for a collection, whatever it stood for before.
    pub fn insert(&mut self, alias: String, collection_name: String)
        ensures
            final(self)@ == old(self)@.insert(alias@, collection_name@),
    {
        let ghost before = self@;
        self.aliases.insert(alias, collection_name);
        assert(self@ =~= before.insert(alias@, collection_name@));
    }

    /// Takes an alias away, if it is there.
    pub fn remove(&mut self, alias: &str)
        ensures
            final(self)@ == old(self)@.remove(alias@),
    {
        let ghost before = self@;
        let _ = self.aliases.remove(&alias.to_owned());
        assert(self@ =~= before.remove(alias@));
    }

    /// Gives an alias another name. It goes on to stand for its collection.
    pub fn rename_alias(&mut self, old_alias_name: &str, new_alias_name: String) -> (res: Result<
        (),
        StorageError,
    >)
        ensures
            match res {
                Ok(_) => {
                    &&& old(self)@.contains_key(old_alias_name@)
                    &&& final(self)@ == old(self)@.remove(old_alias_name@).insert(
                        new_alias_name@,
                        old(self)@[old_alias_name@],
                    )
                },
                Err(e) => {
                    &&& !old(self)@.contains_key(old_alias_name@)
                    &&& final(self)@ == old(self)@
                    &&& e@ == alias_missing_error(old_alias_name@)
                },
            },
    {
        match self.get(old_alias_name) {
            Some(target) => {
                self.remove(old_alias_name);
                self.insert(new_alias_name, target);
                Ok(())
            },
            None => Err(StorageError::alias_missing(old_alias_name)),
        }
    }

    /// The aliases of a collection, each once.
    pub fn collection_aliases(&self, collection_name: &str) -> (res: Vec<String>)
        ensures
            lists_once(res@, aliases_of(self@, collection_name@)),
    {
        let name = collection_name.to_owned();
        let keys = self.aliases.keys();
        let mut res: Vec<String> = Vec::new();
        // Where in `keys` each alias of `res` stands.
        let ghost mut at: Seq<int> = Seq::empty();
        let mut i: usize = 0;
        while i < keys.len()
            invariant
                i <= keys@.len(),
                name@ == collection_name@,
                lists_once(keys@, self.aliases@.dom()),
                picks(keys@, aliases_of(self@, name@), i as int, res@, at),
            decreases keys@.len() - i,
        {
            assert(self.aliases@.dom().contains(keys@[i as int]@));
            let ghost before = res@;
            let ghost before_at = at;
            let is_alias = match self.aliases.get(&keys[i]) {
                Some(target) => *target == name,
                None => false,
            };
            assert(is_alias == aliases_of(self@, name@).contains(keys@[i as int]@));
            if is_alias {
                res.push(keys[i].clone());
                proof {
                    at = at.push(i as int);
                }
            }
            proof {
                lemma_picks_step(keys@, aliases_of(self@, name@), i as int, before, before_at);
            }
            i += 1;
        }
        proof {
            lemma_picks_all(keys@, self.aliases@.dom(), aliases_of(self@, name@), res@, at);
        }
        res
    }

    /// The aliases with what they stand for, each once, as they are to be kept.
    pub fn entries(&self) -> (res: Vec<(String, String)>)
        ensures
            forall|a: int, b: int|
                0 <= a < b < res@.len() ==> (#[trigger] res@[a]).0@ != (#[trigger] res@[b]).0@,
            forall|a: int|
                0 <= a < res@.len() ==> self@.contains_key((#[trigger] res@[a]).0@)
                    && self@[res@[a].0@] == res@[a].1@,
            forall|alias: Seq<char>| #[trigger]
                self@.contains_key(alias) ==> exists|a: int|
                    0 <= a < res@.len() && (#[trigger] res@[a]).0@ == alias,
    {
        let keys = self.aliases.keys();
        let mut res: Vec<(String, String)> = Vec::new();
        assert(self@.dom() =~= self.aliases@.dom());
        for i in 0..keys.len()
            invariant
                lists_once(keys@, self.aliases@.dom()),
                res@.len() == i,
                forall|a: int|
                    0 <= a < i ==> (#[trigger] res@[a]).0@ == keys@[a]@ && res@[a].1@
                        == self@[keys@[a]@],
        {
            assert(self.aliases@.dom().contains(keys@[i as int]@));
            if let Some(target) = self.aliases.get(&keys[i]) {
                res.push((keys[i].clone(), target.clone()));
            }
        }
        assert forall|a: int| 0 <= a < res@.len() implies self@.contains_key(
            (#[trigger] res@[a]).0@,
        ) by {
            assert(self.aliases@.dom().contains(keys@[a]@));
        }
        assert forall|a: int, b: int| 0 <= a < b < res@.len() implies (#[trigger] res@[a]).0@ != (
        #[trigger] res@[b]).0@ by {
            assert(keys@[a]@ != keys@[b]@);
        }
        assert forall|alias: Seq<char>| #[trigger] self@.contains_key(alias) implies exists|a: int|
            0 <= a < res@.len() && (#[trigger] res@[a]).0@ == alias by {
            assert(self.aliases@.dom().contains(alias));
            let a = choose|a: int| #![trigger keys@[a]] 0 <= a < keys@.len() && keys@[a]@ == alias;
            assert(res@[a].0@ == alias);
        }
        res
    }

    /// A copy of the mapping.
    pub fn state(&self) -> (res: Self)
        ensures
            res@ == self@,
    {
        let res = AliasMapping { aliases: self.aliases.duplicate() };
        assert(res@ =~= self@);
        res
    }

    /// Puts another mapping in place of this one.
    pub fn apply_state(&mut self, state: AliasMapping)
        ensures
            final(self)@ == state@,
    {
        *self = state;
    }
}

} // verus!
