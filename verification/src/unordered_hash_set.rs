use std::borrow::Borrow;
use std::collections::HashSet;
use std::hash::Hash;
use vstd::prelude::*;
use vstd::std_specs::hash::*;
use vstd::std_specs::iter::{IteratorSpec, VerusForLoopWrapper};

use crate::unordered_hash_map::UnorderedHashMap;

verus! {

/// Holds of a key type whose `clone` hands back a value equal to the one it
/// was given. The sets built from clones of keys are described exactly for
/// such types.
pub open spec fn obeys_clone_model<Key: Clone>() -> bool {
    forall|a: Key, b: Key| #[trigger] cloned(a, b) ==> a == b
}

/// The elements of a hash set, each exactly once, in the order in which the
/// table hands them out. Nothing that leaves this module depends on that order.
fn elements<'a, Key: Hash + Eq>(set: &'a HashSet<Key>) -> (keys: Vec<&'a Key>)
    ensures
        obeys_key_model::<Key>() ==> {
            &&& keys@.len() == set@.len()
            &&& keys@.no_duplicates()
            &&& keys@.unref().to_set() == set@
        },
{
    broadcast use group_hash_axioms;
    let n = set.len();
    let mut keys: Vec<&'a Key> = Vec::new();
    let mut walk = VerusForLoopWrapper::new(set.iter(), Ghost(None));
    let mut i: usize = 0;
    while i < n
        invariant
            i <= n,
            walk.wf(),
            obeys_key_model::<Key>() ==> {
                &&& walk.snapshot@ == spec_hash_keys_iter(set)
                &&& n == walk.seq().len()
                &&& walk.index() == i
                &&& keys@ == walk.seq().take(i as int)
            },
        decreases n - i,
    {
        match walk.next() {
            Some(key) => {
                keys.push(key);
            },
            None => {},
        }
        i += 1;
    }
    proof {
        if obeys_key_model::<Key>() {
            assert(keys@ =~= spec_hash_keys_iter(set).remaining());
        }
    }
    keys
}

/// Whether `key` is among the first `upto` entries of `keys`.
pub open spec fn listed<Key>(keys: Seq<&Key>, upto: int, key: Key) -> bool {
    exists|j: int| 0 <= j < upto && *(#[trigger] keys[j]) == key
}

/// Listing one entry more adds exactly that entry.
proof fn listed_step<Key>(keys: Seq<&Key>, upto: int)
    requires
        0 <= upto < keys.len(),
    ensures
        forall|key: Key|
            listed(keys, upto + 1, key) <==> (listed(keys, upto, key) || *keys[upto] == key),
{
    assert forall|key: Key|
        listed(keys, upto + 1, key) <==> (listed(keys, upto, key) || *keys[upto] == key) by {
        if listed(keys, upto + 1, key) {
            let j = choose|j: int| 0 <= j < upto + 1 && *(#[trigger] keys[j]) == key;
            if j < upto {
                assert(listed(keys, upto, key));
            }
        }
        if listed(keys, upto, key) {
            let j = choose|j: int| 0 <= j < upto && *(#[trigger] keys[j]) == key;
            assert(0 <= j < upto + 1 && *keys[j] == key);
        }
        if *keys[upto] == key {
            assert(0 <= upto < upto + 1 && *keys[upto] == key);
        }
    }
}

/// A full listing of a set names exactly the members of the set.
proof fn listing_is_membership<Key>(keys: Seq<&Key>, set: Set<Key>)
    requires
        keys.unref().to_set() == set,
    ensures
        forall|key: Key| listed(keys, keys.len() as int, key) <==> set.contains(key),
{
    assert forall|key: Key| listed(keys, keys.len() as int, key) <==> set.contains(key) by {
        if listed(keys, keys.len() as int, key) {
            let j = choose|j: int| 0 <= j < keys.len() && *(#[trigger] keys[j]) == key;
            assert(keys.unref()[j] == key);
            assert(keys.unref().contains(key));
        }
        if set.contains(key) {
            assert(keys.unref().contains(key));
            let j = choose|j: int| 0 <= j < keys.unref().len() && keys.unref()[j] == key;
            assert(*keys[j] == key);
        }
    }
}

/// A hash set that does not care about the order of insertion.
///
/// It offers no way to walk its elements, so nothing computed through it can
/// depend on the order in which a hash table happens to store them.
#[derive(Debug, PartialEq, Eq)]
pub struct UnorderedHashSet<Key: Hash + Eq>(HashSet<Key>);

impl<Key: Hash + Eq> View for UnorderedHashSet<Key> {
    type V = Set<Key>;

    closed spec fn view(&self) -> Set<Key> {
        self.0@
    }
}

impl<Key: Hash + Eq> UnorderedHashSet<Key> {
    /// Inserts the value into the set.
    ///
    /// Returns `false` if an equal item was already in the set, `true` otherwise.
    pub fn insert(&mut self, key: Key) -> (fresh: bool)
        ensures
            obeys_key_model::<Key>() ==> final(self)@ == old(self)@.insert(key),
            obeys_key_model::<Key>() ==> fresh == !old(self)@.contains(key),
    {
        broadcast use group_hash_axioms;
        self.0.insert(key)
    }

    /// Removes a value from the set. Returns whether the value was present in the set.
    pub fn remove<Q: ?Sized + Hash + Eq>(&mut self, value: &Q) -> (present: bool) where
        Key: Borrow<Q>,

        ensures
            obeys_key_model::<Key>() ==> sets_differ_by_borrowed_key(
                old(self)@,
                final(self)@,
                value,
            ),
            obeys_key_model::<Key>() ==> present == set_contains_borrowed_key(old(self)@, value),
    {
        broadcast use group_hash_axioms;
        self.0.remove(value)
    }

    /// Extends the set with the given items.
    pub fn extend(&mut self, iter: Vec<Key>)
        ensures
            obeys_key_model::<Key>() ==> final(self)@ == old(self)@.union(iter@.to_set()),
    {
        broadcast use group_hash_axioms;
        let mut rest = iter;
        while rest.len() > 0
            invariant
                obeys_key_model::<Key>() ==> self@.union(rest@.to_set()) == old(self)@.union(
                    iter@.to_set(),
                ),
            decreases rest.len(),
        {
            let ghost before = rest@;
            let ghost had = self@;
            let key = rest.pop().unwrap();
            self.0.insert(key);
            proof {
                if obeys_key_model::<Key>() {
                    assert(before =~= rest@.push(key));
                    assert forall|k: Key|
                        before.to_set().contains(k) <==> (rest@.to_set().contains(k) || k
                            == key) by {
                        if before.contains(k) {
                            let j = choose|j: int| 0 <= j < before.len() && before[j] == k;
                            if j < rest@.len() {
                                assert(rest@[j] == k);
                            }
                        }
                        if rest@.contains(k) {
                            let j = choose|j: int| 0 <= j < rest@.len() && rest@[j] == k;
                            assert(before[j] == k);
                        }
                        assert(before[before.len() - 1] == key);
                    }
                    assert(self@.union(rest@.to_set()) =~= had.union(before.to_set()));
                }
            }
        }
        proof {
            if obeys_key_model::<Key>() {
                assert(rest@.to_set() =~= Set::<Key>::empty());
                assert(self@ =~= self@.union(rest@.to_set()));
            }
        }
    }

    /// Extends the set with the content of another set.
    pub fn extend_unordered(&mut self, other: Self)
        ensures
            obeys_key_model::<Key>() ==> final(self)@ == old(self)@.union(other@),
    {
        absorb(&mut self.0, other.0);
    }

    /// Returns true if an equivalent to value exists in the set.
    pub fn contains<Q: ?Sized + Hash + Eq>(&self, value: &Q) -> (present: bool) where
        Key: Borrow<Q>,

        ensures
            obeys_key_model::<Key>() ==> present == set_contains_borrowed_key(self@, value),
    {
        broadcast use group_hash_axioms;
        self.0.contains(value)
    }

    /// Returns the number of elements in the set.
    pub fn len(&self) -> (n: usize)
        ensures
            obeys_key_model::<Key>() ==> n == self@.len(),
    {
        broadcast use group_hash_axioms;
        self.0.len()
    }

    /// Returns true if the set contains no elements.
    pub fn is_empty(&self) -> (empty: bool)
        ensures
            empty == self@.is_empty(),
    {
        self.0.is_empty()
    }

    /// Clears the set, removing all values.
    pub fn clear(&mut self)
        ensures
            final(self)@ == Set::<Key>::empty(),
    {
        self.0.clear()
    }

    /// Returns the intersection of two sets.
    pub fn intersect(&self, other: &Self) -> (res: Self) where Key: Clone
        ensures
            obeys_key_model::<Key>() && obeys_clone_model::<Key>() ==> res@ == self@.intersect(
                other@,
            ),
    {
        let mut res = UnorderedHashSet(HashSet::new());
        add_clones(&mut res.0, &self.0, Some((&other.0, true)));
        proof {
            if obeys_key_model::<Key>() && obeys_clone_model::<Key>() {
                assert(res@ =~= self@.intersect(other@));
            }
        }
        res
    }

    /// Returns the union of two sets.
    pub fn union(&self, other: &Self) -> (res: Self) where Key: Clone
        ensures
            obeys_key_model::<Key>() && obeys_clone_model::<Key>() ==> res@ == self@.union(other@),
    {
        let mut res = UnorderedHashSet(HashSet::new());
        add_clones(&mut res.0, &self.0, None);
        add_clones(&mut res.0, &other.0, None);
        proof {
            if obeys_key_model::<Key>() && obeys_clone_model::<Key>() {
                assert(res@ =~= self@.union(other@));
            }
        }
        res
    }

    /// Returns true if the two sets have no element in common.
    pub fn is_disjoint(&self, other: &Self) -> (apart: bool)
        ensures
            obeys_key_model::<Key>() ==> apart == self@.disjoint(other@),
    {
        broadcast use group_hash_axioms;
        let keys = elements(&self.0);
        let mut i: usize = 0;
        while i < keys.len()
            invariant
                i <= keys.len(),
                obeys_key_model::<Key>() ==> keys@.unref().to_set() == self@,
                obeys_key_model::<Key>() ==> forall|j: int|
                    0 <= j < i ==> !other@.contains(*#[trigger] keys@[j]),
            decreases keys.len() - i,
        {
            if other.0.contains(keys[i]) {
                proof {
                    if obeys_key_model::<Key>() {
                        listing_is_membership(keys@, self@);
                        assert(listed(keys@, keys@.len() as int, *keys@[i as int]));
                    }
                }
                return false;
            }
            i += 1;
        }
        proof {
            if obeys_key_model::<Key>() {
                listing_is_membership(keys@, self@);
                assert forall|k: Key| self@.contains(k) implies !other@.contains(k) by {
                    assert(listed(keys@, keys@.len() as int, k));
                }
            }
        }
        true
    }

    /// Returns the union of two sets that have no element in common.
    ///
    /// Sets that intersect are not accepted: test with `is_disjoint` first.
    pub fn disjoint_union(&self, other: &Self) -> (res: Self) where Key: Clone
        requires
            self@.disjoint(other@),
        ensures
            obeys_key_model::<Key>() && obeys_clone_model::<Key>() ==> res@ == self@.union(other@),
    {
        self.union(other)
    }

    /// Returns the elements of this set that are not in `rhs`.
    pub fn difference(&self, rhs: &Self) -> (res: Self) where Key: Clone
        ensures
            obeys_key_model::<Key>() && obeys_clone_model::<Key>() ==> res@ == self@.difference(
                rhs@,
            ),
    {
        let mut res = UnorderedHashSet(HashSet::new());
        add_clones(&mut res.0, &self.0, Some((&rhs.0, false)));
        proof {
            if obeys_key_model::<Key>() && obeys_clone_model::<Key>() {
                assert(res@ =~= self@.difference(rhs@));
            }
        }
        res
    }

    /// Builds the set of the given items.
    pub fn from_iter(iter: Vec<Key>) -> (res: Self)
        ensures
            obeys_key_model::<Key>() ==> res@ == iter@.to_set(),
    {
        let mut res = UnorderedHashSet(HashSet::new());
        res.extend(iter);
        proof {
            if obeys_key_model::<Key>() {
                assert(res@ =~= iter@.to_set());
            }
        }
        res
    }

    /// Returns the intersection of all the given sets, or `None` if there are none.
    pub fn intersection(sets: &[Self]) -> (res: Option<Self>) where Key: Clone
        ensures
            res is None <==> sets@.len() == 0,
            obeys_key_model::<Key>() && obeys_clone_model::<Key>() ==> match res {
                Some(common) => forall|k: Key|
                    common@.contains(k) <==> in_all(sets@, sets@.len() as int, k),
                None => true,
            },
    {
        if sets.len() == 0 {
            return None;
        }
        let mut acc = UnorderedHashSet(HashSet::new());
        add_clones(&mut acc.0, &sets[0].0, None);
        let mut i: usize = 1;
        while i < sets.len()
            invariant
                1 <= i <= sets.len(),
                obeys_key_model::<Key>() && obeys_clone_model::<Key>() ==> forall|k: Key|
                    acc@.contains(k) <==> in_all(sets@, i as int, k),
            decreases sets.len() - i,
        {
            let ghost had = acc@;
            acc = acc.intersect(&sets[i]);
            proof {
                if obeys_key_model::<Key>() && obeys_clone_model::<Key>() {
                    assert forall|k: Key| acc@.contains(k) <==> in_all(sets@, i + 1, k) by {
                        assert(acc@.contains(k) <==> had.contains(k) && sets@[i as int]@.contains(
                            k,
                        ));
                    }
                }
            }
            i += 1;
        }
        Some(acc)
    }

    /// Returns a map from the union of all sets to the number of sets that contain each element.
    pub fn counts(sets: &[Self]) -> (res: UnorderedHashMap<Key, usize>) where Key: Clone
        ensures
            obeys_key_model::<Key>() && obeys_clone_model::<Key>() ==> forall|k: Key|
                tally(res@, k) == #[trigger] holders(sets@, sets@.len() as int, k),
            obeys_key_model::<Key>() && obeys_clone_model::<Key>() ==> forall|k: Key|
                #[trigger] res@.contains_key(k) ==> res@[k] > 0,
    {
        broadcast use group_hash_axioms;
        let mut res: UnorderedHashMap<Key, usize> = UnorderedHashMap::default();
        let mut s: usize = 0;
        while s < sets.len()
            invariant
                s <= sets.len(),
                obeys_key_model::<Key>() && obeys_clone_model::<Key>() ==> forall|k: Key|
                    tally(res@, k) == #[trigger] holders(sets@, s as int, k),
                obeys_key_model::<Key>() && obeys_clone_model::<Key>() ==> forall|k: Key|
                    #[trigger] res@.contains_key(k) ==> res@[k] > 0,
            decreases sets.len() - s,
        {
            let keys = elements(&sets[s].0);
            let mut j: usize = 0;
            while j < keys.len()
                invariant
                    s < sets.len(),
                    j <= keys.len(),
                    obeys_key_model::<Key>() ==> keys@.no_duplicates(),
                    obeys_key_model::<Key>() && obeys_clone_model::<Key>() ==> forall|k: Key|
                        tally(res@, k) == #[trigger] holders(sets@, s as int, k) + if listed(
                            keys@,
                            j as int,
                            k,
                        ) {
                            1nat
                        } else {
                            0nat
                        },
                    obeys_key_model::<Key>() && obeys_clone_model::<Key>() ==> forall|k: Key|
                        #[trigger] res@.contains_key(k) ==> res@[k] > 0,
                decreases keys.len() - j,
            {
                let key = keys[j];
                let ghost had = res@;
                let seen: usize = match res.get(key) {
                    Some(count) => *count,
                    None => 0,
                };
                proof {
                    if obeys_key_model::<Key>() && obeys_clone_model::<Key>() {
                        holders_bound(sets@, s as int, *key);
                        if listed(keys@, j as int, *key) {
                            let earlier = choose|e: int|
                                0 <= e < j && *(#[trigger] keys@[e]) == *key;
                            assert(keys@[earlier] == keys@[j as int]);
                        }
                        assert(tally(had, *key) == holders(sets@, s as int, *key));
                        assert(seen == tally(had, *key));
                    }
                }
                if seen < usize::MAX {
                    let copy = key.clone();
                    proof {
                        assert(cloned(*key, copy));
                    }
                    res.insert(copy, seen + 1);
                }
                proof {
                    if obeys_key_model::<Key>() && obeys_clone_model::<Key>() {
                        listed_step(keys@, j as int);
                        assert(res@ == had.insert(*key, (seen + 1) as usize));
                        assert forall|k: Key|
                            tally(res@, k) == #[trigger] holders(sets@, s as int, k) + if listed(
                                keys@,
                                j + 1,
                                k,
                            ) {
                                1nat
                            } else {
                                0nat
                            } by {
                            assert(tally(had, k) == holders(sets@, s as int, k) + if listed(
                                keys@,
                                j as int,
                                k,
                            ) {
                                1nat
                            } else {
                                0nat
                            });
                            assert(listed(keys@, j + 1, k) <==> (listed(keys@, j as int, k)
                                || *keys@[j as int] == k));
                        }
                    }
                }
                j += 1;
            }
            proof {
                if obeys_key_model::<Key>() && obeys_clone_model::<Key>() {
                    listing_is_membership(keys@, sets@[s as int]@);
                    assert forall|k: Key|
                        tally(res@, k) == #[trigger] holders(sets@, s + 1, k) by {
                        assert(tally(res@, k) == holders(sets@, s as int, k) + if listed(
                            keys@,
                            keys@.len() as int,
                            k,
                        ) {
                            1nat
                        } else {
                            0nat
                        });
                    }
                }
            }
            s += 1;
        }
        res
    }
}

/// The number of sets among the first `upto` that contain `key`.
pub open spec fn holders<Key: Hash + Eq>(
    sets: Seq<UnorderedHashSet<Key>>,
    upto: int,
    key: Key,
) -> nat
    decreases upto,
{
    if upto <= 0 {
        0
    } else {
        holders(sets, upto - 1, key) + if sets[upto - 1]@.contains(key) {
            1nat
        } else {
            0nat
        }
    }
}

/// The count that a map of counts holds for `key`: zero where it has no entry.
pub open spec fn tally<Key>(counts: Map<Key, usize>, key: Key) -> nat {
    if counts.contains_key(key) {
        counts[key] as nat
    } else {
        0
    }
}

/// No more sets hold a key than were looked at.
proof fn holders_bound<Key: Hash + Eq>(sets: Seq<UnorderedHashSet<Key>>, upto: int, key: Key)
    requires
        0 <= upto,
    ensures
        holders(sets, upto, key) <= upto,
    decreases upto,
{
    if upto > 0 {
        holders_bound(sets, upto - 1, key);
    }
}

/// Moves every element of `source` into `target`.
///
/// Calls `Extend::extend` of `std::collections::HashSet`, which inserts each
/// item of the iterator it is given: afterwards `target` holds what it held
/// and what `source` held.
#[verifier::external_body]
fn absorb<Key: Hash + Eq>(target: &mut HashSet<Key>, source: HashSet<Key>)
    ensures
        obeys_key_model::<Key>() ==> final(target)@ == old(target)@.union(source@),
{
    target.extend(source)
}

/// Whether `key` is a member of each of the first `upto` sets.
pub open spec fn in_all<Key: Hash + Eq>(
    sets: Seq<UnorderedHashSet<Key>>,
    upto: int,
    key: Key,
) -> bool {
    forall|i: int| 0 <= i < upto ==> (#[trigger] sets[i])@.contains(key)
}

/// Inserts into `into` a clone of each element of `from`; with a filter
/// `(other, inside)`, only of those whose membership in `other` is `inside`.
fn add_clones<Key: Hash + Eq + Clone>(
    into: &mut HashSet<Key>,
    from: &HashSet<Key>,
    filter: Option<(&HashSet<Key>, bool)>,
)
    ensures
        obeys_key_model::<Key>() && obeys_clone_model::<Key>() ==> final(into)@ == old(
            into,
        )@.union(from@.filter(|k: Key| passes(filter, k))),
{
    broadcast use group_hash_axioms;
    let keys = elements(from);
    let mut i: usize = 0;
    while i < keys.len()
        invariant
            i <= keys.len(),
            obeys_key_model::<Key>() && obeys_clone_model::<Key>() ==> forall|k: Key|
                #[trigger] into@.contains(k) <==> old(into)@.contains(k) || (listed(
                    keys@,
                    i as int,
                    k,
                ) && passes(filter, k)),
        decreases keys.len() - i,
    {
        let key = keys[i];
        let ghost had = into@;
        let wanted = match filter {
            Some((other, inside)) => other.contains(key) == inside,
            None => true,
        };
        assert(obeys_key_model::<Key>() ==> wanted == passes(filter, *key));
        if wanted {
            let copy = key.clone();
            proof {
                assert(cloned(*key, copy));
            }
            into.insert(copy);
        }
        proof {
            if obeys_key_model::<Key>() && obeys_clone_model::<Key>() {
                listed_step(keys@, i as int);
                assert(into@ == if wanted { had.insert(*key) } else { had });
                assert forall|k: Key|
                    #[trigger] into@.contains(k) <==> old(into)@.contains(k) || (listed(
                        keys@,
                        i + 1,
                        k,
                    ) && passes(filter, k)) by {
                    assert(listed(keys@, i + 1, k) <==> (listed(keys@, i as int, k) || *keys@[i as int] == k));
                    assert(had.contains(k) <==> old(into)@.contains(k) || (listed(
                        keys@,
                        i as int,
                        k,
                    ) && passes(filter, k)));
                }
            }
        }
        i += 1;
    }
    proof {
        if obeys_key_model::<Key>() && obeys_clone_model::<Key>() {
            listing_is_membership(keys@, from@);
            assert(into@ =~= old(into)@.union(from@.filter(|k: Key| passes(filter, k))));
        }
    }
}

/// Whether `key` gets through the filter: with none, every key does.
pub open spec fn passes<Key>(filter: Option<(&HashSet<Key>, bool)>, key: Key) -> bool {
    match filter {
        Some((other, inside)) => other@.contains(key) == inside,
        None => true,
    }
}

impl<'a, Key: Hash + Eq + Clone> std::ops::Sub<&'a UnorderedHashSet<Key>> for &'a UnorderedHashSet<Key> {
    type Output = UnorderedHashSet<Key>;

    /// The elements of this set that are not in `rhs`.
    fn sub(self, rhs: Self) -> (res: UnorderedHashSet<Key>)
        ensures
            obeys_key_model::<Key>() && obeys_clone_model::<Key>() ==> res@ == self@.difference(
                rhs@,
            ),
    {
        self.difference(rhs)
    }
}

impl<'a, Key: Hash + Eq + Clone> vstd::std_specs::ops::SubSpecImpl<&'a UnorderedHashSet<Key>> for &'a UnorderedHashSet<Key> {
    open spec fn obeys_sub_spec() -> bool {
        false
    }

    open spec fn sub_req(self, rhs: &'a UnorderedHashSet<Key>) -> bool {
        true
    }

    open spec fn sub_spec(self, rhs: &'a UnorderedHashSet<Key>) -> UnorderedHashSet<Key> {
        arbitrary()
    }
}

impl<Key: Hash + Eq> Default for UnorderedHashSet<Key> {
    fn default() -> (empty: Self)
        ensures
            empty@ == Set::<Key>::empty(),
    {
        UnorderedHashSet(HashSet::new())
    }
}

impl<Key: Hash + Eq + Clone> Clone for UnorderedHashSet<Key> {
    fn clone(&self) -> (copy: Self)
        ensures
            obeys_key_model::<Key>() && obeys_clone_model::<Key>() ==> copy@ == self@,
    {
        let mut copy = UnorderedHashSet(HashSet::new());
        add_clones(&mut copy.0, &self.0, None);
        proof {
            if obeys_key_model::<Key>() && obeys_clone_model::<Key>() {
                assert(copy@ =~= self@);
            }
        }
        copy
    }
}

} // verus!
