use crate::types::uuid::DBUuid;
use vstd::prelude::*;

verus! {

/// The keys that occur in `keys`, as a set of their characters.
pub open spec fn key_set(keys: Seq<DBUuid>) -> Set<Seq<char>> {
    Set::new(|k: Seq<char>| exists|i: int| 0 <= i < keys.len() && (#[trigger] keys[i])@ == k)
}

/// Whether no key occurs twice in `keys`.
pub open spec fn distinct_keys(keys: Seq<DBUuid>) -> bool {
    forall|i: int, j: int|
        0 <= i < j < keys.len() ==> (#[trigger] keys[i])@ != (#[trigger] keys[j])@
}

/// The first place at which `key` occurs in `keys`, if it occurs at all.
pub fn position(keys: &[DBUuid], key: &DBUuid) -> (r: Option<usize>)
    ensures
        match r {
            Some(i) => i < keys@.len() && keys@[i as int]@ == key@ && forall|j: int|
                0 <= j < i ==> (#[trigger] keys@[j])@ != key@,
            None => !key_set(keys@).contains(key@),
        },
{
    let n = keys.len();
    let mut i: usize = 0;
    while i < n
        invariant
            n == keys@.len(),
            i <= n,
            forall|j: int| 0 <= j < i ==> (#[trigger] keys@[j])@ != key@,
        decreases n - i,
    {
        if keys[i] == *key {
            return Some(i);
        }
        i += 1;
    }
    None
}

/// A set of document keys.
#[derive(Debug)]
pub struct KeySet {
    keys: Vec<DBUuid>,
}

impl View for KeySet {
    type V = Set<Seq<char>>;

    closed spec fn view(&self) -> Set<Seq<char>> {
        key_set(self.keys@)
    }
}

impl KeySet {
    #[verifier::type_invariant]
    spec fn distinct(&self) -> bool {
        distinct_keys(self.keys@)
    }

    /// The empty set.
    pub fn new() -> (r: KeySet)
        ensures
            r@ == Set::<Seq<char>>::empty(),
    {
        let r = KeySet { keys: Vec::new() };
        assert(r@ =~= Set::<Seq<char>>::empty());
        r
    }

    /// The set of the keys that occur in `keys`.
    pub fn from_slice(keys: &[DBUuid]) -> (r: KeySet)
        ensures
            r@ == key_set(keys@),
    {
        let n = keys.len();
        let mut r = KeySet::new();
        let mut i: usize = 0;
        while i < n
            invariant
                n == keys@.len(),
                i <= n,
                r@ == key_set(keys@.take(i as int)),
            decreases n - i,
        {
            r.insert(keys[i].clone());
            proof {
                let before = keys@.take(i as int);
                let after = keys@.take(i + 1);
                assert forall|k: Seq<char>| key_set(after).contains(k) == key_set(before).insert(
                    keys@[i as int]@,
                ).contains(k) by {
                    if key_set(after).contains(k) {
                        let j = choose|j: int| 0 <= j < after.len() && (#[trigger] after[j])@ == k;
                        if j < i {
                            assert(before[j]@ == k);
                        }
                    }
                    if key_set(before).insert(keys@[i as int]@).contains(k) {
                        if k == keys@[i as int]@ {
                            assert(after[i as int]@ == k);
                        } else {
                            let j = choose|j: int|
                                0 <= j < before.len() && (#[trigger] before[j])@ == k;
                            assert(after[j]@ == k);
                        }
                    }
                }
                assert(key_set(after) =~= key_set(before).insert(keys@[i as int]@));
            }
            i += 1;
        }
        assert(keys@.take(n as int) == keys@);
        r
    }

    /// Whether the set holds no key.
    pub fn is_empty(&self) -> (r: bool)
        ensures
            r == (self@ == Set::<Seq<char>>::empty()),
    {
        let r = self.keys.len() == 0;
        proof {
            if r {
                assert(self@ =~= Set::<Seq<char>>::empty());
            } else {
                assert(self@.contains(self.keys@[0]@));
            }
        }
        r
    }

    /// Whether the set holds `key`.
    pub fn contains(&self, key: &DBUuid) -> (r: bool)
        ensures
            r == self@.contains(key@),
    {
        position(self.keys.as_slice(), key).is_some()
    }

    /// Adds `key` to the set and tells whether it was new.
    pub fn insert(&mut self, key: DBUuid) -> (r: bool)
        ensures
            final(self)@ == old(self)@.insert(key@),
            r == !old(self)@.contains(key@),
    {
        proof {
            use_type_invariant(&*self);
        }
        match position(self.keys.as_slice(), &key) {
            Some(_) => {
                assert(self@ =~= old(self)@.insert(key@));
                false
            },
            None => {
                let ghost before = self.keys@;
                let mut keys: Vec<DBUuid> = Vec::new();
                core::mem::swap(&mut self.keys, &mut keys);
                keys.push(key);
                core::mem::swap(&mut self.keys, &mut keys);
                proof {
                    assert(self.keys@ == before.push(key));
                    assert forall|k: Seq<char>| key_set(self.keys@).contains(k) == key_set(
                        before,
                    ).insert(key@).contains(k) by {
                        if key_set(self.keys@).contains(k) {
                            let i = choose|i: int|
                                0 <= i < self.keys@.len() && (#[trigger] self.keys@[i])@ == k;
                            if i < before.len() {
                                assert(before[i]@ == k);
                            }
                        }
                        if key_set(before).insert(key@).contains(k) {
                            if k == key@ {
                                assert(self.keys@[before.len() as int]@ == k);
                            } else {
                                let i = choose|i: int|
                                    0 <= i < before.len() && (#[trigger] before[i])@ == k;
                                assert(self.keys@[i]@ == k);
                            }
                        }
                    }
                    assert(self@ =~= old(self)@.insert(key@));
                }
                true
            },
        }
    }

    /// Takes `key` out of the set and tells whether it was there.
    pub fn remove(&mut self, key: &DBUuid) -> (r: bool)
        ensures
            final(self)@ == old(self)@.remove(key@),
            r == old(self)@.contains(key@),
    {
        proof {
            use_type_invariant(&*self);
        }
        match position(self.keys.as_slice(), key) {
            Some(at) => {
                let ghost before = self.keys@;
                let mut keys: Vec<DBUuid> = Vec::new();
                core::mem::swap(&mut self.keys, &mut keys);
                keys.remove(at);
                core::mem::swap(&mut self.keys, &mut keys);
                proof {
                    let after = self.keys@;
                    assert(after == before.remove(at as int));
                    assert forall|i: int| 0 <= i < after.len() implies #[trigger] after[i]
                        == before[if i < at { i } else { i + 1 }] by {}
                    assert forall|k: Seq<char>| key_set(after).contains(k) == key_set(
                        before,
                    ).remove(key@).contains(k) by {
                        if key_set(after).contains(k) {
                            let i = choose|i: int|
                                0 <= i < after.len() && (#[trigger] after[i])@ == k;
                            let j = if i < at { i } else { i + 1 };
                            assert(before[j]@ == k);
                        }
                        if key_set(before).remove(key@).contains(k) {
                            let j = choose|j: int|
                                0 <= j < before.len() && (#[trigger] before[j])@ == k;
                            let i = if j < at { j } else { j - 1 };
                            assert(after[i]@ == k);
                        }
                    }
                    assert(self@ =~= old(self)@.remove(key@));
                }
                true
            },
            None => {
                assert(self@ =~= old(self)@.remove(key@));
                false
            },
        }
    }

    /// Empties the set.
    pub fn clear(&mut self)
        ensures
            final(self)@ == Set::<Seq<char>>::empty(),
    {
        let mut keys: Vec<DBUuid> = Vec::new();
        core::mem::swap(&mut self.keys, &mut keys);
        assert(self@ =~= Set::<Seq<char>>::empty());
    }

    /// The keys of the set, each once, in the order in which they came in.
    pub fn to_vec(&self) -> (r: Vec<DBUuid>)
        ensures
            key_set(r@) == self@,
            distinct_keys(r@),
    {
        proof {
            use_type_invariant(self);
        }
        let n = self.keys.len();
        let mut r: Vec<DBUuid> = Vec::new();
        let mut i: usize = 0;
        while i < n
            invariant
                n == self.keys@.len(),
                i <= n,
                r@.len() == i,
                forall|j: int| 0 <= j < i ==> (#[trigger] r@[j])@ == self.keys@[j]@,
            decreases n - i,
        {
            r.push(self.keys[i].clone());
            i += 1;
        }
        proof {
            assert forall|k: Seq<char>| key_set(r@).contains(k) == key_set(self.keys@).contains(
                k,
            ) by {
                if key_set(r@).contains(k) {
                    let j = choose|j: int| 0 <= j < r@.len() && (#[trigger] r@[j])@ == k;
                    assert(self.keys@[j]@ == k);
                }
                if key_set(self.keys@).contains(k) {
                    let j = choose|j: int|
                        0 <= j < self.keys@.len() && (#[trigger] self.keys@[j])@ == k;
                    assert(r@[j]@ == k);
                }
            }
            assert(key_set(r@) =~= self@);
        }
        r
    }
}

} // verus!
