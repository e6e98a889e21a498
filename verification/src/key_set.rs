//! Small sets of addresses.
use vstd::prelude::*;

use crate::pubkey::Pubkey;

verus! {

/// A set of addresses, each held once.
pub struct KeySet {
    keys: Vec<Pubkey>,
}

/// The bytes of addresses.
pub open spec fn key_bytes(keys: Seq<Pubkey>) -> Seq<Seq<u8>> {
    keys.map_values(|key: Pubkey| key@)
}

impl View for KeySet {
    type V = Set<Seq<u8>>;

    closed spec fn view(&self) -> Set<Seq<u8>> {
        key_bytes(self.keys@).to_set()
    }
}

impl KeySet {
    /// Whether each address is held once.
    pub closed spec fn is_valid(&self) -> bool {
        key_bytes(self.keys@).no_duplicates()
    }

    pub fn new() -> (r: Self)
        ensures
            r.is_valid(),
            r@ == Set::<Seq<u8>>::empty(),
    {
        let r = KeySet { keys: Vec::new() };
        assert(r@ =~= Set::<Seq<u8>>::empty());
        r
    }

    pub fn contains(&self, key: &Pubkey) -> (r: bool)
        ensures
            r == self@.contains(key@),
    {
        let mut i: usize = 0;
        while i < self.keys.len()
            invariant
                i <= self.keys@.len(),
                forall|j: int| 0 <= j < i ==> (#[trigger] self.keys@[j])@ != key@,
            decreases self.keys@.len() - i,
        {
            if self.keys[i].same(key) {
                assert(key_bytes(self.keys@)[i as int] == key@);
                return true;
            }
            i = i + 1;
        }
        assert forall|j: int| 0 <= j < self.keys@.len() implies key_bytes(self.keys@)[j]
            != key@ by {
            assert(self.keys@[j]@ != key@);
        }
        false
    }

    pub fn insert(&mut self, key: Pubkey)
        requires
            old(self).is_valid(),
        ensures
            final(self).is_valid(),
            final(self)@ == old(self)@.insert(key@),
    {
        if !self.contains(&key) {
            let ghost before = self.keys@;
            self.keys.push(key);
            proof {
                assert(key_bytes(self.keys@) =~= key_bytes(before).push(key@));
                assert forall|k: Seq<u8>|
                    key_bytes(self.keys@).contains(k) <==> key_bytes(before).contains(k) || k
                        == key@ by {
                    let now = key_bytes(self.keys@);
                    if key_bytes(before).contains(k) {
                        let j = choose|j: int|
                            0 <= j < before.len() && key_bytes(before)[j] == k;
                        assert(now[j] == k);
                    }
                    if k == key@ {
                        assert(now[before.len() as int] == k);
                    }
                }
            }
        }
        assert(self@ =~= old(self)@.insert(key@));
    }

    pub fn len(&self) -> (r: usize)
        requires
            self.is_valid(),
        ensures
            r == self@.len(),
            self@.finite(),
    {
        proof {
            key_bytes(self.keys@).unique_seq_to_set();
        }
        self.keys.len()
    }

    /// The addresses that two other sets lack.
    pub fn without(&self, first: &KeySet, second: &KeySet) -> (r: KeySet)
        requires
            self.is_valid(),
        ensures
            r.is_valid(),
            r@ == self@.difference(first@).difference(second@),
    {
        let mut rest = KeySet::new();
        let mut i: usize = 0;
        while i < self.keys.len()
            invariant
                i <= self.keys@.len(),
                rest.is_valid(),
                forall|k: Seq<u8>| #[trigger]
                    rest@.contains(k) <==> key_bytes(self.keys@).take(i as int).contains(k)
                        && !first@.contains(k) && !second@.contains(k),
            decreases self.keys@.len() - i,
        {
            let key = self.keys[i];
            let ghost all = key_bytes(self.keys@);
            let ghost before = rest@;
            if !first.contains(&key) && !second.contains(&key) {
                rest.insert(key);
            }
            proof {
                assert(all.take(i + 1) =~= all.take(i as int).push(key@));
                assert forall|k: Seq<u8>| all.take(i + 1).contains(k) <==> all.take(
                    i as int,
                ).contains(k) || k == key@ by {
                    let now = all.take(i + 1);
                    if all.take(i as int).contains(k) {
                        let j = choose|j: int| 0 <= j < i && all.take(i as int)[j] == k;
                        assert(now[j] == k);
                    }
                    if k == key@ {
                        assert(now[i as int] == k);
                    }
                }
                assert forall|k: Seq<u8>| #[trigger]
                    rest@.contains(k) <==> all.take(i + 1).contains(k) && !first@.contains(k)
                        && !second@.contains(k) by {
                    assert(before.contains(k) <==> all.take(i as int).contains(k)
                        && !first@.contains(k) && !second@.contains(k));
                }
            }
            i = i + 1;
        }
        assert(key_bytes(self.keys@).take(self.keys@.len() as int) =~= key_bytes(self.keys@));
        assert(rest@ =~= self@.difference(first@).difference(second@));
        rest
    }
}

} // verus!
