//! The presence set: the runtime record of which configured keyboards are
//! currently believed to be connected, keyed by vendor/model identifier pair.

use vstd::prelude::*;
use crate::device::PresenceKey;

verus! {

/// The views of a sequence of presence keys.
pub open spec fn keys_view(keys: Seq<PresenceKey>) -> Seq<(Seq<char>, Seq<char>)> {
    keys.map_values(|k: PresenceKey| k@)
}

/// Mutable set of the presence keys of currently-connected configured
/// keyboards. Abstractly a set; held as a vector without duplicate keys.
pub struct PresenceSet {
    pub keys: Vec<PresenceKey>,
}

impl View for PresenceSet {
    type V = Set<(Seq<char>, Seq<char>)>;

    open spec fn view(&self) -> Set<(Seq<char>, Seq<char>)> {
        keys_view(self.keys@).to_set()
    }
}

/// Pushing a key onto a key sequence pushes its view onto the view sequence.
proof fn lemma_keys_view_push(keys: Seq<PresenceKey>, key: PresenceKey)
    ensures
        keys_view(keys.push(key)) == keys_view(keys).push(key@),
{
    assert(keys_view(keys.push(key)) =~= keys_view(keys).push(key@));
}

/// Pushing an element onto a sequence inserts it into the sequence's set.
proof fn lemma_push_to_set(s: Seq<(Seq<char>, Seq<char>)>, p: (Seq<char>, Seq<char>))
    ensures
        s.push(p).to_set() == s.to_set().insert(p),
{
    assert forall|q: (Seq<char>, Seq<char>)| s.push(p).to_set().contains(q) implies s.to_set().insert(
        p,
    ).contains(q) by {
        let i = choose|i: int| 0 <= i < s.push(p).len() && s.push(p)[i] == q;
        if i < s.len() {
            assert(s[i] == q);
        }
    }
    assert forall|q: (Seq<char>, Seq<char>)| s.to_set().insert(p).contains(q) implies s.push(
        p,
    ).to_set().contains(q) by {
        if q == p {
            assert(s.push(p)[s.len() as int] == q);
        } else {
            let i = choose|i: int| 0 <= i < s.len() && s[i] == q;
            assert(s.push(p)[i] == q);
        }
    }
    assert(s.push(p).to_set() =~= s.to_set().insert(p));
}

impl PresenceSet {
    /// Internal shape: no key occurs twice.
    pub open spec fn wf(&self) -> bool {
        keys_view(self.keys@).no_duplicates()
    }

    /// The empty presence set.
    pub fn new() -> (s: Self)
        ensures
            s.wf(),
            s@ == Set::<(Seq<char>, Seq<char>)>::empty(),
    {
        let s = PresenceSet { keys: Vec::new() };
        proof {
            assert(s@ =~= Set::<(Seq<char>, Seq<char>)>::empty());
        }
        s
    }

    /// Whether the given key is recorded as present.
    pub fn contains(&self, key: &PresenceKey) -> (r: bool)
        ensures
            r == self@.contains(key@),
    {
        let mut i: usize = 0;
        while i < self.keys.len()
            invariant
                0 <= i <= self.keys@.len(),
                forall|j: int| 0 <= j < i ==> keys_view(self.keys@)[j] != key@,
            decreases self.keys@.len() - i,
        {
            let k = &self.keys[i];
            if k.vendor_id == key.vendor_id && k.model_id == key.model_id {
                proof {
                    assert(keys_view(self.keys@)[i as int] == key@);
                }
                return true;
            }
            i = i + 1;
        }
        proof {
            assert(!keys_view(self.keys@).contains(key@));
        }
        false
    }

    /// Idempotent insert: records the key as present; a key already present
    /// stays as it is.
    pub fn mark_present(&mut self, key: PresenceKey)
        requires
            old(self).wf(),
        ensures
            final(self).wf(),
            final(self)@ == old(self)@.insert(key@),
    {
        if self.contains(&key) {
            proof {
                assert(self@.insert(key@) =~= self@);
            }
        } else {
            proof {
                lemma_keys_view_push(self.keys@, key);
                lemma_push_to_set(keys_view(self.keys@), key@);
                assert forall|i: int, j: int|
                    0 <= i < keys_view(self.keys@.push(key)).len() && 0 <= j < keys_view(
                        self.keys@.push(key),
                    ).len() && i != j implies keys_view(self.keys@.push(key))[i] != keys_view(
                    self.keys@.push(key),
                )[j] by {
                    if i == self.keys@.len() {
                        assert(keys_view(self.keys@).contains(keys_view(self.keys@)[j]));
                    } else if j == self.keys@.len() {
                        assert(keys_view(self.keys@).contains(keys_view(self.keys@)[i]));
                    }
                }
            }
            self.keys.push(key);
        }
    }

    /// Idempotent removal: drops the key if present; an absent key is no
    /// error.
    pub fn remove(&mut self, key: &PresenceKey)
        requires
            old(self).wf(),
        ensures
            final(self).wf(),
            final(self)@ == old(self)@.remove(key@),
    {
        let mut i: usize = 0;
        while i < self.keys.len()
            invariant
                0 <= i <= self.keys@.len(),
                self.wf(),
                *self == *old(self),
                forall|j: int| 0 <= j < i ==> keys_view(self.keys@)[j] != key@,
            decreases self.keys@.len() - i,
        {
            let k = &self.keys[i];
            if k.vendor_id == key.vendor_id && k.model_id == key.model_id {
                proof {
                    assert(keys_view(self.keys@)[i as int] == key@);
                    lemma_remove_at(self.keys@, i as int);
                }
                self.keys.remove(i);
                return;
            }
            i = i + 1;
        }
        proof {
            assert(!keys_view(self.keys@).contains(key@));
            assert(self@.remove(key@) =~= self@);
        }
    }

    /// Whether no configured keyboard is recorded as present.
    pub fn is_empty(&self) -> (r: bool)
        ensures
            r == self@.is_empty(),
    {
        let r = self.keys.len() == 0;
        proof {
            if self.keys@.len() == 0 {
                assert(self@ =~= Set::<(Seq<char>, Seq<char>)>::empty());
            } else {
                assert(keys_view(self.keys@).contains(keys_view(self.keys@)[0]));
                assert(self@.contains(keys_view(self.keys@)[0]));
            }
        }
        r
    }

    /// How many configured keyboards are recorded as present.
    pub fn len(&self) -> (n: usize)
        requires
            self.wf(),
        ensures
            n == self@.len(),
    {
        proof {
            keys_view(self.keys@).unique_seq_to_set();
        }
        self.keys.len()
    }

    /// Replaces the set's contents with the observed keys, correcting any
    /// drift from missed notifications.
    pub fn reconcile(&mut self, observed: &Vec<PresenceKey>)
        requires
            old(self).wf(),
        ensures
            final(self).wf(),
            final(self)@ == keys_view(observed@).to_set(),
    {
        self.keys = Vec::new();
        proof {
            assert(self@ =~= keys_view(observed@.take(0)).to_set());
        }
        let mut i: usize = 0;
        while i < observed.len()
            invariant
                0 <= i <= observed@.len(),
                self.wf(),
                self@ == keys_view(observed@.take(i as int)).to_set(),
            decreases observed@.len() - i,
        {
            self.mark_present(observed[i].duplicate());
            proof {
                assert(observed@.take(i + 1) =~= observed@.take(i as int).push(observed@[i as int]));
                lemma_keys_view_push(observed@.take(i as int), observed@[i as int]);
                lemma_push_to_set(keys_view(observed@.take(i as int)), observed@[i as int]@);
            }
            i = i + 1;
        }
        proof {
            assert(observed@.take(observed@.len() as int) =~= observed@);
        }
    }
}

/// Removing the key at index `i` of a duplicate-free key sequence removes its
/// view from the sequence's set and keeps the sequence duplicate-free.
proof fn lemma_remove_at(keys: Seq<PresenceKey>, i: int)
    requires
        0 <= i < keys.len(),
        keys_view(keys).no_duplicates(),
    ensures
        keys_view(keys.remove(i)).no_duplicates(),
        keys_view(keys.remove(i)).to_set() == keys_view(keys).to_set().remove(keys_view(keys)[i]),
{
    let s = keys_view(keys);
    let r = keys_view(keys.remove(i));
    assert(r =~= s.remove(i)) by {
        keys.remove_ensures(i);
        s.remove_ensures(i);
    }
    s.remove_ensures(i);
    assert forall|q: (Seq<char>, Seq<char>)| s.remove(i).to_set().contains(q) implies s.to_set().remove(
        s[i],
    ).contains(q) by {
        let j = choose|j: int| 0 <= j < s.remove(i).len() && s.remove(i)[j] == q;
        if j < i {
            assert(s[j] == q);
            assert(q != s[i]);
        } else {
            assert(s[j + 1] == q);
            assert(q != s[i]);
        }
    }
    assert forall|q: (Seq<char>, Seq<char>)| s.to_set().remove(s[i]).contains(q) implies s.remove(
        i,
    ).to_set().contains(q) by {
        let j = choose|j: int| 0 <= j < s.len() && s[j] == q;
        if j < i {
            assert(s.remove(i)[j] == q);
        } else {
            assert(j != i);
            assert(s.remove(i)[j - 1] == q);
        }
    }
    assert(s.remove(i).to_set() =~= s.to_set().remove(s[i]));
    assert forall|a: int, b: int|
        0 <= a < s.remove(i).len() && 0 <= b < s.remove(i).len() && a != b implies s.remove(i)[a]
        != s.remove(i)[b] by {
        let sa: int = if a < i { a } else { a + 1 };
        let sb: int = if b < i { b } else { b + 1 };
        assert(s.remove(i)[a] == s[sa]);
        assert(s.remove(i)[b] == s[sb]);
    }
}

} // verus!
