//! The set of URL keys a crawl has already taken from its frontier.
use vstd::prelude::*;

verus! {

/// Distinct keys in the order they were first inserted.
pub struct VisitedSet {
    keys: Vec<String>,
}

impl View for VisitedSet {
    type V = Set<Seq<char>>;

    closed spec fn view(&self) -> Set<Seq<char>> {
        self.entries().to_set()
    }
}

impl VisitedSet {
    /// The stored keys, in order of insertion.
    pub closed spec fn entries(&self) -> Seq<Seq<char>> {
        self.keys@.map_values(|s: String| s@)
    }

    /// No key is stored twice.
    pub open spec fn wf(&self) -> bool {
        self.entries().no_duplicates()
    }

    /// An empty set.
    pub fn new() -> (r: VisitedSet)
        ensures
            r.wf(),
            r.entries() == Seq::<Seq<char>>::empty(),
            r@ == Set::<Seq<char>>::empty(),
    {
        let r = VisitedSet { keys: Vec::new() };
        proof {
            assert(r.entries() =~= Seq::<Seq<char>>::empty());
        }
        r
    }

    /// Whether `k` is in the set.
    pub fn contains(&self, k: &String) -> (r: bool)
        ensures
            r == self@.contains(k@),
    {
        let mut i: usize = 0;
        while i < self.keys.len()
            invariant
                0 <= i <= self.keys@.len(),
                forall|j: int| 0 <= j < i ==> self.keys@[j]@ != k@,
            decreases self.keys@.len() - i,
        {
            if self.keys[i] == *k {
                proof {
                    assert(self.entries()[i as int] == k@);
                }
                return true;
            }
            i = i + 1;
        }
        proof {
            if self.entries().contains(k@) {
                let j = choose|j: int| 0 <= j < self.entries().len() && self.entries()[j] == k@;
                assert(self.keys@[j]@ == k@);
            }
        }
        false
    }

    /// Adds `k`; returns whether it was absent. Adding a key that is already
    /// present changes nothing.
    pub fn insert(&mut self, k: String) -> (r: bool)
        requires
            old(self).wf(),
        ensures
            final(self).wf(),
            r == !old(self)@.contains(k@),
            final(self)@ == old(self)@.insert(k@),
            r ==> final(self).entries() == old(self).entries().push(k@),
            !r ==> final(self).entries() == old(self).entries(),
    {
        if self.contains(&k) {
            proof {
                assert(old(self)@.insert(k@) =~= old(self)@);
            }
            false
        } else {
            let ghost k_view = k@;
            self.keys.push(k);
            proof {
                let e0 = old(self).entries();
                assert(self.entries() =~= e0.push(k_view));
                assert(!e0.contains(k_view));
                assert forall|a: int, b: int|
                    0 <= a < b < self.entries().len() implies self.entries()[a]
                    != self.entries()[b] by {
                    if b == e0.len() {
                        assert(e0[a] == self.entries()[a]);
                    }
                }
                e0.lemma_push_to_set_commute(k_view);
                assert(self@ =~= old(self)@.insert(k_view));
            }
            true
        }
    }

    /// The number of keys.
    pub fn len(&self) -> (r: usize)
        requires
            self.wf(),
        ensures
            r == self@.len(),
    {
        proof {
            self.entries().unique_seq_to_set();
        }
        self.keys.len()
    }
}

/// However a visited set was built by its operations, it holds each key once,
/// and inserting a key that it holds leaves it as it was.
pub proof fn lemma_visited_keys_distinct(v: VisitedSet, k: Seq<char>)
    requires
        v.wf(),
    ensures
        v.entries().no_duplicates(),
        v.entries().len() == v@.len(),
        v@.contains(k) ==> v@.insert(k) == v@,
{
    v.entries().unique_seq_to_set();
    if v@.contains(k) {
        assert(v@.insert(k) =~= v@);
    }
}

} // verus!
