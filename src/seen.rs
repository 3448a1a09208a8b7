//! The seen-set: which file identifiers have already been reported.
use vstd::prelude::*;
use crate::text::join_str;

verus! {

/// The identifiers marked so far. Marks are never taken back.
pub struct SeenSet {
    ids: Vec<String>,
}

impl View for SeenSet {
    type V = Set<Seq<char>>;

    closed spec fn view(&self) -> Set<Seq<char>> {
        Set::new(|id: Seq<char>| exists|i: int| 0 <= i < self.ids@.len() && self.ids@[i]@ == id)
    }
}

/// The key under which the durable store records that `id` was seen.
pub open spec fn seen_key_spec(id: Seq<char>) -> Seq<char> {
    "seen:"@ + id
}

/// The key under which the durable store records that `id` was seen: `seen:<id>`.
pub fn seen_key(id: &str) -> (r: String)
    ensures
        r@ == seen_key_spec(id@),
{
    join_str("seen:", id)
}

impl SeenSet {
    /// A seen-set with nothing marked.
    pub fn new() -> (r: SeenSet)
        ensures
            r@ == Set::<Seq<char>>::empty(),
    {
        let r = SeenSet { ids: Vec::new() };
        proof {
            assert(r@ =~= Set::<Seq<char>>::empty());
        }
        r
    }

    /// Whether `id` was marked.
    pub fn contains(&self, id: &str) -> (r: bool)
        ensures
            r == self@.contains(id@),
    {
        let key = String::from_str(id);
        let mut i: usize = 0;
        while i < self.ids.len()
            invariant
                i <= self.ids@.len(),
                key@ == id@,
                forall|j: int| 0 <= j < i ==> self.ids@[j]@ != id@,
            decreases self.ids@.len() - i,
        {
            if self.ids[i].eq(&key) {
                proof {
                    assert(self.ids@[i as int]@ == id@);
                }
                return true;
            }
            i = i + 1;
        }
        false
    }

    /// Marks `id` as seen. Marking an identifier again changes nothing.
    pub fn mark(&mut self, id: &str)
        ensures
            final(self)@ == old(self)@.insert(id@),
    {
        if !self.contains(id) {
            let ghost before = self.ids@;
            self.ids.push(String::from_str(id));
            proof {
                assert forall|x: Seq<char>| #[trigger] self@.contains(x) == old(self)@.insert(id@).contains(x) by {
                    if x != id@ {
                        if self@.contains(x) {
                            let i = choose|i: int| 0 <= i < self.ids@.len() && self.ids@[i]@ == x;
                            assert(before[i]@ == x);
                        }
                    } else {
                        assert(self.ids@[before.len() as int]@ == x);
                    }
                    if old(self)@.contains(x) {
                        let i = choose|i: int| 0 <= i < before.len() && before[i]@ == x;
                        assert(self.ids@[i]@ == x);
                    }
                }
                assert(final(self)@ =~= old(self)@.insert(id@));
            }
        } else {
            proof {
                assert(old(self)@.insert(id@) =~= old(self)@);
            }
        }
    }
}

/// Marking an identifier twice leaves it marked, and leaves the set as
/// marking it once does.
pub proof fn lemma_mark_idempotent(seen: Set<Seq<char>>, id: Seq<char>)
    ensures
        seen.insert(id).insert(id) == seen.insert(id),
        seen.insert(id).insert(id).contains(id),
{
    assert(seen.insert(id).insert(id) =~= seen.insert(id));
}

} // verus!
