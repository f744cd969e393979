//! Event deduplication.
//!
//! The upstream stream has at-least-once delivery: after a connection
//! hiccup the producer may resend an event it already sent. The
//! deduplicator keeps the set of identities observed within one session
//! and accepts an identity only the first time it appears.
//!
//! The seen set is owned by the session that streams with it, so no
//! locking is involved; a host that wants one set shared across calls
//! owns one `Dedup` and streams with it from one call at a time.

use vstd::prelude::*;
use crate::ascii::bytes_eq;

verus! {

/// The set of event identities already observed within a session.
pub struct Dedup {
    seen: Vec<Vec<u8>>,
}

impl View for Dedup {
    type V = Set<Seq<u8>>;

    /// The identities observed so far.
    closed spec fn view(&self) -> Set<Seq<u8>> {
        Set::new(|x: Seq<u8>| exists|i: int| 0 <= i < self.seen@.len() && self.seen@[i]@ == x)
    }
}

impl Dedup {
    /// A deduplicator that has observed nothing.
    pub fn new() -> (d: Self)
        ensures
            d@ == Set::<Seq<u8>>::empty(),
    {
        let d = Dedup { seen: Vec::new() };
        proof {
            assert(d@ =~= Set::<Seq<u8>>::empty());
        }
        d
    }

    /// Observes one identity: accepts it exactly when it has not been
    /// seen in this session, and remembers it either way.
    pub fn observe(&mut self, id: &Vec<u8>) -> (fresh: bool)
        ensures
            fresh == !old(self)@.contains(id@),
            final(self)@ == old(self)@.insert(id@),
    {
        let ghost s0 = self.seen@;
        let mut i: usize = 0;
        let mut found = false;
        while i < self.seen.len()
            invariant
                self.seen@ == s0,
                i <= s0.len(),
                found == exists|k: int| 0 <= k < i && s0[k]@ == id@,
            decreases s0.len() - i,
        {
            if bytes_eq(&self.seen[i], id) {
                found = true;
            }
            i = i + 1;
        }
        if found {
            proof {
                assert(old(self)@.contains(id@));
                assert(final(self)@ =~= old(self)@.insert(id@));
            }
            false
        } else {
            self.seen.push(crate::event::clone_bytes(id));
            proof {
                assert(!old(self)@.contains(id@));
                assert forall|x: Seq<u8>| final(self)@.contains(x) <==> old(self)@.insert(
                    id@,
                ).contains(x) by {
                    if x == id@ {
                        assert(self.seen@[s0.len() as int]@ == id@);
                    } else {
                        if final(self)@.contains(x) {
                            let k = choose|k: int|
                                0 <= k < self.seen@.len() && self.seen@[k]@ == x;
                            assert(k < s0.len());
                            assert(s0[k]@ == x);
                        }
                        if old(self)@.contains(x) {
                            let k = choose|k: int| 0 <= k < s0.len() && s0[k]@ == x;
                            assert(self.seen@[k]@ == x);
                        }
                    }
                }
                assert(final(self)@ =~= old(self)@.insert(id@));
            }
            true
        }
    }
}

} // verus!
