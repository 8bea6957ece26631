use vstd::prelude::*;

use crate::net::IpAddress;

verus! {

/// The node's directory of known peers: the base64 text of a peer's node
/// public key, mapped to the IP address at which that peer was discovered.
/// Each key occurs at most once.
pub struct PeerDirectory {
    entries: Vec<(String, IpAddress)>,
}

impl PeerDirectory {
    #[verifier::type_invariant]
    closed spec fn keys_distinct(self) -> bool {
        forall|i: int, j: int|
            0 <= i < j < self.entries.len() ==> (#[trigger] self.entries@[i]).0@ != (
            #[trigger] self.entries@[j]).0@
    }

    closed spec fn has_key(self, k: Seq<char>) -> bool {
        exists|i: int| 0 <= i < self.entries.len() && (#[trigger] self.entries@[i]).0@ == k
    }

    closed spec fn position(self, k: Seq<char>) -> int {
        choose|i: int| 0 <= i < self.entries.len() && (#[trigger] self.entries@[i]).0@ == k
    }

    /// The entry of `k` is at position `i`, wherever else `choose` might look.
    proof fn lemma_position(self, k: Seq<char>, i: int)
        requires
            self.keys_distinct(),
            0 <= i < self.entries.len(),
            self.entries@[i].0@ == k,
        ensures
            self.has_key(k),
            self.position(k) == i,
    {
        assert(self.has_key(k));
        let p = self.position(k);
        if p != i {
            if p < i {
                assert(self.entries@[p].0@ != self.entries@[i].0@);
            } else {
                assert(self.entries@[i].0@ != self.entries@[p].0@);
            }
        }
    }

    /// Creates a directory that knows no peer.
    pub fn new() -> (dir: PeerDirectory)
        ensures
            dir@ == Map::<Seq<char>, IpAddress>::empty(),
    {
        let dir = PeerDirectory { entries: Vec::new() };
        assert(dir@ =~= Map::<Seq<char>, IpAddress>::empty());
        dir
    }

    /// Where the entry of `key` stands, if there is one.
    fn find(&self, key: &String) -> (res: Option<usize>)
        ensures
            match res {
                Some(i) => i < self.entries.len() && self.entries@[i as int].0@ == key@,
                None => forall|j: int|
                    0 <= j < self.entries.len() ==> (#[trigger] self.entries@[j]).0@ != key@,
            },
    {
        let n = self.entries.len();
        let mut i: usize = 0;
        while i < n
            invariant
                n == self.entries.len(),
                i <= n,
                forall|j: int| 0 <= j < i ==> (#[trigger] self.entries@[j]).0@ != key@,
            decreases n - i,
        {
            if self.entries[i].0 == *key {
                return Some(i);
            }
            i = i + 1;
        }
        None
    }

    /// The address recorded for `key`, if any.
    pub fn get(&self, key: &String) -> (res: Option<IpAddress>)
        ensures
            res == (if self@.contains_key(key@) {
                Some(self@[key@])
            } else {
                None
            }),
    {
        proof {
            use_type_invariant(self);
        }
        match self.find(key) {
            Some(i) => {
                proof {
                    self.lemma_position(key@, i as int);
                }
                Some(self.entries[i].1)
            },
            None => None,
        }
    }

    /// Records `ip` as the address of the peer whose key text is `key`,
    /// replacing any address recorded for it before.
    pub fn insert(&mut self, key: String, ip: IpAddress)
        ensures
            final(self)@ == old(self)@.insert(key@, ip),
    {
        proof {
            use_type_invariant(&*self);
        }
        let ghost before = *self;
        let found = self.find(&key);
        let n = self.entries.len();
        let mut entries: Vec<(String, IpAddress)> = Vec::new();
        std::mem::swap(&mut entries, &mut self.entries);
        if let Some(i) = found {
            let ghost k = key@;
            entries.set(i, (key, ip));
            proof {
                assert forall|a: int, b: int|
                    0 <= a < b < entries.len() implies (#[trigger] entries@[a]).0@ != (
                    #[trigger] entries@[b]).0@ by {
                    assert(before.entries@[a].0@ == entries@[a].0@);
                    assert(before.entries@[b].0@ == entries@[b].0@);
                }
            }
            self.entries = entries;
            proof {
                assert forall|k2: Seq<char>| #[trigger] self@.contains_key(k2) == before@.insert(
                    k,
                    ip,
                ).contains_key(k2) by {
                    if before.has_key(k2) {
                        let p = choose|p: int|
                            0 <= p < before.entries.len() && (#[trigger] before.entries@[p]).0@
                                == k2;
                        assert(self.entries@[p].0@ == k2);
                    }
                    if self.has_key(k2) {
                        let p = choose|p: int|
                            0 <= p < self.entries.len() && (#[trigger] self.entries@[p]).0@ == k2;
                        assert(before.entries@[p].0@ == k2);
                    }
                }
                assert forall|k2: Seq<char>| #[trigger]
                    self@.contains_key(k2) implies self@[k2] == before@.insert(k, ip)[k2] by {
                    let p = choose|p: int|
                        0 <= p < self.entries.len() && (#[trigger] self.entries@[p]).0@ == k2;
                    self.lemma_position(k2, p);
                    if k2 != k {
                        assert(before.entries@[p].0@ == k2);
                        before.lemma_position(k2, p);
                    }
                }
                assert(self@ =~= before@.insert(k, ip));
            }
        } else {
            let ghost k = key@;
            entries.push((key, ip));
            proof {
                assert forall|a: int, b: int|
                    0 <= a < b < entries.len() implies (#[trigger] entries@[a]).0@ != (
                    #[trigger] entries@[b]).0@ by {
                    if b == n {
                        assert(before.entries@[a].0@ != k);
                    } else {
                        assert(before.entries@[a] == entries@[a]);
                        assert(before.entries@[b] == entries@[b]);
                    }
                }
            }
            self.entries = entries;
            proof {
                assert forall|k2: Seq<char>| #[trigger] self@.contains_key(k2) == before@.insert(
                    k,
                    ip,
                ).contains_key(k2) by {
                    if before.has_key(k2) {
                        let p = choose|p: int|
                            0 <= p < before.entries.len() && (#[trigger] before.entries@[p]).0@
                                == k2;
                        assert(self.entries@[p].0@ == k2);
                    }
                    if k2 == k {
                        assert(self.entries@[n as int].0@ == k2);
                    }
                    if self.has_key(k2) && k2 != k {
                        let p = choose|p: int|
                            0 <= p < self.entries.len() && (#[trigger] self.entries@[p]).0@ == k2;
                        assert(before.entries@[p].0@ == k2);
                    }
                }
                assert forall|k2: Seq<char>| #[trigger]
                    self@.contains_key(k2) implies self@[k2] == before@.insert(k, ip)[k2] by {
                    let p = choose|p: int|
                        0 <= p < self.entries.len() && (#[trigger] self.entries@[p]).0@ == k2;
                    self.lemma_position(k2, p);
                    if k2 != k {
                        assert(before.entries@[p].0@ == k2);
                        before.lemma_position(k2, p);
                    }
                }
                assert(self@ =~= before@.insert(k, ip));
            }
        }
    }
}

impl View for PeerDirectory {
    type V = Map<Seq<char>, IpAddress>;

    closed spec fn view(&self) -> Map<Seq<char>, IpAddress> {
        Map::new(|k: Seq<char>| self.has_key(k), |k: Seq<char>| self.entries@[self.position(k)].1)
    }
}

} // verus!
