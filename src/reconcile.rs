use crate::types::Pubkey;
use vstd::prelude::*;

verus! {

/// A write at `write_version` is stale when a higher version of the same account was seen.
pub open spec fn stale(seen: Map<Seq<u8>, u64>, key: Seq<u8>, write_version: u64) -> bool {
    seen.contains_key(key) && write_version < seen[key]
}

/// What has been seen after a write at `write_version` arrives.
pub open spec fn after_write(seen: Map<Seq<u8>, u64>, key: Seq<u8>, write_version: u64) -> Map<
    Seq<u8>,
    u64,
> {
    if stale(seen, key, write_version) {
        seen
    } else {
        seen.insert(key, write_version)
    }
}

/// The highest write version seen of each account, on the consumer's side.
pub struct WriteVersions {
    entries: Vec<(Pubkey, u64)>,
    seen: Ghost<Map<Seq<u8>, u64>>,
}

impl WriteVersions {
    /// The highest write version seen of each account, by its key's bytes.
    pub closed spec fn seen(&self) -> Map<Seq<u8>, u64> {
        self.seen@
    }

    pub closed spec fn wf(&self) -> bool {
        &&& forall|i: int|
            0 <= i < self.entries@.len() ==> #[trigger] self.seen@.contains_key(
                self.entries@[i].0.bytes@,
            ) && self.seen@[self.entries@[i].0.bytes@] == self.entries@[i].1
        &&& forall|k: Seq<u8>|
            #[trigger] self.seen@.contains_key(k) ==> exists|i: int|
                0 <= i < self.entries@.len() && #[trigger] self.entries@[i].0.bytes@ == k
        &&& forall|i: int, j: int|
            0 <= i < self.entries@.len() && 0 <= j < self.entries@.len() && i != j
                ==> #[trigger] self.entries@[i].0.bytes@ != #[trigger] self.entries@[j].0.bytes@
    }

    /// Nothing seen yet.
    pub fn new() -> (r: Self)
        ensures
            r.wf(),
            r.seen() == Map::<Seq<u8>, u64>::empty(),
    {
        WriteVersions { entries: Vec::new(), seen: Ghost(Map::empty()) }
    }

    /// Whether a write at `write_version` of `pubkey` is stale.
    pub fn is_stale(&self, pubkey: &Pubkey, write_version: u64) -> (r: bool)
        requires
            self.wf(),
        ensures
            r == stale(self.seen(), pubkey.bytes@, write_version),
    {
        match self.find(pubkey) {
            Some(i) => {
                assert(self.seen@.contains_key(self.entries@[i as int].0.bytes@));
                write_version < self.entries[i].1
            },
            None => false,
        }
    }

    /// Takes a write of `pubkey` at `write_version`: returns whether to apply it, and
    /// remembers it when it is the newest of its account.
    pub fn observe(&mut self, pubkey: &Pubkey, write_version: u64) -> (r: bool)
        requires
            old(self).wf(),
        ensures
            final(self).wf(),
            r == !stale(old(self).seen(), pubkey.bytes@, write_version),
            final(self).seen() == after_write(old(self).seen(), pubkey.bytes@, write_version),
    {
        match self.find(pubkey) {
            Some(i) => {
                assert(self.seen@.contains_key(self.entries@[i as int].0.bytes@));
                if write_version < self.entries[i].1 {
                    return false;
                }
                self.entries.set(i, (*pubkey, write_version));
                self.seen = Ghost(self.seen@.insert(pubkey.bytes@, write_version));
                assert forall|k: Seq<u8>| #[trigger] self.seen@.contains_key(k) implies exists|
                    j: int,
                |
                    0 <= j < self.entries@.len() && #[trigger] self.entries@[j].0.bytes@ == k by {
                    if k == pubkey.bytes@ {
                        assert(self.entries@[i as int].0.bytes@ == k);
                    } else {
                        assert(old(self).seen@.contains_key(k));
                        let j = choose|j: int|
                            0 <= j < old(self).entries@.len() && #[trigger] old(
                                self,
                            ).entries@[j].0.bytes@ == k;
                        assert(self.entries@[j].0.bytes@ == k);
                    }
                }
                true
            },
            None => {
                self.entries.push((*pubkey, write_version));
                self.seen = Ghost(self.seen@.insert(pubkey.bytes@, write_version));
                let n = self.entries.len() - 1;
                assert forall|k: Seq<u8>| #[trigger] self.seen@.contains_key(k) implies exists|
                    j: int,
                |
                    0 <= j < self.entries@.len() && #[trigger] self.entries@[j].0.bytes@ == k by {
                    if k == pubkey.bytes@ {
                        assert(self.entries@[n as int].0.bytes@ == k);
                    } else {
                        assert(old(self).seen@.contains_key(k));
                        let j = choose|j: int|
                            0 <= j < old(self).entries@.len() && #[trigger] old(
                                self,
                            ).entries@[j].0.bytes@ == k;
                        assert(self.entries@[j].0.bytes@ == k);
                    }
                }
                true
            },
        }
    }

    fn find(&self, pubkey: &Pubkey) -> (r: Option<usize>)
        requires
            self.wf(),
        ensures
            match r {
                Some(i) => i < self.entries@.len() && self.entries@[i as int].0.bytes@
                    == pubkey.bytes@,
                None => !self.seen().contains_key(pubkey.bytes@),
            },
    {
        let mut i: usize = 0;
        while i < self.entries.len()
            invariant
                self.wf(),
                i <= self.entries@.len(),
                forall|j: int| 0 <= j < i ==> self.entries@[j].0.bytes@ != pubkey.bytes@,
            decreases self.entries@.len() - i,
        {
            if same_key(&self.entries[i].0, pubkey) {
                return Some(i);
            }
            i = i + 1;
        }
        proof {
            if self.seen@.contains_key(pubkey.bytes@) {
                let j = choose|j: int|
                    0 <= j < self.entries@.len() && #[trigger] self.entries@[j].0.bytes@
                        == pubkey.bytes@;
                assert(self.entries@[j].0.bytes@ != pubkey.bytes@);
            }
        }
        None
    }
}

fn same_key(a: &Pubkey, b: &Pubkey) -> (r: bool)
    ensures
        r == (a.bytes@ == b.bytes@),
{
    let mut i: usize = 0;
    while i < 32
        invariant
            i <= 32,
            a.bytes@.len() == 32,
            b.bytes@.len() == 32,
            forall|j: int| 0 <= j < i ==> a.bytes@[j] == b.bytes@[j],
        decreases 32 - i,
    {
        if a.bytes[i] != b.bytes[i] {
            return false;
        }
        i = i + 1;
    }
    assert(a.bytes@ =~= b.bytes@);
    true
}

/// Once a write of an account has arrived, any later-arriving write of that account with
/// a lower write version is stale, whatever else was seen before.
pub proof fn lemma_lower_version_is_stale(
    seen: Map<Seq<u8>, u64>,
    key: Seq<u8>,
    first: u64,
    second: u64,
)
    requires
        second < first,
    ensures
        stale(after_write(seen, key, first), key, second),
{
}

} // verus!
