use vstd::prelude::*;

verus! {

/// Number of matching peer digests needed when `n` peers count: `floor(2n/3) + 1`.
pub open spec fn quorum_of(n: nat) -> nat {
    (2 * n / 3 + 1) as nat
}

/// The quorum threshold for `n` counted peers.
pub fn quorum(n: usize) -> (q: usize)
    requires
        n <= usize::MAX / 2,
    ensures
        q == quorum_of(n as nat),
{
    n * 2 / 3 + 1
}

/// What one peer said about the digest at the position under validation.
#[derive(Debug, PartialEq, Eq)]
pub enum PeerReply {
    /// No usable answer: no connection, a timeout, or a body that is not hex.
    Unreachable,
    /// An answer without a digest: an error status or an empty body.
    NoDigest,
    /// The peer's digest.
    Digest(Vec<u8>),
}

/// One validation round: the local digest, asked of each peer in turn.
/// A peer without a usable digest leaves the count; a different digest stays in it.
pub struct QuorumRound {
    local_root: Vec<u8>,
    total: usize,
    asked: usize,
    counted: usize,
    matches: usize,
}

impl QuorumRound {
    #[verifier::type_invariant]
    spec fn counts_fit(&self) -> bool {
        &&& self.total <= usize::MAX / 2
        &&& self.asked <= self.total
        &&& self.matches <= self.asked
        &&& self.counted <= self.total
    }

    pub closed spec fn local_root_view(&self) -> Seq<u8> {
        self.local_root@
    }

    /// Peers in the round.
    pub closed spec fn total(&self) -> nat {
        self.total as nat
    }

    /// Peers asked so far.
    pub closed spec fn asked(&self) -> nat {
        self.asked as nat
    }

    /// Peers that still count toward the threshold: all but those without a usable digest.
    pub closed spec fn counted(&self) -> nat {
        self.counted as nat
    }

    /// Peers whose digest equals the local one.
    pub closed spec fn matches(&self) -> nat {
        self.matches as nat
    }

    pub open spec fn reached(&self) -> bool {
        self.matches() >= quorum_of(self.counted())
    }

    /// A round over `peer_count` peers for `local_root`.
    pub fn new(peer_count: usize, local_root: Vec<u8>) -> (r: QuorumRound)
        requires
            peer_count <= usize::MAX / 2,
        ensures
            r.total() == peer_count,
            r.asked() == 0,
            r.counted() == peer_count,
            r.matches() == 0,
            r.local_root_view() == local_root@,
    {
        QuorumRound { local_root, total: peer_count, asked: 0, counted: peer_count, matches: 0 }
    }

    pub fn local_root(&self) -> (r: &Vec<u8>)
        ensures
            r@ == self.local_root_view(),
    {
        &self.local_root
    }

    /// Whether every peer has been asked.
    pub fn done(&self) -> (r: bool)
        ensures
            r == (self.asked() >= self.total()),
    {
        self.asked >= self.total
    }

    /// Whether the matches so far meet the threshold for the peers that count.
    pub fn is_certified(&self) -> (r: bool)
        ensures
            r == self.reached(),
    {
        proof {
            use_type_invariant(self);
        }
        self.matches >= quorum(self.counted)
    }

    /// Takes the next peer's reply and says whether the threshold is now met.
    pub fn record(&mut self, reply: &PeerReply) -> (certified: bool)
        requires
            old(self).asked() < old(self).total(),
        ensures
            final(self).local_root_view() == old(self).local_root_view(),
            final(self).total() == old(self).total(),
            final(self).asked() == old(self).asked() + 1,
            match reply {
                PeerReply::Digest(d) => {
                    &&& final(self).counted() == old(self).counted()
                    &&& final(self).matches() == old(self).matches() + if d@
                        == old(self).local_root_view() {
                        1int
                    } else {
                        0int
                    }
                },
                _ => {
                    &&& final(self).counted() == if old(self).counted() > 0 {
                        old(self).counted() - 1
                    } else {
                        0
                    }
                    &&& final(self).matches() == old(self).matches()
                },
            },
            certified == final(self).reached(),
    {
        proof {
            use_type_invariant(&*self);
        }
        self.asked = self.asked + 1;
        match reply {
            PeerReply::Digest(d) => {
                if slices_equal(d.as_slice(), self.local_root.as_slice()) {
                    self.matches = self.matches + 1;
                }
            },
            _ => {
                if self.counted > 0 {
                    self.counted = self.counted - 1;
                }
            },
        }
        self.is_certified()
    }
}

/// Whether two byte strings are equal.
pub fn slices_equal(a: &[u8], b: &[u8]) -> (r: bool)
    ensures
        r == (a@ == b@),
{
    if a.len() != b.len() {
        return false;
    }
    let mut i: usize = 0;
    while i < a.len()
        invariant
            a@.len() == b@.len(),
            i <= a@.len(),
            forall|j: int| 0 <= j < i ==> a@[j] == b@[j],
        decreases a@.len() - i,
    {
        if a[i] != b[i] {
            return false;
        }
        i = i + 1;
    }
    assert(a@ =~= b@);
    true
}

} // verus!
