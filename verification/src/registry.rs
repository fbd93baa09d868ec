//! The relay's peer registry: a deduplicated, insertion-ordered set of the
//! IPv4 endpoints observed as senders on the relay socket.
//!
//! The registry only ever grows. Membership is tested before every insert,
//! so no address is held twice; forwarding order is insertion order. The
//! caller serializes access (the relay holds a lock around the membership
//! test and insert), so the registry itself is a plain sequential structure.

use vstd::prelude::*;
use crate::endpoint::Ipv4Endpoint;

verus! {

/// No address occurs twice.
pub open spec fn no_duplicates(peers: Seq<Ipv4Endpoint>) -> bool {
    forall|i: int, j: int| 0 <= i < j < peers.len() ==> peers[i] != peers[j]
}

/// The registry after one IPv4 sender was observed: unchanged when the
/// sender is already present, else with it appended at the end.
pub open spec fn register(peers: Seq<Ipv4Endpoint>, addr: Ipv4Endpoint) -> Seq<Ipv4Endpoint> {
    if peers.contains(addr) {
        peers
    } else {
        peers.push(addr)
    }
}

/// The forward set for one datagram: the registered peers in insertion
/// order, without the sender.
pub open spec fn forward_targets(peers: Seq<Ipv4Endpoint>, sender: Ipv4Endpoint) -> Seq<
    Ipv4Endpoint,
>
    decreases peers.len(),
{
    if peers.len() == 0 {
        Seq::empty()
    } else {
        let rest = forward_targets(peers.drop_last(), sender);
        if peers.last() == sender {
            rest
        } else {
            rest.push(peers.last())
        }
    }
}

/// How many entries of the sequence are the given address.
pub open spec fn occurrences(peers: Seq<Ipv4Endpoint>, addr: Ipv4Endpoint) -> nat
    decreases peers.len(),
{
    if peers.len() == 0 {
        0nat
    } else {
        occurrences(peers.drop_last(), addr) + if peers.last() == addr {
            1nat
        } else {
            0nat
        }
    }
}

/// Appending one address to a sequence extends its forward set in the same
/// way: dropped when it is the sender, appended otherwise.
pub proof fn lemma_forward_targets_push(
    peers: Seq<Ipv4Endpoint>,
    addr: Ipv4Endpoint,
    sender: Ipv4Endpoint,
)
    ensures
        forward_targets(peers.push(addr), sender) == if addr == sender {
            forward_targets(peers, sender)
        } else {
            forward_targets(peers, sender).push(addr)
        },
{
    assert(peers.push(addr).drop_last() =~= peers);
    assert(peers.push(addr).last() == addr);
}

/// A pushed sequence holds exactly the old elements and the new one.
pub proof fn lemma_push_contains(peers: Seq<Ipv4Endpoint>, addr: Ipv4Endpoint, q: Ipv4Endpoint)
    ensures
        peers.push(addr).contains(q) <==> peers.contains(q) || q == addr,
{
    if peers.contains(q) {
        let i = choose|i: int| 0 <= i < peers.len() && peers[i] == q;
        assert(peers.push(addr)[i] == q);
    }
    if q == addr {
        assert(peers.push(addr)[peers.len() as int] == q);
    }
    if peers.push(addr).contains(q) && q != addr {
        let i = choose|i: int| 0 <= i < peers.push(addr).len() && peers.push(addr)[i] == q;
        assert(peers[i] == q);
    }
}

/// An address that is absent occurs zero times.
pub proof fn lemma_occurrences_absent(peers: Seq<Ipv4Endpoint>, addr: Ipv4Endpoint)
    requires
        !peers.contains(addr),
    ensures
        occurrences(peers, addr) == 0,
    decreases peers.len(),
{
    if peers.len() > 0 {
        let s0 = peers.drop_last();
        assert(!s0.contains(addr)) by {
            if s0.contains(addr) {
                let i = choose|i: int| 0 <= i < s0.len() && s0[i] == addr;
                assert(peers[i] == addr);
            }
        }
        assert(peers.last() != addr) by {
            if peers.last() == addr {
                assert(peers[peers.len() - 1] == addr);
            }
        }
        lemma_occurrences_absent(s0, addr);
    }
}

/// In a duplicate-free sequence a present address occurs exactly once.
pub proof fn lemma_occurrences_unique(peers: Seq<Ipv4Endpoint>, addr: Ipv4Endpoint)
    requires
        no_duplicates(peers),
        peers.contains(addr),
    ensures
        occurrences(peers, addr) == 1,
    decreases peers.len(),
{
    let s0 = peers.drop_last();
    if peers.last() == addr {
        assert(!s0.contains(addr)) by {
            if s0.contains(addr) {
                let i = choose|i: int| 0 <= i < s0.len() && s0[i] == addr;
                assert(peers[i] == peers[peers.len() - 1]);
            }
        }
        lemma_occurrences_absent(s0, addr);
    } else {
        let i = choose|i: int| 0 <= i < peers.len() && peers[i] == addr;
        assert(s0[i] == addr);
        assert(s0.contains(addr));
        assert(no_duplicates(s0)) by {
            assert(forall|x: int, y: int|
                0 <= x < y < s0.len() ==> s0[x] == peers[x] && s0[y] == peers[y]);
        }
        lemma_occurrences_unique(s0, addr);
    }
}

/// Registering an address keeps the registry duplicate-free, makes it hold
/// the address, and adds nothing else.
pub proof fn lemma_register(peers: Seq<Ipv4Endpoint>, addr: Ipv4Endpoint)
    requires
        no_duplicates(peers),
    ensures
        no_duplicates(register(peers, addr)),
        register(peers, addr).contains(addr),
        forall|q: Ipv4Endpoint|
            register(peers, addr).contains(q) <==> peers.contains(q) || q == addr,
{
    if peers.contains(addr) {
        assert(forall|q: Ipv4Endpoint|
            register(peers, addr).contains(q) <==> peers.contains(q) || q == addr);
    } else {
        let ext = peers.push(addr);
        assert forall|i: int, j: int| 0 <= i < j < ext.len() implies ext[i] != ext[j] by {
            if j == peers.len() {
                assert(ext[i] == peers[i]);
                if peers[i] == addr {
                    assert(peers.contains(addr));
                }
            }
        }
        assert(ext[peers.len() as int] == addr);
        assert forall|q: Ipv4Endpoint| ext.contains(q) <==> peers.contains(q) || q == addr by {
            lemma_push_contains(peers, addr, q);
        }
    }
}

/// The deduplicated, insertion-ordered set of observed peers.
pub struct PeerRegistry {
    peers: Vec<Ipv4Endpoint>,
}

impl View for PeerRegistry {
    type V = Seq<Ipv4Endpoint>;

    closed spec fn view(&self) -> Seq<Ipv4Endpoint> {
        self.peers@
    }
}

impl PeerRegistry {
    #[verifier::type_invariant]
    spec fn deduplicated(self) -> bool {
        no_duplicates(self.peers@)
    }

    /// The empty registry a relay starts with.
    pub fn new() -> (r: Self)
        ensures
            r@ == Seq::<Ipv4Endpoint>::empty(),
    {
        PeerRegistry { peers: Vec::new() }
    }

    /// How many peers are registered.
    pub fn len(&self) -> (n: usize)
        ensures
            n == self@.len(),
    {
        self.peers.len()
    }

    /// Whether the address was already observed.
    pub fn contains(&self, addr: Ipv4Endpoint) -> (r: bool)
        ensures
            r == self@.contains(addr),
    {
        let mut i: usize = 0;
        while i < self.peers.len()
            invariant
                i <= self.peers@.len(),
                forall|k: int| 0 <= k < i ==> self.peers@[k] != addr,
            decreases self.peers@.len() - i,
        {
            if self.peers[i] == addr {
                assert(self.peers@.contains(addr)) by {
                    assert(self.peers@[i as int] == addr);
                }
                return true;
            }
            i = i + 1;
        }
        assert(!self.peers@.contains(addr));
        false
    }

    /// Appends the address unless it was already observed; membership is
    /// tested before every insert. Law: afterwards the registry is still
    /// duplicate-free and holds the address exactly once, however often it
    /// was inserted before.
    pub fn insert_if_absent(&mut self, addr: Ipv4Endpoint)
        ensures
            final(self)@ == register(old(self)@, addr),
            no_duplicates(final(self)@),
            occurrences(final(self)@, addr) == 1,
    {
        proof {
            use_type_invariant(&*self);
            lemma_register(old(self)@, addr);
            lemma_occurrences_unique(register(old(self)@, addr), addr);
        }
        let present = self.contains(addr);
        if !present {
            let mut peers: Vec<Ipv4Endpoint> = Vec::new();
            std::mem::swap(&mut peers, &mut self.peers);
            peers.push(addr);
            std::mem::swap(&mut peers, &mut self.peers);
        }
    }

    /// The forward set for a datagram from `sender`: every registered peer,
    /// in insertion order, except the sender itself.
    pub fn snapshot_excluding(&self, sender: Ipv4Endpoint) -> (r: Vec<Ipv4Endpoint>)
        ensures
            r@ == forward_targets(self@, sender),
    {
        let mut r: Vec<Ipv4Endpoint> = Vec::new();
        let mut i: usize = 0;
        while i < self.peers.len()
            invariant
                i <= self.peers@.len(),
                r@ == forward_targets(self.peers@.take(i as int), sender),
            decreases self.peers@.len() - i,
        {
            let p = self.peers[i];
            proof {
                assert(self.peers@.take(i as int + 1) =~= self.peers@.take(i as int).push(p));
                lemma_forward_targets_push(self.peers@.take(i as int), p, sender);
            }
            if p != sender {
                r.push(p);
            }
            i = i + 1;
        }
        proof {
            assert(self.peers@.take(self.peers@.len() as int) =~= self.peers@);
        }
        r
    }
}

} // verus!
