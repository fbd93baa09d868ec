//! The relay's per-datagram decision and the laws it obeys.
//!
//! For every datagram the relay receives, exactly one step runs: a non-IPv4
//! sender is ignored outright; an IPv4 sender is registered if new, and the
//! datagram's forward set is every other registered peer, in insertion
//! order. The caller then sends the received bytes verbatim to each address
//! of the forward set; a failed send to one address does not touch the rest.

use vstd::prelude::*;
use crate::endpoint::{Endpoint, Ipv4Endpoint};
use crate::registry::{
    forward_targets, lemma_occurrences_absent, lemma_occurrences_unique, lemma_push_contains,
    lemma_register, no_duplicates, occurrences, register, PeerRegistry,
};

verus! {

/// What one arriving datagram does to the registry: a new IPv4 sender is
/// appended, a known one changes nothing, a non-IPv4 sender is ignored.
pub open spec fn registry_step(peers: Seq<Ipv4Endpoint>, sender: Endpoint) -> Seq<Ipv4Endpoint> {
    match sender {
        Endpoint::V4(addr) => register(peers, addr),
        Endpoint::V6(_) => peers,
    }
}

/// The registry after a whole sequence of arrivals, handled in order.
pub open spec fn registry_after(peers: Seq<Ipv4Endpoint>, arrivals: Seq<Endpoint>) -> Seq<
    Ipv4Endpoint,
>
    decreases arrivals.len(),
{
    if arrivals.len() == 0 {
        peers
    } else {
        registry_after(registry_step(peers, arrivals.first()), arrivals.drop_first())
    }
}

/// Handles one received datagram's sender: updates the registry and returns
/// the addresses the datagram must be forwarded to. A non-IPv4 sender
/// changes nothing and is forwarded to nobody; an IPv4 sender is registered
/// once and excluded from its own forward set.
pub fn relay_step(registry: &mut PeerRegistry, sender: Endpoint) -> (fwd: Vec<Ipv4Endpoint>)
    ensures
        final(registry)@ == registry_step(old(registry)@, sender),
        match sender {
            Endpoint::V4(addr) => fwd@ == forward_targets(final(registry)@, addr)
                && !fwd@.contains(addr),
            Endpoint::V6(_) => fwd@ == Seq::<Ipv4Endpoint>::empty(),
        },
{
    match sender {
        Endpoint::V4(addr) => {
            registry.insert_if_absent(addr);
            proof {
                lemma_self_exclusion(registry@, addr);
            }
            registry.snapshot_excluding(addr)
        },
        Endpoint::V6(_) => Vec::new(),
    }
}

/// Law (self-exclusion): the forward set never holds the sender, holds
/// every other element of the registry, and holds nothing that is not
/// registered.
pub proof fn lemma_self_exclusion(peers: Seq<Ipv4Endpoint>, sender: Ipv4Endpoint)
    ensures
        !forward_targets(peers, sender).contains(sender),
        forall|p: Ipv4Endpoint|
            peers.contains(p) && p != sender ==> #[trigger] forward_targets(
                peers,
                sender,
            ).contains(p),
        forall|p: Ipv4Endpoint|
            #[trigger] forward_targets(peers, sender).contains(p) ==> peers.contains(p) && p
                != sender,
    decreases peers.len(),
{
    if peers.len() > 0 {
        let s0 = peers.drop_last();
        let x = peers.last();
        let fwd0 = forward_targets(s0, sender);
        let fwd = forward_targets(peers, sender);
        lemma_self_exclusion(s0, sender);
        if x != sender {
            lemma_push_contains(fwd0, x, sender);
        }
        assert forall|p: Ipv4Endpoint| peers.contains(p) && p != sender implies #[trigger] fwd
            .contains(p) by {
            let i = choose|i: int| 0 <= i < peers.len() && peers[i] == p;
            if i < peers.len() - 1 {
                assert(s0[i] == p);
                assert(s0.contains(p));
                assert(fwd0.contains(p));
                if x != sender {
                    lemma_push_contains(fwd0, x, p);
                }
            } else {
                assert(p == x);
                lemma_push_contains(fwd0, x, p);
            }
        }
        assert forall|p: Ipv4Endpoint| #[trigger] fwd.contains(p) implies peers.contains(p) && p
            != sender by {
            if x == sender {
                assert(fwd0.contains(p));
            } else {
                lemma_push_contains(fwd0, x, p);
            }
            if fwd0.contains(p) {
                assert(s0.contains(p) && p != sender);
                let i = choose|i: int| 0 <= i < s0.len() && s0[i] == p;
                assert(peers[i] == p);
                assert(peers.contains(p));
            } else {
                assert(p == x);
                assert(peers[peers.len() - 1] == p);
                assert(peers.contains(p));
            }
        }
    }
}

/// Law (peer dedup): however many datagrams arrive from one IPv4 address,
/// the registry afterwards is exactly the registry after the first of
/// them: still duplicate-free, holding that address exactly once.
pub proof fn lemma_peer_dedup(
    peers: Seq<Ipv4Endpoint>,
    arrivals: Seq<Endpoint>,
    addr: Ipv4Endpoint,
)
    requires
        no_duplicates(peers),
        arrivals.len() > 0,
        forall|i: int| 0 <= i < arrivals.len() ==> arrivals[i] == Endpoint::V4(addr),
    ensures
        registry_after(peers, arrivals) == register(peers, addr),
        no_duplicates(registry_after(peers, arrivals)),
        occurrences(registry_after(peers, arrivals), addr) == 1,
{
    lemma_register(peers, addr);
    assert(arrivals[0] == Endpoint::V4(addr));
    lemma_registered_stays(register(peers, addr), arrivals.drop_first(), addr);
    lemma_occurrences_unique(register(peers, addr), addr);
}

/// Law (non-IPv4 exclusion, over arrival sequences): arrivals from
/// non-IPv4 senders leave the registry exactly as it was.
pub proof fn lemma_non_ipv4_exclusion(peers: Seq<Ipv4Endpoint>, arrivals: Seq<Endpoint>)
    requires
        forall|i: int| 0 <= i < arrivals.len() ==> !((#[trigger] arrivals[i]) is V4),
    ensures
        registry_after(peers, arrivals) == peers,
    decreases arrivals.len(),
{
    if arrivals.len() > 0 {
        assert(registry_step(peers, arrivals.first()) == peers);
        assert forall|i: int|
            0 <= i < arrivals.drop_first().len() implies !((#[trigger] arrivals.drop_first()[i])
            is V4) by {
            assert(arrivals.drop_first()[i] == arrivals[i + 1]);
        }
        lemma_non_ipv4_exclusion(peers, arrivals.drop_first());
    }
}

/// Law (registry membership): after any arrival sequence whatsoever —
/// senders repeated, interleaved or non-IPv4 — the registry is still
/// duplicate-free, and it holds an address exactly when that address was
/// registered before or sent one of the arrivals; never more than once.
pub proof fn lemma_registry_membership(peers: Seq<Ipv4Endpoint>, arrivals: Seq<Endpoint>)
    requires
        no_duplicates(peers),
    ensures
        no_duplicates(registry_after(peers, arrivals)),
        forall|a: Ipv4Endpoint|
            #[trigger] registry_after(peers, arrivals).contains(a) <==> peers.contains(a)
                || arrivals.contains(Endpoint::V4(a)),
        forall|a: Ipv4Endpoint| occurrences(registry_after(peers, arrivals), a) <= 1,
    decreases arrivals.len(),
{
    if arrivals.len() == 0 {
        assert forall|a: Ipv4Endpoint| occurrences(registry_after(peers, arrivals), a) <= 1 by {
            if peers.contains(a) {
                lemma_occurrences_unique(peers, a);
            } else {
                lemma_occurrences_absent(peers, a);
            }
        }
    } else {
        let e = arrivals.first();
        let next = registry_step(peers, e);
        match e {
            Endpoint::V4(b) => lemma_register(peers, b),
            Endpoint::V6(_) => (),
        }
        lemma_registry_membership(next, arrivals.drop_first());
        assert forall|a: Ipv4Endpoint| #[trigger] registry_after(peers, arrivals).contains(a)
            <==> peers.contains(a) || arrivals.contains(Endpoint::V4(a)) by {
            lemma_arrivals_contains_split(arrivals, Endpoint::V4(a));
            assert(registry_after(peers, arrivals) == registry_after(
                next,
                arrivals.drop_first(),
            ));
        }
    }
}

/// An element is in a non-empty sequence exactly when it is the first or
/// among the rest.
proof fn lemma_arrivals_contains_split(arrivals: Seq<Endpoint>, x: Endpoint)
    requires
        arrivals.len() > 0,
    ensures
        arrivals.contains(x) <==> arrivals.first() == x || arrivals.drop_first().contains(x),
{
    if arrivals.contains(x) {
        let i = choose|i: int| 0 <= i < arrivals.len() && arrivals[i] == x;
        if i > 0 {
            assert(arrivals.drop_first()[i - 1] == x);
        }
    }
    if arrivals.drop_first().contains(x) {
        let i = choose|i: int|
            0 <= i < arrivals.drop_first().len() && arrivals.drop_first()[i] == x;
        assert(arrivals[i + 1] == x);
    }
    if arrivals.first() == x {
        assert(arrivals[0] == x);
    }
}

/// Once an address is registered, further datagrams from it leave the
/// registry untouched.
proof fn lemma_registered_stays(
    peers: Seq<Ipv4Endpoint>,
    arrivals: Seq<Endpoint>,
    addr: Ipv4Endpoint,
)
    requires
        peers.contains(addr),
        forall|i: int| 0 <= i < arrivals.len() ==> arrivals[i] == Endpoint::V4(addr),
    ensures
        registry_after(peers, arrivals) == peers,
    decreases arrivals.len(),
{
    if arrivals.len() > 0 {
        assert(arrivals[0] == Endpoint::V4(addr));
        assert(registry_step(peers, arrivals.first()) == peers);
        assert forall|i: int|
            0 <= i < arrivals.drop_first().len() implies arrivals.drop_first()[i] == Endpoint::V4(
            addr,
        ) by {
            assert(arrivals.drop_first()[i] == arrivals[i + 1]);
        }
        lemma_registered_stays(peers, arrivals.drop_first(), addr);
    }
}

} // verus!
