//! The reusable packet buffer shared by all pumps.
//!
//! Every pump owns one fixed-capacity buffer of `TUN_MTU` bytes, fills it
//! from each incoming frame or datagram, and hands the whole buffer on
//! verbatim. A read never grows the buffer: a frame larger than the buffer
//! is cut to `TUN_MTU` bytes, and a shorter frame leaves the tail bytes of
//! the previous iteration in place. Both outcomes are pinned down here so
//! that what goes out on the wire is a function of what came in.

use vstd::prelude::*;

verus! {

/// Capacity of the receive buffer, and so the largest frame or datagram the
/// engine ever passes on in one piece.
pub const TUN_MTU: usize = 1504;

/// MTU requested for the virtual interface. Encapsulating a frame adds
/// `ENCAPSULATION_OVERHEAD` bytes of outer UDP/IP headers, so the interface
/// is held this far below the usual 1500-byte link MTU to keep the outer
/// datagram from fragmenting.
pub const TUN_DEVICE_MTU: usize = 1472;

/// Bytes of outer UDP/IP header added when a frame is encapsulated.
pub const ENCAPSULATION_OVERHEAD: usize = 28;

/// The bytes a buffer holds after one frame was read into it: the frame,
/// cut to the buffer's capacity, followed by whatever the buffer held
/// beyond the frame's end.
pub open spec fn stored_bytes(residue: Seq<u8>, frame: Seq<u8>) -> Seq<u8> {
    if frame.len() <= TUN_MTU {
        frame + residue.skip(frame.len() as int)
    } else {
        frame.take(TUN_MTU as int)
    }
}

/// A packet buffer of exactly `TUN_MTU` bytes, reused across iterations of
/// a pump.
pub struct PacketBuffer {
    data: Vec<u8>,
}

impl View for PacketBuffer {
    type V = Seq<u8>;

    closed spec fn view(&self) -> Seq<u8> {
        self.data@
    }
}

impl PacketBuffer {
    #[verifier::type_invariant]
    spec fn capacity_fixed(self) -> bool {
        self.data@.len() == TUN_MTU
    }

    /// A fresh buffer, zero-filled as at process start.
    pub fn new() -> (r: Self)
        ensures
            r@.len() == TUN_MTU,
            forall|i: int| 0 <= i < r@.len() ==> r@[i] == 0u8,
    {
        let mut data: Vec<u8> = Vec::new();
        while data.len() < TUN_MTU
            invariant
                data@.len() <= TUN_MTU,
                forall|i: int| 0 <= i < data@.len() ==> data@[i] == 0u8,
            decreases TUN_MTU - data@.len(),
        {
            data.push(0u8);
        }
        PacketBuffer { data }
    }

    /// The buffer's size, which never changes.
    pub fn len(&self) -> (n: usize)
        ensures
            n == self@.len(),
            n == TUN_MTU,
    {
        proof {
            use_type_invariant(self);
        }
        self.data.len()
    }

    /// One byte of the buffer.
    pub fn byte_at(&self, i: usize) -> (b: u8)
        requires
            i < TUN_MTU,
        ensures
            b == self@[i as int],
    {
        proof {
            use_type_invariant(self);
        }
        self.data[i]
    }

    /// Reads one frame into the buffer, as the underlying receive call
    /// does: at most `TUN_MTU` bytes of the frame are copied to the front,
    /// the rest of the buffer keeps its old bytes, and the number of bytes
    /// copied is returned.
    pub fn fill(&mut self, frame: &Vec<u8>) -> (n: usize)
        ensures
            final(self)@ == stored_bytes(old(self)@, frame@),
            final(self)@.len() == TUN_MTU,
            frame@.len() <= TUN_MTU ==> n == frame@.len(),
            frame@.len() > TUN_MTU ==> n == TUN_MTU,
    {
        proof {
            use_type_invariant(&*self);
        }
        let n: usize = if frame.len() <= TUN_MTU {
            frame.len()
        } else {
            TUN_MTU
        };
        let mut data: Vec<u8> = Vec::new();
        let mut i: usize = 0;
        while i < n
            invariant
                i <= n,
                n <= frame@.len(),
                data@ == frame@.take(i as int),
            decreases n - i,
        {
            proof {
                assert(frame@.take(i as int + 1) =~= frame@.take(i as int).push(frame@[i as int]));
            }
            data.push(frame[i]);
            i = i + 1;
        }
        let mut j: usize = n;
        while j < TUN_MTU
            invariant
                n <= j <= TUN_MTU,
                n <= frame@.len(),
                self == old(self),
                self.data@.len() == TUN_MTU,
                data@ == frame@.take(n as int) + self.data@.subrange(n as int, j as int),
            decreases TUN_MTU - j,
        {
            proof {
                assert(self.data@.subrange(n as int, j as int + 1) =~= self.data@.subrange(
                    n as int,
                    j as int,
                ).push(self.data@[j as int]));
                assert((frame@.take(n as int) + self.data@.subrange(n as int, j as int)).push(
                    self.data@[j as int],
                ) =~= frame@.take(n as int) + self.data@.subrange(n as int, j as int + 1));
            }
            let b = self.data[j];
            data.push(b);
            j = j + 1;
        }
        proof {
            if frame@.len() <= TUN_MTU {
                assert(data@ =~= stored_bytes(self.data@, frame@));
            } else {
                assert(data@ =~= stored_bytes(self.data@, frame@));
            }
        }
        self.data = data;
        n
    }

    /// A copy of the whole buffer, in order: what a pump hands on when it
    /// transmits the buffer verbatim.
    pub fn to_vec(&self) -> (r: Vec<u8>)
        ensures
            r@ == self@,
            r@.len() == TUN_MTU,
    {
        proof {
            use_type_invariant(self);
        }
        let mut r: Vec<u8> = Vec::new();
        let mut i: usize = 0;
        while i < TUN_MTU
            invariant
                i <= TUN_MTU,
                self.data@.len() == TUN_MTU,
                r@ == self.data@.take(i as int),
            decreases TUN_MTU - i,
        {
            proof {
                assert(self.data@.take(i as int + 1) =~= self.data@.take(i as int).push(
                    self.data@[i as int],
                ));
            }
            let b = self.data[i];
            r.push(b);
            i = i + 1;
        }
        proof {
            assert(r@ =~= self.data@);
        }
        r
    }
}

/// Law: reading a frame truncates deterministically and only at the
/// buffer's capacity. A frame that fits the buffer — in particular one
/// exactly at the interface's configured MTU — is stored in full at the
/// front, and a larger frame is cut to exactly `TUN_MTU` bytes.
pub proof fn lemma_mtu_boundary(residue: Seq<u8>, frame: Seq<u8>)
    requires
        residue.len() == TUN_MTU,
    ensures
        stored_bytes(residue, frame).len() == TUN_MTU,
        frame.len() <= TUN_MTU ==> stored_bytes(residue, frame).take(frame.len() as int) == frame,
        frame.len() > TUN_MTU ==> stored_bytes(residue, frame) == frame.take(TUN_MTU as int),
{
    if frame.len() <= TUN_MTU {
        assert(stored_bytes(residue, frame).take(frame.len() as int) =~= frame);
    }
}

} // verus!
