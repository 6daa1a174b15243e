//! The protocol tag: a 128-bit constant whose little-endian encoding opens
//! every message, followed by a one-byte operation discriminant and the
//! operation's payload.

use vstd::prelude::*;
use vstd::bytes::{lemma_auto_spec_u128_to_from_le_bytes, spec_u128_to_le_bytes, u128_to_le_bytes};
use crate::codec::append_bytes;

verus! {

/// The protocol family identifier carried by every message.
pub const PREFIX: u128 = 1;

/// The first 16 bytes of every valid message: the little-endian encoding of
/// [`PREFIX`].
pub open spec fn tag_bytes() -> Seq<u8> {
    spec_u128_to_le_bytes(PREFIX)
}

/// A full message image: tag, discriminant byte, payload.
pub open spec fn message_bytes(idx: u8, payload: Seq<u8>) -> Seq<u8> {
    tag_bytes() + seq![idx] + payload
}

/// Whether a buffer opens with the protocol tag.
pub open spec fn has_tag(b: Seq<u8>) -> bool {
    b.len() >= 16 && b.take(16) == tag_bytes()
}

/// The tag occupies exactly 16 bytes.
pub proof fn lemma_tag_bytes_len()
    ensures
        tag_bytes().len() == 16,
{
    lemma_auto_spec_u128_to_from_le_bytes();
}

/// A protocol tag value, encoded little-endian at the start of a message.
#[derive(Clone, Copy)]
pub struct Prefix(u128);

impl View for Prefix {
    type V = u128;

    closed spec fn view(&self) -> u128 {
        self.0
    }
}

impl Prefix {
    /// Wrap a 128-bit protocol identifier.
    pub fn new(prefix: u128) -> (r: Self)
        ensures
            r@ == prefix,
    {
        Prefix(prefix)
    }

    /// The wrapped identifier.
    pub fn inner(self) -> (r: u128)
        ensures
            r == self@,
    {
        self.0
    }

    /// The 16 little-endian bytes of the identifier.
    pub fn encode(self) -> (r: Vec<u8>)
        ensures
            r@ == spec_u128_to_le_bytes(self@),
            r@.len() == 16,
    {
        u128_to_le_bytes(self.0)
    }

    /// Tag bytes followed by the discriminant byte: a whole message for a
    /// zero-payload operation.
    pub fn encode_with_idx(self, idx: u8) -> (r: Vec<u8>)
        ensures
            r@ == spec_u128_to_le_bytes(self@) + seq![idx],
    {
        let mut out = self.encode();
        out.push(idx);
        proof {
            assert(out@ =~= spec_u128_to_le_bytes(self@) + seq![idx]);
        }
        out
    }

    /// Tag bytes, discriminant byte, then the payload: a whole message for
    /// an operation with arguments or a result.
    pub fn encode_with_idx_and_data(self, idx: u8, data: &[u8]) -> (r: Vec<u8>)
        ensures
            r@ == spec_u128_to_le_bytes(self@) + seq![idx] + data@,
    {
        let mut out = self.encode_with_idx(idx);
        append_bytes(&mut out, data);
        proof {
            assert(out@ =~= spec_u128_to_le_bytes(self@) + seq![idx] + data@);
        }
        out
    }
}

/// Whether `b` opens with the protocol tag; a buffer shorter than the tag
/// never matches.
pub fn check_tag(b: &Vec<u8>) -> (r: bool)
    ensures
        r == has_tag(b@),
{
    proof {
        lemma_tag_bytes_len();
    }
    if b.len() < 16 {
        return false;
    }
    let tag = u128_to_le_bytes(PREFIX);
    let mut i: usize = 0;
    while i < 16
        invariant
            i <= 16,
            b@.len() >= 16,
            tag@ == tag_bytes(),
            tag_bytes().len() == 16,
            forall|j: int| 0 <= j < i ==> b@[j] == tag_bytes()[j],
        decreases 16 - i,
    {
        if b[i] != tag[i] {
            proof {
                assert(b@.take(16)[i as int] != tag_bytes()[i as int]);
            }
            return false;
        }
        i = i + 1;
    }
    proof {
        assert(b@.take(16) =~= tag_bytes());
    }
    true
}

} // verus!
