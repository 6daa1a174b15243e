//! Fixed-width codec primitives: deterministic encode/decode of the scalar
//! and composite values that appear in message payloads.
//!
//! Every encodable type carries a spec-level encoding (`enc`) and a
//! spec-level prefix parser (`dec`); the executable `encode_to` and
//! `decode_from` are proved to agree with them, and `lemma_enc_dec` shows
//! that parsing an encoding gives back exactly the encoded value.

use vstd::prelude::*;
use vstd::bytes::{
    lemma_auto_spec_u32_to_from_le_bytes, spec_u32_from_le_bytes, spec_u32_to_le_bytes,
    u32_from_le_bytes, u32_to_le_bytes,
};
use vstd::slice::slice_subrange;
use vstd::utf8::{
    decode_utf8, encode_utf8, encode_utf8_decode_utf8, encode_utf8_valid_utf8, valid_utf8,
};

verus! {

/// A fixed 32-byte value identifying an account; the codec assumes no
/// internal structure.
pub type Address = [u8; 32];

/// A fixed 32-byte value representing an unsigned 256-bit amount, written
/// little-endian.
pub type U256 = [u8; 32];

/// Error returned by the fallible decode entry point when the buffer is too
/// short or otherwise malformed.
#[derive(Debug, PartialEq, Eq)]
pub struct DecodeError;

/// The encoding of a single byte: the byte itself.
pub open spec fn enc_u8(x: u8) -> Seq<u8> {
    seq![x]
}

/// The encoding of a boolean: one byte, 1 for true and 0 for false.
pub open spec fn enc_bool(b: bool) -> Seq<u8> {
    seq![if b { 1u8 } else { 0u8 }]
}

/// The encoding of a character sequence: a 4-byte little-endian count of the
/// UTF-8 bytes, then the UTF-8 bytes themselves.
pub open spec fn enc_str(s: Seq<char>) -> Seq<u8> {
    spec_u32_to_le_bytes(encode_utf8(s).len() as u32) + encode_utf8(s)
}

/// A value with a deterministic fixed-shape byte encoding.
///
/// `dec` parses a prefix of a byte sequence, yielding the abstract value and
/// the number of bytes consumed; it is the exact spec-level inverse of `enc`.
pub trait Codec: View + Sized {
    /// Whether the value is representable on the wire (only variable-length
    /// fields constrain this; fixed-width values are always valid).
    spec fn valid(&self) -> bool;

    /// The byte encoding of the value.
    spec fn enc(&self) -> Seq<u8>;

    /// Parse a prefix of `bytes`: the abstract value read and the count of
    /// bytes consumed, or `None` when no valid encoding starts the sequence.
    spec fn dec(bytes: Seq<u8>) -> Option<(Self::V, int)>;

    /// Parsing an encoding followed by anything yields back the encoded
    /// value and consumes exactly the encoding.
    proof fn lemma_enc_dec(&self, rest: Seq<u8>)
        requires
            self.valid(),
        ensures
            Self::dec(self.enc() + rest) == Some((self@, self.enc().len() as int)),
    ;

    /// Append the encoding of the value to `out`.
    fn encode_to(&self, out: &mut Vec<u8>)
        requires
            self.valid(),
        ensures
            final(out)@ == old(out)@ + self.enc(),
    ;

    /// Read one value from `buff` starting at `pos`, returning it with the
    /// position just past its encoding, or `None` when no valid encoding is
    /// present there.
    fn decode_from(buff: &[u8], pos: usize) -> (r: Option<(Self, usize)>)
        requires
            pos <= buff@.len(),
        ensures
            match r {
                Some(p) => {
                    &&& p.0.valid()
                    &&& pos <= p.1 <= buff@.len()
                    &&& p.0.enc() == buff@.subrange(pos as int, p.1 as int)
                    &&& Self::dec(buff@.skip(pos as int)) == Some((p.0@, p.1 - pos))
                },
                None => Self::dec(buff@.skip(pos as int)) is None,
            },
    ;
}

/// Round trip: parsing exactly the encoding of any representable value
/// gives back that value and consumes the whole buffer, for every codec
/// type.
pub proof fn lemma_round_trip<T: Codec>(v: T)
    requires
        v.valid(),
    ensures
        T::dec(v.enc()) == Some((v@, v.enc().len() as int)),
{
    v.lemma_enc_dec(Seq::empty());
    assert(v.enc() + Seq::<u8>::empty() =~= v.enc());
}

/// Encode a value into a freshly allocated buffer.
pub fn encode<T: Codec>(data: T) -> (r: Vec<u8>)
    requires
        data.valid(),
    ensures
        r@ == data.enc(),
{
    let mut out: Vec<u8> = Vec::new();
    data.encode_to(&mut out);
    proof {
        assert(out@ =~= data.enc());
    }
    out
}

/// Decode a value from the front of a pre-validated buffer; the caller must
/// know that a valid encoding is present.
pub fn decode<T: Codec>(buff: &[u8]) -> (r: T)
    requires
        T::dec(buff@) is Some,
    ensures
        T::dec(buff@) matches Some(p) && r@ == p.0,
        r.valid(),
{
    proof {
        assert(buff@.skip(0) =~= buff@);
    }
    match T::decode_from(buff, 0) {
        Some(p) => p.0,
        None => unreached(),
    }
}

/// Decode a value from the front of an untrusted buffer, reporting a
/// malformed or truncated encoding as an error instead of failing.
pub fn decode_fallible<T: Codec>(buff: &[u8]) -> (r: Result<T, DecodeError>)
    ensures
        match r {
            Ok(v) => T::dec(buff@) matches Some(p) && v@ == p.0 && v.valid(),
            Err(_) => T::dec(buff@) is None,
        },
{
    proof {
        assert(buff@.skip(0) =~= buff@);
    }
    match T::decode_from(buff, 0) {
        Some(p) => Ok(p.0),
        None => Err(DecodeError),
    }
}

impl Codec for u8 {
    open spec fn valid(&self) -> bool {
        true
    }

    open spec fn enc(&self) -> Seq<u8> {
        enc_u8(*self)
    }

    open spec fn dec(bytes: Seq<u8>) -> Option<(u8, int)> {
        if bytes.len() >= 1 {
            Some((bytes[0], 1))
        } else {
            None
        }
    }

    proof fn lemma_enc_dec(&self, rest: Seq<u8>) {
        assert((self.enc() + rest)[0] == *self);
    }

    fn encode_to(&self, out: &mut Vec<u8>) {
        out.push(*self);
        proof {
            assert(out@ =~= old(out)@ + self.enc());
        }
    }

    fn decode_from(buff: &[u8], pos: usize) -> (r: Option<(Self, usize)>) {
        if pos < buff.len() {
            let b = buff[pos];
            proof {
                assert(b.enc() =~= buff@.subrange(pos as int, pos + 1));
                assert(buff@.skip(pos as int)[0] == b);
            }
            Some((b, pos + 1))
        } else {
            None
        }
    }
}

impl Codec for bool {
    open spec fn valid(&self) -> bool {
        true
    }

    /// Strict: only the bytes 0 and 1 decode as a boolean.

    open spec fn enc(&self) -> Seq<u8> {
        enc_bool(*self)
    }

    open spec fn dec(bytes: Seq<u8>) -> Option<(bool, int)> {
        if bytes.len() >= 1 && bytes[0] <= 1 {
            Some((bytes[0] == 1, 1))
        } else {
            None
        }
    }

    proof fn lemma_enc_dec(&self, rest: Seq<u8>) {
        assert((self.enc() + rest)[0] == self.enc()[0]);
    }

    fn encode_to(&self, out: &mut Vec<u8>) {
        out.push(if *self { 1u8 } else { 0u8 });
        proof {
            assert(out@ =~= old(out)@ + self.enc());
        }
    }

    fn decode_from(buff: &[u8], pos: usize) -> (r: Option<(Self, usize)>) {
        if pos < buff.len() {
            let b = buff[pos];
            proof {
                assert(buff@.skip(pos as int)[0] == b);
            }
            if b <= 1 {
                let v = b == 1;
                proof {
                    assert(v.enc() =~= buff@.subrange(pos as int, pos + 1));
                }
                Some((v, pos + 1))
            } else {
                None
            }
        } else {
            None
        }
    }
}

impl Codec for [u8; 32] {
    open spec fn valid(&self) -> bool {
        true
    }

    open spec fn enc(&self) -> Seq<u8> {
        self@
    }

    open spec fn dec(bytes: Seq<u8>) -> Option<(Seq<u8>, int)> {
        if bytes.len() >= 32 {
            Some((bytes.take(32), 32))
        } else {
            None
        }
    }

    proof fn lemma_enc_dec(&self, rest: Seq<u8>) {
        assert((self.enc() + rest).take(32) =~= self@);
    }

    fn encode_to(&self, out: &mut Vec<u8>) {
        let mut i: usize = 0;
        while i < 32
            invariant
                i <= 32,
                out@ == old(out)@ + self@.take(i as int),
            decreases 32 - i,
        {
            out.push(self[i]);
            proof {
                assert(out@ =~= old(out)@ + self@.take(i + 1));
            }
            i = i + 1;
        }
        proof {
            assert(self@.take(32) =~= self@);
        }
    }

    fn decode_from(buff: &[u8], pos: usize) -> (r: Option<(Self, usize)>) {
        if buff.len() - pos >= 32 {
            let mut a = [0u8; 32];
            let mut i: usize = 0;
            while i < 32
                invariant
                    i <= 32,
                    pos + 32 <= buff@.len(),
                    a@.len() == 32,
                    a@.take(i as int) == buff@.subrange(pos as int, pos + i),
                decreases 32 - i,
            {
                a[i] = buff[pos + i];
                proof {
                    assert(a@.take(i + 1) =~= buff@.subrange(pos as int, pos + i + 1));
                }
                i = i + 1;
            }
            proof {
                assert(a.enc() =~= a@.take(32));
                assert(a@ =~= buff@.subrange(pos as int, pos + 32));
                assert(buff@.skip(pos as int).take(32) =~= buff@.subrange(pos as int, pos + 32));
            }
            Some((a, pos + 32))
        } else {
            None
        }
    }
}

/// Append every byte of `data` to `out`.
pub(crate) fn append_bytes(out: &mut Vec<u8>, data: &[u8])
    ensures
        final(out)@ == old(out)@ + data@,
{
    let mut i: usize = 0;
    while i < data.len()
        invariant
            i <= data@.len(),
            out@ == old(out)@ + data@.take(i as int),
        decreases data@.len() - i,
    {
        out.push(data[i]);
        proof {
            assert(out@ =~= old(out)@ + data@.take(i + 1));
        }
        i = i + 1;
    }
    proof {
        assert(old(out)@ + data@.take(data@.len() as int) =~= old(out)@ + data@);
    }
}

/// Relies on core::str::from_utf8: it succeeds exactly when the input is
/// valid UTF-8, and the returned string's underlying bytes are the input
/// bytes unchanged.
#[verifier::external_body]
fn bytes_to_string(b: &[u8]) -> (r: Option<String>)
    ensures
        r is Some <==> valid_utf8(b@),
        r matches Some(s) ==> encode_utf8(s@) == b@,
{
    match core::str::from_utf8(b) {
        Ok(s) => Some(s.to_owned()),
        Err(_) => None,
    }
}

impl Codec for String {
    /// A string is representable when its UTF-8 byte length fits the 32-bit
    /// length prefix.
    open spec fn valid(&self) -> bool {
        encode_utf8(self@).len() <= u32::MAX
    }

    /// Length-prefixed UTF-8: a 4-byte little-endian byte count, then the
    /// UTF-8 bytes themselves.
    open spec fn enc(&self) -> Seq<u8> {
        enc_str(self@)
    }

    open spec fn dec(bytes: Seq<u8>) -> Option<(Seq<char>, int)> {
        if bytes.len() < 4 {
            None
        } else {
            let n = spec_u32_from_le_bytes(bytes.take(4)) as int;
            if bytes.len() < 4 + n {
                None
            } else {
                let body = bytes.subrange(4, 4 + n);
                if valid_utf8(body) {
                    Some((decode_utf8(body), 4 + n))
                } else {
                    None
                }
            }
        }
    }

    proof fn lemma_enc_dec(&self, rest: Seq<u8>) {
        lemma_auto_spec_u32_to_from_le_bytes();
        let ebytes = encode_utf8(self@);
        let n = ebytes.len() as int;
        let bytes = self.enc() + rest;
        assert(bytes.take(4) =~= spec_u32_to_le_bytes(n as u32));
        assert(spec_u32_from_le_bytes(bytes.take(4)) == n);
        assert(bytes.subrange(4, 4 + n) =~= ebytes);
        encode_utf8_valid_utf8(self@);
        encode_utf8_decode_utf8(self@);
    }

    fn encode_to(&self, out: &mut Vec<u8>) {
        let bs = self.as_str().as_bytes();
        let len_bytes = u32_to_le_bytes(bs.len() as u32);
        append_bytes(out, len_bytes.as_slice());
        append_bytes(out, bs);
        proof {
            assert(out@ =~= old(out)@ + self.enc());
        }
    }

    fn decode_from(buff: &[u8], pos: usize) -> (r: Option<(Self, usize)>) {
        proof {
            lemma_auto_spec_u32_to_from_le_bytes();
        }
        if buff.len() - pos < 4 {
            None
        } else {
            let len_slice = slice_subrange(buff, pos, pos + 4);
            proof {
                assert(len_slice@ =~= buff@.skip(pos as int).take(4));
            }
            let n = u32_from_le_bytes(len_slice) as usize;
            if buff.len() - pos - 4 < n {
                None
            } else {
                let body = slice_subrange(buff, pos + 4, pos + 4 + n);
                proof {
                    assert(body@ =~= buff@.skip(pos as int).subrange(4, 4 + n as int));
                }
                match bytes_to_string(body) {
                    Some(s) => {
                        proof {
                            encode_utf8_decode_utf8(s@);
                            assert(s.enc() =~= buff@.subrange(pos as int, pos + 4 + n as int));
                        }
                        Some((s, pos + 4 + n))
                    },
                    None => None,
                }
            }
        }
    }
}

impl<A: Codec, B: Codec> Codec for (A, B) {
    open spec fn valid(&self) -> bool {
        self.0.valid() && self.1.valid()
    }

    open spec fn enc(&self) -> Seq<u8> {
        self.0.enc() + self.1.enc()
    }

    open spec fn dec(bytes: Seq<u8>) -> Option<((A::V, B::V), int)> {
        match A::dec(bytes) {
            Some(pa) => match B::dec(bytes.skip(pa.1)) {
                Some(pb) => Some(((pa.0, pb.0), pa.1 + pb.1)),
                None => None,
            },
            None => None,
        }
    }

    proof fn lemma_enc_dec(&self, rest: Seq<u8>) {
        let bytes = self.enc() + rest;
        assert(bytes =~= self.0.enc() + (self.1.enc() + rest));
        self.0.lemma_enc_dec(self.1.enc() + rest);
        assert(bytes.skip(self.0.enc().len() as int) =~= self.1.enc() + rest);
        self.1.lemma_enc_dec(rest);
    }

    fn encode_to(&self, out: &mut Vec<u8>) {
        self.0.encode_to(out);
        self.1.encode_to(out);
        proof {
            assert(out@ =~= old(out)@ + self.enc());
        }
    }

    fn decode_from(buff: &[u8], pos: usize) -> (r: Option<(Self, usize)>) {
        match A::decode_from(buff, pos) {
            Some(a) => {
                proof {
                    assert(buff@.skip(pos as int).skip(a.1 - pos) =~= buff@.skip(a.1 as int));
                }
                match B::decode_from(buff, a.1) {
                    Some(b) => {
                        proof {
                            assert((a.0, b.0).enc() =~= buff@.subrange(pos as int, b.1 as int));
                        }
                        Some(((a.0, b.0), b.1))
                    },
                    None => None,
                }
            },
            None => None,
        }
    }
}

impl<A: Codec, B: Codec, C: Codec> Codec for (A, B, C) {
    open spec fn valid(&self) -> bool {
        self.0.valid() && self.1.valid() && self.2.valid()
    }

    open spec fn enc(&self) -> Seq<u8> {
        self.0.enc() + self.1.enc() + self.2.enc()
    }

    open spec fn dec(bytes: Seq<u8>) -> Option<((A::V, B::V, C::V), int)> {
        match <(A, B) as Codec>::dec(bytes) {
            Some(pab) => match C::dec(bytes.skip(pab.1)) {
                Some(pc) => Some(((pab.0.0, pab.0.1, pc.0), pab.1 + pc.1)),
                None => None,
            },
            None => None,
        }
    }

    proof fn lemma_enc_dec(&self, rest: Seq<u8>) {
        let bytes = self.enc() + rest;
        let ab = (self.0, self.1);
        assert(bytes =~= ab.enc() + (self.2.enc() + rest));
        ab.lemma_enc_dec(self.2.enc() + rest);
        assert(bytes.skip(ab.enc().len() as int) =~= self.2.enc() + rest);
        self.2.lemma_enc_dec(rest);
    }

    fn encode_to(&self, out: &mut Vec<u8>) {
        self.0.encode_to(out);
        self.1.encode_to(out);
        self.2.encode_to(out);
        proof {
            assert(out@ =~= old(out)@ + self.enc());
        }
    }

    fn decode_from(buff: &[u8], pos: usize) -> (r: Option<(Self, usize)>) {
        match <(A, B) as Codec>::decode_from(buff, pos) {
            Some(ab) => {
                proof {
                    assert(buff@.skip(pos as int).skip(ab.1 - pos) =~= buff@.skip(ab.1 as int));
                }
                match C::decode_from(buff, ab.1) {
                    Some(c) => {
                        proof {
                            assert((ab.0.0, ab.0.1, c.0).enc() =~= buff@.subrange(
                                pos as int,
                                c.1 as int,
                            ));
                        }
                        Some(((ab.0.0, ab.0.1, c.0), c.1))
                    },
                    None => None,
                }
            },
            None => None,
        }
    }
}

impl<A: Codec, B: Codec, C: Codec, D: Codec> Codec for (A, B, C, D) {
    open spec fn valid(&self) -> bool {
        self.0.valid() && self.1.valid() && self.2.valid() && self.3.valid()
    }

    open spec fn enc(&self) -> Seq<u8> {
        self.0.enc() + self.1.enc() + self.2.enc() + self.3.enc()
    }

    open spec fn dec(bytes: Seq<u8>) -> Option<((A::V, B::V, C::V, D::V), int)> {
        match <(A, B, C) as Codec>::dec(bytes) {
            Some(pabc) => match D::dec(bytes.skip(pabc.1)) {
                Some(pd) => Some(((pabc.0.0, pabc.0.1, pabc.0.2, pd.0), pabc.1 + pd.1)),
                None => None,
            },
            None => None,
        }
    }

    proof fn lemma_enc_dec(&self, rest: Seq<u8>) {
        let bytes = self.enc() + rest;
        let abc = (self.0, self.1, self.2);
        assert(bytes =~= abc.enc() + (self.3.enc() + rest));
        abc.lemma_enc_dec(self.3.enc() + rest);
        assert(bytes.skip(abc.enc().len() as int) =~= self.3.enc() + rest);
        self.3.lemma_enc_dec(rest);
    }

    fn encode_to(&self, out: &mut Vec<u8>) {
        self.0.encode_to(out);
        self.1.encode_to(out);
        self.2.encode_to(out);
        self.3.encode_to(out);
        proof {
            assert(out@ =~= old(out)@ + self.enc());
        }
    }

    fn decode_from(buff: &[u8], pos: usize) -> (r: Option<(Self, usize)>) {
        match <(A, B, C) as Codec>::decode_from(buff, pos) {
            Some(abc) => {
                proof {
                    assert(buff@.skip(pos as int).skip(abc.1 - pos) =~= buff@.skip(abc.1 as int));
                }
                match D::decode_from(buff, abc.1) {
                    Some(d) => {
                        proof {
                            assert((abc.0.0, abc.0.1, abc.0.2, d.0).enc() =~= buff@.subrange(
                                pos as int,
                                d.1 as int,
                            ));
                        }
                        Some(((abc.0.0, abc.0.1, abc.0.2, d.0), d.1))
                    },
                    None => None,
                }
            },
            None => None,
        }
    }
}

} // verus!
