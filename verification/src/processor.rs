//! The operation catalog and the dispatcher.
//!
//! `Vrc20` is the closed set of nine operations a token service provides;
//! `Vrc20Processor` adds the dispatch engine: decode an incoming request,
//! guard it against foreign protocols, route it to the right operation and
//! encode the result. `dispatch_spec` is the exact mathematical description
//! of one dispatch step, and `process` is proved to follow it.

use vstd::prelude::*;
use vstd::slice::slice_subrange;
use crate::codec::{decode_fallible, enc_bool, enc_str, enc_u8, Address, Codec, U256};
use crate::message::{Request, Response};
use crate::prefix::{check_tag, has_tag, lemma_tag_bytes_len, message_bytes, tag_bytes};

verus! {

/// Why a request was rejected; all three are returned as values, never
/// raised as aborts.
#[derive(Debug, Clone, Copy, PartialEq, Eq)]
pub enum Error {
    /// The buffer's leading bytes are not the protocol tag: the message
    /// belongs to a different or no recognized protocol.
    WrongStandard,
    /// The tag matched but the discriminant names no catalog operation.
    WrongCall,
    /// The discriminant is recognized but the payload does not decode into
    /// the operation's fixed shape.
    WrongArguments,
}

/// Marker restricting who may act as a dispatcher: implementing
/// [`Vrc20Processor`] requires opting in here as well, so the catalog
/// cannot be supplied accidentally by unrelated code.
pub trait Sealed {}

/// The catalog of the nine token operations, plus the two events a service
/// emits. Each executable method is pinned to a spec-level counterpart so
/// that dispatching can be described exactly.
pub trait Vrc20: Sized {
    /// The token name the implementation reports.
    spec fn spec_name(&self) -> Seq<char>;

    /// The token symbol the implementation reports.
    spec fn spec_symbol(&self) -> Seq<char>;

    /// The decimal count the implementation reports.
    spec fn spec_decimals(&self) -> u8;

    /// The total supply the implementation reports.
    spec fn spec_total_supply(&self) -> Seq<u8>;

    /// The balance the implementation reports for an owner.
    spec fn spec_balance_of(&self, owner: Seq<u8>) -> Seq<u8>;

    /// The state after a transfer.
    spec fn spec_transfer_post(self, to: Seq<u8>, value: Seq<u8>) -> Self;

    /// Whether a transfer succeeds.
    spec fn spec_transfer_ret(self, to: Seq<u8>, value: Seq<u8>) -> bool;

    /// The state after a delegated transfer.
    spec fn spec_transfer_from_post(self, from: Seq<u8>, to: Seq<u8>, value: Seq<u8>) -> Self;

    /// Whether a delegated transfer succeeds.
    spec fn spec_transfer_from_ret(self, from: Seq<u8>, to: Seq<u8>, value: Seq<u8>) -> bool;

    /// The state after an approval.
    spec fn spec_approve_post(self, spender: Seq<u8>, value: Seq<u8>) -> Self;

    /// Whether an approval succeeds.
    spec fn spec_approve_ret(self, spender: Seq<u8>, value: Seq<u8>) -> bool;

    /// The allowance the implementation reports for an owner/spender pair.
    spec fn spec_allowance(&self, owner: Seq<u8>, spender: Seq<u8>) -> Seq<u8>;

    /// Value was transferred.
    fn _transfer(from: Address, to: Address, value: U256);

    /// Value was approved.
    fn _approval(owner: Address, spender: Address, value: U256);

    /// Return name.
    fn name(&self) -> (r: String)
        ensures
            r@ == self.spec_name(),
            r.valid(),
    ;

    /// Return symbol.
    fn symbol(&self) -> (r: String)
        ensures
            r@ == self.spec_symbol(),
            r.valid(),
    ;

    /// Return decimals.
    fn decimals(&self) -> (r: u8)
        ensures
            r == self.spec_decimals(),
    ;

    /// Return total supply.
    fn total_supply(&self) -> (r: U256)
        ensures
            r@ == self.spec_total_supply(),
    ;

    /// Return balance of owner.
    fn balance_of(&self, owner: Address) -> (r: U256)
        ensures
            r@ == self.spec_balance_of(owner@),
    ;

    /// Transfer value to address.
    fn transfer(&mut self, to: Address, value: U256) -> (r: bool)
        ensures
            *final(self) == old(self).spec_transfer_post(to@, value@),
            r == old(self).spec_transfer_ret(to@, value@),
    ;

    /// Transfer value to address from specific sender.
    fn transfer_from(&mut self, from: Address, to: Address, value: U256) -> (r: bool)
        ensures
            *final(self) == old(self).spec_transfer_from_post(from@, to@, value@),
            r == old(self).spec_transfer_from_ret(from@, to@, value@),
    ;

    /// Approve token usage.
    fn approve(&mut self, spender: Address, value: U256) -> (r: bool)
        ensures
            *final(self) == old(self).spec_approve_post(spender@, value@),
            r == old(self).spec_approve_ret(spender@, value@),
    ;

    /// Return allowance.
    fn allowance(&self, owner: Address, spender: Address) -> (r: U256)
        ensures
            r@ == self.spec_allowance(owner@, spender@),
    ;
}

/// One dispatch step, described exactly: from a ledger state and an
/// incoming buffer to the state afterwards and either the response bytes or
/// the rejection.
///
/// A buffer that does not open with the tag is `WrongStandard`; one that is
/// too short to carry a discriminant, or whose discriminant names no
/// catalog operation, is `WrongCall`; one whose payload does not decode
/// into the operation's shape is `WrongArguments`. Trailing bytes after a
/// complete payload are ignored, as the operations' fixed shapes leave them
/// meaningless.
pub open spec fn dispatch_spec<L: Vrc20>(l: L, b: Seq<u8>) -> (L, Result<Seq<u8>, Error>) {
    if !has_tag(b) {
        (l, Err(Error::WrongStandard))
    } else if b.len() < 17 {
        (l, Err(Error::WrongCall))
    } else {
        let idx = b[16];
        let p = b.skip(17);
        if idx == 1 {
            (l, Ok(message_bytes(1, enc_str(l.spec_name()))))
        } else if idx == 2 {
            (l, Ok(message_bytes(2, enc_str(l.spec_symbol()))))
        } else if idx == 3 {
            (l, Ok(message_bytes(3, enc_u8(l.spec_decimals()))))
        } else if idx == 4 {
            (l, Ok(message_bytes(4, l.spec_total_supply())))
        } else if idx == 5 {
            match <Address as Codec>::dec(p) {
                Some(q) => (l, Ok(message_bytes(5, l.spec_balance_of(q.0)))),
                None => (l, Err(Error::WrongArguments)),
            }
        } else if idx == 6 {
            match <(Address, U256) as Codec>::dec(p) {
                Some(q) => (
                    l.spec_transfer_post(q.0.0, q.0.1),
                    Ok(message_bytes(6, enc_bool(l.spec_transfer_ret(q.0.0, q.0.1)))),
                ),
                None => (l, Err(Error::WrongArguments)),
            }
        } else if idx == 7 {
            match <(Address, Address, U256) as Codec>::dec(p) {
                Some(q) => (
                    l.spec_transfer_from_post(q.0.0, q.0.1, q.0.2),
                    Ok(message_bytes(7, enc_bool(l.spec_transfer_from_ret(q.0.0, q.0.1, q.0.2)))),
                ),
                None => (l, Err(Error::WrongArguments)),
            }
        } else if idx == 8 {
            match <(Address, U256) as Codec>::dec(p) {
                Some(q) => (
                    l.spec_approve_post(q.0.0, q.0.1),
                    Ok(message_bytes(8, enc_bool(l.spec_approve_ret(q.0.0, q.0.1)))),
                ),
                None => (l, Err(Error::WrongArguments)),
            }
        } else if idx == 9 {
            match <(Address, Address) as Codec>::dec(p) {
                Some(q) => (l, Ok(message_bytes(9, l.spec_allowance(q.0.0, q.0.1)))),
                None => (l, Err(Error::WrongArguments)),
            }
        } else {
            (l, Err(Error::WrongCall))
        }
    }
}

/// The dispatch engine over a [`Vrc20`] catalog. The default `process`
/// body is the one dispatcher; it is verified once, here, against
/// [`dispatch_spec`] for every implementation.
pub trait Vrc20Processor: Sealed + Vrc20 {
    /// Decode `request`, guard the protocol tag, route to the catalog
    /// operation and encode its result; never panics, whatever the buffer
    /// holds.
    fn process(&mut self, request: Request) -> (r: Result<Response, Error>)
        ensures
            *final(self) == dispatch_spec(*old(self), request@).0,
            match r {
                Ok(resp) => dispatch_spec(*old(self), request@).1 == Ok::<Seq<u8>, Error>(resp@),
                Err(e) => dispatch_spec(*old(self), request@).1 == Err::<Seq<u8>, Error>(e),
            },
    {
        let buf = request.bytes();
        if !check_tag(buf) {
            return Err(Error::WrongStandard);
        }
        if buf.len() < 17 {
            return Err(Error::WrongCall);
        }
        let idx = buf[16];
        let payload = slice_subrange(buf.as_slice(), 17, buf.len());
        proof {
            assert(payload@ =~= request@.skip(17));
        }
        if idx == 1 {
            Ok(Response::name(self.name()))
        } else if idx == 2 {
            Ok(Response::symbol(self.symbol()))
        } else if idx == 3 {
            Ok(Response::decimals(self.decimals()))
        } else if idx == 4 {
            Ok(Response::total_supply(self.total_supply()))
        } else if idx == 5 {
            match decode_fallible::<Address>(payload) {
                Ok(owner) => Ok(Response::balance_of(self.balance_of(owner))),
                Err(_) => Err(Error::WrongArguments),
            }
        } else if idx == 6 {
            match decode_fallible::<(Address, U256)>(payload) {
                Ok(args) => Ok(Response::transfer(self.transfer(args.0, args.1))),
                Err(_) => Err(Error::WrongArguments),
            }
        } else if idx == 7 {
            match decode_fallible::<(Address, Address, U256)>(payload) {
                Ok(args) => Ok(
                    Response::transfer_from(self.transfer_from(args.0, args.1, args.2)),
                ),
                Err(_) => Err(Error::WrongArguments),
            }
        } else if idx == 8 {
            match decode_fallible::<(Address, U256)>(payload) {
                Ok(args) => Ok(Response::approve(self.approve(args.0, args.1))),
                Err(_) => Err(Error::WrongArguments),
            }
        } else if idx == 9 {
            match decode_fallible::<(Address, Address)>(payload) {
                Ok(args) => Ok(Response::allowance(self.allowance(args.0, args.1))),
                Err(_) => Err(Error::WrongArguments),
            }
        } else {
            Err(Error::WrongCall)
        }
    }
}

/// Tag guard: a buffer that does not open with the protocol tag is always
/// rejected as `WrongStandard`, whatever its remaining bytes hold, and the
/// ledger is untouched.
pub proof fn lemma_dispatch_wrong_standard<L: Vrc20>(l: L, b: Seq<u8>)
    requires
        !has_tag(b),
    ensures
        dispatch_spec(l, b) == (l, Err::<Seq<u8>, Error>(Error::WrongStandard)),
{
}

/// Unknown discriminant: a well-tagged buffer whose discriminant names no
/// catalog operation (the event discriminant 0, or anything above 9) is
/// always rejected as `WrongCall`, and the ledger is untouched.
pub proof fn lemma_dispatch_wrong_call<L: Vrc20>(l: L, b: Seq<u8>)
    requires
        has_tag(b),
        b.len() >= 17,
        b[16] == 0 || b[16] > 9,
    ensures
        dispatch_spec(l, b) == (l, Err::<Seq<u8>, Error>(Error::WrongCall)),
{
}

/// The fixed payload length of each operation that takes arguments.
pub open spec fn args_len(idx: u8) -> int
    recommends
        5 <= idx <= 9,
{
    if idx == 5 {
        32
    } else if idx == 7 {
        96
    } else {
        64
    }
}

/// Truncated payload: a well-tagged buffer for an operation with arguments
/// whose payload is shorter than the operation's fixed shape is always
/// rejected as `WrongArguments`, and the ledger is untouched.
pub proof fn lemma_dispatch_truncated<L: Vrc20>(l: L, b: Seq<u8>)
    requires
        has_tag(b),
        b.len() >= 17,
        5 <= b[16] <= 9,
        b.len() - 17 < args_len(b[16]),
    ensures
        dispatch_spec(l, b) == (l, Err::<Seq<u8>, Error>(Error::WrongArguments)),
{
    let p = b.skip(17);
    assert(p.len() == b.len() - 17);
    if p.len() >= 32 {
        assert(p.skip(32).len() == p.len() - 32);
        if p.len() >= 64 {
            assert(p.skip(64).len() == p.len() - 64);
            assert(<(Address, Address) as Codec>::dec(p.skip(32)) matches Some(q) ==> q.1 == 64);
        }
    }
}

/// Every message the builders produce is well-formed by construction: it
/// opens with the protocol tag and carries its discriminant and payload at
/// their fixed offsets.
pub proof fn lemma_message_well_formed(idx: u8, payload: Seq<u8>)
    ensures
        has_tag(message_bytes(idx, payload)),
        message_bytes(idx, payload).len() == 17 + payload.len(),
        message_bytes(idx, payload)[16] == idx,
        message_bytes(idx, payload).skip(17) =~= payload,
{
    lemma_tag_bytes_len();
    let b = message_bytes(idx, payload);
    assert(b.take(16) =~= tag_bytes());
    assert(b.skip(17) =~= payload);
}

/// Builder/dispatcher consistency for `name`: dispatching the request the
/// builder produces yields exactly the response built from the ledger's
/// name, and leaves the ledger unchanged.
pub proof fn lemma_dispatch_name<L: Vrc20>(l: L)
    ensures
        dispatch_spec(l, message_bytes(1, seq![])).0 == l,
        dispatch_spec(l, message_bytes(1, seq![])).1 == Ok::<Seq<u8>, Error>(
            message_bytes(1, enc_str(l.spec_name())),
        ),
{
    lemma_message_well_formed(1, seq![]);
}

/// Builder/dispatcher consistency for `symbol`.
pub proof fn lemma_dispatch_symbol<L: Vrc20>(l: L)
    ensures
        dispatch_spec(l, message_bytes(2, seq![])).0 == l,
        dispatch_spec(l, message_bytes(2, seq![])).1 == Ok::<Seq<u8>, Error>(
            message_bytes(2, enc_str(l.spec_symbol())),
        ),
{
    lemma_message_well_formed(2, seq![]);
}

/// Builder/dispatcher consistency for `decimals`.
pub proof fn lemma_dispatch_decimals<L: Vrc20>(l: L)
    ensures
        dispatch_spec(l, message_bytes(3, seq![])).0 == l,
        dispatch_spec(l, message_bytes(3, seq![])).1 == Ok::<Seq<u8>, Error>(
            message_bytes(3, enc_u8(l.spec_decimals())),
        ),
{
    lemma_message_well_formed(3, seq![]);
}

/// Builder/dispatcher consistency for `total_supply`.
pub proof fn lemma_dispatch_total_supply<L: Vrc20>(l: L)
    ensures
        dispatch_spec(l, message_bytes(4, seq![])).0 == l,
        dispatch_spec(l, message_bytes(4, seq![])).1 == Ok::<Seq<u8>, Error>(
            message_bytes(4, l.spec_total_supply()),
        ),
{
    lemma_message_well_formed(4, seq![]);
}

/// Builder/dispatcher consistency for `balance_of`.
pub proof fn lemma_dispatch_balance_of<L: Vrc20>(l: L, owner: Address)
    ensures
        dispatch_spec(l, message_bytes(5, owner@)).0 == l,
        dispatch_spec(l, message_bytes(5, owner@)).1 == Ok::<Seq<u8>, Error>(
            message_bytes(5, l.spec_balance_of(owner@)),
        ),
{
    lemma_message_well_formed(5, owner@);
    owner.lemma_enc_dec(Seq::empty());
    assert(owner.enc() + Seq::<u8>::empty() =~= owner@);
}

/// Builder/dispatcher consistency for `transfer`: the ledger moves to its
/// post-transfer state and the response reports the transfer's outcome.
pub proof fn lemma_dispatch_transfer<L: Vrc20>(l: L, to: Address, value: U256)
    ensures
        dispatch_spec(l, message_bytes(6, to@ + value@)).0 == l.spec_transfer_post(to@, value@),
        dispatch_spec(l, message_bytes(6, to@ + value@)).1 == Ok::<Seq<u8>, Error>(
            message_bytes(6, enc_bool(l.spec_transfer_ret(to@, value@))),
        ),
{
    lemma_message_well_formed(6, to@ + value@);
    let args = (to, value);
    args.lemma_enc_dec(Seq::empty());
    assert(args.enc() + Seq::<u8>::empty() =~= to@ + value@);
}

/// Builder/dispatcher consistency for `transfer_from`.
pub proof fn lemma_dispatch_transfer_from<L: Vrc20>(l: L, from: Address, to: Address, value: U256)
    ensures
        dispatch_spec(l, message_bytes(7, from@ + to@ + value@)).0 == l.spec_transfer_from_post(
            from@,
            to@,
            value@,
        ),
        dispatch_spec(l, message_bytes(7, from@ + to@ + value@)).1 == Ok::<Seq<u8>, Error>(
            message_bytes(7, enc_bool(l.spec_transfer_from_ret(from@, to@, value@))),
        ),
{
    lemma_message_well_formed(7, from@ + to@ + value@);
    let args = (from, to, value);
    args.lemma_enc_dec(Seq::empty());
    assert(args.enc() + Seq::<u8>::empty() =~= from@ + to@ + value@);
}

/// Builder/dispatcher consistency for `approve`.
pub proof fn lemma_dispatch_approve<L: Vrc20>(l: L, spender: Address, value: U256)
    ensures
        dispatch_spec(l, message_bytes(8, spender@ + value@)).0 == l.spec_approve_post(
            spender@,
            value@,
        ),
        dispatch_spec(l, message_bytes(8, spender@ + value@)).1 == Ok::<Seq<u8>, Error>(
            message_bytes(8, enc_bool(l.spec_approve_ret(spender@, value@))),
        ),
{
    lemma_message_well_formed(8, spender@ + value@);
    let args = (spender, value);
    args.lemma_enc_dec(Seq::empty());
    assert(args.enc() + Seq::<u8>::empty() =~= spender@ + value@);
}

/// Builder/dispatcher consistency for `allowance`.
pub proof fn lemma_dispatch_allowance<L: Vrc20>(l: L, owner: Address, spender: Address)
    ensures
        dispatch_spec(l, message_bytes(9, owner@ + spender@)).0 == l,
        dispatch_spec(l, message_bytes(9, owner@ + spender@)).1 == Ok::<Seq<u8>, Error>(
            message_bytes(9, l.spec_allowance(owner@, spender@)),
        ),
{
    lemma_message_well_formed(9, owner@ + spender@);
    let args = (owner, spender);
    args.lemma_enc_dec(Seq::empty());
    assert(args.enc() + Seq::<u8>::empty() =~= owner@ + spender@);
}

} // verus!
