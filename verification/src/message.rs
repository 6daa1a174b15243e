//! Message builders and readers.
//!
//! A message is `[tag:16][discriminant:1][payload]`. The builders here are
//! the only way a message is produced, so every produced message is
//! well-formed by construction; the reader parses a request buffer back into
//! a structured view of the call for diagnostics.

use vstd::prelude::*;
use vstd::slice::slice_subrange;
use crate::codec::{decode_fallible, enc_bool, enc_str, enc_u8, encode, Address, Codec, U256};
use crate::prefix::{message_bytes, Prefix, PREFIX};
use crate::processor::Error;

verus! {

/// An encoded request: a byte buffer asking the service to perform one
/// operation of the catalog.
pub struct Request(Vec<u8>);

impl View for Request {
    type V = Seq<u8>;

    closed spec fn view(&self) -> Seq<u8> {
        self.0@
    }
}

impl Request {
    /// Wrap a raw buffer, typically one received from a transport.
    pub fn from_bytes(bytes: Vec<u8>) -> (r: Self)
        ensures
            r@ == bytes@,
    {
        Request(bytes)
    }

    /// The raw bytes of the request.
    pub fn bytes(&self) -> (r: &Vec<u8>)
        ensures
            r@ == self@,
    {
        &self.0
    }

    /// Request to return name.
    pub fn name() -> (r: Self)
        ensures
            r@ == message_bytes(1, seq![]),
    {
        let out = Prefix::new(PREFIX).encode_with_idx(1);
        proof {
            assert(out@ =~= message_bytes(1, seq![]));
        }
        Request(out)
    }

    /// Request to return symbol.
    pub fn symbol() -> (r: Self)
        ensures
            r@ == message_bytes(2, seq![]),
    {
        let out = Prefix::new(PREFIX).encode_with_idx(2);
        proof {
            assert(out@ =~= message_bytes(2, seq![]));
        }
        Request(out)
    }

    /// Request to return decimals.
    pub fn decimals() -> (r: Self)
        ensures
            r@ == message_bytes(3, seq![]),
    {
        let out = Prefix::new(PREFIX).encode_with_idx(3);
        proof {
            assert(out@ =~= message_bytes(3, seq![]));
        }
        Request(out)
    }

    /// Request to return total supply.
    pub fn total_supply() -> (r: Self)
        ensures
            r@ == message_bytes(4, seq![]),
    {
        let out = Prefix::new(PREFIX).encode_with_idx(4);
        proof {
            assert(out@ =~= message_bytes(4, seq![]));
        }
        Request(out)
    }

    /// Request to return balance of owner.
    pub fn balance_of(owner: Address) -> (r: Self)
        ensures
            r@ == message_bytes(5, owner@),
    {
        let payload = encode(owner);
        let out = Prefix::new(PREFIX).encode_with_idx_and_data(5, payload.as_slice());
        proof {
            assert(out@ =~= message_bytes(5, owner@));
        }
        Request(out)
    }

    /// Request to transfer value to address.
    pub fn transfer(to: Address, value: U256) -> (r: Self)
        ensures
            r@ == message_bytes(6, to@ + value@),
    {
        let payload = encode((to, value));
        let out = Prefix::new(PREFIX).encode_with_idx_and_data(6, payload.as_slice());
        proof {
            assert(out@ =~= message_bytes(6, to@ + value@));
        }
        Request(out)
    }

    /// Request to transfer value to address from specific sender.
    pub fn transfer_from(from: Address, to: Address, value: U256) -> (r: Self)
        ensures
            r@ == message_bytes(7, from@ + to@ + value@),
    {
        let payload = encode((from, to, value));
        let out = Prefix::new(PREFIX).encode_with_idx_and_data(7, payload.as_slice());
        proof {
            assert(out@ =~= message_bytes(7, from@ + to@ + value@));
        }
        Request(out)
    }

    /// Request to approve token usage.
    pub fn approve(spender: Address, value: U256) -> (r: Self)
        ensures
            r@ == message_bytes(8, spender@ + value@),
    {
        let payload = encode((spender, value));
        let out = Prefix::new(PREFIX).encode_with_idx_and_data(8, payload.as_slice());
        proof {
            assert(out@ =~= message_bytes(8, spender@ + value@));
        }
        Request(out)
    }

    /// Request to return allowance.
    pub fn allowance(owner: Address, spender: Address) -> (r: Self)
        ensures
            r@ == message_bytes(9, owner@ + spender@),
    {
        let payload = encode((owner, spender));
        let out = Prefix::new(PREFIX).encode_with_idx_and_data(9, payload.as_slice());
        proof {
            assert(out@ =~= message_bytes(9, owner@ + spender@));
        }
        Request(out)
    }
}

/// A structured view of a request: the operation it selects and its decoded
/// arguments, for diagnostics and inspection.
#[derive(Debug, Clone, Copy, PartialEq, Eq)]
pub enum RequestCall {
    Name,
    Symbol,
    Decimals,
    TotalSupply,
    BalanceOf { owner: Address },
    Transfer { to: Address, value: U256 },
    TransferFrom { from: Address, to: Address, value: U256 },
    Approve { spender: Address, value: U256 },
    Allowance { owner: Address, spender: Address },
}

impl Request {
    /// Parse the buffer back into the operation and arguments it encodes:
    /// the inverse of the builders, used for inspection. The protocol tag is
    /// not checked here; the reader goes by the discriminant at its fixed
    /// offset alone. A buffer too short to carry a discriminant, or one with
    /// a discriminant outside the catalog, is `WrongCall`; a payload that
    /// does not decode into the operation's shape is `WrongArguments`.
    pub fn inspect(&self) -> (r: Result<RequestCall, Error>)
        ensures
            ({
                let b = self@;
                if b.len() < 17 {
                    r == Err::<RequestCall, Error>(Error::WrongCall)
                } else {
                    let idx = b[16];
                    let p = b.skip(17);
                    if idx == 1 {
                        r == Ok::<RequestCall, Error>(RequestCall::Name)
                    } else if idx == 2 {
                        r == Ok::<RequestCall, Error>(RequestCall::Symbol)
                    } else if idx == 3 {
                        r == Ok::<RequestCall, Error>(RequestCall::Decimals)
                    } else if idx == 4 {
                        r == Ok::<RequestCall, Error>(RequestCall::TotalSupply)
                    } else if idx == 5 {
                        match <Address as Codec>::dec(p) {
                            Some(q) => r matches Ok(c) && c matches RequestCall::BalanceOf {
                                owner,
                            } && owner@ == q.0,
                            None => r == Err::<RequestCall, Error>(Error::WrongArguments),
                        }
                    } else if idx == 6 {
                        match <(Address, U256) as Codec>::dec(p) {
                            Some(q) => r matches Ok(c) && c matches RequestCall::Transfer {
                                to,
                                value,
                            } && to@ == q.0.0 && value@ == q.0.1,
                            None => r == Err::<RequestCall, Error>(Error::WrongArguments),
                        }
                    } else if idx == 7 {
                        match <(Address, Address, U256) as Codec>::dec(p) {
                            Some(q) => r matches Ok(c) && c matches RequestCall::TransferFrom {
                                from,
                                to,
                                value,
                            } && from@ == q.0.0 && to@ == q.0.1 && value@ == q.0.2,
                            None => r == Err::<RequestCall, Error>(Error::WrongArguments),
                        }
                    } else if idx == 8 {
                        match <(Address, U256) as Codec>::dec(p) {
                            Some(q) => r matches Ok(c) && c matches RequestCall::Approve {
                                spender,
                                value,
                            } && spender@ == q.0.0 && value@ == q.0.1,
                            None => r == Err::<RequestCall, Error>(Error::WrongArguments),
                        }
                    } else if idx == 9 {
                        match <(Address, Address) as Codec>::dec(p) {
                            Some(q) => r matches Ok(c) && c matches RequestCall::Allowance {
                                owner,
                                spender,
                            } && owner@ == q.0.0 && spender@ == q.0.1,
                            None => r == Err::<RequestCall, Error>(Error::WrongArguments),
                        }
                    } else {
                        r == Err::<RequestCall, Error>(Error::WrongCall)
                    }
                }
            }),
    {
        if self.0.len() < 17 {
            return Err(Error::WrongCall);
        }
        let idx = self.0[16];
        let payload = slice_subrange(self.0.as_slice(), 17, self.0.len());
        proof {
            assert(payload@ =~= self@.skip(17));
        }
        if idx == 1 {
            Ok(RequestCall::Name)
        } else if idx == 2 {
            Ok(RequestCall::Symbol)
        } else if idx == 3 {
            Ok(RequestCall::Decimals)
        } else if idx == 4 {
            Ok(RequestCall::TotalSupply)
        } else if idx == 5 {
            match decode_fallible::<Address>(payload) {
                Ok(owner) => Ok(RequestCall::BalanceOf { owner }),
                Err(_) => Err(Error::WrongArguments),
            }
        } else if idx == 6 {
            match decode_fallible::<(Address, U256)>(payload) {
                Ok(args) => Ok(RequestCall::Transfer { to: args.0, value: args.1 }),
                Err(_) => Err(Error::WrongArguments),
            }
        } else if idx == 7 {
            match decode_fallible::<(Address, Address, U256)>(payload) {
                Ok(args) => Ok(
                    RequestCall::TransferFrom { from: args.0, to: args.1, value: args.2 },
                ),
                Err(_) => Err(Error::WrongArguments),
            }
        } else if idx == 8 {
            match decode_fallible::<(Address, U256)>(payload) {
                Ok(args) => Ok(RequestCall::Approve { spender: args.0, value: args.1 }),
                Err(_) => Err(Error::WrongArguments),
            }
        } else if idx == 9 {
            match decode_fallible::<(Address, Address)>(payload) {
                Ok(args) => Ok(RequestCall::Allowance { owner: args.0, spender: args.1 }),
                Err(_) => Err(Error::WrongArguments),
            }
        } else {
            Err(Error::WrongCall)
        }
    }
}

/// An encoded response: a byte buffer carrying one operation's result.
pub struct Response(Vec<u8>);

impl View for Response {
    type V = Seq<u8>;

    closed spec fn view(&self) -> Seq<u8> {
        self.0@
    }
}

impl Response {
    /// The raw bytes of the response.
    pub fn bytes(&self) -> (r: &Vec<u8>)
        ensures
            r@ == self@,
    {
        &self.0
    }

    /// Response to `fn name(..)`.
    pub fn name(name: String) -> (r: Self)
        requires
            name.valid(),
        ensures
            r@ == message_bytes(1, enc_str(name@)),
    {
        let payload = encode(name);
        let out = Prefix::new(PREFIX).encode_with_idx_and_data(1, payload.as_slice());
        proof {
            assert(out@ =~= message_bytes(1, payload@));
        }
        Response(out)
    }

    /// Response to `fn symbol(..)`.
    pub fn symbol(symbol: String) -> (r: Self)
        requires
            symbol.valid(),
        ensures
            r@ == message_bytes(2, enc_str(symbol@)),
    {
        let payload = encode(symbol);
        let out = Prefix::new(PREFIX).encode_with_idx_and_data(2, payload.as_slice());
        proof {
            assert(out@ =~= message_bytes(2, payload@));
        }
        Response(out)
    }

    /// Response to `fn decimals(..)`.
    pub fn decimals(decimals: u8) -> (r: Self)
        ensures
            r@ == message_bytes(3, enc_u8(decimals)),
    {
        let payload = encode(decimals);
        let out = Prefix::new(PREFIX).encode_with_idx_and_data(3, payload.as_slice());
        proof {
            assert(out@ =~= message_bytes(3, enc_u8(decimals)));
        }
        Response(out)
    }

    /// Response to `fn total_supply(..)`.
    pub fn total_supply(total_supply: U256) -> (r: Self)
        ensures
            r@ == message_bytes(4, total_supply@),
    {
        let payload = encode(total_supply);
        let out = Prefix::new(PREFIX).encode_with_idx_and_data(4, payload.as_slice());
        proof {
            assert(out@ =~= message_bytes(4, total_supply@));
        }
        Response(out)
    }

    /// Response to `fn balance_of(..)`.
    pub fn balance_of(balance: U256) -> (r: Self)
        ensures
            r@ == message_bytes(5, balance@),
    {
        let payload = encode(balance);
        let out = Prefix::new(PREFIX).encode_with_idx_and_data(5, payload.as_slice());
        proof {
            assert(out@ =~= message_bytes(5, balance@));
        }
        Response(out)
    }

    /// Response to `fn transfer(..)`.
    pub fn transfer(success: bool) -> (r: Self)
        ensures
            r@ == message_bytes(6, enc_bool(success)),
    {
        let payload = encode(success);
        let out = Prefix::new(PREFIX).encode_with_idx_and_data(6, payload.as_slice());
        proof {
            assert(out@ =~= message_bytes(6, enc_bool(success)));
        }
        Response(out)
    }

    /// Response to `fn transfer_from(..)`.
    pub fn transfer_from(success: bool) -> (r: Self)
        ensures
            r@ == message_bytes(7, enc_bool(success)),
    {
        let payload = encode(success);
        let out = Prefix::new(PREFIX).encode_with_idx_and_data(7, payload.as_slice());
        proof {
            assert(out@ =~= message_bytes(7, enc_bool(success)));
        }
        Response(out)
    }

    /// Response to `fn approve(..)`.
    pub fn approve(success: bool) -> (r: Self)
        ensures
            r@ == message_bytes(8, enc_bool(success)),
    {
        let payload = encode(success);
        let out = Prefix::new(PREFIX).encode_with_idx_and_data(8, payload.as_slice());
        proof {
            assert(out@ =~= message_bytes(8, enc_bool(success)));
        }
        Response(out)
    }

    /// Response to `fn allowance(..)`.
    pub fn allowance(balance: U256) -> (r: Self)
        ensures
            r@ == message_bytes(9, balance@),
    {
        let payload = encode(balance);
        let out = Prefix::new(PREFIX).encode_with_idx_and_data(9, payload.as_slice());
        proof {
            assert(out@ =~= message_bytes(9, balance@));
        }
        Response(out)
    }
}

/// An encoded event: a byte buffer with discriminant 0 whose payload opens
/// with an inner sub-discriminant (1 = transfer, 2 = approval).
pub struct Event(Vec<u8>);

impl View for Event {
    type V = Seq<u8>;

    closed spec fn view(&self) -> Seq<u8> {
        self.0@
    }
}

impl Event {
    /// The raw bytes of the event.
    pub fn bytes(&self) -> (r: &Vec<u8>)
        ensures
            r@ == self@,
    {
        &self.0
    }

    /// Event that value was transferred.
    pub fn transfer(from: Address, to: Address, value: U256) -> (r: Self)
        ensures
            r@ == message_bytes(0, seq![1u8] + from@ + to@ + value@),
    {
        let payload = encode((1u8, from, to, value));
        let out = Prefix::new(PREFIX).encode_with_idx_and_data(0, payload.as_slice());
        proof {
            assert(out@ =~= message_bytes(0, seq![1u8] + from@ + to@ + value@));
        }
        Event(out)
    }

    /// Event that value was approved.
    pub fn approval(owner: Address, spender: Address, value: U256) -> (r: Self)
        ensures
            r@ == message_bytes(0, seq![2u8] + owner@ + spender@ + value@),
    {
        let payload = encode((2u8, owner, spender, value));
        let out = Prefix::new(PREFIX).encode_with_idx_and_data(0, payload.as_slice());
        proof {
            assert(out@ =~= message_bytes(0, seq![2u8] + owner@ + spender@ + value@));
        }
        Event(out)
    }
}

} // verus!
