use vrc20::Address;
use vrc20::Error;
use vrc20::Event;
use vrc20::Request;
use vrc20::RequestCall;
use vrc20::Response;
use vrc20::Sealed;
use vrc20::U256;
use vrc20::Vrc20;
use vrc20::Vrc20Processor;
use vrc20::PREFIX;

/// A fixed ledger returning deterministic values for every operation.
struct StubLedger;

impl Sealed for StubLedger {}

impl Vrc20 for StubLedger {
    // The `spec_*` items are ghost descriptions: they are erased from
    // compiled code and never run, so a diverging body satisfies them here.
    fn spec_name(&self) -> vstd::seq::Seq<char> {
        panic!()
    }

    fn spec_symbol(&self) -> vstd::seq::Seq<char> {
        panic!()
    }

    fn spec_decimals(&self) -> u8 {
        panic!()
    }

    fn spec_total_supply(&self) -> vstd::seq::Seq<u8> {
        panic!()
    }

    fn spec_balance_of(&self, _owner: vstd::seq::Seq<u8>) -> vstd::seq::Seq<u8> {
        panic!()
    }

    fn spec_transfer_post(self, _to: vstd::seq::Seq<u8>, _value: vstd::seq::Seq<u8>) -> Self {
        panic!()
    }

    fn spec_transfer_ret(self, _to: vstd::seq::Seq<u8>, _value: vstd::seq::Seq<u8>) -> bool {
        panic!()
    }

    fn spec_transfer_from_post(
        self,
        _from: vstd::seq::Seq<u8>,
        _to: vstd::seq::Seq<u8>,
        _value: vstd::seq::Seq<u8>,
    ) -> Self {
        panic!()
    }

    fn spec_transfer_from_ret(
        self,
        _from: vstd::seq::Seq<u8>,
        _to: vstd::seq::Seq<u8>,
        _value: vstd::seq::Seq<u8>,
    ) -> bool {
        panic!()
    }

    fn spec_approve_post(self, _spender: vstd::seq::Seq<u8>, _value: vstd::seq::Seq<u8>) -> Self {
        panic!()
    }

    fn spec_approve_ret(self, _spender: vstd::seq::Seq<u8>, _value: vstd::seq::Seq<u8>) -> bool {
        panic!()
    }

    fn spec_allowance(
        &self,
        _owner: vstd::seq::Seq<u8>,
        _spender: vstd::seq::Seq<u8>,
    ) -> vstd::seq::Seq<u8> {
        panic!()
    }

    fn _transfer(_from: Address, _to: Address, _value: U256) {}

    fn _approval(_owner: Address, _spender: Address, _value: U256) {}

    fn name(&self) -> String {
        String::from("Token")
    }

    fn symbol(&self) -> String {
        String::from("TOK")
    }

    fn decimals(&self) -> u8 {
        12
    }

    fn total_supply(&self) -> U256 {
        [0x33u8; 32]
    }

    fn balance_of(&self, owner: Address) -> U256 {
        if owner == [0x11u8; 32] {
            [0x22u8; 32]
        } else {
            [0u8; 32]
        }
    }

    fn transfer(&mut self, _to: Address, _value: U256) -> bool {
        true
    }

    fn transfer_from(&mut self, _from: Address, _to: Address, _value: U256) -> bool {
        false
    }

    fn approve(&mut self, _spender: Address, _value: U256) -> bool {
        true
    }

    fn allowance(&self, _owner: Address, _spender: Address) -> U256 {
        [0x44u8; 32]
    }
}

impl Vrc20Processor for StubLedger {}

fn tag() -> Vec<u8> {
    PREFIX.to_le_bytes().to_vec()
}

fn raw(idx: u8, payload: &[u8]) -> Request {
    let mut buf = tag();
    buf.push(idx);
    buf.extend_from_slice(payload);
    Request::from_bytes(buf)
}

#[test]
fn request_balance_of_layout() {
    let req = Request::balance_of([0x11u8; 32]);
    let bytes = req.bytes();
    assert_eq!(bytes.len(), 49);
    assert_eq!(&bytes[..16], &PREFIX.to_le_bytes());
    // The tag is the constant 1 written little-endian over 16 bytes.
    let mut expected = vec![1u8];
    expected.extend_from_slice(&[0u8; 15]);
    expected.push(5);
    expected.extend_from_slice(&[0x11u8; 32]);
    assert_eq!(bytes, &expected);
}

#[test]
fn dispatch_balance_of_scenario() {
    let mut ledger = StubLedger;
    let resp = ledger.process(Request::balance_of([0x11u8; 32])).unwrap();
    let mut expected = tag();
    expected.push(5);
    expected.extend_from_slice(&[0x22u8; 32]);
    assert_eq!(resp.bytes(), &expected);
    assert_eq!(resp.bytes(), Response::balance_of([0x22u8; 32]).bytes());
}

#[test]
fn dispatch_zero_arg_operations() {
    let mut ledger = StubLedger;
    let resp = ledger.process(Request::name()).unwrap();
    assert_eq!(resp.bytes(), Response::name(String::from("Token")).bytes());
    let resp = ledger.process(Request::symbol()).unwrap();
    assert_eq!(resp.bytes(), Response::symbol(String::from("TOK")).bytes());
    let resp = ledger.process(Request::decimals()).unwrap();
    assert_eq!(resp.bytes(), Response::decimals(12).bytes());
    let resp = ledger.process(Request::total_supply()).unwrap();
    assert_eq!(resp.bytes(), Response::total_supply([0x33u8; 32]).bytes());
}

#[test]
fn dispatch_mutating_operations() {
    let mut ledger = StubLedger;
    let resp = ledger.process(Request::transfer([1u8; 32], [2u8; 32])).unwrap();
    assert_eq!(resp.bytes(), Response::transfer(true).bytes());
    let resp = ledger
        .process(Request::transfer_from([1u8; 32], [2u8; 32], [3u8; 32]))
        .unwrap();
    assert_eq!(resp.bytes(), Response::transfer_from(false).bytes());
    let resp = ledger.process(Request::approve([4u8; 32], [5u8; 32])).unwrap();
    assert_eq!(resp.bytes(), Response::approve(true).bytes());
    let resp = ledger.process(Request::allowance([6u8; 32], [7u8; 32])).unwrap();
    assert_eq!(resp.bytes(), Response::allowance([0x44u8; 32]).bytes());
}

#[test]
fn dispatch_wrong_standard_all_zero_tag() {
    // A mismatched tag wins over everything after it: bytes 16.. would
    // otherwise decode as a valid transfer call.
    let mut buf = vec![0u8; 16];
    buf.push(6);
    buf.extend_from_slice(&[1u8; 64]);
    let mut ledger = StubLedger;
    let r = ledger.process(Request::from_bytes(buf));
    assert_eq!(r.err(), Some(Error::WrongStandard));
}

#[test]
fn dispatch_wrong_standard_short_buffer() {
    let mut ledger = StubLedger;
    let r = ledger.process(Request::from_bytes(Vec::new()));
    assert_eq!(r.err(), Some(Error::WrongStandard));
    let r = ledger.process(Request::from_bytes(vec![1u8; 15]));
    assert_eq!(r.err(), Some(Error::WrongStandard));
}

#[test]
fn dispatch_wrong_standard_late_mismatch() {
    let mut buf = tag();
    buf[15] ^= 0x80;
    buf.push(1);
    let mut ledger = StubLedger;
    let r = ledger.process(Request::from_bytes(buf));
    assert_eq!(r.err(), Some(Error::WrongStandard));
}

#[test]
fn dispatch_wrong_call_unknown_discriminant() {
    let mut ledger = StubLedger;
    for idx in [10u8, 11, 0x7f, 255] {
        let r = ledger.process(raw(idx, &[1u8; 96]));
        assert_eq!(r.err(), Some(Error::WrongCall));
    }
}

#[test]
fn dispatch_wrong_call_event_discriminant() {
    let mut ledger = StubLedger;
    let r = ledger.process(raw(0, &[1u8; 97]));
    assert_eq!(r.err(), Some(Error::WrongCall));
}

#[test]
fn dispatch_wrong_call_missing_discriminant() {
    let mut ledger = StubLedger;
    let r = ledger.process(Request::from_bytes(tag()));
    assert_eq!(r.err(), Some(Error::WrongCall));
}

#[test]
fn dispatch_wrong_arguments_truncated() {
    let mut ledger = StubLedger;
    let shapes = [(5u8, 32usize), (6, 64), (7, 96), (8, 64), (9, 64)];
    for (idx, len) in shapes {
        let r = ledger.process(raw(idx, &vec![0u8; len - 1]));
        assert_eq!(r.err(), Some(Error::WrongArguments), "discriminant {idx}");
        let r = ledger.process(raw(idx, &[]));
        assert_eq!(r.err(), Some(Error::WrongArguments), "discriminant {idx}");
    }
}

#[test]
fn dispatch_accepts_trailing_bytes() {
    let mut ledger = StubLedger;
    let mut payload = vec![0x11u8; 32];
    payload.push(0xee);
    let resp = ledger.process(raw(5, &payload)).unwrap();
    assert_eq!(resp.bytes(), Response::balance_of([0x22u8; 32]).bytes());
}

#[test]
fn inspect_round_trips_builders() {
    assert_eq!(Request::name().inspect(), Ok(RequestCall::Name));
    assert_eq!(Request::symbol().inspect(), Ok(RequestCall::Symbol));
    assert_eq!(Request::decimals().inspect(), Ok(RequestCall::Decimals));
    assert_eq!(Request::total_supply().inspect(), Ok(RequestCall::TotalSupply));
    assert_eq!(
        Request::balance_of([0x11u8; 32]).inspect(),
        Ok(RequestCall::BalanceOf { owner: [0x11u8; 32] })
    );
    assert_eq!(
        Request::transfer([1u8; 32], [2u8; 32]).inspect(),
        Ok(RequestCall::Transfer { to: [1u8; 32], value: [2u8; 32] })
    );
    assert_eq!(
        Request::transfer_from([1u8; 32], [2u8; 32], [3u8; 32]).inspect(),
        Ok(RequestCall::TransferFrom { from: [1u8; 32], to: [2u8; 32], value: [3u8; 32] })
    );
    assert_eq!(
        Request::approve([4u8; 32], [5u8; 32]).inspect(),
        Ok(RequestCall::Approve { spender: [4u8; 32], value: [5u8; 32] })
    );
    assert_eq!(
        Request::allowance([6u8; 32], [7u8; 32]).inspect(),
        Ok(RequestCall::Allowance { owner: [6u8; 32], spender: [7u8; 32] })
    );
}

#[test]
fn inspect_rejects_malformed() {
    assert_eq!(raw(12, &[]).inspect(), Err(Error::WrongCall));
    assert_eq!(Request::from_bytes(tag()).inspect(), Err(Error::WrongCall));
    assert_eq!(raw(5, &[0u8; 31]).inspect(), Err(Error::WrongArguments));
    assert_eq!(raw(7, &[0u8; 95]).inspect(), Err(Error::WrongArguments));
}

#[test]
fn event_layout() {
    let ev = Event::transfer([1u8; 32], [2u8; 32], [3u8; 32]);
    let bytes = ev.bytes();
    assert_eq!(bytes.len(), 17 + 97);
    assert_eq!(&bytes[..16], &PREFIX.to_le_bytes());
    assert_eq!(bytes[16], 0);
    assert_eq!(bytes[17], 1);
    assert_eq!(&bytes[18..50], &[1u8; 32]);
    assert_eq!(&bytes[50..82], &[2u8; 32]);
    assert_eq!(&bytes[82..], &[3u8; 32]);

    let ev = Event::approval([4u8; 32], [5u8; 32], [6u8; 32]);
    let bytes = ev.bytes();
    assert_eq!(bytes[16], 0);
    assert_eq!(bytes[17], 2);
    assert_eq!(&bytes[18..50], &[4u8; 32]);
}
