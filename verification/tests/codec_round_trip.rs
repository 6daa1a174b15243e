use vrc20::decode;
use vrc20::decode_fallible;
use vrc20::encode;
use vrc20::Address;
use vrc20::DecodeError;
use vrc20::U256;

#[test]
fn round_trip_bool() {
    let t = encode(true);
    assert_eq!(t, vec![1u8]);
    let back: bool = decode(&t);
    assert!(back);

    let f = encode(false);
    assert_eq!(f, vec![0u8]);
    let back: bool = decode(&f);
    assert!(!back);
}

#[test]
fn round_trip_u8() {
    for v in [0u8, 1, 7, 255] {
        let e = encode(v);
        assert_eq!(e, vec![v]);
        let back: u8 = decode(&e);
        assert_eq!(back, v);
    }
}

#[test]
fn round_trip_address_zero() {
    let a: Address = [0u8; 32];
    let e = encode(a);
    assert_eq!(e, vec![0u8; 32]);
    let back: Address = decode(&e);
    assert_eq!(back, a);
}

#[test]
fn round_trip_amount_max() {
    let v: U256 = [0xffu8; 32];
    let e = encode(v);
    assert_eq!(e.len(), 32);
    let back: U256 = decode(&e);
    assert_eq!(back, v);
}

#[test]
fn round_trip_string_empty() {
    let e = encode(String::new());
    assert_eq!(e, vec![0u8, 0, 0, 0]);
    let back: String = decode(&e);
    assert_eq!(back, "");
}

#[test]
fn round_trip_string_ascii() {
    let e = encode(String::from("AB"));
    assert_eq!(e, vec![2u8, 0, 0, 0, 0x41, 0x42]);
    let back: String = decode(&e);
    assert_eq!(back, "AB");
}

#[test]
fn round_trip_string_multibyte() {
    let s = String::from("T\u{e9}k\u{20ac}n");
    let e = encode(s.clone());
    let utf8 = s.as_bytes();
    assert_eq!(e[0] as usize, utf8.len());
    assert_eq!(&e[4..], utf8);
    let back: String = decode(&e);
    assert_eq!(back, s);
}

#[test]
fn round_trip_pair() {
    let to: Address = [0x0au8; 32];
    let value: U256 = [0x0bu8; 32];
    let e = encode((to, value));
    assert_eq!(e.len(), 64);
    assert_eq!(&e[..32], &[0x0au8; 32]);
    assert_eq!(&e[32..], &[0x0bu8; 32]);
    let back: (Address, U256) = decode(&e);
    assert_eq!(back, (to, value));
}

#[test]
fn round_trip_triple() {
    let from: Address = [1u8; 32];
    let to: Address = [2u8; 32];
    let value: U256 = [3u8; 32];
    let e = encode((from, to, value));
    assert_eq!(e.len(), 96);
    let back: (Address, Address, U256) = decode(&e);
    assert_eq!(back, (from, to, value));
}

#[test]
fn round_trip_quad() {
    let e = encode((1u8, [4u8; 32], [5u8; 32], [6u8; 32]));
    assert_eq!(e.len(), 97);
    assert_eq!(e[0], 1);
    let back: (u8, Address, Address, U256) = decode(&e);
    assert_eq!(back, (1u8, [4u8; 32], [5u8; 32], [6u8; 32]));
}

#[test]
fn decode_fallible_truncated_address() {
    let r: Result<Address, DecodeError> = decode_fallible(&[0u8; 31]);
    assert_eq!(r, Err(DecodeError));
}

#[test]
fn decode_fallible_truncated_pair() {
    let r: Result<(Address, U256), DecodeError> = decode_fallible(&[0u8; 63]);
    assert_eq!(r, Err(DecodeError));
}

#[test]
fn decode_fallible_bad_bool_byte() {
    let r: Result<bool, DecodeError> = decode_fallible(&[2u8]);
    assert_eq!(r, Err(DecodeError));
    let r: Result<bool, DecodeError> = decode_fallible(&[]);
    assert_eq!(r, Err(DecodeError));
}

#[test]
fn decode_fallible_bad_string() {
    // Length field promises more bytes than the buffer holds.
    let r: Result<String, DecodeError> = decode_fallible(&[5u8, 0, 0, 0, 0x61]);
    assert_eq!(r, Err(DecodeError));
    // Body is not valid UTF-8.
    let r: Result<String, DecodeError> = decode_fallible(&[1u8, 0, 0, 0, 0xff]);
    assert_eq!(r, Err(DecodeError));
    // Shorter than the length field itself.
    let r: Result<String, DecodeError> = decode_fallible(&[1u8, 0, 0]);
    assert_eq!(r, Err(DecodeError));
}

#[test]
fn decode_fallible_ignores_trailing_bytes() {
    let mut buf = vec![1u8];
    buf.extend_from_slice(&[9u8; 4]);
    let r: Result<bool, DecodeError> = decode_fallible(&buf);
    assert_eq!(r, Ok(true));
}
