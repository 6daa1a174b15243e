use vrc20::Prefix;
use vrc20::PREFIX;

#[test]
fn prefix_new_inner() {
    let p = Prefix::new(42);
    assert_eq!(p.inner(), 42);
    assert_eq!(Prefix::new(PREFIX).inner(), 1);
}

#[test]
fn prefix_encode_is_little_endian() {
    let p = Prefix::new(0x0102_0304);
    let bytes = p.encode();
    assert_eq!(bytes.len(), 16);
    assert_eq!(&bytes[..4], &[0x04, 0x03, 0x02, 0x01]);
    assert_eq!(&bytes[4..], &[0u8; 12]);
}

#[test]
fn prefix_encode_with_idx() {
    let bytes = Prefix::new(1).encode_with_idx(9);
    assert_eq!(bytes.len(), 17);
    assert_eq!(bytes[0], 1);
    assert_eq!(&bytes[1..16], &[0u8; 15]);
    assert_eq!(bytes[16], 9);
}

#[test]
fn prefix_encode_with_idx_and_data() {
    let bytes = Prefix::new(1).encode_with_idx_and_data(5, &[0xaa, 0xbb]);
    assert_eq!(bytes.len(), 19);
    assert_eq!(bytes[16], 5);
    assert_eq!(&bytes[17..], &[0xaa, 0xbb]);
}
