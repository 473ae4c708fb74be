use aluvm::bytearray::{ByteArray, MaybeByteArray};

#[test]
fn zero_bits_are_counted_per_bit() {
    let z = ByteArray::from_slice(&[0]);
    assert_eq!(z.count_ones(), 0);
    assert_eq!(z.count_zeros(), 8);
    let a = ByteArray::from_slice(&[0xFF, 0x01]);
    assert_eq!(a.count_ones(), 9);
    assert_eq!(a.count_zeros(), 7);
    assert_eq!(a.count_zeros() + a.count_ones(), 8 * a.len());
}

#[test]
fn reshape_tells_whether_bits_were_kept() {
    let mut a = ByteArray::from_slice(&[1, 0]);
    assert!(a.reshape(1));
    assert_eq!(a.len(), 1);
    let mut b = ByteArray::from_slice(&[1, 2]);
    assert!(!b.reshape(1));
    assert_eq!(b.to_hex(), ByteArray::from_slice(&[1]).to_hex());
    let mut c = ByteArray::from_slice(&[1]);
    assert!(c.reshape(4));
    assert_eq!(c.len(), 4);
    assert!(ByteArray::from_slice(&[7, 0, 0]).reshaped(1, false).is_some());
    assert!(ByteArray::from_slice(&[7, 9]).reshaped(1, false).is_none());
    assert!(ByteArray::from_slice(&[7, 9]).reshaped(1, true).is_some());
    let mut m = MaybeByteArray::some(ByteArray::from_slice(&[5, 0]));
    assert!(m.reshape(1));
    let mut n = MaybeByteArray::none();
    assert!(n.reshape(1));
}

#[test]
fn hex_text_reads_back() {
    let bytes: Vec<u8> = (0..=255u8).collect();
    let a = ByteArray::from_slice(&bytes);
    let text = a.to_hex();
    assert_eq!(text.len(), 2 + 2 * 256);
    let back = ByteArray::from_hex(&text).unwrap();
    assert_eq!(back.to_hex(), text);
    assert_eq!(back.len(), 256);
    assert_eq!(format!("{:?}", back), format!("{:?}", a));
    let empty = ByteArray::from_slice(&[]);
    assert_eq!(ByteArray::from_hex(&empty.to_hex()).unwrap().len(), 0);
}
