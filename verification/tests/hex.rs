use aluvm::bytearray::ByteArray;
use aluvm::hex::HexError;

#[test]
fn hex_text_decodes() {
    let a = ByteArray::from_hex("0xdeadBEEF").unwrap();
    assert_eq!(a.len(), 4);
    assert_eq!(a.to_hex(), "0xdeadbeef");
    let b = ByteArray::from_hex("0x0x01").unwrap();
    assert_eq!(b.len(), 1);
    assert_eq!(b.to_hex(), "0x01");
    assert_eq!(ByteArray::from_hex("").unwrap().to_hex(), "0x");
    assert_eq!(ByteArray::from_hex(&a.to_hex()).unwrap().to_hex(), a.to_hex());
    assert_eq!(ByteArray::from_hex("").unwrap().len(), 0);
}

#[test]
fn hex_text_errors() {
    assert_eq!(ByteArray::from_hex("abc").err(), Some(HexError::OddLengthString(3)));
    assert_eq!(ByteArray::from_hex("zz").err(), Some(HexError::InvalidChar(b'z')));
    assert_eq!(ByteArray::from_hex("0g").err(), Some(HexError::InvalidChar(b'g')));
    assert_eq!(ByteArray::from_hex("0xé0").err(), Some(HexError::OddLengthString(3)));
    assert_eq!(ByteArray::from_hex("0xé00").err(), Some(HexError::InvalidChar(0xC3)));
    let long = "00".repeat(1025);
    assert_eq!(ByteArray::from_hex(&long).err(), Some(HexError::InvalidLength(1024, 1025)));
    let max = "ff".repeat(1024);
    assert_eq!(ByteArray::from_hex(&max).unwrap().len(), 1024);
}
