use aluvm::bytestr::ByteStr;
use aluvm::codec::{
    decode_bool, decode_bytestr, decode_layout, decode_lib_id, decode_lib_site, decode_number,
    decode_opt_bytestr, decode_opt_number, decode_u16, decode_u8, encode_bool, encode_bytestr,
    encode_layout, encode_lib_id, encode_lib_site, encode_number, encode_opt_bytestr,
    encode_opt_number, encode_u16, DecodeError,
};
use aluvm::layout::{FloatLayout, IntLayout, Layout};
use aluvm::library::{LibId, LibSite};
use aluvm::number::Number;

#[test]
fn word_is_little_endian() {
    let mut out = Vec::new();
    assert_eq!(encode_u16(0x1234, &mut out), 2);
    assert_eq!(out, vec![0x34, 0x12]);
    assert_eq!(decode_u16(&out, 0), Ok((0x1234, 2)));
    assert_eq!(decode_u16(&out, 1), Err(DecodeError::UnexpectedEnd));
    assert_eq!(decode_u8(&out, 1), Ok((0x12, 2)));
    assert_eq!(decode_u8(&out, 2), Err(DecodeError::UnexpectedEnd));
}

#[test]
fn flag_bytes() {
    let mut out = Vec::new();
    encode_bool(true, &mut out);
    encode_bool(false, &mut out);
    out.push(7);
    assert_eq!(out, vec![1, 0, 7]);
    assert_eq!(decode_bool(&out, 0), Ok((true, 1)));
    assert_eq!(decode_bool(&out, 1), Ok((false, 2)));
    assert_eq!(decode_bool(&out, 2), Err(DecodeError::InvalidBool(7)));
}

#[test]
fn layouts_read_back() {
    let mut out = Vec::new();
    let int = Layout::Integer(IntLayout { signed: true, bytes: 300 });
    assert_eq!(encode_layout(int, &mut out), 3);
    assert_eq!(out, vec![1, 0x2C, 0x01]);
    assert_eq!(encode_layout(Layout::Float(FloatLayout::IeeeSingle), &mut out), 1);
    assert_eq!(out[3], 4);
    assert_eq!(decode_layout(&out, 0), Ok((int, 3)));
    assert_eq!(decode_layout(&out, 3), Ok((Layout::Float(FloatLayout::IeeeSingle), 4)));
    assert_eq!(decode_layout(&[10], 0), Err(DecodeError::FloatLayout(10)));
    assert_eq!(decode_layout(&[0, 5], 0), Err(DecodeError::UnexpectedEnd));
}

#[test]
fn numbers_read_back() {
    let n = Number::from_u16(0xBEEF);
    let mut out = vec![0xAA];
    assert_eq!(encode_number(&n, &mut out), 5);
    assert_eq!(out, vec![0xAA, 0, 2, 0, 0xEF, 0xBE]);
    let (m, pos) = decode_number(&out, 1).unwrap();
    assert_eq!(m, n);
    assert_eq!(pos, 6);
    assert_eq!(decode_number(&out[..5], 1).err(), Some(DecodeError::UnexpectedEnd));
    assert_eq!(
        decode_number(&[0, 0, 0], 0).err(),
        Some(DecodeError::NumberLayout(Layout::Integer(IntLayout { signed: false, bytes: 0 }), vec![]))
    );
}

#[test]
fn optional_numbers_use_a_word_then_a_byte() {
    let mut out = Vec::new();
    assert_eq!(encode_opt_number(&None, &mut out), 2);
    assert_eq!(out, vec![0, 0]);
    // the decoder reads a single flag byte
    assert_eq!(decode_opt_number(&out, 0).map(|(v, p)| (v.is_none(), p)), Ok((true, 1)));
    let mut out = Vec::new();
    encode_opt_number(&Some(Number::from_u8(5)), &mut out);
    assert_eq!(out, vec![1, 0, 0, 1, 0, 5]);
    let (v, p) = decode_opt_number(&[1, 0, 1, 0, 5], 0).unwrap();
    assert_eq!(v, Some(Number::from_u8(5)));
    assert_eq!(p, 5);
    assert_eq!(decode_opt_number(&[2], 0).err(), Some(DecodeError::InvalidBool(2)));
}

#[test]
fn byte_strings_read_back() {
    let s = ByteStr::with(b"hello");
    let mut out = Vec::new();
    assert_eq!(encode_bytestr(&s, &mut out), 7);
    assert_eq!(out, vec![5, 0, b'h', b'e', b'l', b'l', b'o']);
    let (t, p) = decode_bytestr(&out, 0).unwrap();
    assert_eq!(t, s);
    assert_eq!(p, 7);
    assert_eq!(decode_bytestr(&out[..6], 0).err(), Some(DecodeError::UnexpectedEnd));
    let mut out = Vec::new();
    assert_eq!(encode_opt_bytestr(&None, &mut out), 1);
    assert_eq!(out, vec![0]);
    assert_eq!(decode_opt_bytestr(&out, 0).map(|(v, p)| (v.is_none(), p)), Ok((true, 1)));
    let (t, p) = decode_opt_bytestr(&[2, b'h', b'i'], 0).unwrap();
    assert_eq!(t, Some(ByteStr::with(b"hi")));
    assert_eq!(p, 3);
}

#[test]
fn library_sites_read_back() {
    let id = LibId::new(0x0102_0304_0506_0708_090A_0B0C_0D0E_0F10, 0x1112_1314_1516_1718_191A_1B1C_1D1E_1F20);
    let mut out = Vec::new();
    assert_eq!(encode_lib_id(id, &mut out), 32);
    assert_eq!(out, (1u8..=32).collect::<Vec<u8>>());
    assert_eq!(decode_lib_id(&out, 0), Ok((id, 32)));
    assert_eq!(decode_lib_id(&out[..31], 0), Err(DecodeError::UnexpectedEnd));
    let site = LibSite::with(0x0203, id);
    let mut out = Vec::new();
    assert_eq!(encode_lib_site(site, &mut out), 34);
    assert_eq!(&out[32..], &[0x03, 0x02]);
    assert_eq!(decode_lib_site(&out, 0), Ok((site, 34)));
}
