use aluvm::library::{Lib, LibId, LibSeg, SegmentError};

#[test]
fn libraries_are_kept_in_order() {
    let a = LibId::new(1, 0);
    let b = LibId::new(2, 0);
    let c = LibId::new(2, 5);
    let mut seg = LibSeg::default();
    assert_eq!(seg.insert(c), Ok(0));
    assert_eq!(seg.insert(a), Ok(0));
    assert_eq!(seg.insert(b), Ok(1));
    assert_eq!(seg.insert(b), Ok(1));
    assert_eq!(seg.lib_index(a), Some(0));
    assert_eq!(seg.lib_index(b), Some(1));
    assert_eq!(seg.lib_index(c), Some(2));
    assert_eq!(seg.lib_index(LibId::new(9, 9)), None);
    // the library at an index is the one whose index it is
    assert_eq!(seg.lib_at(0), Some(a));
    assert_eq!(seg.lib_at(1), Some(b));
    assert_eq!(seg.lib_at(2), Some(c));
    assert_eq!(seg.lib_at(3), None);
    for id in [a, b, c] {
        assert_eq!(seg.lib_at(seg.lib_index(id).unwrap()), Some(id));
    }
}

#[test]
fn library_segments_are_limited() {
    let lib = Lib::with(vec![1, 2, 3], vec![4, 5]).unwrap();
    assert_eq!(lib.code_segment(), vec![1, 2, 3]);
    assert_eq!(lib.data_segment(), &[4, 5]);
    assert_eq!(lib.libs_segment().lib_at(0), None);
    assert_eq!(
        Lib::with(vec![0; 0x1_0000], vec![]).err(),
        Some(SegmentError::CodeSegmentTooLarge(0x1_0000))
    );
    assert_eq!(
        Lib::with(vec![], vec![0; 0x100_0000]).err(),
        Some(SegmentError::DataSegmentTooLarge(0x100_0000))
    );
}

#[test]
fn library_id_is_the_tagged_hash_of_its_segments() {
    let lib = Lib::with(vec![1, 2, 3], vec![9]).unwrap();
    assert_eq!(
        lib.id(b"ALU"),
        LibId::new(0xa56188cc79de16a35bcd37d7353c1cc4, 0x67c2588e17f4ddc5e935a8b00d140f5c)
    );
    let empty = Lib::with(Vec::new(), Vec::new()).unwrap();
    assert_eq!(
        empty.id(b""),
        LibId::new(0xd74ba839ac312cf8985ccd4e7dc4d21a, 0x7fca24b152b42657f0381a9f0bb4fdda)
    );
}
