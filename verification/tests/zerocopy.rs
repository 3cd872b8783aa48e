use musli_wire::error::Error;
use musli_wire::pointer::{load, Ptr, Ref, ZeroCopy};
use musli_wire::store::{StoreStruct, StructWriter};

#[test]
fn load_reads_little_endian_values() {
    let buf = [1u8, 2, 3, 4, 5, 6, 7, 8];
    let r = Ref::<u32>::new(Ptr::zero());
    assert_eq!(load(&buf, r), Ok(0x04030201));
    let r = Ref::<u32>::new(Ptr::new(4));
    assert_eq!(load(&buf, r), Ok(0x08070605));
    let r = Ref::<u64>::new(Ptr::zero());
    assert_eq!(load(&buf, r), Ok(0x0807060504030201));
    let r = Ref::<u8>::new(Ptr::new(2));
    assert_eq!(load(&buf, r), Ok(3));
    let r = Ref::<u16>::new(Ptr::new(6));
    assert_eq!(load(&buf, r), Ok(0x0807));
}

#[test]
fn misaligned_load_fails_with_alignment_violation() {
    let buf = [1u8, 2, 3, 4, 5, 6, 7, 8, 9];
    for offset in [1usize, 2, 3, 5] {
        let r = Ref::<u32>::new(Ptr::new(offset));
        assert_eq!(load(&buf, r), Err(Error::AlignmentViolation));
    }
    let r = Ref::<u16>::new(Ptr::new(1));
    assert_eq!(load(&buf, r), Err(Error::AlignmentViolation));
}

#[test]
fn out_of_range_load_fails_with_out_of_bounds() {
    let buf = [1u8, 2, 3, 4];
    let r = Ref::<u32>::new(Ptr::new(4));
    assert_eq!(load(&buf, r), Err(Error::OutOfBounds));
    let r = Ref::<u64>::new(Ptr::zero());
    assert_eq!(load(&buf, r), Err(Error::OutOfBounds));
    let r = Ref::<u32>::new(Ptr::new(1));
    assert_eq!(load(&buf, r), Err(Error::OutOfBounds));
}

#[test]
fn invalid_bool_byte_fails_with_invalid_bit_pattern() {
    let buf = [2u8];
    let r = Ref::<bool>::new(Ptr::zero());
    assert_eq!(load(&buf, r), Err(Error::InvalidBitPattern));
    let buf = [1u8, 0];
    assert_eq!(load(&buf, Ref::<bool>::new(Ptr::zero())), Ok(true));
    assert_eq!(load(&buf, Ref::<bool>::new(Ptr::new(1))), Ok(false));
}

#[test]
fn ref_constructors_carry_their_offset() {
    let r = Ref::<u32>::zero();
    assert_eq!(r.ptr().offset(), 0);
    let r = Ref::<u64>::new(Ptr::new(24));
    assert_eq!(r.ptr().offset(), 24);
}

#[test]
fn store_struct_pads_between_fields() {
    let mut w = StructWriter::new();
    <StructWriter as StoreStruct<u16>>::pad::<u8>(&mut w, 0x01);
    <StructWriter as StoreStruct<u16>>::pad::<u16>(&mut w, 0x0203);
    let bytes = <StructWriter as StoreStruct<u16>>::finish(w);
    assert_eq!(bytes, vec![1, 0, 3, 2]);

    let r = Ref::<u16>::new(Ptr::new(2));
    assert_eq!(load(&bytes, r), Ok(0x0203));
}

#[test]
fn store_struct_pads_the_tail_to_the_struct_alignment() {
    let mut w = StructWriter::new();
    <StructWriter as StoreStruct<u32>>::pad::<u32>(&mut w, 0xdeadbeef);
    <StructWriter as StoreStruct<u32>>::pad::<u8>(&mut w, 0x7f);
    let bytes = <StructWriter as StoreStruct<u32>>::finish(w);
    assert_eq!(bytes.len(), 8);
    assert_eq!(&bytes[4..], &[0x7f, 0, 0, 0]);
    assert_eq!(load(&bytes, Ref::<u32>::new(Ptr::zero())), Ok(0xdeadbeef));
}
