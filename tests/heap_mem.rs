use podmem::{AllocError, HeapMem, PodRegion, PodRegionMut};

#[test]
fn allocate_u32_four() {
    let mem = HeapMem::<u32>::allocate(4);
    assert_eq!(mem.region_len(), 4);
    assert_eq!(mem.as_slice().len(), 4);
    assert_eq!(mem.as_bytes().len(), 16);
    assert_eq!(mem.as_slice().as_ptr() as usize % std::mem::align_of::<u32>(), 0);
    assert_eq!(mem.as_slice().as_ptr() as usize % 4, 0);
}

#[test]
fn zeros_u8_ten() {
    let mem = HeapMem::<u8>::zeros(10);
    assert_eq!(mem.as_slice(), &[0u8; 10][..]);
    assert_eq!(mem.as_bytes(), vec![0u8; 10]);
}

#[test]
fn zeros_empty() {
    let mem = HeapMem::<i64>::zeros(0);
    assert_eq!(mem.region_len(), 0);
    assert_eq!(mem.as_bytes().len(), 0);
    assert!(mem.as_slice().is_empty());
    let mem = HeapMem::<u64>::allocate(0);
    assert_eq!(mem.region_len(), 0);
    assert_eq!(mem.as_bytes().len(), 0);
}

#[test]
fn pointer_sized_write_read_back() {
    let mut mem = HeapMem::<usize>::allocate(3);
    {
        let s = mem.as_slice_mut();
        s[0] = 0xdead;
        s[1] = usize::MAX;
        s[2] = 0;
    }
    assert_eq!(mem.as_slice(), &[0xdead, usize::MAX, 0][..]);
    mem.write(2, 42);
    assert_eq!(mem.as_slice(), &[0xdead, usize::MAX, 42][..]);
    assert_eq!(mem.region_len(), 3);
}

#[test]
fn length_kept_through_writes() {
    let mut mem = HeapMem::<i32>::zeros(5);
    for i in 0..5 {
        mem.write(i, -(i as i32));
    }
    mem.as_slice_mut()[4] = 9;
    assert_eq!(mem.region_len(), 5);
    assert_eq!(mem.as_slice(), &[0, -1, -2, -3, 9][..]);
}

#[test]
fn byte_length_is_len_times_size() {
    assert_eq!(HeapMem::<u8>::zeros(7).as_bytes().len(), 7);
    assert_eq!(HeapMem::<u16>::zeros(7).as_bytes().len(), 14);
    assert_eq!(HeapMem::<i32>::zeros(7).as_bytes().len(), 28);
    assert_eq!(HeapMem::<u64>::zeros(7).as_bytes().len(), 56);
    assert_eq!(
        HeapMem::<isize>::zeros(7).as_bytes().len(),
        7 * std::mem::size_of::<isize>()
    );
}

#[test]
fn bytes_least_significant_first() {
    let mut mem = HeapMem::<u32>::zeros(2);
    mem.write(0, 0x0403_0201);
    mem.write(1, 0xa0b0_c0d0);
    assert_eq!(mem.as_bytes(), vec![1, 2, 3, 4, 0xd0, 0xc0, 0xb0, 0xa0]);
}

#[test]
fn bytes_of_signed_values() {
    let mut mem = HeapMem::<i16>::zeros(2);
    mem.write(0, -2);
    mem.write(1, 0x1234);
    assert_eq!(mem.as_bytes(), vec![0xfe, 0xff, 0x34, 0x12]);
    let mut one = HeapMem::<i8>::zeros(1);
    one.write(0, -1);
    assert_eq!(one.as_bytes(), vec![0xff]);
    let mut wide = HeapMem::<i64>::zeros(1);
    wide.write(0, -1);
    assert_eq!(wide.as_bytes(), vec![0xff; 8]);
}

#[test]
fn bytes_of_u64_and_usize() {
    let mut mem = HeapMem::<u64>::zeros(1);
    mem.write(0, 0x0102_0304_0506_0708);
    assert_eq!(mem.as_bytes(), vec![8, 7, 6, 5, 4, 3, 2, 1]);
    let mut p = HeapMem::<usize>::zeros(1);
    p.write(0, 0x0102);
    let b = p.as_bytes();
    assert_eq!(b.len(), std::mem::size_of::<usize>());
    assert_eq!(&b[..2], &[2, 1][..]);
    assert!(b[2..].iter().all(|x| *x == 0));
}

#[test]
fn bytes_match_native_image_on_little_endian() {
    let mut mem = HeapMem::<u32>::zeros(3);
    mem.write(0, 7);
    mem.write(1, 0xffff_0000);
    mem.write(2, 0x1234_5678);
    let mut expected: Vec<u8> = Vec::new();
    for v in mem.as_slice() {
        expected.extend_from_slice(&v.to_le_bytes());
    }
    assert_eq!(mem.as_bytes(), expected);
}

#[test]
fn zeros_every_byte_zero() {
    assert!(HeapMem::<u64>::zeros(33).as_bytes().iter().all(|b| *b == 0));
    assert!(HeapMem::<i16>::zeros(5).as_bytes().iter().all(|b| *b == 0));
    assert!(HeapMem::<usize>::zeros(4).as_bytes().iter().all(|b| *b == 0));
    assert_eq!(HeapMem::<u16>::zeros(3).as_slice(), &[0u16, 0, 0][..]);
}

#[test]
fn start_address_naturally_aligned() {
    let a = HeapMem::<u16>::allocate(9);
    assert_eq!(a.as_slice().as_ptr() as usize % std::mem::align_of::<u16>(), 0);
    let b = HeapMem::<u64>::zeros(9);
    assert_eq!(b.as_slice().as_ptr() as usize % std::mem::align_of::<u64>(), 0);
    let c = HeapMem::<i32>::zeros(1);
    assert_eq!(c.as_slice().as_ptr() as usize % std::mem::align_of::<i32>(), 0);
}

#[test]
fn aligned_allocation_within_natural_alignment() {
    let mem = HeapMem::<u32>::alloc_aligned(6, 4).unwrap();
    assert_eq!(mem.region_len(), 6);
    assert_eq!(mem.as_slice().as_ptr() as usize % 4, 0);
    let mem = HeapMem::<u32>::alloc_aligned(2, 1).unwrap();
    assert_eq!(mem.region_len(), 2);
    let z = HeapMem::<u16>::zeros_aligned(3, 2).unwrap();
    assert_eq!(z.as_slice(), &[0u16, 0, 0][..]);
    assert_eq!(z.as_bytes(), vec![0u8; 6]);
}

#[test]
fn aligned_allocation_unsupported() {
    assert_eq!(
        HeapMem::<u32>::alloc_aligned(6, 0).err(),
        Some(AllocError::UnsupportedAlignment)
    );
    assert_eq!(
        HeapMem::<u32>::alloc_aligned(6, 3).err(),
        Some(AllocError::UnsupportedAlignment)
    );
    assert_eq!(
        HeapMem::<u8>::alloc_aligned(6, 64).err(),
        Some(AllocError::UnsupportedAlignment)
    );
    assert_eq!(
        HeapMem::<u64>::zeros_aligned(2, 4096).err(),
        Some(AllocError::UnsupportedAlignment)
    );
}

#[test]
fn buffer_moves_to_new_owner() {
    let mem = HeapMem::<u8>::zeros(4);
    let moved = mem;
    assert_eq!(moved.region_len(), 4);
    drop(moved);
}

#[test]
fn copy_from_bytes_u32() {
    let mut mem = HeapMem::<u32>::allocate(2);
    let src = [1u8, 2, 3, 4, 5, 0, 0, 0];
    mem.copy_from_bytes(&src);
    assert_eq!(mem.as_slice(), &[0x0403_0201u32, 5][..]);
    assert_eq!(mem.as_bytes(), src.to_vec());
    assert_eq!(mem.region_len(), 2);
}

#[test]
fn copy_from_bytes_signed() {
    let mut mem = HeapMem::<i16>::zeros(3);
    mem.copy_from_bytes(&[0xfe, 0xff, 0x34, 0x12, 0x00, 0x80]);
    assert_eq!(mem.as_slice(), &[-2i16, 0x1234, i16::MIN][..]);
    let mut wide = HeapMem::<i64>::zeros(1);
    wide.copy_from_bytes(&[0xff; 8]);
    assert_eq!(wide.as_slice(), &[-1i64][..]);
    let mut small = HeapMem::<i8>::zeros(2);
    small.copy_from_bytes(&[0x7f, 0x80]);
    assert_eq!(small.as_slice(), &[127i8, -128][..]);
}

#[test]
fn copy_from_bytes_word_sized() {
    let mut src = HeapMem::<usize>::zeros(2);
    src.write(0, usize::MAX - 1);
    src.write(1, 77);
    let bytes = src.as_bytes();
    let mut dst = HeapMem::<usize>::allocate(2);
    dst.copy_from_bytes(&bytes);
    assert_eq!(dst.as_slice(), &[usize::MAX - 1, 77][..]);
    let mut signed = HeapMem::<isize>::allocate(2);
    signed.copy_from_bytes(&bytes);
    assert_eq!(signed.as_slice(), &[-2isize, 77][..]);
}

#[test]
fn copy_from_bytes_u64_and_u8() {
    let mut mem = HeapMem::<u64>::allocate(1);
    mem.copy_from_bytes(&[8, 7, 6, 5, 4, 3, 2, 1]);
    assert_eq!(mem.as_slice(), &[0x0102_0304_0506_0708u64][..]);
    let mut raw = HeapMem::<u8>::allocate(3);
    raw.copy_from_bytes(&[9, 8, 7]);
    assert_eq!(raw.as_slice(), &[9u8, 8, 7][..]);
    let mut empty = HeapMem::<u16>::allocate(0);
    empty.copy_from_bytes(&[]);
    assert_eq!(empty.region_len(), 0);
}

#[test]
fn byte_image_copied_back_restores_elements() {
    let mut mem = HeapMem::<i32>::zeros(4);
    mem.write(0, i32::MIN);
    mem.write(1, -1);
    mem.write(2, 0x0102_0304);
    mem.write(3, i32::MAX);
    let bytes = mem.as_bytes();
    let mut other = HeapMem::<i32>::allocate(4);
    other.copy_from_bytes(&bytes);
    assert_eq!(other.as_slice(), mem.as_slice());
    assert_eq!(other.as_bytes(), bytes);
}
