use radon_core::dev::address::Address;
use radon_core::dev::{Device, Slice, Wrapper};
use radon_core::error::IoError;

#[test]
fn device_generic_read() {
    let mut device = Wrapper::new(vec![0_u8; 1024]);
    let mut slice = device.slice(Address::from(256_u32)..Address::from(512_u32)).unwrap();
    for i in 0..slice.len() {
        slice.set(i, 1);
    }

    let commit = slice.commit();

    assert!(device.commit(commit).is_ok());

    for (idx, &x) in device.as_bytes().iter().enumerate() {
        assert_eq!(x, u8::from((256..512).contains(&idx)));
    }
}

#[test]
fn device_write_then_read() {
    let mut device = Wrapper::new(vec![0_u8; 64]);
    device.write_to_bytes(Address::new(10), &[1, 2, 3]).unwrap();
    let slice = device.slice(Address::new(9)..Address::new(14)).unwrap();
    assert_eq!(slice.as_bytes(), &[0, 1, 2, 3, 0]);
    assert!(slice.addr() == Address::new(9));
    assert!(!slice.is_mutated());
}

#[test]
fn device_out_of_range() {
    let mut device = Wrapper::new(vec![0_u8; 16]);
    assert_eq!(device.slice(Address::new(8)..Address::new(17)).unwrap_err(), IoError::InvalidInput);
    assert_eq!(device.write_to_bytes(Address::new(15), &[1, 2]).unwrap_err(), IoError::InvalidInput);
    assert_eq!(device.write_to_bytes(Address::new(u64::MAX), &[1, 2]).unwrap_err(), IoError::InvalidInput);
    assert_eq!(device.size().0, 16);
    assert!(device.now().is_none());
}

#[test]
fn address_arithmetic() {
    assert_eq!(Address::new(5) + 3_u64, Address::new(8));
    assert_eq!(Address::new(5) - 3_u64, Address::new(2));
    assert_eq!(Address::forward_checked(Address::new(u64::MAX), 1), None);
    assert_eq!(Address::backward_checked(Address::new(3), 4), None);
    assert_eq!(Address::backward_checked(Address::new(3), 3), Some(Address::new(0)));
    assert_eq!(Address::new(7).index(), 7);
}

#[test]
fn device_generic_write_to_bytes() {
    const OFFSET: u64 = 123;

    // The bytes of a record of a `u16`, a `u8`, a `usize` and a `u128`, little-endian and packed.
    let nb_1: u16 = 0xabcd;
    let nb_2: u8 = 0x99;
    let nb_3: usize = 0x1234;
    let nb_4: u128 = 0x1234_5678_90ab_cdef;
    let mut test_bytes = Vec::new();
    test_bytes.extend_from_slice(&nb_1.to_le_bytes());
    test_bytes.push(nb_2);
    test_bytes.extend_from_slice(&nb_3.to_le_bytes());
    test_bytes.extend_from_slice(&nb_4.to_le_bytes());

    let mut device = Wrapper::new(vec![0_u8; 1024]);
    device.write_to_bytes(Address::from(OFFSET), &test_bytes).unwrap();

    let slice = device.slice(Address::from(OFFSET)..Address::from(OFFSET + test_bytes.len() as u64)).unwrap();

    assert_eq!(test_bytes, slice.as_bytes());
}

#[test]
fn slice_mutation_marks() {
    let bytes = [1u8, 2, 3, 4];
    let mut s = Slice::new(&bytes, Address::new(7));
    assert!(!s.is_mutated());
    let _ = s.as_mut();
    assert!(s.is_mutated());
    assert_eq!(s.addr(), Address::new(7));
    assert_eq!(s.as_bytes(), &[1, 2, 3, 4]);
    s.as_mut()[2] = 9;
    assert_eq!(s.as_bytes(), &[1, 2, 9, 4]);
    assert!(s.is_mutated());

    let mut w = Slice::new(&bytes, Address::new(0));
    w.write_at(1, &[]);
    assert!(w.is_mutated());
    assert!(Slice::new_owned(vec![0u8; 3], Address::new(5)).is_mutated());
}
