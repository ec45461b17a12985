use vm::{MachineError, Memory};

#[test]
fn new_memory_is_zeroed() {
    let m = Memory::new(16);
    assert_eq!(m.size(), 16);
    for a in 0..16u16 {
        assert_eq!(m.read(a), Ok(0));
    }
}

#[test]
fn write_then_read() {
    let mut m = Memory::new(16);
    m.write(15, 0xAA).unwrap();
    assert_eq!(m.read(15), Ok(0xAA));
    assert_eq!(m.read(14), Ok(0));
}

#[test]
fn access_at_size_is_out_of_bounds() {
    let mut m = Memory::new(16);
    m.write(3, 7).unwrap();
    assert_eq!(m.read(16), Err(MachineError::OutOfBounds(16)));
    assert_eq!(m.read(0xFFFF), Err(MachineError::OutOfBounds(0xFFFF)));
    assert_eq!(m.write(16, 1), Err(MachineError::OutOfBounds(16)));
    assert_eq!(m.write(200, 1), Err(MachineError::OutOfBounds(200)));
    for a in 0..16u16 {
        assert_eq!(m.read(a), Ok(if a == 3 { 7 } else { 0 }));
    }
}

#[test]
fn empty_memory_rejects_everything() {
    let mut m = Memory::new(0);
    assert_eq!(m.read(0), Err(MachineError::OutOfBounds(0)));
    assert_eq!(m.write(0, 1), Err(MachineError::OutOfBounds(0)));
}

#[test]
fn load_writes_from_zero() {
    let mut m = Memory::new(8);
    m.write(5, 9).unwrap();
    m.load(&[1, 2, 3]).unwrap();
    assert_eq!(m.read(0), Ok(1));
    assert_eq!(m.read(2), Ok(3));
    assert_eq!(m.read(3), Ok(0));
    assert_eq!(m.read(5), Ok(9));
}

#[test]
fn load_too_long_keeps_what_fit() {
    let mut m = Memory::new(3);
    assert_eq!(m.load(&[1, 2, 3, 4, 5]), Err(MachineError::OutOfBounds(3)));
    assert_eq!(m.read(0), Ok(1));
    assert_eq!(m.read(1), Ok(2));
    assert_eq!(m.read(2), Ok(3));
}

#[test]
fn full_memory_covers_every_address() {
    let mut m = Memory::full();
    assert_eq!(m.size(), 0x10000);
    m.write(0xFFFF, 5).unwrap();
    assert_eq!(m.read(0xFFFF), Ok(5));
}

#[test]
fn load_past_the_last_address_fails_at_zero() {
    let mut m = Memory::full();
    let program = vec![7u8; 0x10001];
    assert_eq!(m.load(&program), Err(MachineError::OutOfBounds(0)));
    assert_eq!(m.read(0), Ok(7));
    assert_eq!(m.read(0xFFFF), Ok(7));
}
