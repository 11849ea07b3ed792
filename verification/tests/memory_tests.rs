use chip8::exceptions::ExceptionType;
use chip8::memory::RandomAccessMemory;

#[test]
fn new_memory_is_zeroed() {
    let m = RandomAccessMemory::new();
    assert_eq!(m.read(0).unwrap(), 0);
    assert_eq!(m.read(512).unwrap(), 0);
    assert_eq!(m.read(4095).unwrap(), 0);
}

#[test]
fn write_then_read_returns_value() {
    let mut m = RandomAccessMemory::new();
    for &(a, v) in &[(0u16, 0xAAu8), (1, 0x01), (511, 0xFE), (512, 0x7F), (4095, 0xFF)] {
        m.write(a, v).unwrap();
        assert_eq!(m.read(a).unwrap(), v);
    }
}

#[test]
fn write_does_not_disturb_neighbours() {
    let mut m = RandomAccessMemory::new();
    m.write(100, 1).unwrap();
    m.write(101, 2).unwrap();
    assert_eq!(m.read(99).unwrap(), 0);
    assert_eq!(m.read(100).unwrap(), 1);
    assert_eq!(m.read(101).unwrap(), 2);
    assert_eq!(m.read(102).unwrap(), 0);
}

#[test]
fn out_of_range_read_fails() {
    let m = RandomAccessMemory::new();
    for a in [4096u16, 5000, u16::MAX] {
        let e = m.read(a).unwrap_err();
        assert_eq!(e.exception_type, ExceptionType::AddressOutOfRange);
    }
}

#[test]
fn out_of_range_write_fails_and_changes_nothing() {
    let mut m = RandomAccessMemory::new();
    for a in [4096u16, 5000, u16::MAX] {
        let e = m.write(a, 9).unwrap_err();
        assert_eq!(e.exception_type, ExceptionType::AddressOutOfRange);
    }
    assert_eq!(m.read(4095).unwrap(), 0);
}
