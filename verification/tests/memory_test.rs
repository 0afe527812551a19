use gcrecomp_core::memory::{MemoryError, MemoryManager};

#[test]
fn ram_roundtrip() {
    let mut m = MemoryManager::new();
    m.write_u32(0x8000_1000, 0xDEAD_BEEF).unwrap();
    assert_eq!(m.read_u32(0x8000_1000).unwrap(), 0xDEAD_BEEF);
    // Uncached mirror sees the same RAM.
    assert_eq!(m.read_u32(0xC000_1000).unwrap(), 0xDEAD_BEEF);
}

#[test]
fn hardware_registers_route_to_io_space() {
    let mut m = MemoryManager::new();
    m.write_u32(0xCC00_201C, 0x0123_4567).unwrap();
    assert_eq!(m.read_u32(0xCC00_201C).unwrap(), 0x0123_4567);
    m.write_u16(0xCC00_2002, 0xABCD).unwrap();
    assert_eq!(m.read_u16(0xCC00_2002).unwrap(), 0xABCD);
    m.write_u8(0xCC00_3000, 0x42).unwrap();
    assert_eq!(m.read_u8(0xCC00_3000).unwrap(), 0x42);
}

#[test]
fn big_endian_layout() {
    let mut m = MemoryManager::new();
    m.write_u32(0x8000_0000, 0x1122_3344).unwrap();
    assert_eq!(m.read_u8(0x8000_0000).unwrap(), 0x11);
    assert_eq!(m.read_u8(0x8000_0003).unwrap(), 0x44);
    assert_eq!(m.read_u16(0x8000_0002).unwrap(), 0x3344);
    m.write_u64(0x8000_0010, 0x0102_0304_0506_0708).unwrap();
    assert_eq!(m.read_u64(0x8000_0010).unwrap(), 0x0102_0304_0506_0708);
    assert_eq!(m.read_u32(0x8000_0014).unwrap(), 0x0506_0708);
}

#[test]
fn unmapped_address_is_rejected() {
    let m = MemoryManager::new();
    assert!(m.read_u32(0x1000_0000).is_err());
    assert!(matches!(m.read_u8(0x0000_0000), Err(_)));
}

#[test]
fn bytes_roundtrip_and_copy() {
    let mut m = MemoryManager::new();
    m.write_bytes(0x8000_2000, &[1, 2, 3, 4]).unwrap();
    assert_eq!(m.read_bytes(0x8000_2000, 4).unwrap(), vec![1, 2, 3, 4]);
    m.bulk_copy(0x8000_3000, 0x8000_2000, 4).unwrap();
    assert_eq!(m.read_bytes(0x8000_3000, 4).unwrap(), vec![1, 2, 3, 4]);
    let _ = MemoryError::InvalidAddress;
}

#[test]
fn two_words_read_as_one_doubleword() {
    let mut m = MemoryManager::new();
    m.write_u32(0x8000_2000, 0x0102_0304).unwrap();
    m.write_u32(0x8000_2004, 0x0506_0708).unwrap();
    assert_eq!(m.read_u64(0x8000_2000).unwrap(), 0x0102_0304_0506_0708);
    assert!(m.read_u64(0x817F_FFF9).is_err());
}

#[test]
fn io_bytes_and_words_round_trip() {
    let mut m = MemoryManager::new();
    m.write_io_u8(0xCC00_0010, 0x5A).unwrap();
    assert_eq!(m.read_io_u8(0xCC00_0010).unwrap(), 0x5A);
    assert_eq!(m.read_u8(0xCC00_0010).unwrap(), 0x5A);
    assert_eq!(m.read_io_u8(0xCC00_0011).unwrap(), 0);
    m.write_io_u32(0xCC00_0020, 0xA1B2_C3D4).unwrap();
    assert_eq!(m.read_io_u32(0xCC00_0020).unwrap(), 0xA1B2_C3D4);
    assert_eq!(m.read_io_u8(0xCC00_0020).unwrap(), 0xA1);
    assert_eq!(m.read_io_u8(0xCC00_0023).unwrap(), 0xD4);
    assert!(m.write_io_u32(0xCC00_FFFD, 1).is_err());
    assert!(m.write_io_u8(0xCC01_0000, 1).is_err());
}

#[test]
fn ram_bytes_round_trip_and_leave_the_rest() {
    let mut m = MemoryManager::new();
    m.write_bytes(0xC000_0100, &[1, 2, 3]).unwrap();
    assert_eq!(m.read_bytes(0x8000_0100, 3).unwrap(), vec![1, 2, 3]);
    assert_eq!(m.read_bytes(0x8000_0103, 2).unwrap(), vec![0, 0]);
    assert!(m.write_bytes(0x817F_FFFF, &[1, 2]).is_err());
    assert!(m.write_bytes(0xCC00_0000, &[1]).is_err());
}

#[test]
fn ram_byte_writes_succeed_exactly_inside_ram() {
    let mut m = MemoryManager::new();
    assert!(m.write_bytes(0x817F_FFFE, &[7, 8]).is_ok());
    assert_eq!(m.read_bytes(0xC17F_FFFE, 2).unwrap(), vec![7, 8]);
    assert_eq!(m.write_bytes(0x817F_FFFF, &[1, 2]), Err(MemoryError::OutOfBounds(0x817F_FFFF)));
    assert_eq!(m.write_bytes(0x9000_0000, &[1]), Err(MemoryError::InvalidAddress(0x9000_0000)));
    assert_eq!(m.read_bytes(0x817F_FFFF, 1).unwrap(), vec![8]);
}
