use mips_core::computer::memory::new;

#[test]
fn new_memory_is_zeroed_with_closed_windows() {
    let mut mem = new(16, 2);
    assert_eq!(mem.size(), 16);
    assert_eq!(mem.read_dword(8), Some(0));
    assert_eq!(mem.translate_address(1, 0), Some(0));
    assert_eq!(mem.translate_address(1, 1), None);
}

#[test]
fn translation_adds_the_base_up_to_the_limit() {
    let mut mem = new(4096, 2);
    mem.set_mmu(1, 0x100, 0xFF);
    assert_eq!(mem.translate_address(1, 0), Some(0x100));
    assert_eq!(mem.translate_address(1, 0xFF), Some(0x1FF));
    assert_eq!(mem.translate_address(1, 0x100), None);
    assert_eq!(mem.translate_address(0, 0), Some(0));
}

#[test]
fn dword_round_trip_is_little_endian() {
    let mut mem = new(64, 1);
    assert!(mem.write_dword(3, 0x0102_0304_0506_0708));
    assert_eq!(mem.read_dword(3), Some(0x0102_0304_0506_0708));
    assert_eq!(mem.read_byte(3), Some(0x08));
    assert_eq!(mem.read_byte(10), Some(0x01));
    assert_eq!(mem.read_word(3), Some(0x0506_0708));
    assert_eq!(mem.read_halfword(9), Some(0x0102));
    assert!(mem.write_dword(0, u64::MAX));
    assert_eq!(mem.read_dword(0), Some(u64::MAX));
}

#[test]
fn accesses_past_the_end_fail() {
    let mut mem = new(16, 1);
    assert_eq!(mem.read_dword(8), Some(0));
    assert_eq!(mem.read_dword(9), None);
    assert_eq!(mem.read_byte(15), Some(0));
    assert_eq!(mem.read_byte(16), None);
    assert!(!mem.write_word(13, 1));
    assert!(!mem.write_byte(16, 1));
    assert_eq!(mem.read_instruction(13), None);
    assert_eq!(mem.read(u64::MAX, 8), None);
    assert!(!mem.write(u64::MAX, 1, 2));
}

#[test]
fn byte_round_trip_everywhere() {
    let mut mem = new(256, 1);
    for p in 0..256u64 {
        assert!(mem.write_byte(p, (p as u8) ^ 0x5A));
    }
    for p in 0..256u64 {
        assert_eq!(mem.read_byte(p), Some((p as u8) ^ 0x5A));
    }
}

#[test]
fn instruction_fetch_is_big_endian() {
    let mut mem = new(16, 1);
    assert!(mem.write_byte(4, 0x12));
    assert!(mem.write_byte(5, 0x34));
    assert!(mem.write_byte(6, 0x56));
    assert!(mem.write_byte(7, 0x78));
    assert_eq!(mem.read_instruction(4), Some(0x1234_5678));
    assert_eq!(mem.read_word(4), Some(0x7856_3412));
}

#[test]
fn generic_read_and_write_take_a_size() {
    let mut mem = new(16, 1);
    assert!(mem.write(2, 0xAABB_CCDD, 3));
    assert_eq!(mem.read(2, 4), Some(0x00BB_CCDD));
    assert_eq!(mem.read(2, 1), Some(0xDD));
}
