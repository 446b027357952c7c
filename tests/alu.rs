use mips_core::computer::alu::{
    add_dword, add_word, add_word_wrapping, align_dword, align_word, bitswap_dword, bitswap_word,
    count_leading_ones_word, count_leading_zeros_dword, div_dword, div_word, div_word_unsigned,
    mod_word, mul_high_dword, mul_high_dword_unsigned, mul_high_word, mul_high_word_unsigned,
    mul_word, mul_word_unsigned, rotate_right_dword, rotate_right_word, shift_right_arith_word,
    shift_right_word, sign_extend_word, sub_word,
};

#[test]
fn word_results_are_sign_extended() {
    assert_eq!(sign_extend_word(0x1_8000_0000), 0xFFFF_FFFF_8000_0000);
    assert_eq!(sign_extend_word(0xFFFF_FFFF_7FFF_FFFF), 0x7FFF_FFFF);
    assert_eq!(add_word_wrapping(0x7FFF_FFFF, 1), 0xFFFF_FFFF_8000_0000);
}

#[test]
fn trapping_add_and_sub_detect_overflow() {
    assert_eq!(add_word(0x7FFF_FFFF, 1), None);
    assert_eq!(add_word(5, 0xFFFF_FFFF), Some(4));
    assert_eq!(sub_word(0x8000_0000, 1), None);
    assert_eq!(add_dword(i64::MAX as u64, 1), None);
    assert_eq!(add_dword(u64::MAX, 1), Some(0));
}

#[test]
fn shifts_and_rotates() {
    assert_eq!(shift_right_word(0xFFFF_FFFF_8000_0000, 4), 0x0800_0000);
    assert_eq!(shift_right_word(0x8000_0000, 0), 0xFFFF_FFFF_8000_0000);
    assert_eq!(shift_right_arith_word(0x8000_0000, 4), 0xFFFF_FFFF_F800_0000);
    assert_eq!(rotate_right_word(0x0000_0001, 1), 0xFFFF_FFFF_8000_0000);
    assert_eq!(rotate_right_word(0x1234_5678, 0), 0x1234_5678);
    assert_eq!(rotate_right_dword(0x1, 4), 0x1000_0000_0000_0000);
    assert_eq!(rotate_right_dword(0xABCD, 0), 0xABCD);
}

#[test]
fn multiplication_halves() {
    assert_eq!(mul_word(0xFFFF_FFFF, 2), 0xFFFF_FFFF_FFFF_FFFE);
    assert_eq!(mul_high_word(0xFFFF_FFFF, 2), 0xFFFF_FFFF_FFFF_FFFF);
    assert_eq!(mul_word_unsigned(0x8000_0000, 3), 0xFFFF_FFFF_8000_0000);
    assert_eq!(mul_high_word_unsigned(0xFFFF_FFFF, 2), 1);
    assert_eq!(mul_high_dword(u64::MAX, 2), u64::MAX);
    assert_eq!(mul_high_dword_unsigned(u64::MAX, 2), 1);
}

#[test]
fn division_truncates_and_rejects_zero() {
    assert_eq!(div_word(7, 0), None);
    assert_eq!(div_word((-7i64) as u64, 2), Some((-3i64) as u64));
    assert_eq!(mod_word((-7i64) as u64, 2), Some((-1i64) as u64));
    assert_eq!(div_word(0x8000_0000, 0xFFFF_FFFF), Some(0xFFFF_FFFF_8000_0000));
    assert_eq!(div_word_unsigned(0xFFFF_FFFF, 1), Some(0xFFFF_FFFF_FFFF_FFFF));
    assert_eq!(div_dword(i64::MIN as u64, u64::MAX), Some(i64::MIN as u64));
}

#[test]
fn count_leading_bits() {
    assert_eq!(count_leading_ones_word(0xFFFF_FFFF_F000_0000), 4);
    assert_eq!(count_leading_ones_word(0x7FFF_FFFF), 0);
    assert_eq!(count_leading_zeros_dword(0), 64);
    assert_eq!(count_leading_zeros_dword(1), 63);
}

#[test]
fn bitswap_reverses_each_byte() {
    assert_eq!(bitswap_dword(0x0102_0408_1020_4080), 0x8040_2010_0804_0201);
    assert_eq!(bitswap_word(0x0000_0001), 0x80);
    assert_eq!(bitswap_word(0x0000_0100_0000_0001), 0x80);
    assert_eq!(bitswap_word(0x0100_0000), 0xFFFF_FFFF_8000_0000);
    let x = 0x1234_5678_9ABC_DEF0u64;
    assert_eq!(bitswap_word(bitswap_word(x)), sign_extend_word(x));
    assert_eq!(bitswap_dword(bitswap_dword(x)), x);
}

#[test]
fn align_concatenates_bytes() {
    let rs = 0x1122_3344_5566_7788u64;
    let rt = 0x99AA_BBCC_DDEE_FF00u64;
    assert_eq!(align_dword(rs, rt, 0), rt);
    assert_eq!(align_dword(rs, rt, 8), rs);
    assert_eq!(align_dword(rs, rt, 2), 0xBBCC_DDEE_FF00_1122);
    assert_eq!(align_word(rs, rt, 0), 0xFFFF_FFFF_DDEE_FF00);
    assert_eq!(align_word(rs, rt, 1), 0xFFFF_FFFF_EEFF_0055);
    assert_eq!(align_word(rs, rt, 4), 0x5566_7788);
}
