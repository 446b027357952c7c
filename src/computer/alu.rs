//! The arithmetic and logic of the instruction set, on 64-bit register values.
//!
//! All values are two's complement. A "word" operation works on the low 32
//! bits of its operands and sign-extends its 32-bit result into the whole
//! register; a "double word" operation works on all 64 bits.
use vstd::prelude::*;
use vstd::std_specs::bits::{u32_leading_ones, u32_leading_zeros, u64_leading_ones, u64_leading_zeros};

verus! {

/// The low 32 bits of `x`, sign-extended to 64 bits.
#[verifier::allow_in_spec]
pub fn sign_extend_word(x: u64) -> u64
    returns
        (x as u32 as i32 as i64 as u64),
{
    x as u32 as i32 as i64 as u64
}

/// Whether bits 63..32 of `v` all repeat bit 31.
pub open spec fn is_sign_extended_word(v: u64) -> bool {
    (v >> 32) == (if v & 0x8000_0000 != 0 { 0xFFFF_FFFFu64 } else { 0u64 })
}

/// Every sign-extended word has bits 63..32 equal to bit 31.
pub proof fn lemma_sign_extend_word(x: u64)
    ensures
        is_sign_extended_word(sign_extend_word(x)),
{
    assert((x as u32 as i32 as i64 as u64) >> 32 == (if (x as u32 as i32 as i64 as u64) & 0x8000_0000 != 0 {
        0xFFFF_FFFFu64
    } else {
        0u64
    })) by (bit_vector);
}

/// ADD: the word sum, or `None` when it overflows 32 signed bits.
#[verifier::allow_in_spec]
pub fn add_word(a: u64, b: u64) -> Option<u64>
    returns
        (if (a as i32) + (b as i32) > i32::MAX || (a as i32) + (b as i32) < i32::MIN {
            None
        } else {
            Some(((a as i32) + (b as i32)) as i64 as u64)
        }),
{
    match (a as i32).checked_add(b as i32) {
        Some(x) => Some(x as i64 as u64),
        None => None,
    }
}

/// ADDU: the word sum, wrapping.
#[verifier::allow_in_spec]
pub fn add_word_wrapping(a: u64, b: u64) -> u64
    returns
        ((a as i32).wrapping_add(b as i32) as i64 as u64),
{
    (a as i32).wrapping_add(b as i32) as i64 as u64
}

/// SUB: the word difference, or `None` when it overflows 32 signed bits.
#[verifier::allow_in_spec]
pub fn sub_word(a: u64, b: u64) -> Option<u64>
    returns
        (if (a as i32) - (b as i32) > i32::MAX || (a as i32) - (b as i32) < i32::MIN {
            None
        } else {
            Some(((a as i32) - (b as i32)) as i64 as u64)
        }),
{
    match (a as i32).checked_sub(b as i32) {
        Some(x) => Some(x as i64 as u64),
        None => None,
    }
}

/// SUBU: the word difference, wrapping.
#[verifier::allow_in_spec]
pub fn sub_word_wrapping(a: u64, b: u64) -> u64
    returns
        ((a as i32).wrapping_sub(b as i32) as i64 as u64),
{
    (a as i32).wrapping_sub(b as i32) as i64 as u64
}

/// DADD: the double-word sum, or `None` when it overflows 64 signed bits.
#[verifier::allow_in_spec]
pub fn add_dword(a: u64, b: u64) -> Option<u64>
    returns
        (if (a as i64) + (b as i64) > i64::MAX || (a as i64) + (b as i64) < i64::MIN {
            None
        } else {
            Some(((a as i64) + (b as i64)) as i64 as u64)
        }),
{
    match (a as i64).checked_add(b as i64) {
        Some(x) => Some(x as u64),
        None => None,
    }
}

/// DSUB: the double-word difference, or `None` when it overflows 64 signed bits.
#[verifier::allow_in_spec]
pub fn sub_dword(a: u64, b: u64) -> Option<u64>
    returns
        (if (a as i64) - (b as i64) > i64::MAX || (a as i64) - (b as i64) < i64::MIN {
            None
        } else {
            Some(((a as i64) - (b as i64)) as i64 as u64)
        }),
{
    match (a as i64).checked_sub(b as i64) {
        Some(x) => Some(x as u64),
        None => None,
    }
}

/// SLT: 1 when `a < b` as signed double words, else 0.
#[verifier::allow_in_spec]
pub fn less_signed(a: u64, b: u64) -> u64
    returns
        (if (a as i64) < (b as i64) { 1u64 } else { 0u64 }),
{
    if (a as i64) < (b as i64) { 1 } else { 0 }
}

/// SLTU: 1 when `a < b` as unsigned double words, else 0.
#[verifier::allow_in_spec]
pub fn less_unsigned(a: u64, b: u64) -> u64
    returns
        (if a < b { 1u64 } else { 0u64 }),
{
    if a < b { 1 } else { 0 }
}

/// SLL: the word shifted left by `sa` bits.
#[verifier::allow_in_spec]
pub fn shift_left_word(b: u64, sa: u32) -> u64
    requires
        sa < 32,
    returns
        (sign_extend_word(b << sa)),
{
    sign_extend_word(b << sa)
}

/// SRL: the word shifted right by `sa` bits, filling with zeros.
#[verifier::allow_in_spec]
pub fn shift_right_word(b: u64, sa: u32) -> u64
    requires
        sa < 32,
    returns
        (((b as u32) >> sa) as i32 as i64 as u64),
{
    ((b as u32) >> sa) as i32 as i64 as u64
}

/// SRA: the word shifted right by `sa` bits, filling with its sign bit.
#[verifier::allow_in_spec]
pub fn shift_right_arith_word(b: u64, sa: u32) -> u64
    requires
        sa < 32,
    returns
        (((b as i32) >> sa) as i64 as u64),
{
    ((b as i32) >> sa) as i64 as u64
}

/// ROTR: the word rotated right by `sa` bits.
#[verifier::allow_in_spec]
pub fn rotate_right_word(b: u64, sa: u32) -> u64
    requires
        sa < 32,
    returns
        (((((b as u32) as u64) >> sa) | (((b as u32) as u64) << (32 - sa))) as u32 as i32 as i64 as u64),
{
    let x = (b as u32) as u64;
    ((x >> sa) | (x << (32 - sa))) as u32 as i32 as i64 as u64
}

/// DSLL: the double word shifted left by `sa` bits.
#[verifier::allow_in_spec]
pub fn shift_left_dword(b: u64, sa: u32) -> u64
    requires
        sa < 64,
    returns
        (b << sa),
{
    b << sa
}

/// DSRL: the double word shifted right by `sa` bits, filling with zeros.
#[verifier::allow_in_spec]
pub fn shift_right_dword(b: u64, sa: u32) -> u64
    requires
        sa < 64,
    returns
        (b >> sa),
{
    b >> sa
}

/// DSRA: the double word shifted right by `sa` bits, filling with its sign bit.
#[verifier::allow_in_spec]
pub fn shift_right_arith_dword(b: u64, sa: u32) -> u64
    requires
        sa < 64,
    returns
        (((b as i64) >> sa) as u64),
{
    ((b as i64) >> sa) as u64
}

/// DROTR: the double word rotated right by `sa` bits.
#[verifier::allow_in_spec]
pub fn rotate_right_dword(b: u64, sa: u32) -> u64
    requires
        sa < 64,
    returns
        (if sa == 0 { b } else { (b >> sa) | (b << (64 - sa)) }),
{
    if sa == 0 {
        b
    } else {
        (b >> sa) | (b << (64 - sa))
    }
}

/// MUL: the low word of the signed product, sign-extended.
#[verifier::allow_in_spec]
pub fn mul_word(a: u64, b: u64) -> u64
    returns
        ((a as i32).wrapping_mul(b as i32) as i64 as u64),
{
    (a as i32).wrapping_mul(b as i32) as i64 as u64
}

/// MUH: the high word of the signed 64-bit product of the two words.
#[verifier::allow_in_spec]
pub fn mul_high_word(a: u64, b: u64) -> u64
    returns
        (((a as i32) * (b as i32) / 0x1_0000_0000) as i64 as u64),
{
    let x = (a as i32) as i64;
    let y = (b as i32) as i64;
    proof {
        assert(-0x8000_0000 <= x < 0x8000_0000 && -0x8000_0000 <= y < 0x8000_0000);
        assert(-0x4000_0000_0000_0000 <= x * y <= 0x4000_0000_0000_0000) by (nonlinear_arith)
            requires
                -0x8000_0000 <= x < 0x8000_0000,
                -0x8000_0000 <= y < 0x8000_0000,
        ;
    }
    let p = x * y;
    match p.checked_div_euclid(0x1_0000_0000) {
        Some(q) => q as u64,
        None => 0,
    }
}

/// MULU: the low word of the unsigned product, sign-extended.
#[verifier::allow_in_spec]
pub fn mul_word_unsigned(a: u64, b: u64) -> u64
    returns
        (((a as u32) * (b as u32)) as u32 as i32 as i64 as u64),
{
    let x = (a as u32) as u64;
    let y = (b as u32) as u64;
    proof {
        assert(x * y <= 0xFFFF_FFFF * 0xFFFF_FFFF) by (nonlinear_arith)
            requires
                x <= 0xFFFF_FFFF,
                y <= 0xFFFF_FFFF,
        ;
    }
    (x * y) as u32 as i32 as i64 as u64
}

/// MUHU: the high word of the unsigned 64-bit product of the two words,
/// sign-extended.
#[verifier::allow_in_spec]
pub fn mul_high_word_unsigned(a: u64, b: u64) -> u64
    returns
        (((a as u32) * (b as u32) / 0x1_0000_0000) as u32 as i32 as i64 as u64),
{
    let x = (a as u32) as u64;
    let y = (b as u32) as u64;
    proof {
        assert(x * y <= 0xFFFF_FFFF * 0xFFFF_FFFF) by (nonlinear_arith)
            requires
                x <= 0xFFFF_FFFF,
                y <= 0xFFFF_FFFF,
        ;
    }
    (x * y / 0x1_0000_0000) as u32 as i32 as i64 as u64
}

/// DMUL and DMULU: the low double word of the product (the same for signed
/// and unsigned operands).
#[verifier::allow_in_spec]
pub fn mul_dword(a: u64, b: u64) -> u64
    returns
        (a.wrapping_mul(b)),
{
    a.wrapping_mul(b)
}

/// DMUH: the high double word of the signed 128-bit product.
#[verifier::allow_in_spec]
pub fn mul_high_dword(a: u64, b: u64) -> u64
    returns
        (((a as i64) * (b as i64) / 0x1_0000_0000_0000_0000) as u64),
{
    let x = (a as i64) as i128;
    let y = (b as i64) as i128;
    proof {
        assert(-0x4000_0000_0000_0000_0000_0000_0000_0000 <= x * y <= 0x4000_0000_0000_0000_0000_0000_0000_0000) by (nonlinear_arith)
            requires
                -0x8000_0000_0000_0000 <= x < 0x8000_0000_0000_0000,
                -0x8000_0000_0000_0000 <= y < 0x8000_0000_0000_0000,
        ;
    }
    let p = x * y;
    match p.checked_div_euclid(0x1_0000_0000_0000_0000) {
        Some(q) => q as u64,
        None => 0,
    }
}

/// DMUHU: the high double word of the unsigned 128-bit product.
#[verifier::allow_in_spec]
pub fn mul_high_dword_unsigned(a: u64, b: u64) -> u64
    returns
        ((a * b / 0x1_0000_0000_0000_0000) as u64),
{
    let x = a as u128;
    let y = b as u128;
    proof {
        assert(x * y <= 0xFFFF_FFFF_FFFF_FFFF * 0xFFFF_FFFF_FFFF_FFFF) by (nonlinear_arith)
            requires
                x <= 0xFFFF_FFFF_FFFF_FFFF,
                y <= 0xFFFF_FFFF_FFFF_FFFF,
        ;
    }
    (x * y / 0x1_0000_0000_0000_0000) as u64
}

/// DIV: the signed word quotient, truncated toward zero; `None` on a zero
/// divisor. The one quotient that does not fit, `-2^31 / -1`, wraps.
#[verifier::allow_in_spec]
pub fn div_word(a: u64, b: u64) -> Option<u64>
    returns
        (match ((a as i32) as i64).checked_div((b as i32) as i64) {
            Some(q) => Some(q as i32 as i64 as u64),
            None => None,
        }),
{
    match ((a as i32) as i64).checked_div((b as i32) as i64) {
        Some(q) => Some(q as i32 as i64 as u64),
        None => None,
    }
}

/// MOD: the signed word remainder, with the sign of the dividend; `None` on
/// a zero divisor.
#[verifier::allow_in_spec]
pub fn mod_word(a: u64, b: u64) -> Option<u64>
    returns
        (match ((a as i32) as i64).checked_rem((b as i32) as i64) {
            Some(r) => Some(r as i32 as i64 as u64),
            None => None,
        }),
{
    match ((a as i32) as i64).checked_rem((b as i32) as i64) {
        Some(r) => Some(r as i32 as i64 as u64),
        None => None,
    }
}

/// DIVU: the unsigned word quotient, sign-extended; `None` on a zero divisor.
#[verifier::allow_in_spec]
pub fn div_word_unsigned(a: u64, b: u64) -> Option<u64>
    returns
        (match (a as u32).checked_div(b as u32) {
            Some(q) => Some(q as i32 as i64 as u64),
            None => None,
        }),
{
    match (a as u32).checked_div(b as u32) {
        Some(q) => Some(q as i32 as i64 as u64),
        None => None,
    }
}

/// MODU: the unsigned word remainder, sign-extended; `None` on a zero divisor.
#[verifier::allow_in_spec]
pub fn mod_word_unsigned(a: u64, b: u64) -> Option<u64>
    returns
        (match (a as u32).checked_rem(b as u32) {
            Some(r) => Some(r as i32 as i64 as u64),
            None => None,
        }),
{
    match (a as u32).checked_rem(b as u32) {
        Some(r) => Some(r as i32 as i64 as u64),
        None => None,
    }
}

/// DDIV: the signed double-word quotient, truncated toward zero; `None` on a
/// zero divisor. The one quotient that does not fit, `-2^63 / -1`, wraps.
#[verifier::allow_in_spec]
pub fn div_dword(a: u64, b: u64) -> Option<u64>
    returns
        (match ((a as i64) as i128).checked_div((b as i64) as i128) {
            Some(q) => Some(q as u64),
            None => None,
        }),
{
    match ((a as i64) as i128).checked_div((b as i64) as i128) {
        Some(q) => Some(q as u64),
        None => None,
    }
}

/// DMOD: the signed double-word remainder, with the sign of the dividend;
/// `None` on a zero divisor.
#[verifier::allow_in_spec]
pub fn mod_dword(a: u64, b: u64) -> Option<u64>
    returns
        (match ((a as i64) as i128).checked_rem((b as i64) as i128) {
            Some(r) => Some(r as u64),
            None => None,
        }),
{
    match ((a as i64) as i128).checked_rem((b as i64) as i128) {
        Some(r) => Some(r as u64),
        None => None,
    }
}

/// DDIVU: the unsigned double-word quotient; `None` on a zero divisor.
#[verifier::allow_in_spec]
pub fn div_dword_unsigned(a: u64, b: u64) -> Option<u64>
    returns
        (a.checked_div(b)),
{
    a.checked_div(b)
}

/// DMODU: the unsigned double-word remainder; `None` on a zero divisor.
#[verifier::allow_in_spec]
pub fn mod_dword_unsigned(a: u64, b: u64) -> Option<u64>
    returns
        (a.checked_rem(b)),
{
    a.checked_rem(b)
}

/// CLZ: the number of leading zeros of the low word (0 to 32).
#[verifier::allow_in_spec]
pub fn count_leading_zeros_word(a: u64) -> u64
    returns
        (u32_leading_zeros(a as u32) as u64),
{
    (a as u32).leading_zeros() as u64
}

/// CLO: the number of leading ones of the low word (0 to 32).
#[verifier::allow_in_spec]
pub fn count_leading_ones_word(a: u64) -> u64
    returns
        (u32_leading_ones(a as u32) as u64),
{
    (a as u32).leading_ones() as u64
}

/// DCLZ: the number of leading zeros of the double word (0 to 64).
#[verifier::allow_in_spec]
pub fn count_leading_zeros_dword(a: u64) -> u64
    returns
        (u64_leading_zeros(a) as u64),
{
    a.leading_zeros() as u64
}

/// DCLO: the number of leading ones of the double word (0 to 64).
#[verifier::allow_in_spec]
pub fn count_leading_ones_dword(a: u64) -> u64
    returns
        (u64_leading_ones(a) as u64),
{
    a.leading_ones() as u64
}

/// DBITSWAP: each of the eight bytes with its bits in reverse order; bit `j`
/// of a byte moves to bit `7 - j` of the same byte.
#[verifier::allow_in_spec]
pub fn bitswap_dword(x: u64) -> u64
    returns
        (((x & 0x0101_0101_0101_0101) << 7) | ((x & 0x0202_0202_0202_0202) << 5)
            | ((x & 0x0404_0404_0404_0404) << 3) | ((x & 0x0808_0808_0808_0808) << 1)
            | ((x & 0x1010_1010_1010_1010) >> 1) | ((x & 0x2020_2020_2020_2020) >> 3)
            | ((x & 0x4040_4040_4040_4040) >> 5) | ((x & 0x8080_8080_8080_8080) >> 7)),
{
    ((x & 0x0101_0101_0101_0101) << 7) | ((x & 0x0202_0202_0202_0202) << 5)
        | ((x & 0x0404_0404_0404_0404) << 3) | ((x & 0x0808_0808_0808_0808) << 1)
        | ((x & 0x1010_1010_1010_1010) >> 1) | ((x & 0x2020_2020_2020_2020) >> 3)
        | ((x & 0x4040_4040_4040_4040) >> 5) | ((x & 0x8080_8080_8080_8080) >> 7)
}

/// BITSWAP: the four bytes of the low word each bit-reversed, sign-extended.
#[verifier::allow_in_spec]
pub fn bitswap_word(x: u64) -> u64
    returns
        (sign_extend_word(bitswap_dword(x))),
{
    sign_extend_word(bitswap_dword(x))
}

/// Applying BITSWAP twice gives back the low word of its operand,
/// sign-extended.
pub proof fn lemma_bitswap_word_twice(x: u64)
    ensures
        bitswap_word(bitswap_word(x)) == sign_extend_word(x),
{
    assert(bitswap_word(bitswap_word(x)) == sign_extend_word(x)) by (bit_vector);
}

/// Applying DBITSWAP twice gives back its operand.
pub proof fn lemma_bitswap_dword_twice(x: u64)
    ensures
        bitswap_dword(bitswap_dword(x)) == x,
{
    assert(bitswap_dword(bitswap_dword(x)) == x) by (bit_vector);
}

/// `x << n`, with every bit shifted out when `n` is 64 or more.
pub open spec fn shl(x: u64, n: int) -> u64 {
    if n >= 64 { 0 } else { x << (n as u64) }
}

/// `x >> n`, with every bit shifted out when `n` is 64 or more.
pub open spec fn shr(x: u64, n: int) -> u64 {
    if n >= 64 { 0 } else { x >> (n as u64) }
}

/// DALIGN: the double word made of the low `8 - bp` bytes of `b` above the
/// high `bp` bytes of `a` (`bp` from 0 to 8).
#[verifier::allow_in_spec]
pub fn align_dword(a: u64, b: u64, bp: u64) -> u64
    requires
        bp <= 8,
    returns
        (shl(b, 8 * bp) | shr(a, 64 - 8 * bp)),
{
    let hi = if bp == 8 { 0 } else { b << (8 * bp) };
    let lo = if bp == 0 { 0 } else { a >> (64 - 8 * bp) };
    hi | lo
}

/// ALIGN: the word made of the low `4 - bp` bytes of the low word of `b`
/// above the high `bp` bytes of the low word of `a` (`bp` from 0 to 4),
/// sign-extended.
#[verifier::allow_in_spec]
pub fn align_word(a: u64, b: u64, bp: u64) -> u64
    requires
        bp <= 4,
    returns
        (sign_extend_word(shl((b as u32) as u64, 8 * bp) | shr((a as u32) as u64, 32 - 8 * bp))),
{
    let x = (b as u32) as u64;
    let y = (a as u32) as u64;
    sign_extend_word((x << (8 * bp)) | (y >> (32 - 8 * bp)))
}

/// Aligning at byte 0 gives the second operand, at byte 8 the first.
pub proof fn lemma_align_dword_ends(a: u64, b: u64)
    ensures
        align_dword(a, b, 0) == b,
        align_dword(a, b, 8) == a,
{
    assert(b << 0u64 == b && a >> 0u64 == a && b | 0 == b && 0 | a == a) by (bit_vector);
}

/// Aligning words at byte 0 gives the low word of the second operand,
/// sign-extended, and at byte 4 that of the first.
pub proof fn lemma_align_word_ends(a: u64, b: u64)
    ensures
        align_word(a, b, 0) == sign_extend_word(b),
        align_word(a, b, 4) == sign_extend_word(a),
{
    assert(sign_extend_word((((b as u32) as u64) << 0u64) | (((a as u32) as u64) >> 32u64)) == sign_extend_word(b)) by (bit_vector);
    assert(sign_extend_word((((b as u32) as u64) << 32u64) | (((a as u32) as u64) >> 0u64)) == sign_extend_word(a)) by (bit_vector);
}

} // verus!
