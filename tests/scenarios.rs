use mips_core::computer::{new, Computer};

fn machine(program: &[u32]) -> Computer {
    let mut com = new(1, 4096);
    com.set_mmu(0, 0, 4095);
    for (k, word) in program.iter().enumerate() {
        for (j, byte) in word.to_be_bytes().iter().enumerate() {
            assert!(com.write_byte((4 * k + j) as u64, *byte));
        }
    }
    com
}

#[test]
fn lui_then_ori_builds_a_constant() {
    let mut com = machine(&[0x3C01_1234, 0x3421_5678]);
    com.step();
    com.step();
    assert_eq!(com.cpu(0).register(1), 0x0000_0000_1234_5678);
    assert_eq!(com.cpu(0).pc(), 8);
}

#[test]
fn addiu_sign_extends_its_result() {
    let mut com = machine(&[0x2402_FFFF]);
    com.step();
    assert_eq!(com.cpu(0).register(2), 0xFFFF_FFFF_FFFF_FFFF);
    assert_eq!(com.cpu(0).pc(), 4);
}

#[test]
fn add_overflow_traps_and_keeps_pc() {
    let mut com = machine(&[0x0085_1820]);
    com.set_register(0, 4, 0x7FFF_FFFF);
    com.set_register(0, 5, 1);
    com.set_register(0, 3, 0x33);
    com.step();
    assert!(com.cpu(0).exception_pending());
    assert_eq!(com.cpu(0).pc(), 0);
    assert_eq!(com.cpu(0).register(3), 0x33);
    // A frozen core does nothing more.
    com.step();
    assert_eq!(com.cpu(0).pc(), 0);
}

#[test]
fn daddu_wraps_without_exception() {
    let mut com = machine(&[0x00E8_302D]);
    com.set_register(0, 7, 0xFFFF_FFFF_FFFF_FFFF);
    com.set_register(0, 8, 1);
    com.set_register(0, 6, 5);
    com.step();
    assert_eq!(com.cpu(0).register(6), 0);
    assert_eq!(com.cpu(0).pc(), 4);
    assert!(!com.cpu(0).exception_pending());
}

#[test]
fn store_then_load_double_word() {
    let mut com = machine(&[0xFC09_0010, 0xDC0A_0010]);
    com.set_register(0, 9, 0xDEAD_BEEF_CAFE_BABE);
    com.step();
    com.step();
    assert_eq!(com.cpu(0).register(10), 0xDEAD_BEEF_CAFE_BABE);
    assert_eq!(com.read_byte(16), Some(0xBE));
    assert_eq!(com.read_byte(23), Some(0xDE));
    assert_eq!(com.cpu(0).pc(), 8);
}

#[test]
fn beq_executes_its_delay_slot() {
    let mut com = machine(&[0x1000_0002, 0x340B_0042, 0x0000_0000]);
    com.step();
    assert_eq!(com.cpu(0).pc(), 4);
    com.step();
    assert_eq!(com.cpu(0).register(11), 0x42);
    assert_eq!(com.cpu(0).pc(), 8);
}

#[test]
fn beq_in_a_delay_slot_faults() {
    let mut com = machine(&[0x1000_0002, 0x1000_0002]);
    com.step();
    com.step();
    assert!(com.cpu(0).exception_pending());
    assert_eq!(com.cpu(0).pc(), 4);
}

#[test]
fn load_outside_the_window_faults_and_changes_nothing() {
    // LD r10, 16(r0) with a window that ends at 15.
    let mut com = machine(&[0xDC0A_0010]);
    com.set_mmu(0, 0, 15);
    com.set_register(0, 10, 9);
    com.step();
    assert!(com.cpu(0).exception_pending());
    assert_eq!(com.cpu(0).register(10), 9);
    assert_eq!(com.cpu(0).pc(), 0);
}

#[test]
fn store_outside_the_window_faults_and_changes_nothing() {
    // SB r9, 100(r0) with a window that ends at 15.
    let mut com = machine(&[0xA009_0064]);
    com.set_mmu(0, 0, 15);
    com.set_register(0, 9, 0xAB);
    com.step();
    assert!(com.cpu(0).exception_pending());
    assert_eq!(com.read_byte(100), Some(0));
}

#[test]
fn fetch_outside_the_window_faults() {
    let mut com = new(1, 64);
    com.step();
    assert!(!com.cpu(0).exception_pending());
    assert_eq!(com.cpu(0).pc(), 4);
    com.step();
    assert!(com.cpu(0).exception_pending());
    assert_eq!(com.cpu(0).pc(), 4);
}

#[test]
fn break_stops_the_core() {
    let mut com = machine(&[0x0000_000D]);
    com.step();
    assert!(com.cpu(0).syscall_pending());
    assert!(!com.cpu(0).exception_pending());
    assert_eq!(com.cpu(0).pc(), 0);
    com.clear_pending(0);
    assert!(!com.cpu(0).syscall_pending());
}

#[test]
fn register_zero_stays_zero() {
    // ADDIU r0, r0, 5
    let mut com = machine(&[0x2400_0005]);
    com.set_register(0, 0, 7);
    com.step();
    assert_eq!(com.cpu(0).register(0), 0);
    assert_eq!(com.cpu(0).pc(), 4);
}

#[test]
fn compact_branch_goes_to_pc_plus_offset() {
    // BEQC r1, r2, +12 (POP10, rs=1 < rt=2), taken.
    let mut com = machine(&[0x2022_000C]);
    com.set_register(0, 1, 3);
    com.set_register(0, 2, 3);
    com.step();
    assert_eq!(com.cpu(0).pc(), 12);
}

#[test]
fn compact_branch_not_taken_falls_through() {
    let mut com = machine(&[0x2022_000C]);
    com.set_register(0, 1, 3);
    com.set_register(0, 2, 4);
    com.step();
    assert_eq!(com.cpu(0).pc(), 4);
}

#[test]
fn balc_links_and_branches() {
    // BALC +2 words: target pc + 4 + 8.
    let mut com = machine(&[0xE800_0002]);
    com.step();
    assert_eq!(com.cpu(0).register(31), 4);
    assert_eq!(com.cpu(0).pc(), 12);
}

#[test]
fn jalr_links_and_jumps_to_rs() {
    // JALR r31, r5
    let mut com = machine(&[0x00A0_F809]);
    com.set_register(0, 5, 0x40);
    com.step();
    assert_eq!(com.cpu(0).register(31), 8);
    assert_eq!(com.cpu(0).pc(), 0x40);
}

#[test]
fn j_stays_in_the_region() {
    // J to word index 0x10: address 0x40.
    let mut com = machine(&[0x0800_0010]);
    com.step();
    assert_eq!(com.cpu(0).pc(), 0x40);
}

#[test]
fn divide_by_zero_faults() {
    // DIV r3, r4, r5 with r5 = 0.
    let mut com = machine(&[0x0085_189A]);
    com.set_register(0, 4, 10);
    com.step();
    assert!(com.cpu(0).exception_pending());
    assert_eq!(com.cpu(0).pc(), 0);
}

#[test]
fn divide_truncates_toward_zero() {
    // DIV r3, r4, r5 and MOD r6, r4, r5 with -7 and 2.
    let mut com = machine(&[0x0085_189A, 0x0085_30DA]);
    com.set_register(0, 4, (-7i64) as u64);
    com.set_register(0, 5, 2);
    com.step();
    com.step();
    assert_eq!(com.cpu(0).register(3), (-3i64) as u64);
    assert_eq!(com.cpu(0).register(6), (-1i64) as u64);
}

#[test]
fn clz_counts_leading_zeros_of_the_word() {
    // CLZ r3, r4
    let mut com = machine(&[0x0080_1850]);
    com.set_register(0, 4, 0x0000_F000);
    com.step();
    assert_eq!(com.cpu(0).register(3), 16);
}

#[test]
fn dclo_counts_leading_ones() {
    // DCLO r3, r4
    let mut com = machine(&[0x0080_1853]);
    com.set_register(0, 4, 0xFFF0_0000_0000_0000);
    com.step();
    assert_eq!(com.cpu(0).register(3), 12);
}

#[test]
fn sll_sign_extends_the_word() {
    // SLL r3, r4, 4
    let mut com = machine(&[0x0004_1900]);
    com.set_register(0, 4, 0x0800_0000);
    com.step();
    assert_eq!(com.cpu(0).register(3), 0xFFFF_FFFF_8000_0000);
}

#[test]
fn lw_sign_extends_and_lwu_does_not() {
    // LW r3, 32(r0); LWU r4, 32(r0)
    let mut com = machine(&[0x8C03_0020, 0x9C04_0020]);
    for (j, b) in [0x01u8, 0x00, 0x00, 0x80].iter().enumerate() {
        assert!(com.write_byte(32 + j as u64, *b));
    }
    com.step();
    com.step();
    assert_eq!(com.cpu(0).register(3), 0xFFFF_FFFF_8000_0001);
    assert_eq!(com.cpu(0).register(4), 0x8000_0001);
}

#[test]
fn cores_step_in_id_order_over_shared_memory() {
    let mut com = new(2, 4096);
    com.set_mmu(0, 0, 4095);
    com.set_mmu(1, 0, 4095);
    // Core 0 runs SB r9, 100(r0); core 1 runs LB r10, 100(r0) from 0x200.
    for (j, b) in 0xA009_0064u32.to_be_bytes().iter().enumerate() {
        assert!(com.write_byte(j as u64, *b));
    }
    for (j, b) in 0x800A_0064u32.to_be_bytes().iter().enumerate() {
        assert!(com.write_byte(0x200 + j as u64, *b));
    }
    com.set_mmu(1, 0x200, 0x100);
    com.set_register(0, 9, 0x7F);
    com.step();
    assert_eq!(com.cpu_count(), 2);
    assert_eq!(com.read_byte(100), Some(0x7F));
    // Core 1 translates 100 to 0x264, which holds 0.
    assert_eq!(com.cpu(1).register(10), 0);
    assert_eq!(com.cpu(1).pc(), 4);
}
