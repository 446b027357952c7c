//! One core: its register file, program counter and pending flags, and the
//! decoding and execution of one instruction.
use crate::computer::alu::{is_sign_extended_word,lemma_sign_extend_word,shl,shr,sign_extend_word,add_word,add_word_wrapping,sub_word,sub_word_wrapping,add_dword,sub_dword,less_signed,less_unsigned,shift_left_word,shift_right_word,shift_right_arith_word,rotate_right_word,shift_left_dword,shift_right_dword,shift_right_arith_dword,rotate_right_dword,mul_word,mul_high_word,mul_word_unsigned,mul_high_word_unsigned,mul_dword,mul_high_dword,mul_high_dword_unsigned,div_word,mod_word,div_word_unsigned,mod_word_unsigned,div_dword,mod_dword,div_dword_unsigned,mod_dword_unsigned,count_leading_zeros_word,count_leading_ones_word,count_leading_zeros_dword,count_leading_ones_dword,bitswap_dword,bitswap_word,align_dword,align_word};
use crate::computer::memory::{be_word, fits, le_value, read_spec, store_le, translate, Memory, MemoryManagementUnit};
use vstd::prelude::*;

verus! {

// Primary opcodes.
pub const SPECIAL: u32 = 0x00;
pub const POP06: u32 = 0x06;
pub const POP07: u32 = 0x07;
pub const POP10: u32 = 0x08;
pub const J: u32 = 0x02;
pub const JAL: u32 = 0x03;
pub const BEQ: u32 = 0x04;
pub const ADDIU: u32 = 0x09;
pub const SLTI: u32 = 0x0a;
pub const SLTIU: u32 = 0x0b;
pub const ANDI: u32 = 0x0c;
pub const ORI: u32 = 0x0d;
pub const XORI: u32 = 0x0e;
pub const LUI: u32 = 0x0f;
pub const POP26: u32 = 0x16;
pub const POP27: u32 = 0x17;
pub const POP30: u32 = 0x18;
pub const DADDIU: u32 = 0x19;
pub const SPECIAL3: u32 = 0x1f;
pub const LB: u32 = 0x20;
pub const LH: u32 = 0x21;
pub const LW: u32 = 0x23;
pub const LBU: u32 = 0x24;
pub const LHU: u32 = 0x25;
pub const LWU: u32 = 0x27;
pub const SB: u32 = 0x28;
pub const SH: u32 = 0x29;
pub const SW: u32 = 0x2b;
pub const BC: u32 = 0x32;
pub const POP66: u32 = 0x36;
pub const LD: u32 = 0x37;
pub const BALC: u32 = 0x3a;
pub const PCREL: u32 = 0x3b;
pub const POP76: u32 = 0x3e;
pub const SD: u32 = 0x3f;

// Function codes under SPECIAL.
pub const SLL: u32 = 0x00;
pub const SRL: u32 = 0x02;
pub const SRA: u32 = 0x03;
pub const SLLV: u32 = 0x04;
pub const SRLV: u32 = 0x06;
pub const SRAV: u32 = 0x07;
pub const JALR: u32 = 0x09;
pub const SYSCALL: u32 = 0x0c;
pub const BREAK: u32 = 0x0d;
pub const DSLLV: u32 = 0x14;
pub const DSRLV: u32 = 0x16;
pub const DSRAV: u32 = 0x17;
pub const SOP30: u32 = 0x18;
pub const SOP31: u32 = 0x19;
pub const SOP32: u32 = 0x1a;
pub const SOP33: u32 = 0x1b;
pub const SOP34: u32 = 0x1c;
pub const SOP35: u32 = 0x1d;
pub const SOP36: u32 = 0x1e;
pub const SOP37: u32 = 0x1f;
pub const ADD: u32 = 0x20;
pub const ADDU: u32 = 0x21;
pub const SUB: u32 = 0x22;
pub const SUBU: u32 = 0x23;
pub const AND: u32 = 0x24;
pub const OR: u32 = 0x25;
pub const XOR: u32 = 0x26;
pub const NOR: u32 = 0x27;
pub const SLT: u32 = 0x2a;
pub const SLTU: u32 = 0x2b;
pub const DADD: u32 = 0x2c;
pub const DADDU: u32 = 0x2d;
pub const DSUB: u32 = 0x2e;
pub const DSUBU: u32 = 0x2f;
pub const DSLL: u32 = 0x38;
pub const DSRL: u32 = 0x3a;
pub const DSRA: u32 = 0x3b;
pub const DSLL32: u32 = 0x3c;
pub const DSRL32: u32 = 0x3e;
pub const DSRA32: u32 = 0x3f;

// The low eleven bits (shift-amount and function fields) of the count-leading
// instructions.
pub const CLZ: u32 = 0x50;
pub const CLO: u32 = 0x51;
pub const DCLZ: u32 = 0x52;
pub const DCLO: u32 = 0x53;

// Shift-amount field selecting the low or high half of a SOPxx product or
// the quotient or remainder of a SOPxx division.
pub const SOP_LOW: u32 = 0x02;
pub const SOP_HIGH: u32 = 0x03;

// Function codes under SPECIAL3, and their sub-selectors.
pub const BSHFL: u32 = 0x20;
pub const DBSHFL: u32 = 0x24;
pub const ALIGN: u32 = 0x2;
pub const DALIGN: u32 = 0x1;

// Sub-selectors under PCREL.
pub const LWPC: u32 = 0x1;
pub const LWUPC: u32 = 0x2;
pub const LDPC: u32 = 0x6;

/// The link register of the branch-and-link instructions.
pub const RA: u32 = 31;

/// Bits 31..26.
#[verifier::allow_in_spec]
pub fn opcode(i: u32) -> u32
    returns
        (i / 0x400_0000),
{
    i / 0x400_0000
}

/// Bits 25..21.
#[verifier::allow_in_spec]
pub fn rs_field(i: u32) -> u32
    returns
        ((i / 0x20_0000) % 32),
{
    (i / 0x20_0000) % 32
}

/// Bits 20..16.
#[verifier::allow_in_spec]
pub fn rt_field(i: u32) -> u32
    returns
        ((i / 0x1_0000) % 32),
{
    (i / 0x1_0000) % 32
}

/// Bits 15..11.
#[verifier::allow_in_spec]
pub fn rd_field(i: u32) -> u32
    returns
        ((i / 0x800) % 32),
{
    (i / 0x800) % 32
}

/// Bits 10..6.
#[verifier::allow_in_spec]
pub fn sa_field(i: u32) -> u32
    returns
        ((i / 0x40) % 32),
{
    (i / 0x40) % 32
}

/// Bits 5..0.
#[verifier::allow_in_spec]
pub fn function_field(i: u32) -> u32
    returns
        (i % 0x40),
{
    i % 0x40
}

/// Bits 15..0, sign-extended to 64 bits.
#[verifier::allow_in_spec]
pub fn immediate(i: u32) -> u64
    returns
        (i as u16 as i16 as i64 as u64),
{
    i as u16 as i16 as i64 as u64
}

/// Bits 15..0, zero-extended to 64 bits.
#[verifier::allow_in_spec]
pub fn unsigned_immediate(i: u32) -> u64
    returns
        ((i % 0x1_0000) as u64),
{
    (i % 0x1_0000) as u64
}

/// Bits 25..0 shifted left by two, sign-extended to 64 bits.
#[verifier::allow_in_spec]
pub fn offset26(i: u32) -> u64
    returns
        (((i << 6u32) as i32 >> 4u32) as i64 as u64),
{
    (((i << 6u32) as i32) >> 4u32) as i64 as u64
}

/// Bits 20..0 shifted left by two, sign-extended to 64 bits.
#[verifier::allow_in_spec]
pub fn offset21(i: u32) -> u64
    returns
        (((i << 11u32) as i32 >> 9u32) as i64 as u64),
{
    (((i << 11u32) as i32) >> 9u32) as i64 as u64
}

/// Bits 18..0 shifted left by two, sign-extended to 64 bits.
#[verifier::allow_in_spec]
pub fn offset19(i: u32) -> u64
    returns
        (((i << 13u32) as i32 >> 11u32) as i64 as u64),
{
    (((i << 13u32) as i32) >> 11u32) as i64 as u64
}

/// Bits 17..0 shifted left by three, sign-extended to 64 bits.
#[verifier::allow_in_spec]
pub fn offset18(i: u32) -> u64
    returns
        (((i << 14u32) as i32 >> 11u32) as i64 as u64),
{
    (((i << 14u32) as i32) >> 11u32) as i64 as u64
}

/// What one instruction does, before the program counter moves on.
pub enum Effect {
    /// An architectural exception: nothing changes but the exception flag.
    Fault,
    /// A voluntary stop: nothing changes but the syscall flag.
    Stop,
    /// The instruction completes: it may write one register, may send the
    /// program counter to `jump` instead of the next instruction, and may arm
    /// the delay slot so that the next instruction is followed by `arm`.
    Retire { write: Option<(u32, u64)>, jump: Option<u64>, arm: Option<u64> },
}

/// Completes without other effect.
#[verifier::allow_in_spec]
pub fn proceed() -> Effect
    returns
        (Effect::Retire { write: None, jump: None, arm: None }),
{
    Effect::Retire { write: None, jump: None, arm: None }
}

/// Writes `v` to register `r`.
#[verifier::allow_in_spec]
pub fn write_reg(r: u32, v: u64) -> Effect
    returns
        (Effect::Retire { write: Some((r, v)), jump: None, arm: None }),
{
    Effect::Retire { write: Some((r, v)), jump: None, arm: None }
}

/// Writes `v` to register `r`, or faults when there is no `v`.
#[verifier::allow_in_spec]
pub fn write_or_fault(r: u32, v: Option<u64>) -> Effect
    returns
        (match v {
            Some(x) => Effect::Retire { write: Some((r, x)), jump: None, arm: None },
            None => Effect::Fault,
        }),
{
    match v {
        Some(x) => Effect::Retire { write: Some((r, x)), jump: None, arm: None },
        None => Effect::Fault,
    }
}

/// Moves the program counter to `target`.
#[verifier::allow_in_spec]
pub fn jump_to(target: u64) -> Effect
    returns
        (Effect::Retire { write: None, jump: Some(target), arm: None }),
{
    Effect::Retire { write: None, jump: Some(target), arm: None }
}

/// Writes `link` to the link register and moves the program counter to `target`.
#[verifier::allow_in_spec]
pub fn link_and_jump(target: u64, link: u64) -> Effect
    returns
        (Effect::Retire { write: Some((RA, link)), jump: Some(target), arm: None }),
{
    Effect::Retire { write: Some((RA, link)), jump: Some(target), arm: None }
}

/// Moves the program counter to `target` when `taken`.
#[verifier::allow_in_spec]
pub fn branch_if(taken: bool, target: u64) -> Effect
    returns
        (if taken { jump_to(target) } else { proceed() }),
{
    if taken { jump_to(target) } else { proceed() }
}

/// Links and moves the program counter to `target` when `taken`.
#[verifier::allow_in_spec]
pub fn branch_link_if(taken: bool, target: u64, link: u64) -> Effect
    returns
        (if taken { link_and_jump(target, link) } else { proceed() }),
{
    if taken { link_and_jump(target, link) } else { proceed() }
}

/// The abstract state of a core.
pub struct CpuState {
    pub regs: Seq<u64>,
    pub pc: u64,
    pub id: u64,
    pub exception: bool,
    pub syscall: bool,
    pub branching: bool,
    pub branch_target: u64,
}

/// One core.
pub struct Cpu {
    registers: Vec<u64>,
    pc: u64,
    id: u64,
    syscall: bool,
    exception: bool,
    branching: bool,
    branch_target: u64,
}

impl View for Cpu {
    type V = CpuState;

    closed spec fn view(&self) -> CpuState {
        CpuState {
            regs: self.registers@,
            pc: self.pc,
            id: self.id,
            exception: self.exception,
            syscall: self.syscall,
            branching: self.branching,
            branch_target: self.branch_target,
        }
    }
}

/// Register `r` of state `s`.
pub open spec fn reg(s: CpuState, r: u32) -> u64 {
    s.regs[r as int]
}

/// Thirty-two registers, register 0 holding zero.
pub open spec fn state_wf(s: CpuState) -> bool {
    s.regs.len() == 32 && s.regs[0] == 0
}

/// The effect of an instruction of the SPECIAL opcode.
pub open spec fn special_effect(s: CpuState, i: u32) -> Effect {
    let f = function_field(i);
    let rs = rs_field(i);
    let rt = rt_field(i);
    let rd = rd_field(i);
    let sa = sa_field(i);
    let a = reg(s, rs);
    let b = reg(s, rt);
    let low11 = i % 0x800;
    if f == BREAK || f == SYSCALL {
        Effect::Stop
    } else if low11 == CLO && rt == 0 {
        write_reg(rd, count_leading_ones_word(a))
    } else if low11 == CLZ && rt == 0 {
        write_reg(rd, count_leading_zeros_word(a))
    } else if low11 == DCLO && rt == 0 {
        write_reg(rd, count_leading_ones_dword(a))
    } else if low11 == DCLZ && rt == 0 {
        write_reg(rd, count_leading_zeros_dword(a))
    } else if f == ADD {
        write_or_fault(rd, add_word(a, b))
    } else if f == ADDU {
        write_reg(rd, add_word_wrapping(a, b))
    } else if f == SUB {
        write_or_fault(rd, sub_word(a, b))
    } else if f == SUBU {
        write_reg(rd, sub_word_wrapping(a, b))
    } else if f == DADD {
        write_or_fault(rd, add_dword(a, b))
    } else if f == DADDU {
        write_reg(rd, a.wrapping_add(b))
    } else if f == DSUB {
        write_or_fault(rd, sub_dword(a, b))
    } else if f == DSUBU {
        write_reg(rd, a.wrapping_sub(b))
    } else if f == AND {
        write_reg(rd, a & b)
    } else if f == OR {
        write_reg(rd, a | b)
    } else if f == XOR {
        write_reg(rd, a ^ b)
    } else if f == NOR {
        write_reg(rd, !(a | b))
    } else if f == SLT {
        write_reg(rd, less_signed(a, b))
    } else if f == SLTU {
        write_reg(rd, less_unsigned(a, b))
    } else if f == SLL {
        if rs == 0 { write_reg(rd, shift_left_word(b, sa)) } else { Effect::Fault }
    } else if f == SRL {
        if rs == 1 { write_reg(rd, rotate_right_word(b, sa)) } else { write_reg(rd, shift_right_word(b, sa)) }
    } else if f == SRA {
        if rs == 0 { write_reg(rd, shift_right_arith_word(b, sa)) } else { Effect::Fault }
    } else if f == SLLV {
        if sa == 0 { write_reg(rd, shift_left_word(b, (a % 32) as u32)) } else { Effect::Fault }
    } else if f == SRLV {
        if sa == 1 {
            write_reg(rd, rotate_right_word(b, (a % 32) as u32))
        } else {
            write_reg(rd, shift_right_word(b, (a % 32) as u32))
        }
    } else if f == SRAV {
        if sa == 0 { write_reg(rd, shift_right_arith_word(b, (a % 32) as u32)) } else { Effect::Fault }
    } else if f == DSLL {
        if rs == 0 { write_reg(rd, shift_left_dword(b, sa)) } else { Effect::Fault }
    } else if f == DSLL32 {
        if rs == 0 { write_reg(rd, shift_left_dword(b, (sa + 32) as u32)) } else { Effect::Fault }
    } else if f == DSLLV {
        if sa == 0 { write_reg(rd, shift_left_dword(b, (a % 64) as u32)) } else { Effect::Fault }
    } else if f == DSRL {
        if rs % 2 == 1 { write_reg(rd, rotate_right_dword(b, sa)) } else { write_reg(rd, shift_right_dword(b, sa)) }
    } else if f == DSRL32 {
        if rs % 2 == 1 {
            write_reg(rd, rotate_right_dword(b, (sa + 32) as u32))
        } else {
            write_reg(rd, shift_right_dword(b, (sa + 32) as u32))
        }
    } else if f == DSRLV {
        if sa % 2 == 1 {
            write_reg(rd, rotate_right_dword(b, (a % 64) as u32))
        } else {
            write_reg(rd, shift_right_dword(b, (a % 64) as u32))
        }
    } else if f == DSRA {
        if rs == 0 { write_reg(rd, shift_right_arith_dword(b, sa)) } else { Effect::Fault }
    } else if f == DSRA32 {
        if rs == 0 { write_reg(rd, shift_right_arith_dword(b, (sa + 32) as u32)) } else { Effect::Fault }
    } else if f == DSRAV {
        if sa == 0 { write_reg(rd, shift_right_arith_dword(b, (a % 64) as u32)) } else { Effect::Fault }
    } else if f == SOP30 {
        if sa == SOP_LOW {
            write_reg(rd, mul_word(a, b))
        } else if sa == SOP_HIGH {
            write_reg(rd, mul_high_word(a, b))
        } else {
            Effect::Fault
        }
    } else if f == SOP31 {
        if sa == SOP_LOW {
            write_reg(rd, mul_word_unsigned(a, b))
        } else if sa == SOP_HIGH {
            write_reg(rd, mul_high_word_unsigned(a, b))
        } else {
            Effect::Fault
        }
    } else if f == SOP34 {
        if sa == SOP_LOW {
            write_reg(rd, mul_dword(a, b))
        } else if sa == SOP_HIGH {
            write_reg(rd, mul_high_dword(a, b))
        } else {
            Effect::Fault
        }
    } else if f == SOP35 {
        if sa == SOP_LOW {
            write_reg(rd, mul_dword(a, b))
        } else if sa == SOP_HIGH {
            write_reg(rd, mul_high_dword_unsigned(a, b))
        } else {
            Effect::Fault
        }
    } else if f == SOP32 {
        if sa == SOP_LOW {
            write_or_fault(rd, div_word(a, b))
        } else if sa == SOP_HIGH {
            write_or_fault(rd, mod_word(a, b))
        } else {
            Effect::Fault
        }
    } else if f == SOP33 {
        if sa == SOP_LOW {
            write_or_fault(rd, div_word_unsigned(a, b))
        } else if sa == SOP_HIGH {
            write_or_fault(rd, mod_word_unsigned(a, b))
        } else {
            Effect::Fault
        }
    } else if f == SOP36 {
        if sa == SOP_LOW {
            write_or_fault(rd, div_dword(a, b))
        } else if sa == SOP_HIGH {
            write_or_fault(rd, mod_dword(a, b))
        } else {
            Effect::Fault
        }
    } else if f == SOP37 {
        if sa == SOP_LOW {
            write_or_fault(rd, div_dword_unsigned(a, b))
        } else if sa == SOP_HIGH {
            write_or_fault(rd, mod_dword_unsigned(a, b))
        } else {
            Effect::Fault
        }
    } else if f == JALR {
        Effect::Retire { write: Some((rd, s.pc.wrapping_add(8))), jump: Some(a), arm: None }
    } else {
        Effect::Fault
    }
}

/// Whether the opcode is a load or store addressed by base register plus offset.
pub open spec fn is_access(op: u32) -> bool {
    op == LB || op == LBU || op == LH || op == LHU || op == LW || op == LWU || op == LD || op == SB
        || op == SH || op == SW || op == SD
}

/// Whether the opcode is a store.
pub open spec fn is_store(op: u32) -> bool {
    op == SB || op == SH || op == SW || op == SD
}

/// The number of bytes a load or store moves.
pub open spec fn access_size(op: u32) -> nat {
    if op == LB || op == LBU || op == SB {
        1
    } else if op == LH || op == LHU || op == SH {
        2
    } else if op == LW || op == LWU || op == SW {
        4
    } else {
        8
    }
}

/// The register value a load yields from the bytes at physical `p`: signed
/// loads sign-extend, unsigned loads zero-extend.
pub open spec fn loaded(op: u32, m: Seq<u8>, p: u64) -> u64 {
    if op == LB {
        m[p as int] as i8 as i64 as u64
    } else if op == LBU {
        m[p as int] as u64
    } else if op == LH {
        (le_value(m, p as int, 2) as u16) as i16 as i64 as u64
    } else if op == LHU {
        (le_value(m, p as int, 2) as u16) as u64
    } else if op == LW {
        (le_value(m, p as int, 4) as u32) as i32 as i64 as u64
    } else if op == LWU {
        (le_value(m, p as int, 4) as u32) as u64
    } else {
        le_value(m, p as int, 8) as u64
    }
}

/// The value whose low bytes a store writes, from register value `v`.
pub open spec fn stored(op: u32, v: u64) -> nat {
    if op == SB {
        (v as u8) as nat
    } else if op == SH {
        (v as u16) as nat
    } else if op == SW {
        (v as u32) as nat
    } else {
        v as nat
    }
}

/// The effective (virtual) address of a load or store.
pub open spec fn effective_address(s: CpuState, i: u32) -> u64 {
    reg(s, rs_field(i)).wrapping_add(immediate(i))
}

/// The effect of a load or store, under window `w` and memory `m`.
pub open spec fn access_effect(s: CpuState, w: MemoryManagementUnit, m: Seq<u8>, i: u32) -> Effect {
    let op = opcode(i);
    match translate(w, effective_address(s, i)) {
        None => Effect::Fault,
        Some(p) => if !fits(m, p, access_size(op)) {
            Effect::Fault
        } else if is_store(op) {
            proceed()
        } else {
            write_reg(rt_field(i), loaded(op, m, p))
        },
    }
}

/// Memory after a load or store.
pub open spec fn access_memory(s: CpuState, w: MemoryManagementUnit, m: Seq<u8>, i: u32) -> Seq<u8> {
    let op = opcode(i);
    match translate(w, effective_address(s, i)) {
        Some(p) => if is_store(op) && fits(m, p, access_size(op)) {
            store_le(m, p as int, stored(op, reg(s, rt_field(i))), access_size(op))
        } else {
            m
        },
        None => m,
    }
}

/// The effect of a PC-relative load; the destination is the `rs` field.
pub open spec fn pcrel_effect(s: CpuState, w: MemoryManagementUnit, m: Seq<u8>, i: u32) -> Effect {
    let sub = (i / 0x8_0000) % 4;
    let rs = rs_field(i);
    if sub == LWPC || sub == LWUPC {
        match translate(w, s.pc.wrapping_add(offset19(i))) {
            None => Effect::Fault,
            Some(p) => if !fits(m, p, 4) {
                Effect::Fault
            } else if sub == LWPC {
                write_reg(rs, (le_value(m, p as int, 4) as u32) as i32 as i64 as u64)
            } else {
                write_reg(rs, (le_value(m, p as int, 4) as u32) as u64)
            },
        }
    } else if (i / 0x4_0000) % 8 == LDPC {
        match translate(w, s.pc.wrapping_add(offset18(i))) {
            None => Effect::Fault,
            Some(p) => if !fits(m, p, 8) {
                Effect::Fault
            } else {
                write_reg(rs, le_value(m, p as int, 8) as u64)
            },
        }
    } else {
        Effect::Fault
    }
}

/// Whether the opcode is an ALU operation with a 16-bit immediate.
pub open spec fn is_immediate(op: u32) -> bool {
    op == ADDIU || op == DADDIU || op == ANDI || op == ORI || op == XORI || op == LUI || op == SLTI
        || op == SLTIU
}

/// The effect of an ALU operation with a 16-bit immediate; the destination
/// is the `rt` field.
pub open spec fn immediate_effect(s: CpuState, i: u32) -> Effect {
    let op = opcode(i);
    let rt = rt_field(i);
    let a = reg(s, rs_field(i));
    let imm = immediate(i);
    let uimm = unsigned_immediate(i);
    if op == ADDIU {
        write_reg(rt, add_word_wrapping(a, imm))
    } else if op == DADDIU {
        write_reg(rt, a.wrapping_add(imm))
    } else if op == ANDI {
        write_reg(rt, a & uimm)
    } else if op == ORI {
        write_reg(rt, a | uimm)
    } else if op == XORI {
        write_reg(rt, a ^ uimm)
    } else if op == LUI {
        write_reg(rt, shift_left_word(uimm, 16))
    } else if op == SLTI {
        write_reg(rt, less_signed(a, imm))
    } else {
        write_reg(rt, less_unsigned(a, imm))
    }
}

/// The effect of an instruction of the SPECIAL3 opcode.
pub open spec fn special3_effect(s: CpuState, i: u32) -> Effect {
    let f = function_field(i);
    let rd = rd_field(i);
    let a = reg(s, rs_field(i));
    let b = reg(s, rt_field(i));
    if rs_field(i) != 0 {
        if f == BSHFL && (i / 0x100) % 8 == ALIGN {
            write_reg(rd, align_word(a, b, ((i / 0x40) % 4) as u64))
        } else if f == DBSHFL && (i / 0x200) % 4 == DALIGN {
            write_reg(rd, align_dword(a, b, ((i / 0x40) % 8) as u64))
        } else {
            Effect::Fault
        }
    } else if f == BSHFL {
        write_reg(rd, bitswap_word(b))
    } else if f == DBSHFL {
        write_reg(rd, bitswap_dword(b))
    } else {
        Effect::Fault
    }
}

/// Whether the opcode is a branch or jump.
pub open spec fn is_branch(op: u32) -> bool {
    op == BC || op == BALC || op == POP06 || op == POP07 || op == POP10 || op == POP30 || op == POP26
        || op == POP27 || op == POP66 || op == POP76 || op == J || op == JAL || op == BEQ
}

/// The target of a `J` or `JAL` at `pc`: the 256 MiB region of `pc`, at the
/// word index given by bits 25..0.
#[verifier::allow_in_spec]
pub fn region_target(pc: u64, i: u32) -> u64
    returns
        ((pc & 0xFFFF_FFFF_F000_0000) | (((i % 0x400_0000) as u64 * 4) as u64)),
{
    (pc & 0xFFFF_FFFF_F000_0000) | ((i % 0x400_0000) as u64 * 4)
}

/// The effect of a branch or jump. Compact branches go to `pc + offset`,
/// `BC` and `BALC` to `pc + 4 + offset`; the linking forms write `pc + 4` to
/// the link register when they branch. `BEQ` arms the delay slot instead.
pub open spec fn branch_effect(s: CpuState, i: u32) -> Effect {
    let op = opcode(i);
    let rs = rs_field(i);
    let rt = rt_field(i);
    let a = reg(s, rs);
    let b = reg(s, rt);
    let link = s.pc.wrapping_add(4);
    let target = s.pc.wrapping_add(immediate(i));
    if op == BC {
        jump_to(s.pc.wrapping_add(offset26(i)).wrapping_add(4))
    } else if op == BALC {
        link_and_jump(s.pc.wrapping_add(offset26(i)).wrapping_add(4), link)
    } else if op == POP06 {
        if rs != 0 && rt != 0 && rs != rt {
            branch_if(b >= a, target)
        } else if rs != 0 && rs == rt {
            branch_link_if(b as i64 >= 0, target, link)
        } else if rs == 0 && rt != 0 {
            branch_link_if(b as i64 <= 0, target, link)
        } else {
            Effect::Fault
        }
    } else if op == POP07 {
        if rs != 0 && rt != 0 && rs != rt {
            branch_if(b < a, target)
        } else if rs != 0 && rs == rt {
            branch_link_if((b as i64) < 0, target, link)
        } else if rs == 0 && rt != 0 {
            branch_link_if(b as i64 > 0, target, link)
        } else {
            Effect::Fault
        }
    } else if op == POP10 {
        if rs != 0 && rt != 0 && rs < rt {
            branch_if(b == a, target)
        } else if rs == 0 && rs < rt {
            branch_link_if(b == 0, target, link)
        } else {
            branch_if(add_word(b, a) is None, target)
        }
    } else if op == POP30 {
        if rs != 0 && rt != 0 && rs < rt {
            branch_if(b != a, target)
        } else if rs == 0 && rs < rt {
            branch_link_if(b != 0, target, link)
        } else {
            branch_if(add_word(b, a) is Some, target)
        }
    } else if op == POP26 {
        if rs == 0 && rt != 0 {
            branch_if(b as i64 <= 0, target)
        } else if rs != 0 && rt != 0 && rs == rt {
            branch_if(b as i64 >= 0, target)
        } else if rs != 0 && rt != 0 && rs != rt {
            branch_if(a as i64 >= b as i64, target)
        } else {
            Effect::Fault
        }
    } else if op == POP27 {
        if rs == 0 && rt != 0 {
            branch_if(b as i64 > 0, target)
        } else if rs != 0 && rt != 0 && rs == rt {
            branch_if((b as i64) < 0, target)
        } else if rs != 0 && rt != 0 && rs != rt {
            branch_if((a as i64) < (b as i64), target)
        } else {
            Effect::Fault
        }
    } else if op == POP66 {
        if rs == 0 {
            jump_to(b.wrapping_add(immediate(i)))
        } else {
            branch_if(a == 0, s.pc.wrapping_add(offset21(i)))
        }
    } else if op == POP76 {
        if rs == 0 {
            link_and_jump(b.wrapping_add(immediate(i)), link)
        } else {
            branch_if(a != 0, s.pc.wrapping_add(offset21(i)))
        }
    } else if op == J {
        jump_to(region_target(s.pc, i))
    } else if op == JAL {
        link_and_jump(region_target(s.pc, i), link)
    } else if s.branching {
        Effect::Fault
    } else if a == b {
        Effect::Retire { write: None, jump: None, arm: Some(s.pc.wrapping_add(immediate(i) << 2)) }
    } else {
        proceed()
    }
}

/// The effect of instruction `i` in state `s`, with translation window `w`
/// and memory `m`. An unknown encoding faults.
pub open spec fn effect(s: CpuState, w: MemoryManagementUnit, m: Seq<u8>, i: u32) -> Effect {
    let op = opcode(i);
    if op == SPECIAL {
        special_effect(s, i)
    } else if is_access(op) {
        access_effect(s, w, m, i)
    } else if op == PCREL {
        pcrel_effect(s, w, m, i)
    } else if is_immediate(op) {
        immediate_effect(s, i)
    } else if op == SPECIAL3 {
        special3_effect(s, i)
    } else if is_branch(op) {
        branch_effect(s, i)
    } else {
        Effect::Fault
    }
}

/// Memory after instruction `i`: only a store that completes changes it.
pub open spec fn effect_memory(s: CpuState, w: MemoryManagementUnit, m: Seq<u8>, i: u32) -> Seq<u8> {
    if is_access(opcode(i)) {
        access_memory(s, w, m, i)
    } else {
        m
    }
}

/// The state after an instruction with effect `e` completes. A fault or stop
/// only raises its flag. Otherwise the register is written (writes to
/// register 0 are dropped), and the program counter moves to the armed
/// delay-slot target if there is one, else to the jump target, else to the
/// next instruction; an armed `arm` takes effect after the next instruction.
pub open spec fn retire(s: CpuState, e: Effect) -> CpuState {
    match e {
        Effect::Fault => CpuState { exception: true, ..s },
        Effect::Stop => CpuState { syscall: true, ..s },
        Effect::Retire { write, jump, arm } => CpuState {
            regs: match write {
                Some((r, v)) => if 0 < r < 32 {
                    s.regs.update(r as int, v)
                } else {
                    s.regs
                },
                None => s.regs,
            },
            pc: if s.branching {
                s.branch_target
            } else {
                match jump {
                    Some(t) => t,
                    None => s.pc.wrapping_add(4),
                }
            },
            branching: arm is Some,
            branch_target: match arm {
                Some(t) => t,
                None => s.branch_target,
            },
            ..s
        },
    }
}

/// One step of a core with window `w` over memory `m`: the new state and
/// memory. A core with a pending exception or syscall does nothing; a program
/// counter that does not translate, or whose instruction does not lie in
/// memory, raises an exception.
pub open spec fn step_spec(s: CpuState, w: MemoryManagementUnit, m: Seq<u8>) -> (CpuState, Seq<u8>) {
    if s.exception || s.syscall {
        (s, m)
    } else {
        match translate(w, s.pc) {
            None => (CpuState { exception: true, ..s }, m),
            Some(p) => if !fits(m, p, 4) {
                (CpuState { exception: true, ..s }, m)
            } else {
                let i = be_word(m, p as int);
                (retire(s, effect(s, w, m, i)), effect_memory(s, w, m, i))
            },
        }
    }
}

/// A load or store whose effective address does not translate raises an
/// exception and changes nothing else: no register, no byte of memory, and
/// the program counter stays on the instruction.
pub proof fn lemma_untranslated_access_faults(s: CpuState, w: MemoryManagementUnit, m: Seq<u8>, p: u64)
    requires
        !s.exception,
        !s.syscall,
        translate(w, s.pc) == Some(p),
        fits(m, p, 4),
        is_access(opcode(be_word(m, p as int))),
        translate(w, effective_address(s, be_word(m, p as int))) is None,
    ensures
        step_spec(s, w, m) == (CpuState { exception: true, ..s }, m),
{
}

/// Whether effect `e` sends the program counter to a jump target.
pub open spec fn taken(e: Effect) -> bool {
    e matches Effect::Retire { jump: Some(_), .. }
}

/// The architectural target of a branch or jump `i` at state `s`: `pc + 4 +
/// offset` for `BC` and `BALC`, `rt + offset` for `JIC` and `JIALC`, `pc +
/// offset` (21 bits) for `BEQZC` and `BNEZC`, the region target for `J` and
/// `JAL`, `rs` for `JALR`, and `pc + offset` (16 bits) for the other compact
/// branches.
pub open spec fn architectural_target(s: CpuState, i: u32) -> u64 {
    let op = opcode(i);
    if op == BC || op == BALC {
        s.pc.wrapping_add(offset26(i)).wrapping_add(4)
    } else if op == POP66 || op == POP76 {
        if rs_field(i) == 0 {
            reg(s, rt_field(i)).wrapping_add(immediate(i))
        } else {
            s.pc.wrapping_add(offset21(i))
        }
    } else if op == J || op == JAL {
        region_target(s.pc, i)
    } else if op == SPECIAL {
        reg(s, rs_field(i))
    } else {
        s.pc.wrapping_add(immediate(i))
    }
}

/// Whether `i` is a compact branch or a jump: every branch but the delayed
/// `BEQ`, and `JALR`.
pub open spec fn is_compact_branch_or_jump(i: u32) -> bool {
    (is_branch(opcode(i)) && opcode(i) != BEQ) || (opcode(i) == SPECIAL && function_field(i) == JALR
        && i % 0x800 != CLO && i % 0x800 != CLZ && i % 0x800 != DCLO && i % 0x800 != DCLZ)
}

/// Outside a delay slot, a compact branch or jump that is taken leaves the
/// program counter on its architectural target, and one that is not taken on
/// the next instruction.
pub proof fn lemma_branch_target(s: CpuState, w: MemoryManagementUnit, m: Seq<u8>, i: u32)
    requires
        state_wf(s),
        !s.branching,
        is_compact_branch_or_jump(i),
        effect(s, w, m, i) != Effect::Fault,
    ensures
        retire(s, effect(s, w, m, i)).pc == if taken(effect(s, w, m, i)) {
            architectural_target(s, i)
        } else {
            s.pc.wrapping_add(4)
        },
{
}

/// A taken `BEQ` outside a delay slot moves on to the next instruction and
/// arms the delay slot: whatever that next instruction does, short of a
/// fault or stop, the program counter then lands on `pc + 4 * offset`.
pub proof fn lemma_delay_slot(s: CpuState, w: MemoryManagementUnit, m: Seq<u8>, i: u32, next: Effect)
    requires
        state_wf(s),
        !s.branching,
        opcode(i) == BEQ,
        reg(s, rs_field(i)) == reg(s, rt_field(i)),
        next is Retire,
    ensures
        retire(s, effect(s, w, m, i)).pc == s.pc.wrapping_add(4),
        retire(retire(s, effect(s, w, m, i)), next).pc == s.pc.wrapping_add(immediate(i) << 2),
{
}

/// Whether `i` produces a 32-bit result: the word forms of add, subtract,
/// shift, rotate, multiply and divide, `ADDIU`, `LUI`, `LW`, `LWPC`,
/// `BITSWAP` and `ALIGN`.
pub open spec fn word_result(i: u32) -> bool {
    let op = opcode(i);
    let f = function_field(i);
    let low11 = i % 0x800;
    ||| op == SPECIAL && low11 != CLO && low11 != CLZ && low11 != DCLO && low11 != DCLZ && (f == ADD
        || f == ADDU || f == SUB || f == SUBU || f == SLL || f == SRL || f == SRA || f == SLLV
        || f == SRLV || f == SRAV || f == SOP30 || f == SOP31 || f == SOP32 || f == SOP33)
    ||| op == ADDIU || op == LUI || op == LW
    ||| op == PCREL && (i / 0x8_0000) % 4 == LWPC
    ||| op == SPECIAL3 && f == BSHFL
}

proof fn lemma_widened_word(x: i32)
    ensures
        is_sign_extended_word(x as i64 as u64),
{
    assert(((x as i64 as u64) >> 32) == (if (x as i64 as u64) & 0x8000_0000 != 0 {
        0xFFFF_FFFFu64
    } else {
        0u64
    })) by (bit_vector);
}

/// Every instruction that produces a 32-bit result writes it sign-extended:
/// bits 63..32 of the value written repeat bit 31.
pub proof fn lemma_word_results_sign_extended(s: CpuState, w: MemoryManagementUnit, m: Seq<u8>, i: u32)
    requires
        state_wf(s),
        word_result(i),
    ensures
        match effect(s, w, m, i) {
            Effect::Retire { write: Some((r, v)), .. } => is_sign_extended_word(v),
            _ => true,
        },
{
    let a = reg(s, rs_field(i));
    let b = reg(s, rt_field(i));
    let sa = sa_field(i);
    let imm = immediate(i);
    let uimm = unsigned_immediate(i);
    lemma_sign_extend_word(b << sa);
    lemma_sign_extend_word(b << ((a % 32) as u32));
    lemma_sign_extend_word(uimm << 16u32);
    lemma_sign_extend_word(bitswap_dword(b));
    let bp = ((i / 0x40) % 4) as u64;
    lemma_sign_extend_word(shl((b as u32) as u64, 8 * bp) | shr((a as u32) as u64, 32 - 8 * bp));
    lemma_widened_word((a as i32).wrapping_add(b as i32));
    lemma_widened_word((a as i32).wrapping_add(imm as i32));
    lemma_widened_word((a as i32).wrapping_sub(b as i32));
    lemma_widened_word(((a as i32) + (b as i32)) as i32);
    lemma_widened_word(((a as i32) - (b as i32)) as i32);
    lemma_widened_word(((b as u32) >> sa) as i32);
    lemma_widened_word(((b as u32) >> ((a % 32) as u32)) as i32);
    lemma_widened_word((b as i32) >> sa);
    lemma_widened_word((b as i32) >> ((a % 32) as u32));
    lemma_widened_word(((((b as u32) as u64) >> sa) | (((b as u32) as u64) << (32 - sa))) as u32 as i32);
    let sv = (a % 32) as u32;
    lemma_widened_word(((((b as u32) as u64) >> sv) | (((b as u32) as u64) << (32 - sv))) as u32 as i32);
    lemma_widened_word((a as i32).wrapping_mul(b as i32));
    let x = (a as i32) as int;
    let y = (b as i32) as int;
    assert(-0x4000_0000_0000_0000 <= x * y <= 0x4000_0000_0000_0000) by (nonlinear_arith)
        requires
            -0x8000_0000 <= x < 0x8000_0000,
            -0x8000_0000 <= y < 0x8000_0000,
    ;
    lemma_widened_word(((a as i32) * (b as i32) / 0x1_0000_0000) as i32);
    lemma_widened_word((((a as u32) * (b as u32)) as u32) as i32);
    lemma_widened_word((((a as u32) * (b as u32) / 0x1_0000_0000) as u32) as i32);
    if let Some(q) = ((a as i32) as i64).checked_div((b as i32) as i64) {
        lemma_widened_word(q as i32);
    }
    if let Some(q) = ((a as i32) as i64).checked_rem((b as i32) as i64) {
        lemma_widened_word(q as i32);
    }
    if let Some(q) = (a as u32).checked_div(b as u32) {
        lemma_widened_word(q as i32);
    }
    if let Some(q) = (a as u32).checked_rem(b as u32) {
        lemma_widened_word(q as i32);
    }
    if let Some(p) = translate(w, effective_address(s, i)) {
        lemma_widened_word((le_value(m, p as int, 4) as u32) as i32);
    }
    if let Some(p) = translate(w, s.pc.wrapping_add(offset19(i))) {
        lemma_widened_word((le_value(m, p as int, 4) as u32) as i32);
    }
}

/// A core with id `id`: all registers zero, program counter 0, nothing pending.
pub fn new(id: u64) -> (cpu: Cpu)
    ensures
        cpu.wf(),
        cpu@ == (CpuState {
            regs: Seq::new(32, |r: int| 0u64),
            pc: 0,
            id,
            exception: false,
            syscall: false,
            branching: false,
            branch_target: 0,
        }),
{
    let mut registers: Vec<u64> = Vec::new();
    let mut k: u64 = 0;
    while k < 32
        invariant
            k <= 32,
            registers@ == Seq::new(k as nat, |r: int| 0u64),
        decreases 32 - k,
    {
        registers.push(0);
        k += 1;
        assert(registers@ =~= Seq::new(k as nat, |r: int| 0u64));
    }
    Cpu { registers, pc: 0, id, syscall: false, exception: false, branching: false, branch_target: 0 }
}

impl Cpu {
    /// Thirty-two registers, register 0 holding zero.
    pub open spec fn wf(&self) -> bool {
        state_wf(self@)
    }

    fn read_reg(&self, r: u32) -> (v: u64)
        requires
            self.wf(),
            r < 32,
        ensures
            v == reg(self@, r),
    {
        self.registers[r as usize]
    }

    /// Executes an instruction of the SPECIAL opcode, as far as its effect.
    fn special(&self, i: u32) -> (e: Effect)
        requires
            self.wf(),
        ensures
            e == special_effect(self@, i),
    {
        let f = function_field(i);
        let rs = rs_field(i);
        let rt = rt_field(i);
        let rd = rd_field(i);
        let sa = sa_field(i);
        let a = self.read_reg(rs);
        let b = self.read_reg(rt);
        let low11 = i % 0x800;
        if f == BREAK || f == SYSCALL {
            Effect::Stop
        } else if low11 == CLO && rt == 0 {
            write_reg(rd, count_leading_ones_word(a))
        } else if low11 == CLZ && rt == 0 {
            write_reg(rd, count_leading_zeros_word(a))
        } else if low11 == DCLO && rt == 0 {
            write_reg(rd, count_leading_ones_dword(a))
        } else if low11 == DCLZ && rt == 0 {
            write_reg(rd, count_leading_zeros_dword(a))
        } else if f == ADD {
            write_or_fault(rd, add_word(a, b))
        } else if f == ADDU {
            write_reg(rd, add_word_wrapping(a, b))
        } else if f == SUB {
            write_or_fault(rd, sub_word(a, b))
        } else if f == SUBU {
            write_reg(rd, sub_word_wrapping(a, b))
        } else if f == DADD {
            write_or_fault(rd, add_dword(a, b))
        } else if f == DADDU {
            write_reg(rd, a.wrapping_add(b))
        } else if f == DSUB {
            write_or_fault(rd, sub_dword(a, b))
        } else if f == DSUBU {
            write_reg(rd, a.wrapping_sub(b))
        } else if f == AND {
            write_reg(rd, a & b)
        } else if f == OR {
            write_reg(rd, a | b)
        } else if f == XOR {
            write_reg(rd, a ^ b)
        } else if f == NOR {
            write_reg(rd, !(a | b))
        } else if f == SLT {
            write_reg(rd, less_signed(a, b))
        } else if f == SLTU {
            write_reg(rd, less_unsigned(a, b))
        } else if f == SLL {
            if rs == 0 { write_reg(rd, shift_left_word(b, sa)) } else { Effect::Fault }
        } else if f == SRL {
            if rs == 1 { write_reg(rd, rotate_right_word(b, sa)) } else { write_reg(rd, shift_right_word(b, sa)) }
        } else if f == SRA {
            if rs == 0 { write_reg(rd, shift_right_arith_word(b, sa)) } else { Effect::Fault }
        } else if f == SLLV {
            if sa == 0 { write_reg(rd, shift_left_word(b, (a % 32) as u32)) } else { Effect::Fault }
        } else if f == SRLV {
            if sa == 1 {
                write_reg(rd, rotate_right_word(b, (a % 32) as u32))
            } else {
                write_reg(rd, shift_right_word(b, (a % 32) as u32))
            }
        } else if f == SRAV {
            if sa == 0 { write_reg(rd, shift_right_arith_word(b, (a % 32) as u32)) } else { Effect::Fault }
        } else if f == DSLL {
            if rs == 0 { write_reg(rd, shift_left_dword(b, sa)) } else { Effect::Fault }
        } else if f == DSLL32 {
            if rs == 0 { write_reg(rd, shift_left_dword(b, (sa + 32) as u32)) } else { Effect::Fault }
        } else if f == DSLLV {
            if sa == 0 { write_reg(rd, shift_left_dword(b, (a % 64) as u32)) } else { Effect::Fault }
        } else if f == DSRL {
            if rs % 2 == 1 { write_reg(rd, rotate_right_dword(b, sa)) } else { write_reg(rd, shift_right_dword(b, sa)) }
        } else if f == DSRL32 {
            if rs % 2 == 1 {
                write_reg(rd, rotate_right_dword(b, (sa + 32) as u32))
            } else {
                write_reg(rd, shift_right_dword(b, (sa + 32) as u32))
            }
        } else if f == DSRLV {
            if sa % 2 == 1 {
                write_reg(rd, rotate_right_dword(b, (a % 64) as u32))
            } else {
                write_reg(rd, shift_right_dword(b, (a % 64) as u32))
            }
        } else if f == DSRA {
            if rs == 0 { write_reg(rd, shift_right_arith_dword(b, sa)) } else { Effect::Fault }
        } else if f == DSRA32 {
            if rs == 0 { write_reg(rd, shift_right_arith_dword(b, (sa + 32) as u32)) } else { Effect::Fault }
        } else if f == DSRAV {
            if sa == 0 { write_reg(rd, shift_right_arith_dword(b, (a % 64) as u32)) } else { Effect::Fault }
        } else if f == SOP30 {
            if sa == SOP_LOW {
                write_reg(rd, mul_word(a, b))
            } else if sa == SOP_HIGH {
                write_reg(rd, mul_high_word(a, b))
            } else {
                Effect::Fault
            }
        } else if f == SOP31 {
            if sa == SOP_LOW {
                write_reg(rd, mul_word_unsigned(a, b))
            } else if sa == SOP_HIGH {
                write_reg(rd, mul_high_word_unsigned(a, b))
            } else {
                Effect::Fault
            }
        } else if f == SOP34 {
            if sa == SOP_LOW {
                write_reg(rd, mul_dword(a, b))
            } else if sa == SOP_HIGH {
                write_reg(rd, mul_high_dword(a, b))
            } else {
                Effect::Fault
            }
        } else if f == SOP35 {
            if sa == SOP_LOW {
                write_reg(rd, mul_dword(a, b))
            } else if sa == SOP_HIGH {
                write_reg(rd, mul_high_dword_unsigned(a, b))
            } else {
                Effect::Fault
            }
        } else if f == SOP32 {
            if sa == SOP_LOW {
                write_or_fault(rd, div_word(a, b))
            } else if sa == SOP_HIGH {
                write_or_fault(rd, mod_word(a, b))
            } else {
                Effect::Fault
            }
        } else if f == SOP33 {
            if sa == SOP_LOW {
                write_or_fault(rd, div_word_unsigned(a, b))
            } else if sa == SOP_HIGH {
                write_or_fault(rd, mod_word_unsigned(a, b))
            } else {
                Effect::Fault
            }
        } else if f == SOP36 {
            if sa == SOP_LOW {
                write_or_fault(rd, div_dword(a, b))
            } else if sa == SOP_HIGH {
                write_or_fault(rd, mod_dword(a, b))
            } else {
                Effect::Fault
            }
        } else if f == SOP37 {
            if sa == SOP_LOW {
                write_or_fault(rd, div_dword_unsigned(a, b))
            } else if sa == SOP_HIGH {
                write_or_fault(rd, mod_dword_unsigned(a, b))
            } else {
                Effect::Fault
            }
        } else if f == JALR {
            Effect::Retire { write: Some((rd, self.pc.wrapping_add(8))), jump: Some(a), arm: None }
        } else {
            Effect::Fault
        }
    }
    /// Executes a load or store, as far as its effect.
    fn access(&self, i: u32, memory: &mut Memory) -> (e: Effect)
        requires
            self.wf(),
            old(memory).wf(),
            self@.id < old(memory).windows().len(),
            is_access(opcode(i)),
        ensures
            e == access_effect(self@, old(memory).windows()[self@.id as int], old(memory).bytes(), i),
            final(memory).bytes() == access_memory(self@, old(memory).windows()[self@.id as int], old(memory).bytes(), i),
            final(memory).windows() == old(memory).windows(),
            final(memory).wf(),
    {
        let op = opcode(i);
        let rt = rt_field(i);
        let b = self.read_reg(rt);
        let address = self.read_reg(rs_field(i)).wrapping_add(immediate(i));
        let ghost m = memory.bytes();
        match memory.translate_address(self.id, address) {
            None => Effect::Fault,
            Some(p) => {
                if op == SB {
                    if memory.write_byte(p, b as u8) { proceed() } else { Effect::Fault }
                } else if op == SH {
                    if memory.write_halfword(p, b as u16) { proceed() } else { Effect::Fault }
                } else if op == SW {
                    if memory.write_word(p, b as u32) { proceed() } else { Effect::Fault }
                } else if op == SD {
                    if memory.write_dword(p, b) { proceed() } else { Effect::Fault }
                } else if op == LB || op == LBU {
                    match memory.read_byte(p) {
                        None => Effect::Fault,
                        Some(x) => write_reg(rt, if op == LB { x as i8 as i64 as u64 } else { x as u64 }),
                    }
                } else if op == LH || op == LHU {
                    match memory.read_halfword(p) {
                        None => Effect::Fault,
                        Some(x) => write_reg(rt, if op == LH { x as i16 as i64 as u64 } else { x as u64 }),
                    }
                } else if op == LW || op == LWU {
                    match memory.read_word(p) {
                        None => Effect::Fault,
                        Some(x) => write_reg(rt, if op == LW { x as i32 as i64 as u64 } else { x as u64 }),
                    }
                } else {
                    match memory.read_dword(p) {
                        None => Effect::Fault,
                        Some(x) => write_reg(rt, x),
                    }
                }
            },
        }
    }

    /// Executes a PC-relative load, as far as its effect.
    fn pc_relative(&self, i: u32, memory: &mut Memory) -> (e: Effect)
        requires
            self.wf(),
            old(memory).wf(),
            self@.id < old(memory).windows().len(),
        ensures
            e == pcrel_effect(self@, old(memory).windows()[self@.id as int], old(memory).bytes(), i),
            *final(memory) == *old(memory),
    {
        let sub = (i / 0x8_0000) % 4;
        let rs = rs_field(i);
        if sub == LWPC || sub == LWUPC {
            match memory.translate_address(self.id, self.pc.wrapping_add(offset19(i))) {
                None => Effect::Fault,
                Some(p) => match memory.read_word(p) {
                    None => Effect::Fault,
                    Some(x) => write_reg(rs, if sub == LWPC { x as i32 as i64 as u64 } else { x as u64 }),
                },
            }
        } else if (i / 0x4_0000) % 8 == LDPC {
            match memory.translate_address(self.id, self.pc.wrapping_add(offset18(i))) {
                None => Effect::Fault,
                Some(p) => match memory.read_dword(p) {
                    None => Effect::Fault,
                    Some(x) => write_reg(rs, x),
                },
            }
        } else {
            Effect::Fault
        }
    }

    /// Executes an ALU operation with a 16-bit immediate, as far as its effect.
    fn immediate_op(&self, i: u32) -> (e: Effect)
        requires
            self.wf(),
        ensures
            e == immediate_effect(self@, i),
    {
        let op = opcode(i);
        let rt = rt_field(i);
        let a = self.read_reg(rs_field(i));
        let imm = immediate(i);
        let uimm = unsigned_immediate(i);
        if op == ADDIU {
            write_reg(rt, add_word_wrapping(a, imm))
        } else if op == DADDIU {
            write_reg(rt, a.wrapping_add(imm))
        } else if op == ANDI {
            write_reg(rt, a & uimm)
        } else if op == ORI {
            write_reg(rt, a | uimm)
        } else if op == XORI {
            write_reg(rt, a ^ uimm)
        } else if op == LUI {
            write_reg(rt, shift_left_word(uimm, 16))
        } else if op == SLTI {
            write_reg(rt, less_signed(a, imm))
        } else {
            write_reg(rt, less_unsigned(a, imm))
        }
    }

    /// Executes an instruction of the SPECIAL3 opcode, as far as its effect.
    fn special3(&self, i: u32) -> (e: Effect)
        requires
            self.wf(),
        ensures
            e == special3_effect(self@, i),
    {
        let f = function_field(i);
        let rd = rd_field(i);
        let a = self.read_reg(rs_field(i));
        let b = self.read_reg(rt_field(i));
        if rs_field(i) != 0 {
            if f == BSHFL && (i / 0x100) % 8 == ALIGN {
                write_reg(rd, align_word(a, b, ((i / 0x40) % 4) as u64))
            } else if f == DBSHFL && (i / 0x200) % 4 == DALIGN {
                write_reg(rd, align_dword(a, b, ((i / 0x40) % 8) as u64))
            } else {
                Effect::Fault
            }
        } else if f == BSHFL {
            write_reg(rd, bitswap_word(b))
        } else if f == DBSHFL {
            write_reg(rd, bitswap_dword(b))
        } else {
            Effect::Fault
        }
    }

    /// Executes a branch or jump, as far as its effect.
    fn branch(&self, i: u32) -> (e: Effect)
        requires
            self.wf(),
        ensures
            e == branch_effect(self@, i),
    {
        let op = opcode(i);
        let rs = rs_field(i);
        let rt = rt_field(i);
        let a = self.read_reg(rs);
        let b = self.read_reg(rt);
        let link = self.pc.wrapping_add(4);
        let target = self.pc.wrapping_add(immediate(i));
        if op == BC {
            jump_to(self.pc.wrapping_add(offset26(i)).wrapping_add(4))
        } else if op == BALC {
            link_and_jump(self.pc.wrapping_add(offset26(i)).wrapping_add(4), link)
        } else if op == POP06 {
            if rs != 0 && rt != 0 && rs != rt {
                branch_if(b >= a, target)
            } else if rs != 0 && rs == rt {
                branch_link_if(b as i64 >= 0, target, link)
            } else if rs == 0 && rt != 0 {
                branch_link_if(b as i64 <= 0, target, link)
            } else {
                Effect::Fault
            }
        } else if op == POP07 {
            if rs != 0 && rt != 0 && rs != rt {
                branch_if(b < a, target)
            } else if rs != 0 && rs == rt {
                branch_link_if((b as i64) < 0, target, link)
            } else if rs == 0 && rt != 0 {
                branch_link_if(b as i64 > 0, target, link)
            } else {
                Effect::Fault
            }
        } else if op == POP10 {
            if rs != 0 && rt != 0 && rs < rt {
                branch_if(b == a, target)
            } else if rs == 0 && rs < rt {
                branch_link_if(b == 0, target, link)
            } else {
                branch_if(add_word(b, a).is_none(), target)
            }
        } else if op == POP30 {
            if rs != 0 && rt != 0 && rs < rt {
                branch_if(b != a, target)
            } else if rs == 0 && rs < rt {
                branch_link_if(b != 0, target, link)
            } else {
                branch_if(add_word(b, a).is_some(), target)
            }
        } else if op == POP26 {
            if rs == 0 && rt != 0 {
                branch_if(b as i64 <= 0, target)
            } else if rs != 0 && rt != 0 && rs == rt {
                branch_if(b as i64 >= 0, target)
            } else if rs != 0 && rt != 0 && rs != rt {
                branch_if(a as i64 >= b as i64, target)
            } else {
                Effect::Fault
            }
        } else if op == POP27 {
            if rs == 0 && rt != 0 {
                branch_if(b as i64 > 0, target)
            } else if rs != 0 && rt != 0 && rs == rt {
                branch_if((b as i64) < 0, target)
            } else if rs != 0 && rt != 0 && rs != rt {
                branch_if((a as i64) < (b as i64), target)
            } else {
                Effect::Fault
            }
        } else if op == POP66 {
            if rs == 0 {
                jump_to(b.wrapping_add(immediate(i)))
            } else {
                branch_if(a == 0, self.pc.wrapping_add(offset21(i)))
            }
        } else if op == POP76 {
            if rs == 0 {
                link_and_jump(b.wrapping_add(immediate(i)), link)
            } else {
                branch_if(a != 0, self.pc.wrapping_add(offset21(i)))
            }
        } else if op == J {
            jump_to(region_target(self.pc, i))
        } else if op == JAL {
            link_and_jump(region_target(self.pc, i), link)
        } else if self.branching {
            Effect::Fault
        } else if a == b {
            Effect::Retire { write: None, jump: None, arm: Some(self.pc.wrapping_add(immediate(i) << 2)) }
        } else {
            proceed()
        }
    }

    /// Decodes instruction `i` and carries out its memory access, if any;
    /// returns what it does to the core.
    fn effect(&self, i: u32, memory: &mut Memory) -> (e: Effect)
        requires
            self.wf(),
            old(memory).wf(),
            self@.id < old(memory).windows().len(),
        ensures
            e == effect(self@, old(memory).windows()[self@.id as int], old(memory).bytes(), i),
            final(memory).bytes() == effect_memory(self@, old(memory).windows()[self@.id as int], old(memory).bytes(), i),
            final(memory).windows() == old(memory).windows(),
            final(memory).wf(),
    {
        let op = opcode(i);
        if op == SPECIAL {
            self.special(i)
        } else if op == LB || op == LBU || op == LH || op == LHU || op == LW || op == LWU || op == LD
            || op == SB || op == SH || op == SW || op == SD {
            self.access(i, memory)
        } else if op == PCREL {
            self.pc_relative(i, memory)
        } else if op == ADDIU || op == DADDIU || op == ANDI || op == ORI || op == XORI || op == LUI
            || op == SLTI || op == SLTIU {
            self.immediate_op(i)
        } else if op == SPECIAL3 {
            self.special3(i)
        } else if op == BC || op == BALC || op == POP06 || op == POP07 || op == POP10 || op == POP30
            || op == POP26 || op == POP27 || op == POP66 || op == POP76 || op == J || op == JAL
            || op == BEQ {
            self.branch(i)
        } else {
            Effect::Fault
        }
    }

    /// Applies effect `e` and moves the program counter on.
    fn retire(&mut self, e: Effect)
        requires
            old(self).wf(),
        ensures
            final(self).wf(),
            final(self)@ == retire(old(self)@, e),
    {
        match e {
            Effect::Fault => {
                self.exception = true;
            },
            Effect::Stop => {
                self.syscall = true;
            },
            Effect::Retire { write, jump, arm } => {
                match write {
                    Some((r, v)) => {
                        if 0 < r && r < 32 {
                            self.registers.set(r as usize, v);
                        }
                    },
                    None => {},
                }
                if self.branching {
                    self.branching = false;
                    self.pc = self.branch_target;
                } else {
                    match jump {
                        Some(t) => {
                            self.pc = t;
                        },
                        None => {
                            self.pc = self.pc.wrapping_add(4);
                        },
                    }
                }
                match arm {
                    Some(t) => {
                        self.branching = true;
                        self.branch_target = t;
                    },
                    None => {},
                }
            },
        }
    }

    /// Executes instruction word `instruction`: applies its effect to the
    /// registers, program counter, flags and memory.
    pub fn execute_instruction(&mut self, instruction: u32, memory: &mut Memory)
        requires
            old(self).wf(),
            old(memory).wf(),
            old(self)@.id < old(memory).windows().len(),
        ensures
            final(self).wf(),
            final(self)@ == retire(
                old(self)@,
                effect(old(self)@, old(memory).windows()[old(self)@.id as int], old(memory).bytes(), instruction),
            ),
            final(memory).bytes() == effect_memory(
                old(self)@,
                old(memory).windows()[old(self)@.id as int],
                old(memory).bytes(),
                instruction,
            ),
            final(memory).windows() == old(memory).windows(),
            final(memory).wf(),
    {
        let e = self.effect(instruction, memory);
        self.retire(e);
    }

    /// Runs one step: fetches the instruction at the program counter through
    /// the core's window and executes it. Does nothing while an exception or
    /// syscall is pending; raises an exception when the fetch fails.
    pub fn step(&mut self, memory: &mut Memory)
        requires
            old(self).wf(),
            old(memory).wf(),
            old(self)@.id < old(memory).windows().len(),
        ensures
            final(self).wf(),
            (final(self)@, final(memory).bytes()) == step_spec(
                old(self)@,
                old(memory).windows()[old(self)@.id as int],
                old(memory).bytes(),
            ),
            final(memory).windows() == old(memory).windows(),
            final(memory).wf(),
    {
        if self.exception || self.syscall {
            return;
        }
        let address = match memory.translate_address(self.id, self.pc) {
            None => {
                self.exception = true;
                return;
            },
            Some(p) => p,
        };
        let instruction = match memory.read_instruction(address) {
            None => {
                self.exception = true;
                return;
            },
            Some(w) => w,
        };
        self.execute_instruction(instruction, memory);
    }

    /// The core's id, which selects its translation window.
    pub fn id(&self) -> (r: u64)
        ensures
            r == self@.id,
    {
        self.id
    }

    /// Register `r`.
    pub fn register(&self, r: u64) -> (v: u64)
        requires
            self.wf(),
            r < 32,
        ensures
            v == self@.regs[r as int],
    {
        self.registers[r as usize]
    }

    /// Sets register `r` to `v`; a write to register 0 is dropped.
    pub fn set_register(&mut self, r: u64, v: u64)
        requires
            old(self).wf(),
            r < 32,
        ensures
            final(self).wf(),
            final(self)@ == (CpuState {
                regs: if r == 0 { old(self)@.regs } else { old(self)@.regs.update(r as int, v) },
                ..old(self)@
            }),
    {
        if r != 0 {
            self.registers.set(r as usize, v);
        }
    }

    /// The program counter.
    pub fn pc(&self) -> (r: u64)
        ensures
            r == self@.pc,
    {
        self.pc
    }

    /// Sets the program counter.
    pub fn set_pc(&mut self, pc: u64)
        requires
            old(self).wf(),
        ensures
            final(self).wf(),
            final(self)@ == (CpuState { pc, ..old(self)@ }),
    {
        self.pc = pc;
    }

    /// Whether an architectural exception is pending.
    pub fn exception_pending(&self) -> (r: bool)
        ensures
            r == self@.exception,
    {
        self.exception
    }

    /// Whether a voluntary stop is pending.
    pub fn syscall_pending(&self) -> (r: bool)
        ensures
            r == self@.syscall,
    {
        self.syscall
    }

    /// Clears both pending flags, so that the core runs again.
    pub fn clear_pending(&mut self)
        requires
            old(self).wf(),
        ensures
            final(self).wf(),
            final(self)@ == (CpuState { exception: false, syscall: false, ..old(self)@ }),
    {
        self.exception = false;
        self.syscall = false;
    }
}

} // verus!
