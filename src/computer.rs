//! A computer: several cores over one shared memory, stepped in core-id order.
use crate::computer::cpu::{step_spec, CpuState};
use crate::computer::memory::{fits, store_le, MemoryManagementUnit};
use vstd::prelude::*;

pub mod alu;
pub mod cpu;
pub mod memory;

verus! {

/// The cores, in id order, and the memory they share.
pub struct Computer {
    cpus: Vec<cpu::Cpu>,
    memory: memory::Memory,
}

/// One tick over the first `k` cores: each steps once, in id order, each
/// seeing the memory the previous one left.
pub open spec fn tick(
    cpus: Seq<CpuState>,
    windows: Seq<MemoryManagementUnit>,
    m: Seq<u8>,
    k: nat,
) -> (Seq<CpuState>, Seq<u8>)
    decreases k,
{
    if k == 0 {
        (cpus, m)
    } else {
        let (c, m1) = tick(cpus, windows, m, (k - 1) as nat);
        let (s, m2) = step_spec(c[k - 1], windows[c[k - 1].id as int], m1);
        (c.update(k - 1, s), m2)
    }
}

/// A computer with `cpus` cores and `memory` bytes of zeroed memory. Every
/// core starts at program counter 0 with a window that maps only address 0.
pub fn new(cpus: u64, memory: u64) -> (com: Computer)
    ensures
        com.wf(),
        com.cpu_states().len() == cpus,
        com.bytes() == Seq::new(memory as nat, |i: int| 0u8),
        forall|k: int| 0 <= k < cpus ==> (#[trigger] com.cpu_states()[k]) == (CpuState {
            regs: Seq::new(32, |r: int| 0u64),
            pc: 0,
            id: k as u64,
            exception: false,
            syscall: false,
            branching: false,
            branch_target: 0,
        }),
        forall|k: int| 0 <= k < cpus ==> (#[trigger] com.windows()[k]) == (MemoryManagementUnit { base: 0, limit: 0 }),
{
    let mut com = Computer { cpus: Vec::new(), memory: memory::new(memory, cpus) };
    let mut i: u64 = 0;
    while i < cpus
        invariant
            i <= cpus,
            com.cpus@.len() == i,
            com.memory.wf(),
            com.memory.windows().len() == cpus,
            com.memory.bytes() == Seq::new(memory as nat, |j: int| 0u8),
            forall|k: int| 0 <= k < cpus ==> (#[trigger] com.memory.windows()[k]) == (MemoryManagementUnit { base: 0, limit: 0 }),
            forall|k: int| 0 <= k < i ==> (#[trigger] com.cpus@[k]).wf() && com.cpus@[k]@ == (CpuState {
                regs: Seq::new(32, |r: int| 0u64),
                pc: 0,
                id: k as u64,
                exception: false,
                syscall: false,
                branching: false,
                branch_target: 0,
            }),
        decreases cpus - i,
    {
        com.cpus.push(cpu::new(i));
        i += 1;
    }
    com
}

impl Computer {
    /// The state of each core, by id.
    pub closed spec fn cpu_states(&self) -> Seq<CpuState> {
        self.cpus@.map_values(|c: cpu::Cpu| c@)
    }

    /// The physical memory.
    pub closed spec fn bytes(&self) -> Seq<u8> {
        self.memory.bytes()
    }

    /// The translation window of each core, by id.
    pub closed spec fn windows(&self) -> Seq<MemoryManagementUnit> {
        self.memory.windows()
    }

    /// One window per core, each core well formed and knowing its own id,
    /// and every window inside the address space.
    pub closed spec fn wf(&self) -> bool {
        &&& self.memory.wf()
        &&& self.cpus@.len() == self.memory.windows().len()
        &&& forall|k: int| 0 <= k < self.cpus@.len() ==> (#[trigger] self.cpus@[k]).wf() && self.cpus@[k]@.id == k
    }

    /// Advances one tick: every core steps once, in id order.
    pub fn step(&mut self)
        requires
            old(self).wf(),
        ensures
            final(self).wf(),
            final(self).windows() == old(self).windows(),
            (final(self).cpu_states(), final(self).bytes()) == tick(
                old(self).cpu_states(),
                old(self).windows(),
                old(self).bytes(),
                old(self).cpu_states().len(),
            ),
    {
        let n = self.cpus.len();
        let mut k: usize = 0;
        while k < n
            invariant
                k <= n,
                n == self.cpus@.len(),
                self.wf(),
                self.windows() == old(self).windows(),
                (self.cpu_states(), self.bytes()) == tick(
                    old(self).cpu_states(),
                    old(self).windows(),
                    old(self).bytes(),
                    k as nat,
                ),
            decreases n - k,
        {
            let mut c = self.cpus.remove(k);
            c.step(&mut self.memory);
            self.cpus.insert(k, c);
            k += 1;
        }
    }
    /// The number of cores.
    pub fn cpu_count(&self) -> (r: u64)
        ensures
            r == self.cpu_states().len(),
    {
        self.cpus.len() as u64
    }

    /// Core `k`.
    pub fn cpu(&self, k: u64) -> (c: &cpu::Cpu)
        requires
            self.wf(),
            k < self.cpu_states().len(),
        ensures
            c.wf(),
            c@ == self.cpu_states()[k as int],
    {
        let n = self.cpus.len();
        &self.cpus[k as usize]
    }

    /// Replaces the translation window of core `k`.
    pub fn set_mmu(&mut self, k: u64, base: u64, limit: u64)
        requires
            old(self).wf(),
            k < old(self).cpu_states().len(),
            base + limit <= u64::MAX,
        ensures
            final(self).wf(),
            final(self).cpu_states() == old(self).cpu_states(),
            final(self).bytes() == old(self).bytes(),
            final(self).windows() == old(self).windows().update(k as int, MemoryManagementUnit { base, limit }),
    {
        self.memory.set_mmu(k, base, limit);
    }

    /// Writes byte `value` at physical `address`; false, with nothing changed,
    /// when the address lies outside memory.
    pub fn write_byte(&mut self, address: u64, value: u8) -> (r: bool)
        requires
            old(self).wf(),
        ensures
            final(self).wf(),
            final(self).cpu_states() == old(self).cpu_states(),
            final(self).windows() == old(self).windows(),
            r == fits(old(self).bytes(), address, 1),
            final(self).bytes() == if r {
                store_le(old(self).bytes(), address as int, value as nat, 1)
            } else {
                old(self).bytes()
            },
    {
        self.memory.write_byte(address, value)
    }

    /// The byte at physical `address`, if it lies inside memory.
    pub fn read_byte(&mut self, address: u64) -> (r: Option<u8>)
        ensures
            *final(self) == *old(self),
            r == (if fits(old(self).bytes(), address, 1) {
                Some(old(self).bytes()[address as int])
            } else {
                None
            }),
    {
        self.memory.read_byte(address)
    }

    /// Sets register `r` of core `k` to `v`; a write to register 0 is dropped.
    pub fn set_register(&mut self, k: u64, r: u64, v: u64)
        requires
            old(self).wf(),
            k < old(self).cpu_states().len(),
            r < 32,
        ensures
            final(self).wf(),
            final(self).bytes() == old(self).bytes(),
            final(self).windows() == old(self).windows(),
            final(self).cpu_states() == old(self).cpu_states().update(k as int, CpuState {
                regs: if r == 0 {
                    old(self).cpu_states()[k as int].regs
                } else {
                    old(self).cpu_states()[k as int].regs.update(r as int, v)
                },
                ..old(self).cpu_states()[k as int]
            }),
    {
        let n = self.cpus.len();
        let mut c = self.cpus.remove(k as usize);
        c.set_register(r, v);
        self.cpus.insert(k as usize, c);
        assert(self.cpu_states() =~= old(self).cpu_states().update(k as int, c@));
    }

    /// Clears the pending flags of core `k`.
    pub fn clear_pending(&mut self, k: u64)
        requires
            old(self).wf(),
            k < old(self).cpu_states().len(),
        ensures
            final(self).wf(),
            final(self).bytes() == old(self).bytes(),
            final(self).windows() == old(self).windows(),
            final(self).cpu_states() == old(self).cpu_states().update(k as int, CpuState {
                exception: false,
                syscall: false,
                ..old(self).cpu_states()[k as int]
            }),
    {
        let n = self.cpus.len();
        let mut c = self.cpus.remove(k as usize);
        c.clear_pending();
        self.cpus.insert(k as usize, c);
        assert(self.cpu_states() =~= old(self).cpu_states().update(k as int, c@));
    }
}

} // verus!
