//! Physical memory and the per-core base/limit address translators.
//!
//! Data is laid out little-endian (byte 0 is the least significant);
//! instructions are fetched big-endian.
use vstd::arithmetic::div_mod::{lemma_div_denominator, lemma_mod_breakdown, lemma_small_mod};
use vstd::prelude::*;

verus! {

/// The translation window of one core: virtual addresses `0..=limit` map to
/// physical addresses `base..=base + limit`.
pub struct MemoryManagementUnit {
    pub base: u64,
    pub limit: u64,
}

/// The byte store shared by all cores, with one translation window per core.
pub struct Memory {
    memory: Vec<u8>,
    mmus: Vec<MemoryManagementUnit>,
}

/// `256^k`.
pub open spec fn pow256(k: nat) -> nat
    decreases k,
{
    if k == 0 {
        1
    } else {
        256 * pow256((k - 1) as nat)
    }
}

/// The number whose little-endian encoding is the `n` bytes of `s` starting at `a`.
pub open spec fn le_value(s: Seq<u8>, a: int, n: nat) -> nat
    decreases n,
{
    if n == 0 {
        0
    } else {
        s[a] as nat + 256 * le_value(s, a + 1, (n - 1) as nat)
    }
}

/// Byte `k` (counting from the least significant) of `v`.
pub open spec fn byte_of(v: nat, k: nat) -> u8 {
    ((v / pow256(k)) % 256) as u8
}

/// `s` with the `n` low bytes of `v` written little-endian from index `a` on.
pub open spec fn store_le(s: Seq<u8>, a: int, v: nat, n: nat) -> Seq<u8> {
    Seq::new(s.len(), |i: int| if a <= i < a + n { byte_of(v, (i - a) as nat) } else { s[i] })
}

/// Whether the `n` bytes starting at physical address `a` lie inside `s`.
pub open spec fn fits(s: Seq<u8>, a: u64, n: nat) -> bool {
    a + n <= s.len()
}

/// The 32-bit word whose big-endian encoding is the four bytes of `s` at `a`.
pub open spec fn be_word(s: Seq<u8>, a: int) -> u32 {
    (s[a] * 0x100_0000 + s[a + 1] * 0x1_0000 + s[a + 2] * 0x100 + s[a + 3]) as u32
}

/// The physical address of virtual address `v` under window `w`, if `v` lies in it.
pub open spec fn translate(w: MemoryManagementUnit, v: u64) -> Option<u64> {
    if v > w.limit {
        None
    } else {
        Some((v + w.base) as u64)
    }
}

/// The result of reading `n` bytes little-endian at `a`: `None` when they do not fit.
pub open spec fn read_spec(s: Seq<u8>, a: u64, n: nat) -> Option<u64> {
    if fits(s, a, n) {
        Some(le_value(s, a as int, n) as u64)
    } else {
        None
    }
}

pub proof fn lemma_pow256_monotone(a: nat, b: nat)
    requires
        a <= b,
    ensures
        1 <= pow256(a) <= pow256(b),
    decreases b - a,
{
    if a < b {
        lemma_pow256_monotone(a, (b - 1) as nat);
    } else {
        lemma_pow256_positive(a);
    }
}

pub proof fn lemma_pow256_positive(a: nat)
    ensures
        pow256(a) >= 1,
    decreases a,
{
    if a > 0 {
        lemma_pow256_positive((a - 1) as nat);
    }
}

proof fn lemma_pow256_8()
    ensures
        pow256(8) == 0x1_0000_0000_0000_0000,
        pow256(4) == 0x1_0000_0000,
        pow256(2) == 0x1_0000,
        pow256(1) == 0x100,
{
    reveal_with_fuel(pow256, 9);
}

/// A little-endian value of `n` bytes is below `256^n`.
pub proof fn lemma_le_value_bound(s: Seq<u8>, a: int, n: nat)
    ensures
        le_value(s, a, n) < pow256(n),
    decreases n,
{
    if n > 0 {
        lemma_le_value_bound(s, a + 1, (n - 1) as nat);
    }
}

/// Reading back bytes that hold the little-endian encoding of `v` gives `v`
/// modulo `256^n`.
pub proof fn lemma_le_value_of_bytes(s: Seq<u8>, a: int, v: nat, n: nat)
    requires
        forall|k: nat| k < n ==> s[a + k] == #[trigger] byte_of(v, k),
    ensures
        le_value(s, a, n) == v % pow256(n),
    decreases n,
{
    if n == 0 {
        assert(v % 1 == 0);
    } else {
        let m = (n - 1) as nat;
        assert forall|k: nat| k < m implies s[(a + 1) + k] == #[trigger] byte_of(v / 256, k) by {
            lemma_pow256_positive(k);
            lemma_div_denominator(v as int, 256, pow256(k) as int);
            assert(byte_of(v, k + 1) == s[a + (k + 1)]);
        }
        lemma_le_value_of_bytes(s, a + 1, v / 256, m);
        lemma_pow256_positive(m);
        lemma_mod_breakdown(v as int, 256, pow256(m) as int);
        assert(byte_of(v, 0) == s[a + 0]);
        assert(v / 1 == v);
    }
}

/// Little-endian round trip: after writing the `n` low bytes of `v` at `a`,
/// reading `n` bytes at `a` gives `v` modulo `256^n`.
pub proof fn lemma_store_then_load(s: Seq<u8>, a: int, v: nat, n: nat)
    requires
        0 <= a,
        a + n <= s.len(),
    ensures
        le_value(store_le(s, a, v, n), a, n) == v % pow256(n),
{
    let t = store_le(s, a, v, n);
    assert forall|k: nat| k < n implies t[a + k] == #[trigger] byte_of(v, k) by {
        assert((a + k) - a == k);
    }
    lemma_le_value_of_bytes(t, a, v, n);
}

/// Little-endian round trip of a double word: `write_dword(p, v)` followed by
/// `read_dword(p)` yields `v` for every 64-bit `v`.
pub proof fn lemma_dword_round_trip(s: Seq<u8>, p: u64, v: u64)
    requires
        fits(s, p, 8),
    ensures
        read_spec(store_le(s, p as int, v as nat, 8), p, 8) == Some(v),
{
    lemma_store_then_load(s, p as int, v as nat, 8);
    lemma_pow256_8();
    lemma_small_mod(v as nat, pow256(8));
}

/// Byte round trips over the whole address space: for every address `p`
/// inside memory, `write_byte(p, b)` followed by `read_byte(p)` yields `b` and
/// leaves every other byte alone, and writing back the byte just read leaves
/// memory as it was.
pub proof fn lemma_byte_round_trip(s: Seq<u8>, p: u64, b: u8)
    requires
        p < s.len(),
    ensures
        read_spec(store_le(s, p as int, b as nat, 1), p, 1) == Some(b as u64),
        forall|i: int| 0 <= i < s.len() && i != p ==> store_le(s, p as int, b as nat, 1)[i] == s[i],
        store_le(s, p as int, le_value(s, p as int, 1), 1) == s,
{
    lemma_store_then_load(s, p as int, b as nat, 1);
    lemma_pow256_8();
    lemma_small_mod(b as nat, 256);
    let t = store_le(s, p as int, le_value(s, p as int, 1), 1);
    assert(le_value(s, p as int, 1) == s[p as int] as nat + 256 * le_value(s, p + 1, 0));
    assert(byte_of(s[p as int] as nat, 0) == s[p as int]) by {
        assert(pow256(0) == 1);
        assert(s[p as int] as nat / 1 == s[p as int] as nat);
        lemma_small_mod(s[p as int] as nat, 256);
    }
    assert(t =~= s);
}

/// Big-endian instruction fetch: the four bytes `b0, b1, b2, b3` stored at `p`
/// are fetched as the word `b0 << 24 | b1 << 16 | b2 << 8 | b3`.
pub proof fn lemma_fetch_big_endian(s: Seq<u8>, p: u64, b0: u8, b1: u8, b2: u8, b3: u8)
    requires
        fits(s, p, 4),
    ensures
        ({
            let t = s.update(p as int, b0).update(p + 1, b1).update(p + 2, b2).update(p + 3, b3);
            be_word(t, p as int) == (b0 as u32) << 24 | (b1 as u32) << 16 | (b2 as u32) << 8 | b3 as u32
        }),
{
    let t = s.update(p as int, b0).update(p + 1, b1).update(p + 2, b2).update(p + 3, b3);
    assert(t[p as int] == b0 && t[p + 1] == b1 && t[p + 2] == b2 && t[p + 3] == b3);
    assert(((b0 * 0x100_0000 + b1 * 0x1_0000 + b2 * 0x100 + b3) as u32) == (b0 as u32) << 24 | (b1 as u32) << 16 | (b2 as u32) << 8 | b3 as u32) by (bit_vector);
}

/// A memory of `size` zero bytes with `mmus` translation windows, each mapping
/// only virtual address 0 to physical address 0.
pub fn new(size: u64, mmus: u64) -> (mem: Memory)
    ensures
        mem.wf(),
        mem.bytes() == Seq::new(size as nat, |i: int| 0u8),
        mem.windows().len() == mmus,
        forall|c: int| 0 <= c < mmus ==> (#[trigger] mem.windows()[c]) == (MemoryManagementUnit { base: 0, limit: 0 }),
{
    let mut memory: Vec<u8> = Vec::new();
    let mut i: u64 = 0;
    while i < size
        invariant
            i <= size,
            memory@ == Seq::new(i as nat, |j: int| 0u8),
        decreases size - i,
    {
        memory.push(0);
        i += 1;
        assert(memory@ =~= Seq::new(i as nat, |j: int| 0u8));
    }
    let mut windows: Vec<MemoryManagementUnit> = Vec::new();
    let mut c: u64 = 0;
    while c < mmus
        invariant
            c <= mmus,
            windows@.len() == c,
            forall|k: int| 0 <= k < c ==> (#[trigger] windows@[k]) == (MemoryManagementUnit { base: 0, limit: 0 }),
        decreases mmus - c,
    {
        windows.push(MemoryManagementUnit { base: 0, limit: 0 });
        c += 1;
    }
    Memory { memory, mmus: windows }
}

impl Memory {
    /// The physical bytes.
    pub closed spec fn bytes(&self) -> Seq<u8> {
        self.memory@
    }

    /// The translation window of each core, by core id.
    pub closed spec fn windows(&self) -> Seq<MemoryManagementUnit> {
        self.mmus@
    }

    /// Every window maps its whole range into the 64-bit address space.
    pub open spec fn wf(&self) -> bool {
        forall|c: int| 0 <= c < self.windows().len() ==> #[trigger] self.windows()[c].base + self.windows()[c].limit <= u64::MAX
    }

    /// Replaces the translation window of core `cpu_id`.
    pub fn set_mmu(&mut self, cpu_id: u64, base: u64, limit: u64)
        requires
            cpu_id < old(self).windows().len(),
            base + limit <= u64::MAX,
            old(self).wf(),
        ensures
            final(self).wf(),
            final(self).bytes() == old(self).bytes(),
            final(self).windows() == old(self).windows().update(cpu_id as int, MemoryManagementUnit { base, limit }),
    {
        let n = self.mmus.len();
        self.mmus.set(cpu_id as usize, MemoryManagementUnit { base, limit });
    }

    /// The number of physical bytes.
    pub fn size(&self) -> (r: u64)
        ensures
            r == self.bytes().len(),
    {
        self.memory.len() as u64
    }

    /// Translates virtual address `address` of core `cpu_id` into a physical
    /// address; `None` when it lies past the core's limit.
    pub fn translate_address(&mut self, cpu_id: u64, address: u64) -> (r: Option<u64>)
        requires
            old(self).wf(),
            cpu_id < old(self).windows().len(),
        ensures
            *final(self) == *old(self),
            r == translate(old(self).windows()[cpu_id as int], address),
    {
        let n = self.mmus.len();
        let w = &self.mmus[cpu_id as usize];
        if address > w.limit {
            None
        } else {
            Some(address + w.base)
        }
    }

    /// Reads `size` bytes little-endian at physical `address`; `None` when
    /// they do not all lie inside memory.
    pub fn read(&mut self, address: u64, size: u64) -> (r: Option<u64>)
        requires
            1 <= size <= 8,
        ensures
            *final(self) == *old(self),
            r == read_spec(old(self).bytes(), address, size as nat),
    {
        let len = self.memory.len() as u64;
        if address > len || size > len - address {
            return None;
        }
        let ghost s = self.memory@;
        let mut value: u64 = 0;
        let mut i: u64 = size;
        while i > 0
            invariant
                i <= size <= 8,
                address + size <= s.len(),
                s.len() <= usize::MAX,
                s == self.memory@,
                value == le_value(s, address + i, (size - i) as nat),
                value < pow256((size - i) as nat),
            decreases i,
        {
            i -= 1;
            let b = self.memory[(address + i) as usize];
            proof {
                let k = (size - i) as nat;
                lemma_pow256_monotone(k, 8);
                lemma_pow256_8();
                assert(le_value(s, address + i, k) == b as nat + 256 * le_value(s, address + i + 1, (k - 1) as nat));
            }
            value = value * 256 + b as u64;
        }
        Some(value)
    }

    /// Writes the `size` low bytes of `value` little-endian at physical
    /// `address`; returns false, and changes nothing, when they do not all lie
    /// inside memory.
    pub fn write(&mut self, address: u64, value: u64, size: u64) -> (r: bool)
        requires
            1 <= size <= 8,
            old(self).wf(),
        ensures
            final(self).wf(),
            final(self).windows() == old(self).windows(),
            r == fits(old(self).bytes(), address, size as nat),
            final(self).bytes() == if r {
                store_le(old(self).bytes(), address as int, value as nat, size as nat)
            } else {
                old(self).bytes()
            },
    {
        let len = self.memory.len() as u64;
        if address > len || size > len - address {
            return false;
        }
        let ghost s = self.memory@;
        let mut v: u64 = value;
        assert(pow256(0) == 1);
        assert(value as nat / 1 == value as nat);
        let mut i: u64 = 0;
        while i < size
            invariant
                i <= size <= 8,
                address + size <= s.len(),
                s.len() <= usize::MAX,
                self.memory@.len() == s.len(),
                self.mmus@ == old(self).mmus@,
                s == old(self).memory@,
                v == value as nat / pow256(i as nat),
                forall|j: int| 0 <= j < s.len() ==> #[trigger] self.memory@[j] == if address <= j < address + i {
                    byte_of(value as nat, (j - address) as nat)
                } else {
                    s[j]
                },
            decreases size - i,
        {
            proof {
                lemma_pow256_positive(i as nat);
                lemma_div_denominator(value as int, pow256(i as nat) as int, 256);
                assert(pow256((i + 1) as nat) == 256 * pow256(i as nat));
            }
            self.memory.set((address + i) as usize, (v % 256) as u8);
            v = v / 256;
            i += 1;
        }
        assert(self.memory@ =~= store_le(s, address as int, value as nat, size as nat));
        assert(self.windows() == old(self).windows());
        true
    }

    /// Reads a little-endian double word.
    pub fn read_dword(&mut self, address: u64) -> (r: Option<u64>)
        ensures
            *final(self) == *old(self),
            r == read_spec(old(self).bytes(), address, 8),
    {
        self.read(address, 8)
    }

    /// Writes a little-endian double word.
    pub fn write_dword(&mut self, address: u64, value: u64) -> (r: bool)
        requires
            old(self).wf(),
        ensures
            final(self).wf(),
            final(self).windows() == old(self).windows(),
            r == fits(old(self).bytes(), address, 8),
            final(self).bytes() == if r {
                store_le(old(self).bytes(), address as int, value as nat, 8)
            } else {
                old(self).bytes()
            },
    {
        self.write(address, value, 8)
    }
    /// Reads a little-endian word.
    pub fn read_word(&mut self, address: u64) -> (r: Option<u32>)
        ensures
            *final(self) == *old(self),
            r == (if fits(old(self).bytes(), address, 4) {
                Some(le_value(old(self).bytes(), address as int, 4) as u32)
            } else {
                None
            }),
    {
        proof {
            lemma_le_value_bound(self.memory@, address as int, 4);
            lemma_pow256_8();
        }
        match self.read(address, 4) {
            None => None,
            Some(value) => Some(value as u32),
        }
    }

    /// Writes a little-endian word.
    pub fn write_word(&mut self, address: u64, value: u32) -> (r: bool)
        requires
            old(self).wf(),
        ensures
            final(self).wf(),
            final(self).windows() == old(self).windows(),
            r == fits(old(self).bytes(), address, 4),
            final(self).bytes() == if r {
                store_le(old(self).bytes(), address as int, value as nat, 4)
            } else {
                old(self).bytes()
            },
    {
        self.write(address, value as u64, 4)
    }

    /// Reads a little-endian halfword.
    pub fn read_halfword(&mut self, address: u64) -> (r: Option<u16>)
        ensures
            *final(self) == *old(self),
            r == (if fits(old(self).bytes(), address, 2) {
                Some(le_value(old(self).bytes(), address as int, 2) as u16)
            } else {
                None
            }),
    {
        proof {
            lemma_le_value_bound(self.memory@, address as int, 2);
            lemma_pow256_8();
        }
        match self.read(address, 2) {
            None => None,
            Some(value) => Some(value as u16),
        }
    }

    /// Writes a little-endian halfword.
    pub fn write_halfword(&mut self, address: u64, value: u16) -> (r: bool)
        requires
            old(self).wf(),
        ensures
            final(self).wf(),
            final(self).windows() == old(self).windows(),
            r == fits(old(self).bytes(), address, 2),
            final(self).bytes() == if r {
                store_le(old(self).bytes(), address as int, value as nat, 2)
            } else {
                old(self).bytes()
            },
    {
        self.write(address, value as u64, 2)
    }

    /// Reads one byte.
    pub fn read_byte(&mut self, address: u64) -> (r: Option<u8>)
        ensures
            *final(self) == *old(self),
            r == (if fits(old(self).bytes(), address, 1) {
                Some(old(self).bytes()[address as int])
            } else {
                None
            }),
    {
        proof {
            if fits(self.memory@, address, 1) {
                assert(le_value(self.memory@, address as int, 1) == self.memory@[address as int] + 256 * le_value(self.memory@, address + 1, 0));
            }
        }
        match self.read(address, 1) {
            None => None,
            Some(value) => Some(value as u8),
        }
    }

    /// Writes one byte.
    pub fn write_byte(&mut self, address: u64, value: u8) -> (r: bool)
        requires
            old(self).wf(),
        ensures
            final(self).wf(),
            final(self).windows() == old(self).windows(),
            r == fits(old(self).bytes(), address, 1),
            final(self).bytes() == if r {
                store_le(old(self).bytes(), address as int, value as nat, 1)
            } else {
                old(self).bytes()
            },
    {
        self.write(address, value as u64, 1)
    }

    /// Fetches the big-endian instruction word at physical `address`; `None`
    /// when its four bytes do not all lie inside memory.
    pub fn read_instruction(&mut self, address: u64) -> (r: Option<u32>)
        ensures
            *final(self) == *old(self),
            r == (if fits(old(self).bytes(), address, 4) {
                Some(be_word(old(self).bytes(), address as int))
            } else {
                None
            }),
    {
        let len = self.memory.len() as u64;
        if address > len || 4 > len - address {
            return None;
        }
        let a = address as usize;
        let b0 = self.memory[a] as u32;
        let b1 = self.memory[a + 1] as u32;
        let b2 = self.memory[a + 2] as u32;
        let b3 = self.memory[a + 3] as u32;
        Some(b0 * 0x100_0000 + b1 * 0x1_0000 + b2 * 0x100 + b3)
    }
}

} // verus!
