//! The flat guest memory: a byte buffer windowed at a fixed base address,
//! with bounds-checked fetch, load and store, plus a word-granular memory
//! used through byte-level accessors.

use vstd::arithmetic::div_mod::lemma_fundamental_div_mod;
use vstd::prelude::*;

use crate::common::{EmuError, Vaddr, Word};

verus! {

/// The base guest address of the simulated physical window.
pub const MBASE: usize = 0x8000_0000;

/// The size in bytes of the simulated physical window.
pub const MSIZE: usize = 0x800_0000;

/// The fixed guest address at which execution begins: the base of the
/// simulated physical region.
pub const RESET_VECTOR: usize = MBASE;

/// The flat physical memory window: a byte buffer at a base address.
pub struct MemoryBank {
    pub base: usize,
    pub data: Vec<u8>,
}

/// An `n`-byte access at `addr` falls inside the physical window.
pub open spec fn access_ok(addr: Vaddr, n: int) -> bool {
    MBASE <= addr && addr + n <= MBASE + MSIZE
}

/// The little-endian 32-bit word held at byte offset `off` of `mem`.
pub open spec fn spec_word_at(mem: Seq<u8>, off: int) -> Word
    recommends
        0 <= off,
        off + 4 <= mem.len(),
{
    (mem[off] as u32) | ((mem[off + 1] as u32) << 8u32) | ((mem[off + 2] as u32) << 16u32) | ((mem[
        off + 3] as u32) << 24u32)
}

impl MemoryBank {
    /// A well-formed bank sits at the fixed base and spans the whole
    /// window.
    pub open spec fn wf(&self) -> bool {
        self.base == MBASE && self.data@.len() == MSIZE
    }

    /// The bytes of the window, indexed from the base address.
    pub open spec fn spec_mem(&self) -> Seq<u8> {
        self.data@
    }

    /// Allocates the window, zero-fills it and copies `img` at the reset
    /// address.
    pub fn new(img: &[u8]) -> (r: Self)
        requires
            img@.len() <= MSIZE,
        ensures
            r.wf(),
            forall|i: int| 0 <= i < img@.len() ==> r.spec_mem()[i] == img@[i],
            forall|i: int| img@.len() <= i < MSIZE ==> r.spec_mem()[i] == 0,
    {
        let mut data: Vec<u8> = vec![0u8; MSIZE];
        proof {
            assert forall|i: int| 0 <= i < MSIZE implies data@[i] == 0u8 by {
                assert(cloned(0u8, data@[i]));
            }
        }
        let mut i: usize = 0;
        while i < img.len()
            invariant
                img@.len() <= MSIZE,
                i <= img@.len(),
                data@.len() == MSIZE,
                forall|j: int| 0 <= j < i ==> data@[j] == img@[j],
                forall|j: int| i <= j < MSIZE ==> data@[j] == 0,
            decreases img@.len() - i,
        {
            data[i] = img[i];
            i = i + 1;
        }
        MemoryBank { base: MBASE, data }
    }

    /// Fetches the little-endian 32-bit word at `*pc` and advances `*pc`
    /// past it; an address outside the window is rejected and leaves `*pc`
    /// unchanged.
    pub fn inst_fetch(&self, pc: &mut Vaddr, len: usize) -> (r: Result<Word, EmuError>)
        requires
            self.wf(),
            len == 4,
        ensures
            access_ok(*old(pc), 4) ==> r == Ok::<Word, EmuError>(
                spec_word_at(self.spec_mem(), *old(pc) - MBASE),
            ) && *final(pc) == *old(pc) + 4,
            !access_ok(*old(pc), 4) ==> r == Err::<Word, EmuError>(
                EmuError::OutOfBoundAccess(*old(pc)),
            ) && *final(pc) == *old(pc),
    {
        let base = self.base;
        let addr = *pc as usize;
        if addr >= base && addr - base <= self.data.len() - len {
            let off = addr - base;
            let b0 = self.data[off];
            let b1 = self.data[off + 1];
            let b2 = self.data[off + 2];
            let b3 = self.data[off + 3];
            let word = (b0 as u32) | ((b1 as u32) << 8) | ((b2 as u32) << 16) | ((b3 as u32) << 24);
            *pc = *pc + 4;
            Ok(word)
        } else {
            Err(EmuError::OutOfBoundAccess(*pc))
        }
    }

    /// Loads the byte at `addr`; an address outside the window is
    /// rejected.
    pub fn read_u8(&self, addr: Vaddr) -> (r: Result<u8, EmuError>)
        requires
            self.wf(),
        ensures
            access_ok(addr, 1) ==> r == Ok::<u8, EmuError>(self.spec_mem()[addr - MBASE]),
            !access_ok(addr, 1) ==> r == Err::<u8, EmuError>(EmuError::OutOfBoundAccess(addr)),
    {
        let base = self.base;
        let a = addr as usize;
        if a >= base && a - base < self.data.len() {
            Ok(self.data[a - base])
        } else {
            Err(EmuError::OutOfBoundAccess(addr))
        }
    }

    /// Stores a byte at `addr`; an address outside the window is rejected
    /// and leaves the memory unchanged.
    pub fn write_u8(&mut self, addr: Vaddr, val: u8) -> (r: Result<(), EmuError>)
        requires
            old(self).wf(),
        ensures
            final(self).wf(),
            access_ok(addr, 1) ==> r == Ok::<(), EmuError>(()) && final(self).spec_mem() == old(
                self,
            ).spec_mem().update(addr - MBASE, val),
            !access_ok(addr, 1) ==> r == Err::<(), EmuError>(EmuError::OutOfBoundAccess(addr))
                && final(self).spec_mem() == old(self).spec_mem(),
    {
        let base = self.base;
        let a = addr as usize;
        if a >= base && a - base < self.data.len() {
            self.data[a - base] = val;
            Ok(())
        } else {
            Err(EmuError::OutOfBoundAccess(addr))
        }
    }
}

/// Byte `a` of a word-granular memory: the word holds its bytes little
/// endian, eight to a word.
pub open spec fn mem_byte(s: Seq<u64>, a: int) -> u8
    recommends
        0 <= a,
        a / 8 < s.len(),
{
    (((s[a / 8] >> (((a % 8) * 8) as u64)) & 0xff) as u8)
}

/// Byte `i` of a value, little endian.
pub open spec fn le_byte(v: u64, i: int) -> u8
    recommends
        0 <= i < 8,
{
    (((v >> ((i * 8) as u64)) & 0xff) as u8)
}

/// A `k`-byte span starting at byte address `a` stays inside the memory
/// and inside the address width.
pub open spec fn span_ok(s: Seq<u64>, a: int, k: int) -> bool {
    0 <= a && a + k <= 8 * s.len() && a + k <= u64::MAX + 1
}

/// A byte address below the memory's span indexes a word inside it.
proof fn lemma_byte_in_span(a: int, len: int)
    requires
        0 <= a,
        a < 8 * len,
    ensures
        a / 8 < len,
{
    vstd::arithmetic::div_mod::lemma_div_is_ordered(a, 8 * len - 1, 8);
    vstd::arithmetic::div_mod::lemma_fundamental_div_mod_converse(8 * len - 1, 8, len - 1, 7);
}

/// A byte address splits into its word index and its offset in the word.
proof fn lemma_addr_decomp(a: u64)
    ensures
        (a >> 3) == a as int / 8,
        a % 8 < 8,
        a == 8 * (a as int / 8) + (a as int % 8),
{
    assert((a >> 3) == a / 8) by (bit_vector);
    lemma_fundamental_div_mod(a as int, 8);
}

/// Bytes within one span land in distinct offsets of the same word, and
/// any other byte address lands elsewhere in the word or in another word.
proof fn lemma_byte_addr_unique(a: int, b: int)
    requires
        0 <= a,
        0 <= b,
        a != b,
        a / 8 == b / 8,
    ensures
        a % 8 != b % 8,
{
    lemma_fundamental_div_mod(a, 8);
    lemma_fundamental_div_mod(b, 8);
}

/// Storing one byte into a word rewrites exactly that byte lane.
proof fn lemma_store_byte_lanes(w: u64, v: u64, k: u64, q: u64)
    requires
        k < 8,
        v < 256,
        q < 8,
    ensures
        (((w & !(0xffu64 << (k * 8))) | (v << (k * 8))) >> (k * 8)) & 0xff == v,
        q != k ==> ((((w & !(0xffu64 << (k * 8))) | (v << (k * 8))) >> (q * 8)) & 0xff) == ((w >> (
        q * 8)) & 0xff),
{
    assert((((w & !(0xffu64 << (k * 8))) | (v << (k * 8))) >> (k * 8)) & 0xff == v && (q != k ==> ((
    ((w & !(0xffu64 << (k * 8))) | (v << (k * 8))) >> (q * 8)) & 0xff) == ((w >> (q * 8)) & 0xff)))
        by (bit_vector)
        requires
            k < 8,
            v < 256,
            q < 8,
    ;
}

/// Storing a halfword into a word rewrites exactly its two byte lanes.
proof fn lemma_store_half_lanes(w: u64, v: u64, k: u64, q: u64)
    requires
        k < 8,
        k % 2 == 0,
        v < 0x10000,
        q < 8,
    ensures
        (((w & !(0xffffu64 << (k * 8))) | (v << (k * 8))) >> (k * 8)) & 0xff == (v & 0xff),
        (((w & !(0xffffu64 << (k * 8))) | (v << (k * 8))) >> ((k + 1) * 8)) & 0xff == ((v >> 8)
            & 0xff),
        q != k && q != k + 1 ==> ((((w & !(0xffffu64 << (k * 8))) | (v << (k * 8))) >> (q * 8))
            & 0xff) == ((w >> (q * 8)) & 0xff),
{
    assert((((w & !(0xffffu64 << (k * 8))) | (v << (k * 8))) >> (k * 8)) & 0xff == (v & 0xff) && ((
    (w & !(0xffffu64 << (k * 8))) | (v << (k * 8))) >> ((k + 1) * 8)) & 0xff == ((v >> 8) & 0xff)
        && (q != k && q != k + 1 ==> ((((w & !(0xffffu64 << (k * 8))) | (v << (k * 8))) >> (q * 8))
        & 0xff) == ((w >> (q * 8)) & 0xff))) by (bit_vector)
        requires
            k < 8,
            k % 2 == 0,
            v < 0x10000,
            q < 8,
    ;
}

/// Storing a 32-bit word into a memory word rewrites exactly its four
/// byte lanes.
proof fn lemma_store_word_lanes(w: u64, v: u64, k: u64, q: u64)
    requires
        k == 0 || k == 4,
        v < 0x1_0000_0000,
        q < 8,
    ensures
        k <= q < k + 4 ==> ((((w & !(0xffffffffu64 << (k * 8))) | (v << (k * 8))) >> (q * 8))
            & 0xff) == ((v >> (((q - k) as u64) * 8)) & 0xff),
        !(k <= q < k + 4) ==> ((((w & !(0xffffffffu64 << (k * 8))) | (v << (k * 8))) >> (q * 8))
            & 0xff) == ((w >> (q * 8)) & 0xff),
{
    assert((k <= q < k + 4 ==> ((((w & !(0xffffffffu64 << (k * 8))) | (v << (k * 8))) >> (q * 8))
        & 0xff) == ((v >> (((q - k) as u64) * 8)) & 0xff)) && (!(k <= q < k + 4) ==> ((((w & !(0xffffffffu64
        << (k * 8))) | (v << (k * 8))) >> (q * 8)) & 0xff) == ((w >> (q * 8)) & 0xff)))
        by (bit_vector)
        requires
            k == 0 || k == 4,
            v < 0x1_0000_0000,
            q < 8,
    ;
}

/// Merging one byte into a zero lane sets that lane and touches no other.
proof fn lemma_or_byte_lanes(acc: u64, b: u64, i: u64, q: u64)
    requires
        i < 8,
        b < 256,
        ((acc >> (i * 8)) & 0xff) == 0,
        q < 8,
    ensures
        (((acc | (b << (i * 8))) >> (i * 8)) & 0xff) == b,
        q != i ==> (((acc | (b << (i * 8))) >> (q * 8)) & 0xff) == ((acc >> (q * 8)) & 0xff),
{
    assert(((((acc | (b << (i * 8))) >> (i * 8)) & 0xff) == b) && (q != i ==> (((acc | (b << (i
        * 8))) >> (q * 8)) & 0xff) == ((acc >> (q * 8)) & 0xff))) by (bit_vector)
        requires
            i < 8,
            b < 256,
            ((acc >> (i * 8)) & 0xff) == 0,
            q < 8,
    ;
}

/// A word-granular memory: eight bytes to a word, addressed by byte.
pub struct Memory {
    /// Memory content.
    pub data: Vec<u64>,
}

impl Default for Memory {
    /// An empty memory.
    fn default() -> (r: Memory)
        ensures
            r.data@.len() == 0,
    {
        Memory { data: Vec::new() }
    }
}

impl Memory {
    /// A zero-filled memory of `words` words.
    pub fn new(words: usize) -> (r: Memory)
        ensures
            r.data@.len() == words,
            forall|i: int| 0 <= i < words ==> r.data@[i] == 0,
    {
        let data: Vec<u64> = vec![0u64; words];
        proof {
            assert forall|i: int| 0 <= i < words implies data@[i] == 0u64 by {
                assert(cloned(0u64, data@[i]));
            }
        }
        Memory { data }
    }

    /// Reads the byte at `address`.
    pub fn read_byte(&self, address: u64) -> (r: u8)
        requires
            span_ok(self.data@, address as int, 1),
        ensures
            r == mem_byte(self.data@, address as int),
    {
        let n = self.data.len();
        proof {
            lemma_addr_decomp(address);
            lemma_byte_in_span(address as int, n as int);
        }
        let index = (address >> 3) as usize;
        let pos: u64 = (address % 8) * 8;
        (((self.data[index] >> pos) & 0xff) as u8)
    }

    /// Reads the two bytes at `address`, little endian.
    pub fn read_halfword(&self, address: u64) -> (r: u16)
        requires
            span_ok(self.data@, address as int, 2),
        ensures
            forall|i: int|
                0 <= i < 2 ==> #[trigger] le_byte(r as u64, i) == mem_byte(self.data@, address + i),
    {
        let wide = self.read_bytes(address, 2);
        let r = wide as u16;
        proof {
            assert forall|i: int| 0 <= i < 2 implies #[trigger] le_byte(r as u64, i) == mem_byte(
                self.data@,
                address + i,
            ) by {
                let ii = i as u64;
                assert(((((wide as u16) as u64) >> (ii * 8)) & 0xff) == ((wide >> (ii * 8)) & 0xff))
                    by (bit_vector)
                    requires
                        ii < 2,
                ;
                assert(le_byte(r as u64, i) == le_byte(wide, i));
            }
        }
        r
    }

    /// Reads the four bytes at `address`, little endian.
    pub fn read_word(&self, address: u64) -> (r: u32)
        requires
            span_ok(self.data@, address as int, 4),
        ensures
            forall|i: int|
                0 <= i < 4 ==> #[trigger] le_byte(r as u64, i) == mem_byte(self.data@, address + i),
    {
        let wide = self.read_bytes(address, 4);
        let r = wide as u32;
        proof {
            assert forall|i: int| 0 <= i < 4 implies #[trigger] le_byte(r as u64, i) == mem_byte(
                self.data@,
                address + i,
            ) by {
                let ii = i as u64;
                assert(((((wide as u32) as u64) >> (ii * 8)) & 0xff) == ((wide >> (ii * 8)) & 0xff))
                    by (bit_vector)
                    requires
                        ii < 4,
                ;
                assert(le_byte(r as u64, i) == le_byte(wide, i));
            }
        }
        r
    }

    /// Reads the eight bytes at `address`, little endian.
    pub fn read_doubleworld(&self, address: u64) -> (r: u64)
        requires
            span_ok(self.data@, address as int, 8),
        ensures
            forall|i: int| 0 <= i < 8 ==> #[trigger] le_byte(r, i) == mem_byte(self.data@, address + i),
    {
        self.read_bytes(address, 8)
    }

    /// Reads `width` bytes at `address` into the low lanes of a word,
    /// little endian; the lanes above `width` stay zero.
    pub fn read_bytes(&self, address: u64, width: u64) -> (r: u64)
        requires
            width <= 8,
            span_ok(self.data@, address as int, width as int),
        ensures
            forall|i: int|
                0 <= i < width ==> #[trigger] le_byte(r, i) == mem_byte(self.data@, address + i),
            forall|i: int| width <= i < 8 ==> #[trigger] le_byte(r, i) == 0,
    {
        let mut data: u64 = 0;
        let mut i: u64 = 0;
        proof {
            assert forall|j: int| 0 <= j < 8 implies #[trigger] le_byte(0u64, j) == 0 by {
                let jj = j as u64;
                assert(((0u64 >> (jj * 8)) & 0xff) == 0) by (bit_vector);
            }
        }
        while i < width
            invariant
                width <= 8,
                i <= width,
                span_ok(self.data@, address as int, width as int),
                forall|j: int|
                    0 <= j < i ==> #[trigger] le_byte(data, j) == mem_byte(self.data@, address + j),
                forall|j: int| i <= j < 8 ==> #[trigger] le_byte(data, j) == 0,
            decreases width - i,
        {
            let b = self.read_byte(address.wrapping_add(i));
            let ghost pre = data;
            data = data | ((b as u64) << (i * 8));
            proof {
                let bb = b as u64;
                let ii = i;
                assert(((pre >> (ii * 8)) & 0xff) < 256) by (bit_vector);
                assert(le_byte(pre, ii as int) == 0);
                assert(((pre >> (ii * 8)) & 0xff) == 0);
                assert forall|j: int| 0 <= j < 8 implies #[trigger] le_byte(data, j) == (if j
                    == ii {
                    b
                } else {
                    le_byte(pre, j)
                }) by {
                    lemma_or_byte_lanes(pre, bb, ii, j as u64);
                    assert(((j * 8) as u64) == (j as u64) * 8);
                }
            }
            i = i + 1;
        }
        data
    }

    /// Writes a byte at `address`, leaving every other byte of the
    /// memory unchanged.
    pub fn write_byte(&mut self, address: u64, value: u8)
        requires
            span_ok(old(self).data@, address as int, 1),
        ensures
            final(self).data@.len() == old(self).data@.len(),
            mem_byte(final(self).data@, address as int) == value,
            forall|b: int|
                0 <= b < 8 * old(self).data@.len() && b != address ==> mem_byte(
                    final(self).data@,
                    b,
                ) == mem_byte(old(self).data@, b),
    {
        let n = self.data.len();
        proof {
            lemma_addr_decomp(address);
            lemma_byte_in_span(address as int, n as int);
        }
        let index = (address >> 3) as usize;
        let pos: u64 = (address % 8) * 8;
        self.data[index] = (self.data[index] & !(0xff << pos)) | ((value as u64) << pos);
        proof {
            let a = address as int;
            let k = (address % 8) as u64;
            assert(pos == k * 8);
            lemma_store_byte_lanes(old(self).data@[a / 8], value as u64, k, k);
            assert(mem_byte(final(self).data@, a) == value);
            assert forall|b: int|
                0 <= b < 8 * old(self).data@.len() && b != a implies mem_byte(
                final(self).data@,
                b,
            ) == mem_byte(old(self).data@, b) by {
                lemma_fundamental_div_mod(b, 8);
                if b / 8 == a / 8 {
                    lemma_byte_addr_unique(a, b);
                    lemma_store_byte_lanes(
                        old(self).data@[a / 8],
                        value as u64,
                        k,
                        (b % 8) as u64,
                    );
                    assert((((b % 8) * 8) as u64) == ((b % 8) as u64) * 8);
                }
            }
        }
    }

    /// Writes two bytes at `address`, little endian, leaving every other
    /// byte unchanged.
    pub fn write_halfword(&mut self, address: u64, value: u16)
        requires
            span_ok(old(self).data@, address as int, 2),
        ensures
            final(self).data@.len() == old(self).data@.len(),
            forall|i: int|
                0 <= i < 2 ==> #[trigger] mem_byte(final(self).data@, address + i) == le_byte(
                    value as u64,
                    i,
                ),
            forall|b: int|
                0 <= b < 8 * old(self).data@.len() && !(address <= b < address + 2) ==> mem_byte(
                    final(self).data@,
                    b,
                ) == mem_byte(old(self).data@, b),
    {
        if (address % 2) == 0 {
            let n = self.data.len();
            proof {
                lemma_addr_decomp(address);
                lemma_byte_in_span(address as int, n as int);
                assert((address % 2 == 0) ==> ((address % 8) % 2 == 0) && (address % 8) < 7)
                    by (bit_vector);
            }
            let index = (address >> 3) as usize;
            let pos: u64 = (address % 8) * 8;
            self.data[index] = (self.data[index] & !(0xffff << pos)) | ((value as u64) << pos);
            proof {
                let a = address as int;
                let k = (address % 8) as u64;
                lemma_store_half_lanes(old(self).data@[a / 8], value as u64, k, k);
                assert((a + 1) / 8 == a / 8 && (a + 1) % 8 == k + 1) by {
                    lemma_fundamental_div_mod(a, 8);
                    assert(a + 1 == 8 * (a / 8) + (k + 1));
                    vstd::arithmetic::div_mod::lemma_fundamental_div_mod_converse(
                        a + 1,
                        8,
                        a / 8,
                        (k + 1) as int,
                    );
                }
                let v64 = value as u64;
                assert((v64 >> 0u64) == v64 && (v64 >> (1 * 8u64)) == (v64 >> 8u64))
                    by (bit_vector);
                assert(mem_byte(final(self).data@, a) == le_byte(v64, 0));
                assert(mem_byte(final(self).data@, a + 1) == le_byte(v64, 1));
                assert forall|b: int|
                    0 <= b < 8 * old(self).data@.len() && !(a <= b < a + 2) implies mem_byte(
                    final(self).data@,
                    b,
                ) == mem_byte(old(self).data@, b) by {
                    lemma_fundamental_div_mod(b, 8);
                    if b / 8 == a / 8 {
                        lemma_byte_addr_unique(a, b);
                        lemma_byte_addr_unique(a + 1, b);
                        lemma_store_half_lanes(
                            old(self).data@[a / 8],
                            value as u64,
                            k,
                            (b % 8) as u64,
                        );
                        assert((((b % 8) * 8) as u64) == ((b % 8) as u64) * 8);
                    }
                }
            }
        } else {
            self.write_bytes(address, value as u64, 2);
        }
    }

    /// Writes four bytes at `address`, little endian, leaving every other
    /// byte unchanged.
    pub fn write_word(&mut self, address: u64, value: u32)
        requires
            span_ok(old(self).data@, address as int, 4),
        ensures
            final(self).data@.len() == old(self).data@.len(),
            forall|i: int|
                0 <= i < 4 ==> #[trigger] mem_byte(final(self).data@, address + i) == le_byte(
                    value as u64,
                    i,
                ),
            forall|b: int|
                0 <= b < 8 * old(self).data@.len() && !(address <= b < address + 4) ==> mem_byte(
                    final(self).data@,
                    b,
                ) == mem_byte(old(self).data@, b),
    {
        if (address % 4) == 0 {
            let n = self.data.len();
            proof {
                lemma_addr_decomp(address);
                lemma_byte_in_span(address as int, n as int);
                assert((address % 4 == 0) ==> ((address % 8) == 0 || (address % 8) == 4))
                    by (bit_vector);
            }
            let index = (address >> 3) as usize;
            let pos: u64 = (address % 8) * 8;
            self.data[index] = (self.data[index] & !(0xffffffff << pos)) | ((value as u64) << pos);
            proof {
                let a = address as int;
                let k = (address % 8) as u64;
                assert forall|i: int| 0 <= i < 4 implies #[trigger] mem_byte(
                    final(self).data@,
                    a + i,
                ) == le_byte(value as u64, i) by {
                    lemma_fundamental_div_mod(a, 8);
                    assert(a + i == 8 * (a / 8) + (k + i));
                    vstd::arithmetic::div_mod::lemma_fundamental_div_mod_converse(
                        a + i,
                        8,
                        a / 8,
                        k + i,
                    );
                    let q = (k + i) as u64;
                    lemma_store_word_lanes(old(self).data@[a / 8], value as u64, k, q);
                    assert((((q - k) as u64) * 8) == ((i * 8) as u64));
                    assert((((a + i) % 8) * 8) as u64 == q * 8);
                }
                assert forall|b: int|
                    0 <= b < 8 * old(self).data@.len() && !(a <= b < a + 4) implies mem_byte(
                    final(self).data@,
                    b,
                ) == mem_byte(old(self).data@, b) by {
                    lemma_fundamental_div_mod(b, 8);
                    lemma_fundamental_div_mod(a, 8);
                    if b / 8 == a / 8 {
                        let q = (b % 8) as u64;
                        lemma_store_word_lanes(old(self).data@[a / 8], value as u64, k, q);
                        assert(b == 8 * (a / 8) + q);
                        assert(!(k <= q < k + 4));
                        assert((((b % 8) * 8) as u64) == q * 8);
                    }
                }
            }
        } else {
            self.write_bytes(address, value as u64, 4);
        }
    }

    /// Writes eight bytes at `address`, little endian, leaving every
    /// other byte unchanged.
    pub fn write_doubleword(&mut self, address: u64, value: u64)
        requires
            span_ok(old(self).data@, address as int, 8),
        ensures
            final(self).data@.len() == old(self).data@.len(),
            forall|i: int|
                0 <= i < 8 ==> #[trigger] mem_byte(final(self).data@, address + i) == le_byte(
                    value,
                    i,
                ),
            forall|b: int|
                0 <= b < 8 * old(self).data@.len() && !(address <= b < address + 8) ==> mem_byte(
                    final(self).data@,
                    b,
                ) == mem_byte(old(self).data@, b),
    {
        if (address % 8) == 0 {
            let n = self.data.len();
            proof {
                lemma_addr_decomp(address);
                lemma_byte_in_span(address as int, n as int);
                assert((address % 8 == 0) ==> (address % 8) * 8 == 0) by (bit_vector);
            }
            let index = (address >> 3) as usize;
            self.data[index] = value;
            proof {
                let a = address as int;
                assert forall|i: int| 0 <= i < 8 implies #[trigger] mem_byte(
                    final(self).data@,
                    a + i,
                ) == le_byte(value, i) by {
                    lemma_fundamental_div_mod(a, 8);
                    assert(a + i == 8 * (a / 8) + i);
                    vstd::arithmetic::div_mod::lemma_fundamental_div_mod_converse(
                        a + i,
                        8,
                        a / 8,
                        i,
                    );
                }
                assert forall|b: int|
                    0 <= b < 8 * old(self).data@.len() && !(a <= b < a + 8) implies mem_byte(
                    final(self).data@,
                    b,
                ) == mem_byte(old(self).data@, b) by {
                    lemma_fundamental_div_mod(b, 8);
                    lemma_fundamental_div_mod(a, 8);
                    if b / 8 == a / 8 {
                        assert(b == 8 * (a / 8) + (b % 8));
                        assert(a <= b < a + 8);
                    }
                }
            }
        } else if (address % 4) == 0 {
            let low = #[verifier::truncate] ((value & 0xffffffff) as u32);
            let high = #[verifier::truncate] ((value >> 32) as u32);
            let addr2 = address.wrapping_add(4);
            self.write_word(address, low);
            let ghost mid = self.data@;
            self.write_word(addr2, high);
            proof {
                assert forall|i: int| 0 <= i < 8 implies #[trigger] mem_byte(
                    final(self).data@,
                    address + i,
                ) == le_byte(value, i) by {
                    if i < 4 {
                        let ii = i as u64;
                        assert(((((value & 0xffffffffu64) as u32) as u64) >> (ii * 8)) & 0xff == ((
                        value >> (ii * 8)) & 0xff)) by (bit_vector)
                            requires
                                ii < 4,
                        ;
                        assert(le_byte(low as u64, i) == le_byte(value, i));
                        assert(mem_byte(mid, address + i) == le_byte(low as u64, i));
                    } else {
                        let jj = (i - 4) as u64;
                        assert(((((value >> 32u64) as u32) as u64) >> (jj * 8)) & 0xff == ((value
                            >> ((jj + 4) * 8)) & 0xff)) by (bit_vector)
                            requires
                                jj < 4,
                        ;
                        assert(((jj + 4) * 8) == ((i * 8) as u64));
                        assert(le_byte(high as u64, i - 4) == le_byte(value, i));
                        assert(mem_byte(final(self).data@, addr2 + (i - 4)) == le_byte(
                            high as u64,
                            i - 4,
                        ));
                        assert(addr2 + (i - 4) == address + i);
                    }
                }
            }
        } else {
            self.write_bytes(address, value, 8);
        }
    }

    /// Writes the low `width` bytes of `value` at `address`, little
    /// endian, leaving every other byte unchanged.
    pub fn write_bytes(&mut self, address: u64, value: u64, width: u64)
        requires
            width <= 8,
            span_ok(old(self).data@, address as int, width as int),
        ensures
            final(self).data@.len() == old(self).data@.len(),
            forall|i: int|
                0 <= i < width ==> #[trigger] mem_byte(final(self).data@, address + i) == le_byte(
                    value,
                    i,
                ),
            forall|b: int|
                0 <= b < 8 * old(self).data@.len() && !(address <= b < address + width) ==> mem_byte(
                    final(self).data@,
                    b,
                ) == mem_byte(old(self).data@, b),
    {
        let mut i: u64 = 0;
        while i < width
            invariant
                width <= 8,
                i <= width,
                span_ok(old(self).data@, address as int, width as int),
                self.data@.len() == old(self).data@.len(),
                forall|j: int|
                    0 <= j < i ==> #[trigger] mem_byte(self.data@, address + j) == le_byte(
                        value,
                        j,
                    ),
                forall|b: int|
                    0 <= b < 8 * old(self).data@.len() && !(address <= b < address + i)
                        ==> mem_byte(self.data@, b) == mem_byte(old(self).data@, b),
            decreases width - i,
        {
            let b = (value >> (i * 8)) as u8;
            proof {
                let ii = i;
                assert(((value >> (ii * 8)) as u8) == (((value >> (ii * 8)) & 0xff) as u8))
                    by (bit_vector);
            }
            self.write_byte(address.wrapping_add(i), b);
            i = i + 1;
        }
    }

    /// Whether `address` falls inside the memory, measured as the
    /// original does: against the word count.
    pub fn validate_address(&self, address: u64) -> (r: bool)
        ensures
            r == (address < self.data@.len()),
    {
        return address < self.data.len() as u64;
    }
}

} // verus!
