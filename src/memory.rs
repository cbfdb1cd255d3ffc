//! The linear memory: construction, growth, bulk copy and fill, raw byte access,
//! the zero-byte scan, and the little-endian load and store that every typed
//! access goes through.
use crate::codec::{
    byte_modulus, digits, is_width, le_bytes, le_value, lemma_byte_moduli,
    lemma_byte_modulus_positive, lemma_unsigned_in_range, load_le, signed_of, to_unsigned, unsigned_of,
};
use crate::mapping::{map_zeroed, mapped, mapped_slice, set_mapped};
use crate::waiting::{new_registry, WaitRegistry};
use vstd::arithmetic::div_mod::{lemma_div_denominator, lemma_fundamental_div_mod_converse};
use vstd::prelude::*;
use vstd::slice::{slice_subrange, slice_to_vec};

verus! {

/// Bytes in one page of linear memory.
pub const PAGE_SIZE: u32 = 65536;

/// The most pages a memory can hold: a 32-bit offset reaches 4 GiB.
pub const MAX_PAGES: u32 = 65536;

/// A growable, page-granular byte region backed by an anonymous mapping, with
/// the registry of threads waiting on its addresses.
pub struct LinearMemory {
    memory: memmap2::MmapMut,
    wait_queues: WaitRegistry,
}

impl View for LinearMemory {
    type V = Seq<u8>;

    closed spec fn view(&self) -> Seq<u8> {
        mapped(self.memory)
    }
}

/// The offset that an address names: the 32-bit address read as unsigned.
pub open spec fn offset(address: i32) -> int {
    unsigned_of(address as int, 4)
}

/// Whether the `n` bytes from `address` on lie inside `bytes`.
pub open spec fn in_bounds(bytes: Seq<u8>, address: i32, n: int) -> bool {
    0 <= n && offset(address) + n <= bytes.len()
}

/// The `n` bytes from `address` on.
pub open spec fn window(bytes: Seq<u8>, address: i32, n: nat) -> Seq<u8> {
    bytes.subrange(offset(address), offset(address) + n)
}

/// `bytes` with `t` written over it from offset `at` on.
pub open spec fn splice(bytes: Seq<u8>, at: int, t: Seq<u8>) -> Seq<u8> {
    bytes.subrange(0, at) + t + bytes.subrange(at + t.len(), bytes.len() as int)
}

/// `n` zero bytes.
pub open spec fn zeros(n: nat) -> Seq<u8> {
    Seq::new(n, |i: int| 0u8)
}

/// The unsigned value of the `n`-byte little-endian cell at `address`.
pub open spec fn cell(bytes: Seq<u8>, address: i32, n: nat) -> int {
    le_value(window(bytes, address, n))
}

/// `bytes` with the `n`-byte cell at `address` set to `v` cut to `n` bytes.
pub open spec fn with_cell(bytes: Seq<u8>, address: i32, n: nat, v: int) -> Seq<u8> {
    splice(bytes, offset(address), le_bytes(v, n))
}

/// Whether `o` is the least offset at or after `start` that holds a zero byte.
pub open spec fn is_first_null(bytes: Seq<u8>, start: int, o: int) -> bool {
    &&& start <= o < bytes.len()
    &&& bytes[o] == 0
    &&& forall|j: int| start <= j < o ==> bytes[j] != 0
}

/// Whether no byte at or after `start` is zero.
pub open spec fn no_null_from(bytes: Seq<u8>, start: int) -> bool {
    forall|j: int| start <= j < bytes.len() ==> bytes[j] != 0
}

/// The offset that `address` names.
pub fn offset_of(address: i32) -> (r: usize)
    ensures
        r == offset(address),
{
    proof {
        lemma_byte_moduli();
        if address < 0 {
            lemma_fundamental_div_mod_converse(
                address as int,
                0x1_0000_0000,
                -1,
                address + 0x1_0000_0000,
            );
        } else {
            lemma_fundamental_div_mod_converse(address as int, 0x1_0000_0000, 0, address as int);
        }
    }
    if address >= 0 {
        address as usize
    } else {
        (address as i64 + 0x1_0000_0000) as usize
    }
}

/// An offset below 2^32 as the 32-bit address that names it.
fn address_of(o: usize) -> (r: i32)
    requires
        o < 0x1_0000_0000,
    ensures
        r == signed_of(o as int, 4),
{
    proof {
        lemma_byte_moduli();
        lemma_fundamental_div_mod_converse(o as int, 0x1_0000_0000, 0, o as int);
    }
    if o < 0x8000_0000 {
        o as i32
    } else {
        (o as i64 - 0x1_0000_0000) as i32
    }
}

impl LinearMemory {
    /// The size is a whole number of pages, at most `MAX_PAGES` of them.
    pub open spec fn wf(&self) -> bool {
        &&& self@.len() % (PAGE_SIZE as nat) == 0
        &&& self@.len() <= MAX_PAGES * PAGE_SIZE
    }

    /// A zeroed memory of `pages` pages.
    pub fn new(pages: u32) -> (r: Self)
        requires
            pages <= MAX_PAGES,
            pages * PAGE_SIZE <= isize::MAX,
        ensures
            r.wf(),
            r@ == zeros((pages * PAGE_SIZE) as nat),
    {
        let len = pages as usize * PAGE_SIZE as usize;
        LinearMemory { memory: map_zeroed(len), wait_queues: new_registry() }
    }

    /// The registry of threads waiting on this memory's addresses.
    pub(crate) fn registry(&self) -> &WaitRegistry {
        &self.wait_queues
    }

    /// The size in bytes.
    pub fn size(&self) -> (r: usize)
        ensures
            r == self@.len(),
    {
        mapped_slice(&self.memory).len()
    }

    /// Adds `pages` zeroed pages at the end, keeping every existing byte. Fails,
    /// leaving the memory as it was, where the new size would pass `MAX_PAGES`
    /// pages or what the machine can map.
    pub fn grow(&mut self, pages: u32) -> (r: bool)
        requires
            old(self).wf(),
        ensures
            final(self).wf(),
            r <==> old(self)@.len() + pages * PAGE_SIZE <= MAX_PAGES * PAGE_SIZE
                && old(self)@.len() + pages * PAGE_SIZE <= isize::MAX,
            r ==> final(self)@ == old(self)@ + zeros((pages * PAGE_SIZE) as nat),
            !r ==> final(self)@ == old(self)@,
    {
        let current = self.size();
        let added: u64 = pages as u64 * PAGE_SIZE as u64;
        assert(current <= 0x1_0000_0000);
        assert(added <= 0x1_0000_0000_0000) by (nonlinear_arith)
            requires
                added == pages * 65536,
                pages <= u32::MAX,
        ;
        let total: u64 = current as u64 + added;
        if total > MAX_PAGES as u64 * PAGE_SIZE as u64 || total > isize::MAX as u64 {
            return false;
        }
        let new_len = total as usize;
        let mut fresh = map_zeroed(new_len);
        let old_bytes = mapped_slice(&self.memory);
        let mut i: usize = 0;
        while i < current
            invariant
                i <= current,
                current == old_bytes@.len(),
                old_bytes@ == old(self)@,
                mapped(fresh).len() == new_len,
                current <= new_len,
                forall|j: int| 0 <= j < i ==> mapped(fresh)[j] == old_bytes@[j],
                forall|j: int| i <= j < new_len ==> mapped(fresh)[j] == 0,
            decreases current - i,
        {
            set_mapped(&mut fresh, i, old_bytes[i]);
            i = i + 1;
        }
        self.memory = fresh;
        assert(self@ =~= old(self)@ + zeros((pages * PAGE_SIZE) as nat));
        true
    }

    /// Copies `byte_count` bytes from `src_offset` in this memory to
    /// `dest_offset` in `dest_memory`.
    pub fn copy(
        &self,
        src_offset: i32,
        dest_memory: &mut LinearMemory,
        dest_offset: i32,
        byte_count: i32,
    )
        requires
            in_bounds(self@, src_offset, byte_count as int),
            in_bounds(old(dest_memory)@, dest_offset, byte_count as int),
        ensures
            final(dest_memory)@ == splice(
                old(dest_memory)@,
                offset(dest_offset),
                window(self@, src_offset, byte_count as nat),
            ),
    {
        let src = offset_of(src_offset);
        let dest = offset_of(dest_offset);
        let count = byte_count as usize;
        let bytes = mapped_slice(&self.memory);
        let src_len = bytes.len();
        let dest_len = dest_memory.size();
        let ghost before = dest_memory@;
        let mut i: usize = 0;
        while i < count
            invariant
                i <= count,
                count == byte_count,
                dest_len == before.len(),
                src_len == bytes@.len(),
                bytes@ == self@,
                src + count <= bytes@.len(),
                dest + count <= before.len(),
                dest_memory@.len() == before.len(),
                forall|j: int|
                    0 <= j < dest || dest + count <= j < before.len() ==> dest_memory@[j]
                        == before[j],
                forall|k: int| dest <= k < dest + i ==> dest_memory@[k] == bytes@[src + k - dest],
            decreases count - i,
        {
            set_mapped(&mut dest_memory.memory, dest + i, bytes[src + i]);
            i = i + 1;
        }
        assert(dest_memory@ =~= splice(before, dest as int, window(self@, src_offset, count as nat)));
    }

    /// Copies `byte_count` bytes from `src_offset` to `dest_offset` within this
    /// memory; the two ranges may overlap.
    pub fn copy_within(&mut self, src_offset: i32, dest_offset: i32, byte_count: i32)
        requires
            in_bounds(old(self)@, src_offset, byte_count as int),
            in_bounds(old(self)@, dest_offset, byte_count as int),
        ensures
            final(self)@ == splice(
                old(self)@,
                offset(dest_offset),
                window(old(self)@, src_offset, byte_count as nat),
            ),
    {
        let staged = slice_to_vec(self.read_bytes(src_offset, byte_count as usize));
        proof {
            lemma_byte_moduli();
            assert(staged@.len() == byte_count);
        }
        self.write_bytes(dest_offset, staged.as_slice());
    }

    /// Sets the `byte_count` bytes from `offset` on to `value`.
    pub fn fill(&mut self, offset: i32, byte_count: i32, value: u8)
        requires
            in_bounds(old(self)@, offset, byte_count as int),
        ensures
            final(self)@ == splice(
                old(self)@,
                crate::memory::offset(offset),
                Seq::new(byte_count as nat, |i: int| value),
            ),
    {
        let start = offset_of(offset);
        let count = byte_count as usize;
        let len = self.size();
        let ghost before = self@;
        let mut i: usize = 0;
        while i < count
            invariant
                i <= count,
                count == byte_count,
                start + count <= before.len(),
                len == before.len(),
                self@.len() == before.len(),
                forall|j: int|
                    0 <= j < start || start + count <= j < before.len() ==> self@[j]
                        == before[j],
                forall|k: int| start <= k < start + i ==> self@[k] == value,
            decreases count - i,
        {
            set_mapped(&mut self.memory, start + i, value);
            i = i + 1;
        }
        assert(self@ =~= splice(before, start as int, Seq::new(count as nat, |i: int| value)));
    }

    /// The least offset at or after `address` that holds a zero byte, or -1
    /// where there is none.
    pub fn find_null(&self, address: i32) -> (r: i32)
        requires
            self.wf(),
        ensures
            no_null_from(self@, offset(address)) ==> r == -1,
            !no_null_from(self@, offset(address)) ==> exists|o: int|
                is_first_null(self@, offset(address), o) && r == signed_of(o, 4),
    {
        let bytes = mapped_slice(&self.memory);
        let len = bytes.len();
        let start = offset_of(address);
        let mut o: usize = start;
        while o < len
            invariant
                bytes@ == self@,
                len == bytes@.len(),
                len <= 0x1_0000_0000,
                start == offset(address),
                start <= o,
                forall|j: int| start <= j < o ==> bytes@[j] != 0,
            decreases len - o,
        {
            if bytes[o] == 0 {
                let r = address_of(o);
                assert(is_first_null(self@, offset(address), o as int));
                return r;
            }
            o = o + 1;
        }
        -1
    }

    /// The `byte_count` bytes from `address` on.
    pub fn read_bytes(&self, address: i32, byte_count: usize) -> (r: &[u8])
        requires
            in_bounds(self@, address, byte_count as int),
        ensures
            r@ == window(self@, address, byte_count as nat),
    {
        let start = offset_of(address);
        let bytes = mapped_slice(&self.memory);
        let _len = bytes.len();
        slice_subrange(bytes, start, start + byte_count)
    }

    /// Writes `bytearray` from `address` on.
    pub fn write_bytes(&mut self, address: i32, bytearray: &[u8])
        requires
            in_bounds(old(self)@, address, bytearray@.len() as int),
        ensures
            final(self)@ == splice(old(self)@, offset(address), bytearray@),
    {
        let start = offset_of(address);
        let count = bytearray.len();
        let len = self.size();
        let ghost before = self@;
        let mut i: usize = 0;
        while i < count
            invariant
                i <= count,
                count == bytearray@.len(),
                start + count <= before.len(),
                len == before.len(),
                self@.len() == before.len(),
                forall|j: int|
                    0 <= j < start || start + count <= j < before.len() ==> self@[j]
                        == before[j],
                forall|k: int| start <= k < start + i ==> self@[k] == bytearray@[k - start],
            decreases count - i,
        {
            set_mapped(&mut self.memory, start + i, bytearray[i]);
            i = i + 1;
        }
        assert(self@ =~= splice(before, start as int, bytearray@));
    }

    /// The unsigned value of the `n` little-endian bytes at `address`.
    pub(crate) fn load(&self, address: i32, n: usize) -> (r: u64)
        requires
            in_bounds(self@, address, n as int),
            n <= 8,
        ensures
            r == cell(self@, address, n as nat),
            r < byte_modulus(n as nat),
    {
        load_le(mapped_slice(&self.memory), offset_of(address), n)
    }

    /// Stores `v`, cut to `n` bytes, little-endian at `address`.
    pub(crate) fn store_value(&mut self, address: i32, v: i64, n: usize)
        requires
            in_bounds(old(self)@, address, n as int),
            is_width(n as nat),
        ensures
            final(self)@ == with_cell(old(self)@, address, n as nat, v as int),
    {
        let u = to_unsigned(v, n);
        proof {
            lemma_unsigned_in_range(u as int, n as nat);
            lemma_byte_modulus_positive(n as nat);
            vstd::arithmetic::div_mod::lemma_mod_twice(v as int, byte_modulus(n as nat));
            assert(unsigned_of(u as int, n as nat) == unsigned_of(v as int, n as nat));
        }
        self.store(address, u, n);
    }

    /// Stores the unsigned `n`-byte value `u` little-endian at `address`.
    pub(crate) fn store(&mut self, address: i32, u: u64, n: usize)
        requires
            in_bounds(old(self)@, address, n as int),
            is_width(n as nat),
            u < byte_modulus(n as nat),
        ensures
            final(self)@ == with_cell(old(self)@, address, n as nat, u as int),
    {
        let start = offset_of(address);
        let len = self.size();
        proof {
            lemma_unsigned_in_range(u as int, n as nat);
        }
        let ghost before = self@;
        let mut rem: u64 = u;
        let mut i: usize = 0;
        proof {
            lemma_byte_moduli();
        }
        while i < n
            invariant
                i <= n,
                is_width(n as nat),
                u < byte_modulus(n as nat),
                unsigned_of(u as int, n as nat) == u,
                rem == u as int / byte_modulus(i as nat),
                start + n <= before.len(),
                len == before.len(),
                self@.len() == before.len(),
                forall|j: int|
                    0 <= j < start || start + n <= j < before.len() ==> self@[j] == before[j],
                forall|k: int| start <= k < start + i ==> self@[k] == digits(u as int, n as nat)[k - start],
            decreases n - i,
        {
            proof {
                lemma_byte_modulus_positive(i as nat);
                lemma_div_denominator(u as int, byte_modulus(i as nat), 256);
                assert(byte_modulus((i + 1) as nat) == byte_modulus(i as nat) * 256);
            }
            set_mapped(&mut self.memory, start + i, (rem % 256) as u8);
            rem = rem / 256;
            i = i + 1;
        }
        assert(self@ =~= splice(before, start as int, le_bytes(u as int, n as nat)));
    }
}

} // verus!
