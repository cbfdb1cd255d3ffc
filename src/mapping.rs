//! The anonymous memory mapping that backs a linear memory, seen as a sequence of bytes.
use vstd::prelude::*;

verus! {

#[verifier::external_type_specification]
#[verifier::external_body]
pub struct ExMmapMut(memmap2::MmapMut);

/// The bytes that a mapping holds, in address order.
pub uninterp spec fn mapped(m: memmap2::MmapMut) -> Seq<u8>;

/// Relies on `memmap2::MmapMut::map_anon`: a fresh private anonymous mapping
/// (`MAP_PRIVATE | MAP_ANON`, which mmap(2) fills with zeros) that dereferences
/// to exactly `len` bytes. It fails for `len > isize::MAX`; a failure of the
/// system call is fatal, as for any allocation.
#[verifier::external_body]
pub(crate) fn map_zeroed(len: usize) -> (m: memmap2::MmapMut)
    requires
        len <= isize::MAX,
    ensures
        mapped(m) == Seq::new(len as nat, |i: int| 0u8),
{
    memmap2::MmapMut::map_anon(len).expect("failed to map anonymous memory")
}

/// Relies on `Deref for memmap2::MmapMut`: the mapped bytes as a slice.
#[verifier::external_body]
pub(crate) fn mapped_slice(m: &memmap2::MmapMut) -> (r: &[u8])
    ensures
        r@ == mapped(*m),
{
    m
}

/// Relies on `DerefMut for memmap2::MmapMut`: stores one byte of the mapping.
#[verifier::external_body]
pub(crate) fn set_mapped(m: &mut memmap2::MmapMut, i: usize, v: u8)
    requires
        i < mapped(*old(m)).len(),
    ensures
        mapped(*final(m)) == mapped(*old(m)).update(i as int, v),
{
    m[i] = v;
}

} // verus!
