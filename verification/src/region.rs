//! The memory region: one anonymous virtual-memory mapping whose accessible
//! range covers exactly the requested capacity, followed immediately by one
//! page with all access permissions revoked (the guard page). A raw write
//! past the accessible range lands in the guard page and the operating
//! system raises a memory-protection fault.
//!
//! The mapping itself comes from the `mmap_rs` crate; the items below that
//! carry `external_body` state what its calls do and are trusted, everything
//! else is verified against them.

use vstd::prelude::*;

use crate::pages::PAGE_SIZE;

verus! {

/// mmap_rs::MmapMut, a readable and writable memory mapping.
#[verifier::external_type_specification]
#[verifier::external_body]
pub struct ExMmapMut(mmap_rs::MmapMut);

/// mmap_rs::MmapNone, a memory mapping with all access permissions revoked.
#[verifier::external_type_specification]
#[verifier::external_body]
pub struct ExMmapNone(mmap_rs::MmapNone);

/// mmap_rs::Error, the reason the operating system gives when a mapping or
/// protection call fails.
#[verifier::external_type_specification]
#[verifier::external_body]
pub struct ExMmapError(mmap_rs::Error);

/// The bytes held by a readable and writable mapping.
pub uninterp spec fn region_bytes(m: mmap_rs::MmapMut) -> Seq<u8>;

/// The size in bytes of an inaccessible mapping.
pub uninterp spec fn guard_bytes(m: mmap_rs::MmapNone) -> nat;

/// Relies on mmap_rs::MmapOptions::new and MmapOptions::map_mut: an
/// anonymous, private, read-write mapping of exactly `len` bytes, which the
/// operating system hands out zero-filled.
#[verifier::external_body]
fn map_anon(len: usize) -> (r: Result<mmap_rs::MmapMut, mmap_rs::Error>)
    ensures
        r matches Ok(m) ==> region_bytes(m).len() == len,
        r matches Ok(m) ==> forall|i: int| 0 <= i < len ==> region_bytes(m)[i] == 0,
{
    match mmap_rs::MmapOptions::new(len) {
        Ok(opts) => opts.map_mut(),
        Err(e) => Err(e),
    }
}

/// Relies on mmap_rs::MmapMut::split_off: on success `m` keeps the bytes
/// below `at` and the returned mapping takes the bytes from `at` up; it
/// succeeds only for a page-aligned `at` below the mapping's size, and on
/// failure it leaves `m` untouched.
#[verifier::external_body]
fn split_off_tail(m: &mut mmap_rs::MmapMut, at: usize) -> (r: Result<
    mmap_rs::MmapMut,
    mmap_rs::Error,
>)
    ensures
        r matches Ok(tail) ==> at < region_bytes(*old(m)).len(),
        r matches Ok(tail) ==> region_bytes(*final(m)) == region_bytes(*old(m)).take(at as int),
        r matches Ok(tail) ==> region_bytes(tail) == region_bytes(*old(m)).skip(at as int),
        r matches Err(_) ==> *final(m) == *old(m),
{
    m.split_off(at)
}

/// Relies on mmap_rs::MmapMut::make_none: revokes all access permissions on
/// the mapping; on success the inaccessible mapping covers the same byte
/// range, and on failure the mapping is released.
#[verifier::external_body]
fn protect_none(m: mmap_rs::MmapMut) -> (r: Result<mmap_rs::MmapNone, mmap_rs::Error>)
    ensures
        r matches Ok(g) ==> guard_bytes(g) == region_bytes(m).len(),
{
    match m.make_none() {
        Ok(g) => Ok(g),
        Err((_, e)) => Err(e),
    }
}

/// Relies on the Index access that mmap_rs::MmapMut offers through its Deref
/// to a byte slice: returns the byte at offset `i`.
#[verifier::external_body]
fn read_byte(m: &mmap_rs::MmapMut, i: usize) -> (r: u8)
    requires
        i < region_bytes(*m).len(),
    ensures
        r == region_bytes(*m)[i as int],
{
    m[i]
}

/// Relies on the IndexMut access that mmap_rs::MmapMut offers through its
/// DerefMut to a byte slice: overwrites the byte at offset `i`.
#[verifier::external_body]
fn write_byte(m: &mut mmap_rs::MmapMut, i: usize, b: u8)
    requires
        i < region_bytes(*old(m)).len(),
    ensures
        region_bytes(*final(m)) == region_bytes(*old(m)).update(i as int, b),
{
    m[i] = b;
}

/// Relies on the Display impl of mmap_rs::Error for a human-readable reason.
#[verifier::external_body]
fn error_text(e: &mmap_rs::Error) -> String {
    format!("{}", e)
}

/// The one recoverable error: the operating system refused the mapping or
/// the protection request while a region was being created.
pub struct MappingFailure {
    source: mmap_rs::Error,
}

impl MappingFailure {
    /// The reason the operating system reported.
    pub fn message(&self) -> String {
        error_text(&self.source)
    }
}

/// A memory region: `capacity_bytes` readable and writable bytes of an
/// anonymous mapping with a page-aligned base, followed immediately by one
/// inaccessible guard page. Dropping the region unmaps both parts.
pub struct Mapping {
    buf: mmap_rs::MmapMut,
    guard: mmap_rs::MmapNone,
    capacity_bytes: usize,
}

impl Mapping {
    /// The accessible bytes, those below the guard page.
    pub closed spec fn bytes(self) -> Seq<u8> {
        region_bytes(self.buf)
    }

    /// The number of accessible bytes.
    pub closed spec fn capacity(self) -> int {
        self.capacity_bytes as int
    }

    /// Well-formed: the accessible range is non-empty, page-aligned, exactly
    /// `capacity_bytes` long, and one full page is reserved behind it with
    /// all access permissions revoked.
    pub closed spec fn wf(self) -> bool {
        &&& 0 < self.capacity_bytes
        &&& self.capacity_bytes % PAGE_SIZE == 0
        &&& region_bytes(self.buf).len() == self.capacity_bytes
        &&& guard_bytes(self.guard) == PAGE_SIZE
    }

    /// What well-formedness gives every caller: the accessible range is
    /// exactly `capacity` bytes, positive, page-aligned, and within the
    /// machine's address range.
    pub proof fn lemma_wf(self)
        requires
            self.wf(),
        ensures
            self.bytes().len() == self.capacity(),
            0 < self.capacity(),
            self.capacity() % (PAGE_SIZE as int) == 0,
            self.capacity() <= usize::MAX,
    {
    }

    /// Create a region of exactly `capacity_bytes` accessible bytes: map
    /// `capacity_bytes` plus one page anonymously, then revoke all access
    /// permissions on the final page. If either step fails, everything
    /// already mapped is released and the failure is surfaced.
    pub fn with_capacity(capacity_bytes: usize) -> (r: Result<Mapping, MappingFailure>)
        requires
            0 < capacity_bytes,
            capacity_bytes % PAGE_SIZE == 0,
            capacity_bytes <= usize::MAX - PAGE_SIZE,
        ensures
            r matches Ok(m) ==> m.wf(),
            r matches Ok(m) ==> m.capacity() == capacity_bytes,
            r matches Ok(m) ==> forall|i: int| 0 <= i < capacity_bytes ==> m.bytes()[i] == 0,
    {
        let total = capacity_bytes + PAGE_SIZE;
        let mut buf = match map_anon(total) {
            Ok(b) => b,
            Err(e) => {
                return Err(MappingFailure { source: e });
            },
        };
        let tail = match split_off_tail(&mut buf, capacity_bytes) {
            Ok(t) => t,
            Err(e) => {
                return Err(MappingFailure { source: e });
            },
        };
        let guard = match protect_none(tail) {
            Ok(g) => g,
            Err(e) => {
                return Err(MappingFailure { source: e });
            },
        };
        Ok(Mapping { buf, guard, capacity_bytes })
    }

    /// The number of accessible bytes.
    pub fn capacity_bytes(&self) -> (r: usize)
        ensures
            r == self.capacity(),
    {
        self.capacity_bytes
    }

    /// The byte at offset `i` of the accessible range.
    pub fn read(&self, i: usize) -> (r: u8)
        requires
            self.wf(),
            i < self.capacity(),
        ensures
            r == self.bytes()[i as int],
    {
        read_byte(&self.buf, i)
    }

    /// Overwrite the byte at offset `i` of the accessible range. Every write
    /// the region accepts lies below `capacity_bytes`, so no verified write
    /// can touch the guard page.
    pub fn write(&mut self, i: usize, b: u8)
        requires
            old(self).wf(),
            i < old(self).capacity(),
        ensures
            final(self).wf(),
            final(self).capacity() == old(self).capacity(),
            final(self).bytes() == old(self).bytes().update(i as int, b),
    {
        write_byte(&mut self.buf, i, b);
    }
}

} // verus!
