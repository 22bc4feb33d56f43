//! The guarded array: a growable-up-to-capacity collection of 8-byte
//! elements laid out contiguously at the start of one memory region. The
//! live elements occupy the slots below `len`; the slots from `len` up to
//! the slot count are uninitialized storage, and immediately past the
//! region's usable bytes sits the guard page. Every operation here is
//! verified to keep its writes inside the usable byte range, so only a raw,
//! unverified write can ever reach the guard page.

use vstd::prelude::*;

use vstd::bytes::lemma_auto_spec_u64_to_from_le_bytes;
use vstd::bytes::spec_u64_from_le_bytes;
use vstd::bytes::spec_u64_to_le_bytes;
use vstd::bytes::u64_from_le_bytes;
use vstd::bytes::u64_to_le_bytes;

use crate::pages::lemma_page_round_up_smallest;
use crate::pages::page_round_up;
use crate::pages::round_up_to_page;
use crate::pages::PAGE_SIZE;
use crate::region::Mapping;
use crate::region::MappingFailure;

verus! {

/// Bytes occupied by one element slot.
pub const ELEM_BYTES: usize = 8;

/// A fixed-capacity array of `u64` elements backed by one guarded memory
/// region. `len` counts the live elements; it never exceeds the number of
/// slots that fit in the region's usable bytes.
pub struct GuardedArray {
    mapping: Mapping,
    len: usize,
}

/// For `0 <= i < cap / 8`, the byte range of slot `i` lies inside `[0, cap)`.
proof fn lemma_slot_in_bounds(cap: int, i: int)
    requires
        0 <= cap,
        0 <= i < cap / 8,
    ensures
        0 <= 8 * i,
        8 * i + 8 <= cap,
{
    assert(8 * (cap / 8) <= cap) by (nonlinear_arith)
        requires 0 <= cap,
    ;
    assert(8 * i + 8 <= 8 * (cap / 8)) by (nonlinear_arith)
        requires i < cap / 8,
    ;
}

impl GuardedArray {
    /// The usable byte capacity of the backing region.
    pub closed spec fn capacity(self) -> int {
        self.mapping.capacity()
    }

    /// The number of element slots that fit in the usable bytes.
    pub open spec fn slot_count(self) -> int {
        self.capacity() / 8
    }

    /// The usable bytes of the backing region, live slots and uninitialized
    /// storage alike; the guard page sits immediately past them, and no
    /// operation of the array ever changes a byte outside this range.
    pub closed spec fn storage_bytes(self) -> Seq<u8> {
        self.mapping.bytes()
    }

    /// The element stored in slot `i`, read little-endian from its 8 bytes.
    closed spec fn slot(self, i: int) -> u64 {
        spec_u64_from_le_bytes(self.mapping.bytes().subrange(8 * i, 8 * i + 8))
    }

    /// Well-formed: the backing region is well-formed and the live elements
    /// all fit in the usable bytes.
    pub closed spec fn wf(self) -> bool {
        &&& self.mapping.wf()
        &&& self.len <= self.slot_count()
    }

    /// Create an array whose usable byte capacity is `capacity` rounded up
    /// to the next multiple of the page size, with no live elements. The
    /// request is a byte count; dividing by 8 gives the element slots.
    /// Fails only when the operating system refuses the mapping or the
    /// protection request, and surfaces that failure unchanged.
    pub fn with_capacity(capacity: usize) -> (r: Result<GuardedArray, MappingFailure>)
        requires
            0 < capacity,
            capacity <= usize::MAX - PAGE_SIZE - PAGE_SIZE,
        ensures
            r matches Ok(a) ==> a.wf(),
            r matches Ok(a) ==> a@ == Seq::<u64>::empty(),
            r matches Ok(a) ==> a.capacity() == page_round_up(capacity as int),
            r matches Ok(a) ==> forall|i: int| 0 <= i < a.capacity() ==> a.storage_bytes()[i] == 0,
    {
        proof {
            lemma_page_round_up_smallest(capacity as int);
        }
        let cap = round_up_to_page(capacity);
        let mapping = match Mapping::with_capacity(cap) {
            Ok(m) => m,
            Err(e) => {
                return Err(e);
            },
        };
        let a = GuardedArray { mapping, len: 0 };
        proof {
            assert(a@ =~= Seq::<u64>::empty());
        }
        Ok(a)
    }

    /// The number of live elements.
    pub fn len(&self) -> (r: usize)
        ensures
            r == self@.len(),
    {
        self.len
    }

    /// The usable byte capacity.
    pub fn capacity_bytes(&self) -> (r: usize)
        ensures
            r == self.capacity(),
    {
        self.mapping.capacity_bytes()
    }

    /// The number of element slots.
    pub fn capacity_elements(&self) -> (r: usize)
        requires
            self.wf(),
        ensures
            r == self.slot_count(),
    {
        self.mapping.capacity_bytes() / ELEM_BYTES
    }

    /// Read the element in slot `i`, which need not be live.
    fn load_slot(&self, i: usize) -> (r: u64)
        requires
            self.wf(),
            i < self.slot_count(),
        ensures
            r == self.slot(i as int),
    {
        proof {
            self.mapping.lemma_wf();
            lemma_slot_in_bounds(self.capacity(), i as int);
        }
        let off: usize = i * ELEM_BYTES;
        let mut buf: Vec<u8> = Vec::new();
        let mut j: usize = 0;
        while j < ELEM_BYTES
            invariant
                self.wf(),
                off == 8 * i,
                off + 8 <= self.capacity(),
                self.mapping.bytes().len() == self.capacity(),
                j <= 8,
                buf@.len() == j,
                forall|t: int| 0 <= t < j ==> buf@[t] == self.mapping.bytes()[off + t],
            decreases 8 - j,
        {
            let b = self.mapping.read(off + j);
            buf.push(b);
            j += 1;
        }
        proof {
            assert(buf@ =~= self.mapping.bytes().subrange(off as int, off as int + 8));
        }
        u64_from_le_bytes(buf.as_slice())
    }

    /// Overwrite slot `i`, which need not be live, leaving every other slot
    /// and the length unchanged.
    fn store_slot(&mut self, i: usize, v: u64)
        requires
            old(self).wf(),
            i < old(self).slot_count(),
        ensures
            final(self).wf(),
            final(self).len == old(self).len,
            final(self).capacity() == old(self).capacity(),
            final(self).slot(i as int) == v,
            forall|j: int|
                0 <= j < old(self).slot_count() && j != i ==> final(self).slot(j) == old(self).slot(
                    j,
                ),
            final(self).storage_bytes().len() == old(self).storage_bytes().len(),
            forall|k: int|
                0 <= k < old(self).capacity() && !(8 * i <= k < 8 * i + 8)
                    ==> final(self).storage_bytes()[k] == old(self).storage_bytes()[k],
    {
        proof {
            old(self).mapping.lemma_wf();
            lemma_slot_in_bounds(old(self).capacity(), i as int);
        }
        let off: usize = i * ELEM_BYTES;
        let enc = u64_to_le_bytes(v);
        let mut j: usize = 0;
        while j < ELEM_BYTES
            invariant
                self.wf(),
                self.len == old(self).len,
                self.capacity() == old(self).capacity(),
                off == 8 * i,
                off + 8 <= self.capacity(),
                self.mapping.bytes().len() == self.capacity(),
                j <= 8,
                enc@ == spec_u64_to_le_bytes(v),
                enc@.len() == 8,
                forall|k: int|
                    0 <= k < self.capacity() && !(off <= k < off + j)
                        ==> self.mapping.bytes()[k] == old(self).mapping.bytes()[k],
                forall|k: int| off <= k < off + j ==> self.mapping.bytes()[k] == enc@[k - off],
            decreases 8 - j,
        {
            let b = enc[j];
            self.mapping.write(off + j, b);
            j += 1;
        }
        proof {
            lemma_auto_spec_u64_to_from_le_bytes();
            assert(self.mapping.bytes().subrange(8 * i as int, 8 * i as int + 8) =~= enc@);
            assert forall|j2: int|
                0 <= j2 < old(self).slot_count() && j2 != i implies self.slot(j2) == old(
                self,
            ).slot(j2) by {
                lemma_slot_in_bounds(old(self).capacity(), j2);
                assert(self.mapping.bytes().subrange(8 * j2, 8 * j2 + 8) =~= old(
                    self,
                ).mapping.bytes().subrange(8 * j2, 8 * j2 + 8));
            }
        }
    }

    /// Write `value` into the slot at offset `len` and advance `len`. The
    /// caller owes a live count below the slot count: past it the write
    /// would have to land in or cross into the guard page, which is a fatal
    /// memory-protection fault, not a checked error, and verified code
    /// cannot take that path.
    pub fn push(&mut self, value: u64)
        requires
            old(self).wf(),
            old(self)@.len() < old(self).slot_count(),
        ensures
            final(self).wf(),
            final(self).capacity() == old(self).capacity(),
            final(self)@ == old(self)@.push(value),
            final(self).storage_bytes().len() == old(self).storage_bytes().len(),
            forall|k: int|
                0 <= k < old(self).capacity() && !(8 * old(self)@.len() <= k < 8 * old(self)@.len()
                    + 8) ==> final(self).storage_bytes()[k] == old(self).storage_bytes()[k],
    {
        let ghost pre = *self;
        proof {
            self.mapping.lemma_wf();
        }
        let i = self.len;
        self.store_slot(i, value);
        self.len = self.len + 1;
        proof {
            assert forall|k: int| 0 <= k < self@.len() implies self@[k] == pre@.push(value)[k] by {
                if k < pre.len {
                    assert(self.slot(k) == pre.slot(k));
                }
            }
            assert(self@ =~= pre@.push(value));
        }
    }

    /// Remove and return the last live element, or nothing when there is
    /// none; the emptied slot becomes uninitialized storage again.
    pub fn pop(&mut self) -> (r: Option<u64>)
        requires
            old(self).wf(),
        ensures
            final(self).wf(),
            final(self).capacity() == old(self).capacity(),
            final(self).storage_bytes() == old(self).storage_bytes(),
            old(self)@.len() == 0 ==> r is None && final(self)@ == old(self)@,
            old(self)@.len() > 0 ==> r == Some(old(self)@.last()) && final(self)@ == old(
                self,
            )@.drop_last(),
    {
        if self.len == 0 {
            None
        } else {
            let ghost pre = *self;
            let i = self.len - 1;
            let v = self.load_slot(i);
            self.len = i;
            proof {
                assert(self@ =~= pre@.drop_last());
            }
            Some(v)
        }
    }

    /// Remove and return the element at `index`, shifting every element
    /// above it down one slot so that relative order is kept. An index at
    /// or past `len` is a contract violation, not a checked error.
    pub fn remove(&mut self, index: usize) -> (r: u64)
        requires
            old(self).wf(),
            index < old(self)@.len(),
        ensures
            final(self).wf(),
            final(self).capacity() == old(self).capacity(),
            r == old(self)@[index as int],
            final(self)@.len() == old(self)@.len() - 1,
            forall|j: int| 0 <= j < index ==> final(self)@[j] == old(self)@[j],
            forall|j: int|
                index <= j < old(self)@.len() - 1 ==> final(self)@[j] == old(self)@[j + 1],
            final(self).storage_bytes().len() == old(self).storage_bytes().len(),
            forall|k: int|
                0 <= k < old(self).capacity() && !(8 * index <= k < 8 * (old(self)@.len() - 1))
                    ==> final(self).storage_bytes()[k] == old(self).storage_bytes()[k],
    {
        let ghost pre = *self;
        let ret = self.load_slot(index);
        let mut j: usize = index;
        while j + 1 < self.len
            invariant
                self.wf(),
                self.len == pre.len,
                self.capacity() == pre.capacity(),
                index < self.len,
                index <= j < self.len,
                forall|k: int| 0 <= k < index ==> self.slot(k) == pre.slot(k),
                forall|k: int| index <= k < j ==> self.slot(k) == pre.slot(k + 1),
                forall|k: int| j <= k < self.slot_count() ==> self.slot(k) == pre.slot(k),
                self.mapping.bytes().len() == pre.mapping.bytes().len(),
                forall|k: int|
                    0 <= k < pre.capacity() && !(8 * index <= k < 8 * j)
                        ==> self.mapping.bytes()[k] == pre.mapping.bytes()[k],
            decreases self.len - j,
        {
            let v = self.load_slot(j + 1);
            self.store_slot(j, v);
            j += 1;
        }
        proof {
            assert(j == pre.len - 1);
        }
        let ghost mid = *self;
        self.len = self.len - 1;
        proof {
            assert forall|k: int| 0 <= k < index implies self@[k] == pre@[k] by {
                assert(mid.slot(k) == pre.slot(k));
                assert(self.slot(k) == mid.slot(k));
            }
            assert forall|k: int| index <= k < pre.len - 1 implies self@[k] == pre@[k + 1] by {
                assert(mid.slot(k) == pre.slot(k + 1));
                assert(self.slot(k) == mid.slot(k));
            }
        }
        ret
    }

    /// Read the live element at `index` through the array's view.
    pub fn get(&self, index: usize) -> (r: u64)
        requires
            self.wf(),
            index < self@.len(),
        ensures
            r == self@[index as int],
    {
        self.load_slot(index)
    }

    /// The live elements, copied out in order as an ordinary vector.
    pub fn to_vec(&self) -> (r: Vec<u64>)
        requires
            self.wf(),
        ensures
            r@ == self@,
    {
        let mut out: Vec<u64> = Vec::new();
        let mut i: usize = 0;
        while i < self.len
            invariant
                self.wf(),
                i <= self.len,
                out@.len() == i,
                forall|k: int| 0 <= k < i ==> out@[k] == self@[k],
            decreases self.len - i,
        {
            let v = self.load_slot(i);
            out.push(v);
            i += 1;
        }
        proof {
            assert(out@ =~= self@);
        }
        out
    }

    /// Overwrite the live element at `index` in place.
    pub fn set(&mut self, index: usize, value: u64)
        requires
            old(self).wf(),
            index < old(self)@.len(),
        ensures
            final(self).wf(),
            final(self).capacity() == old(self).capacity(),
            final(self)@ == old(self)@.update(index as int, value),
            final(self).storage_bytes().len() == old(self).storage_bytes().len(),
            forall|k: int|
                0 <= k < old(self).capacity() && !(8 * index <= k < 8 * index + 8)
                    ==> final(self).storage_bytes()[k] == old(self).storage_bytes()[k],
    {
        let ghost pre = *self;
        self.store_slot(index, value);
        proof {
            assert forall|k: int|
                0 <= k < self@.len() implies self@[k] == pre@.update(index as int, value)[k] by {
                if k != index {
                    assert(self.slot(k) == pre.slot(k));
                }
            }
            assert(self@ =~= pre@.update(index as int, value));
        }
    }
}

/// Pushing a value and then popping returns that value and restores the
/// sequence of live elements, and with it the length, to its prior state.
pub proof fn lemma_push_then_pop(s: Seq<u64>, v: u64)
    ensures
        s.push(v).len() == s.len() + 1,
        s.push(v).last() == v,
        s.push(v).drop_last() == s,
{
    assert(s.push(v).drop_last() =~= s);
}

impl View for GuardedArray {
    type V = Seq<u64>;

    /// The live elements, in slot order.
    closed spec fn view(&self) -> Seq<u64> {
        Seq::new(self.len as nat, |i: int| self.slot(i))
    }
}

} // verus!
