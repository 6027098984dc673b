use vstd::prelude::*;
use vstd::layout::{size_of, align_of};
use crate::pod::{Pod, ZeroBits};
use crate::region::{
    bytes_of, bytes_of_slice, lemma_bytes_of_chunks, lemma_bytes_of_len, lemma_bytes_of_zeros, PodRegion,
    PodRegionMut,
};

verus! {

/// Why an allocation with an explicit alignment was not made.
#[derive(Clone, Copy, Debug, PartialEq, Eq, Structural)]
pub enum AllocError {
    /// The requested alignment is zero, or is not met by the element type's
    /// natural alignment; over-aligned allocation is not supported.
    UnsupportedAlignment,
}

/// Whether memory aligned for `T` meets a request for `alignment`.
pub open spec fn alignment_supported<T>(alignment: usize) -> bool {
    alignment > 0 && align_of::<T>() % (alignment as nat) == 0
}

/// The bound the system allocator puts on one allocation of `len` elements.
pub open spec fn fits_allocation<T>(len: usize) -> bool {
    len * size_of::<T>() <= isize::MAX
}

/// An owned, fixed-length, contiguous heap buffer of plain-old-data elements.
///
/// The buffer is the only owner of its memory: it cannot be copied, only moved,
/// and the memory is released exactly once, when the buffer is dropped.
/// Allocation failure ends the process, as the system allocator's failure
/// handler does. A buffer of no elements makes no allocation at all.
pub struct HeapMem<T: Pod> {
    buf: Vec<T>,
}

impl<T: Pod> View for HeapMem<T> {
    type V = Seq<T>;

    closed spec fn view(&self) -> Seq<T> {
        self.buf@
    }
}

impl<T: Pod> HeapMem<T> {
    /// Allocates room for `len` elements. The elements have not been written:
    /// their values are unspecified, and callers are to write each one before
    /// reading it.
    pub fn allocate(len: usize) -> (r: Self)
        requires
            fits_allocation::<T>(len),
        ensures
            r@.len() == len,
    {
        let mut buf: Vec<T> = Vec::with_capacity(len);
        let mut i: usize = 0;
        while i < len
            invariant
                i <= len,
                buf@.len() == i,
            decreases len - i,
        {
            buf.push(T::unwritten());
            i += 1;
        }
        HeapMem { buf }
    }

    /// Allocates room for `len` elements at an address that is a multiple of
    /// `alignment`. Only alignments that the natural alignment of `T` already
    /// meets are supported; any other request fails rather than hand out memory
    /// aligned less than asked.
    pub fn alloc_aligned(len: usize, alignment: usize) -> (r: Result<Self, AllocError>)
        requires
            fits_allocation::<T>(len),
        ensures
            r is Ok <==> alignment_supported::<T>(alignment),
            r is Ok ==> r->Ok_0@.len() == len,
            r is Err ==> r->Err_0 == AllocError::UnsupportedAlignment,
    {
        let natural: usize = core::mem::align_of::<T>();
        if alignment > 0 && natural % alignment == 0 {
            Ok(Self::allocate(len))
        } else {
            Err(AllocError::UnsupportedAlignment)
        }
    }
}

impl<T: ZeroBits> HeapMem<T> {
    /// Allocates `len` elements, every byte of them zero.
    pub fn zeros(len: usize) -> (r: Self)
        requires
            fits_allocation::<T>(len),
        ensures
            r@ == Seq::new(len as nat, |i: int| T::spec_zero()),
            forall|k: int| 0 <= k < bytes_of(r@).len() ==> #[trigger] bytes_of(r@)[k] == 0,
    {
        let mut buf: Vec<T> = Vec::with_capacity(len);
        let mut i: usize = 0;
        while i < len
            invariant
                i <= len,
                buf@ == Seq::new(i as nat, |j: int| T::spec_zero()),
            decreases len - i,
        {
            buf.push(T::zero());
            i += 1;
            assert(buf@ =~= Seq::new(i as nat, |j: int| T::spec_zero()));
        }
        proof {
            lemma_bytes_of_zeros(buf@);
        }
        HeapMem { buf }
    }

    /// Allocates `len` zeroed elements at an address that is a multiple of
    /// `alignment`, under the same support rule as `alloc_aligned`.
    pub fn zeros_aligned(len: usize, alignment: usize) -> (r: Result<Self, AllocError>)
        requires
            fits_allocation::<T>(len),
        ensures
            r is Ok <==> alignment_supported::<T>(alignment),
            r is Ok ==> r->Ok_0@ == Seq::new(len as nat, |i: int| T::spec_zero()),
            r is Ok ==> forall|k: int|
                0 <= k < bytes_of(r->Ok_0@).len() ==> #[trigger] bytes_of(r->Ok_0@)[k] == 0,
            r is Err ==> r->Err_0 == AllocError::UnsupportedAlignment,
    {
        let natural: usize = core::mem::align_of::<T>();
        if alignment > 0 && natural % alignment == 0 {
            Ok(Self::zeros(len))
        } else {
            Err(AllocError::UnsupportedAlignment)
        }
    }
}

impl<T: Pod> PodRegion<T> for HeapMem<T> {
    open spec fn elems(&self) -> Seq<T> {
        self@
    }

    fn region_len(&self) -> (r: usize) {
        self.buf.len()
    }

    fn as_slice(&self) -> (r: &[T]) {
        self.buf.as_slice()
    }

    fn as_bytes(&self) -> (r: Vec<u8>) {
        proof {
            lemma_bytes_of_len(self@);
        }
        bytes_of_slice(self.buf.as_slice())
    }
}

impl<T: Pod> PodRegionMut<T> for HeapMem<T> {
    fn as_slice_mut(&mut self) -> (r: &mut [T]) {
        self.buf.as_mut_slice()
    }

    fn copy_from_bytes(&mut self, src: &[u8]) {
        let sz: usize = core::mem::size_of::<T>();
        let blen: usize = src.len();
        let n: usize = self.buf.len();
        let mut i: usize = 0;
        while i < n
            invariant
                i <= n,
                n == self.buf@.len(),
                n == old(self)@.len(),
                sz == size_of::<T>(),
                blen == src@.len(),
                src@.len() == n * sz,
                forall|j: int|
                    0 <= j < i ==> #[trigger] self.buf@[j] == T::spec_from_bytes(
                        src@.subrange(j * sz, (j + 1) * sz),
                    ),
            decreases n - i,
        {
            proof {
                assert(i * sz + sz <= n * sz) by (nonlinear_arith)
                    requires i < n;
                assert((i + 1) * sz == i * sz + sz) by (nonlinear_arith);
            }
            let at: usize = i * sz;
            let v = T::read_bytes(src, at);
            self.buf.set(i, v);
            i += 1;
        }
        proof {
            assert forall|j: int| 0 <= j < n implies (#[trigger] self.buf@[j]).spec_bytes()
                == src@.subrange(j * sz, (j + 1) * sz) by {
                assert((j + 1) * sz <= n * sz) by (nonlinear_arith)
                    requires j + 1 <= n, sz >= 0;
                assert(0 <= j * sz) by (nonlinear_arith) requires j >= 0, sz >= 0;
                assert((j + 1) * sz == j * sz + sz) by (nonlinear_arith);
                T::lemma_from_bytes(src@.subrange(j * sz, (j + 1) * sz));
            }
            lemma_bytes_of_chunks(self.buf@, src@);
        }
    }

    fn write(&mut self, i: usize, v: T) {
        self.buf.set(i, v);
    }
}

} // verus!
