use vstd::prelude::*;
use vstd::layout::size_of;
use crate::pod::{Pod, ZeroBits};

verus! {

/// The byte image of a run of elements: the images of the elements, one after
/// another, in order.
pub open spec fn bytes_of<T: Pod>(s: Seq<T>) -> Seq<u8>
    decreases s.len(),
{
    if s.len() == 0 {
        Seq::empty()
    } else {
        bytes_of(s.drop_last()) + s.last().spec_bytes()
    }
}

/// The byte image of `n` elements is `n * size_of::<T>()` bytes long.
pub proof fn lemma_bytes_of_len<T: Pod>(s: Seq<T>)
    ensures
        bytes_of(s).len() == s.len() * size_of::<T>(),
    decreases s.len(),
{
    if s.len() > 0 {
        lemma_bytes_of_len(s.drop_last());
        s.last().lemma_bytes_len();
        assert(s.len() * size_of::<T>() == (s.len() - 1) * size_of::<T>() + size_of::<T>())
            by (nonlinear_arith);
    }
}

/// Where every element is the zero value, every byte of the image is zero.
pub proof fn lemma_bytes_of_zeros<T: ZeroBits>(s: Seq<T>)
    requires
        forall|i: int| 0 <= i < s.len() ==> #[trigger] s[i] == T::spec_zero(),
    ensures
        forall|k: int| 0 <= k < bytes_of(s).len() ==> #[trigger] bytes_of(s)[k] == 0,
    decreases s.len(),
{
    if s.len() > 0 {
        let init = s.drop_last();
        assert forall|i: int| 0 <= i < init.len() implies #[trigger] init[i] == T::spec_zero() by {
            assert(init[i] == s[i]);
        }
        lemma_bytes_of_zeros(init);
        T::lemma_zero_bytes();
        assert(s.last() == T::spec_zero());
        let head = bytes_of(init);
        let tail = s.last().spec_bytes();
        assert forall|k: int| 0 <= k < bytes_of(s).len() implies #[trigger] bytes_of(s)[k] == 0 by {
            if k < head.len() {
                assert(bytes_of(s)[k] == head[k]);
            } else {
                assert(bytes_of(s)[k] == tail[k - head.len()]);
            }
        }
    }
}

/// Where element `j` has the image held by bytes `[j * size, (j + 1) * size)` of
/// `src`, for every `j`, the image of the elements is `src`.
pub proof fn lemma_bytes_of_chunks<T: Pod>(s: Seq<T>, src: Seq<u8>)
    requires
        src.len() == s.len() * size_of::<T>(),
        forall|j: int|
            0 <= j < s.len() ==> (#[trigger] s[j]).spec_bytes() == src.subrange(
                j * size_of::<T>(),
                (j + 1) * size_of::<T>(),
            ),
    ensures
        bytes_of(s) == src,
    decreases s.len(),
{
    let sz = size_of::<T>() as int;
    if s.len() == 0 {
        assert(src =~= Seq::empty());
    } else {
        let n = s.len() as int;
        let init = s.drop_last();
        let head = src.subrange(0, (n - 1) * sz);
        assert(n * sz == (n - 1) * sz + sz) by (nonlinear_arith);
        assert((n - 1) * sz >= 0) by (nonlinear_arith) requires n >= 1, sz >= 0;
        assert forall|j: int| 0 <= j < init.len() implies (#[trigger] init[j]).spec_bytes()
            == head.subrange(j * sz, (j + 1) * sz) by {
            assert(init[j] == s[j]);
            assert(0 <= j * sz) by (nonlinear_arith) requires j >= 0, sz >= 0;
            assert((j + 1) * sz == j * sz + sz) by (nonlinear_arith);
            assert((j + 1) * sz <= (n - 1) * sz) by (nonlinear_arith) requires j + 1 <= n - 1, sz >= 0;
            assert(head.subrange(j * sz, (j + 1) * sz) =~= src.subrange(j * sz, (j + 1) * sz));
        }
        lemma_bytes_of_chunks(init, head);
        assert(s.last() == s[n - 1]);
        assert(src =~= head + src.subrange((n - 1) * sz, n * sz));
    }
}

/// Bytes `[j * size, (j + 1) * size)` of the image of `s` are the image of `s[j]`.
pub proof fn lemma_bytes_of_chunk<T: Pod>(s: Seq<T>, j: int)
    requires
        0 <= j < s.len(),
    ensures
        0 <= j * size_of::<T>(),
        (j + 1) * size_of::<T>() <= bytes_of(s).len(),
        bytes_of(s).subrange(j * size_of::<T>(), (j + 1) * size_of::<T>()) == s[j].spec_bytes(),
    decreases s.len(),
{
    let sz = size_of::<T>() as int;
    let n = s.len() as int;
    let init = s.drop_last();
    lemma_bytes_of_len(s);
    lemma_bytes_of_len(init);
    s.last().lemma_bytes_len();
    assert(0 <= j * sz) by (nonlinear_arith) requires j >= 0, sz >= 0;
    assert((j + 1) * sz == j * sz + sz) by (nonlinear_arith);
    assert(n * sz == (n - 1) * sz + sz) by (nonlinear_arith);
    assert((j + 1) * sz <= n * sz) by (nonlinear_arith) requires j + 1 <= n, sz >= 0;
    if j == n - 1 {
        assert(bytes_of(s).subrange(j * sz, (j + 1) * sz) =~= s.last().spec_bytes());
    } else {
        lemma_bytes_of_chunk(init, j);
        assert((j + 1) * sz <= (n - 1) * sz) by (nonlinear_arith) requires j + 1 <= n - 1, sz >= 0;
        assert(init[j] == s[j]);
        assert(bytes_of(s).subrange(j * sz, (j + 1) * sz) =~= bytes_of(init).subrange(
            j * sz,
            (j + 1) * sz,
        ));
    }
}

/// Copying the byte image of a run of elements into a region of the same
/// length, as `copy_from_bytes` does, gives back exactly those elements.
pub proof fn lemma_copy_back_restores<T: Pod>(s: Seq<T>, r: Seq<T>)
    requires
        r.len() == s.len(),
        forall|j: int|
            0 <= j < r.len() ==> #[trigger] r[j] == T::spec_from_bytes(
                bytes_of(s).subrange(j * size_of::<T>(), (j + 1) * size_of::<T>()),
            ),
    ensures
        r == s,
{
    assert forall|j: int| 0 <= j < r.len() implies #[trigger] r[j] == s[j] by {
        lemma_bytes_of_chunk(s, j);
        s[j].lemma_bytes_round_trip();
    }
    assert(r =~= s);
}

/// Builds the byte image of `s`.
pub fn bytes_of_slice<T: Pod>(s: &[T]) -> (r: Vec<u8>)
    ensures
        r@ == bytes_of(s@),
{
    let mut out: Vec<u8> = Vec::new();
    let mut i: usize = 0;
    while i < s.len()
        invariant
            i <= s@.len(),
            out@ == bytes_of(s@.subrange(0, i as int)),
        decreases s@.len() - i,
    {
        s[i].append_bytes(&mut out);
        i += 1;
        assert(s@.subrange(0, i as int).drop_last() =~= s@.subrange(0, i - 1));
    }
    assert(s@.subrange(0, i as int) =~= s@);
    out
}

/// Read access to a run of plain-old-data elements of fixed length.
pub trait PodRegion<T: Pod> {
    /// The elements of the region, in order.
    spec fn elems(&self) -> Seq<T>;

    /// The number of elements.
    fn region_len(&self) -> (r: usize)
        ensures
            r == self.elems().len(),
    ;

    /// The elements, as a borrowed slice of exactly `region_len()` items.
    fn as_slice(&self) -> (r: &[T])
        ensures
            r@ == self.elems(),
    ;

    /// The byte image of the elements, `region_len() * size_of::<T>()` bytes.
    fn as_bytes(&self) -> (r: Vec<u8>)
        ensures
            r@ == bytes_of(self.elems()),
            r@.len() == self.elems().len() * size_of::<T>(),
    ;
}

/// Read and write access to a run of plain-old-data elements of fixed length.
pub trait PodRegionMut<T: Pod>: PodRegion<T> {
    /// The elements, as a writable slice. What the slice holds when the borrow
    /// ends becomes the region's elements.
    fn as_slice_mut(&mut self) -> (r: &mut [T])
        ensures
            r@ == old(self).elems(),
            final(self).elems() == final(r)@,
    ;

    /// Overwrites the elements with the values whose byte images are `src`,
    /// in order: element `j` is read from bytes `[j * size, (j + 1) * size)`.
    fn copy_from_bytes(&mut self, src: &[u8])
        requires
            src@.len() == old(self).elems().len() * size_of::<T>(),
        ensures
            final(self).elems().len() == old(self).elems().len(),
            forall|j: int|
                0 <= j < final(self).elems().len() ==> #[trigger] final(self).elems()[j]
                    == T::spec_from_bytes(
                    src@.subrange(j * size_of::<T>(), (j + 1) * size_of::<T>()),
                ),
            bytes_of(final(self).elems()) == src@,
    ;

    /// Writes `v` at index `i`; the other elements and the length stay.
    fn write(&mut self, i: usize, v: T)
        requires
            i < old(self).elems().len(),
        ensures
            final(self).elems() == old(self).elems().update(i as int, v),
    ;
}

/// Read access to memory meant for device-visible (DMA) use. It is a separate
/// capability from `PodRegion`, so that a consumer can ask for device-visible
/// memory in particular; it implies no allocation strategy of its own.
pub trait DmaRegion<T: Pod> {
    /// The number of elements of the device-visible region.
    spec fn dma_len(&self) -> nat;

    /// The number of elements of the device-visible region.
    fn dma_region_len(&self) -> (r: usize)
        ensures
            r == self.dma_len(),
    ;
}

/// Write access to memory meant for device-visible (DMA) use.
pub trait DmaRegionMut<T: Pod>: DmaRegion<T> {
}

} // verus!
