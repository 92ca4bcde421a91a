use vstd::prelude::*;

verus! {

/// A growable sequence of plain elements.
pub trait Buffer<E> {
    type Element;

    /// The elements held, in order.
    spec fn contents(&self) -> Seq<Self::Element>;

    /// The largest number of elements the buffer can hold.
    spec fn capacity(&self) -> nat;

    /// The buffer's internal invariant.
    spec fn wf(&self) -> bool;

    fn len(&self) -> (n: usize)
        requires
            self.wf(),
        ensures
            n == self.contents().len(),
    ;

    /// Appends `count` elements and hands them out for writing.
    fn alloc_elements(&mut self, count: usize) -> (s: &mut [Self::Element])
        requires
            old(self).wf(),
            old(self).contents().len() + count <= old(self).capacity(),
        ensures
            final(self).wf(),
            final(self).capacity() == old(self).capacity(),
            s@.len() == count,
            final(s)@.len() == count,
            final(self).contents() == old(self).contents() + final(s)@,
    ;

    /// Removes every element.
    fn clear(&mut self)
        requires
            old(self).wf(),
        ensures
            final(self).wf(),
            final(self).capacity() == old(self).capacity(),
            final(self).contents() == Seq::<Self::Element>::empty(),
    ;

    fn elements(&self) -> (s: &[Self::Element])
        requires
            self.wf(),
        ensures
            s@ == self.contents(),
    ;

    fn elements_mut(&mut self) -> (s: &mut [Self::Element])
        requires
            old(self).wf(),
        ensures
            s@ == old(self).contents(),
            final(s)@.len() == s@.len(),
            final(self).wf(),
            final(self).capacity() == old(self).capacity(),
            final(self).contents() == final(s)@,
    ;

    /// Appends one element.
    fn push(&mut self, e: Self::Element)
        requires
            old(self).wf(),
            old(self).contents().len() < old(self).capacity(),
        ensures
            final(self).wf(),
            final(self).capacity() == old(self).capacity(),
            final(self).contents() == old(self).contents().push(e),
    ;

    /// The size in bytes of one element.
    fn element_size() -> (n: usize)
        ensures
            n as nat == vstd::layout::size_of::<E>(),
    {
        core::mem::size_of::<E>()
    }

    /// The alignment in bytes of one element.
    fn element_alignment() -> (n: usize)
        ensures
            n as nat == vstd::layout::align_of::<E>(),
    {
        core::mem::align_of::<E>()
    }
}

/// `<[T]>::split_at_mut`: the two halves of `s` around `mid`. What is
/// written through the halves lands in `s`, and neither half can change its
/// length.
#[verifier::external_body]
fn split_slice_mut<T>(s: &mut [T], mid: usize) -> (ret: (&mut [T], &mut [T]))
    requires
        mid <= old(s)@.len(),
    ensures
        ret.0@ == old(s)@.subrange(0, mid as int),
        ret.1@ == old(s)@.subrange(mid as int, old(s)@.len() as int),
        final(ret.0)@.len() == mid,
        final(ret.1)@.len() == old(s)@.len() - mid,
        final(s)@ == final(ret.0)@ + final(ret.1)@,
{
    s.split_at_mut(mid)
}

/// A buffer that grows as needed.
pub struct DynamicBuffer<T> {
    mem: Vec<T>,
}

impl<T: Copy + Default> DynamicBuffer<T> {
    /// An empty buffer with room for 64 elements before it reallocates.
    pub fn new() -> (b: Self)
        ensures
            b.wf(),
            b.contents() == Seq::<T>::empty(),
            b.capacity() == usize::MAX,
    {
        Self::new_with_capacity(64)
    }

    /// An empty buffer with room for `cap` elements before it reallocates.
    pub fn new_with_capacity(cap: usize) -> (b: Self)
        ensures
            b.wf(),
            b.contents() == Seq::<T>::empty(),
            b.capacity() == usize::MAX,
    {
        DynamicBuffer { mem: Vec::with_capacity(cap) }
    }
}

impl<T: Copy + Default> Buffer<T> for DynamicBuffer<T> {
    type Element = T;

    closed spec fn contents(&self) -> Seq<T> {
        self.mem@
    }

    open spec fn capacity(&self) -> nat {
        usize::MAX as nat
    }

    open spec fn wf(&self) -> bool {
        true
    }

    fn len(&self) -> (n: usize) {
        self.mem.len()
    }

    /// The new elements hold `T::default()`.
    fn alloc_elements(&mut self, count: usize) -> (s: &mut [T])
        ensures
            forall|i: int| 0 <= i < count ==> call_ensures(T::default, (), #[trigger] s@[i]),
    {
        let start_idx = self.mem.len();
        let mut k: usize = 0;
        while k < count
            invariant
                k <= count,
                start_idx + count <= usize::MAX,
                self.mem@.len() == start_idx + k,
                self.mem@.subrange(0, start_idx as int) == old(self).mem@,
                forall|i: int|
                    start_idx <= i < start_idx + k ==> call_ensures(T::default, (), #[trigger] self.mem@[i]),
            decreases count - k,
        {
            let d = T::default();
            self.mem.push(d);
            k = k + 1;
        }
        let sl = self.mem.as_mut_slice();
        let parts = split_slice_mut(sl, start_idx);
        proof {
            assert(has_resolved(parts.0));
        }
        parts.1
    }

    fn clear(&mut self) {
        self.mem.clear()
    }

    fn elements(&self) -> (s: &[T]) {
        self.mem.as_slice()
    }

    fn elements_mut(&mut self) -> (s: &mut [T]) {
        let n = self.mem.len();
        let sl = self.mem.as_mut_slice();
        let parts = split_slice_mut(sl, n);
        proof {
            assert(has_resolved(parts.1));
        }
        parts.0
    }

    fn push(&mut self, e: T) {
        self.mem.push(e)
    }
}

/// A buffer over storage of a fixed size, filled from its start. The
/// storage is borrowed: what is written into the buffer lands in it. The
/// buffer's methods need `len` to stay within the storage (`wf`).
pub struct FixedBuffer<'a, T> {
    /// The borrowed storage.
    pub mem: &'a mut [T],
    /// How many elements, from the start of the storage, are in use.
    pub len: usize,
}

impl<'a, T: Copy> FixedBuffer<'a, T> {
    /// An empty buffer that fills `storage`. Once the buffer is done with,
    /// `storage` holds what the buffer's storage held last.
    pub fn new(storage: &'a mut [T]) -> (b: Self)
        ensures
            b.wf(),
            b.contents() == Seq::<T>::empty(),
            b.capacity() == old(storage)@.len(),
            b.storage_view() == old(storage)@,
            final(storage)@ == final(b.mem)@,
    {
        FixedBuffer { mem: storage, len: 0 }
    }

    /// An empty buffer that fills `s`, as `new` does.
    pub fn from_slice(s: &'a mut [T]) -> (b: Self)
        ensures
            b.wf(),
            b.contents() == Seq::<T>::empty(),
            b.capacity() == old(s)@.len(),
            b.storage_view() == old(s)@,
            final(s)@ == final(b.mem)@,
    {
        Self::new(s)
    }

    /// The whole storage: the elements, then what lies beyond them.
    pub open spec fn storage_view(&self) -> Seq<T> {
        self.mem@
    }

    /// The whole storage.
    pub fn storage(&self) -> (s: &[T])
        ensures
            s@ == self.storage_view(),
    {
        self.mem
    }
}

impl<'a, T: Copy> Buffer<T> for FixedBuffer<'a, T> {
    type Element = T;

    open spec fn contents(&self) -> Seq<T> {
        self.mem@.subrange(0, self.len as int)
    }

    open spec fn capacity(&self) -> nat {
        self.mem@.len()
    }

    open spec fn wf(&self) -> bool {
        self.len <= self.mem@.len()
    }

    fn len(&self) -> (n: usize) {
        self.len
    }

    /// The new elements are what the storage held at their places.
    fn alloc_elements(&mut self, count: usize) -> (s: &mut [T])
        ensures
            s@ == old(self).storage_view().subrange(
                old(self).contents().len() as int,
                old(self).contents().len() + count,
            ),
            final(self).storage_view() == final(self).contents() + old(self).storage_view().subrange(
                old(self).contents().len() + count,
                old(self).storage_view().len() as int,
            ),
            final(final(self).mem)@ == final(old(self).mem)@,
    {
        let start_idx = self.len;
        let storage_len = self.mem.len();
        assert(start_idx + count <= storage_len);
        self.len = self.len + count;
        let end_idx = self.len;
        let parts = split_slice_mut(&mut *self.mem, end_idx);
        proof {
            assert(has_resolved(parts.1));
        }
        let parts2 = split_slice_mut(parts.0, start_idx);
        proof {
            assert(has_resolved(parts2.0));
        }
        parts2.1
    }

    /// The storage keeps what it holds.
    fn clear(&mut self)
        ensures
            final(self).storage_view() == old(self).storage_view(),
            final(final(self).mem)@ == final(old(self).mem)@,
    {
        self.len = 0;
    }

    fn elements(&self) -> (s: &[T]) {
        let parts = self.mem.split_at(self.len);
        parts.0
    }

    fn elements_mut(&mut self) -> (s: &mut [T])
        ensures
            final(self).storage_view() == final(self).contents() + old(self).storage_view().subrange(
                old(self).contents().len() as int,
                old(self).storage_view().len() as int,
            ),
            final(final(self).mem)@ == final(old(self).mem)@,
    {
        let n = self.len;
        let parts = split_slice_mut(&mut *self.mem, n);
        proof {
            assert(has_resolved(parts.1));
        }
        parts.0
    }

    /// The element goes into the storage, right after the elements.
    fn push(&mut self, e: T)
        ensures
            final(self).storage_view() == old(self).storage_view().update(old(self).contents().len() as int, e),
            final(final(self).mem)@ == final(old(self).mem)@,
    {
        let n = self.len;
        let storage_len = self.mem.len();
        assert(n < storage_len);
        self.mem[n] = e;
        self.len = n + 1;
        assert(self.mem@.subrange(0, self.len as int) =~= old(self).mem@.subrange(0, n as int).push(e));
    }
}

} // verus!
