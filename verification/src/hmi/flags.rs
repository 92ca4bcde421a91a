use vstd::prelude::*;

verus! {

/// An enum whose variants are single bits that can be combined in a
/// `BitFlags` set.
pub trait Flag: Copy {
    /// The bit (or bits) of the variant.
    spec fn spec_bits(self) -> u32;

    fn bits(self) -> (b: u32)
        ensures
            b == self.spec_bits(),
    ;
}

/// A set of flags of the enum `T`, held as the union of their bits.
#[derive(Debug)]
pub struct BitFlags<T> {
    bits: u32,
    marker: core::marker::PhantomData<T>,
}

impl<T> Clone for BitFlags<T> {
    fn clone(&self) -> (r: Self)
        ensures
            r == *self,
    {
        *self
    }
}

impl<T> Copy for BitFlags<T> {
}

impl<T> PartialEq for BitFlags<T> {
    fn eq(&self, other: &Self) -> (r: bool) {
        self.bits == other.bits
    }
}

impl<T> vstd::std_specs::cmp::PartialEqSpecImpl for BitFlags<T> {
    open spec fn obeys_eq_spec() -> bool {
        true
    }

    open spec fn eq_spec(&self, other: &Self) -> bool {
        self.view_bits() == other.view_bits()
    }
}

impl<T> BitFlags<T> {
    /// The bits of the set.
    pub closed spec fn view_bits(&self) -> u32 {
        self.bits
    }

    /// The set holding `bits`.
    pub closed spec fn spec_from_bits(bits: u32) -> Self {
        BitFlags { bits, marker: core::marker::PhantomData }
    }
}

/// A set built from bits holds those bits.
pub broadcast proof fn lemma_from_bits_view<T>(bits: u32)
    ensures
        #[trigger] BitFlags::<T>::spec_from_bits(bits).view_bits() == bits,
{
}

/// A set is determined by its bits.
pub broadcast proof fn lemma_view_from_bits<T>(b: BitFlags<T>)
    ensures
        #[trigger] BitFlags::<T>::spec_from_bits(b.view_bits()) == b,
{
}

pub broadcast group group_bit_flags {
    lemma_from_bits_view,
    lemma_view_from_bits,
}

impl<T: Flag> BitFlags<T> {
    /// The set with no flag.
    pub fn empty() -> (s: Self)
        ensures
            s.view_bits() == 0,
    {
        BitFlags { bits: 0, marker: core::marker::PhantomData }
    }

    /// The set holding the given bits, those of no variant included.
    pub fn from_bits_unchecked(bits: u32) -> (s: Self)
        ensures
            s.view_bits() == bits,
    {
        BitFlags { bits, marker: core::marker::PhantomData }
    }

    /// The set holding one flag.
    pub fn from_flag(f: T) -> (s: Self)
        ensures
            s.view_bits() == f.spec_bits(),
    {
        BitFlags { bits: f.bits(), marker: core::marker::PhantomData }
    }

    pub fn bits(&self) -> (b: u32)
        ensures
            b == self.view_bits(),
    {
        self.bits
    }

    pub fn is_empty(&self) -> (b: bool)
        ensures
            b == (self.view_bits() == 0),
    {
        self.bits == 0
    }

    /// The flags of both sets.
    pub fn union(self, other: Self) -> (s: Self)
        ensures
            s.view_bits() == self.view_bits() | other.view_bits(),
    {
        BitFlags { bits: self.bits | other.bits, marker: core::marker::PhantomData }
    }

    /// The set with one more flag.
    pub fn with(self, f: T) -> (s: Self)
        ensures
            s.view_bits() == self.view_bits() | f.spec_bits(),
    {
        BitFlags { bits: self.bits | f.bits(), marker: core::marker::PhantomData }
    }

    /// Every flag of `other` is in the set.
    pub fn contains(&self, other: Self) -> (b: bool)
        ensures
            b == (self.view_bits() & other.view_bits() == other.view_bits()),
    {
        self.bits & other.bits == other.bits
    }

    /// Some flag of `other` is in the set.
    pub fn intersects(&self, other: Self) -> (b: bool)
        ensures
            b == (self.view_bits() & other.view_bits() != 0),
    {
        self.bits & other.bits != 0
    }

    /// Adds the flags of `other`.
    pub fn insert(&mut self, other: Self)
        ensures
            final(self).view_bits() == old(self).view_bits() | other.view_bits(),
    {
        self.bits = self.bits | other.bits;
    }

    /// Removes the flags of `other`.
    pub fn remove(&mut self, other: Self)
        ensures
            final(self).view_bits() == old(self).view_bits() & !other.view_bits(),
    {
        self.bits = self.bits & !other.bits;
    }
}

/// After inserting flags the set contains them.
pub proof fn lemma_insert_then_contains(s: u32, o: u32)
    ensures
        (s | o) & o == o,
{
    assert((s | o) & o == o) by (bit_vector);
}

/// After removing flags the set shares none of them.
pub proof fn lemma_remove_then_disjoint(s: u32, o: u32)
    ensures
        (s & !o) & o == 0,
{
    assert((s & !o) & o == 0) by (bit_vector);
}

/// Removing flags leaves the others in place.
pub proof fn lemma_remove_keeps_others(s: u32, o: u32, p: u32)
    requires
        o & p == 0,
    ensures
        ((s & !o) & p) == (s & p),
{
    assert(((s & !o) & p) == (s & p)) by (bit_vector)
        requires
            o & p == 0,
    ;
}

/// Inserting flags leaves the others in place.
pub proof fn lemma_insert_keeps_others(s: u32, o: u32, p: u32)
    requires
        o & p == 0,
    ensures
        ((s | o) & p) == (s & p),
{
    assert(((s | o) & p) == (s & p)) by (bit_vector)
        requires
            o & p == 0,
    ;
}

} // verus!
