//! One word of packet identifiers: bit `i` of the bitmap is set while
//! identifier `i` is in use. A word holds `usize::BITS` identifiers.
use vstd::prelude::*;

verus! {

/// Whether bit `i` of `bitmap` is set.
pub open spec fn bit_set(bitmap: usize, i: usize) -> bool {
    (bitmap >> i) & 1usize == 1usize
}

/// Whether every bit of `bitmap` is set.
pub open spec fn full(bitmap: usize) -> bool {
    forall|j: usize| j < usize::BITS ==> bit_set(bitmap, j)
}

/// `bitmap` with bit `i` set.
pub open spec fn with_bit(bitmap: usize, i: usize) -> usize {
    bitmap | (1usize << i)
}

/// `bitmap` with bit `i` cleared.
pub open spec fn without_bit(bitmap: usize, i: usize) -> usize {
    bitmap & !(1usize << i)
}

/// The mask of the bits below `i`.
spec fn low_mask(i: u32) -> usize {
    if i >= usize::BITS {
        !0usize
    } else {
        ((1usize << i) - 1usize) as usize
    }
}

proof fn lemma_low_mask_zero()
    ensures
        low_mask(0) == 0usize,
{
    assert(((1usize << 0u32) - 1usize) as usize == 0usize) by (bit_vector);
}

proof fn lemma_low_mask_step(b: usize, i: u32)
    requires
        i < usize::BITS,
        b & low_mask(i) == low_mask(i),
        (b >> i) & 1usize == 1usize,
    ensures
        b & low_mask((i + 1) as u32) == low_mask((i + 1) as u32),
{
    let m = low_mask(i);
    let i1 = (i + 1) as u32;
    let n = low_mask(i1);
    assert(n == m | (1usize << i)) by (bit_vector)
        requires
            i < usize::BITS,
            i1 == i + 1,
            m == ((1usize << i) - 1usize) as usize,
            n == (if i1 >= usize::BITS {
                !0usize
            } else {
                ((1usize << i1) - 1usize) as usize
            }),
    ;
    assert(b & n == n) by (bit_vector)
        requires
            i < usize::BITS,
            b & m == m,
            (b >> i) & 1usize == 1usize,
            n == m | (1usize << i),
    ;
}

proof fn lemma_low_mask_below(b: usize, i: u32, j: usize)
    requires
        i <= usize::BITS,
        j < i,
        b & low_mask(i) == low_mask(i),
    ensures
        bit_set(b, j),
{
    let m = low_mask(i);
    if i == usize::BITS {
        assert(b & !0usize == !0usize ==> (j < usize::BITS ==> (b >> j) & 1usize == 1usize))
            by (bit_vector);
    } else {
        assert((b >> j) & 1usize == 1usize) by (bit_vector)
            requires
                i < usize::BITS,
                j < i,
                m == ((1usize << i) - 1usize) as usize,
                b & m == m,
        ;
    }
}

/// Setting a clear bit changes that bit only: it is now set, and every other
/// bit is as before.
pub proof fn lemma_with_bit(b: usize, i: usize, j: usize)
    requires
        i < usize::BITS,
        j < usize::BITS,
    ensures
        bit_set(with_bit(b, i), j) == (j == i || bit_set(b, j)),
{
    assert(((b | (1usize << i)) >> j) & 1usize == 1usize <==> (j == i || (b >> j) & 1usize == 1usize))
        by (bit_vector)
        requires
            i < usize::BITS,
            j < usize::BITS,
    ;
}

/// Clearing a bit changes that bit only: it is now clear, and every other
/// bit is as before.
pub proof fn lemma_without_bit(b: usize, i: usize, j: usize)
    requires
        i < usize::BITS,
        j < usize::BITS,
    ensures
        bit_set(without_bit(b, i), j) == (j != i && bit_set(b, j)),
{
    assert(((b & !(1usize << i)) >> j) & 1usize == 1usize <==> (j != i && (b >> j) & 1usize == 1usize))
        by (bit_vector)
        requires
            i < usize::BITS,
            j < usize::BITS,
    ;
}

/// Releasing an identifier that was just allocated gives back the bitmap from
/// before the allocation.
pub proof fn lemma_release_undoes_allocate(b: usize, i: usize)
    requires
        i < usize::BITS,
        !bit_set(b, i),
    ensures
        without_bit(with_bit(b, i), i) == b,
{
    assert((b | (1usize << i)) & !(1usize << i) == b) by (bit_vector)
        requires
            i < usize::BITS,
            (b >> i) & 1usize != 1usize,
    ;
}

/// A word of `usize::BITS` packet identifiers.
#[derive(Debug)]
pub struct PacketIdShard(pub usize);

impl PacketIdShard {
    /// A word with every identifier free.
    pub fn new() -> (r: Self)
        ensures
            r.0 == 0,
    {
        PacketIdShard(0)
    }

    /// Marks the lowest free identifier of the word as in use and returns it;
    /// `None` when all are in use (the word is left as it was).
    pub fn allocate(&mut self) -> (r: Option<u16>)
        ensures
            match r {
                Some(id) => {
                    &&& id < usize::BITS
                    &&& !bit_set(old(self).0, id as usize)
                    &&& forall|j: usize| j < id ==> bit_set(old(self).0, j)
                    &&& final(self).0 == with_bit(old(self).0, id as usize)
                },
                None => {
                    &&& full(old(self).0)
                    &&& final(self).0 == old(self).0
                },
            },
    {
        let bitmap = self.0;
        let mut i: u32 = 0;
        proof {
            lemma_low_mask_zero();
            assert(bitmap & 0usize == 0usize) by (bit_vector);
        }
        while i < usize::BITS
            invariant
                i <= usize::BITS,
                bitmap == self.0,
                self.0 == old(self).0,
                bitmap & low_mask(i) == low_mask(i),
            decreases usize::BITS - i,
        {
            if (bitmap >> i) & 1usize == 0 {
                let id = i as u16;
                proof {
                    assert forall|j: usize| j < id implies bit_set(old(self).0, j) by {
                        lemma_low_mask_below(bitmap, i, j);
                    }
                }
                self.0 = bitmap | (1usize << i);
                return Some(id);
            }
            proof {
                assert((bitmap >> i) & 1usize == 1usize) by (bit_vector)
                    requires
                        (bitmap >> i) & 1usize != 0usize,
                ;
                lemma_low_mask_step(bitmap, i);
            }
            i = i + 1;
        }
        proof {
            assert forall|j: usize| j < usize::BITS implies bit_set(old(self).0, j) by {
                lemma_low_mask_below(bitmap, i, j);
            }
        }
        None
    }

    /// Marks identifier `id` of the word as free again. Shifting by `id` panics
    /// when `id` is not below `usize::BITS`, which `requires` leaves out.
    pub fn release(&mut self, id: u16)
        requires
            id < usize::BITS,
        ensures
            final(self).0 == without_bit(old(self).0, id as usize),
    {
        self.0 = self.0 & !(1usize << id);
    }
}

} // verus!
