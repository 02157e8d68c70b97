//! Packet identifiers for the exchanges that the client starts: a bitmap of
//! the identifiers in use, one word (shard) of `usize::BITS` identifiers after
//! another. Identifier `k * usize::BITS + b` is bit `b` of shard `k`.
use vstd::prelude::*;

pub mod shard;

use shard::{
    bit_set, full, lemma_release_undoes_allocate, lemma_with_bit, lemma_without_bit, with_bit, without_bit,
    PacketIdShard,
};

verus! {

/// The number of identifiers in one shard.
pub open spec fn spec_bits() -> nat {
    usize::BITS as nat
}

/// The number of shards that `max_packets` identifiers take: rounded up.
pub open spec fn shard_count(max_packets: nat) -> nat {
    ((max_packets + spec_bits() - 1) / (spec_bits() as int)) as nat
}

/// The shard that an identifier belongs to, and its bit there.
pub open spec fn shard_of(id: nat) -> int {
    id as int / spec_bits() as int
}

pub open spec fn bit_of(id: nat) -> int {
    id as int % spec_bits() as int
}

/// The bitmaps after `id` is released: its bit cleared, when it lies in a shard.
pub open spec fn released(s: Seq<usize>, id: u16) -> Seq<usize> {
    if shard_of(id as nat) < s.len() {
        s.update(shard_of(id as nat), without_bit(s[shard_of(id as nat)], bit_of(id as nat) as usize))
    } else {
        s
    }
}

/// The identifiers that `allocate` hands out, as a set of shards, and how
/// many identifiers may be in use at once.
#[derive(Debug)]
pub struct PacketIdManager {
    shards: Vec<PacketIdShard>,
    max_packets: u16,
}

/// Whether every identifier in use on the bitmaps `s` is below `m`: then at
/// most `m` identifiers are in use.
pub open spec fn in_use_below(s: Seq<usize>, m: nat) -> bool {
    forall|k: int, b: usize|
        #![trigger bit_set(s[k], b)]
        0 <= k < s.len() && b < usize::BITS && bit_set(s[k], b) ==> k * spec_bits() + b < m
}

impl View for PacketIdManager {
    type V = Seq<usize>;

    /// The bitmap of each shard, first to last.
    closed spec fn view(&self) -> Seq<usize> {
        self.shards@.map_values(|s: PacketIdShard| s.0)
    }
}

/// What allocating gives on the bitmaps `s`: the first shard that is not full,
/// and its lowest clear bit; the identifier is `k * usize::BITS + b`.
pub open spec fn allocated_at(s: Seq<usize>, k: int, b: usize) -> bool {
    &&& 0 <= k < s.len()
    &&& b < usize::BITS
    &&& forall|j: int| 0 <= j < k ==> full(s[j])
    &&& !bit_set(s[k], b)
    &&& forall|c: usize| c < b ==> bit_set(s[k], c)
}

/// What allocating on the bitmaps `s`, with at most `m` identifiers in use,
/// gives, `r` with the bitmaps `t` after: the first free identifier (of the
/// first shard that is not full, its lowest clear bit), marked as in use,
/// when it is below `m`; else `None`, with nothing changed.
pub open spec fn allocation(s: Seq<usize>, m: nat, r: Option<u16>, t: Seq<usize>) -> bool {
    match r {
        Some(id) => exists|k: int, b: usize|
            #![trigger allocated_at(s, k, b)]
            {
                &&& allocated_at(s, k, b)
                &&& id == k * spec_bits() + b
                &&& id < m
                &&& t == s.update(k, with_bit(s[k], b))
            },
        None => {
            &&& forall|k: int, b: usize| #[trigger] allocated_at(s, k, b) ==> k * spec_bits() + b >= m
            &&& t == s
        },
    }
}

impl PacketIdManager {
    /// How many identifiers may be in use at once.
    pub closed spec fn max_packets(&self) -> u16 {
        self.max_packets
    }

    /// Every identifier fits a `u16`, and every one in use is below `max_packets`.
    pub closed spec fn wf(&self) -> bool {
        &&& self.shards.len() * spec_bits() <= 65536
        &&& in_use_below(self@, self.max_packets as nat)
    }

    /// A well-formed manager has at most 65536 identifiers in all, and every
    /// identifier in use is below `max_packets`: at most `max_packets` are in use.
    pub proof fn lemma_wf_bound(&self)
        requires
            self.wf(),
        ensures
            self@.len() * spec_bits() <= 65536,
            in_use_below(self@, self.max_packets() as nat),
    {
    }

    /// A manager for `max_packets` identifiers: enough shards to hold them,
    /// every identifier free.
    pub fn new(max_packets: u16) -> (r: Self)
        ensures
            r.wf(),
            r.max_packets() == max_packets,
            r@.len() == shard_count(max_packets as nat),
            forall|k: int| 0 <= k < r@.len() ==> r@[k] == 0,
    {
        let bits: usize = usize::BITS as usize;
        let num_shards: usize = (max_packets as usize + bits - 1) / bits;
        proof {
            assert(usize::BITS == 32 || usize::BITS == 64);
            assert(num_shards * bits <= 65536) by (nonlinear_arith)
                requires
                    bits == 32 || bits == 64,
                    max_packets <= 65535,
                    num_shards == (max_packets + bits - 1) / (bits as int),
            ;
        }
        let mut shards: Vec<PacketIdShard> = Vec::new();
        let mut i: usize = 0;
        while i < num_shards
            invariant
                i <= num_shards,
                shards.len() == i,
                forall|k: int| 0 <= k < i ==> shards@[k].0 == 0,
            decreases num_shards - i,
        {
            shards.push(PacketIdShard::new());
            i = i + 1;
        }
        let r = PacketIdManager { shards, max_packets };
        assert(r@.len() == shards.len());
        assert forall|k: int, b: usize| 0 <= k < r@.len() && b < usize::BITS && bit_set(r@[k], b) implies k
            * spec_bits() + b < max_packets by {
            assert(r@[k] == 0);
            assert(((0usize >> b) & 1usize) == 0usize) by (bit_vector)
                requires
                    b < usize::BITS,
            ;
        }
        r
    }

    /// Takes the lowest free identifier of the first shard that has one, and
    /// marks it as in use; `None` (nothing changed) when that identifier is not
    /// below `max_packets`, or every shard is full: then `max_packets`
    /// identifiers are in use already.
    pub fn allocate(&mut self) -> (r: Option<u16>)
        requires
            old(self).wf(),
        ensures
            final(self).wf(),
            final(self).max_packets() == old(self).max_packets(),
            allocation(old(self)@, old(self).max_packets() as nat, r, final(self)@),
    {
        let bits: usize = usize::BITS as usize;
        let n = self.shards.len();
        let mut k: usize = 0;
        while k < n
            invariant
                k <= n,
                bits == usize::BITS,
                n == self.shards.len(),
                self.shards@ == old(self).shards@,
                self.max_packets == old(self).max_packets,
                self.wf(),
                forall|j: int| 0 <= j < k ==> full(#[trigger] self@[j]),
            decreases n - k,
        {
            let mut shard = PacketIdShard(self.shards[k].0);
            match shard.allocate() {
                Some(b) => {
                    let ghost old_view = self@;
                    proof {
                        assert(old_view[k as int] == self.shards@[k as int].0);
                        assert(usize::BITS == 32 || usize::BITS == 64);
                        assert(bits as int == usize::BITS as int);
                        assert(self.shards.len() * spec_bits() <= 65536);
                        assert(k * bits + b < 65536) by (nonlinear_arith)
                            requires
                                k < n,
                                n * bits <= 65536,
                                b < bits,
                        ;
                    }
                    let id: usize = k * bits + b as usize;
                    if id >= self.max_packets as usize {
                        proof {
                            assert(allocated_at(old(self)@, k as int, b as usize));
                            assert forall|k2: int, b2: usize| #[trigger] allocated_at(old(self)@, k2, b2) implies k2
                                * spec_bits() + b2 >= self.max_packets by {
                                lemma_first_free_unique(old(self)@, k as int, b as usize, k2, b2);
                            }
                        }
                        return None;
                    }
                    self.shards.set(k, shard);
                    proof {
                        assert(self@ =~= old_view.update(k as int, with_bit(old_view[k as int], b as usize)));
                        assert(allocated_at(old(self)@, k as int, b as usize));
                        lemma_allocate_keeps_below(old_view, self.max_packets as nat, k as int, b as usize);
                    }
                    return Some(id as u16);
                },
                None => {},
            }
            k = k + 1;
        }
        assert(self@ == old(self)@);
        proof {
            assert forall|k2: int, b2: usize| #[trigger] allocated_at(old(self)@, k2, b2) implies k2 * spec_bits()
                + b2 >= self.max_packets by {
                assert(full(self@[k2]));
                assert(bit_set(self@[k2], b2));
            }
        }
        None
    }

    /// Marks `id` as free again. An identifier beyond the last shard changes nothing.
    pub fn release(&mut self, id: u16)
        requires
            old(self).wf(),
        ensures
            final(self).wf(),
            final(self).max_packets() == old(self).max_packets(),
            final(self)@ == released(old(self)@, id),
    {
        let bits: usize = usize::BITS as usize;
        let k: usize = id as usize / bits;
        let b: usize = id as usize % bits;
        if k < self.shards.len() {
            let ghost old_view = self@;
            let mut shard = PacketIdShard(self.shards[k].0);
            shard.release(b as u16);
            self.shards.set(k, shard);
            assert(self@ =~= old_view.update(k as int, without_bit(old_view[k as int], b)));
            proof {
                assert(usize::BITS == 32 || usize::BITS == 64);
                lemma_release_keeps_below(old_view, self.max_packets as nat, k as int, b);
            }
        }
    }

    /// Whether `id` is in use.
    pub fn is_occupied(&self, id: u16) -> (r: bool)
        ensures
            r == (shard_of(id as nat) < self@.len() && bit_set(
                self@[shard_of(id as nat)],
                bit_of(id as nat) as usize,
            )),
    {
        let bits: usize = usize::BITS as usize;
        let k: usize = id as usize / bits;
        let b: usize = id as usize % bits;
        if k < self.shards.len() {
            (self.shards[k].0 >> b) & 1usize == 1usize
        } else {
            false
        }
    }
}

proof fn lemma_first_free_unique(s: Seq<usize>, k: int, b: usize, k2: int, b2: usize)
    requires
        allocated_at(s, k, b),
        allocated_at(s, k2, b2),
    ensures
        k == k2 && b == b2,
{
    if k2 < k {
        assert(full(s[k2]));
        assert(bit_set(s[k2], b2));
    } else if k < k2 {
        assert(full(s[k]));
        assert(bit_set(s[k], b));
    } else if b2 < b {
        assert(bit_set(s[k], b2));
    } else if b < b2 {
        assert(bit_set(s[k2], b));
    }
}

proof fn lemma_allocate_keeps_below(s: Seq<usize>, m: nat, k: int, b: usize)
    requires
        in_use_below(s, m),
        allocated_at(s, k, b),
        k * spec_bits() + b < m,
    ensures
        in_use_below(s.update(k, with_bit(s[k], b)), m),
{
    let t = s.update(k, with_bit(s[k], b));
    assert forall|k2: int, b2: usize| 0 <= k2 < t.len() && b2 < usize::BITS && bit_set(t[k2], b2) implies k2
        * spec_bits() + b2 < m by {
        if k2 == k {
            lemma_with_bit(s[k], b, b2);
            if b2 != b {
                assert(bit_set(s[k2], b2));
            }
        } else {
            assert(bit_set(s[k2], b2));
        }
    }
}

proof fn lemma_release_keeps_below(s: Seq<usize>, m: nat, k: int, b: usize)
    requires
        in_use_below(s, m),
        0 <= k < s.len(),
        b < usize::BITS,
    ensures
        in_use_below(s.update(k, without_bit(s[k], b)), m),
{
    let t = s.update(k, without_bit(s[k], b));
    assert forall|k2: int, b2: usize| 0 <= k2 < t.len() && b2 < usize::BITS && bit_set(t[k2], b2) implies k2
        * spec_bits() + b2 < m by {
        if k2 == k {
            lemma_without_bit(s[k], b, b2);
        }
        assert(bit_set(s[k2], b2));
    }
}

/// Releasing the identifier that `allocate` just handed out gives back the
/// bitmaps from before the allocation.
pub proof fn lemma_release_after_allocate(s: Seq<usize>, k: int, b: usize)
    requires
        s.len() * spec_bits() <= 65536,
        allocated_at(s, k, b),
    ensures
        k * spec_bits() + b <= u16::MAX,
        released(s.update(k, with_bit(s[k], b)), (k * spec_bits() + b) as u16) == s,
{
    let id = k * spec_bits() + b;
    assert(spec_bits() > 0);
    assert(id < 65536) by (nonlinear_arith)
        requires
            id == k * spec_bits() + b,
            0 <= k < s.len(),
            b < spec_bits(),
            s.len() * spec_bits() <= 65536,
    ;
    vstd::arithmetic::div_mod::lemma_fundamental_div_mod_converse(
        id,
        spec_bits() as int,
        k,
        b as int,
    );
    lemma_release_undoes_allocate(s[k], b);
    assert(s.update(k, with_bit(s[k], b)).update(k, without_bit(with_bit(s[k], b), b)) =~= s);
    assert(shard_of(id as nat) == k);
    assert(bit_of(id as nat) == b);
}

/// Whether identifier `id` is in use on the bitmaps `s`.
pub open spec fn id_in_use(s: Seq<usize>, id: nat) -> bool {
    shard_of(id) < s.len() && bit_set(s[shard_of(id)], bit_of(id) as usize)
}

/// `allocate` hands out the lowest free identifier: it is below the limit,
/// it was free, every identifier below it was in use, and afterwards it is
/// in use and every other identifier is as before.
pub proof fn lemma_allocation_lowest(s: Seq<usize>, m: nat, id: u16, t: Seq<usize>)
    requires
        s.len() * spec_bits() <= 65536,
        allocation(s, m, Some(id), t),
    ensures
        id < m,
        !id_in_use(s, id as nat),
        forall|j: nat| j < id ==> #[trigger] id_in_use(s, j),
        id_in_use(t, id as nat),
        forall|j: nat| j != id ==> (#[trigger] id_in_use(t, j) <==> id_in_use(s, j)),
        t.len() == s.len(),
{
    let (k, b) = choose|k: int, b: usize|
        {
            &&& allocated_at(s, k, b)
            &&& id == k * spec_bits() + b
            &&& id < m
            &&& t == s.update(k, with_bit(s[k], b))
        };
    let bits = spec_bits() as int;
    assert(usize::BITS == 32 || usize::BITS == 64);
    vstd::arithmetic::div_mod::lemma_fundamental_div_mod_converse(id as int, bits, k, b as int);
    assert(shard_of(id as nat) == k);
    assert(bit_of(id as nat) == b);
    lemma_with_bit(s[k], b, b);
    assert forall|j: nat| j < id implies #[trigger] id_in_use(s, j) by {
        let kj = shard_of(j);
        let bj = bit_of(j);
        vstd::arithmetic::div_mod::lemma_fundamental_div_mod(j as int, bits);
        assert(0 <= bj < bits);
        assert(kj <= k) by (nonlinear_arith)
            requires
                j == bits * kj + bj,
                id == k * bits + b,
                j < id,
                0 <= bj < bits,
                0 <= b < bits,
                bits > 0,
        ;
        assert(kj >= 0) by (nonlinear_arith)
            requires
                j == bits * kj + bj,
                0 <= bj < bits,
                bits > 0,
                j >= 0,
        ;
        if kj < k {
            assert(full(s[kj]));
            assert(bit_set(s[kj], bj as usize));
        } else {
            assert(bj < b) by (nonlinear_arith)
                requires
                    j == bits * kj + bj,
                    id == k * bits + b,
                    j < id,
                    kj == k,
            ;
            assert(bit_set(s[k], bj as usize));
        }
    }
    assert forall|j: nat| j != id implies (#[trigger] id_in_use(t, j) <==> id_in_use(s, j)) by {
        let kj = shard_of(j);
        let bj = bit_of(j);
        vstd::arithmetic::div_mod::lemma_fundamental_div_mod(j as int, bits);
        if kj == k {
            assert(bj != b) by {
                if bj == b {
                    assert(j == bits * k + b);
                    assert(id == k * bits + b);
                    assert(bits * k == k * bits) by (nonlinear_arith);
                }
            }
            lemma_with_bit(s[k], b, bj as usize);
        }
    }
}

} // verus!
