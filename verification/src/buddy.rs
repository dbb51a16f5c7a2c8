//! A buddy-system allocator over `capacity` units that keeps one bit per
//! unit: a request is rounded up to the least power of two that covers both
//! its size and its alignment, and is granted the lowest block of that size
//! which starts on a multiple of the block size and whose units are all
//! free. Freeing a block clears its bits, so two free buddies form a free
//! block of twice the size again.
use vstd::prelude::*;

verus! {

// ---------------------------------------------------------------------
// Powers of two
// ---------------------------------------------------------------------

/// `p` is a power of two.
pub open spec fn is_pow2(p: nat) -> bool
    decreases p,
{
    if p == 1 {
        true
    } else if p >= 2 && p % 2 == 0 {
        is_pow2(p / 2)
    } else {
        false
    }
}

/// The least power of two that is no less than `n` (and no less than 1).
pub open spec fn ceil_pow2(n: nat) -> nat
    decreases n,
{
    if n <= 1 {
        1
    } else {
        2 * ceil_pow2(((n + 1) / 2) as nat)
    }
}

/// The size of the block that serves a request of `size` units aligned to
/// `align`: the least power of two covering both.
pub open spec fn block_size(size: usize, align: usize) -> nat {
    ceil_pow2(if size >= align { size as nat } else { align as nat })
}

/// `ceil_pow2(n)` is a power of two no less than `n`.
pub proof fn lemma_ceil_pow2(n: nat)
    ensures
        is_pow2(ceil_pow2(n)),
        ceil_pow2(n) >= n,
        ceil_pow2(n) >= 1,
    decreases n,
{
    if n > 1 {
        lemma_ceil_pow2(((n + 1) / 2) as nat);
    }
}

/// A power of two `b` with `b >= n` whose half is below `n` is `ceil_pow2(n)`.
pub proof fn lemma_ceil_pow2_unique(b: nat, n: nat)
    requires
        is_pow2(b),
        b >= n,
        b == 1 || b / 2 < n,
    ensures
        b == ceil_pow2(n),
    decreases n,
{
    if n <= 1 {
        if b != 1 {
            assert(b >= 2);
        }
    } else {
        assert(b >= 2);
        let h = (b / 2) as nat;
        let m = ((n + 1) / 2) as nat;
        assert(b == 2 * h);
        assert(h >= m);
        assert(h == 1 || h / 2 < m);
        lemma_ceil_pow2_unique(h, m);
    }
}

/// A power of two divides every power of two that is no smaller.
pub proof fn lemma_pow2_divides(a: nat, b: nat)
    requires
        is_pow2(a),
        is_pow2(b),
        a <= b,
    ensures
        b % a == 0,
    decreases b,
{
    if a == b {
    } else if a == 1 {
    } else {
        assert(a >= 2 && b >= 2);
        let ha = (a / 2) as nat;
        let hb = (b / 2) as nat;
        lemma_pow2_divides(ha, hb);
        let q = hb / ha;
        assert(hb == ha * q) by (nonlinear_arith)
            requires
                hb % ha == 0,
                ha > 0,
                q == hb / ha,
        ;
        assert(b == a * q) by (nonlinear_arith)
            requires
                hb == ha * q,
                a == 2 * ha,
                b == 2 * hb,
        ;
        assert(b % a == 0) by (nonlinear_arith)
            requires
                b == a * q,
                a > 0,
        ;
    }
}

/// Between two distinct powers of two there is at least a factor of two.
pub proof fn lemma_pow2_gap(a: nat, b: nat)
    requires
        is_pow2(a),
        is_pow2(b),
        a < b,
    ensures
        2 * a <= b,
{
    lemma_pow2_divides(a, b);
    let q = b / a;
    assert(b == a * q) by (nonlinear_arith)
        requires
            b % a == 0,
            a > 0,
            q == b / a,
    ;
    assert(q >= 2) by (nonlinear_arith)
        requires
            b == a * q,
            a > 0,
            a < b,
    ;
    assert(2 * a <= b) by (nonlinear_arith)
        requires
            b == a * q,
            a > 0,
            q >= 2,
    ;
}

// ---------------------------------------------------------------------
// The abstract state: one flag per unit
// ---------------------------------------------------------------------

/// Bit `i` of a byte map, counting from the least significant bit of byte 0.
pub open spec fn bit_of(bytes: Seq<u8>, i: int) -> bool {
    (bytes[i / 8] >> ((i % 8) as u8)) & 1u8 == 1u8
}

/// The units `start .. start + block` form a block that a request of
/// `block` units may receive: it starts on a multiple of `block`, lies
/// inside the allocator, and none of its units is in use.
pub open spec fn slot_free(units: Seq<bool>, start: int, block: int) -> bool {
    &&& 0 <= start
    &&& 0 < block
    &&& start % block == 0
    &&& start + block <= units.len()
    &&& forall|i: int| start <= i < start + block ==> !units[i]
}

/// `units` with every flag in `start .. end` set to `value`.
pub open spec fn fill(units: Seq<bool>, start: int, end: int, value: bool) -> Seq<bool> {
    Seq::new(units.len(), |i: int| if start <= i < end { value } else { units[i] })
}

/// The block size for `size` and `align`, when it does not exceed `limit`.
fn block_size_within(size: usize, align: usize, limit: usize) -> (r: Option<usize>)
    ensures
        match r {
            Some(b) => b == block_size(size, align) && b <= limit,
            None => block_size(size, align) > limit,
        },
{
    let need = if size >= align { size } else { align };
    proof {
        lemma_ceil_pow2(need as nat);
    }
    assert(block_size(size, align) == ceil_pow2(need as nat));
    if limit == 0 {
        return None;
    }
    let mut block: usize = 1;
    while block < need
        invariant
            1 <= block <= limit,
            is_pow2(block as nat),
            block == 1 || block / 2 < need,
            is_pow2(ceil_pow2(need as nat)),
            ceil_pow2(need as nat) >= need,
            block_size(size, align) == ceil_pow2(need as nat),
        decreases limit - block,
    {
        if block > limit - block {
            proof {
                lemma_pow2_gap(block as nat, ceil_pow2(need as nat));
            }
            return None;
        }
        block = block * 2;
    }
    proof {
        lemma_ceil_pow2_unique(block as nat, need as nat);
    }
    Some(block)
}

proof fn lemma_next_block(s: int, b: int)
    by (nonlinear_arith)
    requires
        b > 0,
        s >= 0,
        s % b == 0,
    ensures
        (s + b) % b == 0,
{
}

proof fn lemma_mod_inside_block(s: int, t: int, b: int)
    by (nonlinear_arith)
    requires
        b > 0,
        s >= 0,
        s % b == 0,
        s < t < s + b,
    ensures
        t % b != 0,
{
}

/// A block starting on a multiple of `block_size(size, align)` covers the
/// request and honours a power-of-two alignment.
proof fn lemma_block_covers_request(size: usize, align: usize, s: nat)
    requires
        s % block_size(size, align) == 0,
    ensures
        size <= block_size(size, align),
        is_pow2(align as nat) ==> s % (align as nat) == 0,
{
    let need = if size >= align { size as nat } else { align as nat };
    let b = block_size(size, align);
    lemma_ceil_pow2(need);
    if is_pow2(align as nat) {
        lemma_pow2_divides(align as nat, b);
        let q = s / b;
        let r = b / (align as nat);
        assert(s == b * q) by (nonlinear_arith)
            requires
                s % b == 0,
                b > 0,
                q == s / b,
        ;
        assert(b == (align as nat) * r) by (nonlinear_arith)
            requires
                b % (align as nat) == 0,
                align > 0,
                r == b / (align as nat),
        ;
        assert(s == (align as nat) * (r * q)) by (nonlinear_arith)
            requires
                s == b * q,
                b == (align as nat) * r,
        ;
        assert(s % (align as nat) == 0) by (nonlinear_arith)
            requires
                s == (align as nat) * (r * q),
                align > 0,
        ;
    }
}

/// Simple implementation of a buddy-system allocator, one bit per unit.
pub struct BuddySystemAllocator {
    capacity: usize,
    bits: Vec<u8>,
}

impl View for BuddySystemAllocator {
    type V = Seq<bool>;

    /// Flag `i` tells whether unit `i` is in use.
    closed spec fn view(&self) -> Seq<bool> {
        Seq::new(self.capacity as nat, |i: int| bit_of(self.bits@, i))
    }
}

proof fn lemma_bit_update(byte: u8, k: u8, j: u8)
    by (bit_vector)
    requires
        k < 8,
        j < 8,
    ensures
        ((byte | (1u8 << k)) >> j) & 1u8 == (if j == k { 1u8 } else { (byte >> j) & 1u8 }),
        ((byte & !(1u8 << k)) >> j) & 1u8 == (if j == k { 0u8 } else { (byte >> j) & 1u8 }),
{
}

proof fn lemma_zero_byte(j: u8)
    by (bit_vector)
    requires
        j < 8,
    ensures
        (0u8 >> j) & 1u8 == 0u8,
{
}

impl BuddySystemAllocator {
    /// The byte map holds a bit for every unit.
    pub closed spec fn wf(&self) -> bool {
        self.capacity <= 8 * self.bits@.len()
    }

    /// Creates an allocator for `capacity` units, all of them free.
    pub fn new(capacity: usize) -> (r: Self)
        ensures
            r.wf(),
            r@ == Seq::new(capacity as nat, |i: int| false),
    {
        let n: usize = capacity / 8 + if capacity % 8 == 0 { 0 } else { 1 };
        let mut bits: Vec<u8> = Vec::new();
        let mut k: usize = 0;
        while k < n
            invariant
                k <= n,
                bits@.len() == k,
                forall|j: int| 0 <= j < k ==> bits@[j] == 0u8,
            decreases n - k,
        {
            bits.push(0u8);
            k = k + 1;
        }
        let r = BuddySystemAllocator { capacity, bits };
        assert forall|i: int| 0 <= i < capacity implies !bit_of(r.bits@, i) by {
            lemma_zero_byte((i % 8) as u8);
        }
        assert(r@ =~= Seq::new(capacity as nat, |i: int| false));
        r
    }

    /// The number of units managed.
    pub fn capacity(&self) -> (r: usize)
        ensures
            r == self@.len(),
    {
        self.capacity
    }

    /// Whether unit `i` is in use.
    pub fn is_used(&self, i: usize) -> (r: bool)
        requires
            self.wf(),
            i < self@.len(),
        ensures
            r == self@[i as int],
    {
        ((self.bits[i / 8] >> ((i % 8) as u8)) & 1u8) == 1u8
    }

    fn set_unit(&mut self, i: usize, value: bool)
        requires
            old(self).wf(),
            i < old(self)@.len(),
        ensures
            final(self).wf(),
            final(self)@ == old(self)@.update(i as int, value),
    {
        let ghost old_bits = self.bits@;
        let idx = i / 8;
        let k = (i % 8) as u8;
        let byte = self.bits[idx];
        let nb = if value { byte | (1u8 << k) } else { byte & !(1u8 << k) };
        self.bits.set(idx, nb);
        assert forall|u: int| 0 <= u < self.capacity implies bit_of(self.bits@, u) == (
        if u == i {
            value
        } else {
            bit_of(old_bits, u)
        }) by {
            if u / 8 == idx {
                lemma_bit_update(byte, k, (u % 8) as u8);
            }
        }
        assert(self@ =~= old(self)@.update(i as int, value));
    }

    /// Whether every unit of `start .. start + len` is free.
    fn range_free(&self, start: usize, len: usize) -> (r: bool)
        requires
            self.wf(),
            start + len <= self@.len(),
        ensures
            r == forall|i: int| start <= i < start + len ==> !self@[i],
    {
        let mut i = start;
        while i < start + len
            invariant
                self.wf(),
                start <= i <= start + len,
                start + len <= self@.len(),
                forall|j: int| start <= j < i ==> !self@[j],
            decreases start + len - i,
        {
            if self.is_used(i) {
                return false;
            }
            i = i + 1;
        }
        true
    }

    /// Sets the flag of every unit in `start .. end` to `value`.
    fn fill_range(&mut self, start: usize, end: usize, value: bool)
        requires
            old(self).wf(),
            end <= old(self)@.len(),
        ensures
            final(self).wf(),
            final(self)@ == fill(old(self)@, start as int, end as int, value),
    {
        let ghost orig = self@;
        let mut i = start;
        while i < end
            invariant
                self.wf(),
                end <= self@.len(),
                self@.len() == orig.len(),
                start <= end ==> start <= i <= end,
                start > end ==> i == start,
                forall|j: int| 0 <= j < orig.len() ==> self@[j] == (if start <= j < i { value } else { orig[j] }),
            decreases end - i,
        {
            self.set_unit(i, value);
            i = i + 1;
        }
        assert(self@ =~= fill(orig, start as int, end as int, value));
    }

    /// Hands out the lowest free block for `size` units aligned to `align`:
    /// the block has `block_size(size, align)` units, starts on a multiple
    /// of that size and lies inside the allocator. Its units become used.
    /// `None` when no such block is free; nothing changes then.
    pub fn allocate(&mut self, size: usize, align: usize) -> (r: Option<usize>)
        requires
            old(self).wf(),
        ensures
            final(self).wf(),
            final(self)@.len() == old(self)@.len(),
            match r {
                Some(s) => {
                    &&& slot_free(old(self)@, s as int, block_size(size, align) as int)
                    &&& forall|t: int|
                        0 <= t < s ==> !slot_free(old(self)@, t, block_size(size, align) as int)
                    &&& final(self)@ == fill(
                        old(self)@,
                        s as int,
                        s + block_size(size, align),
                        true,
                    )
                    &&& s + size <= old(self)@.len()
                    &&& is_pow2(align as nat) ==> s % align == 0
                },
                None => {
                    &&& forall|t: int| !slot_free(old(self)@, t, block_size(size, align) as int)
                    &&& final(self)@ == old(self)@
                },
            },
    {
        let ghost b = block_size(size, align);
        let ghost v = self@;
        proof {
            lemma_ceil_pow2(if size >= align { size as nat } else { align as nat });
        }
        let block = match block_size_within(size, align, self.capacity) {
            Some(block) => block,
            None => {
                assert forall|t: int| !slot_free(v, t, b as int) by {}
                return None;
            },
        };
        let mut s: usize = 0;
        while s <= self.capacity - block
            invariant
                self.wf(),
                self@ == v,
                v == old(self)@,
                b == block_size(size, align),
                block == b,
                1 <= block <= self.capacity,
                s % block == 0,
                forall|t: int| 0 <= t < s ==> !slot_free(v, t, b as int),
            decreases self.capacity - s,
        {
            if self.range_free(s, block) {
                self.fill_range(s, s + block, true);
                proof {
                    assert((s as nat) % block_size(size, align) == 0);
                    lemma_block_covers_request(size, align, s as nat);
                }
                return Some(s);
            }
            proof {
                assert forall|t: int| 0 <= t < s + block implies !slot_free(v, t, b as int) by {
                    if s < t < s + block {
                        lemma_mod_inside_block(s as int, t, block as int);
                    }
                }
            }
            proof {
                lemma_next_block(s as int, block as int);
            }
            s = s + block;
        }
        None
    }

    /// Frees the block that `allocate(size, align)` hands out at `start`:
    /// every unit of `start .. start + block_size(size, align)` inside the
    /// allocator becomes free; the others keep their state.
    pub fn dealloc(&mut self, start: usize, size: usize, align: usize)
        requires
            old(self).wf(),
        ensures
            final(self).wf(),
            final(self)@ == fill(old(self)@, start as int, start + block_size(size, align), false),
    {
        let ghost v = self@;
        let ghost b = block_size(size, align);
        proof {
            lemma_ceil_pow2(if size >= align { size as nat } else { align as nat });
        }
        if start >= self.capacity {
            assert(self@ =~= fill(v, start as int, start + b, false));
            return;
        }
        let end = match block_size_within(size, align, self.capacity) {
            Some(block) => if block <= self.capacity - start {
                start + block
            } else {
                self.capacity
            },
            None => self.capacity,
        };
        self.fill_range(start, end, false);
        assert(self@ =~= fill(v, start as int, start + b, false));
    }
}



// ---------------------------------------------------------------------
// Laws
// ---------------------------------------------------------------------

/// Freeing a block right after it was granted gives back exactly the state
/// the allocator had before the grant.
pub proof fn law_dealloc_undoes_allocate(units: Seq<bool>, size: usize, align: usize, start: int)
    requires
        slot_free(units, start, block_size(size, align) as int),
    ensures
        fill(
            fill(units, start, start + block_size(size, align), true),
            start,
            start + block_size(size, align),
            false,
        ) == units,
{
    let b = block_size(size, align) as int;
    assert(fill(fill(units, start, start + b, true), start, start + b, false) =~= units);
}

/// Two blocks granted one after the other, with no free in between, never
/// share a unit.
pub proof fn law_grants_are_disjoint(units: Seq<bool>, s1: int, b1: int, s2: int, b2: int)
    requires
        slot_free(units, s1, b1),
        slot_free(fill(units, s1, s1 + b1, true), s2, b2),
    ensures
        s1 + b1 <= s2 || s2 + b2 <= s1,
{
    let after = fill(units, s1, s1 + b1, true);
    if !(s1 + b1 <= s2 || s2 + b2 <= s1) {
        let i = if s1 <= s2 { s2 } else { s1 };
        assert(s2 <= i < s2 + b2);
        assert(after[i]);
    }
}

/// Freeing a block and its buddy leaves the block of twice the size, which
/// starts at the lower buddy, free.
pub proof fn law_buddies_merge(units: Seq<bool>, start: int, block: int)
    requires
        0 < block,
        0 <= start,
        start % (2 * block) == 0,
        start + 2 * block <= units.len(),
    ensures
        slot_free(
            fill(fill(units, start, start + block, false), start + block, start + 2 * block, false),
            start,
            2 * block,
        ),
{
}

/// In a fresh allocator every request whose block fits is granted the
/// block at unit 0.
pub proof fn law_fresh_allocator_grants_first_block(capacity: nat, size: usize, align: usize)
    requires
        block_size(size, align) <= capacity,
    ensures
        slot_free(Seq::new(capacity, |i: int| false), 0, block_size(size, align) as int),
{
    lemma_ceil_pow2(if size >= align { size as nat } else { align as nat });
}

// ---------------------------------------------------------------------
// Live blocks over a history of grants and frees
// ---------------------------------------------------------------------

/// Unit `i` lies in the block `(start, len)`.
pub open spec fn in_block(block: (int, int), i: int) -> bool {
    block.0 <= i < block.0 + block.1
}

/// Every unit of every live block `(start, len)` exists and is in use.
pub open spec fn live_blocks_used(units: Seq<bool>, live: Seq<(int, int)>) -> bool {
    forall|k: int, i: int|
        #![trigger in_block(live[k], i)]
        0 <= k < live.len() && in_block(live[k], i) ==> 0 <= i < units.len() && units[i]
}

/// The blocks `a` and `b` share no unit.
pub open spec fn blocks_disjoint(a: (int, int), b: (int, int)) -> bool {
    a.1 <= 0 || b.1 <= 0 || a.0 + a.1 <= b.0 || b.0 + b.1 <= a.0
}

/// No two live blocks share a unit.
pub open spec fn pairwise_disjoint(live: Seq<(int, int)>) -> bool {
    forall|j: int, k: int|
        0 <= j < live.len() && 0 <= k < live.len() && j != k ==> blocks_disjoint(
            #[trigger] live[j],
            #[trigger] live[k],
        )
}

/// The block that serves a request covers its size and its alignment, so
/// the requested units `s .. s + size` lie inside the granted block.
pub proof fn law_block_covers_request(size: usize, align: usize)
    ensures
        size <= block_size(size, align),
        align <= block_size(size, align),
        is_pow2(block_size(size, align)),
{
    lemma_ceil_pow2(if size >= align { size as nat } else { align as nat });
}

proof fn lemma_ceil_pow2_tight(n: nat)
    ensures
        ceil_pow2(n) == 1 || ceil_pow2(n) / 2 < n,
    decreases n,
{
    if n > 1 {
        let m = ((n + 1) / 2) as nat;
        lemma_ceil_pow2_tight(m);
        lemma_ceil_pow2(m);
        let c = ceil_pow2(m);
        if c != 1 {
            assert(c % 2 == 0 && c >= 2) by {
                assert(is_pow2(c));
            }
        }
    }
}

/// The block for a request is the least power of two that is at least its
/// size and at least its alignment: any power of two covering both is no
/// smaller.
pub proof fn law_block_size_is_least(size: usize, align: usize, p: nat)
    requires
        is_pow2(p),
        size <= p,
        align <= p,
    ensures
        is_pow2(block_size(size, align)),
        size <= block_size(size, align),
        align <= block_size(size, align),
        block_size(size, align) <= p,
        block_size(size, align) == 1 || block_size(size, align) / 2 < size || block_size(size, align)
            / 2 < align,
{
    let n = if size >= align { size as nat } else { align as nat };
    let b = block_size(size, align);
    lemma_ceil_pow2(n);
    lemma_ceil_pow2_tight(n);
    if p < b {
        lemma_pow2_gap(p, b);
        if p == 0 {
            assert(false);
        }
    }
}

/// A fresh allocator has no live block.
pub proof fn law_fresh_allocator_history(capacity: nat)
    ensures
        live_blocks_used(Seq::new(capacity, |i: int| false), Seq::<(int, int)>::empty()),
        pairwise_disjoint(Seq::<(int, int)>::empty()),
{
}

/// A granted block shares no unit with any block that was granted before
/// and not freed since.
pub proof fn law_grant_disjoint_from_live(units: Seq<bool>, live: Seq<(int, int)>, s: int, b: int)
    requires
        live_blocks_used(units, live),
        slot_free(units, s, b),
    ensures
        forall|k: int| 0 <= k < live.len() ==> blocks_disjoint((s, b), #[trigger] live[k]),
{
    assert forall|k: int| 0 <= k < live.len() implies blocks_disjoint((s, b), #[trigger] live[k]) by {
        if !blocks_disjoint((s, b), live[k]) {
            let i = if s <= live[k].0 { live[k].0 } else { s };
            assert(in_block(live[k], i));
        }
    }
}

/// A grant keeps the history in order: the granted block joins the live
/// blocks, all of them are in use and no two of them overlap.
pub proof fn law_grant_keeps_live_blocks(units: Seq<bool>, live: Seq<(int, int)>, s: int, b: int)
    requires
        live_blocks_used(units, live),
        pairwise_disjoint(live),
        slot_free(units, s, b),
    ensures
        live_blocks_used(fill(units, s, s + b, true), live.push((s, b))),
        pairwise_disjoint(live.push((s, b))),
{
    law_grant_disjoint_from_live(units, live, s, b);
    let after = fill(units, s, s + b, true);
    let live2 = live.push((s, b));
    assert forall|k: int, i: int|
        0 <= k < live2.len() && in_block(live2[k], i) implies 0 <= i < after.len() && after[i] by {
        if k < live.len() {
            assert(live2[k] == live[k]);
            assert(in_block(live[k], i));
        }
    }
    assert forall|j: int, k: int|
        0 <= j < live2.len() && 0 <= k < live2.len() && j != k implies blocks_disjoint(
        #[trigger] live2[j],
        #[trigger] live2[k],
    ) by {
        if j < live.len() && k < live.len() {
            assert(blocks_disjoint(live[j], live[k]));
        } else if j < live.len() {
            assert(blocks_disjoint((s, b), live[j]));
        } else {
            assert(blocks_disjoint((s, b), live[k]));
        }
    }
}

/// Freeing live block `k` with the request it was granted for keeps the
/// history in order: the other live blocks stay in use and apart.
pub proof fn law_dealloc_keeps_live_blocks(
    units: Seq<bool>,
    live: Seq<(int, int)>,
    k: int,
    size: usize,
    align: usize,
)
    requires
        live_blocks_used(units, live),
        pairwise_disjoint(live),
        0 <= k < live.len(),
        live[k].1 == block_size(size, align),
    ensures
        live_blocks_used(
            fill(units, live[k].0, live[k].0 + block_size(size, align), false),
            live.remove(k),
        ),
        pairwise_disjoint(live.remove(k)),
{
    lemma_free_live_block(units, live, k);
}

/// One call on the allocator, seen on its flags `u0, u1` and on its live
/// blocks `l0, l1` before and after: a refused request changes nothing; a
/// grant of a free block (what `allocate` returns with `Some`) marks it and
/// makes it live; freeing a live block with the request it was granted for
/// (what `dealloc` does then) clears it and drops it from the live blocks.
pub open spec fn history_step(
    u0: Seq<bool>,
    l0: Seq<(int, int)>,
    u1: Seq<bool>,
    l1: Seq<(int, int)>,
) -> bool {
    ||| u1 == u0 && l1 == l0
    ||| exists|s: int, b: int|
        #![trigger slot_free(u0, s, b)]
        slot_free(u0, s, b) && u1 == fill(u0, s, s + b, true) && l1 == l0.push((s, b))
    ||| exists|k: int|
        #![trigger l0[k]]
        0 <= k < l0.len() && u1 == fill(u0, l0[k].0, l0[k].0 + l0[k].1, false) && l1 == l0.remove(k)
}

/// Any history of grants, frees and refusals from a fresh allocator keeps
/// every live block in use and the live blocks apart, so every block that
/// can be granted at any point shares no unit with a block still live.
pub proof fn law_history_keeps_live_blocks_apart(
    capacity: nat,
    units: Seq<Seq<bool>>,
    live: Seq<Seq<(int, int)>>,
)
    requires
        units.len() == live.len(),
        units.len() >= 1,
        units[0] == Seq::new(capacity, |i: int| false),
        live[0] == Seq::<(int, int)>::empty(),
        forall|i: int|
            0 <= i < units.len() - 1 ==> #[trigger] history_step(
                units[i],
                live[i],
                units[i + 1],
                live[i + 1],
            ),
    ensures
        forall|i: int|
            0 <= i < units.len() ==> live_blocks_used(#[trigger] units[i], live[i]) && pairwise_disjoint(
                live[i],
            ),
        forall|i: int, s: int, b: int, k: int|
            #![trigger slot_free(units[i], s, b), live[i][k]]
            0 <= i < units.len() && slot_free(units[i], s, b) && 0 <= k < live[i].len()
                ==> blocks_disjoint((s, b), live[i][k]),
{
    assert forall|i: int| 0 <= i < units.len() implies live_blocks_used(#[trigger] units[i], live[i])
        && pairwise_disjoint(live[i]) by {
        lemma_history_prefix(capacity, units, live, i);
    }
    assert forall|i: int, s: int, b: int, k: int|
        #![trigger slot_free(units[i], s, b), live[i][k]]
        0 <= i < units.len() && slot_free(units[i], s, b) && 0 <= k < live[i].len()
        implies blocks_disjoint((s, b), live[i][k]) by {
        lemma_history_prefix(capacity, units, live, i);
        law_grant_disjoint_from_live(units[i], live[i], s, b);
    }
}

proof fn lemma_history_prefix(
    capacity: nat,
    units: Seq<Seq<bool>>,
    live: Seq<Seq<(int, int)>>,
    n: int,
)
    requires
        units.len() == live.len(),
        0 <= n < units.len(),
        units[0] == Seq::new(capacity, |i: int| false),
        live[0] == Seq::<(int, int)>::empty(),
        forall|i: int|
            0 <= i < units.len() - 1 ==> #[trigger] history_step(
                units[i],
                live[i],
                units[i + 1],
                live[i + 1],
            ),
    ensures
        live_blocks_used(units[n], live[n]),
        pairwise_disjoint(live[n]),
    decreases n,
{
    if n == 0 {
        law_fresh_allocator_history(capacity);
    } else {
        lemma_history_prefix(capacity, units, live, n - 1);
        let u0 = units[n - 1];
        let l0 = live[n - 1];
        let i = n - 1;
        assert(history_step(units[i], live[i], units[i + 1], live[i + 1]));
        assert(i + 1 == n);
        if units[n] == u0 && live[n] == l0 {
        } else if exists|s: int, b: int|
            #![trigger slot_free(u0, s, b)]
            slot_free(u0, s, b) && units[n] == fill(u0, s, s + b, true) && live[n] == l0.push((s, b)) {
            let (s, b) = choose|s: int, b: int|
                #![trigger slot_free(u0, s, b)]
                slot_free(u0, s, b) && units[n] == fill(u0, s, s + b, true) && live[n] == l0.push(
                    (s, b),
                );
            law_grant_keeps_live_blocks(u0, l0, s, b);
        } else {
            let k = choose|k: int|
                #![trigger l0[k]]
                0 <= k < l0.len() && units[n] == fill(u0, l0[k].0, l0[k].0 + l0[k].1, false)
                    && live[n] == l0.remove(k);
            lemma_free_live_block(u0, l0, k);
        }
    }
}

proof fn lemma_free_live_block(units: Seq<bool>, live: Seq<(int, int)>, k: int)
    requires
        live_blocks_used(units, live),
        pairwise_disjoint(live),
        0 <= k < live.len(),
    ensures
        live_blocks_used(fill(units, live[k].0, live[k].0 + live[k].1, false), live.remove(k)),
        pairwise_disjoint(live.remove(k)),
{
    let after = fill(units, live[k].0, live[k].0 + live[k].1, false);
    let rest = live.remove(k);
    assert forall|j: int, i: int|
        0 <= j < rest.len() && in_block(rest[j], i) implies 0 <= i < after.len() && after[i] by {
        let jj = if j < k { j } else { j + 1 };
        assert(rest[j] == live[jj]);
        assert(in_block(live[jj], i));
        assert(blocks_disjoint(live[jj], live[k]));
    }
    assert forall|a: int, c: int|
        0 <= a < rest.len() && 0 <= c < rest.len() && a != c implies blocks_disjoint(
        #[trigger] rest[a],
        #[trigger] rest[c],
    ) by {
        let aa = if a < k { a } else { a + 1 };
        let cc = if c < k { c } else { c + 1 };
        assert(rest[a] == live[aa]);
        assert(rest[c] == live[cc]);
        assert(blocks_disjoint(live[aa], live[cc]));
    }
}

} // verus!
