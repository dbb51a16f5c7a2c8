//! Sv39 page mapping for the kernel's identity map.
//!
//! A `Table` records the leaf entries that mapping calls have written,
//! keyed by the 27-bit virtual page number (`vpn[2]:vpn[1]:vpn[0]`) of the
//! address; the value is the 64-bit Sv39 page-table entry:
//! `ppn[2] << 28 | ppn[1] << 19 | ppn[0] << 10 | bits | V`.
use std::collections::HashMap;
use vstd::prelude::*;

verus! {

broadcast use vstd::std_specs::hash::group_hash_axioms;

/// Size of a base page in bytes.
pub const PAGE_SIZE: usize = 4096;

/// The permission bits of a page-table entry.
#[derive(Clone, Copy, PartialEq, Eq, Structural)]
pub enum EntryBits {
    Valid,
    Read,
    Write,
    Execute,
    ReadWrite,
    ReadExecute,
    ReadWriteExecute,
}

/// The numeric value of an entry flag combination.
pub open spec fn entry_bits_value(b: EntryBits) -> i64 {
    match b {
        EntryBits::Valid => 1,
        EntryBits::Read => 2,
        EntryBits::Write => 4,
        EntryBits::Execute => 8,
        EntryBits::ReadWrite => 6,
        EntryBits::ReadExecute => 10,
        EntryBits::ReadWriteExecute => 14,
    }
}

impl EntryBits {
    /// The flag bits as they appear in an entry.
    pub fn val(self) -> (r: i64)
        ensures
            r == entry_bits_value(self),
    {
        match self {
            EntryBits::Valid => 1,
            EntryBits::Read => 2,
            EntryBits::Write => 4,
            EntryBits::Execute => 8,
            EntryBits::ReadWrite => 6,
            EntryBits::ReadExecute => 10,
            EntryBits::ReadWriteExecute => 14,
        }
    }
}

/// `val` rounded up to a multiple of `2^order`, written with masks.
pub open spec fn align_up(val: usize, order: usize) -> usize {
    ((val + ((1usize << order) - 1usize)) as usize) & !(((1usize << order) - 1usize) as usize)
}

/// Rounds `val` up to the next multiple of `2^order`.
pub fn align_val(val: usize, order: usize) -> (r: usize)
    requires
        order < usize::BITS,
        val + ((1usize << order) - 1usize) <= usize::MAX,
    ensures
        r == align_up(val, order),
        val <= r,
        r - val < (1usize << order),
        r & (((1usize << order) - 1usize) as usize) == 0,
{
    assert((1usize << order) >= 1usize) by (bit_vector)
        requires
            order < usize::BITS,
    ;
    let o: usize = (1usize << order) - 1;
    let y: usize = val + o;
    assert((y & !o) <= y && y - (y & !o) <= o && ((y & !o) & o) == 0) by (bit_vector);
    assert(o < (1usize << order)) by (bit_vector)
        requires
            order < usize::BITS,
            o == (1usize << order) - 1usize,
    ;
    (val + o) & !o
}

/// The Sv39 virtual page number of an address: bits 12 to 38.
pub open spec fn vpn(vaddr: usize) -> usize {
    (vaddr >> 12usize) & 0x7ff_ffffusize
}

/// The leaf entry that maps a page to physical address `paddr` with `bits`.
pub open spec fn leaf_entry(paddr: usize, bits: i64) -> i64 {
    ((((paddr >> 30usize) & 0x3ff_ffffusize) << 28usize) as i64) | ((((paddr >> 21usize) & 0x1ffusize)
        << 19usize) as i64) | ((((paddr >> 12usize) & 0x1ffusize) << 10usize) as i64) | bits | 1i64
}

/// The physical address that a leaf `entry` gives to `vaddr`.
pub open spec fn entry_target(entry: i64, vaddr: usize) -> usize {
    (((entry << 2i64) as usize) & !0xfffusize) | (vaddr & 0xfffusize)
}

/// The translation of `vaddr` under a table whose leaves are `m`.
pub open spec fn translate(m: Map<usize, i64>, vaddr: usize) -> Option<usize> {
    if m.contains_key(vpn(vaddr)) {
        Some(entry_target(m[vpn(vaddr)], vaddr))
    } else {
        None
    }
}

/// A page table: the leaf entries written so far, by virtual page number.
pub struct Table {
    leaves: HashMap<usize, i64>,
}

impl View for Table {
    type V = Map<usize, i64>;

    closed spec fn view(&self) -> Map<usize, i64> {
        self.leaves@
    }
}

impl Table {
    /// An empty table: no address is mapped.
    pub fn new() -> (r: Table)
        ensures
            r@ == Map::<usize, i64>::empty(),
    {
        Table { leaves: HashMap::new() }
    }
}

/// Maps the 4 KiB page of `vaddr` to the page of `paddr` with `bits`.
/// The entry must grant at least one of read, write or execute.
pub fn map(root: &mut Table, vaddr: usize, paddr: usize, bits: i64)
    requires
        bits & 0xe != 0,
    ensures
        final(root)@ == old(root)@.insert(vpn(vaddr), leaf_entry(paddr, bits)),
{
    let vpn0 = (vaddr >> 12) & 0x1ff;
    let vpn1 = (vaddr >> 21) & 0x1ff;
    let vpn2 = (vaddr >> 30) & 0x1ff;
    let ppn0 = (paddr >> 12) & 0x1ff;
    let ppn1 = (paddr >> 21) & 0x1ff;
    let ppn2 = (paddr >> 30) & 0x3ff_ffff;
    let key = (vpn2 << 18) | (vpn1 << 9) | vpn0;
    let entry = ((ppn2 << 28) as i64) | ((ppn1 << 19) as i64) | ((ppn0 << 10) as i64) | bits
        | EntryBits::Valid.val();
    proof {
        lemma_vpn_parts(vaddr);
    }
    root.leaves.insert(key, entry);
}

proof fn lemma_vpn_parts(vaddr: usize)
    by (bit_vector)
    ensures
        ((((vaddr >> 30usize) & 0x1ffusize) << 18usize) | (((vaddr >> 21usize) & 0x1ffusize) << 9usize)
            | ((vaddr >> 12usize) & 0x1ffusize)) == (vaddr >> 12usize) & 0x7ff_ffffusize,
{
}

/// The leaf entry of the page that holds `vaddr`, if it is mapped.
pub fn leaf_of(root: &Table, vaddr: usize) -> (r: Option<i64>)
    ensures
        r == (if root@.contains_key(vpn(vaddr)) {
            Some(root@[vpn(vaddr)])
        } else {
            None
        }),
{
    let key = (vaddr >> 12) & 0x7ff_ffff;
    match root.leaves.get(&key) {
        Some(e) => Some(*e),
        None => None,
    }
}

/// The physical address that `vaddr` maps to, if its page is mapped.
pub fn virt_to_phys(root: &Table, vaddr: usize) -> (r: Option<usize>)
    ensures
        r == translate(root@, vaddr),
{
    let key = (vaddr >> 12) & 0x7ff_ffff;
    match root.leaves.get(&key) {
        Some(e) => Some((((*e << 2) as usize) & !0xfff) | (vaddr & 0xfff)),
        None => None,
    }
}


/// The start of the page that holds `vaddr`.
pub open spec fn page_floor(vaddr: usize) -> usize {
    vaddr & !0xfffusize
}

/// The number of pages that `id_map_range(start, end)` maps: from the page
/// of `start` up to `end` rounded up to a page.
pub open spec fn range_pages(start: usize, end: usize) -> nat {
    ((align_up(end, 12) - page_floor(start)) / 4096) as nat
}

/// The leaves after mapping `count` pages, starting at `first` and going
/// up one page at a time, each to itself with `bits`.
pub open spec fn map_identity_pages(m: Map<usize, i64>, first: int, count: nat, bits: i64) -> Map<
    usize,
    i64,
>
    decreases count,
{
    if count == 0 {
        m
    } else {
        map_identity_pages(
            m.insert(vpn(first as usize), leaf_entry(first as usize, bits)),
            first + 4096,
            (count - 1) as nat,
            bits,
        )
    }
}

/// The leaves after `id_map_range(start, end, bits)` on a table with leaves `m`.
pub open spec fn id_mapped(m: Map<usize, i64>, start: usize, end: usize, bits: i64) -> Map<usize, i64> {
    map_identity_pages(m, page_floor(start) as int, range_pages(start, end), bits)
}

proof fn lemma_page_bounds(start: usize, end: usize)
    by (bit_vector)
    requires
        start <= end,
        end <= (end + 0xfffusize) as usize,
    ensures
        page_floor(start) <= start,
        start - page_floor(start) < 4096,
        page_floor(start) & 0xfffusize == 0,
        align_up(end, 12) >= end,
        align_up(end, 12) - end < 4096,
        align_up(end, 12) & 0xfffusize == 0,
        (1usize << 12usize) - 1usize == 0xfffusize,
{
}

pub(crate) proof fn lemma_aligned_is_multiple(x: usize)
    by (bit_vector)
    ensures
        (x & 0xfffusize == 0) == (x % 4096 == 0),
{
}

proof fn lemma_page_count(lo: int, hi: int)
    by (nonlinear_arith)
    requires
        0 <= lo <= hi,
        lo % 4096 == 0,
        hi % 4096 == 0,
    ensures
        lo + ((hi - lo) / 4096) * 4096 == hi,
{
}

/// Maps every page that `start .. end` touches to itself with `bits`,
/// one page at a time from the lowest. Assumes `start <= end`.
pub fn id_map_range(root: &mut Table, start: usize, end: usize, bits: i64)
    requires
        start <= end,
        end + 0xfff <= usize::MAX,
        range_pages(start, end) > 0 ==> bits & 0xe != 0,
    ensures
        final(root)@ == id_mapped(old(root)@, start, end, bits),
{
    proof {
        lemma_page_bounds(start, end);
        lemma_aligned_is_multiple(page_floor(start));
        lemma_aligned_is_multiple(align_up(end, 12));
        lemma_page_count(page_floor(start) as int, align_up(end, 12) as int);
    }
    let mut memaddr = start & !(PAGE_SIZE - 1);
    let num_kb_pages = (align_val(end, 12) - memaddr) / PAGE_SIZE;
    let ghost first = memaddr;
    let ghost top = align_up(end, 12);
    let mut i: usize = 0;
    while i < num_kb_pages
        invariant
            i <= num_kb_pages,
            num_kb_pages == range_pages(start, end),
            first == page_floor(start),
            top == align_up(end, 12),
            memaddr == first + i * 4096,
            first + num_kb_pages * 4096 == top,
            num_kb_pages > 0 ==> bits & 0xe != 0,
            map_identity_pages(root@, memaddr as int, (num_kb_pages - i) as nat, bits)
                == id_mapped(old(root)@, start, end, bits),
        decreases num_kb_pages - i,
    {
        let ghost before = root@;
        map(root, memaddr, memaddr, bits);
        assert(map_identity_pages(before, memaddr as int, (num_kb_pages - i) as nat, bits)
            == map_identity_pages(root@, memaddr + 4096, (num_kb_pages - i - 1) as nat, bits));
        memaddr += PAGE_SIZE;
        i += 1;
    }
}

/// `vaddr` translates to itself under the leaves `m`.
pub open spec fn identity_at(m: Map<usize, i64>, vaddr: usize) -> bool {
    translate(m, vaddr) == Some(vaddr)
}

proof fn lemma_same_page(p: usize, a: usize, bits: i64)
    by (bit_vector)
    requires
        p & 0xfffusize == 0,
        p <= a,
        a - p < 4096,
        a >> 39usize == 0,
        0 <= bits < 1024,
    ensures
        vpn(a) == vpn(p),
        entry_target(leaf_entry(p, bits), a) == a,
{
}

pub(crate) proof fn lemma_other_page(p: usize, a: usize)
    by (bit_vector)
    requires
        p & 0xfffusize == 0,
        a >> 39usize == 0,
        p >> 39usize == 0,
        !(p <= a && a - p < 4096),
    ensures
        vpn(a) != vpn(p),
{
}

pub(crate) proof fn lemma_below_sv39(a: usize)
    by (bit_vector)
    requires
        a < 0x80_0000_0000,
    ensures
        a >> 39usize == 0,
{
}

/// Mapping pages to themselves keeps every identity translation below
/// 2^39 and adds one for every address of the mapped pages.
pub proof fn lemma_identity_pages(m: Map<usize, i64>, first: int, count: nat, bits: i64, a: usize)
    requires
        0 <= first,
        first % 4096 == 0,
        first + count * 4096 <= 0x80_0000_0000,
        first + count * 4096 <= usize::MAX,
        0 <= bits < 1024,
        a < 0x80_0000_0000,
        identity_at(m, a) || (first <= a < first + count * 4096),
    ensures
        identity_at(map_identity_pages(m, first, count, bits), a),
    decreases count,
{
    if count > 0 {
        let p = first as usize;
        let m1 = m.insert(vpn(p), leaf_entry(p, bits));
        lemma_aligned_is_multiple(p);
        lemma_below_sv39(a);
        lemma_below_sv39(p);
        assert(p & 0xfffusize == 0);
        if first <= a < first + 4096 {
            lemma_same_page(p, a, bits);
        } else {
            lemma_other_page(p, a);
        }
        assert(identity_at(m1, a) || (first + 4096 <= a < first + 4096 + (count - 1) * 4096));
        lemma_identity_pages(m1, first + 4096, (count - 1) as nat, bits, a);
    }
}

/// Identity mapping: after `id_map_range(start, end, bits)` with ordinary
/// permission bits, every address of `start .. end` translates to itself,
/// and every address that translated to itself before still does, as long
/// as the range lies in the Sv39 address space.
pub proof fn law_id_map_range_is_identity(
    m: Map<usize, i64>,
    start: usize,
    end: usize,
    bits: i64,
    a: usize,
)
    requires
        start <= end,
        end <= 0x80_0000_0000,
        end + 0xfff <= usize::MAX,
        0 <= bits < 1024,
        a < 0x80_0000_0000,
        identity_at(m, a) || (start <= a < end),
    ensures
        identity_at(id_mapped(m, start, end, bits), a),
{
    lemma_page_bounds(start, end);
    lemma_aligned_is_multiple(page_floor(start));
    lemma_aligned_is_multiple(align_up(end, 12));
    lemma_page_count(page_floor(start) as int, align_up(end, 12) as int);
    assert(align_up(end, 12) <= 0x80_0000_0000) by (nonlinear_arith)
        requires
            align_up(end, 12) % 4096 == 0,
            align_up(end, 12) - end < 4096,
            end <= 0x80_0000_0000,
    ;
    lemma_identity_pages(m, page_floor(start) as int, range_pages(start, end), bits, a);
}

pub(crate) proof fn lemma_align_up_covers(end: usize)
    by (bit_vector)
    requires
        end <= (end + 0xfffusize) as usize,
    ensures
        end <= align_up(end, 12),
{
}

pub(crate) proof fn lemma_floor_below(a: usize)
    by (bit_vector)
    ensures
        page_floor(a) <= a,
{
}

pub(crate) proof fn lemma_same_vpn(p: usize, a: usize)
    by (bit_vector)
    requires
        p & 0xfffusize == 0,
        p <= a,
        a - p < 4096,
    ensures
        vpn(a) == vpn(p),
{
}

pub(crate) proof fn lemma_page_floor_of(p: usize, a: usize)
    by (bit_vector)
    requires
        p & 0xfffusize == 0,
        p <= a,
        a - p < 4096,
    ensures
        page_floor(a) == p,
{
}

/// After mapping pages to themselves, a page inside the mapped pages holds
/// the leaf for itself with `bits`; every other page below 2^39 keeps its
/// entry, or its absence.
pub proof fn lemma_identity_pages_entries(
    m: Map<usize, i64>,
    first: int,
    count: nat,
    bits: i64,
    a: usize,
)
    requires
        0 <= first,
        first % 4096 == 0,
        first + count * 4096 <= 0x80_0000_0000,
        first + count * 4096 <= usize::MAX,
        a < 0x80_0000_0000,
    ensures
        first <= a < first + count * 4096 ==> map_identity_pages(m, first, count, bits).contains_key(
            vpn(a),
        ) && map_identity_pages(m, first, count, bits)[vpn(a)] == leaf_entry(page_floor(a), bits),
        !(first <= a < first + count * 4096) ==> (map_identity_pages(
            m,
            first,
            count,
            bits,
        ).contains_key(vpn(a)) == m.contains_key(vpn(a))),
        !(first <= a < first + count * 4096) && m.contains_key(vpn(a)) ==> map_identity_pages(
            m,
            first,
            count,
            bits,
        )[vpn(a)] == m[vpn(a)],
    decreases count,
{
    if count > 0 {
        let p = first as usize;
        let m1 = m.insert(vpn(p), leaf_entry(p, bits));
        lemma_aligned_is_multiple(p);
        lemma_below_sv39(a);
        lemma_below_sv39(p);
        assert(p & 0xfffusize == 0);
        if first <= a < first + 4096 {
            lemma_page_floor_of(p, a);
            lemma_same_vpn(p, a);
        } else {
            lemma_other_page(p, a);
        }
        lemma_identity_pages_entries(m1, first + 4096, (count - 1) as nat, bits, a);
    }
}

/// What `id_map_range(start, end, bits)` writes, page by page: every page
/// from the one holding `start` up to `end` rounded up holds the leaf that
/// maps it to itself with `bits`; every other page below 2^39 is left as
/// it was.
pub proof fn law_id_map_range_entries(
    m: Map<usize, i64>,
    start: usize,
    end: usize,
    bits: i64,
    a: usize,
)
    requires
        start <= end,
        end <= 0x80_0000_0000,
        end + 0xfff <= usize::MAX,
        a < 0x80_0000_0000,
    ensures
        page_floor(start) <= a < align_up(end, 12) ==> id_mapped(m, start, end, bits).contains_key(
            vpn(a),
        ) && id_mapped(m, start, end, bits)[vpn(a)] == leaf_entry(page_floor(a), bits),
        !(page_floor(start) <= a < align_up(end, 12)) ==> (id_mapped(m, start, end, bits).contains_key(
            vpn(a),
        ) == m.contains_key(vpn(a))),
        !(page_floor(start) <= a < align_up(end, 12)) && m.contains_key(vpn(a)) ==> id_mapped(
            m,
            start,
            end,
            bits,
        )[vpn(a)] == m[vpn(a)],
{
    lemma_page_bounds(start, end);
    lemma_aligned_is_multiple(page_floor(start));
    lemma_aligned_is_multiple(align_up(end, 12));
    lemma_page_count(page_floor(start) as int, align_up(end, 12) as int);
    assert(align_up(end, 12) <= 0x80_0000_0000) by (nonlinear_arith)
        requires
            align_up(end, 12) % 4096 == 0,
            align_up(end, 12) - end < 4096,
            end <= 0x80_0000_0000,
    ;
    lemma_identity_pages_entries(m, page_floor(start) as int, range_pages(start, end), bits, a);
}

/// The fields of a leaf entry: the low ten bits are the permission bits
/// with the valid bit set, and the bits above them hold the physical page
/// number.
pub proof fn law_leaf_entry_fields(paddr: usize, bits: i64)
    requires
        0 <= bits < 1024,
        paddr < 0x80_0000_0000,
    ensures
        leaf_entry(paddr, bits) & 0x3ffi64 == bits | 1i64,
        leaf_entry(paddr, bits) >> 10i64 == (paddr >> 12usize) as i64,
{
    lemma_below_sv39(paddr);
    lemma_leaf_fields(paddr, bits);
}

proof fn lemma_leaf_fields(paddr: usize, bits: i64)
    by (bit_vector)
    requires
        0 <= bits < 1024,
        paddr >> 39usize == 0,
    ensures
        leaf_entry(paddr, bits) & 0x3ffi64 == bits | 1i64,
        leaf_entry(paddr, bits) >> 10i64 == (paddr >> 12usize) as i64,
{
}

proof fn lemma_translate_fields(v: usize, paddr: usize, bits: i64, o: usize)
    by (bit_vector)
    requires
        paddr & 0xfffusize == 0,
        paddr >> 39usize == 0,
        0 <= bits < 1024,
        o < 4096,
    ensures
        ((v & !0xfffusize) + o) as usize == (v & !0xfffusize) + o,
        vpn(((v & !0xfffusize) + o) as usize) == vpn(v),
        ((v & !0xfffusize) + o) as usize & 0xfffusize == o,
        entry_target(leaf_entry(paddr, bits), ((v & !0xfffusize) + o) as usize) == (paddr + o) as usize,
        (paddr + o) as usize == paddr + o,
{
}

/// Translation through a mapped page: after `map(v, paddr, bits)` with a
/// page-aligned `paddr` and ordinary permission bits, the address at offset
/// `o` in the page of `v` translates to the address at offset `o` in the
/// page at `paddr`, whatever else the table holds.
pub proof fn law_map_translates(m: Map<usize, i64>, v: usize, paddr: usize, bits: i64, o: usize)
    requires
        paddr % 4096 == 0,
        paddr < 0x80_0000_0000,
        0 <= bits < 1024,
        o < 4096,
    ensures
        page_floor(v) + o <= usize::MAX,
        paddr + o <= usize::MAX,
        translate(m.insert(vpn(v), leaf_entry(paddr, bits)), (page_floor(v) + o) as usize) == Some(
            (paddr + o) as usize,
        ),
{
    lemma_aligned_is_multiple(paddr);
    lemma_below_sv39(paddr);
    lemma_translate_fields(v, paddr, bits, o);
}

} // verus!
