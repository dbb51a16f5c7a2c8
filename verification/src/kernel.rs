//! The kernel's address-space setup: the identity map of the kernel image,
//! its heap and the memory-mapped devices, and the `satp` value that turns
//! the mapping on.
use crate::page::{
    law_id_map_range_entries, law_leaf_entry_fields, lemma_aligned_is_multiple, lemma_floor_below,
    lemma_same_vpn, page_floor, align_up, lemma_below_sv39, lemma_other_page,
    entry_bits_value, id_map_range, id_mapped, identity_at, law_id_map_range_is_identity, leaf_entry,
    lemma_identity_pages, map_identity_pages, vpn, EntryBits, Table, PAGE_SIZE,
};
use vstd::prelude::*;

verus! {

/// Where the pieces of the kernel image and its heap lie, as given by the
/// linker and the page allocator.
pub struct KernelLayout {
    pub text_start: usize,
    pub text_end: usize,
    pub rodata_start: usize,
    pub rodata_end: usize,
    pub data_start: usize,
    pub data_end: usize,
    pub bss_start: usize,
    pub bss_end: usize,
    pub kernel_stack_start: usize,
    pub kernel_stack_end: usize,
    /// First byte of the heap descriptors.
    pub heap_start: usize,
    /// Size of the heap in bytes.
    pub heap_size: usize,
    /// First byte of the heap allocations.
    pub kheap_head: usize,
    /// Number of heap pages.
    pub total_pages: usize,
}

/// UART registers.
pub const UART_BASE: usize = 0x1000_0000;

/// CLINT machine software interrupt pending register.
pub const CLINT_MSIP: usize = 0x0200_0000;

/// CLINT timer compare register.
pub const CLINT_MTIMECMP: usize = 0x0200_b000;

/// CLINT timer register.
pub const CLINT_MTIME: usize = 0x0200_c000;

/// The first range of PLIC registers.
pub const PLIC_START: usize = 0x0c00_0000;

/// End of the first range of PLIC registers.
pub const PLIC_END: usize = 0x0c00_2000;

/// The second range of PLIC registers.
pub const PLIC_CONTEXT_START: usize = 0x0c20_0000;

/// End of the second range of PLIC registers.
pub const PLIC_CONTEXT_END: usize = 0x0c20_8000;

/// End of the heap allocations.
pub open spec fn kheap_end(l: KernelLayout) -> int {
    l.kheap_head + l.total_pages * 4096
}

/// End of the mapped heap descriptors: one byte per heap page.
pub open spec fn heap_descr_end(l: KernelLayout) -> int {
    l.heap_start + l.heap_size / 4096
}

/// `start .. end` is a range that `id_map_range` accepts.
pub open spec fn region_ok(start: int, end: int) -> bool {
    0 <= start <= end && end + 0xfff <= usize::MAX
}

/// Every range of the layout is one that `id_map_range` accepts.
pub open spec fn layout_ok(l: KernelLayout) -> bool {
    &&& region_ok(l.kheap_head as int, kheap_end(l))
    &&& region_ok(l.heap_start as int, heap_descr_end(l))
    &&& region_ok(l.text_start as int, l.text_end as int)
    &&& region_ok(l.rodata_start as int, l.rodata_end as int)
    &&& region_ok(l.data_start as int, l.data_end as int)
    &&& region_ok(l.bss_start as int, l.bss_end as int)
    &&& region_ok(l.kernel_stack_start as int, l.kernel_stack_end as int)
}

/// The leaves after the kernel's identity map has been built on `m`.
pub open spec fn kernel_leaves(m: Map<usize, i64>, l: KernelLayout) -> Map<usize, i64> {
    let rw = entry_bits_value(EntryBits::ReadWrite);
    let rx = entry_bits_value(EntryBits::ReadExecute);
    let m1 = id_mapped(m, l.kheap_head, kheap_end(l) as usize, rw);
    let m2 = id_mapped(m1, l.heap_start, heap_descr_end(l) as usize, rw);
    let m3 = id_mapped(m2, l.text_start, l.text_end, rx);
    let m4 = id_mapped(m3, l.rodata_start, l.rodata_end, rx);
    let m5 = id_mapped(m4, l.data_start, l.data_end, rw);
    let m6 = id_mapped(m5, l.bss_start, l.bss_end, rw);
    let m7 = id_mapped(m6, l.kernel_stack_start, l.kernel_stack_end, rw);
    let m8 = m7.insert(vpn(UART_BASE), leaf_entry(UART_BASE, rw));
    let m9 = m8.insert(vpn(CLINT_MSIP), leaf_entry(CLINT_MSIP, rw));
    let m10 = m9.insert(vpn(CLINT_MTIMECMP), leaf_entry(CLINT_MTIMECMP, rw));
    let m11 = m10.insert(vpn(CLINT_MTIME), leaf_entry(CLINT_MTIME, rw));
    let m12 = id_mapped(m11, PLIC_START, PLIC_END, rw);
    id_mapped(m12, PLIC_CONTEXT_START, PLIC_CONTEXT_END, rw)
}

/// Builds the kernel's identity map in `root`: the heap allocations and
/// descriptors, the text, read-only data, data, bss and stack sections,
/// the UART and CLINT pages and the PLIC ranges, in that order.
pub fn map_kernel(root: &mut Table, layout: &KernelLayout)
    requires
        layout_ok(*layout),
    ensures
        final(root)@ == kernel_leaves(old(root)@, *layout),
{
    let rw = EntryBits::ReadWrite.val();
    let rx = EntryBits::ReadExecute.val();
    assert(rw & 0xe != 0 && rx & 0xe != 0) by (bit_vector)
        requires
            rw == 6i64,
            rx == 10i64,
    ;
    id_map_range(root, layout.kheap_head, layout.kheap_head + layout.total_pages * 4096, rw);
    let num_pages = layout.heap_size / PAGE_SIZE;
    id_map_range(root, layout.heap_start, layout.heap_start + num_pages, rw);
    id_map_range(root, layout.text_start, layout.text_end, rx);
    id_map_range(root, layout.rodata_start, layout.rodata_end, rx);
    id_map_range(root, layout.data_start, layout.data_end, rw);
    id_map_range(root, layout.bss_start, layout.bss_end, rw);
    id_map_range(root, layout.kernel_stack_start, layout.kernel_stack_end, rw);
    crate::page::map(root, UART_BASE, UART_BASE, rw);
    crate::page::map(root, CLINT_MSIP, CLINT_MSIP, rw);
    crate::page::map(root, CLINT_MTIMECMP, CLINT_MTIMECMP, rw);
    crate::page::map(root, CLINT_MTIME, CLINT_MTIME, rw);
    id_map_range(root, PLIC_START, PLIC_END, rw);
    id_map_range(root, PLIC_CONTEXT_START, PLIC_CONTEXT_END, rw);
}

/// The `satp` value that selects Sv39 (mode 8) with the root table at
/// physical address `root_addr`.
pub fn satp_value(root_addr: usize) -> (r: u64)
    ensures
        r == ((root_addr as u64) >> 12u64) | (8u64 << 60u64),
        r >> 60u64 == 8,
        (root_addr as u64) < 0x100_0000_0000_0000u64 ==> r & 0xfff_ffff_ffffu64 == (root_addr as u64)
            >> 12u64,
{
    let root = root_addr as u64;
    proof {
        lemma_satp_fields(root);
    }
    (root >> 12) | (8 << 60)
}

proof fn lemma_satp_fields(root: u64)
    by (bit_vector)
    ensures
        ((root >> 12u64) | (8u64 << 60u64)) >> 60u64 == 8,
        root < 0x100_0000_0000_0000u64 ==> ((root >> 12u64) | (8u64 << 60u64)) & 0xfff_ffff_ffffu64
            == root >> 12u64,
{
}

/// `vaddr` lies in one of the ranges that the kernel's identity map covers.
pub open spec fn in_kernel_map(l: KernelLayout, a: int) -> bool {
    ||| l.kheap_head <= a < kheap_end(l)
    ||| l.heap_start <= a < heap_descr_end(l)
    ||| l.text_start <= a < l.text_end
    ||| l.rodata_start <= a < l.rodata_end
    ||| l.data_start <= a < l.data_end
    ||| l.bss_start <= a < l.bss_end
    ||| l.kernel_stack_start <= a < l.kernel_stack_end
    ||| UART_BASE <= a < UART_BASE + 4096
    ||| CLINT_MSIP <= a < CLINT_MSIP + 4096
    ||| CLINT_MTIMECMP <= a < CLINT_MTIMECMP + 4096
    ||| CLINT_MTIME <= a < CLINT_MTIME + 4096
    ||| PLIC_START <= a < PLIC_END
    ||| PLIC_CONTEXT_START <= a < PLIC_CONTEXT_END
}

/// Every range of the layout lies in the Sv39 address space.
pub open spec fn layout_in_sv39(l: KernelLayout) -> bool {
    &&& kheap_end(l) <= 0x80_0000_0000
    &&& heap_descr_end(l) <= 0x80_0000_0000
    &&& l.text_end <= 0x80_0000_0000
    &&& l.rodata_end <= 0x80_0000_0000
    &&& l.data_end <= 0x80_0000_0000
    &&& l.bss_end <= 0x80_0000_0000
    &&& l.kernel_stack_end <= 0x80_0000_0000
}

proof fn lemma_map_page_identity(m: Map<usize, i64>, p: usize, bits: i64, a: usize)
    requires
        p % 4096 == 0,
        p + 4096 <= 0x80_0000_0000,
        p + 4096 <= usize::MAX,
        0 <= bits < 1024,
        a < 0x80_0000_0000,
        identity_at(m, a) || (p <= a < p + 4096),
    ensures
        identity_at(m.insert(vpn(p), leaf_entry(p, bits)), a),
{
    lemma_identity_pages(m, p as int, 1, bits, a);
    assert(map_identity_pages(m, p as int, 1, bits) == map_identity_pages(
        m.insert(vpn(p), leaf_entry(p, bits)),
        p + 4096,
        0,
        bits,
    ));
}

/// One range of the kernel map keeps identity translations and adds them
/// for the range's own addresses.
proof fn lemma_region_step(m: Map<usize, i64>, start: usize, end: usize, bits: i64, a: usize)
    requires
        start <= end,
        end <= 0x80_0000_0000,
        end + 0xfff <= usize::MAX,
        0 <= bits < 1024,
        a < 0x80_0000_0000,
    ensures
        identity_at(m, a) || (start <= a < end) ==> identity_at(id_mapped(m, start, end, bits), a),
{
    if identity_at(m, a) || (start <= a < end) {
        law_id_map_range_is_identity(m, start, end, bits, a);
    }
}

/// One device page of the kernel map keeps identity translations and adds
/// them for the page's own addresses.
proof fn lemma_page_step(m: Map<usize, i64>, p: usize, bits: i64, a: usize)
    requires
        p % 4096 == 0,
        p + 4096 <= 0x80_0000_0000,
        p + 4096 <= usize::MAX,
        0 <= bits < 1024,
        a < 0x80_0000_0000,
    ensures
        identity_at(m, a) || (p <= a < p + 4096) ==> identity_at(
            m.insert(vpn(p), leaf_entry(p, bits)),
            a,
        ),
{
    if identity_at(m, a) || (p <= a < p + 4096) {
        lemma_map_page_identity(m, p, bits, a);
    }
}

/// The kernel's address space is an identity map: after `map_kernel`,
/// every address of every range it covers translates to itself, and so
/// does every address below 2^39 that translated to itself before.
pub proof fn law_kernel_map_is_identity(m: Map<usize, i64>, l: KernelLayout, a: usize)
    requires
        layout_ok(l),
        layout_in_sv39(l),
        a < 0x80_0000_0000,
        identity_at(m, a) || in_kernel_map(l, a as int),
    ensures
        identity_at(kernel_leaves(m, l), a),
{
    let rw = entry_bits_value(EntryBits::ReadWrite);
    let rx = entry_bits_value(EntryBits::ReadExecute);
    let m1 = id_mapped(m, l.kheap_head, kheap_end(l) as usize, rw);
    let m2 = id_mapped(m1, l.heap_start, heap_descr_end(l) as usize, rw);
    let m3 = id_mapped(m2, l.text_start, l.text_end, rx);
    let m4 = id_mapped(m3, l.rodata_start, l.rodata_end, rx);
    let m5 = id_mapped(m4, l.data_start, l.data_end, rw);
    let m6 = id_mapped(m5, l.bss_start, l.bss_end, rw);
    let m7 = id_mapped(m6, l.kernel_stack_start, l.kernel_stack_end, rw);
    let m8 = m7.insert(vpn(UART_BASE), leaf_entry(UART_BASE, rw));
    let m9 = m8.insert(vpn(CLINT_MSIP), leaf_entry(CLINT_MSIP, rw));
    let m10 = m9.insert(vpn(CLINT_MTIMECMP), leaf_entry(CLINT_MTIMECMP, rw));
    let m11 = m10.insert(vpn(CLINT_MTIME), leaf_entry(CLINT_MTIME, rw));
    let m12 = id_mapped(m11, PLIC_START, PLIC_END, rw);
    lemma_region_step(m, l.kheap_head, kheap_end(l) as usize, rw, a);
    lemma_region_step(m1, l.heap_start, heap_descr_end(l) as usize, rw, a);
    lemma_region_step(m2, l.text_start, l.text_end, rx, a);
    lemma_region_step(m3, l.rodata_start, l.rodata_end, rx, a);
    lemma_region_step(m4, l.data_start, l.data_end, rw, a);
    lemma_region_step(m5, l.bss_start, l.bss_end, rw, a);
    lemma_region_step(m6, l.kernel_stack_start, l.kernel_stack_end, rw, a);
    lemma_page_step(m7, UART_BASE, rw, a);
    lemma_page_step(m8, CLINT_MSIP, rw, a);
    lemma_page_step(m9, CLINT_MTIMECMP, rw, a);
    lemma_page_step(m10, CLINT_MTIME, rw, a);
    lemma_region_step(m11, PLIC_START, PLIC_END, rw, a);
    lemma_region_step(m12, PLIC_CONTEXT_START, PLIC_CONTEXT_END, rw, a);
}

/// The entry that maps `a` is valid and readable, and either writable or
/// executable: its permission bits are `V|R|W` or `V|R|X`.
pub open spec fn kernel_permissions_at(m: Map<usize, i64>, a: usize) -> bool {
    &&& m.contains_key(vpn(a))
    &&& (m[vpn(a)] & 0x3ffi64 == 7i64 || m[vpn(a)] & 0x3ffi64 == 11i64)
}

proof fn lemma_permission_values()
    by (bit_vector)
    ensures
        6i64 | 1i64 == 7i64,
        10i64 | 1i64 == 11i64,
{
}

proof fn lemma_region_permissions(m: Map<usize, i64>, start: usize, end: usize, bits: i64, a: usize)
    requires
        start <= end,
        end <= 0x80_0000_0000,
        end + 0xfff <= usize::MAX,
        bits == 6 || bits == 10,
        a < 0x80_0000_0000,
    ensures
        kernel_permissions_at(m, a) || (start <= a < end) ==> kernel_permissions_at(
            id_mapped(m, start, end, bits),
            a,
        ),
{
    law_id_map_range_entries(m, start, end, bits, a);
    lemma_floor_below(start);
    lemma_floor_below(a);
    lemma_permission_values();
    assert(end <= crate::page::align_up(end, 12)) by {
        crate::page::lemma_align_up_covers(end);
    }
    if page_floor(start) <= a < crate::page::align_up(end, 12) {
        law_leaf_entry_fields(page_floor(a), bits);
    }
}

proof fn lemma_page_permissions(m: Map<usize, i64>, p: usize, a: usize)
    requires
        p % 4096 == 0,
        p + 4096 <= 0x80_0000_0000,
        a < 0x80_0000_0000,
    ensures
        kernel_permissions_at(m, a) || (p <= a < p + 4096) ==> kernel_permissions_at(
            m.insert(vpn(p), leaf_entry(p, 6)),
            a,
        ),
{
    lemma_permission_values();
    law_leaf_entry_fields(p, 6);
    if p <= a < p + 4096 {
        lemma_aligned_is_multiple(p);
        lemma_same_vpn(p, a);
    }
}

/// The kernel's pages are valid and readable, and each is either writable
/// or executable, never both and never open to user mode: after
/// `map_kernel`, the entry for every address it covers has permission bits
/// `V|R|W` or `V|R|X`.
pub proof fn law_kernel_map_permissions(m: Map<usize, i64>, l: KernelLayout, a: usize)
    requires
        layout_ok(l),
        layout_in_sv39(l),
        a < 0x80_0000_0000,
        in_kernel_map(l, a as int),
    ensures
        kernel_permissions_at(kernel_leaves(m, l), a),
{
    let rw = entry_bits_value(EntryBits::ReadWrite);
    let rx = entry_bits_value(EntryBits::ReadExecute);
    let m1 = id_mapped(m, l.kheap_head, kheap_end(l) as usize, rw);
    let m2 = id_mapped(m1, l.heap_start, heap_descr_end(l) as usize, rw);
    let m3 = id_mapped(m2, l.text_start, l.text_end, rx);
    let m4 = id_mapped(m3, l.rodata_start, l.rodata_end, rx);
    let m5 = id_mapped(m4, l.data_start, l.data_end, rw);
    let m6 = id_mapped(m5, l.bss_start, l.bss_end, rw);
    let m7 = id_mapped(m6, l.kernel_stack_start, l.kernel_stack_end, rw);
    let m8 = m7.insert(vpn(UART_BASE), leaf_entry(UART_BASE, rw));
    let m9 = m8.insert(vpn(CLINT_MSIP), leaf_entry(CLINT_MSIP, rw));
    let m10 = m9.insert(vpn(CLINT_MTIMECMP), leaf_entry(CLINT_MTIMECMP, rw));
    let m11 = m10.insert(vpn(CLINT_MTIME), leaf_entry(CLINT_MTIME, rw));
    let m12 = id_mapped(m11, PLIC_START, PLIC_END, rw);
    lemma_region_permissions(m, l.kheap_head, kheap_end(l) as usize, rw, a);
    lemma_region_permissions(m1, l.heap_start, heap_descr_end(l) as usize, rw, a);
    lemma_region_permissions(m2, l.text_start, l.text_end, rx, a);
    lemma_region_permissions(m3, l.rodata_start, l.rodata_end, rx, a);
    lemma_region_permissions(m4, l.data_start, l.data_end, rw, a);
    lemma_region_permissions(m5, l.bss_start, l.bss_end, rw, a);
    lemma_region_permissions(m6, l.kernel_stack_start, l.kernel_stack_end, rw, a);
    lemma_page_permissions(m7, UART_BASE, a);
    lemma_page_permissions(m8, CLINT_MSIP, a);
    lemma_page_permissions(m9, CLINT_MTIMECMP, a);
    lemma_page_permissions(m10, CLINT_MTIME, a);
    lemma_region_permissions(m11, PLIC_START, PLIC_END, rw, a);
    lemma_region_permissions(m12, PLIC_CONTEXT_START, PLIC_CONTEXT_END, rw, a);
}

/// The page of `a` is one that `id_map_range(start, end)` maps: from the
/// page of `start` up to `end` rounded up to a page.
pub open spec fn range_maps_page_of(start: usize, end: usize, a: usize) -> bool {
    page_floor(start) <= a < align_up(end, 12)
}

/// The permission bits of the entry for the page of `a`.
pub open spec fn permission_bits(m: Map<usize, i64>, a: usize) -> i64 {
    m[vpn(a)] & 0x3ffi64
}

/// The page of `a` is mapped read/write after the text and read-only data:
/// it belongs to the data, bss or stack section, a device page or a PLIC range.
pub open spec fn in_late_read_write(l: KernelLayout, a: usize) -> bool {
    ||| range_maps_page_of(l.data_start, l.data_end, a)
    ||| range_maps_page_of(l.bss_start, l.bss_end, a)
    ||| range_maps_page_of(l.kernel_stack_start, l.kernel_stack_end, a)
    ||| UART_BASE <= a < UART_BASE + 4096
    ||| CLINT_MSIP <= a < CLINT_MSIP + 4096
    ||| CLINT_MTIMECMP <= a < CLINT_MTIMECMP + 4096
    ||| CLINT_MTIME <= a < CLINT_MTIME + 4096
    ||| range_maps_page_of(PLIC_START, PLIC_END, a)
    ||| range_maps_page_of(PLIC_CONTEXT_START, PLIC_CONTEXT_END, a)
}

/// The page of `a` belongs to the text or the read-only data.
pub open spec fn in_code(l: KernelLayout, a: usize) -> bool {
    ||| range_maps_page_of(l.text_start, l.text_end, a)
    ||| range_maps_page_of(l.rodata_start, l.rodata_end, a)
}

/// The page of `a` belongs to the heap allocations or the heap descriptors.
pub open spec fn in_heap(l: KernelLayout, a: usize) -> bool {
    ||| range_maps_page_of(l.kheap_head, kheap_end(l) as usize, a)
    ||| range_maps_page_of(l.heap_start, heap_descr_end(l) as usize, a)
}

proof fn lemma_region_entry(m: Map<usize, i64>, start: usize, end: usize, bits: i64, a: usize)
    requires
        start <= end,
        end <= 0x80_0000_0000,
        end + 0xfff <= usize::MAX,
        0 <= bits < 1024,
        a < 0x80_0000_0000,
    ensures
        range_maps_page_of(start, end, a) ==> id_mapped(m, start, end, bits).contains_key(vpn(a))
            && permission_bits(id_mapped(m, start, end, bits), a) == bits | 1i64,
        !range_maps_page_of(start, end, a) ==> id_mapped(m, start, end, bits).contains_key(vpn(a))
            == m.contains_key(vpn(a)),
        !range_maps_page_of(start, end, a) && m.contains_key(vpn(a)) ==> id_mapped(
            m,
            start,
            end,
            bits,
        )[vpn(a)] == m[vpn(a)],
{
    law_id_map_range_entries(m, start, end, bits, a);
    if range_maps_page_of(start, end, a) {
        lemma_floor_below(a);
        law_leaf_entry_fields(page_floor(a), bits);
    }
}

proof fn lemma_device_entry(m: Map<usize, i64>, p: usize, bits: i64, a: usize)
    requires
        p % 4096 == 0,
        p + 4096 <= 0x80_0000_0000,
        0 <= bits < 1024,
        a < 0x80_0000_0000,
    ensures
        p <= a < p + 4096 ==> m.insert(vpn(p), leaf_entry(p, bits)).contains_key(vpn(a))
            && permission_bits(m.insert(vpn(p), leaf_entry(p, bits)), a) == bits | 1i64,
        !(p <= a < p + 4096) ==> m.insert(vpn(p), leaf_entry(p, bits)).contains_key(vpn(a))
            == m.contains_key(vpn(a)),
        !(p <= a < p + 4096) && m.contains_key(vpn(a)) ==> m.insert(vpn(p), leaf_entry(p, bits))[vpn(
            a,
        )] == m[vpn(a)],
{
    lemma_aligned_is_multiple(p);
    lemma_below_sv39(a);
    lemma_below_sv39(p);
    law_leaf_entry_fields(p, bits);
    if p <= a < p + 4096 {
        lemma_same_vpn(p, a);
    } else {
        lemma_other_page(p, a);
    }
}

/// Each part of the kernel gets the permissions it is mapped with, the last
/// mapping of a page deciding: data, bss, stack, device and PLIC pages are
/// `V|R|W`; text and read-only data pages not mapped again later are
/// `V|R|X`; heap pages not mapped again later are `V|R|W`; every other page
/// below 2^39 keeps the entry it had.
pub proof fn law_kernel_map_region_permissions(m: Map<usize, i64>, l: KernelLayout, a: usize)
    requires
        layout_ok(l),
        layout_in_sv39(l),
        a < 0x80_0000_0000,
    ensures
        in_late_read_write(l, a) ==> kernel_leaves(m, l).contains_key(vpn(a)) && permission_bits(
            kernel_leaves(m, l),
            a,
        ) == 7,
        in_code(l, a) && !in_late_read_write(l, a) ==> kernel_leaves(m, l).contains_key(vpn(a))
            && permission_bits(kernel_leaves(m, l), a) == 11,
        in_heap(l, a) && !in_code(l, a) && !in_late_read_write(l, a) ==> kernel_leaves(
            m,
            l,
        ).contains_key(vpn(a)) && permission_bits(kernel_leaves(m, l), a) == 7,
        !in_heap(l, a) && !in_code(l, a) && !in_late_read_write(l, a) ==> kernel_leaves(
            m,
            l,
        ).contains_key(vpn(a)) == m.contains_key(vpn(a)),
        !in_heap(l, a) && !in_code(l, a) && !in_late_read_write(l, a) && m.contains_key(vpn(a))
            ==> kernel_leaves(m, l)[vpn(a)] == m[vpn(a)],
{
    let rw = entry_bits_value(EntryBits::ReadWrite);
    let rx = entry_bits_value(EntryBits::ReadExecute);
    let m1 = id_mapped(m, l.kheap_head, kheap_end(l) as usize, rw);
    let m2 = id_mapped(m1, l.heap_start, heap_descr_end(l) as usize, rw);
    let m3 = id_mapped(m2, l.text_start, l.text_end, rx);
    let m4 = id_mapped(m3, l.rodata_start, l.rodata_end, rx);
    let m5 = id_mapped(m4, l.data_start, l.data_end, rw);
    let m6 = id_mapped(m5, l.bss_start, l.bss_end, rw);
    let m7 = id_mapped(m6, l.kernel_stack_start, l.kernel_stack_end, rw);
    let m8 = m7.insert(vpn(UART_BASE), leaf_entry(UART_BASE, rw));
    let m9 = m8.insert(vpn(CLINT_MSIP), leaf_entry(CLINT_MSIP, rw));
    let m10 = m9.insert(vpn(CLINT_MTIMECMP), leaf_entry(CLINT_MTIMECMP, rw));
    let m11 = m10.insert(vpn(CLINT_MTIME), leaf_entry(CLINT_MTIME, rw));
    let m12 = id_mapped(m11, PLIC_START, PLIC_END, rw);
    lemma_permission_values();
    lemma_region_entry(m, l.kheap_head, kheap_end(l) as usize, rw, a);
    lemma_region_entry(m1, l.heap_start, heap_descr_end(l) as usize, rw, a);
    lemma_region_entry(m2, l.text_start, l.text_end, rx, a);
    lemma_region_entry(m3, l.rodata_start, l.rodata_end, rx, a);
    lemma_region_entry(m4, l.data_start, l.data_end, rw, a);
    lemma_region_entry(m5, l.bss_start, l.bss_end, rw, a);
    lemma_region_entry(m6, l.kernel_stack_start, l.kernel_stack_end, rw, a);
    lemma_device_entry(m7, UART_BASE, rw, a);
    lemma_device_entry(m8, CLINT_MSIP, rw, a);
    lemma_device_entry(m9, CLINT_MTIMECMP, rw, a);
    lemma_device_entry(m10, CLINT_MTIME, rw, a);
    lemma_region_entry(m11, PLIC_START, PLIC_END, rw, a);
    lemma_region_entry(m12, PLIC_CONTEXT_START, PLIC_CONTEXT_END, rw, a);
}

} // verus!
