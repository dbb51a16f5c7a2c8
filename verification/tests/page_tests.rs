use learn_os::kernel::{map_kernel, satp_value, KernelLayout};
use learn_os::page::{align_val, id_map_range, leaf_of, virt_to_phys, EntryBits, Table, PAGE_SIZE};

#[test]
fn align_val_rounds_up() {
    assert_eq!(align_val(0, 12), 0);
    assert_eq!(align_val(1, 12), 4096);
    assert_eq!(align_val(4096, 12), 4096);
    assert_eq!(align_val(4097, 12), 8192);
    assert_eq!(align_val(5, 0), 5);
    assert_eq!(align_val(9, 3), 16);
}

#[test]
fn entry_bits_values() {
    assert_eq!(EntryBits::Valid.val(), 1);
    assert_eq!(EntryBits::ReadWrite.val(), 6);
    assert_eq!(EntryBits::ReadExecute.val(), 10);
    assert_eq!(EntryBits::ReadWriteExecute.val(), 14);
    assert_eq!(PAGE_SIZE, 4096);
}

#[test]
fn empty_table_maps_nothing() {
    let t = Table::new();
    assert_eq!(virt_to_phys(&t, 0x8000_0000), None);
}

#[test]
fn map_translates_the_page() {
    let mut t = Table::new();
    learn_os::page::map(&mut t, 0x4000_1000, 0x8020_3000, EntryBits::ReadWrite.val());
    assert_eq!(virt_to_phys(&t, 0x4000_1000), Some(0x8020_3000));
    assert_eq!(virt_to_phys(&t, 0x4000_1abc), Some(0x8020_3abc));
    assert_eq!(virt_to_phys(&t, 0x4000_2000), None);
    assert_eq!(virt_to_phys(&t, 0x4000_0fff), None);
}

#[test]
fn addresses_beyond_sv39_share_page_numbers() {
    let mut t = Table::new();
    learn_os::page::map(&mut t, 0x1000, 0x1000, EntryBits::ReadWrite.val());
    // only bits 12..39 select the page
    assert_eq!(virt_to_phys(&t, (1usize << 39) | 0x1234), Some(0x1234));
}

#[test]
fn id_map_range_maps_every_touched_page_to_itself() {
    let mut t = Table::new();
    id_map_range(&mut t, 0x8000_0800, 0x8000_3001, EntryBits::ReadExecute.val());
    for a in [0x8000_0000usize, 0x8000_0800, 0x8000_1fff, 0x8000_3000, 0x8000_3fff] {
        assert_eq!(virt_to_phys(&t, a), Some(a));
    }
    assert_eq!(virt_to_phys(&t, 0x8000_4000), None);
    assert_eq!(virt_to_phys(&t, 0x7fff_ffff), None);
}

#[test]
fn empty_aligned_range_maps_nothing() {
    let mut t = Table::new();
    id_map_range(&mut t, 0x8000_0000, 0x8000_0000, 0);
    assert_eq!(virt_to_phys(&t, 0x8000_0000), None);
}

#[test]
fn remapping_keeps_identity() {
    let mut t = Table::new();
    id_map_range(&mut t, 0x8000_0000, 0x8000_2000, EntryBits::ReadExecute.val());
    id_map_range(&mut t, 0x8000_1000, 0x8000_3000, EntryBits::ReadWrite.val());
    for a in [0x8000_0000usize, 0x8000_1234, 0x8000_2fff] {
        assert_eq!(virt_to_phys(&t, a), Some(a));
    }
}

fn layout() -> KernelLayout {
    KernelLayout {
        text_start: 0x8000_0000,
        text_end: 0x8000_5000,
        rodata_start: 0x8000_5000,
        rodata_end: 0x8000_6800,
        data_start: 0x8000_7000,
        data_end: 0x8000_8000,
        bss_start: 0x8000_8000,
        bss_end: 0x8000_9010,
        kernel_stack_start: 0x8001_0000,
        kernel_stack_end: 0x8009_0000,
        heap_start: 0x8009_0000,
        heap_size: 0x77_0000,
        kheap_head: 0x8010_0000,
        total_pages: 64,
    }
}

#[test]
fn kernel_map_is_identity() {
    let l = layout();
    let mut t = Table::new();
    map_kernel(&mut t, &l);
    let probes = [
        0x8000_0000usize,
        0x8000_4fff,
        0x8000_6000,
        0x8000_7abc,
        0x8000_9000,
        0x8001_0000,
        0x8008_ffff,
        0x8009_0000,
        0x8009_0000 + 0x77_0000 / 4096 - 1,
        0x8010_0000,
        0x8010_0000 + 64 * 4096 - 1,
        0x1000_0000,
        0x1000_0fff,
        0x0200_0000,
        0x0200_b008,
        0x0200_cff8,
        0x0c00_0000,
        0x0c00_1fff,
        0x0c20_0000,
        0x0c20_7fff,
    ];
    for a in probes {
        assert_eq!(virt_to_phys(&t, a), Some(a), "address {:#x}", a);
    }
    assert_eq!(virt_to_phys(&t, 0x8005_7000), Some(0x8005_7000));
    assert_eq!(virt_to_phys(&t, 0x8000_a000), None);
    assert_eq!(virt_to_phys(&t, 0x1000_1000), None);
    assert_eq!(virt_to_phys(&t, 0x0c00_2000), None);
}

#[test]
fn satp_selects_sv39_and_root_page() {
    assert_eq!(satp_value(0x8020_0000), (0x8020_0000u64 >> 12) | (8u64 << 60));
    assert_eq!(satp_value(0x8020_0000), 0x8000_0000_0008_0200);
    assert_eq!(satp_value(0), 8u64 << 60);
}

#[test]
fn leaf_entries_carry_page_number_and_permissions() {
    let mut t = Table::new();
    id_map_range(&mut t, 0x8000_0800, 0x8000_1001, EntryBits::ReadExecute.val());
    assert_eq!(leaf_of(&t, 0x8000_0abc), Some(((0x8000_0000i64 >> 12) << 10) | 11));
    assert_eq!(leaf_of(&t, 0x8000_1000), Some(((0x8000_1000i64 >> 12) << 10) | 11));
    assert_eq!(leaf_of(&t, 0x8000_2000), None);
}

#[test]
fn kernel_pages_are_read_write_or_read_execute() {
    let l = layout();
    let mut t = Table::new();
    map_kernel(&mut t, &l);
    // text is read/execute, data and devices are read/write
    assert_eq!(leaf_of(&t, 0x8000_1000).unwrap() & 0x3ff, 11);
    assert_eq!(leaf_of(&t, 0x8000_5000).unwrap() & 0x3ff, 11);
    assert_eq!(leaf_of(&t, 0x8000_7000).unwrap() & 0x3ff, 7);
    assert_eq!(leaf_of(&t, 0x8010_0000).unwrap() & 0x3ff, 7);
    assert_eq!(leaf_of(&t, 0x1000_0000).unwrap() & 0x3ff, 7);
    assert_eq!(leaf_of(&t, 0x0c20_0000).unwrap() & 0x3ff, 7);
}
