use stride_kernel::memory_set::{Area, MemorySet, MAP_PERM_R, MAP_PERM_U, MAP_PERM_W, MAP_PERM_X};

#[test]
fn mmap_zero_length_is_noop_success() {
    let mut m = MemorySet::new();
    m.insert_framed_area(0x2000, 0x3000, MAP_PERM_U);
    let before = m.areas.clone();
    assert_eq!(m.mmap(0x10000000, 0, 3), 0);
    assert_eq!(m.areas, before);
    // Even an unaligned start succeeds when the length is zero.
    assert_eq!(m.mmap(0x10000001, 0, 3), 0);
    assert_eq!(m.areas, before);
}

#[test]
fn mmap_rejects_empty_and_high_protection_bits() {
    let mut m = MemorySet::new();
    assert_eq!(m.mmap(0x10000000, 4096, 0), -1);
    assert_eq!(m.mmap(0x10000000, 4096, 8), -1);
    assert_eq!(m.mmap(0x10000000, 4096, 9), -1);
    assert_eq!(m.mmap(0x10000000, 4096, 16), -1);
    assert_eq!(m.areas.len(), 0);
}

#[test]
fn mmap_rejects_unaligned_start() {
    let mut m = MemorySet::new();
    assert_eq!(m.mmap(0x10000001, 4096, 3), -1);
    assert_eq!(m.mmap(4095, 1, 7), -1);
    assert_eq!(m.areas.len(), 0);
}

#[test]
fn mmap_installs_one_single_page_area_per_page() {
    let mut m = MemorySet::new();
    assert_eq!(m.mmap(0x10000000, 4096, 3), 0);
    // prot 3 (read + write) shifted onto the permission flags, plus User.
    let rw = MAP_PERM_R | MAP_PERM_W | MAP_PERM_U;
    assert_eq!(rw, 22);
    assert_eq!(
        m.areas,
        vec![Area { start_vpn: 0x10000, end_vpn: 0x10001, perm: rw }]
    );
    assert_eq!(MAP_PERM_R | MAP_PERM_W | MAP_PERM_X | MAP_PERM_U, 30);
    let mut m2 = MemorySet::new();
    assert_eq!(m2.mmap(0x4000, 4096 * 2 + 100, 7), 0);
    assert_eq!(
        m2.areas,
        vec![
            Area { start_vpn: 4, end_vpn: 5, perm: 30 },
            Area { start_vpn: 5, end_vpn: 6, perm: 30 },
            Area { start_vpn: 6, end_vpn: 7, perm: 30 },
        ]
    );
}

#[test]
fn mmap_rejects_overlap_with_existing_start_page() {
    let mut m = MemorySet::new();
    assert_eq!(m.mmap(0x4000, 4096, 3), 0);
    let before = m.areas.clone();
    assert_eq!(m.mmap(0x4000, 4096, 3), -1);
    assert_eq!(m.mmap(0x3000, 4096 * 2, 3), -1);
    assert_eq!(m.areas, before);
}

#[test]
fn mmap_then_munmap_restores_the_area_list() {
    let mut m = MemorySet::new();
    m.insert_framed_area(0x1000, 0x2000, 18);
    let before = m.areas.clone();
    assert_eq!(m.mmap(0x10000000, 4096 * 3, 3), 0);
    assert_eq!(m.areas.len(), before.len() + 3);
    assert_eq!(m.munmap(0x10000000, 4096 * 3), 0);
    assert_eq!(m.areas, before);
}

#[test]
fn munmap_zero_length_is_noop_success() {
    let mut m = MemorySet::new();
    assert_eq!(m.munmap(0x10000001, 0), 0);
    assert_eq!(m.munmap(0x10000000, 0), 0);
    assert_eq!(m.areas.len(), 0);
}

#[test]
fn munmap_rejects_unaligned_start() {
    let mut m = MemorySet::new();
    assert_eq!(m.mmap(0x4000, 4096, 3), 0);
    let before = m.areas.clone();
    assert_eq!(m.munmap(0x4001, 4096), -1);
    assert_eq!(m.areas, before);
}

#[test]
fn munmap_rejects_ranges_not_fully_covered() {
    let mut m = MemorySet::new();
    assert_eq!(m.mmap(0x4000, 4096, 3), 0);
    let before = m.areas.clone();
    // Two pages requested, only one area starts in the range.
    assert_eq!(m.munmap(0x4000, 4096 * 2), -1);
    assert_eq!(m.areas, before);
    // Nothing mapped at all here.
    assert_eq!(m.munmap(0x8000, 4096), -1);
    assert_eq!(m.areas, before);
}

#[test]
fn munmap_removes_every_area_starting_in_range() {
    let mut m = MemorySet::new();
    assert_eq!(m.mmap(0x4000, 4096 * 2, 3), 0);
    assert_eq!(m.mmap(0x8000, 4096, 3), 0);
    assert_eq!(m.areas.len(), 3);
    assert_eq!(m.munmap(0x4000, 4096 * 2), 0);
    assert_eq!(
        m.areas,
        vec![Area { start_vpn: 8, end_vpn: 9, perm: 22 }]
    );
}

#[test]
fn recycle_data_pages_clears_everything() {
    let mut m = MemorySet::new();
    assert_eq!(m.mmap(0x4000, 4096 * 4, 3), 0);
    m.recycle_data_pages();
    assert_eq!(m.areas.len(), 0);
}

#[test]
fn insert_framed_area_uses_floor_and_ceiling_pages() {
    let mut m = MemorySet::new();
    m.insert_framed_area(0x1800, 0x2801, 18);
    assert_eq!(
        m.areas,
        vec![Area { start_vpn: 1, end_vpn: 3, perm: 18 }]
    );
}
