use lib_sorrow::error::{FrameCondition, FrameError, MemoryError, PhysicalMemoryOffsetError};
use lib_sorrow::memory::{
    initialize, try_get_physical_memory_offset, BootInfoFrameAllocator, EmptyFrameAllocator,
};
use lib_sorrow::paging::{
    p1_index, p2_index, p3_index, p4_index, page_offset, translate_address, PageTable,
    PageTableEntry, PhysicalMemoryView,
};
use lib_sorrow::region::{
    MemoryRegion, MemoryRegionKind, PhysFrame, RegionCatalog, FRAME_SIZE,
};

fn region(start: u64, end: u64, kind: MemoryRegionKind) -> MemoryRegion {
    MemoryRegion { start, end, kind }
}

fn catalog(regions: Vec<MemoryRegion>) -> RegionCatalog {
    RegionCatalog::new(regions).expect("the region list should be valid")
}

#[test]
fn four_frame_region_yields_exactly_four_frames() {
    let catalog = catalog(vec![region(0x0, 0x4000, MemoryRegionKind::Usable)]);
    let mut allocator = BootInfoFrameAllocator::new(catalog);
    assert_eq!(allocator.allocate_frame(), Some(PhysFrame { base: 0x0 }));
    assert_eq!(allocator.allocate_frame(), Some(PhysFrame { base: 0x1000 }));
    assert_eq!(allocator.allocate_frame(), Some(PhysFrame { base: 0x2000 }));
    assert_eq!(allocator.allocate_frame(), Some(PhysFrame { base: 0x3000 }));
    assert_eq!(allocator.allocate_frame(), None);
}

#[test]
fn usable_byte_count_bounds_the_allocations() {
    // Three usable frames spread over two regions, with reserved space
    // between them: exactly three allocations succeed.
    let catalog = catalog(vec![
        region(0x10000, 0x12000, MemoryRegionKind::Usable),
        region(0x12000, 0x20000, MemoryRegionKind::Bootloader),
        region(0x20000, 0x21000, MemoryRegionKind::Usable),
    ]);
    let mut allocator = BootInfoFrameAllocator::new(catalog);
    let mut bases = Vec::new();
    for _ in 0..3 {
        let frame = allocator.allocate_frame().expect("a usable frame should remain");
        bases.push(frame.base);
    }
    assert_eq!(allocator.allocate_frame(), None);
    assert_eq!(bases, vec![0x10000, 0x11000, 0x20000]);
}

#[test]
fn allocated_frames_are_distinct_and_aligned() {
    let catalog = catalog(vec![
        region(0x3000, 0x6000, MemoryRegionKind::Usable),
        region(0x9000, 0xb000, MemoryRegionKind::Usable),
    ]);
    let mut allocator = BootInfoFrameAllocator::new(catalog);
    let mut bases: Vec<u64> = Vec::new();
    while let Some(frame) = allocator.allocate_frame() {
        assert_eq!(frame.base % FRAME_SIZE, 0);
        assert!(!bases.contains(&frame.base));
        bases.push(frame.base);
    }
    assert_eq!(bases.len(), 5);
}

#[test]
fn reserved_only_catalog_allocates_nothing() {
    let catalog = catalog(vec![
        region(0x0, 0x8000, MemoryRegionKind::Bootloader),
        region(0x8000, 0x9000, MemoryRegionKind::UnknownUefi(7)),
    ]);
    let mut allocator = BootInfoFrameAllocator::new(catalog);
    assert_eq!(allocator.allocate_frame(), None);
}

#[test]
fn empty_allocator_never_yields() {
    let mut allocator = EmptyFrameAllocator;
    assert_eq!(allocator.allocate_frame(), None);
    assert_eq!(allocator.allocate_frame(), None);
}

#[test]
fn unaligned_usable_region_is_rejected() {
    let regions = vec![region(0x100, 0x4000, MemoryRegionKind::Usable)];
    assert!(RegionCatalog::new(regions).is_none());
}

#[test]
fn overlapping_regions_are_rejected() {
    let regions = vec![
        region(0x0, 0x3000, MemoryRegionKind::Usable),
        region(0x2000, 0x5000, MemoryRegionKind::Usable),
    ];
    assert!(RegionCatalog::new(regions).is_none());
}

#[test]
fn backwards_region_is_rejected() {
    let regions = vec![region(0x4000, 0x1000, MemoryRegionKind::Bootloader)];
    assert!(RegionCatalog::new(regions).is_none());
}

#[test]
fn partial_trailing_frame_is_still_handed_out() {
    // The byte range is stepped in frame-size strides, so a region that
    // ends mid-frame still yields a base for its last, partial stride.
    let catalog = catalog(vec![region(0x1000, 0x2800, MemoryRegionKind::Usable)]);
    let mut allocator = BootInfoFrameAllocator::new(catalog);
    assert_eq!(allocator.allocate_frame(), Some(PhysFrame { base: 0x1000 }));
    assert_eq!(allocator.allocate_frame(), Some(PhysFrame { base: 0x2000 }));
    assert_eq!(allocator.allocate_frame(), None);
}

#[test]
fn containing_address_rounds_down() {
    assert_eq!(PhysFrame::containing_address(0x1fff), PhysFrame { base: 0x1000 });
    assert_eq!(PhysFrame::containing_address(0x2000), PhysFrame { base: 0x2000 });
    assert_eq!(PhysFrame { base: 0x2000 }.start_address(), 0x2000);
}

#[test]
fn address_indices_decompose_the_address() {
    // Nine-bit index fields packed from level 4 down, plus a page offset.
    let address: u64 = (17u64 << 39) | (0x55u64 << 30) | (0xf0u64 << 21) | (0x1ccu64 << 12) | 0xabc;
    assert_eq!(p4_index(address), 17);
    assert_eq!(p3_index(address), 0x55);
    assert_eq!(p2_index(address), 0xf0);
    assert_eq!(p1_index(address), 0x1cc);
    assert_eq!(page_offset(address), 0xabc);
}

/// A view whose four levels map `address` down to the data frame at
/// `leaf`, with every entry present.
fn mapped_view(address: u64, leaf: u64) -> PhysicalMemoryView {
    let mut view = PhysicalMemoryView::new(0);
    let mut l4 = PageTable::empty();
    l4.set_entry(p4_index(address), PageTableEntry::mapping(PhysFrame { base: 0x2000 }));
    let mut l3 = PageTable::empty();
    l3.set_entry(p3_index(address), PageTableEntry::mapping(PhysFrame { base: 0x3000 }));
    let mut l2 = PageTable::empty();
    l2.set_entry(p2_index(address), PageTableEntry::mapping(PhysFrame { base: 0x4000 }));
    let mut l1 = PageTable::empty();
    l1.set_entry(p1_index(address), PageTableEntry::mapping(PhysFrame { base: leaf }));
    view.map_table(0x1000, l4);
    view.map_table(0x2000, l3);
    view.map_table(0x3000, l2);
    view.map_table(0x4000, l1);
    view
}

#[test]
fn present_path_translates_to_leaf_plus_offset() {
    let address: u64 = (3u64 << 39) | (7u64 << 30) | (11u64 << 21) | (13u64 << 12) | 0x6ef;
    let view = mapped_view(address, 0xabcd000);
    let result = translate_address(address, 0x1000, &view);
    assert_eq!(result, Ok(0xabcd000 + 0x6ef));
}

#[test]
fn translate_is_idempotent_on_unchanged_tables() {
    let address: u64 = (1u64 << 39) | (2u64 << 30) | (3u64 << 21) | (4u64 << 12) | 0x123;
    let view = mapped_view(address, 0x7000);
    let first = translate_address(address, 0x1000, &view);
    let second = translate_address(address, 0x1000, &view);
    assert_eq!(first, second);
    assert_eq!(first, Ok(0x7000 + 0x123));
}

#[test]
fn absent_level_2_entry_reports_frame_not_present() {
    let address: u64 = (5u64 << 39) | (6u64 << 30) | (7u64 << 21) | (8u64 << 12) | 0x10;
    let mut view = PhysicalMemoryView::new(0);
    let mut l4 = PageTable::empty();
    l4.set_entry(p4_index(address), PageTableEntry::mapping(PhysFrame { base: 0x2000 }));
    let mut l3 = PageTable::empty();
    l3.set_entry(p3_index(address), PageTableEntry::mapping(PhysFrame { base: 0x3000 }));
    // The level-2 table leaves the selected entry absent.
    let l2 = PageTable::empty();
    view.map_table(0x1000, l4);
    view.map_table(0x2000, l3);
    view.map_table(0x3000, l2);
    let result = translate_address(address, 0x1000, &view);
    assert_eq!(
        result,
        Err(MemoryError::Frame(FrameError {
            condition: FrameCondition::FrameNotPresent,
            requested_address: address,
        }))
    );
}

#[test]
fn huge_page_entry_reports_huge_frame_unsupported() {
    let address: u64 = (5u64 << 39) | (6u64 << 30) | (7u64 << 21) | (8u64 << 12) | 0x10;
    let mut view = PhysicalMemoryView::new(0);
    let mut l4 = PageTable::empty();
    l4.set_entry(p4_index(address), PageTableEntry::mapping(PhysFrame { base: 0x2000 }));
    let mut l3 = PageTable::empty();
    l3.set_entry(p3_index(address), PageTableEntry::huge_mapping(PhysFrame { base: 0x3000 }));
    view.map_table(0x1000, l4);
    view.map_table(0x2000, l3);
    let result = translate_address(address, 0x1000, &view);
    assert_eq!(
        result,
        Err(MemoryError::Frame(FrameError {
            condition: FrameCondition::HugeFrameUnsupported,
            requested_address: address,
        }))
    );
}

#[test]
fn entry_decoding_matches_the_hardware_bits() {
    assert_eq!(
        PageTableEntry::absent().frame(),
        Err(FrameCondition::FrameNotPresent)
    );
    let mapping = PageTableEntry::mapping(PhysFrame { base: 0x5000 });
    assert_eq!(mapping.frame(), Ok(PhysFrame { base: 0x5000 }));
    let huge = PageTableEntry::huge_mapping(PhysFrame { base: 0x5000 });
    assert_eq!(huge.frame(), Err(FrameCondition::HugeFrameUnsupported));
}

#[test]
fn missing_offset_fails_mapper_bootstrap() {
    let result = initialize(None, 0x1000);
    assert_eq!(
        result.map(|m| m.level_4_table_base),
        Err(MemoryError::PhysicalMemoryOffset(PhysicalMemoryOffsetError))
    );
}

#[test]
fn supplied_offset_builds_the_mapper() {
    let mapper = initialize(Some(0xffff_8000_0000_0000), 0x1000).expect("the offset was supplied");
    assert_eq!(mapper.physical_memory_offset, 0xffff_8000_0000_0000);
    assert_eq!(mapper.level_4_table_base, 0x1000);

    let address: u64 = (9u64 << 39) | (1u64 << 30) | (2u64 << 21) | (3u64 << 12) | 0x321;
    let view = mapped_view(address, 0x9000);
    assert_eq!(mapper.translate(address, &view), Ok(0x9000 + 0x321));
}

#[test]
fn try_get_physical_memory_offset_reports_absence() {
    assert_eq!(try_get_physical_memory_offset(Some(0x1234)), Ok(0x1234));
    assert_eq!(
        try_get_physical_memory_offset(None),
        Err("Failed to acquire physical memory offset")
    );
}

#[test]
fn error_descriptions_match_their_conditions() {
    let not_present = FrameError {
        condition: FrameCondition::FrameNotPresent,
        requested_address: 0,
    };
    assert_eq!(not_present.description(), "frame not present");
    let huge = FrameError {
        condition: FrameCondition::HugeFrameUnsupported,
        requested_address: 0,
    };
    assert_eq!(huge.description(), "huge pages not supported");
    assert_eq!(
        PhysicalMemoryOffsetError.description(),
        "Physical memory offset not set"
    );
}

#[test]
fn view_reads_unknown_tables_as_absent() {
    let view = PhysicalMemoryView::new(0x100000);
    let entry = view.read_entry(0x1000, 0);
    assert_eq!(entry.frame(), Err(FrameCondition::FrameNotPresent));
    assert_eq!(view.virtual_address_of(0x2000), Some(0x102000));
    assert_eq!(view.virtual_address_of(u64::MAX), None);
}
