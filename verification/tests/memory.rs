use kernel::memory::gdt::{DescriptorType, Gdt, SegmentDescriptorTable};
use kernel::memory::memory_map::{can_lay_out, free_table, pieces_count};
use kernel::memory::memory_map::{
    get_free_areas, layout_memory, BootloaderInfo, MemoryArea, MemoryAreaType, MemoryMap,
    MemoryMapEntry,
};
use kernel::memory::segmentation::{
    AccessFlags, Flags, SegmentDescriptor, SegmentSelector, TableType,
};
use kernel::memory::{encode_entry_at, setup_descriptors, KERNEL_SEGMENT_LIMIT};
use kernel::dtables::DescriptorTable;

fn pair(a: &MemoryArea) -> (usize, usize) {
    (a.base, a.size)
}

fn piece(a: &Option<MemoryArea>) -> Option<(usize, usize)> {
    a.as_ref().map(pair)
}

#[test]
fn memory_area_type_reads_the_map_codes() {
    assert_eq!(MemoryAreaType::from(1), MemoryAreaType::Free);
    assert_eq!(MemoryAreaType::from(2), MemoryAreaType::Reserved);
    assert_eq!(MemoryAreaType::from(3), MemoryAreaType::AcpiNonVolatile);
    assert_eq!(MemoryAreaType::from(4), MemoryAreaType::AcpiReclaimable);
    assert_eq!(MemoryAreaType::from(5), MemoryAreaType::Bad);
    assert_eq!(MemoryAreaType::Free.as_u32(), 1);
    assert_eq!(MemoryAreaType::AcpiReclaimable.as_u32(), 3);
    assert_eq!(MemoryAreaType::Bad.as_u32(), 5);
}

#[test]
fn memory_map_entry_getters() {
    let e = MemoryMapEntry::new(0x100000, 0x2000, 2, 7);
    assert_eq!(e.get_base(), 0x100000);
    assert_eq!(e.get_size(), 0x2000);
    assert_eq!(e.get_region_type(), MemoryAreaType::Reserved);
    let a = MemoryArea::from(e);
    assert_eq!(pair(&a), (0x100000, 0x2000));
    assert_eq!(pair(&MemoryArea::empty()), (0, 0));
}

#[test]
fn subtract_cuts_out_the_middle() {
    let a = MemoryArea::new(100, 100);
    let r = a.subtract(&MemoryArea::new(150, 10));
    assert_eq!(piece(&r.0), Some((100, 50)));
    assert_eq!(piece(&r.1), Some((160, 40)));
}

#[test]
fn subtract_at_either_end_and_over_the_whole() {
    let a = MemoryArea::new(100, 100);
    let low = a.subtract(&MemoryArea::new(50, 100));
    assert_eq!(piece(&low.0), None);
    assert_eq!(piece(&low.1), Some((150, 50)));
    let high = a.subtract(&MemoryArea::new(180, 100));
    assert_eq!(piece(&high.0), Some((100, 80)));
    assert_eq!(piece(&high.1), None);
    let whole = a.subtract(&MemoryArea::new(0, 300));
    assert_eq!(piece(&whole.0), None);
    assert_eq!(piece(&whole.1), None);
    // an area below the other is left whole, as the lower part
    let below = a.subtract(&MemoryArea::new(300, 10));
    assert_eq!(piece(&below.0), Some((100, 100)));
    assert_eq!(piece(&below.1), None);
}

#[test]
fn subtract_of_an_area_below_gives_an_overlong_upper_part() {
    // the area lies wholly above the other: the upper part keeps the
    // area's base but is as long as the distance from the other's end
    let a = MemoryArea::new(100, 10);
    let r = a.subtract(&MemoryArea::new(0, 10));
    assert_eq!(piece(&r.0), None);
    assert_eq!(piece(&r.1), Some((100, 100)));
}

#[test]
fn subtract_parts_are_the_difference_on_concrete_addresses() {
    let a = MemoryArea::new(1000, 500);
    let o = MemoryArea::new(1200, 100);
    let (before, after) = a.subtract(&o);
    let before = before.unwrap();
    let after = after.unwrap();
    for x in 900usize..1600 {
        let in_a = a.base <= x && x < a.base + a.size;
        let in_o = o.base <= x && x < o.base + o.size;
        let in_before = before.base <= x && x < before.base + before.size;
        let in_after = after.base <= x && x < after.base + after.size;
        assert_eq!(in_before || in_after, in_a && !in_o);
        assert!(!(in_before && in_after));
    }
}

#[test]
fn get_free_areas_cuts_the_kernel_out() {
    let mut map = [MemoryArea::empty(); 10];
    map[0] = MemoryArea::new(0, 0x9fc00);
    map[1] = MemoryArea::new(0x100000, 0x1000000);
    let occupied = [MemoryArea::new(0x100000, 0x20000)];
    let r = get_free_areas(&map, &occupied);
    assert_eq!(pair(&r[0]), (0, 0x9fc00));
    assert_eq!(pair(&r[1]), (0x120000, 0xfe0000));
    for i in 2..10 {
        assert_eq!(pair(&r[i]), (0, 0));
    }
    // nothing occupied: the table comes back as it was
    let same = get_free_areas(&map, &[]);
    for i in 0..10 {
        assert_eq!(pair(&same[i]), pair(&map[i]));
    }
}

fn sample_entries() -> Vec<MemoryMapEntry> {
    vec![
        MemoryMapEntry::new(0, 0x9fc00, 1, 0),
        MemoryMapEntry::new(0x9fc00, 0x400, 2, 0),
        MemoryMapEntry::new(0xe0000, 0x20000, 3, 0),
        MemoryMapEntry::new(0x100000, 0x1000000, 1, 0),
    ]
}

#[test]
fn amount_of_free_areas_counts_free_entries() {
    let entries = sample_entries();
    let map = MemoryMap { memory_map: &entries };
    assert_eq!(map.amount_of_free_areas(), 2);
    let none = MemoryMap { memory_map: &[] };
    assert_eq!(none.amount_of_free_areas(), 0);
}

#[test]
fn layout_memory_puts_the_heap_in_the_first_free_area() {
    let entries = sample_entries();
    let map = MemoryMap { memory_map: &entries };
    let info = BootloaderInfo {
        memory_map_count: 4,
        memory_map_addr: 0x500,
        kernel_start: 0x100000,
        kernel_end: 0x120000,
    };
    let layout = layout_memory(&info, &map);
    assert_eq!(piece(&layout.heap_area), Some((0, 0x9fc00)));
    assert_eq!(layout.free_areas.len(), 9);
    assert_eq!(pair(&layout.free_areas[0]), (0x120000, 0xfe0000));
    for i in 1..9 {
        assert_eq!(pair(&layout.free_areas[i]), (0, 0));
    }
}

#[test]
fn layout_memory_skips_a_heap_under_a_page() {
    let entries = vec![
        MemoryMapEntry::new(0x1000, 0x800, 1, 0),
        MemoryMapEntry::new(0x100000, 0x100000, 1, 0),
    ];
    let map = MemoryMap { memory_map: &entries };
    let info = BootloaderInfo {
        memory_map_count: 2,
        memory_map_addr: 0x500,
        kernel_start: 0x100000,
        kernel_end: 0x110000,
    };
    let layout = layout_memory(&info, &map);
    assert_eq!(piece(&layout.heap_area), None);
    assert_eq!(pair(&layout.free_areas[0]), (0x110000, 0xf0000));
}

#[test]
fn segment_descriptor_packs_the_classic_flat_segments() {
    let code = SegmentDescriptor::new(0, 0xffffffff, 0x9A, 0xC);
    let data = SegmentDescriptor::new(0, 0xffffffff, 0x92, 0xC);
    assert_eq!(code.encode(), 0x00CF_9A00_0000_FFFF);
    assert_eq!(data.encode(), 0x00CF_9200_0000_FFFF);
    let odd = SegmentDescriptor::new(0x12345678, 0x000ABCDE, 0xFA, 0x4);
    assert_eq!(odd.encode(), 0x124A_FA34_5678_BCDE);
}

#[test]
fn encode_entry_at_fills_one_slot() {
    let mut table = [0u64; 5];
    encode_entry_at(&mut table, 1, SegmentDescriptor::new(0, 0xffffffff, 0x9A, 0xC));
    encode_entry_at(&mut table, 2, SegmentDescriptor::new(0, 0xffffffff, 0x92, 0xC));
    assert_eq!(table, [0, 0x00CF_9A00_0000_FFFF, 0x00CF_9200_0000_FFFF, 0, 0]);
}

#[test]
fn flags_and_selectors() {
    assert_eq!(AccessFlags::Present.bits(), 0x80);
    assert_eq!(AccessFlags::PL3.bits(), 0x60);
    assert_eq!(AccessFlags::AlwaysOne.bits(), 0x10);
    assert_eq!(Flags::Granularity.bits(), 0x08);
    assert_eq!(Flags::Size.bits(), 0x04);
    assert_eq!(TableType::LDT.bit(), 1);
    assert_eq!(SegmentSelector::new(2, TableType::LDT, 3), 23);
    assert_eq!(SegmentSelector::new(1, TableType::GDT, 0), 8);
    assert_eq!(DescriptorType::UserData.index(), 6);
}

#[test]
fn setup_descriptors_fills_the_kernel_segments() {
    let mut gdt: SegmentDescriptorTable = DescriptorTable::new();
    let (data, code) = setup_descriptors(&mut gdt);
    assert_eq!((data, code), (0x10, 0x08));
    assert_eq!(KERNEL_SEGMENT_LIMIT, 0x13e9a3);
    let entries = gdt.as_ref().unwrap();
    assert_eq!(
        entries,
        &[0, 0x0043_9A00_0000_E9A3, 0x0043_9200_0000_E9A3, 0, 0, 0, 0][..]
    );
}

#[test]
fn gdt_tss_ldt_and_selectors() {
    let mut gdt: SegmentDescriptorTable = DescriptorTable::new();
    gdt.init();
    assert_eq!(gdt.as_ref().unwrap(), &[0u64; 7][..]);
    gdt.set_tss(0x1000, 0x68);
    let mut ldt: SegmentDescriptorTable = DescriptorTable::new();
    ldt.init_with_length(3);
    gdt.set_ldt(&ldt, 0x2000);
    let entries = gdt.as_ref().unwrap();
    assert_eq!(entries[3], 0x0040_8900_1000_1068);
    assert_eq!(entries[4], 0x0040_E200_2000_2018);
    assert_eq!(gdt.get_selector(DescriptorType::UserCode, 3), 43);
    assert_eq!(gdt.get_selector(DescriptorType::KernelData, 0), 0x10);
}

#[test]
fn can_lay_out_checks_what_layout_memory_needs() {
    let entries = sample_entries();
    let map = MemoryMap { memory_map: &entries };
    let info = BootloaderInfo {
        memory_map_count: 4,
        memory_map_addr: 0x500,
        kernel_start: 0x100000,
        kernel_end: 0x120000,
    };
    assert!(can_lay_out(&info, &map));
    let table = free_table(&map);
    assert_eq!(pair(&table[0]), (0, 0x9fc00));
    assert_eq!(pair(&table[1]), (0x100000, 0x1000000));
    assert_eq!(pieces_count(&table, &MemoryArea::new(0x100000, 0x20000)), Some(10));
    // a kernel strictly inside a free area splits it: eleven pieces
    assert_eq!(pieces_count(&table, &MemoryArea::new(0x200000, 0x1000)), Some(11));
    let inside = BootloaderInfo { kernel_start: 0x200000, kernel_end: 0x201000, ..info };
    assert!(!can_lay_out(&inside, &map));
    let backwards = BootloaderInfo { kernel_start: 0x120000, kernel_end: 0x100000, ..info };
    assert!(!can_lay_out(&backwards, &map));
    let unknown = vec![MemoryMapEntry::new(0, 0x1000, 9, 0)];
    assert!(!can_lay_out(&info, &MemoryMap { memory_map: &unknown }));
    assert!(!MemoryMapEntry::new(0, 0x1000, 9, 0).has_known_type());
    let mut overflowing = [MemoryArea::empty(); 10];
    overflowing[3] = MemoryArea::new(usize::MAX, 2);
    assert_eq!(pieces_count(&overflowing, &MemoryArea::new(0, 1)), None);
}

#[test]
fn an_area_inside_the_occupied_one_is_kept_whole() {
    let mut map = [MemoryArea::empty(); 10];
    map[0] = MemoryArea::new(0x100000, 0x1000);
    let r = get_free_areas(&map, &[MemoryArea::new(0x100000, 0x20000)]);
    assert_eq!(pair(&r[0]), (0x100000, 0x1000));
}
